//! The soundboard's table of resonant modes.
//!
//! A soundboard is a bank of damped normal modes, each with a frequency, a decay
//! time and a gain. Ringing them is the renderer's work; this module holds the
//! table they are built from and keeps every entry inside what a resonator can
//! take.
use crate::binary32::Binary32;
use crate::math;
use vstd::prelude::*;

verus! {

/// How many resonant modes make up the bank.
pub const MODE_COUNT: usize = 8;

/// Shortest decay time of a mode, 0.01 s.
pub const MIN_DECAY_SECONDS_BITS: u32 = 0x3c23_d70a;

/// Longest decay time: the largest finite number.
pub const MAX_DECAY_SECONDS_BITS: u32 = 0x7f7f_ffff;

/// Lowest mode frequency, 1 Hz.
pub const MIN_MODE_FREQUENCY_BITS: u32 = 0x3f80_0000;

/// Highest mode frequency, 20 kHz.
pub const MAX_MODE_FREQUENCY_BITS: u32 = 0x469c_4000;

/// Highest relative gain of one mode, 4.
pub const MAX_MODE_GAIN_BITS: u32 = 0x4080_0000;

/// One soundboard mode's physical parameters.
#[derive(Debug, Clone, Copy, PartialEq, Eq, Structural)]
pub struct SoundboardMode {
    /// Mode frequency, in hertz.
    pub frequency_hz: Binary32,
    /// Time for this mode's contribution to decay to `1/e`, in seconds.
    pub decay_seconds: Binary32,
    /// Relative gain of this mode in the mixed output.
    pub gain: Binary32,
}

/// `mode` with every field inside what a resonator can take; a NaN goes to the
/// low bound.
pub open spec fn sanitized(mode: SoundboardMode) -> SoundboardMode {
    SoundboardMode {
        frequency_hz: math::bounded(
            mode.frequency_hz,
            Binary32::from_bits(MIN_MODE_FREQUENCY_BITS),
            Binary32::from_bits(MAX_MODE_FREQUENCY_BITS),
        ),
        decay_seconds: math::bounded(
            mode.decay_seconds,
            Binary32::from_bits(MIN_DECAY_SECONDS_BITS),
            Binary32::from_bits(MAX_DECAY_SECONDS_BITS),
        ),
        gain: math::bounded(
            mode.gain,
            Binary32::from_bits(0),
            Binary32::from_bits(MAX_MODE_GAIN_BITS),
        ),
    }
}

/// Every field is inside its range.
pub open spec fn is_sane(mode: SoundboardMode) -> bool {
    &&& mode.frequency_hz.within(
        Binary32::from_bits(MIN_MODE_FREQUENCY_BITS),
        Binary32::from_bits(MAX_MODE_FREQUENCY_BITS),
    )
    &&& mode.decay_seconds.within(
        Binary32::from_bits(MIN_DECAY_SECONDS_BITS),
        Binary32::from_bits(MAX_DECAY_SECONDS_BITS),
    )
    &&& mode.gain.within(Binary32::from_bits(0), Binary32::from_bits(MAX_MODE_GAIN_BITS))
}

/// A mode given by the bits of its three parameters.
#[verifier::allow_in_spec]
pub fn mode(frequency: u32, decay: u32, gain: u32) -> SoundboardMode
    returns
        (SoundboardMode {
            frequency_hz: Binary32::from_bits(frequency),
            decay_seconds: Binary32::from_bits(decay),
            gain: Binary32::from_bits(gain),
        }),
{
    SoundboardMode {
        frequency_hz: Binary32::from_bits(frequency),
        decay_seconds: Binary32::from_bits(decay),
        gain: Binary32::from_bits(gain),
    }
}

/// The table every board starts from: eight modes from 80 Hz to 1.4 kHz, the
/// higher ones shorter and quieter.
pub open spec fn default_modes() -> Seq<SoundboardMode> {
    seq![
        mode(0x42a0_0000, 0x3f99_999a, 0x3f80_0000),
        mode(0x4302_0000, 0x3f80_0000, 0x3f4c_cccd),
        mode(0x433e_0000, 0x3f4c_cccd, 0x3f33_3333),
        mode(0x438c_0000, 0x3f19_999a, 0x3f19_999a),
        mode(0x43d2_0000, 0x3f00_0000, 0x3f00_0000),
        mode(0x4422_8000, 0x3ecc_cccd, 0x3ecc_cccd),
        mode(0x446d_8000, 0x3e99_999a, 0x3e99_999a),
        mode(0x44af_0000, 0x3e80_0000, 0x3e80_0000),
    ]
}

/// Clamps every field of `mode` into what a resonator can take. Total for every
/// field, NaN and infinities among them.
pub fn sanitize_mode(mode: SoundboardMode) -> (sane: SoundboardMode)
    ensures
        sane == sanitized(mode),
        is_sane(sane),
        is_sane(mode) ==> sane == mode,
{
    SoundboardMode {
        frequency_hz: math::clamp_or_low(
            mode.frequency_hz,
            Binary32::from_bits(MIN_MODE_FREQUENCY_BITS),
            Binary32::from_bits(MAX_MODE_FREQUENCY_BITS),
        ),
        decay_seconds: math::clamp_or_low(
            mode.decay_seconds,
            Binary32::from_bits(MIN_DECAY_SECONDS_BITS),
            Binary32::from_bits(MAX_DECAY_SECONDS_BITS),
        ),
        gain: math::clamp_or_low(
            mode.gain,
            Binary32::from_bits(0),
            Binary32::from_bits(MAX_MODE_GAIN_BITS),
        ),
    }
}

/// The modes of one soundboard.
#[derive(Debug, Clone)]
pub struct Soundboard {
    modes: Vec<SoundboardMode>,
}

impl Soundboard {
    /// There are [`MODE_COUNT`] modes, all of them sane.
    pub closed spec fn wf(&self) -> bool {
        &&& self.modes@.len() == MODE_COUNT
        &&& forall|i: int| 0 <= i < MODE_COUNT ==> is_sane(#[trigger] self.modes@[i])
    }

    /// The modes in order.
    pub closed spec fn view(&self) -> Seq<SoundboardMode> {
        self.modes@
    }

    /// A soundboard with the default modes.
    pub fn new() -> (board: Self)
        ensures
            board.wf(),
            board@ == default_modes(),
    {
        let modes: Vec<SoundboardMode> = vec![
            mode(0x42a0_0000, 0x3f99_999a, 0x3f80_0000),
            mode(0x4302_0000, 0x3f80_0000, 0x3f4c_cccd),
            mode(0x433e_0000, 0x3f4c_cccd, 0x3f33_3333),
            mode(0x438c_0000, 0x3f19_999a, 0x3f19_999a),
            mode(0x43d2_0000, 0x3f00_0000, 0x3f00_0000),
            mode(0x4422_8000, 0x3ecc_cccd, 0x3ecc_cccd),
            mode(0x446d_8000, 0x3e99_999a, 0x3e99_999a),
            mode(0x44af_0000, 0x3e80_0000, 0x3e80_0000),
        ];
        assert(modes@ =~= default_modes());
        Soundboard { modes }
    }

    /// Replaces mode `index` with `mode`, clamped into range. An index outside
    /// the bank changes nothing.
    pub fn set_mode(&mut self, index: usize, mode: SoundboardMode)
        requires
            old(self).wf(),
        ensures
            final(self).wf(),
            final(self)@ == if index < MODE_COUNT {
                old(self)@.update(index as int, sanitized(mode))
            } else {
                old(self)@
            },
    {
        if index < self.modes.len() {
            let sane = sanitize_mode(mode);
            self.modes.set(index, sane);
        }
    }

    /// Mode `index`, where the bank has it.
    pub fn mode_at(&self, index: usize) -> (found: Option<SoundboardMode>)
        requires
            self.wf(),
        ensures
            self@.len() == MODE_COUNT,
            found == if index < MODE_COUNT {
                Some(self@[index as int])
            } else {
                None
            },
            found matches Some(mode) ==> is_sane(mode),
    {
        if index < self.modes.len() {
            Some(self.modes[index])
        } else {
            None
        }
    }
}

/// Most that may drive the board, 1e6. What is mixed before the board has no bound
/// of its own, and a resonator that is driven by an infinity never recovers.
pub const MAX_DRIVE_BITS: u32 = 0x4974_2400;

/// Least that may drive the board, -1e6.
pub const MIN_DRIVE_BITS: u32 = 0xc974_2400;

/// One mode ringing: the coefficients worked out for it, and its last two outputs.
#[derive(Debug, Clone, Copy)]
pub struct Resonator<C> {
    /// What the mode's parameters come to.
    pub coefficients: C,
    /// The output before.
    pub state1: Binary32,
    /// The one before that.
    pub state2: Binary32,
}

/// `after` is `before` rung once by `drive`: `ring` works out the output from the
/// coefficients, the last two outputs and the drive.
pub open spec fn is_rung<C, R: Fn(C, Binary32, Binary32, Binary32) -> Binary32>(
    before: Resonator<C>,
    drive: Binary32,
    after: Resonator<C>,
    ring: R,
) -> bool {
    &&& after.coefficients == before.coefficients
    &&& after.state2 == before.state1
    &&& exists|output: Binary32| #[trigger]
        ring.ensures((before.coefficients, before.state1, before.state2, drive), output)
            && after.state1 == math::flushed(output)
}

/// `sums` are the running sums, from zero, of what the resonators have just put
/// out.
pub open spec fn are_sums<C, P: Fn(Binary32, Binary32) -> Binary32>(
    resonators: Seq<Resonator<C>>,
    plus: P,
    sums: Seq<Binary32>,
) -> bool {
    &&& sums.len() >= 1
    &&& sums[0] == Binary32::from_bits(0)
    &&& forall|i: int|
        0 <= i < sums.len() - 1 ==> plus.ensures(
            (#[trigger] sums[i], resonators[i].state1),
            sums[i + 1],
        )
}

/// `radiated` is what a board whose resonators were `before` puts out when it is
/// driven once, which leaves them `after`.
pub open spec fn is_radiated<
    C,
    R: Fn(C, Binary32, Binary32, Binary32) -> Binary32,
    P: Fn(Binary32, Binary32) -> Binary32,
>(
    before: Seq<Resonator<C>>,
    driving_input: Binary32,
    after: Seq<Resonator<C>>,
    ring: R,
    plus: P,
    radiated: Binary32,
) -> bool {
    &&& after.len() == before.len()
    &&& forall|i: int|
        0 <= i < before.len() ==> is_rung(
            before[i],
            math::bounded(
                driving_input,
                Binary32::from_bits(MIN_DRIVE_BITS),
                Binary32::from_bits(MAX_DRIVE_BITS),
            ),
            #[trigger] after[i],
            ring,
        )
    &&& exists|sums: Seq<Binary32>| #[trigger]
        are_sums(after, plus, sums) && sums.len() == after.len() + 1 && radiated == sums.last()
}

/// The resonators of one soundboard, in the order of its modes.
#[derive(Debug, Clone)]
pub struct ResonatorBank<C> {
    resonators: Vec<Resonator<C>>,
}

impl<C: Copy> ResonatorBank<C> {
    /// The resonators.
    pub closed spec fn view(&self) -> Seq<Resonator<C>> {
        self.resonators@
    }

    /// A bank of the modes of `board`, all of them still: `build` works out the
    /// coefficients of a mode.
    pub fn new<B: Fn(SoundboardMode) -> C>(board: &Soundboard, build: &B) -> (bank: Self)
        requires
            board.wf(),
            forall|mode: SoundboardMode| build.requires((mode,)),
        ensures
            bank@.len() == board@.len(),
            forall|i: int|
                0 <= i < board@.len() ==> build.ensures(
                    (board@[i],),
                    (#[trigger] bank@[i]).coefficients,
                ) && bank@[i].state1 == Binary32::from_bits(0) && bank@[i].state2
                    == Binary32::from_bits(0),
    {
        let mut resonators: Vec<Resonator<C>> = Vec::with_capacity(MODE_COUNT);
        let mut index: usize = 0;
        while index < MODE_COUNT
            invariant
                board.wf(),
                board@.len() == MODE_COUNT,
                forall|mode: SoundboardMode| build.requires((mode,)),
                index <= MODE_COUNT,
                resonators@.len() == index,
                forall|i: int|
                    0 <= i < index ==> build.ensures(
                        (board@[i],),
                        (#[trigger] resonators@[i]).coefficients,
                    ) && resonators@[i].state1 == Binary32::from_bits(0) && resonators@[i].state2
                        == Binary32::from_bits(0),
            decreases MODE_COUNT - index,
        {
            if let Some(mode) = board.mode_at(index) {
                let coefficients = build(mode);
                resonators.push(
                    Resonator {
                        coefficients,
                        state1: Binary32::from_bits(0),
                        state2: Binary32::from_bits(0),
                    },
                );
            }
            index = index + 1;
        }
        ResonatorBank { resonators }
    }

    /// Puts a new, still resonator in place of resonator `index`; nothing where
    /// there is no such resonator.
    pub fn rebuild(&mut self, index: usize, coefficients: C)
        ensures
            final(self)@ == if index < old(self)@.len() {
                old(self)@.update(
                    index as int,
                    Resonator {
                        coefficients,
                        state1: Binary32::from_bits(0),
                        state2: Binary32::from_bits(0),
                    },
                )
            } else {
                old(self)@
            },
    {
        if index < self.resonators.len() {
            self.resonators.set(
                index,
                Resonator {
                    coefficients,
                    state1: Binary32::from_bits(0),
                    state2: Binary32::from_bits(0),
                },
            );
        }
    }

    /// Drives every mode with `driving_input`, kept within what a resonator can
    /// take, and returns the sum of what they put out.
    pub fn process<
        R: Fn(C, Binary32, Binary32, Binary32) -> Binary32,
        P: Fn(Binary32, Binary32) -> Binary32,
    >(&mut self, driving_input: Binary32, ring: &R, plus: &P) -> (radiated: Binary32)
        requires
            forall|c: C, one: Binary32, two: Binary32, drive: Binary32|
                ring.requires((c, one, two, drive)),
            forall|sum: Binary32, addend: Binary32| plus.requires((sum, addend)),
        ensures
            is_radiated(old(self)@, driving_input, final(self)@, *ring, *plus, radiated),
    {
        let drive = math::clamp_or_low(
            driving_input,
            Binary32::from_bits(MIN_DRIVE_BITS),
            Binary32::from_bits(MAX_DRIVE_BITS),
        );
        let mut radiated = Binary32::from_bits(0);
        let ghost mut sums: Seq<Binary32> = seq![radiated];
        let mut index: usize = 0;
        while index < self.resonators.len()
            invariant
                forall|c: C, one: Binary32, two: Binary32, drive: Binary32|
                    ring.requires((c, one, two, drive)),
                forall|sum: Binary32, addend: Binary32| plus.requires((sum, addend)),
                self@.len() == old(self)@.len(),
                index <= self@.len(),
                forall|i: int|
                    0 <= i < index ==> is_rung(old(self)@[i], drive, #[trigger] self@[i], *ring),
                forall|i: int| index <= i < self@.len() ==> #[trigger] self@[i] == old(self)@[i],
                are_sums(self@, *plus, sums),
                sums.len() == index + 1,
                radiated == sums.last(),
            decreases self@.len() - index,
        {
            let ghost earlier = self@;
            let resonator = self.resonators[index];
            let rung = ring(resonator.coefficients, resonator.state1, resonator.state2, drive);
            let output = math::flush_denormal(rung);
            let after = Resonator {
                coefficients: resonator.coefficients,
                state1: output,
                state2: resonator.state1,
            };
            assert(is_rung(old(self)@[index as int], drive, after, *ring)) by {
                assert(earlier[index as int] == old(self)@[index as int]);
                assert(ring.ensures(
                    (resonator.coefficients, resonator.state1, resonator.state2, drive),
                    rung,
                ));
            }
            self.resonators.set(index, after);
            radiated = plus(radiated, output);
            proof {
                let longer = sums.push(radiated);
                assert forall|i: int| 0 <= i < longer.len() - 1 implies plus.ensures(
                    (#[trigger] longer[i], self@[i].state1),
                    longer[i + 1],
                ) by {
                    if i < index {
                        assert(sums[i] == longer[i]);
                        assert(self@[i] == earlier[i]);
                    }
                }
                sums = longer;
            }
            index = index + 1;
        }
        radiated
    }
}

} // verus!

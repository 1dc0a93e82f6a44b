//! Per-key baseline voicing: what the registers of a keyboard ask of a string.
//!
//! Bass strings are wound, ring for tens of seconds and carry little
//! inharmonicity; treble strings are thin wire, decay in a couple of seconds and
//! carry much more. A key's voicing is interpolated between three anchors, each
//! of which a file may override, and its losses are searched for until they ring
//! out in the times that come of it. The arithmetic of single steps (the pitch of
//! a key, the line between two points, what one candidate of the search comes to)
//! is handed in by the caller.
use crate::binary32::{Binary32, INFINITY_BITS, ONE_BITS};
use crate::dispersion;
use crate::math;
use crate::outcome;
use crate::params;
use crate::params::{PianoKey, CONCERT_A_KEY, HIGHEST_PIANO_KEY, LOWEST_PIANO_KEY};
use crate::string;
use crate::string::{normalise, StringConfig, MAX_INHARMONICITY_BITS};
use crate::unison;
use crate::units::Hz;
use vstd::prelude::*;

verus! {

/// Target ring-out time of the fundamental at the bass anchor, 35 s.
pub const BASS_DECAY_SECONDS_BITS: u32 = 0x420c_0000;

/// Target ring-out time of the fundamental at the middle anchor, 11 s.
pub const MID_DECAY_SECONDS_BITS: u32 = 0x4130_0000;

/// Target ring-out time of the fundamental at the treble anchor, 1.5 s.
pub const TREBLE_DECAY_SECONDS_BITS: u32 = 0x3fc0_0000;

/// Inharmonicity at the bass anchor, 0.0001.
pub const BASS_INHARMONICITY_BITS: u32 = 0x38d1_b717;

/// Inharmonicity at the treble anchor: the highest there is, 0.05.
pub const TREBLE_INHARMONICITY_BITS: u32 = 0x3d4c_cccd;

/// Target ring-out time of the third partial at the bass anchor, 18 s.
pub const BASS_MID_PARTIAL_DECAY_SECONDS_BITS: u32 = 0x4190_0000;

/// The same at the middle anchor, 5 s.
pub const MID_MID_PARTIAL_DECAY_SECONDS_BITS: u32 = 0x40a0_0000;

/// The same at the treble anchor, 0.8 s.
pub const TREBLE_MID_PARTIAL_DECAY_SECONDS_BITS: u32 = 0x3f4c_cccd;

/// Target ring-out time of the eighth partial at the bass anchor, 6 s.
pub const BASS_BRIGHTNESS_DECAY_SECONDS_BITS: u32 = 0x40c0_0000;

/// The same at the middle anchor, 1.5 s.
pub const MID_BRIGHTNESS_DECAY_SECONDS_BITS: u32 = 0x3fc0_0000;

/// The same at the treble anchor, 0.3 s.
pub const TREBLE_BRIGHTNESS_DECAY_SECONDS_BITS: u32 = 0x3e99_999a;

/// One half, the centre of the search plane.
pub const HALF_BITS: u32 = 0x3f00_0000;

/// Points per axis in the opening sweep of the search.
pub const COARSE_SEARCH_POINTS: u32 = 20;

/// How many times the search halves its box around the best point so far.
pub const SEARCH_REFINEMENTS: usize = 10;

/// Points per axis in each of those sweeps.
pub const REFINEMENT_POINTS: u32 = 5;

/// A key's computed baseline voicing.
#[derive(Debug, Clone, Copy, PartialEq, Eq, Structural)]
pub struct KeyVoicing {
    /// High-frequency loss.
    pub damping: Binary32,
    /// Broadband loop gain.
    pub sustain: Binary32,
    /// Inharmonicity coefficient.
    pub inharmonicity: Binary32,
    /// The loop filter's zero mix.
    pub zero_mix: Binary32,
}

/// One register anchor's override; every field falls back to the anchor's
/// built-in value on its own.
#[derive(Debug, Clone, Copy, PartialEq, Eq, Structural)]
pub struct RegisterAnchorOverride {
    /// Which key the anchor sits at. A number that is no piano key, zero among
    /// them, counts as unset.
    pub anchor_midi: Option<u8>,
    /// Target ring-out time of the fundamental.
    pub decay_seconds: Option<Binary32>,
    /// The damping of the one key exactly at the anchor. Damping is otherwise
    /// solved for, so there is no curve to blend an override into.
    pub damping: Option<Binary32>,
    /// Inharmonicity at the anchor.
    pub inharmonicity: Option<Binary32>,
}

/// An anchor with nothing overridden.
pub open spec fn unset() -> RegisterAnchorOverride {
    RegisterAnchorOverride {
        anchor_midi: None,
        decay_seconds: None,
        damping: None,
        inharmonicity: None,
    }
}

impl Default for RegisterAnchorOverride {
    fn default() -> (anchor: Self)
        ensures
            anchor == unset(),
    {
        RegisterAnchorOverride {
            anchor_midi: None,
            decay_seconds: None,
            damping: None,
            inharmonicity: None,
        }
    }
}

/// The overrides of all three anchors.
#[derive(Debug, Clone, Copy, PartialEq, Eq, Structural)]
pub struct RegisterOverrides {
    /// The bass anchor, built in at the lowest key.
    pub bass: RegisterAnchorOverride,
    /// The middle anchor, built in at concert A.
    pub mid: RegisterAnchorOverride,
    /// The treble anchor, built in at the highest key.
    pub treble: RegisterAnchorOverride,
}

/// Nothing overridden at all.
pub open spec fn no_overrides() -> RegisterOverrides {
    RegisterOverrides { bass: unset(), mid: unset(), treble: unset() }
}

impl Default for RegisterOverrides {
    fn default() -> (registers: Self)
        ensures
            registers == no_overrides(),
    {
        RegisterOverrides {
            bass: RegisterAnchorOverride::default(),
            mid: RegisterAnchorOverride::default(),
            treble: RegisterAnchorOverride::default(),
        }
    }
}

/// The three anchors after every override is resolved.
#[derive(Debug, Clone, Copy, PartialEq, Eq, Structural)]
pub struct Anchors {
    /// Key of the bass anchor.
    pub bass_midi: u8,
    /// Key of the middle anchor.
    pub mid_midi: u8,
    /// Key of the treble anchor.
    pub treble_midi: u8,
    /// Ring-out time at the bass anchor.
    pub bass_decay: Binary32,
    /// Ring-out time at the middle anchor.
    pub mid_decay: Binary32,
    /// Ring-out time at the treble anchor.
    pub treble_decay: Binary32,
    /// Inharmonicity at the bass anchor.
    pub bass_inharmonicity: Binary32,
    /// Inharmonicity at the middle anchor, where it is overridden; otherwise it
    /// lies on the line between the other two.
    pub mid_inharmonicity: Option<Binary32>,
    /// Inharmonicity at the treble anchor.
    pub treble_inharmonicity: Binary32,
}

/// The key an anchor sits at.
pub open spec fn anchor_key(default_midi: u8, override_midi: Option<u8>) -> u8 {
    match override_midi {
        Some(midi) => if params::on_keyboard(midi as int) {
            midi
        } else {
            default_midi
        },
        None => default_midi,
    }
}

/// An override, or the built-in value.
pub open spec fn or_built_in(value: Option<Binary32>, bits: u32) -> Binary32 {
    match value {
        Some(value) => value,
        None => Binary32::from_bits(bits),
    }
}

/// The anchors that `registers` asks for.
pub open spec fn anchors_of(registers: RegisterOverrides) -> Anchors {
    Anchors {
        bass_midi: anchor_key(LOWEST_PIANO_KEY, registers.bass.anchor_midi),
        mid_midi: anchor_key(CONCERT_A_KEY, registers.mid.anchor_midi),
        treble_midi: anchor_key(HIGHEST_PIANO_KEY, registers.treble.anchor_midi),
        bass_decay: or_built_in(registers.bass.decay_seconds, BASS_DECAY_SECONDS_BITS),
        mid_decay: or_built_in(registers.mid.decay_seconds, MID_DECAY_SECONDS_BITS),
        treble_decay: or_built_in(registers.treble.decay_seconds, TREBLE_DECAY_SECONDS_BITS),
        bass_inharmonicity: dispersion::playable(
            or_built_in(registers.bass.inharmonicity, BASS_INHARMONICITY_BITS),
        ),
        mid_inharmonicity: match registers.mid.inharmonicity {
            Some(inharmonicity) => Some(dispersion::playable(inharmonicity)),
            None => None,
        },
        treble_inharmonicity: dispersion::playable(
            or_built_in(registers.treble.inharmonicity, TREBLE_INHARMONICITY_BITS),
        ),
    }
}

/// Resolves which key an anchor sits at: the override where it names a piano key,
/// the default otherwise.
pub fn resolved_anchor_midi(default_midi: u8, override_midi: Option<u8>) -> (midi: u8)
    ensures
        midi == anchor_key(default_midi, override_midi),
        params::on_keyboard(default_midi as int) ==> params::on_keyboard(midi as int),
{
    match override_midi {
        Some(midi) => {
            if PianoKey::from_midi(midi).is_ok() {
                midi
            } else {
                default_midi
            }
        },
        None => default_midi,
    }
}

/// An override, or the built-in value.
fn or_default(value: Option<Binary32>, bits: u32) -> (result: Binary32)
    ensures
        result == or_built_in(value, bits),
{
    match value {
        Some(value) => value,
        None => Binary32::from_bits(bits),
    }
}

/// Clamps an inharmonicity to its range.
fn clamp_inharmonicity(inharmonicity: Binary32) -> (result: Binary32)
    ensures
        result == dispersion::playable(inharmonicity),
{
    math::clamp_or_low(
        inharmonicity,
        Binary32::from_bits(0),
        Binary32::from_bits(MAX_INHARMONICITY_BITS),
    )
}

/// Resolves every override of every anchor.
pub fn resolve_anchors(registers: RegisterOverrides) -> (anchors: Anchors)
    ensures
        anchors == anchors_of(registers),
        params::on_keyboard(anchors.bass_midi as int),
        params::on_keyboard(anchors.mid_midi as int),
        params::on_keyboard(anchors.treble_midi as int),
{
    Anchors {
        bass_midi: resolved_anchor_midi(LOWEST_PIANO_KEY, registers.bass.anchor_midi),
        mid_midi: resolved_anchor_midi(CONCERT_A_KEY, registers.mid.anchor_midi),
        treble_midi: resolved_anchor_midi(HIGHEST_PIANO_KEY, registers.treble.anchor_midi),
        bass_decay: or_default(registers.bass.decay_seconds, BASS_DECAY_SECONDS_BITS),
        mid_decay: or_default(registers.mid.decay_seconds, MID_DECAY_SECONDS_BITS),
        treble_decay: or_default(registers.treble.decay_seconds, TREBLE_DECAY_SECONDS_BITS),
        bass_inharmonicity: clamp_inharmonicity(
            or_default(registers.bass.inharmonicity, BASS_INHARMONICITY_BITS),
        ),
        mid_inharmonicity: match registers.mid.inharmonicity {
            Some(inharmonicity) => Some(clamp_inharmonicity(inharmonicity)),
            None => None,
        },
        treble_inharmonicity: clamp_inharmonicity(
            or_default(registers.treble.inharmonicity, TREBLE_INHARMONICITY_BITS),
        ),
    }
}

/// How many strings `key` is struck by.
pub fn unison_count_for_key(key: PianoKey) -> (count: usize)
    ensures
        count == unison::strings_of_key(key.number() - LOWEST_PIANO_KEY),
{
    unison::unison_count_for_key_index(key.key_index())
}

/// The damping a register override pins `key` to: that of the first anchor, from
/// the bass up, that sits at the key and has one.
pub open spec fn pinned_damping(
    number: u8,
    anchors: Anchors,
    registers: RegisterOverrides,
) -> Option<Binary32> {
    if number == anchors.bass_midi && registers.bass.damping is Some {
        registers.bass.damping
    } else if number == anchors.mid_midi && registers.mid.damping is Some {
        registers.mid.damping
    } else if number == anchors.treble_midi && registers.treble.damping is Some {
        registers.treble.damping
    } else {
        None
    }
}

/// `damping_override` if `key` is exactly the key at `anchor_midi`.
pub fn anchor_damping_pin(
    key: PianoKey,
    anchor_midi: u8,
    damping_override: Option<Binary32>,
) -> (pin: Option<Binary32>)
    ensures
        pin == if key.number() == anchor_midi {
            damping_override
        } else {
            None
        },
{
    if key.midi_number() == anchor_midi {
        damping_override
    } else {
        None
    }
}

/// One point of a curve over the keyboard: where it is, and what is there.
pub type Point = (Binary32, Binary32);

/// `value` is what a curve through `low`, `mid` and `high` has at `position`: on
/// the line of the lower two points up to the middle one, on that of the upper two
/// beyond it.
pub open spec fn is_on_curve<I: Fn(Binary32, Point, Point) -> Binary32>(
    position: Binary32,
    low: Point,
    mid: Point,
    high: Point,
    interpolate: I,
    value: Binary32,
) -> bool {
    if position.at_most(mid.0) {
        interpolate.ensures((position, low, mid), value)
    } else {
        interpolate.ensures((position, mid, high), value)
    }
}

/// Interpolates across three anchors: a single line cannot pass through three
/// points that were chosen apart from each other.
pub fn interpolate_two_segments<I: Fn(Binary32, Point, Point) -> Binary32>(
    position: Binary32,
    low: Point,
    mid: Point,
    high: Point,
    interpolate: &I,
) -> (value: Binary32)
    requires
        forall|position: Binary32, low: Point, high: Point|
            interpolate.requires((position, low, high)),
    ensures
        is_on_curve(position, low, mid, high, *interpolate, value),
{
    if position.le(mid.0) {
        interpolate(position, low, mid)
    } else {
        interpolate(position, mid, high)
    }
}

/// Where the three anchors lie, in hertz.
#[derive(Debug, Clone, Copy, PartialEq, Eq, Structural)]
pub struct AnchorPitches {
    /// The bass anchor.
    pub bass: Binary32,
    /// The middle anchor.
    pub mid: Binary32,
    /// The treble anchor.
    pub treble: Binary32,
}

/// The ring-out times one key's loop is solved against, in seconds.
#[derive(Debug, Clone, Copy, PartialEq, Eq, Structural)]
pub struct DecayTargets {
    /// That of the fundamental.
    pub fundamental: Binary32,
    /// That of the third partial.
    pub mid_partial: Binary32,
    /// That of the eighth partial.
    pub brightness: Binary32,
}

/// `targets` are the ring-out times of a key at `frequency`: the fundamental's on
/// the curve through the anchors' own times, the partials' on built-in ones.
pub open spec fn are_targets<I: Fn(Binary32, Point, Point) -> Binary32>(
    frequency: Binary32,
    pitches: AnchorPitches,
    anchors: Anchors,
    interpolate: I,
    targets: DecayTargets,
) -> bool {
    &&& is_on_curve(
        frequency,
        (pitches.bass, anchors.bass_decay),
        (pitches.mid, anchors.mid_decay),
        (pitches.treble, anchors.treble_decay),
        interpolate,
        targets.fundamental,
    )
    &&& is_on_curve(
        frequency,
        (pitches.bass, Binary32::from_bits(BASS_MID_PARTIAL_DECAY_SECONDS_BITS)),
        (pitches.mid, Binary32::from_bits(MID_MID_PARTIAL_DECAY_SECONDS_BITS)),
        (pitches.treble, Binary32::from_bits(TREBLE_MID_PARTIAL_DECAY_SECONDS_BITS)),
        interpolate,
        targets.mid_partial,
    )
    &&& is_on_curve(
        frequency,
        (pitches.bass, Binary32::from_bits(BASS_BRIGHTNESS_DECAY_SECONDS_BITS)),
        (pitches.mid, Binary32::from_bits(MID_BRIGHTNESS_DECAY_SECONDS_BITS)),
        (pitches.treble, Binary32::from_bits(TREBLE_BRIGHTNESS_DECAY_SECONDS_BITS)),
        interpolate,
        targets.brightness,
    )
}

/// Interpolates all three of a key's ring-out times across the anchors.
pub fn decay_targets_for<I: Fn(Binary32, Point, Point) -> Binary32>(
    frequency: Binary32,
    pitches: AnchorPitches,
    anchors: Anchors,
    interpolate: &I,
) -> (targets: DecayTargets)
    requires
        forall|position: Binary32, low: Point, high: Point|
            interpolate.requires((position, low, high)),
    ensures
        are_targets(frequency, pitches, anchors, *interpolate, targets),
{
    DecayTargets {
        fundamental: interpolate_two_segments(
            frequency,
            (pitches.bass, anchors.bass_decay),
            (pitches.mid, anchors.mid_decay),
            (pitches.treble, anchors.treble_decay),
            interpolate,
        ),
        mid_partial: interpolate_two_segments(
            frequency,
            (pitches.bass, Binary32::from_bits(BASS_MID_PARTIAL_DECAY_SECONDS_BITS)),
            (pitches.mid, Binary32::from_bits(MID_MID_PARTIAL_DECAY_SECONDS_BITS)),
            (pitches.treble, Binary32::from_bits(TREBLE_MID_PARTIAL_DECAY_SECONDS_BITS)),
            interpolate,
        ),
        brightness: interpolate_two_segments(
            frequency,
            (pitches.bass, Binary32::from_bits(BASS_BRIGHTNESS_DECAY_SECONDS_BITS)),
            (pitches.mid, Binary32::from_bits(MID_BRIGHTNESS_DECAY_SECONDS_BITS)),
            (pitches.treble, Binary32::from_bits(TREBLE_BRIGHTNESS_DECAY_SECONDS_BITS)),
            interpolate,
        ),
    }
}

/// Which partial [`DecayTargets::mid_partial`] is about, 3.
pub const MID_PARTIAL_BITS: u32 = 0x4040_0000;

/// Which partial [`DecayTargets::brightness`] is about, 8.
pub const BRIGHTNESS_PARTIAL_BITS: u32 = 0x4100_0000;

impl DecayTargets {
    /// The ring-out time of `partial`, interpolated by `along` between the two
    /// targets it lies between.
    pub fn seconds_for_partial<I: Fn(Binary32, Point, Point) -> Binary32>(
        self,
        partial: Binary32,
        along: &I,
    ) -> (seconds: Binary32)
        requires
            forall|position: Binary32, low: Point, high: Point|
                along.requires((position, low, high)),
        ensures
            is_on_curve(
                partial,
                (Binary32::from_bits(ONE_BITS), self.fundamental),
                (Binary32::from_bits(MID_PARTIAL_BITS), self.mid_partial),
                (Binary32::from_bits(BRIGHTNESS_PARTIAL_BITS), self.brightness),
                *along,
                seconds,
            ),
    {
        interpolate_two_segments(
            partial,
            (Binary32::from_bits(ONE_BITS), self.fundamental),
            (Binary32::from_bits(MID_PARTIAL_BITS), self.mid_partial),
            (Binary32::from_bits(BRIGHTNESS_PARTIAL_BITS), self.brightness),
            along,
        )
    }
}

/// `inharmonicity` is that of a key at `frequency`: on the curve through the three
/// anchors', where the middle one, unless it is overridden, lies on the line
/// between the other two.
pub open spec fn is_inharmonicity<I: Fn(Binary32, Point, Point) -> Binary32>(
    frequency: Binary32,
    pitches: AnchorPitches,
    anchors: Anchors,
    interpolate: I,
    inharmonicity: Binary32,
) -> bool {
    exists|straight: Binary32|
        {
            &&& #[trigger] interpolate.ensures(
                (
                    pitches.mid,
                    (pitches.bass, anchors.bass_inharmonicity),
                    (pitches.treble, anchors.treble_inharmonicity),
                ),
                straight,
            )
            &&& is_on_curve(
                frequency,
                (pitches.bass, anchors.bass_inharmonicity),
                (
                    pitches.mid,
                    match anchors.mid_inharmonicity {
                        Some(overridden) => overridden,
                        None => dispersion::playable(straight),
                    },
                ),
                (pitches.treble, anchors.treble_inharmonicity),
                interpolate,
                inharmonicity,
            )
        }
}

/// Interpolates inharmonicity across the anchors.
pub fn inharmonicity_for<I: Fn(Binary32, Point, Point) -> Binary32>(
    frequency: Binary32,
    pitches: AnchorPitches,
    anchors: Anchors,
    interpolate: &I,
) -> (inharmonicity: Binary32)
    requires
        forall|position: Binary32, low: Point, high: Point|
            interpolate.requires((position, low, high)),
    ensures
        is_inharmonicity(frequency, pitches, anchors, *interpolate, inharmonicity),
{
    let bass = (pitches.bass, anchors.bass_inharmonicity);
    let treble = (pitches.treble, anchors.treble_inharmonicity);
    let straight = interpolate(pitches.mid, bass, treble);
    let mid = match anchors.mid_inharmonicity {
        Some(overridden) => overridden,
        None => clamp_inharmonicity(straight),
    };
    interpolate_two_segments(frequency, bass, (pitches.mid, mid), treble, interpolate)
}

/// What solving a key's losses came to.
#[derive(Debug, Clone, Copy, PartialEq, Eq, Structural)]
pub struct LoopLosses {
    /// The loop filter's pole, which is the key's damping.
    pub pole: Binary32,
    /// The loop filter's zero mix.
    pub zero_mix: Binary32,
    /// The broadband loop gain.
    pub sustain: Binary32,
}

/// `voicing` is that of key `number` under `registers`, where `hertz` tells the
/// frequency of a key, `interpolate` draws the line between two points and `solve`
/// finds the losses that ring out in given times.
pub open spec fn is_voicing<
    H: Fn(u8) -> Binary32,
    I: Fn(Binary32, Point, Point) -> Binary32,
    S: Fn(Binary32, DecayTargets) -> LoopLosses,
>(
    number: u8,
    registers: RegisterOverrides,
    hertz: H,
    interpolate: I,
    solve: S,
    voicing: KeyVoicing,
) -> bool {
    exists|
        frequency: Binary32,
        pitches: AnchorPitches,
        targets: DecayTargets,
        losses: LoopLosses,
    |
        {
            &&& hertz.ensures((number,), frequency)
            &&& hertz.ensures((anchors_of(registers).bass_midi,), pitches.bass)
            &&& hertz.ensures((anchors_of(registers).mid_midi,), pitches.mid)
            &&& hertz.ensures((anchors_of(registers).treble_midi,), pitches.treble)
            &&& #[trigger] are_targets(frequency, pitches, anchors_of(registers), interpolate, targets)
            &&& #[trigger] solve.ensures((frequency, targets), losses)
            &&& voicing.sustain == losses.sustain
            &&& voicing.zero_mix == losses.zero_mix
            &&& voicing.damping == match pinned_damping(number, anchors_of(registers), registers) {
                Some(pin) => string::normalised(pin),
                None => losses.pole,
            }
            &&& is_inharmonicity(frequency, pitches, anchors_of(registers), interpolate, voicing.inharmonicity)
        }
}

/// Computes `key`'s baseline voicing, with the anchors that `registers` asks for.
pub fn voicing_for_key_with_registers<
    H: Fn(u8) -> Binary32,
    I: Fn(Binary32, Point, Point) -> Binary32,
    S: Fn(Binary32, DecayTargets) -> LoopLosses,
>(key: PianoKey, registers: RegisterOverrides, hertz: &H, interpolate: &I, solve: &S) -> (voicing:
    KeyVoicing)
    requires
        forall|midi: u8| params::on_keyboard(midi as int) ==> hertz.requires((midi,)),
        forall|position: Binary32, low: Point, high: Point|
            interpolate.requires((position, low, high)),
        forall|frequency: Binary32, targets: DecayTargets| solve.requires((frequency, targets)),
    ensures
        is_voicing(key.number(), registers, *hertz, *interpolate, *solve, voicing),
{
    let anchors = resolve_anchors(registers);
    let frequency = hertz(key.midi_number());
    let pitches = AnchorPitches {
        bass: hertz(anchors.bass_midi),
        mid: hertz(anchors.mid_midi),
        treble: hertz(anchors.treble_midi),
    };
    let targets = decay_targets_for(frequency, pitches, anchors, interpolate);
    let losses = solve(frequency, targets);
    let bass = anchor_damping_pin(key, anchors.bass_midi, registers.bass.damping);
    let mid = anchor_damping_pin(key, anchors.mid_midi, registers.mid.damping);
    let treble = anchor_damping_pin(key, anchors.treble_midi, registers.treble.damping);
    let pin = if bass.is_some() {
        bass
    } else if mid.is_some() {
        mid
    } else {
        treble
    };
    let damping = match pin {
        Some(pin) => normalise(pin),
        None => losses.pole,
    };
    KeyVoicing {
        damping,
        sustain: losses.sustain,
        inharmonicity: inharmonicity_for(frequency, pitches, anchors, interpolate),
        zero_mix: losses.zero_mix,
    }
}

/// Computes `key`'s baseline voicing, with nothing overridden.
pub fn voicing_for_key<
    H: Fn(u8) -> Binary32,
    I: Fn(Binary32, Point, Point) -> Binary32,
    S: Fn(Binary32, DecayTargets) -> LoopLosses,
>(key: PianoKey, hertz: &H, interpolate: &I, solve: &S) -> (voicing: KeyVoicing)
    requires
        forall|midi: u8| params::on_keyboard(midi as int) ==> hertz.requires((midi,)),
        forall|position: Binary32, low: Point, high: Point|
            interpolate.requires((position, low, high)),
        forall|frequency: Binary32, targets: DecayTargets| solve.requires((frequency, targets)),
    ensures
        is_voicing(key.number(), no_overrides(), *hertz, *interpolate, *solve, voicing),
{
    voicing_for_key_with_registers(key, RegisterOverrides::default(), hertz, interpolate, solve)
}

/// Overrides that override nothing voice every key as if there were none.
pub proof fn unset_registers_change_nothing(number: u8)
    ensures
        ({
            let registers = RegisterOverrides { bass: unset(), mid: unset(), treble: unset() };
            &&& pinned_damping(number, anchors_of(registers), registers) is None
            &&& anchors_of(registers).bass_midi == LOWEST_PIANO_KEY
            &&& anchors_of(registers).mid_midi == CONCERT_A_KEY
            &&& anchors_of(registers).treble_midi == HIGHEST_PIANO_KEY
            &&& anchors_of(registers).mid_inharmonicity is None
        }),
{
}

/// A damping override reaches no key but the one at its anchor.
pub proof fn pins_stay_at_their_anchors(number: u8, registers: RegisterOverrides)
    ensures
        ({
            let anchors = anchors_of(registers);
            let pin = pinned_damping(number, anchors, registers);
            &&& number != anchors.bass_midi && number != anchors.mid_midi && number
                != anchors.treble_midi ==> pin is None
            &&& number == anchors.bass_midi && registers.bass.damping is Some ==> pin
                == registers.bass.damping
        }),
{
}

/// A damping override changes the damping of one key and nothing else: two voicings
/// of one key, under registers that differ in nothing but the bass damping, agree in
/// sustain, inharmonicity and zero mix, and in damping too unless the key is the
/// bass anchor. There the override is the damping, kept in `[0, 1]`.
pub proof fn a_bass_damping_reaches_one_damping<
    H: Fn(u8) -> Binary32,
    I: Fn(Binary32, Point, Point) -> Binary32,
    S: Fn(Binary32, DecayTargets) -> LoopLosses,
>(
    number: u8,
    registers: RegisterOverrides,
    damping: Option<Binary32>,
    hertz: H,
    interpolate: I,
    solve: S,
    voicing: KeyVoicing,
    changed: KeyVoicing,
)
    requires
        outcome::decided(hertz),
        outcome::decided_by_three(interpolate),
        outcome::decided_by_two(solve),
        is_voicing(number, registers, hertz, interpolate, solve, voicing),
        is_voicing(
            number,
            (RegisterOverrides {
                bass: RegisterAnchorOverride { damping, ..registers.bass },
                ..registers
            }),
            hertz,
            interpolate,
            solve,
            changed,
        ),
    ensures
        changed.sustain == voicing.sustain,
        changed.inharmonicity == voicing.inharmonicity,
        changed.zero_mix == voicing.zero_mix,
        number != anchors_of(registers).bass_midi ==> changed.damping == voicing.damping,
        number == anchors_of(registers).bass_midi ==> (damping matches Some(pin) ==> changed.damping
            == string::normalised(pin)),
{
    let other = RegisterOverrides {
        bass: RegisterAnchorOverride { damping, ..registers.bass },
        ..registers
    };
    assert(anchors_of(other) == anchors_of(registers));
}

/// The default string for `frequency`, voiced by `voicing`.
pub fn config_for_key(frequency: Hz, voicing: KeyVoicing) -> (config: StringConfig)
    ensures
        config == (StringConfig {
            damping: voicing.damping,
            sustain: voicing.sustain,
            inharmonicity: voicing.inharmonicity,
            loop_zero_mix: voicing.zero_mix,
            ..string::default_config(frequency)
        }),
{
    let mut config = StringConfig::new(frequency);
    config.damping = voicing.damping;
    config.sustain = voicing.sustain;
    config.inharmonicity = voicing.inharmonicity;
    config.loop_zero_mix = voicing.zero_mix;
    config
}

/// One square of the search plane, of the two coefficients of the loop filter.
#[derive(Debug, Clone, Copy, PartialEq, Eq, Structural)]
pub struct SearchBox {
    /// Where its centre lies along the axis of the pole.
    pub pole_axis: Binary32,
    /// Where its centre lies along the axis of the zero mix.
    pub zero_axis: Binary32,
    /// Half of its width.
    pub half_width: Binary32,
}

/// The whole plane: both axes from zero to one.
pub open spec fn plane() -> SearchBox {
    SearchBox {
        pole_axis: Binary32::from_bits(HALF_BITS),
        zero_axis: Binary32::from_bits(HALF_BITS),
        half_width: Binary32::from_bits(HALF_BITS),
    }
}

/// One point that a sweep tries.
pub struct Candidate {
    /// Its place along the axis of the pole.
    pub pole_axis: Binary32,
    /// Its place along the axis of the zero mix.
    pub zero_axis: Binary32,
    /// How far what it gives is from what is asked for.
    pub residual: Binary32,
}

/// A residual that a search may settle on: a number below infinity. A NaN never
/// wins.
pub open spec fn wins(residual: Binary32) -> bool {
    residual.below(Binary32::from_bits(INFINITY_BITS))
}

/// `candidates` are the first points of a sweep of `bounds` with `points` points
/// along either axis, row by row: `sample` places a step along an axis, and
/// `residual_at` tries a point.
pub open spec fn are_candidates<
    P: Fn(Binary32, Binary32, u32, u32) -> Binary32,
    R: Fn(Binary32, Binary32) -> Binary32,
>(
    bounds: SearchBox,
    points: u32,
    sample: P,
    residual_at: R,
    candidates: Seq<Candidate>,
) -> bool {
    forall|i: int|
        0 <= i < candidates.len() ==> {
            let candidate = #[trigger] candidates[i];
            &&& sample.ensures(
                (bounds.pole_axis, bounds.half_width, (i / points as int) as u32, points),
                candidate.pole_axis,
            )
            &&& sample.ensures(
                (bounds.zero_axis, bounds.half_width, (i % points as int) as u32, points),
                candidate.zero_axis,
            )
            &&& residual_at.ensures(
                (candidate.pole_axis, candidate.zero_axis),
                candidate.residual,
            )
        }
}

/// Candidate `best` is the first with the lowest residual.
pub open spec fn is_best(candidates: Seq<Candidate>, best: int) -> bool {
    &&& 0 <= best < candidates.len()
    &&& wins(candidates[best].residual)
    &&& forall|i: int|
        0 <= i < candidates.len() ==> !(#[trigger] candidates[i]).residual.below(
            candidates[best].residual,
        )
    &&& forall|i: int|
        0 <= i < best && wins((#[trigger] candidates[i]).residual)
            ==> candidates[best].residual.below(candidates[i].residual)
}

/// `settled` is where a sweep of `bounds` over `candidates` settles: at the first
/// of the lowest residual, or at the centre of `bounds` where none wins.
pub open spec fn settles(
    bounds: SearchBox,
    candidates: Seq<Candidate>,
    settled: (Binary32, Binary32),
) -> bool {
    ||| exists|best: int| #[trigger]
        is_best(candidates, best) && settled == (
            candidates[best].pole_axis,
            candidates[best].zero_axis,
        )
    ||| {
        &&& forall|i: int|
            0 <= i < candidates.len() ==> !wins((#[trigger] candidates[i]).residual)
        &&& settled == (bounds.pole_axis, bounds.zero_axis)
    }
}

/// `after` is what a whole sweep of `bounds` leaves: a box of half the size around
/// where it settled.
pub open spec fn is_swept<
    P: Fn(Binary32, Binary32, u32, u32) -> Binary32,
    R: Fn(Binary32, Binary32) -> Binary32,
>(bounds: SearchBox, points: u32, sample: P, residual_at: R, after: SearchBox) -> bool {
    &&& after.half_width.is_half_of(bounds.half_width)
    &&& exists|candidates: Seq<Candidate>|
        {
            &&& #[trigger] are_candidates(bounds, points, sample, residual_at, candidates)
            &&& candidates.len() == points * points
            &&& settles(bounds, candidates, (after.pole_axis, after.zero_axis))
        }
}

/// `best` and `lowest` are where a sweep of `bounds` stands after `candidates`.
spec fn so_far(
    bounds: SearchBox,
    candidates: Seq<Candidate>,
    best: SearchBox,
    lowest: Binary32,
) -> bool {
    ||| exists|index: int| #[trigger]
        is_best(candidates, index) && lowest == candidates[index].residual && (
        best.pole_axis,
        best.zero_axis,
    ) == (candidates[index].pole_axis, candidates[index].zero_axis)
    ||| {
        &&& forall|i: int|
            0 <= i < candidates.len() ==> !wins((#[trigger] candidates[i]).residual)
        &&& lowest == Binary32::from_bits(INFINITY_BITS)
        &&& (best.pole_axis, best.zero_axis) == (bounds.pole_axis, bounds.zero_axis)
    }
}

/// A candidate below the lowest so far is the best so far.
proof fn lemma_better(
    bounds: SearchBox,
    candidates: Seq<Candidate>,
    candidate: Candidate,
    best: SearchBox,
    lowest: Binary32,
)
    requires
        so_far(bounds, candidates, best, lowest),
        candidate.residual.below(lowest),
    ensures
        is_best(candidates.push(candidate), candidates.len() as int),
{
    let all = candidates.push(candidate);
    assert forall|i: int| 0 <= i < all.len() implies !(#[trigger] all[i]).residual.below(
        candidate.residual,
    ) by {
        if i < candidates.len() {
            assert(all[i] == candidates[i]);
        }
    }
    assert forall|i: int|
        0 <= i < candidates.len() && wins((#[trigger] all[i]).residual) implies candidate.residual.below(
        all[i].residual,
    ) by {
        assert(all[i] == candidates[i]);
    }
}

/// A candidate that is not below the lowest so far changes nothing.
proof fn lemma_no_better(
    bounds: SearchBox,
    candidates: Seq<Candidate>,
    candidate: Candidate,
    best: SearchBox,
    lowest: Binary32,
)
    requires
        so_far(bounds, candidates, best, lowest),
        !candidate.residual.below(lowest),
    ensures
        so_far(bounds, candidates.push(candidate), best, lowest),
{
    let all = candidates.push(candidate);
    if exists|index: int| #[trigger]
        is_best(candidates, index) && lowest == candidates[index].residual && (
        best.pole_axis,
        best.zero_axis,
    ) == (candidates[index].pole_axis, candidates[index].zero_axis) {
        let index = choose|index: int| #[trigger]
            is_best(candidates, index) && lowest == candidates[index].residual && (
            best.pole_axis,
            best.zero_axis,
        ) == (candidates[index].pole_axis, candidates[index].zero_axis);
        assert(all[index] == candidates[index]);
        assert(is_best(all, index));
    }
}

impl SearchBox {
    /// The whole plane.
    pub fn whole_plane() -> (bounds: Self)
        ensures
            bounds == plane(),
    {
        SearchBox {
            pole_axis: Binary32::from_bits(HALF_BITS),
            zero_axis: Binary32::from_bits(HALF_BITS),
            half_width: Binary32::from_bits(HALF_BITS),
        }
    }
}

/// Tries `points` by `points` candidates inside `bounds` and returns the best one
/// as a box half the size, ready for the next sweep.
///
/// A NaN residual never wins, and a sweep in which nothing wins returns the centre
/// of `bounds`.
pub fn sweep<
    P: Fn(Binary32, Binary32, u32, u32) -> Binary32,
    R: Fn(Binary32, Binary32) -> Binary32,
>(bounds: SearchBox, points: u32, sample: &P, residual_at: &R) -> (after: SearchBox)
    requires
        forall|centre: Binary32, half_width: Binary32, step: u32|
            step < points ==> sample.requires((centre, half_width, step, points)),
        forall|pole: Binary32, zero: Binary32| residual_at.requires((pole, zero)),
    ensures
        is_swept(bounds, points, *sample, *residual_at, after),
{
    let mut best = SearchBox {
        pole_axis: bounds.pole_axis,
        zero_axis: bounds.zero_axis,
        half_width: bounds.half_width.half(),
    };
    let mut lowest = Binary32::from_bits(INFINITY_BITS);
    let ghost mut candidates: Seq<Candidate> = Seq::empty();
    let mut pole_step: u32 = 0;
    while pole_step < points
        invariant
            pole_step <= points,
            best.half_width.is_half_of(bounds.half_width),
            forall|centre: Binary32, half_width: Binary32, step: u32|
                step < points ==> sample.requires((centre, half_width, step, points)),
            forall|pole: Binary32, zero: Binary32| residual_at.requires((pole, zero)),
            candidates.len() == pole_step * points,
            are_candidates(bounds, points, *sample, *residual_at, candidates),
            so_far(bounds, candidates, best, lowest),
        decreases points - pole_step,
    {
        let pole_axis = sample(bounds.pole_axis, bounds.half_width, pole_step, points);
        let mut zero_step: u32 = 0;
        while zero_step < points
            invariant
                pole_step < points,
                zero_step <= points,
                best.half_width.is_half_of(bounds.half_width),
                sample.ensures(
                    (bounds.pole_axis, bounds.half_width, pole_step, points),
                    pole_axis,
                ),
                forall|centre: Binary32, half_width: Binary32, step: u32|
                    step < points ==> sample.requires((centre, half_width, step, points)),
                forall|pole: Binary32, zero: Binary32| residual_at.requires((pole, zero)),
                candidates.len() == pole_step * points + zero_step,
                are_candidates(bounds, points, *sample, *residual_at, candidates),
                so_far(bounds, candidates, best, lowest),
            decreases points - zero_step,
        {
            let zero_axis = sample(bounds.zero_axis, bounds.half_width, zero_step, points);
            let residual = residual_at(pole_axis, zero_axis);
            let ghost before = candidates;
            let ghost best_before = best;
            let ghost lowest_before = lowest;
            proof {
                let index = candidates.len() as int;
                vstd::arithmetic::div_mod::lemma_fundamental_div_mod_converse(
                    index,
                    points as int,
                    pole_step as int,
                    zero_step as int,
                );
                candidates = candidates.push(Candidate { pole_axis, zero_axis, residual });
            }
            if residual.lt(lowest) {
                lowest = residual;
                best.pole_axis = pole_axis;
                best.zero_axis = zero_axis;
                proof {
                    lemma_better(bounds, before, candidates.last(), best_before, lowest_before);
                    assert(is_best(candidates, before.len() as int));
                }
            } else {
                proof {
                    lemma_no_better(bounds, before, candidates.last(), best, lowest);
                }
            }
            zero_step = zero_step + 1;
        }
        proof {
            assert(pole_step * points + points == (pole_step + 1) * points) by (nonlinear_arith);
        }
        pole_step = pole_step + 1;
    }
    best
}

/// `bounds` is where the whole search ends: one sweep of the plane, and then a
/// fixed number of finer ones, each around where the one before settled.
pub open spec fn is_found<
    P: Fn(Binary32, Binary32, u32, u32) -> Binary32,
    R: Fn(Binary32, Binary32) -> Binary32,
>(sample: P, residual_at: R, boxes: Seq<SearchBox>) -> bool {
    &&& boxes.len() == SEARCH_REFINEMENTS + 1
    &&& is_swept(plane(), COARSE_SEARCH_POINTS, sample, residual_at, boxes[0])
    &&& forall|i: int|
        1 <= i < boxes.len() ==> is_swept(
            boxes[i - 1],
            REFINEMENT_POINTS,
            sample,
            residual_at,
            #[trigger] boxes[i],
        )
}

/// Solves a key for the losses that come closest to its targets: a search of the
/// plane of the loop filter's two coefficients, in which `residual_at` tries a
/// point, and `losses_at` tells what the point found comes to. Their broadband
/// gain is kept within `[0, 1]`.
pub fn solve_loop_losses<
    P: Fn(Binary32, Binary32, u32, u32) -> Binary32,
    R: Fn(Binary32, Binary32) -> Binary32,
    L: Fn(Binary32, Binary32) -> LoopLosses,
>(sample: &P, residual_at: &R, losses_at: &L) -> (losses: LoopLosses)
    requires
        forall|centre: Binary32, half_width: Binary32, step: u32, points: u32|
            step < points ==> sample.requires((centre, half_width, step, points)),
        forall|pole: Binary32, zero: Binary32| residual_at.requires((pole, zero)),
        forall|pole: Binary32, zero: Binary32| losses_at.requires((pole, zero)),
    ensures
        exists|boxes: Seq<SearchBox>, found: LoopLosses|
            {
                &&& #[trigger] is_found(*sample, *residual_at, boxes)
                &&& #[trigger] losses_at.ensures(
                    (boxes.last().pole_axis, boxes.last().zero_axis),
                    found,
                )
                &&& losses == (LoopLosses { sustain: string::normalised(found.sustain), ..found })
            },
{
    let mut best = sweep(SearchBox::whole_plane(), COARSE_SEARCH_POINTS, sample, residual_at);
    let ghost mut boxes: Seq<SearchBox> = seq![best];
    let mut refinement: usize = 0;
    while refinement < SEARCH_REFINEMENTS
        invariant
            refinement <= SEARCH_REFINEMENTS,
            forall|centre: Binary32, half_width: Binary32, step: u32, points: u32|
                step < points ==> sample.requires((centre, half_width, step, points)),
            forall|pole: Binary32, zero: Binary32| residual_at.requires((pole, zero)),
            boxes.len() == refinement + 1,
            boxes.last() == best,
            is_swept(plane(), COARSE_SEARCH_POINTS, *sample, *residual_at, boxes[0]),
            forall|i: int|
                1 <= i < boxes.len() ==> is_swept(
                    boxes[i - 1],
                    REFINEMENT_POINTS,
                    *sample,
                    *residual_at,
                    #[trigger] boxes[i],
                ),
        decreases SEARCH_REFINEMENTS - refinement,
    {
        best = sweep(best, REFINEMENT_POINTS, sample, residual_at);
        proof {
            boxes = boxes.push(best);
        }
        refinement = refinement + 1;
    }
    let found = losses_at(best.pole_axis, best.zero_axis);
    assert(is_found(*sample, *residual_at, boxes));
    LoopLosses { pole: found.pole, zero_mix: found.zero_mix, sustain: normalise(found.sustain) }
}

} // verus!

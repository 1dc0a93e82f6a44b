//! What becomes of the sum of all strings on its way out: the board, the gains, the
//! limiter and the frames of a stream.
use crate::binary32::Binary32;
use crate::bounds_laws::lands;
use crate::denormals;
use crate::engine::Engine;
use crate::limiter;
use crate::outcome;
use crate::path_laws::is_audible_part;
use crate::render;
use crate::render::RenderError;
use crate::soundboard;
use crate::soundboard::{Resonator, ResonatorBank, Soundboard, SoundboardMode};
use crate::stream;
use crate::timing::CallbackTimer;
use crate::velocity_curve;
use vstd::prelude::*;

verus! {

/// `kept` is `value` kept between minus and plus a million, and minus a million where
/// `value` is no number.
pub open spec fn is_bearable_part(value: Binary32, kept: Binary32) -> bool {
    &&& value.nan() ==> kept.bits == 0xc974_2400
    &&& !value.nan() && value.rank() < -0x4974_2400 ==> kept.bits == 0xc974_2400
    &&& !value.nan() && -0x4974_2400 <= value.rank() <= 0x4974_2400 ==> kept == value
    &&& !value.nan() && value.rank() > 0x4974_2400 ==> kept.bits == 0x4974_2400
}

/// A board rings with every one of its modes: each is driven alike, by what comes from
/// the strings, kept bearable, on top of its own last two states, and what the board
/// radiates is the sum of them all, the first and the last among them.
pub proof fn every_mode_rings<
    C: Copy,
    R: Fn(C, Binary32, Binary32, Binary32) -> Binary32,
    P: Fn(Binary32, Binary32) -> Binary32,
>(
    before: Seq<Resonator<C>>,
    after: Seq<Resonator<C>>,
    driving: Binary32,
    ring: &R,
    plus: &P,
    radiated: Binary32,
)
    requires
        exists|bank: &mut ResonatorBank<C>| #[trigger]
            call_ensures(ResonatorBank::<C>::process::<R, P>, (bank, driving, ring, plus), radiated)
                && (*bank)@ == before && (*final(bank))@ == after,
    ensures
        after.len() == before.len(),
        exists|drive: Binary32, sums: Seq<Binary32>|
            {
                &&& #[trigger] is_bearable_part(driving, drive)
                &&& #[trigger] sums.len() == before.len() + 1
                &&& sums[0].bits == 0
                &&& sums[before.len() as int] == radiated
                &&& forall|i: int|
                    0 <= i < before.len() ==> {
                        &&& (#[trigger] after[i]).coefficients == before[i].coefficients
                        &&& after[i].state2 == before[i].state1
                        &&& exists|rung: Binary32| #[trigger]
                            ring.ensures(
                                (
                                    before[i].coefficients,
                                    before[i].state1,
                                    before[i].state2,
                                    drive,
                                ),
                                rung,
                            ) && is_audible_part(rung, after[i].state1)
                        &&& plus.ensures((sums[i], after[i].state1), sums[i + 1])
                    }
            },
{
    let drive = crate::math::bounded(
        driving,
        Binary32 { bits: 0xc974_2400 },
        Binary32 { bits: 0x4974_2400 },
    );
    let sums = choose|sums: Seq<Binary32>| #[trigger]
        soundboard::are_sums(after, *plus, sums) && sums.len() == after.len() + 1 && radiated
            == sums.last();
    assert(is_bearable_part(driving, drive));
    assert forall|i: int| 0 <= i < before.len() implies {
        &&& (#[trigger] after[i]).coefficients == before[i].coefficients
        &&& after[i].state2 == before[i].state1
        &&& exists|rung: Binary32| #[trigger]
            ring.ensures(
                (before[i].coefficients, before[i].state1, before[i].state2, drive),
                rung,
            ) && is_audible_part(rung, after[i].state1)
        &&& plus.ensures((sums[i], after[i].state1), sums[i + 1])
    } by {
        assert(soundboard::is_rung(before[i], drive, after[i], *ring));
        assert(plus.ensures((sums[i], after[i].state1), sums[i + 1]));
    }
    assert(sums.len() == before.len() + 1);
}

/// A board has a resonator for every mode, built for that mode and at rest; rebuilding
/// one leaves every other as it was.
pub proof fn every_mode_has_its_resonator<
    C: Copy,
    B: Fn(SoundboardMode) -> C,
>(
    board: &Soundboard,
    build: &B,
    bank: ResonatorBank<C>,
    before: Seq<Resonator<C>>,
    after: Seq<Resonator<C>>,
    index: usize,
    coefficients: C,
    place: int,
)
    requires
        call_ensures(ResonatorBank::<C>::new::<B>, (board, build), bank),
        exists|rebuilt: &mut ResonatorBank<C>| #[trigger]
            call_ensures(ResonatorBank::<C>::rebuild, (rebuilt, index, coefficients), ())
                && (*rebuilt)@ == before && (*final(rebuilt))@ == after,
    ensures
        bank@.len() == board@.len(),
        0 <= place < board@.len()
            ==> build.ensures((board@[place],), bank@[place].coefficients)
                && bank@[place].state1.bits == 0 && bank@[place].state2.bits == 0,
        after.len() == before.len(),
        0 <= place < before.len() && place != index ==> after[place] == before[place],
        index < before.len()
            ==> after[index as int].coefficients == coefficients
                && after[index as int].state1.bits == 0 && after[index as int].state2.bits == 0,
{
}

/// A mode that is set on a board is kept in range and found at its place, and every
/// other mode is found as before.
pub proof fn modes_are_found_where_they_were_set(
    before: Soundboard,
    after: Soundboard,
    board: &Soundboard,
    mode: SoundboardMode,
    index: usize,
    place: usize,
    found: Option<SoundboardMode>,
    earlier: Option<SoundboardMode>,
    old_board: &Soundboard,
)
    requires
        before.wf(),
        before@.len() == 8,
        exists|subject: &mut Soundboard| #[trigger]
            call_ensures(Soundboard::set_mode, (subject, index, mode), ())
                && *subject == before && *final(subject) == after,
        *board == after,
        *old_board == before,
        call_ensures(Soundboard::mode_at, (board, place), found),
        call_ensures(Soundboard::mode_at, (old_board, place), earlier),
    ensures
        found is Some <==> place < 8,
        place != index || index >= 8 ==> found == earlier,
        place == index && index < 8
            ==> lands(mode.frequency_hz, 0x3f80_0000, 0x469c_4000, found->0.frequency_hz) && lands(
            mode.decay_seconds,
            0x3c23_d70a,
            0x7f7f_ffff,
            found->0.decay_seconds,
        ) && lands(mode.gain, 0, 0x4080_0000, found->0.gain),
{
}

/// A board in state `before`, driven by `dry`, radiates `radiated`: every mode rings, and
/// what is radiated is the sum of them all.
pub open spec fn rings<
    C,
    R: Fn(C, Binary32, Binary32, Binary32) -> Binary32,
    P: Fn(Binary32, Binary32) -> Binary32,
>(
    before: Seq<Resonator<C>>,
    dry: Binary32,
    ring: R,
    plus: P,
    after: Seq<Resonator<C>>,
    radiated: Binary32,
) -> bool {
    &&& after.len() == before.len()
    &&& exists|drive: Binary32, sums: Seq<Binary32>|
    {
        &&& #[trigger] is_bearable_part(dry, drive)
        &&& #[trigger] sums.len() == before.len() + 1
        &&& sums[0].bits == 0
        &&& sums[before.len() as int] == radiated
        &&& forall|i: int|
            0 <= i < before.len() ==> {
                &&& (#[trigger] after[i]).coefficients == before[i].coefficients
                &&& after[i].state2 == before[i].state1
                &&& exists|rung: Binary32| #[trigger]
                    ring.ensures(
                        (
                            before[i].coefficients,
                            before[i].state1,
                            before[i].state2,
                            drive,
                        ),
                        rung,
                    ) && is_audible_part(rung, after[i].state1)
                &&& plus.ensures((sums[i], after[i].state1), sums[i + 1])
            }
    }
}

proof fn lemma_rings<
    C,
    R: Fn(C, Binary32, Binary32, Binary32) -> Binary32,
    P: Fn(Binary32, Binary32) -> Binary32,
>(
    before: Seq<Resonator<C>>,
    dry: Binary32,
    ring: R,
    plus: P,
    after: Seq<Resonator<C>>,
    radiated: Binary32,
)
    requires
        soundboard::is_radiated(before, dry, after, ring, plus, radiated),
    ensures
        rings(before, dry, ring, plus, after, radiated),
{
    let drive = crate::math::bounded(
        dry,
        Binary32 { bits: 0xc974_2400 },
        Binary32 { bits: 0x4974_2400 },
    );
    let sums = choose|sums: Seq<Binary32>| #[trigger]
        soundboard::are_sums(after, plus, sums) && sums.len() == after.len() + 1 && radiated
            == sums.last();
    assert(is_bearable_part(dry, drive));
    assert(sums.len() == before.len() + 1);
    assert forall|i: int| 0 <= i < before.len() implies {
        &&& (#[trigger] after[i]).coefficients == before[i].coefficients
        &&& after[i].state2 == before[i].state1
        &&& exists|rung: Binary32| #[trigger]
            ring.ensures(
                (before[i].coefficients, before[i].state1, before[i].state2, drive),
                rung,
            ) && is_audible_part(rung, after[i].state1)
        &&& plus.ensures((sums[i], after[i].state1), sums[i + 1])
    } by {
        assert(soundboard::is_rung(before[i], drive, after[i], ring));
        assert(plus.ensures((sums[i], after[i].state1), sums[i + 1]));
    }
}

/// A board rings through a run, sample by sample, and radiates `radiated`.
pub open spec fn rings_through<
    C,
    R: Fn(C, Binary32, Binary32, Binary32) -> Binary32,
    P: Fn(Binary32, Binary32) -> Binary32,
>(
    boards: Seq<Seq<Resonator<C>>>,
    dry: Seq<Binary32>,
    ring: R,
    plus: P,
    radiated: Seq<Binary32>,
) -> bool {
    &&& radiated.len() == dry.len()
    &&& boards.len() == dry.len() + 1
    &&& forall|i: int|
        0 <= i < dry.len() ==> rings(
            boards[i],
            dry[i],
            ring,
            plus,
            boards[i + 1],
            #[trigger] radiated[i],
        )
}

/// `limited` is `sample` held down at the knee whose bits are `knee`: silence where it is
/// no finite number, the sample itself up to the knee, and beyond it what `saturate` makes
/// of its size, kept between zero and one, on the side where the sample was.
pub open spec fn is_held_down<S: Fn(Binary32, Binary32) -> Binary32>(
    sample: Binary32,
    knee: u32,
    saturate: S,
    limited: Binary32,
) -> bool {
    &&& !sample.finite() ==> limited.bits == 0
    &&& sample.finite() && sample.magnitude() <= knee ==> limited == sample
    &&& sample.finite() && sample.magnitude() > knee ==> exists|saturated: Binary32, size: Binary32|
        {
            &&& #[trigger] saturate.ensures(
                (Binary32 { bits: sample.magnitude() as u32 }, Binary32 { bits: knee }),
                saturated,
            )
            &&& #[trigger] lands(saturated, 0, 0x3f80_0000, size)
            &&& limited.magnitude() == size.magnitude()
            &&& sample.rank() >= 0 ==> limited == size
            &&& sample.rank() < 0 ==> limited.bits != size.bits && limited.rank() == -size.rank()
        }
}

proof fn lemma_held_down<S: Fn(Binary32, Binary32) -> Binary32>(
    sample: Binary32,
    knee: u32,
    saturate: S,
    limited: Binary32,
)
    requires
        knee <= 0x3f7f_be77,
        limiter::is_limited(sample, Binary32 { bits: knee }, saturate, limited),
    ensures
        is_held_down(sample, knee, saturate, limited),
{
    if sample.finite() && sample.magnitude() > knee {
        let saturated = choose|saturated: Binary32| #[trigger]
            saturate.ensures(
                (Binary32 { bits: sample.magnitude() as u32 }, Binary32 { bits: knee }),
                saturated,
            ) && limited == if sample.rank() < 0 {
                crate::string::normalised(saturated).opposite()
            } else {
                crate::string::normalised(saturated)
            };
        let size = crate::string::normalised(saturated);
        assert(lands(saturated, 0, 0x3f80_0000, size));
    }
}

/// `heard` is what goes out of `dry` and of what the board radiates of it.
pub open spec fn goes_out<
    P: Fn(Binary32, Binary32) -> Binary32,
    T: Fn(Binary32, Binary32) -> Binary32,
    S: Fn(Binary32, Binary32) -> Binary32,
>(
    dry: Binary32,
    radiated: Binary32,
    mix_gain: Binary32,
    master_gain: Binary32,
    plus: P,
    times: T,
    saturate: S,
    heard: Binary32,
) -> bool {
    exists|wet: Binary32, mixed: Binary32, scaled: Binary32|
        {
            &&& #[trigger] times.ensures((mix_gain, radiated), wet)
            &&& #[trigger] plus.ensures((dry, wet), mixed)
            &&& #[trigger] times.ensures((mixed, master_gain), scaled)
            &&& is_held_down(scaled, 0x3f66_6666, saturate, heard)
        }
}

/// Every sample of a run goes the same way, the first and the last alike: what the
/// board radiates of it, times the mix gain, is added to it, the sum is scaled by the
/// master gain, and the limiter has the last word. What stands outside the run is left
/// alone.
pub proof fn every_sample_is_mixed_down<
    C: Copy,
    R: Fn(C, Binary32, Binary32, Binary32) -> Binary32,
    P: Fn(Binary32, Binary32) -> Binary32,
    T: Fn(Binary32, Binary32) -> Binary32,
    S: Fn(Binary32, Binary32) -> Binary32,
>(
    engine: &Engine,
    before: Seq<Binary32>,
    after: Seq<Binary32>,
    from: usize,
    to: usize,
    board: Seq<Resonator<C>>,
    board_after: Seq<Resonator<C>>,
    ring: &R,
    plus: &P,
    times: &T,
    saturate: &S,
)
    requires
        from <= to <= before.len(),
        exists|block: &mut [Binary32], bank: &mut ResonatorBank<C>|
            {
                &&& #[trigger] call_ensures(
                    Engine::mix_down::<C, R, P, T, S>,
                    (engine, block, from, to, bank, ring, plus, times, saturate),
                    (),
                )
                &&& block@ == before
                &&& (*final(block))@ == after
                &&& (*bank)@ == board
                &&& (*final(bank))@ == board_after
            },
    ensures
        after.len() == before.len(),
        forall|i: int|
            0 <= i < before.len() && (i < from || i >= to) ==> #[trigger] after[i] == before[i],
        exists|boards: Seq<Seq<Resonator<C>>>, radiated: Seq<Binary32>|
            {
                &&& #[trigger] rings_through(
                    boards,
                    before.subrange(from as int, to as int),
                    *ring,
                    *plus,
                    radiated,
                )
                &&& boards[0] == board
                &&& boards[to - from] == board_after
                &&& forall|i: int|
                    from <= i < to ==> goes_out(
                        before[i],
                        radiated[i - from],
                        engine@.soundboard_mix_gain,
                        engine@.master_gain,
                        *plus,
                        *times,
                        *saturate,
                        #[trigger] after[i],
                    )
            },
{
    let dry = before.subrange(from as int, to as int);
    let heard = after.subrange(from as int, to as int);
    let (boards, radiated) = choose|boards: Seq<Seq<Resonator<C>>>, radiated: Seq<Binary32>|
        {
            &&& #[trigger] crate::mixdown::are_radiated(dry, boards, radiated, *ring, *plus)
            &&& radiated.len() == dry.len()
            &&& boards[0] == board
            &&& boards.last() == board_after
            &&& forall|i: int|
                0 <= i < dry.len() ==> crate::mixdown::is_mixed_down(
                    dry[i],
                    radiated[i],
                    engine@.soundboard_mix_gain,
                    engine@.master_gain,
                    *plus,
                    *times,
                    *saturate,
                    #[trigger] heard[i],
                )
        };
    assert(rings_through(boards, dry, *ring, *plus, radiated)) by {
        assert forall|i: int| 0 <= i < dry.len() implies rings(
            boards[i],
            dry[i],
            *ring,
            *plus,
            boards[i + 1],
            #[trigger] radiated[i],
        ) by {
            lemma_rings(boards[i], dry[i], *ring, *plus, boards[i + 1], radiated[i]);
        }
    }
    assert forall|i: int| from <= i < to implies goes_out(
        before[i],
        radiated[i - from],
        engine@.soundboard_mix_gain,
        engine@.master_gain,
        *plus,
        *times,
        *saturate,
        #[trigger] after[i],
    ) by {
        let j = i - from;
        assert(heard[j] == after[i]);
        assert(dry[j] == before[i]);
        let (wet, mixed, scaled) = choose|wet: Binary32, mixed: Binary32, scaled: Binary32|
            {
                &&& #[trigger] times.ensures((engine@.soundboard_mix_gain, radiated[j]), wet)
                &&& #[trigger] plus.ensures((dry[j], wet), mixed)
                &&& #[trigger] times.ensures((mixed, engine@.master_gain), scaled)
                &&& limiter::is_limited(
                    scaled,
                    Binary32 { bits: 0x3f66_6666 },
                    *saturate,
                    heard[j],
                )
            };
        assert(times.ensures((engine@.soundboard_mix_gain, radiated[j]), wet));
        assert(plus.ensures((before[i], wet), mixed));
        assert(times.ensures((mixed, engine@.master_gain), scaled));
        lemma_held_down(scaled, 0x3f66_6666, *saturate, after[i]);
    }
}

/// A limiter holds a sample down at its knee, on both sides of zero alike.
pub proof fn limits_hold_on_both_sides<
    S: Fn(Binary32, Binary32) -> Binary32,
>(
    sample: Binary32,
    threshold: u32,
    saturate: &S,
    limited: Binary32,
)
    requires
        threshold <= 0x3f7f_be77,
        call_ensures(
            limiter::soft_limit::<S>,
            (sample, Binary32 { bits: threshold }, saturate),
            limited,
        ),
    ensures
        is_held_down(sample, threshold, *saturate, limited),
{
    lemma_held_down(sample, threshold, *saturate, limited);
}

/// A limiter is symmetric: the mirror image of a sample comes out as the mirror image.
pub proof fn limits_are_symmetric<
    S: Fn(Binary32, Binary32) -> Binary32,
>(
    sample: Binary32,
    mirrored: Binary32,
    threshold: Binary32,
    saturate: &S,
    limited: Binary32,
    other: Binary32,
)
    requires
        outcome::decided_by_two(*saturate),
        sample.finite(),
        sample.magnitude() == mirrored.magnitude(),
        sample.rank() > 0,
        mirrored.rank() < 0,
        call_ensures(limiter::soft_limit::<S>, (sample, threshold, saturate), limited),
        call_ensures(limiter::soft_limit::<S>, (mirrored, threshold, saturate), other),
    ensures
        other.magnitude() == limited.magnitude(),
        other.rank() == -limited.rank(),
{
}

/// A velocity goes through the curve: it is kept between zero and one, raised to the
/// exponent, which is kept between one quarter and six, and kept between zero and one
/// again.
pub proof fn velocities_go_through_the_curve<
    P: Fn(Binary32, Binary32) -> Binary32,
>(
    velocity: Binary32,
    exponent: Binary32,
    power: &P,
    warped: Binary32,
)
    requires
        call_ensures(velocity_curve::warp_velocity::<P>, (velocity, exponent, power), warped),
    ensures
        exists|raw: Binary32, curve: Binary32, raised: Binary32|
            {
                &&& #[trigger] lands(velocity, 0, 0x3f80_0000, raw)
                &&& #[trigger] lands(exponent, 0x3e80_0000, 0x40c0_0000, curve)
                &&& #[trigger] power.ensures((raw, curve), raised)
                &&& lands(raised, 0, 0x3f80_0000, warped)
            },
{
    let raw = crate::string::normalised(velocity);
    let curve = velocity_curve::curved(exponent);
    assert(lands(velocity, 0, 0x3f80_0000, raw));
    assert(lands(exponent, 0x3e80_0000, 0x40c0_0000, curve));
}

/// A harder touch is never a softer strike: where the power keeps the order of
/// velocities, so does the curve.
pub proof fn harder_touches_strike_no_softer<
    P: Fn(Binary32, Binary32) -> Binary32,
>(
    softer: Binary32,
    harder: Binary32,
    exponent: Binary32,
    power: &P,
    soft: Binary32,
    hard: Binary32,
)
    requires
        softer.at_most(harder),
        forall|low: Binary32, high: Binary32, curve: Binary32, less: Binary32, more: Binary32|
            low.at_most(high) && #[trigger] power.ensures((low, curve), less)
                && #[trigger] power.ensures((high, curve), more)
                ==> less.at_most(more),
        call_ensures(velocity_curve::warp_velocity::<P>, (softer, exponent, power), soft),
        call_ensures(velocity_curve::warp_velocity::<P>, (harder, exponent, power), hard),
    ensures
        soft.at_most(hard),
{
    let low = crate::string::normalised(softer);
    let high = crate::string::normalised(harder);
    assert(low.at_most(high));
}

/// Every channel of a frame has the sample of that frame: for every frame that the
/// block reaches and every channel, the first and the last alike. Frames beyond the
/// block are left as they were.
pub proof fn every_channel_has_its_frame<
    T: Copy,
>(
    before: Seq<T>,
    after: Seq<T>,
    channels: usize,
    block: &[T],
    frame: int,
    channel: int,
)
    requires
        channels > 0,
        0 <= channel < channels,
        0 <= frame,
        frame * channels + channel < before.len(),
        exists|chunk: &mut [T]| #[trigger]
            call_ensures(stream::mix_into::<T>, (chunk, channels, block), ()) && chunk@ == before
                && (*final(chunk))@ == after,
    ensures
        after.len() == before.len(),
        frame < block@.len() ==> after[frame * channels + channel] == block@[frame],
        frame >= block@.len()
            ==> after[frame * channels + channel] == before[frame * channels + channel],
{
    let slot = frame * channels + channel;
    assert(0 <= frame * channels) by (nonlinear_arith)
        requires
            0 <= frame,
            0 < channels,
    ;
    vstd::arithmetic::div_mod::lemma_fundamental_div_mod_converse(
        slot,
        channels as int,
        frame,
        channel,
    );
    assert(after[slot] == stream::laid_out(before, channels, block@, slot));
}

/// A stream has at least one channel, and every format but an unknown one is supported.
pub proof fn streams_have_a_channel(
    channels: u16,
    count: usize,
    format: stream::SampleFormat,
    supported: bool,
)
    requires
        call_ensures(stream::channel_count, (channels,), count),
        call_ensures(stream::is_supported, (format,), supported),
    ensures
        channels > 0 ==> count == channels,
        channels == 0 ==> count == 1,
        supported
            <==> format == stream::SampleFormat::F32 || format == stream::SampleFormat::I16
                || format == stream::SampleFormat::U16,
{
}

/// Flushing sets the bits that make a processor flush, and leaves every other bit.
pub proof fn flushing_sets_its_bits_alone(
    mxcsr: u32,
    fpcr: u64,
    flushing: u32,
    flushed: u64,
)
    requires
        call_ensures(denormals::flushing_mxcsr, (mxcsr,), flushing),
        call_ensures(denormals::flushing_fpcr, (fpcr,), flushed),
    ensures
        flushing == mxcsr | 0x8040,
        flushed == fpcr | 0x100_0000,
{
    assert(flushing == mxcsr | 0x8040) by (bit_vector)
        requires
            flushing & (0x8000u32 | 0x40u32) == (0x8000u32 | 0x40u32),
            flushing & !(0x8000u32 | 0x40u32) == mxcsr & !(0x8000u32 | 0x40u32),
    ;
    assert(flushed == fpcr | 0x100_0000) by (bit_vector)
        requires
            flushed & 0x100_0000u64 == 0x100_0000u64,
            flushed & !0x100_0000u64 == fpcr & !0x100_0000u64,
    ;
}

/// A render lasts as many whole samples as its product says, where its duration is
/// positive and at most ten minutes; any other duration is refused, and named.
pub proof fn renders_last_as_long_as_asked(
    seconds: Binary32,
    product: Binary32,
    result: Result<usize, RenderError>,
)
    requires
        call_ensures(render::duration_to_samples, (seconds, product), result),
    ensures
        result is Ok <==> !seconds.nan() && 0 < seconds.rank() <= 0x4416_0000,
        result is Err ==> result->Err_0 == RenderError::Duration(seconds),
        result is Ok && product.whole() <= usize::MAX ==> result->Ok_0 == product.whole(),
        result is Ok && product.whole() > usize::MAX ==> result->Ok_0 == usize::MAX,
{
    crate::binary32::lemma_whole_non_negative(product);
}

/// A fade covers the end of its buffer: as much as was asked, or all of it. What is
/// measured lasts at most two minutes, and no time at all where it is no number.
pub proof fn fades_cover_the_end(
    count: usize,
    length: usize,
    span: (usize, usize),
    seconds: Binary32,
    measured: Binary32,
)
    requires
        call_ensures(render::fade_span, (count, length), span),
        call_ensures(render::measured_seconds, (seconds,), measured),
    ensures
        span.0 + span.1 == count,
        length <= count ==> span.1 == length,
        length > count ==> span.1 == count,
        !seconds.finite() ==> measured.bits == 0,
        seconds.finite() && 0 <= seconds.rank() <= 0x42f0_0000 ==> measured == seconds,
        seconds.finite() && seconds.rank() < 0 ==> measured.bits == 0,
        seconds.finite() && seconds.rank() > 0x42f0_0000 ==> measured.bits == 0x42f0_0000,
{
}

/// A duration is counted in the bucket of its fifty microseconds, the longest all in
/// the last, and in no other bucket; the slowest is remembered, and the total grows by
/// one.
pub proof fn durations_are_counted_once(
    before: CallbackTimer,
    after: CallbackTimer,
    micros: u128,
    bucket: int,
)
    requires
        before.wf(),
        before.counts().len() == 200,
        0 <= bucket < 200,
        before.counts()[bucket] < u32::MAX,
        before.total() < u64::MAX,
        micros <= u64::MAX,
        exists|timer: &mut CallbackTimer| #[trigger]
            call_ensures(CallbackTimer::record, (timer, micros), ())
                && *timer == before && *final(timer) == after,
    ensures
        after.total() == before.total() + 1,
        after.counts().len() == 200,
        (bucket < 199 && 50 * bucket <= micros < 50 * bucket + 50)
            || (bucket == 199 && 50 * 199 <= micros)
            ==> after.counts()[bucket] == before.counts()[bucket] + 1,
        !(
            (bucket < 199 && 50 * bucket <= micros < 50 * bucket + 50)
                || (bucket == 199 && 50 * 199 <= micros)
        )
            ==> after.counts()[bucket] == before.counts()[bucket],
        micros > before.slowest() ==> after.slowest() == micros,
        micros <= before.slowest() ==> after.slowest() == before.slowest(),
{
}

/// The peak of a buffer is the size of its loudest sample, wherever that stands and on
/// whichever side of zero; a buffer whose peak is next to nothing is silent.
pub proof fn peaks_are_of_the_loudest(
    samples: &[Binary32],
    peak: Binary32,
    silent: bool,
    i: int,
)
    requires
        call_ensures(render::peak, (samples,), peak),
        call_ensures(render::is_silent_peak, (peak,), silent),
    ensures
        0 <= i < samples@.len() && !samples@[i].nan() ==> samples@[i].magnitude() <= peak.bits,
        peak.bits == 0 || exists|at: int| 0 <= at < samples@.len()
            && (#[trigger] samples@[at]).magnitude() == peak.bits,
        silent <==> peak.bits <= 0x3400_0000,
{
    if 0 <= i < samples@.len() {
        let size = render::loudness(samples@[i]);
        assert(!peak.below(size));
        assert(size.rank() == samples@[i].magnitude());
    }
    if peak.bits != 0 {
        let at = choose|at: int|
            0 <= at < samples@.len() && peak == render::loudness(#[trigger] samples@[at]);
        assert(samples@[at].magnitude() == peak.bits);
    }
}

/// A new board has eight modes, each lower mode below the next, slower to decay and
/// louder.
pub proof fn new_boards_fall_off(
    board: Soundboard,
    low: int,
    high: int,
)
    requires
        call_ensures(Soundboard::new, (), board),
        0 <= low < high < 8,
    ensures
        board@.len() == 8,
        board@[low].frequency_hz.below(board@[high].frequency_hz),
        board@[high].decay_seconds.below(board@[low].decay_seconds),
        board@[high].gain.below(board@[low].gain),
        board@[0].frequency_hz.bits == 0x42a0_0000,
        board@[7].frequency_hz.bits == 0x44af_0000,
        board@[0].gain.bits == 0x3f80_0000,
{
}

} // verus!

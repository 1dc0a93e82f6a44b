//! What a fade and a normalisation make of a buffer, sample by sample.
use crate::binary32::Binary32;
use crate::outcome;
use crate::render;
use vstd::prelude::*;

verus! {

/// Every sample of a fade, from its first place to the one before last, is the sample
/// that stood there times what the ramp gives for that place and the fade's length; the
/// last is zero, and what stands before the fade is left alone. The fade is as long as
/// was asked, or as long as the buffer where that is shorter.
pub proof fn every_place_of_a_fade_is_ramped<
    R: Fn(usize, usize) -> Binary32,
    T: Fn(Binary32, Binary32) -> Binary32,
>(
    before: Seq<Binary32>,
    length: usize,
    ramp: &R,
    times: &T,
    after: Seq<Binary32>,
    covered: usize,
    place: usize,
)
    requires
        exists|samples: &mut [Binary32]| #[trigger]
            call_ensures(render::apply_fade_out::<R, T>, (samples, length, ramp, times), ())
                && samples@ == before && (*final(samples))@ == after,
        length <= before.len() ==> covered == length,
        length > before.len() ==> covered == before.len(),
        1 <= place <= covered,
    ensures
        after.len() == before.len(),
        forall|i: int| 0 <= i < before.len() - covered ==> #[trigger] after[i] == before[i],
        place < covered ==> exists|factor: Binary32| #[trigger]
            ramp.ensures((place, covered), factor) && times.ensures(
                (before[before.len() - covered + place - 1], factor),
                after[before.len() - covered + place - 1],
            ),
        place == covered ==> after[before.len() - 1].bits == 0,
{
    let start = before.len() - covered;
    let i = start + place - 1;
    assert(after[i] == after[before.len() - covered + place - 1]);
    assert(render::is_faded(
        before[i],
        (i - start + 1) as usize,
        covered,
        *ramp,
        *times,
        after[i],
    ));
    assert((i - start + 1) as usize == place);
}

/// Without a fade nothing changes.
pub proof fn no_fade_changes_nothing<
    R: Fn(usize, usize) -> Binary32,
    T: Fn(Binary32, Binary32) -> Binary32,
>(before: Seq<Binary32>, ramp: &R, times: &T, after: Seq<Binary32>)
    requires
        exists|samples: &mut [Binary32]| #[trigger]
            call_ensures(render::apply_fade_out::<R, T>, (samples, 0, ramp, times), ())
                && samples@ == before && (*final(samples))@ == after,
    ensures
        after == before,
{
    assert(after =~= before);
}

/// A fade falls over its whole length: where the ramp falls strictly with the place and
/// a larger factor makes a positive sample larger, a constant buffer comes out strictly
/// falling from the first place of the fade to the last, which is zero.
pub proof fn a_fade_falls_over_its_whole_length<
    R: Fn(usize, usize) -> Binary32,
    T: Fn(Binary32, Binary32) -> Binary32,
>(
    before: Seq<Binary32>,
    length: usize,
    level: Binary32,
    ramp: &R,
    times: &T,
    after: Seq<Binary32>,
    i: int,
    j: int,
)
    requires
        length <= before.len(),
        forall|i: int| 0 <= i < before.len() ==> #[trigger] before[i] == level,
        forall|near: usize, far: usize, high: Binary32, low: Binary32|
            1 <= near < far < length && #[trigger] ramp.ensures((near, length), high)
                && #[trigger] ramp.ensures((far, length), low) ==> low.below(high),
        forall|place: usize, factor: Binary32|
            1 <= place < length && #[trigger] ramp.ensures((place, length), factor)
                ==> Binary32::from_bits(0).below(factor),
        forall|low: Binary32, high: Binary32, less: Binary32, more: Binary32|
            low.below(high) && #[trigger] times.ensures((level, low), less)
                && #[trigger] times.ensures((level, high), more) ==> less.below(more),
        forall|factor: Binary32, product: Binary32|
            Binary32::from_bits(0).below(factor) && #[trigger] times.ensures(
                (level, factor),
                product,
            ) ==> Binary32::from_bits(0).below(product),
        exists|samples: &mut [Binary32]| #[trigger]
            call_ensures(render::apply_fade_out::<R, T>, (samples, length, ramp, times), ())
                && samples@ == before && (*final(samples))@ == after,
        before.len() - length <= i < j < before.len(),
    ensures
        after[j].below(after[i]),
{
    let start = before.len() - length;
    let near = i - start + 1;
    let far = j - start + 1;
    every_place_of_a_fade_is_ramped(before, length, ramp, times, after, length, near as usize);
    every_place_of_a_fade_is_ramped(before, length, ramp, times, after, length, far as usize);
    assert(after[before.len() - length + near - 1] == after[i]);
    let high = choose|factor: Binary32| #[trigger]
        ramp.ensures((near as usize, length), factor) && times.ensures(
            (before[before.len() - length + near - 1], factor),
            after[before.len() - length + near - 1],
        );
    assert(before[i] == level);
    assert(times.ensures((level, high), after[i]));
    if far < length {
        assert(after[before.len() - length + far - 1] == after[j]);
        let low = choose|factor: Binary32| #[trigger]
            ramp.ensures((far as usize, length), factor) && times.ensures(
                (before[before.len() - length + far - 1], factor),
                after[before.len() - length + far - 1],
            );
        assert(before[j] == level);
        assert(times.ensures((level, low), after[j]));
        assert(low.below(high));
    } else {
        assert(after[j].bits == 0);
        assert(after[j] == Binary32::from_bits(0));
    }
}

/// A fade treats a sample by its place from the end alone: two buffers that agree in
/// what they fade come out alike there, whatever their lengths.
pub proof fn fades_look_at_the_end_alone<
    R: Fn(usize, usize) -> Binary32,
    T: Fn(Binary32, Binary32) -> Binary32,
>(
    before: Seq<Binary32>,
    other_before: Seq<Binary32>,
    length: usize,
    ramp: &R,
    times: &T,
    after: Seq<Binary32>,
    other_after: Seq<Binary32>,
    from_end: int,
)
    requires
        outcome::decided_by_two(*ramp),
        outcome::decided_by_two(*times),
        length <= before.len(),
        length <= other_before.len(),
        1 <= from_end <= length,
        before[before.len() - from_end] == other_before[other_before.len() - from_end],
        exists|samples: &mut [Binary32]| #[trigger]
            call_ensures(render::apply_fade_out::<R, T>, (samples, length, ramp, times), ())
                && samples@ == before && (*final(samples))@ == after,
        exists|samples: &mut [Binary32]| #[trigger]
            call_ensures(render::apply_fade_out::<R, T>, (samples, length, ramp, times), ())
                && samples@ == other_before && (*final(samples))@ == other_after,
    ensures
        after[after.len() - from_end] == other_after[other_after.len() - from_end],
{
    let place = length - from_end + 1;
    every_place_of_a_fade_is_ramped(before, length, ramp, times, after, length, place as usize);
    every_place_of_a_fade_is_ramped(
        other_before,
        length,
        ramp,
        times,
        other_after,
        length,
        place as usize,
    );
    if from_end > 1 {
        let i = before.len() - length + place - 1;
        let j = other_before.len() - length + place - 1;
        assert(after[before.len() - length + place - 1] == after[i]);
        assert(other_after[other_before.len() - length + place - 1] == other_after[j]);
        let one = choose|factor: Binary32| #[trigger]
            ramp.ensures((place as usize, length), factor) && times.ensures(
                (before[before.len() - length + place - 1], factor),
                after[before.len() - length + place - 1],
            );
        let other = choose|factor: Binary32| #[trigger]
            ramp.ensures((place as usize, length), factor) && times.ensures(
                (other_before[other_before.len() - length + place - 1], factor),
                other_after[other_before.len() - length + place - 1],
            );
        assert(one == other);
    } else {
        assert(after[before.len() - 1].bits == 0);
        assert(other_after[other_before.len() - 1].bits == 0);
    }
}

/// Normalising scales every sample by one gain, which takes the loudest sample to the
/// peak that was asked for: no sample of the buffer is louder than the one that the gain
/// was worked out from. A buffer without a sample above the threshold of silence is left
/// alone.
pub proof fn every_sample_is_scaled_alike<
    Q: Fn(Binary32, Binary32) -> Binary32,
    T: Fn(Binary32, Binary32) -> Binary32,
>(before: Seq<Binary32>, target: Binary32, over: &Q, times: &T, after: Seq<Binary32>)
    requires
        exists|samples: &mut [Binary32]| #[trigger]
            call_ensures(render::normalise::<Q, T>, (samples, target, over, times), ())
                && samples@ == before && (*final(samples))@ == after,
    ensures
        after.len() == before.len(),
        (forall|i: int|
            0 <= i < before.len() ==> (#[trigger] before[i]).magnitude() <= 0x3400_0000
                || before[i].nan()) ==> after == before,
        forall|loudest: int|
            0 <= loudest < before.len() && !(#[trigger] before[loudest]).nan()
                && before[loudest].magnitude() > 0x3400_0000 && (forall|i: int|
                0 <= i < before.len() ==> (#[trigger] before[i]).nan() || before[i].magnitude()
                    <= before[loudest].magnitude()) ==> exists|gain: Binary32| #[trigger]
                over.ensures(
                    (target, Binary32 { bits: before[loudest].magnitude() as u32 }),
                    gain,
                ) && forall|i: int|
                    0 <= i < before.len() ==> times.ensures(
                        (before[i], gain),
                        #[trigger] after[i],
                    ),
{
    let samples = choose|samples: &mut [Binary32]| #[trigger]
        call_ensures(render::normalise::<Q, T>, (samples, target, over, times), ())
            && samples@ == before && (*final(samples))@ == after;
    let peak = choose|peak: Binary32| #[trigger]
        render::is_loudest(before, peak) && render::is_normalised(
            before,
            peak,
            target,
            *over,
            *times,
            after,
        );
    assert(peak.rank() == peak.magnitude());
    if forall|i: int|
        0 <= i < before.len() ==> (#[trigger] before[i]).magnitude() <= 0x3400_0000
            || before[i].nan() {
        if peak.bits != 0 {
            let i = choose|i: int|
                0 <= i < before.len() && peak == render::loudness(#[trigger] before[i]);
            assert(before[i].magnitude() <= 0x3400_0000 || before[i].nan());
        }
        assert(peak.at_most(Binary32::from_bits(0x3400_0000)));
    }
    assert forall|loudest: int|
        0 <= loudest < before.len() && !(#[trigger] before[loudest]).nan()
            && before[loudest].magnitude() > 0x3400_0000 && (forall|i: int|
            0 <= i < before.len() ==> (#[trigger] before[i]).nan() || before[i].magnitude()
                <= before[loudest].magnitude()) implies exists|gain: Binary32| #[trigger]
        over.ensures((target, Binary32 { bits: before[loudest].magnitude() as u32 }), gain)
            && forall|i: int|
            0 <= i < before.len() ==> times.ensures((before[i], gain), #[trigger] after[i]) by {
        let own = render::loudness(before[loudest]);
        assert(own.rank() == before[loudest].magnitude());
        assert(!peak.below(own));
        assert(peak.magnitude() >= before[loudest].magnitude());
        let i = choose|i: int|
            0 <= i < before.len() && peak == render::loudness(#[trigger] before[i]);
        assert(before[i].nan() || before[i].magnitude() <= before[loudest].magnitude());
        assert(!before[i].nan());
        assert(peak == own);
        assert(!peak.at_most(Binary32::from_bits(0x3400_0000)));
    }
}

} // verus!

//! Offline rendering: what may be rendered, and how much of it there is.
use crate::binary32::Binary32;
use crate::params::{PianoKey, Tuning};
use crate::units::{ParamError, SampleRate};
use vstd::prelude::*;

verus! {

/// Longest render, 600 seconds: a bound, so that a typo cannot ask for a
/// terabyte of samples.
pub const MAX_DURATION_SECONDS_BITS: u32 = 0x4416_0000;

/// Length of the fade at the end of every render, 20 ms.
pub const FADE_OUT_SECONDS_BITS: u32 = 0x3ca3_d70a;

/// Longest offline measurement, 120 seconds.
pub const MAX_RENDER_SECONDS_BITS: u32 = 0x42f0_0000;

/// How many samples an offline measurement renders at a time.
pub const RENDER_BLOCK: usize = 1024;

/// A peak at or below this, two to the power of minus 23, counts as silence.
pub const SILENT_PEAK_BITS: u32 = 0x3400_0000;

/// Why a render or a file write failed.
#[derive(Debug, Clone, PartialEq, Eq)]
pub enum RenderError {
    /// A synthesis parameter was rejected.
    Parameter(ParamError),
    /// The requested duration is not a usable number of seconds.
    Duration(Binary32),
    /// Writing the file failed.
    Wav(String),
}

/// Everything needed to render one note offline.
#[derive(Debug, Clone, Copy)]
pub struct RenderRequest {
    /// Which key to strike.
    pub key: PianoKey,
    /// The instrument's reference pitch.
    pub tuning: Tuning,
    /// Output sample rate.
    pub sample_rate: SampleRate,
    /// How long to record, in seconds.
    pub seconds: Binary32,
    /// How hard the key is struck.
    pub velocity: Binary32,
}

/// A duration that can be rendered: finite, positive and not too long.
pub open spec fn is_duration(seconds: Binary32) -> bool {
    Binary32::from_bits(0).below(seconds) && seconds.at_most(
        Binary32::from_bits(MAX_DURATION_SECONDS_BITS),
    )
}

/// How many samples a render of `seconds` has, given the product of the duration
/// and the sample rate. Fails for a duration that cannot be rendered.
pub fn duration_to_samples(seconds: Binary32, product: Binary32) -> (result: Result<
    usize,
    RenderError,
>)
    ensures
        is_duration(seconds) ==> result == Ok::<usize, RenderError>(
            if product.whole() > usize::MAX {
                usize::MAX
            } else {
                product.whole() as usize
            },
        ),
        !is_duration(seconds) ==> result == Err::<usize, RenderError>(
            RenderError::Duration(seconds),
        ),
{
    if !seconds.is_finite() || seconds.le(Binary32::from_bits(0)) || Binary32::from_bits(
        MAX_DURATION_SECONDS_BITS,
    ).lt(seconds) {
        return Err(RenderError::Duration(seconds));
    }
    proof {
        crate::binary32::lemma_whole_non_negative(product);
    }
    Ok(product.truncate())
}

/// The part of a buffer of `count` samples that a fade of `length` samples
/// covers: where it starts, and how long it is.
pub fn fade_span(count: usize, length: usize) -> (span: (usize, usize))
    ensures
        span.1 == if length < count {
            length
        } else {
            count
        },
        span.0 == count - span.1,
{
    let covered: usize = if length < count {
        length
    } else {
        count
    };
    (count - covered, covered)
}

/// The duration an offline measurement renders: zero for a request that is not
/// finite, and otherwise the request kept between zero and the longest.
pub fn measured_seconds(seconds: Binary32) -> (clamped: Binary32)
    ensures
        clamped == if seconds.finite() {
            seconds.confined(
                Binary32::from_bits(0),
                Binary32::from_bits(MAX_RENDER_SECONDS_BITS),
            )
        } else {
            Binary32::from_bits(0)
        },
        clamped.within(Binary32::from_bits(0), Binary32::from_bits(MAX_RENDER_SECONDS_BITS)),
{
    if seconds.is_finite() {
        seconds.clamp(Binary32::from_bits(0), Binary32::from_bits(MAX_RENDER_SECONDS_BITS))
    } else {
        Binary32::from_bits(0)
    }
}

/// The magnitude of a sample.
pub open spec fn loudness(sample: Binary32) -> Binary32 {
    Binary32::from_bits(sample.magnitude() as u32)
}

/// The louder of a peak so far and the magnitude of one more sample; a NaN counts
/// for nothing.
pub fn louder(peak: Binary32, sample: Binary32) -> (louder: Binary32)
    ensures
        forall|heard: Seq<Binary32>| #[trigger]
            is_loudest(heard, peak) ==> is_loudest(heard.push(sample), louder),
{
    let louder = peak.max(sample.abs());
    proof {
        assert(loudness(sample).bits == sample.magnitude());
        assert forall|heard: Seq<Binary32>| #[trigger] is_loudest(heard, peak) implies is_loudest(
            heard.push(sample),
            louder,
        ) by {
            let longer = heard.push(sample);
            assert(longer[heard.len() as int] == sample);
            assert forall|i: int| 0 <= i < longer.len() implies !louder.below(
                loudness(#[trigger] longer[i]),
            ) by {
                if i < heard.len() {
                    assert(longer[i] == heard[i]);
                }
            }
            if louder.bits != 0 && louder != loudness(sample) {
                let i = choose|i: int|
                    0 <= i < heard.len() && peak == loudness(#[trigger] heard[i]);
                assert(longer[i] == heard[i]);
            }
        }
    }
    louder
}

/// The loudest magnitude in a buffer, and zero for an empty one. A NaN counts for
/// nothing.
pub fn peak(samples: &[Binary32]) -> (peak: Binary32)
    ensures
        is_loudest(samples@, peak),
{
    let mut peak = Binary32::from_bits(0);
    let mut index: usize = 0;
    while index < samples.len()
        invariant
            index <= samples@.len(),
            is_loudest(samples@.take(index as int), peak),
        decreases samples@.len() - index,
    {
        peak = louder(peak, samples[index]);
        assert(samples@.take(index as int).push(samples@[index as int]) =~= samples@.take(
            index + 1,
        ));
        index = index + 1;
    }
    assert(samples@.take(index as int) =~= samples@);
    peak
}

/// Whether a buffer with this peak is silent: it is left alone rather than
/// amplified into noise.
pub fn is_silent_peak(peak: Binary32) -> (silent: bool)
    ensures
        silent == peak.at_most(Binary32::from_bits(SILENT_PEAK_BITS)),
{
    peak.le(Binary32::from_bits(SILENT_PEAK_BITS))
}

/// `scaled` is `samples` brought to `target_peak`: every sample times the target
/// over the peak, and a silent buffer as it is.
pub open spec fn is_normalised<
    Q: Fn(Binary32, Binary32) -> Binary32,
    T: Fn(Binary32, Binary32) -> Binary32,
>(
    samples: Seq<Binary32>,
    peak: Binary32,
    target_peak: Binary32,
    over: Q,
    times: T,
    scaled: Seq<Binary32>,
) -> bool {
    if peak.at_most(Binary32::from_bits(SILENT_PEAK_BITS)) {
        scaled == samples
    } else {
        &&& scaled.len() == samples.len()
        &&& exists|gain: Binary32| #[trigger]
            over.ensures((target_peak, peak), gain) && forall|i: int|
                0 <= i < samples.len() ==> times.ensures(
                    (samples[i], gain),
                    #[trigger] scaled[i],
                )
    }
}

/// `peak` is the loudest magnitude in `samples`, zero where there is none.
pub open spec fn is_loudest(samples: Seq<Binary32>, peak: Binary32) -> bool {
    &&& !peak.nan()
    &&& peak.bits < crate::binary32::SIGN_WEIGHT
    &&& peak.bits == 0 || exists|i: int|
        0 <= i < samples.len() && peak == loudness(#[trigger] samples[i])
    &&& forall|i: int| 0 <= i < samples.len() ==> !peak.below(loudness(#[trigger] samples[i]))
}

/// Some samples have one loudest magnitude.
pub proof fn loudest_is_decided(samples: Seq<Binary32>, peak: Binary32, other: Binary32)
    requires
        is_loudest(samples, peak),
        is_loudest(samples, other),
    ensures
        peak == other,
{
    if peak.bits != 0 {
        let i = choose|i: int| 0 <= i < samples.len() && peak == loudness(#[trigger] samples[i]);
        assert(!other.below(loudness(samples[i])));
    }
    if other.bits != 0 {
        let i = choose|i: int| 0 <= i < samples.len() && other == loudness(#[trigger] samples[i]);
        assert(!peak.below(loudness(samples[i])));
    }
}

/// Scales `samples` so that the loudest one sits at `target_peak`. A silent buffer
/// is left alone rather than amplified into noise.
pub fn normalise<
    Q: Fn(Binary32, Binary32) -> Binary32,
    T: Fn(Binary32, Binary32) -> Binary32,
>(samples: &mut [Binary32], target_peak: Binary32, over: &Q, times: &T)
    requires
        forall|a: Binary32, b: Binary32| over.requires((a, b)),
        forall|a: Binary32, b: Binary32| times.requires((a, b)),
    ensures
        exists|peak: Binary32| #[trigger]
            is_loudest(old(samples)@, peak) && is_normalised(
                old(samples)@,
                peak,
                target_peak,
                *over,
                *times,
                final(samples)@,
            ),
{
    let loudest = peak(samples);
    if is_silent_peak(loudest) {
        return;
    }
    let gain = over(target_peak, loudest);
    let mut index: usize = 0;
    while index < samples.len()
        invariant
            forall|a: Binary32, b: Binary32| times.requires((a, b)),
            samples@.len() == old(samples)@.len(),
            index <= samples@.len(),
            forall|i: int|
                0 <= i < index ==> times.ensures((old(samples)@[i], gain), #[trigger] samples@[i]),
            forall|i: int|
                index <= i < samples@.len() ==> #[trigger] samples@[i] == old(samples)@[i],
        decreases samples@.len() - index,
    {
        samples[index] = times(samples[index], gain);
        index = index + 1;
    }
}

/// Fades the last `length` samples down to silence: a sample of the fade is
/// multiplied by what `ramp` gives for its place, which counts from one, and the
/// length of the fade, and the last one is zero. A fade longer than the buffer
/// covers all of it.
pub fn apply_fade_out<
    R: Fn(usize, usize) -> Binary32,
    T: Fn(Binary32, Binary32) -> Binary32,
>(samples: &mut [Binary32], length: usize, ramp: &R, times: &T)
    requires
        forall|place: usize, length: usize|
            1 <= place < length ==> ramp.requires((place, length)),
        forall|a: Binary32, b: Binary32| times.requires((a, b)),
    ensures
        final(samples)@.len() == old(samples)@.len(),
        length > 0 && old(samples)@.len() > 0 ==> final(samples)@.last() == Binary32::from_bits(0),
        ({
            let covered = if length < old(samples)@.len() {
                length as int
            } else {
                old(samples)@.len() as int
            };
            let start = old(samples)@.len() - covered;
            &&& forall|i: int|
                0 <= i < start ==> #[trigger] final(samples)@[i] == old(samples)@[i]
            &&& forall|i: int|
                start <= i < old(samples)@.len() ==> is_faded(
                    old(samples)@[i],
                    (i - start + 1) as usize,
                    covered as usize,
                    *ramp,
                    *times,
                    #[trigger] final(samples)@[i],
                )
        }),
{
    let count: usize = samples.len();
    let (start, covered) = fade_span(count, length);
    let mut offset: usize = 0;
    while offset < covered
        invariant
            forall|place: usize, length: usize|
                1 <= place < length ==> ramp.requires((place, length)),
            forall|a: Binary32, b: Binary32| times.requires((a, b)),
            samples@.len() == old(samples)@.len(),
            samples@.len() == count,
            start + covered == count,
            offset <= covered,
            forall|i: int| 0 <= i < start ==> #[trigger] samples@[i] == old(samples)@[i],
            forall|i: int|
                start <= i < start + offset ==> is_faded(
                    old(samples)@[i],
                    (i - start + 1) as usize,
                    covered,
                    *ramp,
                    *times,
                    #[trigger] samples@[i],
                ),
            forall|i: int|
                start + offset <= i < samples@.len() ==> #[trigger] samples@[i] == old(
                    samples,
                )@[i],
        decreases covered - offset,
    {
        let index: usize = start + offset;
        let faded = if offset + 1 < covered {
            let factor = ramp(offset + 1, covered);
            times(samples[index], factor)
        } else {
            Binary32::from_bits(0)
        };
        assert(is_faded(
            old(samples)@[index as int],
            (offset + 1) as usize,
            covered,
            *ramp,
            *times,
            faded,
        ));
        samples[index] = faded;
        offset = offset + 1;
    }
}

/// `faded` is `sample` at its place in a fade: times what the ramp gives there, and
/// zero at the last place.
pub open spec fn is_faded<
    R: Fn(usize, usize) -> Binary32,
    T: Fn(Binary32, Binary32) -> Binary32,
>(
    sample: Binary32,
    place: usize,
    length: usize,
    ramp: R,
    times: T,
    faded: Binary32,
) -> bool {
    if place < length {
        exists|factor: Binary32| #[trigger]
            ramp.ensures((place, length), factor) && times.ensures((sample, factor), faded)
    } else {
        faded == Binary32::from_bits(0)
    }
}

} // verus!

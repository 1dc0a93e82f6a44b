//! What a key's voicing reads off the registers' curves, key by key.
//!
//! A register curve is two straight lines through three anchors. What is said here is
//! said of a key's own pitch, on whichever line it lies.
use crate::binary32::Binary32;
use crate::bounds_laws::lands;
use crate::outcome;
use crate::params::PianoKey;
use crate::string::StringConfig;
use crate::units::Hz;
use crate::voicing;
use crate::voicing::{
    AnchorPitches, Anchors, DecayTargets, KeyVoicing, LoopLosses, Point, RegisterOverrides,
    SearchBox,
};
use vstd::prelude::*;

verus! {

/// Up to the middle anchor a key's decay times lie on the lines from the bass anchor to
/// the middle one, at the key's own pitch; beyond it, on the lines from the middle anchor
/// to the treble one, again at the key's own pitch.
pub proof fn decay_times_are_read_at_the_keys_own_pitch<
    I: Fn(Binary32, Point, Point) -> Binary32,
>(
    frequency: Binary32,
    pitches: AnchorPitches,
    anchors: Anchors,
    interpolate: &I,
    targets: DecayTargets,
)
    requires
        call_ensures(
            voicing::decay_targets_for::<I>,
            (frequency, pitches, anchors, interpolate),
            targets,
        ),
        !frequency.nan(),
        !pitches.mid.nan(),
    ensures
        frequency.rank() <= pitches.mid.rank() ==> {
            &&& interpolate.ensures(
                (frequency, (pitches.bass, anchors.bass_decay), (pitches.mid, anchors.mid_decay)),
                targets.fundamental,
            )
            &&& interpolate.ensures(
                (
                    frequency,
                    (pitches.bass, Binary32 { bits: 0x4190_0000 }),
                    (pitches.mid, Binary32 { bits: 0x40a0_0000 }),
                ),
                targets.mid_partial,
            )
            &&& interpolate.ensures(
                (
                    frequency,
                    (pitches.bass, Binary32 { bits: 0x40c0_0000 }),
                    (pitches.mid, Binary32 { bits: 0x3fc0_0000 }),
                ),
                targets.brightness,
            )
        },
        frequency.rank() > pitches.mid.rank() ==> {
            &&& interpolate.ensures(
                (
                    frequency,
                    (pitches.mid, anchors.mid_decay),
                    (pitches.treble, anchors.treble_decay),
                ),
                targets.fundamental,
            )
            &&& interpolate.ensures(
                (
                    frequency,
                    (pitches.mid, Binary32 { bits: 0x40a0_0000 }),
                    (pitches.treble, Binary32 { bits: 0x3f4c_cccd }),
                ),
                targets.mid_partial,
            )
            &&& interpolate.ensures(
                (
                    frequency,
                    (pitches.mid, Binary32 { bits: 0x3fc0_0000 }),
                    (pitches.treble, Binary32 { bits: 0x3e99_999a }),
                ),
                targets.brightness,
            )
        },
{
}

/// Where the line from the bass anchor to the middle one falls strictly with the pitch,
/// a higher key up to the middle anchor has a strictly shorter decay.
pub proof fn higher_keys_decay_sooner<I: Fn(Binary32, Point, Point) -> Binary32>(
    lower: Binary32,
    higher: Binary32,
    pitches: AnchorPitches,
    anchors: Anchors,
    interpolate: &I,
    lower_targets: DecayTargets,
    higher_targets: DecayTargets,
)
    requires
        lower.below(higher),
        higher.at_most(pitches.mid),
        forall|left: Binary32, right: Binary32, longer: Binary32, shorter: Binary32|
            left.below(right) && #[trigger] interpolate.ensures(
                (left, (pitches.bass, anchors.bass_decay), (pitches.mid, anchors.mid_decay)),
                longer,
            ) && #[trigger] interpolate.ensures(
                (right, (pitches.bass, anchors.bass_decay), (pitches.mid, anchors.mid_decay)),
                shorter,
            ) ==> shorter.below(longer),
        call_ensures(
            voicing::decay_targets_for::<I>,
            (lower, pitches, anchors, interpolate),
            lower_targets,
        ),
        call_ensures(
            voicing::decay_targets_for::<I>,
            (higher, pitches, anchors, interpolate),
            higher_targets,
        ),
    ensures
        higher_targets.fundamental.below(lower_targets.fundamental),
        higher_targets.fundamental != lower_targets.fundamental,
{
}

/// Where the line from the middle anchor to the treble one falls strictly with the
/// pitch, a higher key beyond the middle anchor has a strictly shorter decay.
pub proof fn higher_keys_decay_sooner_beyond_the_middle<
    I: Fn(Binary32, Point, Point) -> Binary32,
>(
    lower: Binary32,
    higher: Binary32,
    pitches: AnchorPitches,
    anchors: Anchors,
    interpolate: &I,
    lower_targets: DecayTargets,
    higher_targets: DecayTargets,
)
    requires
        lower.below(higher),
        pitches.mid.below(lower),
        forall|left: Binary32, right: Binary32, longer: Binary32, shorter: Binary32|
            left.below(right) && #[trigger] interpolate.ensures(
                (left, (pitches.mid, anchors.mid_decay), (pitches.treble, anchors.treble_decay)),
                longer,
            ) && #[trigger] interpolate.ensures(
                (right, (pitches.mid, anchors.mid_decay), (pitches.treble, anchors.treble_decay)),
                shorter,
            ) ==> shorter.below(longer),
        call_ensures(
            voicing::decay_targets_for::<I>,
            (lower, pitches, anchors, interpolate),
            lower_targets,
        ),
        call_ensures(
            voicing::decay_targets_for::<I>,
            (higher, pitches, anchors, interpolate),
            higher_targets,
        ),
    ensures
        higher_targets.fundamental.below(lower_targets.fundamental),
        higher_targets.fundamental != lower_targets.fundamental,
{
}

/// A curve passes through its anchors: where a line passes through its two ends, a key
/// at an anchor's pitch has that anchor's decay time.
pub proof fn anchors_keep_their_decay_times<I: Fn(Binary32, Point, Point) -> Binary32>(
    frequency: Binary32,
    pitches: AnchorPitches,
    anchors: Anchors,
    interpolate: &I,
    targets: DecayTargets,
)
    requires
        pitches.bass.below(pitches.mid),
        pitches.mid.below(pitches.treble),
        forall|low: Point, high: Point, value: Binary32|
            #[trigger] interpolate.ensures((low.0, low, high), value) ==> value == low.1,
        forall|low: Point, high: Point, value: Binary32|
            #[trigger] interpolate.ensures((high.0, low, high), value) ==> value == high.1,
        call_ensures(
            voicing::decay_targets_for::<I>,
            (frequency, pitches, anchors, interpolate),
            targets,
        ),
    ensures
        frequency == pitches.bass ==> targets.fundamental == anchors.bass_decay,
        frequency == pitches.mid ==> targets.fundamental == anchors.mid_decay,
        frequency == pitches.treble ==> targets.fundamental == anchors.treble_decay,
{
    let low = (pitches.bass, anchors.bass_decay);
    let mid = (pitches.mid, anchors.mid_decay);
    let high = (pitches.treble, anchors.treble_decay);
    if frequency == pitches.bass {
        assert(interpolate.ensures((low.0, low, mid), targets.fundamental));
    }
    if frequency == pitches.mid {
        assert(interpolate.ensures((mid.0, low, mid), targets.fundamental));
    }
    if frequency == pitches.treble {
        assert(interpolate.ensures((high.0, mid, high), targets.fundamental));
    }
}

/// Between its first and third partial a note's decay time lies on the line between
/// those two times, and beyond on the line from the third to the eighth, at the
/// partial's own number.
pub proof fn partials_are_read_at_their_own_number<I: Fn(Binary32, Point, Point) -> Binary32>(
    targets: DecayTargets,
    partial: Binary32,
    along: &I,
    seconds: Binary32,
)
    requires
        call_ensures(
            DecayTargets::seconds_for_partial::<I>,
            (targets, partial, along),
            seconds,
        ),
        !partial.nan(),
    ensures
        partial.rank() <= 0x4040_0000 ==> along.ensures(
            (
                partial,
                (Binary32 { bits: 0x3f80_0000 }, targets.fundamental),
                (Binary32 { bits: 0x4040_0000 }, targets.mid_partial),
            ),
            seconds,
        ),
        partial.rank() > 0x4040_0000 ==> along.ensures(
            (
                partial,
                (Binary32 { bits: 0x4040_0000 }, targets.mid_partial),
                (Binary32 { bits: 0x4100_0000 }, targets.brightness),
            ),
            seconds,
        ),
{
}

/// A key's inharmonicity lies on the line between the anchors on either side of it, at
/// the key's own pitch. The middle anchor is the one that was set, or else lies on the
/// straight line from the bass anchor to the treble one, kept playable.
pub proof fn inharmonicity_is_read_at_the_keys_own_pitch<
    I: Fn(Binary32, Point, Point) -> Binary32,
>(
    frequency: Binary32,
    pitches: AnchorPitches,
    anchors: Anchors,
    interpolate: &I,
    inharmonicity: Binary32,
)
    requires
        call_ensures(
            voicing::inharmonicity_for::<I>,
            (frequency, pitches, anchors, interpolate),
            inharmonicity,
        ),
        !frequency.nan(),
        !pitches.mid.nan(),
    ensures
        anchors.mid_inharmonicity is Some && frequency.rank() <= pitches.mid.rank()
            ==> interpolate.ensures(
            (
                frequency,
                (pitches.bass, anchors.bass_inharmonicity),
                (pitches.mid, anchors.mid_inharmonicity->0),
            ),
            inharmonicity,
        ),
        anchors.mid_inharmonicity is Some && frequency.rank() > pitches.mid.rank()
            ==> interpolate.ensures(
            (
                frequency,
                (pitches.mid, anchors.mid_inharmonicity->0),
                (pitches.treble, anchors.treble_inharmonicity),
            ),
            inharmonicity,
        ),
        anchors.mid_inharmonicity is None ==> exists|straight: Binary32|
            {
                &&& #[trigger] interpolate.ensures(
                    (
                        pitches.mid,
                        (pitches.bass, anchors.bass_inharmonicity),
                        (pitches.treble, anchors.treble_inharmonicity),
                    ),
                    straight,
                )
                &&& !straight.nan() && 0 <= straight.rank() <= 0x3d4c_cccd ==> {
                    &&& frequency.rank() <= pitches.mid.rank() ==> interpolate.ensures(
                        (
                            frequency,
                            (pitches.bass, anchors.bass_inharmonicity),
                            (pitches.mid, straight),
                        ),
                        inharmonicity,
                    )
                    &&& frequency.rank() > pitches.mid.rank() ==> interpolate.ensures(
                        (
                            frequency,
                            (pitches.mid, straight),
                            (pitches.treble, anchors.treble_inharmonicity),
                        ),
                        inharmonicity,
                    )
                }
            },
{
}

/// An anchor stands at the key it was moved to, where that is a key of the piano, and
/// at its own otherwise; its decay time and its inharmonicity are what was set for it,
/// the inharmonicity kept playable, or else what is built in. No register reaches
/// another.
pub proof fn each_register_moves_its_own_anchor(registers: RegisterOverrides, anchors: Anchors)
    requires
        call_ensures(voicing::resolve_anchors, (registers,), anchors),
    ensures
        stands(21, registers.bass.anchor_midi, anchors.bass_midi),
        stands(69, registers.mid.anchor_midi, anchors.mid_midi),
        stands(108, registers.treble.anchor_midi, anchors.treble_midi),
        registers.bass.decay_seconds is Some ==> anchors.bass_decay
            == registers.bass.decay_seconds->0,
        registers.bass.decay_seconds is None ==> anchors.bass_decay.bits == 0x420c_0000,
        registers.mid.decay_seconds is Some ==> anchors.mid_decay
            == registers.mid.decay_seconds->0,
        registers.mid.decay_seconds is None ==> anchors.mid_decay.bits == 0x4130_0000,
        registers.treble.decay_seconds is Some ==> anchors.treble_decay
            == registers.treble.decay_seconds->0,
        registers.treble.decay_seconds is None ==> anchors.treble_decay.bits == 0x3fc0_0000,
        registers.bass.inharmonicity is Some ==> lands(
            registers.bass.inharmonicity->0,
            0,
            0x3d4c_cccd,
            anchors.bass_inharmonicity,
        ),
        registers.bass.inharmonicity is None ==> anchors.bass_inharmonicity.bits == 0x38d1_b717,
        registers.mid.inharmonicity is Some ==> anchors.mid_inharmonicity is Some && lands(
            registers.mid.inharmonicity->0,
            0,
            0x3d4c_cccd,
            anchors.mid_inharmonicity->0,
        ),
        registers.mid.inharmonicity is None ==> anchors.mid_inharmonicity is None,
        registers.treble.inharmonicity is Some ==> lands(
            registers.treble.inharmonicity->0,
            0,
            0x3d4c_cccd,
            anchors.treble_inharmonicity,
        ),
        registers.treble.inharmonicity is None ==> anchors.treble_inharmonicity.bits
            == 0x3d4c_cccd,
{
}

/// An anchor that stands at `own` unless it is moved, to a key of the piano, stands at
/// `midi`.
pub open spec fn stands(own: u8, moved: Option<u8>, midi: u8) -> bool {
    if moved is Some && 21 <= moved->0 <= 108 {
        midi == moved->0
    } else {
        midi == own
    }
}

/// A key is voiced from its own pitch: its losses are what solves the loop at that pitch
/// for the decay times on the registers' curves, and its inharmonicity is read there too.
/// A damping that was set for a register is the damping of the key at its anchor, the
/// lowest register that set one coming first, and of no other key.
pub proof fn every_key_is_voiced_from_its_own_pitch<
    H: Fn(u8) -> Binary32,
    I: Fn(Binary32, Point, Point) -> Binary32,
    S: Fn(Binary32, DecayTargets) -> LoopLosses,
>(
    key: PianoKey,
    registers: RegisterOverrides,
    anchors: Anchors,
    hertz: &H,
    interpolate: &I,
    solve: &S,
    voiced: KeyVoicing,
    frequency: Binary32,
    pitches: AnchorPitches,
)
    requires
        outcome::decided(*hertz),
        call_ensures(voicing::resolve_anchors, (registers,), anchors),
        hertz.ensures((key.number(),), frequency),
        hertz.ensures((anchors.bass_midi,), pitches.bass),
        hertz.ensures((anchors.mid_midi,), pitches.mid),
        hertz.ensures((anchors.treble_midi,), pitches.treble),
        !frequency.nan(),
        !pitches.mid.nan(),
        call_ensures(
            voicing::voicing_for_key_with_registers::<H, I, S>,
            (key, registers, hertz, interpolate, solve),
            voiced,
        ),
    ensures
        exists|targets: DecayTargets, losses: LoopLosses|
            {
                &&& #[trigger] solve.ensures((frequency, targets), losses)
                &&& voiced.sustain == losses.sustain
                &&& voiced.zero_mix == losses.zero_mix
                &&& key.number() == anchors.bass_midi && registers.bass.damping is Some ==> lands(
                    registers.bass.damping->0,
                    0,
                    0x3f80_0000,
                    voiced.damping,
                )
                &&& key.number() == anchors.mid_midi && registers.mid.damping is Some && !(
                key.number() == anchors.bass_midi && registers.bass.damping is Some) ==> lands(
                    registers.mid.damping->0,
                    0,
                    0x3f80_0000,
                    voiced.damping,
                )
                &&& key.number() == anchors.treble_midi && registers.treble.damping is Some && !(
                key.number() == anchors.bass_midi && registers.bass.damping is Some) && !(
                key.number() == anchors.mid_midi && registers.mid.damping is Some) ==> lands(
                    registers.treble.damping->0,
                    0,
                    0x3f80_0000,
                    voiced.damping,
                )
                &&& !(key.number() == anchors.bass_midi && registers.bass.damping is Some) && !(
                key.number() == anchors.mid_midi && registers.mid.damping is Some) && !(key.number()
                    == anchors.treble_midi && registers.treble.damping is Some) ==> voiced.damping
                    == losses.pole
                &&& frequency.rank() <= pitches.mid.rank() ==> interpolate.ensures(
                    (
                        frequency,
                        (pitches.bass, anchors.bass_decay),
                        (pitches.mid, anchors.mid_decay),
                    ),
                    targets.fundamental,
                )
                &&& frequency.rank() > pitches.mid.rank() ==> interpolate.ensures(
                    (
                        frequency,
                        (pitches.mid, anchors.mid_decay),
                        (pitches.treble, anchors.treble_decay),
                    ),
                    targets.fundamental,
                )
            },
        anchors.mid_inharmonicity is Some && frequency.rank() <= pitches.mid.rank()
            ==> interpolate.ensures(
            (
                frequency,
                (pitches.bass, anchors.bass_inharmonicity),
                (pitches.mid, anchors.mid_inharmonicity->0),
            ),
            voiced.inharmonicity,
        ),
        anchors.mid_inharmonicity is Some && frequency.rank() > pitches.mid.rank()
            ==> interpolate.ensures(
            (
                frequency,
                (pitches.mid, anchors.mid_inharmonicity->0),
                (pitches.treble, anchors.treble_inharmonicity),
            ),
            voiced.inharmonicity,
        ),
{
}

/// A key without register overrides is voiced as under overrides that override nothing.
pub proof fn unset_registers_voice_alike<
    H: Fn(u8) -> Binary32,
    I: Fn(Binary32, Point, Point) -> Binary32,
    S: Fn(Binary32, DecayTargets) -> LoopLosses,
>(
    key: PianoKey,
    registers: RegisterOverrides,
    hertz: &H,
    interpolate: &I,
    solve: &S,
    plain: KeyVoicing,
    voiced: KeyVoicing,
)
    requires
        outcome::decided(*hertz),
        outcome::decided_by_three(*interpolate),
        outcome::decided_by_two(*solve),
        call_ensures(RegisterOverrides::default, (), registers),
        call_ensures(voicing::voicing_for_key::<H, I, S>, (key, hertz, interpolate, solve), plain),
        call_ensures(
            voicing::voicing_for_key_with_registers::<H, I, S>,
            (key, registers, hertz, interpolate, solve),
            voiced,
        ),
    ensures
        plain == voiced,
{
    voicing::a_bass_damping_reaches_one_damping(
        key.number(),
        registers,
        None,
        *hertz,
        *interpolate,
        *solve,
        plain,
        voiced,
    );
}

/// A string is built as its key is voiced: pitch, damping, sustain, inharmonicity and
/// zero mix are the voicing's, each in its own place, and two keys voiced alike differ in
/// nothing but the pitch.
pub proof fn strings_are_built_as_voiced(
    frequency: Hz,
    voiced: KeyVoicing,
    config: StringConfig,
    other_frequency: Hz,
    other: StringConfig,
)
    requires
        call_ensures(voicing::config_for_key, (frequency, voiced), config),
        call_ensures(voicing::config_for_key, (other_frequency, voiced), other),
    ensures
        config.frequency == frequency,
        config.damping == voiced.damping,
        config.sustain == voiced.sustain,
        config.inharmonicity == voiced.inharmonicity,
        config.loop_zero_mix == voiced.zero_mix,
        config.seed == 0x2545_F491,
        config.strike_position.bits == 0x3e00_0000,
        config.excitation_noise_mix.bits == 0x3f33_3333,
        config.hammer.contact_exponent.bits == 0x4020_0000,
        config.hammer.stiffness.bits == 0x4eca_a7e2,
        config.hammer.mass.bits == 0x3f80_0000,
        other == (StringConfig { frequency: other_frequency, ..config }),
{
}

/// A sweep settles on a point of its grid that no other point of the grid betters: for
/// every row and every column, the residual there is not below the residual where the
/// sweep settled, and above it at every point that comes before. The box is halved.
pub proof fn a_sweep_settles_on_the_least_residual<
    P: Fn(Binary32, Binary32, u32, u32) -> Binary32,
    R: Fn(Binary32, Binary32) -> Binary32,
>(
    bounds: SearchBox,
    points: u32,
    sample: &P,
    residual_at: &R,
    after: SearchBox,
    row: u32,
    column: u32,
    pole: Binary32,
    zero: Binary32,
    residual: Binary32,
    found: Binary32,
)
    requires
        outcome::decided_by_four(*sample),
        outcome::decided_by_two(*residual_at),
        call_ensures(voicing::sweep::<P, R>, (bounds, points, sample, residual_at), after),
        row < points,
        column < points,
        sample.ensures((bounds.pole_axis, bounds.half_width, row, points), pole),
        sample.ensures((bounds.zero_axis, bounds.half_width, column, points), zero),
        residual_at.ensures((pole, zero), residual),
        residual_at.ensures((after.pole_axis, after.zero_axis), found),
    ensures
        after.half_width.is_half_of(bounds.half_width),
        residual.below(Binary32 { bits: 0x7f80_0000 }) ==> !residual.below(found) && found.below(
            Binary32 { bits: 0x7f80_0000 },
        ) && exists|down: u32, across: u32|
            down < points && across < points && #[trigger] sample.ensures(
                (bounds.pole_axis, bounds.half_width, down, points),
                after.pole_axis,
            ) && #[trigger] sample.ensures(
                (bounds.zero_axis, bounds.half_width, across, points),
                after.zero_axis,
            ) && (row < down || row == down && column < across ==> found.below(residual)),
{
    let candidates = choose|candidates: Seq<voicing::Candidate>|
        {
            &&& #[trigger] voicing::are_candidates(
                bounds,
                points,
                *sample,
                *residual_at,
                candidates,
            )
            &&& candidates.len() == points * points
            &&& voicing::settles(bounds, candidates, (after.pole_axis, after.zero_axis))
        };
    let i = row * points + column;
    assert(0 <= i < points * points && i / (points as int) == row && i % (points as int)
        == column) by (nonlinear_arith)
        requires
            i == row * points + column,
            0 <= row < points,
            0 <= column < points,
    {
        vstd::arithmetic::div_mod::lemma_fundamental_div_mod_converse(
            row * points + column,
            points as int,
            row as int,
            column as int,
        );
    }
    assert(candidates[i].residual == residual);
    if residual.below(Binary32 { bits: 0x7f80_0000 }) {
        assert(voicing::wins(candidates[i].residual));
        let best = choose|best: int| #[trigger]
            voicing::is_best(candidates, best) && (after.pole_axis, after.zero_axis) == (
                candidates[best].pole_axis,
                candidates[best].zero_axis,
            );
        assert(candidates[best].residual == found);
        let down = best / (points as int);
        let across = best % (points as int);
        assert(0 <= down < points && 0 <= across < points) by (nonlinear_arith)
            requires
                0 <= best < points * points,
                points > 0,
                down == best / (points as int),
                across == best % (points as int),
        ;
        vstd::arithmetic::div_mod::lemma_fundamental_div_mod(best, points as int);
        if row < down || row == down && column < across {
            assert(i < best) by (nonlinear_arith)
                requires
                    i == row * points + column,
                    best == points * down + across,
                    0 <= column < points,
                    0 <= across < points,
                    row < down || row == down && column < across,
            ;
            assert(candidates[best].residual.below(candidates[i].residual));
        }
        assert(sample.ensures(
            (bounds.pole_axis, bounds.half_width, down as u32, points),
            after.pole_axis,
        ));
        assert(sample.ensures(
            (bounds.zero_axis, bounds.half_width, across as u32, points),
            after.zero_axis,
        ));
    }
}

/// `boxes` are swept one after the other, beginning with the whole plane: by twenty points
/// a side at first, and by five from then on.
pub open spec fn narrow<
    P: Fn(Binary32, Binary32, u32, u32) -> Binary32,
    R: Fn(Binary32, Binary32) -> Binary32,
>(sample: P, residual_at: R, boxes: Seq<SearchBox>) -> bool {
    &&& boxes.len() == 12
    &&& boxes[0].pole_axis.bits == 0x3f00_0000
    &&& boxes[0].zero_axis.bits == 0x3f00_0000
    &&& boxes[0].half_width.bits == 0x3f00_0000
    &&& voicing::is_swept(boxes[0], 20, sample, residual_at, boxes[1])
    &&& forall|i: int|
        1 <= i < 11 ==> voicing::is_swept(
            boxes[i],
            5,
            sample,
            residual_at,
            #[trigger] boxes[i + 1],
        )
}

/// The losses of a loop are found by eleven sweeps: one of twenty points a side over
/// the whole plane, and ten of five points a side, each around where the one before it
/// settled, and half as wide. They are the losses there, the sustain kept between zero
/// and one.
pub proof fn losses_are_found_by_narrowing_sweeps<
    P: Fn(Binary32, Binary32, u32, u32) -> Binary32,
    R: Fn(Binary32, Binary32) -> Binary32,
    L: Fn(Binary32, Binary32) -> LoopLosses,
>(
    sample: &P,
    residual_at: &R,
    losses_at: &L,
    losses: LoopLosses,
)
    requires
        call_ensures(
            voicing::solve_loop_losses::<P,
            R,
            L>,
            (sample, residual_at, losses_at),
            losses,
        ),
    ensures
        exists|boxes: Seq<SearchBox>, found: LoopLosses|
            {
                &&& #[trigger] narrow(*sample, *residual_at, boxes)
                &&& #[trigger] losses_at.ensures((boxes[11].pole_axis, boxes[11].zero_axis), found)
                &&& losses.pole == found.pole
                &&& losses.zero_mix == found.zero_mix
                &&& lands(found.sustain, 0, 0x3f80_0000, losses.sustain)
            },
{
    let (rest, found) = choose|boxes: Seq<SearchBox>, found: LoopLosses|
        {
            &&& #[trigger] voicing::is_found(*sample, *residual_at, boxes)
            &&& #[trigger] losses_at.ensures(
                (boxes.last().pole_axis, boxes.last().zero_axis),
                found,
            )
            &&& losses == (LoopLosses {
                sustain: crate::string::normalised(found.sustain),
                ..found
            })
        };
    let boxes = seq![voicing::plane()] + rest;
    assert(boxes[11] == rest.last());
    assert(narrow(*sample, *residual_at, boxes)) by {
        assert forall|i: int| 1 <= i < 11 implies voicing::is_swept(
            boxes[i],
            5,
            *sample,
            *residual_at,
            #[trigger] boxes[i + 1],
        ) by {
            assert(voicing::is_swept(rest[i - 1], 5, *sample, *residual_at, rest[i]));
        }
    }
    assert(losses_at.ensures((boxes[11].pole_axis, boxes[11].zero_axis), found));
}

/// A sweep that finds no residual below infinity stays at the centre of its box.
pub proof fn a_hopeless_sweep_stays_at_its_centre<
    P: Fn(Binary32, Binary32, u32, u32) -> Binary32,
    R: Fn(Binary32, Binary32) -> Binary32,
>(bounds: SearchBox, points: u32, sample: &P, residual_at: &R, after: SearchBox)
    requires
        call_ensures(voicing::sweep::<P, R>, (bounds, points, sample, residual_at), after),
        forall|pole: Binary32, zero: Binary32, residual: Binary32| #[trigger]
            residual_at.ensures((pole, zero), residual) ==> !residual.below(
                Binary32 { bits: 0x7f80_0000 },
            ),
    ensures
        after.pole_axis == bounds.pole_axis,
        after.zero_axis == bounds.zero_axis,
        after.half_width.is_half_of(bounds.half_width),
{
    let candidates = choose|candidates: Seq<voicing::Candidate>|
        {
            &&& #[trigger] voicing::are_candidates(
                bounds,
                points,
                *sample,
                *residual_at,
                candidates,
            )
            &&& candidates.len() == points * points
            &&& voicing::settles(bounds, candidates, (after.pole_axis, after.zero_axis))
        };
    assert forall|best: int| !#[trigger] voicing::is_best(candidates, best) by {
        if 0 <= best < candidates.len() {
            let candidate = candidates[best];
            assert(residual_at.ensures(
                (candidate.pole_axis, candidate.zero_axis),
                candidate.residual,
            ));
        }
    }
}

} // verus!

//! What is set on a string, and what a note's strings are built and asked for.
use crate::binary32::Binary32;
use crate::bounds_laws::lands;
use crate::hammer::HammerConfig;
use crate::string::{LoopTuning, PluckedString, StrikePlan, StringConfig};
use crate::unison;
use crate::unison::{StringTuning, UnisonGroup};
use crate::units::{Hz, ParamError, SampleRate};
use vstd::prelude::*;

verus! {

/// The string at `place` of a note, where there is one.
pub open spec fn string_of(group: UnisonGroup, place: int) -> Option<PluckedString> {
    if place == 0 {
        Some(group.first)
    } else if place == 1 {
        group.second
    } else if place == 2 {
        group.third
    } else {
        None
    }
}

/// A sustain that is set on a string is its sustain, kept between zero and one; nothing
/// else of the string changes.
pub proof fn a_sustain_is_set(
    before: PluckedString,
    after: PluckedString,
    sustain: Binary32,
)
    requires
        exists|subject: &mut PluckedString| #[trigger]
            call_ensures(PluckedString::set_sustain, (subject, sustain), ())
                && *subject == before && *final(subject) == after,
    ensures
        lands(sustain, 0, 0x3f80_0000, after.sustain),
        after == (PluckedString { sustain: after.sustain, ..before }),
{
}

/// A seed, a hammer and a noise mix are set as they come, the mix kept between zero and
/// one, and the strike position between zero and one half.
pub proof fn settings_are_set(
    before: PluckedString,
    seeded: PluckedString,
    hammered: PluckedString,
    mixed: PluckedString,
    placed: PluckedString,
    seed: u32,
    hammer: HammerConfig,
    value: Binary32,
)
    requires
        exists|subject: &mut PluckedString| #[trigger]
            call_ensures(PluckedString::set_seed, (subject, seed), ())
                && *subject == before && *final(subject) == seeded,
        exists|subject: &mut PluckedString| #[trigger]
            call_ensures(PluckedString::set_hammer, (subject, hammer), ())
                && *subject == before && *final(subject) == hammered,
        exists|subject: &mut PluckedString| #[trigger]
            call_ensures(PluckedString::set_excitation_noise_mix, (subject, value), ())
                && *subject == before && *final(subject) == mixed,
        exists|subject: &mut PluckedString| #[trigger]
            call_ensures(PluckedString::set_strike_position, (subject, value), ())
                && *subject == before && *final(subject) == placed,
    ensures
        seeded == (PluckedString { seed, ..before }),
        hammered == (PluckedString { hammer, ..before }),
        lands(value, 0, 0x3f80_0000, mixed.excitation_noise_mix),
        mixed == (PluckedString { excitation_noise_mix: mixed.excitation_noise_mix, ..before }),
        lands(value, 0, 0x3f00_0000, placed.strike_position),
        placed == (PluckedString { strike_position: placed.strike_position, ..before }),
{
}

/// A damping that is set on a string is its damping, and the loop is retuned for the
/// string as it then is; nothing else of the string changes.
pub proof fn a_damping_is_set_and_tuned<
    R: Fn(PluckedString) -> Binary32,
>(
    before: PluckedString,
    after: PluckedString,
    damping: Binary32,
    retuned: &R,
)
    requires
        exists|subject: &mut PluckedString| #[trigger]
            call_ensures(PluckedString::set_damping::<R>, (subject, damping, retuned), ())
                && *subject == before && *final(subject) == after,
    ensures
        lands(damping, 0, 0x3f80_0000, after.damping),
        exists|set: PluckedString, delay: Binary32|
            {
                &&& set == PluckedString { damping: after.damping, ..before }
                &&& #[trigger] retuned.ensures((set,), delay)
                &&& delay.within(
                    Binary32 { bits: 0x4000_0000 },
                    Binary32::natural(before.max_delay - 1),
                ) ==> after.loop_delay == delay
                &&& after == PluckedString { loop_delay: after.loop_delay, ..set }
            },
{
}

/// A inharmonicity that is set on a string is its inharmonicity, and the loop is
/// retuned for the string as it then is; nothing else of the string changes.
pub proof fn a_inharmonicity_is_set_and_tuned<
    R: Fn(PluckedString) -> Binary32,
>(
    before: PluckedString,
    after: PluckedString,
    inharmonicity: Binary32,
    retuned: &R,
)
    requires
        exists|subject: &mut PluckedString| #[trigger]
            call_ensures(
                PluckedString::set_inharmonicity::<R>,
                (subject, inharmonicity, retuned),
                (),
            )
                && *subject == before && *final(subject) == after,
    ensures
        lands(inharmonicity, 0, 0x3d4c_cccd, after.inharmonicity),
        exists|set: PluckedString, delay: Binary32|
            {
                &&& set == PluckedString { inharmonicity: after.inharmonicity, ..before }
                &&& #[trigger] retuned.ensures((set,), delay)
                &&& delay.within(
                    Binary32 { bits: 0x4000_0000 },
                    Binary32::natural(before.max_delay - 1),
                ) ==> after.loop_delay == delay
                &&& after == PluckedString { loop_delay: after.loop_delay, ..set }
            },
{
}

/// A frequency that is set on a string is its frequency, and the loop is retuned for
/// the string as it then is; nothing else of the string changes.
pub proof fn a_frequency_is_set_and_tuned<
    R: Fn(PluckedString) -> Binary32,
>(
    before: PluckedString,
    after: PluckedString,
    frequency: Hz,
    retuned: &R,
)
    requires
        exists|subject: &mut PluckedString| #[trigger]
            call_ensures(PluckedString::set_frequency::<R>, (subject, frequency, retuned), ())
                && *subject == before && *final(subject) == after,
    ensures
        after.frequency == frequency,
        exists|set: PluckedString, delay: Binary32|
            {
                &&& set == PluckedString { frequency: after.frequency, ..before }
                &&& #[trigger] retuned.ensures((set,), delay)
                &&& delay.within(
                    Binary32 { bits: 0x4000_0000 },
                    Binary32::natural(before.max_delay - 1),
                ) ==> after.loop_delay == delay
                &&& after == PluckedString { loop_delay: after.loop_delay, ..set }
            },
{
}

/// A loop is as long as was asked, where the line can hold that; it is never shorter
/// than two samples, and a loop asked to be shorter is two samples long.
pub proof fn loops_are_as_long_as_asked(
    before: PluckedString,
    after: PluckedString,
    delay: Binary32,
)
    requires
        before.max_delay >= 3,
        before.wf(),
        exists|subject: &mut PluckedString| #[trigger]
            call_ensures(PluckedString::retune_loop_delay, (subject, delay), ())
                && *subject == before && *final(subject) == after,
    ensures
        delay.within(Binary32 { bits: 0x4000_0000 }, Binary32::natural(before.max_delay - 1))
            ==> after.loop_delay == delay,
        delay.nan() || delay.below(Binary32 { bits: 0x4000_0000 })
            ==> after.loop_delay.bits == 0x4000_0000,
        !delay.below(Binary32 { bits: 0x4000_0000 })
            && Binary32::natural(before.max_delay - 1).below(delay)
            ==> after.loop_delay == Binary32::natural(before.max_delay - 1),
        after == (PluckedString { loop_delay: after.loop_delay, ..before }),
{
}

/// Dampers move alone: releasing a string lowers its damper and lifting raises it,
/// whatever it was, and nothing else changes. The one undoes the other. Striking raises
/// the damper and takes the envelope to the velocity.
pub proof fn dampers_move_alone(
    before: PluckedString,
    released: PluckedString,
    lifted: PluckedString,
    struck: PluckedString,
    velocity: Binary32,
    clamped: Binary32,
)
    requires
        exists|subject: &mut PluckedString| #[trigger]
            call_ensures(PluckedString::release, (subject,), ())
                && *subject == before && *final(subject) == released,
        exists|subject: &mut PluckedString| #[trigger]
            call_ensures(PluckedString::lift_damper, (subject,), ())
                && *subject == before && *final(subject) == lifted,
        exists|subject: &mut PluckedString| #[trigger]
            call_ensures(PluckedString::mark_struck, (subject, velocity), clamped)
                && *subject == before && *final(subject) == struck,
    ensures
        released.damper_engaged,
        !lifted.damper_engaged,
        !struck.damper_engaged,
        released == (PluckedString { damper_engaged: true, ..before }),
        lifted == (PluckedString { damper_engaged: false, ..before }),
        before.damper_engaged ==> released == before,
        !before.damper_engaged ==> lifted == before,
        lands(velocity, 0, 0x3f80_0000, clamped),
        struck == (PluckedString { damper_engaged: false, envelope: clamped, ..before }),
{
}

/// A loop whose damper is up loses what its sustain takes, and one whose damper is down
/// loses more: its sustain times two fifths. An envelope falls faster too under a
/// damper. A string is silent once its envelope is below a ten thousandth.
pub proof fn dampers_take_more<
    T: Fn(Binary32, Binary32) -> Binary32,
>(
    string: &PluckedString,
    times: &T,
    gain: Binary32,
    decay: Binary32,
    silent: bool,
)
    requires
        call_ensures(PluckedString::loop_gain::<T>, (string, times), gain),
        call_ensures(PluckedString::envelope_decay, (string,), decay),
        call_ensures(PluckedString::is_silent, (string,), silent),
    ensures
        !string.damper_engaged ==> gain == string.sustain && decay.bits == 0x3f7f_df3b,
        string.damper_engaged
            ==> times.ensures((string.sustain, Binary32 { bits: 0x3ecc_cccd }), gain)
                && decay.bits == 0x3f7e_b852,
        silent <==> !string.envelope.nan() && string.envelope.rank() < 0x38d1_b717,
{
}

/// An envelope follows the output: it is the louder of what the output is and what the
/// envelope has fallen to, on either side of zero, and an inaudible one is zero.
pub proof fn envelopes_follow_the_louder(
    before: PluckedString,
    after: PluckedString,
    output: Binary32,
    decayed: Binary32,
)
    requires
        exists|subject: &mut PluckedString| #[trigger]
            call_ensures(PluckedString::track_envelope, (subject, output, decayed), ())
                && *subject == before && *final(subject) == after,
        !decayed.nan(),
        !output.nan(),
        decayed.bits < 0x8000_0000,
    ensures
        after == (PluckedString { envelope: after.envelope, ..before }),
        output.magnitude() > decayed.magnitude() && output.magnitude() >= 0x15f7_9688
            ==> after.envelope.bits == output.magnitude(),
        output.magnitude() <= decayed.magnitude() && decayed.magnitude() >= 0x15f7_9688
            ==> after.envelope == decayed,
        output.magnitude() < 0x15f7_9688 && decayed.magnitude() < 0x15f7_9688
            ==> after.envelope.bits == 0,
{
}

/// A strike fills the loop once: the burst is one sample longer than the whole part of
/// the loop, a reflection comes back once the loop has been passed, and the comb
/// reaches as far as was asked, or as the line has room behind the burst.
pub proof fn strikes_fill_the_loop_once(
    string: &PluckedString,
    reach: Binary32,
    plan: StrikePlan,
)
    requires
        call_ensures(PluckedString::plan_strike, (string, reach), plan),
        string.loop_delay.whole() >= 1,
    ensures
        plan.burst_length == string.loop_delay.whole() + 1,
        plan.reflected_from == plan.burst_length - 1,
        plan.reflection_delay == plan.burst_length - 2,
        plan.burst_length + reach.whole() <= string.max_delay ==> plan.comb_delay == reach.whole(),
        plan.burst_length <= string.max_delay
            && plan.burst_length + reach.whole() > string.max_delay
            ==> plan.burst_length + plan.comb_delay == string.max_delay,
        plan.burst_length > string.max_delay ==> plan.comb_delay == 0,
{
    crate::binary32::lemma_whole_non_negative(reach);
}

/// A string is built idle, as it is configured: its damper down, its envelope zero,
/// each setting kept in its range, its loop tuned. It is refused where its loop would
/// be shorter than two samples, and the refusal names the frequency, the rate and the
/// highest frequency there is.
pub proof fn strings_are_built_as_configured(
    config: StringConfig,
    rate: SampleRate,
    tuning: LoopTuning,
    result: Result<PluckedString, ParamError>,
)
    requires
        call_ensures(PluckedString::new, (config, rate, tuning), result),
        !tuning.loop_delay.nan(),
    ensures
        tuning.loop_delay.rank() < 0x4000_0000 <==> result is Err,
        result is Err ==> result->Err_0 == (ParamError::FrequencyOutOfRange {
            frequency: config.frequency.value(),
            sample_rate: rate.value(),
            maximum: tuning.maximum,
        }),
        result is Ok ==> {
            &&& result->Ok_0.frequency == config.frequency
            &&& lands(config.damping, 0, 0x3f80_0000, result->Ok_0.damping)
            &&& lands(config.sustain, 0, 0x3f80_0000, result->Ok_0.sustain)
            &&& lands(config.inharmonicity, 0, 0x3d4c_cccd, result->Ok_0.inharmonicity)
            &&& lands(config.strike_position, 0, 0x3f00_0000, result->Ok_0.strike_position)
            &&& lands(
                config.excitation_noise_mix,
                0,
                0x3f80_0000,
                result->Ok_0.excitation_noise_mix,
            )
            &&& result->Ok_0.loop_zero_mix == config.loop_zero_mix
            &&& result->Ok_0.seed == config.seed
            &&& result->Ok_0.hammer == config.hammer
            &&& result->Ok_0.sections == tuning.sections
            &&& result->Ok_0.damper_engaged
            &&& result->Ok_0.envelope.bits == 0
            &&& tuning.loop_delay.at_most(Binary32::natural(result->Ok_0.max_delay - 1))
                ==> result->Ok_0.loop_delay == tuning.loop_delay
        },
{
}

/// What is done to a note is done to every one of its strings, whatever its place: a
/// strike, a release, a lift of the dampers, a sustain. Each string ends up as it would
/// alone.
pub proof fn notes_move_together(
    before: UnisonGroup,
    struck: UnisonGroup,
    released: UnisonGroup,
    lifted: UnisonGroup,
    sustained: UnisonGroup,
    velocity: Binary32,
    sustain: Binary32,
    place: int,
)
    requires
        exists|subject: &mut UnisonGroup| #[trigger]
            call_ensures(UnisonGroup::mark_struck, (subject, velocity), ())
                && *subject == before && *final(subject) == struck,
        exists|subject: &mut UnisonGroup| #[trigger]
            call_ensures(UnisonGroup::release, (subject,), ())
                && *subject == before && *final(subject) == released,
        exists|subject: &mut UnisonGroup| #[trigger]
            call_ensures(UnisonGroup::lift_damper, (subject,), ())
                && *subject == before && *final(subject) == lifted,
        exists|subject: &mut UnisonGroup| #[trigger]
            call_ensures(UnisonGroup::set_sustain, (subject, sustain), ())
                && *subject == before && *final(subject) == sustained,
    ensures
        string_of(before, place) is None
            ==> string_of(struck, place) is None && string_of(released, place) is None
                && string_of(lifted, place) is None && string_of(sustained, place) is None,
        struck == (
            UnisonGroup {
                first: struck.first,
                second: struck.second,
                third: struck.third,
                ..before
            }
        ),
        released == (
            UnisonGroup {
                first: released.first,
                second: released.second,
                third: released.third,
                ..before
            }
        ),
        lifted == (
            UnisonGroup {
                first: lifted.first,
                second: lifted.second,
                third: lifted.third,
                ..before
            }
        ),
        sustained == (
            UnisonGroup {
                first: sustained.first,
                second: sustained.second,
                third: sustained.third,
                ..before
            }
        ),
        string_of(before, place) is Some ==> {
            &&& string_of(released, place) == Some(
                PluckedString { damper_engaged: true, ..string_of(before, place)->0 },
            )
            &&& string_of(lifted, place) == Some(
                PluckedString { damper_engaged: false, ..string_of(before, place)->0 },
            )
            &&& string_of(struck, place) is Some
            &&& lands(velocity, 0, 0x3f80_0000, string_of(struck, place)->0.envelope)
            &&& string_of(struck, place)->0 == PluckedString {
                damper_engaged: false,
                envelope: string_of(struck, place)->0.envelope,
                ..string_of(before, place)->0
            }
            &&& string_of(sustained, place) is Some
            &&& lands(sustain, 0, 0x3f80_0000, string_of(sustained, place)->0.sustain)
            &&& string_of(sustained, place)->0 == PluckedString {
                sustain: string_of(sustained, place)->0.sustain,
                ..string_of(before, place)->0
            }
        },
{
}

/// A damping that is set on a note is set on every one of its strings, whatever its
/// place, and each loop is retuned for it.
pub proof fn notes_are_damped_together<
    R: Fn(PluckedString) -> Binary32,
>(
    before: UnisonGroup,
    after: UnisonGroup,
    place: int,
    damping: Binary32,
    retuned: &R,
)
    requires
        exists|subject: &mut UnisonGroup| #[trigger]
            call_ensures(UnisonGroup::set_damping::<R>, (subject, damping, retuned), ())
                && *subject == before && *final(subject) == after,
    ensures
        after == (
            UnisonGroup { first: after.first, second: after.second, third: after.third, ..before }
        ),
        string_of(before, place) is Some <==> string_of(after, place) is Some,
        string_of(before, place) is Some
            ==> lands(damping, 0, 0x3f80_0000, string_of(after, place)->0.damping)
                && exists|set: PluckedString, delay: Binary32|
            {
                &&& set == PluckedString {
                    damping: string_of(after, place)->0.damping,
                    ..string_of(before, place)->0
                }
                &&& #[trigger] retuned.ensures((set,), delay)
                &&& string_of(after, place)->0 == PluckedString {
                    loop_delay: string_of(after, place)->0.loop_delay,
                    ..set
                }
            },
{
}

/// What is set on one string of a note is set there, whatever its place, and on no
/// other string; putting a string in its place likewise.
pub proof fn strings_are_set_one_by_one(
    before: UnisonGroup,
    sustained: UnisonGroup,
    seeded: UnisonGroup,
    hammered: UnisonGroup,
    replaced: UnisonGroup,
    index: usize,
    sustain: Binary32,
    seed: u32,
    hammer: HammerConfig,
    string: PluckedString,
    place: int,
)
    requires
        exists|subject: &mut UnisonGroup| #[trigger]
            call_ensures(UnisonGroup::set_string_sustain, (subject, index, sustain), ())
                && *subject == before && *final(subject) == sustained,
        exists|subject: &mut UnisonGroup| #[trigger]
            call_ensures(UnisonGroup::set_string_seed, (subject, index, seed), ())
                && *subject == before && *final(subject) == seeded,
        exists|subject: &mut UnisonGroup| #[trigger]
            call_ensures(UnisonGroup::set_string_hammer, (subject, index, hammer), ())
                && *subject == before && *final(subject) == hammered,
        exists|subject: &mut UnisonGroup| #[trigger]
            call_ensures(UnisonGroup::replace_string, (subject, index, string), ())
                && *subject == before && *final(subject) == replaced,
    ensures
        place != index
            ==> string_of(sustained, place) == string_of(before, place)
                && string_of(seeded, place) == string_of(before, place)
                && string_of(hammered, place) == string_of(before, place)
                && string_of(replaced, place) == string_of(before, place),
        place == index && string_of(before, place) is Some ==> {
            &&& string_of(seeded, place) == Some(
                PluckedString { seed, ..string_of(before, place)->0 },
            )
            &&& string_of(hammered, place) == Some(
                PluckedString { hammer, ..string_of(before, place)->0 },
            )
            &&& string_of(replaced, place) == Some(string)
            &&& string_of(sustained, place) is Some
            &&& lands(sustain, 0, 0x3f80_0000, string_of(sustained, place)->0.sustain)
            &&& string_of(sustained, place)->0 == PluckedString {
                sustain: string_of(sustained, place)->0.sustain,
                ..string_of(before, place)->0
            }
        },
        string_of(before, place) is None
            ==> string_of(sustained, place) is None && string_of(seeded, place) is None
                && string_of(hammered, place) is None && string_of(replaced, place) is None,
        sustained == (
            UnisonGroup {
                first: sustained.first,
                second: sustained.second,
                third: sustained.third,
                ..before
            }
        ),
        seeded == (
            UnisonGroup {
                first: seeded.first,
                second: seeded.second,
                third: seeded.third,
                ..before
            }
        ),
        hammered == (
            UnisonGroup {
                first: hammered.first,
                second: hammered.second,
                third: hammered.third,
                ..before
            }
        ),
        replaced == (
            UnisonGroup {
                first: replaced.first,
                second: replaced.second,
                third: replaced.third,
                ..before
            }
        ),
{
}

/// A note is silent exactly where every one of its strings is, and hears others exactly
/// where one of its dampers is up. It is as loud as its loudest string, and has as many
/// strings as it has.
pub proof fn notes_are_asked_of_every_string(
    group: &UnisonGroup,
    silent: bool,
    receptive: bool,
    receptive_count: usize,
    loudest: Binary32,
    length: usize,
)
    requires
        group.wf(),
        call_ensures(UnisonGroup::is_silent, (group,), silent),
        call_ensures(UnisonGroup::is_receptive, (group,), receptive),
        call_ensures(UnisonGroup::receptive_count, (group,), receptive_count),
        call_ensures(UnisonGroup::envelope, (group,), loudest),
        call_ensures(UnisonGroup::len, (group,), length),
    ensures
        silent <==> forall|place: int|
            (#[trigger] string_of(*group, place)) is Some
                ==> !string_of(*group, place)->0.envelope.nan()
                    && string_of(*group, place)->0.envelope.rank() < 0x38d1_b717,
        receptive <==> exists|place: int|
            (#[trigger] string_of(*group, place)) is Some
                && !string_of(*group, place)->0.damper_engaged,
        receptive_count == (if !group.first.damper_engaged {
            1int
        } else {
            0
        }) + (if group.second is Some && !group.second->0.damper_engaged {
            1int
        } else {
            0
        }) + (if group.third is Some && !group.third->0.damper_engaged {
            1int
        } else {
            0
        }),
        forall|place: int|
            (#[trigger] string_of(*group, place)) is Some
                ==> !loudest.below(string_of(*group, place)->0.envelope),
        loudest.bits == 0 || exists|place: int| (#[trigger] string_of(*group, place)) is Some
            && loudest == string_of(*group, place)->0.envelope,
        forall|place: int| 0 <= place < length <==> (#[trigger] string_of(*group, place)) is Some,
{
    assert(string_of(*group, 0) == group.at(0));
    assert(string_of(*group, 1) == group.at(1));
    assert(string_of(*group, 2) == group.at(2));
    assert forall|place: int| (#[trigger] string_of(*group, place)) is Some implies group.at(place)
        == string_of(*group, place) && 0 <= place < 3 by {}
}

/// A string is found at its place, and nowhere else.
pub proof fn strings_are_found_at_their_place(
    group: &UnisonGroup,
    index: usize,
    found: Option<PluckedString>,
)
    requires
        call_ensures(UnisonGroup::string, (group, index), found),
    ensures
        found == string_of(*group, index as int),
{
}

/// A note has as many strings as were asked for, one at the least and three at the
/// most, each built in its place from its own tuning: at its own frequency, or the
/// note's where that is not usable, with the note's settings and a seed of its own. The
/// coupling gains are the built-in ones.
pub proof fn notes_are_built_string_by_string(
    base: StringConfig,
    count: usize,
    rate: SampleRate,
    tunings: &Vec<StringTuning>,
    result: Result<UnisonGroup, ParamError>,
    place: int,
)
    requires
        1 <= count <= 3,
        call_ensures(UnisonGroup::new, (base, count, rate, tunings), result),
        0 <= place < 3,
        forall|i: int| 0 <= i < count ==> !(#[trigger] tunings@[i]).tuning.loop_delay.nan(),
    ensures
        result is Err
            <==> exists|i: int| 0 <= i < count
                && (#[trigger] tunings@[i]).tuning.loop_delay.rank() < 0x4000_0000,
        result is Ok ==> {
            &&& result->Ok_0.base == base.frequency
            &&& result->Ok_0.local_coupling_gain.bits == 0x3e19_999a
            &&& result->Ok_0.global_coupling_gain.bits == 0x3da3_d70a
            &&& string_of(result->Ok_0, place) is Some <==> place < count
        },
        result is Ok && place < count ==> {
            let string = string_of(result->Ok_0, place)->0;
            let detuned = tunings@[place].detuned;
            &&& detuned.finite() && detuned.rank() > 0 ==> string.frequency.value() == detuned
            &&& !(detuned.finite() && detuned.rank() > 0) ==> string.frequency == base.frequency
            &&& place == 0 ==> string.seed == base.seed
            &&& place == 1 ==> string.seed == base.seed ^ 0x9E37_79B1
            &&& place == 2 ==> string.seed == base.seed ^ 0x85EB_CA77
            &&& lands(base.damping, 0, 0x3f80_0000, string.damping)
            &&& lands(base.sustain, 0, 0x3f80_0000, string.sustain)
            &&& lands(base.inharmonicity, 0, 0x3d4c_cccd, string.inharmonicity)
            &&& lands(base.strike_position, 0, 0x3f00_0000, string.strike_position)
            &&& lands(base.excitation_noise_mix, 0, 0x3f80_0000, string.excitation_noise_mix)
            &&& string.loop_zero_mix == base.loop_zero_mix
            &&& string.hammer == base.hammer
            &&& string.sections == tunings@[place].tuning.sections
            &&& string.damper_engaged
            &&& string.envelope.bits == 0
        },
{
    reveal_with_fuel(unison::first_too_short, 4);
    base.frequency.kept_value(tunings@[place].detuned);
    let seed = base.seed;
    assert(seed ^ 0 == seed) by (bit_vector);
    let failing = unison::first_too_short(tunings@, 0, count as int);
    if failing < count {
        assert(tunings@[failing].tuning.loop_delay.rank() < 0x4000_0000);
    }
    assert(0 < count ==> tunings@[0] == tunings@[0int]);
}

/// A note asked for with no string has one, and with more than three has three.
pub proof fn counts_are_kept_between_one_and_three(
    base: StringConfig,
    count: usize,
    rate: SampleRate,
    tunings: &Vec<StringTuning>,
    result: Result<UnisonGroup, ParamError>,
)
    requires
        call_ensures(UnisonGroup::new, (base, count, rate, tunings), result),
        result is Ok,
    ensures
        result->Ok_0.second is Some <==> count >= 2,
        result->Ok_0.third is Some <==> count >= 3,
{
}

/// The lowest twelve keys have one string, the eighteen above them two and all others
/// three; a higher key never has fewer.
pub proof fn higher_keys_have_no_fewer_strings(
    lower: u8,
    higher: u8,
    fewer: usize,
    more: usize,
)
    requires
        lower <= higher,
        call_ensures(unison::unison_count_for_key_index, (lower,), fewer),
        call_ensures(unison::unison_count_for_key_index, (higher,), more),
    ensures
        fewer <= more,
        lower < 12 <==> fewer == 1,
        12 <= lower < 30 <==> fewer == 2,
        30 <= lower <==> fewer == 3,
{
}

/// A note's strings are detuned symmetrically: what one string is flat, its mirror
/// image in the note is sharp, and the middle of three is neither; a single string is
/// not detuned.
pub proof fn detuning_is_symmetric(
    count: usize,
    index: usize,
    mirrored: usize,
    cents: Binary32,
    other: Binary32,
)
    requires
        1 <= count <= 3,
        index + mirrored + 1 == count,
        call_ensures(unison::detune_cents, (count, index), cents),
        call_ensures(unison::detune_cents, (count, mirrored), other),
    ensures
        index == mirrored ==> cents.bits == 0,
        index < mirrored ==> cents.rank() < 0 && other.rank() == -cents.rank(),
        count == 2 && index < mirrored ==> other.bits == 0x4020_0000,
        count == 3 && index < mirrored ==> other.bits == 0x4080_0000,
{
}

} // verus!

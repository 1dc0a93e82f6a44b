//! What a note is built of, string by string, and what plucking it leaves.
use crate::binary32::Binary32;
use crate::bounds_laws::lands;
use crate::building;
use crate::hammer::HammerConfig;
use crate::playing;
use crate::sounding;
use crate::sounding::Arithmetic;
use crate::striking::Hammers;
use crate::string::{PluckedString, StringConfig};
use crate::string_laws::string_of;
use crate::unison;
use crate::unison::{StringTuning, UnisonGroup};
use crate::units::{ParamError, SampleRate};
use crate::waveguide;
use crate::waveguide::{PathState, Waveguide};
use vstd::prelude::*;

verus! {

/// A note is built with as many strings as were asked for, and a path for each. Every
/// string, whatever its place, is tuned as far from the note as its place says, has the
/// note's settings and a seed of its own, and rests; its path is as long as it says and
/// follows its damping.
pub proof fn notes_are_built_string_by_string<
    S: Copy,
    D: Fn(Binary32, Binary32) -> Binary32,
    Z: Fn(StringConfig) -> usize,
    W: Fn(Binary32) -> Binary32,
    B: Fn(Binary32) -> Binary32,
    R: Fn(PluckedString) -> Binary32,
>(
    base: StringConfig,
    count: usize,
    rate: SampleRate,
    maximum: Binary32,
    detune: &D,
    size: &Z,
    wanted: &W,
    bend: &B,
    retuned: &R,
    result: Result<(UnisonGroup, Vec<Waveguide<S>>), ParamError>,
    place: int,
    cents: Binary32,
)
    requires
        1 <= count <= 3,
        0 <= place < count,
        call_ensures(unison::detune_cents, (count, place as usize), cents),
        call_ensures(
            building::build_note::<S, D, Z, W, B, R>,
            (base, count, rate, maximum, detune, size, wanted, bend, retuned),
            result,
        ),
        result is Ok,
    ensures
        result->Ok_0.1@.len() == count,
        string_of(result->Ok_0.0, place) is Some,
        count < 3 ==> result->Ok_0.0.third is None,
        count < 2 ==> result->Ok_0.0.second is None,
        result->Ok_0.0.base == base.frequency,
        exists|detuned: Binary32|
            {
                &&& #[trigger] detune.ensures((base.frequency.value(), cents), detuned)
                &&& detuned.finite() && detuned.rank() > 0 ==> string_of(
                    result->Ok_0.0,
                    place,
                )->0.frequency.value() == detuned
                &&& !(detuned.finite() && detuned.rank() > 0) ==> string_of(
                    result->Ok_0.0,
                    place,
                )->0.frequency == base.frequency
            },
        ({
            let string = string_of(result->Ok_0.0, place)->0;
            &&& lands(base.damping, 0, 0x3f80_0000, string.damping)
            &&& lands(base.sustain, 0, 0x3f80_0000, string.sustain)
            &&& lands(base.inharmonicity, 0, 0x3d4c_cccd, string.inharmonicity)
            &&& string.hammer == base.hammer
            &&& string.damper_engaged
            &&& string.envelope.bits == 0
            &&& place == 0 ==> string.seed == base.seed
            &&& place == 1 ==> string.seed == base.seed ^ 0x9E37_79B1
            &&& place == 2 ==> string.seed == base.seed ^ 0x85EB_CA77
            &&& result->Ok_0.1@[place]@.line.len() == string.max_delay + 1
            &&& result->Ok_0.1@[place]@.active == string.sections
            &&& lands(string.damping, 0, 0x3f7f_f972, result->Ok_0.1@[place]@.loop_filter.pole)
            &&& lands(
                base.loop_zero_mix,
                0,
                0x3f00_0000,
                result->Ok_0.1@[place]@.loop_filter.zero_mix,
            )
        }),
{
    let seed = base.seed;
    assert(seed ^ 0 == seed) by (bit_vector);
    let tunings = choose|tunings: Seq<StringTuning>|
        {
            let granted = unison::granted_strings(count as int);
            let failing = unison::first_too_short(tunings, 0, granted);
            &&& tunings.len() == granted
            &&& #[trigger] building::are_loops(
                base,
                unison::granted_strings(count as int),
                maximum,
                *detune,
                *size,
                *wanted,
                *bend,
                *retuned,
                tunings,
            )
            &&& failing == granted
            &&& result->Ok_0.0 == unison::idle_group(base, granted, tunings)
            &&& result->Ok_0.1@.len() == granted
            &&& playing::are_paths_of(
                Some(result->Ok_0.0),
                *bend,
                sounding::states(result->Ok_0.1@),
            )
        };
    assert(building::is_string_of(
        base,
        count as int,
        place,
        maximum,
        *detune,
        *size,
        *wanted,
        *bend,
        *retuned,
        tunings[place],
    ));
    base.frequency.kept_value(tunings[place].detuned);
    let group = result->Ok_0.0;
    assert(group.at(place) == string_of(group, place));
    assert(detune.ensures((base.frequency.value(), cents), tunings[place].detuned));
    let states = sounding::states(result->Ok_0.1@);
    assert(waveguide::is_path_of(group.at(place)->0, *bend, states[place]));
    assert(states[place] == result->Ok_0.1@[place]@);
}

/// Plucking a string raises its damper, takes its envelope to the velocity, kept
/// between zero and one, and strikes its path at that velocity.
pub proof fn plucked_strings_are_struck<
    S: Copy,
    I: Fn(Binary32, Binary32, Binary32, Binary32, Binary32) -> Binary32,
    A: Fn(Binary32, Binary32, Binary32) -> Binary32,
    M: Fn(Binary32, Binary32, Binary32) -> Binary32,
    F: Fn(Binary32, Binary32, Binary32) -> Binary32,
    E: Fn(Binary32, Binary32, Binary32) -> Binary32,
    H: Fn(S, Binary32, Binary32) -> (S, Binary32),
    L: Fn(S) -> bool,
    B: Fn(Binary32, Binary32, Binary32, Binary32) -> Binary32,
    X: Fn(Binary32, Binary32) -> Binary32,
    R: Fn(Binary32, Binary32, Binary32, Binary32) -> Binary32,
    P: Fn(Binary32, Binary32) -> Binary32,
    N: Fn(Binary32, Binary32) -> Binary32,
    Q: Fn(Binary32, usize) -> Binary32,
    D: Fn(Binary32, Binary32, Binary32) -> Binary32,
    W: Copy,
    Y: Fn(Binary32) -> W,
    V: Fn(HammerConfig, Binary32, W, Binary32) -> (W, Binary32),
    O: Fn(HammerConfig, Binary32) -> Binary32,
    U: Fn(Binary32, Binary32) -> Binary32,
    J: Fn(Binary32) -> Binary32,
    K: Fn(PluckedString, Binary32, Binary32, Binary32, usize) -> S,
    Z: Fn(PluckedString) -> Binary32,
>(
    arithmetic: &Arithmetic<S, I, A, M, F, E, H, L, B, X, R, P, N, Q, D>,
    hammers: &Hammers<S, W, Y, V, O, U, J, K, Z>,
    string: PluckedString,
    string_after: PluckedString,
    before: PathState<S>,
    after: PathState<S>,
    velocity: Binary32,
)
    requires
        exists|subject: &mut PluckedString, path: &mut Waveguide<S>|
            {
                &&& #[trigger] call_ensures(
                    PluckedString::pluck::<
                        S, I, A, M, F, E, H, L, B, X, R, P, N, Q, D,
                        W, Y, V, O, U, J, K, Z,
                    >,
                    (subject, velocity, path, arithmetic, hammers),
                    (),
                )
                &&& *subject == string
                &&& *final(subject) == string_after
                &&& (*path)@ == before
                &&& (*final(path))@ == after
            },
    ensures
        lands(velocity, 0, 0x3f80_0000, string_after.envelope),
        string_after == (
            PluckedString { envelope: string_after.envelope, damper_engaged: false, ..string }
        ),
        hammers.strikes(
            string_after,
            string_after.envelope,
            arithmetic.step,
            arithmetic.has_left,
            arithmetic.minus,
            before,
            after,
        ),
{
}

/// Plucking a note plucks every one of its strings, whatever its place, and strikes the
/// path of each.
pub proof fn plucked_notes_are_struck_on_every_string<
    S: Copy,
    I: Fn(Binary32, Binary32, Binary32, Binary32, Binary32) -> Binary32,
    A: Fn(Binary32, Binary32, Binary32) -> Binary32,
    M: Fn(Binary32, Binary32, Binary32) -> Binary32,
    F: Fn(Binary32, Binary32, Binary32) -> Binary32,
    E: Fn(Binary32, Binary32, Binary32) -> Binary32,
    H: Fn(S, Binary32, Binary32) -> (S, Binary32),
    L: Fn(S) -> bool,
    B: Fn(Binary32, Binary32, Binary32, Binary32) -> Binary32,
    X: Fn(Binary32, Binary32) -> Binary32,
    R: Fn(Binary32, Binary32, Binary32, Binary32) -> Binary32,
    P: Fn(Binary32, Binary32) -> Binary32,
    N: Fn(Binary32, Binary32) -> Binary32,
    Q: Fn(Binary32, usize) -> Binary32,
    D: Fn(Binary32, Binary32, Binary32) -> Binary32,
    W: Copy,
    Y: Fn(Binary32) -> W,
    V: Fn(HammerConfig, Binary32, W, Binary32) -> (W, Binary32),
    O: Fn(HammerConfig, Binary32) -> Binary32,
    U: Fn(Binary32, Binary32) -> Binary32,
    J: Fn(Binary32) -> Binary32,
    K: Fn(PluckedString, Binary32, Binary32, Binary32, usize) -> S,
    Z: Fn(PluckedString) -> Binary32,
>(
    arithmetic: &Arithmetic<S, I, A, M, F, E, H, L, B, X, R, P, N, Q, D>,
    hammers: &Hammers<S, W, Y, V, O, U, J, K, Z>,
    group: UnisonGroup,
    group_after: UnisonGroup,
    before: Seq<PathState<S>>,
    after: Seq<PathState<S>>,
    velocity: Binary32,
    place: int,
)
    requires
        group.wf(),
        0 <= place < before.len(),
        string_of(group, place) is Some,
        exists|subject: &mut UnisonGroup, lines: &mut Vec<Waveguide<S>>|
            {
                &&& #[trigger] call_ensures(
                    UnisonGroup::pluck::<
                        S, I, A, M, F, E, H, L, B, X, R, P, N, Q, D,
                        W, Y, V, O, U, J, K, Z,
                    >,
                    (subject, velocity, lines, arithmetic, hammers),
                    (),
                )
                &&& *subject == group
                &&& *final(subject) == group_after
                &&& sounding::states((*lines)@) == before
                &&& sounding::states((*final(lines))@) == after
            },
    ensures
        after.len() == before.len(),
        string_of(group_after, place) is Some,
        lands(velocity, 0, 0x3f80_0000, string_of(group_after, place)->0.envelope),
        string_of(group_after, place)->0 == (
            PluckedString {
                envelope: string_of(group_after, place)->0.envelope,
                damper_engaged: false,
                ..string_of(group, place)->0
            }
        ),
        hammers.strikes(
            string_of(group_after, place)->0,
            string_of(group_after, place)->0.envelope,
            arithmetic.step,
            arithmetic.has_left,
            arithmetic.minus,
            before[place],
            after[place],
        ),
{
    assert(group_after.at(place) == string_of(group_after, place));
    assert(after[place] == after[place]);
}

} // verus!

//! Building strings and notes, each with the path it sounds on.
//!
//! A string and its path are built from one voicing and one capacity, so the path is
//! that of the string from the start: its line is as long as the string says, and its
//! filters are tuned as the string asks for.
use crate::binary32::Binary32;
use crate::dispersion;
use crate::dispersion::DispersionCascade;
use crate::engine;
use crate::playing;
use crate::sounding;
use crate::string;
use crate::string::{LoopTuning, PluckedString, StringConfig, MIN_LOOP_DELAY_BITS};
use crate::unison;
use crate::unison::{StringTuning, UnisonGroup, MAX_UNISON_STRINGS};
use crate::units::{ParamError, SampleRate};
use crate::waveguide;
use crate::waveguide::{PathState, Waveguide};
use vstd::prelude::*;

verus! {

/// The voicing's string before its loop is tuned: as short as any loop can be.
pub open spec fn untuned(config: StringConfig, tuning: LoopTuning) -> PluckedString {
    string::idle_string(
        config,
        LoopTuning { loop_delay: Binary32::from_bits(MIN_LOOP_DELAY_BITS), ..tuning },
    )
}

/// `tuning` is the loop a voicing needs: as many sections of dispersion as its register
/// asks for, and as long as `retuned` says.
pub open spec fn is_loop<
    W: Fn(Binary32) -> Binary32,
    B: Fn(Binary32) -> Binary32,
    R: Fn(PluckedString) -> Binary32,
>(config: StringConfig, wanted: W, bend: B, retuned: R, tuning: LoopTuning) -> bool {
    &&& exists|cascade: DispersionCascade| #[trigger]
        dispersion::is_voiced(
            config.frequency.value(),
            config.inharmonicity,
            wanted,
            bend,
            cascade,
        ) && cascade.active() == tuning.sections
    &&& retuned.ensures((untuned(config, tuning),), tuning.loop_delay)
}

/// Works out the loop a voicing needs, and builds its path.
fn tune_loop<
    S: Copy,
    W: Fn(Binary32) -> Binary32,
    B: Fn(Binary32) -> Binary32,
    R: Fn(PluckedString) -> Binary32,
>(
    config: StringConfig,
    sample_rate: SampleRate,
    maximum: Binary32,
    capacity: usize,
    wanted: &W,
    bend: &B,
    retuned: &R,
) -> (built: (LoopTuning, Waveguide<S>))
    requires
        forall|hertz: Binary32| wanted.requires((hertz,)),
        forall|inharmonicity: Binary32| bend.requires((inharmonicity,)),
        forall|string: PluckedString| retuned.requires((string,)),
    ensures
        built.0.maximum == maximum,
        built.0.capacity == capacity,
        is_loop(config, *wanted, *bend, *retuned, built.0),
        built.1.wf(),
        built.1.is_still(),
        waveguide::is_path_of(string::idle_string(config, built.0), *bend, built.1@),
{
    let path = Waveguide::new(config, capacity, wanted, bend);
    let shortest = LoopTuning {
        loop_delay: Binary32::from_bits(MIN_LOOP_DELAY_BITS),
        maximum,
        capacity,
        sections: path.dispersion.active_sections(),
    };
    let loop_delay = match PluckedString::new(config, sample_rate, shortest) {
        Ok(string) => retuned(string),
        Err(_) => shortest.loop_delay,
    };
    let tuning = LoopTuning { loop_delay, ..shortest };
    proof {
        assert(!string::too_short(shortest));
        assert(string::idle_string(config, shortest).wf());
        assert(dispersion::is_voiced(
            config.frequency.value(),
            config.inharmonicity,
            *wanted,
            *bend,
            path.dispersion,
        ));
        let string = string::idle_string(config, tuning);
        let coefficient = choose|coefficient: Binary32|
            {
                &&& #[trigger] dispersion::is_coefficient(
                    config.inharmonicity,
                    *bend,
                    coefficient,
                )
                &&& forall|i: int|
                    0 <= i < dispersion::MAX_SECTIONS ==> (#[trigger] path.dispersion@[i]).coefficient
                        == coefficient
            };
        let low = Binary32::from_bits(0);
        let high = Binary32::from_bits(string::MAX_INHARMONICITY_BITS);
        assert(low.at_most(high));
        crate::math::clamping_settles(config.inharmonicity, low, high);
        assert(dispersion::playable(string.inharmonicity) == dispersion::playable(
            config.inharmonicity,
        ));
        assert(dispersion::is_coefficient(string.inharmonicity, *bend, coefficient));
        assert(path@.line.len() == string.max_delay + 1);
        assert(waveguide::are_bent_for(string.inharmonicity, *bend, path@.sections));
    }
    (tuning, path)
}

/// Builds a string voiced by `config` and the path it sounds on, with a line that
/// holds at least `capacity` samples where a line can.
///
/// Fails when the requested fundamental is too high to be represented: the loop would
/// need fewer than two samples of delay. `maximum` is the highest that can be.
pub fn build_string<
    S: Copy,
    W: Fn(Binary32) -> Binary32,
    B: Fn(Binary32) -> Binary32,
    R: Fn(PluckedString) -> Binary32,
>(
    config: StringConfig,
    sample_rate: SampleRate,
    maximum: Binary32,
    capacity: usize,
    wanted: &W,
    bend: &B,
    retuned: &R,
) -> (result: Result<(PluckedString, Waveguide<S>), ParamError>)
    requires
        forall|hertz: Binary32| wanted.requires((hertz,)),
        forall|inharmonicity: Binary32| bend.requires((inharmonicity,)),
        forall|string: PluckedString| retuned.requires((string,)),
    ensures
        exists|tuning: LoopTuning|
            {
                &&& #[trigger] is_loop(config, *wanted, *bend, *retuned, tuning)
                &&& tuning.maximum == maximum
                &&& tuning.capacity == capacity
                &&& match result {
                    Ok((string, path)) => {
                        &&& !string::too_short(tuning)
                        &&& string == string::idle_string(config, tuning)
                        &&& string.wf()
                        &&& path.wf()
                        &&& path.is_still()
                        &&& waveguide::is_path_of(string, *bend, path@)
                    },
                    Err(error) => {
                        &&& string::too_short(tuning)
                        &&& error == string::unrepresentable(config, sample_rate, tuning)
                    },
                }
            },
{
    let (tuning, path) = tune_loop(
        config,
        sample_rate,
        maximum,
        capacity,
        wanted,
        bend,
        retuned,
    );
    assert(is_loop(config, *wanted, *bend, *retuned, tuning));
    match PluckedString::new(config, sample_rate, tuning) {
        Ok(string) => Ok((string, path)),
        Err(error) => Err(error),
    }
}

/// `tunings` are what the strings of a note of `count` around `base` are tuned to.
pub open spec fn are_loops<
    D: Fn(Binary32, Binary32) -> Binary32,
    Z: Fn(StringConfig) -> usize,
    W: Fn(Binary32) -> Binary32,
    B: Fn(Binary32) -> Binary32,
    R: Fn(PluckedString) -> Binary32,
>(
    base: StringConfig,
    count: int,
    maximum: Binary32,
    detune: D,
    size: Z,
    wanted: W,
    bend: B,
    retuned: R,
    tunings: Seq<StringTuning>,
) -> bool {
    forall|i: int|
        0 <= i < tunings.len() ==> is_string_of(
            base,
            count,
            i,
            maximum,
            detune,
            size,
            wanted,
            bend,
            retuned,
            #[trigger] tunings[i],
        )
}

/// `tuned` is what string `index` of a note of `count` around `base` is tuned to.
pub open spec fn is_string_of<
    D: Fn(Binary32, Binary32) -> Binary32,
    Z: Fn(StringConfig) -> usize,
    W: Fn(Binary32) -> Binary32,
    B: Fn(Binary32) -> Binary32,
    R: Fn(PluckedString) -> Binary32,
>(
    base: StringConfig,
    count: int,
    index: int,
    maximum: Binary32,
    detune: D,
    size: Z,
    wanted: W,
    bend: B,
    retuned: R,
    tuned: StringTuning,
) -> bool {
    let config = unison::config_of_string(base, index, tuned.detuned);
    &&& detune.ensures(
        (base.frequency.value(), Binary32::from_bits(unison::cents_apart(count, index))),
        tuned.detuned,
    )
    &&& size.ensures((config,), tuned.tuning.capacity)
    &&& tuned.tuning.maximum == maximum
    &&& is_loop(config, wanted, bend, retuned, tuned.tuning)
}

/// Builds a note of `unison_count` strings (clamped into one to three) around `base`,
/// and the paths they sound on.
///
/// `detune` moves a frequency by some cents, and `size` says how many samples the line
/// of a voicing has to hold. Fails with the error of the first string that cannot be
/// represented.
pub fn build_note<
    S: Copy,
    D: Fn(Binary32, Binary32) -> Binary32,
    Z: Fn(StringConfig) -> usize,
    W: Fn(Binary32) -> Binary32,
    B: Fn(Binary32) -> Binary32,
    R: Fn(PluckedString) -> Binary32,
>(
    base: StringConfig,
    unison_count: usize,
    sample_rate: SampleRate,
    maximum: Binary32,
    detune: &D,
    size: &Z,
    wanted: &W,
    bend: &B,
    retuned: &R,
) -> (result: Result<(UnisonGroup, Vec<Waveguide<S>>), ParamError>)
    requires
        forall|hertz: Binary32, cents: Binary32| detune.requires((hertz, cents)),
        forall|config: StringConfig| size.requires((config,)),
        forall|hertz: Binary32| wanted.requires((hertz,)),
        forall|inharmonicity: Binary32| bend.requires((inharmonicity,)),
        forall|string: PluckedString| retuned.requires((string,)),
    ensures
        exists|tunings: Seq<StringTuning>|
            {
                let count = unison::granted_strings(unison_count as int);
                let failing = unison::first_too_short(tunings, 0, count);
                &&& tunings.len() == count
                &&& #[trigger] are_loops(
                    base,
                    unison::granted_strings(unison_count as int),
                    maximum,
                    *detune,
                    *size,
                    *wanted,
                    *bend,
                    *retuned,
                    tunings,
                )
                &&& match result {
                    Ok((group, paths)) => {
                        &&& failing == count
                        &&& group == unison::idle_group(base, count, tunings)
                        &&& group.wf()
                        &&& paths@.len() == count
                        &&& sounding::are_wf(paths@)
                        &&& playing::are_paths_of(Some(group), *bend, sounding::states(paths@))
                    },
                    Err(error) => {
                        &&& failing < count
                        &&& error == string::unrepresentable(
                            unison::config_of_string(base, failing, tunings[failing].detuned),
                            sample_rate,
                            tunings[failing].tuning,
                        )
                    },
                }
            },
{
    let count: usize = if unison_count < 1 {
        1
    } else if unison_count > MAX_UNISON_STRINGS {
        MAX_UNISON_STRINGS
    } else {
        unison_count
    };
    let mut tunings: Vec<StringTuning> = Vec::with_capacity(count);
    let mut paths: Vec<Waveguide<S>> = Vec::with_capacity(count);
    while tunings.len() < count
        invariant
            forall|hertz: Binary32, cents: Binary32| detune.requires((hertz, cents)),
            forall|config: StringConfig| size.requires((config,)),
            forall|hertz: Binary32| wanted.requires((hertz,)),
            forall|inharmonicity: Binary32| bend.requires((inharmonicity,)),
            forall|string: PluckedString| retuned.requires((string,)),
            1 <= count <= MAX_UNISON_STRINGS,
            tunings@.len() == paths@.len() <= count,
            are_loops(
                base,
                count as int,
                maximum,
                *detune,
                *size,
                *wanted,
                *bend,
                *retuned,
                tunings@,
            ),
            sounding::are_wf(paths@),
            forall|i: int|
                0 <= i < paths@.len() ==> waveguide::is_path_of(
                    unison::string_of(base, tunings@, i),
                    *bend,
                    (#[trigger] paths@[i])@,
                ),
        decreases count - tunings@.len(),
    {
        let index: usize = tunings.len();
        let cents = unison::detune_cents(count, index);
        let detuned = detune(base.frequency.hertz(), cents);
        let config = unison::string_config(base, index, detuned);
        let capacity = size(config);
        let (tuning, path) = tune_loop(
            config,
            sample_rate,
            maximum,
            capacity,
            wanted,
            bend,
            retuned,
        );
        let ghost earlier = tunings@;
        let ghost earlier_paths = paths@;
        tunings.push(StringTuning { detuned, tuning });
        paths.push(path);
        assert forall|i: int| 0 <= i < paths@.len() implies waveguide::is_path_of(
            unison::string_of(base, tunings@, i),
            *bend,
            (#[trigger] paths@[i])@,
        ) by {
            if i < index {
                assert(tunings@[i] == earlier[i]);
                assert(paths@[i] == earlier_paths[i]);
                assert(unison::string_of(base, tunings@, i) == unison::string_of(
                    base,
                    earlier,
                    i,
                ));
            }
        }
    }
    assert(are_loops(
        base,
        unison::granted_strings(unison_count as int),
        maximum,
        *detune,
        *size,
        *wanted,
        *bend,
        *retuned,
        tunings@,
    ));
    proof {
        reveal_with_fuel(unison::first_too_short, 4);
    }
    match UnisonGroup::new(base, unison_count, sample_rate, &tunings) {
        Ok(group) => {
            proof {
                let states = sounding::states(paths@);
                assert forall|i: int| 0 <= i < group.count() implies waveguide::is_path_of(
                    group.at(i)->0,
                    *bend,
                    #[trigger] states[i],
                ) by {
                    assert(group.at(i)->0 == unison::string_of(base, tunings@, i));
                    assert(states[i] == paths@[i]@);
                }
            }
            Ok((group, paths))
        },
        Err(error) => Err(error),
    }
}

/// An instrument whose notes were built with their paths has every path agree with its
/// string.
pub proof fn built_notes_agree<S, B: Fn(Binary32) -> Binary32>(
    groups: Seq<Option<UnisonGroup>>,
    bend: B,
    paths: Seq<Seq<PathState<S>>>,
)
    requires
        paths.len() == groups.len(),
        forall|key: int|
            0 <= key < groups.len() ==> playing::are_paths_of(
                groups[key],
                bend,
                #[trigger] paths[key],
            ),
    ensures
        playing::all_paths_agree(engine::fresh(groups), bend, paths),
{
    assert forall|key: int| 0 <= key < paths.len() implies playing::are_paths_of(
        engine::fresh(groups).voices[key].strings,
        bend,
        #[trigger] paths[key],
    ) by {
        assert(engine::fresh(groups).voices[key].strings == groups[key]);
    }
}

} // verus!

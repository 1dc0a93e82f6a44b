//! Renders are reproducible.
//!
//! Nothing but what the instrument holds decides what is heard next. Where every step
//! of the arithmetic has one outcome, so has every sample: one note, one chunk, one
//! block of the whole instrument. Two instruments that hold the same sound the same,
//! for as long as they are played the same.
use crate::binary32::Binary32;
use crate::bridge;
use crate::bridge::BridgeBus;
use crate::coupling;
use crate::coupling::Feedback;
use crate::engine::{Engine, EngineState, Voice, BRIDGE_BLOCK_SAMPLES};
use crate::limiter;
use crate::mixdown;
use crate::outcome;
use crate::params::KEY_COUNT;
use crate::rendering;
use crate::rendering::{silence, Instrument, Strings};
use crate::soundboard;
use crate::soundboard::Resonator;
use crate::sounding;
use crate::sounding::{are_bendable, is_filled, Arithmetic};
use crate::unison::UnisonGroup;
use crate::waveguide::{PathState, Waveguide};
use vstd::prelude::*;

verus! {

/// Two instruments' strings hold the same.
pub open spec fn is_alike<S>(one: Strings<S>, other: Strings<S>) -> bool {
    &&& one.engine == other.engine
    &&& one.paths == other.paths
    &&& bridge::is_alike(one.bridge, other.bridge)
}

/// Key `key` has a path for every one of its strings.
pub open spec fn is_playable<S>(strings: Strings<S>, key: int) -> bool {
    &&& are_bendable(strings.paths[key])
    &&& strings.engine.voices[key].strings matches Some(group) ==> is_filled(group)
        && group.count() <= strings.paths[key].len()
}

/// Every key has a path for every one of its strings.
pub open spec fn are_playable<S>(strings: Strings<S>) -> bool {
    &&& strings.paths.len() == strings.engine.voices.len()
    &&& forall|key: int|
        0 <= key < strings.engine.voices.len() ==> #[trigger] is_playable(strings, key)
}

/// What a well-formed engine plays on, with the paths that fit it, is playable.
pub proof fn fitting_strings_are_playable<S: Copy>(
    engine: Engine,
    paths: Seq<Vec<Waveguide<S>>>,
    bridge: BridgeBus<Binary32>,
)
    requires
        engine.wf(),
        rendering::fits(engine@, paths),
    ensures
        engine@.voices.len() == KEY_COUNT,
        are_playable(rendering::strings(engine, paths, bridge)),
{
    engine.keeps_a_wf_state();
    let strings = rendering::strings(engine, paths, bridge);
    assert forall|key: int| 0 <= key < strings.engine.voices.len() implies #[trigger] is_playable(
        strings,
        key,
    ) by {
        assert(engine@.voices[key].wf());
        assert(sounding::are_wf(paths[key]@));
        assert forall|i: int| 0 <= i < strings.paths[key].len() implies 0 <= (
        #[trigger] strings.paths[key][i]).active <= strings.paths[key][i].sections.len() by {
            assert(paths[key]@[i].wf());
        }
    }
}

/// What a board radiates is one sample.
pub proof fn radiating_is_decided<
    C,
    R: Fn(C, Binary32, Binary32, Binary32) -> Binary32,
    P: Fn(Binary32, Binary32) -> Binary32,
>(
    before: Seq<Resonator<C>>,
    drive: Binary32,
    ring: R,
    plus: P,
    after: Seq<Resonator<C>>,
    radiated: Binary32,
    other: Seq<Resonator<C>>,
    other_radiated: Binary32,
)
    requires
        outcome::decided_by_four(ring),
        outcome::decided_by_two(plus),
        soundboard::is_radiated(before, drive, after, ring, plus, radiated),
        soundboard::is_radiated(before, drive, other, ring, plus, other_radiated),
    ensures
        after == other,
        radiated == other_radiated,
{
    assert forall|i: int| 0 <= i < before.len() implies after[i] == other[i] by {
        let bounded = crate::math::bounded(
            drive,
            Binary32::from_bits(soundboard::MIN_DRIVE_BITS),
            Binary32::from_bits(soundboard::MAX_DRIVE_BITS),
        );
        assert(soundboard::is_rung(before[i], bounded, after[i], ring));
        assert(soundboard::is_rung(before[i], bounded, other[i], ring));
    }
    assert(after =~= other);
    let sums = choose|sums: Seq<Binary32>| #[trigger]
        soundboard::are_sums(after, plus, sums) && sums.len() == after.len() + 1 && radiated
            == sums.last();
    let others = choose|sums: Seq<Binary32>| #[trigger]
        soundboard::are_sums(other, plus, sums) && sums.len() == other.len() + 1 && other_radiated
            == sums.last();
    lemma_sums_alike(after, plus, sums, others, after.len() as int);
}

/// Two runs of sums agree up to any place.
proof fn lemma_sums_alike<C, P: Fn(Binary32, Binary32) -> Binary32>(
    resonators: Seq<Resonator<C>>,
    plus: P,
    sums: Seq<Binary32>,
    others: Seq<Binary32>,
    place: int,
)
    requires
        outcome::decided_by_two(plus),
        soundboard::are_sums(resonators, plus, sums),
        soundboard::are_sums(resonators, plus, others),
        sums.len() == others.len(),
        0 <= place < sums.len(),
    ensures
        sums[place] == others[place],
    decreases place,
{
    if place > 0 {
        let i = place - 1;
        lemma_sums_alike(resonators, plus, sums, others, i);
        assert(plus.ensures((sums[i], resonators[i].state1), sums[i + 1]));
        assert(plus.ensures((others[i], resonators[i].state1), others[i + 1]));
    }
}

/// What is heard of one sample is one sample.
pub proof fn mixing_down_is_decided<
    P: Fn(Binary32, Binary32) -> Binary32,
    T: Fn(Binary32, Binary32) -> Binary32,
    K: Fn(Binary32, Binary32) -> Binary32,
>(
    dry: Binary32,
    radiated: Binary32,
    mix_gain: Binary32,
    master_gain: Binary32,
    plus: P,
    times: T,
    saturate: K,
    heard: Binary32,
    other: Binary32,
)
    requires
        outcome::decided_by_two(plus),
        outcome::decided_by_two(times),
        outcome::decided_by_two(saturate),
        mixdown::is_mixed_down(dry, radiated, mix_gain, master_gain, plus, times, saturate, heard),
        mixdown::is_mixed_down(dry, radiated, mix_gain, master_gain, plus, times, saturate, other),
    ensures
        heard == other,
{
    let knee = Binary32::from_bits(limiter::OUTPUT_LIMITER_THRESHOLD_BITS);
    let (wet, mixed, scaled) = choose|wet: Binary32, mixed: Binary32, scaled: Binary32|
        {
            &&& #[trigger] times.ensures((mix_gain, radiated), wet)
            &&& #[trigger] plus.ensures((dry, wet), mixed)
            &&& #[trigger] times.ensures((mixed, master_gain), scaled)
            &&& limiter::is_limited(scaled, knee, saturate, heard)
        };
    let (other_wet, other_mixed, other_scaled) = choose|
        wet: Binary32,
        mixed: Binary32,
        scaled: Binary32,
    |
        {
            &&& #[trigger] times.ensures((mix_gain, radiated), wet)
            &&& #[trigger] plus.ensures((dry, wet), mixed)
            &&& #[trigger] times.ensures((mixed, master_gain), scaled)
            &&& limiter::is_limited(scaled, knee, saturate, other)
        };
    assert(wet == other_wet);
    assert(mixed == other_mixed);
    assert(scaled == other_scaled);
}

/// What is heard of a run is one run.
pub proof fn runs_are_decided<
    C,
    R: Fn(C, Binary32, Binary32, Binary32) -> Binary32,
    P: Fn(Binary32, Binary32) -> Binary32,
    T: Fn(Binary32, Binary32) -> Binary32,
    K: Fn(Binary32, Binary32) -> Binary32,
>(
    dry: Seq<Binary32>,
    board: Seq<Resonator<C>>,
    mix_gain: Binary32,
    master_gain: Binary32,
    ring: R,
    plus: P,
    times: T,
    saturate: K,
    after: Seq<Resonator<C>>,
    heard: Seq<Binary32>,
    other: Seq<Resonator<C>>,
    other_heard: Seq<Binary32>,
)
    requires
        outcome::decided_by_four(ring),
        outcome::decided_by_two(plus),
        outcome::decided_by_two(times),
        outcome::decided_by_two(saturate),
        mixdown::is_run_mixed_down(
            dry,
            board,
            mix_gain,
            master_gain,
            ring,
            plus,
            times,
            saturate,
            after,
            heard,
        ),
        mixdown::is_run_mixed_down(
            dry,
            board,
            mix_gain,
            master_gain,
            ring,
            plus,
            times,
            saturate,
            other,
            other_heard,
        ),
    ensures
        after == other,
        heard == other_heard,
{
    let (boards, radiated) = choose|boards: Seq<Seq<Resonator<C>>>, radiated: Seq<Binary32>|
        {
            &&& #[trigger] mixdown::are_radiated(dry, boards, radiated, ring, plus)
            &&& radiated.len() == dry.len()
            &&& boards[0] == board
            &&& boards.last() == after
            &&& forall|i: int|
                0 <= i < dry.len() ==> mixdown::is_mixed_down(
                    dry[i],
                    radiated[i],
                    mix_gain,
                    master_gain,
                    plus,
                    times,
                    saturate,
                    #[trigger] heard[i],
                )
        };
    let (other_boards, other_radiated) = choose|
        boards: Seq<Seq<Resonator<C>>>,
        radiated: Seq<Binary32>,
    |
        {
            &&& #[trigger] mixdown::are_radiated(dry, boards, radiated, ring, plus)
            &&& radiated.len() == dry.len()
            &&& boards[0] == board
            &&& boards.last() == other
            &&& forall|i: int|
                0 <= i < dry.len() ==> mixdown::is_mixed_down(
                    dry[i],
                    radiated[i],
                    mix_gain,
                    master_gain,
                    plus,
                    times,
                    saturate,
                    #[trigger] other_heard[i],
                )
        };
    lemma_boards_alike(
        dry,
        ring,
        plus,
        boards,
        radiated,
        other_boards,
        other_radiated,
        dry.len() as int,
    );
    assert forall|i: int| 0 <= i < dry.len() implies heard[i] == other_heard[i] by {
        lemma_boards_alike(
            dry,
            ring,
            plus,
            boards,
            radiated,
            other_boards,
            other_radiated,
            i + 1,
        );
        assert(radiated[i] == other_radiated[i]);
        mixing_down_is_decided(
            dry[i],
            radiated[i],
            mix_gain,
            master_gain,
            plus,
            times,
            saturate,
            heard[i],
            other_heard[i],
        );
    }
    assert(heard =~= other_heard);
}

/// Two runs of a board agree up to any place.
proof fn lemma_boards_alike<
    C,
    R: Fn(C, Binary32, Binary32, Binary32) -> Binary32,
    P: Fn(Binary32, Binary32) -> Binary32,
>(
    dry: Seq<Binary32>,
    ring: R,
    plus: P,
    boards: Seq<Seq<Resonator<C>>>,
    radiated: Seq<Binary32>,
    others: Seq<Seq<Resonator<C>>>,
    other_radiated: Seq<Binary32>,
    place: int,
)
    requires
        outcome::decided_by_four(ring),
        outcome::decided_by_two(plus),
        mixdown::are_radiated(dry, boards, radiated, ring, plus),
        mixdown::are_radiated(dry, others, other_radiated, ring, plus),
        radiated.len() == other_radiated.len(),
        boards[0] == others[0],
        0 <= place <= radiated.len(),
    ensures
        boards[place] == others[place],
        place > 0 ==> radiated[place - 1] == other_radiated[place - 1],
    decreases place,
{
    if place > 0 {
        let i = place - 1;
        lemma_boards_alike(dry, ring, plus, boards, radiated, others, other_radiated, i);
        assert(soundboard::is_radiated(boards[i], dry[i], boards[i + 1], ring, plus, radiated[i]));
        assert(soundboard::is_radiated(
            others[i],
            dry[i],
            others[i + 1],
            ring,
            plus,
            other_radiated[i],
        ));
        radiating_is_decided(
            boards[i],
            dry[i],
            ring,
            plus,
            boards[i + 1],
            radiated[i],
            others[i + 1],
            other_radiated[i],
        );
    }
}

impl<
    S: Copy,
    I: Fn(Binary32, Binary32, Binary32, Binary32, Binary32) -> Binary32,
    A: Fn(Binary32, Binary32, Binary32) -> Binary32,
    M: Fn(Binary32, Binary32, Binary32) -> Binary32,
    F: Fn(Binary32, Binary32, Binary32) -> Binary32,
    E: Fn(Binary32, Binary32, Binary32) -> Binary32,
    H: Fn(S, Binary32, Binary32) -> (S, Binary32),
    L: Fn(S) -> bool,
    B: Fn(Binary32, Binary32, Binary32, Binary32) -> Binary32,
    X: Fn(Binary32, Binary32) -> Binary32,
    R: Fn(Binary32, Binary32, Binary32, Binary32) -> Binary32,
    P: Fn(Binary32, Binary32) -> Binary32,
    N: Fn(Binary32, Binary32) -> Binary32,
    Q: Fn(Binary32, usize) -> Binary32,
    D: Fn(Binary32, Binary32, Binary32) -> Binary32,
> Arithmetic<S, I, A, M, F, E, H, L, B, X, R, P, N, Q, D> {
    /// One sample of a note at a bridge is one sample.
    pub proof fn notes_are_decided(
        &self,
        group: UnisonGroup,
        before: Seq<PathState<S>>,
        index: usize,
        bus: BridgeBus<Binary32>,
        group_after: UnisonGroup,
        after: Seq<PathState<S>>,
        bus_after: BridgeBus<Binary32>,
        output: Binary32,
        other_bus: BridgeBus<Binary32>,
        other_group: UnisonGroup,
        other: Seq<PathState<S>>,
        other_bus_after: BridgeBus<Binary32>,
        other_output: Binary32,
    )
        requires
            self.is_decided(),
            is_filled(group),
            group.count() <= before.len(),
            are_bendable(before),
            bridge::is_alike(bus, other_bus),
            self.note_sounds_with_bridge(
                group,
                before,
                bus,
                index,
                group_after,
                after,
                bus_after,
                output,
            ),
            self.note_sounds_with_bridge(
                group,
                before,
                other_bus,
                index,
                other_group,
                other,
                other_bus_after,
                other_output,
            ),
        ensures
            group_after == other_group,
            after == other,
            bridge::is_alike(bus_after, other_bus_after),
            output == other_output,
            is_filled(group_after),
            group_after.count() == group.count(),
            after.len() == before.len(),
            are_bendable(after),
    {
        let zero = Binary32::from_bits(0);
        let (heard, taps, signals, feedback, outputs) = choose|
            heard: Seq<PathState<S>>,
            taps: Seq<Binary32>,
            signals: Seq<Binary32>,
            feedback: Seq<Feedback<Binary32>>,
            outputs: Seq<Binary32>,
        |
            {
                &&& #[trigger] self.all_hear(group, group.count(), before, heard, taps, signals)
                &&& coupling::is_coupled_with_bridge(
                    group,
                    signals,
                    zero,
                    bus,
                    index,
                    self.plus,
                    self.minus,
                    self.quotient,
                    self.blend,
                    self.times,
                    bus_after,
                    feedback,
                )
                &&& #[trigger] self.all_answer(
                    group,
                    group.count(),
                    heard,
                    taps,
                    feedback,
                    group_after,
                    after,
                    outputs,
                )
                &&& self.adds_up(outputs, output)
            };
        let (other_heard, other_taps, other_signals, other_feedback, others) = choose|
            heard: Seq<PathState<S>>,
            taps: Seq<Binary32>,
            signals: Seq<Binary32>,
            feedback: Seq<Feedback<Binary32>>,
            outputs: Seq<Binary32>,
        |
            {
                &&& #[trigger] self.all_hear(group, group.count(), before, heard, taps, signals)
                &&& coupling::is_coupled_with_bridge(
                    group,
                    signals,
                    zero,
                    other_bus,
                    index,
                    self.plus,
                    self.minus,
                    self.quotient,
                    self.blend,
                    self.times,
                    other_bus_after,
                    feedback,
                )
                &&& #[trigger] self.all_answer(
                    group,
                    group.count(),
                    heard,
                    taps,
                    feedback,
                    other_group,
                    other,
                    outputs,
                )
                &&& self.adds_up(outputs, other_output)
            };
        self.lemma_all_hear_alike(
            group,
            before,
            heard,
            taps,
            signals,
            other_heard,
            other_taps,
            other_signals,
        );
        coupling::coupling_is_decided(
            group,
            zero,
            index,
            self.plus,
            self.minus,
            self.quotient,
            self.blend,
            self.times,
            signals,
            bus,
            bus_after,
            feedback,
            other_signals,
            other_bus,
            other_bus_after,
            other_feedback,
        );
        self.lemma_all_answer_alike(
            group,
            heard,
            taps,
            feedback,
            group_after,
            after,
            outputs,
            other_taps,
            other_feedback,
            other_group,
            other,
            others,
        );
        self.adding_up_is_decided(outputs, output, other_output);
    }

    /// What a note plays through a block of the bridge is one thing.
    pub proof fn voices_are_decided(
        &self,
        group: UnisonGroup,
        before: Seq<PathState<S>>,
        bus: BridgeBus<Binary32>,
        outputs: Seq<Binary32>,
        group_after: UnisonGroup,
        after: Seq<PathState<S>>,
        bus_after: BridgeBus<Binary32>,
        other_bus: BridgeBus<Binary32>,
        others: Seq<Binary32>,
        other_group: UnisonGroup,
        other: Seq<PathState<S>>,
        other_bus_after: BridgeBus<Binary32>,
    )
        requires
            self.is_decided(),
            is_filled(group),
            group.count() <= before.len(),
            are_bendable(before),
            bridge::is_alike(bus, other_bus),
            outputs.len() == others.len(),
            self.voice_plays(group, before, bus, outputs, group_after, after, bus_after),
            self.voice_plays(group, before, other_bus, others, other_group, other, other_bus_after),
        ensures
            group_after == other_group,
            after == other,
            bridge::is_alike(bus_after, other_bus_after),
            outputs == others,
            is_filled(group_after),
            group_after.count() == group.count(),
            after.len() == before.len(),
            are_bendable(after),
        decreases outputs.len(),
    {
        if outputs.len() > 0 {
            let index = (outputs.len() - 1) as usize;
            let (played, states, reached) = choose|
                played: UnisonGroup,
                states: Seq<PathState<S>>,
                reached: BridgeBus<Binary32>,
            |
                {
                    &&& self.voice_plays(
                        group,
                        before,
                        bus,
                        outputs.drop_last(),
                        played,
                        states,
                        reached,
                    )
                    &&& #[trigger] self.note_sounds_with_bridge(
                        played,
                        states,
                        reached,
                        index,
                        group_after,
                        after,
                        bus_after,
                        outputs.last(),
                    )
                };
            let (other_played, other_states, other_reached) = choose|
                played: UnisonGroup,
                states: Seq<PathState<S>>,
                reached: BridgeBus<Binary32>,
            |
                {
                    &&& self.voice_plays(
                        group,
                        before,
                        other_bus,
                        others.drop_last(),
                        played,
                        states,
                        reached,
                    )
                    &&& #[trigger] self.note_sounds_with_bridge(
                        played,
                        states,
                        reached,
                        index,
                        other_group,
                        other,
                        other_bus_after,
                        others.last(),
                    )
                };
            self.voices_are_decided(
                group,
                before,
                bus,
                outputs.drop_last(),
                played,
                states,
                reached,
                other_bus,
                others.drop_last(),
                other_played,
                other_states,
                other_reached,
            );
            self.notes_are_decided(
                played,
                states,
                index,
                reached,
                group_after,
                after,
                bus_after,
                outputs.last(),
                other_reached,
                other_group,
                other,
                other_bus_after,
                others.last(),
            );
            assert(outputs =~= outputs.drop_last().push(outputs.last()));
            assert(others =~= others.drop_last().push(others.last()));
        } else {
            assert(outputs =~= others);
        }
    }

    /// What one key adds is one thing.
    pub proof fn key_is_decided(
        &self,
        key: int,
        sums: Seq<Binary32>,
        before: Strings<S>,
        after: Strings<S>,
        sums_after: Seq<Binary32>,
        other_before: Strings<S>,
        other: Strings<S>,
        other_sums: Seq<Binary32>,
    )
        requires
            self.is_decided(),
            0 <= key < before.engine.voices.len(),
            are_playable(before),
            is_alike(before, other_before),
            self.key_sounds(before, sums, key, after, sums_after),
            self.key_sounds(other_before, sums, key, other, other_sums),
        ensures
            are_playable(after),
            is_alike(after, other),
            sums_after == other_sums,
            after.engine.voices.len() == before.engine.voices.len(),
    {
        let voice = before.engine.voices[key];
        if !voice.inert() {
            let (group, states, outputs) = choose|
                group: UnisonGroup,
                states: Seq<PathState<S>>,
                outputs: Seq<Binary32>,
            |
                {
                    &&& #[trigger] self.voice_plays(
                        voice.strings->0,
                        before.paths[key],
                        before.bridge,
                        outputs,
                        group,
                        states,
                        after.bridge,
                    )
                    &&& self.adds_to(sums, outputs, sums_after)
                    &&& after == Strings {
                        engine: EngineState {
                            voices: before.engine.voices.update(
                                key,
                                Voice { strings: Some(group), ..voice },
                            ),
                            ..before.engine
                        },
                        paths: before.paths.update(key, states),
                        bridge: after.bridge,
                    }
                };
            let (other_group, other_states, others) = choose|
                group: UnisonGroup,
                states: Seq<PathState<S>>,
                outputs: Seq<Binary32>,
            |
                {
                    &&& #[trigger] self.voice_plays(
                        voice.strings->0,
                        other_before.paths[key],
                        other_before.bridge,
                        outputs,
                        group,
                        states,
                        other.bridge,
                    )
                    &&& self.adds_to(sums, outputs, other_sums)
                    &&& other == Strings {
                        engine: EngineState {
                            voices: other_before.engine.voices.update(
                                key,
                                Voice { strings: Some(group), ..voice },
                            ),
                            ..other_before.engine
                        },
                        paths: other_before.paths.update(key, states),
                        bridge: other.bridge,
                    }
                };
            assert(is_playable(before, key));
            self.voices_are_decided(
                voice.strings->0,
                before.paths[key],
                before.bridge,
                outputs,
                group,
                states,
                after.bridge,
                other_before.bridge,
                others,
                other_group,
                other_states,
                other.bridge,
            );
            assert forall|i: int| 0 <= i < sums.len() implies sums_after[i] == other_sums[i] by {
                assert(self.plus.ensures((sums[i], outputs[i]), sums_after[i]));
                assert(self.plus.ensures((sums[i], others[i]), other_sums[i]));
            }
            assert(sums_after =~= other_sums);
            assert forall|i: int| 0 <= i < after.engine.voices.len() implies #[trigger]
                is_playable(after, i) by {
                assert(is_playable(before, i));
            }
        }
    }

    /// What the first `keys` keys add is one thing.
    pub proof fn keys_are_decided(
        &self,
        keys: int,
        sums: Seq<Binary32>,
        before: Strings<S>,
        after: Strings<S>,
        sums_after: Seq<Binary32>,
        other_before: Strings<S>,
        other: Strings<S>,
        other_sums: Seq<Binary32>,
    )
        requires
            self.is_decided(),
            0 <= keys <= before.engine.voices.len(),
            are_playable(before),
            is_alike(before, other_before),
            self.keys_sound(before, sums, keys, after, sums_after),
            self.keys_sound(other_before, sums, keys, other, other_sums),
        ensures
            are_playable(after),
            is_alike(after, other),
            sums_after == other_sums,
            after.engine.voices.len() == before.engine.voices.len(),
        decreases keys,
    {
        if keys > 0 {
            let (reached, reached_sums) = choose|
                reached: Strings<S>,
                reached_sums: Seq<Binary32>,
            |
                {
                    &&& self.keys_sound(before, sums, keys - 1, reached, reached_sums)
                    &&& #[trigger] self.key_sounds(
                        reached,
                        reached_sums,
                        keys - 1,
                        after,
                        sums_after,
                    )
                };
            let (other_reached, other_reached_sums) = choose|
                reached: Strings<S>,
                reached_sums: Seq<Binary32>,
            |
                {
                    &&& self.keys_sound(other_before, sums, keys - 1, reached, reached_sums)
                    &&& #[trigger] self.key_sounds(
                        reached,
                        reached_sums,
                        keys - 1,
                        other,
                        other_sums,
                    )
                };
            self.keys_are_decided(
                keys - 1,
                sums,
                before,
                reached,
                reached_sums,
                other_before,
                other_reached,
                other_reached_sums,
            );
            self.key_is_decided(
                keys - 1,
                reached_sums,
                reached,
                after,
                sums_after,
                other_reached,
                other,
                other_sums,
            );
        }
    }

    /// One chunk of the instrument is one run of samples.
    pub proof fn chunks_are_decided<
        C: Copy,
        G: Fn(C, Binary32, Binary32, Binary32) -> Binary32,
        K: Fn(Binary32, Binary32) -> Binary32,
    >(
        &self,
        ring: G,
        saturate: K,
        before: Instrument<S, C>,
        heard: Seq<Binary32>,
        after: Instrument<S, C>,
        other_before: Instrument<S, C>,
        other_heard: Seq<Binary32>,
        other: Instrument<S, C>,
    )
        requires
            self.is_decided(),
            outcome::decided_by_four(ring),
            outcome::decided_by_two(saturate),
            before.strings.engine.voices.len() == KEY_COUNT,
            are_playable(before.strings),
            is_alike(before.strings, other_before.strings),
            before.board == other_before.board,
            heard.len() == other_heard.len(),
            self.chunk_sounds(ring, saturate, before, heard, after),
            self.chunk_sounds(ring, saturate, other_before, other_heard, other),
        ensures
            after.strings.engine.voices.len() == KEY_COUNT,
            are_playable(after.strings),
            is_alike(after.strings, other.strings),
            after.board == other.board,
            heard == other_heard,
    {
        let (begun, sums) = choose|begun: BridgeBus<Binary32>, sums: Seq<Binary32>|
            {
                &&& #[trigger] bridge::is_begun(before.strings.bridge, begun)
                &&& #[trigger] self.keys_sound(
                    before.strings.at_bridge(begun),
                    silence(heard.len() as int),
                    KEY_COUNT as int,
                    after.strings,
                    sums,
                )
                &&& mixdown::is_run_mixed_down(
                    sums,
                    before.board,
                    after.strings.engine.soundboard_mix_gain,
                    after.strings.engine.master_gain,
                    ring,
                    self.plus,
                    self.times,
                    saturate,
                    after.board,
                    heard,
                )
            };
        let (other_begun, other_sums) = choose|begun: BridgeBus<Binary32>, sums: Seq<Binary32>|
            {
                &&& #[trigger] bridge::is_begun(other_before.strings.bridge, begun)
                &&& #[trigger] self.keys_sound(
                    other_before.strings.at_bridge(begun),
                    silence(other_heard.len() as int),
                    KEY_COUNT as int,
                    other.strings,
                    sums,
                )
                &&& mixdown::is_run_mixed_down(
                    sums,
                    other_before.board,
                    other.strings.engine.soundboard_mix_gain,
                    other.strings.engine.master_gain,
                    ring,
                    self.plus,
                    self.times,
                    saturate,
                    other.board,
                    other_heard,
                )
            };
        let start = before.strings.at_bridge(begun);
        assert forall|i: int| 0 <= i < start.engine.voices.len() implies #[trigger] is_playable(
            start,
            i,
        ) by {
            assert(is_playable(before.strings, i));
        }
        self.keys_are_decided(
            KEY_COUNT as int,
            silence(heard.len() as int),
            start,
            after.strings,
            sums,
            other_before.strings.at_bridge(other_begun),
            other.strings,
            other_sums,
        );
        runs_are_decided(
            sums,
            before.board,
            after.strings.engine.soundboard_mix_gain,
            after.strings.engine.master_gain,
            ring,
            self.plus,
            self.times,
            saturate,
            after.board,
            heard,
            other.board,
            other_heard,
        );
    }

    /// A render is reproducible: two instruments that hold the same sound the same,
    /// sample by sample, and hold the same afterwards.
    pub proof fn renders_are_reproducible<
        C: Copy,
        G: Fn(C, Binary32, Binary32, Binary32) -> Binary32,
        K: Fn(Binary32, Binary32) -> Binary32,
    >(
        &self,
        ring: G,
        saturate: K,
        before: Instrument<S, C>,
        heard: Seq<Binary32>,
        after: Instrument<S, C>,
        other_before: Instrument<S, C>,
        other_heard: Seq<Binary32>,
        other: Instrument<S, C>,
    )
        requires
            self.is_decided(),
            outcome::decided_by_four(ring),
            outcome::decided_by_two(saturate),
            before.strings.engine.voices.len() == KEY_COUNT,
            are_playable(before.strings),
            is_alike(before.strings, other_before.strings),
            before.board == other_before.board,
            heard.len() == other_heard.len(),
            self.block_sounds(ring, saturate, before, heard, after),
            self.block_sounds(ring, saturate, other_before, other_heard, other),
        ensures
            heard == other_heard,
            is_alike(after.strings, other.strings),
            after.board == other.board,
        decreases heard.len(),
    {
        let chunk = BRIDGE_BLOCK_SAMPLES as int;
        if heard.len() == 0 {
            assert(heard =~= other_heard);
        } else if heard.len() <= chunk {
            self.chunks_are_decided(
                ring,
                saturate,
                before,
                heard,
                after,
                other_before,
                other_heard,
                other,
            );
        } else {
            let reached = choose|reached: Instrument<S, C>|
                {
                    &&& #[trigger] self.chunk_sounds(
                        ring,
                        saturate,
                        before,
                        heard.take(chunk),
                        reached,
                    )
                    &&& self.block_sounds(ring, saturate, reached, heard.skip(chunk), after)
                };
            let other_reached = choose|reached: Instrument<S, C>|
                {
                    &&& #[trigger] self.chunk_sounds(
                        ring,
                        saturate,
                        other_before,
                        other_heard.take(chunk),
                        reached,
                    )
                    &&& self.block_sounds(ring, saturate, reached, other_heard.skip(chunk), other)
                };
            self.chunks_are_decided(
                ring,
                saturate,
                before,
                heard.take(chunk),
                reached,
                other_before,
                other_heard.take(chunk),
                other_reached,
            );
            self.renders_are_reproducible(
                ring,
                saturate,
                reached,
                heard.skip(chunk),
                after,
                other_reached,
                other_heard.skip(chunk),
                other,
            );
            assert(heard =~= heard.take(chunk) + heard.skip(chunk));
            assert(other_heard =~= other_heard.take(chunk) + other_heard.skip(chunk));
        }
    }

    /// Where a block is cut between two chunks does not matter: of two instruments that
    /// hold the same, one that renders a block whole and one that renders it in two
    /// parts, the first a whole number of chunks, give the same samples, whatever the
    /// buffers held before.
    pub proof fn cutting_a_block_changes_nothing<
        C: Copy,
        G: Fn(C, Binary32, Binary32, Binary32) -> Binary32,
        K: Fn(Binary32, Binary32) -> Binary32,
    >(
        &self,
        ring: G,
        saturate: K,
        before: Instrument<S, C>,
        heard: Seq<Binary32>,
        after: Instrument<S, C>,
        other_before: Instrument<S, C>,
        first: Seq<Binary32>,
        between: Instrument<S, C>,
        second: Seq<Binary32>,
        other: Instrument<S, C>,
    )
        requires
            self.is_decided(),
            outcome::decided_by_four(ring),
            outcome::decided_by_two(saturate),
            before.strings.engine.voices.len() == KEY_COUNT,
            are_playable(before.strings),
            is_alike(before.strings, other_before.strings),
            before.board == other_before.board,
            first.len() % BRIDGE_BLOCK_SAMPLES as nat == 0,
            heard.len() == first.len() + second.len(),
            self.block_sounds(ring, saturate, before, heard, after),
            self.block_sounds(ring, saturate, other_before, first, between),
            self.block_sounds(ring, saturate, between, second, other),
        ensures
            heard == first + second,
            is_alike(after.strings, other.strings),
            after.board == other.board,
    {
        self.blocks_join(ring, saturate, other_before, first, between, second, other);
        self.renders_are_reproducible(
            ring,
            saturate,
            before,
            heard,
            after,
            other_before,
            first + second,
            other,
        );
    }
}

} // verus!

//! What a block of the instrument is made of: every key, every sample.
use crate::binary32::Binary32;
use crate::bridge;
use crate::bridge::BridgeBus;
use crate::engine::{Engine, EngineState, Voice};
use crate::mixdown;
use crate::rendering;
use crate::rendering::{Instrument, Strings};
use crate::sounding::Arithmetic;
use crate::soundboard::ResonatorBank;
use crate::string::PluckedString;
use crate::unison::UnisonGroup;
use crate::waveguide::{PathState, Waveguide};
use vstd::prelude::*;

verus! {

/// Nothing of a voice can be heard or woken: every string it has is below audibility, and
/// has its damper down.
pub open spec fn is_asleep(voice: Voice) -> bool {
    voice.strings is Some ==> {
        &&& sleeps(voice.strings->0.first)
        &&& voice.strings->0.second is Some ==> sleeps(voice.strings->0.second->0)
        &&& voice.strings->0.third is Some ==> sleeps(voice.strings->0.third->0)
    }
}

/// A string is below audibility and has its damper down.
pub open spec fn sleeps(string: PluckedString) -> bool {
    string.damper_engaged && !string.envelope.nan() && string.envelope.rank() < 0x38d1_b717
}

/// A note plays `outputs`, one after the other, each at its own place of the bridge.
pub open spec fn plays_through<
    S: Copy,
    I: Fn(Binary32, Binary32, Binary32, Binary32, Binary32) -> Binary32,
    A: Fn(Binary32, Binary32, Binary32) -> Binary32,
    M: Fn(Binary32, Binary32, Binary32) -> Binary32,
    F: Fn(Binary32, Binary32, Binary32) -> Binary32,
    E: Fn(Binary32, Binary32, Binary32) -> Binary32,
    H: Fn(S, Binary32, Binary32) -> (S, Binary32),
    L: Fn(S) -> bool,
    B: Fn(Binary32, Binary32, Binary32, Binary32) -> Binary32,
    X: Fn(Binary32, Binary32) -> Binary32,
    R: Fn(Binary32, Binary32, Binary32, Binary32) -> Binary32,
    P: Fn(Binary32, Binary32) -> Binary32,
    N: Fn(Binary32, Binary32) -> Binary32,
    Q: Fn(Binary32, usize) -> Binary32,
    D: Fn(Binary32, Binary32, Binary32) -> Binary32,
>(
    arithmetic: Arithmetic<S, I, A, M, F, E, H, L, B, X, R, P, N, Q, D>,
    groups: Seq<UnisonGroup>,
    paths: Seq<Seq<PathState<S>>>,
    buses: Seq<BridgeBus<Binary32>>,
    outputs: Seq<Binary32>,
) -> bool {
    &&& groups.len() == outputs.len() + 1
    &&& paths.len() == outputs.len() + 1
    &&& buses.len() == outputs.len() + 1
    &&& forall|i: int|
        0 <= i < outputs.len() ==> arithmetic.note_sounds_with_bridge(
            groups[i],
            paths[i],
            buses[i],
            i as usize,
            groups[i + 1],
            paths[i + 1],
            buses[i + 1],
            #[trigger] outputs[i],
        )
}

/// A key that is not asleep plays, and every one of its samples is added to what the keys
/// before it gave; a key that is asleep changes nothing.
pub open spec fn adds_its_samples<
    S: Copy,
    I: Fn(Binary32, Binary32, Binary32, Binary32, Binary32) -> Binary32,
    A: Fn(Binary32, Binary32, Binary32) -> Binary32,
    M: Fn(Binary32, Binary32, Binary32) -> Binary32,
    F: Fn(Binary32, Binary32, Binary32) -> Binary32,
    E: Fn(Binary32, Binary32, Binary32) -> Binary32,
    H: Fn(S, Binary32, Binary32) -> (S, Binary32),
    L: Fn(S) -> bool,
    B: Fn(Binary32, Binary32, Binary32, Binary32) -> Binary32,
    X: Fn(Binary32, Binary32) -> Binary32,
    R: Fn(Binary32, Binary32, Binary32, Binary32) -> Binary32,
    P: Fn(Binary32, Binary32) -> Binary32,
    N: Fn(Binary32, Binary32) -> Binary32,
    Q: Fn(Binary32, usize) -> Binary32,
    D: Fn(Binary32, Binary32, Binary32) -> Binary32,
>(
    arithmetic: Arithmetic<S, I, A, M, F, E, H, L, B, X, R, P, N, Q, D>,
    before: Strings<S>,
    sums: Seq<Binary32>,
    key: int,
    after: Strings<S>,
    sums_after: Seq<Binary32>,
) -> bool {
    &&& is_asleep(before.engine.voices[key]) ==> after == before && sums_after == sums
    &&& !is_asleep(before.engine.voices[key]) ==> exists|
        groups: Seq<UnisonGroup>,
        paths: Seq<Seq<PathState<S>>>,
        buses: Seq<BridgeBus<Binary32>>,
        outputs: Seq<Binary32>,
    |
        {
            &&& #[trigger] plays_through(arithmetic, groups, paths, buses, outputs)
            &&& groups[0] == before.engine.voices[key].strings->0
            &&& paths[0] == before.paths[key]
            &&& buses[0] == before.bridge
            &&& outputs.len() == sums.len()
            &&& sums_after.len() == sums.len()
            &&& forall|i: int|
                0 <= i < sums.len() ==> arithmetic.plus.ensures(
                    (sums[i], outputs[i]),
                    #[trigger] sums_after[i],
                )
            &&& after.bridge == buses[outputs.len() as int]
            &&& after.paths == before.paths.update(key, paths[outputs.len() as int])
            &&& after.engine == EngineState {
                voices: before.engine.voices.update(
                    key,
                    Voice {
                        strings: Some(groups[outputs.len() as int]),
                        ..before.engine.voices[key]
                    },
                ),
                ..before.engine
            }
        }
}

/// Every key adds its samples, one key after the other.
pub open spec fn all_add_their_samples<
    S: Copy,
    I: Fn(Binary32, Binary32, Binary32, Binary32, Binary32) -> Binary32,
    A: Fn(Binary32, Binary32, Binary32) -> Binary32,
    M: Fn(Binary32, Binary32, Binary32) -> Binary32,
    F: Fn(Binary32, Binary32, Binary32) -> Binary32,
    E: Fn(Binary32, Binary32, Binary32) -> Binary32,
    H: Fn(S, Binary32, Binary32) -> (S, Binary32),
    L: Fn(S) -> bool,
    B: Fn(Binary32, Binary32, Binary32, Binary32) -> Binary32,
    X: Fn(Binary32, Binary32) -> Binary32,
    R: Fn(Binary32, Binary32, Binary32, Binary32) -> Binary32,
    P: Fn(Binary32, Binary32) -> Binary32,
    N: Fn(Binary32, Binary32) -> Binary32,
    Q: Fn(Binary32, usize) -> Binary32,
    D: Fn(Binary32, Binary32, Binary32) -> Binary32,
>(
    arithmetic: Arithmetic<S, I, A, M, F, E, H, L, B, X, R, P, N, Q, D>,
    keys: int,
    reached: Seq<Strings<S>>,
    sums: Seq<Seq<Binary32>>,
) -> bool {
    &&& reached.len() == keys + 1
    &&& sums.len() == keys + 1
    &&& forall|key: int|
        0 <= key < keys ==> adds_its_samples(
            arithmetic,
            reached[key],
            sums[key],
            key,
            reached[key + 1],
            #[trigger] sums[key + 1],
        )
}

proof fn lemma_asleep(voice: Voice)
    ensures
        voice.inert() == is_asleep(voice),
{
}

proof fn lemma_plays_through<
    S: Copy,
    I: Fn(Binary32, Binary32, Binary32, Binary32, Binary32) -> Binary32,
    A: Fn(Binary32, Binary32, Binary32) -> Binary32,
    M: Fn(Binary32, Binary32, Binary32) -> Binary32,
    F: Fn(Binary32, Binary32, Binary32) -> Binary32,
    E: Fn(Binary32, Binary32, Binary32) -> Binary32,
    H: Fn(S, Binary32, Binary32) -> (S, Binary32),
    L: Fn(S) -> bool,
    B: Fn(Binary32, Binary32, Binary32, Binary32) -> Binary32,
    X: Fn(Binary32, Binary32) -> Binary32,
    R: Fn(Binary32, Binary32, Binary32, Binary32) -> Binary32,
    P: Fn(Binary32, Binary32) -> Binary32,
    N: Fn(Binary32, Binary32) -> Binary32,
    Q: Fn(Binary32, usize) -> Binary32,
    D: Fn(Binary32, Binary32, Binary32) -> Binary32,
>(
    arithmetic: Arithmetic<S, I, A, M, F, E, H, L, B, X, R, P, N, Q, D>,
    group: UnisonGroup,
    before: Seq<PathState<S>>,
    bus: BridgeBus<Binary32>,
    outputs: Seq<Binary32>,
    group_after: UnisonGroup,
    after: Seq<PathState<S>>,
    bus_after: BridgeBus<Binary32>,
) -> (run: (Seq<UnisonGroup>, Seq<Seq<PathState<S>>>, Seq<BridgeBus<Binary32>>))
    requires
        arithmetic.voice_plays(group, before, bus, outputs, group_after, after, bus_after),
    ensures
        plays_through(arithmetic, run.0, run.1, run.2, outputs),
        run.0[0] == group,
        run.1[0] == before,
        run.2[0] == bus,
        run.0[outputs.len() as int] == group_after,
        run.1[outputs.len() as int] == after,
        run.2[outputs.len() as int] == bus_after,
    decreases outputs.len(),
{
    if outputs.len() == 0 {
        (seq![group], seq![before], seq![bus])
    } else {
        let (played, states, reached) = choose|
            played: UnisonGroup,
            states: Seq<PathState<S>>,
            reached: BridgeBus<Binary32>,
        |
            {
                &&& arithmetic.voice_plays(
                    group,
                    before,
                    bus,
                    outputs.drop_last(),
                    played,
                    states,
                    reached,
                )
                &&& #[trigger] arithmetic.note_sounds_with_bridge(
                    played,
                    states,
                    reached,
                    (outputs.len() - 1) as usize,
                    group_after,
                    after,
                    bus_after,
                    outputs.last(),
                )
            };
        let (groups, paths, buses) = lemma_plays_through(
            arithmetic,
            group,
            before,
            bus,
            outputs.drop_last(),
            played,
            states,
            reached,
        );
        let run = (groups.push(group_after), paths.push(after), buses.push(bus_after));
        assert forall|i: int| 0 <= i < outputs.len() implies arithmetic.note_sounds_with_bridge(
            run.0[i],
            run.1[i],
            run.2[i],
            i as usize,
            run.0[i + 1],
            run.1[i + 1],
            run.2[i + 1],
            #[trigger] outputs[i],
        ) by {
            if i < outputs.len() - 1 {
                assert(outputs.drop_last()[i] == outputs[i]);
                assert(arithmetic.note_sounds_with_bridge(
                    groups[i],
                    paths[i],
                    buses[i],
                    i as usize,
                    groups[i + 1],
                    paths[i + 1],
                    buses[i + 1],
                    outputs.drop_last()[i],
                ));
            }
        }
        run
    }
}

proof fn lemma_adds_its_samples<
    S: Copy,
    I: Fn(Binary32, Binary32, Binary32, Binary32, Binary32) -> Binary32,
    A: Fn(Binary32, Binary32, Binary32) -> Binary32,
    M: Fn(Binary32, Binary32, Binary32) -> Binary32,
    F: Fn(Binary32, Binary32, Binary32) -> Binary32,
    E: Fn(Binary32, Binary32, Binary32) -> Binary32,
    H: Fn(S, Binary32, Binary32) -> (S, Binary32),
    L: Fn(S) -> bool,
    B: Fn(Binary32, Binary32, Binary32, Binary32) -> Binary32,
    X: Fn(Binary32, Binary32) -> Binary32,
    R: Fn(Binary32, Binary32, Binary32, Binary32) -> Binary32,
    P: Fn(Binary32, Binary32) -> Binary32,
    N: Fn(Binary32, Binary32) -> Binary32,
    Q: Fn(Binary32, usize) -> Binary32,
    D: Fn(Binary32, Binary32, Binary32) -> Binary32,
>(
    arithmetic: Arithmetic<S, I, A, M, F, E, H, L, B, X, R, P, N, Q, D>,
    before: Strings<S>,
    sums: Seq<Binary32>,
    key: int,
    after: Strings<S>,
    sums_after: Seq<Binary32>,
)
    requires
        arithmetic.key_sounds(before, sums, key, after, sums_after),
    ensures
        adds_its_samples(arithmetic, before, sums, key, after, sums_after),
{
    let voice = before.engine.voices[key];
    lemma_asleep(voice);
    if !is_asleep(voice) {
        let (group, states, outputs) = choose|
            group: UnisonGroup,
            states: Seq<PathState<S>>,
            outputs: Seq<Binary32>,
        |
            {
                &&& #[trigger] arithmetic.voice_plays(
                    voice.strings->0,
                    before.paths[key],
                    before.bridge,
                    outputs,
                    group,
                    states,
                    after.bridge,
                )
                &&& arithmetic.adds_to(sums, outputs, sums_after)
                &&& after == Strings {
                    engine: EngineState {
                        voices: before.engine.voices.update(
                            key,
                            Voice { strings: Some(group), ..voice },
                        ),
                        ..before.engine
                    },
                    paths: before.paths.update(key, states),
                    bridge: after.bridge,
                    ..before
                }
            };
        let (groups, paths, buses) = lemma_plays_through(
            arithmetic,
            voice.strings->0,
            before.paths[key],
            before.bridge,
            outputs,
            group,
            states,
            after.bridge,
        );
        assert(plays_through(arithmetic, groups, paths, buses, outputs));
    }
}

proof fn lemma_all_add<
    S: Copy,
    I: Fn(Binary32, Binary32, Binary32, Binary32, Binary32) -> Binary32,
    A: Fn(Binary32, Binary32, Binary32) -> Binary32,
    M: Fn(Binary32, Binary32, Binary32) -> Binary32,
    F: Fn(Binary32, Binary32, Binary32) -> Binary32,
    E: Fn(Binary32, Binary32, Binary32) -> Binary32,
    H: Fn(S, Binary32, Binary32) -> (S, Binary32),
    L: Fn(S) -> bool,
    B: Fn(Binary32, Binary32, Binary32, Binary32) -> Binary32,
    X: Fn(Binary32, Binary32) -> Binary32,
    R: Fn(Binary32, Binary32, Binary32, Binary32) -> Binary32,
    P: Fn(Binary32, Binary32) -> Binary32,
    N: Fn(Binary32, Binary32) -> Binary32,
    Q: Fn(Binary32, usize) -> Binary32,
    D: Fn(Binary32, Binary32, Binary32) -> Binary32,
>(
    arithmetic: Arithmetic<S, I, A, M, F, E, H, L, B, X, R, P, N, Q, D>,
    before: Strings<S>,
    sums: Seq<Binary32>,
    keys: int,
    after: Strings<S>,
    sums_after: Seq<Binary32>,
) -> (run: (Seq<Strings<S>>, Seq<Seq<Binary32>>))
    requires
        keys >= 0,
        arithmetic.keys_sound(before, sums, keys, after, sums_after),
    ensures
        all_add_their_samples(arithmetic, keys, run.0, run.1),
        run.0[0] == before,
        run.1[0] == sums,
        run.0[keys] == after,
        run.1[keys] == sums_after,
    decreases keys,
{
    if keys == 0 {
        (seq![before], seq![sums])
    } else {
        let (one, total) = choose|reached: Strings<S>, reached_sums: Seq<Binary32>|
            {
                &&& arithmetic.keys_sound(before, sums, keys - 1, reached, reached_sums)
                &&& #[trigger] arithmetic.key_sounds(
                    reached,
                    reached_sums,
                    keys - 1,
                    after,
                    sums_after,
                )
            };
        let (reached, totals) = lemma_all_add(arithmetic, before, sums, keys - 1, one, total);
        lemma_adds_its_samples(arithmetic, one, total, keys - 1, after, sums_after);
        let run = (reached.push(after), totals.push(sums_after));
        assert forall|key: int| 0 <= key < keys implies adds_its_samples(
            arithmetic,
            run.0[key],
            run.1[key],
            key,
            run.0[key + 1],
            #[trigger] run.1[key + 1],
        ) by {
            if key < keys - 1 {
                assert(adds_its_samples(
                    arithmetic,
                    reached[key],
                    totals[key],
                    key,
                    reached[key + 1],
                    totals[key + 1],
                ));
            }
        }
        run
    }
}

/// A bridge that begins a block answers with what it took up during the one before, and
/// has taken up nothing yet.
pub open spec fn begins(before: BridgeBus<Binary32>, after: BridgeBus<Binary32>) -> bool {
    &&& after.silence() == before.silence()
    &&& after.previous() == before.current()
    &&& after.current().len() == before.current().len()
    &&& forall|i: int|
        0 <= i < before.current().len() ==> (#[trigger] after.current()[i]).count == 0
            && after.current()[i].sum == before.silence()
}

/// A block of the instrument, as long as the bridge's, is made of every key: the bridge
/// begins a block, each of the eighty-eight keys that is not asleep adds every one of
/// its samples to what the keys before it gave, beginning with silence, and every sum
/// goes out through the board and the limiter.
pub proof fn every_key_adds_every_sample<
    S: Copy,
    I: Fn(Binary32, Binary32, Binary32, Binary32, Binary32) -> Binary32,
    A: Fn(Binary32, Binary32, Binary32) -> Binary32,
    M: Fn(Binary32, Binary32, Binary32) -> Binary32,
    F: Fn(Binary32, Binary32, Binary32) -> Binary32,
    E: Fn(Binary32, Binary32, Binary32) -> Binary32,
    H: Fn(S, Binary32, Binary32) -> (S, Binary32),
    L: Fn(S) -> bool,
    B: Fn(Binary32, Binary32, Binary32, Binary32) -> Binary32,
    X: Fn(Binary32, Binary32) -> Binary32,
    R: Fn(Binary32, Binary32, Binary32, Binary32) -> Binary32,
    P: Fn(Binary32, Binary32) -> Binary32,
    N: Fn(Binary32, Binary32) -> Binary32,
    Q: Fn(Binary32, usize) -> Binary32,
    D: Fn(Binary32, Binary32, Binary32) -> Binary32,
    C: Copy,
    G: Fn(C, Binary32, Binary32, Binary32) -> Binary32,
    K: Fn(Binary32, Binary32) -> Binary32,
>(
    arithmetic: &Arithmetic<S, I, A, M, F, E, H, L, B, X, R, P, N, Q, D>,
    ring: &G,
    saturate: &K,
    before: Instrument<S, C>,
    after: Instrument<S, C>,
    heard: Seq<Binary32>,
)
    requires
        1 <= heard.len() <= 128,
        exists|
            playing: &mut Engine,
            samples: &mut [Binary32],
            lines: &mut Vec<Vec<Waveguide<S>>>,
            bus: &mut BridgeBus<Binary32>,
            bank: &mut ResonatorBank<C>,
        |
            {
                &&& #[trigger] call_ensures(
                    Engine::process_block::<S, I, A, M, F, E, H, L, B, X, R, P, N, Q, D, C, G, K>,
                    (playing, samples, lines, bus, bank, arithmetic, ring, saturate),
                    (),
                )
                &&& rendering::instrument(*playing, (*lines)@, *bus, *bank) == before
                &&& rendering::instrument(
                    *final(playing),
                    (*final(lines))@,
                    *final(bus),
                    *final(bank),
                ) == after
                &&& (*final(samples))@ == heard
            },
    ensures
        exists|begun: BridgeBus<Binary32>, reached: Seq<Strings<S>>, sums: Seq<Seq<Binary32>>|
            {
                &&& #[trigger] begins(before.strings.bridge, begun)
                &&& #[trigger] all_add_their_samples(*arithmetic, 88, reached, sums)
                &&& reached[0] == Strings { bridge: begun, ..before.strings }
                &&& reached[88] == after.strings
                &&& sums[0].len() == heard.len()
                &&& forall|i: int| 0 <= i < heard.len() ==> (#[trigger] sums[0][i]).bits == 0
                &&& mixdown::is_run_mixed_down(
                    sums[88],
                    before.board,
                    after.strings.engine.soundboard_mix_gain,
                    after.strings.engine.master_gain,
                    *ring,
                    arithmetic.plus,
                    arithmetic.times,
                    *saturate,
                    after.board,
                    heard,
                )
            },
{
    assert(arithmetic.block_sounds(*ring, *saturate, before, heard, after));
    assert(arithmetic.chunk_sounds(*ring, *saturate, before, heard, after));
    let (begun, total) = choose|begun: BridgeBus<Binary32>, sums: Seq<Binary32>|
        {
            &&& #[trigger] bridge::is_begun(before.strings.bridge, begun)
            &&& #[trigger] arithmetic.keys_sound(
                before.strings.at_bridge(begun),
                rendering::silence(heard.len() as int),
                88,
                after.strings,
                sums,
            )
            &&& mixdown::is_run_mixed_down(
                sums,
                before.board,
                after.strings.engine.soundboard_mix_gain,
                after.strings.engine.master_gain,
                *ring,
                arithmetic.plus,
                arithmetic.times,
                *saturate,
                after.board,
                heard,
            )
        };
    let (reached, sums) = lemma_all_add(
        *arithmetic,
        before.strings.at_bridge(begun),
        rendering::silence(heard.len() as int),
        88,
        after.strings,
        total,
    );
    assert(begins(before.strings.bridge, begun));
    assert(all_add_their_samples(*arithmetic, 88, reached, sums));
}

/// A block longer than the bridge's is rendered piece by piece: its first hundred and
/// twenty-eight samples are a block of their own, and the rest is rendered from where
/// that leaves the instrument.
pub proof fn long_blocks_are_rendered_piece_by_piece<
    S: Copy,
    I: Fn(Binary32, Binary32, Binary32, Binary32, Binary32) -> Binary32,
    A: Fn(Binary32, Binary32, Binary32) -> Binary32,
    M: Fn(Binary32, Binary32, Binary32) -> Binary32,
    F: Fn(Binary32, Binary32, Binary32) -> Binary32,
    E: Fn(Binary32, Binary32, Binary32) -> Binary32,
    H: Fn(S, Binary32, Binary32) -> (S, Binary32),
    L: Fn(S) -> bool,
    B: Fn(Binary32, Binary32, Binary32, Binary32) -> Binary32,
    X: Fn(Binary32, Binary32) -> Binary32,
    R: Fn(Binary32, Binary32, Binary32, Binary32) -> Binary32,
    P: Fn(Binary32, Binary32) -> Binary32,
    N: Fn(Binary32, Binary32) -> Binary32,
    Q: Fn(Binary32, usize) -> Binary32,
    D: Fn(Binary32, Binary32, Binary32) -> Binary32,
    C: Copy,
    G: Fn(C, Binary32, Binary32, Binary32) -> Binary32,
    K: Fn(Binary32, Binary32) -> Binary32,
>(
    arithmetic: &Arithmetic<S, I, A, M, F, E, H, L, B, X, R, P, N, Q, D>,
    ring: &G,
    saturate: &K,
    before: Instrument<S, C>,
    after: Instrument<S, C>,
    heard: Seq<Binary32>,
)
    requires
        heard.len() > 128,
        exists|
            playing: &mut Engine,
            samples: &mut [Binary32],
            lines: &mut Vec<Vec<Waveguide<S>>>,
            bus: &mut BridgeBus<Binary32>,
            bank: &mut ResonatorBank<C>,
        |
            {
                &&& #[trigger] call_ensures(
                    Engine::process_block::<S, I, A, M, F, E, H, L, B, X, R, P, N, Q, D, C, G, K>,
                    (playing, samples, lines, bus, bank, arithmetic, ring, saturate),
                    (),
                )
                &&& rendering::instrument(*playing, (*lines)@, *bus, *bank) == before
                &&& rendering::instrument(
                    *final(playing),
                    (*final(lines))@,
                    *final(bus),
                    *final(bank),
                ) == after
                &&& (*final(samples))@ == heard
            },
    ensures
        exists|between: Instrument<S, C>| #[trigger]
            arithmetic.block_sounds(*ring, *saturate, before, heard.take(128), between)
                && arithmetic.block_sounds(*ring, *saturate, between, heard.skip(128), after),
{
    let between = choose|reached: Instrument<S, C>|
        {
            &&& #[trigger] arithmetic.chunk_sounds(
                *ring,
                *saturate,
                before,
                heard.take(128),
                reached,
            )
            &&& arithmetic.block_sounds(*ring, *saturate, reached, heard.skip(128), after)
        };
    assert(arithmetic.block_sounds(*ring, *saturate, before, heard.take(128), between));
}

/// A string alone plays `outputs`, one after the other.
pub open spec fn plays_alone<
    S: Copy,
    I: Fn(Binary32, Binary32, Binary32, Binary32, Binary32) -> Binary32,
    A: Fn(Binary32, Binary32, Binary32) -> Binary32,
    M: Fn(Binary32, Binary32, Binary32) -> Binary32,
    F: Fn(Binary32, Binary32, Binary32) -> Binary32,
    E: Fn(Binary32, Binary32, Binary32) -> Binary32,
    H: Fn(S, Binary32, Binary32) -> (S, Binary32),
    L: Fn(S) -> bool,
    B: Fn(Binary32, Binary32, Binary32, Binary32) -> Binary32,
    X: Fn(Binary32, Binary32) -> Binary32,
    R: Fn(Binary32, Binary32, Binary32, Binary32) -> Binary32,
    P: Fn(Binary32, Binary32) -> Binary32,
    N: Fn(Binary32, Binary32) -> Binary32,
    Q: Fn(Binary32, usize) -> Binary32,
    D: Fn(Binary32, Binary32, Binary32) -> Binary32,
>(
    arithmetic: Arithmetic<S, I, A, M, F, E, H, L, B, X, R, P, N, Q, D>,
    strings: Seq<PluckedString>,
    paths: Seq<PathState<S>>,
    outputs: Seq<Binary32>,
) -> bool {
    &&& strings.len() == outputs.len() + 1
    &&& paths.len() == outputs.len() + 1
    &&& forall|i: int|
        0 <= i < outputs.len() ==> arithmetic.sounds_alone(
            strings[i],
            paths[i],
            strings[i + 1],
            paths[i + 1],
            #[trigger] outputs[i],
        )
}

proof fn lemma_plays_alone<
    S: Copy,
    I: Fn(Binary32, Binary32, Binary32, Binary32, Binary32) -> Binary32,
    A: Fn(Binary32, Binary32, Binary32) -> Binary32,
    M: Fn(Binary32, Binary32, Binary32) -> Binary32,
    F: Fn(Binary32, Binary32, Binary32) -> Binary32,
    E: Fn(Binary32, Binary32, Binary32) -> Binary32,
    H: Fn(S, Binary32, Binary32) -> (S, Binary32),
    L: Fn(S) -> bool,
    B: Fn(Binary32, Binary32, Binary32, Binary32) -> Binary32,
    X: Fn(Binary32, Binary32) -> Binary32,
    R: Fn(Binary32, Binary32, Binary32, Binary32) -> Binary32,
    P: Fn(Binary32, Binary32) -> Binary32,
    N: Fn(Binary32, Binary32) -> Binary32,
    Q: Fn(Binary32, usize) -> Binary32,
    D: Fn(Binary32, Binary32, Binary32) -> Binary32,
>(
    arithmetic: Arithmetic<S, I, A, M, F, E, H, L, B, X, R, P, N, Q, D>,
    string: PluckedString,
    before: PathState<S>,
    outputs: Seq<Binary32>,
    string_after: PluckedString,
    after: PathState<S>,
) -> (run: (Seq<PluckedString>, Seq<PathState<S>>))
    requires
        arithmetic.plays(string, before, outputs, string_after, after),
    ensures
        plays_alone(arithmetic, run.0, run.1, outputs),
        run.0[0] == string,
        run.1[0] == before,
        run.0[outputs.len() as int] == string_after,
        run.1[outputs.len() as int] == after,
    decreases outputs.len(),
{
    if outputs.len() == 0 {
        (seq![string], seq![before])
    } else {
        let (played, state) = choose|played: PluckedString, state: PathState<S>|
            {
                &&& arithmetic.plays(string, before, outputs.drop_last(), played, state)
                &&& #[trigger] arithmetic.sounds_alone(
                    played,
                    state,
                    string_after,
                    after,
                    outputs.last(),
                )
            };
        let (strings, paths) = lemma_plays_alone(
            arithmetic,
            string,
            before,
            outputs.drop_last(),
            played,
            state,
        );
        let run = (strings.push(string_after), paths.push(after));
        assert forall|i: int| 0 <= i < outputs.len() implies arithmetic.sounds_alone(
            run.0[i],
            run.1[i],
            run.0[i + 1],
            run.1[i + 1],
            #[trigger] outputs[i],
        ) by {
            if i < outputs.len() - 1 {
                assert(outputs.drop_last()[i] == outputs[i]);
                assert(arithmetic.sounds_alone(
                    strings[i],
                    paths[i],
                    strings[i + 1],
                    paths[i + 1],
                    outputs.drop_last()[i],
                ));
            }
        }
        run
    }
}

/// A string alone adds every one of its samples to what stands in a buffer, the first
/// and the last alike.
pub proof fn a_string_adds_every_sample<
    S: Copy,
    I: Fn(Binary32, Binary32, Binary32, Binary32, Binary32) -> Binary32,
    A: Fn(Binary32, Binary32, Binary32) -> Binary32,
    M: Fn(Binary32, Binary32, Binary32) -> Binary32,
    F: Fn(Binary32, Binary32, Binary32) -> Binary32,
    E: Fn(Binary32, Binary32, Binary32) -> Binary32,
    H: Fn(S, Binary32, Binary32) -> (S, Binary32),
    L: Fn(S) -> bool,
    B: Fn(Binary32, Binary32, Binary32, Binary32) -> Binary32,
    X: Fn(Binary32, Binary32) -> Binary32,
    R: Fn(Binary32, Binary32, Binary32, Binary32) -> Binary32,
    P: Fn(Binary32, Binary32) -> Binary32,
    N: Fn(Binary32, Binary32) -> Binary32,
    Q: Fn(Binary32, usize) -> Binary32,
    D: Fn(Binary32, Binary32, Binary32) -> Binary32,
>(
    arithmetic: &Arithmetic<S, I, A, M, F, E, H, L, B, X, R, P, N, Q, D>,
    string: PluckedString,
    string_after: PluckedString,
    before: PathState<S>,
    after: PathState<S>,
    held: Seq<Binary32>,
    heard: Seq<Binary32>,
)
    requires
        exists|
            sounding: &mut PluckedString,
            path: &mut Waveguide<S>,
            samples: &mut [Binary32],
        |
            {
                &&& #[trigger] call_ensures(
                    Arithmetic::<S, I, A, M, F, E, H, L, B, X, R, P, N, Q, D>::process_block_add,
                    (arithmetic, sounding, path, samples),
                    (),
                )
                &&& *sounding == string
                &&& *final(sounding) == string_after
                &&& (*path)@ == before
                &&& (*final(path))@ == after
                &&& samples@ == held
                &&& (*final(samples))@ == heard
            },
    ensures
        heard.len() == held.len(),
        exists|strings: Seq<PluckedString>, paths: Seq<PathState<S>>, outputs: Seq<Binary32>|
            {
                &&& #[trigger] plays_alone(*arithmetic, strings, paths, outputs)
                &&& outputs.len() == held.len()
                &&& strings[0] == string
                &&& paths[0] == before
                &&& strings[held.len() as int] == string_after
                &&& paths[held.len() as int] == after
                &&& forall|i: int|
                    0 <= i < held.len() ==> arithmetic.plus.ensures(
                        (held[i], outputs[i]),
                        #[trigger] heard[i],
                    )
            },
{
    let outputs = choose|outputs: Seq<Binary32>|
        {
            &&& #[trigger] arithmetic.plays(string, before, outputs, string_after, after)
            &&& arithmetic.adds_to(held, outputs, heard)
        };
    let (strings, paths) = lemma_plays_alone(
        *arithmetic,
        string,
        before,
        outputs,
        string_after,
        after,
    );
    assert(plays_alone(*arithmetic, strings, paths, outputs));
}

} // verus!

//! What the whole instrument sounds like, block by block.
//!
//! The voices sound one after the other, the lowest key first, and their samples add
//! up. A voice that can make no sound is passed over. Every voice hears the others
//! through the bridge, one block late, so the instrument runs in chunks of one bridge
//! block each: the bridge turns a page, the voices sound, and what they sum to is
//! mixed down.
use crate::binary32::{Binary32, ONE_BITS};
use crate::bridge;
use crate::bridge::BridgeBus;
use crate::engine::{Engine, EngineState, Voice, BRIDGE_BLOCK_SAMPLES};
use crate::mixdown;
use crate::params::KEY_COUNT;
use crate::playing_laws;
use crate::soundboard::{Resonator, ResonatorBank};
use crate::sounding;
use crate::sounding::Arithmetic;
use crate::unison::UnisonGroup;
use crate::waveguide::{PathState, Waveguide};
use vstd::prelude::*;

verus! {

/// The voices, and what their strings hold.
#[verifier::ext_equal]
pub struct Strings<S> {
    /// The voices and the gains.
    pub engine: EngineState,
    /// What the strings of every key hold.
    pub paths: Seq<Seq<PathState<S>>>,
    /// The bridge between them.
    pub bridge: BridgeBus<Binary32>,
}

impl<S> Strings<S> {
    /// The strings at another bridge.
    pub open spec fn at_bridge(self, bridge: BridgeBus<Binary32>) -> Self {
        Strings { bridge, ..self }
    }
}

/// Everything that decides what is heard next.
#[verifier::ext_equal]
pub struct Instrument<S, C> {
    /// The strings.
    pub strings: Strings<S>,
    /// The soundboard.
    pub board: Seq<Resonator<C>>,
}

/// What the strings of every key hold.
pub open spec fn all_states<S: Copy>(paths: Seq<Vec<Waveguide<S>>>) -> Seq<Seq<PathState<S>>> {
    Seq::new(paths.len(), |key: int| sounding::states(paths[key]@))
}

/// There are well-formed paths for every string of every key.
pub open spec fn fits<S: Copy>(engine: EngineState, paths: Seq<Vec<Waveguide<S>>>) -> bool {
    &&& paths.len() == KEY_COUNT
    &&& forall|key: int| 0 <= key < KEY_COUNT ==> sounding::are_wf((#[trigger] paths[key])@)
    &&& forall|key: int|
        0 <= key < KEY_COUNT ==> (engine.voices[key].strings matches Some(group) ==> group.count()
            <= (#[trigger] paths[key])@.len())
}

/// Nobody was counted more than `most` times in the block being filled.
pub open spec fn counts_reach(bus: BridgeBus<Binary32>, most: int) -> bool {
    forall|i: int|
        0 <= i < bus.current().len() ==> (#[trigger] bus.current()[i]).count <= most
}

/// `length` samples of silence.
pub open spec fn silence(length: int) -> Seq<Binary32> {
    Seq::new(length as nat, |i: int| Binary32::from_bits(0))
}

impl<
    S: Copy,
    I: Fn(Binary32, Binary32, Binary32, Binary32, Binary32) -> Binary32,
    A: Fn(Binary32, Binary32, Binary32) -> Binary32,
    M: Fn(Binary32, Binary32, Binary32) -> Binary32,
    F: Fn(Binary32, Binary32, Binary32) -> Binary32,
    E: Fn(Binary32, Binary32, Binary32) -> Binary32,
    H: Fn(S, Binary32, Binary32) -> (S, Binary32),
    L: Fn(S) -> bool,
    B: Fn(Binary32, Binary32, Binary32, Binary32) -> Binary32,
    X: Fn(Binary32, Binary32) -> Binary32,
    R: Fn(Binary32, Binary32, Binary32, Binary32) -> Binary32,
    P: Fn(Binary32, Binary32) -> Binary32,
    N: Fn(Binary32, Binary32) -> Binary32,
    Q: Fn(Binary32, usize) -> Binary32,
    D: Fn(Binary32, Binary32, Binary32) -> Binary32,
> Arithmetic<S, I, A, M, F, E, H, L, B, X, R, P, N, Q, D> {
    /// Key `key` adds a chunk of samples to `sums`; nothing where it can be passed
    /// over.
    pub open spec fn key_sounds(
        &self,
        before: Strings<S>,
        sums: Seq<Binary32>,
        key: int,
        after: Strings<S>,
        sums_after: Seq<Binary32>,
    ) -> bool {
        let voice = before.engine.voices[key];
        if voice.inert() {
            after == before && sums_after == sums
        } else {
            exists|group: UnisonGroup, states: Seq<PathState<S>>, outputs: Seq<Binary32>|
                {
                    &&& #[trigger] self.voice_plays(
                        voice.strings->0,
                        before.paths[key],
                        before.bridge,
                        outputs,
                        group,
                        states,
                        after.bridge,
                    )
                    &&& self.adds_to(sums, outputs, sums_after)
                    &&& after == Strings {
                        engine: EngineState {
                            voices: before.engine.voices.update(
                                key,
                                Voice { strings: Some(group), ..voice },
                            ),
                            ..before.engine
                        },
                        paths: before.paths.update(key, states),
                        bridge: after.bridge,
                        ..before
                    }
                }
        }
    }

    /// The first `keys` keys add a chunk of samples to `sums`, one after the other.
    pub open spec fn keys_sound(
        &self,
        before: Strings<S>,
        sums: Seq<Binary32>,
        keys: int,
        after: Strings<S>,
        sums_after: Seq<Binary32>,
    ) -> bool
        decreases keys,
    {
        if keys <= 0 {
            after == before && sums_after == sums
        } else {
            exists|reached: Strings<S>, reached_sums: Seq<Binary32>|
                {
                    &&& self.keys_sound(before, sums, keys - 1, reached, reached_sums)
                    &&& #[trigger] self.key_sounds(
                        reached,
                        reached_sums,
                        keys - 1,
                        after,
                        sums_after,
                    )
                }
        }
    }

    /// `heard` is what one chunk of the instrument sounds like.
    pub open spec fn chunk_sounds<
        C: Copy,
        G: Fn(C, Binary32, Binary32, Binary32) -> Binary32,
        K: Fn(Binary32, Binary32) -> Binary32,
    >(
        &self,
        ring: G,
        saturate: K,
        before: Instrument<S, C>,
        heard: Seq<Binary32>,
        after: Instrument<S, C>,
    ) -> bool {
        exists|begun: BridgeBus<Binary32>, sums: Seq<Binary32>|
            {
                &&& #[trigger] bridge::is_begun(before.strings.bridge, begun)
                &&& #[trigger] self.keys_sound(
                    before.strings.at_bridge(begun),
                    silence(heard.len() as int),
                    KEY_COUNT as int,
                    after.strings,
                    sums,
                )
                &&& mixdown::is_run_mixed_down(
                    sums,
                    before.board,
                    after.strings.engine.soundboard_mix_gain,
                    after.strings.engine.master_gain,
                    ring,
                    self.plus,
                    self.times,
                    saturate,
                    after.board,
                    heard,
                )
            }
    }

    /// `heard` is what the instrument sounds like, in chunks of one bridge block each,
    /// the last one as long as is left.
    pub open spec fn block_sounds<
        C: Copy,
        G: Fn(C, Binary32, Binary32, Binary32) -> Binary32,
        K: Fn(Binary32, Binary32) -> Binary32,
    >(
        &self,
        ring: G,
        saturate: K,
        before: Instrument<S, C>,
        heard: Seq<Binary32>,
        after: Instrument<S, C>,
    ) -> bool
        decreases heard.len(),
    {
        if heard.len() == 0 {
            after == before
        } else if heard.len() <= BRIDGE_BLOCK_SAMPLES {
            self.chunk_sounds(ring, saturate, before, heard, after)
        } else {
            exists|reached: Instrument<S, C>|
                {
                    &&& #[trigger] self.chunk_sounds(
                        ring,
                        saturate,
                        before,
                        heard.take(BRIDGE_BLOCK_SAMPLES as int),
                        reached,
                    )
                    &&& self.block_sounds(
                        ring,
                        saturate,
                        reached,
                        heard.skip(BRIDGE_BLOCK_SAMPLES as int),
                        after,
                    )
                }
        }
    }

    /// One key more.
    proof fn lemma_next_key(
        &self,
        before: Strings<S>,
        sums: Seq<Binary32>,
        key: int,
        reached: Strings<S>,
        reached_sums: Seq<Binary32>,
        after: Strings<S>,
        sums_after: Seq<Binary32>,
    )
        requires
            key >= 0,
            self.keys_sound(before, sums, key, reached, reached_sums),
            self.key_sounds(reached, reached_sums, key, after, sums_after),
        ensures
            self.keys_sound(before, sums, key + 1, after, sums_after),
    {
        let keys = key + 1;
        assert(self.key_sounds(reached, reached_sums, keys - 1, after, sums_after));
    }

    /// Plays a note through the samples of `output` from `from` up to `to`, and adds
    /// it to what they hold.
    fn play_voice(
        &self,
        group: &mut UnisonGroup,
        paths: &mut Vec<Waveguide<S>>,
        bridge: &mut BridgeBus<Binary32>,
        output: &mut [Binary32],
        from: usize,
        to: usize,
    )
        requires
            self.takes_anything(),
            old(group).wf(),
            old(group).count() <= old(paths)@.len(),
            sounding::are_wf(old(paths)@),
            old(bridge).wf(),
            counts_reach(*old(bridge), u32::MAX - 1),
            from <= to <= old(output)@.len(),
        ensures
            final(group).wf(),
            final(group).count() == old(group).count(),
            final(paths)@.len() == old(paths)@.len(),
            sounding::are_wf(final(paths)@),
            final(bridge).wf(),
            forall|most: int|
                counts_reach(*old(bridge), most) ==> #[trigger] counts_reach(
                    *final(bridge),
                    most + 1,
                ),
            final(output)@.len() == old(output)@.len(),
            forall|i: int|
                0 <= i < final(output)@.len() && !(from <= i < to) ==> #[trigger] final(output)@[i]
                    == old(output)@[i],
            exists|outputs: Seq<Binary32>|
                {
                    &&& #[trigger] self.voice_plays(
                        *old(group),
                        sounding::states(old(paths)@),
                        *old(bridge),
                        outputs,
                        *final(group),
                        sounding::states(final(paths)@),
                        *final(bridge),
                    )
                    &&& self.adds_to(
                        old(output)@.subrange(from as int, to as int),
                        outputs,
                        final(output)@.subrange(from as int, to as int),
                    )
                },
    {
        let mut index: usize = 0;
        let ghost mut outputs: Seq<Binary32> = Seq::empty();
        while index < to - from
            invariant
                self.takes_anything(),
                group.wf(),
                group.count() == old(group).count() <= paths@.len(),
                paths@.len() == old(paths)@.len(),
                sounding::are_wf(paths@),
                bridge.wf(),
                bridge.current().len() == old(bridge).current().len(),
                counts_reach(*old(bridge), u32::MAX - 1),
                forall|i: int|
                    0 <= i < bridge.current().len() ==> (#[trigger] bridge.current()[i]).count
                        == old(bridge).current()[i].count + if i < index {
                        1int
                    } else {
                        0
                    },
                from <= to <= output@.len(),
                output@.len() == old(output)@.len(),
                index <= to - from,
                outputs.len() == index,
                forall|i: int|
                    0 <= i < output@.len() && !(from <= i < from + index)
                        ==> #[trigger] output@[i] == old(output)@[i],
                forall|i: int|
                    0 <= i < index ==> self.plus.ensures(
                        (old(output)@[from + i], outputs[i]),
                        output@.subrange(from as int, to as int)[i],
                    ),
                self.voice_plays(
                    *old(group),
                    sounding::states(old(paths)@),
                    *old(bridge),
                    outputs,
                    *group,
                    sounding::states(paths@),
                    *bridge,
                ),
            decreases to - from - index,
        {
            let ghost before = (*group, sounding::states(paths@), *bridge);
            let sounded = self.sound_note_with_bridge(group, paths, bridge, index);
            let place = from + index;
            let plus = &self.plus;
            let sum = plus(output[place], sounded);
            let ghost earlier = output@;
            output[place] = sum;
            proof {
                let longer = outputs.push(sounded);
                assert(longer.drop_last() =~= outputs);
                assert(self.note_sounds_with_bridge(
                    before.0,
                    before.1,
                    before.2,
                    (longer.len() - 1) as usize,
                    *group,
                    sounding::states(paths@),
                    *bridge,
                    longer.last(),
                ));
                assert forall|i: int| 0 <= i < index + 1 implies self.plus.ensures(
                    (old(output)@[from + i], longer[i]),
                    output@.subrange(from as int, to as int)[i],
                ) by {
                    if i < index {
                        assert(output@.subrange(from as int, to as int)[i] == earlier.subrange(
                            from as int,
                            to as int,
                        )[i]);
                        assert(longer[i] == outputs[i]);
                    } else {
                        assert(earlier[from + i] == old(output)@[from + i]);
                    }
                }
                outputs = longer;
            }
            index = index + 1;
        }
        assert(self.adds_to(
            old(output)@.subrange(from as int, to as int),
            outputs,
            output@.subrange(from as int, to as int),
        ));
    }

    /// Where a block is cut does not matter, as long as it is between two chunks: the
    /// two parts, one rendered after the other, sound like the whole.
    pub proof fn blocks_join<
        C: Copy,
        G: Fn(C, Binary32, Binary32, Binary32) -> Binary32,
        K: Fn(Binary32, Binary32) -> Binary32,
    >(
        &self,
        ring: G,
        saturate: K,
        before: Instrument<S, C>,
        first: Seq<Binary32>,
        reached: Instrument<S, C>,
        second: Seq<Binary32>,
        after: Instrument<S, C>,
    )
        requires
            first.len() % BRIDGE_BLOCK_SAMPLES as nat == 0,
            self.block_sounds(ring, saturate, before, first, reached),
            self.block_sounds(ring, saturate, reached, second, after),
        ensures
            self.block_sounds(ring, saturate, before, first + second, after),
        decreases first.len(),
    {
        let chunk = BRIDGE_BLOCK_SAMPLES as int;
        let whole = first + second;
        if first.len() == 0 {
            assert(whole =~= second);
        } else if second.len() == 0 {
            assert(whole =~= first);
        } else {
            assert(first.len() >= chunk);
            assert(whole.take(chunk) =~= first.take(chunk));
            if first.len() == chunk {
                assert(first.take(chunk) =~= first);
                assert(whole.skip(chunk) =~= second);
            } else {
                let next = choose|next: Instrument<S, C>|
                    {
                        &&& #[trigger] self.chunk_sounds(
                            ring,
                            saturate,
                            before,
                            first.take(chunk),
                            next,
                        )
                        &&& self.block_sounds(ring, saturate, next, first.skip(chunk), reached)
                    };
                self.blocks_join(ring, saturate, next, first.skip(chunk), reached, second, after);
                assert(whole.skip(chunk) =~= first.skip(chunk) + second);
            }
        }
    }

    /// Whatever a block sounds like, its parts between two chunks sound like it: there
    /// is a state of the instrument in between that the first part leads to and the
    /// second part begins with.
    pub proof fn blocks_split<
        C: Copy,
        G: Fn(C, Binary32, Binary32, Binary32) -> Binary32,
        K: Fn(Binary32, Binary32) -> Binary32,
    >(
        &self,
        ring: G,
        saturate: K,
        before: Instrument<S, C>,
        first: Seq<Binary32>,
        second: Seq<Binary32>,
        after: Instrument<S, C>,
    ) -> (reached: Instrument<S, C>)
        requires
            first.len() % BRIDGE_BLOCK_SAMPLES as nat == 0,
            self.block_sounds(ring, saturate, before, first + second, after),
        ensures
            self.block_sounds(ring, saturate, before, first, reached),
            self.block_sounds(ring, saturate, reached, second, after),
        decreases first.len(),
    {
        let chunk = BRIDGE_BLOCK_SAMPLES as int;
        let whole = first + second;
        if first.len() == 0 {
            assert(whole =~= second);
            before
        } else if second.len() == 0 {
            assert(whole =~= first);
            after
        } else {
            assert(first.len() >= chunk);
            let next = choose|next: Instrument<S, C>|
                {
                    &&& #[trigger] self.chunk_sounds(
                        ring,
                        saturate,
                        before,
                        whole.take(chunk),
                        next,
                    )
                    &&& self.block_sounds(ring, saturate, next, whole.skip(chunk), after)
                };
            assert(whole.take(chunk) =~= first.take(chunk));
            if first.len() == chunk {
                assert(first.take(chunk) =~= first);
                assert(whole.skip(chunk) =~= second);
                next
            } else {
                assert(whole.skip(chunk) =~= first.skip(chunk) + second);
                self.blocks_split(ring, saturate, next, first.skip(chunk), second, after)
            }
        }
    }
}

/// The strings of an engine.
pub open spec fn strings<S: Copy>(
    engine: Engine,
    paths: Seq<Vec<Waveguide<S>>>,
    bridge: BridgeBus<Binary32>,
) -> Strings<S> {
    Strings { engine: engine@, paths: all_states(paths), bridge }
}

/// The instrument that an engine, its strings, its bridge and its board make up.
pub open spec fn instrument<S: Copy, C: Copy>(
    engine: Engine,
    paths: Seq<Vec<Waveguide<S>>>,
    bridge: BridgeBus<Binary32>,
    board: ResonatorBank<C>,
) -> Instrument<S, C> {
    Instrument { strings: strings(engine, paths, bridge), board: board@ }
}

impl Engine {
    /// Adds what every sounding voice plays to the samples of `output` from `from` up
    /// to `to`.
    fn play_voices<
        S: Copy,
        I: Fn(Binary32, Binary32, Binary32, Binary32, Binary32) -> Binary32,
        A: Fn(Binary32, Binary32, Binary32) -> Binary32,
        M: Fn(Binary32, Binary32, Binary32) -> Binary32,
        F: Fn(Binary32, Binary32, Binary32) -> Binary32,
        E: Fn(Binary32, Binary32, Binary32) -> Binary32,
        H: Fn(S, Binary32, Binary32) -> (S, Binary32),
        L: Fn(S) -> bool,
        B: Fn(Binary32, Binary32, Binary32, Binary32) -> Binary32,
        X: Fn(Binary32, Binary32) -> Binary32,
        R: Fn(Binary32, Binary32, Binary32, Binary32) -> Binary32,
        P: Fn(Binary32, Binary32) -> Binary32,
        N: Fn(Binary32, Binary32) -> Binary32,
        Q: Fn(Binary32, usize) -> Binary32,
        D: Fn(Binary32, Binary32, Binary32) -> Binary32,
    >(
        &mut self,
        output: &mut [Binary32],
        from: usize,
        to: usize,
        paths: &mut Vec<Vec<Waveguide<S>>>,
        bridge: &mut BridgeBus<Binary32>,
        arithmetic: &Arithmetic<S, I, A, M, F, E, H, L, B, X, R, P, N, Q, D>,
    )
        requires
            from <= to <= old(output)@.len(),
            arithmetic.takes_anything(),
            old(self).wf(),
            fits(old(self)@, old(paths)@),
            old(bridge).wf(),
            counts_reach(*old(bridge), 0),
        ensures
            final(self).wf(),
            fits(final(self)@, final(paths)@),
            final(bridge).wf(),
            final(output)@.len() == old(output)@.len(),
            forall|i: int|
                0 <= i < final(output)@.len() && !(from <= i < to) ==> #[trigger] final(output)@[i]
                    == old(output)@[i],
            arithmetic.keys_sound(
                strings(*old(self), old(paths)@, *old(bridge)),
                old(output)@.subrange(from as int, to as int),
                KEY_COUNT as int,
                strings(*final(self), final(paths)@, *final(bridge)),
                final(output)@.subrange(from as int, to as int),
            ),
    {
        let mut key: usize = 0;
        while key < KEY_COUNT
            invariant
                from <= to <= output@.len(),
                output@.len() == old(output)@.len(),
                arithmetic.takes_anything(),
                self.wf(),
                fits(self@, paths@),
                bridge.wf(),
                key <= KEY_COUNT,
                counts_reach(*bridge, key as int),
                forall|i: int|
                    0 <= i < output@.len() && !(from <= i < to) ==> #[trigger] output@[i] == old(
                        output,
                    )@[i],
                arithmetic.keys_sound(
                    strings(*old(self), old(paths)@, *old(bridge)),
                    old(output)@.subrange(from as int, to as int),
                    key as int,
                    strings(*self, paths@, *bridge),
                    output@.subrange(from as int, to as int),
                ),
            decreases KEY_COUNT - key,
        {
            let ghost before = strings(*self, paths@, *bridge);
            let ghost sums = output@.subrange(from as int, to as int);
            let ghost earlier = paths@;
            proof {
                self.keeps_a_wf_state();
            }
            if !self.is_inert(key) {
                if let Some(mut group) = self.group(key) {
                    assert(sounding::are_wf(paths@[key as int]@));
                    arithmetic.play_voice(&mut group, &mut paths[key], bridge, output, from, to);
                    self.put_group(key, group);
                    proof {
                        let after = strings(*self, paths@, *bridge);
                        assert(after.paths =~= before.paths.update(
                            key as int,
                            sounding::states(paths@[key as int]@),
                        ));
                        assert(after.engine.voices =~= before.engine.voices.update(
                            key as int,
                            Voice { strings: Some(group), ..before.engine.voices[key as int] },
                        ));
                        assert forall|other: int| 0 <= other < KEY_COUNT implies {
                            &&& sounding::are_wf((#[trigger] paths@[other])@)
                            &&& self@.voices[other].strings matches Some(g) ==> g.count()
                                <= paths@[other]@.len()
                        } by {
                            if other != key {
                                assert(paths@[other] == earlier[other]);
                            }
                        }
                        assert(counts_reach(*bridge, key + 1));
                        let outputs = choose|outputs: Seq<Binary32>|
                            {
                                &&& #[trigger] arithmetic.voice_plays(
                                    before.engine.voices[key as int].strings->0,
                                    before.paths[key as int],
                                    before.bridge,
                                    outputs,
                                    group,
                                    sounding::states(paths@[key as int]@),
                                    after.bridge,
                                )
                                &&& arithmetic.adds_to(
                                    sums,
                                    outputs,
                                    output@.subrange(from as int, to as int),
                                )
                            };
                        assert(arithmetic.voice_plays(
                            before.engine.voices[key as int].strings->0,
                            before.paths[key as int],
                            before.bridge,
                            outputs,
                            group,
                            sounding::states(paths@[key as int]@),
                            after.bridge,
                        ));
                    }
                }
            }
            proof {
                arithmetic.lemma_next_key(
                    strings(*old(self), old(paths)@, *old(bridge)),
                    old(output)@.subrange(from as int, to as int),
                    key as int,
                    before,
                    sums,
                    strings(*self, paths@, *bridge),
                    output@.subrange(from as int, to as int),
                );
            }
            key = key + 1;
        }
    }

    /// Renders one chunk, the samples of `output` from `from` up to `to`, in place of
    /// what they held.
    fn process_chunk<
        S: Copy,
        I: Fn(Binary32, Binary32, Binary32, Binary32, Binary32) -> Binary32,
        A: Fn(Binary32, Binary32, Binary32) -> Binary32,
        M: Fn(Binary32, Binary32, Binary32) -> Binary32,
        F: Fn(Binary32, Binary32, Binary32) -> Binary32,
        E: Fn(Binary32, Binary32, Binary32) -> Binary32,
        H: Fn(S, Binary32, Binary32) -> (S, Binary32),
        L: Fn(S) -> bool,
        B: Fn(Binary32, Binary32, Binary32, Binary32) -> Binary32,
        X: Fn(Binary32, Binary32) -> Binary32,
        R: Fn(Binary32, Binary32, Binary32, Binary32) -> Binary32,
        P: Fn(Binary32, Binary32) -> Binary32,
        N: Fn(Binary32, Binary32) -> Binary32,
        Q: Fn(Binary32, usize) -> Binary32,
        D: Fn(Binary32, Binary32, Binary32) -> Binary32,
        C: Copy,
        G: Fn(C, Binary32, Binary32, Binary32) -> Binary32,
        K: Fn(Binary32, Binary32) -> Binary32,
    >(
        &mut self,
        output: &mut [Binary32],
        from: usize,
        to: usize,
        paths: &mut Vec<Vec<Waveguide<S>>>,
        bridge: &mut BridgeBus<Binary32>,
        board: &mut ResonatorBank<C>,
        arithmetic: &Arithmetic<S, I, A, M, F, E, H, L, B, X, R, P, N, Q, D>,
        ring: &G,
        saturate: &K,
    )
        requires
            from <= to <= old(output)@.len(),
            arithmetic.takes_anything(),
            forall|c: C, one: Binary32, two: Binary32, drive: Binary32|
                ring.requires((c, one, two, drive)),
            forall|a: Binary32, b: Binary32| saturate.requires((a, b)),
            old(self).wf(),
            fits(old(self)@, old(paths)@),
            old(bridge).wf(),
        ensures
            final(self).wf(),
            fits(final(self)@, final(paths)@),
            final(bridge).wf(),
            final(output)@.len() == old(output)@.len(),
            forall|i: int|
                0 <= i < final(output)@.len() && !(from <= i < to) ==> #[trigger] final(output)@[i]
                    == old(output)@[i],
            forall|i: int|
                from <= i < to ==> (#[trigger] final(output)@[i]).finite()
                    && final(output)@[i].magnitude() <= ONE_BITS,
            arithmetic.chunk_sounds(
                *ring,
                *saturate,
                instrument(*old(self), old(paths)@, *old(bridge), *old(board)),
                final(output)@.subrange(from as int, to as int),
                instrument(*final(self), final(paths)@, *final(bridge), *final(board)),
            ),
    {
        let mut index: usize = from;
        while index < to
            invariant
                from <= index <= to <= output@.len(),
                output@.len() == old(output)@.len(),
                forall|i: int|
                    0 <= i < output@.len() ==> #[trigger] output@[i] == if from <= i < index {
                        Binary32::from_bits(0)
                    } else {
                        old(output)@[i]
                    },
            decreases to - index,
        {
            output[index] = Binary32::from_bits(0);
            index = index + 1;
        }
        assert(output@.subrange(from as int, to as int) =~= silence(to - from));
        bridge.begin_block();
        let ghost begun = *bridge;
        self.play_voices(output, from, to, paths, bridge, arithmetic);
        let ghost sums = output@.subrange(from as int, to as int);
        self.mix_down(
            output,
            from,
            to,
            board,
            ring,
            &arithmetic.plus,
            &arithmetic.times,
            saturate,
        );
        proof {
            let before = instrument(*old(self), old(paths)@, *old(bridge), *old(board));
            let after = instrument(*self, paths@, *bridge, *board);
            let heard = output@.subrange(from as int, to as int);
            assert(bridge::is_begun(before.strings.bridge, begun));
            assert(arithmetic.keys_sound(
                before.strings.at_bridge(begun),
                silence(heard.len() as int),
                KEY_COUNT as int,
                after.strings,
                sums,
            ));
            assert(mixdown::is_run_mixed_down(
                sums,
                before.board,
                after.strings.engine.soundboard_mix_gain,
                after.strings.engine.master_gain,
                *ring,
                arithmetic.plus,
                arithmetic.times,
                *saturate,
                after.board,
                heard,
            ));
            assert(arithmetic.chunk_sounds(*ring, *saturate, before, heard, after));
        }
    }

    /// Renders `output.len()` samples in place of what `output` held. No setting changes
    /// on the way.
    pub fn process_block<
        S: Copy,
        I: Fn(Binary32, Binary32, Binary32, Binary32, Binary32) -> Binary32,
        A: Fn(Binary32, Binary32, Binary32) -> Binary32,
        M: Fn(Binary32, Binary32, Binary32) -> Binary32,
        F: Fn(Binary32, Binary32, Binary32) -> Binary32,
        E: Fn(Binary32, Binary32, Binary32) -> Binary32,
        H: Fn(S, Binary32, Binary32) -> (S, Binary32),
        L: Fn(S) -> bool,
        B: Fn(Binary32, Binary32, Binary32, Binary32) -> Binary32,
        X: Fn(Binary32, Binary32) -> Binary32,
        R: Fn(Binary32, Binary32, Binary32, Binary32) -> Binary32,
        P: Fn(Binary32, Binary32) -> Binary32,
        N: Fn(Binary32, Binary32) -> Binary32,
        Q: Fn(Binary32, usize) -> Binary32,
        D: Fn(Binary32, Binary32, Binary32) -> Binary32,
        C: Copy,
        G: Fn(C, Binary32, Binary32, Binary32) -> Binary32,
        K: Fn(Binary32, Binary32) -> Binary32,
    >(
        &mut self,
        output: &mut [Binary32],
        paths: &mut Vec<Vec<Waveguide<S>>>,
        bridge: &mut BridgeBus<Binary32>,
        board: &mut ResonatorBank<C>,
        arithmetic: &Arithmetic<S, I, A, M, F, E, H, L, B, X, R, P, N, Q, D>,
        ring: &G,
        saturate: &K,
    )
        requires
            arithmetic.takes_anything(),
            forall|c: C, one: Binary32, two: Binary32, drive: Binary32|
                ring.requires((c, one, two, drive)),
            forall|a: Binary32, b: Binary32| saturate.requires((a, b)),
            old(self).wf(),
            fits(old(self)@, old(paths)@),
            old(bridge).wf(),
        ensures
            final(self).wf(),
            fits(final(self)@, final(paths)@),
            final(bridge).wf(),
            final(output)@.len() == old(output)@.len(),
            forall|i: int|
                0 <= i < final(output)@.len() ==> (#[trigger] final(output)@[i]).finite()
                    && final(output)@[i].magnitude() <= ONE_BITS,
            arithmetic.block_sounds(
                *ring,
                *saturate,
                instrument(*old(self), old(paths)@, *old(bridge), *old(board)),
                final(output)@,
                instrument(*final(self), final(paths)@, *final(bridge), *final(board)),
            ),            playing_laws::all_are_kept(
                strings(*old(self), old(paths)@, *old(bridge)),
                strings(*final(self), final(paths)@, *final(bridge)),
            ),
    {
        let length = output.len();
        let mut from: usize = 0;
        assert(output@.take(0) =~= Seq::empty());
        while from < length
            invariant
                arithmetic.takes_anything(),
                forall|c: C, one: Binary32, two: Binary32, drive: Binary32|
                    ring.requires((c, one, two, drive)),
                forall|a: Binary32, b: Binary32| saturate.requires((a, b)),
                self.wf(),
                fits(self@, paths@),
                bridge.wf(),
                length == output@.len() == old(output)@.len(),
                from <= length,
                from < length ==> from % BRIDGE_BLOCK_SAMPLES == 0,
                forall|i: int|
                    0 <= i < from ==> (#[trigger] output@[i]).finite() && output@[i].magnitude()
                        <= ONE_BITS,
                arithmetic.block_sounds(
                    *ring,
                    *saturate,
                    instrument(*old(self), old(paths)@, *old(bridge), *old(board)),
                    output@.take(from as int),
                    instrument(*self, paths@, *bridge, *board),
                ),
            decreases length - from,
        {
            let to = if length - from > BRIDGE_BLOCK_SAMPLES {
                from + BRIDGE_BLOCK_SAMPLES
            } else {
                length
            };
            let ghost played = output@.take(from as int);
            let ghost reached = instrument(*self, paths@, *bridge, *board);
            self.process_chunk(output, from, to, paths, bridge, board, arithmetic, ring, saturate);
            proof {
                let heard = output@.subrange(from as int, to as int);
                assert(output@.take(from as int) =~= played);
                arithmetic.blocks_join(
                    *ring,
                    *saturate,
                    instrument(*old(self), old(paths)@, *old(bridge), *old(board)),
                    played,
                    reached,
                    heard,
                    instrument(*self, paths@, *bridge, *board),
                );
                assert(output@.take(to as int) =~= played + heard);
            }
            from = to;
        }
        assert(output@.take(length as int) =~= output@);
        proof {
            playing_laws::fitting_strings_can_play_on(*old(self), old(paths)@, *old(bridge));
            arithmetic.playing_changes_no_setting(
                *ring,
                *saturate,
                instrument(*old(self), old(paths)@, *old(bridge), *old(board)),
                output@,
                instrument(*self, paths@, *bridge, *board),
            );
        }
    }
}

} // verus!

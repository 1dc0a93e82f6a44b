//! The end of the signal path: what the voices sum to becomes what is heard.
//!
//! The sum drives the soundboard, what the board radiates is mixed to it, the
//! master gain scales the two together, and the limiter keeps the result in range.
use crate::binary32::{Binary32, ONE_BITS};
use crate::engine::Engine;
use crate::limiter::{soft_limit, OUTPUT_LIMITER_THRESHOLD_BITS};
use crate::soundboard::{Resonator, ResonatorBank};
use vstd::prelude::*;

verus! {

/// `heard` is what comes of one sample of the voices, `dry`, and what the board
/// radiates of it.
pub open spec fn is_mixed_down<
    P: Fn(Binary32, Binary32) -> Binary32,
    T: Fn(Binary32, Binary32) -> Binary32,
    S: Fn(Binary32, Binary32) -> Binary32,
>(
    dry: Binary32,
    radiated: Binary32,
    mix_gain: Binary32,
    master_gain: Binary32,
    plus: P,
    times: T,
    saturate: S,
    heard: Binary32,
) -> bool {
    exists|wet: Binary32, mixed: Binary32, scaled: Binary32|
        {
            &&& #[trigger] times.ensures((mix_gain, radiated), wet)
            &&& #[trigger] plus.ensures((dry, wet), mixed)
            &&& #[trigger] times.ensures((mixed, master_gain), scaled)
            &&& crate::limiter::is_limited(
                scaled,
                Binary32::from_bits(OUTPUT_LIMITER_THRESHOLD_BITS),
                saturate,
                heard,
            )
        }
}

/// `boards` are the states of the soundboard's resonators before each sample of
/// `dry` and after the last one, and `radiated` is what the board gives for each.
pub open spec fn are_radiated<
    C,
    R: Fn(C, Binary32, Binary32, Binary32) -> Binary32,
    P: Fn(Binary32, Binary32) -> Binary32,
>(
    dry: Seq<Binary32>,
    boards: Seq<Seq<Resonator<C>>>,
    radiated: Seq<Binary32>,
    ring: R,
    plus: P,
) -> bool {
    &&& boards.len() == radiated.len() + 1
    &&& radiated.len() <= dry.len()
    &&& forall|i: int|
        0 <= i < radiated.len() ==> crate::soundboard::is_radiated(
            boards[i],
            dry[i],
            boards[i + 1],
            ring,
            plus,
            #[trigger] radiated[i],
        )
}

/// `heard` is what comes of `dry`, a run of what the voices sum to, and of what the
/// board radiates of it, which takes the board's resonators from `board` to
/// `board_after`.
pub open spec fn is_run_mixed_down<
    C,
    R: Fn(C, Binary32, Binary32, Binary32) -> Binary32,
    P: Fn(Binary32, Binary32) -> Binary32,
    T: Fn(Binary32, Binary32) -> Binary32,
    S: Fn(Binary32, Binary32) -> Binary32,
>(
    dry: Seq<Binary32>,
    board: Seq<Resonator<C>>,
    mix_gain: Binary32,
    master_gain: Binary32,
    ring: R,
    plus: P,
    times: T,
    saturate: S,
    board_after: Seq<Resonator<C>>,
    heard: Seq<Binary32>,
) -> bool {
    &&& heard.len() == dry.len()
    &&& exists|boards: Seq<Seq<Resonator<C>>>, radiated: Seq<Binary32>|
        {
            &&& #[trigger] are_radiated(dry, boards, radiated, ring, plus)
            &&& radiated.len() == dry.len()
            &&& boards[0] == board
            &&& boards.last() == board_after
            &&& forall|i: int|
                0 <= i < dry.len() ==> is_mixed_down(
                    dry[i],
                    radiated[i],
                    mix_gain,
                    master_gain,
                    plus,
                    times,
                    saturate,
                    #[trigger] heard[i],
                )
        }
}

impl Engine {
    /// Turns what the voices sum to into what is heard, in the samples of `block`
    /// from `from` up to `to`.
    pub fn mix_down<
        C: Copy,
        R: Fn(C, Binary32, Binary32, Binary32) -> Binary32,
        P: Fn(Binary32, Binary32) -> Binary32,
        T: Fn(Binary32, Binary32) -> Binary32,
        S: Fn(Binary32, Binary32) -> Binary32,
    >(
        &self,
        block: &mut [Binary32],
        from: usize,
        to: usize,
        board: &mut ResonatorBank<C>,
        ring: &R,
        plus: &P,
        times: &T,
        saturate: &S,
    )
        requires
            from <= to <= old(block)@.len(),
            forall|c: C, one: Binary32, two: Binary32, drive: Binary32|
                ring.requires((c, one, two, drive)),
            forall|a: Binary32, b: Binary32| plus.requires((a, b)),
            forall|a: Binary32, b: Binary32| times.requires((a, b)),
            forall|a: Binary32, b: Binary32| saturate.requires((a, b)),
        ensures
            final(block)@.len() == old(block)@.len(),
            forall|i: int|
                0 <= i < final(block)@.len() && !(from <= i < to) ==> #[trigger] final(block)@[i]
                    == old(block)@[i],
            forall|i: int|
                from <= i < to ==> (#[trigger] final(block)@[i]).finite()
                    && final(block)@[i].magnitude() <= ONE_BITS,
            is_run_mixed_down(
                old(block)@.subrange(from as int, to as int),
                old(board)@,
                self@.soundboard_mix_gain,
                self@.master_gain,
                *ring,
                *plus,
                *times,
                *saturate,
                final(board)@,
                final(block)@.subrange(from as int, to as int),
            ),
    {
        let mix_gain = self.soundboard_mix_gain();
        let master_gain = self.master_gain();
        let mut index: usize = from;
        let ghost sums = block@.subrange(from as int, to as int);
        let ghost mut boards: Seq<Seq<Resonator<C>>> = seq![board@];
        let ghost mut radiated: Seq<Binary32> = Seq::empty();
        let ghost mut given_out: Seq<Binary32> = Seq::empty();
        while index < to
            invariant
                forall|c: C, one: Binary32, two: Binary32, drive: Binary32|
                    ring.requires((c, one, two, drive)),
                forall|a: Binary32, b: Binary32| plus.requires((a, b)),
                forall|a: Binary32, b: Binary32| times.requires((a, b)),
                forall|a: Binary32, b: Binary32| saturate.requires((a, b)),
                block@.len() == old(block)@.len(),
                from <= index <= to <= block@.len(),
                sums == old(block)@.subrange(from as int, to as int),
                radiated.len() == index - from,
                given_out == block@.subrange(from as int, index as int),
                are_radiated(sums, boards, radiated, *ring, *plus),
                boards[0] == old(board)@,
                boards.last() == board@,
                forall|i: int|
                    from <= i < index ==> (#[trigger] block@[i]).finite() && block@[i].magnitude()
                        <= ONE_BITS,
                forall|i: int|
                    0 <= i < given_out.len() ==> is_mixed_down(
                        sums[i],
                        radiated[i],
                        mix_gain,
                        master_gain,
                        *plus,
                        *times,
                        *saturate,
                        #[trigger] given_out[i],
                    ),
                forall|i: int|
                    0 <= i < block@.len() && !(from <= i < index) ==> #[trigger] block@[i] == old(
                        block,
                    )@[i],
            decreases to - index,
        {
            let dry = block[index];
            let given = board.process(dry, ring, plus);
            let wet = times(mix_gain, given);
            let mixed = plus(dry, wet);
            let scaled = times(mixed, master_gain);
            let heard = soft_limit(
                scaled,
                Binary32::from_bits(OUTPUT_LIMITER_THRESHOLD_BITS),
                saturate,
            );
            assert(is_mixed_down(
                dry,
                given,
                mix_gain,
                master_gain,
                *plus,
                *times,
                *saturate,
                heard,
            )) by {
                assert(times.ensures((mix_gain, given), wet));
                assert(plus.ensures((dry, wet), mixed));
                assert(times.ensures((mixed, master_gain), scaled));
            }
            block[index] = heard;
            proof {
                let place = (index - from) as int;
                assert(sums[place] == dry);
                let longer = radiated.push(given);
                let states = boards.push(board@);
                assert forall|i: int| 0 <= i < longer.len() implies crate::soundboard::is_radiated(
                    states[i],
                    sums[i],
                    states[i + 1],
                    *ring,
                    *plus,
                    #[trigger] longer[i],
                ) by {
                    if i < place {
                        assert(longer[i] == radiated[i]);
                    }
                }
                let out = given_out.push(heard);
                assert forall|i: int| 0 <= i < out.len() implies is_mixed_down(
                    sums[i],
                    longer[i],
                    mix_gain,
                    master_gain,
                    *plus,
                    *times,
                    *saturate,
                    #[trigger] out[i],
                ) by {
                    if i < place {
                        assert(out[i] == given_out[i]);
                    }
                }
                assert(out =~= block@.subrange(from as int, index + 1));
                radiated = longer;
                boards = states;
                given_out = out;
            }
            index = index + 1;
        }
    }
}

/// What is heard never leaves full scale, whatever the voices sum to and whatever the
/// gains are.
pub proof fn output_stays_in_scale<
    P: Fn(Binary32, Binary32) -> Binary32,
    T: Fn(Binary32, Binary32) -> Binary32,
    S: Fn(Binary32, Binary32) -> Binary32,
>(
    dry: Binary32,
    radiated: Binary32,
    mix_gain: Binary32,
    master_gain: Binary32,
    plus: P,
    times: T,
    saturate: S,
    heard: Binary32,
)
    requires
        is_mixed_down(dry, radiated, mix_gain, master_gain, plus, times, saturate, heard),
    ensures
        heard.finite(),
        heard.magnitude() <= ONE_BITS,
{
    let scaled = choose|scaled: Binary32|
        #[trigger] crate::limiter::is_limited(
            scaled,
            Binary32::from_bits(OUTPUT_LIMITER_THRESHOLD_BITS),
            saturate,
            heard,
        );
    crate::limiter::full_scale_is_never_exceeded(
        scaled,
        Binary32::from_bits(OUTPUT_LIMITER_THRESHOLD_BITS),
        saturate,
        heard,
    );
}

} // verus!

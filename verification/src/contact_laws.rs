//! What passes between a hammer and its string, sample by sample.
use crate::binary32::Binary32;
use crate::bounds_laws::lands;
use crate::excitation;
use crate::hammer;
use crate::hammer::{Contact, HammerConfig, PendingContact, Striker};
use crate::noise::Xorshift32;
use crate::render;
use vstd::prelude::*;

verus! {

/// A hammer is kept within what the model bears, each part on its own, and a rate
/// outside what it was made for is replaced.
pub proof fn hammers_are_kept_bearable(
    asked: HammerConfig,
    sane: HammerConfig,
    rate: Binary32,
    used: Binary32,
)
    requires
        call_ensures(hammer::sanitize_hammer, (asked,), sane),
        call_ensures(hammer::integration_rate, (rate,), used),
    ensures
        lands(asked.contact_exponent, 0x3f00_0000, 0x4100_0000, sane.contact_exponent),
        lands(asked.stiffness, 0x4b81_b320, 0x521e_5329, sane.stiffness),
        lands(asked.mass, 0x3c23_d70a, 0x42c8_0000, sane.mass),
        !rate.nan() && 0x447a_0000 <= rate.rank() <= 0x4b18_9680 ==> used == rate,
        rate.nan() || rate.rank() < 0x447a_0000 || rate.rank() > 0x4b18_9680
            ==> used.bits == 0x473b_8000,
{
}

/// A contact records every force: each is counted, the largest is remembered, and the
/// felt is compressed as far as it goes, never below nothing.
pub proof fn contacts_record_every_force(
    before: Contact,
    recorded: Contact,
    compressed: Contact,
    force: Binary32,
    moved: Binary32,
    clamped: Binary32,
)
    requires
        before.wf(),
        before.active < 512,
        !force.nan(),
        exists|contact: &mut Contact| #[trigger]
            call_ensures(Contact::record, (contact, force), ())
                && *contact == before && *final(contact) == recorded,
        exists|contact: &mut Contact| #[trigger]
            call_ensures(Contact::compress, (contact, moved), clamped)
                && *contact == before && *final(contact) == compressed,
    ensures
        recorded.active == before.active + 1,
        force.rank() > before.peak.rank() ==> recorded.peak == force,
        force.rank() <= before.peak.rank() ==> recorded.peak == before.peak,
        recorded.compression == before.compression,
        lands(moved, 0, 0x4120_0000, clamped),
        compressed == (Contact { compression: clamped, ..before }),
{
}

/// A contact is over once the felt has let go, after a sample at the least, or after
/// five hundred and twelve samples; it begins with nothing.
pub proof fn contacts_end(
    contact: &Contact,
    over: bool,
    first: Contact,
)
    requires
        call_ensures(Contact::is_over, (contact,), over),
        call_ensures(Contact::starting, (), first),
        !contact.compression.nan(),
    ensures
        over <==> contact.active >= 512 || contact.active > 0 && contact.compression.rank() <= 0,
        first.active == 0 && first.compression.bits == 0 && first.peak.bits == 0,
{
}

/// `forces` are what a hammer that strikes at `velocity` pushes with, sample by sample: it
/// begins with its felt at rest, each sample moves it on from where the one before left it,
/// and the force is that of the felt as it then is. Between its first sample and its last
/// the felt never lets go.
pub open spec fn pushes<
    V,
    B: Fn(Binary32) -> V,
    A: Fn(HammerConfig, Binary32, V, Binary32) -> (V, Binary32),
    F: Fn(HammerConfig, Binary32) -> Binary32,
>(
    velocity: Binary32,
    sane: HammerConfig,
    rate: Binary32,
    moving: Seq<V>,
    felt: Seq<Binary32>,
    forces: Seq<Binary32>,
    begin: B,
    advance: A,
    force: F,
) -> bool {
    &&& moving.len() == forces.len() + 1
    &&& felt.len() == forces.len() + 1
    &&& felt[0].bits == 0
    &&& exists|kept: Binary32| #[trigger]
        begin.ensures((kept,), moving[0]) && lands(velocity, 0, 0x3f80_0000, kept)
    &&& forall|i: int|
        0 <= i < forces.len() ==> {
            &&& exists|moved: Binary32| #[trigger]
                advance.ensures((sane, rate, moving[i], felt[i]), (moving[i + 1], moved)) && lands(
                    moved,
                    0,
                    0x4120_0000,
                    felt[i + 1],
                )
            &&& force.ensures((sane, felt[i + 1]), #[trigger] forces[i])
        }
    &&& forall|i: int| 0 < i < forces.len() ==> (#[trigger] felt[i]).nan() || felt[i].rank() > 0
}

/// A contact is one that a hammer pushes.
pub proof fn lemma_pushes<
    V,
    B: Fn(Binary32) -> V,
    A: Fn(HammerConfig, Binary32, V, Binary32) -> (V, Binary32),
    F: Fn(HammerConfig, Binary32) -> Binary32,
>(
    velocity: Binary32,
    sample_rate: Binary32,
    asked: HammerConfig,
    states: Seq<(V, Binary32)>,
    forces: Seq<Binary32>,
    begin: B,
    advance: A,
    force: F,
)
    requires
        hammer::is_struck_contact(
            velocity,
            sample_rate,
            asked,
            states,
            forces,
            begin,
            advance,
            force,
        ),
    ensures
        pushes(
            velocity,
            hammer::sanitized(asked),
            hammer::trusted(sample_rate),
            Seq::new(states.len(), |i: int| states[i].0),
            Seq::new(states.len(), |i: int| states[i].1),
            forces,
            begin,
            advance,
            force,
        ),
{
    let sane = hammer::sanitized(asked);
    let rate = hammer::trusted(sample_rate);
    let moving = Seq::new(states.len(), |i: int| states[i].0);
    let felt = Seq::new(states.len(), |i: int| states[i].1);
    let strike = choose|strike: V|
        {
            &&& #[trigger] begin.ensures((crate::string::normalised(velocity),), strike)
            &&& hammer::is_contact(sane, rate, strike, states, forces, advance, force)
        };
    assert(begin.ensures((crate::string::normalised(velocity),), moving[0]));
    assert forall|i: int| 0 <= i < forces.len() implies {
        &&& exists|moved: Binary32| #[trigger]
            advance.ensures((sane, rate, moving[i], felt[i]), (moving[i + 1], moved)) && lands(
                moved,
                0,
                0x4120_0000,
                felt[i + 1],
            )
        &&& force.ensures((sane, felt[i + 1]), #[trigger] forces[i])
    } by {
        assert(hammer::steps(
            sane,
            rate,
            states[i],
            states[i + 1],
            forces[i],
            advance,
            force,
        ));
        let moved = choose|moved: Binary32| #[trigger]
            advance.ensures((sane, rate, states[i].0, states[i].1), (states[i + 1].0, moved))
                && states[i + 1].1 == hammer::felt(moved);
        assert(advance.ensures((sane, rate, moving[i], felt[i]), (moving[i + 1], moved)));
    }
    assert forall|i: int| 0 < i < forces.len() implies (#[trigger] felt[i]).nan() || felt[i].rank()
        > 0 by {
        assert(!states[i].1.at_most(Binary32 { bits: 0 }));
    }
}

/// A hammer pushes its string through the whole contact, every sample of the curve from
/// the first to the last: each force is that of the felt where the sample before left
/// it. The contact ends where the felt lets go or after five hundred and twelve
/// samples, what is beyond it is zero, and the peak is the largest of the forces.
pub proof fn hammers_push_through_the_whole_contact<
    V: Copy,
    B: Fn(Binary32) -> V,
    A: Fn(HammerConfig, Binary32, V, Binary32) -> (V, Binary32),
    F: Fn(HammerConfig, Binary32) -> Binary32,
>(
    velocity: Binary32,
    rate: Binary32,
    asked: HammerConfig,
    sane: HammerConfig,
    used: Binary32,
    after: Seq<Binary32>,
    begin: &B,
    advance: &A,
    force: &F,
    contact: Contact,
)
    requires
        call_ensures(hammer::sanitize_hammer, (asked,), sane),
        call_ensures(hammer::integration_rate, (rate,), used),
        exists|curve: &mut [Binary32]| #[trigger]
            call_ensures(
                hammer::uncoupled_contact_curve::<V, B, A, F>,
                (velocity, rate, asked, curve, begin, advance, force),
                contact,
            ) && (*final(curve))@ == after,
    ensures
        after.len() == 512,
        1 <= contact.active <= 512,
        contact.active == 512 || contact.compression.rank() <= 0,
        forall|i: int| contact.active <= i < 512 ==> (#[trigger] after[i]).bits == 0,
        forall|i: int| 0 <= i < contact.active ==> !contact.peak.below(#[trigger] after[i]),
        contact.peak.bits == 0 || exists|i: int| 0 <= i < contact.active
            && contact.peak == #[trigger] after[i],
        exists|moving: Seq<V>, felt: Seq<Binary32>|
            #[trigger] pushes(
                velocity,
                sane,
                used,
                moving,
                felt,
                after.take(contact.active as int),
                *begin,
                *advance,
                *force,
            ) && felt.last() == contact.compression,
{
    let forces = after.take(contact.active as int);
    let states = choose|states: Seq<(V, Binary32)>| #[trigger]
        hammer::is_struck_contact(
            velocity,
            rate,
            asked,
            states,
            forces,
            *begin,
            *advance,
            *force,
        ) && states.last().1 == contact.compression;
    lemma_pushes(velocity, rate, asked, states, forces, *begin, *advance, *force);
    assert(hammer::is_peak(forces, contact.peak));
    assert forall|i: int| 0 <= i < contact.active implies !contact.peak.below(
        #[trigger] after[i],
    ) by {
        assert(forces[i] == after[i]);
    }
    if contact.peak.bits != 0 {
        assert(contact.peak != Binary32 { bits: 0 });
        let i = choose|i: int| 0 <= i < forces.len() && forces[i] == contact.peak;
        assert(after[i] == contact.peak);
    }
}

/// Scaling by the peak scales every force of the contact, from the first to the last,
/// and nothing beyond it; a contact that hardly pushed is only kept between zero and
/// one.
pub proof fn every_force_is_scaled_by_the_peak<
    S: Fn(Binary32, Binary32) -> Binary32,
>(
    before: Seq<Binary32>,
    after: Seq<Binary32>,
    active: usize,
    peak: Binary32,
    scale: &S,
    i: int,
)
    requires
        active <= before.len(),
        0 <= i < before.len(),
        exists|curve: &mut [Binary32]| #[trigger]
            call_ensures(hammer::normalize_by_peak::<S>, (curve, active, peak, scale), ())
                && curve@ == before && (*final(curve))@ == after,
        !peak.nan(),
    ensures
        after.len() == before.len(),
        i >= active ==> after[i] == before[i],
        i < active && peak.rank() > 0x3400_0000
            ==> exists|quotient: Binary32| #[trigger] scale.ensures((before[i], peak), quotient)
                && lands(quotient, 0, 0x3f80_0000, after[i]),
        i < active && peak.rank() <= 0x3400_0000 ==> lands(before[i], 0, 0x3f80_0000, after[i]),
{
    assert(hammer::is_share(before[i], i < active, peak, *scale, after[i]));
}

/// `scaled` is `force` over `peak`, kept between zero and one; or `force` itself kept
/// there, where the peak is next to nothing.
pub open spec fn is_scaled_force<S: Fn(Binary32, Binary32) -> Binary32>(
    force: Binary32,
    peak: Binary32,
    scale: S,
    scaled: Binary32,
) -> bool {
    if peak.rank() > 0x3400_0000 {
        exists|quotient: Binary32| #[trigger]
            scale.ensures((force, peak), quotient) && lands(quotient, 0, 0x3f80_0000, scaled)
    } else {
        lands(force, 0, 0x3f80_0000, scaled)
    }
}

/// `peak` is the largest of `forces`, or zero where none is above it.
pub open spec fn is_largest(forces: Seq<Binary32>, peak: Binary32) -> bool {
    &&& !peak.nan()
    &&& peak.rank() >= 0
    &&& peak.bits == 0 || exists|i: int| 0 <= i < forces.len() && peak == #[trigger] forces[i]
    &&& forall|i: int|
        0 <= i < forces.len() ==> (#[trigger] forces[i]).nan() || forces[i].rank() <= peak.rank()
}

/// A contact that is simulated is one that a hammer pushes, scaled by its own peak,
/// force by force.
pub proof fn simulated_contacts_are_scaled_pushes<
    V: Copy,
    B: Fn(Binary32) -> V,
    A: Fn(HammerConfig, Binary32, V, Binary32) -> (V, Binary32),
    F: Fn(HammerConfig, Binary32) -> Binary32,
    S: Fn(Binary32, Binary32) -> Binary32,
>(
    velocity: Binary32,
    rate: Binary32,
    asked: HammerConfig,
    sane: HammerConfig,
    used: Binary32,
    after: Seq<Binary32>,
    begin: &B,
    advance: &A,
    force: &F,
    scale: &S,
    active: usize,
)
    requires
        call_ensures(hammer::sanitize_hammer, (asked,), sane),
        call_ensures(hammer::integration_rate, (rate,), used),
        exists|curve: &mut [Binary32]| #[trigger]
            call_ensures(
                hammer::simulate_contact::<V, B, A, F, S>,
                (velocity, rate, asked, curve, begin, advance, force, scale),
                active,
            ) && (*final(curve))@ == after,
    ensures
        after.len() == 512,
        1 <= active <= 512,
        forall|i: int| active <= i < 512 ==> (#[trigger] after[i]).bits == 0,
        exists|moving: Seq<V>, felt: Seq<Binary32>, forces: Seq<Binary32>, peak: Binary32|
            {
                &&& #[trigger] pushes(
                    velocity,
                    sane,
                    used,
                    moving,
                    felt,
                    forces,
                    *begin,
                    *advance,
                    *force,
                )
                &&& forces.len() == active
                &&& #[trigger] is_largest(forces, peak)
                &&& active == 512 || felt[active as int].rank() <= 0
                &&& forall|i: int|
                    0 <= i < active ==> is_scaled_force(
                        forces[i],
                        peak,
                        *scale,
                        #[trigger] after[i],
                    )
            },
{
    let (states, forces, peak) = choose|
        states: Seq<(V, Binary32)>,
        forces: Seq<Binary32>,
        peak: Binary32,
    |
        {
            &&& #[trigger] hammer::is_struck_contact(
                velocity,
                rate,
                asked,
                states,
                forces,
                *begin,
                *advance,
                *force,
            )
            &&& forces.len() == active
            &&& active == 512 || states.last().1.at_most(Binary32 { bits: 0 })
            &&& #[trigger] hammer::is_peak(forces, peak)
            &&& hammer::is_scaled(
                forces,
                active as int,
                peak,
                *scale,
                after.take(active as int),
            )
        };
    lemma_pushes(velocity, rate, asked, states, forces, *begin, *advance, *force);
    let moving = Seq::new(states.len(), |i: int| states[i].0);
    let felt = Seq::new(states.len(), |i: int| states[i].1);
    assert(pushes(
        velocity,
        sane,
        used,
        moving,
        felt,
        forces,
        *begin,
        *advance,
        *force,
    ));
    assert(felt[active as int] == states.last().1);
    assert(is_largest(forces, peak));
    let taken = after.take(active as int);
    assert forall|i: int| 0 <= i < active implies is_scaled_force(
        forces[i],
        peak,
        *scale,
        #[trigger] after[i],
    ) by {
        assert(taken[i] == after[i]);
        assert(hammer::is_share(forces[i], true, peak, *scale, taken[i]));
    }
}

/// `slopes` are the steps between neighbouring forces of a contact of `active` samples.
pub open spec fn are_steps<D: Fn(Binary32, Binary32) -> Binary32>(
    force: Seq<Binary32>,
    active: int,
    difference: D,
    slopes: Seq<Binary32>,
) -> bool {
    &&& slopes.len() == active - 1
    &&& forall|i: int|
        0 <= i < active - 1 ==> difference.ensures((force[i + 1], force[i]), #[trigger] slopes[i])
}

/// `steepest` is the size of the steepest of `slopes`, up or down.
pub open spec fn is_steepest(slopes: Seq<Binary32>, steepest: Binary32) -> bool {
    &&& !steepest.nan()
    &&& steepest.bits < 0x8000_0000
    &&& steepest.bits == 0 || exists|i: int|
        0 <= i < slopes.len() && (#[trigger] slopes[i]).magnitude() == steepest.rank()
    &&& forall|i: int|
        0 <= i < slopes.len() ==> (#[trigger] slopes[i]).nan() || slopes[i].magnitude()
            <= steepest.rank()
}

/// The loudest of some slopes is the steepest.
pub proof fn lemma_steepest(slopes: Seq<Binary32>, steepest: Binary32)
    requires
        render::is_loudest(slopes, steepest),
    ensures
        is_steepest(slopes, steepest),
{
    assert forall|i: int| 0 <= i < slopes.len() implies (#[trigger] slopes[i]).nan()
        || slopes[i].magnitude() <= steepest.rank() by {
        let size = render::loudness(slopes[i]);
        assert(!steepest.below(size));
    }
    if steepest.bits != 0 {
        let i = choose|i: int|
            0 <= i < slopes.len() && steepest == render::loudness(#[trigger] slopes[i]);
        assert(slopes[i].magnitude() == steepest.rank());
    }
}

/// The slope of a contact is scaled by its steepest step: between every two
/// neighbouring forces of the contact, from the first pair to the last.
pub proof fn slopes_are_scaled_by_the_steepest<
    D: Fn(Binary32, Binary32) -> Binary32,
    I: Fn(Binary32) -> Binary32,
>(
    force: &[Binary32],
    active: usize,
    difference: &D,
    invert: &I,
    scale: Binary32,
)
    requires
        call_ensures(excitation::slope_scale::<D, I>, (force, active, difference, invert), scale),
        1 <= active <= force@.len(),
    ensures
        exists|slopes: Seq<Binary32>, steepest: Binary32|
            {
                &&& #[trigger] are_steps(force@, active as int, *difference, slopes)
                &&& #[trigger] is_steepest(slopes, steepest)
                &&& steepest.rank() > 0x3400_0000 ==> invert.ensures((steepest,), scale)
                &&& steepest.rank() <= 0x3400_0000 ==> scale.bits == 0
            },
{
    let (slopes, steepest) = choose|slopes: Seq<Binary32>, steepest: Binary32|
        {
            &&& #[trigger] excitation::are_slopes(force@, active as int, *difference, slopes)
            &&& #[trigger] render::is_loudest(slopes, steepest)
            &&& if (Binary32 { bits: 0x3400_0000 }).below(steepest) {
                invert.ensures((steepest,), scale)
            } else {
                scale == Binary32 { bits: 0 }
            }
        };
    assert(are_steps(force@, active as int, *difference, slopes));
    lemma_steepest(slopes, steepest);
}

/// A striker draws once for every step: what it is handed, and a fresh draw, move its
/// felt on.
pub proof fn strikers_draw_once_a_step<
    S: Copy,
    T,
    F: Fn(S, T, Binary32) -> (S, T),
>(
    before: Striker<S>,
    after: Striker<S>,
    incoming: T,
    step: &F,
    sample: T,
    noise: Xorshift32,
    drawn: Binary32,
)
    requires
        exists|striker: &mut Striker<S>| #[trigger]
            call_ensures(Striker::<S>::take_step::<T, F>, (striker, incoming, step), sample)
                && *striker == before && *final(striker) == after,
        exists|generator: &mut Xorshift32| #[trigger]
            call_ensures(Xorshift32::next_bipolar, (generator,), drawn)
                && *generator == before.noise && *final(generator) == noise,
    ensures
        after.noise == noise,
        step.ensures((before.felt, incoming, drawn), (after.felt, sample)),
{
}

/// A contact that outlasts its burst goes on, sample by sample, until the hammer has
/// left or five hundred and twelve samples are over; each sample is pushed by the
/// hammer as the one before left it. Without a contact there is silence.
pub proof fn contacts_go_on_until_the_hammer_leaves<
    S: Copy,
    T: Copy,
    F: Fn(S, T, Binary32) -> (S, T),
    L: Fn(S) -> bool,
>(
    before: Option<PendingContact<S>>,
    after: Option<PendingContact<S>>,
    incoming: T,
    silence: T,
    step: &F,
    has_left: &L,
    injected: T,
)
    requires
        exists|pending: &mut Option<PendingContact<S>>| #[trigger]
            call_ensures(
                PendingContact::<S>::next_contact_sample::<T,
                F,
                L>,
                (pending, incoming, silence, step, has_left),
                injected,
            )
                && *pending == before && *final(pending) == after,
    ensures
        before is None ==> after is None && injected == silence,
        before is Some ==> exists|felt: S, left: bool|
            {
                &&& #[trigger] step.ensures(
                    (before->0.state().felt, incoming, before->0.state().noise.sample()),
                    (felt, injected),
                )
                &&& #[trigger] has_left.ensures((felt,), left)
                &&& after is Some <==> !left && before->0.elapsed() + 1 < 512
                &&& after is Some ==> after->0.elapsed() == before->0.elapsed() + 1
                    && after->0.state().felt == felt && after->0.state().noise
                    == before->0.state().noise.stepped()
            },
{
    if before is Some {
        let state = before->0.state();
        let elapsed = before->0.elapsed();
        let (next, left) = choose|next: Striker<S>, left: bool|
            {
                &&& #[trigger] hammer::is_taken(*step, state, incoming, next, injected)
                &&& #[trigger] hammer::is_left(*has_left, next, left)
                &&& hammer::waiting(after) == if !left && elapsed + 1 < 512 {
                    Some((next, (elapsed + 1) as usize))
                } else {
                    None
                }
            };
        assert(step.ensures((state.felt, incoming, state.noise.sample()), (next.felt, injected)));
        assert(has_left.ensures((next.felt,), left));
    }
}

/// A contact waits behind its burst exactly where it is longer than the burst and the
/// hammer has not left.
pub proof fn contacts_wait_behind_their_burst<
    S: Copy,
>(
    state: Striker<S>,
    contact: usize,
    burst: usize,
    separated: bool,
    pending: Option<PendingContact<S>>,
)
    requires
        call_ensures(PendingContact::<S>::after_burst, (state, contact, burst, separated), pending),
    ensures
        pending is Some <==> contact > burst && !separated,
        pending is Some ==> pending->0.state() == state && pending->0.elapsed() == burst,
{
}

} // verus!

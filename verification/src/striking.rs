//! Striking a string.
//!
//! A strike is worked out before it is written. How long a hammer stays on a string
//! that does not move, how hard it pushes at most and how steeply its push rises set
//! the scale; the strike's noise is rewound to the string's own seed; where the
//! hammer lands sets how far the comb reaches. Then the burst is written into a string
//! that has forgotten what it sounded. So a strike depends on its velocity and on how
//! the string is set, and on nothing that was played before.
use crate::binary32::Binary32;
use crate::excitation;
use crate::hammer;
use crate::hammer::{HammerConfig, Striker, MAX_CONTACT_SAMPLES};
use crate::noise::Xorshift32;
use crate::outcome;
use crate::render;
use crate::string::PluckedString;
use crate::waveguide;
use crate::waveguide::{PathState, Waveguide};
use std::marker::PhantomData;
use vstd::prelude::*;

verus! {

/// The steps of the arithmetic that turns a strike into an excitation. `S` is where a
/// felt is on its string, `W` how a hammer moves against one that does not.
pub struct Hammers<S, W, Y, V, O, U, J, K, Z> {
    /// The sample rate.
    pub sample_rate: Binary32,
    /// How a hammer moves at first: from the strike's velocity.
    pub begin: Y,
    /// A hammer against a string that does not move, one sample on: from its
    /// settings, the rate, how it moves and how far the felt is compressed.
    pub advance: V,
    /// What a felt pushes back with: from the hammer's settings and how far the felt is
    /// compressed.
    pub force: O,
    /// A force divided by the largest one.
    pub scale: U,
    /// What a steepest slope is divided out by.
    pub invert: J,
    /// Where the felt is at first: from the string, the strike's velocity, the largest
    /// force, what slopes are multiplied by, and how long the contact lasts.
    pub start: K,
    /// How far the comb reaches, in samples, and a half: from the string.
    pub reach: Z,
    /// The states.
    pub states: PhantomData<(S, W)>,
}

impl<
    S: Copy,
    W: Copy,
    Y: Fn(Binary32) -> W,
    V: Fn(HammerConfig, Binary32, W, Binary32) -> (W, Binary32),
    O: Fn(HammerConfig, Binary32) -> Binary32,
    U: Fn(Binary32, Binary32) -> Binary32,
    J: Fn(Binary32) -> Binary32,
    K: Fn(PluckedString, Binary32, Binary32, Binary32, usize) -> S,
    Z: Fn(PluckedString) -> Binary32,
> Hammers<S, W, Y, V, O, U, J, K, Z> {
    /// Every step can be taken, whatever it is handed.
    pub open spec fn takes_anything(&self) -> bool {
        &&& forall|velocity: Binary32| self.begin.requires((velocity,))
        &&& forall|hammer: HammerConfig, rate: Binary32, moving: W, compression: Binary32|
            self.advance.requires((hammer, rate, moving, compression))
        &&& forall|hammer: HammerConfig, compression: Binary32|
            self.force.requires((hammer, compression))
        &&& forall|force: Binary32, peak: Binary32| self.scale.requires((force, peak))
        &&& forall|steepest: Binary32| self.invert.requires((steepest,))
        &&& forall|
            string: PluckedString,
            velocity: Binary32,
            peak: Binary32,
            slope: Binary32,
            contact: usize,
        |
            self.start.requires((string, velocity, peak, slope, contact))
        &&& forall|string: PluckedString| self.reach.requires((string,))
    }

    /// Every step has one outcome.
    pub open spec fn is_decided(&self) -> bool {
        &&& outcome::decided(self.begin)
        &&& outcome::decided_by_four(self.advance)
        &&& outcome::decided_by_two(self.force)
        &&& outcome::decided_by_two(self.scale)
        &&& outcome::decided(self.invert)
        &&& outcome::decided_by_five(self.start)
        &&& outcome::decided(self.reach)
    }

    /// `states` and `forces` are the contact of a strike against a string that does not
    /// move, from its beginning to its end.
    pub open spec fn is_whole_contact(
        &self,
        hammer: HammerConfig,
        velocity: Binary32,
        states: Seq<(W, Binary32)>,
        forces: Seq<Binary32>,
    ) -> bool {
        &&& hammer::is_struck_contact(
            velocity,
            self.sample_rate,
            hammer,
            states,
            forces,
            self.begin,
            self.advance,
            self.force,
        )
        &&& 1 <= forces.len() <= MAX_CONTACT_SAMPLES
        &&& forces.len() == MAX_CONTACT_SAMPLES || states.last().1.at_most(
            Binary32::from_bits(0),
        )
    }

    /// A strike lasts `contact` samples against a string that does not move, pushes
    /// with `peak` at most, and its slopes are multiplied by `slope`.
    pub open spec fn measures<N: Fn(Binary32, Binary32) -> Binary32>(
        &self,
        hammer: HammerConfig,
        velocity: Binary32,
        minus: N,
        contact: usize,
        peak: Binary32,
        slope: Binary32,
    ) -> bool {
        exists|states: Seq<(W, Binary32)>, forces: Seq<Binary32>, curve: Seq<Binary32>|
            {
                &&& #[trigger] self.is_whole_contact(hammer, velocity, states, forces)
                &&& forces.len() == contact
                &&& hammer::is_peak(forces, peak)
                &&& #[trigger] hammer::is_scaled(forces, contact as int, peak, self.scale, curve)
                &&& excitation::is_slope_scale(curve, contact as int, minus, self.invert, slope)
            }
    }

    /// `after` is the path of `string` struck at `velocity`, whatever it sounded
    /// before.
    pub open spec fn strikes<
        H: Fn(S, Binary32, Binary32) -> (S, Binary32),
        L: Fn(S) -> bool,
        N: Fn(Binary32, Binary32) -> Binary32,
    >(
        &self,
        string: PluckedString,
        velocity: Binary32,
        step: H,
        has_left: L,
        minus: N,
        before: PathState<S>,
        after: PathState<S>,
    ) -> bool {
        exists|
            contact: usize,
            peak: Binary32,
            slope: Binary32,
            felt: S,
            reach: Binary32,
        |
            {
                &&& #[trigger] self.measures(string.hammer, velocity, minus, contact, peak, slope)
                &&& #[trigger] self.start.ensures((string, velocity, peak, slope, contact), felt)
                &&& #[trigger] self.reach.ensures((string,), reach)
                &&& waveguide::is_struck(
                    string.plan(reach),
                    contact,
                    Striker { felt, noise: Xorshift32::seeded(string.seed) },
                    step,
                    has_left,
                    minus,
                    before.line.len(),
                    after,
                )
                &&& after == PathState {
                    line: after.line,
                    pending: after.pending,
                    ..waveguide::cleared(before)
                }
            }
    }

    /// Works out how long a strike lasts against a string that does not move, how hard
    /// it pushes at most, and what its slopes are multiplied by.
    pub fn measure<N: Fn(Binary32, Binary32) -> Binary32>(
        &self,
        hammer: HammerConfig,
        velocity: Binary32,
        minus: &N,
    ) -> (measured: (usize, Binary32, Binary32))
        requires
            self.takes_anything(),
            forall|a: Binary32, b: Binary32| minus.requires((a, b)),
        ensures
            1 <= measured.0 <= MAX_CONTACT_SAMPLES,
            self.measures(hammer, velocity, *minus, measured.0, measured.1, measured.2),
    {
        let mut curve = [Binary32::from_bits(0); MAX_CONTACT_SAMPLES];
        let contact = hammer::uncoupled_contact_curve(
            velocity,
            self.sample_rate,
            hammer,
            &mut curve,
            &self.begin,
            &self.advance,
            &self.force,
        );
        let ghost forces = curve@.take(contact.active as int);
        let ghost raw = curve@;
        hammer::normalize_by_peak(&mut curve, contact.active, contact.peak, &self.scale);
        let slope = excitation::slope_scale(&curve, contact.active, minus, &self.invert);
        proof {
            let states = choose|states: Seq<(W, Binary32)>| #[trigger]
                hammer::is_struck_contact(
                    velocity,
                    self.sample_rate,
                    hammer,
                    states,
                    forces,
                    self.begin,
                    self.advance,
                    self.force,
                ) && states.last().1 == contact.compression;
            assert(self.is_whole_contact(hammer, velocity, states, forces));
            let scaled = curve@.take(contact.active as int);
            assert forall|i: int| 0 <= i < forces.len() implies hammer::is_share(
                forces[i],
                i < contact.active,
                contact.peak,
                self.scale,
                #[trigger] scaled[i],
            ) by {
                assert(scaled[i] == curve@[i]);
            }
            assert(hammer::is_scaled(
                forces,
                contact.active as int,
                contact.peak,
                self.scale,
                scaled,
            ));
            let (slopes, steepest) = choose|slopes: Seq<Binary32>, steepest: Binary32|
                {
                    &&& #[trigger] excitation::are_slopes(
                        curve@,
                        contact.active as int,
                        *minus,
                        slopes,
                    )
                    &&& #[trigger] render::is_loudest(slopes, steepest)
                    &&& if Binary32::from_bits(hammer::SILENT_FORCE_BITS).below(steepest) {
                        self.invert.ensures((steepest,), slope)
                    } else {
                        slope == Binary32::from_bits(0)
                    }
                };
            assert forall|i: int| 0 <= i < slopes.len() implies minus.ensures(
                (scaled[i + 1], scaled[i]),
                #[trigger] slopes[i],
            ) by {
                assert(scaled[i] == curve@[i] && scaled[i + 1] == curve@[i + 1]);
            }
            assert(excitation::are_slopes(scaled, contact.active as int, *minus, slopes));
        }
        (contact.active, contact.peak, slope)
    }

    /// Strikes `string` at `velocity`: what its path was sounding is gone, and the
    /// excitation is in it.
    pub fn strike<
        H: Fn(S, Binary32, Binary32) -> (S, Binary32),
        L: Fn(S) -> bool,
        N: Fn(Binary32, Binary32) -> Binary32,
    >(
        &self,
        string: &PluckedString,
        velocity: Binary32,
        path: &mut Waveguide<S>,
        step: &H,
        has_left: &L,
        minus: &N,
    )
        requires
            self.takes_anything(),
            forall|felt: S, incoming: Binary32, drawn: Binary32|
                step.requires((felt, incoming, drawn)),
            forall|felt: S| has_left.requires((felt,)),
            forall|a: Binary32, b: Binary32| minus.requires((a, b)),
            string.wf(),
            old(path).wf(),
            old(path)@.line.len() == string.max_delay + 1,
        ensures
            final(path).wf(),
            self.strikes(
                *string,
                velocity,
                *step,
                *has_left,
                *minus,
                old(path)@,
                final(path)@,
            ),
    {
        let (contact, peak, slope) = self.measure(string.hammer, velocity, minus);
        let start = &self.start;
        let felt = start(*string, velocity, peak, slope, contact);
        let reach = &self.reach;
        let reached = reach(*string);
        let plan = string.plan_strike(reached);
        path.strike(
            &plan,
            contact,
            Striker { felt, noise: Xorshift32::new(string.seed) },
            step,
            has_left,
            minus,
        );
        assert(self.measures(string.hammer, velocity, *minus, contact, peak, slope));
        assert(self.start.ensures((*string, velocity, peak, slope, contact), felt));
        assert(self.reach.ensures((*string,), reached));
    }

    /// Two contacts of one strike agree as far as both go.
    proof fn lemma_contacts_alike(
        &self,
        hammer: HammerConfig,
        velocity: Binary32,
        states: Seq<(W, Binary32)>,
        forces: Seq<Binary32>,
        other_states: Seq<(W, Binary32)>,
        other_forces: Seq<Binary32>,
        place: int,
    )
        requires
            self.is_decided(),
            self.is_whole_contact(hammer, velocity, states, forces),
            self.is_whole_contact(hammer, velocity, other_states, other_forces),
            0 <= place <= forces.len(),
            place <= other_forces.len(),
        ensures
            states[place] == other_states[place],
            place > 0 ==> forces[place - 1] == other_forces[place - 1],
        decreases place,
    {
        let sane = hammer::sanitized(hammer);
        let rate = hammer::trusted(self.sample_rate);
        if place > 0 {
            let i = place - 1;
            self.lemma_contacts_alike(
                hammer,
                velocity,
                states,
                forces,
                other_states,
                other_forces,
                i,
            );
            assert(hammer::steps(
                sane,
                rate,
                states[i],
                states[i + 1],
                forces[i],
                self.advance,
                self.force,
            ));
            assert(hammer::steps(
                sane,
                rate,
                other_states[i],
                other_states[i + 1],
                other_forces[i],
                self.advance,
                self.force,
            ));
        }
    }

    /// The contact of a strike is one contact.
    pub proof fn contacts_are_decided(
        &self,
        hammer: HammerConfig,
        velocity: Binary32,
        states: Seq<(W, Binary32)>,
        forces: Seq<Binary32>,
        other_states: Seq<(W, Binary32)>,
        other_forces: Seq<Binary32>,
    )
        requires
            self.is_decided(),
            self.is_whole_contact(hammer, velocity, states, forces),
            self.is_whole_contact(hammer, velocity, other_states, other_forces),
        ensures
            forces == other_forces,
    {
        let shorter = if forces.len() < other_forces.len() {
            forces.len() as int
        } else {
            other_forces.len() as int
        };
        self.lemma_contacts_alike(
            hammer,
            velocity,
            states,
            forces,
            other_states,
            other_forces,
            shorter,
        );
        if forces.len() < other_forces.len() {
            assert(!other_states[shorter].1.at_most(Binary32::from_bits(0)));
        }
        if other_forces.len() < forces.len() {
            assert(!states[shorter].1.at_most(Binary32::from_bits(0)));
        }
        assert forall|i: int| 0 <= i < forces.len() implies forces[i] == other_forces[i] by {
            self.lemma_contacts_alike(
                hammer,
                velocity,
                states,
                forces,
                other_states,
                other_forces,
                i + 1,
            );
        }
        assert(forces =~= other_forces);
    }

    /// What a strike measures is one thing.
    pub proof fn measuring_is_decided<N: Fn(Binary32, Binary32) -> Binary32>(
        &self,
        hammer: HammerConfig,
        velocity: Binary32,
        minus: N,
        contact: usize,
        peak: Binary32,
        slope: Binary32,
        other_contact: usize,
        other_peak: Binary32,
        other_slope: Binary32,
    )
        requires
            self.is_decided(),
            outcome::decided_by_two(minus),
            self.measures(hammer, velocity, minus, contact, peak, slope),
            self.measures(hammer, velocity, minus, other_contact, other_peak, other_slope),
        ensures
            contact == other_contact,
            peak == other_peak,
            slope == other_slope,
    {
        let (states, forces, curve) = choose|
            states: Seq<(W, Binary32)>,
            forces: Seq<Binary32>,
            curve: Seq<Binary32>,
        |
            {
                &&& #[trigger] self.is_whole_contact(hammer, velocity, states, forces)
                &&& forces.len() == contact
                &&& hammer::is_peak(forces, peak)
                &&& #[trigger] hammer::is_scaled(forces, contact as int, peak, self.scale, curve)
                &&& excitation::is_slope_scale(curve, contact as int, minus, self.invert, slope)
            };
        let (other_states, other_forces, other_curve) = choose|
            states: Seq<(W, Binary32)>,
            forces: Seq<Binary32>,
            curve: Seq<Binary32>,
        |
            {
                &&& #[trigger] self.is_whole_contact(hammer, velocity, states, forces)
                &&& forces.len() == other_contact
                &&& hammer::is_peak(forces, other_peak)
                &&& #[trigger] hammer::is_scaled(
                    forces,
                    other_contact as int,
                    other_peak,
                    self.scale,
                    curve,
                )
                &&& excitation::is_slope_scale(
                    curve,
                    other_contact as int,
                    minus,
                    self.invert,
                    other_slope,
                )
            };
        self.contacts_are_decided(
            hammer,
            velocity,
            states,
            forces,
            other_states,
            other_forces,
        );
        hammer::peaks_are_decided(forces, peak, other_peak);
        assert forall|i: int| 0 <= i < curve.len() implies curve[i] == other_curve[i] by {
            assert(hammer::is_share(forces[i], i < contact, peak, self.scale, curve[i]));
            assert(hammer::is_share(forces[i], i < contact, peak, self.scale, other_curve[i]));
        }
        assert(curve =~= other_curve);
        excitation::slope_scales_are_decided(
            curve,
            contact as int,
            minus,
            self.invert,
            slope,
            other_slope,
        );
    }

    /// A strike is one strike: it depends on its velocity and on how the string is set,
    /// and not on what the string sounded before.
    pub proof fn strikes_are_decided<
        H: Fn(S, Binary32, Binary32) -> (S, Binary32),
        L: Fn(S) -> bool,
        N: Fn(Binary32, Binary32) -> Binary32,
    >(
        &self,
        string: PluckedString,
        velocity: Binary32,
        step: H,
        has_left: L,
        minus: N,
        before: PathState<S>,
        after: PathState<S>,
        other_before: PathState<S>,
        other: PathState<S>,
    )
        requires
            self.is_decided(),
            outcome::decided_by_three(step),
            outcome::decided(has_left),
            outcome::decided_by_two(minus),
            waveguide::cleared(before) == waveguide::cleared(other_before),
            self.strikes(string, velocity, step, has_left, minus, before, after),
            self.strikes(string, velocity, step, has_left, minus, other_before, other),
        ensures
            after == other,
    {
        let (contact, peak, slope, felt, reach) = choose|
            contact: usize,
            peak: Binary32,
            slope: Binary32,
            felt: S,
            reach: Binary32,
        |
            {
                &&& #[trigger] self.measures(string.hammer, velocity, minus, contact, peak, slope)
                &&& #[trigger] self.start.ensures((string, velocity, peak, slope, contact), felt)
                &&& #[trigger] self.reach.ensures((string,), reach)
                &&& waveguide::is_struck(
                    string.plan(reach),
                    contact,
                    Striker { felt, noise: Xorshift32::seeded(string.seed) },
                    step,
                    has_left,
                    minus,
                    before.line.len(),
                    after,
                )
                &&& after == PathState {
                    line: after.line,
                    pending: after.pending,
                    ..waveguide::cleared(before)
                }
            };
        let (other_contact, other_peak, other_slope, other_felt, other_reach) = choose|
            contact: usize,
            peak: Binary32,
            slope: Binary32,
            felt: S,
            reach: Binary32,
        |
            {
                &&& #[trigger] self.measures(string.hammer, velocity, minus, contact, peak, slope)
                &&& #[trigger] self.start.ensures((string, velocity, peak, slope, contact), felt)
                &&& #[trigger] self.reach.ensures((string,), reach)
                &&& waveguide::is_struck(
                    string.plan(reach),
                    contact,
                    Striker { felt, noise: Xorshift32::seeded(string.seed) },
                    step,
                    has_left,
                    minus,
                    other_before.line.len(),
                    other,
                )
                &&& other == PathState {
                    line: other.line,
                    pending: other.pending,
                    ..waveguide::cleared(other_before)
                }
            };
        self.measuring_is_decided(
            string.hammer,
            velocity,
            minus,
            contact,
            peak,
            slope,
            other_contact,
            other_peak,
            other_slope,
        );
        assert(felt == other_felt);
        assert(reach == other_reach);
        assert(before.line.len() == waveguide::cleared(before).line.len());
        assert(other_before.line.len() == waveguide::cleared(other_before).line.len());
        waveguide::strikes_sound_alike(
            string.plan(reach),
            contact,
            Striker { felt, noise: Xorshift32::seeded(string.seed) },
            step,
            has_left,
            minus,
            before.line.len(),
            after,
            other,
        );
    }

    /// A strike leaves the string's path tuned as it was.
    pub proof fn strikes_keep_tuning<
        H: Fn(S, Binary32, Binary32) -> (S, Binary32),
        L: Fn(S) -> bool,
        N: Fn(Binary32, Binary32) -> Binary32,
    >(
        &self,
        string: PluckedString,
        velocity: Binary32,
        step: H,
        has_left: L,
        minus: N,
        before: PathState<S>,
        after: PathState<S>,
    )
        requires
            before.line.len() > 0,
            self.strikes(string, velocity, step, has_left, minus, before, after),
        ensures
            waveguide::is_tuned_like(before, after),
    {
        let (contact, felt, reach) = choose|contact: usize, felt: S, reach: Binary32| #[trigger]
            waveguide::is_struck(
                string.plan(reach),
                contact,
                Striker { felt, noise: Xorshift32::seeded(string.seed) },
                step,
                has_left,
                minus,
                before.line.len(),
                after,
            );
        waveguide::strikes_keep_the_length(
            string.plan(reach),
            contact,
            Striker { felt, noise: Xorshift32::seeded(string.seed) },
            step,
            has_left,
            minus,
            before.line.len(),
            after,
        );
    }
}

} // verus!

//! The felt hammer: what its physics may be, and how a contact runs its course.
//!
//! A hammer is a lossy nonlinear spring pressed against the string. Integrating
//! that contact is arithmetic that rounds, and is left to the caller; this
//! module bounds what goes into it and decides how long it goes on, so that the
//! integration is finite for any configuration at all.
use crate::binary32::{Binary32, ONE_BITS};
use crate::math;
use crate::noise::Xorshift32;
use crate::string;
use vstd::prelude::*;

verus! {

/// Upper bound on how long a hammer stays in contact with the string.
///
/// About 10.7 ms at 48 kHz, and the hard cap that keeps the integration a
/// bounded loop.
pub const MAX_CONTACT_SAMPLES: usize = 512;

/// Narrowest contact exponent, 0.5.
pub const MIN_CONTACT_EXPONENT_BITS: u32 = 0x3f00_0000;

/// Widest contact exponent, 8.
pub const MAX_CONTACT_EXPONENT_BITS: u32 = 0x4100_0000;

/// Softest felt, 1.7e7.
pub const MIN_STIFFNESS_BITS: u32 = 0x4b81_b320;

/// Hardest felt, 1.7e11.
pub const MAX_STIFFNESS_BITS: u32 = 0x521e_5329;

/// Lightest hammer, 0.01. Bounded away from zero because mass is a divisor.
pub const MIN_MASS_BITS: u32 = 0x3c23_d70a;

/// Heaviest hammer, 100.
pub const MAX_MASS_BITS: u32 = 0x42c8_0000;

/// Hard cap on the compression of the felt, 10, in the model's own units.
///
/// Applied at every step, so that no combination of stiffness, mass and sample
/// rate can make the compression grow without bound.
pub const MAX_COMPRESSION_BITS: u32 = 0x4120_0000;

/// The contact exponent of [`HammerConfig::default`], 2.5.
pub const CONTACT_EXPONENT_BITS: u32 = 0x4020_0000;

/// The stiffness of [`HammerConfig::default`], 1.7e9.
pub const CONTACT_STIFFNESS_BITS: u32 = 0x4eca_a7e2;

/// Lowest sample rate the integration step is trusted at, 1 kHz.
pub const MIN_SAMPLE_RATE_BITS: u32 = 0x447a_0000;

/// Highest sample rate the integration step is trusted at, 10 MHz.
pub const MAX_SAMPLE_RATE_BITS: u32 = 0x4b18_9680;

/// A peak force at or below this, two to the power of minus 23, is no force.
pub const SILENT_FORCE_BITS: u32 = 0x3400_0000;

/// What any other sample rate is replaced by, 48 kHz.
pub const FALLBACK_SAMPLE_RATE_BITS: u32 = 0x473b_8000;

/// Tunable felt-contact physics for one string's hammer.
///
/// The fields are not validated at construction; [`sanitize_hammer`]
/// bounds them before use.
#[derive(Debug, Clone, Copy, PartialEq, Eq, Structural)]
pub struct HammerConfig {
    /// Hertzian contact exponent: the power that compression is raised to.
    pub contact_exponent: Binary32,
    /// Hertzian contact stiffness, in the model's own normalised units.
    pub stiffness: Binary32,
    /// Hammer mass, normalised to one at the default.
    pub mass: Binary32,
}

impl Default for HammerConfig {
    fn default() -> (hammer: Self)
        ensures
            hammer == default_hammer(),
    {
        HammerConfig {
            contact_exponent: Binary32::from_bits(CONTACT_EXPONENT_BITS),
            stiffness: Binary32::from_bits(CONTACT_STIFFNESS_BITS),
            mass: Binary32::from_bits(ONE_BITS),
        }
    }
}

/// The hammer every string starts with.
pub open spec fn default_hammer() -> HammerConfig {
    HammerConfig {
        contact_exponent: Binary32::from_bits(CONTACT_EXPONENT_BITS),
        stiffness: Binary32::from_bits(CONTACT_STIFFNESS_BITS),
        mass: Binary32::from_bits(ONE_BITS),
    }
}

/// `hammer` with every field inside its bounds; a NaN goes to the low bound.
pub open spec fn sanitized(hammer: HammerConfig) -> HammerConfig {
    HammerConfig {
        contact_exponent: math::bounded(
            hammer.contact_exponent,
            Binary32::from_bits(MIN_CONTACT_EXPONENT_BITS),
            Binary32::from_bits(MAX_CONTACT_EXPONENT_BITS),
        ),
        stiffness: math::bounded(
            hammer.stiffness,
            Binary32::from_bits(MIN_STIFFNESS_BITS),
            Binary32::from_bits(MAX_STIFFNESS_BITS),
        ),
        mass: math::bounded(
            hammer.mass,
            Binary32::from_bits(MIN_MASS_BITS),
            Binary32::from_bits(MAX_MASS_BITS),
        ),
    }
}

/// Every field is inside its bounds.
pub open spec fn is_sane(hammer: HammerConfig) -> bool {
    &&& hammer.contact_exponent.within(
        Binary32::from_bits(MIN_CONTACT_EXPONENT_BITS),
        Binary32::from_bits(MAX_CONTACT_EXPONENT_BITS),
    )
    &&& hammer.stiffness.within(
        Binary32::from_bits(MIN_STIFFNESS_BITS),
        Binary32::from_bits(MAX_STIFFNESS_BITS),
    )
    &&& hammer.mass.within(
        Binary32::from_bits(MIN_MASS_BITS),
        Binary32::from_bits(MAX_MASS_BITS),
    )
}

/// Clamps the fields of `hammer` into the bounds a contact needs to stay
/// finite. A NaN maps to each bound's low end.
pub fn sanitize_hammer(hammer: HammerConfig) -> (sane: HammerConfig)
    ensures
        sane == sanitized(hammer),
        is_sane(sane),
        is_sane(hammer) ==> sane == hammer,
{
    HammerConfig {
        contact_exponent: math::clamp_or_low(
            hammer.contact_exponent,
            Binary32::from_bits(MIN_CONTACT_EXPONENT_BITS),
            Binary32::from_bits(MAX_CONTACT_EXPONENT_BITS),
        ),
        stiffness: math::clamp_or_low(
            hammer.stiffness,
            Binary32::from_bits(MIN_STIFFNESS_BITS),
            Binary32::from_bits(MAX_STIFFNESS_BITS),
        ),
        mass: math::clamp_or_low(
            hammer.mass,
            Binary32::from_bits(MIN_MASS_BITS),
            Binary32::from_bits(MAX_MASS_BITS),
        ),
    }
}

/// The sample rate to integrate at: the one given where the step it sets is
/// trusted, and a fixed one for every other number, NaN and infinities among
/// them.
pub open spec fn trusted(sample_rate: Binary32) -> Binary32 {
    if sample_rate.within(
        Binary32::from_bits(MIN_SAMPLE_RATE_BITS),
        Binary32::from_bits(MAX_SAMPLE_RATE_BITS),
    ) {
        sample_rate
    } else {
        Binary32::from_bits(FALLBACK_SAMPLE_RATE_BITS)
    }
}

/// The sample rate to integrate at.
pub fn integration_rate(sample_rate: Binary32) -> (rate: Binary32)
    ensures
        rate == trusted(sample_rate),
        rate.within(
            Binary32::from_bits(MIN_SAMPLE_RATE_BITS),
            Binary32::from_bits(MAX_SAMPLE_RATE_BITS),
        ),
{
    if sample_rate.is_finite() && Binary32::from_bits(MIN_SAMPLE_RATE_BITS).le(sample_rate)
        && sample_rate.le(Binary32::from_bits(MAX_SAMPLE_RATE_BITS)) {
        sample_rate
    } else {
        Binary32::from_bits(FALLBACK_SAMPLE_RATE_BITS)
    }
}

/// One hammer contact, step by step.
///
/// The caller integrates; this keeps the compression in range, remembers the
/// peak force, counts the steps, and says when the hammer has left the string.
#[derive(Debug, Clone, Copy, PartialEq, Eq, Structural)]
pub struct Contact {
    /// How far the felt is compressed.
    pub compression: Binary32,
    /// The largest force so far.
    pub peak: Binary32,
    /// How many samples of force there are so far.
    pub active: usize,
}

impl Contact {
    /// The contact has not run over its cap, and the felt is never stretched.
    pub open spec fn wf(self) -> bool {
        &&& self.active <= MAX_CONTACT_SAMPLES
        &&& self.compression.within(
            Binary32::from_bits(0),
            Binary32::from_bits(MAX_COMPRESSION_BITS),
        )
        &&& !self.peak.nan()
        &&& Binary32::from_bits(0).at_most(self.peak)
    }

    /// The hammer has left the string, or the contact has reached its cap.
    pub open spec fn over(self) -> bool {
        self.active >= MAX_CONTACT_SAMPLES || (self.active > 0 && self.compression.at_most(
            Binary32::from_bits(0),
        ))
    }

    /// The felt just touching the string.
    pub fn starting() -> (contact: Self)
        ensures
            contact.wf(),
            !contact.over(),
            contact == (Contact {
                compression: Binary32::from_bits(0),
                peak: Binary32::from_bits(0),
                active: 0,
            }),
    {
        Contact {
            compression: Binary32::from_bits(0),
            peak: Binary32::from_bits(0),
            active: 0,
        }
    }

    /// Whether the contact has ended.
    pub fn is_over(&self) -> (result: bool)
        ensures
            result == self.over(),
    {
        self.active >= MAX_CONTACT_SAMPLES || (self.active > 0 && self.compression.le(
            Binary32::from_bits(0),
        ))
    }

    /// Takes the compression one integration step arrived at, and returns it
    /// clamped to what the felt can do.
    pub fn compress(&mut self, compression: Binary32) -> (clamped: Binary32)
        requires
            old(self).wf(),
        ensures
            final(self).wf(),
            clamped == felt(compression),
            *final(self) == (Contact { compression: clamped, ..*old(self) }),
    {
        self.compression =
        math::clamp_or_low(
            compression,
            Binary32::from_bits(0),
            Binary32::from_bits(MAX_COMPRESSION_BITS),
        );
        self.compression
    }

    /// Counts one more sample of contact, at which the hammer applied `force`.
    pub fn record(&mut self, force: Binary32)
        requires
            old(self).wf(),
            old(self).active < MAX_CONTACT_SAMPLES,
        ensures
            final(self).wf(),
            *final(self) == (Contact {
                active: (old(self).active + 1) as usize,
                peak: if old(self).peak.below(force) {
                    force
                } else {
                    old(self).peak
                },
                ..*old(self)
            }),
    {
        self.peak = self.peak.max(force);
        self.active = self.active + 1;
    }
}

/// How far the felt can be compressed: never stretched, and never beyond the cap.
pub open spec fn felt(compression: Binary32) -> Binary32 {
    math::bounded(compression, Binary32::from_bits(0), Binary32::from_bits(MAX_COMPRESSION_BITS))
}

/// One step of the integration: `advance` takes the hammer's velocity and the
/// compression of the felt to the next ones, and `force` gives the force of the
/// felt at the compression arrived at. Both are given the hammer, and `advance` the
/// rate to integrate at.
pub open spec fn steps<
    V,
    A: Fn(HammerConfig, Binary32, V, Binary32) -> (V, Binary32),
    F: Fn(HammerConfig, Binary32) -> Binary32,
>(
    hammer: HammerConfig,
    rate: Binary32,
    before: (V, Binary32),
    after: (V, Binary32),
    applied: Binary32,
    advance: A,
    force: F,
) -> bool {
    &&& exists|moved: Binary32| #[trigger]
        advance.ensures((hammer, rate, before.0, before.1), (after.0, moved)) && after.1
            == felt(moved)
    &&& force.ensures((hammer, after.1), applied)
}

/// `states` and `forces` are a contact that begins with the hammer at velocity
/// `strike` and the felt just touching the string: one force for every step, and
/// the felt still compressed wherever another step follows.
pub open spec fn is_contact<
    V,
    A: Fn(HammerConfig, Binary32, V, Binary32) -> (V, Binary32),
    F: Fn(HammerConfig, Binary32) -> Binary32,
>(
    hammer: HammerConfig,
    rate: Binary32,
    strike: V,
    states: Seq<(V, Binary32)>,
    forces: Seq<Binary32>,
    advance: A,
    force: F,
) -> bool {
    &&& states.len() == forces.len() + 1
    &&& states[0] == (strike, Binary32::from_bits(0))
    &&& forall|i: int|
        0 <= i < forces.len() ==> steps(
            hammer,
            rate,
            states[i],
            states[i + 1],
            #[trigger] forces[i],
            advance,
            force,
        )
    &&& forall|i: int|
        0 < i < forces.len() ==> !(#[trigger] states[i]).1.at_most(Binary32::from_bits(0))
}

/// `states` and `forces` are the contact of a strike: `begin` gives the hammer's
/// velocity for the strike's, which is kept in `[0, 1]`; the sample rate is one the
/// integration is trusted at, and the hammer is within its bounds.
pub open spec fn is_struck_contact<
    V,
    B: Fn(Binary32) -> V,
    A: Fn(HammerConfig, Binary32, V, Binary32) -> (V, Binary32),
    F: Fn(HammerConfig, Binary32) -> Binary32,
>(
    velocity: Binary32,
    sample_rate: Binary32,
    hammer: HammerConfig,
    states: Seq<(V, Binary32)>,
    forces: Seq<Binary32>,
    begin: B,
    advance: A,
    force: F,
) -> bool {
    exists|strike: V|
        {
            &&& #[trigger] begin.ensures((string::normalised(velocity),), strike)
            &&& is_contact(
                sanitized(hammer),
                trusted(sample_rate),
                strike,
                states,
                forces,
                advance,
                force,
            )
        }
}

/// `peak` is the largest of `forces`, and zero where none is above zero.
pub open spec fn is_peak(forces: Seq<Binary32>, peak: Binary32) -> bool {
    &&& peak == Binary32::from_bits(0) || Binary32::from_bits(0).below(peak) && forces.contains(
        peak,
    )
    &&& forall|i: int| 0 <= i < forces.len() ==> !peak.below(#[trigger] forces[i])
}

/// Some forces have one peak.
pub proof fn peaks_are_decided(forces: Seq<Binary32>, peak: Binary32, other: Binary32)
    requires
        is_peak(forces, peak),
        is_peak(forces, other),
    ensures
        peak == other,
{
    if forces.contains(peak) {
        let i = choose|i: int| 0 <= i < forces.len() && forces[i] == peak;
        assert(!other.below(forces[i]));
    }
    if forces.contains(other) {
        let i = choose|i: int| 0 <= i < forces.len() && forces[i] == other;
        assert(!peak.below(forces[i]));
    }
}

/// The larger of a peak and one more force is the peak of them all.
proof fn lemma_peak_grows(forces: Seq<Binary32>, peak: Binary32, applied: Binary32)
    requires
        is_peak(forces, peak),
    ensures
        is_peak(
            forces.push(applied),
            if peak.below(applied) {
                applied
            } else {
                peak
            },
        ),
{
    let all = forces.push(applied);
    assert(all[forces.len() as int] == applied);
    if forces.contains(peak) {
        let index = choose|i: int| 0 <= i < forces.len() && forces[i] == peak;
        assert(all[index] == peak);
    }
    assert forall|i: int| 0 <= i < all.len() implies !(if peak.below(applied) {
        applied
    } else {
        peak
    }).below(#[trigger] all[i]) by {
        if i < forces.len() {
            assert(!peak.below(forces[i]));
        }
    }
}

/// Integrates one contact against a string that does not move, and fills `curve`
/// with its forces, zeros after the last.
///
/// Any velocity, sample rate and hammer will do: each is brought into range before
/// it is handed on. The contact ends when the felt is no longer compressed, and
/// after [`MAX_CONTACT_SAMPLES`] steps in any case.
pub fn uncoupled_contact_curve<
    V: Copy,
    B: Fn(Binary32) -> V,
    A: Fn(HammerConfig, Binary32, V, Binary32) -> (V, Binary32),
    F: Fn(HammerConfig, Binary32) -> Binary32,
>(
    velocity: Binary32,
    sample_rate: Binary32,
    hammer: HammerConfig,
    curve: &mut [Binary32],
    begin: &B,
    advance: &A,
    force: &F,
) -> (contact: Contact)
    requires
        old(curve)@.len() == MAX_CONTACT_SAMPLES,
        forall|velocity: Binary32| begin.requires((velocity,)),
        forall|hammer: HammerConfig, rate: Binary32, moving: V, compression: Binary32|
            advance.requires((hammer, rate, moving, compression)),
        forall|hammer: HammerConfig, compression: Binary32| force.requires((hammer, compression)),
    ensures
        final(curve)@.len() == MAX_CONTACT_SAMPLES,
        contact.wf(),
        contact.over(),
        1 <= contact.active,
        is_peak(final(curve)@.take(contact.active as int), contact.peak),
        exists|states: Seq<(V, Binary32)>| #[trigger]
            is_struck_contact(
                velocity,
                sample_rate,
                hammer,
                states,
                final(curve)@.take(contact.active as int),
                *begin,
                *advance,
                *force,
            ) && states.last().1 == contact.compression,
        forall|i: int|
            contact.active <= i < MAX_CONTACT_SAMPLES ==> #[trigger] final(curve)@[i]
                == Binary32::from_bits(0),
{
    let strike = begin(string::normalise(velocity));
    assert(begin.ensures((string::normalised(velocity),), strike));
    let sane = sanitize_hammer(hammer);
    let rate = integration_rate(sample_rate);
    let mut contact = Contact::starting();
    let mut moving = strike;
    let ghost mut states: Seq<(V, Binary32)> = seq![(strike, Binary32::from_bits(0))];
    while !contact.is_over()
        invariant
            curve@.len() == MAX_CONTACT_SAMPLES,
            forall|hammer: HammerConfig, rate: Binary32, moving: V, compression: Binary32|
                advance.requires((hammer, rate, moving, compression)),
            forall|hammer: HammerConfig, compression: Binary32|
                force.requires((hammer, compression)),
            contact.wf(),
            is_peak(curve@.take(contact.active as int), contact.peak),
            is_contact(
                sane,
                rate,
                strike,
                states,
                curve@.take(contact.active as int),
                *advance,
                *force,
            ),
            states.last() == (moving, contact.compression),
        ensures
            contact.over(),
        decreases MAX_CONTACT_SAMPLES - contact.active,
    {
        let ghost forces = curve@.take(contact.active as int);
        let ghost before = (moving, contact.compression);
        let ghost peak = contact.peak;
        let (next, moved) = advance(sane, rate, moving, contact.compression);
        moving = next;
        let compression = contact.compress(moved);
        let applied = force(sane, compression);
        let index: usize = contact.active;
        curve[index] = applied;
        contact.record(applied);
        proof {
            let after = (moving, compression);
            assert(advance.ensures((sane, rate, before.0, before.1), (after.0, moved)));
            assert(steps(sane, rate, before, after, applied, *advance, *force));
            states = states.push(after);
            assert(curve@.take(contact.active as int) =~= forces.push(applied));
            lemma_peak_grows(forces, peak, applied);
        }
    }
    let mut index: usize = contact.active;
    let ghost forces = curve@.take(contact.active as int);
    while index < MAX_CONTACT_SAMPLES
        invariant
            curve@.len() == MAX_CONTACT_SAMPLES,
            contact.active <= index <= MAX_CONTACT_SAMPLES,
            curve@.take(contact.active as int) == forces,
            forall|i: int|
                contact.active <= i < index ==> #[trigger] curve@[i] == Binary32::from_bits(0),
        decreases MAX_CONTACT_SAMPLES - index,
    {
        curve[index] = Binary32::from_bits(0);
        assert(curve@.take(contact.active as int) =~= forces);
        index = index + 1;
    }
    assert(is_struck_contact(
        velocity,
        sample_rate,
        hammer,
        states,
        curve@.take(contact.active as int),
        *begin,
        *advance,
        *force,
    ));
    contact
}

/// `scaled` is `curve` with its first `active` forces divided by `peak`, where the
/// peak is large enough to divide by, and kept in `[0, 1]`.
pub open spec fn is_scaled<S: Fn(Binary32, Binary32) -> Binary32>(
    curve: Seq<Binary32>,
    active: int,
    peak: Binary32,
    scale: S,
    scaled: Seq<Binary32>,
) -> bool {
    &&& scaled.len() == curve.len()
    &&& forall|i: int|
        0 <= i < curve.len() ==> is_share(
            curve[i],
            i < active,
            peak,
            scale,
            #[trigger] scaled[i],
        )
}

/// `share` is what `force` is scaled to, where it is part of the contact.
pub open spec fn is_share<S: Fn(Binary32, Binary32) -> Binary32>(
    force: Binary32,
    in_contact: bool,
    peak: Binary32,
    scale: S,
    share: Binary32,
) -> bool {
    if !in_contact {
        share == force
    } else if Binary32::from_bits(SILENT_FORCE_BITS).below(peak) {
        exists|quotient: Binary32| #[trigger]
            scale.ensures((force, peak), quotient) && share == string::normalised(quotient)
    } else {
        share == string::normalised(force)
    }
}

/// Divides the first `active` forces of `curve` by `peak`, so that the largest is
/// one, and keeps them in `[0, 1]`. A contact without force is not divided.
pub fn normalize_by_peak<S: Fn(Binary32, Binary32) -> Binary32>(
    curve: &mut [Binary32],
    active: usize,
    peak: Binary32,
    scale: &S,
)
    requires
        active <= old(curve)@.len(),
        forall|force: Binary32, peak: Binary32| scale.requires((force, peak)),
    ensures
        is_scaled(old(curve)@, active as int, peak, *scale, final(curve)@),
        forall|i: int| 0 <= i < active ==> string::is_normalised(#[trigger] final(curve)@[i]),
{
    let has_force = Binary32::from_bits(SILENT_FORCE_BITS).lt(peak);
    let mut index: usize = 0;
    while index < active
        invariant
            has_force == Binary32::from_bits(SILENT_FORCE_BITS).below(peak),
            forall|force: Binary32, peak: Binary32| scale.requires((force, peak)),
            active <= curve@.len(),
            curve@.len() == old(curve)@.len(),
            index <= active,
            forall|i: int|
                0 <= i < index ==> is_share(
                    old(curve)@[i],
                    true,
                    peak,
                    *scale,
                    #[trigger] curve@[i],
                ) && string::is_normalised(curve@[i]),
            forall|i: int| index <= i < curve@.len() ==> #[trigger] curve@[i] == old(curve)@[i],
        decreases active - index,
    {
        let force = curve[index];
        let share = if has_force {
            let quotient = scale(force, peak);
            assert(scale.ensures((force, peak), quotient));
            string::normalise(quotient)
        } else {
            string::normalise(force)
        };
        curve[index] = share;
        index = index + 1;
    }
}

/// Integrates one contact and scales its forces so that the largest is one.
/// Returns how many of the forces in `curve` are part of the contact; the rest are
/// zero, the hammer having left the string.
///
/// Total in the velocity, the sample rate and the hammer: whatever they are, NaN and
/// infinities among them, every force is a number in `[0, 1]`.
pub fn simulate_contact<
    V: Copy,
    B: Fn(Binary32) -> V,
    A: Fn(HammerConfig, Binary32, V, Binary32) -> (V, Binary32),
    F: Fn(HammerConfig, Binary32) -> Binary32,
    S: Fn(Binary32, Binary32) -> Binary32,
>(
    velocity: Binary32,
    sample_rate: Binary32,
    hammer: HammerConfig,
    curve: &mut [Binary32],
    begin: &B,
    advance: &A,
    force: &F,
    scale: &S,
) -> (active: usize)
    requires
        old(curve)@.len() == MAX_CONTACT_SAMPLES,
        forall|velocity: Binary32| begin.requires((velocity,)),
        forall|hammer: HammerConfig, rate: Binary32, moving: V, compression: Binary32|
            advance.requires((hammer, rate, moving, compression)),
        forall|hammer: HammerConfig, compression: Binary32| force.requires((hammer, compression)),
        forall|force: Binary32, peak: Binary32| scale.requires((force, peak)),
    ensures
        final(curve)@.len() == MAX_CONTACT_SAMPLES,
        1 <= active <= MAX_CONTACT_SAMPLES,
        exists|states: Seq<(V, Binary32)>, forces: Seq<Binary32>, peak: Binary32|
            {
                &&& #[trigger] is_struck_contact(
                    velocity,
                    sample_rate,
                    hammer,
                    states,
                    forces,
                    *begin,
                    *advance,
                    *force,
                )
                &&& forces.len() == active
                &&& active == MAX_CONTACT_SAMPLES || states.last().1.at_most(
                    Binary32::from_bits(0),
                )
                &&& #[trigger] is_peak(forces, peak)
                &&& is_scaled(
                    forces,
                    active as int,
                    peak,
                    *scale,
                    final(curve)@.take(active as int),
                )
            },
        forall|i: int|
            0 <= i < MAX_CONTACT_SAMPLES ==> string::is_normalised(#[trigger] final(curve)@[i]),
        forall|i: int|
            active <= i < MAX_CONTACT_SAMPLES ==> #[trigger] final(curve)@[i]
                == Binary32::from_bits(0),
{
    let contact = uncoupled_contact_curve(
        velocity,
        sample_rate,
        hammer,
        curve,
        begin,
        advance,
        force,
    );
    let ghost raw = curve@;
    let ghost forces = raw.take(contact.active as int);
    normalize_by_peak(curve, contact.active, contact.peak, scale);
    proof {
        let states = choose|states: Seq<(V, Binary32)>| #[trigger]
            is_struck_contact(
                velocity,
                sample_rate,
                hammer,
                states,
                forces,
                *begin,
                *advance,
                *force,
            ) && states.last().1 == contact.compression;
        let scaled = curve@.take(contact.active as int);
        assert forall|i: int| 0 <= i < forces.len() implies is_share(
            forces[i],
            i < contact.active,
            contact.peak,
            *scale,
            #[trigger] scaled[i],
        ) by {
            assert(scaled[i] == curve@[i]);
        }
        assert forall|i: int| contact.active <= i < MAX_CONTACT_SAMPLES implies #[trigger] curve@[i]
            == Binary32::from_bits(0) by {
            assert(curve@[i] == raw[i]);
        }
        assert(is_scaled(forces, contact.active as int, contact.peak, *scale, scaled));
        assert(is_struck_contact(
            velocity,
            sample_rate,
            hammer,
            states,
            forces,
            *begin,
            *advance,
            *force,
        ));
        assert(is_peak(forces, contact.peak));
    }
    contact.active
}

/// A hammer on its way through a strike: where its felt is, and the noise of the
/// strike, of which every sample takes one draw.
#[derive(Debug, Clone, Copy)]
pub struct Striker<S> {
    /// Where the hammer and its felt are.
    pub felt: S,
    /// The strike's noise.
    pub noise: Xorshift32,
}

/// A hammer goes from `before` to `after` against what comes in along the string, and
/// pushes `sample`: it draws once from its noise, whatever becomes of the draw.
pub open spec fn is_taken<S, T, F: Fn(S, T, Binary32) -> (S, T)>(
    step: F,
    before: Striker<S>,
    incoming: T,
    after: Striker<S>,
    sample: T,
) -> bool {
    &&& after.noise == before.noise.stepped()
    &&& step.ensures((before.felt, incoming, before.noise.sample()), (after.felt, sample))
}

/// `left` is whether the hammer has left its string.
pub open spec fn is_left<S, L: Fn(S) -> bool>(has_left: L, hammer: Striker<S>, left: bool) -> bool {
    has_left.ensures((hammer.felt,), left)
}

impl<S: Copy> Striker<S> {
    /// Takes the hammer one sample further against what comes in along the string.
    /// `step` moves the felt, and is handed what is drawn from the noise.
    pub fn take_step<T, F: Fn(S, T, Binary32) -> (S, T)>(&mut self, incoming: T, step: &F) -> (sample:
        T)
        requires
            forall|felt: S, incoming: T, drawn: Binary32| step.requires((felt, incoming, drawn)),
        ensures
            is_taken(*step, *old(self), incoming, *final(self), sample),
    {
        let drawn = self.noise.next_bipolar();
        let (felt, sample) = step(self.felt, incoming, drawn);
        self.felt = felt;
        sample
    }
}

/// A contact that outlasts the burst it began in: the hammer is still on the
/// string, in the state `state`.
///
/// A strike writes one loop length of excitation at once; where the hammer stays
/// on the string for longer than that, the rest is injected sample by sample as
/// the string rings.
#[derive(Debug)]
pub struct PendingContact<S> {
    state: Striker<S>,
    elapsed: usize,
}

impl<S> PendingContact<S> {
    /// Where the hammer is.
    pub closed spec fn state(self) -> Striker<S> {
        self.state
    }

    /// How many samples the contact has lasted, the burst among them.
    pub closed spec fn elapsed(self) -> usize {
        self.elapsed
    }

    /// The contact has not reached its cap.
    #[verifier::type_invariant]
    spec fn under_the_cap(self) -> bool {
        self.elapsed < MAX_CONTACT_SAMPLES
    }
}

impl<S: Copy> PendingContact<S> {
    /// What is pending after the burst of a strike whose contact lasts
    /// `contact_samples` against a string that does not move: something where that
    /// is longer than the burst and the hammer has not left the string.
    pub fn after_burst(
        state: Striker<S>,
        contact_samples: usize,
        burst_length: usize,
        separated: bool,
    ) -> (pending: Option<Self>)
        requires
            contact_samples <= MAX_CONTACT_SAMPLES,
        ensures
            pending is Some <==> contact_samples > burst_length && !separated,
            pending matches Some(pending) ==> pending.state() == state && pending.elapsed()
                == burst_length,
    {
        if contact_samples > burst_length && !separated {
            Some(PendingContact { state, elapsed: burst_length })
        } else {
            None
        }
    }

    /// Takes a pending contact one sample further, against what comes in along
    /// the string, and returns what the hammer injects: silence where nothing is
    /// pending.
    ///
    /// Nothing is pending any more once the hammer has left the string, nor once
    /// the whole contact has lasted [`MAX_CONTACT_SAMPLES`], whether the hammer has
    /// left or not.
    pub fn next_contact_sample<T: Copy, F: Fn(S, T, Binary32) -> (S, T), L: Fn(S) -> bool>(
        pending: &mut Option<Self>,
        incoming: T,
        silence: T,
        step: &F,
        has_left: &L,
    ) -> (injected: T)
        requires
            forall|felt: S, incoming: T, drawn: Binary32| step.requires((felt, incoming, drawn)),
            forall|felt: S| has_left.requires((felt,)),
        ensures
            is_injected(
                waiting(*old(pending)),
                incoming,
                silence,
                *step,
                *has_left,
                waiting(*final(pending)),
                injected,
            ),
    {
        match pending.take() {
            None => silence,
            Some(contact) => {
                proof {
                    use_type_invariant(&contact);
                }
                let mut next = contact.state;
                let injected = next.take_step(incoming, step);
                let left = has_left(next.felt);
                let elapsed: usize = contact.elapsed + 1;
                if !left && elapsed < MAX_CONTACT_SAMPLES {
                    *pending = Some(PendingContact { state: next, elapsed });
                }
                assert(is_taken(*step, contact.state(), incoming, next, injected));
                assert(is_left(*has_left, next, left));
                assert(is_pushed(
                    contact.state(),
                    contact.elapsed(),
                    incoming,
                    *step,
                    *has_left,
                    waiting(*pending),
                    injected,
                ));
                injected
            },
        }
    }
}

/// Where the hammer of a pending contact is, and how long the contact has lasted.
pub open spec fn waiting<S>(pending: Option<PendingContact<S>>) -> Option<(Striker<S>, usize)> {
    match pending {
        None => None,
        Some(contact) => Some((contact.state(), contact.elapsed())),
    }
}

/// `injected` is what a contact that was pending as `before` gives against
/// `incoming`, and `after` what is pending then.
pub open spec fn is_injected<S, T, F: Fn(S, T, Binary32) -> (S, T), L: Fn(S) -> bool>(
    before: Option<(Striker<S>, usize)>,
    incoming: T,
    silence: T,
    step: F,
    has_left: L,
    after: Option<(Striker<S>, usize)>,
    injected: T,
) -> bool {
    match before {
        None => injected == silence && after is None,
        Some((state, elapsed)) => is_pushed(
            state,
            elapsed,
            incoming,
            step,
            has_left,
            after,
            injected,
        ),
    }
}

/// `injected` is what a hammer that has been on its string for `elapsed` samples
/// pushes, and `after` what is pending then.
pub open spec fn is_pushed<S, T, F: Fn(S, T, Binary32) -> (S, T), L: Fn(S) -> bool>(
    state: Striker<S>,
    elapsed: usize,
    incoming: T,
    step: F,
    has_left: L,
    after: Option<(Striker<S>, usize)>,
    injected: T,
) -> bool {
    exists|next: Striker<S>, left: bool|
        {
            &&& #[trigger] is_taken(step, state, incoming, next, injected)
            &&& #[trigger] is_left(has_left, next, left)
            &&& after == if !left && elapsed + 1 < MAX_CONTACT_SAMPLES {
                Some((next, (elapsed + 1) as usize))
            } else {
                None
            }
        }
}

} // verus!

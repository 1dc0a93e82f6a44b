//! The allpass cascade that puts upper partials sharp.
//!
//! A string is stiff, so its overtones lie above an exact harmonic series. A
//! cascade of allpass sections inside the loop bends them there: as many sections
//! as the register needs, all with one coefficient. The cascade keeps that
//! coefficient away from the unit circle; the arithmetic of one section is handed
//! in by the caller.
use crate::binary32::Binary32;
use crate::math;
use crate::outcome;
use crate::string;
use vstd::prelude::*;

verus! {

/// Highest number of sections any string uses.
pub const MAX_SECTIONS: usize = 8;

/// The same as a number.
pub const MAX_SECTIONS_BITS: u32 = 0x4100_0000;

/// Highest magnitude of a section's coefficient, 0.8: closer to the unit circle a
/// section's phase is so steep that strings a few cents apart cancel each other.
pub const MAX_COEFFICIENT_BITS: u32 = 0x3f4c_cccd;

/// The lowest coefficient, -0.8.
pub const MIN_COEFFICIENT_BITS: u32 = 0xbf4c_cccd;

/// What an unusable frequency is replaced by, 27.5 Hz, that of the lowest key.
pub const LOWEST_FREQUENCY_BITS: u32 = 0x41dc_0000;

/// A coefficient kept where a section is stable; a NaN goes to the low bound.
pub open spec fn stable(coefficient: Binary32) -> Binary32 {
    math::bounded(
        coefficient,
        Binary32::from_bits(MIN_COEFFICIENT_BITS),
        Binary32::from_bits(MAX_COEFFICIENT_BITS),
    )
}

/// An inharmonicity confined to its range.
pub open spec fn playable(inharmonicity: Binary32) -> Binary32 {
    math::bounded(
        inharmonicity,
        Binary32::from_bits(0),
        Binary32::from_bits(string::MAX_INHARMONICITY_BITS),
    )
}

/// `coefficient` is what an inharmonicity comes to, `scale` being how strongly a
/// section bends.
pub open spec fn is_coefficient<S: Fn(Binary32) -> Binary32>(
    inharmonicity: Binary32,
    scale: S,
    coefficient: Binary32,
) -> bool {
    exists|scaled: Binary32| #[trigger]
        scale.ensures((playable(inharmonicity),), scaled) && coefficient == stable(scaled)
}

/// Works out the coefficient of every section.
pub fn coefficient_from_inharmonicity<S: Fn(Binary32) -> Binary32>(
    inharmonicity: Binary32,
    scale: &S,
) -> (coefficient: Binary32)
    requires
        forall|b: Binary32| scale.requires((b,)),
    ensures
        is_coefficient(inharmonicity, *scale, coefficient),
        coefficient.within(
            Binary32::from_bits(MIN_COEFFICIENT_BITS),
            Binary32::from_bits(MAX_COEFFICIENT_BITS),
        ),
{
    let b = math::clamp_or_low(
        inharmonicity,
        Binary32::from_bits(0),
        Binary32::from_bits(string::MAX_INHARMONICITY_BITS),
    );
    let scaled = scale(b);
    assert(scale.ensures((playable(inharmonicity),), scaled));
    math::clamp_or_low(
        scaled,
        Binary32::from_bits(MIN_COEFFICIENT_BITS),
        Binary32::from_bits(MAX_COEFFICIENT_BITS),
    )
}

/// A frequency the number of sections can be worked out for.
pub open spec fn placeable(frequency: Binary32) -> Binary32 {
    if frequency.finite() && Binary32::from_bits(0).below(frequency) {
        frequency
    } else {
        Binary32::from_bits(LOWEST_FREQUENCY_BITS)
    }
}

/// The bits of a whole number and a half: `half_above(n)` is `n + 1/2`, for
/// numbers below eight.
pub open spec fn half_above(number: int) -> u32 {
    if number == 0 {
        0x3f00_0000
    } else if number == 1 {
        0x3fc0_0000
    } else if number == 2 {
        0x4020_0000
    } else if number == 3 {
        0x4060_0000
    } else if number == 4 {
        0x4090_0000
    } else if number == 5 {
        0x40b0_0000
    } else if number == 6 {
        0x40d0_0000
    } else {
        0x40f0_0000
    }
}

/// `count` is `value` rounded to a whole number, halves up: `value` lies at or
/// above `count - 1/2` and below `count + 1/2`.
pub open spec fn is_rounded(value: Binary32, count: int) -> bool {
    &&& 0 <= count <= MAX_SECTIONS
    &&& count > 0 ==> Binary32::from_bits(half_above(count - 1)).at_most(value)
    &&& count < MAX_SECTIONS ==> value.below(Binary32::from_bits(half_above(count)))
}

/// How many sections a string at `frequency` has, `wanted` being how many its
/// register asks for: that number, kept between none and the most, and rounded.
/// An unusable frequency counts as the lowest key's.
pub fn section_count<W: Fn(Binary32) -> Binary32>(frequency: Binary32, wanted: &W) -> (count: usize)
    requires
        forall|hertz: Binary32| wanted.requires((hertz,)),
    ensures
        count <= MAX_SECTIONS,
        exists|asked: Binary32| #[trigger]
            wanted.ensures((placeable(frequency),), asked) && is_rounded(
                math::bounded(
                    asked,
                    Binary32::from_bits(0),
                    Binary32::from_bits(MAX_SECTIONS_BITS),
                ),
                count as int,
            ),
{
    let hertz = if frequency.is_finite() && Binary32::from_bits(0).lt(frequency) {
        frequency
    } else {
        Binary32::from_bits(LOWEST_FREQUENCY_BITS)
    };
    let asked = wanted(hertz);
    let value = math::clamp_or_low(
        asked,
        Binary32::from_bits(0),
        Binary32::from_bits(MAX_SECTIONS_BITS),
    );
    let count = rounded(value);
    assert(wanted.ensures((placeable(frequency),), asked));
    count
}

/// Rounds a number between zero and eight, halves up.
fn rounded(value: Binary32) -> (count: usize)
    requires
        value.within(Binary32::from_bits(0), Binary32::from_bits(MAX_SECTIONS_BITS)),
    ensures
        is_rounded(value, count as int),
{
    if value.lt(Binary32::from_bits(0x3f00_0000)) {
        0
    } else if value.lt(Binary32::from_bits(0x3fc0_0000)) {
        1
    } else if value.lt(Binary32::from_bits(0x4020_0000)) {
        2
    } else if value.lt(Binary32::from_bits(0x4060_0000)) {
        3
    } else if value.lt(Binary32::from_bits(0x4090_0000)) {
        4
    } else if value.lt(Binary32::from_bits(0x40b0_0000)) {
        5
    } else if value.lt(Binary32::from_bits(0x40d0_0000)) {
        6
    } else if value.lt(Binary32::from_bits(0x40f0_0000)) {
        7
    } else {
        8
    }
}

/// One allpass section.
#[derive(Debug, Clone, Copy, PartialEq, Eq, Structural)]
pub struct Section {
    /// How far it bends.
    pub coefficient: Binary32,
    /// Its memory.
    pub state: Binary32,
}

/// A section takes `input` and gives `output`: `feed` takes the input, the
/// coefficient and the memory to the next memory, and `emit` takes the
/// coefficient and both memories to the output.
pub open spec fn passes<
    F: Fn(Binary32, Binary32, Binary32) -> Binary32,
    E: Fn(Binary32, Binary32, Binary32) -> Binary32,
>(
    before: Section,
    input: Binary32,
    after: Section,
    output: Binary32,
    feed: F,
    emit: E,
) -> bool {
    &&& after.coefficient == before.coefficient
    &&& exists|fed: Binary32| #[trigger]
        feed.ensures((input, before.coefficient, before.state), fed) && after.state
            == math::flushed(fed)
    &&& emit.ensures((before.coefficient, after.state, before.state), output)
}

/// A cascade of sections with one coefficient, of which the first few are active.
#[derive(Debug, Clone)]
pub struct DispersionCascade {
    sections: Vec<Section>,
    active: usize,
}

impl DispersionCascade {
    /// The sections, active or not.
    pub closed spec fn view(&self) -> Seq<Section> {
        self.sections@
    }

    /// How many sections are active.
    pub closed spec fn active(&self) -> usize {
        self.active
    }

    /// There are as many sections as there can be, and no more are active.
    pub open spec fn wf(&self) -> bool {
        self@.len() == MAX_SECTIONS && self.active() <= MAX_SECTIONS
    }

    /// No section remembers anything.
    pub open spec fn is_still(&self) -> bool {
        forall|i: int|
            0 <= i < MAX_SECTIONS ==> (#[trigger] self@[i]).state == Binary32::from_bits(0)
    }

    /// Builds a cascade for a string at `frequency` with `inharmonicity`.
    pub fn new<W: Fn(Binary32) -> Binary32, S: Fn(Binary32) -> Binary32>(
        frequency: Binary32,
        inharmonicity: Binary32,
        wanted: &W,
        scale: &S,
    ) -> (cascade: Self)
        requires
            forall|hertz: Binary32| wanted.requires((hertz,)),
            forall|b: Binary32| scale.requires((b,)),
        ensures
            cascade.wf(),
            is_voiced(frequency, inharmonicity, *wanted, *scale, cascade),
            cascade.is_still(),
    {
        let coefficient = coefficient_from_inharmonicity(inharmonicity, scale);
        let active = section_count(frequency, wanted);
        let mut sections: Vec<Section> = Vec::with_capacity(MAX_SECTIONS);
        while sections.len() < MAX_SECTIONS
            invariant
                sections@.len() <= MAX_SECTIONS,
                forall|i: int|
                    0 <= i < sections@.len() ==> #[trigger] sections@[i] == (Section {
                        coefficient,
                        state: Binary32::from_bits(0),
                    }),
            decreases MAX_SECTIONS - sections@.len(),
        {
            sections.push(Section { coefficient, state: Binary32::from_bits(0) });
        }
        DispersionCascade { sections, active }
    }

    /// Changes the inharmonicity without touching what the sections remember. How
    /// many are active depends on the register alone, and stays.
    pub fn set_inharmonicity<S: Fn(Binary32) -> Binary32>(
        &mut self,
        inharmonicity: Binary32,
        scale: &S,
    )
        requires
            old(self).wf(),
            forall|b: Binary32| scale.requires((b,)),
        ensures
            final(self).wf(),
            final(self).active() == old(self).active(),
            exists|coefficient: Binary32| #[trigger]
                is_coefficient(inharmonicity, *scale, coefficient) && forall|i: int|
                    0 <= i < MAX_SECTIONS ==> #[trigger] final(self)@[i] == (Section {
                        coefficient,
                        ..old(self)@[i]
                    }),
    {
        let coefficient = coefficient_from_inharmonicity(inharmonicity, scale);
        let mut index: usize = 0;
        while index < MAX_SECTIONS
            invariant
                index <= MAX_SECTIONS,
                self.wf(),
                old(self).wf(),
                self.active() == old(self).active(),
                forall|i: int|
                    0 <= i < index ==> #[trigger] self@[i] == (Section {
                        coefficient,
                        ..old(self)@[i]
                    }),
                forall|i: int| index <= i < MAX_SECTIONS ==> #[trigger] self@[i] == old(self)@[i],
            decreases MAX_SECTIONS - index,
        {
            let state = self.sections[index].state;
            self.sections.set(index, Section { coefficient, state });
            index = index + 1;
        }
    }

    /// Runs a signal through every active section, in order.
    pub fn process<
        F: Fn(Binary32, Binary32, Binary32) -> Binary32,
        E: Fn(Binary32, Binary32, Binary32) -> Binary32,
    >(&mut self, input: Binary32, feed: &F, emit: &E) -> (output: Binary32)
        requires
            old(self).wf(),
            forall|a: Binary32, b: Binary32, c: Binary32| feed.requires((a, b, c)),
            forall|a: Binary32, b: Binary32, c: Binary32| emit.requires((a, b, c)),
        ensures
            final(self).wf(),
            final(self).active() == old(self).active(),
            is_bent(
                old(self)@,
                old(self).active() as int,
                input,
                *feed,
                *emit,
                final(self)@,
                output,
            ),
    {
        let mut sample = input;
        let ghost mut signals: Seq<Binary32> = seq![input];
        let mut index: usize = 0;
        while index < self.active
            invariant
                index <= self.active(),
                self.wf(),
                old(self).wf(),
                self.active() == old(self).active(),
                forall|a: Binary32, b: Binary32, c: Binary32| feed.requires((a, b, c)),
                forall|a: Binary32, b: Binary32, c: Binary32| emit.requires((a, b, c)),
                signals.len() == index + 1,
                signals[0] == input,
                signals.last() == sample,
                are_passed(old(self)@, self@, signals, *feed, *emit),
                forall|i: int| index <= i < MAX_SECTIONS ==> #[trigger] self@[i] == old(self)@[i],
            decreases self.active() - index,
        {
            let section = self.sections[index];
            let fed = feed(sample, section.coefficient, section.state);
            let state = math::flush_denormal(fed);
            let emitted = emit(section.coefficient, state, section.state);
            let ghost before = self@;
            let ghost shorter = signals;
            self.sections.set(index, Section { coefficient: section.coefficient, state });
            proof {
                signals = signals.push(emitted);
                assert(before[index as int] == old(self)@[index as int]);
                assert(feed.ensures((sample, section.coefficient, section.state), fed));
                assert forall|i: int| 0 <= i < signals.len() - 1 implies passes(
                    old(self)@[i],
                    signals[i],
                    #[trigger] self@[i],
                    signals[i + 1],
                    *feed,
                    *emit,
                ) by {
                    if i < index {
                        assert(self@[i] == before[i]);
                        assert(signals[i] == shorter[i] && signals[i + 1] == shorter[i + 1]);
                    }
                }
            }
            sample = emitted;
            index = index + 1;
        }
        sample
    }

    /// Clears what every section remembers.
    pub fn reset(&mut self)
        requires
            old(self).wf(),
        ensures
            final(self).wf(),
            final(self).active() == old(self).active(),
            forall|i: int|
                0 <= i < MAX_SECTIONS ==> #[trigger] final(self)@[i] == (Section {
                    state: Binary32::from_bits(0),
                    ..old(self)@[i]
                }),
    {
        let mut index: usize = 0;
        while index < MAX_SECTIONS
            invariant
                index <= MAX_SECTIONS,
                self.wf(),
                old(self).wf(),
                self.active() == old(self).active(),
                forall|i: int|
                    0 <= i < index ==> #[trigger] self@[i] == (Section {
                        state: Binary32::from_bits(0),
                        ..old(self)@[i]
                    }),
                forall|i: int| index <= i < MAX_SECTIONS ==> #[trigger] self@[i] == old(self)@[i],
            decreases MAX_SECTIONS - index,
        {
            let coefficient = self.sections[index].coefficient;
            self.sections.set(index, Section { coefficient, state: Binary32::from_bits(0) });
            index = index + 1;
        }
    }

    /// How many sections are active.
    pub fn active_sections(&self) -> (active: usize)
        ensures
            active == self.active(),
    {
        self.active
    }

    /// The coefficient of every section.
    pub fn coefficient(&self) -> (coefficient: Binary32)
        requires
            self.wf(),
        ensures
            coefficient == self@[0].coefficient,
    {
        self.sections[0].coefficient
    }
}

/// `cascade` is that of a string at `frequency` with `inharmonicity`: it has as many
/// active sections as the register asks for, and one coefficient.
pub open spec fn is_voiced<W: Fn(Binary32) -> Binary32, S: Fn(Binary32) -> Binary32>(
    frequency: Binary32,
    inharmonicity: Binary32,
    wanted: W,
    scale: S,
    cascade: DispersionCascade,
) -> bool {
    exists|asked: Binary32, coefficient: Binary32|
        {
            &&& #[trigger] wanted.ensures((placeable(frequency),), asked)
            &&& is_rounded(
                math::bounded(
                    asked,
                    Binary32::from_bits(0),
                    Binary32::from_bits(MAX_SECTIONS_BITS),
                ),
                cascade.active() as int,
            )
            &&& #[trigger] is_coefficient(inharmonicity, scale, coefficient)
            &&& forall|i: int|
                0 <= i < MAX_SECTIONS ==> (#[trigger] cascade@[i]).coefficient == coefficient
        }
}

/// Sections of which the first `active` are active take `input` and give `output`:
/// every active one passes what it gets on to the next, and the others rest.
pub open spec fn is_bent<
    F: Fn(Binary32, Binary32, Binary32) -> Binary32,
    E: Fn(Binary32, Binary32, Binary32) -> Binary32,
>(
    before: Seq<Section>,
    active: int,
    input: Binary32,
    feed: F,
    emit: E,
    after: Seq<Section>,
    output: Binary32,
) -> bool {
    &&& after.len() == before.len()
    &&& exists|signals: Seq<Binary32>|
        {
            &&& signals.len() == active + 1
            &&& signals[0] == input
            &&& signals.last() == output
            &&& #[trigger] are_passed(before, after, signals, feed, emit)
        }
    &&& forall|i: int| active <= i < before.len() ==> #[trigger] after[i] == before[i]
}

/// Bending has one outcome where its steps do.
pub proof fn bending_is_decided<
    F: Fn(Binary32, Binary32, Binary32) -> Binary32,
    E: Fn(Binary32, Binary32, Binary32) -> Binary32,
>(
    before: Seq<Section>,
    active: int,
    input: Binary32,
    feed: F,
    emit: E,
    after: Seq<Section>,
    output: Binary32,
    other: Seq<Section>,
    other_output: Binary32,
)
    requires
        0 <= active <= before.len(),
        outcome::decided_by_three(feed),
        outcome::decided_by_three(emit),
        is_bent(before, active, input, feed, emit, after, output),
        is_bent(before, active, input, feed, emit, other, other_output),
    ensures
        after == other,
        output == other_output,
{
    let signals = choose|signals: Seq<Binary32>|
        {
            &&& signals.len() == active + 1
            &&& signals[0] == input
            &&& signals.last() == output
            &&& #[trigger] are_passed(before, after, signals, feed, emit)
        };
    let others = choose|signals: Seq<Binary32>|
        {
            &&& signals.len() == active + 1
            &&& signals[0] == input
            &&& signals.last() == other_output
            &&& #[trigger] are_passed(before, other, signals, feed, emit)
        };
    lemma_passed_alike(before, feed, emit, after, signals, other, others, active);
    assert forall|i: int| 0 <= i < before.len() implies after[i] == other[i] by {
        if i < active {
            lemma_passed_alike(before, feed, emit, after, signals, other, others, i);
            lemma_passed_alike(before, feed, emit, after, signals, other, others, i + 1);
        }
    }
    assert(after =~= other);
}

/// The signals of two runs agree up to any section.
proof fn lemma_passed_alike<
    F: Fn(Binary32, Binary32, Binary32) -> Binary32,
    E: Fn(Binary32, Binary32, Binary32) -> Binary32,
>(
    before: Seq<Section>,
    feed: F,
    emit: E,
    after: Seq<Section>,
    signals: Seq<Binary32>,
    other: Seq<Section>,
    others: Seq<Binary32>,
    count: int,
)
    requires
        outcome::decided_by_three(feed),
        outcome::decided_by_three(emit),
        0 <= count < signals.len(),
        signals.len() == others.len() <= before.len() + 1,
        signals[0] == others[0],
        are_passed(before, after, signals, feed, emit),
        are_passed(before, other, others, feed, emit),
    ensures
        signals[count] == others[count],
        count > 0 ==> after[count - 1] == other[count - 1],
    decreases count,
{
    if count > 0 {
        lemma_passed_alike(before, feed, emit, after, signals, other, others, count - 1);
        let i = count - 1;
        assert(passes(before[i], signals[i], after[i], signals[i + 1], feed, emit));
        assert(passes(before[i], others[i], other[i], others[i + 1], feed, emit));
    }
}

/// The first sections pass every one of `signals` on to the next.
pub open spec fn are_passed<
    F: Fn(Binary32, Binary32, Binary32) -> Binary32,
    E: Fn(Binary32, Binary32, Binary32) -> Binary32,
>(
    before: Seq<Section>,
    after: Seq<Section>,
    signals: Seq<Binary32>,
    feed: F,
    emit: E,
) -> bool {
    forall|i: int|
        0 <= i < signals.len() - 1 ==> passes(
            before[i],
            signals[i],
            #[trigger] after[i],
            signals[i + 1],
            feed,
            emit,
        )
}

} // verus!

//! A note's own unison strings, struck together by one hammer.
//!
//! Most piano notes are struck by more than one string, tuned very slightly
//! apart. A standard piano is single-strung in the bass, double-strung through
//! the tenor and triple-strung above; the strings of a note beat against each
//! other, which gives it its two-stage decay.
use crate::binary32::Binary32;
use crate::hammer::HammerConfig;
use crate::string;
use crate::string::{normalise, LoopTuning, PluckedString, StringConfig};
use crate::units::{Hz, ParamError, SampleRate};
use vstd::prelude::*;

verus! {

/// The most strings a piano note is ever struck by.
pub const MAX_UNISON_STRINGS: usize = 3;

/// How strongly a note's own strings couple to each other by default, 0.15.
pub const DEFAULT_LOCAL_COUPLING_GAIN_BITS: u32 = 0x3e19_999a;

/// How strongly a note couples to the shared bridge by default, 0.08.
pub const DEFAULT_GLOBAL_COUPLING_GAIN_BITS: u32 = 0x3da3_d70a;

/// Flat string of a pair, -2.5 cents.
pub const PAIR_FLAT_CENTS_BITS: u32 = 0xc020_0000;

/// Sharp string of a pair, 2.5 cents.
pub const PAIR_SHARP_CENTS_BITS: u32 = 0x4020_0000;

/// Flat string of three, -4 cents.
pub const TRIPLE_FLAT_CENTS_BITS: u32 = 0xc080_0000;

/// Sharp string of three, 4 cents.
pub const TRIPLE_SHARP_CENTS_BITS: u32 = 0x4080_0000;

/// Keys from the bottom that have one string.
pub const MONOCHORD_KEYS: u8 = 12;

/// Keys above those that have two.
pub const BICHORD_KEYS: u8 = 18;

/// Mixed into the seed of a note's second string.
pub const SECOND_SEED_MASK: u32 = 0x9E37_79B1;

/// Mixed into the seed of a note's third string.
pub const THIRD_SEED_MASK: u32 = 0x85EB_CA77;

/// The number of strings of the key `key_index`, counted from the lowest.
pub open spec fn strings_of_key(key_index: int) -> int {
    if key_index < MONOCHORD_KEYS {
        1
    } else if key_index < MONOCHORD_KEYS + BICHORD_KEYS {
        2
    } else {
        3
    }
}

/// A requested number of strings, confined to what a note can have.
pub open spec fn granted_strings(requested: int) -> int {
    if requested < 1 {
        1
    } else if requested > MAX_UNISON_STRINGS {
        MAX_UNISON_STRINGS as int
    } else {
        requested
    }
}

/// What string `index` of a note mixes into the note's seed.
pub open spec fn seed_mask(index: int) -> u32 {
    if index == 1 {
        SECOND_SEED_MASK
    } else if index == 2 {
        THIRD_SEED_MASK
    } else {
        0
    }
}

/// How many cents string `index` of `count` is tuned away from the note.
pub open spec fn cents_apart(count: int, index: int) -> u32 {
    if count == 2 && index == 0 {
        PAIR_FLAT_CENTS_BITS
    } else if count == 2 && index == 1 {
        PAIR_SHARP_CENTS_BITS
    } else if count == 3 && index == 0 {
        TRIPLE_FLAT_CENTS_BITS
    } else if count == 3 && index == 2 {
        TRIPLE_SHARP_CENTS_BITS
    } else {
        0
    }
}

/// Standard unison count for `key_index`, zero being the lowest key.
pub fn unison_count_for_key_index(key_index: u8) -> (count: usize)
    ensures
        count == strings_of_key(key_index as int),
{
    if key_index < MONOCHORD_KEYS {
        1
    } else if key_index < MONOCHORD_KEYS + BICHORD_KEYS {
        2
    } else {
        3
    }
}

/// How far, in cents, string `string_index` of `count` is detuned. Nothing for
/// a single string, and nothing for an index the note does not have.
pub fn detune_cents(count: usize, string_index: usize) -> (cents: Binary32)
    ensures
        cents == Binary32::from_bits(cents_apart(count as int, string_index as int)),
{
    if count == 2 && string_index == 0 {
        Binary32::from_bits(PAIR_FLAT_CENTS_BITS)
    } else if count == 2 && string_index == 1 {
        Binary32::from_bits(PAIR_SHARP_CENTS_BITS)
    } else if count == 3 && string_index == 0 {
        Binary32::from_bits(TRIPLE_FLAT_CENTS_BITS)
    } else if count == 3 && string_index == 2 {
        Binary32::from_bits(TRIPLE_SHARP_CENTS_BITS)
    } else {
        Binary32::from_bits(0)
    }
}

/// Derives string `string_index`'s own seed from the note's, so that every
/// string draws its own noise and a render is still reproducible. An index the
/// note cannot have keeps the note's seed.
pub fn reseed_for_string(base_seed: u32, string_index: usize) -> (seed: u32)
    ensures
        seed == base_seed ^ seed_mask(string_index as int),
{
    let mask: u32 = if string_index == 1 {
        SECOND_SEED_MASK
    } else if string_index == 2 {
        THIRD_SEED_MASK
    } else {
        0
    };
    base_seed ^ mask
}

/// The strings of one note never share a seed.
pub proof fn seeds_differ(base_seed: u32, left: int, right: int)
    requires
        0 <= left < MAX_UNISON_STRINGS,
        0 <= right < MAX_UNISON_STRINGS,
        left != right,
    ensures
        base_seed ^ seed_mask(left) != base_seed ^ seed_mask(right),
{
    lemma_masks_differ(base_seed);
}

proof fn lemma_masks_differ(base_seed: u32)
    by (bit_vector)
    ensures
        base_seed ^ 0u32 != base_seed ^ 0x9E37_79B1u32,
        base_seed ^ 0u32 != base_seed ^ 0x85EB_CA77u32,
        base_seed ^ 0x9E37_79B1u32 != base_seed ^ 0x85EB_CA77u32,
{
}

/// What one string of a note has to be tuned to, and what that comes to.
#[derive(Debug, Clone, Copy, PartialEq, Eq, Structural)]
pub struct StringTuning {
    /// The note's frequency, moved by [`detune_cents`].
    pub detuned: Binary32,
    /// The loop that frequency needs.
    pub tuning: LoopTuning,
}

/// The configuration of string `index` of a note voiced by `base`.
pub open spec fn config_of_string(
    base: StringConfig,
    index: int,
    detuned: Binary32,
) -> StringConfig {
    StringConfig {
        frequency: base.frequency.kept(detuned),
        seed: base.seed ^ seed_mask(index),
        ..base
    }
}

/// The configuration of string `index` of a note voiced by `base`: its own
/// frequency, or the note's where the detuned one is not usable, and its own
/// seed.
pub fn string_config(base: StringConfig, index: usize, detuned: Binary32) -> (config: StringConfig)
    ensures
        config == config_of_string(base, index as int, detuned),
        config.frequency.value() == if crate::units::usable(detuned) {
            detuned
        } else {
            base.frequency.value()
        },
{
    let mut config = base;
    config.frequency = base.frequency.or_keep(detuned);
    config.seed = reseed_for_string(base.seed, index);
    config
}

/// A group of one to three strings struck together.
#[derive(Debug, Clone, Copy, PartialEq, Eq, Structural)]
pub struct UnisonGroup {
    /// The frequency the strings are spread around.
    pub base: Hz,
    /// The first string, which every note has.
    pub first: PluckedString,
    /// The second string.
    pub second: Option<PluckedString>,
    /// The third string.
    pub third: Option<PluckedString>,
    /// How strongly the group's strings couple to each other.
    pub local_coupling_gain: Binary32,
    /// How strongly the group couples to the shared bridge.
    pub global_coupling_gain: Binary32,
}

/// String `index` of a group still to be built.
pub open spec fn string_of(
    base: StringConfig,
    tunings: Seq<StringTuning>,
    index: int,
) -> PluckedString {
    string::idle_string(
        config_of_string(base, index, tunings[index].detuned),
        tunings[index].tuning,
    )
}

/// A group of `count` idle strings.
pub open spec fn idle_group(
    base: StringConfig,
    count: int,
    tunings: Seq<StringTuning>,
) -> UnisonGroup {
    UnisonGroup {
        base: base.frequency,
        first: string_of(base, tunings, 0),
        second: if count >= 2 {
            Some(string_of(base, tunings, 1))
        } else {
            None
        },
        third: if count >= 3 {
            Some(string_of(base, tunings, 2))
        } else {
            None
        },
        local_coupling_gain: Binary32::from_bits(DEFAULT_LOCAL_COUPLING_GAIN_BITS),
        global_coupling_gain: Binary32::from_bits(DEFAULT_GLOBAL_COUPLING_GAIN_BITS),
    }
}

/// The first of the strings `from..count` whose loop is too short, or `count`.
pub open spec fn first_too_short(tunings: Seq<StringTuning>, from: int, count: int) -> int
    decreases count - from,
{
    if from >= count || string::too_short(tunings[from].tuning) {
        from
    } else {
        first_too_short(tunings, from + 1, count)
    }
}

/// `after` is a string that may be missing, retuned where it was `chosen`.
pub open spec fn is_tuned_where<R: Fn(PluckedString) -> Binary32>(
    before: Option<PluckedString>,
    chosen: bool,
    retuned: R,
    after: Option<PluckedString>,
) -> bool {
    match (before, after) {
        (Some(before), Some(after)) => if chosen {
            string::is_retuned(before, retuned, after)
        } else {
            after == before
        },
        (None, None) => true,
        _ => false,
    }
}

/// Whether string `index` is the one chosen, or one of all.
pub open spec fn is_chosen(chosen: Option<int>, index: int) -> bool {
    chosen is None || chosen == Some(index)
}

/// `after` is `before` with the loop of the `chosen` string retuned, or those of all.
pub open spec fn is_tuned<R: Fn(PluckedString) -> Binary32>(
    before: UnisonGroup,
    chosen: Option<int>,
    retuned: R,
    after: UnisonGroup,
) -> bool {
    &&& after == UnisonGroup {
        first: after.first,
        second: after.second,
        third: after.third,
        ..before
    }
    &&& is_tuned_where(Some(before.first), is_chosen(chosen, 0), retuned, Some(after.first))
    &&& is_tuned_where(before.second, is_chosen(chosen, 1), retuned, after.second)
    &&& is_tuned_where(before.third, is_chosen(chosen, 2), retuned, after.third)
}

/// `change` applied to a string that may be missing.
pub open spec fn changed(
    string: Option<PluckedString>,
    change: spec_fn(PluckedString) -> PluckedString,
) -> Option<PluckedString> {
    match string {
        Some(string) => Some(change(string)),
        None => None,
    }
}

/// What a string adds to the number of receptive ones.
pub open spec fn receptive_part(string: Option<PluckedString>) -> int {
    if string matches Some(string) && !string.damper_engaged {
        1
    } else {
        0
    }
}

impl UnisonGroup {
    /// Every string is well formed, no string is missing below another, and
    /// both gains are inside `[0, 1]`.
    pub open spec fn wf(self) -> bool {
        &&& self.first.wf()
        &&& self.second matches Some(second) ==> second.wf()
        &&& self.third matches Some(third) ==> third.wf()
        &&& self.third is Some ==> self.second is Some
        &&& string::is_normalised(self.local_coupling_gain)
        &&& string::is_normalised(self.global_coupling_gain)
    }

    /// The number of strings.
    pub open spec fn count(self) -> int {
        if self.third is Some {
            3
        } else if self.second is Some {
            2
        } else {
            1
        }
    }

    /// String `index`, where the group has it.
    pub open spec fn at(self, index: int) -> Option<PluckedString> {
        if index == 0 {
            Some(self.first)
        } else if index == 1 {
            self.second
        } else if index == 2 {
            self.third
        } else {
            None
        }
    }

    /// The group with `change` made to every string.
    pub open spec fn each(self, change: spec_fn(PluckedString) -> PluckedString) -> Self {
        UnisonGroup {
            first: change(self.first),
            second: changed(self.second, change),
            third: changed(self.third, change),
            ..self
        }
    }

    /// The group with `change` made to string `index`, or to none where the
    /// group has no such string.
    pub open spec fn only(
        self,
        index: int,
        change: spec_fn(PluckedString) -> PluckedString,
    ) -> Self {
        if index == 0 {
            UnisonGroup { first: change(self.first), ..self }
        } else if index == 1 {
            UnisonGroup { second: changed(self.second, change), ..self }
        } else if index == 2 {
            UnisonGroup { third: changed(self.third, change), ..self }
        } else {
            self
        }
    }

    /// The group with string `index` tuned to `moved` hertz, or to the group's own
    /// frequency where that is not usable.
    pub open spec fn moved_to(self, index: int, moved: Binary32) -> Self {
        self.only(
            index,
            |s: PluckedString| PluckedString { frequency: self.base.kept(moved), ..s },
        )
    }

    /// Every string has decayed below audibility.
    pub open spec fn silent(self) -> bool {
        &&& self.first.silent()
        &&& self.second matches Some(second) ==> second.silent()
        &&& self.third matches Some(third) ==> third.silent()
    }

    /// At least one string's damper is up.
    pub open spec fn receptive(self) -> bool {
        ||| !self.first.damper_engaged
        ||| self.second matches Some(second) && !second.damper_engaged
        ||| self.third matches Some(third) && !third.damper_engaged
    }

    /// Builds a group of `unison_count` strings (clamped into one to three)
    /// around `base_config`'s frequency, each with its own tuning and seed.
    ///
    /// Fails with the error of the first string that cannot be represented at
    /// `sample_rate`.
    pub fn new(
        base_config: StringConfig,
        unison_count: usize,
        sample_rate: SampleRate,
        tunings: &Vec<StringTuning>,
    ) -> (result: Result<Self, ParamError>)
        requires
            tunings@.len() >= granted_strings(unison_count as int),
        ensures
            ({
                let count = granted_strings(unison_count as int);
                let failing = first_too_short(tunings@, 0, count);
                if failing == count {
                    &&& result == Ok::<Self, ParamError>(idle_group(base_config, count, tunings@))
                    &&& idle_group(base_config, count, tunings@).wf()
                } else {
                    result == Err::<Self, ParamError>(
                        string::unrepresentable(
                            config_of_string(base_config, failing, tunings@[failing].detuned),
                            sample_rate,
                            tunings@[failing].tuning,
                        ),
                    )
                }
            }),
    {
        let count: usize = if unison_count < 1 {
            1
        } else if unison_count > MAX_UNISON_STRINGS {
            MAX_UNISON_STRINGS
        } else {
            unison_count
        };
        proof {
            reveal_with_fuel(first_too_short, 4);
        }
        let first = match Self::build_string(base_config, 0, sample_rate, tunings[0]) {
            Ok(string) => string,
            Err(error) => {
                return Err(error);
            },
        };
        let mut second: Option<PluckedString> = None;
        let mut third: Option<PluckedString> = None;
        if count >= 2 {
            match Self::build_string(base_config, 1, sample_rate, tunings[1]) {
                Ok(string) => {
                    second = Some(string);
                },
                Err(error) => {
                    return Err(error);
                },
            }
        }
        if count >= 3 {
            match Self::build_string(base_config, 2, sample_rate, tunings[2]) {
                Ok(string) => {
                    third = Some(string);
                },
                Err(error) => {
                    return Err(error);
                },
            }
        }
        Ok(
            UnisonGroup {
                base: base_config.frequency,
                first,
                second,
                third,
                local_coupling_gain: Binary32::from_bits(DEFAULT_LOCAL_COUPLING_GAIN_BITS),
                global_coupling_gain: Binary32::from_bits(DEFAULT_GLOBAL_COUPLING_GAIN_BITS),
            },
        )
    }

    /// Builds string `index` of a group.
    fn build_string(
        base_config: StringConfig,
        index: usize,
        sample_rate: SampleRate,
        tuning: StringTuning,
    ) -> (result: Result<PluckedString, ParamError>)
        ensures
            ({
                let config = config_of_string(base_config, index as int, tuning.detuned);
                let built = string::idle_string(config, tuning.tuning);
                if string::too_short(tuning.tuning) {
                    result == Err::<PluckedString, ParamError>(
                        string::unrepresentable(config, sample_rate, tuning.tuning),
                    )
                } else {
                    result == Ok::<PluckedString, ParamError>(built) && built.wf()
                }
            }),
    {
        let config = string_config(base_config, index, tuning.detuned);
        PluckedString::new(config, sample_rate, tuning.tuning)
    }

    /// The number of strings in the group.
    pub fn len(&self) -> (count: usize)
        ensures
            count == self.count(),
    {
        if self.third.is_some() {
            3
        } else if self.second.is_some() {
            2
        } else {
            1
        }
    }

    /// String `index`, where the group has it.
    pub fn string(&self, index: usize) -> (string: Option<PluckedString>)
        ensures
            string == self.at(index as int),
    {
        if index == 0 {
            Some(self.first)
        } else if index == 1 {
            self.second
        } else if index == 2 {
            self.third
        } else {
            None
        }
    }

    /// Puts `string` in place of string `index`; nothing where the group has no
    /// such string.
    pub fn replace_string(&mut self, index: usize, string: PluckedString)
        ensures
            *final(self) == old(self).only(index as int, |old_string: PluckedString| string),
            old(self).wf() && string.wf() ==> final(self).wf(),
    {
        if index == 0 {
            self.first = string;
        } else if index == 1 {
            if self.second.is_some() {
                self.second = Some(string);
            }
        } else if index == 2 {
            if self.third.is_some() {
                self.third = Some(string);
            }
        }
    }

    /// Takes note of a strike on every string in the group.
    pub fn mark_struck(&mut self, velocity: Binary32)
        ensures
            *final(self) == old(self).each(|s: PluckedString| s.plucked(velocity)),
            old(self).wf() ==> final(self).wf(),
    {
        self.first.mark_struck(velocity);
        if let Some(second) = &mut self.second {
            second.mark_struck(velocity);
        }
        if let Some(third) = &mut self.third {
            third.mark_struck(velocity);
        }
    }

    /// Releases every string in the group.
    pub fn release(&mut self)
        ensures
            *final(self) == old(self).each(|s: PluckedString| s.released()),
            old(self).wf() ==> final(self).wf(),
    {
        self.first.release();
        if let Some(second) = &mut self.second {
            second.release();
        }
        if let Some(third) = &mut self.third {
            third.release();
        }
    }

    /// Lifts every string's damper without a strike.
    pub fn lift_damper(&mut self)
        ensures
            *final(self) == old(self).each(|s: PluckedString| s.lifted()),
            old(self).wf() ==> final(self).wf(),
    {
        self.first.lift_damper();
        if let Some(second) = &mut self.second {
            second.lift_damper();
        }
        if let Some(third) = &mut self.third {
            third.lift_damper();
        }
    }

    /// Applies a new damping to every string in the group, and retunes every loop.
    pub fn set_damping<R: Fn(PluckedString) -> Binary32>(&mut self, damping: Binary32, retuned: &R)
        requires
            old(self).wf(),
            forall|string: PluckedString| retuned.requires((string,)),
        ensures
            is_tuned(
                old(self).each(|s: PluckedString| s.damped_by(damping)),
                None,
                *retuned,
                *final(self),
            ),
            final(self).wf(),
    {
        self.first.set_damping(damping, retuned);
        if let Some(second) = &mut self.second {
            second.set_damping(damping, retuned);
        }
        if let Some(third) = &mut self.third {
            third.set_damping(damping, retuned);
        }
    }

    /// Applies a new sustain to every string in the group.
    pub fn set_sustain(&mut self, sustain: Binary32)
        ensures
            *final(self) == old(self).each(|s: PluckedString| s.sustained_by(sustain)),
            old(self).wf() ==> final(self).wf(),
    {
        self.first.set_sustain(sustain);
        if let Some(second) = &mut self.second {
            second.set_sustain(sustain);
        }
        if let Some(third) = &mut self.third {
            third.set_sustain(sustain);
        }
    }

    /// Adjusts how strongly the group's own strings couple to each other.
    pub fn set_local_coupling_gain(&mut self, gain: Binary32)
        ensures
            *final(self) == (UnisonGroup {
                local_coupling_gain: string::normalised(gain),
                ..*old(self)
            }),
            old(self).wf() ==> final(self).wf(),
    {
        self.local_coupling_gain = normalise(gain);
    }

    /// Adjusts how strongly the group couples to the shared bridge.
    pub fn set_global_coupling_gain(&mut self, gain: Binary32)
        ensures
            *final(self) == (UnisonGroup {
                global_coupling_gain: string::normalised(gain),
                ..*old(self)
            }),
            old(self).wf() ==> final(self).wf(),
    {
        self.global_coupling_gain = normalise(gain);
    }

    /// Sets one string's damping, and retunes its loop. An index the group does not
    /// have changes nothing, here and in every setter of one string.
    pub fn set_string_damping<R: Fn(PluckedString) -> Binary32>(
        &mut self,
        index: usize,
        damping: Binary32,
        retuned: &R,
    )
        requires
            old(self).wf(),
            forall|string: PluckedString| retuned.requires((string,)),
        ensures
            is_tuned(
                old(self).only(index as int, |s: PluckedString| s.damped_by(damping)),
                Some(index as int),
                *retuned,
                *final(self),
            ),
            final(self).wf(),
    {
        if let Some(mut string) = self.string(index) {
            string.set_damping(damping, retuned);
            self.replace_string(index, string);
        }
    }

    /// Sets one string's sustain.
    pub fn set_string_sustain(&mut self, index: usize, sustain: Binary32)
        ensures
            *final(self) == old(self).only(
                index as int,
                |s: PluckedString| s.sustained_by(sustain),
            ),
            old(self).wf() ==> final(self).wf(),
    {
        if let Some(mut string) = self.string(index) {
            string.set_sustain(sustain);
            self.replace_string(index, string);
        }
    }

    /// Sets one string's inharmonicity coefficient, and retunes its loop.
    pub fn set_string_inharmonicity<R: Fn(PluckedString) -> Binary32>(
        &mut self,
        index: usize,
        inharmonicity: Binary32,
        retuned: &R,
    )
        requires
            old(self).wf(),
            forall|string: PluckedString| retuned.requires((string,)),
        ensures
            is_tuned(
                old(self).only(index as int, |s: PluckedString| s.stiffened_by(inharmonicity)),
                Some(index as int),
                *retuned,
                *final(self),
            ),
            final(self).wf(),
    {
        if let Some(mut string) = self.string(index) {
            string.set_inharmonicity(inharmonicity, retuned);
            self.replace_string(index, string);
        }
    }

    /// Tunes one string `cents` away from the group's own frequency, and retunes its
    /// loop. `detune` moves a frequency by some cents; where what it gives is not a
    /// usable frequency, the string is tuned to the group's own.
    pub fn set_string_detune<
        D: Fn(Binary32, Binary32) -> Binary32,
        R: Fn(PluckedString) -> Binary32,
    >(&mut self, index: usize, cents: Binary32, detune: &D, retuned: &R)
        requires
            old(self).wf(),
            forall|hertz: Binary32, cents: Binary32| detune.requires((hertz, cents)),
            forall|string: PluckedString| retuned.requires((string,)),
        ensures
            exists|moved: Binary32|
                {
                    &&& #[trigger] detune.ensures((old(self).base.value(), cents), moved)
                    &&& is_tuned(
                        old(self).moved_to(index as int, moved),
                        Some(index as int),
                        *retuned,
                        *final(self),
                    )
                    &&& final(self).at(index as int) matches Some(string)
                        ==> string.frequency.value() == if crate::units::usable(moved) {
                        moved
                    } else {
                        old(self).base.value()
                    }
                },
            final(self).wf(),
    {
        let moved = detune(self.base.hertz(), cents);
        assert(detune.ensures((old(self).base.value(), cents), moved));
        if let Some(mut string) = self.string(index) {
            string.set_frequency(self.base.or_keep(moved), retuned);
            self.replace_string(index, string);
        }
    }

    /// Reseeds one string's excitation noise for its next strike.
    pub fn set_string_seed(&mut self, index: usize, seed: u32)
        ensures
            *final(self) == old(self).only(
                index as int,
                |s: PluckedString| PluckedString { seed, ..s },
            ),
            old(self).wf() ==> final(self).wf(),
    {
        if let Some(mut string) = self.string(index) {
            string.set_seed(seed);
            self.replace_string(index, string);
        }
    }

    /// Changes one string's felt-contact physics for its next strike.
    pub fn set_string_hammer(&mut self, index: usize, hammer: HammerConfig)
        ensures
            *final(self) == old(self).only(
                index as int,
                |s: PluckedString| PluckedString { hammer, ..s },
            ),
            old(self).wf() ==> final(self).wf(),
    {
        if let Some(mut string) = self.string(index) {
            string.set_hammer(hammer);
            self.replace_string(index, string);
        }
    }

    /// Whether every string in the group has decayed below audibility.
    pub fn is_silent(&self) -> (silent: bool)
        ensures
            silent == self.silent(),
    {
        let second = match &self.second {
            Some(string) => string.is_silent(),
            None => true,
        };
        let third = match &self.third {
            Some(string) => string.is_silent(),
            None => true,
        };
        self.first.is_silent() && second && third
    }

    /// Whether at least one string's damper is lifted.
    pub fn is_receptive(&self) -> (receptive: bool)
        ensures
            receptive == self.receptive(),
    {
        let second = match &self.second {
            Some(string) => !string.damper_engaged(),
            None => false,
        };
        let third = match &self.third {
            Some(string) => !string.damper_engaged(),
            None => false,
        };
        !self.first.damper_engaged() || second || third
    }

    /// How many strings take part in the coupling: those whose damper is lifted.
    pub fn receptive_count(&self) -> (count: usize)
        ensures
            count == receptive_part(Some(self.first)) + receptive_part(self.second)
                + receptive_part(self.third),
            count > 0 <==> self.receptive(),
            count <= MAX_UNISON_STRINGS,
    {
        let mut count: usize = if self.first.damper_engaged() {
            0
        } else {
            1
        };
        if let Some(second) = &self.second {
            if !second.damper_engaged() {
                count = count + 1;
            }
        }
        if let Some(third) = &self.third {
            if !third.damper_engaged() {
                count = count + 1;
            }
        }
        count
    }

    /// The loudest string's envelope; zero where none is above zero.
    pub fn envelope(&self) -> (loudest: Binary32)
        ensures
            !loudest.nan(),
            loudest == Binary32::from_bits(0) || exists|i: int|
                0 <= i < 3 && self.at(i) is Some && loudest == (#[trigger] self.at(i))->0.envelope,
            forall|i: int|
                0 <= i < 3 && (#[trigger] self.at(i)) is Some ==> !loudest.below(
                    self.at(i)->0.envelope,
                ),
            !loudest.below(Binary32::from_bits(0)),
    {
        let mut loudest = Binary32::from_bits(0).max(self.first.envelope());
        assert(self.at(0) == Some(self.first));
        if let Some(second) = &self.second {
            assert(self.at(1) == self.second);
            loudest = loudest.max(second.envelope());
        }
        if let Some(third) = &self.third {
            assert(self.at(2) == self.third);
            loudest = loudest.max(third.envelope());
        }
        loudest
    }
}

/// Releasing is idempotent, and undoes a lift; lifting undoes a release.
pub proof fn damper_settles(group: UnisonGroup)
    ensures
        group.each(|s: PluckedString| s.released()).each(|s: PluckedString| s.released())
            == group.each(|s: PluckedString| s.released()),
        group.each(|s: PluckedString| s.lifted()).each(|s: PluckedString| s.released())
            == group.each(|s: PluckedString| s.released()),
        group.each(|s: PluckedString| s.released()).each(|s: PluckedString| s.lifted())
            == group.each(|s: PluckedString| s.lifted()),
        !group.each(|s: PluckedString| s.released()).receptive(),
        group.each(|s: PluckedString| s.lifted()).receptive(),
{
}

/// An idle group is silent and deaf: nothing can sound, and nothing can wake it.
pub proof fn idle_is_inert(base: StringConfig, count: int, tunings: Seq<StringTuning>)
    ensures
        idle_group(base, count, tunings).silent(),
        !idle_group(base, count, tunings).receptive(),
{
}

} // verus!

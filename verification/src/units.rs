//! Newtypes for the two quantities that are catastrophic to mix up.
//!
//! Sample rate and frequency are both "some number of hertz". Passing one where
//! the other is expected would compile with bare numbers and produce silence or
//! a scream; these newtypes make that a compile error, and carry the proof that
//! the number inside is usable.
use crate::binary32::Binary32;
use vstd::prelude::*;

verus! {

/// Concert A, 440 Hz.
pub const CONCERT_A_BITS: u32 = 0x43dc_0000;

/// Rejected at construction time so that the audio thread never has to.
///
/// Every variant carries the offending value.
#[derive(Debug, Clone, Copy, PartialEq, Eq)]
pub enum ParamError {
    /// A sample rate must be finite and strictly positive.
    SampleRate(Binary32),
    /// A frequency must be finite and strictly positive.
    Frequency(Binary32),
    /// The requested fundamental cannot be represented at this sample rate.
    ///
    /// A digital waveguide needs at least two samples of loop delay.
    FrequencyOutOfRange {
        /// The requested fundamental, in hertz.
        frequency: Binary32,
        /// The sample rate the string was built for, in hertz.
        sample_rate: Binary32,
        /// The highest fundamental this sample rate supports, in hertz.
        maximum: Binary32,
    },
    /// A normalised gain, damping or feedback coefficient left `[0, 1]`.
    NormalisedRange {
        /// The name of the parameter, for the error message.
        name: &'static str,
        /// The offending value.
        value: Binary32,
    },
}

/// Finite and strictly positive: what a rate or a frequency has to be.
pub open spec fn usable(hertz: Binary32) -> bool {
    hertz.finite() && Binary32::from_bits(0).below(hertz)
}

/// Whether `hertz` is finite and strictly positive.
pub fn is_usable(hertz: Binary32) -> (result: bool)
    ensures
        result == usable(hertz),
{
    hertz.is_finite() && Binary32::from_bits(0).lt(hertz)
}

/// A validated audio sample rate in hertz.
#[derive(Debug, Clone, Copy, PartialEq, Eq, Structural)]
pub struct SampleRate {
    hertz: Binary32,
}

impl SampleRate {
    #[verifier::type_invariant]
    spec fn valid(self) -> bool {
        usable(self.hertz)
    }

    /// The number of hertz.
    pub closed spec fn value(self) -> Binary32 {
        self.hertz
    }

    /// Validates and wraps a sample rate.
    pub fn new(hertz: Binary32) -> (result: Result<Self, ParamError>)
        ensures
            usable(hertz) ==> result is Ok && result->Ok_0.value() == hertz,
            !usable(hertz) ==> result == Err::<Self, ParamError>(ParamError::SampleRate(hertz)),
    {
        if !is_usable(hertz) {
            return Err(ParamError::SampleRate(hertz));
        }
        Ok(SampleRate { hertz })
    }

    /// The sample rate as a plain number.
    pub fn hertz(self) -> (hertz: Binary32)
        ensures
            hertz == self.value(),
            usable(hertz),
    {
        proof {
            use_type_invariant(&self);
        }
        self.hertz
    }

    /// The highest frequency this sample rate can represent: half of it.
    pub fn nyquist(self) -> (hertz: Binary32)
        ensures
            hertz.is_half_of(self.value()),
    {
        proof {
            use_type_invariant(&self);
        }
        self.hertz.half()
    }
}

/// A validated frequency in hertz.
#[derive(Debug, Clone, Copy, PartialEq, Eq, Structural)]
pub struct Hz {
    hertz: Binary32,
}

impl Hz {
    #[verifier::type_invariant]
    spec fn valid(self) -> bool {
        usable(self.hertz)
    }

    /// The number of hertz.
    pub closed spec fn value(self) -> Binary32 {
        self.hertz
    }

    /// Concert A, 440 Hz: a fallback that needs no validation.
    pub fn concert_a() -> (frequency: Self)
        ensures
            frequency.value() == Binary32::from_bits(CONCERT_A_BITS),
    {
        Hz { hertz: Binary32::from_bits(CONCERT_A_BITS) }
    }

    /// Validates and wraps a frequency.
    pub fn new(hertz: Binary32) -> (result: Result<Self, ParamError>)
        ensures
            usable(hertz) ==> result is Ok && result->Ok_0.value() == hertz,
            !usable(hertz) ==> result == Err::<Self, ParamError>(ParamError::Frequency(hertz)),
    {
        if !is_usable(hertz) {
            return Err(ParamError::Frequency(hertz));
        }
        Ok(Hz { hertz })
    }

    /// The frequency as a plain number.
    pub fn hertz(self) -> (hertz: Binary32)
        ensures
            hertz == self.value(),
            usable(hertz),
    {
        proof {
            use_type_invariant(&self);
        }
        self.hertz
    }

    /// What [`Hz::kept`] comes to as a number: `hertz` where that is usable, and the
    /// frequency's own value where it is not.
    pub proof fn kept_value(self, hertz: Binary32)
        ensures
            self.kept(hertz).value() == if usable(hertz) {
                hertz
            } else {
                self.value()
            },
            !usable(hertz) ==> self.kept(hertz) == self,
    {
    }

    /// The frequency `hertz` where that is usable, `self` where it is not.
    pub closed spec fn kept(self, hertz: Binary32) -> Self {
        if usable(hertz) {
            Hz { hertz }
        } else {
            self
        }
    }

    /// `hertz` where that is a usable frequency, `self` where it is not.
    pub fn or_keep(self, hertz: Binary32) -> (frequency: Self)
        ensures
            frequency == self.kept(hertz),
            frequency.value() == if usable(hertz) { hertz } else { self.value() },
            !usable(hertz) ==> frequency == self,
    {
        match Hz::new(hertz) {
            Ok(frequency) => frequency,
            Err(_) => self,
        }
    }
}

} // verus!

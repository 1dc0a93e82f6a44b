//! Which bits of a floating-point control register round denormals to zero.
//!
//! Every string decays toward zero and ends in denormal numbers, each of which
//! can cost as much as a hundred ordinary ones. Setting the processor's own
//! flush-to-zero mode once, on the audio thread, makes them free.
use vstd::prelude::*;

verus! {

/// Bit 15 of MXCSR: results that underflow become zero.
pub const MXCSR_FLUSH_TO_ZERO: u32 = 0x8000;

/// Bit 6 of MXCSR: denormal inputs count as zero.
pub const MXCSR_DENORMALS_ARE_ZERO: u32 = 0x40;

/// Bit 24 of FPCR: both at once.
pub const FPCR_FLUSH_TO_ZERO: u64 = 0x100_0000;

/// MXCSR with both modes on and everything else as it was.
pub fn flushing_mxcsr(mxcsr: u32) -> (flushing: u32)
    ensures
        flushing & (MXCSR_FLUSH_TO_ZERO | MXCSR_DENORMALS_ARE_ZERO) == (MXCSR_FLUSH_TO_ZERO
            | MXCSR_DENORMALS_ARE_ZERO),
        flushing & !(MXCSR_FLUSH_TO_ZERO | MXCSR_DENORMALS_ARE_ZERO) == mxcsr & !(
        MXCSR_FLUSH_TO_ZERO | MXCSR_DENORMALS_ARE_ZERO),
{
    let modes: u32 = MXCSR_FLUSH_TO_ZERO | MXCSR_DENORMALS_ARE_ZERO;
    assert((mxcsr | modes) & modes == modes) by (bit_vector);
    assert((mxcsr | modes) & !modes == mxcsr & !modes) by (bit_vector);
    mxcsr | modes
}

/// FPCR with the mode on and everything else as it was.
pub fn flushing_fpcr(fpcr: u64) -> (flushing: u64)
    ensures
        flushing & FPCR_FLUSH_TO_ZERO == FPCR_FLUSH_TO_ZERO,
        flushing & !FPCR_FLUSH_TO_ZERO == fpcr & !FPCR_FLUSH_TO_ZERO,
{
    let mode: u64 = FPCR_FLUSH_TO_ZERO;
    assert((fpcr | mode) & mode == mode) by (bit_vector);
    assert((fpcr | mode) & !mode == fpcr & !mode) by (bit_vector);
    fpcr | mode
}

} // verus!

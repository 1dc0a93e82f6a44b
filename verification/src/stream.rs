//! Laying rendered samples out for an output device.
use vstd::prelude::*;

verus! {

/// Frames rendered per piece, which bounds the buffer a callback needs however
/// many frames the host asks for.
pub const MAX_CHUNK_FRAMES: usize = 4096;

/// The sample format of an output device.
#[derive(Debug, Clone, Copy, PartialEq, Eq, Structural)]
pub enum SampleFormat {
    /// Thirty-two bit floating point.
    F32,
    /// Sixteen bit signed.
    I16,
    /// Sixteen bit unsigned.
    U16,
    /// Anything else, which is not supported.
    Other,
}

/// Whether samples can be converted to `format`.
pub fn is_supported(format: SampleFormat) -> (supported: bool)
    ensures
        supported == (format != SampleFormat::Other),
{
    match format {
        SampleFormat::Other => false,
        _ => true,
    }
}

/// The number of channels to lay out for, at least one.
pub fn channel_count(channels: u16) -> (count: usize)
    ensures
        count == if channels == 0 {
            1
        } else {
            channels as int
        },
{
    if channels == 0 {
        1
    } else {
        channels as usize
    }
}

/// The slot's frame: frames are `channels` slots long.
pub open spec fn frame_of(slot: int, channels: usize) -> int {
    slot / (channels as int)
}

/// What slot `slot` holds once `block` is laid out over it: its frame's sample,
/// or what it held where its frame has none.
pub open spec fn laid_out<T>(before: Seq<T>, channels: usize, block: Seq<T>, slot: int) -> T {
    if frame_of(slot, channels) < block.len() {
        block[frame_of(slot, channels)]
    } else {
        before[slot]
    }
}

/// Copies every sample of `block` into all channels of its frame.
pub fn mix_into<T: Copy>(chunk: &mut [T], channels: usize, block: &[T])
    requires
        channels > 0,
    ensures
        final(chunk)@.len() == old(chunk)@.len(),
        forall|slot: int|
            0 <= slot < old(chunk)@.len() ==> #[trigger] final(chunk)@[slot] == laid_out(
                old(chunk)@,
                channels,
                block@,
                slot,
            ),
{
    let mut slot: usize = 0;
    while slot < chunk.len()
        invariant
            channels > 0,
            slot <= chunk@.len(),
            chunk@.len() == old(chunk)@.len(),
            forall|i: int|
                0 <= i < slot ==> #[trigger] chunk@[i] == laid_out(
                    old(chunk)@,
                    channels,
                    block@,
                    i,
                ),
            forall|i: int| slot <= i < chunk@.len() ==> #[trigger] chunk@[i] == old(chunk)@[i],
        decreases chunk@.len() - slot,
    {
        let frame: usize = slot / channels;
        if frame < block.len() {
            chunk[slot] = block[frame];
        }
        slot = slot + 1;
    }
}

} // verus!

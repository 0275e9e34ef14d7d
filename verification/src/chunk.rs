use vstd::prelude::*;

verus! {

/// One immutable quantum of converted mono 16-bit PCM bytes.
///
/// A chunk is created once — from a converted callback buffer or as an
/// accumulated batch — and its bytes are never mutated afterwards;
/// ownership moves whole across each channel hop.
pub struct AudioChunk {
    bytes: Vec<u8>,
}

impl View for AudioChunk {
    type V = Seq<u8>;

    closed spec fn view(&self) -> Seq<u8> {
        self.bytes@
    }
}

impl AudioChunk {
    /// Wrap an owned byte buffer as one capture quantum.
    pub fn new(bytes: Vec<u8>) -> (chunk: AudioChunk)
        ensures
            chunk@ == bytes@,
    {
        AudioChunk { bytes }
    }

    /// Number of bytes in this chunk.
    pub fn len(&self) -> (n: usize)
        ensures
            n == self@.len(),
    {
        self.bytes.len()
    }

    /// The byte at position `i`.
    pub fn byte_at(&self, i: usize) -> (b: u8)
        requires
            i < self@.len(),
        ensures
            b == self@[i as int],
    {
        self.bytes[i]
    }

    /// Give the bytes back to the caller, consuming the chunk.
    pub fn into_bytes(self) -> (bytes: Vec<u8>)
        ensures
            bytes@ == self@,
    {
        self.bytes
    }
}

/// One receive outcome on the hand-off channel: a data chunk, or the
/// terminal signal that the channel closed for this capture session.
pub enum ChannelSignal {
    Data(AudioChunk),
    ChannelClosed,
}

} // verus!

use crate::chunk::{AudioChunk, ChannelSignal};
use vstd::prelude::*;

verus! {

/// Accumulated length at which the capture buffer is moved out and handed
/// to the persistence offload.
pub const FLUSH_THRESHOLD: usize = 100_000;

/// Capacity pre-allocated for each fresh capture buffer, sized above the
/// flush threshold so steady sub-threshold accumulation never reallocates.
pub const BUFFER_HEADROOM: usize = 150_000;

/// One aggregation step on a data chunk: the chunk's bytes are appended,
/// and once the accumulated length reaches [`FLUSH_THRESHOLD`] the whole
/// buffer is flushed and a fresh empty one takes its place.
pub open spec fn step_spec(buf: Seq<u8>, chunk: Seq<u8>) -> (Seq<u8>, Option<Seq<u8>>) {
    let grown = buf + chunk;
    if grown.len() >= FLUSH_THRESHOLD {
        (Seq::empty(), Some(grown))
    } else {
        (grown, None)
    }
}

/// The bytes an optional flush carries.
pub open spec fn flush_view(flush: Option<Vec<u8>>) -> Option<Seq<u8>> {
    match flush {
        Some(buffer) => Some(buffer@),
        None => None,
    }
}

/// What the aggregator does with one received signal.
pub enum StepAction {
    /// Forward the chunk downstream; `flush` carries a buffer that crossed
    /// the threshold and must be handed to the persistence offload.
    Forward { chunk: AudioChunk, flush: Option<Vec<u8>> },
    /// The hand-off channel closed: the session is over. No flush is
    /// carried — a partial buffer is dropped, not persisted.
    Terminate,
}

/// What [`Aggregator::step`] promises for a data chunk: the action forwards
/// the chunk unchanged, and buffer and flush are exactly what the step
/// policy dictates.
pub open spec fn data_step_ok(pre: Seq<u8>, chunk: Seq<u8>, post: Seq<u8>, r: StepAction) -> bool {
    match r {
        StepAction::Forward { chunk: fwd, flush } => {
            &&& fwd@ == chunk
            &&& post == step_spec(pre, chunk).0
            &&& flush_view(flush) == step_spec(pre, chunk).1
        },
        StepAction::Terminate => false,
    }
}

/// What [`Aggregator::step`] promises on channel closure: a terminal action
/// that carries no flush, with the partial buffer left as it was, to be
/// dropped rather than persisted.
pub open spec fn closed_step_ok(pre: Seq<u8>, post: Seq<u8>, r: StepAction) -> bool {
    match r {
        StepAction::Forward { chunk: _, flush: _ } => false,
        StepAction::Terminate => post == pre,
    }
}

/// The capture aggregator: the single owner and single mutator of the
/// growing byte buffer between two flushes.
pub struct Aggregator {
    buffer: Vec<u8>,
}

impl View for Aggregator {
    type V = Seq<u8>;

    closed spec fn view(&self) -> Seq<u8> {
        self.buffer@
    }
}

impl Aggregator {
    /// Between steps the buffer is always strictly below the flush
    /// threshold: a crossing buffer is moved out within the same step.
    pub open spec fn wf(&self) -> bool {
        self@.len() < FLUSH_THRESHOLD
    }

    /// A fresh aggregator with an empty pre-allocated buffer.
    pub fn new() -> (agg: Aggregator)
        ensures
            agg@ == Seq::<u8>::empty(),
            agg.wf(),
    {
        Aggregator { buffer: Vec::with_capacity(BUFFER_HEADROOM) }
    }

    /// Number of bytes accumulated and not yet flushed.
    pub fn buffered_len(&self) -> (n: usize)
        ensures
            n == self@.len(),
    {
        self.buffer.len()
    }

    /// Consume one signal from the hand-off channel.
    ///
    /// On data, the chunk's bytes are appended and the chunk is handed back
    /// for downstream forwarding; when the accumulated length reaches
    /// [`FLUSH_THRESHOLD`], the grown buffer is moved out into the action's
    /// `flush` and replaced by a fresh empty buffer. On closure the action
    /// is terminal and the partial buffer is deliberately left unflushed:
    /// shutdown is lossy by design.
    pub fn step(&mut self, signal: ChannelSignal) -> (r: StepAction)
        requires
            old(self).wf(),
        ensures
            final(self).wf(),
            match signal {
                ChannelSignal::Data(c) => data_step_ok(old(self)@, c@, final(self)@, r),
                ChannelSignal::ChannelClosed => closed_step_ok(old(self)@, final(self)@, r),
            },
    {
        match signal {
            ChannelSignal::ChannelClosed => StepAction::Terminate,
            ChannelSignal::Data(chunk) => {
                let ghost pre = self.buffer@;
                let count = chunk.len();
                let mut k: usize = 0;
                while k < count
                    invariant
                        count == chunk@.len(),
                        k <= count,
                        self.buffer@ == pre + chunk@.subrange(0, k as int),
                    decreases count - k,
                {
                    self.buffer.push(chunk.byte_at(k));
                    proof {
                        assert(pre + chunk@.subrange(0, k as int + 1) =~= (pre + chunk@.subrange(
                            0,
                            k as int,
                        )).push(chunk@[k as int]));
                    }
                    k = k + 1;
                }
                proof {
                    assert(chunk@.subrange(0, count as int) =~= chunk@);
                }
                let flush = if self.buffer.len() >= FLUSH_THRESHOLD {
                    let mut full: Vec<u8> = Vec::with_capacity(BUFFER_HEADROOM);
                    core::mem::swap(&mut full, &mut self.buffer);
                    Some(full)
                } else {
                    None
                };
                StepAction::Forward { chunk, flush }
            },
        }
    }
}

} // verus!

use crate::aggregator::{step_spec, BUFFER_HEADROOM, FLUSH_THRESHOLD};
use vstd::prelude::*;

verus! {

/// Total byte length of a chunk sequence.
pub open spec fn total_len(chunks: Seq<Seq<u8>>) -> int
    decreases chunks.len(),
{
    if chunks.len() == 0 {
        0
    } else {
        chunks[0].len() + total_len(chunks.skip(1))
    }
}

/// Concatenation of a chunk sequence, in receive order.
pub open spec fn concat_all(chunks: Seq<Seq<u8>>) -> Seq<u8>
    decreases chunks.len(),
{
    if chunks.len() == 0 {
        Seq::empty()
    } else {
        chunks[0] + concat_all(chunks.skip(1))
    }
}

/// The flushes an optional per-step flush contributes to a run's history.
pub open spec fn opt_flushes(flush: Option<Seq<u8>>) -> Seq<Seq<u8>> {
    match flush {
        Some(f) => seq![f],
        None => Seq::empty(),
    }
}

/// Buffer and flush history after the aggregator consumes `chunks` one by
/// one, starting from buffer contents `buf`.
pub open spec fn run_from(buf: Seq<u8>, chunks: Seq<Seq<u8>>) -> (Seq<u8>, Seq<Seq<u8>>)
    decreases chunks.len(),
{
    if chunks.len() == 0 {
        (buf, Seq::empty())
    } else {
        let first = step_spec(buf, chunks[0]);
        let rest = run_from(first.0, chunks.skip(1));
        (rest.0, opt_flushes(first.1) + rest.1)
    }
}

/// Buffer and flush history of a whole session, started empty.
pub open spec fn run(chunks: Seq<Seq<u8>>) -> (Seq<u8>, Seq<Seq<u8>>) {
    run_from(Seq::empty(), chunks)
}

pub proof fn lemma_total_len_nonneg(chunks: Seq<Seq<u8>>)
    ensures
        total_len(chunks) >= 0,
    decreases chunks.len(),
{
    if chunks.len() > 0 {
        lemma_total_len_nonneg(chunks.skip(1));
    }
}

/// A run that stays below the threshold flushes nothing: the chunks simply
/// accumulate onto the starting buffer.
pub proof fn lemma_run_below_threshold(buf: Seq<u8>, chunks: Seq<Seq<u8>>)
    requires
        buf.len() + total_len(chunks) < FLUSH_THRESHOLD,
    ensures
        run_from(buf, chunks).0 == buf + concat_all(chunks),
        run_from(buf, chunks).1 == Seq::<Seq<u8>>::empty(),
    decreases chunks.len(),
{
    if chunks.len() == 0 {
        assert(buf + concat_all(chunks) =~= buf);
    } else {
        let grown = buf + chunks[0];
        lemma_total_len_nonneg(chunks.skip(1));
        assert(grown.len() < FLUSH_THRESHOLD);
        lemma_run_below_threshold(grown, chunks.skip(1));
        assert(grown + concat_all(chunks.skip(1)) =~= buf + concat_all(chunks));
        assert(opt_flushes(None) + run_from(grown, chunks.skip(1)).1 =~= Seq::<Seq<u8>>::empty());
    }
}

proof fn lemma_concat_cons(x: Seq<u8>, r: Seq<Seq<u8>>)
    ensures
        concat_all(seq![x] + r) == x + concat_all(r),
{
    let q = seq![x] + r;
    assert(q[0] == x);
    assert(q.skip(1) =~= r);
}

/// Aggregation loses and duplicates nothing before shutdown: the flushed
/// buffers and the residual buffer together hold exactly the starting
/// buffer followed by every received byte, in receive order.
pub proof fn lemma_run_conserves_bytes(buf: Seq<u8>, chunks: Seq<Seq<u8>>)
    ensures
        concat_all(run_from(buf, chunks).1) + run_from(buf, chunks).0 == buf + concat_all(chunks),
    decreases chunks.len(),
{
    if chunks.len() == 0 {
        assert(concat_all(run_from(buf, chunks).1) + run_from(buf, chunks).0 =~= buf);
        assert(buf + concat_all(chunks) =~= buf);
    } else {
        let first = chunks[0];
        let grown = buf + first;
        let stepped = step_spec(buf, first);
        let rest = run_from(stepped.0, chunks.skip(1));
        lemma_run_conserves_bytes(stepped.0, chunks.skip(1));
        if stepped.1 is Some {
            lemma_concat_cons(grown, rest.1);
            assert(stepped.0 =~= Seq::<u8>::empty());
            assert(Seq::<u8>::empty() + concat_all(chunks.skip(1)) =~= concat_all(chunks.skip(1)));
            assert((grown + concat_all(rest.1)) + rest.0 =~= grown + (concat_all(rest.1) + rest.0));
            assert(grown + concat_all(chunks.skip(1)) =~= buf + concat_all(chunks));
        } else {
            assert(opt_flushes(stepped.1) + rest.1 =~= rest.1);
            assert(grown + concat_all(chunks.skip(1)) =~= buf + concat_all(chunks));
        }
    }
}

/// Generalization of the single-crossing law to a run that starts from a
/// partially filled buffer.
proof fn lemma_single_crossing_from(buf: Seq<u8>, chunks: Seq<Seq<u8>>, k: int)
    requires
        0 <= k < chunks.len(),
        buf.len() + total_len(chunks.take(k)) < FLUSH_THRESHOLD,
        buf.len() + total_len(chunks.take(k + 1)) >= FLUSH_THRESHOLD,
        total_len(chunks.skip(k + 1)) < FLUSH_THRESHOLD,
    ensures
        run_from(buf, chunks).1 == seq![buf + concat_all(chunks.take(k + 1))],
    decreases k,
{
    let first = chunks[0];
    let grown = buf + first;
    if k == 0 {
        assert(chunks.take(1)[0] == first);
        assert(chunks.take(1).skip(1) =~= Seq::<Seq<u8>>::empty());
        assert(total_len(chunks.take(1)) == chunks.take(1)[0].len() + total_len(
            chunks.take(1).skip(1),
        ));
        assert(total_len(Seq::<Seq<u8>>::empty()) == 0);
        assert(total_len(chunks.take(1)) == first.len());
        assert(grown.len() >= FLUSH_THRESHOLD);
        assert(step_spec(buf, first).1 == Some(grown));
        lemma_total_len_nonneg(chunks.skip(1));
        lemma_run_below_threshold(Seq::empty(), chunks.skip(1));
        assert(Seq::<u8>::empty().len() + total_len(chunks.skip(1)) < FLUSH_THRESHOLD);
        assert(run_from(buf, chunks).1 =~= seq![grown]);
        assert(first + concat_all(Seq::<Seq<u8>>::empty()) =~= first);
        assert(buf + concat_all(chunks.take(1)) =~= grown);
    } else {
        // The first chunk cannot cross: it is part of the sub-threshold
        // prefix of length k.
        assert(chunks.take(k)[0] == first);
        assert(chunks.take(k).skip(1) =~= chunks.skip(1).take(k - 1));
        assert(total_len(chunks.take(k)) == first.len() + total_len(chunks.skip(1).take(k - 1)));
        lemma_total_len_nonneg(chunks.skip(1).take(k - 1));
        assert(grown.len() < FLUSH_THRESHOLD);
        assert(step_spec(buf, first).1 == None::<Seq<u8>>);
        // Re-index the crossing for the tail.
        assert(chunks.take(k + 1)[0] == first);
        assert(chunks.take(k + 1).skip(1) =~= chunks.skip(1).take(k));
        assert(total_len(chunks.take(k + 1)) == first.len() + total_len(chunks.skip(1).take(k)));
        assert(chunks.skip(1).skip(k) =~= chunks.skip(k + 1));
        lemma_single_crossing_from(grown, chunks.skip(1), k - 1);
        assert(run_from(buf, chunks).1 =~= run_from(grown, chunks.skip(1)).1);
        assert(grown + concat_all(chunks.skip(1).take(k)) =~= buf + concat_all(chunks.take(k + 1)));
    }
}

/// A chunk sequence whose cumulative byte length crosses the threshold
/// exactly once — the prefix before chunk `k` is below the threshold, chunk
/// `k` carries it across, and the remainder cannot cross again — produces
/// exactly one flush: the concatenation, in receive order, of every chunk
/// up to and including the crossing chunk.
pub proof fn lemma_single_crossing_single_flush(chunks: Seq<Seq<u8>>, k: int)
    requires
        0 <= k < chunks.len(),
        total_len(chunks.take(k)) < FLUSH_THRESHOLD,
        total_len(chunks.take(k + 1)) >= FLUSH_THRESHOLD,
        total_len(chunks.skip(k + 1)) < FLUSH_THRESHOLD,
    ensures
        run(chunks).1 == seq![concat_all(chunks.take(k + 1))],
{
    lemma_single_crossing_from(Seq::empty(), chunks, k);
    assert(Seq::<u8>::empty() + concat_all(chunks.take(k + 1)) =~= concat_all(chunks.take(k + 1)));
}

/// Generalization of the headroom law to a run that starts from any
/// well-formed (sub-threshold) buffer.
proof fn lemma_flushes_within_headroom_from(buf: Seq<u8>, chunks: Seq<Seq<u8>>)
    requires
        buf.len() < FLUSH_THRESHOLD,
        forall|i: int|
            0 <= i < chunks.len() ==> #[trigger] chunks[i].len() <= BUFFER_HEADROOM
                - FLUSH_THRESHOLD,
    ensures
        forall|j: int|
            0 <= j < run_from(buf, chunks).1.len() ==> #[trigger] run_from(
                buf,
                chunks,
            ).1[j].len() < BUFFER_HEADROOM,
    decreases chunks.len(),
{
    if chunks.len() > 0 {
        let first = chunks[0];
        let grown = buf + first;
        assert(chunks[0].len() <= BUFFER_HEADROOM - FLUSH_THRESHOLD);
        assert(grown.len() < BUFFER_HEADROOM);
        let next = step_spec(buf, first).0;
        assert(next.len() < FLUSH_THRESHOLD);
        assert(forall|i: int|
            0 <= i < chunks.skip(1).len() ==> #[trigger] chunks.skip(1)[i].len()
                <= BUFFER_HEADROOM - FLUSH_THRESHOLD);
        lemma_flushes_within_headroom_from(next, chunks.skip(1));
        let flushes = run_from(buf, chunks).1;
        let rest = run_from(next, chunks.skip(1)).1;
        assert(forall|j: int| 0 <= j < flushes.len() ==> #[trigger] flushes[j].len()
            < BUFFER_HEADROOM) by {
            assert forall|j: int| 0 <= j < flushes.len() implies #[trigger] flushes[j].len()
                < BUFFER_HEADROOM by {
                if step_spec(buf, first).1 is Some {
                    if j == 0 {
                        assert(flushes[j] == grown);
                    } else {
                        assert(flushes[j] == rest[j - 1]);
                    }
                } else {
                    assert(flushes[j] == rest[j]);
                }
            }
        }
    }
}

/// The aggregator never flushes beyond the pre-allocation headroom under
/// steady sub-threshold input: when every chunk fits within the headroom
/// margin above the threshold, every flushed buffer of the session stays
/// strictly below [`BUFFER_HEADROOM`] — accumulation never outgrows the
/// buffer a fresh aggregator pre-allocates.
pub proof fn lemma_flushes_within_headroom(chunks: Seq<Seq<u8>>)
    requires
        forall|i: int|
            0 <= i < chunks.len() ==> #[trigger] chunks[i].len() <= BUFFER_HEADROOM
                - FLUSH_THRESHOLD,
    ensures
        forall|j: int|
            0 <= j < run(chunks).1.len() ==> #[trigger] run(chunks).1[j].len() < BUFFER_HEADROOM,
{
    lemma_flushes_within_headroom_from(Seq::empty(), chunks);
}

} // verus!

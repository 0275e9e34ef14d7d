use capture_pipeline::aggregator::{Aggregator, StepAction, BUFFER_HEADROOM, FLUSH_THRESHOLD};
use capture_pipeline::chunk::{AudioChunk, ChannelSignal};

fn data(bytes: Vec<u8>) -> ChannelSignal {
    ChannelSignal::Data(AudioChunk::new(bytes))
}

fn feed(agg: &mut Aggregator, bytes: Vec<u8>) -> Option<Vec<u8>> {
    let expected = bytes.clone();
    match agg.step(data(bytes)) {
        StepAction::Forward { chunk, flush } => {
            assert_eq!(chunk.into_bytes(), expected, "chunk must be forwarded unchanged");
            flush
        }
        StepAction::Terminate => panic!("data must be forwarded, not terminate the session"),
    }
}

#[test]
fn three_chunks_crossing_once_flush_their_concatenation() {
    let mut agg = Aggregator::new();
    let a = vec![1u8; 40_000];
    let b = vec![2u8; 40_000];
    let c = vec![3u8; 40_000];
    assert!(feed(&mut agg, a.clone()).is_none());
    assert_eq!(agg.buffered_len(), 40_000);
    assert!(feed(&mut agg, b.clone()).is_none());
    assert_eq!(agg.buffered_len(), 80_000);
    let flushed = feed(&mut agg, c.clone()).expect("cumulative 120,000 must flush");
    let mut expected = a;
    expected.extend_from_slice(&b);
    expected.extend_from_slice(&c);
    assert_eq!(flushed, expected);
    assert_eq!(flushed.len(), 120_000);
    assert_eq!(agg.buffered_len(), 0, "buffer must reset to empty after the flush");
}

#[test]
fn totals_just_below_threshold_never_flush() {
    let mut agg = Aggregator::new();
    for _ in 0..3 {
        assert!(feed(&mut agg, vec![5u8; 33_333]).is_none());
    }
    assert_eq!(agg.buffered_len(), 99_999);
    match agg.step(ChannelSignal::ChannelClosed) {
        StepAction::Terminate => {}
        StepAction::Forward { .. } => panic!("closure must not forward or flush"),
    }
    assert_eq!(agg.buffered_len(), 99_999, "the partial buffer is dropped, never flushed");
}

#[test]
fn closing_with_partial_buffer_drops_it_unflushed() {
    let mut agg = Aggregator::new();
    assert!(feed(&mut agg, vec![9u8; 10]).is_none());
    assert!(agg.buffered_len() > 0 && agg.buffered_len() < FLUSH_THRESHOLD);
    match agg.step(ChannelSignal::ChannelClosed) {
        StepAction::Terminate => {}
        StepAction::Forward { .. } => panic!("lossy shutdown: no flush on closure"),
    }
}

#[test]
fn exact_threshold_crossing_flushes() {
    let mut agg = Aggregator::new();
    let flushed = feed(&mut agg, vec![4u8; FLUSH_THRESHOLD]).expect("threshold reached");
    assert_eq!(flushed.len(), FLUSH_THRESHOLD);
    assert_eq!(agg.buffered_len(), 0);
}

#[test]
fn one_byte_short_then_one_byte_more() {
    let mut agg = Aggregator::new();
    assert!(feed(&mut agg, vec![6u8; FLUSH_THRESHOLD - 1]).is_none());
    let flushed = feed(&mut agg, vec![7u8]).expect("the extra byte crosses the threshold");
    assert_eq!(flushed.len(), FLUSH_THRESHOLD);
    assert_eq!(flushed[FLUSH_THRESHOLD - 1], 7u8);
}

#[test]
fn steady_margin_sized_chunks_stay_within_headroom() {
    let margin = BUFFER_HEADROOM - FLUSH_THRESHOLD;
    let mut agg = Aggregator::new();
    let mut flush_count = 0;
    for _ in 0..12 {
        if let Some(flushed) = feed(&mut agg, vec![8u8; margin]) {
            assert!(flushed.len() < BUFFER_HEADROOM);
            flush_count += 1;
        }
    }
    assert!(flush_count > 0);
}

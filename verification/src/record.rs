use vstd::prelude::*;

verus! {

/// The persisted representation of one flush: a milliseconds-since-epoch
/// timestamp plus the flushed byte payload. A record is created once per
/// threshold-crossing flush and never updated or deleted by this pipeline.
pub struct CaptureRecord {
    pub recorded_at_ms: i64,
    pub payload: Vec<u8>,
}

/// Issues the records of one capture session with non-decreasing
/// timestamps: a clock reading that steps backward is raised to the
/// previous record's timestamp, so persisted records can always be ordered
/// by time of flush.
pub struct RecordSequencer {
    last_ms: i64,
}

impl RecordSequencer {
    /// Timestamp of the most recently issued record, or the representable
    /// minimum before any record was issued.
    pub closed spec fn last(&self) -> i64 {
        self.last_ms
    }

    pub fn new() -> (seq: RecordSequencer)
        ensures
            seq.last() == i64::MIN,
    {
        RecordSequencer { last_ms: i64::MIN }
    }

    /// Build the record for one flushed buffer. The recorded timestamp is
    /// the given clock reading, never below the previous record's.
    pub fn make_record(&mut self, now_ms: i64, payload: Vec<u8>) -> (rec: CaptureRecord)
        ensures
            rec.recorded_at_ms == (if now_ms >= old(self).last() {
                now_ms
            } else {
                old(self).last()
            }),
            rec.recorded_at_ms >= old(self).last(),
            final(self).last() == rec.recorded_at_ms,
            rec.payload@ == payload@,
    {
        let ts = if now_ms >= self.last_ms {
            now_ms
        } else {
            self.last_ms
        };
        self.last_ms = ts;
        CaptureRecord { recorded_at_ms: ts, payload }
    }
}

} // verus!

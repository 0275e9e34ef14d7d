use vstd::prelude::*;

verus! {

/// Aggregate counters for the real-time send path.
///
/// A full or disconnected hand-off channel is tolerated silently — the
/// chunk is dropped so the real-time thread never waits — and the drop is
/// only counted here for observability. The counters saturate instead of
/// wrapping: a counter at the limit stays there.
pub struct HandoffStats {
    pub sent: u64,
    pub dropped: u64,
}

impl HandoffStats {
    pub fn new() -> (stats: HandoffStats)
        ensures
            stats.sent == 0,
            stats.dropped == 0,
    {
        HandoffStats { sent: 0, dropped: 0 }
    }

    /// Count one chunk accepted by the hand-off channel.
    pub fn note_sent(&mut self)
        ensures
            final(self).sent == (if old(self).sent < u64::MAX {
                old(self).sent + 1
            } else {
                old(self).sent as int
            }),
            final(self).dropped == old(self).dropped,
    {
        if self.sent < u64::MAX {
            self.sent = self.sent + 1;
        }
    }

    /// Count one chunk dropped because the hand-off channel refused it.
    pub fn note_dropped(&mut self)
        ensures
            final(self).dropped == (if old(self).dropped < u64::MAX {
                old(self).dropped + 1
            } else {
                old(self).dropped as int
            }),
            final(self).sent == old(self).sent,
    {
        if self.dropped < u64::MAX {
            self.dropped = self.dropped + 1;
        }
    }
}

} // verus!

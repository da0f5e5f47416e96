//! Byte-count progress of a download, fed by chunk writes.
//!
//! Each successful chunk write reports its byte delta here; a display or
//! any other observer reads the tally. The count never passes the object's
//! total size.

use vstd::prelude::*;

verus! {

/// Running byte count of one download against its known total.
#[derive(Clone, Copy, PartialEq, Eq, Structural, Debug)]
pub struct ProgressTally {
    pub received: u64,
    pub total: u64,
}

impl ProgressTally {
    /// The tally never exceeds the total.
    pub open spec fn wf(&self) -> bool {
        self.received <= self.total
    }

    /// A fresh tally for an object of `total` bytes.
    pub fn new(total: u64) -> (r: ProgressTally)
        ensures
            r.wf(),
            r.total == total,
            r.received == 0,
    {
        ProgressTally { received: 0, total }
    }

    /// Record `delta` more bytes, clipped at the total.
    pub fn record(&mut self, delta: u64)
        requires
            old(self).wf(),
        ensures
            final(self).wf(),
            final(self).total == old(self).total,
            final(self).received == if old(self).received + delta <= old(self).total {
                old(self).received + delta
            } else {
                old(self).total as int
            },
    {
        if delta <= self.total - self.received {
            self.received = self.received + delta;
        } else {
            self.received = self.total;
        }
    }
}

} // verus!

//! The execution stage's bookkeeping.
//!
//! The executor drains operations in emission order until the shutdown
//! sentinel.  For a file copy it repeatedly asks the bulk-transfer
//! primitive for a bounded number of bytes until the full length has been
//! moved; [`CopyProgress`] is that loop's verified accounting.

use vstd::prelude::*;

use crate::ops::Operation;

verus! {

/// The default number of bytes requested per bulk-transfer call when
/// progress is reported: the granularity of progress updates.
pub const BATCH_DEFAULT: u64 = 1048576;

/// The batch size for one run: effectively unbounded when progress
/// reporting is off — one transfer call moves everything — else the
/// default granularity.
pub fn batch_size(noprogress: bool) -> (r: u64)
    ensures
        r == if noprogress {
            u64::MAX
        } else {
            BATCH_DEFAULT
        },
        r > 0,
{
    if noprogress {
        u64::MAX
    } else {
        BATCH_DEFAULT
    }
}

/// The progress of one chunked file copy: of `len` bytes owed in total,
/// `written` have been transferred so far, at most `batch` per call.
#[derive(Clone, Copy, Debug, PartialEq, Eq)]
pub struct CopyProgress {
    pub len: u64,
    pub written: u64,
    pub batch: u64,
}

impl CopyProgress {
    /// The bookkeeping is sound: never more written than owed, and the
    /// transfer granularity is positive.
    pub open spec fn wf(&self) -> bool {
        self.written <= self.len && self.batch > 0
    }

    /// Begin a copy of `len` bytes in chunks of at most `batch`.
    pub fn start(len: u64, batch: u64) -> (r: CopyProgress)
        requires
            batch > 0,
        ensures
            r.wf(),
            r.len == len,
            r.written == 0,
            r.batch == batch,
    {
        CopyProgress { len, written: 0, batch }
    }

    /// The copy loop's guard: everything owed has been transferred.
    pub fn done(&self) -> (r: bool)
        ensures
            r == (self.written == self.len),
    {
        self.written == self.len
    }

    /// How many bytes to request from the transfer primitive next: what
    /// remains, capped at the batch size.  Zero exactly when the copy is
    /// complete, so the loop that retries until exhaustion terminates.
    pub fn next_request(&self) -> (r: u64)
        requires
            self.wf(),
        ensures
            r == if self.len - self.written < self.batch {
                self.len - self.written
            } else {
                self.batch as int
            },
            r <= self.batch,
            self.written + r <= self.len,
            (r == 0) == (self.written == self.len),
    {
        let remaining = self.len - self.written;
        if remaining < self.batch {
            remaining
        } else {
            self.batch
        }
    }

    /// Account one transfer of `n` bytes.  The primitive may move fewer
    /// bytes than requested, never more than remain owed.
    pub fn record(&mut self, n: u64)
        requires
            old(self).wf(),
            old(self).written + n <= old(self).len,
        ensures
            final(self).wf(),
            final(self).written == old(self).written + n,
            final(self).len == old(self).len,
            final(self).batch == old(self).batch,
    {
        self.written = self.written + n;
    }
}

/// The executor's shutdown test: it drains operations until exactly this
/// sentinel, its only normal way to stop.
pub fn is_end(op: &Operation) -> (r: bool)
    ensures
        r == (op@ is End),
{
    matches!(op, Operation::End)
}

} // verus!

//! The statistics stage: sinks and aggregation.
//!
//! Each background stage reports byte-count deltas through a sink that
//! tags them for the aggregator — or drops them when progress reporting
//! is off.  The aggregator accumulates a running total per kind and stops
//! at the first terminal error, which becomes the run's result.

use vstd::prelude::*;

use crate::ops::{stats_view, ErrV, StatMsg, StatusUpdate, XcpError};

verus! {

/// Which running total a stage's deltas feed: traversal reports
/// discovered size, the executor reports copied bytes.
#[derive(Clone, Copy, Debug, PartialEq, Eq)]
pub enum StatTag {
    DiscoveredSize,
    CopiedBytes,
}

/// The progress sink handed to a stage: the null sink drops every delta
/// (progress reporting disabled), the active sink tags each delta for
/// the aggregator.
#[derive(Clone, Copy, Debug)]
pub enum StatSink {
    Nop,
    Active { tag: StatTag },
}

/// What a sink forwards for one delta.
pub open spec fn spec_accept(sink: StatSink, delta: u64) -> Option<StatusUpdate> {
    match sink {
        StatSink::Nop => None,
        StatSink::Active { tag: StatTag::DiscoveredSize } => Some(StatusUpdate::Size(delta)),
        StatSink::Active { tag: StatTag::CopiedBytes } => Some(StatusUpdate::Copied(delta)),
    }
}

impl StatSink {
    /// The sink for one stage of one run: null when progress reporting
    /// is off, else active with the stage's tag.
    pub fn for_stage(noprogress: bool, tag: StatTag) -> (r: StatSink)
        ensures
            r == if noprogress {
                StatSink::Nop
            } else {
                StatSink::Active { tag }
            },
    {
        if noprogress {
            StatSink::Nop
        } else {
            StatSink::Active { tag }
        }
    }

    /// Accept one byte-count delta: the null sink forwards nothing, the
    /// active sink forwards it under its stage's tag.
    pub fn accept(&self, delta: u64) -> (r: Option<StatusUpdate>)
        ensures
            r == spec_accept(*self, delta),
    {
        match self {
            StatSink::Nop => None,
            StatSink::Active { tag: StatTag::DiscoveredSize } => Some(StatusUpdate::Size(delta)),
            StatSink::Active { tag: StatTag::CopiedBytes } => Some(StatusUpdate::Copied(delta)),
        }
    }
}

/// Running totals of the two progress kinds.
#[derive(Clone, Copy, Debug, PartialEq, Eq)]
pub struct Totals {
    pub size: u64,
    pub copied: u64,
}

/// Byte counts saturate at the type's limit rather than wrap.
pub open spec fn sat_add(a: u64, b: u64) -> u64 {
    if a + b > u64::MAX {
        u64::MAX
    } else {
        (a + b) as u64
    }
}

/// One delta applied to its running total.
pub open spec fn spec_apply(t: Totals, s: StatusUpdate) -> Totals {
    match s {
        StatusUpdate::Size(n) => Totals { size: sat_add(t.size, n), copied: t.copied },
        StatusUpdate::Copied(n) => Totals { size: t.size, copied: sat_add(t.copied, n) },
    }
}

fn sat_add_exec(a: u64, b: u64) -> (r: u64)
    ensures
        r == sat_add(a, b),
{
    if b > u64::MAX - a {
        u64::MAX
    } else {
        a + b
    }
}

impl Totals {
    /// No bytes accounted yet.
    pub fn new() -> (r: Totals)
        ensures
            r.size == 0,
            r.copied == 0,
    {
        Totals { size: 0, copied: 0 }
    }

    /// Accumulate one delta into its running total.
    pub fn apply(&mut self, s: StatusUpdate)
        ensures
            *final(self) == spec_apply(*old(self), s),
    {
        match s {
            StatusUpdate::Size(n) => {
                self.size = sat_add_exec(self.size, n);
            },
            StatusUpdate::Copied(n) => {
                self.copied = sat_add_exec(self.copied, n);
            },
        }
    }
}

/// The totals and the first terminal error after the first `n` messages
/// of a statistics stream: deltas accumulate in order until an error
/// arrives, after which nothing more is consumed.
pub open spec fn spec_aggregate_upto(s: Seq<Result<StatusUpdate, ErrV>>, n: int) -> (
    Totals,
    Option<ErrV>,
)
    decreases n,
{
    if n <= 0 {
        (Totals { size: 0, copied: 0 }, None)
    } else {
        let prev = spec_aggregate_upto(s, n - 1);
        if prev.1 is Some {
            prev
        } else {
            match s[n - 1] {
                Ok(u) => (spec_apply(prev.0, u), None),
                Err(e) => (prev.0, Some(e)),
            }
        }
    }
}

/// Once a terminal error arrived, later messages change nothing.
pub proof fn lemma_aggregate_stable(s: Seq<Result<StatusUpdate, ErrV>>, i: int, n: int)
    requires
        0 <= i <= n,
        spec_aggregate_upto(s, i).1 is Some,
    ensures
        spec_aggregate_upto(s, n) == spec_aggregate_upto(s, i),
    decreases n - i,
{
    if n > i {
        lemma_aggregate_stable(s, i, n - 1);
    }
}

/// Drain a statistics stream as the aggregation stage does: accumulate
/// every delta into its running total, and stop consuming at the first
/// terminal error, which is surfaced as the run's result.
pub fn aggregate(stats: &Vec<StatMsg>) -> (r: (Totals, Option<XcpError>))
    ensures
        r.0 == spec_aggregate_upto(stats_view(stats@), stats@.len() as int).0,
        match r.1 {
            None => spec_aggregate_upto(stats_view(stats@), stats@.len() as int).1 is None,
            Some(e) => spec_aggregate_upto(stats_view(stats@), stats@.len() as int).1 == Some(e@),
        },
{
    let ghost sv = stats_view(stats@);
    let mut t = Totals::new();
    let mut i: usize = 0;
    while i < stats.len()
        invariant
            i <= stats@.len(),
            sv == stats_view(stats@),
            spec_aggregate_upto(sv, i as int).1 is None,
            t == spec_aggregate_upto(sv, i as int).0,
        decreases stats@.len() - i,
    {
        proof {
            assert(sv[i as int] == crate::ops::stat_msg_view(stats@[i as int]));
        }
        match &stats[i] {
            Ok(u) => {
                t.apply(*u);
            },
            Err(e) => {
                let err = e.clone();
                proof {
                    lemma_aggregate_stable(sv, i + 1, sv.len() as int);
                }
                return (t, Some(err));
            },
        }
        i += 1;
    }
    (t, None)
}

} // verus!

//! The traversal stage: planning a tree copy.
//!
//! Traversal decides, for every entry of the source tree, what the
//! execution stage must do: where the entry lands under the destination
//! base, whether the ignore predicate excludes it, and whether the
//! no-clobber policy stops the whole run.  The decisions are pure; the
//! surrounding process walks the real filesystem and carries them out.

use vstd::prelude::*;

use crate::ops::{ops_view, stats_view, EntryKind, ErrV, OpV, Operation, StatMsg, StatusUpdate,
    XcpError};
use crate::path::{empty, is_prefix_of, FsPath};

verus! {

/// One visited source-tree entry: its path relative to the source root
/// (empty for the root itself), its kind, its metadata length, the raw
/// target text when it is a symbolic link, the ignore predicate's verdict
/// on it, and whether its computed destination already exists.
#[derive(Debug)]
pub struct Entry {
    pub rel: FsPath,
    pub kind: EntryKind,
    pub len: u64,
    pub link_target: String,
    pub ignored: bool,
    pub target_exists: bool,
}

/// The mathematical value of an [`Entry`].
pub struct EntryV {
    pub rel: Seq<Seq<char>>,
    pub kind: EntryKind,
    pub len: u64,
    pub link_target: Seq<char>,
    pub ignored: bool,
    pub target_exists: bool,
}

impl View for Entry {
    type V = EntryV;

    open spec fn view(&self) -> EntryV {
        EntryV {
            rel: self.rel@,
            kind: self.kind,
            len: self.len,
            link_target: self.link_target@,
            ignored: self.ignored,
            target_exists: self.target_exists,
        }
    }
}

/// The views of a sequence of entries.
pub open spec fn entries_view(s: Seq<Entry>) -> Seq<EntryV> {
    Seq::new(s.len(), |i: int| s[i]@)
}

/// The destination base: when the destination already exists, the source
/// is copied under it, named after the source's final component; when it
/// does not, the source is renamed into the destination path itself.
pub open spec fn spec_target_base(
    source: Seq<Seq<char>>,
    dest: Seq<Seq<char>>,
    dest_exists: bool,
) -> Seq<Seq<char>> {
    if dest_exists {
        dest.push(source.last())
    } else {
        dest
    }
}

/// An entry is excluded when the ignore predicate matched it or one of
/// its ancestors: a pruned directory's descendants are never visited.
pub open spec fn excluded(entries: Seq<EntryV>, rel: Seq<Seq<char>>) -> bool {
    exists|j: int|
        0 <= j < entries.len() && entries[j].ignored && is_prefix_of(entries[j].rel, rel)
}

/// The no-clobber policy stops the run at this entry.
pub open spec fn entry_clobbers(e: EntryV, noclobber: bool) -> bool {
    noclobber && e.target_exists
}

/// The one operation that realises a (non-`Unknown`) entry.
pub open spec fn op_of_entry(e: EntryV, source: Seq<Seq<char>>, base: Seq<Seq<char>>) -> OpV {
    match e.kind {
        EntryKind::File => OpV::Copy { from: source + e.rel, to: base + e.rel },
        EntryKind::Symlink => OpV::Link { target: e.link_target, to: base + e.rel },
        EntryKind::Dir => OpV::CreateDir { to: base + e.rel },
        EntryKind::Unknown => OpV::End,
    }
}

/// The progress deltas that accompany an entry: a file reveals its length
/// ahead of its copy; a directory contributes its own metadata length, a
/// deliberately weak proxy kept from the baseline design.
pub open spec fn stats_of_entry(e: EntryV) -> Seq<Result<StatusUpdate, ErrV>> {
    match e.kind {
        EntryKind::File => seq![Ok(StatusUpdate::Size(e.len))],
        EntryKind::Symlink => Seq::empty(),
        EntryKind::Dir => seq![Ok(StatusUpdate::Size(e.len))],
        EntryKind::Unknown => Seq::empty(),
    }
}

/// The spec-level value of a finished tree plan: the operation stream for
/// the executor, the statistics stream for the aggregator, and the
/// traversal's own outcome.
#[verifier::ext_equal]
pub struct PlanV {
    pub ops: Seq<OpV>,
    pub stats: Seq<Result<StatusUpdate, ErrV>>,
    pub outcome: Result<(), ErrV>,
}

/// The plan after the first `n` entries have been considered.  An aborted
/// plan swallows everything that follows; an excluded entry contributes
/// nothing; a no-clobber conflict or an unknown kind aborts with the
/// shutdown sentinel and the distinguishing error; every other entry
/// appends its one operation and its progress deltas.
pub open spec fn plan_upto(
    entries: Seq<EntryV>,
    source: Seq<Seq<char>>,
    base: Seq<Seq<char>>,
    noclobber: bool,
    n: int,
) -> PlanV
    decreases n,
{
    if n <= 0 {
        PlanV { ops: Seq::empty(), stats: Seq::empty(), outcome: Ok(()) }
    } else {
        let prev = plan_upto(entries, source, base, noclobber, n - 1);
        let e = entries[n - 1];
        if prev.outcome is Err {
            prev
        } else if excluded(entries, e.rel) {
            prev
        } else if entry_clobbers(e, noclobber) {
            PlanV {
                ops: prev.ops.push(OpV::End),
                stats: prev.stats.push(Err(ErrV::DestinationExists { path: base + e.rel })),
                outcome: Err(ErrV::EarlyShutdown),
            }
        } else if e.kind is Unknown {
            PlanV {
                ops: prev.ops.push(OpV::End),
                stats: prev.stats.push(Err(ErrV::UnknownFiletype { path: base + e.rel })),
                outcome: Err(ErrV::UnknownFiletype { path: base + e.rel }),
            }
        } else {
            PlanV {
                ops: prev.ops.push(op_of_entry(e, source, base)),
                stats: prev.stats + stats_of_entry(e),
                outcome: Ok(()),
            }
        }
    }
}

/// The whole plan: all entries considered, and — on a normal completion —
/// one final shutdown sentinel for the executor.
pub open spec fn plan_of(
    entries: Seq<EntryV>,
    source: Seq<Seq<char>>,
    base: Seq<Seq<char>>,
    noclobber: bool,
) -> PlanV {
    let p = plan_upto(entries, source, base, noclobber, entries.len() as int);
    if p.outcome is Ok {
        PlanV { ops: p.ops.push(OpV::End), stats: p.stats, outcome: Ok(()) }
    } else {
        p
    }
}

/// The destination base, computed once per run.
pub fn target_base(source: &FsPath, dest: &FsPath, dest_exists: bool) -> (r: Result<
    FsPath,
    XcpError,
>)
    ensures
        match r {
            Ok(base) => source@.len() > 0 && base@ == spec_target_base(source@, dest@, dest_exists),
            Err(e) => source@.len() == 0 && e@ == ErrV::InvalidSource,
        },
{
    match source.file_name() {
        None => Err(XcpError::InvalidSource),
        Some(name) => {
            if dest_exists {
                let mut base = dest.clone();
                base.push(name);
                Ok(base)
            } else {
                Ok(dest.clone())
            }
        },
    }
}

/// The destination of one entry: its relative path rebased onto the
/// destination base; the source root itself maps to the base.
pub fn entry_target(base: &FsPath, rel: &FsPath) -> (t: FsPath)
    ensures
        t@ == base@ + rel@,
{
    if empty(rel) {
        let t = base.clone();
        proof {
            assert(base@ + rel@ =~= base@);
        }
        t
    } else {
        base.join(rel)
    }
}

/// Whether some ignored entry of the list is this path or an ancestor of
/// it.
pub fn is_excluded(entries: &Vec<Entry>, rel: &FsPath) -> (r: bool)
    ensures
        r == excluded(entries_view(entries@), rel@),
{
    let mut j: usize = 0;
    while j < entries.len()
        invariant
            j <= entries@.len(),
            forall|k: int|
                0 <= k < j ==> !(entries_view(entries@)[k].ignored && is_prefix_of(
                    entries_view(entries@)[k].rel,
                    rel@,
                )),
        decreases entries@.len() - j,
    {
        if entries[j].ignored {
            if rel.strip_prefix(&entries[j].rel).is_some() {
                proof {
                    assert(entries_view(entries@)[j as int].ignored && is_prefix_of(
                        entries_view(entries@)[j as int].rel,
                        rel@,
                    ));
                }
                return true;
            }
        }
        j += 1;
    }
    false
}

/// The traversal's verdict on one entry: pass it over, hand the executor
/// one operation with its progress deltas, or stop the whole run.
pub enum PlanStep {
    Skip,
    Proceed { op: Operation, stats: Vec<StatMsg> },
    Abort { notice: XcpError, outcome: XcpError },
}

/// Decide one entry, as the traversal visits it: an ignored entry is
/// skipped; a destination that already exists under no-clobber aborts the
/// run with the distinguished early-shutdown outcome; an unknown kind
/// aborts defensively; everything else becomes its one operation.  An
/// abort's `notice` travels down the statistics channel, its `outcome`
/// becomes the traversal's result.
pub fn plan_entry(e: &Entry, source: &FsPath, base: &FsPath, noclobber: bool) -> (r: PlanStep)
    ensures
        match r {
            PlanStep::Skip => e@.ignored,
            PlanStep::Proceed { op, stats } => !e@.ignored && !entry_clobbers(e@, noclobber) && !(
            e@.kind is Unknown) && op@ == op_of_entry(e@, source@, base@) && stats_view(stats@)
                == stats_of_entry(e@),
            PlanStep::Abort { notice, outcome } => !e@.ignored && if entry_clobbers(
                e@,
                noclobber,
            ) {
                notice@ == (ErrV::DestinationExists { path: base@ + e@.rel }) && outcome@
                    == ErrV::EarlyShutdown
            } else {
                e@.kind is Unknown && notice@ == (ErrV::UnknownFiletype { path: base@ + e@.rel })
                    && outcome@ == notice@
            },
        },
{
    if e.ignored {
        return PlanStep::Skip;
    }
    let target = entry_target(base, &e.rel);
    if noclobber && e.target_exists {
        let notice = XcpError::DestinationExists { path: target };
        return PlanStep::Abort { notice, outcome: XcpError::EarlyShutdown };
    }
    match e.kind {
        EntryKind::File => {
            let from = entry_target(source, &e.rel);
            let stats: Vec<StatMsg> = vec![Ok(StatusUpdate::Size(e.len))];
            proof {
                assert(stats_view(stats@) =~= stats_of_entry(e@));
            }
            PlanStep::Proceed { op: Operation::Copy { from, to: target }, stats }
        },
        EntryKind::Symlink => {
            let stats: Vec<StatMsg> = Vec::new();
            proof {
                assert(stats_view(stats@) =~= stats_of_entry(e@));
            }
            PlanStep::Proceed {
                op: Operation::Link { target: e.link_target.clone(), to: target },
                stats,
            }
        },
        EntryKind::Dir => {
            let stats: Vec<StatMsg> = vec![Ok(StatusUpdate::Size(e.len))];
            proof {
                assert(stats_view(stats@) =~= stats_of_entry(e@));
            }
            PlanStep::Proceed { op: Operation::CreateDir { to: target }, stats }
        },
        EntryKind::Unknown => {
            let notice = XcpError::UnknownFiletype { path: target };
            let outcome = notice.clone();
            PlanStep::Abort { notice, outcome }
        },
    }
}

proof fn lemma_ops_view_push(s: Seq<Operation>, x: Operation)
    ensures
        ops_view(s.push(x)) == ops_view(s).push(x@),
{
    assert(ops_view(s.push(x)) =~= ops_view(s).push(x@));
}

proof fn lemma_stats_view_push(s: Seq<StatMsg>, x: StatMsg)
    ensures
        stats_view(s.push(x)) == stats_view(s).push(crate::ops::stat_msg_view(x)),
{
    assert(stats_view(s.push(x)) =~= stats_view(s).push(crate::ops::stat_msg_view(x)));
}

proof fn lemma_stats_view_concat(a: Seq<StatMsg>, b: Seq<StatMsg>)
    ensures
        stats_view(a + b) == stats_view(a) + stats_view(b),
{
    assert(stats_view(a + b) =~= stats_view(a) + stats_view(b));
}

/// An aborted plan never grows again: considering further entries leaves
/// it as it stood.
pub proof fn lemma_plan_upto_stable(
    entries: Seq<EntryV>,
    source: Seq<Seq<char>>,
    base: Seq<Seq<char>>,
    noclobber: bool,
    i: int,
    n: int,
)
    requires
        0 <= i <= n,
        plan_upto(entries, source, base, noclobber, i).outcome is Err,
    ensures
        plan_upto(entries, source, base, noclobber, n) == plan_upto(
            entries,
            source,
            base,
            noclobber,
            i,
        ),
    decreases n - i,
{
    if n > i {
        lemma_plan_upto_stable(entries, source, base, noclobber, i, n - 1);
    }
}

/// A finished tree plan: the operation stream (ending in the shutdown
/// sentinel), the statistics stream, and the traversal's outcome.
#[derive(Debug)]
pub struct TreePlan {
    pub ops: Vec<Operation>,
    pub stats: Vec<StatMsg>,
    pub outcome: Result<(), XcpError>,
}

impl View for TreePlan {
    type V = PlanV;

    open spec fn view(&self) -> PlanV {
        PlanV {
            ops: ops_view(self.ops@),
            stats: stats_view(self.stats@),
            outcome: match self.outcome {
                Ok(u) => Ok(()),
                Err(e) => Err(e@),
            },
        }
    }
}

/// Plan a whole tree copy: compute the destination base once, then decide
/// every entry in order, stopping at the first abort.  The result is
/// exactly the plan that [`plan_of`] describes.
pub fn plan_tree(
    source: &FsPath,
    dest: &FsPath,
    dest_exists: bool,
    noclobber: bool,
    entries: &Vec<Entry>,
) -> (r: Result<TreePlan, XcpError>)
    ensures
        match r {
            Ok(plan) => source@.len() > 0 && plan@ == plan_of(
                entries_view(entries@),
                source@,
                spec_target_base(source@, dest@, dest_exists),
                noclobber,
            ),
            Err(e) => source@.len() == 0 && e@ == ErrV::InvalidSource,
        },
{
    let base = match target_base(source, dest, dest_exists) {
        Err(e) => { return Err(e) },
        Ok(b) => b,
    };
    let ghost ev = entries_view(entries@);
    let ghost sv = source@;
    let ghost bv = base@;
    let mut ops: Vec<Operation> = Vec::new();
    let mut stats: Vec<StatMsg> = Vec::new();
    proof {
        assert(ops_view(ops@) =~= plan_upto(ev, sv, bv, noclobber, 0).ops);
        assert(stats_view(stats@) =~= plan_upto(ev, sv, bv, noclobber, 0).stats);
    }
    let mut i: usize = 0;
    while i < entries.len()
        invariant
            i <= entries@.len(),
            ev == entries_view(entries@),
            sv == source@,
            bv == base@,
            source@.len() > 0,
            bv == spec_target_base(source@, dest@, dest_exists),
            plan_upto(ev, sv, bv, noclobber, i as int).outcome is Ok,
            ops_view(ops@) == plan_upto(ev, sv, bv, noclobber, i as int).ops,
            stats_view(stats@) == plan_upto(ev, sv, bv, noclobber, i as int).stats,
        decreases entries@.len() - i,
    {
        let e = &entries[i];
        proof {
            assert(ev[i as int] == e@);
        }
        if is_excluded(entries, &e.rel) {
            i += 1;
            continue;
        }
        let ghost prev_ops = ops@;
        let ghost prev_stats = stats@;
        match plan_entry(e, source, &base, noclobber) {
            PlanStep::Skip => {
                proof {
                    assert(is_prefix_of(e@.rel, e@.rel));
                    assert(excluded(ev, e@.rel));
                }
            },
            PlanStep::Proceed { op, stats: estats } => {
                let ghost estatsv = estats@;
                ops.push(op);
                let mut estats = estats;
                stats.append(&mut estats);
                proof {
                    lemma_ops_view_push(prev_ops, ops@.last());
                    assert(ops_view(ops@) == plan_upto(ev, sv, bv, noclobber, i + 1).ops);
                    lemma_stats_view_concat(prev_stats, estatsv);
                    assert(stats_view(stats@) == plan_upto(ev, sv, bv, noclobber, i + 1).stats);
                }
            },
            PlanStep::Abort { notice, outcome } => {
                ops.push(Operation::End);
                stats.push(Err(notice));
                proof {
                    lemma_ops_view_push(prev_ops, ops@.last());
                    lemma_stats_view_push(prev_stats, stats@.last());
                    assert(ops_view(ops@) == plan_upto(ev, sv, bv, noclobber, i + 1).ops);
                    assert(stats_view(stats@) == plan_upto(ev, sv, bv, noclobber, i + 1).stats);
                    assert(plan_upto(ev, sv, bv, noclobber, i + 1).outcome is Err);
                    lemma_plan_upto_stable(ev, sv, bv, noclobber, i + 1, ev.len() as int);
                    let p1 = plan_upto(ev, sv, bv, noclobber, i + 1);
                    assert(p1.outcome == Err::<(), ErrV>(outcome@));
                    assert(plan_of(ev, sv, bv, noclobber) == p1);
                    assert((PlanV {
                        ops: ops_view(ops@),
                        stats: stats_view(stats@),
                        outcome: Err(outcome@),
                    }) =~= p1);
                }
                return Ok(TreePlan { ops, stats, outcome: Err(outcome) });
            },
        }
        i += 1;
    }
    let ghost prev_ops = ops@;
    ops.push(Operation::End);
    proof {
        lemma_ops_view_push(prev_ops, ops@.last());
    }
    Ok(TreePlan { ops, stats, outcome: Ok(()) })
}

} // verus!

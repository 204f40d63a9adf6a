//! What a finished tree plan guarantees.
//!
//! These proof functions state the promises of the planner as facts about
//! [`plan_of`]: every surviving source entry is realised at its rebased
//! destination and nothing else is ever written; the ignore predicate's
//! verdict reaches every descendant; the no-clobber policy stops the run
//! before the conflicting destination is written and names it; a
//! destination that did not yet exist is written only as the source root
//! itself.

use vstd::prelude::*;

use crate::ops::{op_dest, ErrV, OpV};
use crate::path::is_prefix_of;
use crate::traversal::{entry_clobbers, excluded, op_of_entry, plan_of, plan_upto, EntryV};

verus! {

proof fn lemma_concat_cancel(a: Seq<Seq<char>>, b: Seq<Seq<char>>, c: Seq<Seq<char>>)
    requires
        a + b == a + c,
    ensures
        b == c,
{
    assert((a + b).len() == a.len() + b.len());
    assert((a + c).len() == a.len() + c.len());
    assert(b.len() == c.len());
    assert forall|i: int| 0 <= i < b.len() implies b[i] == c[i] by {
        assert((a + b)[a.len() + i] == b[i]);
        assert((a + c)[a.len() + i] == c[i]);
    }
    assert(b =~= c);
}

proof fn lemma_plan_upto_monotone(
    entries: Seq<EntryV>,
    source: Seq<Seq<char>>,
    base: Seq<Seq<char>>,
    noclobber: bool,
    m: int,
    n: int,
)
    requires
        0 <= m <= n,
    ensures
        plan_upto(entries, source, base, noclobber, m).ops.len() <= plan_upto(
            entries,
            source,
            base,
            noclobber,
            n,
        ).ops.len(),
        forall|k: int|
            0 <= k < plan_upto(entries, source, base, noclobber, m).ops.len() ==> plan_upto(
                entries,
                source,
                base,
                noclobber,
                n,
            ).ops[k] == plan_upto(entries, source, base, noclobber, m).ops[k],
    decreases n - m,
{
    if n > m {
        lemma_plan_upto_monotone(entries, source, base, noclobber, m, n - 1);
        let prev = plan_upto(entries, source, base, noclobber, n - 1);
        let cur = plan_upto(entries, source, base, noclobber, n);
        assert forall|k: int| 0 <= k < prev.ops.len() implies cur.ops[k] == prev.ops[k] by {
            if cur.ops != prev.ops {
                assert(prev.ops.push(cur.ops.last())[k] == prev.ops[k]);
            }
        }
    }
}

/// When planning completed without an abort, no entry that was reached
/// clobbered and none had an unknown kind; every non-excluded entry's
/// operation stands in the plan.
proof fn lemma_plan_upto_complete(
    entries: Seq<EntryV>,
    source: Seq<Seq<char>>,
    base: Seq<Seq<char>>,
    noclobber: bool,
    i: int,
    n: int,
)
    requires
        0 <= i < n,
        !excluded(entries, entries[i].rel),
        plan_upto(entries, source, base, noclobber, n).outcome is Ok,
    ensures
        !entry_clobbers(entries[i], noclobber),
        !(entries[i].kind is Unknown),
        plan_upto(entries, source, base, noclobber, n).ops.contains(
            op_of_entry(entries[i], source, base),
        ),
{
    let prev = plan_upto(entries, source, base, noclobber, i);
    let at = plan_upto(entries, source, base, noclobber, i + 1);
    if prev.outcome is Err {
        crate::traversal::lemma_plan_upto_stable(entries, source, base, noclobber, i, n);
        assert(false);
    }
    if at.outcome is Err {
        crate::traversal::lemma_plan_upto_stable(entries, source, base, noclobber, i + 1, n);
        assert(false);
    }
    assert(at.ops == prev.ops.push(op_of_entry(entries[i], source, base)));
    let idx = prev.ops.len() as int;
    assert(at.ops[idx] == op_of_entry(entries[i], source, base));
    lemma_plan_upto_monotone(entries, source, base, noclobber, i + 1, n);
    let cur = plan_upto(entries, source, base, noclobber, n);
    assert(cur.ops[idx] == op_of_entry(entries[i], source, base));
    assert(cur.ops.contains(op_of_entry(entries[i], source, base)));
}

/// Every operation of a partial plan is the shutdown sentinel or realises
/// one non-excluded entry that neither clobbered nor had an unknown kind.
proof fn lemma_plan_upto_only_entries(
    entries: Seq<EntryV>,
    source: Seq<Seq<char>>,
    base: Seq<Seq<char>>,
    noclobber: bool,
    n: int,
    k: int,
)
    requires
        0 <= n,
        0 <= k < plan_upto(entries, source, base, noclobber, n).ops.len(),
    ensures
        plan_upto(entries, source, base, noclobber, n).ops[k] == OpV::End || exists|i: int|
            #![auto]
            0 <= i < n && !excluded(entries, entries[i].rel) && !entry_clobbers(
                entries[i],
                noclobber,
            ) && !(entries[i].kind is Unknown) && plan_upto(
                entries,
                source,
                base,
                noclobber,
                n,
            ).ops[k] == op_of_entry(entries[i], source, base),
    decreases n,
{
    let cur = plan_upto(entries, source, base, noclobber, n);
    if n == 0 {
        assert(false);
    } else {
        let prev = plan_upto(entries, source, base, noclobber, n - 1);
        let e = entries[n - 1];
        if cur.ops == prev.ops {
            lemma_plan_upto_only_entries(entries, source, base, noclobber, n - 1, k);
        } else {
            assert(cur.ops == prev.ops.push(cur.ops.last()));
            if k < prev.ops.len() {
                assert(cur.ops[k] == prev.ops[k]);
                lemma_plan_upto_only_entries(entries, source, base, noclobber, n - 1, k);
            } else {
                assert(cur.ops[k] == cur.ops.last());
                if prev.outcome is Ok && !excluded(entries, e.rel) && !entry_clobbers(e, noclobber)
                    && !(e.kind is Unknown) {
                    assert(cur.ops[k] == op_of_entry(e, source, base));
                } else {
                    assert(cur.ops[k] == OpV::End);
                }
            }
        }
    }
}

proof fn lemma_plan_upto_stats_monotone(
    entries: Seq<EntryV>,
    source: Seq<Seq<char>>,
    base: Seq<Seq<char>>,
    noclobber: bool,
    m: int,
    n: int,
)
    requires
        0 <= m <= n,
    ensures
        plan_upto(entries, source, base, noclobber, m).stats.len() <= plan_upto(
            entries,
            source,
            base,
            noclobber,
            n,
        ).stats.len(),
        forall|k: int|
            0 <= k < plan_upto(entries, source, base, noclobber, m).stats.len() ==> plan_upto(
                entries,
                source,
                base,
                noclobber,
                n,
            ).stats[k] == plan_upto(entries, source, base, noclobber, m).stats[k],
    decreases n - m,
{
    if n > m {
        lemma_plan_upto_stats_monotone(entries, source, base, noclobber, m, n - 1);
        let prev = plan_upto(entries, source, base, noclobber, n - 1);
        let cur = plan_upto(entries, source, base, noclobber, n);
        let e = entries[n - 1];
        assert forall|k: int| 0 <= k < prev.stats.len() implies cur.stats[k] == prev.stats[k] by {
            if cur.stats != prev.stats {
                if prev.outcome is Ok && !excluded(entries, e.rel) && !entry_clobbers(
                    e,
                    noclobber,
                ) && !(e.kind is Unknown) {
                    assert((prev.stats + crate::traversal::stats_of_entry(e))[k]
                        == prev.stats[k]);
                } else {
                    assert(prev.stats.push(cur.stats.last())[k] == prev.stats[k]);
                }
            }
        }
    }
}

/// Total size is revealed incrementally as traversal proceeds: every
/// surviving regular file's length — and every surviving directory's
/// metadata length, the documented weak proxy — reaches the statistics
/// stream as a `Size` delta when the plan completes.
pub proof fn lemma_sizes_revealed(
    entries: Seq<EntryV>,
    source: Seq<Seq<char>>,
    base: Seq<Seq<char>>,
    noclobber: bool,
    i: int,
)
    requires
        0 <= i < entries.len(),
        !excluded(entries, entries[i].rel),
        entries[i].kind is File || entries[i].kind is Dir,
        plan_of(entries, source, base, noclobber).outcome is Ok,
    ensures
        plan_of(entries, source, base, noclobber).stats.contains(
            Ok(crate::ops::StatusUpdate::Size(entries[i].len)),
        ),
{
    let n = entries.len() as int;
    let prev = plan_upto(entries, source, base, noclobber, i);
    let at = plan_upto(entries, source, base, noclobber, i + 1);
    if prev.outcome is Err {
        crate::traversal::lemma_plan_upto_stable(entries, source, base, noclobber, i, n);
        assert(false);
    }
    if at.outcome is Err {
        crate::traversal::lemma_plan_upto_stable(entries, source, base, noclobber, i + 1, n);
        assert(false);
    }
    let msg = Ok::<crate::ops::StatusUpdate, ErrV>(
        crate::ops::StatusUpdate::Size(entries[i].len),
    );
    let idx = prev.stats.len() as int;
    assert(at.stats == prev.stats + crate::traversal::stats_of_entry(entries[i]));
    assert(at.stats[idx] == msg) by {
        assert((prev.stats + crate::traversal::stats_of_entry(entries[i]))[idx]
            == crate::traversal::stats_of_entry(entries[i])[0]);
    }
    lemma_plan_upto_stats_monotone(entries, source, base, noclobber, i + 1, n);
    let p = plan_upto(entries, source, base, noclobber, n);
    assert(p.stats[idx] == msg);
    assert(plan_of(entries, source, base, noclobber).stats.contains(msg));
}

/// No entry among the first `n` aborts, so the partial plan completes.
proof fn lemma_plan_upto_ok(
    entries: Seq<EntryV>,
    source: Seq<Seq<char>>,
    base: Seq<Seq<char>>,
    noclobber: bool,
    n: int,
)
    requires
        0 <= n <= entries.len(),
        forall|j: int|
            0 <= j < n && !excluded(entries, entries[j].rel) ==> !entry_clobbers(
                entries[j],
                noclobber,
            ) && !(entries[j].kind is Unknown),
    ensures
        plan_upto(entries, source, base, noclobber, n).outcome is Ok,
    decreases n,
{
    if n > 0 {
        lemma_plan_upto_ok(entries, source, base, noclobber, n - 1);
    }
}

/// Every source path that survives the ignore predicate is present under
/// the destination base when the plan completes: a directory is created
/// at `base + rel`, a regular file is copied there from `source + rel`,
/// and a symbolic link is reproduced there with the original target text
/// verbatim.
pub proof fn lemma_tree_paths_present(
    entries: Seq<EntryV>,
    source: Seq<Seq<char>>,
    base: Seq<Seq<char>>,
    noclobber: bool,
    i: int,
)
    requires
        0 <= i < entries.len(),
        !excluded(entries, entries[i].rel),
        plan_of(entries, source, base, noclobber).outcome is Ok,
    ensures
        plan_of(entries, source, base, noclobber).ops.contains(
            op_of_entry(entries[i], source, base),
        ),
        entries[i].kind is Dir ==> plan_of(entries, source, base, noclobber).ops.contains(
            OpV::CreateDir { to: base + entries[i].rel },
        ),
        entries[i].kind is File ==> plan_of(entries, source, base, noclobber).ops.contains(
            OpV::Copy { from: source + entries[i].rel, to: base + entries[i].rel },
        ),
        entries[i].kind is Symlink ==> plan_of(entries, source, base, noclobber).ops.contains(
            OpV::Link { target: entries[i].link_target, to: base + entries[i].rel },
        ),
{
    let n = entries.len() as int;
    let p = plan_upto(entries, source, base, noclobber, n);
    lemma_plan_upto_complete(entries, source, base, noclobber, i, n);
    let op = op_of_entry(entries[i], source, base);
    let idx = choose|idx: int| 0 <= idx < p.ops.len() && p.ops[idx] == op;
    assert(plan_of(entries, source, base, noclobber).ops[idx] == op) by {
        assert(p.ops.push(OpV::End)[idx] == p.ops[idx]);
    }
    assert(plan_of(entries, source, base, noclobber).ops.contains(op));
}

/// Nothing but the source's own entries is ever written: every planned
/// operation is the shutdown sentinel or realises one non-excluded entry
/// at `base + rel`.
pub proof fn lemma_no_extra_paths(
    entries: Seq<EntryV>,
    source: Seq<Seq<char>>,
    base: Seq<Seq<char>>,
    noclobber: bool,
    k: int,
)
    requires
        0 <= k < plan_of(entries, source, base, noclobber).ops.len(),
    ensures
        plan_of(entries, source, base, noclobber).ops[k] == OpV::End || exists|i: int|
            #![auto]
            0 <= i < entries.len() && !excluded(entries, entries[i].rel) && !entry_clobbers(
                entries[i],
                noclobber,
            ) && !(entries[i].kind is Unknown) && plan_of(entries, source, base, noclobber).ops[k]
                == op_of_entry(entries[i], source, base),
{
    let n = entries.len() as int;
    let p = plan_upto(entries, source, base, noclobber, n);
    if p.outcome is Ok {
        if k < p.ops.len() {
            assert(plan_of(entries, source, base, noclobber).ops[k] == p.ops[k]) by {
                assert(p.ops.push(OpV::End)[k] == p.ops[k]);
            }
            lemma_plan_upto_only_entries(entries, source, base, noclobber, n, k);
        } else {
            assert(plan_of(entries, source, base, noclobber).ops[k] == OpV::End) by {
                assert(p.ops.push(OpV::End)[p.ops.len() as int] == OpV::End);
            }
        }
    } else {
        lemma_plan_upto_only_entries(entries, source, base, noclobber, n, k);
    }
}

/// Exclusion reaches every descendant: a path below an excluded path is
/// itself excluded.
pub proof fn lemma_excluded_descendant(
    entries: Seq<EntryV>,
    r: Seq<Seq<char>>,
    d: Seq<Seq<char>>,
)
    requires
        excluded(entries, r),
        is_prefix_of(r, d),
    ensures
        excluded(entries, d),
{
    let j = choose|j: int|
        0 <= j < entries.len() && entries[j].ignored && is_prefix_of(entries[j].rel, r);
    assert(is_prefix_of(entries[j].rel, d));
}

/// A path that the ignore predicate excludes — itself or through an
/// ignored ancestor — is never the destination of any planned operation.
pub proof fn lemma_ignored_never_written(
    entries: Seq<EntryV>,
    source: Seq<Seq<char>>,
    base: Seq<Seq<char>>,
    noclobber: bool,
    r: Seq<Seq<char>>,
    k: int,
)
    requires
        excluded(entries, r),
        0 <= k < plan_of(entries, source, base, noclobber).ops.len(),
    ensures
        op_dest(plan_of(entries, source, base, noclobber).ops[k]) != Some(base + r),
{
    lemma_no_extra_paths(entries, source, base, noclobber, k);
    let op = plan_of(entries, source, base, noclobber).ops[k];
    if op != OpV::End {
        let i = choose|i: int|
            #![auto]
            0 <= i < entries.len() && !excluded(entries, entries[i].rel) && !entry_clobbers(
                entries[i],
                noclobber,
            ) && !(entries[i].kind is Unknown) && op == op_of_entry(entries[i], source, base);
        if op_dest(op) == Some(base + r) {
            assert(base + entries[i].rel == base + r);
            lemma_concat_cancel(base, entries[i].rel, r);
            assert(false);
        }
    }
}

/// With no-clobber set, an entry whose destination already exists stops
/// the run: the outcome is not success, and no planned operation ever
/// writes that destination, so its prior content is untouched.
pub proof fn lemma_no_clobber_protects(
    entries: Seq<EntryV>,
    source: Seq<Seq<char>>,
    base: Seq<Seq<char>>,
    i: int,
    k: int,
)
    requires
        0 <= i < entries.len(),
        !excluded(entries, entries[i].rel),
        entries[i].target_exists,
        forall|a: int, b: int|
            0 <= a < b < entries.len() ==> entries[a].rel != entries[b].rel,
        0 <= k < plan_of(entries, source, base, true).ops.len(),
    ensures
        !(plan_of(entries, source, base, true).outcome is Ok),
        op_dest(plan_of(entries, source, base, true).ops[k]) != Some(base + entries[i].rel),
{
    let n = entries.len() as int;
    if plan_of(entries, source, base, true).outcome is Ok {
        lemma_plan_upto_complete(entries, source, base, true, i, n);
        assert(false);
    }
    lemma_no_extra_paths(entries, source, base, true, k);
    let op = plan_of(entries, source, base, true).ops[k];
    if op != OpV::End && op_dest(op) == Some(base + entries[i].rel) {
        let j = choose|j: int|
            #![auto]
            0 <= j < entries.len() && !excluded(entries, entries[j].rel) && !entry_clobbers(
                entries[j],
                true,
            ) && !(entries[j].kind is Unknown) && op == op_of_entry(entries[j], source, base);
        assert(base + entries[j].rel == base + entries[i].rel);
        lemma_concat_cancel(base, entries[j].rel, entries[i].rel);
        if j < i {
            assert(entries[j].rel != entries[i].rel);
        } else if i < j {
            assert(entries[i].rel != entries[j].rel);
        }
        assert(j == i);
        assert(false);
    }
}

/// The abort that the first conflicting entry causes names that entry's
/// destination, and the traversal's outcome is the distinguished
/// early-shutdown signal, not a generic failure.
pub proof fn lemma_clobber_names_path(
    entries: Seq<EntryV>,
    source: Seq<Seq<char>>,
    base: Seq<Seq<char>>,
    i: int,
)
    requires
        0 <= i < entries.len(),
        !excluded(entries, entries[i].rel),
        entries[i].target_exists,
        !(entries[i].kind is Unknown),
        forall|j: int|
            0 <= j < i && !excluded(entries, entries[j].rel) ==> !entry_clobbers(entries[j], true)
                && !(entries[j].kind is Unknown),
    ensures
        plan_of(entries, source, base, true).outcome == Err::<(), ErrV>(ErrV::EarlyShutdown),
        plan_of(entries, source, base, true).stats.len() > 0,
        plan_of(entries, source, base, true).stats.last() == Err::<
            crate::ops::StatusUpdate,
            ErrV,
        >(ErrV::DestinationExists { path: base + entries[i].rel }),
{
    let n = entries.len() as int;
    lemma_plan_upto_ok(entries, source, base, true, i);
    let at = plan_upto(entries, source, base, true, i + 1);
    assert(at.outcome == Err::<(), ErrV>(ErrV::EarlyShutdown));
    assert(at.stats.last() == Err::<crate::ops::StatusUpdate, ErrV>(
        ErrV::DestinationExists { path: base + entries[i].rel },
    ));
    crate::traversal::lemma_plan_upto_stable(entries, source, base, true, i + 1, n);
}

proof fn lemma_plan_upto_one_end(
    entries: Seq<EntryV>,
    source: Seq<Seq<char>>,
    base: Seq<Seq<char>>,
    noclobber: bool,
    n: int,
)
    requires
        0 <= n,
    ensures
        plan_upto(entries, source, base, noclobber, n).outcome is Ok ==> forall|k: int|
            0 <= k < plan_upto(entries, source, base, noclobber, n).ops.len() ==> plan_upto(
                entries,
                source,
                base,
                noclobber,
                n,
            ).ops[k] != OpV::End,
        plan_upto(entries, source, base, noclobber, n).outcome is Err ==> plan_upto(
            entries,
            source,
            base,
            noclobber,
            n,
        ).ops.len() > 0 && plan_upto(entries, source, base, noclobber, n).ops.last() == OpV::End
            && forall|k: int|
            0 <= k < plan_upto(entries, source, base, noclobber, n).ops.len() - 1 ==> plan_upto(
                entries,
                source,
                base,
                noclobber,
                n,
            ).ops[k] != OpV::End,
    decreases n,
{
    if n > 0 {
        lemma_plan_upto_one_end(entries, source, base, noclobber, n - 1);
        let prev = plan_upto(entries, source, base, noclobber, n - 1);
        let cur = plan_upto(entries, source, base, noclobber, n);
        let e = entries[n - 1];
        if prev.outcome is Ok && !excluded(entries, e.rel) && !entry_clobbers(e, noclobber) && !(
        e.kind is Unknown) {
            assert(op_of_entry(e, source, base) != OpV::End);
            assert forall|k: int| 0 <= k < cur.ops.len() implies cur.ops[k] != OpV::End by {
                if k < prev.ops.len() {
                    assert(cur.ops[k] == prev.ops[k]);
                }
            }
        }
    }
}

/// The executor is asked to shut down exactly once: every finished plan's
/// operation stream ends with the sentinel, and the sentinel stands
/// nowhere else in it.
pub proof fn lemma_one_shutdown_sentinel(
    entries: Seq<EntryV>,
    source: Seq<Seq<char>>,
    base: Seq<Seq<char>>,
    noclobber: bool,
)
    ensures
        plan_of(entries, source, base, noclobber).ops.len() > 0,
        plan_of(entries, source, base, noclobber).ops.last() == OpV::End,
        forall|k: int|
            0 <= k < plan_of(entries, source, base, noclobber).ops.len() - 1 ==> plan_of(
                entries,
                source,
                base,
                noclobber,
            ).ops[k] != OpV::End,
{
    let n = entries.len() as int;
    lemma_plan_upto_one_end(entries, source, base, noclobber, n);
    let p = plan_upto(entries, source, base, noclobber, n);
    if p.outcome is Ok {
        assert(p.ops.push(OpV::End).last() == OpV::End);
        assert forall|k: int|
            0 <= k < plan_of(entries, source, base, noclobber).ops.len() - 1 implies plan_of(
            entries,
            source,
            base,
            noclobber,
        ).ops[k] != OpV::End by {
            assert(p.ops.push(OpV::End)[k] == p.ops[k]);
        }
    }
}

/// When the destination base itself is written, the writer is the source
/// root: only the root entry's relative path is empty, so a copy into a
/// destination that did not yet exist puts exactly the source root at
/// that literal path, never a subdirectory named after the source.
pub proof fn lemma_fresh_destination_rename(
    entries: Seq<EntryV>,
    source: Seq<Seq<char>>,
    dest: Seq<Seq<char>>,
    noclobber: bool,
    k: int,
)
    requires
        0 <= k < plan_of(entries, source, dest, noclobber).ops.len(),
        op_dest(plan_of(entries, source, dest, noclobber).ops[k]) == Some(dest),
    ensures
        crate::traversal::spec_target_base(source, dest, false) == dest,
        exists|i: int|
            #![auto]
            0 <= i < entries.len() && entries[i].rel.len() == 0 && !excluded(
                entries,
                entries[i].rel,
            ) && plan_of(entries, source, dest, noclobber).ops[k] == op_of_entry(
                entries[i],
                source,
                dest,
            ),
{
    lemma_no_extra_paths(entries, source, dest, noclobber, k);
    let op = plan_of(entries, source, dest, noclobber).ops[k];
    assert(op != OpV::End);
    let i = choose|i: int|
        #![auto]
        0 <= i < entries.len() && !excluded(entries, entries[i].rel) && !entry_clobbers(
            entries[i],
            noclobber,
        ) && !(entries[i].kind is Unknown) && op == op_of_entry(entries[i], source, dest);
    assert(dest + entries[i].rel == dest + Seq::<Seq<char>>::empty()) by {
        assert(dest + Seq::<Seq<char>>::empty() =~= dest);
    }
    lemma_concat_cancel(dest, entries[i].rel, Seq::<Seq<char>>::empty());
}

} // verus!

//! Planning a tree copy: destination layout, pruning, abort policy.

use xcp::ops::{EntryKind, Operation, StatusUpdate, XcpError};
use xcp::path::FsPath;
use xcp::single::{check_clobber, single_file_dest};
use xcp::traversal::{plan_tree, target_base, Entry, TreePlan};

fn p(parts: &[&str]) -> FsPath {
    FsPath { components: parts.iter().map(|s| s.to_string()).collect() }
}

fn dir(rel: &[&str]) -> Entry {
    Entry {
        rel: p(rel),
        kind: EntryKind::Dir,
        len: 4096,
        link_target: String::new(),
        ignored: false,
        target_exists: false,
    }
}

fn file(rel: &[&str], len: u64) -> Entry {
    Entry {
        rel: p(rel),
        kind: EntryKind::File,
        len,
        link_target: String::new(),
        ignored: false,
        target_exists: false,
    }
}

fn plan(source: &[&str], dest: &[&str], dest_exists: bool, noclobber: bool, entries: Vec<Entry>)
    -> TreePlan {
    plan_tree(&p(source), &p(dest), dest_exists, noclobber, &entries).unwrap()
}

#[test]
fn copy_empty_dir() {
    let plan = plan(&["mydir"], &["dest"], true, false, vec![dir(&[])]);
    assert!(plan.outcome.is_ok());
    assert_eq!(
        plan.ops,
        vec![Operation::CreateDir { to: p(&["dest", "mydir"]) }, Operation::End]
    );
}

#[test]
fn copy_all_dirs() {
    let entries = vec![dir(&[]), dir(&["one"]), dir(&["one", "two"]), dir(&["one", "two", "three"])];
    let plan = plan(&["mydir"], &["dest"], true, false, entries);
    assert!(plan.outcome.is_ok());
    assert_eq!(
        plan.ops,
        vec![
            Operation::CreateDir { to: p(&["dest", "mydir"]) },
            Operation::CreateDir { to: p(&["dest", "mydir", "one"]) },
            Operation::CreateDir { to: p(&["dest", "mydir", "one", "two"]) },
            Operation::CreateDir { to: p(&["dest", "mydir", "one", "two", "three"]) },
            Operation::End,
        ]
    );
}

#[test]
fn copy_dirs_files() {
    let entries = vec![
        dir(&[]),
        dir(&["one"]),
        file(&["one", "one.txt"], 3),
        dir(&["one", "two"]),
        file(&["one", "two", "two.txt"], 3),
        dir(&["one", "two", "three"]),
        file(&["one", "two", "three", "three.txt"], 5),
    ];
    let plan = plan(&["tmp", "mydir"], &["tmp", "dest"], true, false, entries);
    assert!(plan.outcome.is_ok());
    assert!(plan.ops.contains(&Operation::Copy {
        from: p(&["tmp", "mydir", "one", "one.txt"]),
        to: p(&["tmp", "dest", "mydir", "one", "one.txt"]),
    }));
    assert!(plan.ops.contains(&Operation::Copy {
        from: p(&["tmp", "mydir", "one", "two", "two.txt"]),
        to: p(&["tmp", "dest", "mydir", "one", "two", "two.txt"]),
    }));
    assert!(plan.ops.contains(&Operation::Copy {
        from: p(&["tmp", "mydir", "one", "two", "three", "three.txt"]),
        to: p(&["tmp", "dest", "mydir", "one", "two", "three", "three.txt"]),
    }));
    assert_eq!(plan.ops.last(), Some(&Operation::End));
    // A file's length is revealed to the progress display as it is found.
    assert!(plan.stats.contains(&Ok(StatusUpdate::Size(5))));
}

#[test]
fn file_copy() {
    // A destination that is not a directory is used as given.
    let dest = single_file_dest(&p(&["source.txt"]), &p(&["dest.txt"]), false).unwrap();
    assert_eq!(dest, p(&["dest.txt"]));
    assert!(check_clobber(&dest, false, true).is_ok());
}

#[test]
fn file_copy_rel() {
    // Relative-style paths behave no differently: components are
    // components, wherever the walk was rooted.
    let dest = single_file_dest(
        &p(&["target", "workdir", "source.txt"]),
        &p(&["target", "workdir", "dest.txt"]),
        false,
    )
    .unwrap();
    assert_eq!(dest, p(&["target", "workdir", "dest.txt"]));
    assert!(check_clobber(&dest, false, true).is_ok());
}

#[test]
fn copy_all_dirs_rel() {
    let entries = vec![dir(&[]), dir(&["one"]), dir(&["one", "two"]), dir(&["one", "two", "three"])];
    let plan = plan(&["target", "workdir", "mydir"], &["target", "workdir", "dest"], true, false, entries);
    assert!(plan.outcome.is_ok());
    assert!(plan.ops.contains(&Operation::CreateDir {
        to: p(&["target", "workdir", "dest", "mydir", "one", "two", "three"]),
    }));
    assert_eq!(plan.ops.last(), Some(&Operation::End));
}

#[test]
fn file_copy_into_dir() {
    // An existing directory destination receives the source's file name.
    let dest = single_file_dest(&p(&["a", "source.txt"]), &p(&["d"]), true).unwrap();
    assert_eq!(dest, p(&["d", "source.txt"]));
}

#[test]
fn dest_file_exists() {
    let dest = p(&["dest.txt"]);
    let err = check_clobber(&dest, true, true).unwrap_err();
    assert_eq!(err, XcpError::DestinationExists { path: p(&["dest.txt"]) });
    // Without no-clobber the same destination is accepted.
    assert!(check_clobber(&dest, true, false).is_ok());
}

#[test]
fn dest_file_in_dir_exists() {
    let dest = single_file_dest(&p(&["a", "source.txt"]), &p(&["d"]), true).unwrap();
    let err = check_clobber(&dest, true, true).unwrap_err();
    assert_eq!(err, XcpError::DestinationExists { path: p(&["d", "source.txt"]) });
}

#[test]
fn noclobber_aborts_tree() {
    let mut conflicting = dir(&[]);
    conflicting.target_exists = true;
    let plan = plan(&["mydir"], &["dest"], true, true, vec![conflicting, dir(&["one"])]);
    // The executor is stopped before any work, the error names the path,
    // and the outcome is the distinguished early-shutdown signal.
    assert_eq!(plan.ops, vec![Operation::End]);
    assert_eq!(
        plan.stats.last(),
        Some(&Err(XcpError::DestinationExists { path: p(&["dest", "mydir"]) }))
    );
    assert_eq!(plan.outcome, Err(XcpError::EarlyShutdown));
}

#[test]
fn ignored_subtree_skipped() {
    let mut skipped = dir(&["node_modules"]);
    skipped.ignored = true;
    let entries = vec![
        dir(&[]),
        skipped,
        file(&["node_modules", "dep.js"], 9),
        file(&["kept.txt"], 4),
    ];
    let plan = plan(&["mydir"], &["dest"], true, false, entries);
    assert!(plan.outcome.is_ok());
    assert_eq!(
        plan.ops,
        vec![
            Operation::CreateDir { to: p(&["dest", "mydir"]) },
            Operation::Copy {
                from: p(&["mydir", "kept.txt"]),
                to: p(&["dest", "mydir", "kept.txt"]),
            },
            Operation::End,
        ]
    );
}

#[test]
fn symlink_target_verbatim() {
    let link = Entry {
        rel: p(&["ln"]),
        kind: EntryKind::Symlink,
        len: 0,
        link_target: "../elsewhere/target".to_string(),
        ignored: false,
        target_exists: false,
    };
    let plan = plan(&["mydir"], &["dest"], true, false, vec![dir(&[]), link]);
    assert!(plan.outcome.is_ok());
    assert_eq!(
        plan.ops[1],
        Operation::Link {
            target: "../elsewhere/target".to_string(),
            to: p(&["dest", "mydir", "ln"]),
        }
    );
}

#[test]
fn unknown_filetype_aborts() {
    let odd = Entry {
        rel: p(&["socket"]),
        kind: EntryKind::Unknown,
        len: 0,
        link_target: String::new(),
        ignored: false,
        target_exists: false,
    };
    let plan = plan(&["mydir"], &["dest"], true, false, vec![dir(&[]), odd]);
    assert_eq!(plan.ops.last(), Some(&Operation::End));
    assert_eq!(
        plan.outcome,
        Err(XcpError::UnknownFiletype { path: p(&["dest", "mydir", "socket"]) })
    );
}

#[test]
fn missing_file_name_is_rejected() {
    let err = single_file_dest(&p(&[]), &p(&["d"]), true).unwrap_err();
    assert_eq!(err, XcpError::UnknownFilename);
}

#[test]
fn destination_base_rules() {
    // An existing destination receives the source under its own name; a
    // fresh destination is the base itself — rename-like semantics.
    assert_eq!(
        target_base(&p(&["a", "mydir"]), &p(&["dest"]), true).unwrap(),
        p(&["dest", "mydir"])
    );
    assert_eq!(
        target_base(&p(&["a", "mydir"]), &p(&["dest"]), false).unwrap(),
        p(&["dest"])
    );
    assert_eq!(
        target_base(&p(&[]), &p(&["dest"]), true).unwrap_err(),
        XcpError::InvalidSource
    );
}

#[test]
fn fresh_destination_single_entry() {
    let plan = plan(&["mydir"], &["newplace"], false, false, vec![dir(&[]), file(&["f"], 1)]);
    assert!(plan.outcome.is_ok());
    assert_eq!(
        plan.ops,
        vec![
            Operation::CreateDir { to: p(&["newplace"]) },
            Operation::Copy { from: p(&["mydir", "f"]), to: p(&["newplace", "f"]) },
            Operation::End,
        ]
    );
}

//! The stages around the planner: paths, chunked copies, statistics, and
//! the ignore predicate.

use ignore::gitignore::GitignoreBuilder;
use xcp::executor::{batch_size, is_end, CopyProgress, BATCH_DEFAULT};
use xcp::matcher::ignore_filter;
use xcp::ops::{Operation, StatusUpdate, XcpError};
use xcp::path::{empty, FsPath};
use xcp::stats::{aggregate, StatSink, StatTag, Totals};

fn p(parts: &[&str]) -> FsPath {
    FsPath { components: parts.iter().map(|s| s.to_string()).collect() }
}

#[test]
fn path_operations() {
    let base = p(&["dest", "mydir"]);
    let rel = p(&["one", "two.txt"]);
    assert_eq!(base.join(&rel), p(&["dest", "mydir", "one", "two.txt"]));
    assert_eq!(
        p(&["src", "a", "b"]).strip_prefix(&p(&["src"])),
        Some(p(&["a", "b"]))
    );
    assert_eq!(p(&["src", "a"]).strip_prefix(&p(&["other"])), None);
    assert_eq!(p(&["a", "b"]).file_name(), Some("b".to_string()));
    assert_eq!(p(&[]).file_name(), None);
    assert!(empty(&p(&[])));
    assert!(!empty(&p(&["a"])));
}

#[test]
fn chunked_copy_accounting() {
    // "This is a test file." is twenty bytes; an eight-byte batch moves
    // them in requests of 8, 8 and 4.
    let mut progress = CopyProgress::start(20, 8);
    let mut requests = Vec::new();
    while !progress.done() {
        let n = progress.next_request();
        requests.push(n);
        progress.record(n);
    }
    assert_eq!(requests, vec![8, 8, 4]);
    assert_eq!(progress.written, 20);
}

#[test]
fn short_transfers_are_retried() {
    // The transfer primitive may move fewer bytes than requested; the
    // bookkeeping keeps asking until the length is exhausted.
    let mut progress = CopyProgress::start(10, 8);
    progress.record(3);
    assert!(!progress.done());
    assert_eq!(progress.next_request(), 7);
    progress.record(7);
    assert!(progress.done());
}

#[test]
fn batch_size_choice() {
    assert_eq!(batch_size(true), u64::MAX);
    assert_eq!(batch_size(false), BATCH_DEFAULT);
}

#[test]
fn executor_stops_at_sentinel() {
    assert!(is_end(&Operation::End));
    assert!(!is_end(&Operation::CreateDir { to: p(&["d"]) }));
}

#[test]
fn sink_tags_deltas() {
    let nop = StatSink::for_stage(true, StatTag::CopiedBytes);
    assert_eq!(nop.accept(42), None);
    let size = StatSink::for_stage(false, StatTag::DiscoveredSize);
    assert_eq!(size.accept(42), Some(StatusUpdate::Size(42)));
    let copied = StatSink::for_stage(false, StatTag::CopiedBytes);
    assert_eq!(copied.accept(7), Some(StatusUpdate::Copied(7)));
}

#[test]
fn aggregate_totals() {
    let stream = vec![
        Ok(StatusUpdate::Size(100)),
        Ok(StatusUpdate::Copied(60)),
        Ok(StatusUpdate::Size(20)),
        Ok(StatusUpdate::Copied(60)),
    ];
    let (totals, err) = aggregate(&stream);
    assert_eq!(totals, Totals { size: 120, copied: 120 });
    assert!(err.is_none());
}

#[test]
fn aggregate_stops_at_error() {
    let stream = vec![
        Ok(StatusUpdate::Size(5)),
        Err(XcpError::DestinationExists { path: p(&["dest"]) }),
        Ok(StatusUpdate::Size(50)),
    ];
    let (totals, err) = aggregate(&stream);
    assert_eq!(totals.size, 5);
    assert_eq!(err, Some(XcpError::DestinationExists { path: p(&["dest"]) }));
}

#[test]
fn totals_saturate() {
    let mut totals = Totals::new();
    totals.apply(StatusUpdate::Size(u64::MAX));
    totals.apply(StatusUpdate::Size(1));
    assert_eq!(totals.size, u64::MAX);
    assert_eq!(totals.copied, 0);
}

#[test]
fn ignore_filter_honours_rules() {
    let mut builder = GitignoreBuilder::new("");
    builder.add_line(None, "*.log").unwrap();
    let gi = builder.build().unwrap();
    assert!(!ignore_filter("noise.log", false, &Some(gi.clone())));
    assert!(ignore_filter("kept.txt", false, &Some(gi)));
    assert!(ignore_filter("noise.log", false, &None));
}

//! The ignore predicate.
//!
//! Exclusion rules come from one ignore-file at the source root, compiled
//! by the `ignore` crate into a [`Gitignore`] matcher.  The matcher's
//! verdict on a path is a function of the matcher's compiled rules, the
//! path text and the directory flag alone; [`ignore_verdict`] names that
//! verdict, and [`ignore_filter`] — the predicate the traversal applies
//! to prune entries — is verified against it.

use ignore::gitignore::Gitignore;
use vstd::prelude::*;

verus! {

#[verifier::external_type_specification]
#[verifier::external_body]
pub struct ExGitignore(Gitignore);

/// What the matcher decides for a path: `true` when the path is to be
/// excluded.
pub uninterp spec fn ignore_verdict(gi: Gitignore, path: Seq<char>, is_dir: bool) -> bool;

/// Relies on ignore::gitignore::Gitignore::matched: the verdict on a path
/// is computed from the matcher's compiled globs, the path text and the
/// directory flag alone, and `Match::is_ignore` reports whether that
/// verdict is an exclusion.
#[verifier::external_body]
fn matched_is_ignore(gi: &Gitignore, path: &str, is_dir: bool) -> (r: bool)
    ensures
        r == ignore_verdict(*gi, path@, is_dir),
{
    gi.matched(std::path::Path::new(path), is_dir).is_ignore()
}

/// The traversal's filter: keep a path unless ignore rules are in force
/// and the matcher excludes it.
pub fn ignore_filter(path: &str, is_dir: bool, ignore: &Option<Gitignore>) -> (r: bool)
    ensures
        r == match ignore {
            None => true,
            Some(gi) => !ignore_verdict(*gi, path@, is_dir),
        },
{
    match ignore {
        None => true,
        Some(gi) => !matched_is_ignore(gi, path, is_dir),
    }
}

} // verus!

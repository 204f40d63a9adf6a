//! The single-file fast path.
//!
//! A source that is not a directory bypasses the whole pipeline: its
//! destination is computed directly, the no-clobber policy is applied
//! synchronously, and the chunked copy runs on the caller.  These are the
//! decisions of that path; the chunk accounting itself is
//! [`crate::executor::CopyProgress`].

use vstd::prelude::*;

use crate::ops::{ErrV, XcpError};
use crate::path::FsPath;

verus! {

/// The destination of a single-file copy: into an existing directory
/// under the source's own file name, else the destination path as given.
/// A source without a final component cannot be named into a directory.
pub fn single_file_dest(source: &FsPath, dest: &FsPath, dest_is_dir: bool) -> (r: Result<
    FsPath,
    XcpError,
>)
    ensures
        match r {
            Ok(d) => if dest_is_dir {
                source@.len() > 0 && d@ == dest@.push(source@.last())
            } else {
                d@ == dest@
            },
            Err(e) => dest_is_dir && source@.len() == 0 && e@ == ErrV::UnknownFilename,
        },
{
    if dest_is_dir {
        match source.file_name() {
            None => Err(XcpError::UnknownFilename),
            Some(name) => {
                let mut d = dest.clone();
                d.push(name);
                Ok(d)
            },
        }
    } else {
        Ok(dest.clone())
    }
}

/// The no-clobber gate: a destination that already exists is refused,
/// with the conflicting path named, if and only if the policy is set and
/// the destination is there.
pub fn check_clobber(target: &FsPath, target_exists: bool, noclobber: bool) -> (r: Result<
    (),
    XcpError,
>)
    ensures
        match r {
            Ok(u) => !(noclobber && target_exists),
            Err(e) => noclobber && target_exists && e@ == (ErrV::DestinationExists {
                path: target@,
            }),
        },
{
    if noclobber && target_exists {
        Err(XcpError::DestinationExists { path: target.clone() })
    } else {
        Ok(())
    }
}

} // verus!

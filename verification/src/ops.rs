//! The work and progress vocabulary of a copy run.
//!
//! An [`Operation`] is one discrete unit of work handed to the execution
//! stage; a [`StatusUpdate`] is one progress delta flowing to the
//! aggregation stage; an [`XcpError`] is one of the run's terminal
//! conditions.  Each carries a mathematical view used by the contracts.

use vstd::prelude::*;

use crate::path::FsPath;

verus! {

/// The kind of a source-tree entry, as the filesystem reports it.
#[derive(Clone, Copy, Debug, PartialEq, Eq)]
pub enum EntryKind {
    File,
    Symlink,
    Dir,
    Unknown,
}

/// One discrete unit of copy work: copy a regular file, reproduce a
/// symbolic link, create a directory, or — for `End` — shut the execution
/// stage down.
#[derive(Debug, PartialEq, Eq)]
pub enum Operation {
    Copy { from: FsPath, to: FsPath },
    Link { target: String, to: FsPath },
    CreateDir { to: FsPath },
    End,
}

/// The mathematical value of an [`Operation`].
pub enum OpV {
    Copy { from: Seq<Seq<char>>, to: Seq<Seq<char>> },
    Link { target: Seq<char>, to: Seq<Seq<char>> },
    CreateDir { to: Seq<Seq<char>> },
    End,
}

impl View for Operation {
    type V = OpV;

    open spec fn view(&self) -> OpV {
        match self {
            Operation::Copy { from, to } => OpV::Copy { from: from@, to: to@ },
            Operation::Link { target, to } => OpV::Link { target: target@, to: to@ },
            Operation::CreateDir { to } => OpV::CreateDir { to: to@ },
            Operation::End => OpV::End,
        }
    }
}

/// The destination path an operation writes to, if it writes at all.
pub open spec fn op_dest(op: OpV) -> Option<Seq<Seq<char>>> {
    match op {
        OpV::Copy { from, to } => Some(to),
        OpV::Link { target, to } => Some(to),
        OpV::CreateDir { to } => Some(to),
        OpV::End => None,
    }
}

/// One progress delta: bytes newly discovered by traversal (`Size`) or
/// bytes newly written by the executor (`Copied`).
#[derive(Clone, Copy, Debug, PartialEq, Eq)]
pub enum StatusUpdate {
    Size(u64),
    Copied(u64),
}

/// A terminal condition of a copy run.
#[derive(Debug, PartialEq, Eq)]
pub enum XcpError {
    /// The source path has no final component to name the copy after.
    InvalidSource,
    /// A single-file source has no extractable file name.
    UnknownFilename,
    /// The computed destination already exists while no-clobber is set.
    DestinationExists { path: FsPath },
    /// An entry is neither a file, a symbolic link nor a directory.
    UnknownFiletype { path: FsPath },
    /// The traversal stopped itself on purpose; not an I/O failure.
    EarlyShutdown,
}

/// The mathematical value of an [`XcpError`].
pub enum ErrV {
    InvalidSource,
    UnknownFilename,
    DestinationExists { path: Seq<Seq<char>> },
    UnknownFiletype { path: Seq<Seq<char>> },
    EarlyShutdown,
}

impl View for XcpError {
    type V = ErrV;

    open spec fn view(&self) -> ErrV {
        match self {
            XcpError::InvalidSource => ErrV::InvalidSource,
            XcpError::UnknownFilename => ErrV::UnknownFilename,
            XcpError::DestinationExists { path } => ErrV::DestinationExists { path: path@ },
            XcpError::UnknownFiletype { path } => ErrV::UnknownFiletype { path: path@ },
            XcpError::EarlyShutdown => ErrV::EarlyShutdown,
        }
    }
}

impl Clone for XcpError {
    fn clone(&self) -> (r: Self)
        ensures
            r@ == self@,
    {
        match self {
            XcpError::InvalidSource => XcpError::InvalidSource,
            XcpError::UnknownFilename => XcpError::UnknownFilename,
            XcpError::DestinationExists { path } => XcpError::DestinationExists {
                path: path.clone(),
            },
            XcpError::UnknownFiletype { path } => XcpError::UnknownFiletype { path: path.clone() },
            XcpError::EarlyShutdown => XcpError::EarlyShutdown,
        }
    }
}

/// One message on the statistics channel: a progress delta, or the
/// terminal error that ends the run.
pub type StatMsg = Result<StatusUpdate, XcpError>;

/// The mathematical value of a statistics message.
pub open spec fn stat_msg_view(m: StatMsg) -> Result<StatusUpdate, ErrV> {
    match m {
        Ok(s) => Ok(s),
        Err(e) => Err(e@),
    }
}

/// The views of a sequence of operations.
pub open spec fn ops_view(s: Seq<Operation>) -> Seq<OpV> {
    Seq::new(s.len(), |i: int| s[i]@)
}

/// The views of a sequence of statistics messages.
pub open spec fn stats_view(s: Seq<StatMsg>) -> Seq<Result<StatusUpdate, ErrV>> {
    Seq::new(s.len(), |i: int| stat_msg_view(s[i]))
}

} // verus!

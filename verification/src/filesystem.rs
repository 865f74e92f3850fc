//! The file system service.
use crate::process::{Fault, FaultModel};
use vstd::prelude::*;

verus! {

/// The file system service.
#[derive(Debug, Clone, Copy, PartialEq, Eq)]
pub struct FilesystemSvc;

impl Default for FilesystemSvc {
    fn default() -> (r: FilesystemSvc)
        ensures
            r == FilesystemSvc,
    {
        FilesystemSvc
    }
}

/// Why the file system refused something.
#[derive(Debug, Clone, Copy, PartialEq, Eq, Structural)]
pub enum IoKind {
    NotFound,
    PermissionDenied,
    Other,
}

/// An error of the file system.
#[derive(Debug, PartialEq, Eq)]
pub struct IoFault {
    pub kind: IoKind,
    pub message: String,
}

/// The fault that an error of the file system is reported as.
pub open spec fn fault_of(e: IoFault) -> FaultModel {
    match e.kind {
        IoKind::NotFound => FaultModel::NotFound(e.message@),
        IoKind::PermissionDenied => FaultModel::PermissionDenied(e.message@),
        IoKind::Other => FaultModel::Internal(e.message@),
    }
}

/// Reports an error of the file system as a fault.
pub fn map_io<T>(outcome: Result<T, IoFault>) -> (r: Result<T, Fault>)
    ensures
        match outcome {
            Ok(v) => r == Ok::<T, Fault>(v),
            Err(e) => r matches Err(f) && f@ == fault_of(e),
        },
{
    match outcome {
        Ok(v) => Ok(v),
        Err(e) => Err(
            match e.kind {
                IoKind::NotFound => Fault::NotFound(e.message),
                IoKind::PermissionDenied => Fault::PermissionDenied(e.message),
                IoKind::Other => Fault::Internal(e.message),
            },
        ),
    }
}

/// What is known of an entry.
#[derive(Debug, Clone, Copy, PartialEq, Eq)]
pub struct EntryStat {
    pub is_dir: bool,
    pub size: u64,
    pub mode: u32,
    pub mtime_unix: i64,
}

/// What a request for the facts of an entry is answered.
#[derive(Debug, Clone, Copy, PartialEq, Eq)]
pub struct StatResponse {
    pub exists: bool,
    pub is_dir: bool,
    pub size: u64,
    pub mode: u32,
    pub mtime_unix: i64,
}

/// How an entry is removed.
#[derive(Debug, Clone, Copy, PartialEq, Eq, Structural)]
pub enum Removal {
    Tree,
    EmptyDirectory,
    File,
}

impl FilesystemSvc {
    /// Answers a request for the facts of an entry. That there is none is an
    /// answer, and no fault.
    pub fn stat(&self, outcome: Result<EntryStat, IoFault>) -> (r: Result<StatResponse, Fault>)
        ensures
            match outcome {
                Ok(m) => r == Ok::<StatResponse, Fault>(
                    (StatResponse {
                        exists: true,
                        is_dir: m.is_dir,
                        size: m.size,
                        mode: m.mode,
                        mtime_unix: m.mtime_unix,
                    }),
                ),
                Err(e) => if e.kind == IoKind::NotFound {
                    r == Ok::<StatResponse, Fault>(
                        (StatResponse {
                            exists: false,
                            is_dir: false,
                            size: 0,
                            mode: 0,
                            mtime_unix: 0,
                        }),
                    )
                } else {
                    r matches Err(f) && f@ == FaultModel::Internal(e.message@)
                },
            },
    {
        match outcome {
            Ok(m) => Ok(
                StatResponse {
                    exists: true,
                    is_dir: m.is_dir,
                    size: m.size,
                    mode: m.mode,
                    mtime_unix: m.mtime_unix,
                },
            ),
            Err(e) => {
                if e.kind == IoKind::NotFound {
                    Ok(
                        StatResponse {
                            exists: false,
                            is_dir: false,
                            size: 0,
                            mode: 0,
                            mtime_unix: 0,
                        },
                    )
                } else {
                    Err(Fault::Internal(e.message))
                }
            },
        }
    }

    /// Decides how an entry is removed.
    pub fn remove(&self, is_dir: bool, recursive: bool) -> (r: Removal)
        ensures
            r == (if !is_dir {
                Removal::File
            } else if recursive {
                Removal::Tree
            } else {
                Removal::EmptyDirectory
            }),
    {
        if is_dir {
            if recursive {
                Removal::Tree
            } else {
                Removal::EmptyDirectory
            }
        } else {
            Removal::File
        }
    }
}

} // verus!

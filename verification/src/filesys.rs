use vstd::prelude::*;

verus! {

/// The kinds of I/O failure that the agent tells apart (`std::io::ErrorKind`).
#[derive(Debug, Clone, Copy, PartialEq, Eq, Structural)]
pub enum IoErrorKind {
    NotFound,
    PermissionDenied,
    ReadOnlyFilesystem,
    IsADirectory,
    NotADirectory,
    InvalidFilename,
    FilesystemLoop,
    Other,
}

/// An I/O failure: its kind and message.
#[derive(Debug, Clone)]
pub struct IoError {
    pub kind: IoErrorKind,
    pub msg: String,
}

impl IoError {
    pub fn new(kind: IoErrorKind, msg: String) -> (r: Self)
        ensures
            r.kind == kind,
            r.msg == msg,
    {
        IoError { kind, msg }
    }

    pub fn kind(&self) -> (r: IoErrorKind)
        ensures
            r == self.kind,
    {
        self.kind
    }
}

/// A file, named by its path.
#[derive(Debug, Clone, PartialEq, Eq)]
pub struct File {
    pub path: String,
}

impl File {
    pub fn new(path: &str) -> (r: Self)
        ensures
            r.path@ == path@,
    {
        File { path: path.to_owned() }
    }

    pub fn path(&self) -> (r: &str)
        ensures
            r@ == self.path@,
    {
        self.path.as_str()
    }

    /// A copy naming the same path.
    pub fn duplicate(&self) -> (r: Self)
        ensures
            r.path@ == self.path@,
    {
        File { path: self.path.clone() }
    }
}

/// Errors of filesystem operations.
#[derive(Debug)]
pub enum FileSysErr {
    PathDoesNotExistErr { path: String },
    PathExistsErr { path: String },
    UnknownParentDirErr { path: String },
    UnknownFileNameErr { path: String },
    AtomicWriteFileErr { file: File, source: IoError },
    CopyFileErr { source: IoError, src_file: File, dest_file: File },
    CreateTmpDirErr { source: IoError },
    FileMetadataErr { file: File, source: IoError },
    OpenFileErr { file: File, source: IoError },
    ReadFileErr { file: File, source: IoError },
    DeleteFileErr { file: File, source: IoError },
}

impl crate::errors::ErrorClass for FileSysErr {
    open spec fn spec_is_network_conn_err(&self) -> bool {
        false
    }

    open spec fn spec_is_terminal(&self) -> bool {
        false
    }

    fn is_network_conn_err(&self) -> (r: bool) {
        false
    }

    fn is_terminal(&self) -> (r: bool) {
        false
    }
}

} // verus!

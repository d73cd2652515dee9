//! The pure half of the asynchronous load/save gateway: the request
//! values the state machine emits, the error taxonomy, and the mapping
//! from raw dialog and filesystem outcomes to the results the state
//! machine consumes. The host performs the actual dialog and file I/O
//! and feeds the raw outcomes through these functions.

use vstd::prelude::*;

verus! {

/// The kind of an operating-system I/O failure, as reported by the host.
#[derive(Clone, Copy, Debug, PartialEq, Eq, Structural)]
pub enum IoErrorKind {
    NotFound,
    PermissionDenied,
    AlreadyExists,
    InvalidData,
    TimedOut,
    Interrupted,
    UnexpectedEof,
    Other,
}

impl IoErrorKind {
    /// A short human-readable description of the failure.
    pub open spec fn describe_spec(self) -> Seq<char> {
        match self {
            IoErrorKind::NotFound => "file not found"@,
            IoErrorKind::PermissionDenied => "permission denied"@,
            IoErrorKind::AlreadyExists => "file already exists"@,
            IoErrorKind::InvalidData => "file is not valid text"@,
            IoErrorKind::TimedOut => "operation timed out"@,
            IoErrorKind::Interrupted => "operation interrupted"@,
            IoErrorKind::UnexpectedEof => "unexpected end of file"@,
            IoErrorKind::Other => "input/output error"@,
        }
    }

    /// Executable twin of [`IoErrorKind::describe_spec`].
    pub fn describe(&self) -> (r: &'static str)
        ensures
            r@ == self.describe_spec(),
    {
        match self {
            IoErrorKind::NotFound => "file not found",
            IoErrorKind::PermissionDenied => "permission denied",
            IoErrorKind::AlreadyExists => "file already exists",
            IoErrorKind::InvalidData => "file is not valid text",
            IoErrorKind::TimedOut => "operation timed out",
            IoErrorKind::Interrupted => "operation interrupted",
            IoErrorKind::UnexpectedEof => "unexpected end of file",
            IoErrorKind::Other => "input/output error",
        }
    }
}

/// Why a load or save did not complete: the user closed the file dialog
/// (not a failure of the system), or the operating system refused the
/// read or write.
#[derive(Clone, Copy, Debug, PartialEq, Eq, Structural)]
pub enum Error {
    DialogClosed,
    Io(IoErrorKind),
}

/// An asynchronous operation the state machine asks the host to perform.
/// Each request is answered by exactly one follow-up message.
#[derive(Debug, PartialEq)]
pub enum Request {
    /// Read the file at `path`; answered by a `FileOpened` message.
    Load { path: String },
    /// Let the user pick a file, then read it; answered by `FileOpened`.
    PickAndLoad,
    /// Write `text` to `path`, first letting the user pick a path when
    /// there is none; answered by a `FileSaved` message.
    Save { path: Option<String>, text: String },
}

/// The character sequences behind an optional path.
pub open spec fn path_view(p: Option<String>) -> Option<Seq<char>> {
    match p {
        Some(s) => Some(s@),
        None => None,
    }
}

/// Outcome of the file-picking dialog: the chosen path, or
/// `DialogClosed` when the user cancelled — distinct from an I/O failure.
pub fn pick_outcome(picked: Option<String>) -> (r: Result<String, Error>)
    ensures
        r is Ok <==> picked is Some,
        r matches Ok(p) ==> (Some(p@) == path_view(picked)),
        r is Err ==> r == Err::<String, Error>(Error::DialogClosed),
{
    match picked {
        Some(p) => Ok(p),
        None => Err(Error::DialogClosed),
    }
}

/// Outcome of reading a file: the path paired with the text on success,
/// the OS failure converted to the `Io` error otherwise.
pub fn load_outcome(path: String, read: Result<String, IoErrorKind>) -> (r: Result<
    (String, String),
    Error,
>)
    ensures
        r is Ok <==> read is Ok,
        r matches Ok(pc) ==> (pc.0@ == path@ && (read matches Ok(t) && pc.1@ == t@)),
        r matches Err(e) ==> (read matches Err(k) && e == Error::Io(k)),
{
    match read {
        Ok(t) => Ok((path, t)),
        Err(k) => Err(Error::Io(k)),
    }
}

/// The path a save goes to: the document's own path when it has one,
/// else the path picked in the save dialog; with neither, the save fails
/// as `DialogClosed`.
pub fn resolve_save_path(current: Option<String>, picked: Option<String>) -> (r: Result<
    String,
    Error,
>)
    ensures
        current matches Some(p) ==> (r matches Ok(q) && q@ == p@),
        current is None ==> (picked matches Some(p) ==> (r matches Ok(q) && q@ == p@)),
        current is None && picked is None ==> r == Err::<String, Error>(Error::DialogClosed),
{
    match current {
        Some(p) => Ok(p),
        None => match picked {
            Some(p) => Ok(p),
            None => Err(Error::DialogClosed),
        },
    }
}

/// Outcome of writing the text: the resolved path on success, the OS
/// failure converted to the `Io` error otherwise.
pub fn save_outcome(path: String, write: Result<(), IoErrorKind>) -> (r: Result<String, Error>)
    ensures
        write is Ok ==> (r matches Ok(p) && p@ == path@),
        write matches Err(k) ==> r == Err::<String, Error>(Error::Io(k)),
{
    match write {
        Ok(_) => Ok(path),
        Err(k) => Err(Error::Io(k)),
    }
}

} // verus!

//! The error taxonomy: every failure of the OS layer is one of these kinds.
use vstd::prelude::*;

verus! {

/// What went wrong in an OS-level operation.
#[derive(Clone, Copy, Debug, PartialEq, Eq, Structural)]
pub enum MioErrorKind {
    /// The peer or the pipe was closed: a read returned zero bytes.
    Eof,
    /// The resource is not ready now; a control signal rather than a failure.
    WouldBlock,
    /// A non-blocking connect has not completed yet.
    ConnectInProgress,
    /// Any other OS error, with the OS's own error code.
    Other(i32),
}

/// An error of the OS layer.
#[derive(Clone, Copy, Debug, PartialEq, Eq, Structural)]
pub struct MioError {
    pub kind: MioErrorKind,
}

pub type MioResult<T> = Result<T, MioError>;

/// Linux's error number for a resource that is not ready (`EAGAIN`, which is
/// also `EWOULDBLOCK`).
pub const EAGAIN: i32 = 11;

/// Linux's error number for a non-blocking connect that has not completed.
pub const EINPROGRESS: i32 = 115;

impl MioError {
    /// The end-of-stream error.
    pub fn eof() -> (r: MioError)
        ensures
            r.kind == MioErrorKind::Eof,
    {
        MioError { kind: MioErrorKind::Eof }
    }

    /// The error for a resource that is not ready.
    pub fn would_block() -> (r: MioError)
        ensures
            r.kind == MioErrorKind::WouldBlock,
    {
        MioError { kind: MioErrorKind::WouldBlock }
    }

    /// The error for a connect that is still in progress.
    pub fn connect_in_progress() -> (r: MioError)
        ensures
            r.kind == MioErrorKind::ConnectInProgress,
    {
        MioError { kind: MioErrorKind::ConnectInProgress }
    }

    /// Any other OS error, carrying its code.
    pub fn other(code: i32) -> (r: MioError)
        ensures
            r.kind == MioErrorKind::Other(code),
    {
        MioError { kind: MioErrorKind::Other(code) }
    }

    /// The error for the OS error number `code`: not ready, or any other.
    pub fn from_errno(code: i32) -> (r: MioError)
        ensures
            r.kind == (if code == EAGAIN { MioErrorKind::WouldBlock } else { MioErrorKind::Other(code) }),
    {
        if code == EAGAIN {
            MioError::would_block()
        } else {
            MioError::other(code)
        }
    }

    /// The error for the OS error number `code` that a connect call gave,
    /// where a connect still in progress has its own kind.
    pub fn from_connect_errno(code: i32) -> (r: MioError)
        ensures
            r.kind == (if code == EINPROGRESS {
                MioErrorKind::ConnectInProgress
            } else if code == EAGAIN {
                MioErrorKind::WouldBlock
            } else {
                MioErrorKind::Other(code)
            }),
    {
        if code == EINPROGRESS {
            MioError::connect_in_progress()
        } else {
            MioError::from_errno(code)
        }
    }

    pub fn is_would_block(&self) -> (r: bool)
        ensures
            r == (self.kind == MioErrorKind::WouldBlock),
    {
        matches!(self.kind, MioErrorKind::WouldBlock)
    }

    pub fn is_eof(&self) -> (r: bool)
        ensures
            r == (self.kind == MioErrorKind::Eof),
    {
        matches!(self.kind, MioErrorKind::Eof)
    }

    pub fn is_connect_in_progress(&self) -> (r: bool)
        ensures
            r == (self.kind == MioErrorKind::ConnectInProgress),
    {
        matches!(self.kind, MioErrorKind::ConnectInProgress)
    }

    /// The OS error code, where the error carries one.
    pub fn code(&self) -> (r: Option<i32>)
        ensures
            r == (match self.kind {
                MioErrorKind::Other(c) => Some(c),
                _ => None,
            }),
    {
        match self.kind {
            MioErrorKind::Other(c) => Some(c),
            _ => None,
        }
    }
}

} // verus!

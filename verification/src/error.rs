//! The failures of taking and restoring pins.

use vstd::prelude::*;

verus! {

/// What went wrong.
#[derive(Clone, Copy, Debug, PartialEq, Eq, Structural)]
pub enum ErrorKind {
    /// A directory could not be opened as a repository.
    RepositoryOpen,
    /// The commit that a checkout is at could not be resolved.
    HeadResolution,
    /// A line of the pin file is not a name, a separator and an identifier.
    PinLineParse,
    /// The identifier on a line does not have the form of one.
    InvalidIdentifier,
    /// The checkout holds no commit with the identifier on its line.
    ObjectNotFound,
}

/// A failure, with the place at which the work stopped.
///
/// Work stops at the first failure. Whatever was done before it stays done.
#[derive(Debug)]
pub struct PinError {
    /// Where the work stopped: the position of the directory entry while
    /// pins are taken, the position of the line while they are restored.
    /// Both count from zero.
    pub index: usize,
    /// What went wrong there.
    pub kind: ErrorKind,
    /// The error of the repository, where it was the repository that
    /// refused. A line that cannot be read has none.
    pub cause: Option<git2::Error>,
}

impl PinError {
    /// The failure to read the line at `index`.
    pub fn unreadable_line(index: usize) -> (e: PinError)
        ensures
            e.index == index,
            e.kind == ErrorKind::PinLineParse,
            e.cause is None,
    {
        PinError { index, kind: ErrorKind::PinLineParse, cause: None }
    }
}

/// Passes on what a repository gave, and turns its refusal into the
/// failure of kind `kind` at `index`, with the refusal as the cause.
pub fn at_step<T>(outcome: Result<T, git2::Error>, index: usize, kind: ErrorKind) -> (r: Result<
    T,
    PinError,
>)
    ensures
        match outcome {
            Ok(value) => r == Ok::<T, PinError>(value),
            Err(cause) => r == Err::<T, PinError>(PinError { index, kind, cause: Some(cause) }),
        },
{
    match outcome {
        Ok(value) => Ok(value),
        Err(cause) => Err(PinError { index, kind, cause: Some(cause) }),
    }
}

} // verus!

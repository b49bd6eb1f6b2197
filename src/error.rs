use vstd::prelude::*;

verus! {

/// Typed failures of the session operations.
#[derive(Debug)]
pub enum PtyError {
    /// Opening the pty, resolving the shell or spawning it failed; no session was created.
    Spawn(String),
    /// The operation named a session id with no live entry.
    NotFound(String),
    /// Writing, flushing or resizing failed on a session that is still registered.
    Io(String),
    /// Internal synchronization failed.
    Lock(String),
}

impl PtyError {
    /// The human-readable text carried by the error.
    pub fn message(&self) -> (r: &String)
        ensures
            r == match self {
                PtyError::Spawn(m) => m,
                PtyError::NotFound(m) => m,
                PtyError::Io(m) => m,
                PtyError::Lock(m) => m,
            },
    {
        match self {
            PtyError::Spawn(m) => m,
            PtyError::NotFound(m) => m,
            PtyError::Io(m) => m,
            PtyError::Lock(m) => m,
        }
    }
}

} // verus!

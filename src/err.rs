//! The errors of channel operations.

use vstd::prelude::*;

verus! {

/// Why `try_send` did not deliver; the message comes back.
#[derive(Debug, PartialEq, Eq)]
pub enum TrySendError<T> {
    /// No receiver is waiting.
    Full(T),
    /// The channel is closed.
    Closed(T),
}

/// Why a blocking `send` did not deliver; the message comes back.
#[derive(Debug, PartialEq, Eq)]
pub enum SendTimeoutError<T> {
    /// The deadline passed first.
    Timeout(T),
    /// The channel is closed.
    Closed(T),
}

/// Why `try_recv` returned no message.
#[derive(Clone, Copy, Debug, PartialEq, Eq, Structural)]
pub enum TryRecvError {
    /// No sender is waiting.
    Empty,
    /// The channel is closed.
    Closed,
}

/// Why a blocking `recv` returned no message.
#[derive(Clone, Copy, Debug, PartialEq, Eq, Structural)]
pub enum RecvTimeoutError {
    /// The deadline passed first.
    Timeout,
    /// The channel is closed.
    Closed,
}

impl<T> TrySendError<T> {
    /// The message that was not sent.
    pub fn into_inner(self) -> (r: T)
        ensures
            r == match self {
                TrySendError::Full(m) => m,
                TrySendError::Closed(m) => m,
            },
    {
        match self {
            TrySendError::Full(m) => m,
            TrySendError::Closed(m) => m,
        }
    }
}

impl<T> SendTimeoutError<T> {
    /// The message that was not sent.
    pub fn into_inner(self) -> (r: T)
        ensures
            r == match self {
                SendTimeoutError::Timeout(m) => m,
                SendTimeoutError::Closed(m) => m,
            },
    {
        match self {
            SendTimeoutError::Timeout(m) => m,
            SendTimeoutError::Closed(m) => m,
        }
    }
}

} // verus!

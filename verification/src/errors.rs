//! The error surface of the coordination core.

use vstd::prelude::*;

verus! {

/// Everything that can go wrong during one coordination episode.
#[derive(Clone, Copy, Debug, PartialEq, Eq, Structural)]
pub enum CoordError {
    /// A spawned unit of work terminated abnormally.
    WorkerFailure,
    /// A send was attempted after the receiver was dropped.
    ChannelClosed,
    /// A lock was acquired after a prior holder failed while holding it.
    LockPoisoned,
    /// Invalid coordination parameters, such as zero workers.
    ConfigError,
}

impl CoordError {
    /// A short diagnostic naming the stage that failed.
    pub fn describe(&self) -> String {
        match self {
            CoordError::WorkerFailure => "a spawned worker terminated abnormally".to_string(),
            CoordError::ChannelClosed => "the channel receiver was already dropped".to_string(),
            CoordError::LockPoisoned => "a prior lock holder failed while holding the lock".to_string(),
            CoordError::ConfigError => "invalid coordination parameters".to_string(),
        }
    }
}

} // verus!

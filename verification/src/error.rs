//! Errors surfaced by the engine.

use vstd::prelude::*;

verus! {

/// The error kinds the engine can report to its host.
#[derive(Clone, Copy, Debug, PartialEq, Eq, Structural)]
pub enum EngineError {
    /// `receive_all_members` was handed a request with a membership,
    /// not-membership or at filter set: partial member lists would corrupt
    /// display-name disambiguation.
    InvalidReceiveMembersParameters,
    /// A cryptographic operation needs an active session and none is set.
    OlmMissingSession,
    /// A room key was requested for a room with no encryption state.
    EncryptionNotEnabled,
    /// A room needed for the operation is not known to the engine.
    InsufficientData,
    /// `activate` was called on an engine that already holds a session.
    AlreadyActivated,
}

} // verus!

//! Errors of the runtime and of its service calls.
use vstd::prelude::*;
use crate::sync::SyncError;

verus! {

/// Why the runtime guard refused a caller.
#[derive(Debug, PartialEq, Eq, Structural)]
pub enum PflixLockError {
    /// A state-replacing operation is in progress.
    StatePending,
    /// The runtime runs in safe mode.
    SafeMode,
}

/// Why a handover or attestation check failed.
#[derive(Debug, PartialEq, Eq, Structural)]
pub enum ProtocolError {
    /// An attestation report was required and none came.
    MissingAttestation,
    /// The report binds another payload hash.
    HashMismatch,
    /// The report's time lies outside the accepted window.
    StaleReport,
    /// The challenge is not the last one issued, or was already used.
    Replay,
    /// The local report does not prove that both enclaves share a machine.
    WrongMachine,
    /// The challenge was issued too many blocks ago.
    OutdatedChallenge,
    /// The enclave build is not accepted on chain.
    NotAllowedOnChain,
    /// The client build is not newer than the server's.
    Rollback,
    /// No handover key agreement key is held.
    NoHandoverKey,
}

/// Errors of the service calls.
#[derive(Debug, PartialEq, Eq)]
pub enum PflixServiceError {
    PflixLock(PflixLockError),
    /// Failed to decode the request parameters.
    DecodeError(String),
    /// Some error occurred when handling the request.
    AppError(String),
    Anyhow(String),
    Protocol(ProtocolError),
    Sync(SyncError),
    /// The runtime was not initialized.
    Uninitialized,
    /// The runtime was initialized before.
    AlreadyInitialized,
    /// The genesis storage does not have the root its header declares.
    StateRootMismatch,
    /// A debug key was set together with remote attestation.
    DebugKeyWithAttestation,
    /// The safe-mode level or the chain state forbids the call.
    NotPermitted,
    /// A payload to sign exceeds the size limit.
    PayloadTooLarge,
}

/// An application error carrying a message.
pub fn from_display(msg: &str) -> (r: PflixServiceError)
    ensures
        r matches PflixServiceError::AppError(s) && s@ == msg@,
{
    PflixServiceError::AppError(msg.to_string())
}

} // verus!

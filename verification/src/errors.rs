//! Error types.

use vstd::prelude::*;
use vstd::string::StringExecFns;

verus! {

/// Why a ratchet operation was refused.
#[derive(Debug, Clone, Copy, PartialEq, Eq, Structural)]
pub enum RatchetError {
    /// The session has not been set up yet.
    NotInitialized,
    /// Setup was attempted on a session that is already set up.
    AlreadyInitialized,
    /// Encryption or decryption was attempted outside the usable states.
    RatchetNotReady,
    /// No send chain key exists yet.
    NoSendChain,
    /// No receive chain key exists yet.
    NoReceiveChain,
    /// A MAC or an AEAD tag did not match, or the opened payload was malformed.
    AuthenticationFailed,
    /// The message number was already processed.
    ReplayDetected,
    /// The gap to the message exceeds the session's skip limit.
    TooManySkippedMessages,
    /// The one-time signature on the ciphertext was not accepted.
    SignatureInvalid,
    /// The sender is pinned to another ephemeral key.
    EphemeralKeyMismatch,
    /// The session was marked compromised.
    SessionCompromised,
    /// A key or ciphertext handed in has the wrong length.
    InvalidKey,
    /// The send counter cannot advance any further.
    CounterExhausted,
    /// The operating system gave no random bytes.
    EntropyUnavailable,
    /// The cipher refused the message, which is longer than it can encrypt.
    MessageTooLong,
}

impl RatchetError {
    /// What went wrong, in words, as plain text.
    pub open spec fn text(&self) -> Seq<char> {
        match self {
            RatchetError::NotInitialized => "Ratchet not initialized"@,
            RatchetError::AlreadyInitialized => "Ratchet already initialized"@,
            RatchetError::RatchetNotReady => "Ratchet not ready for encryption"@,
            RatchetError::NoSendChain => "No send chain key"@,
            RatchetError::NoReceiveChain => "No receive chain key"@,
            RatchetError::AuthenticationFailed => "MAC verification failed"@,
            RatchetError::ReplayDetected => "Replay attack detected"@,
            RatchetError::TooManySkippedMessages => "Too many skipped messages"@,
            RatchetError::SignatureInvalid => "ephemeral signature verification failed"@,
            RatchetError::EphemeralKeyMismatch => "Ephemeral key mismatch detected (possible MITM)"@,
            RatchetError::SessionCompromised => "Session compromised"@,
            RatchetError::InvalidKey => "Invalid key"@,
            RatchetError::CounterExhausted => "Message counter exhausted"@,
            RatchetError::EntropyUnavailable => "Failed to get entropy from OS"@,
            RatchetError::MessageTooLong => "Message too long"@,
        }
    }

    /// What went wrong, in words.
    pub fn message(&self) -> (out: String)
        ensures
            out@ == self.text(),
    {
        match self {
            RatchetError::NotInitialized => "Ratchet not initialized".to_string(),
            RatchetError::AlreadyInitialized => "Ratchet already initialized".to_string(),
            RatchetError::RatchetNotReady => "Ratchet not ready for encryption".to_string(),
            RatchetError::NoSendChain => "No send chain key".to_string(),
            RatchetError::NoReceiveChain => "No receive chain key".to_string(),
            RatchetError::AuthenticationFailed => "MAC verification failed".to_string(),
            RatchetError::ReplayDetected => "Replay attack detected".to_string(),
            RatchetError::TooManySkippedMessages => "Too many skipped messages".to_string(),
            RatchetError::SignatureInvalid => "ephemeral signature verification failed".to_string(),
            RatchetError::EphemeralKeyMismatch => "Ephemeral key mismatch detected (possible MITM)".to_string(),
            RatchetError::SessionCompromised => "Session compromised".to_string(),
            RatchetError::InvalidKey => "Invalid key".to_string(),
            RatchetError::CounterExhausted => "Message counter exhausted".to_string(),
            RatchetError::EntropyUnavailable => "Failed to get entropy from OS".to_string(),
            RatchetError::MessageTooLong => "Message too long".to_string(),
        }
    }
}

/// `prefix` followed by `detail`.
fn join_message(prefix: &str, detail: &String) -> (out: String)
    ensures
        out@ == prefix@ + detail@,
{
    prefix.to_string().concat(detail.as_str())
}

/// What can go wrong in the messenger.
#[derive(Debug)]
pub enum MessengerError {
    NetworkError(String),
    EncryptionError(String),
    DecryptionError(String),
    /// A sender presented another ephemeral key than the one pinned.
    EphemeralKeyMismatch,
    /// A file's hash is not that of its content.
    FileIntegrityMismatch,
    General(String),
}

impl MessengerError {
    /// What went wrong, in words, as plain text: for an error with a
    /// detail, the kind of error and then the detail.
    pub open spec fn text(&self) -> Seq<char> {
        match self {
            MessengerError::NetworkError(detail) => "Network error: "@ + detail@,
            MessengerError::EncryptionError(detail) => "Encryption error: "@ + detail@,
            MessengerError::DecryptionError(detail) => "Decryption error: "@ + detail@,
            MessengerError::EphemeralKeyMismatch => "Ephemeral key mismatch detected (possible MITM)"@,
            MessengerError::FileIntegrityMismatch => "File integrity verification failed"@,
            MessengerError::General(detail) => "General error: "@ + detail@,
        }
    }

    /// What went wrong, in words.
    pub fn message(&self) -> (out: String)
        ensures
            out@ == self.text(),
    {
        match self {
            MessengerError::NetworkError(detail) => join_message("Network error: ", detail),
            MessengerError::EncryptionError(detail) => join_message("Encryption error: ", detail),
            MessengerError::DecryptionError(detail) => join_message("Decryption error: ", detail),
            MessengerError::EphemeralKeyMismatch => "Ephemeral key mismatch detected (possible MITM)".to_string(),
            MessengerError::FileIntegrityMismatch => "File integrity verification failed".to_string(),
            MessengerError::General(detail) => join_message("General error: ", detail),
        }
    }

    /// The messenger's error for a refusal of the ratchet: a pinning
    /// violation stays one, so that it can be told from any other failure.
    pub fn from_ratchet(error: RatchetError) -> (out: Self)
        ensures
            error == RatchetError::EphemeralKeyMismatch <==> out is EphemeralKeyMismatch,
            error != RatchetError::EphemeralKeyMismatch ==> (out matches MessengerError::DecryptionError(
                detail,
            ) && detail@ == error.text()),
    {
        match error {
            RatchetError::EphemeralKeyMismatch => MessengerError::EphemeralKeyMismatch,
            other => MessengerError::DecryptionError(other.message()),
        }
    }
}

/// What can go wrong in the library, by the part of it that failed.
#[derive(Debug)]
pub enum QubeeError {
    Cryptographic(String),
    Network(String),
    Storage(String),
    Security(String),
    Configuration(String),
    Internal(String),
}

impl QubeeError {
    /// What went wrong, in words, as plain text: the part that failed and
    /// then the detail.
    pub open spec fn text(&self) -> Seq<char> {
        match self {
            QubeeError::Cryptographic(detail) => "Cryptographic error: "@ + detail@,
            QubeeError::Network(detail) => "Network error: "@ + detail@,
            QubeeError::Storage(detail) => "Storage error: "@ + detail@,
            QubeeError::Security(detail) => "Security violation: "@ + detail@,
            QubeeError::Configuration(detail) => "Configuration error: "@ + detail@,
            QubeeError::Internal(detail) => "Internal error: "@ + detail@,
        }
    }

    /// What went wrong, in words.
    pub fn message(&self) -> (out: String)
        ensures
            out@ == self.text(),
    {
        match self {
            QubeeError::Cryptographic(detail) => join_message("Cryptographic error: ", detail),
            QubeeError::Network(detail) => join_message("Network error: ", detail),
            QubeeError::Storage(detail) => join_message("Storage error: ", detail),
            QubeeError::Security(detail) => join_message("Security violation: ", detail),
            QubeeError::Configuration(detail) => join_message("Configuration error: ", detail),
            QubeeError::Internal(detail) => join_message("Internal error: ", detail),
        }
    }
}

} // verus!

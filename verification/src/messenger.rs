//! The messenger: one session with its registry of pinned keys, its key
//! store and its configuration.

use vstd::prelude::*;

use crate::audit::security_auditor::{AuditReport, SecurityAuditor};
use crate::config::MessengerConfig;
use crate::crypto::enhanced_ratchet::{
    EnhancedHybridRatchet, RatchetState, MAX_CACHE_DEFAULT, PQ_REKEY_PERIOD,
};
use crate::crypto::session_model::{
    after_resolution, bytes_view, decrypted_payload, followed, fresh_session, is_encryption,
    is_sender_initialization, key_exchange_confirmed, lifecycle_error, may_refuse,
    may_refuse_setup, receipt_error, receiver_initialized, rekey_refused, sealing_error, usable,
    SessionView,
};
use crate::crypto::wire::{decode_envelope, encode_envelope, parse_envelope};
use crate::ephemeral_keys::{pins_after, EphemeralKeyStore, PinView};
use crate::errors::{QubeeError, RatchetError};
use crate::security::secure_keystore::{
    entry_secret, key_id_valid, stored_entry, KeyMetadata, KeyType, SecureKeyStore, StoreView,
    MAX_SECRET_LEN,
};

verus! {

/// Whether `e` is the cryptographic error that tells of the session's
/// refusal `refusal`, in its words.
pub open spec fn tells_of(e: QubeeError, refusal: RatchetError) -> bool {
    e matches QubeeError::Cryptographic(detail) && detail@ == refusal.text()
}

/// Whether `e` is a storage error with the words `words`.
pub open spec fn storage_error(e: QubeeError, words: Seq<char>) -> bool {
    e matches QubeeError::Storage(detail) && detail@ == words
}

/// A session with what it needs around it.
pub struct SecureMessenger {
    ratchet: EnhancedHybridRatchet,
    ephemeral_store: EphemeralKeyStore,
    keystore: SecureKeyStore,
    config: MessengerConfig,
}

impl SecureMessenger {
    /// The registry and the key store are well formed.
    pub closed spec fn wf(&self) -> bool {
        self.ephemeral_store.wf() && self.keystore.wf()
    }

    /// The session.
    pub closed spec fn session(&self) -> SessionView {
        self.ratchet@
    }

    /// The pinned keys.
    pub closed spec fn pins(&self) -> PinView {
        self.ephemeral_store@
    }

    /// The stored keys.
    pub closed spec fn stored(&self) -> StoreView {
        self.keystore@
    }

    /// The master key of the key store.
    pub closed spec fn master(&self) -> Seq<u8> {
        self.keystore.master()
    }

    /// The configuration.
    pub closed spec fn configuration(&self) -> MessengerConfig {
        self.config
    }

    /// A messenger with the default configuration.
    pub fn new() -> (out: Result<Self, QubeeError>)
        ensures
            out matches Ok(m) ==> m.wf() && m.session() == fresh_session(
                1000,
                MAX_CACHE_DEFAULT,
                PQ_REKEY_PERIOD,
            ),
            out matches Err(e) ==> storage_error(e, "Failed to get entropy from OS"@),
    {
        SecureMessenger::with_config(MessengerConfig::default())
    }

    /// A messenger with the configuration handed in: a session that was not
    /// set up, with the configured skip limit, an empty registry and an
    /// empty key store under a fresh master key.
    pub fn with_config(config: MessengerConfig) -> (out: Result<Self, QubeeError>)
        ensures
            out matches Ok(m) ==> m.wf() && m.configuration() == config && m.session()
                == fresh_session(config.max_skip_messages, MAX_CACHE_DEFAULT, PQ_REKEY_PERIOD)
                && m.pins() == PinView::empty() && m.stored() == StoreView::empty(),
            out matches Err(e) ==> storage_error(e, "Failed to get entropy from OS"@),
    {
        let keystore = match SecureKeyStore::new() {
            Ok(k) => k,
            Err(_) => {
                return Err(QubeeError::Storage("Failed to get entropy from OS".to_string()));
            },
        };
        Ok(
            SecureMessenger {
                ratchet: EnhancedHybridRatchet::with_limits(
                    config.max_skip_messages,
                    MAX_CACHE_DEFAULT,
                    PQ_REKEY_PERIOD,
                ),
                ephemeral_store: EphemeralKeyStore::new(),
                keystore,
                config,
            },
        )
    }

    /// Sets the messenger up as the initiator of a conversation and makes
    /// it ready to send.
    pub fn initialize_sender(
        &mut self,
        shared_secret: &[u8],
        remote_dh_key: &[u8; 32],
        remote_pq_key: &[u8],
    ) -> (out: Result<(), QubeeError>)
        requires
            old(self).wf(),
        ensures
            final(self).wf(),
            final(self).pins() == old(self).pins(),
            final(self).stored() == old(self).stored(),
            old(self).session().state != RatchetState::Uninitialized ==> out is Err && tells_of(
                out->Err_0,
                RatchetError::AlreadyInitialized,
            ),
            old(self).session().state == RatchetState::Uninitialized && remote_pq_key@.len()
                != crate::primitives::KYBER_PUBLIC_KEY_LEN ==> out is Err && tells_of(
                out->Err_0,
                RatchetError::InvalidKey,
            ),
            out matches Err(e) ==> final(self).session() == old(self).session() && exists|
                refusal: RatchetError,
            | #[trigger]
                tells_of(e, refusal) && may_refuse_setup(
                    old(self).session(),
                    remote_pq_key@,
                    refusal,
                ),
            out is Ok ==> exists|set_up: SessionView| #[trigger]
                is_sender_initialization(
                    old(self).session(),
                    set_up,
                    shared_secret@,
                    remote_dh_key@,
                    remote_pq_key@,
                ) && final(self).session() == key_exchange_confirmed(set_up),
            out is Ok ==> final(self).session().state == RatchetState::KeyExchanged
                && final(self).session().send_chain_key is Some,
    {
        match self.ratchet.initialize_sender(shared_secret, remote_dh_key, remote_pq_key) {
            Ok(()) => {},
            Err(e) => {
                let refused = QubeeError::Cryptographic(e.message());
                assert(tells_of(refused, e));
                return Err(refused);
            },
        }
        let ghost set_up = self.ratchet@;
        let confirmed = self.ratchet.confirm_key_exchange();
        assert(confirmed is Ok);
        assert(is_sender_initialization(
            old(self).session(),
            set_up,
            shared_secret@,
            remote_dh_key@,
            remote_pq_key@,
        ) && self.session() == key_exchange_confirmed(set_up));
        Ok(())
    }

    /// Sets the messenger up as the responder of a conversation. It is
    /// ready once the initiator's first message has come.
    pub fn initialize_receiver(
        &mut self,
        shared_secret: &[u8],
        dh_private_key: &[u8; 32],
        pq_private_key: &[u8],
    ) -> (out: Result<(), QubeeError>)
        requires
            old(self).wf(),
        ensures
            final(self).wf(),
            final(self).pins() == old(self).pins(),
            final(self).stored() == old(self).stored(),
            out is Ok <==> old(self).session().state == RatchetState::Uninitialized,
            out matches Err(e) ==> tells_of(e, RatchetError::AlreadyInitialized) && final(self).session() == old(self).session(),
            out is Ok ==> final(self).session() == receiver_initialized(
                old(self).session(),
                shared_secret@,
                dh_private_key@,
                pq_private_key@,
            ),
    {
        match self.ratchet.initialize_receiver(shared_secret, dh_private_key, pq_private_key) {
            Ok(()) => Ok(()),
            Err(e) => Err(QubeeError::Cryptographic(e.message())),
        }
    }

    /// Encrypts a message and serializes its envelope. Refused with a
    /// security error where the session is not usable.
    pub fn encrypt_message(&mut self, message: &[u8]) -> (out: Result<Vec<u8>, QubeeError>)
        requires
            old(self).wf(),
        ensures
            final(self).wf(),
            final(self).pins() == old(self).pins(),
            final(self).stored() == old(self).stored(),
            !usable(old(self).session().state) ==> out is Err && out->Err_0 is Security,
            usable(old(self).session().state) ==> {
                &&& sealing_error(old(self).session(), message@) matches Some(refusal) ==> out
                    is Err && tells_of(out->Err_0, refusal)
                &&& sealing_error(old(self).session(), message@) is None && rekey_refused(
                    old(self).session(),
                ) ==> out is Err
            },
            out is Err ==> final(self).session() == old(self).session(),
            out matches Err(e) ==> (e is Security && !usable(old(self).session().state)) || (
            usable(old(self).session().state) && exists|refusal: RatchetError| #[trigger]
                tells_of(e, refusal) && may_refuse(old(self).session(), message@, refusal)),
            out matches Ok(bytes) ==> parse_envelope(bytes@) is Some && is_encryption(
                old(self).session(),
                final(self).session(),
                parse_envelope(bytes@).unwrap(),
                message@,
                Seq::<u8>::empty(),
                false,
            ),
    {
        if !self.ratchet.is_active() {
            return Err(QubeeError::Security("Ratchet not active".to_string()));
        }
        let empty: Vec<u8> = Vec::new();
        match self.ratchet.encrypt(message, empty.as_slice()) {
            Ok(envelope) => Ok(encode_envelope(&envelope)),
            Err(e) => {
                let refused = QubeeError::Cryptographic(e.message());
                assert(tells_of(refused, e));
                Err(refused)
            },
        }
    }

    /// Parses an envelope from `sender_id` and receives it. Bytes that are
    /// not an envelope are an internal error; an envelope that the session
    /// refuses is a cryptographic error, and nothing has moved. Cover
    /// traffic yields `None`.
    pub fn decrypt_message(&mut self, ciphertext: &[u8], sender_id: &str) -> (out: Result<
        Option<Vec<u8>>,
        QubeeError,
    >)
        requires
            old(self).wf(),
        ensures
            final(self).wf(),
            final(self).stored() == old(self).stored(),
            parse_envelope(ciphertext@) is None ==> out is Err && out->Err_0 is Internal,
            out is Err ==> final(self).session() == old(self).session() && final(self).pins()
                == old(self).pins(),
            parse_envelope(ciphertext@) matches Some(envelope) ==> match receipt_error(
                old(self).session(),
                old(self).pins(),
                envelope,
                Seq::<u8>::empty(),
                sender_id@,
            ) {
                Some(e) => out is Err && tells_of(out->Err_0, e),
                None => {
                    let stepped = followed(old(self).session(), envelope.header);
                    &&& final(self).session() == after_resolution(
                        stepped,
                        envelope.header.message_number,
                    )
                    &&& final(self).pins() == pins_after(
                        old(self).pins(),
                        sender_id@,
                        envelope.ephemeral_public_key,
                    )
                    &&& out matches Ok(payload) && bytes_view(payload) == decrypted_payload(
                        stepped,
                        envelope,
                        Seq::<u8>::empty(),
                    )
                },
            },
    {
        let envelope = match decode_envelope(ciphertext) {
            Some(e) => e,
            None => {
                return Err(QubeeError::Internal("Malformed envelope".to_string()));
            },
        };
        let empty: Vec<u8> = Vec::new();
        match self.ratchet.receive(&envelope, empty.as_slice(), sender_id,
            &mut self.ephemeral_store) {
            Ok(payload) => Ok(payload),
            Err(e) => Err(QubeeError::Cryptographic(e.message())),
        }
    }

    /// Where the session stands in its life.
    pub fn ratchet_state(&self) -> (out: RatchetState)
        ensures
            out == self.session().state,
    {
        self.ratchet.state()
    }

    /// Stores a key in the key store.
    pub fn store_key(
        &mut self,
        key_id: &str,
        key_data: &[u8],
        key_type: KeyType,
        metadata: KeyMetadata,
    ) -> (out: Result<(), QubeeError>)
        requires
            old(self).wf(),
        ensures
            final(self).wf(),
            final(self).session() == old(self).session(),
            final(self).pins() == old(self).pins(),
            final(self).master() == old(self).master(),
            !key_id_valid(key_id) || key_data@.len() > MAX_SECRET_LEN ==> out is Err,
            out matches Err(e) ==> storage_error(e, "Failed to store key"@) && final(self).stored() == old(self).stored(),
            out is Ok ==> key_id_valid(key_id) && key_data@.len() <= MAX_SECRET_LEN,
            out is Ok ==> final(self).stored().contains_key(key_id@) && final(self).stored()[key_id@].nonce.len() == 12 && final(self).stored()[key_id@] == stored_entry(
                old(self).master(),
                final(self).stored()[key_id@].nonce,
                key_data@,
                key_type,
                metadata,
                final(self).stored()[key_id@].created_at,
            ) && final(self).stored().remove(key_id@) == old(self).stored().remove(key_id@),
            out is Ok ==> final(self).stored().contains_key(key_id@) && entry_secret(
                final(self).master(),
                final(self).stored()[key_id@],
            ) == Some(key_data@),
    {
        match self.keystore.store_key(key_id, key_data, key_type, metadata) {
            Ok(()) => Ok(()),
            Err(_) => Err(QubeeError::Storage("Failed to store key".to_string())),
        }
    }

    /// The key stored under `key_id`, or nothing where there is none.
    pub fn retrieve_key(&mut self, key_id: &str) -> (out: Result<Option<Vec<u8>>, QubeeError>)
        requires
            old(self).wf(),
        ensures
            final(self).wf(),
            final(self).session() == old(self).session(),
            final(self).pins() == old(self).pins(),
            final(self).master() == old(self).master(),
            !old(self).stored().contains_key(key_id@) ==> out is Ok && out->Ok_0 is None,
            old(self).stored().contains_key(key_id@) ==> match entry_secret(
                old(self).master(),
                old(self).stored()[key_id@],
            ) {
                Some(secret) => out matches Ok(Some(s)) && s@ == secret,
                None => out is Err && storage_error(out->Err_0, "Decryption failed"@),
            },
    {
        match self.keystore.retrieve_key(key_id) {
            Ok(secret) => Ok(secret),
            Err(_) => Err(QubeeError::Storage("Decryption failed".to_string())),
        }
    }

    /// Runs a security audit at time `timestamp` with the default checks.
    pub fn run_security_audit(&self, timestamp: u64) -> (out: Result<AuditReport, QubeeError>)
        ensures
            out matches Ok(report) && report.timestamp == timestamp && report.total_checks == 8,
    {
        let mut auditor = SecurityAuditor::new();
        match auditor.run_audit(timestamp) {
            Ok(report) => Ok(report),
            Err(_) => Err(QubeeError::Security("Audit failed".to_string())),
        }
    }

    /// The configuration.
    pub fn config(&self) -> (out: &MessengerConfig)
        ensures
            *out == self.configuration(),
    {
        &self.config
    }

    /// Replaces the configuration. The session keeps the limits it was made with.
    pub fn update_config(&mut self, config: MessengerConfig)
        ensures
            final(self).configuration() == config,
            final(self).session() == old(self).session(),
            final(self).pins() == old(self).pins(),
            final(self).stored() == old(self).stored(),
            final(self).wf() == old(self).wf(),
    {
        self.config = config;
    }
}

} // verus!

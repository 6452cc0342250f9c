//! The ratchet session: root key, send and receive chains, counters and the
//! skipped-key cache, with the steps that move them.

use vstd::prelude::*;

use crate::bytes::{array12, array32, bytes_equal, concat2, copy_bytes, tail_bytes};
use crate::crypto::envelope::{encode_header, MessageHeader, RatchetMessage};
use crate::crypto::kdf::{
    chain_key_after, combined_secret, message_key_of, next_chain_key, stepped_chain_key,
    stepped_root_key,
};
use crate::crypto::kdf;
use crate::crypto::session_model::{
    after_resolution, after_sealing, bytes_view, compromised, confirmation_error, decrypted_payload,
    decryption_error, dh_agrees, dh_follow_error, dh_ratchet_followed, dh_ratcheted,
    dh_step_owed,
    flagged_plaintext,
    follow_error, followed, fresh_session, handshake_accepted, handshake_error, is_dh_ratchet,
    is_encryption, is_pq_ratchet, is_sealing, is_sender_initialization, key_exchange_confirmed,
    key_view, lemma_walked_cache_behind, lifecycle_error, may_refuse, may_refuse_setup,
    next_header, opened_by,
    pq_follow_error, rekey_refused,
    pq_ratchet_followed, pq_ratcheted, receipt_error, receiver_initialized, recv_id,
    resolution_error, resolved_key, sealed_envelope, sealing_error, send_chain_stepped,
    send_key_error, sender_initialized, session_wf, signer_valid, usable, walk_entries_match,
    walked_cache, zero_key, SessionView,
};
use crate::crypto::skipped_keys::entries_view;
use crate::crypto::skipped_keys::{
    cache_behind, cache_holds, lemma_cache_behind_kept, MessageId, SkippedKeyCache, SkippedKeyEntry,
};
use crate::ephemeral_keys::{pins_after, verify_and_pin_ephemeral_key, EphemeralKeyStore};
use crate::errors::RatchetError;
use crate::primitives::{
    chacha20poly1305_decrypt, chacha20poly1305_encrypt, ct_eq_bytes, dilithium2_keypair,
    dilithium2_sign, dilithium2_verify, kyber768_decapsulate, kyber768_encapsulate,
    kyber768_keypair, os_random_bytes, unix_time_secs, x25519_diffie_hellman, x25519_public,
    x25519_public_key, x25519_shared, zeroize_key, zeroize_vec, DILITHIUM_SECRET_KEY_LEN, KYBER_PUBLIC_KEY_LEN,
};

verus! {

/// How far ahead of the last message a receiver walks its chain at most.
pub const MAX_SKIP_DEFAULT: usize = 1000;

/// How many skipped message keys a session keeps at most.
pub const MAX_CACHE_DEFAULT: usize = 100;

/// After how many messages a sender encapsulates anew to its peer. Every
/// rekey moves the root key, and with it the key of the MAC: messages can
/// overtake each other between two rekeys, but one that arrives after a
/// later message that carried a rekey is refused.
pub const PQ_REKEY_PERIOD: u64 = 100;

/// Where a session stands in its life.
#[derive(Debug, Clone, Copy, PartialEq, Eq, Structural)]
pub enum RatchetState {
    Uninitialized,
    Initialized,
    KeyExchanged,
    Active,
    Compromised,
}

/// One side of a conversation: the keys, counters and cache of a hybrid
/// ratchet. A session belongs to one holder at a time.
pub struct EnhancedHybridRatchet {
    root_key: [u8; 32],
    dh_send_key: Option<[u8; 32]>,
    dh_recv_key: Option<[u8; 32]>,
    pq_send_key: Option<Vec<u8>>,
    pq_recv_key: Option<Vec<u8>>,
    send_chain_key: Option<[u8; 32]>,
    recv_chain_key: Option<[u8; 32]>,
    send_counter: u64,
    recv_counter: u64,
    previous_chain_length: u64,
    recv_chain_id: u64,
    skipped_keys: SkippedKeyCache,
    max_skip: usize,
    pq_rekey_period: u64,
    announce_dh: bool,
    pending_pq_ciphertext: Option<Vec<u8>>,
    followed_pq_ciphertext: Option<Vec<u8>>,
    state: RatchetState,
}

impl EnhancedHybridRatchet {
    /// The session as plain values.
    pub closed spec fn view(&self) -> SessionView {
        SessionView {
            state: self.state,
            root_key: self.root_key@,
            dh_send_key: key_view(self.dh_send_key),
            dh_recv_key: key_view(self.dh_recv_key),
            pq_send_key: bytes_view(self.pq_send_key),
            pq_recv_key: bytes_view(self.pq_recv_key),
            send_chain_key: key_view(self.send_chain_key),
            recv_chain_key: key_view(self.recv_chain_key),
            send_counter: self.send_counter,
            recv_counter: self.recv_counter,
            previous_chain_length: self.previous_chain_length,
            recv_chain_id: self.recv_chain_id,
            skipped: self.skipped_keys@,
            max_skip: self.max_skip,
            max_cache: self.skipped_keys.capacity() as usize,
            pq_rekey_period: self.pq_rekey_period,
            announce_dh: self.announce_dh,
            pending_pq_ciphertext: bytes_view(self.pending_pq_ciphertext),
            followed_pq_ciphertext: bytes_view(self.followed_pq_ciphertext),
        }
    }

    #[verifier::type_invariant]
    spec fn inv(self) -> bool {
        &&& self.skipped_keys.wf()
        &&& self.skipped_keys.capacity() <= usize::MAX
        &&& cache_behind(self.skipped_keys@, self.recv_chain_id, self.recv_counter)
        &&& self.pq_rekey_period >= 1
    }

    /// A session that has not been set up, with the default limits.
    pub fn new() -> (out: Self)
        ensures
            out@ == fresh_session(MAX_SKIP_DEFAULT, MAX_CACHE_DEFAULT, PQ_REKEY_PERIOD),
            session_wf(out@),
    {
        Self::with_limits(MAX_SKIP_DEFAULT, MAX_CACHE_DEFAULT, PQ_REKEY_PERIOD)
    }

    /// A session that has not been set up, with limits of the caller's
    /// choice. A rekey period of zero counts as one.
    pub fn with_limits(max_skip: usize, max_cache: usize, pq_rekey_period: u64) -> (out: Self)
        ensures
            out@ == fresh_session(
                max_skip,
                max_cache,
                if pq_rekey_period == 0 {
                    1
                } else {
                    pq_rekey_period
                },
            ),
            session_wf(out@),
    {
        let out = EnhancedHybridRatchet {
            root_key: [0u8; 32],
            dh_send_key: None,
            dh_recv_key: None,
            pq_send_key: None,
            pq_recv_key: None,
            send_chain_key: None,
            recv_chain_key: None,
            send_counter: 0,
            recv_counter: 0,
            previous_chain_length: 0,
            recv_chain_id: 0,
            skipped_keys: SkippedKeyCache::new(max_cache),
            max_skip,
            pq_rekey_period: if pq_rekey_period == 0 {
                1
            } else {
                pq_rekey_period
            },
            announce_dh: false,
            pending_pq_ciphertext: None,
            followed_pq_ciphertext: None,
            state: RatchetState::Uninitialized,
        };
        proof {
            assert(out@.root_key =~= zero_key());
        }
        out
    }

    /// Brings to light what holds of every session: its cache is well
    /// formed and behind its receive counter, and its rekey period is not
    /// zero.
    pub fn is_well_formed(&self) -> (out: bool)
        ensures
            out,
            session_wf(self@),
    {
        proof {
            use_type_invariant(self);
        }
        true
    }

    /// Where the session stands in its life.
    pub fn state(&self) -> (out: RatchetState)
        ensures
            out == self@.state,
    {
        self.state
    }

    /// Whether messages can be encrypted and decrypted.
    pub fn is_active(&self) -> (out: bool)
        ensures
            out == usable(self@.state),
    {
        self.state == RatchetState::Active || self.state == RatchetState::KeyExchanged
    }
}

/// Overwrites a key with zeros and drops it.
fn wipe_key(key: &mut Option<[u8; 32]>)
    ensures
        *final(key) is None,
    opens_invariants none
    no_unwind
{
    match key {
        Some(held) => zeroize_key(held),
        None => {},
    }
    *key = None;
}

/// Overwrites a byte string with zeros and drops it.
fn wipe_bytes(bytes: &mut Option<Vec<u8>>)
    ensures
        *final(bytes) is None,
    opens_invariants none
    no_unwind
{
    match bytes {
        Some(held) => zeroize_vec(held),
        None => {},
    }
    *bytes = None;
}

/// Thirty-two random bytes from the operating system.
fn random_key() -> (out: Option<[u8; 32]>) {
    match os_random_bytes(32) {
        Some(bytes) => Some(array32(bytes.as_slice())),
        None => None,
    }
}

impl EnhancedHybridRatchet {
    /// A root step, as the session takes it.
    pub fn kdf_rk(&self, root_key: &[u8; 32], dh_output: &[u8]) -> (out: Result<
        ([u8; 32], [u8; 32]),
        RatchetError,
    >)
        ensures
            out matches Ok(keys) && keys.0@ == stepped_root_key(root_key@, dh_output@) && keys.1@
                == stepped_chain_key(root_key@, dh_output@),
    {
        Ok(kdf::kdf_rk(root_key, dh_output))
    }

    /// A chain step, as the session takes it.
    pub fn kdf_ck(&self, chain_key: &[u8; 32]) -> (out: Result<([u8; 32], [u8; 32]), RatchetError>)
        ensures
            out matches Ok(keys) && keys.0@ == next_chain_key(chain_key@) && keys.1@
                == message_key_of(chain_key@),
    {
        Ok(kdf::kdf_ck(chain_key))
    }

    /// Combines a classical and a post-quantum shared secret.
    pub fn combine_shared_secrets(&self, dh_secret: &[u8], pq_secret: &[u8]) -> (out: Result<
        [u8; 32],
        RatchetError,
    >)
        ensures
            out matches Ok(key) && key@ == combined_secret(dh_secret@, pq_secret@),
    {
        Ok(kdf::combine_shared_secrets(dh_secret, pq_secret))
    }

    /// Sets the session up as the initiator, with the fresh DH secret and
    /// the encapsulation handed in. Refused with `AlreadyInitialized` unless
    /// the session is uninitialized.
    pub fn initialize_sender_with(
        &mut self,
        shared_secret: &[u8],
        remote_dh_key: &[u8; 32],
        remote_pq_key: &[u8],
        dh_secret: &[u8; 32],
        pq_ciphertext: &[u8],
        pq_secret: &[u8; 32],
    ) -> (out: Result<(), RatchetError>)
        ensures
            old(self)@.state != RatchetState::Uninitialized ==> out == Err::<(), RatchetError>(
                RatchetError::AlreadyInitialized,
            ) && final(self)@ == old(self)@,
            old(self)@.state == RatchetState::Uninitialized ==> out == Ok::<(), RatchetError>(())
                && final(self)@ == sender_initialized(
                old(self)@,
                shared_secret@,
                remote_dh_key@,
                remote_pq_key@,
                dh_secret@,
                pq_ciphertext@,
                pq_secret@,
            ),
    {
        if self.state != RatchetState::Uninitialized {
            return Err(RatchetError::AlreadyInitialized);
        }
        proof {
            use_type_invariant(&*self);
        }
        let root = kdf::derive_root_key(shared_secret);
        let dh_shared = x25519_diffie_hellman(dh_secret, remote_dh_key);
        let combined = kdf::combine_shared_secrets(dh_shared.as_slice(), pq_secret.as_slice());
        let (new_root, chain) = kdf::kdf_rk(&root, combined.as_slice());
        self.root_key = new_root;
        self.send_chain_key = Some(chain);
        self.dh_send_key = Some(*dh_secret);
        self.dh_recv_key = Some(*remote_dh_key);
        self.pq_recv_key = Some(copy_bytes(remote_pq_key));
        self.announce_dh = true;
        self.pending_pq_ciphertext = Some(copy_bytes(pq_ciphertext));
        self.state = RatchetState::Initialized;
        Ok(())
    }

    /// Sets the session up as the initiator: draws a fresh DH key pair,
    /// encapsulates to the peer's post-quantum key, and derives the root key
    /// and the first send chain from both. Refused with `AlreadyInitialized`
    /// unless the session is uninitialized, and with `InvalidKey` where the
    /// peer's post-quantum key has the wrong length.
    pub fn initialize_sender(
        &mut self,
        shared_secret: &[u8],
        remote_dh_key: &[u8; 32],
        remote_pq_key: &[u8],
    ) -> (out: Result<(), RatchetError>)
        ensures
            old(self)@.state != RatchetState::Uninitialized ==> out == Err::<(), RatchetError>(
                RatchetError::AlreadyInitialized,
            ),
            old(self)@.state == RatchetState::Uninitialized && remote_pq_key@.len()
                != KYBER_PUBLIC_KEY_LEN ==> out == Err::<(), RatchetError>(
                RatchetError::InvalidKey,
            ),
            out matches Err(e) ==> final(self)@ == old(self)@ && may_refuse_setup(
                old(self)@,
                remote_pq_key@,
                e,
            ),
            out is Ok ==> old(self)@.state == RatchetState::Uninitialized && remote_pq_key@.len()
                == KYBER_PUBLIC_KEY_LEN && is_sender_initialization(
                old(self)@,
                final(self)@,
                shared_secret@,
                remote_dh_key@,
                remote_pq_key@,
            ),
    {
        if self.state != RatchetState::Uninitialized {
            return Err(RatchetError::AlreadyInitialized);
        }
        let encapsulation = match kyber768_encapsulate(remote_pq_key) {
            Some(e) => e,
            None => {
                return Err(RatchetError::InvalidKey);
            },
        };
        let dh_secret = match random_key() {
            Some(k) => k,
            None => {
                return Err(RatchetError::EntropyUnavailable);
            },
        };
        self.initialize_sender_with(
            shared_secret,
            remote_dh_key,
            remote_pq_key,
            &dh_secret,
            encapsulation.1.as_slice(),
            &encapsulation.0,
        )
    }

    /// Sets the session up as the responder: derives the root key from the
    /// shared secret and keeps the local key pairs for the initiator's first
    /// message. Refused with `AlreadyInitialized` unless the session is
    /// uninitialized.
    pub fn initialize_receiver(
        &mut self,
        shared_secret: &[u8],
        dh_keypair: &[u8; 32],
        pq_keypair: &[u8],
    ) -> (out: Result<(), RatchetError>)
        ensures
            old(self)@.state != RatchetState::Uninitialized ==> out == Err::<(), RatchetError>(
                RatchetError::AlreadyInitialized,
            ) && final(self)@ == old(self)@,
            old(self)@.state == RatchetState::Uninitialized ==> out == Ok::<(), RatchetError>(())
                && final(self)@ == receiver_initialized(
                old(self)@,
                shared_secret@,
                dh_keypair@,
                pq_keypair@,
            ),
    {
        if self.state != RatchetState::Uninitialized {
            return Err(RatchetError::AlreadyInitialized);
        }
        proof {
            use_type_invariant(&*self);
        }
        self.root_key = kdf::derive_root_key(shared_secret);
        self.dh_send_key = Some(*dh_keypair);
        self.pq_send_key = Some(copy_bytes(pq_keypair));
        self.state = RatchetState::Initialized;
        Ok(())
    }
}

/// Walks a chain over `steps` messages: returns their keys in order, the
/// chain key that follows the message after them, and that message's key.
fn walk_chain(chain_key: &[u8; 32], chain_id: u64, first: u64, steps: u64) -> (out: (
    Vec<SkippedKeyEntry>,
    [u8; 32],
    [u8; 32],
))
    requires
        first + steps <= u64::MAX,
    ensures
        walk_entries_match(out.0@, chain_id, first, chain_key@, steps as nat),
        out.1@ == next_chain_key(chain_key_after(chain_key@, steps as nat)),
        out.2@ == message_key_of(chain_key_after(chain_key@, steps as nat)),
{
    let mut entries: Vec<SkippedKeyEntry> = Vec::new();
    let mut current = *chain_key;
    let mut i: u64 = 0;
    while i < steps
        invariant
            i <= steps,
            first + steps <= u64::MAX,
            current@ == chain_key_after(chain_key@, i as nat),
            walk_entries_match(entries@, chain_id, first, chain_key@, i as nat),
        decreases steps - i,
    {
        let (next, message_key) = kdf::kdf_ck(&current);
        let ghost before = entries@;
        entries.push(
            SkippedKeyEntry {
                id: MessageId { chain_id, message_number: first + i },
                key: message_key,
            },
        );
        proof {
            assert(chain_key_after(chain_key@, (i + 1) as nat) == next_chain_key(
                chain_key_after(chain_key@, i as nat),
            ));
            assert forall|j: int| 0 <= j < i + 1 implies (#[trigger] entries@[j]).id == (MessageId {
                chain_id,
                message_number: (first + j) as u64,
            }) && entries@[j].key@ == message_key_of(chain_key_after(chain_key@, j as nat)) by {
                if j < i {
                    assert(entries@[j] == before[j]);
                }
            }
        }
        current = next;
        i += 1;
    }
    let (next, message_key) = kdf::kdf_ck(&current);
    (entries, next, message_key)
}

/// Puts the keys of a walk into the cache, oldest first.
fn cache_walk(
    cache: &mut SkippedKeyCache,
    entries: &Vec<SkippedKeyEntry>,
    Ghost(chain_id): Ghost<u64>,
    Ghost(first): Ghost<u64>,
    Ghost(chain_key): Ghost<Seq<u8>>,
)
    requires
        old(cache).wf(),
        walk_entries_match(entries@, chain_id, first, chain_key, entries@.len()),
    ensures
        final(cache).wf(),
        final(cache).capacity() == old(cache).capacity(),
        final(cache)@ == walked_cache(
            old(cache)@,
            old(cache).capacity(),
            chain_id,
            first,
            chain_key,
            entries@.len(),
        ),
{
    let mut i: usize = 0;
    while i < entries.len()
        invariant
            i <= entries@.len(),
            cache.wf(),
            cache.capacity() == old(cache).capacity(),
            walk_entries_match(entries@, chain_id, first, chain_key, entries@.len()),
            cache@ == walked_cache(
                old(cache)@,
                old(cache).capacity(),
                chain_id,
                first,
                chain_key,
                i as nat,
            ),
        decreases entries@.len() - i,
    {
        let entry = entries[i];
        cache.insert(entry.id, entry.key);
        i += 1;
        proof {
            assert(entries@[i - 1].id == MessageId {
                chain_id,
                message_number: (first + (i - 1)) as u64,
            });
        }
    }
}

impl EnhancedHybridRatchet {
    /// The responder takes in the initiator's handshake: the DH public key
    /// and the post-quantum ciphertext of the first message. It derives the
    /// root key and the first receive chain as the initiator derived its
    /// send chain, and the key exchange is done.
    pub fn accept_handshake(&mut self, peer_dh_public: &[u8; 32], pq_ciphertext: &[u8]) -> (out:
        Result<(), RatchetError>)
        ensures
            handshake_error(old(self)@, pq_ciphertext@) matches Some(e) ==> out == Err::<
                (),
                RatchetError,
            >(e) && final(self)@ == old(self)@,
            handshake_error(old(self)@, pq_ciphertext@) is None ==> out == Ok::<(), RatchetError>(
                (),
            ) && final(self)@ == handshake_accepted(old(self)@, peer_dh_public@, pq_ciphertext@),
    {
        proof {
            use_type_invariant(&*self);
        }
        if self.state == RatchetState::Uninitialized {
            return Err(RatchetError::NotInitialized);
        }
        if self.state == RatchetState::Compromised {
            return Err(RatchetError::SessionCompromised);
        }
        if self.state != RatchetState::Initialized {
            return Err(RatchetError::AlreadyInitialized);
        }
        let dh_secret = match self.dh_send_key {
            Some(k) => k,
            None => {
                return Err(RatchetError::NotInitialized);
            },
        };
        let pq_secret = match &self.pq_send_key {
            Some(k) => match kyber768_decapsulate(pq_ciphertext, k.as_slice()) {
                Some(s) => s,
                None => {
                    return Err(RatchetError::InvalidKey);
                },
            },
            None => {
                return Err(RatchetError::NotInitialized);
            },
        };
        let dh_shared = x25519_diffie_hellman(&dh_secret, peer_dh_public);
        let combined = kdf::combine_shared_secrets(dh_shared.as_slice(), pq_secret.as_slice());
        let (new_root, chain) = kdf::kdf_rk(&self.root_key, combined.as_slice());
        self.root_key = new_root;
        self.recv_chain_key = Some(chain);
        self.dh_recv_key = Some(*peer_dh_public);
        self.followed_pq_ciphertext = Some(copy_bytes(pq_ciphertext));
        self.state = RatchetState::KeyExchanged;
        Ok(())
    }

    /// Declares the key exchange done: a session that was set up and holds
    /// a chain key becomes usable. A session that is usable already stays
    /// as it is.
    pub fn confirm_key_exchange(&mut self) -> (out: Result<(), RatchetError>)
        ensures
            confirmation_error(old(self)@) matches Some(e) ==> out == Err::<(), RatchetError>(e)
                && final(self)@ == old(self)@,
            confirmation_error(old(self)@) is None ==> out == Ok::<(), RatchetError>(())
                && final(self)@ == key_exchange_confirmed(old(self)@),
    {
        proof {
            use_type_invariant(&*self);
        }
        if self.state == RatchetState::Uninitialized {
            return Err(RatchetError::NotInitialized);
        }
        if self.state == RatchetState::Compromised {
            return Err(RatchetError::SessionCompromised);
        }
        if self.send_chain_key.is_none() && self.recv_chain_key.is_none() {
            return Err(RatchetError::NoSendChain);
        }
        if self.state == RatchetState::Initialized {
            self.state = RatchetState::KeyExchanged;
        }
        Ok(())
    }

    /// A DH ratchet step with the fresh local secret handed in: the root
    /// key moves on, a new send chain begins at message 1, and the session
    /// is active.
    pub fn dh_ratchet_with(&mut self, remote_public_key: &[u8; 32], dh_secret: &[u8; 32]) -> (out:
        Result<(), RatchetError>)
        ensures
            lifecycle_error(old(self)@) matches Some(e) ==> out == Err::<(), RatchetError>(e)
                && final(self)@ == old(self)@,
            lifecycle_error(old(self)@) is None ==> out == Ok::<(), RatchetError>(())
                && final(self)@ == dh_ratcheted(old(self)@, remote_public_key@, dh_secret@),
    {
        proof {
            use_type_invariant(&*self);
        }
        if self.state == RatchetState::Uninitialized {
            return Err(RatchetError::NotInitialized);
        }
        if self.state == RatchetState::Compromised {
            return Err(RatchetError::SessionCompromised);
        }
        let dh_shared = x25519_diffie_hellman(dh_secret, remote_public_key);
        let (new_root, chain) = kdf::kdf_rk(&self.root_key, dh_shared.as_slice());
        self.root_key = new_root;
        self.send_chain_key = Some(chain);
        self.dh_send_key = Some(*dh_secret);
        self.dh_recv_key = Some(*remote_public_key);
        self.previous_chain_length = self.send_counter;
        self.send_counter = 0;
        self.announce_dh = true;
        self.state = RatchetState::Active;
        Ok(())
    }

    /// A DH ratchet step: draws a fresh local DH key pair and steps the
    /// root key with the secret it shares with the peer's public key.
    pub fn dh_ratchet(&mut self, remote_public_key: &[u8; 32]) -> (out: Result<(), RatchetError>)
        ensures
            lifecycle_error(old(self)@) matches Some(e) ==> out == Err::<(), RatchetError>(e),
            out matches Err(e) ==> final(self)@ == old(self)@ && (lifecycle_error(old(self)@)
                == Some(e) || e == RatchetError::EntropyUnavailable),
            out is Ok ==> lifecycle_error(old(self)@) is None && is_dh_ratchet(
                old(self)@,
                final(self)@,
                remote_public_key@,
            ),
    {
        if self.state == RatchetState::Uninitialized {
            return Err(RatchetError::NotInitialized);
        }
        if self.state == RatchetState::Compromised {
            return Err(RatchetError::SessionCompromised);
        }
        let dh_secret = match random_key() {
            Some(k) => k,
            None => {
                return Err(RatchetError::EntropyUnavailable);
            },
        };
        self.dh_ratchet_with(remote_public_key, &dh_secret)
    }

    /// Follows the peer's DH ratchet step: with the local secret and the
    /// peer's new public key the root key moves on as the peer's did, and a
    /// new receive chain begins at message 1.
    pub fn dh_ratchet_receive(&mut self, remote_public_key: &[u8; 32]) -> (out: Result<
        (),
        RatchetError,
    >)
        ensures
            dh_follow_error(old(self)@) matches Some(e) ==> out == Err::<(), RatchetError>(e)
                && final(self)@ == old(self)@,
            dh_follow_error(old(self)@) is None ==> out == Ok::<(), RatchetError>(())
                && final(self)@ == dh_ratchet_followed(old(self)@, remote_public_key@),
    {
        proof {
            use_type_invariant(&*self);
        }
        if self.state == RatchetState::Uninitialized {
            return Err(RatchetError::NotInitialized);
        }
        if self.state == RatchetState::Compromised {
            return Err(RatchetError::SessionCompromised);
        }
        let dh_secret = match self.dh_send_key {
            Some(k) => k,
            None => {
                return Err(RatchetError::NotInitialized);
            },
        };
        if self.recv_chain_id == u64::MAX {
            return Err(RatchetError::CounterExhausted);
        }
        let dh_shared = x25519_diffie_hellman(&dh_secret, remote_public_key);
        let (new_root, chain) = kdf::kdf_rk(&self.root_key, dh_shared.as_slice());
        self.root_key = new_root;
        self.recv_chain_key = Some(chain);
        self.dh_recv_key = Some(*remote_public_key);
        self.recv_chain_id = self.recv_chain_id + 1;
        self.recv_counter = 0;
        self.state = RatchetState::Active;
        Ok(())
    }

    /// A post-quantum ratchet step with the fresh local key and the
    /// encapsulation handed in: the root key and the receive chain are
    /// refreshed, and the ciphertext waits for the next message.
    pub fn pq_ratchet_with(
        &mut self,
        remote_public_key: &[u8],
        pq_secret_key: &[u8],
        pq_ciphertext: &[u8],
        pq_secret: &[u8; 32],
    ) -> (out: Result<(), RatchetError>)
        ensures
            lifecycle_error(old(self)@) matches Some(e) ==> out == Err::<(), RatchetError>(e)
                && final(self)@ == old(self)@,
            lifecycle_error(old(self)@) is None ==> out == Ok::<(), RatchetError>(())
                && final(self)@ == pq_ratcheted(
                old(self)@,
                remote_public_key@,
                pq_secret_key@,
                pq_ciphertext@,
                pq_secret@,
            ),
    {
        proof {
            use_type_invariant(&*self);
        }
        if self.state == RatchetState::Uninitialized {
            return Err(RatchetError::NotInitialized);
        }
        if self.state == RatchetState::Compromised {
            return Err(RatchetError::SessionCompromised);
        }
        let (new_root, chain) = kdf::kdf_rk(&self.root_key, pq_secret.as_slice());
        self.root_key = new_root;
        self.recv_chain_key = Some(chain);
        self.pq_send_key = Some(copy_bytes(pq_secret_key));
        self.pq_recv_key = Some(copy_bytes(remote_public_key));
        self.pending_pq_ciphertext = Some(copy_bytes(pq_ciphertext));
        Ok(())
    }

    /// A post-quantum ratchet step: draws a fresh local key pair,
    /// encapsulates to the peer's key and steps the root key with the
    /// resulting secret. Refused with `InvalidKey` where the peer's key has
    /// the wrong length.
    pub fn pq_ratchet(&mut self, remote_public_key: &[u8]) -> (out: Result<(), RatchetError>)
        ensures
            lifecycle_error(old(self)@) matches Some(e) ==> out == Err::<(), RatchetError>(e),
            lifecycle_error(old(self)@) is None ==> (out is Ok <==> remote_public_key@.len()
                == KYBER_PUBLIC_KEY_LEN),
            out matches Err(e) ==> final(self)@ == old(self)@ && (lifecycle_error(old(self)@)
                == Some(e) || e == RatchetError::InvalidKey),
            out is Ok ==> is_pq_ratchet(old(self)@, final(self)@, remote_public_key@),
    {
        if self.state == RatchetState::Uninitialized {
            return Err(RatchetError::NotInitialized);
        }
        if self.state == RatchetState::Compromised {
            return Err(RatchetError::SessionCompromised);
        }
        let encapsulation = match kyber768_encapsulate(remote_public_key) {
            Some(e) => e,
            None => {
                return Err(RatchetError::InvalidKey);
            },
        };
        let keypair = kyber768_keypair();
        self.pq_ratchet_with(
            remote_public_key,
            keypair.1.as_slice(),
            encapsulation.1.as_slice(),
            &encapsulation.0,
        )
    }

    /// Follows the peer's post-quantum ratchet step: decapsulates the
    /// ciphertext with the local secret key; the root key moves on as the
    /// peer's did, and the send chain is the peer's new receive chain.
    pub fn pq_ratchet_receive(&mut self, pq_ciphertext: &[u8]) -> (out: Result<(), RatchetError>)
        ensures
            pq_follow_error(old(self)@, pq_ciphertext@) matches Some(e) ==> out == Err::<
                (),
                RatchetError,
            >(e) && final(self)@ == old(self)@,
            pq_follow_error(old(self)@, pq_ciphertext@) is None ==> out == Ok::<(), RatchetError>(
                (),
            ) && final(self)@ == pq_ratchet_followed(old(self)@, pq_ciphertext@),
    {
        proof {
            use_type_invariant(&*self);
        }
        if self.state == RatchetState::Uninitialized {
            return Err(RatchetError::NotInitialized);
        }
        if self.state == RatchetState::Compromised {
            return Err(RatchetError::SessionCompromised);
        }
        let secret = match &self.pq_send_key {
            Some(k) => match kyber768_decapsulate(pq_ciphertext, k.as_slice()) {
                Some(s) => s,
                None => {
                    return Err(RatchetError::InvalidKey);
                },
            },
            None => {
                return Err(RatchetError::NotInitialized);
            },
        };
        let (new_root, chain) = kdf::kdf_rk(&self.root_key, secret.as_slice());
        self.root_key = new_root;
        self.send_chain_key = Some(chain);
        self.followed_pq_ciphertext = Some(copy_bytes(pq_ciphertext));
        Ok(())
    }

    /// Steps the send chain once and hands out the message key. Nothing
    /// else moves. Refused with `NoSendChain` where no send chain exists.
    pub fn get_send_message_key(&mut self) -> (out: Result<[u8; 32], RatchetError>)
        ensures
            send_key_error(old(self)@) matches Some(e) ==> out == Err::<[u8; 32], RatchetError>(e)
                && final(self)@ == old(self)@,
            send_key_error(old(self)@) is None ==> final(self)@ == send_chain_stepped(old(self)@)
                && (out matches Ok(key) && key@ == message_key_of(
                old(self)@.send_chain_key.unwrap(),
            )),
    {
        proof {
            use_type_invariant(&*self);
        }
        if self.state == RatchetState::Compromised {
            return Err(RatchetError::SessionCompromised);
        }
        let chain_key = match self.send_chain_key {
            Some(k) => k,
            None => {
                return Err(RatchetError::NoSendChain);
            },
        };
        let (next, message_key) = kdf::kdf_ck(&chain_key);
        self.send_chain_key = Some(next);
        Ok(message_key)
    }

    /// Hands out the key for message `message_number` of the receive
    /// chain. A key that was cached is served from the cache and leaves it.
    /// A number at or below the receive counter with no cached key is a
    /// replay. A number ahead is reached by walking the chain: the keys of
    /// the messages walked over are cached, oldest evicted first, and the
    /// counter stands at `message_number`. A walk over more than the skip
    /// limit is refused and moves nothing.
    pub fn get_recv_message_key(&mut self, message_number: u64) -> (out: Result<
        [u8; 32],
        RatchetError,
    >)
        ensures
            resolution_error(old(self)@, message_number) matches Some(e) ==> out == Err::<
                [u8; 32],
                RatchetError,
            >(e) && final(self)@ == old(self)@,
            resolution_error(old(self)@, message_number) is None ==> final(self)@
                == after_resolution(old(self)@, message_number) && (out matches Ok(key) && key@
                == resolved_key(old(self)@, message_number)),
    {
        proof {
            use_type_invariant(&*self);
        }
        if self.state == RatchetState::Compromised {
            return Err(RatchetError::SessionCompromised);
        }
        let id = MessageId { chain_id: self.recv_chain_id, message_number };
        let mut cache = SkippedKeyCache::new(0);
        core::mem::swap(&mut self.skipped_keys, &mut cache);
        let cached = cache.take(id);
        proof {
            lemma_cache_behind_kept(
                old(self)@.skipped,
                0,
                self.recv_chain_id,
                self.recv_counter,
                id,
                Seq::empty(),
            );
        }
        core::mem::swap(&mut self.skipped_keys, &mut cache);
        match cached {
            Some(key) => {
                return Ok(key);
            },
            None => {},
        }
        if message_number <= self.recv_counter {
            return Err(RatchetError::ReplayDetected);
        }
        let chain_key = match self.recv_chain_key {
            Some(k) => k,
            None => {
                return Err(RatchetError::NoReceiveChain);
            },
        };
        let first = self.recv_counter + 1;
        let steps = message_number - first;
        if steps > self.max_skip as u64 {
            return Err(RatchetError::TooManySkippedMessages);
        }
        let (entries, next, message_key) = walk_chain(&chain_key, self.recv_chain_id, first, steps);
        core::mem::swap(&mut self.skipped_keys, &mut cache);
        cache_walk(&mut cache, &entries, Ghost(self.recv_chain_id), Ghost(first), Ghost(
            chain_key@));
        self.recv_chain_key = Some(next);
        self.recv_counter = message_number;
        proof {
            lemma_walked_cache_behind(
                old(self)@.skipped,
                old(self)@.max_cache as nat,
                self.recv_chain_id,
                first,
                chain_key@,
                steps as nat,
                message_number,
            );
        }
        core::mem::swap(&mut self.skipped_keys, &mut cache);
        Ok(message_key)
    }

    /// Marks the session compromised: the root key is zeroed; both chain
    /// keys, the local secret keys and every cached key are wiped and
    /// dropped. The state is final.
    pub fn mark_compromised(&mut self)
        ensures
            final(self)@ == compromised(old(self)@),
    {
        proof {
            use_type_invariant(&*self);
        }
        self.state = RatchetState::Compromised;
        self.wipe_secrets();
        proof {
            use_type_invariant(&*self);
        }
        let mut cache = SkippedKeyCache::new(0);
        core::mem::swap(&mut self.skipped_keys, &mut cache);
        cache.clear();
        core::mem::swap(&mut self.skipped_keys, &mut cache);
    }

    /// Overwrites the root key, the chain keys and the local secret keys
    /// with zeros, and drops all but the root key.
    fn wipe_secrets(&mut self)
        ensures
            final(self)@ == (SessionView {
                root_key: zero_key(),
                dh_send_key: None,
                pq_send_key: None,
                send_chain_key: None,
                recv_chain_key: None,
                ..old(self)@
            }),
        opens_invariants none
        no_unwind
    {
        proof {
            use_type_invariant(&*self);
        }
        zeroize_key(&mut self.root_key);
        wipe_key(&mut self.send_chain_key);
        wipe_key(&mut self.recv_chain_key);
        wipe_key(&mut self.dh_send_key);
        wipe_bytes(&mut self.pq_send_key);
        proof {
            assert(self@.root_key =~= zero_key());
        }
    }

    /// The number of the last message sent in the current send chain.
    pub fn send_counter(&self) -> (out: u64)
        ensures
            out == self@.send_counter,
    {
        self.send_counter
    }

    /// The highest message number received in the current receive chain.
    pub fn recv_counter(&self) -> (out: u64)
        ensures
            out == self@.recv_counter,
    {
        self.recv_counter
    }

    /// How many skipped message keys are cached.
    pub fn skipped_key_count(&self) -> (out: usize)
        ensures
            out == self@.skipped.len(),
    {
        self.skipped_keys.len()
    }

    /// Whether the key of message `message_number` of the current receive
    /// chain is cached.
    pub fn has_skipped_key(&self, message_number: u64) -> (out: bool)
        ensures
            out == cache_holds(self@.skipped, recv_id(self@, message_number)),
    {
        proof {
            use_type_invariant(self);
        }
        self.skipped_keys.contains(MessageId { chain_id: self.recv_chain_id, message_number })
    }

    /// The local DH public key, where a local DH secret exists. The local
    /// key pair agrees with every other: each secret key with the other's
    /// public key gives the same shared secret.
    pub fn local_dh_public(&self) -> (out: Option<[u8; 32]>)
        ensures
            out is Some <==> self@.dh_send_key is Some,
            out matches Some(k) ==> k@ == x25519_public(self@.dh_send_key.unwrap()),
            out is Some ==> forall|other: Seq<u8>|
                other.len() == 32 ==> #[trigger] dh_agrees(self@.dh_send_key.unwrap(), other),
    {
        match &self.dh_send_key {
            Some(secret) => {
                let public_key = x25519_public_key(secret);
                assert forall|other: Seq<u8>| other.len() == 32 implies #[trigger] dh_agrees(
                    secret@,
                    other,
                ) by {
                    assert(x25519_shared(other, public_key@) == x25519_shared(
                        secret@,
                        x25519_public(other),
                    ));
                }
                Some(public_key)
            },
            None => None,
        }
    }

    /// The peer's DH public key, where it is known.
    pub fn remote_dh_public(&self) -> (out: Option<[u8; 32]>)
        ensures
            key_view(out) == self@.dh_recv_key,
    {
        self.dh_recv_key
    }

    /// The post-quantum ciphertext that the next message will carry, if any.
    pub fn pending_pq_ciphertext(&self) -> (out: Option<Vec<u8>>)
        ensures
            bytes_view(out) == self@.pending_pq_ciphertext,
    {
        match &self.pending_pq_ciphertext {
            Some(ct) => Some(copy_bytes(ct.as_slice())),
            None => None,
        }
    }
}

/// The longest plaintext that one message can carry: with its flag byte it
/// must stay below `u32::MAX` cipher blocks of 64 bytes.
pub const MAX_PLAINTEXT_LEN: u64 = 274877906878;

/// A one-time signing key pair.
pub struct OneTimeSigner {
    pub public_key: Vec<u8>,
    pub secret_key: Vec<u8>,
}

impl OneTimeSigner {
    /// Draws a fresh key pair.
    pub fn generate() -> (out: Self)
        ensures
            signer_valid(out.public_key@, out.secret_key@),
    {
        let pair = dilithium2_keypair();
        OneTimeSigner { public_key: pair.0, secret_key: pair.1 }
    }
}

impl EnhancedHybridRatchet {
    /// Encrypts one message with the nonce, timestamp and one-time signing
    /// key handed in. The message key comes from one step of the send chain;
    /// the header is authenticated together with the caller's associated
    /// data; the MAC is keyed by the root key; the signature is on the
    /// ciphertext. A refusal moves nothing.
    pub fn encrypt_with(
        &mut self,
        plaintext: &[u8],
        associated_data: &[u8],
        is_dummy: bool,
        nonce: &[u8; 12],
        timestamp: u64,
        signer: &OneTimeSigner,
    ) -> (out: Result<RatchetMessage, RatchetError>)
        ensures
            sealing_error(old(self)@, plaintext@) matches Some(e) ==> out == Err::<
                RatchetMessage,
                RatchetError,
            >(e) && final(self)@ == old(self)@,
            sealing_error(old(self)@, plaintext@) is None && signer.secret_key@.len()
                != DILITHIUM_SECRET_KEY_LEN ==> out == Err::<RatchetMessage, RatchetError>(
                RatchetError::InvalidKey,
            ) && final(self)@ == old(self)@,
            sealing_error(old(self)@, plaintext@) is None && signer.secret_key@.len()
                == DILITHIUM_SECRET_KEY_LEN ==> final(self)@ == after_sealing(old(self)@) && (
            out matches Ok(envelope) && envelope@ == sealed_envelope(
                old(self)@,
                plaintext@,
                associated_data@,
                is_dummy,
                nonce@,
                timestamp,
                signer.public_key@,
                signer.secret_key@,
            ) && opened_by(old(self)@, envelope@, plaintext@, associated_data@, is_dummy)),
    {
        proof {
            use_type_invariant(&*self);
        }
        if self.state == RatchetState::Compromised {
            return Err(RatchetError::SessionCompromised);
        }
        if !self.is_active() {
            return Err(RatchetError::RatchetNotReady);
        }
        let chain_key = match self.send_chain_key {
            Some(k) => k,
            None => {
                return Err(RatchetError::NoSendChain);
            },
        };
        if self.send_counter == u64::MAX {
            return Err(RatchetError::CounterExhausted);
        }
        if plaintext.len() as u64 > MAX_PLAINTEXT_LEN {
            return Err(RatchetError::MessageTooLong);
        }
        if signer.secret_key.len() != DILITHIUM_SECRET_KEY_LEN {
            return Err(RatchetError::InvalidKey);
        }
        let (next, message_key) = kdf::kdf_ck(&chain_key);
        let header = MessageHeader {
            dh_public_key: if self.announce_dh {
                match &self.dh_send_key {
                    Some(secret) => Some(x25519_public_key(secret)),
                    None => None,
                }
            } else {
                None
            },
            pq_ciphertext: match &self.pending_pq_ciphertext {
                Some(ct) => Some(copy_bytes(ct.as_slice())),
                None => None,
            },
            previous_chain_length: self.previous_chain_length,
            message_number: self.send_counter + 1,
            timestamp,
        };
        assert(header@ == next_header(self@, timestamp));
        let header_encoded = encode_header(&header);
        let aad = concat2(associated_data, header_encoded.as_slice());
        let flag: [u8; 1] = [if is_dummy { 1u8 } else { 0u8 }];
        let flagged = concat2(flag.as_slice(), plaintext);
        proof {
            assert(flag@ =~= seq![if is_dummy { 1u8 } else { 0u8 }]);
            assert(flagged@ == flagged_plaintext(plaintext@, is_dummy));
            assert(flagged@.len() == plaintext@.len() + 1);
        }
        let ciphertext = match chacha20poly1305_encrypt(
            &message_key,
            nonce,
            aad.as_slice(),
            flagged.as_slice(),
        ) {
            Some(c) => c,
            None => {
                return Err(RatchetError::MessageTooLong);
            },
        };
        let mac = kdf::compute_mac(&self.root_key, header_encoded.as_slice(), ciphertext.as_slice(
            ));
        let signature = match dilithium2_sign(ciphertext.as_slice(), signer.secret_key.as_slice()) {
            Some(s) => s,
            None => {
                return Err(RatchetError::InvalidKey);
            },
        };
        self.send_chain_key = Some(next);
        self.send_counter = self.send_counter + 1;
        self.announce_dh = false;
        self.pending_pq_ciphertext = None;
        Ok(
            RatchetMessage {
                header,
                nonce: *nonce,
                ciphertext,
                mac,
                ephemeral_public_key: copy_bytes(signer.public_key.as_slice()),
                ephemeral_signature: signature,
            },
        )
    }

    /// Encrypts a message or a piece of cover traffic. Where a rekey is due
    /// a post-quantum ratchet step comes first; the nonce and the one-time
    /// signing key are drawn fresh, the timestamp is read from the clock. A
    /// refusal moves nothing.
    pub fn encrypt_flagged(&mut self, plaintext: &[u8], associated_data: &[u8],
        is_dummy: bool) -> (out:
        Result<RatchetMessage, RatchetError>)
        ensures
            sealing_error(old(self)@, plaintext@) matches Some(e) ==> out == Err::<
                RatchetMessage,
                RatchetError,
            >(e),
            out matches Err(e) ==> final(self)@ == old(self)@ && (sealing_error(
                old(self)@,
                plaintext@,
            ) == Some(e) || e == RatchetError::EntropyUnavailable || (e
                == RatchetError::InvalidKey && rekey_refused(old(self)@))),
            sealing_error(old(self)@, plaintext@) is None && rekey_refused(old(self)@) ==> out
                is Err,
            out matches Ok(envelope) ==> is_encryption(
                old(self)@,
                final(self)@,
                envelope@,
                plaintext@,
                associated_data@,
                is_dummy,
            ),
    {
        proof {
            use_type_invariant(&*self);
        }
        if self.state == RatchetState::Compromised {
            return Err(RatchetError::SessionCompromised);
        }
        if !self.is_active() {
            return Err(RatchetError::RatchetNotReady);
        }
        if self.send_chain_key.is_none() {
            return Err(RatchetError::NoSendChain);
        }
        if self.send_counter == u64::MAX {
            return Err(RatchetError::CounterExhausted);
        }
        if plaintext.len() as u64 > MAX_PLAINTEXT_LEN {
            return Err(RatchetError::MessageTooLong);
        }
        let nonce = match os_random_bytes(12) {
            Some(bytes) => array12(bytes.as_slice()),
            None => {
                return Err(RatchetError::EntropyUnavailable);
            },
        };
        let timestamp = unix_time_secs();
        let rekey = match &self.pq_recv_key {
            Some(peer) => {
                if self.pending_pq_ciphertext.is_none() && (self.send_counter + 1)
                    % self.pq_rekey_period == 0 {
                    match kyber768_encapsulate(peer.as_slice()) {
                        Some(e) => Some((copy_bytes(peer.as_slice()), e)),
                        None => {
                            return Err(RatchetError::InvalidKey);
                        },
                    }
                } else {
                    None
                }
            },
            None => None,
        };
        let signer = OneTimeSigner::generate();
        let ghost before = self@;
        match rekey {
            Some((peer, encapsulation)) => {
                let keypair = kyber768_keypair();
                let stepped = self.pq_ratchet_with(
                    peer.as_slice(),
                    keypair.1.as_slice(),
                    encapsulation.1.as_slice(),
                    &encapsulation.0,
                );
                assert(stepped is Ok);
                assert(is_pq_ratchet(before, self@, before.pq_recv_key.unwrap()));
            },
            None => {},
        }
        let ghost stepped = self@;
        let out = self.encrypt_with(plaintext, associated_data, is_dummy, &nonce, timestamp,
            &signer);
        proof {
            assert(sealing_error(stepped, plaintext@) is None);
            let envelope = out.unwrap()@;
            assert(envelope == sealed_envelope(
                stepped,
                plaintext@,
                associated_data@,
                is_dummy,
                envelope.nonce,
                envelope.header.timestamp,
                envelope.ephemeral_public_key,
                signer.secret_key@,
            ));
            assert(is_sealing(stepped, self@, envelope, plaintext@, associated_data@, is_dummy));
        }
        out
    }

    /// Encrypts a message.
    pub fn encrypt(&mut self, plaintext: &[u8], associated_data: &[u8]) -> (out: Result<
        RatchetMessage,
        RatchetError,
    >)
        ensures
            sealing_error(old(self)@, plaintext@) matches Some(e) ==> out == Err::<
                RatchetMessage,
                RatchetError,
            >(e),
            out matches Err(e) ==> final(self)@ == old(self)@ && may_refuse(
                old(self)@,
                plaintext@,
                e,
            ),
            sealing_error(old(self)@, plaintext@) is None && rekey_refused(old(self)@) ==> out
                is Err,
            out matches Ok(envelope) ==> is_encryption(
                old(self)@,
                final(self)@,
                envelope@,
                plaintext@,
                associated_data@,
                false,
            ),
    {
        self.encrypt_flagged(plaintext, associated_data, false)
    }

    /// Encrypts a piece of cover traffic: an empty payload behind a set flag.
    pub fn encrypt_dummy(&mut self, associated_data: &[u8]) -> (out: Result<
        RatchetMessage,
        RatchetError,
    >)
        ensures
            sealing_error(old(self)@, Seq::<u8>::empty()) matches Some(e) ==> out == Err::<
                RatchetMessage,
                RatchetError,
            >(e),
            out matches Err(e) ==> final(self)@ == old(self)@ && may_refuse(
                old(self)@,
                Seq::<u8>::empty(),
                e,
            ),
            sealing_error(old(self)@, Seq::<u8>::empty()) is None && rekey_refused(old(self)@)
                ==> out is Err,
            out matches Ok(envelope) ==> is_encryption(
                old(self)@,
                final(self)@,
                envelope@,
                Seq::<u8>::empty(),
                associated_data@,
                true,
            ),
    {
        let empty: Vec<u8> = Vec::new();
        self.encrypt_flagged(empty.as_slice(), associated_data, true)
    }

    /// Decrypts an envelope from `sender_id`. The MAC is checked first, in
    /// constant time; then the message number, the AEAD tag, the one-time
    /// signature and the pinned key. Only an envelope that passes all of
    /// them moves the session and the registry; a refusal moves nothing.
    /// Cover traffic yields `None`, a real message its payload.
    pub fn decrypt(
        &mut self,
        message: &RatchetMessage,
        associated_data: &[u8],
        sender_id: &str,
        ephemeral_store: &mut EphemeralKeyStore,
    ) -> (out: Result<Option<Vec<u8>>, RatchetError>)
        requires
            old(ephemeral_store).wf(),
        ensures
            final(ephemeral_store).wf(),
            decryption_error(
                old(self)@,
                old(ephemeral_store)@,
                message@,
                associated_data@,
                sender_id@,
            ) matches Some(e) ==> out == Err::<Option<Vec<u8>>, RatchetError>(e) && final(self)@
                == old(self)@ && final(ephemeral_store)@ == old(ephemeral_store)@,
            decryption_error(
                old(self)@,
                old(ephemeral_store)@,
                message@,
                associated_data@,
                sender_id@,
            ) is None ==> final(self)@ == after_resolution(
                old(self)@,
                message@.header.message_number,
            ) && final(ephemeral_store)@ == pins_after(
                old(ephemeral_store)@,
                sender_id@,
                message@.ephemeral_public_key,
            ) && (out matches Ok(payload) && bytes_view(payload) == decrypted_payload(
                old(self)@,
                message@,
                associated_data@,
            )),
    {
        proof {
            use_type_invariant(&*self);
        }
        if self.state == RatchetState::Compromised {
            return Err(RatchetError::SessionCompromised);
        }
        if !self.is_active() {
            return Err(RatchetError::RatchetNotReady);
        }
        let header_encoded = encode_header(&message.header);
        let expected = kdf::compute_mac(
            &self.root_key,
            header_encoded.as_slice(),
            message.ciphertext.as_slice(),
        );
        if !ct_eq_bytes(message.mac.as_slice(), expected.as_slice()) {
            return Err(RatchetError::AuthenticationFailed);
        }
        let number = message.header.message_number;
        let id = MessageId { chain_id: self.recv_chain_id, message_number: number };
        let cached = self.skipped_keys.get(id);
        let mut walked: Option<(Vec<SkippedKeyEntry>, [u8; 32])> = None;
        let ghost first = (self.recv_counter + 1) as u64;
        let message_key = match cached {
            Some(key) => key,
            None => {
                if number <= self.recv_counter {
                    return Err(RatchetError::ReplayDetected);
                }
                let chain_key = match self.recv_chain_key {
                    Some(k) => k,
                    None => {
                        return Err(RatchetError::NoReceiveChain);
                    },
                };
                let steps = number - (self.recv_counter + 1);
                if steps > self.max_skip as u64 {
                    return Err(RatchetError::TooManySkippedMessages);
                }
                let (entries, next, key) = walk_chain(
                    &chain_key,
                    self.recv_chain_id,
                    self.recv_counter + 1,
                    steps,
                );
                walked = Some((entries, next));
                key
            },
        };
        assert(message_key@ == resolved_key(self@, number));
        let aad = concat2(associated_data, header_encoded.as_slice());
        let opened = match chacha20poly1305_decrypt(
            &message_key,
            &message.nonce,
            aad.as_slice(),
            message.ciphertext.as_slice(),
        ) {
            Some(p) => p,
            None => {
                return Err(RatchetError::AuthenticationFailed);
            },
        };
        if opened.len() == 0 {
            return Err(RatchetError::AuthenticationFailed);
        }
        if !dilithium2_verify(
            message.ephemeral_signature.as_slice(),
            message.ciphertext.as_slice(),
            message.ephemeral_public_key.as_slice(),
        ) {
            return Err(RatchetError::SignatureInvalid);
        }
        if !ephemeral_store.admits(sender_id, message.ephemeral_public_key.as_slice()) {
            return Err(RatchetError::EphemeralKeyMismatch);
        }
        let pinned = verify_and_pin_ephemeral_key(
            ephemeral_store,
            sender_id,
            message.ephemeral_public_key.as_slice(),
        );
        let mut cache = SkippedKeyCache::new(0);
        core::mem::swap(&mut self.skipped_keys, &mut cache);
        match walked {
            Some((entries, next)) => {
                cache_walk(
                    &mut cache,
                    &entries,
                    Ghost(self.recv_chain_id),
                    Ghost(first),
                    Ghost(old(self)@.recv_chain_key.unwrap()),
                );
                self.recv_chain_key = Some(next);
                self.recv_counter = number;
                proof {
                    lemma_walked_cache_behind(
                        old(self)@.skipped,
                        old(self)@.max_cache as nat,
                        self.recv_chain_id,
                        first,
                        old(self)@.recv_chain_key.unwrap(),
                        entries@.len(),
                        number,
                    );
                }
                core::mem::swap(&mut self.skipped_keys, &mut cache);
            },
            None => {
                let _ = cache.take(id);
                proof {
                    lemma_cache_behind_kept(
                        old(self)@.skipped,
                        0,
                        self.recv_chain_id,
                        self.recv_counter,
                        id,
                        Seq::empty(),
                    );
                }
                core::mem::swap(&mut self.skipped_keys, &mut cache);
            },
        }
        if opened[0] != 0 {
            Ok(None)
        } else {
            Ok(Some(tail_bytes(opened.as_slice(), 1)))
        }
    }
}

/// Everything a session holds, as it is put to rest and taken up again.
pub struct SessionSnapshot {
    pub state: RatchetState,
    pub root_key: [u8; 32],
    pub dh_send_key: Option<[u8; 32]>,
    pub dh_recv_key: Option<[u8; 32]>,
    pub pq_send_key: Option<Vec<u8>>,
    pub pq_recv_key: Option<Vec<u8>>,
    pub send_chain_key: Option<[u8; 32]>,
    pub recv_chain_key: Option<[u8; 32]>,
    pub send_counter: u64,
    pub recv_counter: u64,
    pub previous_chain_length: u64,
    pub recv_chain_id: u64,
    /// The skipped message keys, oldest first.
    pub skipped_keys: Vec<SkippedKeyEntry>,
    pub max_skip: usize,
    pub max_cache: usize,
    pub pq_rekey_period: u64,
    pub announce_dh: bool,
    pub pending_pq_ciphertext: Option<Vec<u8>>,
    pub followed_pq_ciphertext: Option<Vec<u8>>,
}

impl View for SessionSnapshot {
    type V = SessionView;

    open spec fn view(&self) -> SessionView {
        SessionView {
            state: self.state,
            root_key: self.root_key@,
            dh_send_key: key_view(self.dh_send_key),
            dh_recv_key: key_view(self.dh_recv_key),
            pq_send_key: bytes_view(self.pq_send_key),
            pq_recv_key: bytes_view(self.pq_recv_key),
            send_chain_key: key_view(self.send_chain_key),
            recv_chain_key: key_view(self.recv_chain_key),
            send_counter: self.send_counter,
            recv_counter: self.recv_counter,
            previous_chain_length: self.previous_chain_length,
            recv_chain_id: self.recv_chain_id,
            skipped: entries_view(self.skipped_keys@),
            max_skip: self.max_skip,
            max_cache: self.max_cache,
            pq_rekey_period: self.pq_rekey_period,
            announce_dh: self.announce_dh,
            pending_pq_ciphertext: bytes_view(self.pending_pq_ciphertext),
            followed_pq_ciphertext: bytes_view(self.followed_pq_ciphertext),
        }
    }
}

fn copy_optional(bytes: &Option<Vec<u8>>) -> (out: Option<Vec<u8>>)
    ensures
        bytes_view(out) == bytes_view(*bytes),
{
    match bytes {
        Some(b) => Some(copy_bytes(b.as_slice())),
        None => None,
    }
}

/// Whether every entry belongs to an earlier chain than `chain_id`, or to
/// that chain and a message no later than `counter`.
fn entries_behind(entries: &Vec<SkippedKeyEntry>, chain_id: u64, counter: u64) -> (out: bool)
    ensures
        out == cache_behind(entries_view(entries@), chain_id, counter),
{
    let ghost view = entries_view(entries@);
    let mut i: usize = 0;
    while i < entries.len()
        invariant
            i <= entries@.len(),
            view == entries_view(entries@),
            forall|j: int|
                0 <= j < i ==> (#[trigger] view[j]).0.chain_id < chain_id || (view[j].0.chain_id
                    == chain_id && view[j].0.message_number <= counter),
        decreases entries@.len() - i,
    {
        let id = entries[i].id;
        if !(id.chain_id < chain_id || (id.chain_id == chain_id && id.message_number <= counter)) {
            proof {
                assert(view[i as int].0 == id);
            }
            return false;
        }
        i += 1;
    }
    true
}

impl EnhancedHybridRatchet {
    /// Everything the session holds, to be put to rest.
    pub fn snapshot(&self) -> (out: SessionSnapshot)
        ensures
            out@ == self@,
            session_wf(out@),
    {
        proof {
            use_type_invariant(self);
        }
        SessionSnapshot {
            state: self.state,
            root_key: self.root_key,
            dh_send_key: self.dh_send_key,
            dh_recv_key: self.dh_recv_key,
            pq_send_key: copy_optional(&self.pq_send_key),
            pq_recv_key: copy_optional(&self.pq_recv_key),
            send_chain_key: self.send_chain_key,
            recv_chain_key: self.recv_chain_key,
            send_counter: self.send_counter,
            recv_counter: self.recv_counter,
            previous_chain_length: self.previous_chain_length,
            recv_chain_id: self.recv_chain_id,
            skipped_keys: self.skipped_keys.entries(),
            max_skip: self.max_skip,
            max_cache: self.skipped_keys.max_entries(),
            pq_rekey_period: self.pq_rekey_period,
            announce_dh: self.announce_dh,
            pending_pq_ciphertext: copy_optional(&self.pending_pq_ciphertext),
            followed_pq_ciphertext: copy_optional(&self.followed_pq_ciphertext),
        }
    }

    /// Takes a session up again from a snapshot. Refused where the snapshot
    /// is not that of a session: its cache is over its capacity, names a
    /// message twice or holds a key ahead of the receive counter, or its
    /// rekey period is zero.
    pub fn restore(snapshot: SessionSnapshot) -> (out: Option<Self>)
        ensures
            out is Some <==> session_wf(snapshot@),
            out matches Some(session) ==> session@ == snapshot@,
    {
        if snapshot.pq_rekey_period == 0 {
            return None;
        }
        if !entries_behind(&snapshot.skipped_keys, snapshot.recv_chain_id, snapshot.recv_counter) {
            return None;
        }
        let cache = match SkippedKeyCache::from_entries(snapshot.skipped_keys, snapshot.max_cache) {
            Some(c) => c,
            None => {
                return None;
            },
        };
        Some(
            EnhancedHybridRatchet {
                root_key: snapshot.root_key,
                dh_send_key: snapshot.dh_send_key,
                dh_recv_key: snapshot.dh_recv_key,
                pq_send_key: snapshot.pq_send_key,
                pq_recv_key: snapshot.pq_recv_key,
                send_chain_key: snapshot.send_chain_key,
                recv_chain_key: snapshot.recv_chain_key,
                send_counter: snapshot.send_counter,
                recv_counter: snapshot.recv_counter,
                previous_chain_length: snapshot.previous_chain_length,
                recv_chain_id: snapshot.recv_chain_id,
                skipped_keys: cache,
                max_skip: snapshot.max_skip,
                pq_rekey_period: snapshot.pq_rekey_period,
                announce_dh: snapshot.announce_dh,
                pending_pq_ciphertext: snapshot.pending_pq_ciphertext,
                followed_pq_ciphertext: snapshot.followed_pq_ciphertext,
                state: snapshot.state,
            },
        )
    }
}

impl EnhancedHybridRatchet {
    /// Follows the ratchet material in a header. On a refusal the session
    /// may have taken a part of the steps.
    fn follow(&mut self, header: &MessageHeader) -> (out: Result<(), RatchetError>)
        ensures
            follow_error(old(self)@, header@) matches Some(e) ==> out == Err::<(), RatchetError>(e),
            follow_error(old(self)@, header@) is None ==> out == Ok::<(), RatchetError>(())
                && final(self)@ == followed(old(self)@, header@),
    {
        if self.state == RatchetState::Initialized && self.recv_chain_key.is_none() {
            match (&header.dh_public_key, &header.pq_ciphertext) {
                (Some(key), Some(ciphertext)) => {
                    return self.accept_handshake(key, ciphertext.as_slice());
                },
                _ => {},
            }
        }
        match &header.dh_public_key {
            Some(key) => {
                let known = match &self.dh_recv_key {
                    Some(held) => bytes_equal(held.as_slice(), key.as_slice()),
                    None => false,
                };
                proof {
                    if known {
                        assert(self@.dh_recv_key == header@.dh_public_key);
                    }
                }
                if !known {
                    match self.dh_ratchet_receive(key) {
                        Ok(()) => {},
                        Err(e) => {
                            return Err(e);
                        },
                    }
                }
            },
            None => {},
        }
        match &header.pq_ciphertext {
            Some(ciphertext) => {
                let known = match &self.followed_pq_ciphertext {
                    Some(held) => bytes_equal(held.as_slice(), ciphertext.as_slice()),
                    None => false,
                };
                proof {
                    if known {
                        assert(self@.followed_pq_ciphertext == header@.pq_ciphertext);
                    }
                }
                if known {
                    Ok(())
                } else {
                    self.pq_ratchet_receive(ciphertext.as_slice())
                }
            },
            None => Ok(()),
        }
    }

    /// Receives a message: follows the ratchet material in its header, then
    /// decrypts it. A responder that waits for the initiator's first message
    /// completes the handshake from it. Where the header announces a new DH
    /// key, the DH step is followed first; where it carries a post-quantum
    /// ciphertext that was not followed yet, the post-quantum step is
    /// followed next. If the message is then refused, the session and the
    /// registry are as they were before.
    ///
    /// Following is the receiving half of a DH ratchet step only. Where the
    /// header brought a DH key that the session did not hold, the session
    /// holds it afterwards, and the caller owes the sending half:
    /// `dh_ratchet` with that key, before it next encrypts. It is not taken
    /// here, because it moves the root key, and messages of the peer that
    /// are still on their way are authenticated under the root key as it is.
    ///
    /// A message that was overtaken by a later one is opened with its cached
    /// key as long as the root key is the one it was sealed under. Once a
    /// later message has moved the root key, by a DH step or by a rekey, the
    /// earlier one is refused with `AuthenticationFailed`.
    pub fn receive(
        &mut self,
        message: &RatchetMessage,
        associated_data: &[u8],
        sender_id: &str,
        ephemeral_store: &mut EphemeralKeyStore,
    ) -> (out: Result<Option<Vec<u8>>, RatchetError>)
        requires
            old(ephemeral_store).wf(),
        ensures
            final(ephemeral_store).wf(),
            receipt_error(
                old(self)@,
                old(ephemeral_store)@,
                message@,
                associated_data@,
                sender_id@,
            ) matches Some(e) ==> out == Err::<Option<Vec<u8>>, RatchetError>(e) && final(self)@
                == old(self)@ && final(ephemeral_store)@ == old(ephemeral_store)@,
            receipt_error(
                old(self)@,
                old(ephemeral_store)@,
                message@,
                associated_data@,
                sender_id@,
            ) is None ==> final(self)@ == after_resolution(
                followed(old(self)@, message@.header),
                message@.header.message_number,
            ) && final(ephemeral_store)@ == pins_after(
                old(ephemeral_store)@,
                sender_id@,
                message@.ephemeral_public_key,
            ) && (out matches Ok(payload) && bytes_view(payload) == decrypted_payload(
                followed(old(self)@, message@.header),
                message@,
                associated_data@,
            )),
            receipt_error(
                old(self)@,
                old(ephemeral_store)@,
                message@,
                associated_data@,
                sender_id@,
            ) is None && dh_step_owed(old(self)@, message@.header) ==> final(self)@.dh_recv_key
                == message@.header.dh_public_key,
    {
        let saved = self.snapshot();
        let outcome = match self.follow(&message.header) {
            Ok(()) => self.decrypt(message, associated_data, sender_id, ephemeral_store),
            Err(e) => Err(e),
        };
        match outcome {
            Ok(payload) => Ok(payload),
            Err(e) => {
                match EnhancedHybridRatchet::restore(saved) {
                    Some(session) => {
                        *self = session;
                    },
                    None => {},
                }
                Err(e)
            },
        }
    }
}

impl Drop for EnhancedHybridRatchet {
    /// A session that goes away overwrites its keys with zeros.
    fn drop(&mut self)
        opens_invariants none
        no_unwind
    {
        self.wipe_secrets();
    }
}

} // verus!

//! The ratchet session as mathematics: what a session is, what each step
//! makes of it, and when a step is refused.

use vstd::prelude::*;

use crate::crypto::enhanced_ratchet::{RatchetState, MAX_PLAINTEXT_LEN};
use crate::crypto::envelope::{header_bytes, EnvelopeView, HeaderView};
use crate::crypto::kdf::{
    chain_key_after, combined_secret, initial_root_key, mac_of, message_key_of, next_chain_key,
    stepped_chain_key, stepped_root_key,
};
use crate::crypto::skipped_keys::{
    cache_behind, cache_holds, cache_key, cache_wf, cache_with, cache_without,
    lemma_cache_behind_kept, lemma_cache_with_wf, CacheView, MessageId, SkippedKeyEntry,
};
use crate::ephemeral_keys::{pin_admits, PinView};
use crate::errors::RatchetError;
use crate::primitives::{
    aead_open, aead_seal, dilithium2_accepts, dilithium2_signature, kyber768_decapsulated,
    x25519_public, x25519_shared, DILITHIUM_SECRET_KEY_LEN, KYBER_CIPHERTEXT_LEN,
    KYBER_PUBLIC_KEY_LEN, KYBER_SECRET_KEY_LEN,
};

verus! {

/// Whether messages can be encrypted and decrypted in `state`.
pub open spec fn usable(state: RatchetState) -> bool {
    state == RatchetState::Active || state == RatchetState::KeyExchanged
}

/// A session as plain values.
#[verifier::ext_equal]
pub struct SessionView {
    pub state: RatchetState,
    pub root_key: Seq<u8>,
    /// The local DH secret key.
    pub dh_send_key: Option<Seq<u8>>,
    /// The peer's DH public key.
    pub dh_recv_key: Option<Seq<u8>>,
    /// The local post-quantum secret key.
    pub pq_send_key: Option<Seq<u8>>,
    /// The peer's post-quantum public key.
    pub pq_recv_key: Option<Seq<u8>>,
    pub send_chain_key: Option<Seq<u8>>,
    pub recv_chain_key: Option<Seq<u8>>,
    /// The number of the last message sent in the current send chain.
    pub send_counter: u64,
    /// The highest message number received in the current receive chain.
    pub recv_counter: u64,
    /// How many messages the send chain before the current one carried.
    pub previous_chain_length: u64,
    /// Which receive chain is current.
    pub recv_chain_id: u64,
    /// The skipped message keys, oldest first.
    pub skipped: CacheView,
    pub max_skip: usize,
    pub max_cache: usize,
    pub pq_rekey_period: u64,
    /// Whether the next message announces the local DH public key.
    pub announce_dh: bool,
    /// The post-quantum ciphertext that the next message carries.
    pub pending_pq_ciphertext: Option<Seq<u8>>,
    /// The post-quantum ciphertext of the peer that was followed last.
    pub followed_pq_ciphertext: Option<Seq<u8>>,
}

/// Thirty-two zero bytes: the root key of a session that holds no secret.
pub open spec fn zero_key() -> Seq<u8> {
    Seq::new(32, |i: int| 0u8)
}

/// A session that has not been set up.
pub open spec fn fresh_session(max_skip: usize, max_cache: usize, pq_rekey_period: u64)
    -> SessionView {
    SessionView {
        state: RatchetState::Uninitialized,
        root_key: zero_key(),
        dh_send_key: None,
        dh_recv_key: None,
        pq_send_key: None,
        pq_recv_key: None,
        send_chain_key: None,
        recv_chain_key: None,
        send_counter: 0,
        recv_counter: 0,
        previous_chain_length: 0,
        recv_chain_id: 0,
        skipped: CacheView::empty(),
        max_skip,
        max_cache,
        pq_rekey_period,
        announce_dh: false,
        pending_pq_ciphertext: None,
        followed_pq_ciphertext: None,
    }
}

/// What holds of every session: the cache is well formed and holds no key
/// ahead of the receive counter, and the rekey period is not zero.
pub open spec fn session_wf(s: SessionView) -> bool {
    &&& cache_wf(s.skipped, s.max_cache as nat)
    &&& cache_behind(s.skipped, s.recv_chain_id, s.recv_counter)
    &&& s.pq_rekey_period >= 1
}

/// The session after the initiator's setup with the fresh DH secret
/// `dh_secret` and the encapsulation `(pq_ciphertext, pq_secret)`.
pub open spec fn sender_initialized(
    s: SessionView,
    shared_secret: Seq<u8>,
    peer_dh_public: Seq<u8>,
    peer_pq_public: Seq<u8>,
    dh_secret: Seq<u8>,
    pq_ciphertext: Seq<u8>,
    pq_secret: Seq<u8>,
) -> SessionView {
    let root = initial_root_key(shared_secret);
    let combined = combined_secret(x25519_shared(dh_secret, peer_dh_public), pq_secret);
    SessionView {
        state: RatchetState::Initialized,
        root_key: stepped_root_key(root, combined),
        send_chain_key: Some(stepped_chain_key(root, combined)),
        dh_send_key: Some(dh_secret),
        dh_recv_key: Some(peer_dh_public),
        pq_recv_key: Some(peer_pq_public),
        announce_dh: true,
        pending_pq_ciphertext: Some(pq_ciphertext),
        ..s
    }
}

/// The session after the responder's setup.
pub open spec fn receiver_initialized(
    s: SessionView,
    shared_secret: Seq<u8>,
    dh_secret: Seq<u8>,
    pq_secret: Seq<u8>,
) -> SessionView {
    SessionView {
        state: RatchetState::Initialized,
        root_key: initial_root_key(shared_secret),
        dh_send_key: Some(dh_secret),
        pq_send_key: Some(pq_secret),
        ..s
    }
}

/// The responder's session after it took in the initiator's DH public key
/// and post-quantum ciphertext.
pub open spec fn handshake_accepted(
    s: SessionView,
    peer_dh_public: Seq<u8>,
    pq_ciphertext: Seq<u8>,
) -> SessionView {
    let combined = combined_secret(
        x25519_shared(s.dh_send_key.unwrap(), peer_dh_public),
        kyber768_decapsulated(pq_ciphertext, s.pq_send_key.unwrap()),
    );
    SessionView {
        state: RatchetState::KeyExchanged,
        root_key: stepped_root_key(s.root_key, combined),
        recv_chain_key: Some(stepped_chain_key(s.root_key, combined)),
        dh_recv_key: Some(peer_dh_public),
        followed_pq_ciphertext: Some(pq_ciphertext),
        ..s
    }
}

/// The session after a DH ratchet step with the fresh local secret `dh_secret`.
pub open spec fn dh_ratcheted(s: SessionView, peer_dh_public: Seq<u8>, dh_secret: Seq<u8>)
    -> SessionView {
    let dh = x25519_shared(dh_secret, peer_dh_public);
    SessionView {
        state: RatchetState::Active,
        root_key: stepped_root_key(s.root_key, dh),
        send_chain_key: Some(stepped_chain_key(s.root_key, dh)),
        dh_send_key: Some(dh_secret),
        dh_recv_key: Some(peer_dh_public),
        previous_chain_length: s.send_counter,
        send_counter: 0,
        announce_dh: true,
        ..s
    }
}

/// The session after it followed the peer's DH ratchet step.
pub open spec fn dh_ratchet_followed(s: SessionView, peer_dh_public: Seq<u8>) -> SessionView {
    let dh = x25519_shared(s.dh_send_key.unwrap(), peer_dh_public);
    SessionView {
        state: RatchetState::Active,
        root_key: stepped_root_key(s.root_key, dh),
        recv_chain_key: Some(stepped_chain_key(s.root_key, dh)),
        dh_recv_key: Some(peer_dh_public),
        recv_counter: 0,
        recv_chain_id: (s.recv_chain_id + 1) as u64,
        ..s
    }
}

/// The session after a post-quantum ratchet step with the fresh local
/// secret key `pq_secret_key` and the encapsulation `(pq_ciphertext, pq_secret)`.
pub open spec fn pq_ratcheted(
    s: SessionView,
    peer_pq_public: Seq<u8>,
    pq_secret_key: Seq<u8>,
    pq_ciphertext: Seq<u8>,
    pq_secret: Seq<u8>,
) -> SessionView {
    SessionView {
        root_key: stepped_root_key(s.root_key, pq_secret),
        recv_chain_key: Some(stepped_chain_key(s.root_key, pq_secret)),
        pq_send_key: Some(pq_secret_key),
        pq_recv_key: Some(peer_pq_public),
        pending_pq_ciphertext: Some(pq_ciphertext),
        ..s
    }
}

/// The session after it followed the peer's post-quantum ratchet step.
pub open spec fn pq_ratchet_followed(s: SessionView, pq_ciphertext: Seq<u8>) -> SessionView {
    let secret = kyber768_decapsulated(pq_ciphertext, s.pq_send_key.unwrap());
    SessionView {
        root_key: stepped_root_key(s.root_key, secret),
        send_chain_key: Some(stepped_chain_key(s.root_key, secret)),
        followed_pq_ciphertext: Some(pq_ciphertext),
        ..s
    }
}

/// The session after its secrets were wiped: the root key is zero, and
/// the chain keys, the local secret keys and the cached keys are gone.
pub open spec fn compromised(s: SessionView) -> SessionView {
    SessionView {
        state: RatchetState::Compromised,
        root_key: zero_key(),
        dh_send_key: None,
        pq_send_key: None,
        send_chain_key: None,
        recv_chain_key: None,
        skipped: CacheView::empty(),
        ..s
    }
}

/// Why a ratchet step is refused in a session's state, if it is.
pub open spec fn lifecycle_error(s: SessionView) -> Option<RatchetError> {
    if s.state == RatchetState::Uninitialized {
        Some(RatchetError::NotInitialized)
    } else if s.state == RatchetState::Compromised {
        Some(RatchetError::SessionCompromised)
    } else {
        None
    }
}

/// The cache after `steps` keys were walked over from `chain_key`, the first
/// of them for message `first`: each is put in under its message number, in order.
pub open spec fn walked_cache(
    cache: CacheView,
    capacity: nat,
    chain_id: u64,
    first: u64,
    chain_key: Seq<u8>,
    steps: nat,
) -> CacheView
    decreases steps,
{
    if steps == 0 {
        cache
    } else {
        let before = walked_cache(cache, capacity, chain_id, first, chain_key, (steps - 1) as nat);
        cache_with(
            before,
            capacity,
            MessageId { chain_id, message_number: (first + steps - 1) as u64 },
            message_key_of(chain_key_after(chain_key, (steps - 1) as nat)),
        )
    }
}

/// Walking keeps a cache well formed.
pub proof fn lemma_walked_cache_wf(
    cache: CacheView,
    capacity: nat,
    chain_id: u64,
    first: u64,
    chain_key: Seq<u8>,
    steps: nat,
)
    requires
        cache_wf(cache, capacity),
    ensures
        cache_wf(walked_cache(cache, capacity, chain_id, first, chain_key, steps), capacity),
    decreases steps,
{
    if steps > 0 {
        lemma_walked_cache_wf(cache, capacity, chain_id, first, chain_key, (steps - 1) as nat);
        lemma_cache_with_wf(
            walked_cache(cache, capacity, chain_id, first, chain_key, (steps - 1) as nat),
            capacity,
            MessageId { chain_id, message_number: (first + steps - 1) as u64 },
            message_key_of(chain_key_after(chain_key, (steps - 1) as nat)),
        );
    }
}

/// A cache that is behind the message before `first` is, after a walk of
/// `steps` messages from `first`, behind the last message walked over.
pub proof fn lemma_walked_cache_behind(
    cache: CacheView,
    capacity: nat,
    chain_id: u64,
    first: u64,
    chain_key: Seq<u8>,
    steps: nat,
    counter: u64,
)
    requires
        first >= 1,
        cache_behind(cache, chain_id, (first - 1) as u64),
        first + steps - 1 <= counter,
    ensures
        cache_behind(
            walked_cache(cache, capacity, chain_id, first, chain_key, steps),
            chain_id,
            counter,
        ),
    decreases steps,
{
    if steps == 0 {
        assert forall|i: int| 0 <= i < cache.len() implies (#[trigger] cache[i]).0.chain_id
            < chain_id || (cache[i].0.chain_id == chain_id && cache[i].0.message_number
            <= counter) by {}
    } else {
        lemma_walked_cache_behind(
            cache,
            capacity,
            chain_id,
            first,
            chain_key,
            (steps - 1) as nat,
            counter,
        );
        lemma_cache_behind_kept(
            walked_cache(cache, capacity, chain_id, first, chain_key, (steps - 1) as nat),
            capacity,
            chain_id,
            counter,
            MessageId { chain_id, message_number: (first + steps - 1) as u64 },
            message_key_of(chain_key_after(chain_key, (steps - 1) as nat)),
        );
    }
}

/// The identifier of message `number` in the session's current receive chain.
pub open spec fn recv_id(s: SessionView, number: u64) -> MessageId {
    MessageId { chain_id: s.recv_chain_id, message_number: number }
}

/// Why no key can be had for message `number`, if none can.
pub open spec fn resolution_error(s: SessionView, number: u64) -> Option<RatchetError> {
    if s.state == RatchetState::Compromised {
        Some(RatchetError::SessionCompromised)
    } else if cache_holds(s.skipped, recv_id(s, number)) {
        None
    } else if number <= s.recv_counter {
        Some(RatchetError::ReplayDetected)
    } else if s.recv_chain_key is None {
        Some(RatchetError::NoReceiveChain)
    } else if number - (s.recv_counter + 1) > s.max_skip {
        Some(RatchetError::TooManySkippedMessages)
    } else {
        None
    }
}

/// The key for message `number`, where one can be had: the cached one, or
/// the one that the receive chain reaches after the skipped messages.
pub open spec fn resolved_key(s: SessionView, number: u64) -> Seq<u8> {
    if cache_holds(s.skipped, recv_id(s, number)) {
        cache_key(s.skipped, recv_id(s, number))
    } else {
        message_key_of(
            chain_key_after(s.recv_chain_key.unwrap(), (number - (s.recv_counter + 1)) as nat),
        )
    }
}

/// The session after the key for message `number` was handed out: a cached
/// key has left the cache; otherwise the chain stands behind message
/// `number`, the counter at `number`, and the keys of the skipped messages
/// are cached.
pub open spec fn after_resolution(s: SessionView, number: u64) -> SessionView {
    if cache_holds(s.skipped, recv_id(s, number)) {
        SessionView { skipped: cache_without(s.skipped, recv_id(s, number)), ..s }
    } else {
        let steps = (number - (s.recv_counter + 1)) as nat;
        SessionView {
            recv_chain_key: Some(
                next_chain_key(chain_key_after(s.recv_chain_key.unwrap(), steps)),
            ),
            recv_counter: number,
            skipped: walked_cache(
                s.skipped,
                s.max_cache as nat,
                s.recv_chain_id,
                (s.recv_counter + 1) as u64,
                s.recv_chain_key.unwrap(),
                steps,
            ),
            ..s
        }
    }
}

/// The view of an optional key.
pub open spec fn key_view(key: Option<[u8; 32]>) -> Option<Seq<u8>> {
    match key {
        Some(k) => Some(k@),
        None => None,
    }
}

/// The view of an optional byte string.
pub open spec fn bytes_view(bytes: Option<Vec<u8>>) -> Option<Seq<u8>> {
    match bytes {
        Some(b) => Some(b@),
        None => None,
    }
}

/// Whether `after` is `before` after the initiator's setup with some fresh
/// DH secret and some encapsulation to the peer's post-quantum key.
pub open spec fn is_sender_initialization(
    before: SessionView,
    after: SessionView,
    shared_secret: Seq<u8>,
    peer_dh_public: Seq<u8>,
    peer_pq_public: Seq<u8>,
) -> bool {
    exists|dh_secret: Seq<u8>, pq_ciphertext: Seq<u8>, pq_secret: Seq<u8>|
        after == #[trigger] sender_initialized(
            before,
            shared_secret,
            peer_dh_public,
            peer_pq_public,
            dh_secret,
            pq_ciphertext,
            pq_secret,
        )
}

/// Whether the initiator's setup may be refused with the error `e`: the
/// session was set up before; or the peer's post-quantum key has the wrong
/// length; or, with everything in order, the operating system gave no
/// random bytes.
pub open spec fn may_refuse_setup(s: SessionView, peer_pq_public: Seq<u8>, e: RatchetError) -> bool {
    ||| (e == RatchetError::AlreadyInitialized && s.state != RatchetState::Uninitialized)
    ||| (e == RatchetError::InvalidKey && s.state == RatchetState::Uninitialized
        && peer_pq_public.len() != KYBER_PUBLIC_KEY_LEN)
    ||| (e == RatchetError::EntropyUnavailable && s.state == RatchetState::Uninitialized
        && peer_pq_public.len() == KYBER_PUBLIC_KEY_LEN)
}

/// Whether `after` is `before` after a DH ratchet step with some fresh local secret.
pub open spec fn is_dh_ratchet(before: SessionView, after: SessionView, peer_dh_public: Seq<u8>)
    -> bool {
    exists|dh_secret: Seq<u8>| after == #[trigger] dh_ratcheted(before, peer_dh_public, dh_secret)
}

/// Whether `after` is `before` after a post-quantum ratchet step with some
/// fresh local key pair and some encapsulation to the peer's key.
pub open spec fn is_pq_ratchet(before: SessionView, after: SessionView, peer_pq_public: Seq<u8>)
    -> bool {
    exists|pq_secret_key: Seq<u8>, pq_ciphertext: Seq<u8>, pq_secret: Seq<u8>|
        after == #[trigger] pq_ratcheted(
            before,
            peer_pq_public,
            pq_secret_key,
            pq_ciphertext,
            pq_secret,
        )
}

/// Why the responder cannot take in a handshake, if it cannot.
pub open spec fn handshake_error(s: SessionView, pq_ciphertext: Seq<u8>) -> Option<RatchetError> {
    if lifecycle_error(s) is Some {
        lifecycle_error(s)
    } else if s.state != RatchetState::Initialized {
        Some(RatchetError::AlreadyInitialized)
    } else if s.dh_send_key is None || s.pq_send_key is None {
        Some(RatchetError::NotInitialized)
    } else if pq_ciphertext.len() != KYBER_CIPHERTEXT_LEN || s.pq_send_key.unwrap().len()
        != KYBER_SECRET_KEY_LEN {
        Some(RatchetError::InvalidKey)
    } else {
        None
    }
}

/// Why the key exchange cannot be confirmed, if it cannot.
pub open spec fn confirmation_error(s: SessionView) -> Option<RatchetError> {
    if lifecycle_error(s) is Some {
        lifecycle_error(s)
    } else if s.send_chain_key is None && s.recv_chain_key is None {
        Some(RatchetError::NoSendChain)
    } else {
        None
    }
}

/// The session after its key exchange was confirmed.
pub open spec fn key_exchange_confirmed(s: SessionView) -> SessionView {
    if s.state == RatchetState::Initialized {
        SessionView { state: RatchetState::KeyExchanged, ..s }
    } else {
        s
    }
}

/// Why the session cannot follow the peer's DH ratchet step, if it cannot.
pub open spec fn dh_follow_error(s: SessionView) -> Option<RatchetError> {
    if lifecycle_error(s) is Some {
        lifecycle_error(s)
    } else if s.dh_send_key is None {
        Some(RatchetError::NotInitialized)
    } else if s.recv_chain_id == u64::MAX {
        Some(RatchetError::CounterExhausted)
    } else {
        None
    }
}

/// Why the session cannot follow the peer's post-quantum ratchet step, if it cannot.
pub open spec fn pq_follow_error(s: SessionView, pq_ciphertext: Seq<u8>) -> Option<RatchetError> {
    if lifecycle_error(s) is Some {
        lifecycle_error(s)
    } else if s.pq_send_key is None {
        Some(RatchetError::NotInitialized)
    } else if pq_ciphertext.len() != KYBER_CIPHERTEXT_LEN || s.pq_send_key.unwrap().len()
        != KYBER_SECRET_KEY_LEN {
        Some(RatchetError::InvalidKey)
    } else {
        None
    }
}

/// Why no send message key can be had, if none can.
pub open spec fn send_key_error(s: SessionView) -> Option<RatchetError> {
    if s.state == RatchetState::Compromised {
        Some(RatchetError::SessionCompromised)
    } else if s.send_chain_key is None {
        Some(RatchetError::NoSendChain)
    } else {
        None
    }
}

/// The session after one step of its send chain.
pub open spec fn send_chain_stepped(s: SessionView) -> SessionView {
    SessionView { send_chain_key: Some(next_chain_key(s.send_chain_key.unwrap())), ..s }
}

/// The keys that a walk of `steps` messages passes, the first of them for
/// message `first`, each under its identifier.
pub open spec fn walk_entries_match(
    entries: Seq<SkippedKeyEntry>,
    chain_id: u64,
    first: u64,
    chain_key: Seq<u8>,
    steps: nat,
) -> bool {
    &&& entries.len() == steps
    &&& forall|i: int|
        0 <= i < steps ==> (#[trigger] entries[i]).id == (MessageId {
            chain_id,
            message_number: (first + i) as u64,
        }) && entries[i].key@ == message_key_of(chain_key_after(chain_key, i as nat))
}

/// Whether signatures made with `secret_key` are accepted under `public_key`.
pub open spec fn signer_valid(public_key: Seq<u8>, secret_key: Seq<u8>) -> bool {
    &&& secret_key.len() == DILITHIUM_SECRET_KEY_LEN
    &&& forall|m: Seq<u8>|
        dilithium2_accepts(#[trigger] dilithium2_signature(m, secret_key), m, public_key)
}

/// The plaintext as it is encrypted: a flag byte, one for cover traffic and
/// zero for a real message, then the payload.
pub open spec fn flagged_plaintext(plaintext: Seq<u8>, is_dummy: bool) -> Seq<u8> {
    seq![if is_dummy { 1u8 } else { 0u8 }] + plaintext
}

/// The header of the next message: it announces the local DH public key on
/// the first message after that key changed, carries the post-quantum
/// ciphertext that waits to be sent, and numbers the message one past the
/// send counter.
pub open spec fn next_header(s: SessionView, timestamp: u64) -> HeaderView {
    HeaderView {
        dh_public_key: if s.announce_dh && s.dh_send_key is Some {
            Some(x25519_public(s.dh_send_key.unwrap()))
        } else {
            None
        },
        pq_ciphertext: s.pending_pq_ciphertext,
        previous_chain_length: s.previous_chain_length,
        message_number: (s.send_counter + 1) as u64,
        timestamp,
    }
}

/// Why a session cannot encrypt a plaintext, if it cannot.
pub open spec fn sealing_error(s: SessionView, plaintext: Seq<u8>) -> Option<RatchetError> {
    if s.state == RatchetState::Compromised {
        Some(RatchetError::SessionCompromised)
    } else if !usable(s.state) {
        Some(RatchetError::RatchetNotReady)
    } else if s.send_chain_key is None {
        Some(RatchetError::NoSendChain)
    } else if s.send_counter == u64::MAX {
        Some(RatchetError::CounterExhausted)
    } else if plaintext.len() > MAX_PLAINTEXT_LEN {
        Some(RatchetError::MessageTooLong)
    } else {
        None
    }
}

/// The envelope that a session makes of a plaintext with the nonce,
/// timestamp and one-time signing key handed in.
pub open spec fn sealed_envelope(
    s: SessionView,
    plaintext: Seq<u8>,
    associated_data: Seq<u8>,
    is_dummy: bool,
    nonce: Seq<u8>,
    timestamp: u64,
    signer_public: Seq<u8>,
    signer_secret: Seq<u8>,
) -> EnvelopeView {
    let header = next_header(s, timestamp);
    let ciphertext = aead_seal(
        message_key_of(s.send_chain_key.unwrap()),
        nonce,
        associated_data + header_bytes(header),
        flagged_plaintext(plaintext, is_dummy),
    );
    EnvelopeView {
        header,
        nonce,
        ciphertext,
        mac: mac_of(s.root_key, header_bytes(header), ciphertext),
        ephemeral_public_key: signer_public,
        ephemeral_signature: dilithium2_signature(ciphertext, signer_secret),
    }
}

/// The session after it encrypted one message.
pub open spec fn after_sealing(s: SessionView) -> SessionView {
    SessionView {
        send_chain_key: Some(next_chain_key(s.send_chain_key.unwrap())),
        send_counter: (s.send_counter + 1) as u64,
        announce_dh: false,
        pending_pq_ciphertext: None,
        ..s
    }
}

/// Whether `envelope` is what `before` makes of the plaintext with some
/// valid one-time signing key, and `after` the session behind it.
pub open spec fn is_sealing(
    before: SessionView,
    after: SessionView,
    envelope: EnvelopeView,
    plaintext: Seq<u8>,
    associated_data: Seq<u8>,
    is_dummy: bool,
) -> bool {
    &&& sealing_error(before, plaintext) is None
    &&& after == after_sealing(before)
    &&& envelope.nonce.len() == 12
    &&& opened_by(before, envelope, plaintext, associated_data, is_dummy)
    &&& exists|signer_secret: Seq<u8>|
        signer_valid(envelope.ephemeral_public_key, signer_secret) && envelope
            == #[trigger] sealed_envelope(
            before,
            plaintext,
            associated_data,
            is_dummy,
            envelope.nonce,
            envelope.header.timestamp,
            envelope.ephemeral_public_key,
            signer_secret,
        )
}

/// Whether the next message is due to carry a fresh encapsulation: the
/// peer's post-quantum key is known, no ciphertext waits to be sent, and the
/// message number is a multiple of the rekey period.
pub open spec fn pq_rekey_due(s: SessionView) -> bool {
    &&& s.pq_recv_key is Some
    &&& s.pending_pq_ciphertext is None
    &&& s.pq_rekey_period >= 1
    &&& (s.send_counter + 1) % (s.pq_rekey_period as int) == 0
}

/// Whether a rekey is due that cannot be made: the peer's post-quantum key
/// that the session holds has the wrong length.
pub open spec fn rekey_refused(s: SessionView) -> bool {
    pq_rekey_due(s) && s.pq_recv_key.unwrap().len() != KYBER_PUBLIC_KEY_LEN
}

/// Whether encrypting `plaintext` may be refused with the error `e`: it is
/// the session's own refusal; or the operating system gave no random
/// bytes; or a rekey is due that cannot be made, and the error is
/// `InvalidKey`.
pub open spec fn may_refuse(s: SessionView, plaintext: Seq<u8>, e: RatchetError) -> bool {
    sealing_error(s, plaintext) == Some(e) || e == RatchetError::EntropyUnavailable || (e
        == RatchetError::InvalidKey && rekey_refused(s))
}

/// Whether `envelope` and `after` are what `encrypt` makes of `before`:
/// where a rekey is due, a post-quantum ratchet step comes first.
pub open spec fn is_encryption(
    before: SessionView,
    after: SessionView,
    envelope: EnvelopeView,
    plaintext: Seq<u8>,
    associated_data: Seq<u8>,
    is_dummy: bool,
) -> bool {
    if pq_rekey_due(before) {
        exists|stepped: SessionView|
            is_pq_ratchet(before, stepped, before.pq_recv_key.unwrap()) && #[trigger] is_sealing(
                stepped,
                after,
                envelope,
                plaintext,
                associated_data,
                is_dummy,
            )
    } else {
        is_sealing(before, after, envelope, plaintext, associated_data, is_dummy)
    }
}

/// The payload that an envelope opens to under the key the session
/// resolves for it, or nothing where the AEAD tag does not match.
pub open spec fn opened_payload(s: SessionView, envelope: EnvelopeView, associated_data: Seq<u8>)
    -> Option<Seq<u8>> {
    aead_open(
        resolved_key(s, envelope.header.message_number),
        envelope.nonce,
        associated_data + header_bytes(envelope.header),
        envelope.ciphertext,
    )
}

/// Why an envelope is refused, if it is. The checks come in this order: the
/// session's state, the MAC, the message number, the AEAD tag, the
/// signature, the pinned key.
pub open spec fn decryption_error(
    s: SessionView,
    pins: PinView,
    envelope: EnvelopeView,
    associated_data: Seq<u8>,
    sender: Seq<char>,
) -> Option<RatchetError> {
    if s.state == RatchetState::Compromised {
        Some(RatchetError::SessionCompromised)
    } else if !usable(s.state) {
        Some(RatchetError::RatchetNotReady)
    } else if envelope.mac != mac_of(
        s.root_key,
        header_bytes(envelope.header),
        envelope.ciphertext,
    ) {
        Some(RatchetError::AuthenticationFailed)
    } else if resolution_error(s, envelope.header.message_number) is Some {
        resolution_error(s, envelope.header.message_number)
    } else if opened_payload(s, envelope, associated_data) is None {
        Some(RatchetError::AuthenticationFailed)
    } else if opened_payload(s, envelope, associated_data).unwrap().len() == 0 {
        Some(RatchetError::AuthenticationFailed)
    } else if !dilithium2_accepts(
        envelope.ephemeral_signature,
        envelope.ciphertext,
        envelope.ephemeral_public_key,
    ) {
        Some(RatchetError::SignatureInvalid)
    } else if !pin_admits(pins, sender, envelope.ephemeral_public_key) {
        Some(RatchetError::EphemeralKeyMismatch)
    } else {
        None
    }
}

/// What an accepted envelope yields: nothing for cover traffic, else the
/// payload behind the flag byte.
pub open spec fn decrypted_payload(
    s: SessionView,
    envelope: EnvelopeView,
    associated_data: Seq<u8>,
) -> Option<Seq<u8>> {
    let opened = opened_payload(s, envelope, associated_data).unwrap();
    if opened[0] != 0 {
        None
    } else {
        Some(opened.subrange(1, opened.len() as int))
    }
}

/// Whether an envelope opens to the flagged plaintext under the message key
/// that the sending session drew for it.
pub open spec fn opened_by(
    sender: SessionView,
    envelope: EnvelopeView,
    plaintext: Seq<u8>,
    associated_data: Seq<u8>,
    is_dummy: bool,
) -> bool {
    aead_open(
        message_key_of(sender.send_chain_key.unwrap()),
        envelope.nonce,
        associated_data + header_bytes(envelope.header),
        envelope.ciphertext,
    ) == Some(flagged_plaintext(plaintext, is_dummy))
}

/// Two DH key pairs agree: each secret key with the other's public key
/// gives the same shared secret.
pub open spec fn dh_agrees(secret: Seq<u8>, other_secret: Seq<u8>) -> bool {
    x25519_shared(secret, x25519_public(other_secret)) == x25519_shared(
        other_secret,
        x25519_public(secret),
    )
}

/// Whether a header announces a DH public key other than the one the
/// session holds for its peer.
pub open spec fn announces_new_dh(s: SessionView, header: HeaderView) -> bool {
    header.dh_public_key is Some && s.dh_recv_key != header.dh_public_key
}

/// Whether a header completes the handshake of a responder that was set up
/// and waits for the initiator's first message.
pub open spec fn completes_handshake(s: SessionView, header: HeaderView) -> bool {
    s.state == RatchetState::Initialized && header.dh_public_key is Some && header.pq_ciphertext
        is Some && s.recv_chain_key is None
}

/// Whether a header carries a post-quantum ciphertext other than the one
/// the session followed last.
pub open spec fn carries_new_pq(s: SessionView, header: HeaderView) -> bool {
    header.pq_ciphertext is Some && s.followed_pq_ciphertext != header.pq_ciphertext
}

/// Whether a header brings a DH public key of the peer that the session
/// did not hold: the initiator's first key, or a new one. The holder of the
/// session then owes a DH ratchet step of its own with that key before it
/// next sends.
pub open spec fn dh_step_owed(s: SessionView, header: HeaderView) -> bool {
    announces_new_dh(s, header)
}

/// The session after the DH step that a header asks for, if it asks for one.
pub open spec fn dh_followed(s: SessionView, header: HeaderView) -> SessionView {
    if announces_new_dh(s, header) {
        dh_ratchet_followed(s, header.dh_public_key.unwrap())
    } else {
        s
    }
}

/// Why the ratchet material of a header cannot be followed, if it cannot.
pub open spec fn follow_error(s: SessionView, header: HeaderView) -> Option<RatchetError> {
    if completes_handshake(s, header) {
        handshake_error(s, header.pq_ciphertext.unwrap())
    } else if announces_new_dh(s, header) && dh_follow_error(s) is Some {
        dh_follow_error(s)
    } else if carries_new_pq(s, header) {
        pq_follow_error(dh_followed(s, header), header.pq_ciphertext.unwrap())
    } else {
        None
    }
}

/// The session after it followed the ratchet material of a header: the
/// handshake where the header completes one; else the DH step first, where
/// the header announces a new DH key, then the post-quantum step, where the
/// header carries a ciphertext that was not followed yet.
pub open spec fn followed(s: SessionView, header: HeaderView) -> SessionView {
    if completes_handshake(s, header) {
        handshake_accepted(s, header.dh_public_key.unwrap(), header.pq_ciphertext.unwrap())
    } else if carries_new_pq(s, header) {
        pq_ratchet_followed(dh_followed(s, header), header.pq_ciphertext.unwrap())
    } else {
        dh_followed(s, header)
    }
}

/// Why a message is refused on receipt, if it is.
pub open spec fn receipt_error(
    s: SessionView,
    pins: PinView,
    envelope: EnvelopeView,
    associated_data: Seq<u8>,
    sender: Seq<char>,
) -> Option<RatchetError> {
    if follow_error(s, envelope.header) is Some {
        follow_error(s, envelope.header)
    } else {
        decryption_error(followed(s, envelope.header), pins, envelope, associated_data, sender)
    }
}

} // verus!

//! What holds of the ratchet across calls: in-order round trips, replay
//! refusal, out-of-order delivery from the cache, the skip limit, and MAC
//! tampering.

use vstd::prelude::*;

use crate::crypto::enhanced_ratchet::RatchetState;
use crate::crypto::envelope::{header_bytes, EnvelopeView};
use crate::crypto::kdf::{chain_key_after, mac_of, message_key_of};
use crate::crypto::session_model::{
    dh_agrees,
    after_resolution, after_sealing, announces_new_dh, carries_new_pq, completes_handshake,
    compromised, confirmation_error, decrypted_payload, decryption_error, dh_follow_error,
    dh_ratchet_followed, dh_ratcheted, flagged_plaintext, followed, handshake_accepted,
    handshake_error, is_sealing, key_exchange_confirmed, lemma_walked_cache_behind,
    lemma_walked_cache_wf, lifecycle_error, opened_payload, pq_follow_error, pq_ratchet_followed,
    pq_ratcheted, receipt_error, receiver_initialized, recv_id, resolution_error, resolved_key,
    sealed_envelope, sealing_error, send_chain_stepped, send_key_error, sender_initialized,
    session_wf, signer_valid, usable, walked_cache, SessionView,
};
use crate::crypto::skipped_keys::{
    cache_behind, cache_holds, cache_key, cache_position, cache_wf, cache_with, cache_without,
    lemma_cache_position, lemma_cache_with_wf, lemma_cache_without_wf, CacheView, MessageId,
};
use crate::ephemeral_keys::{pin_admits, pins_after, PinView};
use crate::errors::RatchetError;
use crate::primitives::{
    dilithium2_accepts, dilithium2_signature, kyber768_decapsulated, x25519_public, x25519_shared,
};

verus! {

/// A receiver is in step with a sender: it can decrypt, holds the same root
/// key, its receive chain is the sender's send chain, and it has received
/// as many messages of that chain as the sender has sent.
pub open spec fn in_step(sender: SessionView, receiver: SessionView) -> bool {
    &&& usable(receiver.state)
    &&& receiver.root_key == sender.root_key
    &&& sender.send_chain_key is Some
    &&& receiver.recv_chain_key == sender.send_chain_key
    &&& receiver.recv_counter == sender.send_counter
}

/// A session that is behind its cache holds no key for the message after
/// its receive counter.
proof fn lemma_next_is_not_cached(s: SessionView, number: u64)
    requires
        session_wf(s),
        number > s.recv_counter,
    ensures
        !cache_holds(s.skipped, recv_id(s, number)),
{
    if cache_holds(s.skipped, recv_id(s, number)) {
        let p = cache_position(s.skipped, recv_id(s, number));
        assert(s.skipped[p].0 == recv_id(s, number));
    }
}

/// Round trip. What a sender encrypts, a receiver in step with it decrypts
/// to the same payload, or to nothing where it was cover traffic, provided
/// the registry admits the message's one-time key. Afterwards the receiver
/// is in step with the sender again, so the same holds of the next message.
pub proof fn law_round_trip(
    sender: SessionView,
    sender_after: SessionView,
    receiver: SessionView,
    pins: PinView,
    envelope: EnvelopeView,
    plaintext: Seq<u8>,
    associated_data: Seq<u8>,
    is_dummy: bool,
    sender_id: Seq<char>,
)
    requires
        session_wf(receiver),
        is_sealing(sender, sender_after, envelope, plaintext, associated_data, is_dummy),
        in_step(sender, receiver),
        pin_admits(pins, sender_id, envelope.ephemeral_public_key),
    ensures
        decryption_error(receiver, pins, envelope, associated_data, sender_id) is None,
        decrypted_payload(receiver, envelope, associated_data) == if is_dummy {
            None
        } else {
            Some(plaintext)
        },
        in_step(sender_after, after_resolution(receiver, envelope.header.message_number)),
        session_wf(after_resolution(receiver, envelope.header.message_number)),
{
    let number = envelope.header.message_number;
    let signer_secret = choose|signer_secret: Seq<u8>|
        signer_valid(envelope.ephemeral_public_key, signer_secret) && envelope
            == #[trigger] sealed_envelope(
            sender,
            plaintext,
            associated_data,
            is_dummy,
            envelope.nonce,
            envelope.header.timestamp,
            envelope.ephemeral_public_key,
            signer_secret,
        );
    assert(number == sender.send_counter + 1);
    lemma_next_is_not_cached(receiver, number);
    assert(resolution_error(receiver, number) is None);
    assert(chain_key_after(receiver.recv_chain_key.unwrap(), 0)
        == receiver.recv_chain_key.unwrap());
    assert(resolved_key(receiver, number) == message_key_of(sender.send_chain_key.unwrap()));
    let flagged = flagged_plaintext(plaintext, is_dummy);
    assert(opened_payload(receiver, envelope, associated_data) == Some(flagged));
    assert(flagged.len() == plaintext.len() + 1);
    assert(flagged[0] == if is_dummy { 1u8 } else { 0u8 });
    assert(flagged.subrange(1, flagged.len() as int) =~= plaintext);
    assert(envelope.ephemeral_signature == dilithium2_signature(
        envelope.ciphertext,
        signer_secret,
    ));
    assert(dilithium2_accepts(
        envelope.ephemeral_signature,
        envelope.ciphertext,
        envelope.ephemeral_public_key,
    ));
    lemma_after_resolution_wf(receiver, number);
}

/// Handing out a key keeps a session well formed.
pub proof fn lemma_after_resolution_wf(s: SessionView, number: u64)
    requires
        session_wf(s),
        resolution_error(s, number) is None,
    ensures
        session_wf(after_resolution(s, number)),
{
    let id = recv_id(s, number);
    if cache_holds(s.skipped, id) {
        lemma_cache_without_wf(s.skipped, s.max_cache as nat, id);
        crate::crypto::skipped_keys::lemma_cache_behind_kept(
            s.skipped,
            s.max_cache as nat,
            s.recv_chain_id,
            s.recv_counter,
            id,
            Seq::empty(),
        );
    } else {
        let first = (s.recv_counter + 1) as u64;
        let steps = (number - first) as nat;
        lemma_walked_cache_wf(
            s.skipped,
            s.max_cache as nat,
            s.recv_chain_id,
            first,
            s.recv_chain_key.unwrap(),
            steps,
        );
        lemma_walked_cache_behind(
            s.skipped,
            s.max_cache as nat,
            s.recv_chain_id,
            first,
            s.recv_chain_key.unwrap(),
            steps,
            number,
        );
    }
}

/// Replay refusal. An envelope that was accepted is refused as a replay
/// when it is delivered again, whether its key came from the chain or from
/// the cache. (That the refusal leaves counter and cache as they are is
/// part of what `decrypt` ensures.)
pub proof fn law_replay_is_refused(
    receiver: SessionView,
    pins: PinView,
    envelope: EnvelopeView,
    associated_data: Seq<u8>,
    sender_id: Seq<char>,
)
    requires
        session_wf(receiver),
        decryption_error(receiver, pins, envelope, associated_data, sender_id) is None,
    ensures
        decryption_error(
            after_resolution(receiver, envelope.header.message_number),
            pins_after(pins, sender_id, envelope.ephemeral_public_key),
            envelope,
            associated_data,
            sender_id,
        ) == Some(RatchetError::ReplayDetected),
{
    let number = envelope.header.message_number;
    let id = recv_id(receiver, number);
    let after = after_resolution(receiver, number);
    if cache_holds(receiver.skipped, id) {
        lemma_cache_without_wf(receiver.skipped, receiver.max_cache as nat, id);
        let p = cache_position(receiver.skipped, id);
        assert(receiver.skipped[p].0 == id);
        assert(number <= receiver.recv_counter);
    } else {
        let first = (receiver.recv_counter + 1) as u64;
        let steps = (number - first) as nat;
        let walked = after.skipped;
        if number > first {
            lemma_walked_cache_behind(
                receiver.skipped,
                receiver.max_cache as nat,
                receiver.recv_chain_id,
                first,
                receiver.recv_chain_key.unwrap(),
                steps,
                (number - 1) as u64,
            );
        }
        assert(!cache_holds(walked, recv_id(after, number))) by {
            if cache_holds(walked, recv_id(after, number)) {
                let p = cache_position(walked, recv_id(after, number));
                assert(walked[p].0 == recv_id(after, number));
            }
        }
    }
}

/// Skip limit. An envelope that is authentic but lies more than the skip
/// limit ahead of the receive counter is refused with
/// `TooManySkippedMessages`. (That the refusal leaves the chain as it is is
/// part of what `decrypt` ensures.)
pub proof fn law_skip_limit(
    receiver: SessionView,
    pins: PinView,
    envelope: EnvelopeView,
    associated_data: Seq<u8>,
    sender_id: Seq<char>,
)
    requires
        session_wf(receiver),
        usable(receiver.state),
        receiver.recv_chain_key is Some,
        envelope.mac == mac_of(
            receiver.root_key,
            header_bytes(envelope.header),
            envelope.ciphertext,
        ),
        envelope.header.message_number > receiver.recv_counter,
        envelope.header.message_number - (receiver.recv_counter + 1) > receiver.max_skip,
    ensures
        decryption_error(receiver, pins, envelope, associated_data, sender_id) == Some(
            RatchetError::TooManySkippedMessages,
        ),
{
    lemma_next_is_not_cached(receiver, envelope.header.message_number);
}

/// Tampering with the MAC. An envelope whose MAC field was altered is
/// refused with `AuthenticationFailed` by every session that would have
/// checked the untampered MAC successfully.
pub proof fn law_tampered_mac_is_refused(
    receiver: SessionView,
    pins: PinView,
    envelope: EnvelopeView,
    tampered_mac: Seq<u8>,
    associated_data: Seq<u8>,
    sender_id: Seq<char>,
)
    requires
        usable(receiver.state),
        envelope.mac == mac_of(
            receiver.root_key,
            header_bytes(envelope.header),
            envelope.ciphertext,
        ),
        tampered_mac != envelope.mac,
    ensures
        decryption_error(
            receiver,
            pins,
            EnvelopeView { mac: tampered_mac, ..envelope },
            associated_data,
            sender_id,
        ) == Some(RatchetError::AuthenticationFailed),
{
}

/// How many entries stand at or behind the entry for `id`: one for the
/// newest entry of the cache.
pub open spec fn cache_rank(cache: CacheView, id: MessageId) -> int {
    cache.len() - cache_position(cache, id)
}

/// An entry that is not the one taken out stays, with its key, and moves no
/// further from the end of the cache.
proof fn lemma_cache_without_other(cache: CacheView, capacity: nat, id: MessageId, other: MessageId)
    requires
        cache_wf(cache, capacity),
        cache_holds(cache, id),
        other != id,
    ensures
        cache_holds(cache_without(cache, other), id),
        cache_key(cache_without(cache, other), id) == cache_key(cache, id),
        cache_rank(cache_without(cache, other), id) <= cache_rank(cache, id),
{
    let base = cache_without(cache, other);
    lemma_cache_without_wf(cache, capacity, other);
    let p = cache_position(cache, id);
    assert(0 <= p < cache.len() && cache[p].0 == id);
    if cache_holds(cache, other) {
        let q = cache_position(cache, other);
        assert(0 <= q < cache.len() && cache[q].0 == other);
        let np = if p < q { p } else { p - 1 };
        assert(base[np] == cache[p]);
        lemma_cache_position(base, capacity, id, np);
    }
}

/// An entry within the newest `capacity - 1` survives the arrival of
/// another entry, with its key, and moves one place further from the end
/// at most.
proof fn lemma_cache_with_keeps(
    cache: CacheView,
    capacity: nat,
    id: MessageId,
    other: MessageId,
    key: Seq<u8>,
)
    requires
        cache_wf(cache, capacity),
        cache_holds(cache, id),
        other != id,
        cache_rank(cache, id) < capacity,
    ensures
        cache_holds(cache_with(cache, capacity, other, key), id),
        cache_key(cache_with(cache, capacity, other, key), id) == cache_key(cache, id),
        cache_rank(cache_with(cache, capacity, other, key), id) <= cache_rank(cache, id) + 1,
{
    let base = cache_without(cache, other);
    let out = cache_with(cache, capacity, other, key);
    lemma_cache_without_other(cache, capacity, id, other);
    lemma_cache_without_wf(cache, capacity, other);
    lemma_cache_with_wf(cache, capacity, other, key);
    let p = cache_position(base, id);
    assert(0 <= p < base.len() && base[p].0 == id);
    if base.len() >= capacity {
        assert(p >= 1);
        assert(out[p - 1] == base[p]);
        lemma_cache_position(out, capacity, id, p - 1);
    } else {
        assert(out[p] == base[p]);
        lemma_cache_position(out, capacity, id, p);
    }
}

/// After a walk, the key of a message walked over is cached, unless more
/// messages than the cache can hold were walked over after it.
pub proof fn lemma_walk_caches(
    cache: CacheView,
    capacity: nat,
    chain_id: u64,
    first: u64,
    chain_key: Seq<u8>,
    steps: nat,
    number: u64,
)
    requires
        cache_wf(cache, capacity),
        first + steps - 1 <= u64::MAX,
        first <= number < first + steps,
        first + steps - number <= capacity,
    ensures
        cache_holds(
            walked_cache(cache, capacity, chain_id, first, chain_key, steps),
            MessageId { chain_id, message_number: number },
        ),
        cache_key(
            walked_cache(cache, capacity, chain_id, first, chain_key, steps),
            MessageId { chain_id, message_number: number },
        ) == message_key_of(chain_key_after(chain_key, (number - first) as nat)),
        cache_rank(
            walked_cache(cache, capacity, chain_id, first, chain_key, steps),
            MessageId { chain_id, message_number: number },
        ) <= first + steps - number,
    decreases steps,
{
    let id = MessageId { chain_id, message_number: number };
    let before = walked_cache(cache, capacity, chain_id, first, chain_key, (steps - 1) as nat);
    let last = MessageId { chain_id, message_number: (first + steps - 1) as u64 };
    let last_key = message_key_of(chain_key_after(chain_key, (steps - 1) as nat));
    let out = walked_cache(cache, capacity, chain_id, first, chain_key, steps);
    assert(out == cache_with(before, capacity, last, last_key));
    lemma_walked_cache_wf(cache, capacity, chain_id, first, chain_key, (steps - 1) as nat);
    lemma_cache_with_wf(before, capacity, last, last_key);
    if number == first + steps - 1 {
        assert(id == last);
        let p = cache_position(out, id);
        assert(0 <= p < out.len() && out[p].0 == id);
        assert(out[out.len() - 1] == (last, last_key));
        lemma_cache_position(out, capacity, id, out.len() - 1);
    } else {
        lemma_walk_caches(
            cache,
            capacity,
            chain_id,
            first,
            chain_key,
            (steps - 1) as nat,
            number,
        );
        lemma_cache_with_keeps(before, capacity, id, last, last_key);
    }
}

/// Out-of-order delivery, first half. When a receiver walks its chain to a
/// message ahead, the key of every message it walks over is in the cache
/// afterwards, provided the cache can hold the messages from that one on;
/// and it is the key that a sender in step draws for that message.
pub proof fn law_skipped_keys_are_cached(receiver: SessionView, target: u64, skipped: u64)
    requires
        session_wf(receiver),
        resolution_error(receiver, target) is None,
        receiver.recv_counter < skipped < target,
        target - skipped <= receiver.max_cache,
    ensures
        cache_holds(
            after_resolution(receiver, target).skipped,
            recv_id(after_resolution(receiver, target), skipped),
        ),
        resolution_error(after_resolution(receiver, target), skipped) is None,
        resolved_key(after_resolution(receiver, target), skipped) == message_key_of(
            chain_key_after(
                receiver.recv_chain_key.unwrap(),
                (skipped - (receiver.recv_counter + 1)) as nat,
            ),
        ),
{
    lemma_next_is_not_cached(receiver, target);
    let first = (receiver.recv_counter + 1) as u64;
    lemma_walk_caches(
        receiver.skipped,
        receiver.max_cache as nat,
        receiver.recv_chain_id,
        first,
        receiver.recv_chain_key.unwrap(),
        (target - first) as nat,
        skipped,
    );
}

/// Out-of-order delivery, second half. A message that arrives late, after
/// the receiver has passed it, is decrypted with the cached key: where the
/// cache holds the key the message was encrypted with, the payload comes
/// back, the key leaves the cache, and chain and counter stay where they are.
pub proof fn law_late_message_is_served_from_cache(
    sender: SessionView,
    sender_after: SessionView,
    receiver: SessionView,
    pins: PinView,
    envelope: EnvelopeView,
    plaintext: Seq<u8>,
    associated_data: Seq<u8>,
    is_dummy: bool,
    sender_id: Seq<char>,
)
    requires
        session_wf(receiver),
        usable(receiver.state),
        is_sealing(sender, sender_after, envelope, plaintext, associated_data, is_dummy),
        receiver.root_key == sender.root_key,
        cache_holds(receiver.skipped, recv_id(receiver, envelope.header.message_number)),
        cache_key(receiver.skipped, recv_id(receiver, envelope.header.message_number))
            == message_key_of(sender.send_chain_key.unwrap()),
        pin_admits(pins, sender_id, envelope.ephemeral_public_key),
    ensures
        decryption_error(receiver, pins, envelope, associated_data, sender_id) is None,
        decrypted_payload(receiver, envelope, associated_data) == if is_dummy {
            None
        } else {
            Some(plaintext)
        },
        after_resolution(receiver, envelope.header.message_number).recv_counter
            == receiver.recv_counter,
        after_resolution(receiver, envelope.header.message_number).recv_chain_key
            == receiver.recv_chain_key,
        !cache_holds(
            after_resolution(receiver, envelope.header.message_number).skipped,
            recv_id(receiver, envelope.header.message_number),
        ),
{
    let number = envelope.header.message_number;
    let signer_secret = choose|signer_secret: Seq<u8>|
        signer_valid(envelope.ephemeral_public_key, signer_secret) && envelope
            == #[trigger] sealed_envelope(
            sender,
            plaintext,
            associated_data,
            is_dummy,
            envelope.nonce,
            envelope.header.timestamp,
            envelope.ephemeral_public_key,
            signer_secret,
        );
    let flagged = flagged_plaintext(plaintext, is_dummy);
    assert(opened_payload(receiver, envelope, associated_data) == Some(flagged));
    assert(flagged.len() == plaintext.len() + 1);
    assert(flagged[0] == if is_dummy { 1u8 } else { 0u8 });
    assert(flagged.subrange(1, flagged.len() as int) =~= plaintext);
    assert(dilithium2_accepts(
        dilithium2_signature(envelope.ciphertext, signer_secret),
        envelope.ciphertext,
        envelope.ephemeral_public_key,
    ));
    lemma_cache_without_wf(
        receiver.skipped,
        receiver.max_cache as nat,
        recv_id(receiver, number),
    );
}

/// Handshake. An initiator that was set up towards a responder's keys and
/// confirmed the exchange, and the responder that was set up with the same
/// shared secret and took in the initiator's DH public key and ciphertext,
/// are in step, provided their DH key pairs agree and the responder
/// decapsulates the secret that the initiator encapsulated.
pub proof fn law_handshake_puts_in_step(
    sender: SessionView,
    receiver: SessionView,
    shared_secret: Seq<u8>,
    sender_dh_secret: Seq<u8>,
    receiver_dh_secret: Seq<u8>,
    receiver_pq_public: Seq<u8>,
    receiver_pq_secret: Seq<u8>,
    pq_ciphertext: Seq<u8>,
    pq_secret: Seq<u8>,
)
    requires
        sender.state == RatchetState::Uninitialized,
        receiver.state == RatchetState::Uninitialized,
        sender.send_counter == receiver.recv_counter,
        dh_agrees(sender_dh_secret, receiver_dh_secret),
        kyber768_decapsulated(pq_ciphertext, receiver_pq_secret) == pq_secret,
    ensures
        in_step(
            key_exchange_confirmed(
                sender_initialized(
                    sender,
                    shared_secret,
                    x25519_public(receiver_dh_secret),
                    receiver_pq_public,
                    sender_dh_secret,
                    pq_ciphertext,
                    pq_secret,
                ),
            ),
            handshake_accepted(
                receiver_initialized(
                    receiver,
                    shared_secret,
                    receiver_dh_secret,
                    receiver_pq_secret,
                ),
                x25519_public(sender_dh_secret),
                pq_ciphertext,
            ),
        ),
{
}

/// DH ratchet. When a sender takes a DH ratchet step towards the
/// receiver's public key and the receiver follows it with the sender's new
/// public key, both hold the same root key again, and the receiver's new
/// receive chain is the sender's new send chain, at message zero, provided
/// their DH key pairs agree.
pub proof fn law_dh_ratchet_keeps_in_step(
    sender: SessionView,
    receiver: SessionView,
    sender_dh_secret: Seq<u8>,
)
    requires
        sender.root_key == receiver.root_key,
        receiver.dh_send_key is Some,
        dh_agrees(sender_dh_secret, receiver.dh_send_key.unwrap()),
    ensures
        in_step(
            dh_ratcheted(sender, x25519_public(receiver.dh_send_key.unwrap()), sender_dh_secret),
            dh_ratchet_followed(receiver, x25519_public(sender_dh_secret)),
        ),
{
}

/// Post-quantum ratchet. When one party takes a post-quantum ratchet step
/// and the other follows it with the ciphertext, both hold the same root
/// key again, and the follower's new send chain is the stepper's new
/// receive chain, provided the follower decapsulates the secret that the
/// stepper encapsulated.
pub proof fn law_pq_ratchet_keeps_roots_equal(
    stepper: SessionView,
    follower: SessionView,
    peer_pq_public: Seq<u8>,
    pq_secret_key: Seq<u8>,
    pq_ciphertext: Seq<u8>,
    pq_secret: Seq<u8>,
)
    requires
        stepper.root_key == follower.root_key,
        follower.pq_send_key is Some,
        kyber768_decapsulated(pq_ciphertext, follower.pq_send_key.unwrap()) == pq_secret,
    ensures
        pq_ratcheted(stepper, peer_pq_public, pq_secret_key, pq_ciphertext, pq_secret).root_key
            == pq_ratchet_followed(follower, pq_ciphertext).root_key,
        pq_ratcheted(
            stepper,
            peer_pq_public,
            pq_secret_key,
            pq_ciphertext,
            pq_secret,
        ).recv_chain_key == pq_ratchet_followed(follower, pq_ciphertext).send_chain_key,
        pq_ratcheted(
            stepper,
            peer_pq_public,
            pq_secret_key,
            pq_ciphertext,
            pq_secret,
        ).send_chain_key == stepper.send_chain_key,
        pq_ratchet_followed(follower, pq_ciphertext).recv_chain_key == follower.recv_chain_key,
{
}

/// A message without ratchet material is received as it is decrypted: where
/// the header announces no DH key that is new to the session and carries no
/// ciphertext that is new to it, receiving follows nothing.
pub proof fn law_receipt_without_material(
    receiver: SessionView,
    pins: PinView,
    envelope: EnvelopeView,
    associated_data: Seq<u8>,
    sender_id: Seq<char>,
)
    requires
        !completes_handshake(receiver, envelope.header),
        !announces_new_dh(receiver, envelope.header),
        !carries_new_pq(receiver, envelope.header),
    ensures
        followed(receiver, envelope.header) == receiver,
        receipt_error(receiver, pins, envelope, associated_data, sender_id) == decryption_error(
            receiver,
            pins,
            envelope,
            associated_data,
            sender_id,
        ),
{
}

/// Round trip of the first message. The first message of an initiator that
/// was set up and confirmed the exchange carries the handshake; a responder
/// that was set up with the same shared secret receives it, completes the
/// handshake from it and gets the payload, provided their DH key pairs
/// agree and the responder decapsulates the secret that the initiator
/// encapsulated.
pub proof fn law_first_message_round_trip(
    sender: SessionView,
    sender_after: SessionView,
    receiver: SessionView,
    pins: PinView,
    envelope: EnvelopeView,
    plaintext: Seq<u8>,
    associated_data: Seq<u8>,
    is_dummy: bool,
    sender_id: Seq<char>,
)
    requires
        session_wf(receiver),
        is_sealing(sender, sender_after, envelope, plaintext, associated_data, is_dummy),
        sender.announce_dh,
        sender.dh_send_key is Some,
        sender.pending_pq_ciphertext is Some,
        receiver.state == RatchetState::Initialized,
        receiver.recv_chain_key is None,
        handshake_error(receiver, sender.pending_pq_ciphertext.unwrap()) is None,
        in_step(
            sender,
            handshake_accepted(
                receiver,
                x25519_public(sender.dh_send_key.unwrap()),
                sender.pending_pq_ciphertext.unwrap(),
            ),
        ),
        pin_admits(pins, sender_id, envelope.ephemeral_public_key),
    ensures
        receipt_error(receiver, pins, envelope, associated_data, sender_id) is None,
        decrypted_payload(followed(receiver, envelope.header), envelope, associated_data)
            == if is_dummy {
            None
        } else {
            Some(plaintext)
        },
{
    let signer_secret = choose|signer_secret: Seq<u8>|
        signer_valid(envelope.ephemeral_public_key, signer_secret) && envelope
            == #[trigger] sealed_envelope(
            sender,
            plaintext,
            associated_data,
            is_dummy,
            envelope.nonce,
            envelope.header.timestamp,
            envelope.ephemeral_public_key,
            signer_secret,
        );
    assert(envelope.header.dh_public_key == Some(x25519_public(sender.dh_send_key.unwrap())));
    assert(envelope.header.pq_ciphertext == sender.pending_pq_ciphertext);
    assert(completes_handshake(receiver, envelope.header));
    let stepped = followed(receiver, envelope.header);
    assert(cache_behind(stepped.skipped, stepped.recv_chain_id, stepped.recv_counter));
    law_round_trip(
        sender,
        sender_after,
        stepped,
        pins,
        envelope,
        plaintext,
        associated_data,
        is_dummy,
        sender_id,
    );
}

/// Compromise is final. Every step is refused on a compromised session
/// with `SessionCompromised`, so that no step leads out of the state.
pub proof fn law_compromised_is_terminal(
    session: SessionView,
    pins: PinView,
    envelope: EnvelopeView,
    plaintext: Seq<u8>,
    associated_data: Seq<u8>,
    sender_id: Seq<char>,
    number: u64,
)
    requires
        session.state == RatchetState::Compromised,
    ensures
        compromised(session).state == RatchetState::Compromised,
        lifecycle_error(session) == Some(RatchetError::SessionCompromised),
        handshake_error(session, associated_data) == Some(RatchetError::SessionCompromised),
        confirmation_error(session) == Some(RatchetError::SessionCompromised),
        dh_follow_error(session) == Some(RatchetError::SessionCompromised),
        pq_follow_error(session, associated_data) == Some(RatchetError::SessionCompromised),
        send_key_error(session) == Some(RatchetError::SessionCompromised),
        resolution_error(session, number) == Some(RatchetError::SessionCompromised),
        sealing_error(session, plaintext) == Some(RatchetError::SessionCompromised),
        decryption_error(session, pins, envelope, associated_data, sender_id) == Some(
            RatchetError::SessionCompromised,
        ),
        receipt_error(session, pins, envelope, associated_data, sender_id) == Some(
            RatchetError::SessionCompromised,
        ),
{
}

/// How far a session has come in its life.
pub open spec fn state_rank(state: RatchetState) -> int {
    match state {
        RatchetState::Uninitialized => 0,
        RatchetState::Initialized => 1,
        RatchetState::KeyExchanged => 2,
        RatchetState::Active => 3,
        RatchetState::Compromised => 4,
    }
}

/// A session's life moves forward. No step that is taken leads back to an
/// earlier state: setup leads from uninitialized to initialized, the key
/// exchange on to key-exchanged, a DH ratchet step to active, and chain
/// steps and post-quantum steps leave the state as it is.
pub proof fn law_lifecycle_moves_forward(
    session: SessionView,
    secret: Seq<u8>,
    key: Seq<u8>,
    other: Seq<u8>,
    number: u64,
)
    ensures
        session.state == RatchetState::Uninitialized ==> sender_initialized(
            session,
            secret,
            key,
            other,
            key,
            other,
            secret,
        ).state == RatchetState::Initialized && receiver_initialized(
            session,
            secret,
            key,
            other,
        ).state == RatchetState::Initialized,
        handshake_error(session, other) is None ==> handshake_accepted(session, key, other).state
            == RatchetState::KeyExchanged,
        confirmation_error(session) is None ==> state_rank(key_exchange_confirmed(session).state)
            >= 2,
        lifecycle_error(session) is None ==> dh_ratcheted(session, key, secret).state
            == RatchetState::Active && dh_ratchet_followed(session, key).state
            == RatchetState::Active && pq_ratcheted(session, key, secret, other, secret).state
            == session.state && pq_ratchet_followed(session, other).state == session.state,
        after_sealing(session).state == session.state,
        after_resolution(session, number).state == session.state,
        send_chain_stepped(session).state == session.state,
        state_rank(compromised(session).state) >= state_rank(session.state),
{
}

/// Chain steps keep the root key. Encrypting steps the send chain and
/// nothing else of the keys; decrypting steps the receive chain and
/// nothing else of the keys. The root key changes on ratchet steps only.
pub proof fn law_chain_steps_keep_the_root_key(session: SessionView, number: u64)
    ensures
        after_sealing(session).root_key == session.root_key,
        after_sealing(session).recv_chain_key == session.recv_chain_key,
        after_sealing(session).skipped == session.skipped,
        after_resolution(session, number).root_key == session.root_key,
        after_resolution(session, number).send_chain_key == session.send_chain_key,
        after_resolution(session, number).send_counter == session.send_counter,
        send_chain_stepped(session).root_key == session.root_key,
{
}

/// The session after it encrypted `count` messages in a row.
pub open spec fn after_sealings(session: SessionView, count: nat) -> SessionView
    decreases count,
{
    if count == 0 {
        session
    } else {
        after_sealing(after_sealings(session, (count - 1) as nat))
    }
}

/// Encrypting `count` messages steps the send chain `count` times, counts
/// `count` messages, and leaves root key and state alone.
pub proof fn lemma_after_sealings(session: SessionView, count: nat)
    requires
        session.send_chain_key is Some,
        session.send_counter + count <= u64::MAX,
    ensures
        after_sealings(session, count).send_chain_key == Some(
            chain_key_after(session.send_chain_key.unwrap(), count),
        ),
        after_sealings(session, count).send_counter == session.send_counter + count,
        after_sealings(session, count).root_key == session.root_key,
        after_sealings(session, count).state == session.state,
    decreases count,
{
    if count > 0 {
        lemma_after_sealings(session, (count - 1) as nat);
    }
}

/// What a payload comes back as: nothing for cover traffic.
pub open spec fn delivered(plaintext: Seq<u8>, is_dummy: bool) -> Option<Seq<u8>> {
    if is_dummy {
        None
    } else {
        Some(plaintext)
    }
}

/// Out-of-order delivery. A sender in step with a receiver encrypts
/// messages in a row. When a later one of them is delivered first, it is
/// decrypted, and the key of an earlier one is cached on the way; when the
/// earlier one is delivered afterwards, it is decrypted with the cached
/// key. This holds where the later message is within the skip limit, the
/// cache can hold the messages from the earlier one on, and the registry
/// admits the keys of both.
pub proof fn law_out_of_order_delivery(
    sender: SessionView,
    receiver: SessionView,
    pins: PinView,
    sender_id: Seq<char>,
    before_early: nat,
    early: EnvelopeView,
    early_plaintext: Seq<u8>,
    early_data: Seq<u8>,
    early_dummy: bool,
    before_late: nat,
    late: EnvelopeView,
    late_plaintext: Seq<u8>,
    late_data: Seq<u8>,
    late_dummy: bool,
)
    requires
        session_wf(receiver),
        in_step(sender, receiver),
        before_early < before_late <= receiver.max_skip,
        before_late - before_early <= receiver.max_cache,
        sender.send_counter + before_late < u64::MAX,
        is_sealing(
            after_sealings(sender, before_early),
            after_sealing(after_sealings(sender, before_early)),
            early,
            early_plaintext,
            early_data,
            early_dummy,
        ),
        is_sealing(
            after_sealings(sender, before_late),
            after_sealing(after_sealings(sender, before_late)),
            late,
            late_plaintext,
            late_data,
            late_dummy,
        ),
        pin_admits(pins, sender_id, late.ephemeral_public_key),
        pin_admits(
            pins_after(pins, sender_id, late.ephemeral_public_key),
            sender_id,
            early.ephemeral_public_key,
        ),
    ensures
        decryption_error(receiver, pins, late, late_data, sender_id) is None,
        decrypted_payload(receiver, late, late_data) == delivered(late_plaintext, late_dummy),
        cache_holds(
            after_resolution(receiver, late.header.message_number).skipped,
            recv_id(receiver, early.header.message_number),
        ),
        decryption_error(
            after_resolution(receiver, late.header.message_number),
            pins_after(pins, sender_id, late.ephemeral_public_key),
            early,
            early_data,
            sender_id,
        ) is None,
        decrypted_payload(
            after_resolution(receiver, late.header.message_number),
            early,
            early_data,
        ) == delivered(early_plaintext, early_dummy),
{
    let chain = sender.send_chain_key.unwrap();
    let at_late = after_sealings(sender, before_late);
    let at_early = after_sealings(sender, before_early);
    lemma_after_sealings(sender, before_late);
    lemma_after_sealings(sender, before_early);
    let late_number = late.header.message_number;
    let early_number = early.header.message_number;
    assert(late_number == receiver.recv_counter + before_late + 1);
    assert(early_number == receiver.recv_counter + before_early + 1);
    lemma_next_is_not_cached(receiver, late_number);
    assert(resolution_error(receiver, late_number) is None);
    assert(resolved_key(receiver, late_number) == message_key_of(at_late.send_chain_key.unwrap()));
    let late_secret = choose|signer_secret: Seq<u8>|
        signer_valid(late.ephemeral_public_key, signer_secret) && late
            == #[trigger] sealed_envelope(
            at_late,
            late_plaintext,
            late_data,
            late_dummy,
            late.nonce,
            late.header.timestamp,
            late.ephemeral_public_key,
            signer_secret,
        );
    let flagged = flagged_plaintext(late_plaintext, late_dummy);
    assert(opened_payload(receiver, late, late_data) == Some(flagged));
    assert(flagged.len() == late_plaintext.len() + 1);
    assert(flagged[0] == if late_dummy { 1u8 } else { 0u8 });
    assert(flagged.subrange(1, flagged.len() as int) =~= late_plaintext);
    assert(dilithium2_accepts(
        dilithium2_signature(late.ciphertext, late_secret),
        late.ciphertext,
        late.ephemeral_public_key,
    ));
    let passed = after_resolution(receiver, late_number);
    lemma_after_resolution_wf(receiver, late_number);
    law_skipped_keys_are_cached(receiver, late_number, early_number);
    law_late_message_is_served_from_cache(
        at_early,
        after_sealing(at_early),
        passed,
        pins_after(pins, sender_id, late.ephemeral_public_key),
        early,
        early_plaintext,
        early_data,
        early_dummy,
        sender_id,
    );
}

} // verus!

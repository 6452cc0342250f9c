//! Key derivation for the ratchet: the root step, the chain step, and the
//! hashes that bind a session to its shared secrets.

use vstd::prelude::*;

use crate::bytes::{array16, concat2, concat3};
use crate::primitives::{blake3_digest, blake3_hash, hkdf_sha256, hkdf_sha256_expand};

verus! {

/// `"qubee_root_key"`: the label under which a root step expands the next root key.
pub open spec fn root_key_label() -> Seq<u8> {
    seq![113u8, 117, 98, 101, 101, 95, 114, 111, 111, 116, 95, 107, 101, 121]
}

/// `"qubee_chain_key"`: the label of a new chain key, in a root step and in a chain step.
pub open spec fn chain_key_label() -> Seq<u8> {
    seq![113u8, 117, 98, 101, 101, 95, 99, 104, 97, 105, 110, 95, 107, 101, 121]
}

/// `"qubee_message_key"`: the label under which a chain step derives a message key.
pub open spec fn message_key_label() -> Seq<u8> {
    seq![113u8, 117, 98, 101, 101, 95, 109, 101, 115, 115, 97, 103, 101, 95, 107, 101, 121]
}

/// `"qubee_root_key_derivation"`: the label that turns a shared secret into the first root key.
pub open spec fn root_derivation_label() -> Seq<u8> {
    seq![
        113u8, 117, 98, 101, 101, 95, 114, 111, 111, 116, 95, 107, 101, 121, 95, 100, 101, 114,
        105, 118, 97, 116, 105, 111, 110,
    ]
}

/// `"qubee_hybrid_kdf"`: the label that combines a classical and a post-quantum secret.
pub open spec fn hybrid_label() -> Seq<u8> {
    seq![113u8, 117, 98, 101, 101, 95, 104, 121, 98, 114, 105, 100, 95, 107, 100, 102]
}

/// The chain key that follows `chain_key`.
pub open spec fn next_chain_key(chain_key: Seq<u8>) -> Seq<u8> {
    blake3_digest(chain_key + chain_key_label())
}

/// The message key that a chain step draws from `chain_key`.
pub open spec fn message_key_of(chain_key: Seq<u8>) -> Seq<u8> {
    blake3_digest(chain_key + message_key_label())
}

/// The chain key reached from `chain_key` after `steps` chain steps.
pub open spec fn chain_key_after(chain_key: Seq<u8>, steps: nat) -> Seq<u8>
    decreases steps,
{
    if steps == 0 {
        chain_key
    } else {
        next_chain_key(chain_key_after(chain_key, (steps - 1) as nat))
    }
}

/// The root key that a root step derives from `root_key` and a fresh secret.
pub open spec fn stepped_root_key(root_key: Seq<u8>, input: Seq<u8>) -> Seq<u8> {
    hkdf_sha256(root_key, input, root_key_label())
}

/// The chain key that a root step derives from `root_key` and a fresh secret.
pub open spec fn stepped_chain_key(root_key: Seq<u8>, input: Seq<u8>) -> Seq<u8> {
    hkdf_sha256(root_key, input, chain_key_label())
}

/// The first root key of a session, from the secret both parties agreed on.
pub open spec fn initial_root_key(shared_secret: Seq<u8>) -> Seq<u8> {
    blake3_digest(shared_secret + root_derivation_label())
}

/// The combination of a classical and a post-quantum shared secret.
pub open spec fn combined_secret(dh_secret: Seq<u8>, pq_secret: Seq<u8>) -> Seq<u8> {
    blake3_digest(dh_secret + pq_secret + hybrid_label())
}

/// The 16-byte tag that authenticates a header and its ciphertext under a root key.
pub open spec fn mac_of(root_key: Seq<u8>, header: Seq<u8>, ciphertext: Seq<u8>) -> Seq<u8> {
    blake3_digest(root_key + header + ciphertext).subrange(0, 16)
}

/// A root step: from the root key and a fresh secret to `(new root key, new chain key)`.
pub fn kdf_rk(root_key: &[u8; 32], input: &[u8]) -> (out: ([u8; 32], [u8; 32]))
    ensures
        out.0@ == stepped_root_key(root_key@, input@),
        out.1@ == stepped_chain_key(root_key@, input@),
{
    let root_label: [u8; 14] = [113, 117, 98, 101, 101, 95, 114, 111, 111, 116, 95, 107, 101, 121];
    let chain_label: [u8; 15] = [
        113, 117, 98, 101, 101, 95, 99, 104, 97, 105, 110, 95, 107, 101, 121,
    ];
    proof {
        assert(root_label@ =~= root_key_label());
        assert(chain_label@ =~= chain_key_label());
    }
    let new_root = hkdf_sha256_expand(root_key.as_slice(), input, root_label.as_slice());
    let new_chain = hkdf_sha256_expand(root_key.as_slice(), input, chain_label.as_slice());
    (new_root, new_chain)
}

/// A chain step: from a chain key to `(next chain key, message key)`.
pub fn kdf_ck(chain_key: &[u8; 32]) -> (out: ([u8; 32], [u8; 32]))
    ensures
        out.0@ == next_chain_key(chain_key@),
        out.1@ == message_key_of(chain_key@),
{
    let chain_label: [u8; 15] = [
        113, 117, 98, 101, 101, 95, 99, 104, 97, 105, 110, 95, 107, 101, 121,
    ];
    let message_label: [u8; 17] = [
        113, 117, 98, 101, 101, 95, 109, 101, 115, 115, 97, 103, 101, 95, 107, 101, 121,
    ];
    proof {
        assert(chain_label@ =~= chain_key_label());
        assert(message_label@ =~= message_key_label());
    }
    let chain_input = concat2(chain_key.as_slice(), chain_label.as_slice());
    let message_input = concat2(chain_key.as_slice(), message_label.as_slice());
    (blake3_hash(chain_input.as_slice()), blake3_hash(message_input.as_slice()))
}

/// The first root key of a session.
pub fn derive_root_key(shared_secret: &[u8]) -> (out: [u8; 32])
    ensures
        out@ == initial_root_key(shared_secret@),
{
    let label: [u8; 25] = [
        113, 117, 98, 101, 101, 95, 114, 111, 111, 116, 95, 107, 101, 121, 95, 100, 101, 114, 105,
        118, 97, 116, 105, 111, 110,
    ];
    proof {
        assert(label@ =~= root_derivation_label());
    }
    let input = concat2(shared_secret, label.as_slice());
    blake3_hash(input.as_slice())
}

/// Combines the classical and the post-quantum shared secret of a handshake.
pub fn combine_shared_secrets(dh_secret: &[u8], pq_secret: &[u8]) -> (out: [u8; 32])
    ensures
        out@ == combined_secret(dh_secret@, pq_secret@),
{
    let label: [u8; 16] = [
        113, 117, 98, 101, 101, 95, 104, 121, 98, 114, 105, 100, 95, 107, 100, 102,
    ];
    proof {
        assert(label@ =~= hybrid_label());
    }
    let input = concat3(dh_secret, pq_secret, label.as_slice());
    blake3_hash(input.as_slice())
}

/// The tag over a header and its ciphertext under a root key.
pub fn compute_mac(root_key: &[u8; 32], header: &[u8], ciphertext: &[u8]) -> (out: [u8; 16])
    ensures
        out@ == mac_of(root_key@, header@, ciphertext@),
{
    let input = concat3(root_key.as_slice(), header, ciphertext);
    let digest = blake3_hash(input.as_slice());
    array16(digest.as_slice())
}

/// `"hybrid_root"`: the label under which a classical root key and a
/// post-quantum secret are bound into one key.
pub open spec fn hybrid_root_label() -> Seq<u8> {
    seq![104u8, 121, 98, 114, 105, 100, 95, 114, 111, 111, 116]
}

/// The key that binds a classical root key to a post-quantum shared
/// secret: HKDF with the post-quantum secret as salt and the root key as
/// input.
pub open spec fn hybrid_root_key(pq_shared: Seq<u8>, root_key: Seq<u8>) -> Seq<u8> {
    hkdf_sha256(pq_shared, root_key, hybrid_root_label())
}

/// Binds a classical root key to a post-quantum shared secret.
pub fn derive_hybrid_root_key(pq_shared: &[u8], root_key: &[u8]) -> (out: [u8; 32])
    ensures
        out@ == hybrid_root_key(pq_shared@, root_key@),
{
    let label: [u8; 11] = [104, 121, 98, 114, 105, 100, 95, 114, 111, 111, 116];
    proof {
        assert(label@ =~= hybrid_root_label());
    }
    hkdf_sha256_expand(pq_shared, root_key, label.as_slice())
}

} // verus!

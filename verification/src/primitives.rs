//! The primitives the library rests on: hashes, key derivation, the AEAD
//! cipher, key agreement, key encapsulation, signatures, random numbers,
//! the clock.
//!
//! The functions in this file that call into an outside crate are believed,
//! not proved; they are the only ones in the crate. Each deterministic
//! primitive has a name, a function of its inputs of which nothing else is
//! known; the randomised ones promise only what holds of every outcome.

use vstd::prelude::*;

use chacha20poly1305::aead::{Aead, KeyInit, Payload};
use ed25519_dalek::{Signer, Verifier};
use pqcrypto_traits::kem::{
    Ciphertext as KemCiphertext, PublicKey as KemPublicKey, SecretKey as KemSecretKey, SharedSecret
    as KemSharedSecret,
};
use pqcrypto_traits::sign::{
    DetachedSignature as SigDetached, PublicKey as SigPublicKey, SecretKey as SigSecretKey,
};
use rand::RngCore;
use rand::SeedableRng;
use subtle::ConstantTimeEq;
use zeroize::Zeroize;

verus! {

/// Length of a Kyber-768 public key.
pub const KYBER_PUBLIC_KEY_LEN: usize = 1184;

/// Length of a Kyber-768 secret key.
pub const KYBER_SECRET_KEY_LEN: usize = 2400;

/// Length of a Kyber-768 ciphertext.
pub const KYBER_CIPHERTEXT_LEN: usize = 1088;

/// Length of a Dilithium-2 public key.
pub const DILITHIUM_PUBLIC_KEY_LEN: usize = 1312;

/// Length of a Dilithium-2 secret key.
pub const DILITHIUM_SECRET_KEY_LEN: usize = 2560;

/// Length of the Poly1305 tag that the AEAD appends to a ciphertext.
pub const AEAD_TAG_LEN: usize = 16;

/// The BLAKE3 digest of a byte string.
pub uninterp spec fn blake3_digest(data: Seq<u8>) -> Seq<u8>;

/// The 32 bytes that HKDF-SHA256 expands from `(salt, ikm)` under `info`.
pub uninterp spec fn hkdf_sha256(salt: Seq<u8>, ikm: Seq<u8>, info: Seq<u8>) -> Seq<u8>;

/// What ChaCha20-Poly1305 encryption returns: ciphertext followed by the tag.
pub uninterp spec fn aead_seal(key: Seq<u8>, nonce: Seq<u8>, aad: Seq<u8>, plaintext: Seq<u8>)
    -> Seq<u8>;

/// What ChaCha20-Poly1305 decryption returns: the plaintext, or nothing where
/// the tag does not match.
pub uninterp spec fn aead_open(key: Seq<u8>, nonce: Seq<u8>, aad: Seq<u8>, ciphertext: Seq<u8>)
    -> Option<Seq<u8>>;

/// The X25519 public key that belongs to a secret key.
pub uninterp spec fn x25519_public(secret: Seq<u8>) -> Seq<u8>;

/// The X25519 shared secret of a secret key and a peer's public key.
pub uninterp spec fn x25519_shared(secret: Seq<u8>, peer_public: Seq<u8>) -> Seq<u8>;

/// The shared secret that Kyber-768 decapsulation recovers.
pub uninterp spec fn kyber768_decapsulated(ciphertext: Seq<u8>, secret_key: Seq<u8>) -> Seq<u8>;

/// The detached Dilithium-2 signature of a message under a secret key.
pub uninterp spec fn dilithium2_signature(message: Seq<u8>, secret_key: Seq<u8>) -> Seq<u8>;

/// Whether Dilithium-2 verification accepts a detached signature: both the
/// signature and the public key parse, and the signature is valid.
pub uninterp spec fn dilithium2_accepts(
    signature: Seq<u8>,
    message: Seq<u8>,
    public_key: Seq<u8>,
) -> bool;

/// `blake3::hash`. Believed: the result is the digest of `data`, a function
/// of `data` alone.
#[verifier::external_body]
pub(crate) fn blake3_hash(data: &[u8]) -> (out: [u8; 32])
    ensures
        out@ == blake3_digest(data@),
{
    *blake3::hash(data).as_bytes()
}

/// `hkdf::Hkdf::<Sha256>::new` followed by `expand` into 32 bytes. Believed:
/// the output is a function of salt, input key material and info alone. An
/// output of 32 bytes is within the length HKDF-SHA256 can expand, so the
/// call does not fail.
#[verifier::external_body]
pub(crate) fn hkdf_sha256_expand(salt: &[u8], ikm: &[u8], info: &[u8]) -> (out: [u8; 32])
    ensures
        out@ == hkdf_sha256(salt@, ikm@, info@),
{
    let mut okm = [0u8; 32];
    let hk = hkdf::Hkdf::<sha2::Sha256>::new(Some(salt), ikm);
    let _ = hk.expand(info, &mut okm);
    okm
}

/// `ChaCha20Poly1305::encrypt`. Believed: the call succeeds exactly where
/// the plaintext has fewer than `u32::MAX` blocks of 64 bytes; the result is
/// a function of key, nonce, associated data and plaintext; a ciphertext is
/// 16 bytes longer than its plaintext; and decrypting it under the same key,
/// nonce and associated data gives the plaintext back.
#[verifier::external_body]
pub(crate) fn chacha20poly1305_encrypt(
    key: &[u8; 32],
    nonce: &[u8; 12],
    aad: &[u8],
    plaintext: &[u8],
) -> (out: Option<Vec<u8>>)
    ensures
        out is Some <==> plaintext@.len() / 64 < u32::MAX,
        out matches Some(c) ==> {
            &&& c@ == aead_seal(key@, nonce@, aad@, plaintext@)
            &&& c@.len() == plaintext@.len() + AEAD_TAG_LEN
            &&& aead_open(key@, nonce@, aad@, c@) == Some(plaintext@)
        },
{
    let cipher = chacha20poly1305::ChaCha20Poly1305::new(key.into());
    cipher.encrypt(nonce.into(), Payload { msg: plaintext, aad }).ok()
}

/// `ChaCha20Poly1305::decrypt`. Believed: the result is a function of key,
/// nonce, associated data and ciphertext, and a plaintext is 16 bytes
/// shorter than its ciphertext.
#[verifier::external_body]
pub(crate) fn chacha20poly1305_decrypt(
    key: &[u8; 32],
    nonce: &[u8; 12],
    aad: &[u8],
    ciphertext: &[u8],
) -> (out: Option<Vec<u8>>)
    ensures
        out is Some <==> aead_open(key@, nonce@, aad@, ciphertext@) is Some,
        out matches Some(p) ==> {
            &&& aead_open(key@, nonce@, aad@, ciphertext@) == Some(p@)
            &&& p@.len() + AEAD_TAG_LEN == ciphertext@.len()
        },
{
    let cipher = chacha20poly1305::ChaCha20Poly1305::new(key.into());
    cipher.decrypt(nonce.into(), Payload { msg: ciphertext, aad }).ok()
}

/// `x25519_dalek::PublicKey::from(&StaticSecret)`. Believed: the public key
/// is a function of the secret key alone; and two parties arrive at the
/// same shared secret, each from its own secret key and the other's public
/// key.
#[verifier::external_body]
pub(crate) fn x25519_public_key(secret: &[u8; 32]) -> (out: [u8; 32])
    ensures
        out@ == x25519_public(secret@),
        forall|other: Seq<u8>|
            other.len() == 32 ==> #[trigger] x25519_shared(other, out@) == x25519_shared(
                secret@,
                x25519_public(other),
            ),
{
    let sk = x25519_dalek::StaticSecret::from(*secret);
    x25519_dalek::PublicKey::from(&sk).to_bytes()
}

/// `x25519_dalek::StaticSecret::diffie_hellman`. Believed: the shared secret
/// is a function of the secret key and the peer's public key alone.
#[verifier::external_body]
pub(crate) fn x25519_diffie_hellman(secret: &[u8; 32], peer_public: &[u8; 32]) -> (out: [u8; 32])
    ensures
        out@ == x25519_shared(secret@, peer_public@),
{
    let sk = x25519_dalek::StaticSecret::from(*secret);
    sk.diffie_hellman(&x25519_dalek::PublicKey::from(*peer_public)).to_bytes()
}

/// `pqcrypto_kyber::kyber768::keypair`. The keys are random: only their
/// lengths are promised. Returns `(public key, secret key)`.
#[verifier::external_body]
pub(crate) fn kyber768_keypair() -> (out: (Vec<u8>, Vec<u8>))
    ensures
        out.0@.len() == KYBER_PUBLIC_KEY_LEN,
        out.1@.len() == KYBER_SECRET_KEY_LEN,
{
    let (pk, sk) = pqcrypto_kyber::kyber768::keypair();
    (pk.as_bytes().to_vec(), sk.as_bytes().to_vec())
}

/// `pqcrypto_kyber::kyber768::encapsulate`. The encapsulation is random:
/// only the lengths are promised. Returns `(shared secret, ciphertext)`, or
/// nothing exactly where the public key has the wrong length.
#[verifier::external_body]
pub(crate) fn kyber768_encapsulate(public_key: &[u8]) -> (out: Option<([u8; 32], Vec<u8>)>)
    ensures
        out is Some <==> public_key@.len() == KYBER_PUBLIC_KEY_LEN,
        out matches Some(r) ==> r.1@.len() == KYBER_CIPHERTEXT_LEN,
{
    match pqcrypto_kyber::kyber768::PublicKey::from_bytes(public_key) {
        Ok(pk) => {
            let (ss, ct) = pqcrypto_kyber::kyber768::encapsulate(&pk);
            let mut secret = [0u8; 32];
            secret.copy_from_slice(ss.as_bytes());
            Some((secret, ct.as_bytes().to_vec()))
        },
        Err(_) => None,
    }
}

/// `pqcrypto_kyber::kyber768::decapsulate`. Believed: the shared secret is a
/// function of ciphertext and secret key alone; nothing is returned exactly
/// where one of the two has the wrong length.
#[verifier::external_body]
pub(crate) fn kyber768_decapsulate(ciphertext: &[u8], secret_key: &[u8]) -> (out: Option<[u8; 32]>)
    ensures
        out is Some <==> (ciphertext@.len() == KYBER_CIPHERTEXT_LEN && secret_key@.len()
            == KYBER_SECRET_KEY_LEN),
        out matches Some(s) ==> s@ == kyber768_decapsulated(ciphertext@, secret_key@),
{
    let ct = pqcrypto_kyber::kyber768::Ciphertext::from_bytes(ciphertext).ok()?;
    let sk = pqcrypto_kyber::kyber768::SecretKey::from_bytes(secret_key).ok()?;
    let ss = pqcrypto_kyber::kyber768::decapsulate(&ct, &sk);
    let mut secret = [0u8; 32];
    secret.copy_from_slice(ss.as_bytes());
    Some(secret)
}

/// `pqcrypto_dilithium::dilithium2::keypair`. The keys are random. Believed
/// of every pair that comes back: the lengths, and that any signature made
/// with the secret key is accepted under the public key. Returns
/// `(public key, secret key)`.
#[verifier::external_body]
pub(crate) fn dilithium2_keypair() -> (out: (Vec<u8>, Vec<u8>))
    ensures
        out.0@.len() == DILITHIUM_PUBLIC_KEY_LEN,
        out.1@.len() == DILITHIUM_SECRET_KEY_LEN,
        forall|m: Seq<u8>|
            dilithium2_accepts(#[trigger] dilithium2_signature(m, out.1@), m, out.0@),
{
    let (pk, sk) = pqcrypto_dilithium::dilithium2::keypair();
    (pk.as_bytes().to_vec(), sk.as_bytes().to_vec())
}

/// `pqcrypto_dilithium::dilithium2::detached_sign`. Believed: the signature
/// is a function of message and secret key alone; nothing is returned
/// exactly where the secret key has the wrong length.
#[verifier::external_body]
pub(crate) fn dilithium2_sign(message: &[u8], secret_key: &[u8]) -> (out: Option<Vec<u8>>)
    ensures
        out is Some <==> secret_key@.len() == DILITHIUM_SECRET_KEY_LEN,
        out matches Some(s) ==> s@ == dilithium2_signature(message@, secret_key@),
{
    let sk = pqcrypto_dilithium::dilithium2::SecretKey::from_bytes(secret_key).ok()?;
    Some(pqcrypto_dilithium::dilithium2::detached_sign(message, &sk).as_bytes().to_vec())
}

/// `pqcrypto_dilithium::dilithium2::verify_detached_signature`. Believed:
/// acceptance is a function of signature, message and public key alone.
#[verifier::external_body]
pub(crate) fn dilithium2_verify(signature: &[u8], message: &[u8], public_key: &[u8]) -> (out: bool)
    ensures
        out == dilithium2_accepts(signature@, message@, public_key@),
{
    let sig = pqcrypto_dilithium::dilithium2::DetachedSignature::from_bytes(signature);
    let pk = pqcrypto_dilithium::dilithium2::PublicKey::from_bytes(public_key);
    match (sig, pk) {
        (Ok(s), Ok(k)) => pqcrypto_dilithium::dilithium2::verify_detached_signature(&s, message,
            &k).is_ok(),
        _ => false,
    }
}

/// The Ed25519 public key that belongs to a secret key of 32 bytes.
pub uninterp spec fn ed25519_public(secret_key: Seq<u8>) -> Seq<u8>;

/// The Ed25519 signature of a message under a secret key.
pub uninterp spec fn ed25519_signature(secret_key: Seq<u8>, message: Seq<u8>) -> Seq<u8>;

/// Whether Ed25519 verification accepts a signature: the public key is a
/// point of the curve, and the signature is valid for the message under it.
pub uninterp spec fn ed25519_accepts(
    public_key: Seq<u8>,
    message: Seq<u8>,
    signature: Seq<u8>,
) -> bool;

/// Whether 32 bytes are an Ed25519 public key, a point of the curve.
pub uninterp spec fn ed25519_is_key(public_key: Seq<u8>) -> bool;

/// `ed25519_dalek::SigningKey::verifying_key`, on the signing key that
/// `SigningKey::from_bytes` makes of the secret key. Believed: the public
/// key is a function of the secret key alone, and any signature made with
/// the secret key is accepted under it.
#[verifier::external_body]
pub(crate) fn ed25519_public_key(secret_key: &[u8; 32]) -> (out: [u8; 32])
    ensures
        out@ == ed25519_public(secret_key@),
        forall|m: Seq<u8>| ed25519_accepts(out@, m, #[trigger] ed25519_signature(secret_key@, m)),
{
    ed25519_dalek::SigningKey::from_bytes(secret_key).verifying_key().to_bytes()
}

/// `<ed25519_dalek::SigningKey as Signer>::sign`. Believed: the signature
/// is a function of secret key and message alone.
#[verifier::external_body]
pub(crate) fn ed25519_sign(secret_key: &[u8; 32], message: &[u8]) -> (out: [u8; 64])
    ensures
        out@ == ed25519_signature(secret_key@, message@),
{
    ed25519_dalek::SigningKey::from_bytes(secret_key).sign(message).to_bytes()
}

/// `<ed25519_dalek::VerifyingKey as Verifier>::verify`. Believed:
/// acceptance is a function of public key, message and signature alone; a
/// public key that is no point of the curve accepts nothing.
#[verifier::external_body]
pub(crate) fn ed25519_verify(public_key: &[u8; 32], message: &[u8], signature: &[u8; 64]) -> (out:
    bool)
    ensures
        out == ed25519_accepts(public_key@, message@, signature@),
{
    match ed25519_dalek::VerifyingKey::from_bytes(public_key) {
        Ok(key) => key.verify(message, &ed25519_dalek::Signature::from_bytes(signature)).is_ok(),
        Err(_) => false,
    }
}

/// `ed25519_dalek::VerifyingKey::from_bytes`. Believed: whether the bytes
/// are accepted as a public key is a function of the bytes alone.
#[verifier::external_body]
pub(crate) fn ed25519_key_is_valid(public_key: &[u8; 32]) -> (out: bool)
    ensures
        out == ed25519_is_key(public_key@),
{
    ed25519_dalek::VerifyingKey::from_bytes(public_key).is_ok()
}

/// `subtle::ConstantTimeEq::ct_eq` on byte slices. Believed: the answer is
/// whether the two slices hold the same bytes.
#[verifier::external_body]
pub(crate) fn ct_eq_bytes(a: &[u8], b: &[u8]) -> (out: bool)
    ensures
        out == (a@ == b@),
{
    a.ct_eq(b).into()
}

/// `getrandom::getrandom`. The bytes come from the operating system: only
/// their number is promised, and the call may fail.
#[verifier::external_body]
pub(crate) fn os_random_bytes(len: usize) -> (out: Option<Vec<u8>>)
    ensures
        out matches Some(v) ==> v@.len() == len,
{
    let mut buffer = vec![0u8; len];
    match getrandom::getrandom(&mut buffer) {
        Ok(()) => Some(buffer),
        Err(_) => None,
    }
}

#[verifier::external_type_specification]
#[verifier::external_body]
pub struct ExSystemTime(std::time::SystemTime);

/// `std::time::SystemTime::now`. Nothing is promised of the time.
#[verifier::external_body]
fn system_time_now() -> (out: std::time::SystemTime) {
    std::time::SystemTime::now()
}

/// `std::time::SystemTime::duration_since` the Unix epoch: nothing where
/// the clock stands before the epoch.
#[verifier::external_body]
fn since_unix_epoch(time: &std::time::SystemTime) -> (out: Option<core::time::Duration>) {
    time.duration_since(std::time::UNIX_EPOCH).ok()
}

/// `core::time::Duration::as_secs`. Nothing is promised of the number.
#[verifier::external_body]
fn whole_seconds(duration: &core::time::Duration) -> (out: u64) {
    duration.as_secs()
}

/// The time by the system clock in whole seconds since the Unix epoch, or
/// zero where the clock stands before the epoch.
pub(crate) fn unix_time_secs() -> (out: u64) {
    match since_unix_epoch(&system_time_now()) {
        Some(duration) => whole_seconds(&duration),
        None => 0,
    }
}

#[verifier::external_type_specification]
#[verifier::external_body]
pub struct ExBlake3Hasher(blake3::Hasher);

/// Everything that was fed to a hasher, in order.
pub uninterp spec fn hasher_fed(hasher: blake3::Hasher) -> Seq<u8>;

/// `blake3::Hasher::new`. Believed: nothing was fed to the new hasher.
#[verifier::external_body]
pub(crate) fn hasher_new() -> (out: blake3::Hasher)
    ensures
        hasher_fed(out) == Seq::<u8>::empty(),
{
    blake3::Hasher::new()
}

/// `blake3::Hasher::update`. Believed: the bytes are fed behind what was
/// fed before.
#[verifier::external_body]
pub(crate) fn hasher_update(hasher: &mut blake3::Hasher, data: &[u8])
    ensures
        hasher_fed(*final(hasher)) == hasher_fed(*old(hasher)) + data@,
{
    hasher.update(data);
}

/// `blake3::Hasher::finalize`. Believed: the result is the digest of
/// everything that was fed, as `blake3::hash` gives it for the same bytes.
#[verifier::external_body]
pub(crate) fn hasher_finalize(hasher: &blake3::Hasher) -> (out: [u8; 32])
    ensures
        out@ == blake3_digest(hasher_fed(*hasher)),
{
    *hasher.finalize().as_bytes()
}

/// `<[u8; 32] as zeroize::Zeroize>::zeroize`. Believed: every byte of the
/// key is zero afterwards.
#[verifier::external_body]
pub(crate) fn zeroize_key(key: &mut [u8; 32])
    ensures
        final(key)@ == Seq::new(32, |i: int| 0u8),
    opens_invariants none
    no_unwind
{
    key.zeroize();
}

/// `<[u8] as zeroize::Zeroize>::zeroize` on the bytes of a vector.
/// Believed: every byte is zero afterwards, and there are as many as before.
#[verifier::external_body]
pub(crate) fn zeroize_vec(bytes: &mut Vec<u8>)
    ensures
        final(bytes)@ == Seq::new(old(bytes)@.len(), |i: int| 0u8),
    opens_invariants none
    no_unwind
{
    bytes.as_mut_slice().zeroize();
}

/// `<str as zeroize::Zeroize>::zeroize` on the text of a string. Believed:
/// every byte is zero afterwards, so the text is as many NUL characters as
/// it had bytes before.
#[verifier::external_body]
pub(crate) fn zeroize_text(text: &mut String)
    ensures
        final(text)@ == Seq::new(vstd::utf8::encode_utf8(old(text)@).len(), |i: int| '\0'),
    opens_invariants none
    no_unwind
{
    text.as_mut_str().zeroize();
}

/// The character of a hexadecimal digit, in lower case.
pub open spec fn hex_digit(digit: int) -> char {
    if digit == 0 {
        '0'
    } else if digit == 1 {
        '1'
    } else if digit == 2 {
        '2'
    } else if digit == 3 {
        '3'
    } else if digit == 4 {
        '4'
    } else if digit == 5 {
        '5'
    } else if digit == 6 {
        '6'
    } else if digit == 7 {
        '7'
    } else if digit == 8 {
        '8'
    } else if digit == 9 {
        '9'
    } else if digit == 10 {
        'a'
    } else if digit == 11 {
        'b'
    } else if digit == 12 {
        'c'
    } else if digit == 13 {
        'd'
    } else if digit == 14 {
        'e'
    } else {
        'f'
    }
}

/// A byte string in hexadecimal: two digits for every byte, the upper
/// half first.
pub open spec fn hex_text(bytes: Seq<u8>) -> Seq<char> {
    Seq::new(
        2 * bytes.len(),
        |i: int|
            if i % 2 == 0 {
                hex_digit(bytes[i / 2] as int / 16)
            } else {
                hex_digit(bytes[i / 2] as int % 16)
            },
    )
}

/// The digit of `digit`, a number below 16, in upper-case hexadecimal.
pub open spec fn hex_digit_upper(digit: int) -> char {
    if digit == 10 {
        'A'
    } else if digit == 11 {
        'B'
    } else if digit == 12 {
        'C'
    } else if digit == 13 {
        'D'
    } else if digit == 14 {
        'E'
    } else if digit == 15 {
        'F'
    } else {
        hex_digit(digit)
    }
}

/// A byte string in upper-case hexadecimal: two digits for every byte, the
/// upper half first.
pub open spec fn hex_text_upper(bytes: Seq<u8>) -> Seq<char> {
    Seq::new(
        2 * bytes.len(),
        |i: int|
            if i % 2 == 0 {
                hex_digit_upper(bytes[i / 2] as int / 16)
            } else {
                hex_digit_upper(bytes[i / 2] as int % 16)
            },
    )
}

/// `hex::encode_upper`. Believed: the result is the bytes in upper-case
/// hexadecimal, two digits for every byte.
#[verifier::external_body]
pub(crate) fn hex_encode_upper(bytes: &[u8]) -> (out: String)
    ensures
        out@ == hex_text_upper(bytes@),
{
    hex::encode_upper(bytes)
}

/// `hex::encode`. Believed: the result is the bytes in lower-case
/// hexadecimal, two digits for every byte.
#[verifier::external_body]
pub(crate) fn hex_encode(bytes: &[u8]) -> (out: String)
    ensures
        out@ == hex_text(bytes@),
{
    hex::encode(bytes)
}

#[verifier::external_type_specification]
#[verifier::external_body]
pub struct ExChaCha20Rng(rand_chacha::ChaCha20Rng);

/// `ChaCha20Rng::from_seed`. Nothing is promised of the generator.
#[verifier::external_body]
pub(crate) fn chacha_from_seed(seed: &[u8; 32]) -> (out: rand_chacha::ChaCha20Rng) {
    rand_chacha::ChaCha20Rng::from_seed(*seed)
}

/// `ChaCha20Rng::fill_bytes` into a fresh buffer. Only the number of bytes
/// is promised.
#[verifier::external_body]
pub(crate) fn chacha_bytes(rng: &mut rand_chacha::ChaCha20Rng, len: usize) -> (out: Vec<u8>)
    ensures
        out@.len() == len,
{
    let mut buffer = vec![0u8; len];
    rng.fill_bytes(&mut buffer);
    buffer
}

/// `ChaCha20Rng::next_u64`. Nothing is promised of the value.
#[verifier::external_body]
pub(crate) fn chacha_next_u64(rng: &mut rand_chacha::ChaCha20Rng) -> (out: u64) {
    rng.next_u64()
}

/// `ChaCha20Rng::next_u32`. Nothing is promised of the value.
#[verifier::external_body]
pub(crate) fn chacha_next_u32(rng: &mut rand_chacha::ChaCha20Rng) -> (out: u32) {
    rng.next_u32()
}

/// The CRC-32 checksum of a byte string.
pub uninterp spec fn crc32_checksum(data: Seq<u8>) -> u32;

/// `crc32fast::hash`. Believed: the result is the checksum of `data`, a
/// function of `data` alone.
#[verifier::external_body]
pub(crate) fn crc32(data: &[u8]) -> (out: u32)
    ensures
        out == crc32_checksum(data@),
{
    crc32fast::hash(data)
}

/// `AtomicUsize::fetch_sub`. Nothing is promised of the counter, which
/// other holders move as well.
#[verifier::external_body]
pub(crate) fn atomic_subtract(counter: &std::sync::atomic::AtomicUsize, amount: usize)
    opens_invariants none
    no_unwind
{
    let _ = counter.fetch_sub(amount, std::sync::atomic::Ordering::AcqRel);
}

} // verus!

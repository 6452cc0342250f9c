//! Encryption of media frames: each stream has a key of its own, derived
//! from the media key of the call.

use vstd::prelude::*;
use vstd::bytes::{spec_u64_to_le_bytes, u64_to_le_bytes};

use crate::bytes::array12;
use crate::primitives::{hkdf_sha256, hkdf_sha256_expand, os_random_bytes};
use crate::security::secure_keystore::{
    open_snapshot, opened_blob, seal_snapshot, sealed_blob, MAX_SECRET_LEN,
};
use crate::security::secure_memory::zeros;

verus! {

/// The key of a call's media, from which the keys of its streams derive.
#[derive(Clone, Copy)]
pub struct MediaKey(pub [u8; 32]);

impl MediaKey {
    /// The media key with the bytes handed in.
    pub fn new(bytes: [u8; 32]) -> (out: Self)
        ensures
            out.0 == bytes,
    {
        MediaKey(bytes)
    }
}

/// The key of stream `stream_id` under a media key: HKDF without salt,
/// with the stream's number in little-endian bytes as info.
pub open spec fn stream_key(media_key: Seq<u8>, stream_id: u64) -> Seq<u8> {
    hkdf_sha256(zeros(32), media_key, spec_u64_to_le_bytes(stream_id))
}

/// Why a frame was refused.
#[derive(Debug, Clone, Copy, PartialEq, Eq, Structural)]
pub enum MediaError {
    /// The frame is too long to be encrypted.
    FrameTooLong,
    /// The frame is shorter than a nonce, or does not open under the
    /// stream's key.
    DecryptionFailed,
    /// The operating system gave no random bytes.
    EntropyUnavailable,
}

/// Encrypts and decrypts the frames of a call's media streams.
pub struct MediaEncryption {
    media_key: MediaKey,
}

/// Whether `frame` is the plaintext sealed under `key` with the nonce
/// `nonce` of twelve bytes.
pub open spec fn is_frame(key: Seq<u8>, nonce: Seq<u8>, plaintext: Seq<u8>, frame: Seq<u8>) -> bool {
    nonce.len() == 12 && frame == sealed_blob(key, nonce, plaintext)
}

/// Whether `frame` is the plaintext sealed under `key` with some nonce of
/// twelve bytes.
pub open spec fn fresh_frame(key: Seq<u8>, plaintext: Seq<u8>, frame: Seq<u8>) -> bool {
    exists|nonce: Seq<u8>| #[trigger] is_frame(key, nonce, plaintext, frame)
}

impl MediaEncryption {
    /// The media key.
    pub closed spec fn key(&self) -> Seq<u8> {
        self.media_key.0@
    }

    /// An encryption context under the media key handed in.
    pub fn new(media_key: MediaKey) -> (out: Self)
        ensures
            out.key() == media_key.0@,
    {
        MediaEncryption { media_key }
    }

    /// Derives the key of a stream. One stream has one key.
    pub fn derive_stream_key(&self, stream_id: u64) -> (out: [u8; 32])
        ensures
            out@ == stream_key(self.key(), stream_id),
    {
        let salt = [0u8; 32];
        proof {
            assert(salt@ =~= zeros(32));
        }
        let info = u64_to_le_bytes(stream_id);
        hkdf_sha256_expand(salt.as_slice(), self.media_key.0.as_slice(), info.as_slice())
    }

    /// Encrypts a frame of a stream with the nonce handed in. The nonce
    /// goes in front of the ciphertext.
    pub fn encrypt_frame_with(&self, stream_id: u64, plaintext: &[u8], nonce: &[u8; 12]) -> (out:
        Result<Vec<u8>, MediaError>)
        ensures
            plaintext@.len() > MAX_SECRET_LEN ==> out == Err::<Vec<u8>, MediaError>(
                MediaError::FrameTooLong,
            ),
            plaintext@.len() <= MAX_SECRET_LEN ==> (out matches Ok(frame) && frame@ == sealed_blob(
                stream_key(self.key(), stream_id),
                nonce@,
                plaintext@,
            ) && frame@.len() == plaintext@.len() + 28 && opened_blob(
                stream_key(self.key(), stream_id),
                frame@,
            ) == Some(plaintext@)),
    {
        let key = self.derive_stream_key(stream_id);
        match seal_snapshot(&key, nonce, plaintext) {
            Ok(frame) => Ok(frame),
            Err(_) => Err(MediaError::FrameTooLong),
        }
    }

    /// Encrypts a frame of a stream with a fresh nonce. Refused where the
    /// frame is too long, and where the operating system gives no random
    /// bytes for the nonce.
    pub fn encrypt_frame(&self, stream_id: u64, plaintext: &[u8]) -> (out: Result<
        Vec<u8>,
        MediaError,
    >)
        ensures
            plaintext@.len() > MAX_SECRET_LEN ==> out == Err::<Vec<u8>, MediaError>(
                MediaError::FrameTooLong,
            ),
            plaintext@.len() <= MAX_SECRET_LEN ==> out == Err::<Vec<u8>, MediaError>(
                MediaError::EntropyUnavailable,
            ) || (out matches Ok(frame) && fresh_frame(
                stream_key(self.key(), stream_id),
                plaintext@,
                frame@,
            )),
            out matches Ok(frame) ==> opened_blob(stream_key(self.key(), stream_id), frame@)
                == Some(plaintext@) && frame@.len() == plaintext@.len() + 28,
    {
        if plaintext.len() as u64 > MAX_SECRET_LEN {
            return Err(MediaError::FrameTooLong);
        }
        let nonce = match os_random_bytes(12) {
            Some(bytes) => array12(bytes.as_slice()),
            None => {
                return Err(MediaError::EntropyUnavailable);
            },
        };
        let out = self.encrypt_frame_with(stream_id, plaintext, &nonce);
        proof {
            assert(is_frame(stream_key(self.key(), stream_id), nonce@, plaintext@, out->Ok_0@));
        }
        out
    }

    /// Decrypts a frame of a stream. Refused where the frame is shorter
    /// than a nonce or does not open under the stream's key.
    pub fn decrypt_frame(&self, stream_id: u64, data: &[u8]) -> (out: Result<Vec<u8>, MediaError>)
        ensures
            match opened_blob(stream_key(self.key(), stream_id), data@) {
                Some(plaintext) => out matches Ok(p) && p@ == plaintext,
                None => out == Err::<Vec<u8>, MediaError>(MediaError::DecryptionFailed),
            },
    {
        let key = self.derive_stream_key(stream_id);
        match open_snapshot(&key, data) {
            Ok(plaintext) => Ok(plaintext),
            Err(_) => Err(MediaError::DecryptionFailed),
        }
    }
}

/// The encryption of one stream.
pub struct StreamEncryption<'a> {
    inner: &'a MediaEncryption,
    stream_id: u64,
}

impl<'a> StreamEncryption<'a> {
    /// The key of the stream.
    pub closed spec fn key(&self) -> Seq<u8> {
        stream_key(self.inner.key(), self.stream_id)
    }

    /// The encryption of stream `stream_id`.
    pub fn new(inner: &'a MediaEncryption, stream_id: u64) -> (out: Self)
        ensures
            out.key() == stream_key(inner.key(), stream_id),
    {
        StreamEncryption { inner, stream_id }
    }

    /// Encrypts a frame of the stream.
    pub fn encrypt(&self, plaintext: &[u8]) -> (out: Result<Vec<u8>, MediaError>)
        ensures
            plaintext@.len() > MAX_SECRET_LEN ==> out == Err::<Vec<u8>, MediaError>(
                MediaError::FrameTooLong,
            ),
            plaintext@.len() <= MAX_SECRET_LEN ==> out == Err::<Vec<u8>, MediaError>(
                MediaError::EntropyUnavailable,
            ) || (out matches Ok(frame) && fresh_frame(self.key(), plaintext@, frame@)),
            out matches Ok(frame) ==> opened_blob(self.key(), frame@) == Some(plaintext@)
                && frame@.len() == plaintext@.len() + 28,
    {
        self.inner.encrypt_frame(self.stream_id, plaintext)
    }

    /// Decrypts a frame of the stream.
    pub fn decrypt(&self, data: &[u8]) -> (out: Result<Vec<u8>, MediaError>)
        ensures
            match opened_blob(self.key(), data@) {
                Some(plaintext) => out matches Ok(p) && p@ == plaintext,
                None => out == Err::<Vec<u8>, MediaError>(MediaError::DecryptionFailed),
            },
    {
        self.inner.decrypt_frame(self.stream_id, data)
    }
}

} // verus!

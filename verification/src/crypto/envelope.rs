//! The wire envelope of one ratchet message, and the bytes of its header
//! that every message authenticates.

use vstd::prelude::*;
use vstd::bytes::{spec_u64_to_le_bytes, u64_to_le_bytes};

use crate::bytes::append_bytes;

verus! {

/// The header of an envelope. Its bytes are authenticated with the message.
pub struct MessageHeader {
    /// The sender's new DH public key, on the first message after it changed.
    pub dh_public_key: Option<[u8; 32]>,
    /// A post-quantum ciphertext, on the first message after a re-encapsulation.
    pub pq_ciphertext: Option<Vec<u8>>,
    /// How many messages the sender's previous chain carried.
    pub previous_chain_length: u64,
    /// The number of this message in its chain; the first one has number 1.
    pub message_number: u64,
    /// Seconds since the Unix epoch, by the sender's clock.
    pub timestamp: u64,
}

/// One encrypted message as it travels.
pub struct RatchetMessage {
    pub header: MessageHeader,
    /// The AEAD nonce.
    pub nonce: [u8; 12],
    /// The AEAD ciphertext of `[dummy flag] + plaintext`, tag included.
    pub ciphertext: Vec<u8>,
    /// The tag over header bytes and ciphertext under the root key.
    pub mac: [u8; 16],
    /// The one-time public key that signed the ciphertext.
    pub ephemeral_public_key: Vec<u8>,
    /// The one-time signature on the ciphertext.
    pub ephemeral_signature: Vec<u8>,
}

/// A header as plain values.
#[verifier::ext_equal]
pub struct HeaderView {
    pub dh_public_key: Option<Seq<u8>>,
    pub pq_ciphertext: Option<Seq<u8>>,
    pub previous_chain_length: u64,
    pub message_number: u64,
    pub timestamp: u64,
}

/// An envelope as plain values.
#[verifier::ext_equal]
pub struct EnvelopeView {
    pub header: HeaderView,
    pub nonce: Seq<u8>,
    pub ciphertext: Seq<u8>,
    pub mac: Seq<u8>,
    pub ephemeral_public_key: Seq<u8>,
    pub ephemeral_signature: Seq<u8>,
}

impl View for MessageHeader {
    type V = HeaderView;

    open spec fn view(&self) -> HeaderView {
        HeaderView {
            dh_public_key: match self.dh_public_key {
                Some(k) => Some(k@),
                None => None,
            },
            pq_ciphertext: match self.pq_ciphertext {
                Some(c) => Some(c@),
                None => None,
            },
            previous_chain_length: self.previous_chain_length,
            message_number: self.message_number,
            timestamp: self.timestamp,
        }
    }
}

impl View for RatchetMessage {
    type V = EnvelopeView;

    open spec fn view(&self) -> EnvelopeView {
        EnvelopeView {
            header: self.header@,
            nonce: self.nonce@,
            ciphertext: self.ciphertext@,
            mac: self.mac@,
            ephemeral_public_key: self.ephemeral_public_key@,
            ephemeral_signature: self.ephemeral_signature@,
        }
    }
}

/// An optional field of fixed length: a zero byte, or a one byte and the field.
pub open spec fn optional_fixed_bytes(field: Option<Seq<u8>>) -> Seq<u8> {
    match field {
        Some(b) => seq![1u8] + b,
        None => seq![0u8],
    }
}

/// A field of variable length: its length in eight little-endian bytes, then the field.
pub open spec fn length_prefixed_bytes(field: Seq<u8>) -> Seq<u8> {
    spec_u64_to_le_bytes(field.len() as u64) + field
}

/// An optional field of variable length: a zero byte, or a one byte and the prefixed field.
pub open spec fn optional_prefixed_bytes(field: Option<Seq<u8>>) -> Seq<u8> {
    match field {
        Some(b) => seq![1u8] + length_prefixed_bytes(b),
        None => seq![0u8],
    }
}

/// The bytes of a header, field by field in the order of the wire format.
pub open spec fn header_bytes(header: HeaderView) -> Seq<u8> {
    optional_fixed_bytes(header.dh_public_key) + optional_prefixed_bytes(header.pq_ciphertext)
        + spec_u64_to_le_bytes(header.previous_chain_length) + spec_u64_to_le_bytes(
        header.message_number,
    ) + spec_u64_to_le_bytes(header.timestamp)
}

/// Appends a variable-length field with its length prefix.
pub fn append_length_prefixed(out: &mut Vec<u8>, field: &[u8])
    ensures
        final(out)@ == old(out)@ + length_prefixed_bytes(field@),
{
    let prefix = u64_to_le_bytes(field.len() as u64);
    append_bytes(out, prefix.as_slice());
    append_bytes(out, field);
    proof {
        assert(out@ =~= old(out)@ + length_prefixed_bytes(field@));
    }
}

/// Appends a 64-bit number in little-endian order.
pub fn append_u64(out: &mut Vec<u8>, value: u64)
    ensures
        final(out)@ == old(out)@ + spec_u64_to_le_bytes(value),
{
    let bytes = u64_to_le_bytes(value);
    append_bytes(out, bytes.as_slice());
}

/// Serializes a header for use as associated data.
pub fn encode_header(header: &MessageHeader) -> (out: Vec<u8>)
    ensures
        out@ == header_bytes(header@),
{
    let mut out: Vec<u8> = Vec::new();
    match &header.dh_public_key {
        Some(key) => {
            out.push(1u8);
            append_bytes(&mut out, key.as_slice());
            proof {
                assert(out@ =~= optional_fixed_bytes(header@.dh_public_key));
            }
        },
        None => {
            out.push(0u8);
            proof {
                assert(out@ =~= optional_fixed_bytes(header@.dh_public_key));
            }
        },
    }
    let ghost first = out@;
    match &header.pq_ciphertext {
        Some(ct) => {
            out.push(1u8);
            append_length_prefixed(&mut out, ct.as_slice());
            proof {
                assert(out@ =~= first + optional_prefixed_bytes(header@.pq_ciphertext));
            }
        },
        None => {
            out.push(0u8);
            proof {
                assert(out@ =~= first + optional_prefixed_bytes(header@.pq_ciphertext));
            }
        },
    }
    append_u64(&mut out, header.previous_chain_length);
    append_u64(&mut out, header.message_number);
    append_u64(&mut out, header.timestamp);
    out
}

} // verus!

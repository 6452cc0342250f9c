//! The bytes of an envelope on the wire, and their way back.
//!
//! Fields come in the order of the envelope. A number is eight
//! little-endian bytes; a field of variable length is its length as a
//! number, then its bytes; an optional field is a zero byte, or a one byte
//! and the field.

use vstd::prelude::*;
use vstd::bytes::{
    lemma_auto_spec_u64_to_from_le_bytes, spec_u64_from_le_bytes, spec_u64_to_le_bytes,
    u64_from_le_bytes,
};
use vstd::slice::slice_subrange;

use crate::bytes::{append_bytes, array12, array16, array32, copy_bytes};
use crate::crypto::envelope::{
    append_length_prefixed, encode_header, header_bytes, length_prefixed_bytes,
    optional_fixed_bytes, optional_prefixed_bytes, EnvelopeView, HeaderView, MessageHeader,
    RatchetMessage,
};

verus! {

/// The bytes of an envelope.
pub open spec fn envelope_bytes(envelope: EnvelopeView) -> Seq<u8> {
    header_bytes(envelope.header) + envelope.nonce + length_prefixed_bytes(envelope.ciphertext)
        + envelope.mac + length_prefixed_bytes(envelope.ephemeral_public_key)
        + length_prefixed_bytes(envelope.ephemeral_signature)
}

/// Whether an envelope has the shape of one: its fixed fields have their
/// lengths.
pub open spec fn envelope_shaped(envelope: EnvelopeView) -> bool {
    &&& envelope.nonce.len() == 12
    &&& envelope.mac.len() == 16
    &&& envelope.header.dh_public_key matches Some(k) ==> k.len() == 32
    &&& envelope.header.pq_ciphertext matches Some(c) ==> c.len() <= u64::MAX
    &&& envelope.ciphertext.len() <= u64::MAX
    &&& envelope.ephemeral_public_key.len() <= u64::MAX
    &&& envelope.ephemeral_signature.len() <= u64::MAX
}

/// The first `count` bytes and the rest, where there are that many.
pub open spec fn parse_fixed(bytes: Seq<u8>, count: nat) -> Option<(Seq<u8>, Seq<u8>)> {
    if bytes.len() >= count {
        Some((bytes.subrange(0, count as int), bytes.subrange(count as int, bytes.len() as int)))
    } else {
        None
    }
}

/// A number and the rest.
pub open spec fn parse_u64(bytes: Seq<u8>) -> Option<(u64, Seq<u8>)> {
    match parse_fixed(bytes, 8) {
        Some((field, rest)) => Some((spec_u64_from_le_bytes(field), rest)),
        None => None,
    }
}

/// A field of variable length and the rest.
pub open spec fn parse_prefixed(bytes: Seq<u8>) -> Option<(Seq<u8>, Seq<u8>)> {
    match parse_u64(bytes) {
        Some((length, rest)) => parse_fixed(rest, length as nat),
        None => None,
    }
}

/// An optional field of `count` bytes and the rest.
pub open spec fn parse_optional_fixed(bytes: Seq<u8>, count: nat) -> Option<
    (Option<Seq<u8>>, Seq<u8>),
> {
    if bytes.len() == 0 {
        None
    } else if bytes[0] == 0 {
        Some((None, bytes.subrange(1, bytes.len() as int)))
    } else if bytes[0] == 1 {
        match parse_fixed(bytes.subrange(1, bytes.len() as int), count) {
            Some((field, rest)) => Some((Some(field), rest)),
            None => None,
        }
    } else {
        None
    }
}

/// An optional field of variable length and the rest.
pub open spec fn parse_optional_prefixed(bytes: Seq<u8>) -> Option<(Option<Seq<u8>>, Seq<u8>)> {
    if bytes.len() == 0 {
        None
    } else if bytes[0] == 0 {
        Some((None, bytes.subrange(1, bytes.len() as int)))
    } else if bytes[0] == 1 {
        match parse_prefixed(bytes.subrange(1, bytes.len() as int)) {
            Some((field, rest)) => Some((Some(field), rest)),
            None => None,
        }
    } else {
        None
    }
}

/// A header and the rest.
pub open spec fn parse_header(bytes: Seq<u8>) -> Option<(HeaderView, Seq<u8>)> {
    match parse_optional_fixed(bytes, 32) {
        None => None,
        Some((dh_public_key, rest1)) => match parse_optional_prefixed(rest1) {
            None => None,
            Some((pq_ciphertext, rest2)) => match parse_u64(rest2) {
                None => None,
                Some((previous_chain_length, rest3)) => match parse_u64(rest3) {
                    None => None,
                    Some((message_number, rest4)) => match parse_u64(rest4) {
                        None => None,
                        Some((timestamp, rest5)) => Some(
                            (
                                HeaderView {
                                    dh_public_key,
                                    pq_ciphertext,
                                    previous_chain_length,
                                    message_number,
                                    timestamp,
                                },
                                rest5,
                            ),
                        ),
                    },
                },
            },
        },
    }
}

/// The envelope that a byte string holds, where it holds exactly one.
pub open spec fn parse_envelope(bytes: Seq<u8>) -> Option<EnvelopeView> {
    match parse_header(bytes) {
        None => None,
        Some((header, rest1)) => match parse_fixed(rest1, 12) {
            None => None,
            Some((nonce, rest2)) => match parse_prefixed(rest2) {
                None => None,
                Some((ciphertext, rest3)) => match parse_fixed(rest3, 16) {
                    None => None,
                    Some((mac, rest4)) => match parse_prefixed(rest4) {
                        None => None,
                        Some((ephemeral_public_key, rest5)) => match parse_prefixed(rest5) {
                            None => None,
                            Some((ephemeral_signature, rest6)) => if rest6.len() == 0 {
                                Some(
                                    EnvelopeView {
                                        header,
                                        nonce,
                                        ciphertext,
                                        mac,
                                        ephemeral_public_key,
                                        ephemeral_signature,
                                    },
                                )
                            } else {
                                None
                            },
                        },
                    },
                },
            },
        },
    }
}

/// A fixed field in front of other bytes is parsed as the field, with the
/// other bytes left over.
pub proof fn lemma_parse_fixed(field: Seq<u8>, rest: Seq<u8>)
    ensures
        parse_fixed(field + rest, field.len()) == Some((field, rest)),
{
    let bytes = field + rest;
    assert(bytes.subrange(0, field.len() as int) =~= field);
    assert(bytes.subrange(field.len() as int, bytes.len() as int) =~= rest);
}

/// A number in front of other bytes is parsed as the number.
pub proof fn lemma_parse_u64(value: u64, rest: Seq<u8>)
    ensures
        parse_u64(spec_u64_to_le_bytes(value) + rest) == Some((value, rest)),
{
    lemma_auto_spec_u64_to_from_le_bytes();
    lemma_parse_fixed(spec_u64_to_le_bytes(value), rest);
}

/// A prefixed field in front of other bytes is parsed as the field.
pub proof fn lemma_parse_prefixed(field: Seq<u8>, rest: Seq<u8>)
    requires
        field.len() <= u64::MAX,
    ensures
        parse_prefixed(length_prefixed_bytes(field) + rest) == Some((field, rest)),
{
    let prefix = spec_u64_to_le_bytes(field.len() as u64);
    assert(length_prefixed_bytes(field) + rest =~= prefix + (field + rest));
    lemma_parse_u64(field.len() as u64, field + rest);
    lemma_parse_fixed(field, rest);
}

/// An optional fixed field in front of other bytes is parsed as the field.
pub proof fn lemma_parse_optional_fixed(field: Option<Seq<u8>>, count: nat, rest: Seq<u8>)
    requires
        field matches Some(f) ==> f.len() == count,
    ensures
        parse_optional_fixed(optional_fixed_bytes(field) + rest, count) == Some((field, rest)),
{
    let bytes = optional_fixed_bytes(field) + rest;
    match field {
        Some(f) => {
            assert(bytes[0] == 1);
            assert(bytes.subrange(1, bytes.len() as int) =~= f + rest);
            lemma_parse_fixed(f, rest);
        },
        None => {
            assert(bytes[0] == 0);
            assert(bytes.subrange(1, bytes.len() as int) =~= rest);
        },
    }
}

/// An optional prefixed field in front of other bytes is parsed as the field.
pub proof fn lemma_parse_optional_prefixed(field: Option<Seq<u8>>, rest: Seq<u8>)
    requires
        field matches Some(f) ==> f.len() <= u64::MAX,
    ensures
        parse_optional_prefixed(optional_prefixed_bytes(field) + rest) == Some((field, rest)),
{
    let bytes = optional_prefixed_bytes(field) + rest;
    match field {
        Some(f) => {
            assert(bytes[0] == 1);
            assert(bytes.subrange(1, bytes.len() as int) =~= length_prefixed_bytes(f) + rest);
            lemma_parse_prefixed(f, rest);
        },
        None => {
            assert(bytes[0] == 0);
            assert(bytes.subrange(1, bytes.len() as int) =~= rest);
        },
    }
}

/// A header in front of other bytes is parsed as the header.
pub proof fn lemma_parse_header(header: HeaderView, rest: Seq<u8>)
    requires
        header.dh_public_key matches Some(k) ==> k.len() == 32,
        header.pq_ciphertext matches Some(c) ==> c.len() <= u64::MAX,
    ensures
        parse_header(header_bytes(header) + rest) == Some((header, rest)),
{
    let f1 = optional_fixed_bytes(header.dh_public_key);
    let f2 = optional_prefixed_bytes(header.pq_ciphertext);
    let f3 = spec_u64_to_le_bytes(header.previous_chain_length);
    let f4 = spec_u64_to_le_bytes(header.message_number);
    let f5 = spec_u64_to_le_bytes(header.timestamp);
    let r4 = f5 + rest;
    let r3 = f4 + r4;
    let r2 = f3 + r3;
    let r1 = f2 + r2;
    assert(header_bytes(header) + rest =~= f1 + r1);
    lemma_parse_optional_fixed(header.dh_public_key, 32, r1);
    lemma_parse_optional_prefixed(header.pq_ciphertext, r2);
    lemma_parse_u64(header.previous_chain_length, r3);
    lemma_parse_u64(header.message_number, r4);
    lemma_parse_u64(header.timestamp, rest);
}

/// Round trip of the wire format. The bytes of an envelope are parsed as
/// that envelope.
pub proof fn law_envelope_round_trip(envelope: EnvelopeView)
    requires
        envelope_shaped(envelope),
    ensures
        parse_envelope(envelope_bytes(envelope)) == Some(envelope),
{
    let empty = Seq::<u8>::empty();
    let f6 = length_prefixed_bytes(envelope.ephemeral_signature);
    let f5 = length_prefixed_bytes(envelope.ephemeral_public_key);
    let f3 = length_prefixed_bytes(envelope.ciphertext);
    let r5 = f6 + empty;
    let r4 = f5 + r5;
    let r3 = envelope.mac + r4;
    let r2 = f3 + r3;
    let r1 = envelope.nonce + r2;
    assert(envelope_bytes(envelope) =~= header_bytes(envelope.header) + r1);
    lemma_parse_header(envelope.header, r1);
    lemma_parse_fixed(envelope.nonce, r2);
    lemma_parse_prefixed(envelope.ciphertext, r3);
    lemma_parse_fixed(envelope.mac, r4);
    lemma_parse_prefixed(envelope.ephemeral_public_key, r5);
    lemma_parse_prefixed(envelope.ephemeral_signature, empty);
}

/// Serializes an envelope.
pub fn encode_envelope(envelope: &RatchetMessage) -> (out: Vec<u8>)
    ensures
        out@ == envelope_bytes(envelope@),
        parse_envelope(out@) == Some(envelope@),
{
    let mut out = encode_header(&envelope.header);
    append_bytes(&mut out, envelope.nonce.as_slice());
    append_length_prefixed(&mut out, envelope.ciphertext.as_slice());
    append_bytes(&mut out, envelope.mac.as_slice());
    append_length_prefixed(&mut out, envelope.ephemeral_public_key.as_slice());
    append_length_prefixed(&mut out, envelope.ephemeral_signature.as_slice());
    let ciphertext_len = envelope.ciphertext.len();
    let key_len = envelope.ephemeral_public_key.len();
    let signature_len = envelope.ephemeral_signature.len();
    let pq_len = match &envelope.header.pq_ciphertext {
        Some(c) => c.len(),
        None => 0,
    };
    proof {
        assert(envelope_shaped(envelope@));
        law_envelope_round_trip(envelope@);
    }
    out
}

/// The bytes of `data` from `position` on.
pub open spec fn from_position(data: Seq<u8>, position: int) -> Seq<u8> {
    data.subrange(position, data.len() as int)
}

/// Reads `count` bytes at `position`. Returns the position behind them.
fn read_fixed(data: &[u8], position: usize, count: usize) -> (out: Option<usize>)
    requires
        position <= data@.len(),
    ensures
        out is Some <==> parse_fixed(from_position(data@, position as int), count as nat) is Some,
        out matches Some(end) ==> position + count == end && end <= data@.len() && parse_fixed(
            from_position(data@, position as int),
            count as nat,
        ) == Some((data@.subrange(position as int, end as int), from_position(data@, end as int))),
{
    if data.len() - position < count {
        None
    } else {
        let end = position + count;
        proof {
            let rest = from_position(data@, position as int);
            assert(rest.subrange(0, count as int) =~= data@.subrange(position as int, end as int));
            assert(rest.subrange(count as int, rest.len() as int) =~= from_position(
                data@,
                end as int,
            ));
        }
        Some(end)
    }
}

/// Reads a number at `position`. Returns it with the position behind it.
fn read_u64(data: &[u8], position: usize) -> (out: Option<(u64, usize)>)
    requires
        position <= data@.len(),
    ensures
        out is Some <==> parse_u64(from_position(data@, position as int)) is Some,
        out matches Some((value, end)) ==> position <= end <= data@.len() && parse_u64(
            from_position(data@, position as int),
        ) == Some((value, from_position(data@, end as int))),
{
    match read_fixed(data, position, 8) {
        Some(end) => {
            let field = slice_subrange(data, position, end);
            Some((u64_from_le_bytes(field), end))
        },
        None => None,
    }
}

/// Reads a field of variable length at `position`. Returns where it starts
/// and where it ends.
fn read_prefixed(data: &[u8], position: usize) -> (out: Option<(usize, usize)>)
    requires
        position <= data@.len(),
    ensures
        out is Some <==> parse_prefixed(from_position(data@, position as int)) is Some,
        out matches Some((start, end)) ==> position <= start <= end <= data@.len()
            && parse_prefixed(from_position(data@, position as int)) == Some(
            (data@.subrange(start as int, end as int), from_position(data@, end as int)),
        ),
{
    match read_u64(data, position) {
        Some((length, start)) => {
            if length > (data.len() - start) as u64 {
                None
            } else {
                match read_fixed(data, start, length as usize) {
                    Some(end) => Some((start, end)),
                    None => None,
                }
            }
        },
        None => None,
    }
}

/// Reads the tag of an optional field at `position`: whether the field is
/// there, and the position behind the tag.
fn read_tag(data: &[u8], position: usize) -> (out: Option<(bool, usize)>)
    requires
        position <= data@.len(),
    ensures
        out is Some <==> from_position(data@, position as int).len() > 0 && (from_position(
            data@,
            position as int,
        )[0] == 0 || from_position(data@, position as int)[0] == 1),
        out matches Some((present, end)) ==> end == position + 1 && end <= data@.len()
            && present == (from_position(data@, position as int)[0] == 1) && from_position(
            data@,
            position as int,
        ).subrange(1, from_position(data@, position as int).len() as int) == from_position(
            data@,
            end as int,
        ),
{
    if position >= data.len() {
        return None;
    }
    let tag = data[position];
    proof {
        let rest = from_position(data@, position as int);
        assert(rest[0] == data@[position as int]);
        assert(rest.subrange(1, rest.len() as int) =~= from_position(data@, position + 1));
    }
    if tag == 0 {
        Some((false, position + 1))
    } else if tag == 1 {
        Some((true, position + 1))
    } else {
        None
    }
}

/// Parses an envelope. Refused where the bytes are not exactly those of
/// one envelope.
pub fn decode_envelope(data: &[u8]) -> (out: Option<RatchetMessage>)
    ensures
        out is Some <==> parse_envelope(data@) is Some,
        out matches Some(envelope) ==> parse_envelope(data@) == Some(envelope@),
{
    proof {
        assert(from_position(data@, 0) =~= data@);
    }
    let (has_dh, after_dh_tag) = read_tag(data, 0)?;
    let (dh_public_key, after_dh) = if has_dh {
        let end = read_fixed(data, after_dh_tag, 32)?;
        (Some(array32(slice_subrange(data, after_dh_tag, end))), end)
    } else {
        (None, after_dh_tag)
    };
    proof {
        if has_dh {
            assert(data@.subrange(after_dh_tag as int, after_dh as int).subrange(0, 32) =~= data@.subrange(
                after_dh_tag as int,
                after_dh as int,
            ));
        }
    }
    let (has_pq, after_pq_tag) = read_tag(data, after_dh)?;
    let (pq_ciphertext, after_pq) = if has_pq {
        let (start, end) = read_prefixed(data, after_pq_tag)?;
        (Some(copy_bytes(slice_subrange(data, start, end))), end)
    } else {
        (None, after_pq_tag)
    };
    let (previous_chain_length, after_previous) = read_u64(data, after_pq)?;
    let (message_number, after_number) = read_u64(data, after_previous)?;
    let (timestamp, after_header) = read_u64(data, after_number)?;
    let header = MessageHeader {
        dh_public_key,
        pq_ciphertext,
        previous_chain_length,
        message_number,
        timestamp,
    };
    assert(parse_header(data@) == Some((header@, from_position(data@, after_header as int))));
    let after_nonce = read_fixed(data, after_header, 12)?;
    let nonce = array12(slice_subrange(data, after_header, after_nonce));
    proof {
        assert(data@.subrange(after_header as int, after_nonce as int).subrange(0, 12) =~= data@.subrange(
            after_header as int,
            after_nonce as int,
        ));
    }
    let (c_start, after_ciphertext) = read_prefixed(data, after_nonce)?;
    let after_mac = read_fixed(data, after_ciphertext, 16)?;
    let mac = array16(slice_subrange(data, after_ciphertext, after_mac));
    proof {
        assert(data@.subrange(after_ciphertext as int, after_mac as int).subrange(0, 16) =~= data@.subrange(
            after_ciphertext as int,
            after_mac as int,
        ));
    }
    let (k_start, after_key) = read_prefixed(data, after_mac)?;
    let (s_start, after_signature) = read_prefixed(data, after_key)?;
    if after_signature != data.len() {
        return None;
    }
    Some(
        RatchetMessage {
            header,
            nonce,
            ciphertext: copy_bytes(slice_subrange(data, c_start, after_ciphertext)),
            mac,
            ephemeral_public_key: copy_bytes(slice_subrange(data, k_start, after_key)),
            ephemeral_signature: copy_bytes(slice_subrange(data, s_start, after_signature)),
        },
    )
}

} // verus!

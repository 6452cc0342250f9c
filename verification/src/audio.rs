//! Audio packets: one envelope each, bound to the packet's version and
//! sequence number, and the timing of cover traffic.

use vstd::prelude::*;
use vstd::bytes::{
    lemma_auto_spec_u16_to_from_le_bytes, lemma_auto_spec_u32_to_from_le_bytes,
    spec_u16_from_le_bytes, spec_u16_to_le_bytes, spec_u32_from_le_bytes, spec_u32_to_le_bytes,
    u16_from_le_bytes, u16_to_le_bytes, u32_from_le_bytes, u32_to_le_bytes,
};
use vstd::slice::slice_subrange;

use crate::bytes::{append_bytes, concat2};
use crate::crypto::enhanced_ratchet::{EnhancedHybridRatchet};
use crate::crypto::envelope::{EnvelopeView, RatchetMessage};
use crate::crypto::session_model::{
    after_resolution, bytes_view, decrypted_payload, followed, is_encryption, may_refuse,
    receipt_error, rekey_refused, sealing_error,
};
use crate::crypto::wire::{decode_envelope, encode_envelope, envelope_bytes, parse_envelope};
use crate::ephemeral_keys::{pins_after, EphemeralKeyStore};
use crate::errors::RatchetError;

verus! {

/// The longest random delay on top of the base interval of cover traffic,
/// in seconds, is one less than this.
pub const DUMMY_JITTER_BOUND: u64 = 5;

/// An encrypted audio packet.
pub struct AudioPacket {
    pub version: u16,
    pub seq: u32,
    pub envelope: RatchetMessage,
}

/// The associated data of an audio packet: its version and its sequence
/// number, both little-endian.
pub open spec fn audio_aad(version: u16, seq: u32) -> Seq<u8> {
    spec_u16_to_le_bytes(version) + spec_u32_to_le_bytes(seq)
}

fn encode_audio_aad(version: u16, seq: u32) -> (out: Vec<u8>)
    ensures
        out@ == audio_aad(version, seq),
{
    let v = u16_to_le_bytes(version);
    let s = u32_to_le_bytes(seq);
    concat2(v.as_slice(), s.as_slice())
}

/// Encrypts an audio packet, or a piece of cover traffic where `is_dummy`
/// is set. Version and sequence number are authenticated with it.
pub fn encrypt_audio_packet(
    r: &mut EnhancedHybridRatchet,
    plaintext: &[u8],
    version: u16,
    seq: u32,
    is_dummy: bool,
) -> (out: Result<AudioPacket, RatchetError>)
    ensures
        sealing_error(old(r)@, plaintext@) matches Some(e) ==> out is Err && out->Err_0 == e,
        out matches Err(e) ==> final(r)@ == old(r)@ && may_refuse(old(r)@, plaintext@, e),
        sealing_error(old(r)@, plaintext@) is None && rekey_refused(old(r)@) ==> out is Err,
        out matches Ok(packet) ==> packet.version == version && packet.seq == seq
            && is_encryption(
            old(r)@,
            final(r)@,
            packet.envelope@,
            plaintext@,
            audio_aad(version, seq),
            is_dummy,
        ),
{
    let aad = encode_audio_aad(version, seq);
    match r.encrypt_flagged(plaintext, aad.as_slice(), is_dummy) {
        Ok(envelope) => Ok(AudioPacket { version, seq, envelope }),
        Err(e) => Err(e),
    }
}

/// Receives an audio packet from `sender_id`. Cover traffic yields `None`.
/// A refusal leaves session and registry as they were.
pub fn decrypt_audio_packet(
    r: &mut EnhancedHybridRatchet,
    packet: &AudioPacket,
    sender_id: &str,
    ephemeral_store: &mut EphemeralKeyStore,
) -> (out: Result<Option<Vec<u8>>, RatchetError>)
    requires
        old(ephemeral_store).wf(),
    ensures
        final(ephemeral_store).wf(),
        receipt_error(
            old(r)@,
            old(ephemeral_store)@,
            packet.envelope@,
            audio_aad(packet.version, packet.seq),
            sender_id@,
        ) matches Some(e) ==> out == Err::<Option<Vec<u8>>, RatchetError>(e) && final(r)@ == old(
            r,
        )@ && final(ephemeral_store)@ == old(ephemeral_store)@,
        receipt_error(
            old(r)@,
            old(ephemeral_store)@,
            packet.envelope@,
            audio_aad(packet.version, packet.seq),
            sender_id@,
        ) is None ==> final(r)@ == after_resolution(
            followed(old(r)@, packet.envelope@.header),
            packet.envelope@.header.message_number,
        ) && final(ephemeral_store)@ == pins_after(
            old(ephemeral_store)@,
            sender_id@,
            packet.envelope@.ephemeral_public_key,
        ) && (out matches Ok(payload) && bytes_view(payload) == decrypted_payload(
            followed(old(r)@, packet.envelope@.header),
            packet.envelope@,
            audio_aad(packet.version, packet.seq),
        )),
{
    let aad = encode_audio_aad(packet.version, packet.seq);
    r.receive(&packet.envelope, aad.as_slice(), sender_id, ephemeral_store)
}

/// How long to wait before the next piece of cover traffic: the base
/// interval and a jitter below the jitter bound, taken from `random`. The
/// sum stops at the largest number of seconds there is.
pub open spec fn cover_delay(freq_secs: u64, random: u64) -> u64 {
    let jitter = random % DUMMY_JITTER_BOUND;
    if freq_secs + jitter > u64::MAX {
        u64::MAX
    } else {
        (freq_secs + jitter) as u64
    }
}

/// Computes the delay before the next piece of cover traffic.
pub fn dummy_packet_delay(freq_secs: u64, random: u64) -> (out: u64)
    ensures
        out == cover_delay(freq_secs, random),
        out >= freq_secs,
        out - freq_secs < DUMMY_JITTER_BOUND,
{
    let jitter = random % DUMMY_JITTER_BOUND;
    if jitter > u64::MAX - freq_secs {
        u64::MAX
    } else {
        freq_secs + jitter
    }
}

/// The sequence number after `seq`: one more, and zero after the largest.
pub fn next_sequence(seq: u32) -> (out: u32)
    ensures
        out == if seq == u32::MAX {
            0
        } else {
            seq + 1
        },
{
    if seq == u32::MAX {
        0
    } else {
        seq + 1
    }
}

/// One step of the cover traffic of an audio stream: a dummy packet with
/// sequence number `seq` from the session that also carries the real
/// traffic, and the sequence number of the next one.
pub fn next_dummy_audio_packet(r: &mut EnhancedHybridRatchet, version: u16, seq: u32) -> (out: (
    Result<AudioPacket, RatchetError>,
    u32,
))
    ensures
        out.1 == if seq == u32::MAX {
            0
        } else {
            seq + 1
        },
        sealing_error(old(r)@, Seq::<u8>::empty()) matches Some(e) ==> out.0 is Err
            && out.0->Err_0 == e,
        out.0 matches Err(e) ==> final(r)@ == old(r)@ && may_refuse(
            old(r)@,
            Seq::<u8>::empty(),
            e,
        ),
        sealing_error(old(r)@, Seq::<u8>::empty()) is None && rekey_refused(old(r)@) ==> out.0
            is Err,
        out.0 matches Ok(packet) ==> packet.version == version && packet.seq == seq
            && is_encryption(
            old(r)@,
            final(r)@,
            packet.envelope@,
            Seq::<u8>::empty(),
            audio_aad(version, seq),
            true,
        ),
{
    let empty: Vec<u8> = Vec::new();
    (encrypt_audio_packet(r, empty.as_slice(), version, seq, true), next_sequence(seq))
}

/// A packet as plain values: version, sequence number and envelope.
pub type PacketView = (u16, u32, EnvelopeView);

/// The bytes of a packet: its associated data, then its envelope.
pub open spec fn packet_bytes(packet: PacketView) -> Seq<u8> {
    audio_aad(packet.0, packet.1) + envelope_bytes(packet.2)
}

/// The packet that a byte string holds, where it holds exactly one.
pub open spec fn parse_packet(bytes: Seq<u8>) -> Option<PacketView> {
    if bytes.len() < 6 {
        None
    } else {
        match parse_envelope(bytes.subrange(6, bytes.len() as int)) {
            Some(envelope) => Some(
                (
                    spec_u16_from_le_bytes(bytes.subrange(0, 2)),
                    spec_u32_from_le_bytes(bytes.subrange(2, 6)),
                    envelope,
                ),
            ),
            None => None,
        }
    }
}

impl AudioPacket {
    /// The packet as plain values.
    pub open spec fn view(&self) -> PacketView {
        (self.version, self.seq, self.envelope@)
    }
}

/// Round trip of a packet's bytes: they are parsed as that packet.
pub proof fn law_packet_round_trip(packet: PacketView)
    requires
        parse_envelope(envelope_bytes(packet.2)) == Some(packet.2),
    ensures
        parse_packet(packet_bytes(packet)) == Some(packet),
{
    lemma_auto_spec_u16_to_from_le_bytes();
    lemma_auto_spec_u32_to_from_le_bytes();
    let bytes = packet_bytes(packet);
    assert(bytes.subrange(0, 2) =~= spec_u16_to_le_bytes(packet.0));
    assert(bytes.subrange(2, 6) =~= spec_u32_to_le_bytes(packet.1));
    assert(bytes.subrange(6, bytes.len() as int) =~= envelope_bytes(packet.2));
}

/// Serializes a packet.
pub fn encode_audio_packet(packet: &AudioPacket) -> (out: Vec<u8>)
    ensures
        out@ == packet_bytes(packet@),
        parse_packet(out@) == Some(packet@),
{
    let mut out = encode_audio_aad(packet.version, packet.seq);
    let envelope = encode_envelope(&packet.envelope);
    append_bytes(&mut out, envelope.as_slice());
    proof {
        law_packet_round_trip(packet@);
    }
    out
}

/// Parses a packet. Refused where the bytes are not exactly those of one packet.
pub fn decode_audio_packet(data: &[u8]) -> (out: Option<AudioPacket>)
    ensures
        out is Some <==> parse_packet(data@) is Some,
        out matches Some(packet) ==> parse_packet(data@) == Some(packet@),
{
    if data.len() < 6 {
        return None;
    }
    let version = u16_from_le_bytes(slice_subrange(data, 0, 2));
    let seq = u32_from_le_bytes(slice_subrange(data, 2, 6));
    match decode_envelope(slice_subrange(data, 6, data.len())) {
        Some(envelope) => Some(AudioPacket { version, seq, envelope }),
        None => None,
    }
}

} // verus!

//! File transfer: a file travels as chunks of fixed size, one envelope
//! each, and a last envelope with the hash of the whole content, by which
//! the receiver checks what it put together.

use vstd::prelude::*;
use vstd::bytes::{
    lemma_auto_spec_u32_to_from_le_bytes, lemma_auto_spec_u64_to_from_le_bytes,
    spec_u32_from_le_bytes, spec_u32_to_le_bytes, spec_u64_from_le_bytes, spec_u64_to_le_bytes,
    u32_from_le_bytes, u32_to_le_bytes, u64_from_le_bytes, u64_to_le_bytes,
};
use vstd::slice::slice_subrange;

use crate::bytes::{append_bytes, bytes_equal, concat2};
use crate::crypto::enhanced_ratchet::EnhancedHybridRatchet;
use crate::crypto::envelope::RatchetMessage;
use crate::crypto::session_model::{
    after_resolution, decrypted_payload, followed, is_encryption, may_refuse, receipt_error,
    rekey_refused, sealing_error,
};
use crate::crypto::wire::{decode_envelope, encode_envelope, envelope_bytes, parse_envelope};
use crate::ephemeral_keys::{pins_after, EphemeralKeyStore};
use crate::errors::RatchetError;
use crate::primitives::{blake3_digest, hasher_fed, hasher_finalize, hasher_new, hasher_update};

verus! {

/// The size of a chunk of plaintext, in bytes. Only the last chunk of a
/// file may be shorter.
pub const CHUNK_SIZE: usize = 65536;

/// One encrypted chunk of a file.
pub struct FileChunk {
    pub file_id: u64,
    pub seq_number: u32,
    /// Whether the chunk carries the hash of the file, not a part of it.
    pub is_hash: bool,
    pub envelope: RatchetMessage,
}

/// Why a step of a file transfer was refused.
#[derive(Debug, Clone, Copy, PartialEq, Eq, Structural)]
pub enum FileTransferError {
    /// The ratchet refused the chunk.
    Ratchet(RatchetError),
    /// The hash that came with the file is not the hash of what came.
    FileIntegrityMismatch,
    /// The chunk is empty or longer than a chunk may be.
    InvalidChunkSize,
    /// The transfer is finished already.
    TransferFinished,
}

/// The associated data of a chunk: file identifier and sequence number,
/// little-endian, and a byte that says whether the chunk carries the hash.
pub open spec fn chunk_aad(file_id: u64, seq: u32, is_hash: bool) -> Seq<u8> {
    spec_u64_to_le_bytes(file_id) + spec_u32_to_le_bytes(seq)
        + seq![if is_hash { 1u8 } else { 0u8 }]
}

fn encode_chunk_aad(file_id: u64, seq: u32, is_hash: bool) -> (out: Vec<u8>)
    ensures
        out@ == chunk_aad(file_id, seq, is_hash),
{
    let id = u64_to_le_bytes(file_id);
    let number = u32_to_le_bytes(seq);
    let mut out = concat2(id.as_slice(), number.as_slice());
    out.push(if is_hash { 1u8 } else { 0u8 });
    proof {
        assert(out@ =~= chunk_aad(file_id, seq, is_hash));
    }
    out
}

/// How many chunks a file of `len` bytes makes, the hash chunk not counted.
pub open spec fn chunk_count(len: nat) -> nat {
    (len + CHUNK_SIZE - 1) as nat / (CHUNK_SIZE as nat)
}

/// Where chunk `index` of a file of `len` bytes starts and ends.
pub open spec fn chunk_range(len: nat, index: nat) -> (nat, nat) {
    let start = index * (CHUNK_SIZE as nat);
    let end = if start + CHUNK_SIZE < len {
        start + (CHUNK_SIZE as nat)
    } else {
        len
    };
    (start, end)
}

/// Computes how many chunks a file of `len` bytes makes.
pub fn count_chunks(len: usize) -> (out: usize)
    ensures
        out == chunk_count(len as nat),
        out * CHUNK_SIZE >= len,
        len > 0 ==> (out - 1) * CHUNK_SIZE < len,
{
    let full = len / CHUNK_SIZE;
    let out = if len % CHUNK_SIZE == 0 {
        full
    } else {
        full + 1
    };
    proof {
        assert(out == (len + 65535) / 65536 && out * 65536 >= len && (len > 0 ==> (out - 1)
            * 65536 < len)) by (nonlinear_arith)
            requires
                len % 65536 == 0 ==> out == len / 65536,
                len % 65536 != 0 ==> out == len / 65536 + 1,
        ;
    }
    out
}

/// Computes where chunk `index` of a file of `len` bytes starts and ends.
pub fn locate_chunk(len: usize, index: usize) -> (out: (usize, usize))
    requires
        index < chunk_count(len as nat),
    ensures
        out.0 == chunk_range(len as nat, index as nat).0,
        out.1 == chunk_range(len as nat, index as nat).1,
        out.0 < out.1 <= len,
        out.1 - out.0 <= CHUNK_SIZE,
{
    proof {
        assert(index * 65536 < len) by (nonlinear_arith)
            requires
                index < (len + 65535) / 65536,
        ;
    }
    let start = index * CHUNK_SIZE;
    let end = if len - start > CHUNK_SIZE {
        start + CHUNK_SIZE
    } else {
        len
    };
    (start, end)
}

/// The chunks of a file lie end to end: each starts where the one before
/// it ends, the first at the start of the file and the last at its end.
pub proof fn law_chunks_cover_file(len: nat, index: nat)
    requires
        index < chunk_count(len),
    ensures
        chunk_range(len, index).0 == index * CHUNK_SIZE,
        index + 1 < chunk_count(len) ==> chunk_range(len, index).1 == chunk_range(
            len,
            index + 1,
        ).0,
        index + 1 == chunk_count(len) ==> chunk_range(len, index).1 == len,
        chunk_range(len, 0).0 == 0,
{
    assert(index + 1 < (len + 65535) / 65536 ==> index * 65536 + 65536 < len) by (nonlinear_arith);
    assert(index + 1 == (len + 65535) / 65536 ==> index * 65536 + 65536 >= len)
        by (nonlinear_arith);
    assert((index + 1) * 65536 == index * 65536 + 65536) by (nonlinear_arith);
}

/// Encrypts one chunk. File identifier, sequence number and the hash mark
/// are authenticated with it.
pub fn encrypt_chunk(
    r: &mut EnhancedHybridRatchet,
    file_id: u64,
    seq: u32,
    plaintext: &[u8],
    is_dummy: bool,
    is_hash: bool,
) -> (out: Result<FileChunk, RatchetError>)
    ensures
        sealing_error(old(r)@, plaintext@) matches Some(e) ==> out is Err && out->Err_0 == e,
        out is Err ==> final(r)@ == old(r)@,
        out matches Err(e) ==> may_refuse(old(r)@, plaintext@, e),
        sealing_error(old(r)@, plaintext@) is None && rekey_refused(old(r)@) ==> out is Err,
        out matches Ok(chunk) ==> chunk.file_id == file_id && chunk.seq_number == seq
            && chunk.is_hash == is_hash && is_encryption(
            old(r)@,
            final(r)@,
            chunk.envelope@,
            plaintext@,
            chunk_aad(file_id, seq, is_hash),
            is_dummy,
        ),
{
    let aad = encode_chunk_aad(file_id, seq, is_hash);
    match r.encrypt_flagged(plaintext, aad.as_slice(), is_dummy) {
        Ok(envelope) => Ok(FileChunk { file_id, seq_number: seq, is_hash, envelope }),
        Err(e) => Err(e),
    }
}

/// The frame of a serialized chunk on a stream: its length in four
/// big-endian bytes, then its bytes.
pub open spec fn framed(data: Seq<u8>) -> Seq<u8> {
    seq![
        ((data.len() / 16777216) % 256) as u8,
        ((data.len() / 65536) % 256) as u8,
        ((data.len() / 256) % 256) as u8,
        (data.len() % 256) as u8,
    ] + data
}

/// The length that the four bytes of a frame's head announce.
pub open spec fn frame_length(head: Seq<u8>) -> nat {
    (head[0] as nat) * 16777216 + (head[1] as nat) * 65536 + (head[2] as nat) * 256 + (
    head[3] as nat)
}

/// Frames a serialized chunk. Refused where it is too long for a frame.
pub fn frame(data: &[u8]) -> (out: Option<Vec<u8>>)
    ensures
        out is Some <==> data@.len() <= u32::MAX,
        out matches Some(f) ==> f@ == framed(data@) && frame_length(f@.subrange(0, 4))
            == data@.len(),
{
    if data.len() > 0xffff_ffff {
        return None;
    }
    let len = data.len();
    let mut out: Vec<u8> = Vec::new();
    out.push(((len / 16777216) % 256) as u8);
    out.push(((len / 65536) % 256) as u8);
    out.push(((len / 256) % 256) as u8);
    out.push((len % 256) as u8);
    proof {
        assert(((len / 16777216) % 256) * 16777216 + ((len / 65536) % 256) * 65536 + ((len / 256)
            % 256) * 256 + len % 256 == len) by (nonlinear_arith)
            requires
                len <= 0xffff_ffff,
        ;
    }
    let ghost head = out@;
    append_bytes(&mut out, data);
    proof {
        assert(out@ =~= framed(data@));
        assert(out@.subrange(0, 4) =~= head);
    }
    Some(out)
}

/// Reads the length of a frame from its head.
pub fn read_frame_length(head: &[u8; 4]) -> (out: usize)
    ensures
        out == frame_length(head@),
{
    let b0 = head[0] as u64;
    let b1 = head[1] as u64;
    let b2 = head[2] as u64;
    let b3 = head[3] as u64;
    (b0 * 16777216 + b1 * 65536 + b2 * 256 + b3) as usize
}

/// What is known of the sending side of a transfer.
pub struct SenderView {
    pub file_id: u64,
    /// The sequence number of the next chunk.
    pub seq: u32,
    /// The content sent so far.
    pub content: Seq<u8>,
    pub finished: bool,
}

/// The sending side of a file transfer.
pub struct FileSender {
    file_id: u64,
    seq: u32,
    hasher: blake3::Hasher,
    finished: bool,
}

/// The sequence number after `seq`.
pub open spec fn sequence_after(seq: u32) -> u32 {
    if seq == u32::MAX {
        0
    } else {
        (seq + 1) as u32
    }
}

impl FileSender {
    /// What is known of the sender.
    pub closed spec fn view(&self) -> SenderView {
        SenderView {
            file_id: self.file_id,
            seq: self.seq,
            content: hasher_fed(self.hasher),
            finished: self.finished,
        }
    }

    /// A sender at the start of the file `file_id`.
    pub fn new(file_id: u64) -> (out: Self)
        ensures
            out@ == (SenderView { file_id, seq: 0, content: Seq::<u8>::empty(), finished: false }),
    {
        FileSender { file_id, seq: 0, hasher: hasher_new(), finished: false }
    }

    /// Encrypts the next chunk of the file. The chunk takes the next
    /// sequence number, and its bytes count towards the file's hash.
    /// Refused where the chunk is empty or longer than a chunk may be, and
    /// after the transfer was finished; a refusal moves nothing.
    pub fn send_chunk(&mut self, r: &mut EnhancedHybridRatchet, data: &[u8]) -> (out: Result<
        FileChunk,
        FileTransferError,
    >)
        ensures
            old(self)@.finished ==> out is Err && out->Err_0
                == FileTransferError::TransferFinished,
            !old(self)@.finished && (data@.len() == 0 || data@.len() > CHUNK_SIZE) ==> out is Err
                && out->Err_0 == FileTransferError::InvalidChunkSize,
            !old(self)@.finished && 0 < data@.len() <= CHUNK_SIZE ==> {
                &&& sealing_error(old(r)@, data@) matches Some(e) ==> out is Err && out->Err_0
                    == FileTransferError::Ratchet(e)
                &&& sealing_error(old(r)@, data@) is None && rekey_refused(old(r)@) ==> out
                    is Err
            },
            out matches Err(refusal) ==> match refusal {
                FileTransferError::TransferFinished => old(self)@.finished,
                FileTransferError::InvalidChunkSize => !old(self)@.finished && (data@.len() == 0
                    || data@.len() > CHUNK_SIZE),
                FileTransferError::Ratchet(e) => !old(self)@.finished && 0 < data@.len()
                    <= CHUNK_SIZE && may_refuse(old(r)@, data@, e),
                FileTransferError::FileIntegrityMismatch => false,
            },
            out is Err ==> final(self)@ == old(self)@ && final(r)@ == old(r)@,
            out matches Ok(chunk) ==> chunk.file_id == old(self)@.file_id && chunk.seq_number
                == old(self)@.seq && !chunk.is_hash && final(self)@ == (SenderView {
                seq: sequence_after(old(self)@.seq),
                content: old(self)@.content + data@,
                ..old(self)@
            }) && is_encryption(
                old(r)@,
                final(r)@,
                chunk.envelope@,
                data@,
                chunk_aad(chunk.file_id, chunk.seq_number, false),
                false,
            ),
    {
        if self.finished {
            return Err(FileTransferError::TransferFinished);
        }
        if data.len() == 0 || data.len() > CHUNK_SIZE {
            return Err(FileTransferError::InvalidChunkSize);
        }
        match encrypt_chunk(r, self.file_id, self.seq, data, false, false) {
            Ok(chunk) => {
                hasher_update(&mut self.hasher, data);
                self.seq = crate::audio::next_sequence(self.seq);
                Ok(chunk)
            },
            Err(e) => Err(FileTransferError::Ratchet(e)),
        }
    }

    /// Encrypts a piece of cover traffic under the next sequence number.
    /// It does not count towards the file.
    pub fn send_dummy(&mut self, r: &mut EnhancedHybridRatchet) -> (out: Result<
        FileChunk,
        FileTransferError,
    >)
        ensures
            sealing_error(old(r)@, Seq::<u8>::empty()) matches Some(e) ==> out is Err
                && out->Err_0 == FileTransferError::Ratchet(e),
            out is Err ==> final(self)@ == old(self)@ && final(r)@ == old(r)@,
            out matches Err(refusal) ==> refusal matches FileTransferError::Ratchet(e)
                && may_refuse(old(r)@, Seq::<u8>::empty(), e),
            sealing_error(old(r)@, Seq::<u8>::empty()) is None && rekey_refused(old(r)@) ==> out
                is Err,
            out matches Ok(chunk) ==> chunk.file_id == old(self)@.file_id && chunk.seq_number
                == old(self)@.seq && !chunk.is_hash && final(self)@ == (SenderView {
                seq: sequence_after(old(self)@.seq),
                ..old(self)@
            }) && is_encryption(
                old(r)@,
                final(r)@,
                chunk.envelope@,
                Seq::<u8>::empty(),
                chunk_aad(chunk.file_id, chunk.seq_number, false),
                true,
            ),
    {
        let empty: Vec<u8> = Vec::new();
        match encrypt_chunk(r, self.file_id, self.seq, empty.as_slice(), true, false) {
            Ok(chunk) => {
                self.seq = crate::audio::next_sequence(self.seq);
                Ok(chunk)
            },
            Err(e) => Err(FileTransferError::Ratchet(e)),
        }
    }

    /// Finishes the transfer: encrypts the hash of everything that was
    /// sent as the last chunk, marked as the hash.
    pub fn finish(&mut self, r: &mut EnhancedHybridRatchet) -> (out: Result<
        FileChunk,
        FileTransferError,
    >)
        ensures
            old(self)@.finished ==> out is Err && out->Err_0
                == FileTransferError::TransferFinished,
            !old(self)@.finished ==> {
                &&& sealing_error(old(r)@, blake3_digest(old(self)@.content)) matches Some(e)
                    ==> out is Err && out->Err_0 == FileTransferError::Ratchet(e)
                &&& sealing_error(old(r)@, blake3_digest(old(self)@.content)) is None
                    && rekey_refused(old(r)@) ==> out is Err
            },
            out matches Err(refusal) ==> match refusal {
                FileTransferError::TransferFinished => old(self)@.finished,
                FileTransferError::Ratchet(e) => !old(self)@.finished && may_refuse(
                    old(r)@,
                    blake3_digest(old(self)@.content),
                    e,
                ),
                _ => false,
            },
            out is Err ==> final(self)@ == old(self)@ && final(r)@ == old(r)@,
            out matches Ok(chunk) ==> chunk.file_id == old(self)@.file_id && chunk.seq_number
                == old(self)@.seq && chunk.is_hash && final(self)@ == (SenderView {
                seq: sequence_after(old(self)@.seq),
                finished: true,
                ..old(self)@
            }) && is_encryption(
                old(r)@,
                final(r)@,
                chunk.envelope@,
                blake3_digest(old(self)@.content),
                chunk_aad(chunk.file_id, chunk.seq_number, true),
                false,
            ),
    {
        if self.finished {
            return Err(FileTransferError::TransferFinished);
        }
        let digest = hasher_finalize(&self.hasher);
        match encrypt_chunk(r, self.file_id, self.seq, digest.as_slice(), false, true) {
            Ok(chunk) => {
                self.seq = crate::audio::next_sequence(self.seq);
                self.finished = true;
                Ok(chunk)
            },
            Err(e) => Err(FileTransferError::Ratchet(e)),
        }
    }
}

/// What a received chunk amounts to.
pub enum ChunkOutcome {
    /// The chunk belongs to another file and was passed over.
    Ignored,
    /// The chunk was cover traffic.
    Dummy,
    /// The chunk carried this part of the file.
    Data(Vec<u8>),
    /// The chunk carried the file's hash, and the hash is that of the
    /// content received.
    Verified,
}

/// What is known of the receiving side of a transfer.
pub struct ReceiverView {
    pub expected_file_id: u64,
    /// The content received so far.
    pub content: Seq<u8>,
    pub finished: bool,
}

/// The receiving side of a file transfer.
pub struct FileReceiver {
    expected_file_id: u64,
    hasher: blake3::Hasher,
    finished: bool,
}

impl FileReceiver {
    /// What is known of the receiver.
    pub closed spec fn view(&self) -> ReceiverView {
        ReceiverView {
            expected_file_id: self.expected_file_id,
            content: hasher_fed(self.hasher),
            finished: self.finished,
        }
    }

    /// A receiver that waits for the file `expected_file_id`.
    pub fn new(expected_file_id: u64) -> (out: Self)
        ensures
            out@ == (ReceiverView {
                expected_file_id,
                content: Seq::<u8>::empty(),
                finished: false,
            }),
    {
        FileReceiver { expected_file_id, hasher: hasher_new(), finished: false }
    }

    /// Whether the file's hash came and matched.
    pub fn is_finished(&self) -> (out: bool)
        ensures
            out == self@.finished,
    {
        self.finished
    }

    /// Takes in one chunk from `sender_id`. A chunk of another file is
    /// passed over. A chunk that the ratchet refuses moves nothing. Cover
    /// traffic is dropped. A part of the file counts towards the hash and
    /// is handed out. The hash chunk ends the transfer: it must be the hash
    /// of the content received.
    pub fn accept_chunk(
        &mut self,
        r: &mut EnhancedHybridRatchet,
        chunk: &FileChunk,
        sender_id: &str,
        ephemeral_store: &mut EphemeralKeyStore,
    ) -> (out: Result<ChunkOutcome, FileTransferError>)
        requires
            old(ephemeral_store).wf(),
        ensures
            final(ephemeral_store).wf(),
            final(self)@.expected_file_id == old(self)@.expected_file_id,
            old(self)@.finished ==> out is Err && out->Err_0
                == FileTransferError::TransferFinished && final(self)@ == old(self)@ && final(r)@
                == old(r)@ && final(ephemeral_store)@ == old(ephemeral_store)@,
            !old(self)@.finished && chunk.file_id != old(self)@.expected_file_id ==> (out
                matches Ok(ChunkOutcome::Ignored)) && final(self)@ == old(self)@ && final(r)@
                == old(r)@ && final(ephemeral_store)@ == old(ephemeral_store)@,
            !old(self)@.finished && chunk.file_id == old(self)@.expected_file_id ==> {
                let aad = chunk_aad(chunk.file_id, chunk.seq_number, chunk.is_hash);
                match receipt_error(
                    old(r)@,
                    old(ephemeral_store)@,
                    chunk.envelope@,
                    aad,
                    sender_id@,
                ) {
                    Some(e) => out is Err && out->Err_0 == FileTransferError::Ratchet(e)
                        && final(self)@ == old(self)@ && final(r)@ == old(r)@
                            && final(ephemeral_store)@ == old(ephemeral_store)@,
                    None => {
                        let stepped = followed(old(r)@, chunk.envelope@.header);
                        &&& final(r)@ == after_resolution(
                            stepped,
                            chunk.envelope@.header.message_number,
                        )
                        &&& final(ephemeral_store)@ == pins_after(
                            old(ephemeral_store)@,
                            sender_id@,
                            chunk.envelope@.ephemeral_public_key,
                        )
                        &&& match decrypted_payload(stepped, chunk.envelope@, aad) {
                            None => (out matches Ok(ChunkOutcome::Dummy)) && final(self)@
                                == old(self)@,
                            Some(payload) => if chunk.is_hash {
                                if payload == blake3_digest(old(self)@.content) {
                                    (out matches Ok(ChunkOutcome::Verified)) && final(self)@ == (
                                    ReceiverView { finished: true, ..old(self)@ })
                                } else {
                                    out is Err && out->Err_0
                                        == FileTransferError::FileIntegrityMismatch
                                            && final(self)@ == old(self)@
                                }
                            } else {
                                (out matches Ok(ChunkOutcome::Data(data)) && data@ == payload)
                                    && final(self)@ == (ReceiverView {
                                    content: old(self)@.content + payload,
                                    ..old(self)@
                                })
                            },
                        }
                    },
                }
            },
    {
        if self.finished {
            return Err(FileTransferError::TransferFinished);
        }
        if chunk.file_id != self.expected_file_id {
            return Ok(ChunkOutcome::Ignored);
        }
        let aad = encode_chunk_aad(chunk.file_id, chunk.seq_number, chunk.is_hash);
        let payload = match r.receive(&chunk.envelope, aad.as_slice(), sender_id, ephemeral_store) {
            Ok(Some(p)) => p,
            Ok(None) => {
                return Ok(ChunkOutcome::Dummy);
            },
            Err(e) => {
                return Err(FileTransferError::Ratchet(e));
            },
        };
        if chunk.is_hash {
            let digest = hasher_finalize(&self.hasher);
            if bytes_equal(payload.as_slice(), digest.as_slice()) {
                self.finished = true;
                Ok(ChunkOutcome::Verified)
            } else {
                Err(FileTransferError::FileIntegrityMismatch)
            }
        } else {
            hasher_update(&mut self.hasher, payload.as_slice());
            Ok(ChunkOutcome::Data(payload))
        }
    }
}

/// A chunk as plain values: file identifier, sequence number, hash mark
/// and envelope.
pub type ChunkView = (u64, u32, bool, crate::crypto::envelope::EnvelopeView);

/// The bytes of a chunk: its associated data, then its envelope.
pub open spec fn chunk_bytes(chunk: ChunkView) -> Seq<u8> {
    chunk_aad(chunk.0, chunk.1, chunk.2) + envelope_bytes(chunk.3)
}

/// The chunk that a byte string holds, where it holds exactly one.
pub open spec fn parse_chunk(bytes: Seq<u8>) -> Option<ChunkView> {
    if bytes.len() < 13 || bytes[12] > 1 {
        None
    } else {
        match parse_envelope(bytes.subrange(13, bytes.len() as int)) {
            Some(envelope) => Some(
                (
                    spec_u64_from_le_bytes(bytes.subrange(0, 8)),
                    spec_u32_from_le_bytes(bytes.subrange(8, 12)),
                    bytes[12] == 1,
                    envelope,
                ),
            ),
            None => None,
        }
    }
}

impl FileChunk {
    /// The chunk as plain values.
    pub open spec fn view(&self) -> ChunkView {
        (self.file_id, self.seq_number, self.is_hash, self.envelope@)
    }
}

/// Round trip of a chunk's bytes: they are parsed as that chunk.
pub proof fn law_chunk_round_trip(chunk: ChunkView)
    requires
        parse_envelope(envelope_bytes(chunk.3)) == Some(chunk.3),
    ensures
        parse_chunk(chunk_bytes(chunk)) == Some(chunk),
{
    lemma_auto_spec_u64_to_from_le_bytes();
    lemma_auto_spec_u32_to_from_le_bytes();
    let bytes = chunk_bytes(chunk);
    assert(bytes.subrange(0, 8) =~= spec_u64_to_le_bytes(chunk.0));
    assert(bytes.subrange(8, 12) =~= spec_u32_to_le_bytes(chunk.1));
    assert(bytes[12] == if chunk.2 { 1u8 } else { 0u8 });
    assert(bytes.subrange(13, bytes.len() as int) =~= envelope_bytes(chunk.3));
}

/// Serializes a chunk.
pub fn encode_chunk(chunk: &FileChunk) -> (out: Vec<u8>)
    ensures
        out@ == chunk_bytes(chunk@),
        parse_chunk(out@) == Some(chunk@),
{
    let mut out = encode_chunk_aad(chunk.file_id, chunk.seq_number, chunk.is_hash);
    let envelope = encode_envelope(&chunk.envelope);
    append_bytes(&mut out, envelope.as_slice());
    proof {
        law_chunk_round_trip(chunk@);
    }
    out
}

/// Parses a chunk. Refused where the bytes are not exactly those of one chunk.
pub fn decode_chunk(data: &[u8]) -> (out: Option<FileChunk>)
    ensures
        out is Some <==> parse_chunk(data@) is Some,
        out matches Some(chunk) ==> parse_chunk(data@) == Some(chunk@),
{
    if data.len() < 13 || data[12] > 1 {
        return None;
    }
    let file_id = u64_from_le_bytes(slice_subrange(data, 0, 8));
    let seq_number = u32_from_le_bytes(slice_subrange(data, 8, 12));
    let is_hash = data[12] == 1;
    match decode_envelope(slice_subrange(data, 13, data.len())) {
        Some(envelope) => Some(FileChunk { file_id, seq_number, is_hash, envelope }),
        None => None,
    }
}

} // verus!

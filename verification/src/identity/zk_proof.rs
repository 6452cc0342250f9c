//! Proofs of key ownership: their shape, the verdict on one, and the
//! framing in which a proof travels over QR code or NFC.

use vstd::prelude::*;
use vstd::bytes::{spec_u32_from_le_bytes, u32_from_le_bytes};
use vstd::slice::slice_subrange;

use crate::bytes::{bytes_equal, copy_bytes};
use crate::identity::identity_key::IdentityId;
use crate::primitives::{crc32, crc32_checksum};

verus! {

/// A proof that its maker holds the private key of an identity.
pub struct ZKProof {
    pub identity_id: IdentityId,
    pub commitment: [u8; 32],
    pub challenge: [u8; 32],
    pub response: [u8; 32],
    pub pq_commitment: Vec<u8>,
    pub pq_response: Vec<u8>,
    /// When the proof was made, in seconds since the Unix epoch.
    pub timestamp: u64,
    pub nonce: [u8; 32],
    /// What the proof was made for.
    pub context: String,
    pub claims: Vec<ZKClaim>,
}

/// A claim that is proven along with key ownership.
pub struct ZKClaim {
    pub claim_type: String,
    pub claim_data: Vec<u8>,
    pub proof_data: Vec<u8>,
}

/// The verdict on a proof.
#[derive(Debug, Clone, Copy, PartialEq, Eq, Structural)]
pub enum ProofVerificationResult {
    Valid,
    Invalid,
    Expired,
    ReplayAttack,
    InvalidContext,
}

/// What a proof is made and verified for.
pub struct ProofContext {
    pub purpose: String,
    pub audience: Option<IdentityId>,
    /// For how many seconds a proof is good.
    pub validity_duration: u64,
    pub additional_data: Vec<u8>,
}

impl Default for ProofContext {
    fn default() -> (out: Self)
        ensures
            out.purpose@ == "key_verification"@,
            out.audience is None,
            out.validity_duration == 300,
            out.additional_data@ == Seq::<u8>::empty(),
    {
        ProofContext {
            purpose: "key_verification".to_string(),
            audience: None,
            validity_duration: 300,
            additional_data: Vec::new(),
        }
    }
}

/// What the checks on a proof came to.
pub struct ProofChecks {
    /// The proof names the identity it is verified against.
    pub identity_matches: bool,
    /// The proof was made for the purpose it is verified for.
    pub context_matches: bool,
    /// The present time, in seconds since the Unix epoch.
    pub now: u64,
    /// When the proof was made.
    pub timestamp: u64,
    pub validity_duration: u64,
    /// The proof's nonce was seen before.
    pub replayed: bool,
    pub classical_valid: bool,
    pub pq_valid: bool,
    pub claims_valid: bool,
}

/// The age of a proof made at `timestamp`, seen at `now`: zero where the
/// proof is from the future.
pub open spec fn proof_age(now: u64, timestamp: u64) -> int {
    if now >= timestamp {
        now - timestamp
    } else {
        0
    }
}

/// The verdict that the checks on a proof amount to. The first check that
/// fails decides: identity, context, age, replay; then the proofs proper.
pub open spec fn verdict_of(checks: ProofChecks) -> ProofVerificationResult {
    if !checks.identity_matches {
        ProofVerificationResult::Invalid
    } else if !checks.context_matches {
        ProofVerificationResult::InvalidContext
    } else if proof_age(checks.now, checks.timestamp) > checks.validity_duration {
        ProofVerificationResult::Expired
    } else if checks.replayed {
        ProofVerificationResult::ReplayAttack
    } else if checks.classical_valid && checks.pq_valid && checks.claims_valid {
        ProofVerificationResult::Valid
    } else {
        ProofVerificationResult::Invalid
    }
}

/// Why the framing of a proof was refused.
#[derive(Debug, Clone, Copy, PartialEq, Eq, Structural)]
pub enum ProofFormatError {
    /// The data is too short or does not start with the magic bytes.
    InvalidFormat,
    /// The data is shorter than it says it is.
    Truncated,
    /// The checksum is not that of the data.
    ChecksumMismatch,
    /// The decompressed data has another length than announced.
    LengthMismatch,
}

/// `"ZKP1"`: the magic bytes of compressed proof data.
pub open spec fn compression_magic() -> Seq<u8> {
    seq![90u8, 75, 80, 49]
}

/// `"QUBEE_ZK"`: the magic bytes of proof data for NFC.
pub open spec fn nfc_magic() -> Seq<u8> {
    seq![81u8, 85, 66, 69, 69, 95, 90, 75]
}

/// What run-length encoded bytes expand to: `0xFF, n, b` with two bytes
/// behind the `0xFF` stands for `n` times `b`; every other byte for itself.
pub open spec fn expanded(compressed: Seq<u8>) -> Seq<u8>
    decreases compressed.len(),
{
    if compressed.len() == 0 {
        Seq::empty()
    } else if compressed[0] == 0xFF && compressed.len() > 2 {
        Seq::new(compressed[1] as nat, |i: int| compressed[2]) + expanded(
            compressed.subrange(3, compressed.len() as int),
        )
    } else {
        seq![compressed[0]] + expanded(compressed.subrange(1, compressed.len() as int))
    }
}

/// The length of the run of equal bytes at the start of `data`, up to `limit`.
pub open spec fn run_length(data: Seq<u8>, limit: nat) -> nat
    decreases limit,
{
    if limit == 0 || data.len() == 0 {
        0
    } else if data.len() >= 2 && data[1] == data[0] && limit >= 2 {
        1 + run_length(data.subrange(1, data.len() as int), (limit - 1) as nat)
    } else {
        1
    }
}

/// The run-length encoding of `data`: a run of more than three equal
/// bytes, up to 255 of them, becomes `0xFF`, its length and the byte;
/// shorter runs stay as they are.
pub open spec fn run_length_encoded(data: Seq<u8>) -> Seq<u8>
    decreases data.len(),
{
    if data.len() == 0 {
        Seq::empty()
    } else {
        let count = run_length(data, 255);
        if 3 < count <= data.len() && count <= 255 {
            seq![0xFFu8, count as u8, data[0]] + run_length_encoded(
                data.subrange(count as int, data.len() as int),
            )
        } else if 1 <= count <= data.len() {
            data.subrange(0, count as int) + run_length_encoded(
                data.subrange(count as int, data.len() as int),
            )
        } else {
            Seq::empty()
        }
    }
}

/// A run is as long as the data at most, and not empty where the data is not.
pub proof fn lemma_run_length_bounds(data: Seq<u8>, limit: nat)
    ensures
        run_length(data, limit) <= limit,
        run_length(data, limit) <= data.len(),
        data.len() > 0 && limit > 0 ==> run_length(data, limit) >= 1,
        forall|i: int| 0 <= i < run_length(data, limit) ==> #[trigger] data[i] == data[0],
    decreases limit,
{
    if limit == 0 || data.len() == 0 {
    } else if data.len() >= 2 && data[1] == data[0] && limit >= 2 {
        let rest = data.subrange(1, data.len() as int);
        lemma_run_length_bounds(rest, (limit - 1) as nat);
        assert forall|i: int| 0 <= i < run_length(data, limit) implies #[trigger] data[i]
            == data[0] by {
            if i > 0 {
                assert(rest[i - 1] == rest[0]);
                assert(rest[i - 1] == data[i]);
            }
        }
    }
}

/// Counts the run of equal bytes at `start`, up to 255.
fn count_run(data: &[u8], start: usize) -> (out: usize)
    requires
        start < data@.len(),
    ensures
        out == run_length(data@.subrange(start as int, data@.len() as int), 255),
        1 <= out <= 255,
        start + out <= data@.len(),
{
    let byte = data[start];
    let ghost whole = data@.subrange(start as int, data@.len() as int);
    proof {
        lemma_run_length_bounds(whole, 255);
    }
    let limit: usize = if data.len() - start > 255 {
        255
    } else {
        data.len() - start
    };
    let total = data.len();
    let mut count: usize = 1;
    let mut going = true;
    while going && count < limit
        invariant
            total == data@.len(),
            start < data@.len(),
            byte == data@[start as int],
            1 <= count <= limit <= 255,
            start + limit <= data@.len(),
            forall|i: int| 0 <= i < count ==> #[trigger] data@[start + i] == byte,
            !going ==> count < limit && data@[start + count] != byte,
        decreases limit - count + if going { 1int } else { 0int },
    {
        if data[start + count] == byte {
            count += 1;
        } else {
            going = false;
        }
    }
    proof {
        assert forall|i: int| 0 <= i < count implies #[trigger] whole[i] == whole[0] by {
            assert(whole[i] == data@[start + i]);
        }
        if count < limit {
            assert(whole[count as int] == data@[start + count]);
        }
        lemma_run_is(whole, 255, count as nat);
    }
    count
}

/// A run that is seen to be `count` long is `count` long: its bytes are
/// equal, and it ends at the limit, at the end of the data or at another
/// byte.
proof fn lemma_run_is(data: Seq<u8>, limit: nat, count: nat)
    requires
        1 <= count <= limit,
        count <= data.len(),
        forall|i: int| 0 <= i < count ==> #[trigger] data[i] == data[0],
        count == limit || count == data.len() || data[count as int] != data[0],
    ensures
        run_length(data, limit) == count,
    decreases limit,
{
    if data.len() >= 2 && data[1] == data[0] && limit >= 2 {
        let rest = data.subrange(1, data.len() as int);
        if count == 1 {
            assert(limit == 1 || data.len() == 1 || data[1] != data[0]);
        } else {
            assert forall|i: int| 0 <= i < count - 1 implies #[trigger] rest[i] == rest[0] by {
                assert(rest[i] == data[i + 1]);
            }
            if !(count - 1 == limit - 1 || count - 1 == rest.len()) {
                assert(rest[count - 1] == data[count as int]);
            }
            lemma_run_is(rest, (limit - 1) as nat, (count - 1) as nat);
        }
    } else {
        if count >= 2 {
            assert(data[1] == data[0]);
        }
    }
}

/// Compresses proof data: the magic bytes, the length of the data in four
/// little-endian bytes, and the run-length encoding of the data. Refused
/// where the data is too long for its length to be written.
pub fn compress_proof_data(data: &[u8]) -> (out: Option<Vec<u8>>)
    ensures
        out is Some <==> data@.len() <= u32::MAX,
        out matches Some(c) ==> c@ == compression_magic() + vstd::bytes::spec_u32_to_le_bytes(
            data@.len() as u32,
        ) + run_length_encoded(data@),
{
    if data.len() > 0xffff_ffff {
        return None;
    }
    let magic: [u8; 4] = [90, 75, 80, 49];
    proof {
        assert(magic@ =~= compression_magic());
    }
    let length = vstd::bytes::u32_to_le_bytes(data.len() as u32);
    let mut out = crate::bytes::concat2(magic.as_slice(), length.as_slice());
    let ghost head = out@;
    let mut i: usize = 0;
    proof {
        assert(data@.subrange(0, data@.len() as int) =~= data@);
    }
    while i < data.len()
        invariant
            i <= data@.len(),
            out@ + run_length_encoded(data@.subrange(i as int, data@.len() as int)) == head
                + run_length_encoded(data@),
        decreases data@.len() - i,
    {
        let count = count_run(data, i);
        let byte = data[i];
        let ghost rest = data@.subrange(i as int, data@.len() as int);
        let ghost before = out@;
        proof {
            assert(rest.subrange(count as int, rest.len() as int) =~= data@.subrange(
                i + count,
                data@.len() as int,
            ));
            assert(rest[0] == byte);
        }
        if count > 3 {
            out.push(0xFF);
            out.push(count as u8);
            out.push(byte);
            proof {
                assert(out@ =~= before + seq![0xFFu8, count as u8, byte]);
                assert(out@ + run_length_encoded(
                    data@.subrange(i + count, data@.len() as int),
                ) =~= before + run_length_encoded(rest));
            }
        } else {
            crate::bytes::append_bytes(&mut out, slice_subrange(data, i, i + count));
            proof {
                assert(data@.subrange(i as int, i + count) =~= rest.subrange(0, count as int));
                assert(out@ + run_length_encoded(
                    data@.subrange(i + count, data@.len() as int),
                ) =~= before + run_length_encoded(rest));
            }
        }
        i += count;
    }
    proof {
        assert(data@.subrange(data@.len() as int, data@.len() as int) =~= Seq::<u8>::empty());
        assert(out@ + Seq::<u8>::empty() =~= out@);
    }
    Some(out)
}

/// What compressed proof data holds, where it is well formed.
pub open spec fn decompressed(compressed: Seq<u8>) -> Result<Seq<u8>, ProofFormatError> {
    if compressed.len() < 8 || compressed.subrange(0, 4) != compression_magic() {
        Err(ProofFormatError::InvalidFormat)
    } else {
        let body = expanded(compressed.subrange(8, compressed.len() as int));
        if body.len() != spec_u32_from_le_bytes(compressed.subrange(4, 8)) {
            Err(ProofFormatError::LengthMismatch)
        } else {
            Ok(body)
        }
    }
}

/// Decompresses proof data. Refused where the magic bytes are missing, and
/// where the data expands to another length than it announces.
pub fn decompress_proof_data(compressed: &[u8]) -> (out: Result<Vec<u8>, ProofFormatError>)
    ensures
        match decompressed(compressed@) {
            Ok(data) => out matches Ok(d) && d@ == data,
            Err(e) => out == Err::<Vec<u8>, ProofFormatError>(e),
        },
{
    let magic: [u8; 4] = [90, 75, 80, 49];
    proof {
        assert(magic@ =~= compression_magic());
    }
    if compressed.len() < 8 || !bytes_equal(slice_subrange(compressed, 0, 4), magic.as_slice()) {
        return Err(ProofFormatError::InvalidFormat);
    }
    let announced = u32_from_le_bytes(slice_subrange(compressed, 4, 8));
    let ghost body = compressed@.subrange(8, compressed@.len() as int);
    let mut out: Vec<u8> = Vec::new();
    let mut i: usize = 8;
    proof {
        assert(Seq::<u8>::empty() + expanded(body) =~= expanded(body));
    }
    while i < compressed.len()
        invariant
            8 <= i <= compressed@.len(),
            body == compressed@.subrange(8, compressed@.len() as int),
            out@ + expanded(compressed@.subrange(i as int, compressed@.len() as int)) == expanded(
                body,
            ),
        decreases compressed@.len() - i,
    {
        let ghost rest = compressed@.subrange(i as int, compressed@.len() as int);
        let ghost before = out@;
        if compressed[i] == 0xFF && compressed.len() - i > 2 {
            let count = compressed[i + 1] as usize;
            let byte = compressed[i + 2];
            let mut k: usize = 0;
            while k < count
                invariant
                    k <= count,
                    out@ == before + Seq::new(k as nat, |j: int| byte),
                decreases count - k,
            {
                out.push(byte);
                k += 1;
                proof {
                    assert(out@ =~= before + Seq::new(k as nat, |j: int| byte));
                }
            }
            proof {
                assert(rest[0] == 0xFF && rest[1] == count && rest[2] == byte);
                assert(rest.subrange(3, rest.len() as int) =~= compressed@.subrange(
                    i + 3,
                    compressed@.len() as int,
                ));
                assert(Seq::new(rest[1] as nat, |j: int| rest[2]) =~= Seq::new(
                    count as nat,
                    |j: int| byte,
                ));
                assert(out@ + expanded(rest.subrange(3, rest.len() as int)) =~= before + expanded(
                    rest,
                ));
            }
            i += 3;
        } else {
            out.push(compressed[i]);
            proof {
                assert(rest.subrange(1, rest.len() as int) =~= compressed@.subrange(
                    i + 1,
                    compressed@.len() as int,
                ));
                assert(out@ =~= before + seq![rest[0]]);
                assert(out@ + expanded(rest.subrange(1, rest.len() as int)) =~= before + expanded(
                    rest,
                ));
            }
            i += 1;
        }
    }
    proof {
        assert(compressed@.subrange(compressed@.len() as int, compressed@.len() as int)
            =~= Seq::<u8>::empty());
        assert(out@ + Seq::<u8>::empty() =~= out@);
    }
    if out.len() > 0xffff_ffff || out.len() as u32 != announced {
        return Err(ProofFormatError::LengthMismatch);
    }
    Ok(out)
}

/// The proof data in an NFC frame, where the frame is well formed: after
/// the magic bytes and a length in four little-endian bytes come that many
/// bytes of proof data, then the checksum of everything before it.
pub open spec fn nfc_payload(frame: Seq<u8>) -> Result<Seq<u8>, ProofFormatError> {
    if frame.len() < 16 || frame.subrange(0, 8) != nfc_magic() {
        Err(ProofFormatError::InvalidFormat)
    } else {
        let length = spec_u32_from_le_bytes(frame.subrange(8, 12)) as int;
        if frame.len() < 12 + length + 4 {
            Err(ProofFormatError::Truncated)
        } else if spec_u32_from_le_bytes(frame.subrange(12 + length, 12 + length + 4))
            != crc32_checksum(frame.subrange(0, 12 + length)) {
            Err(ProofFormatError::ChecksumMismatch)
        } else {
            Ok(frame.subrange(12, 12 + length))
        }
    }
}

/// Takes the proof data out of an NFC frame and checks its checksum.
pub fn parse_nfc_frame(frame: &[u8]) -> (out: Result<Vec<u8>, ProofFormatError>)
    ensures
        match nfc_payload(frame@) {
            Ok(data) => out matches Ok(d) && d@ == data,
            Err(e) => out == Err::<Vec<u8>, ProofFormatError>(e),
        },
{
    let magic: [u8; 8] = [81, 85, 66, 69, 69, 95, 90, 75];
    proof {
        assert(magic@ =~= nfc_magic());
    }
    if frame.len() < 16 || !bytes_equal(slice_subrange(frame, 0, 8), magic.as_slice()) {
        return Err(ProofFormatError::InvalidFormat);
    }
    let length = u32_from_le_bytes(slice_subrange(frame, 8, 12)) as u64;
    if ((frame.len() - 16) as u64) < length {
        return Err(ProofFormatError::Truncated);
    }
    let end = 12 + length as usize;
    let expected = u32_from_le_bytes(slice_subrange(frame, end, end + 4));
    if expected != crc32(slice_subrange(frame, 0, end)) {
        return Err(ProofFormatError::ChecksumMismatch);
    }
    Ok(copy_bytes(slice_subrange(frame, 12, end)))
}

/// The verifier of proofs of key ownership.
pub struct ZKProofVerifier;

impl ZKProofVerifier {
    /// A verifier.
    pub fn new() -> (out: Self) {
        ZKProofVerifier
    }

    /// Whether a nonce was seen before. The verifier keeps no record of
    /// nonces, so none was.
    pub fn is_replay_attack(&self, nonce: &[u8; 32]) -> (out: bool)
        ensures
            !out,
    {
        false
    }

    /// The verdict that the checks on a proof amount to.
    pub fn verdict(&self, checks: &ProofChecks) -> (out: ProofVerificationResult)
        ensures
            out == verdict_of(*checks),
    {
        if !checks.identity_matches {
            return ProofVerificationResult::Invalid;
        }
        if !checks.context_matches {
            return ProofVerificationResult::InvalidContext;
        }
        let age = if checks.now >= checks.timestamp {
            checks.now - checks.timestamp
        } else {
            0
        };
        if age > checks.validity_duration {
            return ProofVerificationResult::Expired;
        }
        if checks.replayed {
            return ProofVerificationResult::ReplayAttack;
        }
        if checks.classical_valid && checks.pq_valid && checks.claims_valid {
            ProofVerificationResult::Valid
        } else {
            ProofVerificationResult::Invalid
        }
    }

    /// Decompresses proof data.
    pub fn decompress_proof_data(&self, compressed: &[u8]) -> (out: Result<
        Vec<u8>,
        ProofFormatError,
    >)
        ensures
            match decompressed(compressed@) {
                Ok(data) => out matches Ok(d) && d@ == data,
                Err(e) => out == Err::<Vec<u8>, ProofFormatError>(e),
            },
    {
        decompress_proof_data(compressed)
    }
}

impl Default for ZKProofVerifier {
    fn default() -> (out: Self) {
        ZKProofVerifier::new()
    }
}

} // verus!

//! The counting behind the statistical checks of random numbers: how the
//! samples fall into buckets, and how often each byte value occurs in
//! them.

use vstd::bytes::{spec_u64_to_le_bytes, u64_to_le_bytes};
use vstd::pervasive::VecAdditionalExecFns;
use vstd::prelude::*;

verus! {

/// What a security check looks at.
#[derive(Debug, Clone, Copy, PartialEq, Eq, Hash, Structural)]
pub enum SecurityTestCategory {
    Entropy,
    TimingAttack,
    MemorySafety,
    Cryptographic,
    InputValidation,
    SideChannel,
    Performance,
}

/// How much the security checks do.
#[derive(Debug, Clone, Copy, PartialEq, Eq, Structural)]
pub struct SecurityTestConfig {
    pub entropy_test_samples: usize,
    pub timing_attack_iterations: usize,
    pub memory_test_size: usize,
    pub fuzz_test_iterations: usize,
    /// For how many seconds performance is measured.
    pub performance_test_secs: u64,
}

impl Default for SecurityTestConfig {
    fn default() -> (out: Self)
        ensures
            out == (SecurityTestConfig {
                entropy_test_samples: 10000,
                timing_attack_iterations: 1000,
                memory_test_size: 1048576,
                fuzz_test_iterations: 10000,
                performance_test_secs: 10,
            }),
    {
        SecurityTestConfig {
            entropy_test_samples: 10000,
            timing_attack_iterations: 1000,
            memory_test_size: 1024 * 1024,
            fuzz_test_iterations: 10000,
            performance_test_secs: 10,
        }
    }
}

/// Into how many buckets samples are sorted.
pub const BUCKET_COUNT: usize = 256;

/// How many of `samples` fall into `bucket`: a sample falls into the
/// bucket of its remainder modulo 256.
pub open spec fn in_bucket(samples: Seq<u64>, bucket: int) -> nat
    decreases samples.len(),
{
    if samples.len() == 0 {
        0
    } else {
        in_bucket(samples.drop_last(), bucket) + if samples.last() % 256 == bucket {
            1nat
        } else {
            0nat
        }
    }
}

/// How often the byte value `byte` occurs in `bytes`.
pub open spec fn occurrences(bytes: Seq<u8>, byte: int) -> nat
    decreases bytes.len(),
{
    if bytes.len() == 0 {
        0
    } else {
        occurrences(bytes.drop_last(), byte) + if bytes.last() == byte {
            1nat
        } else {
            0nat
        }
    }
}

/// How often the byte value `byte` occurs in the little-endian bytes of
/// `samples`.
pub open spec fn byte_tally(samples: Seq<u64>, byte: int) -> nat
    decreases samples.len(),
{
    if samples.len() == 0 {
        0
    } else {
        byte_tally(samples.drop_last(), byte) + occurrences(
            spec_u64_to_le_bytes(samples.last()),
            byte,
        )
    }
}

/// No bucket holds more samples than there are.
pub proof fn lemma_bucket_bound(samples: Seq<u64>, bucket: int)
    ensures
        in_bucket(samples, bucket) <= samples.len(),
    decreases samples.len(),
{
    if samples.len() > 0 {
        lemma_bucket_bound(samples.drop_last(), bucket);
    }
}

/// Sorts the samples into 256 buckets and counts each bucket.
pub fn bucket_histogram(samples: &[u64]) -> (out: Vec<u64>)
    ensures
        out@.len() == BUCKET_COUNT,
        forall|b: int| 0 <= b < BUCKET_COUNT ==> #[trigger] out@[b] == in_bucket(samples@, b),
{
    let mut buckets: Vec<u64> = Vec::new();
    let mut k: usize = 0;
    while k < BUCKET_COUNT
        invariant
            k <= BUCKET_COUNT,
            buckets@.len() == k,
            forall|b: int| 0 <= b < k ==> #[trigger] buckets@[b] == 0,
        decreases BUCKET_COUNT - k,
    {
        buckets.push(0);
        k += 1;
    }
    let mut i: usize = 0;
    assert(samples@.take(0) =~= Seq::<u64>::empty());
    while i < samples.len()
        invariant
            i <= samples@.len(),
            buckets@.len() == BUCKET_COUNT,
            forall|b: int|
                0 <= b < BUCKET_COUNT ==> #[trigger] buckets@[b] == in_bucket(
                    samples@.take(i as int),
                    b,
                ),
        decreases samples@.len() - i,
    {
        let bucket = (samples[i] % 256) as usize;
        proof {
            assert(samples@.take(i + 1).drop_last() =~= samples@.take(i as int));
            assert(samples@.take(i + 1).last() == samples@[i as int]);
            lemma_bucket_bound(samples@.take(i as int), bucket as int);
        }
        let count = buckets[bucket];
        buckets.set(bucket, count + 1);
        i += 1;
    }
    assert(samples@.take(i as int) =~= samples@);
    buckets
}

/// Counts how often each byte value occurs in the little-endian bytes of
/// the samples. There must be few enough samples for the counts to fit.
pub fn byte_histogram(samples: &[u64]) -> (out: Vec<u64>)
    requires
        samples@.len() <= u64::MAX / 8,
    ensures
        out@.len() == 256,
        forall|b: int| 0 <= b < 256 ==> #[trigger] out@[b] == byte_tally(samples@, b),
{
    let mut counts: Vec<u64> = Vec::new();
    let mut k: usize = 0;
    while k < 256
        invariant
            k <= 256,
            counts@.len() == k,
            forall|b: int| 0 <= b < k ==> #[trigger] counts@[b] == 0,
        decreases 256 - k,
    {
        counts.push(0);
        k += 1;
    }
    let mut i: usize = 0;
    assert(samples@.take(0) =~= Seq::<u64>::empty());
    while i < samples.len()
        invariant
            i <= samples@.len(),
            samples@.len() <= u64::MAX / 8,
            counts@.len() == 256,
            forall|b: int|
                0 <= b < 256 ==> #[trigger] counts@[b] == byte_tally(samples@.take(i as int), b),
            forall|b: int| 0 <= b < 256 ==> #[trigger] counts@[b] <= 8 * i,
        decreases samples@.len() - i,
    {
        let bytes = u64_to_le_bytes(samples[i]);
        let ghost before = counts@;
        proof {
            assert(samples@.take(i + 1).drop_last() =~= samples@.take(i as int));
            assert(samples@.take(i + 1).last() == samples@[i as int]);
            assert(bytes@.take(0) =~= Seq::<u8>::empty());
        }
        let mut j: usize = 0;
        while j < 8
            invariant
                j <= 8,
                bytes@.len() == 8,
                i < samples@.len(),
                samples@.len() <= u64::MAX / 8,
                counts@.len() == 256,
                before.len() == 256,
                forall|b: int|
                    0 <= b < 256 ==> #[trigger] counts@[b] == before[b] + occurrences(
                        bytes@.take(j as int),
                        b,
                    ),
                forall|b: int| 0 <= b < 256 ==> #[trigger] before[b] <= 8 * i,
                forall|b: int| 0 <= b < 256 ==> #[trigger] counts@[b] <= 8 * i + j,
            decreases 8 - j,
        {
            let byte = bytes[j] as usize;
            proof {
                assert(bytes@.take(j + 1).drop_last() =~= bytes@.take(j as int));
                assert(bytes@.take(j + 1).last() == bytes@[j as int]);
            }
            let count = counts[byte];
            counts.set(byte, count + 1);
            j += 1;
        }
        assert(bytes@.take(8) =~= bytes@);
        i += 1;
    }
    assert(samples@.take(i as int) =~= samples@);
    counts
}

} // verus!

//! A random number generator that is seeded from the operating system and
//! reseeds itself by use and by age.

use vstd::prelude::*;

use crate::bytes::{array32, concat3, copy_bytes};
use crate::primitives::{
    blake3_digest, blake3_hash, chacha_bytes, chacha_from_seed, chacha_next_u32, chacha_next_u64,
    os_random_bytes, unix_time_secs,
};

pub mod random;

verus! {

/// The generator is reseeded after it has given out this many bytes.
pub const RESEED_THRESHOLD: u64 = 1000000;

/// The generator is reseeded after this many seconds.
pub const RESEED_TIME_THRESHOLD: u64 = 3600;

/// Why no random value was produced.
#[derive(Debug, Clone, Copy, PartialEq, Eq, Structural)]
pub enum RngError {
    /// The operating system gave no random bytes.
    EntropyUnavailable,
}

/// Whether a generator that has given out `counter` bytes since it was
/// seeded at `last_reseed` is due for a new seed at time `now`.
pub open spec fn reseed_due(counter: u64, last_reseed: u64, now: u64) -> bool {
    counter >= RESEED_THRESHOLD || (now >= last_reseed && now - last_reseed
        >= RESEED_TIME_THRESHOLD)
}

/// The seed of a reseeded generator: fresh entropy mixed with the entropy
/// pool and the count of bytes given out, so that the new seed depends on
/// the old state as well.
pub open spec fn mixed_seed(fresh: Seq<u8>, pool: Seq<u8>, counter_bytes: Seq<u8>) -> Seq<u8> {
    blake3_digest(fresh + pool + counter_bytes)
}

/// Computes the seed of a reseeded generator from fresh entropy, the
/// entropy pool and the count of bytes given out.
pub fn reseed_seed(fresh: &[u8; 32], entropy_pool: &[u8], reseed_counter: u64) -> (out: [u8; 32])
    ensures
        out@ == mixed_seed(
            fresh@,
            entropy_pool@,
            vstd::bytes::spec_u64_to_le_bytes(reseed_counter),
        ),
{
    let counter_bytes = vstd::bytes::u64_to_le_bytes(reseed_counter);
    let input = concat3(fresh.as_slice(), entropy_pool, counter_bytes.as_slice());
    blake3_hash(input.as_slice())
}

/// `count` bytes more on a counter, which stops at its maximum.
pub open spec fn counted(counter: u64, count: int) -> u64 {
    if counter + count > u64::MAX {
        u64::MAX
    } else {
        (counter + count) as u64
    }
}

/// Entropy from the operating system mixed with entropy of the caller's
/// own gathering.
pub open spec fn mixed_entropy(primary: Seq<u8>, extra: Seq<u8>) -> Seq<u8> {
    blake3_digest(primary + extra)
}

/// Mixes entropy from the operating system with entropy that the caller
/// gathered elsewhere, such as timings and addresses.
pub fn mix_entropy(primary: &[u8], extra: &[u8]) -> (out: [u8; 32])
    ensures
        out@ == mixed_entropy(primary@, extra@),
{
    let input = crate::bytes::concat2(primary, extra);
    blake3_hash(input.as_slice())
}

/// Decides whether a generator is due for a new seed.
pub fn should_reseed(counter: u64, last_reseed: u64, now: u64) -> (out: bool)
    ensures
        out == reseed_due(counter, last_reseed, now),
{
    counter >= RESEED_THRESHOLD || (now >= last_reseed && now - last_reseed
        >= RESEED_TIME_THRESHOLD)
}

/// What is known of a generator: how many bytes it has given out since its
/// last seed, when that was, and its entropy pool.
pub struct RngView {
    pub reseed_counter: u64,
    pub last_reseed: u64,
    pub entropy_pool: Seq<u8>,
}

/// Whether a generator did at time `now` what its schedule says when it
/// was asked for `count` bytes. Where it was not due for a new seed, it
/// gave them out and counted them. Where it was due, it took a new seed
/// and a new pool of 64 bytes from the operating system first and counts
/// from there, or it failed for want of entropy and stayed as it was.
pub open spec fn drawn_at(before: RngView, after: RngView, ok: bool, count: int, now: u64) -> bool {
    if reseed_due(before.reseed_counter, before.last_reseed, now) {
        if ok {
            after.reseed_counter == counted(0, count) && after.entropy_pool.len() == 64
        } else {
            after == before
        }
    } else {
        ok && after == (RngView {
            reseed_counter: counted(before.reseed_counter, count),
            ..before
        })
    }
}

/// A ChaCha20 generator with an entropy pool and a reseeding schedule.
pub struct SecureRng {
    rng: rand_chacha::ChaCha20Rng,
    entropy_pool: Vec<u8>,
    reseed_counter: u64,
    last_reseed: u64,
}

impl SecureRng {
    /// What is known of the generator.
    pub closed spec fn view(&self) -> RngView {
        RngView {
            reseed_counter: self.reseed_counter,
            last_reseed: self.last_reseed,
            entropy_pool: self.entropy_pool@,
        }
    }

    /// A generator seeded with `seed` at time `now`.
    pub fn from_entropy(seed: &[u8; 32], entropy_pool: &[u8], now: u64) -> (out: Self)
        ensures
            out@ == (RngView {
                reseed_counter: 0,
                last_reseed: now,
                entropy_pool: entropy_pool@,
            }),
    {
        SecureRng {
            rng: chacha_from_seed(seed),
            entropy_pool: copy_bytes(entropy_pool),
            reseed_counter: 0,
            last_reseed: now,
        }
    }

    /// A generator seeded from the operating system.
    pub fn new() -> (out: Result<Self, RngError>)
        ensures
            out matches Ok(rng) ==> rng@.reseed_counter == 0 && rng@.entropy_pool.len() == 64,
    {
        let seed = match os_random_bytes(32) {
            Some(s) => array32(s.as_slice()),
            None => {
                return Err(RngError::EntropyUnavailable);
            },
        };
        let pool = match os_random_bytes(64) {
            Some(p) => p,
            None => {
                return Err(RngError::EntropyUnavailable);
            },
        };
        Ok(SecureRng::from_entropy(&seed, pool.as_slice(), unix_time_secs()))
    }

    /// Reseeds the generator with the fresh entropy handed in: the new seed
    /// mixes it with the entropy pool and the byte count, the pool is
    /// replaced, and the count starts again.
    pub fn reseed_with(&mut self, fresh: &[u8; 32], entropy_pool: &[u8], now: u64)
        ensures
            final(self)@ == (RngView {
                reseed_counter: 0,
                last_reseed: now,
                entropy_pool: entropy_pool@,
            }),
    {
        let seed = reseed_seed(fresh, self.entropy_pool.as_slice(), self.reseed_counter);
        self.rng = chacha_from_seed(&seed);
        self.entropy_pool = copy_bytes(entropy_pool);
        self.reseed_counter = 0;
        self.last_reseed = now;
    }

    /// Reseeds the generator from the operating system.
    pub fn reseed(&mut self) -> (out: Result<(), RngError>)
        ensures
            out is Ok ==> final(self)@.reseed_counter == 0 && final(self)@.entropy_pool.len()
                == 64,
            out is Err ==> final(self)@ == old(self)@,
    {
        let fresh = match os_random_bytes(32) {
            Some(s) => array32(s.as_slice()),
            None => {
                return Err(RngError::EntropyUnavailable);
            },
        };
        let pool = match os_random_bytes(64) {
            Some(p) => p,
            None => {
                return Err(RngError::EntropyUnavailable);
            },
        };
        self.reseed_with(&fresh, pool.as_slice(), unix_time_secs());
        Ok(())
    }

    /// Reseeds the generator if it is due at the present time.
    fn reseed_if_due(&mut self) -> (out: Result<(), RngError>)
        ensures
            out is Ok ==> final(self)@.reseed_counter == 0 || final(self)@ == old(self)@,
            out is Ok ==> final(self)@.reseed_counter < RESEED_THRESHOLD,
            out is Err ==> final(self)@ == old(self)@,
            exists|now: u64| #[trigger] drawn_at(old(self)@, final(self)@, out is Ok, 0, now),
    {
        let now = unix_time_secs();
        let out = if should_reseed(self.reseed_counter, self.last_reseed, now) {
            self.reseed()
        } else {
            Ok(())
        };
        assert(drawn_at(old(self)@, self@, out is Ok, 0, now));
        out
    }

    fn count(&mut self, count: u64)
        ensures
            final(self)@ == (RngView {
                reseed_counter: counted(old(self)@.reseed_counter, count as int),
                ..old(self)@
            }),
    {
        if count > u64::MAX - self.reseed_counter {
            self.reseed_counter = u64::MAX;
        } else {
            self.reseed_counter = self.reseed_counter + count;
        }
    }

    /// `len` random bytes. The generator reseeds itself first if it is due,
    /// and counts the bytes it gives out.
    pub fn bytes(&mut self, len: usize) -> (out: Result<Vec<u8>, RngError>)
        ensures
            out matches Ok(b) ==> b@.len() == len && (final(self)@.reseed_counter == counted(
                0,
                len as int,
            ) || final(self)@ == (RngView {
                reseed_counter: counted(old(self)@.reseed_counter, len as int),
                ..old(self)@
            })),
            out is Err ==> final(self)@ == old(self)@,
            exists|now: u64| #[trigger]
                drawn_at(old(self)@, final(self)@, out is Ok, len as int, now),
    {
        let due = self.reseed_if_due();
        let ghost now = choose|now: u64| #[trigger] drawn_at(old(self)@, self@, due is Ok, 0, now);
        match due {
            Ok(()) => {},
            Err(e) => {
                assert(drawn_at(old(self)@, self@, false, len as int, now));
                return Err(e);
            },
        }
        let out = chacha_bytes(&mut self.rng, len);
        self.count(len as u64);
        assert(drawn_at(old(self)@, self@, true, len as int, now));
        Ok(out)
    }

    /// Fills `dest` with random bytes. The generator reseeds itself first if
    /// it is due, and counts the bytes it gives out.
    pub fn fill_bytes(&mut self, dest: &mut Vec<u8>) -> (out: Result<(), RngError>)
        ensures
            final(dest)@.len() == old(dest)@.len(),
            out is Ok ==> final(self)@.reseed_counter == counted(0, old(dest)@.len() as int)
                || final(self)@ == (RngView {
                reseed_counter: counted(old(self)@.reseed_counter, old(dest)@.len() as int),
                ..old(self)@
            }),
            out is Err ==> final(self)@ == old(self)@ && final(dest)@ == old(dest)@,
            exists|now: u64| #[trigger]
                drawn_at(old(self)@, final(self)@, out is Ok, old(dest)@.len() as int, now),
    {
        let len = dest.len();
        let drawn = self.bytes(len);
        let ghost now = choose|now: u64| #[trigger]
            drawn_at(old(self)@, self@, drawn is Ok, len as int, now);
        let out = match drawn {
            Ok(bytes) => {
                *dest = bytes;
                Ok(())
            },
            Err(e) => Err(e),
        };
        assert(drawn_at(old(self)@, self@, out is Ok, old(dest)@.len() as int, now));
        out
    }

    /// A random `u64`.
    pub fn next_u64(&mut self) -> (out: Result<u64, RngError>)
        ensures
            out is Ok ==> final(self)@.reseed_counter == 8 || final(self)@ == (RngView {
                reseed_counter: counted(old(self)@.reseed_counter, 8),
                ..old(self)@
            }),
            out is Err ==> final(self)@ == old(self)@,
            exists|now: u64| #[trigger] drawn_at(old(self)@, final(self)@, out is Ok, 8, now),
    {
        let due = self.reseed_if_due();
        let ghost now = choose|now: u64| #[trigger] drawn_at(old(self)@, self@, due is Ok, 0, now);
        match due {
            Ok(()) => {},
            Err(e) => {
                assert(drawn_at(old(self)@, self@, due is Ok, 8, now));
                return Err(e);
            },
        }
        let value = chacha_next_u64(&mut self.rng);
        self.count(8);
        let out = Ok(value);
        assert(drawn_at(old(self)@, self@, out is Ok, 8, now));
        out
    }

    /// A random `u32`.
    pub fn next_u32(&mut self) -> (out: Result<u32, RngError>)
        ensures
            out is Ok ==> final(self)@.reseed_counter == 4 || final(self)@ == (RngView {
                reseed_counter: counted(old(self)@.reseed_counter, 4),
                ..old(self)@
            }),
            out is Err ==> final(self)@ == old(self)@,
            exists|now: u64| #[trigger] drawn_at(old(self)@, final(self)@, out is Ok, 4, now),
    {
        let due = self.reseed_if_due();
        let ghost now = choose|now: u64| #[trigger] drawn_at(old(self)@, self@, due is Ok, 0, now);
        match due {
            Ok(()) => {},
            Err(e) => {
                assert(drawn_at(old(self)@, self@, due is Ok, 4, now));
                return Err(e);
            },
        }
        let value = chacha_next_u32(&mut self.rng);
        self.count(4);
        let out = Ok(value);
        assert(drawn_at(old(self)@, self@, out is Ok, 4, now));
        out
    }

    /// How many bytes the generator has given out since its last seed.
    pub fn reseed_counter(&self) -> (out: u64)
        ensures
            out == self@.reseed_counter,
    {
        self.reseed_counter
    }
}

/// After a reseed the schedule starts afresh: a generator that was just
/// seeded is not due again before the time threshold has passed.
pub proof fn law_fresh_seed_is_not_due(now: u64, later: u64)
    requires
        later >= now,
        later - now < RESEED_TIME_THRESHOLD,
    ensures
        !reseed_due(0, now, later),
{
}

impl Drop for SecureRng {
    /// A generator that goes away overwrites its entropy pool with zeros.
    fn drop(&mut self)
        opens_invariants none
        no_unwind
    {
        crate::primitives::zeroize_vec(&mut self.entropy_pool);
    }
}

} // verus!

//! Small verified helpers on byte strings.

use vstd::prelude::*;

verus! {

/// Appends `src` to `dst`.
pub fn append_bytes(dst: &mut Vec<u8>, src: &[u8])
    ensures
        final(dst)@ == old(dst)@ + src@,
{
    let ghost before = dst@;
    let mut i: usize = 0;
    while i < src.len()
        invariant
            i <= src@.len(),
            dst@ == before + src@.subrange(0, i as int),
        decreases src@.len() - i,
    {
        dst.push(src[i]);
        i += 1;
        proof {
            assert(dst@ =~= before + src@.subrange(0, i as int));
        }
    }
    proof {
        assert(src@.subrange(0, src@.len() as int) =~= src@);
    }
}

/// A fresh vector holding the bytes of `src`.
pub fn copy_bytes(src: &[u8]) -> (out: Vec<u8>)
    ensures
        out@ == src@,
{
    let mut out: Vec<u8> = Vec::new();
    append_bytes(&mut out, src);
    proof {
        assert(Seq::<u8>::empty() + src@ =~= src@);
    }
    out
}

/// The concatenation of two byte strings.
pub fn concat2(a: &[u8], b: &[u8]) -> (out: Vec<u8>)
    ensures
        out@ == a@ + b@,
{
    let mut out = copy_bytes(a);
    append_bytes(&mut out, b);
    out
}

/// The concatenation of three byte strings.
pub fn concat3(a: &[u8], b: &[u8], c: &[u8]) -> (out: Vec<u8>)
    ensures
        out@ == a@ + b@ + c@,
{
    let mut out = concat2(a, b);
    append_bytes(&mut out, c);
    out
}

/// The bytes of `src` from `start` on.
pub fn tail_bytes(src: &[u8], start: usize) -> (out: Vec<u8>)
    requires
        start <= src@.len(),
    ensures
        out@ == src@.subrange(start as int, src@.len() as int),
{
    let mut out: Vec<u8> = Vec::new();
    let mut i: usize = start;
    while i < src.len()
        invariant
            start <= i <= src@.len(),
            out@ == src@.subrange(start as int, i as int),
        decreases src@.len() - i,
    {
        out.push(src[i]);
        i += 1;
        proof {
            assert(out@ =~= src@.subrange(start as int, i as int));
        }
    }
    out
}

/// The first 32 bytes of `src` as an array.
pub fn array32(src: &[u8]) -> (out: [u8; 32])
    requires
        src@.len() >= 32,
    ensures
        out@ == src@.subrange(0, 32),
{
    let mut out = [0u8; 32];
    let mut i: usize = 0;
    while i < 32
        invariant
            i <= 32,
            src@.len() >= 32,
            forall|j: int| 0 <= j < i ==> out@[j] == src@[j],
        decreases 32 - i,
    {
        out[i] = src[i];
        i += 1;
    }
    proof {
        assert(out@ =~= src@.subrange(0, 32));
    }
    out
}

/// The first 16 bytes of `src` as an array.
pub fn array16(src: &[u8]) -> (out: [u8; 16])
    requires
        src@.len() >= 16,
    ensures
        out@ == src@.subrange(0, 16),
{
    let mut out = [0u8; 16];
    let mut i: usize = 0;
    while i < 16
        invariant
            i <= 16,
            src@.len() >= 16,
            forall|j: int| 0 <= j < i ==> out@[j] == src@[j],
        decreases 16 - i,
    {
        out[i] = src[i];
        i += 1;
    }
    proof {
        assert(out@ =~= src@.subrange(0, 16));
    }
    out
}

/// The first 12 bytes of `src` as an array.
pub fn array12(src: &[u8]) -> (out: [u8; 12])
    requires
        src@.len() >= 12,
    ensures
        out@ == src@.subrange(0, 12),
{
    let mut out = [0u8; 12];
    let mut i: usize = 0;
    while i < 12
        invariant
            i <= 12,
            src@.len() >= 12,
            forall|j: int| 0 <= j < i ==> out@[j] == src@[j],
        decreases 12 - i,
    {
        out[i] = src[i];
        i += 1;
    }
    proof {
        assert(out@ =~= src@.subrange(0, 12));
    }
    out
}

/// Whether two byte strings hold the same bytes.
pub fn bytes_equal(a: &[u8], b: &[u8]) -> (out: bool)
    ensures
        out == (a@ == b@),
{
    if a.len() != b.len() {
        return false;
    }
    let mut i: usize = 0;
    while i < a.len()
        invariant
            i <= a@.len(),
            a@.len() == b@.len(),
            forall|j: int| 0 <= j < i ==> a@[j] == b@[j],
        decreases a@.len() - i,
    {
        if a[i] != b[i] {
            return false;
        }
        i += 1;
    }
    proof {
        assert(a@ =~= b@);
    }
    true
}

} // verus!

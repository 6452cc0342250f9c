//! Memory for secrets: an allocator that keeps within a budget, regions and
//! buffers that can be wiped.

use vstd::prelude::*;

use std::sync::atomic::AtomicUsize;
use std::sync::atomic::Ordering;

use crate::primitives::atomic_subtract;

verus! {

/// The budget of an allocator that is given none: 64 MiB.
pub const DEFAULT_MAX_ALLOCATION: usize = 67108864;

/// The size of a page, to which the footprint of a region is rounded up.
pub const PAGE_SIZE: usize = 4096;

/// Why an allocation was refused.
#[derive(Debug, Clone, Copy, PartialEq, Eq, Structural)]
pub enum AllocationError {
    /// A region of no bytes was asked for.
    ZeroSize,
    /// The region would take the allocator beyond its budget.
    LimitExceeded,
    /// The size cannot be rounded up to whole pages.
    InvalidLayout,
}

/// Sequence of `len` zero bytes.
pub open spec fn zeros(len: nat) -> Seq<u8> {
    Seq::new(len, |i: int| 0u8)
}

/// Why an allocator that has given out `current` bytes of a budget of `max`
/// refuses a region of `size` bytes, if it does.
pub open spec fn allocation_refusal(current: usize, size: usize, max: usize) -> Option<
    AllocationError,
> {
    if size == 0 {
        Some(AllocationError::ZeroSize)
    } else if current + size > max {
        Some(AllocationError::LimitExceeded)
    } else if size > usize::MAX - (PAGE_SIZE - 1) {
        Some(AllocationError::InvalidLayout)
    } else {
        None
    }
}

/// `size` rounded up to whole pages.
pub open spec fn page_aligned(size: usize) -> int {
    ((size + PAGE_SIZE - 1) / (PAGE_SIZE as int)) * PAGE_SIZE
}

/// Decides on an allocation.
pub fn check_allocation(current: usize, size: usize, max: usize) -> (out: Option<AllocationError>)
    ensures
        out == allocation_refusal(current, size, max),
{
    if size == 0 {
        Some(AllocationError::ZeroSize)
    } else if size > max || current > max - size {
        Some(AllocationError::LimitExceeded)
    } else if size > usize::MAX - (PAGE_SIZE - 1) {
        Some(AllocationError::InvalidLayout)
    } else {
        None
    }
}

/// Rounds a size up to whole pages.
pub fn align_to_page(size: usize) -> (out: usize)
    requires
        size <= usize::MAX - (PAGE_SIZE - 1),
    ensures
        out == page_aligned(size),
        out >= size,
        out - size < PAGE_SIZE,
        out % PAGE_SIZE == 0,
{
    let pages = (size + (PAGE_SIZE - 1)) / PAGE_SIZE;
    proof {
        assert(pages * 4096 >= size && pages * 4096 - size < 4096 && (pages * 4096) % 4096 == 0
            && pages * 4096 <= size + 4095) by (nonlinear_arith)
            requires
                pages == (size + 4095) / 4096,
        ;
    }
    pages * PAGE_SIZE
}

/// Wipes a byte string: every byte is zero afterwards.
pub fn wipe(buffer: &mut Vec<u8>)
    ensures
        final(buffer)@ == zeros(old(buffer)@.len()),
{
    crate::primitives::zeroize_vec(buffer);
}

/// A vector of `len` zero bytes.
fn zeroed(len: usize) -> (out: Vec<u8>)
    ensures
        out@ == zeros(len as nat),
{
    let mut out: Vec<u8> = Vec::new();
    let mut i: usize = 0;
    while i < len
        invariant
            i <= len,
            out@ == zeros(i as nat),
        decreases len - i,
    {
        out.push(0u8);
        i += 1;
        proof {
            assert(out@ =~= zeros(i as nat));
        }
    }
    out
}

/// Whether `out` is what the decision `refusal` asks for: that error where
/// there is one, a region where there is none.
pub open spec fn decided(
    refusal: Option<AllocationError>,
    out: Result<SecureMemoryRegion<'_>, AllocationError>,
) -> bool {
    match refusal {
        Some(e) => out is Err && out->Err_0 == e,
        None => out is Ok,
    }
}

/// An allocator of memory for secrets that keeps within a budget.
pub struct SecureAllocator {
    allocated_bytes: AtomicUsize,
    max_allocation: usize,
}

impl SecureAllocator {
    /// The budget of the allocator, in bytes.
    pub closed spec fn budget(&self) -> usize {
        self.max_allocation
    }

    /// An allocator with the default budget.
    pub fn new() -> (out: Self)
        ensures
            out.budget() == DEFAULT_MAX_ALLOCATION,
    {
        SecureAllocator {
            allocated_bytes: AtomicUsize::new(0),
            max_allocation: DEFAULT_MAX_ALLOCATION,
        }
    }

    /// An allocator with a budget of `max_allocation` bytes.
    pub fn with_max_allocation(max_allocation: usize) -> (out: Self)
        ensures
            out.budget() == max_allocation,
    {
        SecureAllocator { allocated_bytes: AtomicUsize::new(0), max_allocation }
    }

    /// The budget of the allocator.
    pub fn max_allocation(&self) -> (out: usize)
        ensures
            out == self.budget(),
    {
        self.max_allocation
    }

    /// How many bytes are given out at the moment.
    pub fn allocated(&self) -> (out: usize) {
        self.allocated_bytes.load(Ordering::Acquire)
    }

    /// Counts `size` more bytes as given out.
    fn reserve(&self, size: usize) {
        let _ = self.allocated_bytes.fetch_add(size, Ordering::AcqRel);
    }

    /// Allocates a region of `size` zero bytes. Refused where `size` is
    /// zero, and where the bytes given out already and `size` together
    /// exceed the budget. How many bytes are given out at the moment is
    /// read from a counter that other holders move, so the contract speaks
    /// of some number of bytes given out. The region returns its bytes to the budget when it
    /// is dropped.
    pub fn allocate_secure(&self, size: usize) -> (out: Result<SecureMemoryRegion<'_>,
        AllocationError>)
        ensures
            size == 0 ==> out is Err && out->Err_0 == AllocationError::ZeroSize,
            size > self.budget() ==> out is Err && out->Err_0 == AllocationError::LimitExceeded,
            exists|given_out: usize| #[trigger]
                decided(allocation_refusal(given_out, size, self.budget()), out),
            out matches Ok(region) ==> region@ == zeros(size as nat) && region.footprint()
                == page_aligned(size) && size <= self.budget(),
    {
        let current = self.allocated();
        let out = match check_allocation(current, size, self.max_allocation) {
            Some(e) => Err(e),
            None => {
                let aligned = align_to_page(size);
                self.reserve(size);
                Ok(
                    SecureMemoryRegion {
                        data: zeroed(size),
                        size: aligned,
                        actual_size: size,
                        allocator: self,
                    },
                )
            },
        };
        assert(decided(allocation_refusal(current, size, self.budget()), out));
        out
    }

    /// Takes the bytes of a region back into the budget.
    fn deallocate(&self, actual_size: usize)
        opens_invariants none
        no_unwind
    {
        atomic_subtract(&self.allocated_bytes, actual_size);
    }
}

impl Default for SecureAllocator {
    fn default() -> (out: Self)
        ensures
            out.budget() == DEFAULT_MAX_ALLOCATION,
    {
        SecureAllocator::new()
    }
}

/// A region of memory for a secret. It counts against its allocator's
/// budget for as long as it lives.
pub struct SecureMemoryRegion<'a> {
    data: Vec<u8>,
    size: usize,
    actual_size: usize,
    allocator: &'a SecureAllocator,
}

impl<'a> SecureMemoryRegion<'a> {
    /// The bytes of the region.
    pub closed spec fn view(&self) -> Seq<u8> {
        self.data@
    }

    /// The footprint of the region: its size rounded up to whole pages.
    pub closed spec fn footprint(&self) -> usize {
        self.size
    }

    /// The bytes of the region.
    pub fn as_slice(&self) -> (out: &[u8])
        ensures
            out@ == self@,
    {
        self.data.as_slice()
    }

    /// The bytes of the region, to be written.
    pub fn as_mut_slice(&mut self) -> (out: &mut [u8])
        ensures
            out@ == old(self)@,
            final(self)@ == final(out)@,
            final(self).footprint() == old(self).footprint(),
    {
        self.data.as_mut_slice()
    }

    /// How many bytes the region holds.
    pub fn len(&self) -> (out: usize)
        ensures
            out == self@.len(),
    {
        self.data.len()
    }

    /// Whether the region holds no bytes.
    pub fn is_empty(&self) -> (out: bool)
        ensures
            out == (self@.len() == 0),
    {
        self.data.len() == 0
    }

    /// Wipes the region: every byte is zero afterwards.
    pub fn zeroize(&mut self)
        ensures
            final(self)@ == zeros(old(self)@.len()),
            final(self).footprint() == old(self).footprint(),
    {
        crate::primitives::zeroize_vec(&mut self.data);
    }
}

impl<'a> Drop for SecureMemoryRegion<'a> {
    /// A region that goes away is wiped and gives its bytes back to the
    /// budget.
    fn drop(&mut self)
        opens_invariants none
        no_unwind
    {
        crate::primitives::zeroize_vec(&mut self.data);
        self.allocator.deallocate(self.actual_size);
    }
}

/// A buffer for a secret that can be wiped.
pub struct SecureBuffer {
    data: Vec<u8>,
    is_locked: bool,
}

impl SecureBuffer {
    /// The bytes in the buffer.
    pub closed spec fn view(&self) -> Seq<u8> {
        self.data@
    }

    /// Whether the buffer's memory is known to be locked.
    pub closed spec fn locked(&self) -> bool {
        self.is_locked
    }

    /// An empty buffer with room for `capacity` bytes.
    pub fn new(capacity: usize) -> (out: Result<Self, AllocationError>)
        ensures
            out matches Ok(buffer) && buffer@ == Seq::<u8>::empty() && !buffer.locked(),
    {
        Ok(SecureBuffer { data: Vec::with_capacity(capacity), is_locked: false })
    }

    /// A buffer that holds `data`.
    pub fn from_vec(data: Vec<u8>) -> (out: Self)
        ensures
            out@ == data@,
            !out.locked(),
    {
        SecureBuffer { data, is_locked: false }
    }

    /// Records whether the buffer's memory was locked by its holder.
    pub fn set_locked(&mut self, locked: bool)
        ensures
            final(self)@ == old(self)@,
            final(self).locked() == locked,
    {
        self.is_locked = locked;
    }

    /// Whether the buffer's memory is known to be locked.
    pub fn is_locked(&self) -> (out: bool)
        ensures
            out == self.locked(),
    {
        self.is_locked
    }

    /// The bytes in the buffer.
    pub fn as_slice(&self) -> (out: &[u8])
        ensures
            out@ == self@,
    {
        self.data.as_slice()
    }

    /// The bytes in the buffer, to be written.
    pub fn as_mut_slice(&mut self) -> (out: &mut [u8])
        ensures
            out@ == old(self)@,
            final(self)@ == final(out)@,
            final(self).locked() == old(self).locked(),
    {
        self.data.as_mut_slice()
    }

    /// Appends `other` to the buffer.
    pub fn extend_from_slice(&mut self, other: &[u8])
        ensures
            final(self)@ == old(self)@ + other@,
            final(self).locked() == old(self).locked(),
    {
        crate::bytes::append_bytes(&mut self.data, other);
    }

    /// Wipes the buffer and empties it.
    pub fn clear(&mut self)
        ensures
            final(self)@ == Seq::<u8>::empty(),
            final(self).locked() == old(self).locked(),
    {
        crate::primitives::zeroize_vec(&mut self.data);
        self.data.clear();
    }

    /// How many bytes the buffer holds.
    pub fn len(&self) -> (out: usize)
        ensures
            out == self@.len(),
    {
        self.data.len()
    }

    /// Whether the buffer holds no bytes.
    pub fn is_empty(&self) -> (out: bool)
        ensures
            out == (self@.len() == 0),
    {
        self.data.len() == 0
    }
}

/// A string that holds a secret.
pub struct SecureString {
    inner: String,
}

impl SecureString {
    /// The characters of the string.
    pub closed spec fn view(&self) -> Seq<char> {
        self.inner@
    }

    /// A secure string that holds `s`.
    pub fn new(s: String) -> (out: Self)
        ensures
            out@ == s@,
    {
        SecureString { inner: s }
    }

    /// A secure string that holds a copy of `s`.
    pub fn from_str(s: &str) -> (out: Self)
        ensures
            out@ == s@,
    {
        SecureString { inner: s.to_owned() }
    }

    /// The secret itself. Handle with care.
    pub fn expose_secret(&self) -> (out: &str)
        ensures
            out@ == self@,
    {
        self.inner.as_str()
    }

    /// The length of the string in bytes: that of its UTF-8 encoding.
    pub fn len(&self) -> (out: usize)
        ensures
            out == vstd::utf8::encode_utf8(self@).len() as usize,
    {
        self.inner.as_str().len()
    }

    /// Whether the string is empty.
    pub fn is_empty(&self) -> (out: bool)
        ensures
            out == (self@.len() == 0),
    {
        self.inner.as_str().is_empty()
    }
}

impl Drop for SecureBuffer {
    /// A buffer that goes away is wiped.
    fn drop(&mut self)
        opens_invariants none
        no_unwind
    {
        crate::primitives::zeroize_vec(&mut self.data);
    }
}

impl Drop for SecureString {
    /// A string that goes away is wiped.
    fn drop(&mut self)
        opens_invariants none
        no_unwind
    {
        crate::primitives::zeroize_text(&mut self.inner);
    }
}

} // verus!

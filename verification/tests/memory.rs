use qubee::security::secure_memory::{
    align_to_page, check_allocation, AllocationError, SecureAllocator, SecureBuffer, SecureString,
};

#[test]
fn test_secure_allocator() {
    let allocator = SecureAllocator::new();
    let region = allocator.allocate_secure(1024).expect("Should allocate");
    assert_eq!(region.len(), 1024);
}

#[test]
fn test_secure_buffer() {
    let mut buffer = SecureBuffer::new(1024).expect("Should create buffer");
    buffer.extend_from_slice(b"test data");
    assert_eq!(buffer.as_slice(), b"test data");

    buffer.clear();
    assert!(buffer.is_empty());
}

#[test]
fn test_secure_string() {
    let secure_str = SecureString::from_str("secret password");
    assert_eq!(secure_str.expose_secret(), "secret password");
    assert_eq!(secure_str.len(), 15);
}

#[test]
fn test_memory_region_zeroization() {
    let allocator = SecureAllocator::new();
    let mut region = allocator.allocate_secure(32).expect("Should allocate");

    region.as_mut_slice().copy_from_slice(&b"sensitive data that should be zero"[..32]);
    assert!(region.as_slice().iter().any(|&b| b != 0));

    region.zeroize();

    assert!(region.as_slice().iter().all(|&b| b == 0));
}

#[test]
fn test_allocation_limits() {
    let allocator = SecureAllocator::with_max_allocation(1024);

    let _region1 = allocator.allocate_secure(512).expect("Should allocate");

    let _region2 = allocator.allocate_secure(512).expect("Should allocate");

    let result = allocator.allocate_secure(1);
    assert!(result.is_err());
}

#[test]
fn a_dropped_region_returns_its_bytes() {
    let allocator = SecureAllocator::with_max_allocation(100);
    {
        let region = allocator.allocate_secure(100).expect("Should allocate");
        assert_eq!(allocator.allocated(), 100);
        assert!(!region.is_empty());
        assert!(region.as_slice().iter().all(|&b| b == 0));
        assert_eq!(allocator.allocate_secure(1).err(), Some(AllocationError::LimitExceeded));
    }
    assert_eq!(allocator.allocated(), 0);
    assert!(allocator.allocate_secure(100).is_ok());
}

#[test]
fn allocation_decisions() {
    let allocator = SecureAllocator::new();
    assert_eq!(allocator.max_allocation(), 64 * 1024 * 1024);
    assert_eq!(allocator.allocate_secure(0).err(), Some(AllocationError::ZeroSize));
    assert_eq!(check_allocation(0, 0, 10), Some(AllocationError::ZeroSize));
    assert_eq!(check_allocation(0, 10, 10), None);
    assert_eq!(check_allocation(1, 10, 10), Some(AllocationError::LimitExceeded));
    assert_eq!(check_allocation(usize::MAX, 1, usize::MAX), Some(AllocationError::LimitExceeded));
    assert_eq!(check_allocation(0, usize::MAX, usize::MAX), Some(AllocationError::InvalidLayout));
    assert_eq!(align_to_page(1), 4096);
    assert_eq!(align_to_page(4096), 4096);
    assert_eq!(align_to_page(4097), 8192);
    assert_eq!(align_to_page(0), 0);
}

#[test]
fn buffers_and_strings() {
    let mut buffer = SecureBuffer::from_vec(vec![1, 2, 3]);
    assert_eq!(buffer.len(), 3);
    assert!(!buffer.is_locked());
    buffer.set_locked(true);
    assert!(buffer.is_locked());
    buffer.as_mut_slice()[0] = 9;
    buffer.extend_from_slice(&[4]);
    assert_eq!(buffer.as_slice(), &[9, 2, 3, 4]);
    buffer.clear();
    assert_eq!(buffer.len(), 0);
    let empty = SecureString::new(String::new());
    assert!(empty.is_empty());
    assert!(!SecureString::from_str("x").is_empty());
}

#[test]
fn a_secure_string_is_as_long_as_its_bytes() {
    assert_eq!(SecureString::from_str("secret").len(), 6);
    assert_eq!(SecureString::from_str("schlüssel").len(), 10);
    assert_eq!(SecureString::new(String::new()).len(), 0);
}

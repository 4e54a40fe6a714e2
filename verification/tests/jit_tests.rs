use gaia_assembler::jit::{JitError, JitMemory};

#[test]
fn test_jit_alloc() {
    let jit = JitMemory::new(4096).unwrap();
    assert!(jit.capacity() >= 4096);
}

#[test]
fn jit_rounds_to_whole_pages() {
    let jit = JitMemory::with_page_size(5000, 4096).unwrap();
    assert_eq!(jit.capacity(), 8192);
    assert!(jit.is_empty());
    assert_eq!(jit.len(), 0);
}

#[test]
fn jit_zero_page_size_is_refused() {
    match JitMemory::with_page_size(10, 0) {
        Err(JitError::InvalidSize { capacity, page_size }) => {
            assert_eq!(capacity, 10);
            assert_eq!(page_size, 0);
        }
        _ => panic!("expected an invalid size"),
    }
}

#[test]
fn jit_rounding_overflow_is_refused() {
    assert!(matches!(JitMemory::with_page_size(usize::MAX, 4096), Err(JitError::InvalidSize { .. })));
}

#[test]
fn jit_write_appends_until_full() {
    let mut jit = JitMemory::with_page_size(3, 4).unwrap();
    assert_eq!(jit.capacity(), 4);
    jit.write(&[0x90, 0xc3]).unwrap();
    assert_eq!(jit.as_slice(), &[0x90, 0xc3]);
    jit.write(&[1, 2]).unwrap();
    assert_eq!(jit.len(), 4);
    match jit.write(&[7]) {
        Err(JitError::OutOfMemory { message }) => assert_eq!(message, "Not enough capacity in JIT buffer"),
        _ => panic!("expected out of memory"),
    }
    assert_eq!(jit.as_slice(), &[0x90, 0xc3, 1, 2]);
}

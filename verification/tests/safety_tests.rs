use sigscan::chain::{ChainRequest, PointerChainReader};
use sigscan::error::AppError;
use sigscan::region::MemoryRegion;
use sigscan::safety::{MemoryAccess, PatternMatcher, StringConverter};

const BASE: usize = 0x1000;

#[test]
fn test_memory_access_null_pointer() {
    let buffer = vec![0u8; 16];
    let region = MemoryRegion::new(BASE, &buffer).unwrap();
    let result = MemoryAccess::read_volatile_safe(&region, 0);
    assert!(result.is_err());
}

#[test]
fn test_string_converter_null_pointer() {
    let buffer = vec![0u8; 16];
    let region = MemoryRegion::new(BASE, &buffer).unwrap();
    let result = StringConverter::pcwstr_to_string(&region, 0);
    assert!(result.is_err());
}

#[test]
fn test_pattern_matcher_bounds_check() {
    let buffer = vec![0x55, 0x53, 0x56];
    let region = MemoryRegion::new(BASE, &buffer).unwrap();
    let pattern = [0x55, 0x53, 0x56, 0x57]; // Longer than buffer
    let mask = "xxxx";

    let result = PatternMatcher::matches_pattern_safe(&region, 0, &pattern, mask);
    assert!(result.is_err());
}

fn violation(result: Result<usize, AppError>) -> usize {
    match result {
        Err(AppError::MemoryAccessViolation { address }) => address,
        other => panic!("expected an access violation, got {:?}", other),
    }
}

fn word(value: usize) -> [u8; 8] {
    (value as u64).to_le_bytes()
}

/// Memory at BASE: a pointer to BASE+0x20 at +0x10, a pointer to BASE+0x30
/// at +0x20, a pointer to BASE+0x40 at +0x38, the wide string "pak" at
/// +0x40, a null pointer at +0x50.
fn image() -> Vec<u8> {
    let mut bytes = vec![0u8; 0x60];
    bytes[0x10..0x18].copy_from_slice(&word(BASE + 0x20));
    bytes[0x20..0x28].copy_from_slice(&word(BASE + 0x30));
    bytes[0x38..0x40].copy_from_slice(&word(BASE + 0x40));
    for (i, unit) in "pak".encode_utf16().enumerate() {
        bytes[0x40 + 2 * i..0x42 + 2 * i].copy_from_slice(&unit.to_le_bytes());
    }
    bytes
}

#[test]
fn test_read_volatile_and_byte() {
    let bytes = image();
    let region = MemoryRegion::new(BASE, &bytes).unwrap();
    assert_eq!(
        MemoryAccess::read_volatile_safe(&region, BASE + 0x10).unwrap(),
        (BASE + 0x20) as u64
    );
    assert!(matches!(
        MemoryAccess::read_volatile_safe(&region, BASE + 0x59),
        Err(AppError::MemoryAccessViolation { address }) if address == BASE + 0x59
    ));
    assert!(matches!(
        MemoryAccess::read_volatile_safe(&region, 0),
        Err(AppError::MemoryAccessViolation { address: 0 })
    ));
    assert_eq!(MemoryAccess::deref_pointer_safe(&region, BASE + 0x40).unwrap(), b'p');
    assert!(matches!(
        MemoryAccess::deref_pointer_safe(&region, BASE + 0x60),
        Err(AppError::MemoryAccessViolation { address }) if address == BASE + 0x60
    ));
    assert!(matches!(
        MemoryAccess::deref_pointer_safe(&region, 0),
        Err(AppError::MemoryAccessViolation { address: 0 })
    ));
}

#[test]
fn test_read_pointer_safe() {
    let bytes = image();
    let region = MemoryRegion::new(BASE, &bytes).unwrap();
    assert_eq!(MemoryAccess::read_pointer_safe(&region, BASE, 0x10).unwrap(), BASE + 0x20);
    // Null pointer: address 0.
    assert_eq!(violation(MemoryAccess::read_pointer_safe(&region, 0, 0x10)), 0);
    // Stored pointer is null: the address it was read at.
    assert_eq!(violation(MemoryAccess::read_pointer_safe(&region, BASE, 0x50)), BASE + 0x50);
    // Outside the region.
    assert_eq!(violation(MemoryAccess::read_pointer_safe(&region, BASE, 0x59)), BASE + 0x59);
    // The step leaves the address space.
    assert_eq!(violation(MemoryAccess::read_pointer_safe(&region, BASE, usize::MAX)), BASE);
}

#[test]
fn test_pointer_decisions() {
    assert_eq!(MemoryAccess::pointer_target(0x2000, 0x10).unwrap(), 0x2010);
    assert_eq!(violation(MemoryAccess::pointer_target(0, 0x10)), 0);
    assert_eq!(violation(MemoryAccess::pointer_target(2, usize::MAX)), 2);
    assert_eq!(MemoryAccess::pointer_target(1, usize::MAX - 1).unwrap(), usize::MAX);
    assert_eq!(MemoryAccess::check_pointer(0x2010, Some(0x3000)).unwrap(), 0x3000);
    assert_eq!(violation(MemoryAccess::check_pointer(0x2010, Some(0))), 0x2010);
    assert_eq!(violation(MemoryAccess::check_pointer(0x2010, None)), 0x2010);
}

#[test]
fn test_chain_from_null_fails_at_once() {
    let bytes = image();
    let region = MemoryRegion::new(BASE, &bytes).unwrap();
    assert_eq!(violation(PointerChainReader::read_chain(&region, 0, &[0x10, 0, 8])), 0);
    assert_eq!(violation(PointerChainReader::read_chain(&region, 0, &[])), 0);
    assert!(matches!(
        PointerChainReader::next_request(&[0x10, 0, 8], 0, 0),
        Err(AppError::MemoryAccessViolation { address: 0 })
    ));
    assert!(matches!(
        PointerChainReader::read_string(&region, 0, &[0x10, 0, 8]),
        Err(AppError::MemoryAccessViolation { address: 0 })
    ));
}

#[test]
fn test_chain_of_three_steps() {
    let bytes = image();
    let region = MemoryRegion::new(BASE, &bytes).unwrap();
    let offsets = [0x10, 0, 8];
    assert_eq!(PointerChainReader::read_chain(&region, BASE, &offsets).unwrap(), BASE + 0x40);
    assert_eq!(PointerChainReader::read_chain(&region, BASE, &offsets[..2]).unwrap(), BASE + 0x30);
    assert_eq!(PointerChainReader::read_chain(&region, BASE, &[]).unwrap(), BASE);
    assert_eq!(PointerChainReader::read_string(&region, BASE, &offsets).unwrap(), "pak");
    // The second step reads a null pointer at BASE+0x28 and the third is
    // never taken.
    assert_eq!(violation(PointerChainReader::read_chain(&region, BASE, &[0x10, 8, 8])), BASE + 0x28);
}

#[test]
fn test_chain_requests_step_by_step() {
    let offsets = [0x10, 0, 8];
    assert_eq!(
        PointerChainReader::next_request(&offsets, 0, 0x5000).unwrap(),
        ChainRequest::Read { address: 0x5010 }
    );
    assert_eq!(
        PointerChainReader::next_request(&offsets, 1, 0x6000).unwrap(),
        ChainRequest::Read { address: 0x6000 }
    );
    assert_eq!(
        PointerChainReader::next_request(&offsets, 2, 0x7000).unwrap(),
        ChainRequest::Read { address: 0x7008 }
    );
    assert_eq!(
        PointerChainReader::next_request(&offsets, 3, 0x8000).unwrap(),
        ChainRequest::Done { pointer: 0x8000 }
    );
    assert!(matches!(
        PointerChainReader::next_request(&offsets, 3, 0),
        Err(AppError::MemoryAccessViolation { address: 0 })
    ));
}

#[test]
fn test_wide_strings() {
    let bytes = image();
    let region = MemoryRegion::new(BASE, &bytes).unwrap();
    assert_eq!(StringConverter::pcwstr_to_string(&region, BASE + 0x40).unwrap(), "pak");
    assert_eq!(StringConverter::pcwstr_to_string(&region, BASE + 0x42).unwrap(), "ak");
    assert_eq!(StringConverter::pcwstr_to_string(&region, BASE + 0x46).unwrap(), "");
    match StringConverter::pcwstr_to_string(&region, 0) {
        Err(AppError::StringConversion { details }) => {
            assert_eq!(details, "PCWSTR pointer is null")
        }
        other => panic!("expected a conversion error, got {:?}", other),
    }
    // No terminator before the end of the region.
    let open = vec![0x41, 0x00, 0x42, 0x00, 0x43];
    let region = MemoryRegion::new(BASE, &open).unwrap();
    assert!(matches!(
        StringConverter::pcwstr_to_string(&region, BASE),
        Err(AppError::MemoryAccessViolation { address }) if address == BASE + 4
    ));
}

#[test]
fn test_decode_wide() {
    let units: Vec<u16> = "Pak\u{e9}\u{1F600}".encode_utf16().collect();
    assert_eq!(StringConverter::decode_wide(&units).unwrap(), "Pak\u{e9}\u{1F600}");
    assert_eq!(StringConverter::decode_wide(&[]).unwrap(), "");
    match StringConverter::decode_wide(&[0x41, 0xD800, 0x42]) {
        Err(AppError::StringConversion { details }) => {
            assert!(details.starts_with("UTF-16 to UTF-8 conversion failed: "));
            assert!(details.len() > "UTF-16 to UTF-8 conversion failed: ".len());
        }
        other => panic!("expected a conversion error, got {:?}", other),
    }
    assert_eq!(StringConverter::from_decoded(Ok("x".to_string())).unwrap(), "x");
    match StringConverter::from_decoded(Err("lone surrogate".to_string())) {
        Err(AppError::StringConversion { details }) => {
            assert_eq!(details, "UTF-16 to UTF-8 conversion failed: lone surrogate")
        }
        other => panic!("expected a conversion error, got {:?}", other),
    }
}

#[test]
fn test_matches_pattern_safe() {
    let buffer = vec![0x55, 0x53, 0x56];
    let region = MemoryRegion::new(BASE, &buffer).unwrap();
    assert_eq!(PatternMatcher::matches_pattern_safe(&region, 0, &[0x55, 0x53], "xx").unwrap(), true);
    assert_eq!(PatternMatcher::matches_pattern_safe(&region, 1, &[0x55, 0x53], "xx").unwrap(), false);
    assert_eq!(PatternMatcher::matches_pattern_safe(&region, 1, &[0x00, 0x56], "?x").unwrap(), true);
    assert!(matches!(
        PatternMatcher::matches_pattern_safe(&region, 0, &[0x55, 0x53], "x"),
        Err(AppError::PatternNotFound { size: 0 })
    ));
    assert!(matches!(
        PatternMatcher::matches_pattern_safe(&region, 2, &[0x56, 0x57], "xx"),
        Err(AppError::MemoryAccessViolation { address }) if address == BASE + 2
    ));
    assert!(matches!(
        PatternMatcher::matches_pattern_safe(&region, usize::MAX, &[0x56], "x"),
        Err(AppError::MemoryAccessViolation { address: usize::MAX })
    ));
    let null_region = MemoryRegion::new(0, &buffer).unwrap();
    assert!(matches!(
        PatternMatcher::matches_pattern_safe(&null_region, 0, &[0x55], "x"),
        Err(AppError::MemoryAccessViolation { address: 0 })
    ));
}

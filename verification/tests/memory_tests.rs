use sigscan::error::AppError;
use sigscan::region::MemoryRegion;
use sigscan::scanner::PatternScanner;

const BASE: usize = 0x1000;

#[test]
fn test_pattern_scanner_matches() {
    let scanner = PatternScanner::new();
    let buffer = vec![0x55, 0x53, 0x56, 0x41, 0x54];
    let region = MemoryRegion::new(BASE, &buffer).unwrap();
    let pattern = [0x55, 0x53];
    let mask = "xx";

    assert!(scanner.matches_pattern(&region, 0, &pattern, mask));
}

#[test]
fn test_pattern_scanner_no_match() {
    let scanner = PatternScanner::new();
    let buffer = vec![0x55, 0x54, 0x56, 0x41, 0x54];
    let region = MemoryRegion::new(BASE, &buffer).unwrap();
    let pattern = [0x55, 0x53];
    let mask = "xx";

    assert!(!scanner.matches_pattern(&region, 0, &pattern, mask));
}

#[test]
fn test_pattern_scanner_with_wildcard() {
    let scanner = PatternScanner::new();
    let buffer = vec![0x55, 0x00, 0x56, 0x41, 0x54];
    let region = MemoryRegion::new(BASE, &buffer).unwrap();
    let pattern = [0x55, 0x00];
    let mask = "x?"; // ? should match any byte

    assert!(scanner.matches_pattern(&region, 0, &pattern, mask));
}

#[test]
fn test_single_byte_pattern() {
    let mut scanner = PatternScanner::new();
    let buffer = vec![0x55, 0x53, 0x56, 0x41, 0x54];
    let region = MemoryRegion::new(BASE, &buffer).unwrap();
    let pattern = [0x53];
    let mask = "x";

    let result = scanner.scan(&region, &pattern, mask);
    assert!(result.is_ok());
    assert_eq!(result.unwrap(), BASE + 1);
}

#[test]
fn test_multi_byte_pattern() {
    let mut scanner = PatternScanner::new();
    let buffer = vec![0x55, 0x53, 0x56, 0x41, 0x54];
    let region = MemoryRegion::new(BASE, &buffer).unwrap();
    let pattern = [0x55, 0x53];
    let mask = "xx";

    let result = scanner.scan(&region, &pattern, mask);
    assert!(result.is_ok());
    assert_eq!(result.unwrap(), BASE);
}

#[test]
fn test_pattern_not_found() {
    let mut scanner = PatternScanner::new();
    let buffer = vec![0x55, 0x53, 0x56, 0x41, 0x54];
    let region = MemoryRegion::new(BASE, &buffer).unwrap();
    let pattern = [0xFF, 0xFF];
    let mask = "xx";

    let result = scanner.scan(&region, &pattern, mask);
    assert!(result.is_err());
}

#[test]
fn test_cache_functionality() {
    let mut scanner = PatternScanner::new();
    let buffer = vec![0x55, 0x53, 0x56, 0x41, 0x54];
    let region = MemoryRegion::new(BASE, &buffer).unwrap();
    let pattern = [0x55, 0x53];
    let mask = "xx";

    // First scan
    let result1 = scanner.scan(&region, &pattern, mask);
    assert!(result1.is_ok());

    // Second scan should use cache
    let result2 = scanner.scan(&region, &pattern, mask);
    assert!(result2.is_ok());
    assert_eq!(result1.unwrap(), result2.unwrap());

    // Check cache stats
    let (total, non_null) = scanner.cache_stats();
    assert!(total > 0);
    assert!(non_null > 0);
}

#[test]
fn test_clear_cache() {
    let mut scanner = PatternScanner::new();
    let buffer = vec![0x55, 0x53, 0x56, 0x41, 0x54];
    let region = MemoryRegion::new(BASE, &buffer).unwrap();
    let pattern = [0x55, 0x53];
    let mask = "xx";

    // Add something to cache
    let _ = scanner.scan(&region, &pattern, mask);
    assert!(scanner.cache_stats().0 > 0);

    // Clear cache
    scanner.clear_cache();
    assert_eq!(scanner.cache_stats().0, 0);
}

fn not_found_size(result: Result<usize, AppError>) -> usize {
    match result {
        Err(AppError::PatternNotFound { size }) => size,
        other => panic!("expected a pattern that was not found, got {:?}", other),
    }
}

#[test]
fn test_scan_scenarios() {
    let buffer = vec![0x55, 0x53, 0x56, 0x41, 0x54];
    let region = MemoryRegion::new(BASE, &buffer).unwrap();
    let mut scanner = PatternScanner::new();
    assert_eq!(scanner.scan(&region, &[0x55, 0x53], "xx").unwrap(), BASE);

    let buffer = vec![0x55, 0x99, 0x56];
    let region = MemoryRegion::new(BASE, &buffer).unwrap();
    let mut scanner = PatternScanner::new();
    assert_eq!(scanner.scan(&region, &[0x55, 0x00], "x?").unwrap(), BASE);

    let mut scanner = PatternScanner::new();
    assert_eq!(not_found_size(scanner.scan(&region, &[0xFF], "x")), 3);
}

#[test]
fn test_scan_returns_first_of_several_matches() {
    let buffer = vec![0x00, 0xAA, 0xBB, 0xAA, 0xBB, 0xAA, 0xCC];
    let region = MemoryRegion::new(BASE, &buffer).unwrap();
    let scanner = PatternScanner::new();
    assert_eq!(scanner.scan_impl(&region, &[0xAA, 0xBB], "xx").unwrap(), BASE + 1);
    assert_eq!(scanner.scan_impl(&region, &[0xAA, 0x00], "x?").unwrap(), BASE + 1);
    assert_eq!(scanner.scan_impl(&region, &[0xAA, 0xCC], "xx").unwrap(), BASE + 5);
    assert_eq!(scanner.scan_impl(&region, &[0x00, 0xCC], "?x").unwrap(), BASE + 5);
    assert_eq!(scanner.scan_impl(&region, &[0xAA], "x").unwrap(), BASE + 1);
    assert_eq!(scanner.scan_impl(&region, &[0xCC], "x").unwrap(), BASE + 6);
}

#[test]
fn test_scan_embedded_pattern_with_arbitrary_wildcard_bytes() {
    let pattern = [0x48, 0x00, 0x00, 0x8B];
    let mask = "x??x";
    for filler in [0x00u8, 0x48, 0x8B, 0xFF] {
        let buffer = vec![0x10, 0x11, 0x12, 0x48, filler, filler ^ 0x5A, 0x8B, 0x13];
        let region = MemoryRegion::new(BASE, &buffer).unwrap();
        let scanner = PatternScanner::new();
        assert_eq!(scanner.scan_impl(&region, &pattern, mask).unwrap(), BASE + 3);
    }
}

#[test]
fn test_scan_match_at_the_very_end() {
    let buffer = vec![1, 2, 3, 4, 5];
    let region = MemoryRegion::new(BASE, &buffer).unwrap();
    let scanner = PatternScanner::new();
    assert_eq!(scanner.scan_impl(&region, &[4, 5], "xx").unwrap(), BASE + 3);
    assert_eq!(scanner.scan_impl(&region, &[9, 5], "?x").unwrap(), BASE + 3);
    assert_eq!(scanner.scan_impl(&region, &[1, 2, 3, 4, 5], "xxxxx").unwrap(), BASE);
}

#[test]
fn test_scan_malformed_signatures_are_not_found() {
    let buffer = vec![1, 2, 3, 4, 5];
    let region = MemoryRegion::new(BASE, &buffer).unwrap();
    let scanner = PatternScanner::new();
    // Mask shorter than the pattern.
    assert_eq!(not_found_size(scanner.scan_impl(&region, &[1, 2], "x")), 5);
    // Empty pattern.
    assert_eq!(not_found_size(scanner.scan_impl(&region, &[], "")), 5);
    // Pattern longer than the region, with and without wildcards.
    assert_eq!(not_found_size(scanner.scan_impl(&region, &[1, 2, 3, 4, 5, 6], "xxxxxx")), 5);
    assert_eq!(not_found_size(scanner.scan_impl(&region, &[1, 2, 3, 4, 5, 6], "x?xxxx")), 5);
}

#[test]
fn test_scan_empty_region() {
    let buffer: Vec<u8> = Vec::new();
    let region = MemoryRegion::new(BASE, &buffer).unwrap();
    let mut scanner = PatternScanner::new();
    assert_eq!(not_found_size(scanner.scan(&region, &[1], "x")), 0);
    assert_eq!(scanner.cache_stats(), (0, 0));
}

#[test]
fn test_scan_unrecognized_mask_symbol_accepts_any_byte() {
    let buffer = vec![1, 2, 3];
    let region = MemoryRegion::new(BASE, &buffer).unwrap();
    let scanner = PatternScanner::new();
    assert_eq!(scanner.scan_impl(&region, &[2, 9], "xz").unwrap(), BASE + 1);
    assert!(scanner.matches_pattern(&region, 0, &[9, 9, 3], "abx"));
}

#[test]
fn test_matches_pattern_checks_bounds_and_lengths() {
    let buffer = vec![1, 2, 3];
    let region = MemoryRegion::new(BASE, &buffer).unwrap();
    let scanner = PatternScanner::new();
    assert!(scanner.matches_pattern(&region, 1, &[2, 3], "xx"));
    assert!(!scanner.matches_pattern(&region, 2, &[3, 4], "xx"));
    assert!(!scanner.matches_pattern(&region, 2, &[3, 4], "??"));
    assert!(!scanner.matches_pattern(&region, usize::MAX, &[3], "x"));
    assert!(!scanner.matches_pattern(&region, 0, &[1, 2], "x"));
    assert!(scanner.matches_pattern(&region, 3, &[], ""));
}

#[test]
fn test_cache_returns_remembered_address_without_rescanning() {
    let mut scanner = PatternScanner::new();
    let first = vec![0x55, 0x53, 0x56, 0x41, 0x54];
    let region = MemoryRegion::new(BASE, &first).unwrap();
    assert_eq!(scanner.scan(&region, &[0x56], "x").unwrap(), BASE + 2);

    // Same base and size, other contents and another signature: the
    // remembered address comes back.
    let second = vec![0u8; 5];
    let region = MemoryRegion::new(BASE, &second).unwrap();
    assert_eq!(scanner.scan(&region, &[0xEE, 0xEE], "xx").unwrap(), BASE + 2);
    assert_eq!(scanner.cache_stats(), (1, 1));

    // Another size is another region.
    let third = vec![0u8; 6];
    let region = MemoryRegion::new(BASE, &third).unwrap();
    assert_eq!(not_found_size(scanner.scan(&region, &[0xEE], "x")), 6);
    assert_eq!(scanner.cache_stats(), (1, 1));

    scanner.clear_cache();
    let region = MemoryRegion::new(BASE, &second).unwrap();
    assert_eq!(not_found_size(scanner.scan(&region, &[0xEE, 0xEE], "xx")), 5);
}

#[test]
fn test_cache_ignores_null_address() {
    // A region at address 0 that matches at offset 0 gives the null
    // address, which is stored but never served from the cache.
    let mut scanner = PatternScanner::new();
    let first = vec![7, 8, 9];
    let region = MemoryRegion::new(0, &first).unwrap();
    assert_eq!(scanner.scan(&region, &[7], "x").unwrap(), 0);
    assert_eq!(scanner.cache_stats(), (1, 0));
    let second = vec![1, 7, 9];
    let region = MemoryRegion::new(0, &second).unwrap();
    assert_eq!(scanner.scan(&region, &[7], "x").unwrap(), 1);
    assert_eq!(scanner.cache_stats(), (1, 1));
}

#[test]
fn test_region_bounds() {
    let bytes = vec![0x11, 0x22, 0x33, 0x44, 0x55, 0x66, 0x77, 0x88, 0x99];
    assert!(MemoryRegion::new(usize::MAX - 8, &bytes).is_none());
    assert!(MemoryRegion::new(usize::MAX - 9, &bytes).is_some());
    let region = MemoryRegion::new(BASE, &bytes).unwrap();
    assert_eq!(region.base(), BASE);
    assert_eq!(region.len(), 9);
    assert_eq!(region.as_bytes(), &bytes[..]);
    assert!(region.contains(BASE, 9));
    assert!(!region.contains(BASE, 10));
    assert!(!region.contains(BASE - 1, 1));
    assert!(region.contains(BASE + 9, 0));
    assert!(!region.contains(BASE + 10, 0));
    assert!(!region.contains(usize::MAX, 2));
    assert_eq!(region.read_u8(BASE + 8), Some(0x99));
    assert_eq!(region.read_u8(BASE + 9), None);
    assert_eq!(region.read_u16(BASE + 1), Some(0x3322));
    assert_eq!(region.read_u16(BASE + 8), None);
    assert_eq!(region.read_u64(BASE), Some(0x8877_6655_4433_2211));
    assert_eq!(region.read_u64(BASE + 1), Some(0x9988_7766_5544_3322));
    assert_eq!(region.read_u64(BASE + 2), None);
    assert_eq!(region.read_word(BASE), Some(0x8877_6655_4433_2211));
    assert_eq!(region.read_word(BASE - 1), None);
}

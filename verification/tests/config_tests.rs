use sigscan::config::Config;
use sigscan::error::AppError;

#[test]
fn test_config_validation_valid() {
    let config = Config::new("test.exe", &[0x55, 0x53], "xx");
    assert!(config.validate().is_ok());
}

#[test]
fn test_config_validation_empty_module() {
    let config = Config::new("", &[0x55, 0x53], "xx");
    assert!(config.validate().is_err());
}

#[test]
fn test_config_validation_mismatched_lengths() {
    let config = Config::new("test.exe", &[0x55, 0x53], "x");
    assert!(config.validate().is_err());
}

#[test]
fn test_config_validation_empty_pattern() {
    let config = Config::new("test.exe", &[], "xx");
    assert!(config.validate().is_err());
}

#[test]
fn test_config_validation_invalid_mask_character() {
    let config = Config::new("test.exe", &[0x55, 0x53], "xz");
    assert!(config.validate().is_err());
}

#[test]
fn test_config_with_limits() {
    let config = Config::with_limits("test.exe", &[0x55, 0x53], "xx", 1024, 1000);
    assert!(config.validate().is_ok());
    assert_eq!(config.max_scan_size, 1024);
    assert_eq!(config.ace_init_timeout_ms, 1000);
}

#[test]
fn test_config_has_wildcards() {
    let config_with_wildcards = Config::new("test.exe", &[0x55, 0x53], "x?");
    let config_without_wildcards = Config::new("test.exe", &[0x55, 0x53], "xx");

    assert!(config_with_wildcards.has_wildcards());
    assert!(!config_without_wildcards.has_wildcards());
}

#[test]
fn test_config_pattern_len() {
    let config = Config::new("test.exe", &[0x55, 0x53, 0x56], "xxx");
    assert_eq!(config.pattern_len(), 3);
}

fn invalid_parts(config: &Config) -> (String, String) {
    match config.validate() {
        Err(AppError::InvalidConfig { field, reason }) => (field, reason),
        other => panic!("expected an invalid configuration, got {:?}", other),
    }
}

#[test]
fn test_config_defaults() {
    let config = Config::new("test.exe", &[0x55], "x");
    assert_eq!(config.max_scan_size, 100 * 1024 * 1024);
    assert_eq!(config.ace_init_timeout_ms, 5000);
    assert_eq!(config.target_module, "test.exe");
    assert_eq!(config.pattern, &[0x55]);
    assert_eq!(config.mask, "x");
}

#[test]
fn test_config_reports_empty_module_name() {
    let config = Config::new("", &[], "");
    let (field, reason) = invalid_parts(&config);
    assert_eq!(field, "target_module");
    assert_eq!(reason, "Module name cannot be empty");
}

#[test]
fn test_config_reports_empty_pattern() {
    let config = Config::new("test.exe", &[], "");
    let (field, reason) = invalid_parts(&config);
    assert_eq!(field, "pattern");
    assert_eq!(reason, "Pattern cannot be empty");
}

#[test]
fn test_config_reports_empty_mask() {
    let config = Config::new("test.exe", &[0x55], "");
    let (field, reason) = invalid_parts(&config);
    assert_eq!(field, "mask");
    assert_eq!(reason, "Mask cannot be empty");
}

#[test]
fn test_config_reports_length_mismatch() {
    let pattern = [0u8; 12];
    let config = Config::new("test.exe", &pattern, "xxx");
    let (field, reason) = invalid_parts(&config);
    assert_eq!(field, "pattern/mask");
    assert_eq!(reason, "Pattern length (12) must match mask length (3)");
}

#[test]
fn test_config_reports_first_bad_symbol() {
    let config = Config::new("test.exe", &[1, 2, 3, 4], "x?zq");
    let (field, reason) = invalid_parts(&config);
    assert_eq!(field, "mask");
    assert_eq!(
        reason,
        "Invalid mask character 'z' at position 2 (only 'x' and '?' allowed)"
    );
}

#[test]
fn test_config_counts_mask_in_bytes() {
    // One symbol of two bytes: as long as the pattern in bytes, and rejected
    // for the symbol itself.
    let config = Config::new("test.exe", &[1, 2], "\u{e9}");
    let (field, reason) = invalid_parts(&config);
    assert_eq!(field, "mask");
    assert_eq!(
        reason,
        "Invalid mask character '\u{e9}' at position 0 (only 'x' and '?' allowed)"
    );
}

#[test]
fn test_config_reports_zero_scan_size() {
    let config = Config::with_limits("test.exe", &[0x55], "x", 0, 1000);
    let (field, reason) = invalid_parts(&config);
    assert_eq!(field, "max_scan_size");
    assert_eq!(reason, "Maximum scan size must be greater than 0");
}

#[test]
fn test_config_reports_zero_timeout() {
    let config = Config::with_limits("test.exe", &[0x55], "x", 1, 0);
    let (field, reason) = invalid_parts(&config);
    assert_eq!(field, "ace_init_timeout_ms");
    assert_eq!(reason, "ACE initialization timeout must be greater than 0");
}

#[test]
fn test_config_accepts_wildcards_only() {
    let config = Config::new("m", &[0, 0], "??");
    assert!(config.validate().is_ok());
    assert!(config.has_wildcards());
}

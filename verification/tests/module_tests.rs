use sigscan::error::AppError;
use sigscan::modules::{ModuleEntry, ModuleInfo, ModuleScanner, MAX_MODULES};

fn entry(handle: usize, name: Option<&str>) -> ModuleEntry {
    ModuleEntry { handle, name: name.map(|n| n.to_string()) }
}

fn listing() -> Vec<ModuleEntry> {
    vec![
        entry(0x10000, Some("kernel32.dll")),
        entry(0x20000, None),
        entry(0x30000, Some("Game-Win64.exe")),
        entry(0x40000, Some("game-win64.EXE")),
    ]
}

#[test]
fn test_find_module_ignores_ascii_case() {
    let scanner = ModuleScanner::new();
    assert_eq!(scanner.find_module_impl("game-win64.exe", &listing()).unwrap(), 0x30000);
    assert_eq!(scanner.find_module_impl("KERNEL32.DLL", &listing()).unwrap(), 0x10000);
    assert_eq!(scanner.find_module_impl("Game-Win64.exe", &listing()).unwrap(), 0x30000);
}

#[test]
fn test_find_module_not_found() {
    let scanner = ModuleScanner::new();
    match scanner.find_module_impl("user32.dll", &listing()) {
        Err(AppError::ModuleNotFound { name }) => assert_eq!(name, "user32.dll"),
        other => panic!("expected a module that was not found, got {:?}", other),
    }
    assert!(scanner.find_module_impl("kernel32.dl", &listing()).is_err());
    assert!(scanner.find_module_impl("", &listing()).is_err());
    assert!(scanner.find_module_impl("kernel32.dll", &[]).is_err());
    // Only ASCII letters are folded.
    let accented = vec![entry(1, Some("caf\u{c9}.dll"))];
    assert!(scanner.find_module_impl("caf\u{e9}.dll", &accented).is_err());
    assert_eq!(scanner.find_module_impl("CAF\u{c9}.DLL", &accented).unwrap(), 1);
}

#[test]
fn test_find_module_stops_after_the_maximum() {
    let mut modules: Vec<ModuleEntry> = Vec::new();
    for i in 0..MAX_MODULES {
        modules.push(entry(i + 1, Some("filler.dll")));
    }
    modules.push(entry(0x7777, Some("late.dll")));
    let scanner = ModuleScanner::new();
    assert!(scanner.find_module_impl("late.dll", &modules).is_err());
    assert_eq!(scanner.find_module_impl("filler.dll", &modules).unwrap(), 1);
    modules.swap(MAX_MODULES - 1, MAX_MODULES);
    assert_eq!(scanner.find_module_impl("late.dll", &modules).unwrap(), 0x7777);
}

#[test]
fn test_find_module_remembers_the_answer() {
    let mut scanner = ModuleScanner::new();
    assert_eq!(scanner.cached("kernel32.dll"), None);
    assert_eq!(scanner.find_module("kernel32.dll", Ok(listing())).unwrap(), 0x10000);
    assert_eq!(scanner.cached("kernel32.dll"), Some(0x10000));
    // The cache is by the exact name.
    assert_eq!(scanner.cached("KERNEL32.dll"), None);
    // A remembered name needs no listing.
    assert_eq!(scanner.find_module("kernel32.dll", Ok(Vec::new())).unwrap(), 0x10000);
    let failure = std::io::Error::new(std::io::ErrorKind::Other, "denied");
    assert_eq!(scanner.find_module("kernel32.dll", Err(failure)).unwrap(), 0x10000);
    // A miss is not remembered.
    assert!(scanner.find_module("user32.dll", Ok(listing())).is_err());
    assert_eq!(scanner.cached("user32.dll"), None);
}

#[test]
fn test_find_module_reports_failed_listing() {
    let mut scanner = ModuleScanner::new();
    let failure = std::io::Error::new(std::io::ErrorKind::Other, "denied");
    match scanner.find_module("kernel32.dll", Err(failure)) {
        Err(AppError::EnumerationFailed { source }) => assert_eq!(source.to_string(), "denied"),
        other => panic!("expected a failed listing, got {:?}", other),
    }
}

#[test]
fn test_get_module_info() {
    let scanner = ModuleScanner::new();
    let info = ModuleInfo { base_address: 0x30000, image_size: 0x5000, entry_point: 0x31000 };
    assert_eq!(scanner.get_module_info(Ok(info)).unwrap(), info);
    let failure = std::io::Error::new(std::io::ErrorKind::Other, "denied");
    match scanner.get_module_info(Err(failure)) {
        Err(AppError::ModuleInfoFailed { source }) => assert_eq!(source.to_string(), "denied"),
        other => panic!("expected failed module information, got {:?}", other),
    }
}

#[test]
fn test_get_module_name() {
    let scanner = ModuleScanner::new();
    let mut buffer = [0u8; 16];
    buffer[..8].copy_from_slice(b"game.exe");
    assert_eq!(scanner.get_module_name(&buffer, 8).unwrap(), "game.exe");
    assert_eq!(scanner.get_module_name(&buffer, 0), None);
    // Nothing behind the first zero byte counts.
    buffer[9] = b'x';
    assert_eq!(scanner.get_module_name(&buffer, 8).unwrap(), "game.exe");
    // Without a zero byte the whole buffer is the name.
    assert_eq!(scanner.get_module_name(b"abc", 3).unwrap(), "abc");
    // Bytes that are not UTF-8 give no name.
    assert_eq!(scanner.get_module_name(&[0x66, 0xFF, 0x00], 2), None);
    assert_eq!(scanner.get_module_name(&[0x00, 0x41], 1).unwrap(), "");
}

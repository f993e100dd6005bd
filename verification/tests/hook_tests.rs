use sigscan::error::AppError;
use sigscan::hooks::{HookRequest, HookState, PakFileHook};
use sigscan::waiter::{ReadinessWaiter, WaitStep};

fn hook_failure(result: Result<(), AppError>) -> String {
    match result {
        Err(AppError::HookFailed { message }) => message,
        other => panic!("expected a hook failure, got {:?}", other),
    }
}

#[test]
fn test_new_hook_is_uninitialized() {
    let hook = PakFileHook::new();
    assert_eq!(hook.state(), HookState::Uninitialized);
    assert_eq!(hook.target_address(), None);
    assert_eq!(hook.replacement(), None);
    assert!(!hook.is_active());
    let info = hook.info();
    assert_eq!(info.state, HookState::Uninitialized);
    assert_eq!(info.target_address, None);
    assert!(!info.is_active);
}

#[test]
fn test_apply_twice_is_rejected_the_second_time() {
    let mut hook = PakFileHook::new();
    let request = hook.apply(0x4000, 0x9000).unwrap();
    assert_eq!(request, HookRequest { address: 0x4000, replacement: 0x9000 });
    assert_eq!(hook.state(), HookState::Applying);
    assert_eq!(hook.target_address(), None);
    assert!(hook.complete(Ok(())).is_ok());
    assert_eq!(hook.state(), HookState::Applied);
    assert!(hook.is_active());
    assert_eq!(hook.target_address(), Some(0x4000));
    assert_eq!(hook.replacement(), Some(0x9000));

    match hook.apply(0x5000, 0x9000) {
        Err(AppError::HookFailed { message }) => assert_eq!(message, "Hook is already applied"),
        other => panic!("expected a hook failure, got {:?}", other),
    }
    assert_eq!(hook.state(), HookState::Applied);
    assert_eq!(hook.target_address(), Some(0x4000));
    let info = hook.info();
    assert!(info.is_active);
    assert_eq!(info.target_address, Some(0x4000));
}

#[test]
fn test_remove_before_apply_is_rejected() {
    let mut hook = PakFileHook::new();
    assert_eq!(hook_failure(hook.remove()), "Cannot remove hook in state: Uninitialized");
    assert_eq!(hook.state(), HookState::Uninitialized);
}

#[test]
fn test_failed_installation_is_recorded() {
    let mut hook = PakFileHook::new();
    hook.apply(0x4000, 0x9000).unwrap();
    let message = hook_failure(hook.complete(Err("AllocFailed".to_string())));
    assert_eq!(message, "Failed to apply hook: AllocFailed");
    assert_eq!(hook.state(), HookState::Failed);
    assert_eq!(hook.target_address(), None);
    assert!(!hook.is_active());
    assert_eq!(hook_failure(hook.remove()), "Cannot remove hook in state: Failed");
}

#[test]
fn test_remove_after_apply() {
    let mut hook = PakFileHook::new();
    hook.apply(0x4000, 0x9000).unwrap();
    assert_eq!(hook_failure(hook.remove()), "Cannot remove hook in state: Applying");
    hook.complete(Ok(())).unwrap();
    assert!(hook.remove().is_ok());
    assert_eq!(hook.state(), HookState::Removed);
    assert!(!hook.is_active());
    assert_eq!(hook.target_address(), Some(0x4000));
    assert_eq!(hook_failure(hook.remove()), "Cannot remove hook in state: Removed");
}

#[test]
fn test_complete_without_apply_is_rejected() {
    let mut hook = PakFileHook::new();
    assert_eq!(
        hook_failure(hook.complete(Ok(()))),
        "Cannot complete hook in state: Uninitialized"
    );
    assert_eq!(hook.state(), HookState::Uninitialized);
    hook.apply(1, 2).unwrap();
    hook.complete(Ok(())).unwrap();
    assert_eq!(hook_failure(hook.complete(Ok(()))), "Cannot complete hook in state: Applied");
    assert_eq!(hook.state(), HookState::Applied);
}

#[test]
fn test_state_names() {
    assert_eq!(HookState::Uninitialized.as_str(), "Uninitialized");
    assert_eq!(HookState::Applying.as_str(), "Applying");
    assert_eq!(HookState::Applied.as_str(), "Applied");
    assert_eq!(HookState::Failed.as_str(), "Failed");
    assert_eq!(HookState::Removed.as_str(), "Removed");
    assert_eq!(format!("{:?}", HookState::Applied), HookState::Applied.as_str());
}

#[test]
fn test_waiter_ends_at_first_change() {
    let mut waiter = ReadinessWaiter::new(0x4000, 0xAABB, 10);
    assert_eq!(waiter.address().unwrap(), 0x4000);
    assert_eq!(waiter.observe(0xAABB), WaitStep::Retry { after_ms: 10 });
    assert_eq!(waiter.observe(0xAABB), WaitStep::Retry { after_ms: 10 });
    assert_eq!(waiter.polls(), 2);
    assert_eq!(waiter.observe(0xAABC), WaitStep::Ready);
    assert_eq!(waiter.polls(), 2);
}

#[test]
fn test_waiter_with_deadline_expires() {
    let mut waiter = ReadinessWaiter::with_deadline(0x4000, 7, 5, 3);
    assert_eq!(waiter.observe(7), WaitStep::Retry { after_ms: 5 });
    assert_eq!(waiter.observe(7), WaitStep::Retry { after_ms: 5 });
    assert_eq!(waiter.observe(7), WaitStep::Expired);
    assert_eq!(waiter.observe(8), WaitStep::Ready);
    let mut at_once = ReadinessWaiter::with_deadline(0x4000, 7, 5, 0);
    assert_eq!(at_once.observe(7), WaitStep::Expired);
}

#[test]
fn test_waiter_refuses_null_address() {
    let waiter = ReadinessWaiter::new(0, 0, 10);
    assert!(matches!(
        waiter.address(),
        Err(AppError::MemoryAccessViolation { address: 0 })
    ));
}

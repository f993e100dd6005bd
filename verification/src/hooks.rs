//! The life cycle of one hook.
//!
//! Installing a hook rewrites code, which this library does not do. The
//! record kept here decides whether an installation may start, tells the
//! caller what to install, and takes note of how the installation ended.
//! A caller that shares the record between threads keeps it behind a single
//! lock, so that state and address are always read together.

use crate::error::{AppError, ErrorView};
use vstd::prelude::*;
use vstd::string::*;

verus! {

/// Where a hook stands in its life cycle.
#[derive(Debug, Clone, Copy, PartialEq, Eq, Structural)]
pub enum HookState {
    /// Nothing has been asked for yet.
    Uninitialized,
    /// An installation has been started and has not ended yet.
    Applying,
    /// The hook is installed.
    Applied,
    /// The last installation failed.
    Failed,
    /// The hook was installed and has been given up.
    Removed,
}

impl HookState {
    /// The name of the state.
    pub open spec fn name(self) -> Seq<char> {
        match self {
            HookState::Uninitialized => "Uninitialized"@,
            HookState::Applying => "Applying"@,
            HookState::Applied => "Applied"@,
            HookState::Failed => "Failed"@,
            HookState::Removed => "Removed"@,
        }
    }

    /// The name of the state as text.
    pub fn as_str(&self) -> (r: &'static str)
        ensures
            r@ == self.name(),
    {
        match self {
            HookState::Uninitialized => "Uninitialized",
            HookState::Applying => "Applying",
            HookState::Applied => "Applied",
            HookState::Failed => "Failed",
            HookState::Removed => "Removed",
        }
    }
}

/// What the caller has to install after `apply` has accepted: a transfer of
/// control at `address` to the routine known as `replacement`.
#[derive(Debug, Clone, Copy, PartialEq, Eq, Structural)]
pub struct HookRequest {
    pub address: usize,
    pub replacement: usize,
}

/// A snapshot of a hook: its state, the address it is installed at, and
/// whether it is installed now.
#[derive(Debug, Clone, Copy)]
pub struct HookInfo {
    pub state: HookState,
    pub target_address: Option<usize>,
    pub is_active: bool,
}

/// The mathematical content of a hook.
pub ghost struct HookRecord {
    /// The state.
    pub state: HookState,
    /// The address of the last successful installation.
    pub target_address: Option<usize>,
    /// The routine of the last successful installation.
    pub replacement: Option<usize>,
    /// What the installation in progress was started with.
    pub pending: HookRequest,
}

impl HookRecord {
    /// A hook for which nothing has been asked yet.
    pub open spec fn initial() -> HookRecord {
        HookRecord {
            state: HookState::Uninitialized,
            target_address: None,
            replacement: None,
            pending: HookRequest { address: 0, replacement: 0 },
        }
    }

    /// An installed hook has an address and a routine; a hook for which
    /// nothing was asked has neither.
    pub open spec fn consistent(self) -> bool {
        &&& self.state == HookState::Applied ==> self.target_address is Some
            && self.replacement is Some
        &&& self.state == HookState::Uninitialized ==> self.target_address is None
            && self.replacement is None
    }

    /// An installation may start unless the hook is installed.
    pub open spec fn accepts_apply(self) -> bool {
        self.state != HookState::Applied
    }

    /// Only an installed hook can be removed.
    pub open spec fn accepts_remove(self) -> bool {
        self.state == HookState::Applied
    }

    /// Only an installation in progress can be completed.
    pub open spec fn accepts_complete(self) -> bool {
        self.state == HookState::Applying
    }

    /// The hook after `apply`: an accepted request is in progress, a
    /// rejected one changes nothing.
    pub open spec fn after_apply(self, request: HookRequest) -> HookRecord {
        if self.accepts_apply() {
            HookRecord { state: HookState::Applying, pending: request, ..self }
        } else {
            self
        }
    }

    /// The hook after `complete`: the installation in progress has ended,
    /// with the pending request recorded if it succeeded.
    pub open spec fn after_complete(self, installed: bool) -> HookRecord {
        if !self.accepts_complete() {
            self
        } else if installed {
            HookRecord {
                state: HookState::Applied,
                target_address: Some(self.pending.address),
                replacement: Some(self.pending.replacement),
                ..self
            }
        } else {
            HookRecord { state: HookState::Failed, ..self }
        }
    }

    /// The hook after `remove`.
    pub open spec fn after_remove(self) -> HookRecord {
        if self.accepts_remove() {
            HookRecord { state: HookState::Removed, ..self }
        } else {
            self
        }
    }

    /// Whether the hook is installed.
    pub open spec fn is_active(self) -> bool {
        self.state == HookState::Applied
    }
}

/// The error of a rejected or failed hook operation.
pub open spec fn hook_failed(message: Seq<char>) -> ErrorView {
    ErrorView::HookFailed { message }
}

/// The error of a rejected or failed hook operation, from the two halves of
/// its message.
fn hook_error(head: &str, tail: &str) -> (e: AppError)
    ensures
        e@ == hook_failed(head@ + tail@),
{
    let mut message = String::from_str(head);
    message.append(tail);
    AppError::HookFailed { message }
}

/// A hook: its state, and where and with what it was last installed.
pub struct PakFileHook {
    state: HookState,
    target_address: Option<usize>,
    replacement: Option<usize>,
    pending: HookRequest,
}

impl View for PakFileHook {
    type V = HookRecord;

    closed spec fn view(&self) -> HookRecord {
        HookRecord {
            state: self.state,
            target_address: self.target_address,
            replacement: self.replacement,
            pending: self.pending,
        }
    }
}

impl PakFileHook {
    #[verifier::type_invariant]
    spec fn is_consistent(self) -> bool {
        self@.consistent()
    }

    /// A hook for which nothing has been asked yet.
    pub fn new() -> (r: Self)
        ensures
            r@ == HookRecord::initial(),
    {
        PakFileHook {
            state: HookState::Uninitialized,
            target_address: None,
            replacement: None,
            pending: HookRequest { address: 0, replacement: 0 },
        }
    }

    /// Starts the installation of `replacement` at `target_address`. An
    /// installed hook rejects this and stays as it is. Otherwise the hook
    /// is in progress, and the caller installs what the request names and
    /// reports the end with `complete`.
    pub fn apply(&mut self, target_address: usize, replacement: usize) -> (r: Result<
        HookRequest,
        AppError,
    >)
        ensures
            final(self)@ == old(self)@.after_apply(
                HookRequest { address: target_address, replacement },
            ),
            r is Ok <==> old(self)@.accepts_apply(),
            r matches Ok(request) ==> request == (HookRequest {
                address: target_address,
                replacement,
            }),
            r matches Err(e) ==> e@ == hook_failed("Hook is already applied"@),
    {
        proof {
            use_type_invariant(&*self);
        }
        if self.state == HookState::Applied {
            return Err(
                AppError::HookFailed { message: String::from_str("Hook is already applied") },
            );
        }
        let request = HookRequest { address: target_address, replacement };
        self.pending = request;
        self.state = HookState::Applying;
        Ok(request)
    }

    /// Takes note of how the installation in progress ended. After success
    /// the hook is installed at the address it was started with; after
    /// failure, reported with a description of the fault, it has failed.
    /// Without an installation in progress the call is rejected and the
    /// hook stays as it is.
    pub fn complete(&mut self, outcome: Result<(), String>) -> (r: Result<(), AppError>)
        ensures
            final(self)@ == old(self)@.after_complete(outcome is Ok),
            r is Ok <==> old(self)@.accepts_complete() && outcome is Ok,
            r matches Err(e) ==> e@ == (if !old(self)@.accepts_complete() {
                hook_failed("Cannot complete hook in state: "@ + old(self)@.state.name())
            } else {
                hook_failed("Failed to apply hook: "@ + outcome->Err_0@)
            }),
    {
        proof {
            use_type_invariant(&*self);
        }
        if self.state != HookState::Applying {
            return Err(hook_error("Cannot complete hook in state: ", self.state.as_str()));
        }
        match outcome {
            Ok(()) => {
                self.target_address = Some(self.pending.address);
                self.replacement = Some(self.pending.replacement);
                self.state = HookState::Applied;
                Ok(())
            },
            Err(fault) => {
                self.state = HookState::Failed;
                Err(hook_error("Failed to apply hook: ", fault.as_str()))
            },
        }
    }

    /// Gives up an installed hook. Only the record changes: the code that
    /// was rewritten stays rewritten. A hook that is not installed rejects
    /// this and stays as it is.
    pub fn remove(&mut self) -> (r: Result<(), AppError>)
        ensures
            final(self)@ == old(self)@.after_remove(),
            r is Ok <==> old(self)@.accepts_remove(),
            r matches Err(e) ==> e@ == hook_failed(
                "Cannot remove hook in state: "@ + old(self)@.state.name(),
            ),
    {
        proof {
            use_type_invariant(&*self);
        }
        if self.state != HookState::Applied {
            return Err(hook_error("Cannot remove hook in state: ", self.state.as_str()));
        }
        self.state = HookState::Removed;
        Ok(())
    }

    /// The state of the hook.
    pub fn state(&self) -> (r: HookState)
        ensures
            r == self@.state,
    {
        self.state
    }

    /// The address of the last successful installation.
    pub fn target_address(&self) -> (r: Option<usize>)
        ensures
            r == self@.target_address,
            self@.is_active() ==> r is Some,
    {
        proof {
            use_type_invariant(self);
        }
        self.target_address
    }

    /// The routine of the last successful installation.
    pub fn replacement(&self) -> (r: Option<usize>)
        ensures
            r == self@.replacement,
            self@.is_active() ==> r is Some,
    {
        proof {
            use_type_invariant(self);
        }
        self.replacement
    }

    /// Whether the hook is installed.
    pub fn is_active(&self) -> (r: bool)
        ensures
            r == self@.is_active(),
    {
        self.state == HookState::Applied
    }

    /// State, address and activity, read together.
    pub fn info(&self) -> (r: HookInfo)
        ensures
            r.state == self@.state,
            r.target_address == self@.target_address,
            r.is_active == self@.is_active(),
            r.is_active ==> r.target_address is Some,
    {
        proof {
            use_type_invariant(self);
        }
        HookInfo {
            state: self.state,
            target_address: self.target_address,
            is_active: self.state == HookState::Applied,
        }
    }
}

impl Default for PakFileHook {
    /// A hook for which nothing has been asked yet.
    fn default() -> (r: Self)
        ensures
            r@ == HookRecord::initial(),
    {
        PakFileHook::new()
    }
}

/// Every operation keeps a consistent hook consistent.
pub proof fn lemma_operations_keep_consistency(
    record: HookRecord,
    request: HookRequest,
    installed: bool,
)
    requires
        record.consistent(),
    ensures
        HookRecord::initial().consistent(),
        record.after_apply(request).consistent(),
        record.after_complete(installed).consistent(),
        record.after_remove().consistent(),
{
}

/// A hook that is not installed accepts `apply`; once the installation has
/// succeeded the hook is active at the address it was started with, and a
/// second `apply` is rejected and leaves it as it is, still installed.
pub proof fn lemma_second_apply_is_rejected(
    record: HookRecord,
    first: HookRequest,
    second: HookRequest,
)
    requires
        record.accepts_apply(),
    ensures
        ({
            let installed = record.after_apply(first).after_complete(true);
            &&& installed.is_active()
            &&& installed.state == HookState::Applied
            &&& installed.target_address == Some(first.address)
            &&& installed.replacement == Some(first.replacement)
            &&& !installed.accepts_apply()
            &&& installed.after_apply(second) == installed
        }),
{
}

/// A hook for which nothing was asked rejects `remove`, as does every hook
/// that is not installed.
pub proof fn lemma_remove_needs_installed_hook(record: HookRecord)
    ensures
        !HookRecord::initial().accepts_remove(),
        !record.is_active() ==> !record.accepts_remove() && record.after_remove() == record,
{
}

/// A failed installation leaves the hook failed, with the address of the
/// last success untouched; a removed hook is no longer active.
pub proof fn lemma_failure_and_removal(record: HookRecord, request: HookRequest)
    requires
        record.accepts_apply(),
    ensures
        record.after_apply(request).after_complete(false).state == HookState::Failed,
        record.after_apply(request).after_complete(false).target_address == record.target_address,
        record.after_apply(request).after_complete(true).after_remove().state
            == HookState::Removed,
        !record.after_apply(request).after_complete(true).after_remove().is_active(),
{
}

} // verus!

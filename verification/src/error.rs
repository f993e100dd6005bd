//! The error type shared by every component, with the text of each error.

use crate::text::{decimal, decimal_string, hex, hex_string};
use vstd::prelude::*;
use vstd::string::*;

verus! {

/// `std::io::Error`, carried through as a value that is never looked into.
#[verifier::external_type_specification]
#[verifier::external_body]
pub struct ExIoError(std::io::Error);

/// What can go wrong while resolving, scanning, reading and hooking.
#[derive(Debug)]
pub enum AppError {
    /// No loaded module carries the requested name.
    ModuleNotFound { name: String },
    /// The platform could not report a module's extent.
    ModuleInfoFailed { source: std::io::Error },
    /// The signature does not occur in the region; `size` is the number of
    /// bytes that were searched.
    PatternNotFound { size: usize },
    /// A wide string could not be turned into text.
    StringConversion { details: String },
    /// A panic was caught while reading foreign memory.
    PanicRecovery { reason: String },
    /// A hook operation was rejected or the edit failed.
    HookFailed { message: String },
    /// The console could not be allocated.
    ConsoleInitFailed { source: std::io::Error },
    /// A configuration value breaks one of the validation rules.
    InvalidConfig { field: String, reason: String },
    /// A read at `address` was refused.
    MemoryAccessViolation { address: usize },
    /// The platform could not list the loaded modules.
    EnumerationFailed { source: std::io::Error },
}

/// The mathematical content of an [`AppError`]: strings by their characters,
/// platform errors left out.
pub ghost enum ErrorView {
    ModuleNotFound { name: Seq<char> },
    ModuleInfoFailed,
    PatternNotFound { size: usize },
    StringConversion { details: Seq<char> },
    PanicRecovery { reason: Seq<char> },
    HookFailed { message: Seq<char> },
    ConsoleInitFailed,
    InvalidConfig { field: Seq<char>, reason: Seq<char> },
    MemoryAccessViolation { address: usize },
    EnumerationFailed,
}

impl ErrorView {
    /// The text of the error. For the three errors that wrap a platform
    /// error this is the part in front of the platform's own description.
    pub open spec fn text(self) -> Seq<char> {
        match self {
            ErrorView::ModuleNotFound { name } => "Module '"@ + name + "' not found"@,
            ErrorView::ModuleInfoFailed => "Failed to get module information: "@,
            ErrorView::PatternNotFound { size } => "Pattern not found in memory (searched "@
                + decimal(size as nat) + " bytes)"@,
            ErrorView::StringConversion { details } => "String conversion failed: "@ + details,
            ErrorView::PanicRecovery { reason } => "Panic recovery in unsafe code: "@ + reason,
            ErrorView::HookFailed { message } => "Hook application failed: "@ + message,
            ErrorView::ConsoleInitFailed => "Console initialization failed: "@,
            ErrorView::InvalidConfig { field, reason } => "Invalid configuration: "@ + field
                + " - "@ + reason,
            ErrorView::MemoryAccessViolation { address } => "Memory access violation at address "@
                + hex(address as nat),
            ErrorView::EnumerationFailed => "Module enumeration failed: "@,
        }
    }

    /// Whether the error wraps a platform error.
    pub open spec fn has_source(self) -> bool {
        self is ModuleInfoFailed || self is ConsoleInitFailed || self is EnumerationFailed
    }
}

impl View for AppError {
    type V = ErrorView;

    open spec fn view(&self) -> ErrorView {
        match self {
            AppError::ModuleNotFound { name } => ErrorView::ModuleNotFound { name: name@ },
            AppError::ModuleInfoFailed { .. } => ErrorView::ModuleInfoFailed,
            AppError::PatternNotFound { size } => ErrorView::PatternNotFound { size: *size },
            AppError::StringConversion { details } => ErrorView::StringConversion {
                details: details@,
            },
            AppError::PanicRecovery { reason } => ErrorView::PanicRecovery { reason: reason@ },
            AppError::HookFailed { message } => ErrorView::HookFailed { message: message@ },
            AppError::ConsoleInitFailed { .. } => ErrorView::ConsoleInitFailed,
            AppError::InvalidConfig { field, reason } => ErrorView::InvalidConfig {
                field: field@,
                reason: reason@,
            },
            AppError::MemoryAccessViolation { address } => ErrorView::MemoryAccessViolation {
                address: *address,
            },
            AppError::EnumerationFailed { .. } => ErrorView::EnumerationFailed,
        }
    }
}

/// The description that `std::io::Error` gives of itself through `Display`.
/// It depends on the platform and its language, so nothing is claimed of it.
#[verifier::external_body]
pub(crate) fn io_error_text(error: &std::io::Error) -> (text: String) {
    format!("{}", error)
}

impl AppError {
    /// The platform error that this error wraps, if it wraps one.
    pub open spec fn spec_source(&self) -> Option<&std::io::Error> {
        match self {
            AppError::ModuleInfoFailed { source } => Some(source),
            AppError::ConsoleInitFailed { source } => Some(source),
            AppError::EnumerationFailed { source } => Some(source),
            _ => None,
        }
    }

    /// The platform error underneath, for the errors that have one.
    pub fn source(&self) -> (r: Option<&std::io::Error>)
        ensures
            r == self.spec_source(),
            r is Some <==> self@.has_source(),
    {
        match self {
            AppError::ModuleInfoFailed { source } => Some(source),
            AppError::ConsoleInitFailed { source } => Some(source),
            AppError::EnumerationFailed { source } => Some(source),
            _ => None,
        }
    }

    /// The text shown for the error. An error that wraps a platform error
    /// ends with the platform's description of it.
    pub fn message(&self) -> (r: String)
        ensures
            !self@.has_source() ==> r@ == self@.text(),
            self@.has_source() ==> self@.text().is_prefix_of(r@),
    {
        match self {
            AppError::ModuleNotFound { name } => {
                let mut out = String::from_str("Module '");
                out.append(name.as_str());
                out.append("' not found");
                out
            },
            AppError::ModuleInfoFailed { source } => {
                let mut out = String::from_str("Failed to get module information: ");
                let tail = io_error_text(source);
                out.append(tail.as_str());
                out
            },
            AppError::PatternNotFound { size } => {
                let mut out = String::from_str("Pattern not found in memory (searched ");
                let digits = decimal_string(*size as u64);
                out.append(digits.as_str());
                out.append(" bytes)");
                out
            },
            AppError::StringConversion { details } => {
                let mut out = String::from_str("String conversion failed: ");
                out.append(details.as_str());
                out
            },
            AppError::PanicRecovery { reason } => {
                let mut out = String::from_str("Panic recovery in unsafe code: ");
                out.append(reason.as_str());
                out
            },
            AppError::HookFailed { message } => {
                let mut out = String::from_str("Hook application failed: ");
                out.append(message.as_str());
                out
            },
            AppError::ConsoleInitFailed { source } => {
                let mut out = String::from_str("Console initialization failed: ");
                let tail = io_error_text(source);
                out.append(tail.as_str());
                out
            },
            AppError::InvalidConfig { field, reason } => {
                let mut out = String::from_str("Invalid configuration: ");
                out.append(field.as_str());
                out.append(" - ");
                out.append(reason.as_str());
                out
            },
            AppError::MemoryAccessViolation { address } => {
                let mut out = String::from_str("Memory access violation at address ");
                let digits = hex_string(*address as u64);
                out.append(digits.as_str());
                out
            },
            AppError::EnumerationFailed { source } => {
                let mut out = String::from_str("Module enumeration failed: ");
                let tail = io_error_text(source);
                out.append(tail.as_str());
                out
            },
        }
    }
}

} // verus!

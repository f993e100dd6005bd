//! Reads of foreign memory that refuse null pointers and addresses outside
//! the region at hand, and the decoding of the wide strings found there.

use crate::error::{io_error_text, AppError, ErrorView};
use crate::pattern::{matches_at, position_matches, EXACT};
use crate::region::MemoryRegion;
use vstd::prelude::*;
use vstd::string::*;

verus! {

/// `std::string::FromUtf16Error`, of which only the description is used.
#[verifier::external_type_specification]
#[verifier::external_body]
pub struct ExFromUtf16Error(std::string::FromUtf16Error);

/// The text that a sequence of UTF-16 code units stands for; `None` where
/// the sequence is not well-formed UTF-16.
pub uninterp spec fn utf16_text(units: Seq<u16>) -> Option<Seq<char>>;

/// `String::from_utf16` decodes well-formed UTF-16 and fails on anything
/// else; the text it returns depends on the code units alone.
pub assume_specification[ String::from_utf16 ](v: &[u16]) -> (r: Result<
    String,
    std::string::FromUtf16Error,
>)
    ensures
        match r {
            Ok(text) => utf16_text(v@) == Some(text@),
            Err(_) => utf16_text(v@) is None,
        },
;

/// The description that `std::string::FromUtf16Error` gives of itself
/// through `Display`. Nothing is claimed of it.
#[verifier::external_body]
fn utf16_error_text(error: &std::string::FromUtf16Error) -> (text: String) {
    format!("{}", error)
}

/// The error for a read that was refused at `address`.
pub open spec fn violation_at(address: usize) -> AppError {
    AppError::MemoryAccessViolation { address }
}

/// Where one step of a pointer chain reads: `offset` bytes behind
/// `pointer`. A null pointer is refused, and so is a step that leaves the
/// address space.
pub open spec fn pointer_target(pointer: usize, offset: usize) -> Result<usize, AppError> {
    if pointer == 0 {
        Err(violation_at(0))
    } else if pointer + offset > usize::MAX {
        Err(violation_at(pointer))
    } else {
        Ok((pointer + offset) as usize)
    }
}

/// What one step of a pointer chain makes of the word it read at `target`:
/// a word that could not be read, or that is null, is refused.
pub open spec fn checked_pointer(target: usize, word: Option<usize>) -> Result<usize, AppError> {
    match word {
        Some(value) => if value == 0 {
            Err(violation_at(target))
        } else {
            Ok(value)
        },
        None => Err(violation_at(target)),
    }
}

/// One step of a pointer chain through a region.
pub open spec fn pointer_step(region: &MemoryRegion, pointer: usize, offset: usize) -> Result<
    usize,
    AppError,
> {
    match pointer_target(pointer, offset) {
        Ok(target) => checked_pointer(target, region.word_at(target as int)),
        Err(e) => Err(e),
    }
}

/// What a read of eight bytes at `address` gives.
pub open spec fn volatile_read(region: &MemoryRegion, address: usize) -> Result<u64, AppError> {
    if address == 0 {
        Err(violation_at(0))
    } else if region.covers(address as int, 8) {
        Ok(region.u64_at(address as int))
    } else {
        Err(violation_at(address))
    }
}

/// What a read of one byte at `address` gives.
pub open spec fn byte_read(region: &MemoryRegion, address: usize) -> Result<u8, AppError> {
    if address == 0 {
        Err(violation_at(0))
    } else if region.covers(address as int, 1) {
        Ok(region.byte_at(address as int))
    } else {
        Err(violation_at(address))
    }
}

/// The code units of the wide string that starts at `address`, up to the
/// zero unit that ends it; or the address of the first unit that lies
/// outside the region.
pub open spec fn wide_units(region: &MemoryRegion, address: int) -> Result<Seq<u16>, int>
    decreases region.spec_base() + region@.len() - address,
{
    if !region.covers(address, 2) {
        Err(address)
    } else if region.u16_at(address) == 0 {
        Ok(Seq::empty())
    } else {
        match wide_units(region, address + 2) {
            Ok(rest) => Ok(seq![region.u16_at(address)] + rest),
            Err(fault) => Err(fault),
        }
    }
}

/// The error for a wide string that could not be turned into text.
pub open spec fn conversion_failed(details: Seq<char>) -> ErrorView {
    ErrorView::StringConversion { details }
}

/// The console that the log is written to.
pub struct ConsoleManager;

impl ConsoleManager {
    /// What the allocation of the console came to: a refusal by the
    /// platform is reported as a failed console initialisation that wraps
    /// the platform's error.
    pub fn init(allocated: Result<(), std::io::Error>) -> (r: Result<(), AppError>)
        ensures
            match allocated {
                Ok(_) => r is Ok,
                Err(source) => r == Err::<(), AppError>(AppError::ConsoleInitFailed { source }),
            },
    {
        match allocated {
            Ok(()) => Ok(()),
            Err(source) => Err(AppError::ConsoleInitFailed { source }),
        }
    }
}

/// The worker thread that performs the run.
pub struct ThreadManager;

impl ThreadManager {
    /// What the creation of the worker thread came to: a refusal by the
    /// platform is reported as a hook failure whose message ends with the
    /// platform's description of its error.
    pub fn create_thread(created: Result<(), std::io::Error>) -> (r: Result<(), AppError>)
        ensures
            r is Ok <==> created is Ok,
            r matches Err(e) ==> e@ is HookFailed && "Thread creation failed: "@.is_prefix_of(
                e@->HookFailed_message,
            ),
    {
        match created {
            Ok(()) => Ok(()),
            Err(error) => {
                let mut message = String::from_str("Thread creation failed: ");
                let tail = io_error_text(&error);
                message.append(tail.as_str());
                Err(AppError::HookFailed { message })
            },
        }
    }
}

/// Checked reads of single values.
pub struct MemoryAccess;

impl MemoryAccess {
    /// The eight bytes at `address` as one little-endian value. A null
    /// address is refused, and so is one where the region does not hold all
    /// eight bytes.
    pub fn read_volatile_safe(region: &MemoryRegion, address: usize) -> (r: Result<u64, AppError>)
        ensures
            r == volatile_read(region, address),
    {
        if address == 0 {
            return Err(AppError::MemoryAccessViolation { address: 0 });
        }
        match region.read_u64(address) {
            Some(value) => Ok(value),
            None => Err(AppError::MemoryAccessViolation { address }),
        }
    }

    /// The byte at `address`. A null address is refused, and so is one
    /// outside the region.
    pub fn deref_pointer_safe(region: &MemoryRegion, address: usize) -> (r: Result<u8, AppError>)
        ensures
            r == byte_read(region, address),
    {
        if address == 0 {
            return Err(AppError::MemoryAccessViolation { address: 0 });
        }
        match region.read_u8(address) {
            Some(value) => Ok(value),
            None => Err(AppError::MemoryAccessViolation { address }),
        }
    }

    /// The address at which a step from `pointer` with `offset` reads.
    pub fn pointer_target(pointer: usize, offset: usize) -> (r: Result<usize, AppError>)
        ensures
            r == pointer_target(pointer, offset),
    {
        if pointer == 0 {
            return Err(AppError::MemoryAccessViolation { address: 0 });
        }
        match pointer.checked_add(offset) {
            Some(target) => Ok(target),
            None => Err(AppError::MemoryAccessViolation { address: pointer }),
        }
    }

    /// The pointer that a step hands on, from the word that was read at
    /// `target`; `None` stands for a word that could not be read.
    pub fn check_pointer(target: usize, word: Option<usize>) -> (r: Result<usize, AppError>)
        ensures
            r == checked_pointer(target, word),
    {
        match word {
            Some(value) => if value == 0 {
                Err(AppError::MemoryAccessViolation { address: target })
            } else {
                Ok(value)
            },
            None => Err(AppError::MemoryAccessViolation { address: target }),
        }
    }

    /// The pointer stored `offset` bytes behind `pointer`. A null pointer is
    /// refused with address 0; a stored pointer that cannot be read or is
    /// null is refused with the address it was read at.
    pub fn read_pointer_safe(region: &MemoryRegion, pointer: usize, offset: usize) -> (r: Result<
        usize,
        AppError,
    >)
        ensures
            r == pointer_step(region, pointer, offset),
            r matches Ok(value) ==> value != 0,
    {
        let target = Self::pointer_target(pointer, offset)?;
        Self::check_pointer(target, region.read_word(target))
    }
}

/// Decoding of wide strings.
pub struct StringConverter;

impl StringConverter {
    /// The result of a decoding, as this library reports it: the text, or
    /// the decoder's complaint behind a fixed prefix.
    pub fn from_decoded(decoded: Result<String, String>) -> (r: Result<String, AppError>)
        ensures
            match decoded {
                Ok(text) => r == Ok::<String, AppError>(text),
                Err(complaint) => r is Err && r->Err_0@ == conversion_failed(
                    "UTF-16 to UTF-8 conversion failed: "@ + complaint@,
                ),
            },
    {
        match decoded {
            Ok(text) => Ok(text),
            Err(complaint) => {
                let mut details = String::from_str("UTF-16 to UTF-8 conversion failed: ");
                details.append(complaint.as_str());
                Err(AppError::StringConversion { details })
            },
        }
    }

    /// The text of a sequence of UTF-16 code units. Units that are not
    /// well-formed UTF-16 give a conversion error and no partial text.
    pub fn decode_wide(units: &[u16]) -> (r: Result<String, AppError>)
        ensures
            match utf16_text(units@) {
                Some(text) => r is Ok && r->Ok_0@ == text,
                None => r is Err && r->Err_0@ is StringConversion
                    && "UTF-16 to UTF-8 conversion failed: "@.is_prefix_of(
                    r->Err_0@->StringConversion_details,
                ),
            },
    {
        match String::from_utf16(units) {
            Ok(text) => Self::from_decoded(Ok(text)),
            Err(error) => Self::from_decoded(Err(utf16_error_text(&error))),
        }
    }

    /// The text of the zero-terminated wide string at `address`. A null
    /// address gives a conversion error; a string that runs out of the
    /// region gives an access violation at the first unit outside it.
    #[verifier::loop_isolation(false)]
    pub fn pcwstr_to_string(region: &MemoryRegion, address: usize) -> (r: Result<
        String,
        AppError,
    >)
        ensures
            address == 0 ==> r is Err && r->Err_0@ == conversion_failed("PCWSTR pointer is null"@),
            address != 0 ==> match wide_units(region, address as int) {
                Err(fault) => r == Err::<String, AppError>(violation_at(fault as usize)),
                Ok(units) => match utf16_text(units) {
                    Some(text) => r is Ok && r->Ok_0@ == text,
                    None => r is Err && r->Err_0@ is StringConversion
                        && "UTF-16 to UTF-8 conversion failed: "@.is_prefix_of(
                        r->Err_0@->StringConversion_details,
                    ),
                },
            },
    {
        if address == 0 {
            return Err(
                AppError::StringConversion { details: String::from_str("PCWSTR pointer is null") },
            );
        }
        let end: usize = region.base() + region.len();
        let mut units: Vec<u16> = Vec::new();
        let mut at: usize = address;
        loop
            invariant
                end == region.spec_base() + region@.len(),
                wide_units(region, address as int) == match wide_units(region, at as int) {
                    Ok(rest) => Ok::<Seq<u16>, int>(units@ + rest),
                    Err(fault) => Err::<Seq<u16>, int>(fault),
                },
            decreases region.spec_base() + region@.len() - at,
        {
            match region.read_u16(at) {
                None => {
                    return Err(AppError::MemoryAccessViolation { address: at });
                },
                Some(unit) => {
                    if unit == 0 {
                        assert(units@ + Seq::<u16>::empty() =~= units@);
                        return Self::decode_wide(units.as_slice());
                    }
                    proof {
                        let rest = wide_units(region, at + 2);
                        if let Ok(tail) = rest {
                            assert(units@.push(unit) + tail =~= units@ + (seq![unit] + tail));
                        }
                    }
                    units.push(unit);
                    at = at + 2;
                },
            }
        }
    }
}

/// Matching a signature at one place, with every bound checked.
pub struct PatternMatcher;

impl PatternMatcher {
    /// Whether the signature matches the region at `offset`. A region at
    /// the null address is refused; a mask of another length than the
    /// pattern is reported as a pattern that was not found; a signature that
    /// would reach past the end of the region is refused with the address
    /// of `offset`, or the last address if there is none.
    #[verifier::loop_isolation(false)]
    pub fn matches_pattern_safe(
        region: &MemoryRegion,
        offset: usize,
        pattern: &[u8],
        mask: &str,
    ) -> (r: Result<bool, AppError>)
        ensures
            r == if region.spec_base() == 0 {
                Err::<bool, AppError>(violation_at(0))
            } else if pattern@.len() != mask.spec_bytes().len() {
                Err(AppError::PatternNotFound { size: 0 })
            } else if offset + pattern@.len() > region@.len() {
                Err(
                    violation_at(
                        if region.spec_base() + offset <= usize::MAX {
                            (region.spec_base() + offset) as usize
                        } else {
                            usize::MAX
                        },
                    ),
                )
            } else {
                Ok(matches_at(region@, offset as int, pattern@, mask.spec_bytes()))
            },
    {
        let base: usize = region.base();
        if base == 0 {
            return Err(AppError::MemoryAccessViolation { address: 0 });
        }
        let mask_bytes = mask.as_bytes();
        if pattern.len() != mask_bytes.len() {
            return Err(AppError::PatternNotFound { size: 0 });
        }
        let size: usize = region.len();
        if offset > size || pattern.len() > size - offset {
            return Err(AppError::MemoryAccessViolation { address: base.saturating_add(offset) });
        }
        let memory = region.as_bytes();
        let mut j: usize = 0;
        while j < pattern.len()
            invariant
                j <= pattern@.len(),
                memory@ == region@,
                mask_bytes@ == mask.spec_bytes(),
                pattern@.len() == mask_bytes@.len(),
                offset + pattern@.len() <= memory@.len(),
                size == memory@.len(),
                forall|t: int|
                    0 <= t < j ==> #[trigger] position_matches(
                        memory@,
                        offset as int,
                        pattern@,
                        mask_bytes@,
                        t,
                    ),
            decreases pattern@.len() - j,
        {
            if mask_bytes[j] == EXACT && memory[offset + j] != pattern[j] {
                assert(!position_matches(
                    memory@,
                    offset as int,
                    pattern@,
                    mask_bytes@,
                    j as int,
                ));
                return Ok(false);
            }
            j += 1;
        }
        Ok(true)
    }
}

} // verus!

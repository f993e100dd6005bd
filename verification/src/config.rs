//! The three values that a run is configured with, and the rules they must
//! meet before anything is resolved or scanned.

use crate::error::{AppError, ErrorView};
use crate::text::{decimal, decimal_string};
use vstd::prelude::*;
use vstd::string::*;

verus! {

/// The scan size that a configuration gets when none is given: 100 MiB.
pub const DEFAULT_MAX_SCAN_SIZE: usize = 104_857_600;

/// The readiness timeout that a configuration gets when none is given, in
/// milliseconds.
pub const DEFAULT_INIT_TIMEOUT_MS: u64 = 5000;

/// The name of the module to search, the signature to search for, and the
/// limits of the search.
#[derive(Debug, Clone, Copy)]
pub struct Config<'a> {
    /// Name of the module whose image is scanned.
    pub target_module: &'a str,
    /// The bytes of the signature.
    pub pattern: &'a [u8],
    /// One symbol for each pattern byte: `x` for a byte that must match,
    /// `?` for one that may be anything.
    pub mask: &'a str,
    /// The largest number of bytes that a scan may cover.
    pub max_scan_size: usize,
    /// How long to wait for the target to become ready, in milliseconds.
    pub ace_init_timeout_ms: u64,
}

/// Whether `symbol` is one of the two mask symbols.
pub open spec fn recognized(symbol: char) -> bool {
    symbol == 'x' || symbol == '?'
}

/// Position `i` holds the first symbol of the mask that is not recognized.
pub open spec fn first_unrecognized_at(mask: Seq<char>, i: int) -> bool {
    &&& 0 <= i < mask.len()
    &&& !recognized(mask[i])
    &&& forall|j: int| 0 <= j < i ==> recognized(#[trigger] mask[j])
}

/// Every symbol of the mask is recognized.
pub open spec fn all_recognized(mask: Seq<char>) -> bool {
    forall|j: int| 0 <= j < mask.len() ==> recognized(#[trigger] mask[j])
}

/// The error for a configuration value that breaks a rule.
pub open spec fn invalid(field: Seq<char>, reason: Seq<char>) -> ErrorView {
    ErrorView::InvalidConfig { field, reason }
}

/// The reason given when pattern and mask differ in length.
pub open spec fn length_mismatch_reason(pattern_len: nat, mask_len: nat) -> Seq<char> {
    "Pattern length ("@ + decimal(pattern_len) + ") must match mask length ("@ + decimal(mask_len)
        + ")"@
}

/// The reason given for the mask symbol `symbol` at position `i`.
pub open spec fn bad_symbol_reason(symbol: char, i: nat) -> Seq<char> {
    "Invalid mask character '"@ + seq![symbol] + "' at position "@ + decimal(i)
        + " (only 'x' and '?' allowed)"@
}

impl<'a> Config<'a> {
    /// The first rule that the configuration breaks, as the error that
    /// reports it; `None` for a configuration that breaks no rule. The rules,
    /// in the order in which they are checked: the module name is not
    /// empty; the pattern is not empty; the mask is not empty; the mask has
    /// as many bytes as the pattern; every mask symbol is `x` or `?`; the
    /// scan size is not zero; the timeout is not zero.
    pub open spec fn violation(&self) -> Option<ErrorView> {
        if self.target_module@.len() == 0 {
            Some(invalid("target_module"@, "Module name cannot be empty"@))
        } else if self.pattern@.len() == 0 {
            Some(invalid("pattern"@, "Pattern cannot be empty"@))
        } else if self.mask@.len() == 0 {
            Some(invalid("mask"@, "Mask cannot be empty"@))
        } else if self.pattern@.len() != self.mask.spec_bytes().len() {
            Some(
                invalid(
                    "pattern/mask"@,
                    length_mismatch_reason(self.pattern@.len(), self.mask.spec_bytes().len()),
                ),
            )
        } else if !all_recognized(self.mask@) {
            let i = choose|i: int| first_unrecognized_at(self.mask@, i);
            Some(invalid("mask"@, bad_symbol_reason(self.mask@[i], i as nat)))
        } else if self.max_scan_size == 0 {
            Some(invalid("max_scan_size"@, "Maximum scan size must be greater than 0"@))
        } else if self.ace_init_timeout_ms == 0 {
            Some(
                invalid(
                    "ace_init_timeout_ms"@,
                    "ACE initialization timeout must be greater than 0"@,
                ),
            )
        } else {
            None
        }
    }

    /// The configuration breaks no rule.
    pub open spec fn is_valid(&self) -> bool {
        &&& self.target_module@.len() > 0
        &&& self.pattern@.len() > 0
        &&& self.mask@.len() > 0
        &&& self.pattern@.len() == self.mask.spec_bytes().len()
        &&& all_recognized(self.mask@)
        &&& self.max_scan_size > 0
        &&& self.ace_init_timeout_ms > 0
    }

    /// A configuration with the default limits.
    pub fn new(target_module: &'a str, pattern: &'a [u8], mask: &'a str) -> (r: Self)
        ensures
            r.target_module == target_module,
            r.pattern == pattern,
            r.mask == mask,
            r.max_scan_size == DEFAULT_MAX_SCAN_SIZE,
            r.ace_init_timeout_ms == DEFAULT_INIT_TIMEOUT_MS,
    {
        Config {
            target_module,
            pattern,
            mask,
            max_scan_size: DEFAULT_MAX_SCAN_SIZE,
            ace_init_timeout_ms: DEFAULT_INIT_TIMEOUT_MS,
        }
    }

    /// A configuration with the given limits.
    pub fn with_limits(
        target_module: &'a str,
        pattern: &'a [u8],
        mask: &'a str,
        max_scan_size: usize,
        ace_init_timeout_ms: u64,
    ) -> (r: Self)
        ensures
            r.target_module == target_module,
            r.pattern == pattern,
            r.mask == mask,
            r.max_scan_size == max_scan_size,
            r.ace_init_timeout_ms == ace_init_timeout_ms,
    {
        Config { target_module, pattern, mask, max_scan_size, ace_init_timeout_ms }
    }

    /// Checks the rules in their order and reports the first that is broken.
    pub fn validate(&self) -> (r: Result<(), AppError>)
        ensures
            r is Ok <==> self.is_valid(),
            r is Ok <==> self.violation() is None,
            r matches Err(e) ==> self.violation() == Some(e@),
    {
        if self.target_module.is_empty() {
            return Err(config_error("target_module", String::from_str("Module name cannot be empty")));
        }
        if self.pattern.len() == 0 {
            return Err(config_error("pattern", String::from_str("Pattern cannot be empty")));
        }
        if self.mask.is_empty() {
            return Err(config_error("mask", String::from_str("Mask cannot be empty")));
        }
        let mask_bytes: usize = self.mask.as_bytes().len();
        if self.pattern.len() != mask_bytes {
            let mut reason = String::from_str("Pattern length (");
            let pattern_len = decimal_string(self.pattern.len() as u64);
            reason.append(pattern_len.as_str());
            reason.append(") must match mask length (");
            let mask_len = decimal_string(mask_bytes as u64);
            reason.append(mask_len.as_str());
            reason.append(")");
            assert(reason@ =~= length_mismatch_reason(
                self.pattern@.len(),
                self.mask.spec_bytes().len(),
            ));
            return Err(config_error("pattern/mask", reason));
        }
        let symbols: usize = self.mask.unicode_len();
        let mut i: usize = 0;
        while i < symbols
            invariant
                i <= symbols,
                symbols == self.mask@.len(),
                self.target_module@.len() > 0,
                self.pattern@.len() > 0,
                self.mask@.len() > 0,
                self.pattern@.len() == self.mask.spec_bytes().len(),
                forall|j: int| 0 <= j < i ==> recognized(#[trigger] self.mask@[j]),
            decreases symbols - i,
        {
            let symbol = self.mask.get_char(i);
            if symbol != 'x' && symbol != '?' {
                let mut reason = String::from_str("Invalid mask character '");
                reason.append(self.mask.substring_char(i, i + 1));
                reason.append("' at position ");
                let position = decimal_string(i as u64);
                reason.append(position.as_str());
                reason.append(" (only 'x' and '?' allowed)");
                proof {
                    assert(first_unrecognized_at(self.mask@, i as int));
                    let c = choose|c: int| first_unrecognized_at(self.mask@, c);
                    assert(c == i) by {
                        if c < i {
                            assert(recognized(self.mask@[c]));
                        }
                        if i < c {
                            assert(recognized(self.mask@[i as int]));
                        }
                    }
                    assert(self.mask@.subrange(i as int, i + 1) =~= seq![symbol]);
                    assert(reason@ =~= bad_symbol_reason(symbol, i as nat));
                }
                return Err(config_error("mask", reason));
            }
            i += 1;
        }
        assert(all_recognized(self.mask@));
        if self.max_scan_size == 0 {
            return Err(
                config_error(
                    "max_scan_size",
                    String::from_str("Maximum scan size must be greater than 0"),
                ),
            );
        }
        if self.ace_init_timeout_ms == 0 {
            return Err(
                config_error(
                    "ace_init_timeout_ms",
                    String::from_str("ACE initialization timeout must be greater than 0"),
                ),
            );
        }
        Ok(())
    }

    /// The number of bytes in the pattern.
    pub fn pattern_len(&self) -> (r: usize)
        ensures
            r == self.pattern@.len(),
    {
        self.pattern.len()
    }

    /// Whether the mask holds a wildcard symbol.
    pub fn has_wildcards(&self) -> (r: bool)
        ensures
            r == self.mask@.contains('?'),
    {
        let symbols: usize = self.mask.unicode_len();
        let mut i: usize = 0;
        while i < symbols
            invariant
                i <= symbols,
                symbols == self.mask@.len(),
                forall|j: int| 0 <= j < i ==> #[trigger] self.mask@[j] != '?',
            decreases symbols - i,
        {
            if self.mask.get_char(i) == '?' {
                return true;
            }
            i += 1;
        }
        false
    }
}

/// The error that reports a broken rule for `field`.
fn config_error(field: &str, reason: String) -> (e: AppError)
    ensures
        e@ == invalid(field@, reason@),
{
    AppError::InvalidConfig { field: String::from_str(field), reason }
}

/// A configuration whose mask holds a symbol other than `x` and `?` is never
/// valid, whatever else it holds.
pub proof fn lemma_unrecognized_symbol_is_rejected(config: Config, i: int)
    requires
        0 <= i < config.mask@.len(),
        !recognized(config.mask@[i]),
    ensures
        !config.is_valid(),
        config.violation() is Some,
{
}

} // verus!

//! What it means for a signature to occur in memory.
//!
//! A signature is a byte pattern with a mask of the same length. A mask byte
//! `x` asks for the pattern's byte at that position; any other mask byte
//! accepts every byte.

use crate::error::AppError;
use vstd::prelude::*;

verus! {

/// The mask symbol of a position that must hold the pattern's byte: `x`.
pub const EXACT: u8 = 0x78;

/// The mask symbol of a position that accepts any byte: `?`.
pub const WILDCARD: u8 = 0x3f;

/// A signature that can be searched for: pattern and mask are equally long
/// and not empty.
pub open spec fn well_formed(pattern: Seq<u8>, mask: Seq<u8>) -> bool {
    pattern.len() == mask.len() && pattern.len() > 0
}

/// Position `j` of the signature agrees with the memory at `offset + j`.
pub open spec fn position_matches(
    memory: Seq<u8>,
    offset: int,
    pattern: Seq<u8>,
    mask: Seq<u8>,
    j: int,
) -> bool {
    mask[j] == EXACT ==> memory[offset + j] == pattern[j]
}

/// The signature lies wholly inside `memory` at `offset` and every exact
/// position agrees.
pub open spec fn matches_at(memory: Seq<u8>, offset: int, pattern: Seq<u8>, mask: Seq<u8>) -> bool {
    &&& pattern.len() == mask.len()
    &&& 0 <= offset
    &&& offset + pattern.len() <= memory.len()
    &&& forall|j: int|
        0 <= j < pattern.len() ==> #[trigger] position_matches(memory, offset, pattern, mask, j)
}

/// The signature matches at `offset` and at no smaller offset.
pub open spec fn is_first_match(
    memory: Seq<u8>,
    offset: int,
    pattern: Seq<u8>,
    mask: Seq<u8>,
) -> bool {
    &&& matches_at(memory, offset, pattern, mask)
    &&& forall|i: int| 0 <= i < offset ==> !#[trigger] matches_at(memory, i, pattern, mask)
}

/// The smallest offset at which a well-formed signature matches, if it
/// matches anywhere.
pub open spec fn first_match(memory: Seq<u8>, pattern: Seq<u8>, mask: Seq<u8>) -> Option<int> {
    if well_formed(pattern, mask) && exists|k: int|
        #[trigger] is_first_match(memory, k, pattern, mask) {
        Some(choose|k: int| #[trigger] is_first_match(memory, k, pattern, mask))
    } else {
        None
    }
}

/// What a scan of the memory at `base` answers: the address of the first
/// match, or that the signature was not found among `memory.len()` bytes.
pub open spec fn scan_outcome(
    base: usize,
    memory: Seq<u8>,
    pattern: Seq<u8>,
    mask: Seq<u8>,
) -> Result<usize, AppError> {
    match first_match(memory, pattern, mask) {
        Some(k) => Ok((base + k) as usize),
        None => Err(AppError::PatternNotFound { size: memory.len() as usize }),
    }
}

/// Every position of the mask is exact.
pub open spec fn all_exact(mask: Seq<u8>) -> bool {
    forall|j: int| 0 <= j < mask.len() ==> #[trigger] mask[j] == EXACT
}

/// The mask of the given length whose positions are all exact.
pub open spec fn exact_mask(len: nat) -> Seq<u8> {
    Seq::new(len, |j: int| EXACT)
}

/// A first match is the first match: there is only one.
pub proof fn lemma_first_match_is(memory: Seq<u8>, pattern: Seq<u8>, mask: Seq<u8>, k: int)
    requires
        well_formed(pattern, mask),
        is_first_match(memory, k, pattern, mask),
    ensures
        first_match(memory, pattern, mask) == Some(k),
{
    let c = choose|c: int| #[trigger] is_first_match(memory, c, pattern, mask);
    if c < k {
        assert(!matches_at(memory, c, pattern, mask));
    }
    if k < c {
        assert(!matches_at(memory, k, pattern, mask));
    }
}

/// Where no offset matches there is no first match.
pub proof fn lemma_first_match_none(memory: Seq<u8>, pattern: Seq<u8>, mask: Seq<u8>)
    requires
        forall|k: int| 0 <= k <= memory.len() - pattern.len() ==> !#[trigger] matches_at(
            memory,
            k,
            pattern,
            mask,
        ),
    ensures
        first_match(memory, pattern, mask) is None,
{
    if exists|k: int| #[trigger] is_first_match(memory, k, pattern, mask) {
        let k = choose|k: int| #[trigger] is_first_match(memory, k, pattern, mask);
        assert(matches_at(memory, k, pattern, mask));
    }
}

/// A scan of memory that holds the pattern at offset `k`, with any bytes at
/// the positions that are not exact, answers the address of offset `k`,
/// provided that the signature matches at no earlier offset.
pub proof fn lemma_scan_finds_embedded_pattern(
    base: usize,
    memory: Seq<u8>,
    pattern: Seq<u8>,
    mask: Seq<u8>,
    k: int,
)
    requires
        pattern.len() == mask.len(),
        pattern.len() > 0,
        0 <= k,
        k + pattern.len() <= memory.len(),
        forall|j: int| 0 <= j < pattern.len() && mask[j] == EXACT ==> memory[k + j] == pattern[j],
        forall|i: int| 0 <= i < k ==> !#[trigger] matches_at(memory, i, pattern, mask),
    ensures
        first_match(memory, pattern, mask) == Some(k),
        scan_outcome(base, memory, pattern, mask) == Ok::<usize, AppError>((base + k) as usize),
{
    assert forall|j: int| 0 <= j < pattern.len() implies #[trigger] position_matches(
        memory,
        k,
        pattern,
        mask,
        j,
    ) by {}
    lemma_first_match_is(memory, pattern, mask, k);
}

/// A scan of memory in which the signature matches at no offset answers that
/// the pattern was not found, and carries the number of bytes searched.
pub proof fn lemma_scan_without_match(
    base: usize,
    memory: Seq<u8>,
    pattern: Seq<u8>,
    mask: Seq<u8>,
)
    requires
        forall|k: int| !#[trigger] matches_at(memory, k, pattern, mask),
    ensures
        scan_outcome(base, memory, pattern, mask) == Err::<usize, AppError>(
            AppError::PatternNotFound { size: memory.len() as usize },
        ),
{
    lemma_first_match_none(memory, pattern, mask);
}

/// An address that a scan answers with lies in the scanned memory together
/// with the whole signature, the signature matches there, and it matches
/// at no smaller address.
pub proof fn lemma_match_lies_in_memory(
    base: usize,
    memory: Seq<u8>,
    pattern: Seq<u8>,
    mask: Seq<u8>,
)
    requires
        base + memory.len() <= usize::MAX,
    ensures
        scan_outcome(base, memory, pattern, mask) matches Ok(address) ==> {
            &&& base <= address
            &&& address + pattern.len() <= base + memory.len()
            &&& is_first_match(memory, address - base, pattern, mask)
        },
{
    if first_match(memory, pattern, mask) is Some {
        let k = choose|k: int| #[trigger] is_first_match(memory, k, pattern, mask);
        assert(matches_at(memory, k, pattern, mask));
    }
}

/// A signature that is not well formed is never found.
pub proof fn lemma_scan_malformed(base: usize, memory: Seq<u8>, pattern: Seq<u8>, mask: Seq<u8>)
    requires
        !well_formed(pattern, mask),
    ensures
        scan_outcome(base, memory, pattern, mask) == Err::<usize, AppError>(
            AppError::PatternNotFound { size: memory.len() as usize },
        ),
{
}

} // verus!

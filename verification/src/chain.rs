//! Following a chain of pointers: from a start address, read the pointer
//! stored at a fixed offset, go there, and so on.

use crate::error::AppError;
use crate::region::MemoryRegion;
use crate::safety::{
    pointer_step, pointer_target, utf16_text, violation_at, wide_units, MemoryAccess,
    StringConverter,
};
use vstd::prelude::*;

verus! {

/// What a chain needs next.
#[derive(Debug, Clone, Copy, PartialEq, Eq, Structural)]
pub enum ChainRequest {
    /// The pointer stored at `address` is to be read.
    Read { address: usize },
    /// Every step is taken; the chain ends at `pointer`.
    Done { pointer: usize },
}

/// What a chain needs next when `position` steps are taken and it stands at
/// `current`. A chain that stands at the null address fails, whether it has
/// steps left or not.
pub open spec fn next_request(offsets: Seq<usize>, position: int, current: usize) -> Result<
    ChainRequest,
    AppError,
> {
    if 0 <= position < offsets.len() {
        match pointer_target(current, offsets[position]) {
            Ok(address) => Ok(ChainRequest::Read { address }),
            Err(e) => Err(e),
        }
    } else if current == 0 {
        Err(violation_at(0))
    } else {
        Ok(ChainRequest::Done { pointer: current })
    }
}

/// Where the chain with the given offsets ends when it starts at `start`
/// and reads from `region`. The first step that fails ends the chain with
/// its error.
pub open spec fn chain_outcome(region: &MemoryRegion, start: usize, offsets: Seq<usize>) -> Result<
    usize,
    AppError,
>
    decreases offsets.len(),
{
    if offsets.len() == 0 {
        if start == 0 {
            Err(violation_at(0))
        } else {
            Ok(start)
        }
    } else {
        match pointer_step(region, start, offsets[0]) {
            Ok(next) => chain_outcome(region, next, offsets.drop_first()),
            Err(e) => Err(e),
        }
    }
}

/// A chain that starts at the null address fails with an access violation
/// at address 0, whatever its steps and whatever the memory holds.
pub proof fn lemma_null_start_fails(region: &MemoryRegion, offsets: Seq<usize>)
    ensures
        chain_outcome(region, 0, offsets) == Err::<usize, AppError>(violation_at(0)),
        next_request(offsets, 0, 0) == Err::<ChainRequest, AppError>(violation_at(0)),
{
}

/// A chain never ends at the null address.
pub proof fn lemma_chain_ends_at_pointer(region: &MemoryRegion, start: usize, offsets: Seq<usize>)
    ensures
        chain_outcome(region, start, offsets) matches Ok(pointer) ==> pointer != 0,
    decreases offsets.len(),
{
    if offsets.len() > 0 {
        if let Ok(next) = pointer_step(region, start, offsets[0]) {
            lemma_chain_ends_at_pointer(region, next, offsets.drop_first());
        }
    }
}

/// Reads values that lie at the end of a chain of pointers.
pub struct PointerChainReader;

impl PointerChainReader {
    /// What the chain needs next: the read of its next step, or nothing
    /// more. For memory that is not at hand as a region the caller performs
    /// the read, has `MemoryAccess::check_pointer` judge the word, and asks
    /// again with the next position.
    pub fn next_request(offsets: &[usize], position: usize, current: usize) -> (r: Result<
        ChainRequest,
        AppError,
    >)
        ensures
            r == next_request(offsets@, position as int, current),
    {
        if position < offsets.len() {
            match MemoryAccess::pointer_target(current, offsets[position]) {
                Ok(address) => Ok(ChainRequest::Read { address }),
                Err(e) => Err(e),
            }
        } else if current == 0 {
            Err(AppError::MemoryAccessViolation { address: 0 })
        } else {
            Ok(ChainRequest::Done { pointer: current })
        }
    }

    /// The pointer at the end of the chain through `region`.
    pub fn read_chain(region: &MemoryRegion, start: usize, offsets: &[usize]) -> (r: Result<
        usize,
        AppError,
    >)
        ensures
            r == chain_outcome(region, start, offsets@),
            r matches Ok(pointer) ==> pointer != 0,
            start == 0 ==> r == Err::<usize, AppError>(violation_at(0)),
    {
        proof {
            lemma_chain_ends_at_pointer(region, start, offsets@);
        }
        let count: usize = offsets.len();
        let mut current: usize = start;
        let mut position: usize = 0;
        assert(offsets@.subrange(0, offsets@.len() as int) =~= offsets@);
        loop
            invariant
                count == offsets@.len(),
                position <= offsets@.len(),
                chain_outcome(region, start, offsets@) == chain_outcome(
                    region,
                    current,
                    offsets@.subrange(position as int, offsets@.len() as int),
                ),
            decreases offsets@.len() - position,
        {
            let ghost rest = offsets@.subrange(position as int, offsets@.len() as int);
            match Self::next_request(offsets, position, current) {
                Err(e) => {
                    return Err(e);
                },
                Ok(ChainRequest::Done { pointer }) => {
                    return Ok(pointer);
                },
                Ok(ChainRequest::Read { address }) => {
                    assert(rest[0] == offsets@[position as int]);
                    assert(rest.drop_first() =~= offsets@.subrange(
                        position + 1,
                        offsets@.len() as int,
                    ));
                    match MemoryAccess::check_pointer(address, region.read_word(address)) {
                        Ok(next) => {
                            current = next;
                            position += 1;
                        },
                        Err(e) => {
                            return Err(e);
                        },
                    }
                },
            }
        }
    }

    /// The text of the wide string that the chain through `region` ends at.
    pub fn read_string(region: &MemoryRegion, start: usize, offsets: &[usize]) -> (r: Result<
        String,
        AppError,
    >)
        ensures
            match chain_outcome(region, start, offsets@) {
                Err(e) => r == Err::<String, AppError>(e),
                Ok(pointer) => match wide_units(region, pointer as int) {
                    Err(fault) => r == Err::<String, AppError>(violation_at(fault as usize)),
                    Ok(units) => match utf16_text(units) {
                        Some(text) => r is Ok && r->Ok_0@ == text,
                        None => r is Err && r->Err_0@ is StringConversion,
                    },
                },
            },
    {
        match Self::read_chain(region, start, offsets) {
            Ok(pointer) => StringConverter::pcwstr_to_string(region, pointer),
            Err(e) => Err(e),
        }
    }
}

} // verus!

//! Searching a memory region for a signature, with a cache of the answers.

use crate::error::AppError;
use crate::pattern::{
    all_exact, exact_mask, lemma_first_match_is, lemma_first_match_none, matches_at,
    position_matches, scan_outcome, well_formed, EXACT,
};
use crate::region::MemoryRegion;
use vstd::prelude::*;
use vstd::string::*;

verus! {

/// One remembered answer: the scan of the region `(base, size)` found
/// `address`.
#[derive(Debug, Clone, Copy)]
pub struct ScanCacheEntry {
    pub base: usize,
    pub size: usize,
    pub address: usize,
}

/// The region that an entry speaks of.
spec fn key_of(entry: ScanCacheEntry) -> (usize, usize) {
    (entry.base, entry.size)
}

/// No two entries speak of the same region.
spec fn distinct_keys(entries: Seq<ScanCacheEntry>) -> bool {
    forall|i: int, j: int|
        0 <= i < j < entries.len() ==> key_of(#[trigger] entries[i]) != key_of(
            #[trigger] entries[j],
        )
}

/// The map from regions to addresses that a list of entries stands for.
spec fn cache_map(entries: Seq<ScanCacheEntry>) -> Map<(usize, usize), usize>
    decreases entries.len(),
{
    if entries.len() == 0 {
        Map::empty()
    } else {
        cache_map(entries.drop_last()).insert(key_of(entries.last()), entries.last().address)
    }
}

/// The number of entries whose address is not null.
spec fn count_live(entries: Seq<ScanCacheEntry>) -> nat
    decreases entries.len(),
{
    if entries.len() == 0 {
        0
    } else if entries.last().address != 0 {
        count_live(entries.drop_last()) + 1
    } else {
        count_live(entries.drop_last())
    }
}

/// The regions for which the cache holds an address that is not null.
pub open spec fn live_keys(cache: Map<(usize, usize), usize>) -> Set<(usize, usize)> {
    cache.dom().filter(|key: (usize, usize)| cache[key] != 0)
}

/// The cache answers for the region `(base, size)`: it holds an address for
/// it, and that address is not null.
pub open spec fn cache_hit(cache: Map<(usize, usize), usize>, base: usize, size: usize) -> bool {
    cache.contains_key((base, size)) && cache[(base, size)] != 0
}

/// What `scan` returns when it starts with the given cache.
pub open spec fn scan_result(
    cache: Map<(usize, usize), usize>,
    base: usize,
    memory: Seq<u8>,
    pattern: Seq<u8>,
    mask: Seq<u8>,
) -> Result<usize, AppError> {
    if cache_hit(cache, base, memory.len() as usize) {
        Ok(cache[(base, memory.len() as usize)])
    } else {
        scan_outcome(base, memory, pattern, mask)
    }
}

/// The cache that `scan` leaves behind when it starts with the given cache.
pub open spec fn cache_after(
    cache: Map<(usize, usize), usize>,
    base: usize,
    memory: Seq<u8>,
    pattern: Seq<u8>,
    mask: Seq<u8>,
) -> Map<(usize, usize), usize> {
    if cache_hit(cache, base, memory.len() as usize) {
        cache
    } else {
        match scan_outcome(base, memory, pattern, mask) {
            Ok(address) => cache.insert((base, memory.len() as usize), address),
            Err(_) => cache,
        }
    }
}

proof fn lemma_cache_map_keys(entries: Seq<ScanCacheEntry>, key: (usize, usize))
    ensures
        cache_map(entries).contains_key(key) <==> exists|i: int|
            0 <= i < entries.len() && key_of(#[trigger] entries[i]) == key,
    decreases entries.len(),
{
    if entries.len() > 0 {
        let front = entries.drop_last();
        lemma_cache_map_keys(front, key);
        if cache_map(entries).contains_key(key) {
            if key == key_of(entries.last()) {
                assert(key_of(entries[entries.len() - 1]) == key);
            } else {
                let i = choose|i: int| 0 <= i < front.len() && key_of(#[trigger] front[i]) == key;
                assert(key_of(entries[i]) == key);
            }
        }
        if exists|i: int| 0 <= i < entries.len() && key_of(#[trigger] entries[i]) == key {
            let i = choose|i: int| 0 <= i < entries.len() && key_of(#[trigger] entries[i]) == key;
            if i < entries.len() - 1 {
                assert(key_of(front[i]) == key);
            }
        }
    }
}

proof fn lemma_cache_map_value(entries: Seq<ScanCacheEntry>, i: int)
    requires
        distinct_keys(entries),
        0 <= i < entries.len(),
    ensures
        cache_map(entries).contains_key(key_of(entries[i])),
        cache_map(entries)[key_of(entries[i])] == entries[i].address,
    decreases entries.len(),
{
    if i < entries.len() - 1 {
        let front = entries.drop_last();
        assert(front[i] == entries[i]);
        assert(key_of(entries[i]) != key_of(entries[entries.len() - 1]));
        lemma_cache_map_value(front, i);
    }
}

proof fn lemma_cache_map_push(entries: Seq<ScanCacheEntry>, entry: ScanCacheEntry)
    ensures
        cache_map(entries.push(entry)) == cache_map(entries).insert(key_of(entry), entry.address),
        count_live(entries.push(entry)) == count_live(entries) + if entry.address != 0 {
            1nat
        } else {
            0nat
        },
{
    assert(entries.push(entry).drop_last() =~= entries);
}

proof fn lemma_cache_map_update(entries: Seq<ScanCacheEntry>, i: int, address: usize)
    requires
        distinct_keys(entries),
        0 <= i < entries.len(),
    ensures
        cache_map(
            entries.update(
                i,
                ScanCacheEntry { base: entries[i].base, size: entries[i].size, address },
            ),
        ) == cache_map(entries).insert(key_of(entries[i]), address),
    decreases entries.len(),
{
    let entry = ScanCacheEntry { base: entries[i].base, size: entries[i].size, address };
    let updated = entries.update(i, entry);
    let front = entries.drop_last();
    if i == entries.len() - 1 {
        assert(updated.drop_last() =~= front);
        assert(cache_map(updated) =~= cache_map(entries).insert(key_of(entries[i]), address));
    } else {
        assert(updated.drop_last() =~= front.update(i, entry));
        assert(front[i] == entries[i]);
        assert(key_of(entries[i]) != key_of(entries[entries.len() - 1]));
        lemma_cache_map_update(front, i, address);
        assert(cache_map(updated) =~= cache_map(entries).insert(key_of(entries[i]), address));
    }
}

proof fn lemma_cache_map_size(entries: Seq<ScanCacheEntry>)
    requires
        distinct_keys(entries),
    ensures
        cache_map(entries).dom().finite(),
        cache_map(entries).dom().len() == entries.len(),
        live_keys(cache_map(entries)).finite(),
        live_keys(cache_map(entries)).len() == count_live(entries),
    decreases entries.len(),
{
    if entries.len() == 0 {
        assert(live_keys(cache_map(entries)) =~= Set::empty());
    } else {
        let front = entries.drop_last();
        let last = entries.last();
        lemma_cache_map_size(front);
        lemma_cache_map_keys(front, key_of(last));
        assert(!cache_map(front).contains_key(key_of(last))) by {
            if cache_map(front).contains_key(key_of(last)) {
                let i = choose|i: int|
                    0 <= i < front.len() && key_of(#[trigger] front[i]) == key_of(last);
                assert(key_of(entries[i]) == key_of(entries[entries.len() - 1]));
            }
        }
        assert(cache_map(entries).dom() =~= cache_map(front).dom().insert(key_of(last)));
        if last.address != 0 {
            assert(live_keys(cache_map(entries)) =~= live_keys(cache_map(front)).insert(
                key_of(last),
            ));
        } else {
            assert(live_keys(cache_map(entries)) =~= live_keys(cache_map(front)));
        }
    }
}

/// After a scan has answered with an address that is not null, every further
/// scan of a region with the same base and size answers with that address,
/// whatever the memory, pattern and mask, and leaves the cache as it is.
pub proof fn lemma_repeated_scan_hits_cache(
    cache: Map<(usize, usize), usize>,
    base: usize,
    memory: Seq<u8>,
    pattern: Seq<u8>,
    mask: Seq<u8>,
    memory_again: Seq<u8>,
    pattern_again: Seq<u8>,
    mask_again: Seq<u8>,
)
    requires
        memory_again.len() == memory.len(),
        scan_result(cache, base, memory, pattern, mask) matches Ok(address) && address != 0,
    ensures
        scan_result(
            cache_after(cache, base, memory, pattern, mask),
            base,
            memory_again,
            pattern_again,
            mask_again,
        ) == scan_result(cache, base, memory, pattern, mask),
        cache_after(
            cache_after(cache, base, memory, pattern, mask),
            base,
            memory_again,
            pattern_again,
            mask_again,
        ) == cache_after(cache, base, memory, pattern, mask),
{
}

/// Whether the signature matches the bytes of `memory` at `offset`.
fn matches_bytes(memory: &[u8], offset: usize, pattern: &[u8], mask: &[u8]) -> (r: bool)
    ensures
        r == matches_at(memory@, offset as int, pattern@, mask@),
{
    let n: usize = memory.len();
    let m: usize = pattern.len();
    if m != mask.len() || offset > n || m > n - offset {
        return false;
    }
    let mut j: usize = 0;
    while j < m
        invariant
            j <= m,
            m == pattern@.len(),
            m == mask@.len(),
            n == memory@.len(),
            offset + m <= n,
            forall|t: int|
                0 <= t < j ==> #[trigger] position_matches(
                    memory@,
                    offset as int,
                    pattern@,
                    mask@,
                    t,
                ),
        decreases m - j,
    {
        if mask[j] == EXACT && memory[offset + j] != pattern[j] {
            assert(!position_matches(memory@, offset as int, pattern@, mask@, j as int));
            return false;
        }
        j += 1;
    }
    true
}

/// Whether every position of the mask is exact.
fn mask_is_exact(mask: &[u8]) -> (r: bool)
    ensures
        r == all_exact(mask@),
{
    let mut j: usize = 0;
    while j < mask.len()
        invariant
            j <= mask@.len(),
            forall|t: int| 0 <= t < j ==> #[trigger] mask@[t] == EXACT,
        decreases mask@.len() - j,
    {
        if mask[j] != EXACT {
            return false;
        }
        j += 1;
    }
    true
}

/// Whether `memory` holds exactly the bytes of `pattern` from `offset` on.
fn window_equals(memory: &[u8], offset: usize, pattern: &[u8]) -> (r: bool)
    requires
        offset + pattern@.len() <= memory@.len(),
    ensures
        r == matches_at(memory@, offset as int, pattern@, exact_mask(pattern@.len())),
{
    let n: usize = memory.len();
    let m: usize = pattern.len();
    let ghost mask = exact_mask(pattern@.len());
    let mut j: usize = 0;
    while j < m
        invariant
            j <= m,
            m == pattern@.len(),
            n == memory@.len(),
            offset + m <= n,
            mask == exact_mask(pattern@.len()),
            forall|t: int|
                0 <= t < j ==> #[trigger] position_matches(
                    memory@,
                    offset as int,
                    pattern@,
                    mask,
                    t,
                ),
        decreases m - j,
    {
        if memory[offset + j] != pattern[j] {
            assert(!position_matches(memory@, offset as int, pattern@, mask, j as int));
            return false;
        }
        j += 1;
    }
    true
}

/// Scans memory regions for signatures and remembers what it found, by the
/// base and size of the region.
pub struct PatternScanner {
    cache: Vec<ScanCacheEntry>,
}

impl View for PatternScanner {
    type V = Map<(usize, usize), usize>;

    /// The cache: the address found for each region that was scanned with
    /// success.
    closed spec fn view(&self) -> Map<(usize, usize), usize> {
        cache_map(self.cache@)
    }
}

impl PatternScanner {
    #[verifier::type_invariant]
    spec fn one_entry_per_region(self) -> bool {
        distinct_keys(self.cache@)
    }

    /// A scanner that remembers nothing yet.
    pub fn new() -> (r: Self)
        ensures
            r@ == Map::<(usize, usize), usize>::empty(),
    {
        PatternScanner { cache: Vec::new() }
    }

    /// The address of the first match of the signature in the region. An
    /// answer that is not null is remembered under the region's base and
    /// size, and a later scan of such a region returns it without looking
    /// at the memory again.
    pub fn scan(&mut self, region: &MemoryRegion, pattern: &[u8], mask: &str) -> (r: Result<
        usize,
        AppError,
    >)
        ensures
            r == scan_result(
                old(self)@,
                region.spec_base(),
                region@,
                pattern@,
                mask.spec_bytes(),
            ),
            final(self)@ == cache_after(
                old(self)@,
                region.spec_base(),
                region@,
                pattern@,
                mask.spec_bytes(),
            ),
    {
        let base: usize = region.base();
        let size: usize = region.len();
        let cached = self.lookup(base, size);
        if let Some(address) = cached {
            if address != 0 {
                return Ok(address);
            }
        }
        let found = self.scan_impl(region, pattern, mask);
        match found {
            Ok(address) => {
                self.store(base, size, address);
                Ok(address)
            },
            Err(e) => Err(e),
        }
    }

    /// The address of the first match of the signature in the region,
    /// without the cache. A signature whose pattern is empty or whose mask
    /// has another length is not found.
    pub fn scan_impl(&self, region: &MemoryRegion, pattern: &[u8], mask: &str) -> (r: Result<
        usize,
        AppError,
    >)
        ensures
            r == scan_outcome(region.spec_base(), region@, pattern@, mask.spec_bytes()),
    {
        let size: usize = region.len();
        let mask_bytes = mask.as_bytes();
        if pattern.len() != mask_bytes.len() {
            return Err(AppError::PatternNotFound { size });
        }
        if pattern.len() == 0 {
            return Err(AppError::PatternNotFound { size });
        }
        if mask_is_exact(mask_bytes) {
            assert(mask_bytes@ =~= exact_mask(pattern@.len()));
            return self.scan_exact_pattern(region, pattern);
        }
        self.scan_with_wildcards(region, pattern, mask_bytes)
    }

    /// The first place where the region holds the pattern byte for byte.
    fn scan_exact_pattern(&self, region: &MemoryRegion, pattern: &[u8]) -> (r: Result<
        usize,
        AppError,
    >)
        requires
            pattern@.len() > 0,
        ensures
            r == scan_outcome(
                region.spec_base(),
                region@,
                pattern@,
                exact_mask(pattern@.len()),
            ),
    {
        let size: usize = region.len();
        if pattern.len() > size {
            proof {
                lemma_first_match_none(region@, pattern@, exact_mask(pattern@.len()));
            }
            return Err(AppError::PatternNotFound { size });
        }
        if pattern.len() == 1 {
            assert(pattern@ =~= seq![pattern@[0]]);
            assert(exact_mask(1) =~= seq![EXACT]);
            return self.scan_single_byte(region, pattern[0]);
        }
        self.scan_multi_byte_optimized(region, pattern)
    }

    /// The first place where the region holds `byte`.
    fn scan_single_byte(&self, region: &MemoryRegion, byte: u8) -> (r: Result<usize, AppError>)
        ensures
            r == scan_outcome(region.spec_base(), region@, seq![byte], seq![EXACT]),
    {
        let base: usize = region.base();
        let memory = region.as_bytes();
        let size: usize = memory.len();
        let ghost pattern = seq![byte];
        let ghost mask = seq![EXACT];
        let mut i: usize = 0;
        while i < size
            invariant
                i <= size,
                size == memory@.len(),
                memory@ == region@,
                base == region.spec_base(),
                base + size <= usize::MAX,
                pattern == seq![byte],
                mask == seq![EXACT],
                forall|k: int| 0 <= k < i ==> !#[trigger] matches_at(memory@, k, pattern, mask),
            decreases size - i,
        {
            if memory[i] == byte {
                proof {
                    assert forall|j: int| 0 <= j < pattern.len() implies #[trigger] position_matches(
                        memory@,
                        i as int,
                        pattern,
                        mask,
                        j,
                    ) by {}
                    lemma_first_match_is(memory@, pattern, mask, i as int);
                }
                return Ok(base + i);
            }
            assert(!matches_at(memory@, i as int, pattern, mask)) by {
                if matches_at(memory@, i as int, pattern, mask) {
                    assert(position_matches(memory@, i as int, pattern, mask, 0));
                }
            }
            i += 1;
        }
        proof {
            lemma_first_match_none(memory@, pattern, mask);
        }
        Err(AppError::PatternNotFound { size })
    }

    /// The first place where the region holds a pattern of several bytes,
    /// found by sliding a window over the region.
    fn scan_multi_byte_optimized(&self, region: &MemoryRegion, pattern: &[u8]) -> (r: Result<
        usize,
        AppError,
    >)
        requires
            0 < pattern@.len() <= region@.len(),
        ensures
            r == scan_outcome(
                region.spec_base(),
                region@,
                pattern@,
                exact_mask(pattern@.len()),
            ),
    {
        let base: usize = region.base();
        let memory = region.as_bytes();
        let size: usize = memory.len();
        let last: usize = size - pattern.len();
        let ghost mask = exact_mask(pattern@.len());
        let mut i: usize = 0;
        while i <= last
            invariant
                i <= last + 1,
                last == size - pattern@.len(),
                size == memory@.len(),
                memory@ == region@,
                base == region.spec_base(),
                base + size <= usize::MAX,
                0 < pattern@.len() <= size,
                mask == exact_mask(pattern@.len()),
                forall|k: int| 0 <= k < i ==> !#[trigger] matches_at(memory@, k, pattern@, mask),
            decreases last + 1 - i,
        {
            if window_equals(memory, i, pattern) {
                proof {
                    lemma_first_match_is(memory@, pattern@, mask, i as int);
                }
                return Ok(base + i);
            }
            i += 1;
        }
        proof {
            lemma_first_match_none(memory@, pattern@, mask);
        }
        Err(AppError::PatternNotFound { size })
    }

    /// The first place where the region agrees with the pattern at every
    /// exact position of the mask.
    fn scan_with_wildcards(&self, region: &MemoryRegion, pattern: &[u8], mask: &[u8]) -> (r:
        Result<usize, AppError>)
        requires
            well_formed(pattern@, mask@),
        ensures
            r == scan_outcome(region.spec_base(), region@, pattern@, mask@),
    {
        let base: usize = region.base();
        let memory = region.as_bytes();
        let size: usize = memory.len();
        if pattern.len() > size {
            proof {
                lemma_first_match_none(memory@, pattern@, mask@);
            }
            return Err(AppError::PatternNotFound { size });
        }
        let last: usize = size - pattern.len();
        let mut i: usize = 0;
        while i <= last
            invariant
                i <= last + 1,
                last == size - pattern@.len(),
                size == memory@.len(),
                memory@ == region@,
                base == region.spec_base(),
                base + size <= usize::MAX,
                well_formed(pattern@, mask@),
                pattern@.len() <= size,
                forall|k: int| 0 <= k < i ==> !#[trigger] matches_at(memory@, k, pattern@, mask@),
            decreases last + 1 - i,
        {
            if matches_bytes(memory, i, pattern, mask) {
                proof {
                    lemma_first_match_is(memory@, pattern@, mask@, i as int);
                }
                return Ok(base + i);
            }
            i += 1;
        }
        proof {
            lemma_first_match_none(memory@, pattern@, mask@);
        }
        Err(AppError::PatternNotFound { size })
    }

    /// Whether the signature matches the region at `offset`: it lies inside
    /// the region, the mask is as long as the pattern, and every exact
    /// position agrees.
    pub fn matches_pattern(
        &self,
        region: &MemoryRegion,
        offset: usize,
        pattern: &[u8],
        mask: &str,
    ) -> (r: bool)
        ensures
            r == matches_at(region@, offset as int, pattern@, mask.spec_bytes()),
    {
        matches_bytes(region.as_bytes(), offset, pattern, mask.as_bytes())
    }

    /// Forgets every remembered answer.
    pub fn clear_cache(&mut self)
        ensures
            final(self)@ == Map::<(usize, usize), usize>::empty(),
    {
        self.cache = Vec::new();
    }

    /// The number of remembered regions, and how many of them have an
    /// address that is not null.
    pub fn cache_stats(&self) -> (r: (usize, usize))
        ensures
            self@.dom().finite(),
            r.0 == self@.dom().len(),
            r.1 == live_keys(self@).len(),
    {
        proof {
            use_type_invariant(self);
            lemma_cache_map_size(self.cache@);
        }
        let total: usize = self.cache.len();
        let mut live: usize = 0;
        let mut i: usize = 0;
        while i < total
            invariant
                i <= total,
                total == self.cache@.len(),
                live <= i,
                live == count_live(self.cache@.take(i as int)),
            decreases total - i,
        {
            assert(self.cache@.take(i as int + 1).drop_last() =~= self.cache@.take(i as int));
            if self.cache[i].address != 0 {
                live += 1;
            }
            i += 1;
        }
        assert(self.cache@.take(total as int) =~= self.cache@);
        (total, live)
    }

    /// The address remembered for the region `(base, size)`.
    fn lookup(&self, base: usize, size: usize) -> (r: Option<usize>)
        ensures
            r == if self@.contains_key((base, size)) {
                Some(self@[(base, size)])
            } else {
                None
            },
    {
        proof {
            use_type_invariant(self);
        }
        let mut i: usize = 0;
        while i < self.cache.len()
            invariant
                i <= self.cache@.len(),
                distinct_keys(self.cache@),
                forall|k: int| 0 <= k < i ==> key_of(#[trigger] self.cache@[k]) != (base, size),
            decreases self.cache@.len() - i,
        {
            if self.cache[i].base == base && self.cache[i].size == size {
                proof {
                    lemma_cache_map_value(self.cache@, i as int);
                }
                return Some(self.cache[i].address);
            }
            i += 1;
        }
        proof {
            lemma_cache_map_keys(self.cache@, (base, size));
        }
        None
    }

    /// Remembers `address` for the region `(base, size)`, in place of what
    /// was remembered for it before.
    fn store(&mut self, base: usize, size: usize, address: usize)
        ensures
            final(self)@ == old(self)@.insert((base, size), address),
    {
        proof {
            use_type_invariant(&*self);
        }
        let mut i: usize = 0;
        while i < self.cache.len()
            invariant
                i <= self.cache@.len(),
                self.cache@ == old(self).cache@,
                distinct_keys(self.cache@),
                forall|k: int| 0 <= k < i ==> key_of(#[trigger] self.cache@[k]) != (base, size),
            decreases self.cache@.len() - i,
        {
            if self.cache[i].base == base && self.cache[i].size == size {
                proof {
                    lemma_cache_map_update(self.cache@, i as int, address);
                }
                let mut entries: Vec<ScanCacheEntry> = Vec::new();
                core::mem::swap(&mut self.cache, &mut entries);
                entries.set(i, ScanCacheEntry { base, size, address });
                core::mem::swap(&mut self.cache, &mut entries);
                return ;
            }
            i += 1;
        }
        proof {
            lemma_cache_map_push(self.cache@, ScanCacheEntry { base, size, address });
        }
        let mut entries: Vec<ScanCacheEntry> = Vec::new();
        core::mem::swap(&mut self.cache, &mut entries);
        entries.push(ScanCacheEntry { base, size, address });
        core::mem::swap(&mut self.cache, &mut entries);
    }
}

} // verus!

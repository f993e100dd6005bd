//! Finding a loaded module by its name.
//!
//! The platform lists the modules; this library picks one from the listing
//! and remembers which handle it found for which name.

use crate::error::{AppError, ErrorView};
use vstd::prelude::*;
use vstd::slice::*;
use vstd::string::*;
use vstd::utf8::*;

verus! {

/// `core::str::Utf8Error`, which is never looked into.
#[verifier::external_type_specification]
#[verifier::external_body]
pub struct ExUtf8Error(core::str::Utf8Error);

/// `core::str::from_utf8` accepts exactly the byte sequences that are valid
/// UTF-8 and hands back the same bytes as a string slice.
pub assume_specification[ core::str::from_utf8 ](v: &[u8]) -> (r: Result<
    &str,
    core::str::Utf8Error,
>)
    ensures
        r is Ok <==> valid_utf8(v@),
        r matches Ok(s) ==> s.spec_bytes() == v@,
;

/// The number of listed modules that a lookup examines; the rest of a
/// longer listing is not looked at.
pub const MAX_MODULES: usize = 1024;

/// One line of the platform's listing: a module's handle and its name, if
/// the platform could tell it.
#[derive(Debug)]
pub struct ModuleEntry {
    pub handle: usize,
    pub name: Option<String>,
}

/// Where a module's image lies.
#[derive(Debug, Clone, Copy, PartialEq, Eq, Structural)]
pub struct ModuleInfo {
    /// Address of the first byte of the image.
    pub base_address: usize,
    /// Number of bytes in the image.
    pub image_size: usize,
    /// Address of the module's entry point.
    pub entry_point: usize,
}

/// The byte with an upper-case ASCII letter replaced by its lower-case one.
pub open spec fn ascii_lower(b: u8) -> u8 {
    if 0x41 <= b <= 0x5a {
        (b + 0x20) as u8
    } else {
        b
    }
}

/// Two names are the same when they agree byte for byte apart from the case
/// of ASCII letters.
pub open spec fn same_name(a: Seq<u8>, b: Seq<u8>) -> bool {
    &&& a.len() == b.len()
    &&& forall|i: int| 0 <= i < a.len() ==> ascii_lower(#[trigger] a[i]) == ascii_lower(b[i])
}

/// The entry has a name, and it is the requested one.
pub open spec fn entry_matches(entry: ModuleEntry, name: Seq<u8>) -> bool {
    entry.name matches Some(n) && same_name(encode_utf8(n@), name)
}

/// Entry `i` is the first of the examined entries that carries the name.
pub open spec fn is_first_module(listing: Seq<ModuleEntry>, name: Seq<u8>, i: int) -> bool {
    &&& 0 <= i < listing.len()
    &&& i < MAX_MODULES
    &&& entry_matches(listing[i], name)
    &&& forall|j: int| 0 <= j < i ==> !entry_matches(#[trigger] listing[j], name)
}

/// The handle of the first examined entry that carries the name.
pub open spec fn find_in_listing(listing: Seq<ModuleEntry>, name: Seq<u8>) -> Option<usize> {
    if exists|i: int| is_first_module(listing, name, i) {
        Some(listing[choose|i: int| is_first_module(listing, name, i)].handle)
    } else {
        None
    }
}

/// What a lookup of `name` answers when it starts with the given cache: the
/// remembered handle, or else what the listing gives.
pub open spec fn resolve(
    cache: Map<Seq<u8>, usize>,
    name: Seq<char>,
    listing: Result<Vec<ModuleEntry>, std::io::Error>,
) -> Result<usize, ErrorView> {
    if cache.contains_key(encode_utf8(name)) {
        Ok(cache[encode_utf8(name)])
    } else {
        match listing {
            Err(_) => Err(ErrorView::EnumerationFailed),
            Ok(modules) => match find_in_listing(modules@, encode_utf8(name)) {
                Some(handle) => Ok(handle),
                None => Err(ErrorView::ModuleNotFound { name }),
            },
        }
    }
}

/// The cache that a lookup of `name` leaves behind: a handle that was found
/// in the listing is remembered, and nothing else changes.
pub open spec fn cache_after_resolve(
    cache: Map<Seq<u8>, usize>,
    name: Seq<char>,
    listing: Result<Vec<ModuleEntry>, std::io::Error>,
) -> Map<Seq<u8>, usize> {
    if cache.contains_key(encode_utf8(name)) {
        cache
    } else {
        match resolve(cache, name, listing) {
            Ok(handle) => cache.insert(encode_utf8(name), handle),
            Err(_) => cache,
        }
    }
}

/// The bytes of a buffer in front of its first zero byte; all of them if it
/// holds none.
pub open spec fn c_string(buffer: Seq<u8>) -> Seq<u8>
    decreases buffer.len(),
{
    if buffer.len() == 0 || buffer[0] == 0 {
        Seq::empty()
    } else {
        seq![buffer[0]] + c_string(buffer.drop_first())
    }
}

/// One remembered lookup: the bytes of a name and the handle found for it.
struct CachedModule {
    name: Vec<u8>,
    handle: usize,
}

/// No two remembered lookups are for the same name.
spec fn distinct_names(entries: Seq<CachedModule>) -> bool {
    forall|i: int, j: int|
        0 <= i < j < entries.len() ==> (#[trigger] entries[i]).name@ != (#[trigger] entries[j]).name@
}

/// The map from names to handles that a list of lookups stands for.
spec fn module_map(entries: Seq<CachedModule>) -> Map<Seq<u8>, usize>
    decreases entries.len(),
{
    if entries.len() == 0 {
        Map::empty()
    } else {
        module_map(entries.drop_last()).insert(entries.last().name@, entries.last().handle)
    }
}

proof fn lemma_module_map_keys(entries: Seq<CachedModule>, name: Seq<u8>)
    ensures
        module_map(entries).contains_key(name) <==> exists|i: int|
            0 <= i < entries.len() && (#[trigger] entries[i]).name@ == name,
    decreases entries.len(),
{
    if entries.len() > 0 {
        let front = entries.drop_last();
        lemma_module_map_keys(front, name);
        if module_map(entries).contains_key(name) {
            if name == entries.last().name@ {
                assert(entries[entries.len() - 1].name@ == name);
            } else {
                let i = choose|i: int| 0 <= i < front.len() && (#[trigger] front[i]).name@ == name;
                assert(entries[i].name@ == name);
            }
        }
        if exists|i: int| 0 <= i < entries.len() && (#[trigger] entries[i]).name@ == name {
            let i = choose|i: int| 0 <= i < entries.len() && (#[trigger] entries[i]).name@ == name;
            if i < entries.len() - 1 {
                assert(front[i].name@ == name);
            }
        }
    }
}

proof fn lemma_module_map_value(entries: Seq<CachedModule>, i: int)
    requires
        distinct_names(entries),
        0 <= i < entries.len(),
    ensures
        module_map(entries).contains_key(entries[i].name@),
        module_map(entries)[entries[i].name@] == entries[i].handle,
    decreases entries.len(),
{
    if i < entries.len() - 1 {
        let front = entries.drop_last();
        assert(front[i] == entries[i]);
        assert(entries[i].name@ != entries[entries.len() - 1].name@);
        lemma_module_map_value(front, i);
    }
}

proof fn lemma_module_map_push(entries: Seq<CachedModule>, entry: CachedModule)
    ensures
        module_map(entries.push(entry)) == module_map(entries).insert(entry.name@, entry.handle),
{
    assert(entries.push(entry).drop_last() =~= entries);
}

/// The lower-case form of an ASCII letter, any other byte unchanged.
fn lower(b: u8) -> (r: u8)
    ensures
        r == ascii_lower(b),
{
    if 0x41 <= b && b <= 0x5a {
        b + 0x20
    } else {
        b
    }
}

/// Whether two names agree apart from the case of ASCII letters.
fn names_match(a: &[u8], b: &[u8]) -> (r: bool)
    ensures
        r == same_name(a@, b@),
{
    if a.len() != b.len() {
        return false;
    }
    let mut i: usize = 0;
    while i < a.len()
        invariant
            i <= a@.len(),
            a@.len() == b@.len(),
            forall|k: int| 0 <= k < i ==> ascii_lower(#[trigger] a@[k]) == ascii_lower(b@[k]),
        decreases a@.len() - i,
    {
        if lower(a[i]) != lower(b[i]) {
            return false;
        }
        i += 1;
    }
    true
}

/// Whether two byte strings are equal.
fn bytes_equal(a: &[u8], b: &[u8]) -> (r: bool)
    ensures
        r == (a@ == b@),
{
    if a.len() != b.len() {
        return false;
    }
    let mut i: usize = 0;
    while i < a.len()
        invariant
            i <= a@.len(),
            a@.len() == b@.len(),
            forall|k: int| 0 <= k < i ==> a@[k] == b@[k],
        decreases a@.len() - i,
    {
        if a[i] != b[i] {
            return false;
        }
        i += 1;
    }
    assert(a@ =~= b@);
    true
}

/// Resolves module names to handles and remembers the answers.
pub struct ModuleScanner {
    cache: Vec<CachedModule>,
}

impl View for ModuleScanner {
    type V = Map<Seq<u8>, usize>;

    /// The cache: the handle found for each name, by the name's bytes.
    closed spec fn view(&self) -> Map<Seq<u8>, usize> {
        module_map(self.cache@)
    }
}

impl ModuleScanner {
    #[verifier::type_invariant]
    spec fn one_entry_per_name(self) -> bool {
        distinct_names(self.cache@)
    }

    /// A scanner that remembers nothing yet.
    pub fn new() -> (r: Self)
        ensures
            r@ == Map::<Seq<u8>, usize>::empty(),
    {
        ModuleScanner { cache: Vec::new() }
    }

    /// The handle remembered for `name`.
    pub fn cached(&self, name: &str) -> (r: Option<usize>)
        ensures
            r == if self@.contains_key(name.spec_bytes()) {
                Some(self@[name.spec_bytes()])
            } else {
                None
            },
    {
        proof {
            use_type_invariant(self);
        }
        let wanted = name.as_bytes();
        let mut i: usize = 0;
        while i < self.cache.len()
            invariant
                i <= self.cache@.len(),
                wanted@ == name.spec_bytes(),
                distinct_names(self.cache@),
                forall|k: int| 0 <= k < i ==> (#[trigger] self.cache@[k]).name@ != wanted@,
            decreases self.cache@.len() - i,
        {
            if bytes_equal(self.cache[i].name.as_slice(), wanted) {
                proof {
                    lemma_module_map_value(self.cache@, i as int);
                }
                return Some(self.cache[i].handle);
            }
            i += 1;
        }
        proof {
            lemma_module_map_keys(self.cache@, wanted@);
        }
        None
    }

    /// The handle of the module called `name`. A remembered answer is
    /// returned without a look at the listing. Otherwise a listing that the
    /// platform failed to produce is reported as such, and a listing that
    /// holds the name yields the handle of its first entry with that name,
    /// which is then remembered.
    pub fn find_module(
        &mut self,
        name: &str,
        listing: Result<Vec<ModuleEntry>, std::io::Error>,
    ) -> (r: Result<usize, AppError>)
        ensures
            r matches Ok(handle) ==> resolve(old(self)@, name@, listing) == Ok::<
                usize,
                ErrorView,
            >(handle),
            r matches Err(e) ==> resolve(old(self)@, name@, listing) == Err::<usize, ErrorView>(e@),
            r matches Err(AppError::EnumerationFailed { source }) ==> listing == Err::<
                Vec<ModuleEntry>,
                std::io::Error,
            >(source),
            final(self)@ == cache_after_resolve(old(self)@, name@, listing),
    {
        if let Some(handle) = self.cached(name) {
            return Ok(handle);
        }
        let modules = match listing {
            Ok(modules) => modules,
            Err(source) => {
                return Err(AppError::EnumerationFailed { source });
            },
        };
        let handle = self.find_module_impl(name, modules.as_slice())?;
        proof {
            use_type_invariant(&*self);
            lemma_module_map_keys(self.cache@, name.spec_bytes());
        }
        let entry = CachedModule { name: name.as_bytes_vec(), handle };
        proof {
            lemma_module_map_push(self.cache@, entry);
        }
        let mut entries: Vec<CachedModule> = Vec::new();
        core::mem::swap(&mut self.cache, &mut entries);
        entries.push(entry);
        core::mem::swap(&mut self.cache, &mut entries);
        Ok(handle)
    }

    /// The handle of the first of the examined entries of the listing whose
    /// name is `name`, apart from the case of ASCII letters.
    pub fn find_module_impl(&self, name: &str, modules: &[ModuleEntry]) -> (r: Result<
        usize,
        AppError,
    >)
        ensures
            match find_in_listing(modules@, name.spec_bytes()) {
                Some(handle) => r == Ok::<usize, AppError>(handle),
                None => r is Err && r->Err_0@ == (ErrorView::ModuleNotFound { name: name@ }),
            },
    {
        let wanted = name.as_bytes();
        let examined: usize = if modules.len() < MAX_MODULES {
            modules.len()
        } else {
            MAX_MODULES
        };
        let mut i: usize = 0;
        while i < examined
            invariant
                i <= examined,
                examined <= modules@.len(),
                examined <= MAX_MODULES,
                examined == modules@.len() || examined == MAX_MODULES,
                wanted@ == name.spec_bytes(),
                forall|j: int| 0 <= j < i ==> !entry_matches(#[trigger] modules@[j], wanted@),
            decreases examined - i,
        {
            if let Some(module_name) = &modules[i].name {
                if names_match(module_name.as_str().as_bytes(), wanted) {
                    proof {
                        assert(is_first_module(modules@, wanted@, i as int));
                        let c = choose|c: int| is_first_module(modules@, wanted@, c);
                        if c < i {
                            assert(!entry_matches(modules@[c], wanted@));
                        }
                        if i < c {
                            assert(!entry_matches(modules@[i as int], wanted@));
                        }
                    }
                    return Ok(modules[i].handle);
                }
            }
            i += 1;
        }
        proof {
            if exists|c: int| is_first_module(modules@, wanted@, c) {
                let c = choose|c: int| is_first_module(modules@, wanted@, c);
                assert(!entry_matches(modules@[c], wanted@));
            }
        }
        Err(AppError::ModuleNotFound { name: String::from_str(name) })
    }

    /// The extent of a module as the platform reported it, or the error
    /// that says that the platform could not report it.
    pub fn get_module_info(&self, queried: Result<ModuleInfo, std::io::Error>) -> (r: Result<
        ModuleInfo,
        AppError,
    >)
        ensures
            match queried {
                Ok(info) => r == Ok::<ModuleInfo, AppError>(info),
                Err(source) => r == Err::<ModuleInfo, AppError>(
                    AppError::ModuleInfoFailed { source },
                ),
            },
    {
        match queried {
            Ok(info) => Ok(info),
            Err(source) => Err(AppError::ModuleInfoFailed { source }),
        }
    }

    /// The name that the platform wrote into `buffer`, of which it said
    /// that it wrote `written` bytes: the bytes in front of the first zero
    /// byte, if anything was written and they are UTF-8.
    pub fn get_module_name(&self, buffer: &[u8], written: usize) -> (r: Option<String>)
        ensures
            r is Some <==> written != 0 && valid_utf8(c_string(buffer@)),
            r matches Some(name) ==> name@ == decode_utf8(c_string(buffer@)),
    {
        if written == 0 {
            return None;
        }
        let mut end: usize = 0;
        while end < buffer.len() && buffer[end] != 0
            invariant
                end <= buffer@.len(),
                forall|k: int| 0 <= k < end ==> #[trigger] buffer@[k] != 0,
            decreases buffer@.len() - end,
        {
            end += 1;
        }
        proof {
            lemma_c_string_is_prefix(buffer@, end as int);
        }
        let raw = slice_subrange(buffer, 0, end);
        match core::str::from_utf8(raw) {
            Ok(name) => {
                broadcast use encode_utf8_decode_utf8;

                Some(String::from_str(name))
            },
            Err(_) => None,
        }
    }
}

proof fn lemma_c_string_is_prefix(buffer: Seq<u8>, end: int)
    requires
        0 <= end <= buffer.len(),
        forall|k: int| 0 <= k < end ==> #[trigger] buffer[k] != 0,
        end == buffer.len() || buffer[end] == 0,
    ensures
        c_string(buffer) == buffer.subrange(0, end),
    decreases buffer.len(),
{
    if end == 0 {
        assert(buffer.subrange(0, 0) =~= Seq::<u8>::empty());
    } else {
        let rest = buffer.drop_first();
        assert(buffer[0] != 0);
        assert forall|k: int| 0 <= k < end - 1 implies #[trigger] rest[k] != 0 by {
            assert(buffer[k + 1] != 0);
        }
        lemma_c_string_is_prefix(rest, end - 1);
        assert(buffer.subrange(0, end) =~= seq![buffer[0]] + rest.subrange(0, end - 1));
    }
}

} // verus!

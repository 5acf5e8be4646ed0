//! The parser over a whole $MFT: entry size probing, entry reads, and full paths
//! resolved through parent references with a bounded cache.
use crate::attribute::x30::FileNameAttr;
use crate::attribute::x80::read_bytes;
use crate::bytes::{in_bounds, le_at};
use crate::entry::{
    baad_signature, best_name_pos, entry_best_name, entry_from_buffer_ok, file_signature, fixed_upto,
    is_known_signature, strides_match, zero_signature, EntryHeader, MftEntry, ENTRY_HEADER_LEN,
};
use crate::reference::reference_of;
use crate::utils::utf16le_lossy;
use crate::err::Error;
use crate::utils::{push_char, push_str};
use lru::LruCache;
use vstd::prelude::*;

verus! {

#[verifier::external_type_specification]
#[verifier::external_body]
#[verifier::reject_recursive_types(K)]
#[verifier::reject_recursive_types(V)]
#[verifier::reject_recursive_types(S)]
pub struct ExLruCache<K, V, S>(LruCache<K, V, S>);

#[verifier::external_type_specification]
#[verifier::external_body]
pub struct ExDefaultHasher(lru::DefaultHasher);

/// The paths a cache holds, by entry number.
pub uninterp spec fn cache_contents(c: LruCache<u64, String>) -> Map<u64, Seq<char>>;

/// No paths.
pub open spec fn no_paths() -> Map<u64, Seq<char>> {
    Map::empty()
}

/// Relies on `lru::LruCache::new`: an empty cache holding at most `cap` entries.
#[verifier::external_body]
fn new_cache(cap: usize) -> (r: LruCache<u64, String>)
    requires
        cap > 0,
    ensures
        cache_contents(r) == no_paths(),
{
    LruCache::new(std::num::NonZeroUsize::new(cap).unwrap())
}

/// Relies on `lru::LruCache::get`: the value cached for `k`, if any. Only the recency
/// order changes.
#[verifier::external_body]
fn cache_get(c: &mut LruCache<u64, String>, k: u64) -> (r: Option<String>)
    ensures
        cache_contents(*final(c)) == cache_contents(*old(c)),
        r.is_some() == cache_contents(*old(c)).contains_key(k),
        r.is_some() ==> r.unwrap()@ == cache_contents(*old(c))[k],
{
    c.get(&k).cloned()
}

/// Relies on `lru::LruCache::put`: afterwards `k` maps to `v`; every other key keeps its
/// value, or is evicted when a new key meets a full cache.
#[verifier::external_body]
fn cache_put(c: &mut LruCache<u64, String>, k: u64, v: String)
    ensures
        cache_contents(*final(c)).contains_key(k),
        cache_contents(*final(c))[k] == v@,
        forall|j: u64|
            j != k && #[trigger] cache_contents(*final(c)).contains_key(j) ==> cache_contents(
                *old(c),
            ).contains_key(j) && cache_contents(*final(c))[j] == cache_contents(*old(c))[j],
{
    c.put(k, v);
}

/// The distance between two candidate headers when the entry size is probed.
pub const PROBE_STRIDE: u64 = 1024;

/// How many resolved paths the cache keeps.
pub const PATH_CACHE_SIZE: usize = 1000;

/// The header at `off` of `s` is a "FILE" or "BAAD" header whose total entry size is
/// non-zero and is 512 bytes for each element of its update sequence array but one.
pub open spec fn size_probe_ok(s: Seq<u8>, off: int) -> bool {
    &&& in_bounds(s, off, 42)
    &&& (s.subrange(off, off + 4) == file_signature() || s.subrange(off, off + 4) == baad_signature())
    &&& le_at(s, off + 28, 4) != 0
    &&& le_at(s, off + 6, 2) >= 1
    &&& le_at(s, off + 28, 4) == (le_at(s, off + 6, 2) - 1) * 512
}

/// `n` is the entry size found by probing the first `size` bytes of `s` every 1024
/// bytes: the total entry size of the first header that passes the check.
pub open spec fn probed_entry_size(s: Seq<u8>, size: int, n: u32) -> bool {
    exists|k: int|
        0 <= k && 1024 * k < size && #[trigger] size_probe_ok(s, 1024 * k) && n == le_at(s, 1024 * k + 28, 4)
            && forall|j: int| 0 <= j < k ==> !size_probe_ok(s, #[trigger] (1024 * j))
}

/// No candidate header in the first `size` bytes of `s` passes the check.
pub open spec fn no_entry_size(s: Seq<u8>, size: int) -> bool {
    forall|k: int| 0 <= k && 1024 * k < size ==> !size_probe_ok(s, #[trigger] (1024 * k))
}

/// Checks the header at `off`; its total entry size when it passes.
fn check_entry_size(data: &[u8], off: u64) -> (r: Result<u32, Error>)
    ensures
        size_probe_ok(data@, off as int) ==> r == Ok::<u32, Error>(le_at(data@, off + 28, 4) as u32),
        r matches Ok(n) ==> n == le_at(data@, off + 28, 4),
        !size_probe_ok(data@, off as int) ==> r is Err && r->Err_0 is FailedToReadEntrySize,
{
    if off > data.len() as u64 {
        return Err(Error::FailedToReadEntrySize);
    }
    match EntryHeader::from_reader(data, off as usize, 0) {
        Ok(header) => {
            if header.total_entry_size != 0 && header.usa_size >= 1 && header.total_entry_size as u64
                == (header.usa_size as u64 - 1) * 512 {
                Ok(header.total_entry_size)
            } else {
                Err(Error::FailedToReadEntrySize)
            }
        },
        Err(_) => Err(Error::FailedToReadEntrySize),
    }
}

/// Finds the entry size from the first header, every 1024 bytes, that passes the check.
/// Leading zeroed or corrupt headers are passed over.
pub fn find_entry_size(data: &[u8], size: u64) -> (r: Result<u32, Error>)
    ensures
        r matches Ok(n) ==> probed_entry_size(data@, size as int, n),
        r is Err ==> r->Err_0 is FailedToReadEntrySize && no_entry_size(data@, size as int),
{
    let mut off: u64 = 0;
    let ghost mut k: int = 0;
    while off < size
        invariant
            off == 1024 * k,
            0 <= k,
            forall|j: int| 0 <= j < k ==> !size_probe_ok(data@, #[trigger] (1024 * j)),
        decreases size - off,
    {
        match check_entry_size(data, off) {
            Ok(n) => {
                assert(size_probe_ok(data@, 1024 * k));
                assert(probed_entry_size(data@, size as int, n));
                return Ok(n);
            },
            Err(_) => {},
        }
        if size - off <= PROBE_STRIDE {
            proof {
                assert forall|j: int| 0 <= j && 1024 * j < size implies !size_probe_ok(
                    data@,
                    #[trigger] (1024 * j),
                ) by {
                    if j > k {
                        assert(1024 * j >= 1024 * (k + 1)) by (nonlinear_arith)
                            requires
                                j > k,
                        ;
                    }
                }
            }
            return Err(Error::FailedToReadEntrySize);
        }
        off = off + PROBE_STRIDE;
        proof {
            k = k + 1;
        }
    }
    proof {
        assert forall|j: int| 0 <= j && 1024 * j < size implies !size_probe_ok(
            data@,
            #[trigger] (1024 * j),
        ) by {
            if j >= k {
                assert(1024 * j >= 1024 * k) by (nonlinear_arith)
                    requires
                        j >= k,
                ;
            }
        }
    }
    Err(Error::FailedToReadEntrySize)
}

/// `p` followed by `name`, joined with '/' unless `p` is empty.
pub open spec fn join_path(p: Seq<char>, name: Seq<char>) -> Seq<char> {
    if p.len() == 0 {
        name
    } else {
        p + seq!['/'] + name
    }
}

pub open spec fn join_opt(p: Seq<char>, name: Option<Seq<char>>) -> Seq<char> {
    match name {
        Some(n) => join_path(p, n),
        None => p,
    }
}

/// The path given to entries whose chain of parents loops or is cut.
pub open spec fn orphaned() -> Seq<char> {
    seq!['[', 'O', 'r', 'p', 'h', 'a', 'n', 'e', 'd', ']']
}

/// The path given to a parent that cannot be read or is not a directory.
pub open spec fn unknown() -> Seq<char> {
    seq!['[', 'U', 'n', 'k', 'n', 'o', 'w', 'n', ']']
}

fn orphaned_text() -> (r: String)
    ensures
        r@ == orphaned(),
{
    let r = "[Orphaned]".to_owned();
    proof {
        reveal_strlit("[Orphaned]");
    }
    assert(r@ =~= orphaned());
    r
}

fn unknown_text() -> (r: String)
    ensures
        r@ == unknown(),
{
    let r = "[Unknown]".to_owned();
    proof {
        reveal_strlit("[Unknown]");
    }
    assert(r@ =~= unknown());
    r
}

/// Joins two path parts with '/'.
pub fn join(p: &String, name: &String) -> (r: String)
    ensures
        r@ == join_path(p@, name@),
{
    if p.as_str().unicode_len() == 0 {
        name.clone()
    } else {
        let mut r = p.clone();
        push_char(&mut r, '/');
        push_str(&mut r, name.as_str());
        r
    }
}

fn join_maybe(p: &String, name: Option<&String>) -> (r: String)
    ensures
        r@ == join_opt(
            p@,
            match name {
                Some(n) => Some(n@),
                None => None,
            },
        ),
{
    match name {
        Some(n) => join(p, n),
        None => p.clone(),
    }
}

fn contains_entry(v: &Vec<u64>, x: u64) -> (r: bool)
    ensures
        r == v@.contains(x),
{
    let mut i: usize = 0;
    while i < v.len()
        invariant
            i <= v.len(),
            forall|j: int| 0 <= j < i ==> v@[j] != x,
        decreases v.len() - i,
    {
        if v[i] == x {
            assert(v@[i as int] == x);
            return true;
        }
        i = i + 1;
    }
    false
}

/// How one name resolution relates the cache before and after, and the count of entry
/// reads, to the path `r` given to the entry `entry_id` named `name` under `parent`.
pub open spec fn name_resolution(
    s: Seq<u8>,
    es: int,
    size: int,
    old_cache: Map<u64, Seq<char>>,
    new_cache: Map<u64, Seq<char>>,
    old_reads: nat,
    new_reads: nat,
    entry_id: u64,
    parent: u64,
    name: Seq<char>,
    r: Seq<char>,
) -> bool {
    if parent == 5 {
        r == name && new_cache == old_cache && new_reads == old_reads
    } else if parent == entry_id {
        r == join_path(orphaned(), name) && new_cache == old_cache && new_reads == old_reads
    } else if parent == 0 {
        &&& r == join_path(orphaned(), name)
        &&& new_cache.contains_key(entry_id) && new_cache[entry_id] == r
        &&& new_reads == old_reads
    } else if old_cache.contains_key(parent) {
        r == join_path(old_cache[parent], name) && new_cache == old_cache && new_reads == old_reads
    } else {
        &&& new_cache.contains_key(parent) && r == join_path(new_cache[parent], name)
        &&& parent_path_ok(s, es, size, parent, new_cache[parent])
    }
}

/// The bytes of slot `n` of an $MFT `s` of entries of `es` bytes.
pub open spec fn slot_bytes(s: Seq<u8>, es: int, n: int) -> Seq<u8> {
    s.subrange(n * es, n * es + es)
}

/// Slot `n` lies inside the first `size` bytes and its header decodes.
pub open spec fn slot_readable(s: Seq<u8>, es: int, size: int, n: int) -> bool {
    let b = slot_bytes(s, es, n);
    &&& n * es + es <= size
    &&& in_bounds(b, 0, 4)
    &&& is_known_signature(b.subrange(0, 4))
    &&& (b.subrange(0, 4) == zero_signature() || in_bounds(b, 0, ENTRY_HEADER_LEN as int))
}

/// The bytes an entry decoded from `b` keeps: with the fixups applied when they check,
/// unless the slot is unused.
pub open spec fn kept_bytes(b: Seq<u8>) -> Seq<u8> {
    let uo = le_at(b, 4, 2) as int;
    let us = le_at(b, 6, 2) as int;
    if b.subrange(0, 4) != zero_signature() && us >= 1 && uo + 2 * us <= b.len() && 512 * (us - 1)
        <= b.len() && strides_match(b, uo, us - 1) {
        fixed_upto(b, uo, us - 1)
    } else {
        b
    }
}

/// The entry decoded from the readable slot bytes `b` has a path: a file name, or a
/// base record.
pub open spec fn slot_has_path(b: Seq<u8>) -> bool {
    if b.subrange(0, 4) == zero_signature() {
        best_name_pos(b, 0) is Some
    } else {
        best_name_pos(kept_bytes(b), le_at(b, 20, 2) as int) is Some || reference_of(
            le_at(b, 32, 8) as u64,
        ).entry != 0
    }
}

/// The entry decoded from the slot bytes `b` is a directory.
pub open spec fn slot_is_dir(b: Seq<u8>) -> bool {
    b.subrange(0, 4) != zero_signature() && ((le_at(b, 22, 2) as u16) & 0x0F) & 0x02 != 0
}

/// The path cached for a parent that was not cached: "[Unknown]" when its slot cannot
/// be read or it is no directory, empty when it has no path; otherwise its own path.
pub open spec fn parent_path_ok(s: Seq<u8>, es: int, size: int, parent: u64, v: Seq<char>) -> bool {
    let b = slot_bytes(s, es, parent as int);
    &&& !slot_readable(s, es, size, parent as int) ==> v == unknown()
    &&& slot_readable(s, es, size, parent as int) && !slot_has_path(b) ==> v == Seq::<char>::empty()
    &&& slot_readable(s, es, size, parent as int) && slot_has_path(b) && !slot_is_dir(b) ==> v
        == unknown()
}

/// The parent entry number of the $FILE_NAME value at `q` of `s`.
pub open spec fn name_parent_at(s: Seq<u8>, q: int) -> u64 {
    reference_of(le_at(s, q, 8) as u64).entry
}

/// The name of the $FILE_NAME value at `q` of `s`.
pub open spec fn name_text_at(s: Seq<u8>, q: int) -> Seq<char> {
    utf16le_lossy(s.subrange(q + 66, q + 66 + 2 * s[q + 64]))
}

/// How resolving an extension record through its base record `base` relates the cache
/// and the count of entry reads before and after to the path `r`.
pub open spec fn base_resolution(
    old_cache: Map<u64, Seq<char>>,
    new_cache: Map<u64, Seq<char>>,
    old_reads: nat,
    new_reads: nat,
    entry_id: u64,
    base: u64,
    r: Seq<char>,
) -> bool {
    if base == 0 {
        false
    } else if old_cache.contains_key(base) {
        r == old_cache[base] && new_cache == old_cache && new_reads == old_reads
    } else if base == entry_id {
        r == orphaned()
    } else {
        new_cache.contains_key(base) && r == new_cache[base]
    }
}

pub struct MftParser {
    /// The whole $MFT.
    pub data: Vec<u8>,
    /// The size of every entry, found by probing.
    pub entry_size: u32,
    pub size: u64,
    /// Resolved directory paths, by entry number.
    pub entries_cache: LruCache<u64, String>,
    /// How many entries have been read.
    pub reads: Ghost<nat>,
}

impl MftParser {
    pub open spec fn wf(&self) -> bool {
        self.entry_size > 0 && self.size == self.data@.len()
    }

    /// The parser keeps its bytes and entry size.
    pub open spec fn same_source(&self, other: &MftParser) -> bool {
        &&& self.data@ == other.data@
        &&& self.entry_size == other.entry_size
        &&& self.size == other.size
    }

    pub open spec fn cache(&self) -> Map<u64, Seq<char>> {
        cache_contents(self.entries_cache)
    }

    /// A parser over a buffer that holds a whole $MFT.
    pub fn from_buffer(buffer: Vec<u8>) -> (r: Result<MftParser, Error>)
        ensures
            r matches Ok(p) ==> p.wf() && p.data@ == buffer@ && probed_entry_size(
                buffer@,
                buffer@.len() as int,
                p.entry_size,
            ) && p.cache() == no_paths() && p.reads@ == 0,
            r is Err ==> r->Err_0 is FailedToReadEntrySize && no_entry_size(buffer@, buffer@.len() as int),
    {
        let size = buffer.len() as u64;
        let entry_size = match find_entry_size(buffer.as_slice(), size) {
            Ok(n) => n,
            Err(e) => {
                return Err(e);
            },
        };
        Ok(MftParser {
            data: buffer,
            entry_size,
            size,
            entries_cache: new_cache(PATH_CACHE_SIZE),
            reads: Ghost(0),
        })
    }

    pub fn get_entry_count(&self) -> (r: u64)
        requires
            self.wf(),
        ensures
            r == self.size / (self.entry_size as u64),
    {
        self.size / self.entry_size as u64
    }

    /// Reads and decodes entry `entry_number`.
    pub fn get_entry(&mut self, entry_number: u64) -> (r: Result<MftEntry, Error>)
        requires
            old(self).wf(),
        ensures
            final(self).wf(),
            final(self).same_source(old(self)),
            final(self).entries_cache == old(self).entries_cache,
            final(self).reads@ == old(self).reads@ + 1,
            ({
                let es = old(self).entry_size as int;
                let start = entry_number * es;
                if start + es > old(self).size {
                    r is Err && r->Err_0 is IoError
                } else {
                    entry_from_buffer_ok(r, old(self).data@.subrange(start, start + es), entry_number)
                }
            }),
    {
        proof {
            self.reads = Ghost(self.reads@ + 1);
        }
        let es = self.entry_size as u128;
        assert(entry_number * es <= 0xFFFF_FFFF_FFFF_FFFF * 0xFFFF_FFFF) by (nonlinear_arith)
            requires
                entry_number <= 0xFFFF_FFFF_FFFF_FFFF,
                es <= 0xFFFF_FFFF,
        ;
        let start = entry_number as u128 * es;
        if start + es > self.data.len() as u128 {
            return Err(Error::IoError);
        }
        let buffer = read_bytes(self.data.as_slice(), start as usize, self.entry_size as usize).unwrap();
        MftEntry::from_buffer(buffer, entry_number)
    }

    /// The full path of `entry`, from its preferred file name, or, for an extension
    /// record without one, from its base record. `None` when it has neither.
    pub fn get_full_path_for_entry(&mut self, entry: &MftEntry) -> (r: Result<Option<String>, Error>)
        requires
            old(self).wf(),
        ensures
            final(self).wf(),
            final(self).same_source(old(self)),
            r is Ok,
            match entry_best_name(*entry) {
                Some(q) => r matches Ok(Some(p)) && name_resolution(
                    old(self).data@,
                    old(self).entry_size as int,
                    old(self).size as int,
                    old(self).cache(),
                    final(self).cache(),
                    old(self).reads@,
                    final(self).reads@,
                    entry.header.record_number,
                    name_parent_at(entry.data@, q),
                    name_text_at(entry.data@, q),
                    p@,
                ),
                None => if entry.header.base_reference.entry == 0 {
                    r matches Ok(None)
                } else {
                    r matches Ok(Some(p)) && base_resolution(
                        old(self).cache(),
                        final(self).cache(),
                        old(self).reads@,
                        final(self).reads@,
                        entry.header.record_number,
                        entry.header.base_reference.entry,
                        p@,
                    )
                },
            },
    {
        let entry_id = entry.header.record_number;
        let mut visited: Vec<u64> = Vec::new();
        visited.push(entry_id);
        assert(visited@ =~= seq![entry_id]);
        let count = self.get_entry_count();
        let fuel = if count < u64::MAX {
            count + 1
        } else {
            count
        };
        let ghost c0 = self.cache();
        let ghost n0 = self.reads@;
        assert(fuel > 0);
        match entry.find_best_name_attribute() {
            Some(f) => {
                assert(f.parent.entry != entry_id ==> !visited@.contains(f.parent.entry));
                let p = self.resolve_name(entry_id, &f, &mut visited, fuel);

                Ok(Some(p))
            },
            None => {
                let base = entry.header.base_reference.entry;
                if base == 0 {
                    Ok(None)
                } else {
                    assert(base != entry_id ==> !visited@.contains(base));
                    assert(visited@[0] == entry_id);
                    assert(visited@.contains(entry_id));
                    let p = self.inner_get_entry(base, None, &mut visited, fuel);
                    assert(base_resolution(c0, self.cache(), n0, self.reads@, entry_id, base, p@));
                    Ok(Some(p))
                }
            },
        }
    }

    /// A cursor over every entry in order, from entry 0.
    pub fn iter_entries(&self) -> (r: EntryIter)
        ensures
            r.next_entry == 0,
    {
        EntryIter { next_entry: 0 }
    }

    /// The path of the entry `entry_id` whose preferred file name is `name`.
    pub fn path_for_name(&mut self, entry_id: u64, name: &FileNameAttr) -> (r: String)
        requires
            old(self).wf(),
        ensures
            final(self).wf(),
            final(self).same_source(old(self)),
            name_resolution(
                old(self).data@,
                old(self).entry_size as int,
                old(self).size as int,
                old(self).cache(),
                final(self).cache(),
                old(self).reads@,
                final(self).reads@,
                entry_id,
                name.parent.entry,
                name.name@,
                r@,
            ),
    {
        let mut visited: Vec<u64> = Vec::new();
        visited.push(entry_id);
        assert(visited@ =~= seq![entry_id]);
        assert(name.parent.entry != entry_id ==> !visited@.contains(name.parent.entry));
        let count = self.get_entry_count();
        let fuel = if count < u64::MAX {
            count + 1
        } else {
            count
        };
        self.resolve_name(entry_id, name, &mut visited, fuel)
    }

    fn resolve(&mut self, entry: &MftEntry, visited: &mut Vec<u64>, fuel: u64) -> (r: Option<String>)
        requires
            old(self).wf(),
        ensures
            final(self).wf(),
            final(self).same_source(old(self)),
            final(visited)@ == old(visited)@,
            r is None <==> entry_best_name(*entry) is None && entry.header.base_reference.entry == 0,
        decreases fuel, 2int,
    {
        match entry.find_best_name_attribute() {
            Some(f) => Some(self.resolve_name(entry.header.record_number, &f, visited, fuel)),
            None => {
                let base = entry.header.base_reference.entry;
                if base == 0 {
                    None
                } else {
                    Some(self.inner_get_entry(base, None, visited, fuel))
                }
            },
        }
    }

    fn resolve_name(&mut self, entry_id: u64, f: &FileNameAttr, visited: &mut Vec<u64>, fuel: u64) -> (r: String)
        requires
            old(self).wf(),
        ensures
            final(self).wf(),
            final(self).same_source(old(self)),
            final(visited)@ == old(visited)@,
            f.parent.entry != 0 && f.parent.entry != 5 && f.parent.entry != entry_id && !old(
                visited,
            )@.contains(f.parent.entry) && fuel > 0 ==> name_resolution(
                old(self).data@,
                old(self).entry_size as int,
                old(self).size as int,
                old(self).cache(),
                final(self).cache(),
                old(self).reads@,
                final(self).reads@,
                entry_id,
                f.parent.entry,
                f.name@,
                r@,
            ),
            f.parent.entry == 0 || f.parent.entry == 5 || f.parent.entry == entry_id || old(
                self,
            ).cache().contains_key(f.parent.entry) ==> name_resolution(
                old(self).data@,
                old(self).entry_size as int,
                old(self).size as int,
                old(self).cache(),
                final(self).cache(),
                old(self).reads@,
                final(self).reads@,
                entry_id,
                f.parent.entry,
                f.name@,
                r@,
            ),
        decreases fuel, 1int,
    {
        let parent = f.parent.entry;
        if parent == 5 {
            return f.name.clone();
        }
        if parent == entry_id {
            return join(&orphaned_text(), &f.name);
        }
        if parent > 0 {
            return self.inner_get_entry(parent, Some(&f.name), visited, fuel);
        }
        let orphan = join(&orphaned_text(), &f.name);
        cache_put(&mut self.entries_cache, entry_id, orphan.clone());
        orphan
    }

    fn inner_get_entry(&mut self, parent: u64, name: Option<&String>, visited: &mut Vec<u64>, fuel: u64) -> (r: String)
        requires
            old(self).wf(),
        ensures
            final(self).wf(),
            final(self).same_source(old(self)),
            final(visited)@ == old(visited)@,
            ({
                let n = match name {
                    Some(s) => Some(s@),
                    None => None,
                };
                &&& old(self).cache().contains_key(parent) ==> r@ == join_opt(old(self).cache()[parent], n)
                    && final(self).cache() == old(self).cache() && final(self).reads@ == old(self).reads@
                &&& !old(self).cache().contains_key(parent) && !old(visited)@.contains(parent) && fuel > 0
                    ==> final(self).cache().contains_key(parent) && r@ == join_opt(final(self).cache()[parent], n)
                    && parent_path_ok(
                    old(self).data@,
                    old(self).entry_size as int,
                    old(self).size as int,
                    parent,
                    final(self).cache()[parent],
                )
                &&& !old(self).cache().contains_key(parent) && old(visited)@.contains(parent) ==> r@
                    == join_opt(orphaned(), n)
            }),
        decreases fuel, 0int,
    {
        if let Some(cached) = cache_get(&mut self.entries_cache, parent) {
            return join_maybe(&cached, name);
        }
        if fuel == 0 || contains_entry(visited, parent) {
            // The chain of parents loops back on itself.
            return join_maybe(&orphaned_text(), name);
        }
        let ghost s0 = self.data@;
        let ghost es = self.entry_size as int;
        let ghost b = slot_bytes(s0, es, parent as int);
        let got = self.get_entry(parent);
        proof {
            if got is Ok {
                let pe = got->Ok_0;
                {
                    assert(slot_readable(s0, es, self.size as int, parent as int));
                    if b.subrange(0, 4) == zero_signature() {
                        assert(pe.data@ == b);
                        assert(entry_best_name(pe) == best_name_pos(b, 0));
                    } else {
                        assert(pe.data@ == kept_bytes(b));
                        assert(entry_best_name(pe) == best_name_pos(kept_bytes(b), le_at(b, 20, 2) as int));
                        assert(pe.header.base_reference.entry == reference_of(le_at(b, 32, 8) as u64).entry);
                    }
                    assert(slot_has_path(b) == !(entry_best_name(pe) is None
                        && pe.header.base_reference.entry == 0));
                    assert(0u16 & 0x02u16 == 0) by (bit_vector);
                    assert(slot_is_dir(b) == (pe.header.flags.bits & 0x02 != 0));
                }
            } else {
                assert(!slot_readable(s0, es, self.size as int, parent as int));
            }
        }
        let path = match got {
            Ok(parent_entry) => {
                visited.push(parent);
                let resolved = self.resolve(&parent_entry, visited, fuel - 1);
                visited.pop();
                match resolved {
                    Some(p) => {
                        if parent_entry.is_dir() {
                            p
                        } else {
                            unknown_text()
                        }
                    },
                    None => String::new(),
                }
            },
            // The parent is unreadable or corrupt.
            Err(_) => unknown_text(),
        };
        cache_put(&mut self.entries_cache, parent, path.clone());
        join_maybe(&path, name)
    }
}


/// A cursor over the entries of a parser, read one at a time.
#[derive(Debug, Copy, Clone)]
pub struct EntryIter {
    /// The number of the entry the next step reads.
    pub next_entry: u64,
}

impl EntryIter {
    /// Reads the next entry as `get_entry` does; `None` after the last one.
    pub fn next(&mut self, parser: &mut MftParser) -> (r: Option<Result<MftEntry, Error>>)
        requires
            old(parser).wf(),
        ensures
            final(parser).wf(),
            final(parser).same_source(old(parser)),
            final(parser).entries_cache == old(parser).entries_cache,
            ({
                let n = old(self).next_entry as int;
                let es = old(parser).entry_size as int;
                if n >= old(parser).size / (old(parser).entry_size as u64) {
                    r is None && *final(self) == *old(self)
                } else {
                    &&& final(self).next_entry == n + 1
                    &&& r matches Some(e) && entry_from_buffer_ok(
                        e,
                        old(parser).data@.subrange(n * es, n * es + es),
                        n as u64,
                    )
                }
            }),
    {
        let total = parser.get_entry_count();
        if self.next_entry >= total {
            return None;
        }
        let n = self.next_entry;
        proof {
            let es = parser.entry_size as int;
            vstd::arithmetic::div_mod::lemma_fundamental_div_mod(parser.size as int, es);
            assert((n + 1) * es <= total * es) by (nonlinear_arith)
                requires
                    n + 1 <= total,
                    es > 0,
            ;
            assert(n * es + es == (n + 1) * es) by (nonlinear_arith);
        }
        let e = parser.get_entry(n);
        self.next_entry = n + 1;
        Some(e)
    }
}

/// Resolving the same name of the same entry twice gives the same path, and the second
/// resolution reads no entry: a parent resolved once is taken from the cache.
pub proof fn lemma_repeated_resolution_hits_cache(
    s: Seq<u8>,
    es: int,
    size: int,
    c0: Map<u64, Seq<char>>,
    c1: Map<u64, Seq<char>>,
    c2: Map<u64, Seq<char>>,
    n0: nat,
    n1: nat,
    n2: nat,
    entry_id: u64,
    parent: u64,
    name: Seq<char>,
    r1: Seq<char>,
    r2: Seq<char>,
)
    requires
        name_resolution(s, es, size, c0, c1, n0, n1, entry_id, parent, name, r1),
        name_resolution(s, es, size, c1, c2, n1, n2, entry_id, parent, name, r2),
    ensures
        r1 == r2,
        n2 == n1,
        c2 == c1 || (parent == 0 && c2[entry_id] == c1[entry_id]),
{
}

} // verus!

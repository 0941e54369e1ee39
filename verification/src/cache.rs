//! The cache store: revalidation metadata by cache key, and the rules by which
//! a response is stored and found again. The blobs themselves live on disk;
//! this module decides what is written and read there, and under which name.

use vstd::prelude::*;
use crate::message::{
    copy_bytes, find_header, header_value, header_views, text_of_value, value_text, Header,
    HeaderView,
};
use crate::text::{chars_of, same_text, string_of};

verus! {

/// The revalidation metadata of one cached response.
#[derive(Debug, Clone, PartialEq, Eq)]
pub struct CachedEntry {
    pub last_modified: String,
    pub etag: String,
}

/// What a `CachedEntry` holds.
pub struct CachedEntryView {
    pub last_modified: Seq<char>,
    pub etag: Seq<char>,
}

impl View for CachedEntry {
    type V = CachedEntryView;

    open spec fn view(&self) -> CachedEntryView {
        CachedEntryView { last_modified: self.last_modified@, etag: self.etag@ }
    }
}

impl CachedEntry {
    /// A copy of this entry.
    pub fn duplicate(&self) -> (r: CachedEntry)
        ensures
            r@ == self@,
    {
        CachedEntry { last_modified: self.last_modified.clone(), etag: self.etag.clone() }
    }
}

/// One line of the metadata snapshot: a cache key and its entry.
#[derive(Debug, Clone, PartialEq, Eq)]
pub struct CacheRecord {
    pub key: String,
    pub entry: CachedEntry,
}

/// A character that makes an entity tag unfit to name a file.
pub open spec fn is_unsafe_char(c: char) -> bool {
    c == 'W' || c == '%' || c == ';' || c == '\\' || c == '/'
}

/// No character of `etag` is unfit for a file name.
pub open spec fn etag_is_safe(etag: Seq<char>) -> bool {
    forall|i: int| 0 <= i < etag.len() ==> !is_unsafe_char(#[trigger] etag[i])
}

/// The name of the blob file of an entry with tag `etag`: the tag without its
/// quote characters.
pub open spec fn blob_name(etag: Seq<char>) -> Seq<char> {
    etag.filter(|c: char| c != '"')
}

/// Whether every character of `etag` is fit for a file name.
pub fn check_etag(etag: &str) -> (ok: bool)
    ensures
        ok == etag_is_safe(etag@),
{
    let chars = chars_of(etag);
    let mut i: usize = 0;
    while i < chars.len()
        invariant
            chars@ == etag@,
            i <= chars@.len(),
            forall|j: int| 0 <= j < i ==> !is_unsafe_char(#[trigger] etag@[j]),
        decreases chars@.len() - i,
    {
        let c = chars[i];
        if c == 'W' || c == '%' || c == ';' || c == '\\' || c == '/' {
            return false;
        }
        i += 1;
    }
    true
}

/// The blob file name for `etag`.
pub fn blob_file_name(etag: &str) -> (name: String)
    ensures
        name@ == blob_name(etag@),
{
    let chars = chars_of(etag);
    let mut kept: Vec<char> = Vec::new();
    let mut i: usize = 0;
    proof {
        reveal(Seq::filter);
        assert(chars@.take(0).len() == 0);
    }
    while i < chars.len()
        invariant
            chars@ == etag@,
            i <= chars@.len(),
            kept@ == blob_name(chars@.take(i as int)),
        decreases chars@.len() - i,
    {
        proof {
            reveal(Seq::filter);
            assert(chars@.take(i + 1).drop_last() =~= chars@.take(i as int));
        }
        if chars[i] != '"' {
            kept.push(chars[i]);
        }
        i += 1;
    }
    assert(chars@.take(chars@.len() as int) == chars@);
    string_of(&kept)
}

/// Why a response was refused by the cache store.
#[derive(Debug, PartialEq, Eq, Clone, Copy)]
pub enum CacheError {
    /// The entity tag holds a character that must not stand in a file name.
    InvalidEtag,
}

impl CacheError {
    /// The error in words.
    pub fn message(&self) -> (s: String)
        ensures
            s@ == "Invalid etag type"@,
    {
        "Invalid etag type".to_owned()
    }
}

/// What storing a response comes to: the blob to write and the metadata to
/// record once it is written.
#[derive(Debug, Clone, PartialEq, Eq)]
pub struct StorePlan {
    pub key: String,
    pub entry: CachedEntry,
    pub file: String,
    pub body: Vec<u8>,
}

/// What a `StorePlan` holds.
pub struct StorePlanView {
    pub key: Seq<char>,
    pub entry: CachedEntryView,
    pub file: Seq<char>,
    pub body: Seq<u8>,
}

impl View for StorePlan {
    type V = StorePlanView;

    open spec fn view(&self) -> StorePlanView {
        StorePlanView { key: self.key@, entry: self.entry@, file: self.file@, body: self.body@ }
    }
}

/// The response carries both validators.
pub open spec fn is_storable(headers: Seq<HeaderView>) -> bool {
    header_value(headers, "last-modified"@) is Some && header_value(headers, "etag"@) is Some
}

/// The entry that a storable response gives.
pub open spec fn entry_of(headers: Seq<HeaderView>) -> CachedEntryView {
    CachedEntryView {
        last_modified: value_text(header_value(headers, "last-modified"@)->0),
        etag: value_text(header_value(headers, "etag"@)->0),
    }
}

/// What storing a response under `key` comes to: nothing where a validator is
/// missing, a refusal where the tag is unfit for a file name, else the plan.
pub open spec fn store_outcome(headers: Seq<HeaderView>, key: Seq<char>, body: Seq<u8>) -> Result<
    Option<StorePlanView>,
    CacheError,
> {
    if !is_storable(headers) {
        Ok(None)
    } else if !etag_is_safe(entry_of(headers).etag) {
        Err(CacheError::InvalidEtag)
    } else {
        Ok(
            Some(
                StorePlanView {
                    key,
                    entry: entry_of(headers),
                    file: blob_name(entry_of(headers).etag),
                    body,
                },
            ),
        )
    }
}

/// The view of what `put_in_cache` returns.
pub open spec fn outcome_view(r: Result<Option<StorePlan>, CacheError>) -> Result<
    Option<StorePlanView>,
    CacheError,
> {
    match r {
        Ok(Some(plan)) => Ok(Some(plan@)),
        Ok(None) => Ok(None),
        Err(e) => Err(e),
    }
}

/// Decides how the response with `headers` and `body` is stored under
/// `cache_key`. Nothing is written here: the caller writes `body` to the file
/// that the plan names and then records the plan in the store.
pub fn put_in_cache(headers: &Vec<Header>, cache_key: &str, body: &Vec<u8>) -> (r: Result<
    Option<StorePlan>,
    CacheError,
>)
    ensures
        outcome_view(r) == store_outcome(header_views(headers@), cache_key@, body@),
{
    let last_modified = match find_header(headers, "last-modified") {
        Some(v) => text_of_value(v),
        None => {
            return Ok(None);
        },
    };
    let etag = match find_header(headers, "etag") {
        Some(v) => text_of_value(v),
        None => {
            return Ok(None);
        },
    };
    if !check_etag(etag.as_str()) {
        return Err(CacheError::InvalidEtag);
    }
    let file = blob_file_name(etag.as_str());
    Ok(
        Some(
            StorePlan {
                key: cache_key.to_owned(),
                entry: CachedEntry { last_modified, etag },
                file,
                body: copy_bytes(body),
            },
        ),
    )
}

/// The metadata of a cache: one entry per key. A later write for a key replaces
/// the earlier one.
pub struct CacheStore {
    records: Vec<CacheRecord>,
}

/// The blobs on disk, by file name.
pub type Blobs = Map<Seq<char>, Seq<u8>>;

/// The file to read for a lookup of `key`: that of the key's entry, where it
/// has one and the entry's tag is fit for a file name.
pub open spec fn blob_wanted(entries: Map<Seq<char>, CachedEntryView>, key: Seq<char>) -> Option<
    Seq<char>,
> {
    if entries.contains_key(key) && etag_is_safe(entries[key].etag) {
        Some(blob_name(entries[key].etag))
    } else {
        None
    }
}

/// What a lookup of `key` finds: the entry and its blob, where there is a file
/// to read for the key and that file is there.
pub open spec fn found(
    entries: Map<Seq<char>, CachedEntryView>,
    blobs: Blobs,
    key: Seq<char>,
) -> Option<(CachedEntryView, Seq<u8>)> {
    match blob_wanted(entries, key) {
        Some(file) => if blobs.contains_key(file) {
            Some((entries[key], blobs[file]))
        } else {
            None
        },
        None => None,
    }
}

/// The entries that a list of records gives when they are recorded in order.
pub open spec fn recorded(records: Seq<CacheRecord>) -> Map<Seq<char>, CachedEntryView>
    decreases records.len(),
{
    if records.len() == 0 {
        Map::empty()
    } else {
        recorded(records.drop_last()).insert(records.last().key@, records.last().entry@)
    }
}

impl CacheStore {
    #[verifier::type_invariant]
    spec fn distinct_keys(&self) -> bool {
        forall|i: int, j: int|
            0 <= i < j < self.records@.len() ==> self.records@[i].key@ != self.records@[j].key@
    }

    /// Record `i` is the one for `key`.
    spec fn is_at(&self, key: Seq<char>, i: int) -> bool {
        0 <= i < self.records@.len() && self.records@[i].key@ == key
    }

    /// The entries, by key.
    pub closed spec fn view(&self) -> Map<Seq<char>, CachedEntryView> {
        Map::new(
            |k: Seq<char>| exists|i: int| self.is_at(k, i),
            |k: Seq<char>| self.records@[choose|i: int| self.is_at(k, i)].entry@,
        )
    }

    /// A store without entries.
    pub fn new() -> (r: CacheStore)
        ensures
            r@ == Map::<Seq<char>, CachedEntryView>::empty(),
    {
        let r = CacheStore { records: Vec::new() };
        assert(r@ =~= Map::<Seq<char>, CachedEntryView>::empty());
        r
    }

    /// The number of entries.
    pub fn len(&self) -> (n: usize)
        ensures
            n == self@.dom().len(),
            self@.dom().finite(),
    {
        proof {
            use_type_invariant(self);
            self.lemma_domain();
        }
        self.records.len()
    }

    /// The keys are as many as the records.
    proof fn lemma_domain(&self)
        requires
            self.distinct_keys(),
        ensures
            self@.dom().finite(),
            self@.dom().len() == self.records@.len(),
    {
        let keys = self.records@.map_values(|r: CacheRecord| r.key@);
        assert(keys.no_duplicates());
        keys.unique_seq_to_set();
        assert(keys.to_set() =~= self@.dom()) by {
            assert forall|k: Seq<char>| keys.to_set().contains(k) == self@.dom().contains(k) by {
                if keys.to_set().contains(k) {
                    let i = choose|i: int| 0 <= i < keys.len() && keys[i] == k;
                    assert(self.is_at(k, i));
                }
                if self@.dom().contains(k) {
                    let i = choose|i: int| self.is_at(k, i);
                    assert(keys[i] == k);
                }
            }
        }
    }

    /// The place of the record for `key`, if there is one.
    fn position(&self, key: &str) -> (r: Option<usize>)
        ensures
            match r {
                Some(i) => self.is_at(key@, i as int),
                None => forall|i: int| !self.is_at(key@, i),
            },
    {
        let mut i: usize = 0;
        while i < self.records.len()
            invariant
                i <= self.records@.len(),
                forall|j: int| 0 <= j < i ==> !self.is_at(key@, j),
            decreases self.records@.len() - i,
        {
            if same_text(self.records[i].key.as_str(), key) {
                return Some(i);
            }
            i += 1;
        }
        None
    }

    /// The entry recorded for `key`.
    pub fn get(&self, key: &str) -> (r: Option<CachedEntry>)
        ensures
            match r {
                Some(e) => self@.contains_key(key@) && e@ == self@[key@],
                None => !self@.contains_key(key@),
            },
    {
        proof {
            use_type_invariant(self);
        }
        match self.position(key) {
            Some(i) => {
                let ghost j = choose|j: int| self.is_at(key@, j);
                assert(j == i);
                Some(self.records[i].entry.duplicate())
            },
            None => None,
        }
    }

    /// Records `entry` for `key`, in place of the entry that the key had.
    pub fn insert(&mut self, key: String, entry: CachedEntry)
        ensures
            final(self)@ == old(self)@.insert(key@, entry@),
    {
        proof {
            use_type_invariant(&*self);
        }
        let ghost before = *self;
        let found = self.position(key.as_str());
        let ghost kv = key@;
        let ghost ev = entry@;
        let mut records: Vec<CacheRecord> = Vec::new();
        core::mem::swap(&mut self.records, &mut records);
        match found {
            Some(i) => {
                records.set(i, CacheRecord { key, entry });
            },
            None => {
                records.push(CacheRecord { key, entry });
            },
        }
        assert forall|i: int, j: int| 0 <= i < j < records@.len() implies records@[i].key@
            != records@[j].key@ by {
            if j < before.records@.len() {
                assert(before.records@[i].key@ != before.records@[j].key@);
            } else {
                assert(!before.is_at(kv, i));
            }
        }
        core::mem::swap(&mut self.records, &mut records);
        proof {
            let n = before.records@.len() as int;
            let at: int = match found {
                Some(i) => i as int,
                None => n,
            };
            assert(self.is_at(kv, at));
            assert forall|k: Seq<char>, j: int| before.is_at(k, j) implies self.is_at(k, j) by {}
            assert forall|k: Seq<char>, j: int| self.is_at(k, j) && j != at implies before.is_at(
                k,
                j,
            ) by {}
            assert forall|k: Seq<char>| #[trigger]
                self@.contains_key(k) == before@.insert(kv, ev).contains_key(k) by {
                if self@.contains_key(k) && k != kv {
                    let j = choose|j: int| self.is_at(k, j);
                    assert(before.is_at(k, j));
                }
                if before@.contains_key(k) {
                    let j = choose|j: int| before.is_at(k, j);
                    assert(self.is_at(k, j));
                }
            }
            assert forall|k: Seq<char>| #[trigger] self@.contains_key(k) implies self@[k]
                == before@.insert(kv, ev)[k] by {
                let j = choose|j: int| self.is_at(k, j);
                assert(self.is_at(k, j));
                if k == kv {
                    assert(j == at);
                } else {
                    assert(before.is_at(k, j));
                    let j0 = choose|j: int| before.is_at(k, j);
                    assert(before.is_at(k, j0));
                    assert(self.is_at(k, j0));
                    assert(j == j0);
                }
            }
            assert(self@ =~= before@.insert(kv, ev));
        }
    }

    /// Records what was stored: to be called once the blob of `plan` is
    /// written.
    pub fn record(&mut self, plan: &StorePlan)
        ensures
            final(self)@ == old(self)@.insert(plan@.key, plan@.entry),
    {
        self.insert(plan.key.clone(), plan.entry.duplicate());
    }

    /// The store that holds `records`, recorded in order.
    pub fn from_records(records: Vec<CacheRecord>) -> (r: CacheStore)
        ensures
            r@ == recorded(records@),
    {
        let mut store = CacheStore::new();
        let mut i: usize = 0;
        while i < records.len()
            invariant
                i <= records@.len(),
                store@ == recorded(records@.take(i as int)),
            decreases records@.len() - i,
        {
            proof {
                assert(records@.take(i + 1).drop_last() =~= records@.take(i as int));
            }
            store.insert(records[i].key.clone(), records[i].entry.duplicate());
            i += 1;
        }
        assert(records@.take(records@.len() as int) == records@);
        store
    }

    /// All entries with their keys, each key once: what the metadata snapshot
    /// holds.
    pub fn snapshot(&self) -> (r: Vec<CacheRecord>)
        ensures
            r@.len() == self@.dom().len(),
            forall|i: int|
                0 <= i < r@.len() ==> self@.contains_key(#[trigger] r@[i].key@) && self@[r@[i].key@]
                    == r@[i].entry@,
            forall|k: Seq<char>|
                self@.contains_key(k) ==> exists|i: int| 0 <= i < r@.len() && r@[i].key@ == k,
            forall|i: int, j: int| 0 <= i < j < r@.len() ==> r@[i].key@ != r@[j].key@,
    {
        proof {
            use_type_invariant(self);
            self.lemma_domain();
        }
        let mut out: Vec<CacheRecord> = Vec::new();
        let mut i: usize = 0;
        while i < self.records.len()
            invariant
                i <= self.records@.len(),
                out@.len() == i,
                forall|j: int|
                    0 <= j < i ==> out@[j].key@ == self.records@[j].key@ && out@[j].entry@
                        == self.records@[j].entry@,
            decreases self.records@.len() - i,
        {
            let rec = &self.records[i];
            out.push(CacheRecord { key: rec.key.clone(), entry: rec.entry.duplicate() });
            i += 1;
        }
        proof {
            assert forall|i: int| 0 <= i < out@.len() implies self@.contains_key(
                #[trigger] out@[i].key@,
            ) && self@[out@[i].key@] == out@[i].entry@ by {
                let k = out@[i].key@;
                assert(self.is_at(k, i));
                let j = choose|j: int| self.is_at(k, j);
                assert(self.is_at(k, j));
                assert(j == i);
            }
            assert forall|k: Seq<char>| self@.contains_key(k) implies exists|i: int|
                0 <= i < out@.len() && out@[i].key@ == k by {
                let j = choose|j: int| self.is_at(k, j);
                assert(out@[j].key@ == k);
            }
        }
        out
    }

    /// The first half of a lookup: the entry for `key` and the blob file to
    /// read for it. `None` is a miss.
    pub fn check_cache_hit(&self, key: &str) -> (r: Option<(CachedEntry, String)>)
        ensures
            match r {
                Some((entry, file)) => blob_wanted(self@, key@) == Some(file@) && entry@
                    == self@[key@],
                None => blob_wanted(self@, key@) is None,
            },
    {
        match self.get(key) {
            Some(entry) => {
                if check_etag(entry.etag.as_str()) {
                    let file = blob_file_name(entry.etag.as_str());
                    Some((entry, file))
                } else {
                    None
                }
            },
            None => None,
        }
    }
}

/// The second half of a lookup: `blob` is what reading the blob file gave,
/// `None` where it could not be read. A missing blob is a miss.
pub fn lookup(store: &CacheStore, key: &str, blob: Option<Vec<u8>>) -> (r: Option<
    (CachedEntry, Vec<u8>),
>)
    ensures
        match r {
            Some((entry, body)) => blob is Some && blob_wanted(store@, key@) is Some && entry@
                == store@[key@] && body@ == blob->0@,
            None => blob is None || blob_wanted(store@, key@) is None,
        },
{
    match blob {
        Some(body) => match store.check_cache_hit(key) {
            Some((entry, _file)) => Some((entry, body)),
            None => None,
        },
        None => None,
    }
}

/// A blob file's name never leads out of the blob directory: made of a tag
/// that is fit for a file name, it holds no slash, no backslash and no quote.
pub proof fn lemma_blob_name_is_plain(etag: Seq<char>)
    requires
        etag_is_safe(etag),
    ensures
        forall|i: int|
            0 <= i < blob_name(etag).len() ==> (#[trigger] blob_name(etag)[i]) != '/' && blob_name(
                etag,
            )[i] != '\\' && blob_name(etag)[i] != '"',
{
    let keep = |c: char| c != '"';
    assert forall|i: int| 0 <= i < blob_name(etag).len() implies (#[trigger] blob_name(etag)[i])
        != '/' && blob_name(etag)[i] != '\\' && blob_name(etag)[i] != '"' by {
        let c = etag.filter(keep)[i];
        etag.lemma_filter_pred(keep, i);
        assert(etag.filter(keep).contains(c));
        etag.lemma_filter_contains_rev(keep, c);
        let j = choose|j: int| 0 <= j < etag.len() && etag[j] == c;
        assert(!is_unsafe_char(etag[j]));
    }
}

/// Storing a response and looking its key up at once gives back the metadata
/// that was stored and the very bytes of the body: `entries` and `blobs` are
/// the metadata and the blob files before the write, `plan` is what storing the
/// response came to.
pub proof fn lemma_store_then_lookup(
    entries: Map<Seq<char>, CachedEntryView>,
    blobs: Blobs,
    headers: Seq<HeaderView>,
    key: Seq<char>,
    body: Seq<u8>,
)
    requires
        store_outcome(headers, key, body) matches Ok(Some(_)),
    ensures
        ({
            let plan = store_outcome(headers, key, body)->Ok_0->0;
            found(entries.insert(plan.key, plan.entry), blobs.insert(plan.file, plan.body), key)
                == Some((entry_of(headers), body))
        }),
{
}

} // verus!

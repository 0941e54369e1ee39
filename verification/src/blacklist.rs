//! The blacklist filter: banned URL prefixes, matched segment by segment.

use vstd::prelude::*;
use crate::text::{chars_of, has_prefix_at, texts};

verus! {

/// What `serde_json::from_slice` makes of `bytes` when asked for a list of
/// strings: the strings of the JSON array, in order, or `None` where the bytes
/// are no such array.
pub uninterp spec fn json_string_array(bytes: Seq<u8>) -> Option<Seq<Seq<char>>>;

/// The texts of a list of strings that may be missing.
pub open spec fn optional_texts(entries: Option<Vec<String>>) -> Option<Seq<Seq<char>>> {
    match entries {
        Some(list) => Some(texts(list@)),
        None => None,
    }
}

/// Calls `serde_json::from_slice::<Vec<String>>` and drops the error. Trusted:
/// the result is the named function of the bytes; nothing more is claimed.
#[verifier::external_body]
fn parse_string_array(bytes: &[u8]) -> (r: Option<Vec<String>>)
    ensures
        optional_texts(r) == json_string_array(bytes@),
{
    serde_json::from_slice::<Vec<String>>(bytes).ok()
}

/// A position of `url` at which an accumulated prefix ends: just behind a `/`,
/// or at the end of a text that is not empty.
pub open spec fn is_boundary(url: Seq<char>, k: int) -> bool {
    0 < k <= url.len() && (k == url.len() || url[k - 1] == '/')
}

/// Some prefix of `url` that ends at a boundary is one of `banned`.
pub open spec fn blacklisted(banned: Set<Seq<char>>, url: Seq<char>) -> bool {
    exists|k: int| is_boundary(url, k) && banned.contains(#[trigger] url.take(k))
}

/// The banned prefixes that a blacklist file names: those of its JSON array,
/// none where the file is missing or is no array of strings.
pub open spec fn loaded(contents: Option<Seq<u8>>) -> Set<Seq<char>> {
    match contents {
        Some(bytes) => match json_string_array(bytes) {
            Some(list) => list.to_set(),
            None => Set::empty(),
        },
        None => Set::empty(),
    }
}

/// A set of banned URL prefixes. It is made once and never changes.
pub struct Blacklist {
    prefixes: Vec<Vec<char>>,
}

impl Blacklist {
    /// The banned prefixes.
    pub closed spec fn view(&self) -> Set<Seq<char>> {
        Set::new(
            |p: Seq<char>| exists|i: int| 0 <= i < self.prefixes@.len() && self.prefixes@[i]@ == p,
        )
    }

    /// A blacklist that bans nothing.
    pub fn empty() -> (r: Blacklist)
        ensures
            r@ == Set::<Seq<char>>::empty(),
    {
        let r = Blacklist { prefixes: Vec::new() };
        assert(r@ =~= Set::<Seq<char>>::empty());
        r
    }

    /// The blacklist that bans exactly `entries`.
    pub fn from_entries(entries: &Vec<String>) -> (r: Blacklist)
        ensures
            r@ == texts(entries@).to_set(),
    {
        let mut prefixes: Vec<Vec<char>> = Vec::new();
        let mut i: usize = 0;
        while i < entries.len()
            invariant
                i <= entries@.len(),
                prefixes@.len() == i,
                forall|j: int| 0 <= j < i ==> prefixes@[j]@ == entries@[j]@,
            decreases entries@.len() - i,
        {
            prefixes.push(chars_of(entries[i].as_str()));
            i += 1;
        }
        let r = Blacklist { prefixes };
        assert forall|p: Seq<char>| r@.contains(p) == texts(entries@).to_set().contains(p) by {
            if r@.contains(p) {
                let i = choose|i: int| 0 <= i < r.prefixes@.len() && r.prefixes@[i]@ == p;
                assert(texts(entries@)[i] == p);
            }
            if texts(entries@).to_set().contains(p) {
                let i = choose|i: int| 0 <= i < texts(entries@).len() && texts(entries@)[i] == p;
                assert(r.prefixes@[i]@ == p);
            }
        }
        assert(r@ =~= texts(entries@).to_set());
        r
    }

    /// The blacklist that a blacklist file gives: `contents` is what was read
    /// from it, `None` where it could not be read.
    pub fn from_json(contents: Option<&[u8]>) -> (r: Blacklist)
        ensures
            r@ == loaded(
                match contents {
                    Some(bytes) => Some(bytes@),
                    None => None,
                },
            ),
    {
        match contents {
            Some(bytes) => match parse_string_array(bytes) {
                Some(entries) => Blacklist::from_entries(&entries),
                None => Blacklist::empty(),
            },
            None => Blacklist::empty(),
        }
    }

    /// Whether the first `len` characters of `url` are a banned prefix.
    fn bans_prefix(&self, url: &Vec<char>, len: usize) -> (b: bool)
        requires
            len <= url@.len(),
        ensures
            b == self@.contains(url@.take(len as int)),
    {
        let mut i: usize = 0;
        while i < self.prefixes.len()
            invariant
                len <= url@.len(),
                i <= self.prefixes@.len(),
                forall|j: int| 0 <= j < i ==> self.prefixes@[j]@ != url@.take(len as int),
            decreases self.prefixes@.len() - i,
        {
            let entry = &self.prefixes[i];
            if entry.len() == len && has_prefix_at(url, 0, entry) {
                assert(url@.skip(0) =~= url@);
                assert(entry@ =~= url@.take(len as int));
                return true;
            }
            proof {
                if entry@ == url@.take(len as int) {
                    assert(url@.skip(0) =~= url@);
                    assert(entry@ =~= url@.subrange(0, entry@.len() as int));
                }
            }
            i += 1;
        }
        false
    }

    /// Walks `url` from the left, segment by segment, the `/` kept at the end
    /// of each, and says whether the text walked so far ever is a banned
    /// prefix.
    pub fn is_blacklisted(&self, url: &str) -> (b: bool)
        ensures
            b == blacklisted(self@, url@),
    {
        let chars = chars_of(url);
        let n: usize = chars.len();
        let mut k: usize = 0;
        while k < n
            invariant
                n == chars@.len(),
                chars@ == url@,
                k <= n,
                forall|j: int|
                    0 < j <= k && is_boundary(url@, j) ==> !self@.contains(#[trigger] url@.take(j)),
            decreases n - k,
        {
            k += 1;
            if (k == n || chars[k - 1] == '/') && self.bans_prefix(&chars, k) {
                assert(is_boundary(url@, k as int));
                return true;
            }
        }
        false
    }
}

/// One entry that ends in a slash bans the whole tree below it: every URL
/// that begins with the entry is blacklisted.
pub proof fn lemma_entry_bans_its_tree(banned: Set<Seq<char>>, entry: Seq<char>, url: Seq<char>)
    requires
        banned.contains(entry),
        entry.len() > 0,
        entry.last() == '/',
        entry.is_prefix_of(url),
    ensures
        blacklisted(banned, url),
{
    let k = entry.len() as int;
    assert(url.take(k) =~= entry);
    assert(is_boundary(url, k));
}

/// An entry bans the URL that is equal to it, unless it is empty.
pub proof fn lemma_entry_bans_itself(banned: Set<Seq<char>>, entry: Seq<char>)
    requires
        banned.contains(entry),
        entry.len() > 0,
    ensures
        blacklisted(banned, entry),
{
    let k = entry.len() as int;
    assert(entry.take(k) =~= entry);
    assert(is_boundary(entry, k));
}

} // verus!

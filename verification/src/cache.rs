//! The parse cache: per-file facts keyed by path, valid while the file's
//! content hash is unchanged. Reading and writing it is left to the caller.

use vstd::prelude::*;
use crate::facts::FileFacts;
use crate::text::str_is;

verus! {

/// A content-hash-keyed store of per-file facts.
#[derive(Debug)]
pub struct Cache {
    /// Path, content hash, and the facts extracted from that content.
    pub entries: Vec<(String, u64, FileFacts)>,
    /// Whether a usable cache was loaded (drives the "warm cache" label).
    pub loaded: bool,
}

/// Index of the entry for `path` (the last one given), or -1.
pub open spec fn entry_slot(e: Seq<(String, u64, FileFacts)>, path: Seq<char>, n: int) -> int
    decreases n,
{
    if n <= 0 {
        -1
    } else if e[n - 1].0@ == path {
        n - 1
    } else {
        entry_slot(e, path, n - 1)
    }
}

/// What the cache records of one file: its path, its content hash, its facts.
pub open spec fn saved_entry(f: FileFacts) -> (String, u64, FileFacts) {
    (f.path, f.content_hash, f)
}

/// What the cache records of a scan's facts, file by file in order.
pub open spec fn saved_entries(facts: Seq<FileFacts>) -> Seq<(String, u64, FileFacts)> {
    facts.map_values(|f: FileFacts| saved_entry(f))
}

/// A file written to the cache is read back as it was written while its
/// content hash is unchanged, and not at all once the hash differs (the file
/// is then extracted anew). Where two files share a path the later one counts.
pub proof fn law_saved_facts_read_back(facts: Seq<FileFacts>, i: int)
    requires
        0 <= i < facts.len(),
        forall|j: int| i < j < facts.len() ==> (#[trigger] facts[j]).path@ != facts[i].path@,
    ensures
        ({
            let e = saved_entries(facts);
            let k = entry_slot(e, facts[i].path@, e.len() as int);
            &&& k == i
            &&& e[k].1 == facts[i].content_hash
            &&& e[k].2 == facts[i]
        }),
{
    let e = saved_entries(facts);
    assert forall|j: int| i < j < e.len() implies (#[trigger] e[j]).0@ != facts[i].path@ by {
        assert(e[j] == saved_entry(facts[j]));
    }
    lemma_last_slot(e, facts[i].path@, e.len() as int, i);
}

/// The slot found below `n` is `i` when `i` holds the path and nothing after it below `n` does.
proof fn lemma_last_slot(e: Seq<(String, u64, FileFacts)>, path: Seq<char>, n: int, i: int)
    requires
        0 <= i < n <= e.len(),
        e[i].0@ == path,
        forall|j: int| i < j < e.len() ==> (#[trigger] e[j]).0@ != path,
    ensures
        entry_slot(e, path, n) == i,
    decreases n,
{
    if n - 1 > i {
        assert(e[n - 1].0@ != path);
        lemma_last_slot(e, path, n - 1, i);
    }
}

/// What `get` answers for `path` and `hash` over the entries `e`.
pub open spec fn lookup(e: Seq<(String, u64, FileFacts)>, path: Seq<char>, hash: u64) -> Option<FileFacts> {
    let k = entry_slot(e, path, e.len() as int);
    if k >= 0 && e[k].1 == hash { Some(e[k].2) } else { None }
}

/// No slot is found for a path that no entry below `n` holds.
proof fn lemma_no_slot(e: Seq<(String, u64, FileFacts)>, path: Seq<char>, n: int)
    requires
        0 <= n <= e.len(),
        forall|j: int| 0 <= j < n ==> (#[trigger] e[j]).0@ != path,
    ensures
        entry_slot(e, path, n) == -1,
    decreases n,
{
    if n > 0 {
        lemma_no_slot(e, path, n - 1);
    }
}

/// Saving a scan's facts (no two with the same path) and loading them again
/// gives a cache that answers each file's path and current hash with its
/// facts, any other hash of that path with nothing, any path it was not given
/// with nothing, and that counts as loaded exactly when there were facts.
pub proof fn law_cache_round_trip(facts: Seq<FileFacts>, path: Seq<char>, hash: u64)
    requires
        forall|i: int, j: int| 0 <= i < j < facts.len() ==> (#[trigger] facts[i]).path@ != (#[trigger] facts[j]).path@,
    ensures
        forall|i: int| 0 <= i < facts.len() ==> lookup(saved_entries(facts), (#[trigger] facts[i]).path@, hash)
            == (if hash == facts[i].content_hash { Some(facts[i]) } else { None }),
        (forall|i: int| 0 <= i < facts.len() ==> (#[trigger] facts[i]).path@ != path)
            ==> lookup(saved_entries(facts), path, hash) is None,
        saved_entries(facts).len() > 0 <==> facts.len() > 0,
{
    let e = saved_entries(facts);
    assert forall|i: int| 0 <= i < facts.len() implies lookup(e, (#[trigger] facts[i]).path@, hash)
        == (if hash == facts[i].content_hash { Some(facts[i]) } else { None }) by {
        assert forall|j: int| i < j < facts.len() implies (#[trigger] facts[j]).path@ != facts[i].path@ by {
            assert(facts[i].path@ != facts[j].path@);
        }
        law_saved_facts_read_back(facts, i);
    }
    if forall|i: int| 0 <= i < facts.len() ==> (#[trigger] facts[i]).path@ != path {
        assert forall|j: int| 0 <= j < e.len() implies (#[trigger] e[j]).0@ != path by {
            assert(e[j] == saved_entry(facts[j]));
        }
        lemma_no_slot(e, path, e.len() as int);
    }
}

impl Cache {
    /// The entries to persist after a scan: one per file, keyed by its path
    /// and content hash, in the order given.
    pub fn entries_to_save(facts: Vec<FileFacts>) -> (r: Vec<(String, u64, FileFacts)>)
        ensures
            r@ == saved_entries(facts@),
    {
        let ghost all = facts@;
        let mut rest = facts;
        let mut rev: Vec<(String, u64, FileFacts)> = Vec::new();
        while rest.len() > 0
            invariant
                rest@ == all.subrange(0, rest@.len() as int),
                rest@.len() <= all.len(),
                rev@.len() + rest@.len() == all.len(),
                forall|j: int| 0 <= j < rev@.len() ==> #[trigger] rev@[j] == saved_entry(all[all.len() - 1 - j]),
            decreases rest@.len(),
        {
            let f = rest.pop().unwrap();
            let path = f.path.clone();
            let hash = f.content_hash;
            rev.push((path, hash, f));
        }
        let mut out: Vec<(String, u64, FileFacts)> = Vec::new();
        while rev.len() > 0
            invariant
                rev@.len() + out@.len() == all.len(),
                forall|j: int| 0 <= j < rev@.len() ==> #[trigger] rev@[j] == saved_entry(all[all.len() - 1 - j]),
                forall|j: int| 0 <= j < out@.len() ==> #[trigger] out@[j] == saved_entry(all[j]),
            decreases rev@.len(),
        {
            let x = rev.pop().unwrap();
            out.push(x);
        }
        assert(out@ == saved_entries(all));
        out
    }

    /// An empty cache, as when none could be read.
    pub fn empty() -> (r: Cache)
        ensures
            r.entries@.len() == 0,
            !r.loaded,
    {
        Cache { entries: Vec::new(), loaded: false }
    }

    /// The cache read back from disk; it counts as loaded when it holds anything.
    pub fn from_entries(entries: Vec<(String, u64, FileFacts)>) -> (r: Cache)
        ensures
            r.entries@ == entries@,
            r.loaded == (entries@.len() > 0),
    {
        let loaded = entries.len() > 0;
        Cache { entries, loaded }
    }

    pub fn was_loaded(&self) -> (r: bool)
        ensures
            r == self.loaded,
    {
        self.loaded
    }

    /// The cached facts of `path`, if its recorded content hash is `hash`.
    pub fn get(&self, path: &str, hash: u64) -> (r: Option<&FileFacts>)
        ensures
            match lookup(self.entries@, path@, hash) {
                Some(f) => r matches Some(g) && *g == f,
                None => r is None,
            },
    {
        let mut n = self.entries.len();
        while n > 0
            invariant
                n <= self.entries@.len(),
                entry_slot(self.entries@, path@, self.entries@.len() as int) == entry_slot(self.entries@, path@, n as int),
            decreases n,
        {
            if str_is(self.entries[n - 1].0.as_str(), path) {
                if self.entries[n - 1].1 == hash {
                    return Some(&self.entries[n - 1].2);
                }
                return None;
            }
            n -= 1;
        }
        None
    }
}

} // verus!

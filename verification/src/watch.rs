//! Watch mode's decisions: which file-system events call for a re-scan, and
//! the debounce that turns a burst of saves into a single scan. Waiting for
//! events and the clock are the caller's.

use vstd::prelude::*;
use vstd::string::*;
use crate::path::{extension, extension_of, file_name, file_name_of};
use crate::scan::{find_from, find_sub};
use crate::text::{chars_of, str_is};

verus! {

/// How long a change must stay quiet before the re-scan runs, in milliseconds.
pub const DEBOUNCE_MS: u64 = 300;

/// The extensions of the files a scan reads.
pub open spec fn watched_extension(e: Seq<char>) -> bool {
    e == "ts"@ || e == "tsx"@ || e == "js"@ || e == "jsx"@ || e == "mjs"@ || e == "cjs"@ || e == "py"@
        || e == "css"@ || e == "json"@ || e == "toml"@
}

/// `pat` occurs somewhere in `s`.
pub open spec fn mentions(s: Seq<char>, pat: Seq<char>) -> bool {
    find_from(s, pat, 0) >= 0
}

/// The path lies in a dependency, VCS, build or cache directory.
pub open spec fn in_skipped_dir(p: Seq<char>) -> bool {
    mentions(p, "/node_modules/"@) || mentions(p, "/.git/"@) || mentions(p, "/target/"@)
        || mentions(p, "/.noslopcode/"@)
}

/// A changed path worth a re-scan: a source, manifest or config file (by the
/// extension of its last component) outside the skipped directories.
pub open spec fn relevant_path(p: Seq<char>) -> bool {
    &&& match extension(file_name(p)) {
        Some(e) => watched_extension(e),
        None => false,
    }
    &&& !in_skipped_dir(p)
}

fn has_watched_extension(name: &str) -> (r: bool)
    ensures
        r == match extension(name@) {
            Some(e) => watched_extension(e),
            None => false,
        },
{
    match extension_of(name) {
        None => false,
        Some(e) => {
            let e = e.as_str();
            str_is(e, "ts") || str_is(e, "tsx") || str_is(e, "js") || str_is(e, "jsx") || str_is(e, "mjs")
                || str_is(e, "cjs") || str_is(e, "py") || str_is(e, "css") || str_is(e, "json") || str_is(e, "toml")
        },
    }
}

fn path_mentions(v: &Vec<char>, pat: &str) -> (r: bool)
    ensures
        r == mentions(v@, pat@),
{
    let p = chars_of(pat);
    find_sub(v, &p, 0).is_some()
}

/// Whether an event calls for a re-scan: it is a modification, creation or
/// removal (`is_change`) and one of its paths is relevant.
pub fn should_rescan(is_change: bool, paths: &Vec<String>) -> (r: bool)
    ensures
        r == (is_change && exists|i: int| 0 <= i < paths@.len() && relevant_path(#[trigger] paths@[i]@)),
{
    if !is_change {
        return false;
    }
    let mut i: usize = 0;
    while i < paths.len()
        invariant
            is_change,
            i <= paths@.len(),
            forall|j: int| 0 <= j < i ==> !relevant_path(#[trigger] paths@[j]@),
        decreases paths@.len() - i,
    {
        let p = paths[i].as_str();
        let v = chars_of(p);
        let name = file_name_of(p);
        assert(p@ == paths@[i as int]@);
        if has_watched_extension(name.as_str()) && !path_mentions(&v, "/node_modules/") && !path_mentions(&v, "/.git/")
            && !path_mentions(&v, "/target/") && !path_mentions(&v, "/.noslopcode/") {
            assert(relevant_path(paths@[i as int]@));
            return true;
        }
        i += 1;
    }
    false
}

/// The debounce between polls of the watcher: whether a re-scan is due, and
/// the time of the last relevant change (milliseconds on the caller's clock).
#[derive(Debug, Clone, Copy)]
pub struct Debounce {
    pub pending: bool,
    pub last_change_ms: u64,
}

/// Milliseconds from `from` to `to`, zero when the clock reads earlier.
pub open spec fn elapsed(from: u64, to: u64) -> int {
    if to >= from { to - from } else { 0 }
}

/// One poll of the watcher at `now`: a relevant change makes a re-scan due
/// and restarts the quiet period; a due re-scan runs (the flag) once the
/// quiet period has lasted `DEBOUNCE_MS`, and is then no longer pending.
pub open spec fn debounced(d: Debounce, relevant: bool, now: u64) -> (Debounce, bool) {
    let last = if relevant { now } else { d.last_change_ms };
    let due = relevant || d.pending;
    let run = due && elapsed(last, now) >= DEBOUNCE_MS;
    (Debounce { pending: due && !run, last_change_ms: last }, run)
}

impl Debounce {
    /// Nothing pending at the start.
    pub fn new(now_ms: u64) -> (r: Debounce)
        ensures
            !r.pending,
            r.last_change_ms == now_ms,
    {
        Debounce { pending: false, last_change_ms: now_ms }
    }

    /// One poll of the watcher at `now_ms` (see `debounced`); true when the
    /// re-scan is to run now.
    pub fn step(&mut self, relevant: bool, now_ms: u64) -> (rescan: bool)
        ensures
            (*final(self), rescan) == debounced(*old(self), relevant, now_ms),
    {
        if relevant {
            self.pending = true;
            self.last_change_ms = now_ms;
        }
        let quiet = if now_ms >= self.last_change_ms { now_ms - self.last_change_ms } else { 0 };
        if self.pending && quiet >= DEBOUNCE_MS {
            self.pending = false;
            true
        } else {
            false
        }
    }
}

/// A re-scan runs only for a change seen and never in the poll that saw it:
/// a burst of saves is scanned once it has been quiet for the debounce period,
/// and a run clears what was pending.
pub proof fn law_rescan_follows_a_quiet_change(d: Debounce, relevant: bool, now: u64)
    ensures
        debounced(d, relevant, now).1 ==> d.pending && !relevant,
        debounced(d, relevant, now).1 ==> !debounced(d, relevant, now).0.pending,
        !d.pending && !relevant ==> debounced(d, relevant, now).0 == d,
{
}

} // verus!

//! A parsed configuration or manifest document (TOML or JSON) as plain data:
//! what the readers of `noslop.toml`, `package.json`, `tsconfig.json` and
//! `pyproject.toml` look at. `doc_text` reads it from text and writes it back.

use vstd::prelude::*;
use crate::order::string_views;
use crate::text::{copy_string, str_is};

verus! {

/// A document value. Tables keep their keys in the order the parser gives.
#[derive(Debug)]
pub enum Doc {
    Null,
    Bool(bool),
    Int(i64),
    /// A number other than an `i64` integer (a float, or a JSON integer out
    /// of `i64` range), kept as the text the parser prints for it.
    Float(String),
    /// A TOML date-time, kept as its text.
    Datetime(String),
    Str(String),
    Array(Vec<Doc>),
    Table(Vec<(String, Doc)>),
}

/// Index of the first entry of `t` with key `key`, or -1.
pub open spec fn key_slot(t: Seq<(String, Doc)>, key: Seq<char>, i: int) -> int
    decreases t.len() - i,
{
    if i < 0 || i >= t.len() {
        -1
    } else if t[i].0@ == key {
        i
    } else {
        key_slot(t, key, i + 1)
    }
}

/// The value under `key` of a table (the first such entry); `None` for a
/// missing key or a value that is not a table.
pub open spec fn doc_get(d: Doc, key: Seq<char>) -> Option<Doc> {
    match d {
        Doc::Table(t) => {
            let k = key_slot(t@, key, 0);
            if k < 0 { None } else { Some(t@[k].1) }
        },
        _ => None,
    }
}

/// `doc_get` on an optional value.
pub open spec fn opt_get(d: Option<Doc>, key: Seq<char>) -> Option<Doc> {
    match d {
        Some(x) => doc_get(x, key),
        None => None,
    }
}

/// The text of a string value.
pub open spec fn doc_str(d: Option<Doc>) -> Option<Seq<char>> {
    match d {
        Some(Doc::Str(s)) => Some(s@),
        _ => None,
    }
}

pub open spec fn doc_bool(d: Option<Doc>) -> Option<bool> {
    match d {
        Some(Doc::Bool(b)) => Some(b),
        _ => None,
    }
}

pub open spec fn doc_int(d: Option<Doc>) -> Option<i64> {
    match d {
        Some(Doc::Int(i)) => Some(i),
        _ => None,
    }
}

/// The string elements of an array value, in order (other elements skipped);
/// empty for anything else.
pub open spec fn str_elems(d: Option<Doc>) -> Seq<Seq<char>> {
    match d {
        Some(Doc::Array(a)) => strings_in(a@),
        _ => Seq::empty(),
    }
}

pub open spec fn strings_in(a: Seq<Doc>) -> Seq<Seq<char>>
    decreases a.len(),
{
    if a.len() == 0 {
        Seq::empty()
    } else {
        strings_in(a.drop_last()) + match a.last() {
            Doc::Str(s) => seq![s@],
            _ => Seq::empty(),
        }
    }
}

pub proof fn lemma_key_slot(t: Seq<(String, Doc)>, key: Seq<char>, i: int)
    requires
        0 <= i,
    ensures
        -1 <= key_slot(t, key, i) < t.len(),
    decreases t.len() - i,
{
    if i < t.len() && t[i].0@ != key {
        lemma_key_slot(t, key, i + 1);
    }
}

pub(crate) fn table_slot(t: &Vec<(String, Doc)>, key: &str) -> (r: Option<usize>)
    ensures
        match r {
            Some(i) => key_slot(t@, key@, 0) == i && i < t@.len(),
            None => key_slot(t@, key@, 0) == -1,
        },
{
    let mut i: usize = 0;
    while i < t.len()
        invariant
            i <= t@.len(),
            key_slot(t@, key@, 0) == key_slot(t@, key@, i as int),
        decreases t@.len() - i,
    {
        if str_is(t[i].0.as_str(), key) {
            return Some(i);
        }
        i += 1;
    }
    None
}

impl Doc {
    /// The value under `key` of a table.
    pub fn get(&self, key: &str) -> (r: Option<&Doc>)
        ensures
            match doc_get(*self, key@) {
                Some(v) => r matches Some(x) && *x == v,
                None => r is None,
            },
    {
        match self {
            Doc::Table(t) => {
                proof { lemma_key_slot(t@, key@, 0); }
                match table_slot(t, key) {
                    Some(i) => Some(&t[i].1),
                    None => None,
                }
            },
            _ => None,
        }
    }

    /// The text of a string value.
    pub fn as_str(&self) -> (r: Option<&str>)
        ensures
            match doc_str(Some(*self)) {
                Some(s) => r matches Some(x) && x@ == s,
                None => r is None,
            },
    {
        match self {
            Doc::Str(s) => Some(s.as_str()),
            _ => None,
        }
    }

    pub fn as_bool(&self) -> (r: Option<bool>)
        ensures
            r == doc_bool(Some(*self)),
    {
        match self {
            Doc::Bool(b) => Some(*b),
            _ => None,
        }
    }

    pub fn as_int(&self) -> (r: Option<i64>)
        ensures
            r == doc_int(Some(*self)),
    {
        match self {
            Doc::Int(i) => Some(*i),
            _ => None,
        }
    }
}

/// `get` on an optional value.
pub fn opt_doc_get<'a>(d: Option<&'a Doc>, key: &str) -> (r: Option<&'a Doc>)
    ensures
        match opt_get(match d { Some(x) => Some(*x), None => None }, key@) {
            Some(v) => r matches Some(x) && *x == v,
            None => r is None,
        },
{
    match d {
        Some(x) => x.get(key),
        None => None,
    }
}

/// The string elements of an array value, in order.
pub fn string_elems(d: Option<&Doc>) -> (r: Vec<String>)
    ensures
        string_views(r@) == str_elems(match d { Some(x) => Some(*x), None => None }),
{
    let mut out: Vec<String> = Vec::new();
    match d {
        Some(Doc::Array(a)) => {
            let mut i: usize = 0;
            while i < a.len()
                invariant
                    i <= a@.len(),
                    string_views(out@) == strings_in(a@.take(i as int)),
                decreases a@.len() - i,
            {
                proof { assert(a@.take(i as int + 1).drop_last() =~= a@.take(i as int)); }
                match &a[i] {
                    Doc::Str(s) => {
                        let ghost before = out@;
                        out.push(copy_string(s));
                        assert(string_views(out@) =~= string_views(before).push(s@));
                    },
                    _ => {
                        assert(strings_in(a@.take(i as int)) + Seq::<Seq<char>>::empty() =~= strings_in(a@.take(i as int)));
                    },
                }
                i += 1;
            }
            assert(a@.take(a@.len() as int) =~= a@);
        },
        _ => {
            assert(string_views(out@) =~= Seq::<Seq<char>>::empty());
        },
    }
    out
}

} // verus!

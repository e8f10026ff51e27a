//! Which parameters of a function are `unused-parameter` candidates: only the
//! trailing unused ones (a parameter before a used one cannot be removed, and
//! a destructuring or rest parameter bars those before it), never an
//! `_`-prefixed one, and never a Python `self`/`cls` receiver.

use vstd::prelude::*;
use crate::ids::Span;
use crate::order::{contains_view, string_views};
use crate::text::str_is;

verus! {

/// A parameter keeps those before it: it is a barrier (no plain name) or used.
pub open spec fn keeps(p: (Seq<char>, Span), used: Seq<Seq<char>>) -> bool {
    p.0.len() == 0 || used.contains(p.0)
}

/// Index of the last parameter among the first `n` that keeps those before
/// it, or -1.
pub open spec fn last_kept(ps: Seq<(Seq<char>, Span)>, used: Seq<Seq<char>>, n: int) -> int
    decreases n,
{
    if n <= 0 {
        -1
    } else if keeps(ps[n - 1], used) {
        n - 1
    } else {
        last_kept(ps, used, n - 1)
    }
}

/// The named, not `_`-prefixed parameters of `ps`, in order.
pub open spec fn reportable(ps: Seq<(Seq<char>, Span)>) -> Seq<(Seq<char>, Span)>
    decreases ps.len(),
{
    if ps.len() == 0 {
        Seq::empty()
    } else {
        reportable(ps.drop_last()) + {
            let p = ps.last();
            if p.0.len() == 0 || p.0[0] == '_' { Seq::empty() } else { seq![p] }
        }
    }
}

/// The candidates among the ordered parameters `ps`, given the identifiers
/// `used` in the body.
pub open spec fn unused_trailing(ps: Seq<(Seq<char>, Span)>, used: Seq<Seq<char>>) -> Seq<(Seq<char>, Span)> {
    reportable(ps.skip(last_kept(ps, used, ps.len() as int) + 1))
}

proof fn lemma_last_kept(ps: Seq<(Seq<char>, Span)>, used: Seq<Seq<char>>, n: int)
    requires
        0 <= n <= ps.len(),
    ensures
        -1 <= last_kept(ps, used, n) < n,
    decreases n,
{
    if n > 0 && !keeps(ps[n - 1], used) {
        lemma_last_kept(ps, used, n - 1);
    }
}

pub open spec fn params_view(v: Seq<(String, Span)>) -> Seq<(Seq<char>, Span)> {
    v.map_values(|p: (String, Span)| (p.0@, p.1))
}

fn keeps_at(ordered: &Vec<(String, Span)>, used: &Vec<String>, i: usize) -> (r: bool)
    requires
        i < ordered@.len(),
    ensures
        r == keeps(params_view(ordered@)[i as int], string_views(used@)),
{
    let name = ordered[i].0.as_str();
    name.unicode_len() == 0 || contains_view(used, name)
}

/// The trailing unused parameters that may be reported, in order.
pub fn unused_trailing_params(ordered: &Vec<(String, Span)>, used: &Vec<String>) -> (r: Vec<(String, Span)>)
    ensures
        params_view(r@) == unused_trailing(params_view(ordered@), string_views(used@)),
{
    let ghost uv = string_views(used@);
    let ghost ov = params_view(ordered@);
    let mut n = ordered.len();
    while n > 0 && !keeps_at(ordered, used, n - 1)
        invariant
            n <= ordered@.len(),
            uv == string_views(used@),
            ov == params_view(ordered@),
            last_kept(ov, uv, ov.len() as int) == last_kept(ov, uv, n as int),
        decreases n,
    {
        n -= 1;
    }
    proof { lemma_last_kept(ov, uv, ov.len() as int); }
    assert(last_kept(ov, uv, ov.len() as int) + 1 == n);
    let ghost rest = ov.skip(n as int);
    let mut out: Vec<(String, Span)> = Vec::new();
    let mut k = n;
    while k < ordered.len()
        invariant
            n <= k <= ordered@.len(),
            rest == params_view(ordered@).skip(n as int),
            params_view(out@) == reportable(rest.take(k - n)),
        decreases ordered@.len() - k,
    {
        let (name, span) = (&ordered[k].0, ordered[k].1);
        proof {
            assert(rest.take(k - n + 1).drop_last() =~= rest.take(k - n));
            assert(rest.take(k - n + 1).last() == (ordered@[k as int].0@, ordered@[k as int].1));
        }
        let ghost before = out@;
        let skip = name.unicode_len() == 0 || name.get_char(0) == '_';
        if !skip {
            out.push((crate::text::copy_string(name), span));
            assert(params_view(out@) =~= params_view(before).push((name@, span)));
        }
        k += 1;
    }
    assert(rest.take(ordered@.len() - n) =~= rest);
    out
}

/// The parameters without a leading `self` or `cls` receiver.
pub fn without_receiver(ordered: Vec<(String, Span)>) -> (r: Vec<(String, Span)>)
    ensures
        r@ == if ordered@.len() > 0 && (ordered@[0].0@ == "self"@ || ordered@[0].0@ == "cls"@) {
            ordered@.drop_first()
        } else {
            ordered@
        },
{
    let mut v = ordered;
    if v.len() > 0 && (str_is(v[0].0.as_str(), "self") || str_is(v[0].0.as_str(), "cls")) {
        v.remove(0);
        assert(v@ =~= ordered@.drop_first());
    }
    v
}

} // verus!

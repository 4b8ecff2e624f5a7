//! Dependency expressions such as `VK_KHR_a+VK_KHR_b,VK_VERSION_1_1`: a
//! comma is a logical OR, a plus a logical AND that binds tighter, and each
//! factor names an extension, a version, or a struct member written
//! `Struct::member`. Nothing else (parentheses, negation) is part of the
//! grammar, so a factor that holds anything else does not resolve.

use vstd::prelude::*;
use crate::index::names;
use crate::query::{lookup, position, position_of};
use crate::vulkan_object::{Struct, VulkanObject};

verus! {

/// The two operators of an expression.
pub open spec fn is_separator(c: char) -> bool {
    c == ',' || c == '+'
}

/// The factors of an expression, in order: the text between operators.
/// An expression with `n` operators has `n + 1` factors, some maybe empty.
pub open spec fn split_factors(s: Seq<char>) -> Seq<Seq<char>>
    decreases s.len(),
{
    if s.len() == 0 {
        seq![Seq::empty()]
    } else {
        let r = split_factors(s.drop_last());
        if is_separator(s.last()) {
            r.push(Seq::empty())
        } else {
            r.update(r.len() - 1, r.last().push(s.last()))
        }
    }
}

/// `p` is the position of the first colon of `f`.
pub open spec fn first_colon(f: Seq<char>, p: int) -> bool {
    &&& 0 <= p < f.len()
    &&& f[p] == ':'
    &&& forall|q: int| 0 <= q < p ==> f[q] != ':'
}

/// The first colon of `f` is followed by a second one.
pub open spec fn qualified_at(f: Seq<char>, p: int) -> bool {
    first_colon(f, p) && p + 1 < f.len() && f[p + 1] == ':'
}

/// A factor `Struct::member`, split at its first `::`.
pub open spec fn member_ref(f: Seq<char>) -> Option<(Seq<char>, Seq<char>)> {
    if exists|p: int| qualified_at(f, p) {
        let p = choose|p: int| qualified_at(f, p);
        Some((f.take(p), f.skip(p + 2)))
    } else {
        None
    }
}

/// The struct named `st` exists and has a member named `m`.
pub open spec fn struct_has_member(structs: Seq<Struct>, st: Seq<char>, m: Seq<char>) -> bool {
    match lookup(structs, st) {
        Some(s) => position_of(s.members@, m) >= 0,
        None => false,
    }
}

/// A factor resolves: a struct member that exists, or else the name of an
/// extension or a version of the document.
pub open spec fn factor_resolves(o: VulkanObject, f: Seq<char>) -> bool {
    match member_ref(f) {
        Some((st, m)) => struct_has_member(o.structs@, st, m),
        None => position_of(o.extensions@, f) >= 0 || position_of(o.versions@, f) >= 0,
    }
}

/// Splits an expression into its factors.
pub fn factors(e: &String) -> (r: Vec<String>)
    ensures
        names(r@) == split_factors(e@),
{
    let s = e.as_str();
    let n = s.unicode_len();
    let mut out: Vec<String> = Vec::new();
    let mut start: usize = 0;
    let mut i: usize = 0;
    assert(s@.take(0) =~= Seq::<char>::empty());
    assert(names(out@).push(s@.subrange(0, 0)) =~= seq![Seq::<char>::empty()]);
    while i < n
        invariant
            n == s@.len(),
            s@ == e@,
            start <= i <= n,
            names(out@).push(s@.subrange(start as int, i as int)) == split_factors(s@.take(i as int)),
        decreases n - i,
    {
        let c = s.get_char(i);
        assert(s@.take(i + 1).drop_last() == s@.take(i as int));
        assert(s@.take(i + 1).last() == c);
        if c == ',' || c == '+' {
            let piece = s.substring_char(start, i).to_owned();
            let ghost before = out@;
            out.push(piece);
            assert(names(out@) =~= names(before).push(s@.subrange(start as int, i as int)));
            assert(s@.subrange((i + 1) as int, (i + 1) as int) =~= Seq::<char>::empty());
            start = i + 1;
        } else {
            assert(s@.subrange(start as int, i + 1) =~= s@.subrange(start as int, i as int).push(c));
            assert(names(out@).push(s@.subrange(start as int, i + 1)) =~= names(out@).push(
                s@.subrange(start as int, i as int),
            ).update(names(out@).len() as int, s@.subrange(start as int, i as int).push(c)));
        }
        i = i + 1;
    }
    let piece = s.substring_char(start, n).to_owned();
    let ghost before = out@;
    out.push(piece);
    assert(names(out@) =~= names(before).push(s@.subrange(start as int, n as int)));
    assert(s@.take(n as int) == s@);
    out
}

/// Splits `f` at its first `::`, where its first colon starts one.
fn split_member_ref(f: &String) -> (r: Option<(String, String)>)
    ensures
        match r {
            Some((st, m)) => member_ref(f@) == Some((st@, m@)),
            None => member_ref(f@) is None,
        },
{
    let s = f.as_str();
    let n = s.unicode_len();
    let mut p: usize = 0;
    while p < n && s.get_char(p) != ':'
        invariant
            n == s@.len(),
            s@ == f@,
            p <= n,
            forall|q: int| 0 <= q < p ==> s@[q] != ':',
        decreases n - p,
    {
        p = p + 1;
    }
    if p < n && p + 1 < n && s.get_char(p + 1) == ':' {
        assert(qualified_at(f@, p as int));
        let ghost q = choose|q: int| qualified_at(f@, q);
        assert(q == p) by {
            if q < p {
                assert(f@[q] != ':');
            } else if q > p {
                assert(f@[p as int] != ':');
            }
        }
        let st = s.substring_char(0, p).to_owned();
        let m = s.substring_char(p + 2, n).to_owned();
        assert(st@ =~= f@.take(p as int));
        assert(m@ =~= f@.skip(p + 2));
        Some((st, m))
    } else {
        assert forall|q: int| !qualified_at(f@, q) by {
            if qualified_at(f@, q) {
                if q < p {
                    assert(f@[q] != ':');
                } else if q > p {
                    assert(p < n);
                    assert(f@[p as int] == ':');
                }
            }
        }
        None
    }
}

/// Whether the struct named `st` exists and has a member named `m`.
pub fn has_member(structs: &Vec<Struct>, st: &String, m: &String) -> (r: bool)
    ensures
        r == struct_has_member(structs@, st@, m@),
{
    match position(structs, st) {
        Some(i) => position(&structs[i].members, m).is_some(),
        None => false,
    }
}

/// Whether the factor `f` resolves in `o`.
pub fn resolves_factor(o: &VulkanObject, f: &String) -> (r: bool)
    ensures
        r == factor_resolves(*o, f@),
{
    match split_member_ref(f) {
        Some((st, m)) => has_member(&o.structs, &st, &m),
        None => position(&o.extensions, f).is_some() || position(&o.versions, f).is_some(),
    }
}

} // verus!

//! Acyclicity of the handle parent relation and of the struct `extends`
//! relation. Both are followed by name through their collection, so that two
//! handles that name each other as parent form a cycle even though each
//! document entry is finite.

use vstd::prelude::*;
use crate::loader::LoadError;
use crate::index::{contains_name, names};
use crate::query::{lookup, position, position_of};
use crate::vulkan_object::{Handle, Struct};

verus! {

/// The name of the parent of `h`, if it has one.
pub open spec fn parent_name(h: Handle) -> Option<Seq<char>> {
    match h.parent {
        Some(p) => Some(p.name@),
        None => None,
    }
}

/// One step up from the handle named `x`: the name of its parent, where the
/// collection holds a handle named `x` and that handle has a parent.
pub open spec fn step(hs: Seq<Handle>, x: Seq<char>) -> Option<Seq<char>> {
    let i = position_of(hs, x);
    if i >= 0 {
        parent_name(hs[i])
    } else {
        None
    }
}

/// Where `k` steps up from `x` lead.
pub open spec fn walk(hs: Seq<Handle>, x: Seq<char>, k: nat) -> Option<Seq<char>>
    decreases k,
{
    if k == 0 {
        Some(x)
    } else {
        match walk(hs, x, (k - 1) as nat) {
            Some(y) => step(hs, y),
            None => None,
        }
    }
}

/// No handle comes back to itself by following parents. A cycle has at
/// most as many handles as the collection, so walks of that length suffice.
pub open spec fn handles_acyclic(hs: Seq<Handle>) -> bool {
    forall|i: int, k: nat|
        0 <= i < hs.len() && 1 <= k <= hs.len() ==> #[trigger] walk(hs, hs[i].name@, k) != Some(
            hs[i].name@,
        )
}

pub open spec fn opt_view(x: Option<String>) -> Option<Seq<char>> {
    match x {
        Some(s) => Some(s@),
        None => None,
    }
}

/// One step up from the handle named `x`.
fn parent_of(hs: &Vec<Handle>, x: &String) -> (r: Option<String>)
    ensures
        opt_view(r) == step(hs@, x@),
{
    match position(hs, x) {
        Some(i) => match &hs[i].parent {
            Some(p) => Some(p.name.clone()),
            None => None,
        },
        None => None,
    }
}

/// Whether a walk up from handle `i` comes back to it within as many steps
/// as there are handles.
fn returns_to_itself(hs: &Vec<Handle>, i: usize) -> (r: bool)
    requires
        i < hs@.len(),
    ensures
        r == exists|k: nat| 1 <= k <= hs@.len() && #[trigger] walk(hs@, hs@[i as int].name@, k) == Some(hs@[i as int].name@),
{
    let start = &hs[i].name;
    let ghost x = start@;
    let mut cur: Option<String> = Some(start.clone());
    let mut k: usize = 0;
    while k < hs.len()
        invariant
            k <= hs@.len(),
            x == hs@[i as int].name@,
            start@ == x,
            opt_view(cur) == walk(hs@, x, k as nat),
            forall|m: nat| 1 <= m <= k ==> #[trigger] walk(hs@, x, m) != Some(x),
        decreases hs.len() - k,
    {
        let next = match &cur {
            Some(y) => parent_of(hs, y),
            None => None,
        };
        assert(opt_view(next) == walk(hs@, x, (k + 1) as nat));
        match &next {
            Some(y) => {
                if *y == *start {
                    return true;
                }
            },
            None => {},
        }
        cur = next;
        k = k + 1;
    }
    false
}

/// The first handle from which following parents comes back to it.
pub fn find_cycle(hs: &Vec<Handle>) -> (r: Option<usize>)
    ensures
        r is None <==> handles_acyclic(hs@),
        r matches Some(i) ==> i < hs@.len() && exists|k: nat|
            1 <= k <= hs@.len() && #[trigger] walk(hs@, hs@[i as int].name@, k) == Some(hs@[i as int].name@),
{
    let mut i: usize = 0;
    while i < hs.len()
        invariant
            i <= hs@.len(),
            forall|j: int, k: nat|
                0 <= j < i && 1 <= k <= hs@.len() ==> #[trigger] walk(hs@, hs@[j].name@, k) != Some(
                    hs@[j].name@,
                ),
        decreases hs.len() - i,
    {
        if returns_to_itself(hs, i) {
            return Some(i);
        }
        i = i + 1;
    }
    None
}

/// The names along a handle's own nested parent chain, the handle first.
pub open spec fn chain_names(h: Handle) -> Seq<Seq<char>>
    decreases h,
{
    match h.parent {
        Some(p) => seq![h.name@] + chain_names(*p),
        None => seq![h.name@],
    }
}

/// No name repeats along the nested parent chain of any handle.
pub open spec fn chains_distinct(hs: Seq<Handle>) -> bool {
    forall|i: int| 0 <= i < hs.len() ==> (#[trigger] chain_names(hs[i])).no_duplicates()
}

/// The names along the nested parent chain of `h`.
fn chain_of(h: &Handle) -> (r: Vec<String>)
    ensures
        names(r@) == chain_names(*h),
    decreases h,
{
    let mut r: Vec<String> = Vec::new();
    r.push(h.name.clone());
    match &h.parent {
        Some(p) => {
            let mut rest = chain_of(p);
            let ghost first = r@;
            let ghost tail = rest@;
            r.append(&mut rest);
            assert(names(r@) =~= names(first) + names(tail));
            assert(names(first) =~= seq![h.name@]);
        },
        None => {
            assert(names(r@) =~= seq![h.name@]);
        },
    }
    r
}

/// Whether some name repeats in `v`.
fn has_repeat(v: &Vec<String>) -> (r: bool)
    ensures
        r == !names(v@).no_duplicates(),
{
    let mut j: usize = 0;
    while j < v.len()
        invariant
            j <= v@.len(),
            forall|a: int, b: int| 0 <= a < b < j ==> #[trigger] names(v@)[a] != #[trigger] names(v@)[b],
        decreases v.len() - j,
    {
        let mut i: usize = 0;
        while i < j
            invariant
                i <= j < v@.len(),
                forall|a: int, b: int| 0 <= a < b < j ==> #[trigger] names(v@)[a] != #[trigger] names(v@)[b],
                forall|a: int| 0 <= a < i ==> names(v@)[a] != names(v@)[j as int],
            decreases j - i,
        {
            if v[i] == v[j] {
                assert(names(v@)[i as int] == names(v@)[j as int]);
                return true;
            }
            i = i + 1;
        }
        j = j + 1;
    }
    assert forall|a: int, b: int| 0 <= a < names(v@).len() && 0 <= b < names(v@).len() && a != b
        implies names(v@)[a] != names(v@)[b] by {
        if a > b {
            assert(names(v@)[b] != names(v@)[a]);
        }
    }
    false
}

/// The first handle whose nested parent chain repeats a name.
fn find_repeated_chain(hs: &Vec<Handle>) -> (r: Option<usize>)
    ensures
        r is None <==> chains_distinct(hs@),
        r matches Some(i) ==> i < hs@.len() && !chain_names(hs@[i as int]).no_duplicates(),
{
    let mut i: usize = 0;
    while i < hs.len()
        invariant
            i <= hs@.len(),
            forall|k: int| 0 <= k < i ==> (#[trigger] chain_names(hs@[k])).no_duplicates(),
        decreases hs.len() - i,
    {
        if has_repeat(&chain_of(&hs[i])) {
            return Some(i);
        }
        i = i + 1;
    }
    None
}

/// Handle `i` comes back to itself by following parents by name.
pub open spec fn on_parent_cycle(hs: Seq<Handle>, i: int) -> bool {
    exists|k: nat| 1 <= k <= hs.len() && #[trigger] walk(hs, hs[i].name@, k) == Some(hs[i].name@)
}

/// Fails with the first handle that is its own ancestor.
/// Some handle named `name` repeats a name along its nested parent chain or
/// comes back to itself by following parents by name.
pub open spec fn handle_cycle_at(hs: Seq<Handle>, name: Seq<char>) -> bool {
    exists|i: int|
        #![trigger chain_names(hs[i])]
        #![trigger on_parent_cycle(hs, i)]
        0 <= i < hs.len() && hs[i].name@ == name && (!chain_names(hs[i]).no_duplicates() || on_parent_cycle(hs, i))
}

/// Fails with the first handle that is its own ancestor, along its nested
/// parent chain or by following parents by name through the collection.
pub fn check_handle_parents(hs: &Vec<Handle>) -> (r: Result<(), LoadError>)
    ensures
        r is Ok <==> chains_distinct(hs@) && handles_acyclic(hs@),
        r matches Err(e) ==> e matches LoadError::HandleCycle { handle } && handle_cycle_at(hs@, handle@),
{
    match find_repeated_chain(hs) {
        Some(i) => {
            let handle = hs[i].name.clone();
            assert(hs@[i as int].name@ == handle@ && !chain_names(hs@[i as int]).no_duplicates());
            assert(handle_cycle_at(hs@, handle@));
            return Err(LoadError::HandleCycle { handle });
        },
        None => {},
    }
    match find_cycle(hs) {
        Some(i) => {
            let handle = hs[i].name.clone();
            assert(hs@[i as int].name@ == handle@ && (!chain_names(hs@[i as int]).no_duplicates()
                || on_parent_cycle(hs@, i as int)));
            assert(handle_cycle_at(hs@, handle@));
            Err(LoadError::HandleCycle { handle })
        },
        None => Ok(()),
    }
}

/// Two handles that name each other as parent make the collection cyclic.
pub proof fn lemma_mutual_parents_cycle(hs: Seq<Handle>, a: int, b: int)
    requires
        0 <= a < hs.len(),
        0 <= b < hs.len(),
        position_of(hs, hs[a].name@) == a,
        position_of(hs, hs[b].name@) == b,
        parent_name(hs[a]) == Some(hs[b].name@),
        parent_name(hs[b]) == Some(hs[a].name@),
    ensures
        !handles_acyclic(hs),
{
    reveal_with_fuel(walk, 3);
    let x = hs[a].name@;
    if a == b {
        assert(walk(hs, x, 1) == Some(x));
    } else {
        assert(hs.len() >= 2);
        assert(walk(hs, x, 2) == step(hs, hs[b].name@));
        assert(walk(hs, x, 2) == Some(x));
    }
}

/// Struct `a` exists and lists `b` in `extends`.
pub open spec fn extends_edge(ss: Seq<Struct>, a: Seq<char>, b: Seq<char>) -> bool {
    match lookup(ss, a) {
        Some(s) => names(s.extends@).contains(b),
        None => false,
    }
}

/// The names that some struct named in `from` extends directly.
pub open spec fn successors(ss: Seq<Struct>, from: Set<Seq<char>>) -> Set<Seq<char>> {
    Set::new(|b: Seq<char>| exists|x: Seq<char>| from.contains(x) && extends_edge(ss, x, b))
}

/// The names reachable from `a` through one to `k` `extends` links.
pub open spec fn reach(ss: Seq<Struct>, a: Seq<char>, k: nat) -> Set<Seq<char>>
    decreases k,
{
    if k == 0 {
        Set::empty()
    } else {
        successors(ss, set![a]).union(successors(ss, reach(ss, a, (k - 1) as nat)))
    }
}

/// No struct reaches itself through `extends` links. A cycle has at most as
/// many structs as the collection, so paths of that length suffice.
pub open spec fn extends_acyclic(ss: Seq<Struct>) -> bool {
    forall|i: int| 0 <= i < ss.len() ==> !(#[trigger] reach(ss, ss[i].name@, ss.len() as nat)).contains(ss[i].name@)
}

proof fn lemma_successors_monotone(ss: Seq<Struct>, a: Set<Seq<char>>, b: Set<Seq<char>>)
    requires
        a.subset_of(b),
    ensures
        successors(ss, a).subset_of(successors(ss, b)),
{
    assert forall|y: Seq<char>| successors(ss, a).contains(y) implies successors(ss, b).contains(y) by {
        let x = choose|x: Seq<char>| a.contains(x) && extends_edge(ss, x, y);
        assert(b.contains(x));
    }
}

proof fn lemma_reach_monotone(ss: Seq<Struct>, a: Seq<char>, k: nat)
    ensures
        reach(ss, a, k).subset_of(reach(ss, a, k + 1)),
    decreases k,
{
    if k > 0 {
        lemma_reach_monotone(ss, a, (k - 1) as nat);
        lemma_successors_monotone(ss, reach(ss, a, (k - 1) as nat), reach(ss, a, k));
    }
}

proof fn lemma_reach_fixed(ss: Seq<Struct>, a: Seq<char>, k: nat, m: nat)
    requires
        reach(ss, a, k + 1) == reach(ss, a, k),
        k <= m,
    ensures
        reach(ss, a, m) == reach(ss, a, k),
    decreases m - k,
{
    if m > k {
        lemma_reach_fixed(ss, a, k, (m - 1) as nat);
        assert(reach(ss, a, m) == successors(ss, set![a]).union(successors(ss, reach(ss, a, (m - 1) as nat))));
    }
}

proof fn lemma_names_push(v: Seq<String>, s: String, y: Seq<char>)
    ensures
        names(v.push(s)).contains(y) <==> names(v).contains(y) || y == s@,
{
    assert(names(v.push(s)) =~= names(v).push(s@));
    if names(v).contains(y) {
        let i = choose|i: int| 0 <= i < names(v).len() && names(v)[i] == y;
        assert(names(v.push(s))[i] == y);
    }
    if y == s@ {
        assert(names(v.push(s))[v.len() as int] == y);
    }
    if names(v.push(s)).contains(y) && y != s@ {
        let i = choose|i: int| 0 <= i < names(v.push(s)).len() && names(v.push(s))[i] == y;
        assert(names(v)[i] == y);
    }
}

/// Adds to `out` each name that struct `x` extends and `out` lacks.
fn add_successors(ss: &Vec<Struct>, x: &String, out: &mut Vec<String>)
    ensures
        forall|y: Seq<char>| names(final(out)@).contains(y) <==> names(old(out)@).contains(y) || extends_edge(ss@, x@, y),
{
    match position(ss, x) {
        Some(k) => {
            let ts = &ss[k].extends;
            let mut j: usize = 0;
            while j < ts.len()
                invariant
                    j <= ts.len(),
                    lookup(ss@, x@) == Some(ss@[k as int]),
                    ts@ == ss@[k as int].extends@,
                    forall|y: Seq<char>| names(out@).contains(y) <==> names(old(out)@).contains(y) || names(ts@.take(j as int)).contains(y),
                decreases ts.len() - j,
            {
                assert(ts@.take(j + 1) == ts@.take(j as int).push(ts@[j as int]));
                let ghost before = out@;
                if !contains_name(out, &ts[j]) {
                    out.push(ts[j].clone());
                }
                assert forall|y: Seq<char>| names(out@).contains(y) <==> names(old(out)@).contains(y) || names(ts@.take(j + 1)).contains(y) by {
                    lemma_names_push(ts@.take(j as int), ts@[j as int], y);
                    if out@ != before {
                        lemma_names_push(before, ts@[j as int], y);
                    }
                }
                j = j + 1;
            }
            assert(ts@.take(ts.len() as int) == ts@);
        },
        None => {},
    }
}

/// Whether every name of `a` is among `b`.
fn all_among(a: &Vec<String>, b: &Vec<String>) -> (r: bool)
    ensures
        r == forall|y: Seq<char>| names(a@).contains(y) ==> names(b@).contains(y),
{
    let mut i: usize = 0;
    while i < a.len()
        invariant
            i <= a.len(),
            forall|m: int| 0 <= m < i ==> names(b@).contains(#[trigger] names(a@)[m]),
        decreases a.len() - i,
    {
        if !contains_name(b, &a[i]) {
            assert(names(a@)[i as int] == a@[i as int]@);
            assert(names(a@).contains(a@[i as int]@));
            return false;
        }
        i = i + 1;
    }
    true
}

/// Whether struct `i` reaches itself through `extends` links.
fn extends_itself(ss: &Vec<Struct>, i: usize) -> (r: bool)
    requires
        i < ss@.len(),
    ensures
        r == reach(ss@, ss@[i as int].name@, ss@.len() as nat).contains(ss@[i as int].name@),
{
    let a = &ss[i].name;
    let ghost n = ss@.len() as nat;
    let mut seen: Vec<String> = Vec::new();
    let mut k: usize = 0;
    assert(reach(ss@, a@, 0) =~= Set::<Seq<char>>::empty());
    while k < ss.len()
        invariant
            k <= ss@.len(),
            n == ss@.len(),
            a@ == ss@[i as int].name@,
            forall|y: Seq<char>| names(seen@).contains(y) <==> reach(ss@, a@, k as nat).contains(y),
        decreases ss.len() - k,
    {
        let mut next: Vec<String> = Vec::new();
        add_successors(ss, a, &mut next);
        let mut m: usize = 0;
        while m < seen.len()
            invariant
                m <= seen@.len(),
                forall|y: Seq<char>| names(seen@).contains(y) <==> reach(ss@, a@, k as nat).contains(y),
                forall|y: Seq<char>|
                    names(next@).contains(y) <==> extends_edge(ss@, a@, y) || exists|x: Seq<char>|
                        names(seen@.take(m as int)).contains(x) && extends_edge(ss@, x, y),
            decreases seen.len() - m,
        {
            let ghost before = next@;
            add_successors(ss, &seen[m], &mut next);
            assert(seen@.take(m + 1) == seen@.take(m as int).push(seen@[m as int]));
            assert forall|y: Seq<char>|
                names(next@).contains(y) <==> extends_edge(ss@, a@, y) || exists|x: Seq<char>|
                    names(seen@.take(m + 1)).contains(x) && extends_edge(ss@, x, y) by {
                lemma_names_push(seen@.take(m as int), seen@[m as int], seen@[m as int]@);
                if extends_edge(ss@, seen@[m as int]@, y) {
                    assert(names(seen@.take(m + 1)).contains(seen@[m as int]@));
                }
                if exists|x: Seq<char>| names(seen@.take(m as int)).contains(x) && extends_edge(ss@, x, y) {
                    let x = choose|x: Seq<char>| names(seen@.take(m as int)).contains(x) && extends_edge(ss@, x, y);
                    lemma_names_push(seen@.take(m as int), seen@[m as int], x);
                }
                if exists|x: Seq<char>| names(seen@.take(m + 1)).contains(x) && extends_edge(ss@, x, y) {
                    let x = choose|x: Seq<char>| names(seen@.take(m + 1)).contains(x) && extends_edge(ss@, x, y);
                    lemma_names_push(seen@.take(m as int), seen@[m as int], x);
                }
            }
            m = m + 1;
        }
        assert(seen@.take(seen@.len() as int) == seen@);
        assert forall|y: Seq<char>| names(next@).contains(y) <==> reach(ss@, a@, (k + 1) as nat).contains(y) by {
            assert(successors(ss@, set![a@]).contains(y) <==> extends_edge(ss@, a@, y)) by {
                if extends_edge(ss@, a@, y) {
                    assert(set![a@].contains(a@));
                }
            }
        }
        proof {
            lemma_reach_monotone(ss@, a@, k as nat);
        }
        if all_among(&next, &seen) {
            assert forall|y: Seq<char>| reach(ss@, a@, (k + 1) as nat).contains(y) <==> reach(ss@, a@, k as nat).contains(y) by {
                if reach(ss@, a@, k as nat).contains(y) {
                    assert(reach(ss@, a@, (k + 1) as nat).contains(y));
                }
                if reach(ss@, a@, (k + 1) as nat).contains(y) {
                    assert(names(next@).contains(y));
                    assert(names(seen@).contains(y));
                }
            }
            assert(reach(ss@, a@, (k + 1) as nat) =~= reach(ss@, a@, k as nat));
            proof {
                lemma_reach_fixed(ss@, a@, k as nat, n);
            }
            return contains_name(&seen, a);
        }
        seen = next;
        k = k + 1;
    }
    contains_name(&seen, a)
}

/// The first struct that reaches itself through `extends` links.
pub fn find_extends_cycle(ss: &Vec<Struct>) -> (r: Option<usize>)
    ensures
        r is None <==> extends_acyclic(ss@),
        r matches Some(i) ==> i < ss@.len() && reach(ss@, ss@[i as int].name@, ss@.len() as nat).contains(ss@[i as int].name@),
{
    let mut i: usize = 0;
    while i < ss.len()
        invariant
            i <= ss@.len(),
            forall|j: int| 0 <= j < i ==> !(#[trigger] reach(ss@, ss@[j].name@, ss@.len() as nat)).contains(ss@[j].name@),
        decreases ss.len() - i,
    {
        if extends_itself(ss, i) {
            return Some(i);
        }
        i = i + 1;
    }
    None
}

/// Fails with the first struct that extends itself, directly or through
/// other structs.
pub fn check_struct_extends(ss: &Vec<Struct>) -> (r: Result<(), LoadError>)
    ensures
        r is Ok <==> extends_acyclic(ss@),
        r matches Err(e) ==> e matches LoadError::ExtendsCycle { structure } && exists|i: int|
            0 <= i < ss@.len() && ss@[i].name@ == structure@ && (#[trigger] reach(
                ss@,
                ss@[i].name@,
                ss@.len() as nat,
            )).contains(ss@[i].name@),
{
    match find_extends_cycle(ss) {
        Some(i) => {
            let structure = ss[i].name.clone();
            assert(ss@[i as int].name@ == structure@);
            Err(LoadError::ExtendsCycle { structure })
        },
        None => Ok(()),
    }
}

} // verus!

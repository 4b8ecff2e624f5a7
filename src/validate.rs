//! The invariant validator: collects every violation of the document's
//! invariants, in a fixed order, without stopping at the first.

use vstd::prelude::*;
use crate::depends::{factor_resolves, factors, has_member, resolves_factor, split_factors, struct_has_member};
use crate::index::{contains_name, find_dangling, names, resolves, Entity, Named};
use crate::query::{lemma_position_bounds, lookup, position, position_of};
use crate::vulkan_object::{
    Bitmask, Command, Enum, Extension, FeatureRequirement, Handle, Struct, Version, VulkanObject,
};

verus! {

/// The kinds of entity that carry the instance and device flags.
#[derive(Clone, Copy, Debug, PartialEq, Eq, Structural)]
pub enum ScopedKind {
    Extension,
    Handle,
    Command,
}

/// One broken invariant.
#[derive(Clone, Debug)]
pub enum Violation {
    /// A factor of a dependency expression of extension or version `owner`
    /// names no extension, version or struct member of the document.
    UnresolvedFactor { owner: String, factor: String },
    /// A feature requirement of `owner` names a struct member that does not
    /// exist.
    UnknownFeature { owner: String, structure: String, field: String },
    /// The `fieldExtensions` of enum `name` (with `bitmask`, the
    /// `flagExtensions` of bitmask `name`) differ from the extensions that its
    /// fields list, taken together.
    FieldExtensionsMismatch { bitmask: bool, name: String },
    /// The entity is not exactly one of instance and device level.
    NotExclusive { kind: ScopedKind, name: String },
    /// Struct `name` lists `target` in `extends`, but no struct `target`
    /// exists or it does not list `name` in `extendedBy`.
    ExtendsUnmatched { name: String, target: String },
    /// Struct `name` lists `source` in `extendedBy`, but no struct `source`
    /// exists or it does not list `name` in `extends`.
    ExtendedByUnmatched { name: String, source: String },
}

/// A violation as the names it holds.
pub enum ViolationView {
    UnresolvedFactor { owner: Seq<char>, factor: Seq<char> },
    UnknownFeature { owner: Seq<char>, structure: Seq<char>, field: Seq<char> },
    FieldExtensionsMismatch { bitmask: bool, name: Seq<char> },
    NotExclusive { kind: ScopedKind, name: Seq<char> },
    ExtendsUnmatched { name: Seq<char>, target: Seq<char> },
    ExtendedByUnmatched { name: Seq<char>, source: Seq<char> },
}

impl View for Violation {
    type V = ViolationView;

    open spec fn view(&self) -> ViolationView {
        match self {
            Violation::UnresolvedFactor { owner, factor } => ViolationView::UnresolvedFactor {
                owner: owner@,
                factor: factor@,
            },
            Violation::UnknownFeature { owner, structure, field } => ViolationView::UnknownFeature {
                owner: owner@,
                structure: structure@,
                field: field@,
            },
            Violation::FieldExtensionsMismatch { bitmask, name } => ViolationView::FieldExtensionsMismatch {
                bitmask: *bitmask,
                name: name@,
            },
            Violation::NotExclusive { kind, name } => ViolationView::NotExclusive {
                kind: *kind,
                name: name@,
            },
            Violation::ExtendsUnmatched { name, target } => ViolationView::ExtendsUnmatched {
                name: name@,
                target: target@,
            },
            Violation::ExtendedByUnmatched { name, source } => ViolationView::ExtendedByUnmatched {
                name: name@,
                source: source@,
            },
        }
    }
}

/// The views of a list of violations.
pub open spec fn views(v: Seq<Violation>) -> Seq<ViolationView> {
    v.map_values(|x: Violation| x@)
}

/// An entity with the two complementary instance and device flags.
pub trait Scoped: Named {
    spec fn scope(&self) -> (bool, bool);

    fn scope_flags(&self) -> (r: (bool, bool))
        ensures
            r == self.scope(),
    ;
}

impl Scoped for Extension {
    open spec fn scope(&self) -> (bool, bool) {
        (self.instance, self.device)
    }

    fn scope_flags(&self) -> (r: (bool, bool)) {
        (self.instance, self.device)
    }
}

impl Scoped for Handle {
    open spec fn scope(&self) -> (bool, bool) {
        (self.instance, self.device)
    }

    fn scope_flags(&self) -> (r: (bool, bool)) {
        (self.instance, self.device)
    }
}

impl Scoped for Command {
    open spec fn scope(&self) -> (bool, bool) {
        (self.instance, self.device)
    }

    fn scope_flags(&self) -> (r: (bool, bool)) {
        (self.instance, self.device)
    }
}

/// Exactly one of the instance and device flags is set.
pub open spec fn exclusive<T: Scoped>(x: T) -> bool {
    x.scope().0 != x.scope().1
}

/// A violation for each entity of `s` that is not exclusive, in order.
pub open spec fn exclusivity_violations<T: Scoped>(s: Seq<T>, kind: ScopedKind) -> Seq<ViolationView>
    decreases s.len(),
{
    if s.len() == 0 {
        Seq::empty()
    } else {
        let rest = exclusivity_violations(s.drop_last(), kind);
        if exclusive(s.last()) {
            rest
        } else {
            rest.push(ViolationView::NotExclusive { kind, name: s.last().key() })
        }
    }
}

/// Struct `t` exists and lists `s` in `extendedBy`.
pub open spec fn extends_matched(all: Seq<Struct>, s: Struct, t: Seq<char>) -> bool {
    match lookup(all, t) {
        Some(u) => names(u.extended_by@).contains(s.name@),
        None => false,
    }
}

/// Struct `t` exists and lists `s` in `extends`.
pub open spec fn extended_by_matched(all: Seq<Struct>, s: Struct, t: Seq<char>) -> bool {
    match lookup(all, t) {
        Some(u) => names(u.extends@).contains(s.name@),
        None => false,
    }
}

/// A violation for each of the names `ts` in the `extends` of `s` that is
/// not matched.
pub open spec fn extends_violations(all: Seq<Struct>, s: Struct, ts: Seq<String>) -> Seq<ViolationView>
    decreases ts.len(),
{
    if ts.len() == 0 {
        Seq::empty()
    } else {
        let rest = extends_violations(all, s, ts.drop_last());
        if extends_matched(all, s, ts.last()@) {
            rest
        } else {
            rest.push(ViolationView::ExtendsUnmatched { name: s.name@, target: ts.last()@ })
        }
    }
}

/// A violation for each of the names `ts` in the `extendedBy` of `s` that
/// is not matched.
pub open spec fn extended_by_violations(all: Seq<Struct>, s: Struct, ts: Seq<String>) -> Seq<ViolationView>
    decreases ts.len(),
{
    if ts.len() == 0 {
        Seq::empty()
    } else {
        let rest = extended_by_violations(all, s, ts.drop_last());
        if extended_by_matched(all, s, ts.last()@) {
            rest
        } else {
            rest.push(ViolationView::ExtendedByUnmatched { name: s.name@, source: ts.last()@ })
        }
    }
}

/// The symmetry violations of the structs `prefix`, looked up in `all`.
pub open spec fn symmetry_violations(all: Seq<Struct>, prefix: Seq<Struct>) -> Seq<ViolationView>
    decreases prefix.len(),
{
    if prefix.len() == 0 {
        Seq::empty()
    } else {
        let s = prefix.last();
        symmetry_violations(all, prefix.drop_last()) + extends_violations(all, s, s.extends@)
            + extended_by_violations(all, s, s.extended_by@)
    }
}

/// Every violation of a document, in the order in which they are checked.
pub open spec fn violations(o: VulkanObject) -> Seq<ViolationView> {
    exclusivity_violations(o.extensions@, ScopedKind::Extension) + exclusivity_violations(
        o.handles@,
        ScopedKind::Handle,
    ) + exclusivity_violations(o.commands@, ScopedKind::Command) + symmetry_violations(
        o.structs@,
        o.structs@,
    ) + extension_dependency_violations(o, o.extensions@) + version_dependency_violations(
        o,
        o.versions@,
    ) + enum_union_violations(o.enums@) + bitmask_union_violations(o.bitmasks@)
}

/// A violation for each factor of `fs` that does not resolve, in order.
pub open spec fn factor_violations(o: VulkanObject, owner: Seq<char>, fs: Seq<Seq<char>>) -> Seq<ViolationView>
    decreases fs.len(),
{
    if fs.len() == 0 {
        Seq::empty()
    } else {
        let rest = factor_violations(o, owner, fs.drop_last());
        if factor_resolves(o, fs.last()) {
            rest
        } else {
            rest.push(ViolationView::UnresolvedFactor { owner, factor: fs.last() })
        }
    }
}

/// A violation for each of the fields `fs` that struct `st` lacks, in order.
pub open spec fn field_violations(o: VulkanObject, owner: Seq<char>, st: Seq<char>, fs: Seq<Seq<char>>) -> Seq<ViolationView>
    decreases fs.len(),
{
    if fs.len() == 0 {
        Seq::empty()
    } else {
        let rest = field_violations(o, owner, st, fs.drop_last());
        if struct_has_member(o.structs@, st, fs.last()) {
            rest
        } else {
            rest.push(ViolationView::UnknownFeature { owner, structure: st, field: fs.last() })
        }
    }
}

/// The violations of a dependency expression, if there is one.
pub open spec fn depends_violations(o: VulkanObject, owner: Seq<char>, d: Option<String>) -> Seq<ViolationView> {
    match d {
        Some(e) => factor_violations(o, owner, split_factors(e@)),
        None => Seq::empty(),
    }
}

/// The violations of feature requirements `rs` of `owner`: each field (a
/// comma separated list) must be a member of the struct, and each
/// dependency expression must resolve.
pub open spec fn requirement_violations(o: VulkanObject, owner: Seq<char>, rs: Seq<FeatureRequirement>) -> Seq<ViolationView>
    decreases rs.len(),
{
    if rs.len() == 0 {
        Seq::empty()
    } else {
        let r = rs.last();
        requirement_violations(o, owner, rs.drop_last()) + field_violations(
            o,
            owner,
            r.struct_@,
            split_factors(r.field@),
        ) + depends_violations(o, owner, r.depends)
    }
}

/// The dependency violations of extensions `es`: each one's own
/// expression, then its feature requirements.
pub open spec fn extension_dependency_violations(o: VulkanObject, es: Seq<Extension>) -> Seq<ViolationView>
    decreases es.len(),
{
    if es.len() == 0 {
        Seq::empty()
    } else {
        let e = es.last();
        extension_dependency_violations(o, es.drop_last()) + depends_violations(o, e.name@, e.depends)
            + requirement_violations(o, e.name@, e.feature_requirement@)
    }
}

/// The dependency violations of versions `vs`: their feature requirements.
pub open spec fn version_dependency_violations(o: VulkanObject, vs: Seq<Version>) -> Seq<ViolationView>
    decreases vs.len(),
{
    if vs.len() == 0 {
        Seq::empty()
    } else {
        let v = vs.last();
        version_dependency_violations(o, vs.drop_last()) + requirement_violations(
            o,
            v.name@,
            v.feature_requirement@,
        )
    }
}

fn check_factors(o: &VulkanObject, owner: &String, e: &String, out: &mut Vec<Violation>)
    ensures
        views(final(out)@) == views(old(out)@) + factor_violations(*o, owner@, split_factors(e@)),
{
    let fs = factors(e);
    let mut i: usize = 0;
    while i < fs.len()
        invariant
            i <= fs.len(),
            names(fs@) == split_factors(e@),
            views(out@) == views(old(out)@) + factor_violations(*o, owner@, names(fs@).take(i as int)),
        decreases fs.len() - i,
    {
        assert(names(fs@).take(i + 1).drop_last() == names(fs@).take(i as int));
        assert(names(fs@).take(i + 1).last() == fs@[i as int]@);
        if !resolves_factor(o, &fs[i]) {
            let ghost before = out@;
            out.push(Violation::UnresolvedFactor { owner: owner.clone(), factor: fs[i].clone() });
            assert(views(out@) =~= views(before).push(out@.last()@));
            assert(views(out@) =~= views(old(out)@) + factor_violations(*o, owner@, names(fs@).take(i + 1)));
        }
        i = i + 1;
    }
    assert(names(fs@).take(fs.len() as int) == names(fs@));
}

fn check_fields(o: &VulkanObject, owner: &String, st: &String, field: &String, out: &mut Vec<Violation>)
    ensures
        views(final(out)@) == views(old(out)@) + field_violations(*o, owner@, st@, split_factors(field@)),
{
    let fs = factors(field);
    let mut i: usize = 0;
    while i < fs.len()
        invariant
            i <= fs.len(),
            names(fs@) == split_factors(field@),
            views(out@) == views(old(out)@) + field_violations(*o, owner@, st@, names(fs@).take(i as int)),
        decreases fs.len() - i,
    {
        assert(names(fs@).take(i + 1).drop_last() == names(fs@).take(i as int));
        assert(names(fs@).take(i + 1).last() == fs@[i as int]@);
        if !has_member(&o.structs, st, &fs[i]) {
            let ghost before = out@;
            out.push(Violation::UnknownFeature { owner: owner.clone(), structure: st.clone(), field: fs[i].clone() });
            assert(views(out@) =~= views(before).push(out@.last()@));
            assert(views(out@) =~= views(old(out)@) + field_violations(*o, owner@, st@, names(fs@).take(i + 1)));
        }
        i = i + 1;
    }
    assert(names(fs@).take(fs.len() as int) == names(fs@));
}

fn check_depends(o: &VulkanObject, owner: &String, d: &Option<String>, out: &mut Vec<Violation>)
    ensures
        views(final(out)@) == views(old(out)@) + depends_violations(*o, owner@, *d),
{
    match d {
        Some(e) => check_factors(o, owner, e, out),
        None => {
            assert(views(out@) =~= views(old(out)@) + depends_violations(*o, owner@, *d));
        },
    }
}

fn check_requirements(o: &VulkanObject, owner: &String, rs: &Vec<FeatureRequirement>, out: &mut Vec<Violation>)
    ensures
        views(final(out)@) == views(old(out)@) + requirement_violations(*o, owner@, rs@),
{
    let mut i: usize = 0;
    while i < rs.len()
        invariant
            i <= rs.len(),
            views(out@) == views(old(out)@) + requirement_violations(*o, owner@, rs@.take(i as int)),
        decreases rs.len() - i,
    {
        assert(rs@.take(i + 1).drop_last() == rs@.take(i as int));
        assert(rs@.take(i + 1).last() == rs@[i as int]);
        let ghost before = out@;
        check_fields(o, owner, &rs[i].struct_, &rs[i].field, out);
        check_depends(o, owner, &rs[i].depends, out);
        assert(views(out@) =~= views(old(out)@) + requirement_violations(*o, owner@, rs@.take(i + 1)));
        i = i + 1;
    }
    assert(rs@.take(rs.len() as int) == rs@);
}

fn check_dependencies(o: &VulkanObject, out: &mut Vec<Violation>)
    ensures
        views(final(out)@) == views(old(out)@) + extension_dependency_violations(*o, o.extensions@)
            + version_dependency_violations(*o, o.versions@),
{
    let es = &o.extensions;
    let mut i: usize = 0;
    while i < es.len()
        invariant
            i <= es.len(),
            views(out@) == views(old(out)@) + extension_dependency_violations(*o, es@.take(i as int)),
        decreases es.len() - i,
    {
        assert(es@.take(i + 1).drop_last() == es@.take(i as int));
        assert(es@.take(i + 1).last() == es@[i as int]);
        check_depends(o, &es[i].name, &es[i].depends, out);
        check_requirements(o, &es[i].name, &es[i].feature_requirement, out);
        assert(views(out@) =~= views(old(out)@) + extension_dependency_violations(*o, es@.take(i + 1)));
        i = i + 1;
    }
    assert(es@.take(es.len() as int) == es@);
    let ghost mid = out@;
    let vs = &o.versions;
    let mut j: usize = 0;
    while j < vs.len()
        invariant
            j <= vs.len(),
            views(out@) == views(mid) + version_dependency_violations(*o, vs@.take(j as int)),
        decreases vs.len() - j,
    {
        assert(vs@.take(j + 1).drop_last() == vs@.take(j as int));
        assert(vs@.take(j + 1).last() == vs@[j as int]);
        check_requirements(o, &vs[j].name, &vs[j].feature_requirement, out);
        assert(views(out@) =~= views(mid) + version_dependency_violations(*o, vs@.take(j + 1)));
        j = j + 1;
    }
    assert(vs@.take(vs.len() as int) == vs@);
    assert(views(out@) =~= views(old(out)@) + extension_dependency_violations(*o, o.extensions@)
        + version_dependency_violations(*o, o.versions@));
}

/// Some entity of `s` lists `x`.
pub open spec fn listed_by_some<T: Entity>(s: Seq<T>, x: Seq<char>) -> bool {
    exists|i: int| 0 <= i < s.len() && #[trigger] s[i].enablers().contains(x)
}

/// `list` holds exactly the extensions that the entities of `s` list,
/// taken together (as sets: order and repetition aside).
pub open spec fn union_matches<T: Entity>(list: Seq<Seq<char>>, s: Seq<T>) -> bool {
    &&& forall|k: int| 0 <= k < list.len() ==> listed_by_some(s, #[trigger] list[k])
    &&& resolves(s, list)
}

/// A violation for each enum of `es` whose `fieldExtensions` do not match
/// its fields.
pub open spec fn enum_union_violations(es: Seq<Enum>) -> Seq<ViolationView>
    decreases es.len(),
{
    if es.len() == 0 {
        Seq::empty()
    } else {
        let rest = enum_union_violations(es.drop_last());
        if union_matches(names(es.last().field_extensions@), es.last().fields@) {
            rest
        } else {
            rest.push(ViolationView::FieldExtensionsMismatch { bitmask: false, name: es.last().name@ })
        }
    }
}

/// A violation for each bitmask of `bs` whose `flagExtensions` do not match
/// its flags.
pub open spec fn bitmask_union_violations(bs: Seq<Bitmask>) -> Seq<ViolationView>
    decreases bs.len(),
{
    if bs.len() == 0 {
        Seq::empty()
    } else {
        let rest = bitmask_union_violations(bs.drop_last());
        if union_matches(names(bs.last().flag_extensions@), bs.last().flags@) {
            rest
        } else {
            rest.push(ViolationView::FieldExtensionsMismatch { bitmask: true, name: bs.last().name@ })
        }
    }
}

/// Whether some entity of `items` lists `x`.
fn is_listed<T: Entity>(items: &Vec<T>, x: &String) -> (r: bool)
    ensures
        r == listed_by_some(items@, x@),
{
    let mut i: usize = 0;
    while i < items.len()
        invariant
            i <= items.len(),
            forall|k: int| 0 <= k < i ==> !(#[trigger] items@[k].enablers().contains(x@)),
        decreases items.len() - i,
    {
        if contains_name(items[i].enablers_ref(), x) {
            return true;
        }
        i = i + 1;
    }
    false
}

/// Whether `list` holds exactly the extensions that `items` list.
pub fn matches_union<T: Entity>(list: &Vec<String>, items: &Vec<T>) -> (r: bool)
    ensures
        r == union_matches(names(list@), items@),
{
    let mut k: usize = 0;
    while k < list.len()
        invariant
            k <= list.len(),
            forall|m: int| 0 <= m < k ==> listed_by_some(items@, #[trigger] names(list@)[m]),
        decreases list.len() - k,
    {
        if !is_listed(items, &list[k]) {
            assert(!listed_by_some(items@, names(list@)[k as int]));
            return false;
        }
        k = k + 1;
    }
    find_dangling(items, list).is_none()
}

fn check_enum_unions(es: &Vec<Enum>, out: &mut Vec<Violation>)
    ensures
        views(final(out)@) == views(old(out)@) + enum_union_violations(es@),
{
    let mut i: usize = 0;
    while i < es.len()
        invariant
            i <= es.len(),
            views(out@) == views(old(out)@) + enum_union_violations(es@.take(i as int)),
        decreases es.len() - i,
    {
        assert(es@.take(i + 1).drop_last() == es@.take(i as int));
        assert(es@.take(i + 1).last() == es@[i as int]);
        if !matches_union(&es[i].field_extensions, &es[i].fields) {
            let ghost before = out@;
            out.push(Violation::FieldExtensionsMismatch { bitmask: false, name: es[i].name.clone() });
            assert(views(out@) =~= views(before).push(out@.last()@));
            assert(views(out@) =~= views(old(out)@) + enum_union_violations(es@.take(i + 1)));
        }
        i = i + 1;
    }
    assert(es@.take(es.len() as int) == es@);
}

fn check_bitmask_unions(bs: &Vec<Bitmask>, out: &mut Vec<Violation>)
    ensures
        views(final(out)@) == views(old(out)@) + bitmask_union_violations(bs@),
{
    let mut i: usize = 0;
    while i < bs.len()
        invariant
            i <= bs.len(),
            views(out@) == views(old(out)@) + bitmask_union_violations(bs@.take(i as int)),
        decreases bs.len() - i,
    {
        assert(bs@.take(i + 1).drop_last() == bs@.take(i as int));
        assert(bs@.take(i + 1).last() == bs@[i as int]);
        if !matches_union(&bs[i].flag_extensions, &bs[i].flags) {
            let ghost before = out@;
            out.push(Violation::FieldExtensionsMismatch { bitmask: true, name: bs[i].name.clone() });
            assert(views(out@) =~= views(before).push(out@.last()@));
            assert(views(out@) =~= views(old(out)@) + bitmask_union_violations(bs@.take(i + 1)));
        }
        i = i + 1;
    }
    assert(bs@.take(bs.len() as int) == bs@);
}

fn check_exclusive<T: Scoped>(items: &Vec<T>, kind: ScopedKind, out: &mut Vec<Violation>)
    ensures
        views(final(out)@) == views(old(out)@) + exclusivity_violations(items@, kind),
{
    let mut i: usize = 0;
    while i < items.len()
        invariant
            i <= items.len(),
            views(out@) == views(old(out)@) + exclusivity_violations(items@.take(i as int), kind),
        decreases items.len() - i,
    {
        assert(items@.take(i + 1).drop_last() == items@.take(i as int));
        assert(items@.take(i + 1).last() == items@[i as int]);
        let (instance, device) = items[i].scope_flags();
        if instance == device {
            let ghost before = out@;
            out.push(Violation::NotExclusive { kind, name: items[i].name_ref().clone() });
            assert(views(out@) =~= views(before).push(out@.last()@));
            assert(views(out@) =~= views(old(out)@) + exclusivity_violations(items@.take(i + 1), kind));
        }
        i = i + 1;
    }
    assert(items@.take(items.len() as int) == items@);
}

/// Whether struct `t` exists and lists `s` in `extendedBy` (or, with
/// `backward`, in `extends`).
fn matched(all: &Vec<Struct>, s: &Struct, t: &String, backward: bool) -> (r: bool)
    ensures
        !backward ==> r == extends_matched(all@, *s, t@),
        backward ==> r == extended_by_matched(all@, *s, t@),
{
    match position(all, t) {
        Some(k) => {
            if backward {
                contains_name(&all[k].extends, &s.name)
            } else {
                contains_name(&all[k].extended_by, &s.name)
            }
        },
        None => false,
    }
}

fn check_extends(all: &Vec<Struct>, s: &Struct, out: &mut Vec<Violation>)
    ensures
        views(final(out)@) == views(old(out)@) + extends_violations(all@, *s, s.extends@),
{
    let ts = &s.extends;
    let mut i: usize = 0;
    while i < ts.len()
        invariant
            i <= ts.len(),
            views(out@) == views(old(out)@) + extends_violations(all@, *s, ts@.take(i as int)),
        decreases ts.len() - i,
    {
        assert(ts@.take(i + 1).drop_last() == ts@.take(i as int));
        assert(ts@.take(i + 1).last() == ts@[i as int]);
        if !matched(all, s, &ts[i], false) {
            let ghost before = out@;
            out.push(Violation::ExtendsUnmatched { name: s.name.clone(), target: ts[i].clone() });
            assert(views(out@) =~= views(before).push(out@.last()@));
            assert(views(out@) =~= views(old(out)@) + extends_violations(all@, *s, ts@.take(i + 1)));
        }
        i = i + 1;
    }
    assert(ts@.take(ts.len() as int) == ts@);
}

fn check_extended_by(all: &Vec<Struct>, s: &Struct, out: &mut Vec<Violation>)
    ensures
        views(final(out)@) == views(old(out)@) + extended_by_violations(all@, *s, s.extended_by@),
{
    let ts = &s.extended_by;
    let mut i: usize = 0;
    while i < ts.len()
        invariant
            i <= ts.len(),
            views(out@) == views(old(out)@) + extended_by_violations(all@, *s, ts@.take(i as int)),
        decreases ts.len() - i,
    {
        assert(ts@.take(i + 1).drop_last() == ts@.take(i as int));
        assert(ts@.take(i + 1).last() == ts@[i as int]);
        if !matched(all, s, &ts[i], true) {
            let ghost before = out@;
            out.push(Violation::ExtendedByUnmatched { name: s.name.clone(), source: ts[i].clone() });
            assert(views(out@) =~= views(before).push(out@.last()@));
            assert(views(out@) =~= views(old(out)@) + extended_by_violations(all@, *s, ts@.take(i + 1)));
        }
        i = i + 1;
    }
    assert(ts@.take(ts.len() as int) == ts@);
}

fn check_symmetry(all: &Vec<Struct>, out: &mut Vec<Violation>)
    ensures
        views(final(out)@) == views(old(out)@) + symmetry_violations(all@, all@),
{
    let mut i: usize = 0;
    while i < all.len()
        invariant
            i <= all.len(),
            views(out@) == views(old(out)@) + symmetry_violations(all@, all@.take(i as int)),
        decreases all.len() - i,
    {
        assert(all@.take(i + 1).drop_last() == all@.take(i as int));
        assert(all@.take(i + 1).last() == all@[i as int]);
        let ghost before = out@;
        check_extends(all, &all[i], out);
        check_extended_by(all, &all[i], out);
        assert(views(out@) =~= views(old(out)@) + symmetry_violations(all@, all@.take(i + 1)));
        i = i + 1;
    }
    assert(all@.take(all.len() as int) == all@);
}

/// Every violation of the document's invariants, all of them, in a fixed
/// order: extensions, handles and commands that are not exactly one of
/// instance and device level, then structs whose `extends` and
/// `extendedBy` do not mirror each other, then dependency expressions and
/// feature requirements that name what the document does not define, then
/// enums and bitmasks whose summary extension lists do not match their fields.
pub fn validate(o: &VulkanObject) -> (r: Vec<Violation>)
    ensures
        views(r@) == violations(*o),
{
    let mut out: Vec<Violation> = Vec::new();
    check_exclusive(&o.extensions, ScopedKind::Extension, &mut out);
    check_exclusive(&o.handles, ScopedKind::Handle, &mut out);
    check_exclusive(&o.commands, ScopedKind::Command, &mut out);
    check_symmetry(&o.structs, &mut out);
    check_dependencies(o, &mut out);
    check_enum_unions(&o.enums, &mut out);
    check_bitmask_unions(&o.bitmasks, &mut out);
    assert(views(out@) =~= violations(*o));
    out
}

/// An entity list has no exclusivity violation exactly when every entity is
/// either instance or device level, and not both.
pub proof fn lemma_exclusivity<T: Scoped>(s: Seq<T>, kind: ScopedKind)
    ensures
        exclusivity_violations(s, kind).len() == 0 <==> forall|i: int|
            0 <= i < s.len() ==> #[trigger] s[i].scope().0 != s[i].scope().1,
    decreases s.len(),
{
    if s.len() > 0 {
        lemma_exclusivity(s.drop_last(), kind);
        if exclusivity_violations(s.drop_last(), kind).len() != 0 {
            let w = choose|i: int| 0 <= i < s.len() - 1 && !(#[trigger] s.drop_last()[i].scope().0 != s.drop_last()[i].scope().1);
            assert(s.drop_last()[w] == s[w]);
            assert(s[w].scope().0 == s[w].scope().1);
        } else if exclusive(s.last()) {
            assert forall|i: int| 0 <= i < s.len() implies #[trigger] s[i].scope().0 != s[i].scope().1 by {
                if i < s.len() - 1 {
                    assert(s.drop_last()[i] == s[i]);
                }
            }
        } else {
            assert(s[s.len() - 1] == s.last());
        }
    }
}

proof fn lemma_extends_violations(all: Seq<Struct>, s: Struct, ts: Seq<String>)
    ensures
        extends_violations(all, s, ts).len() == 0 <==> forall|j: int|
            0 <= j < ts.len() ==> extends_matched(all, s, #[trigger] ts[j]@),
    decreases ts.len(),
{
    if ts.len() > 0 {
        lemma_extends_violations(all, s, ts.drop_last());
        if extends_violations(all, s, ts.drop_last()).len() != 0 {
            let w = choose|j: int| 0 <= j < ts.len() - 1 && !extends_matched(all, s, #[trigger] ts.drop_last()[j]@);
            assert(ts.drop_last()[w] == ts[w]);
            assert(!extends_matched(all, s, ts[w]@));
        } else if extends_matched(all, s, ts.last()@) {
            assert forall|j: int| 0 <= j < ts.len() implies extends_matched(all, s, #[trigger] ts[j]@) by {
                if j < ts.len() - 1 {
                    assert(ts.drop_last()[j] == ts[j]);
                }
            }
        } else {
            assert(ts[ts.len() - 1] == ts.last());
        }
    }
}

proof fn lemma_extended_by_violations(all: Seq<Struct>, s: Struct, ts: Seq<String>)
    ensures
        extended_by_violations(all, s, ts).len() == 0 <==> forall|j: int|
            0 <= j < ts.len() ==> extended_by_matched(all, s, #[trigger] ts[j]@),
    decreases ts.len(),
{
    if ts.len() > 0 {
        lemma_extended_by_violations(all, s, ts.drop_last());
        if extended_by_violations(all, s, ts.drop_last()).len() != 0 {
            let w = choose|j: int| 0 <= j < ts.len() - 1 && !extended_by_matched(all, s, #[trigger] ts.drop_last()[j]@);
            assert(ts.drop_last()[w] == ts[w]);
            assert(!extended_by_matched(all, s, ts[w]@));
        } else if extended_by_matched(all, s, ts.last()@) {
            assert forall|j: int| 0 <= j < ts.len() implies extended_by_matched(all, s, #[trigger] ts[j]@) by {
                if j < ts.len() - 1 {
                    assert(ts.drop_last()[j] == ts[j]);
                }
            }
        } else {
            assert(ts[ts.len() - 1] == ts.last());
        }
    }
}

/// Every struct's `extends` and `extendedBy` are mirrored.
pub open spec fn structs_symmetric(all: Seq<Struct>, prefix: Seq<Struct>) -> bool {
    &&& forall|i: int, j: int|
        0 <= i < prefix.len() && 0 <= j < prefix[i].extends@.len() ==> extends_matched(
            all,
            prefix[i],
            #[trigger] prefix[i].extends@[j]@,
        )
    &&& forall|i: int, j: int|
        0 <= i < prefix.len() && 0 <= j < prefix[i].extended_by@.len() ==> extended_by_matched(
            all,
            prefix[i],
            #[trigger] prefix[i].extended_by@[j]@,
        )
}

proof fn lemma_symmetry_violations(all: Seq<Struct>, prefix: Seq<Struct>)
    ensures
        symmetry_violations(all, prefix).len() == 0 <==> structs_symmetric(all, prefix),
    decreases prefix.len(),
{
    if prefix.len() > 0 {
        let s = prefix.last();
        let p = prefix.drop_last();
        lemma_symmetry_violations(all, p);
        lemma_extends_violations(all, s, s.extends@);
        lemma_extended_by_violations(all, s, s.extended_by@);
        assert forall|i: int| 0 <= i < prefix.len() - 1 implies #[trigger] p[i] == prefix[i] by {}
        if symmetry_violations(all, prefix).len() == 0 {
            assert forall|i: int, j: int|
                0 <= i < prefix.len() && 0 <= j < prefix[i].extends@.len() implies extends_matched(
                all,
                prefix[i],
                #[trigger] prefix[i].extends@[j]@,
            ) by {
                if i < prefix.len() - 1 {
                    assert(p[i].extends@[j] == prefix[i].extends@[j]);
                }
            }
            assert forall|i: int, j: int|
                0 <= i < prefix.len() && 0 <= j < prefix[i].extended_by@.len() implies extended_by_matched(
                all,
                prefix[i],
                #[trigger] prefix[i].extended_by@[j]@,
            ) by {
                if i < prefix.len() - 1 {
                    assert(p[i].extended_by@[j] == prefix[i].extended_by@[j]);
                }
            }
        }
        if structs_symmetric(all, prefix) {
            assert forall|i: int, j: int|
                0 <= i < p.len() && 0 <= j < p[i].extends@.len() implies extends_matched(
                all,
                p[i],
                #[trigger] p[i].extends@[j]@,
            ) by {
                assert(prefix[i].extends@[j] == p[i].extends@[j]);
            }
            assert forall|i: int, j: int|
                0 <= i < p.len() && 0 <= j < p[i].extended_by@.len() implies extended_by_matched(
                all,
                p[i],
                #[trigger] p[i].extended_by@[j]@,
            ) by {
                assert(prefix[i].extended_by@[j] == p[i].extended_by@[j]);
            }
            assert(forall|j: int| 0 <= j < s.extends@.len() ==> extends_matched(all, s, #[trigger] s.extends@[j]@)
                ) by {
                assert forall|j: int| 0 <= j < s.extends@.len() implies extends_matched(all, s, #[trigger] s.extends@[j]@) by {
                    assert(prefix[prefix.len() - 1].extends@[j] == s.extends@[j]);
                }
            }
            assert(forall|j: int| 0 <= j < s.extended_by@.len() ==> extended_by_matched(all, s, #[trigger] s.extended_by@[j]@)
                ) by {
                assert forall|j: int| 0 <= j < s.extended_by@.len() implies extended_by_matched(all, s, #[trigger] s.extended_by@[j]@) by {
                    assert(prefix[prefix.len() - 1].extended_by@[j] == s.extended_by@[j]);
                }
            }
        }
    }
}

/// A document that validates without violations has every handle, command
/// and extension at exactly one of instance and device level; and such a
/// document validates without exclusivity violations.
pub proof fn lemma_valid_document_is_exclusive(o: VulkanObject)
    ensures
        violations(o).len() == 0 ==> {
            &&& forall|i: int| 0 <= i < o.extensions@.len() ==> #[trigger] o.extensions@[i].instance != o.extensions@[i].device
            &&& forall|i: int| 0 <= i < o.handles@.len() ==> #[trigger] o.handles@[i].instance != o.handles@[i].device
            &&& forall|i: int| 0 <= i < o.commands@.len() ==> #[trigger] o.commands@[i].instance != o.commands@[i].device
        },
        violations(o).len() == 0 <==> {
            &&& exclusivity_violations(o.extensions@, ScopedKind::Extension).len() == 0
            &&& exclusivity_violations(o.handles@, ScopedKind::Handle).len() == 0
            &&& exclusivity_violations(o.commands@, ScopedKind::Command).len() == 0
            &&& symmetry_violations(o.structs@, o.structs@).len() == 0
            &&& extension_dependency_violations(o, o.extensions@).len() == 0
            &&& version_dependency_violations(o, o.versions@).len() == 0
            &&& enum_union_violations(o.enums@).len() == 0
            &&& bitmask_union_violations(o.bitmasks@).len() == 0
        },
{
    lemma_exclusivity(o.extensions@, ScopedKind::Extension);
    lemma_exclusivity(o.handles@, ScopedKind::Handle);
    lemma_exclusivity(o.commands@, ScopedKind::Command);
    if violations(o).len() == 0 {
        assert forall|i: int| 0 <= i < o.extensions@.len() implies #[trigger] o.extensions@[i].instance != o.extensions@[i].device by {
            assert(o.extensions@[i].scope().0 != o.extensions@[i].scope().1);
        }
        assert forall|i: int| 0 <= i < o.handles@.len() implies #[trigger] o.handles@[i].instance != o.handles@[i].device by {
            assert(o.handles@[i].scope().0 != o.handles@[i].scope().1);
        }
        assert forall|i: int| 0 <= i < o.commands@.len() implies #[trigger] o.commands@[i].instance != o.commands@[i].device by {
            assert(o.commands@[i].scope().0 != o.commands@[i].scope().1);
        }
    }
}

/// Some struct of `all` is named `t` and lists `s` in `extendedBy`.
pub open spec fn extended_by_lists(all: Seq<Struct>, t: Seq<char>, s: Seq<char>) -> bool {
    exists|k: int| 0 <= k < all.len() && all[k].name@ == t && names(all[k].extended_by@).contains(s)
}

/// A document validates without symmetry violations exactly when, for every
/// struct `S` and every `T` in `S.extends`, a struct `T` exists and lists
/// `S` in `extendedBy`, and the same holds the other way round.
pub proof fn lemma_symmetry(o: VulkanObject)
    ensures
        symmetry_violations(o.structs@, o.structs@).len() == 0 <==> structs_symmetric(o.structs@, o.structs@),
        structs_symmetric(o.structs@, o.structs@) ==> forall|i: int, j: int|
            0 <= i < o.structs@.len() && 0 <= j < o.structs@[i].extends@.len() ==> extended_by_lists(
                o.structs@,
                #[trigger] o.structs@[i].extends@[j]@,
                o.structs@[i].name@,
            ),
{
    lemma_symmetry_violations(o.structs@, o.structs@);
    lemma_position_bounds(o.structs@, Seq::<char>::empty());
    if structs_symmetric(o.structs@, o.structs@) {
        assert forall|i: int, j: int|
            0 <= i < o.structs@.len() && 0 <= j < o.structs@[i].extends@.len() implies extended_by_lists(
                o.structs@,
                #[trigger] o.structs@[i].extends@[j]@,
                o.structs@[i].name@,
            ) by {
            let t = o.structs@[i].extends@[j]@;
            assert(extends_matched(o.structs@, o.structs@[i], t));
            lemma_position_bounds(o.structs@, t);
            let k = position_of(o.structs@, t);
            assert(o.structs@[k].name@ == t);
        }
    }
}

} // verus!

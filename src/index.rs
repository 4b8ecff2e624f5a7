//! The cross-reference index builder: fills each extension's reverse lookup
//! fields from the entities that name it, after making sure that every
//! extension an entity names exists.

use vstd::prelude::*;
use crate::loader::LoadError;
use crate::query::{lemma_position_bounds, lemma_position_unique, lookup};
use crate::vulkan_object::{
    Bitmask, Command, Constant, Enum, EnumField, Extension, FieldAddition, Flag, Flags, Format,
    Handle, Member, Struct, Version, VulkanObject,
};

verus! {

/// The views of a list of names.
pub open spec fn names(v: Seq<String>) -> Seq<Seq<char>> {
    v.map_values(|s: String| s@)
}

/// An item of a collection keyed by name.
pub trait Named {
    spec fn key(&self) -> Seq<char>;

    spec fn name_of(&self) -> String;

    fn name_ref(&self) -> (r: &String)
        ensures
            r@ == self.key(),
            *r == self.name_of(),
    ;
}

/// An entity with a name and the list of extensions that enable it.
pub trait Entity: Named {
    spec fn enablers(&self) -> Seq<Seq<char>>;

    fn enablers_ref(&self) -> (r: &Vec<String>)
        ensures
            names(r@) == self.enablers(),
    ;
}

impl Named for Handle {
    open spec fn key(&self) -> Seq<char> {
        self.name@
    }

    open spec fn name_of(&self) -> String {
        self.name
    }

    fn name_ref(&self) -> (r: &String) {
        &self.name
    }
}

impl Entity for Handle {
    open spec fn enablers(&self) -> Seq<Seq<char>> {
        names(self.extensions@)
    }

    fn enablers_ref(&self) -> (r: &Vec<String>) {
        &self.extensions
    }
}

impl Named for Command {
    open spec fn key(&self) -> Seq<char> {
        self.name@
    }

    open spec fn name_of(&self) -> String {
        self.name
    }

    fn name_ref(&self) -> (r: &String) {
        &self.name
    }
}

impl Entity for Command {
    open spec fn enablers(&self) -> Seq<Seq<char>> {
        names(self.extensions@)
    }

    fn enablers_ref(&self) -> (r: &Vec<String>) {
        &self.extensions
    }
}

impl Named for Struct {
    open spec fn key(&self) -> Seq<char> {
        self.name@
    }

    open spec fn name_of(&self) -> String {
        self.name
    }

    fn name_ref(&self) -> (r: &String) {
        &self.name
    }
}

impl Entity for Struct {
    open spec fn enablers(&self) -> Seq<Seq<char>> {
        names(self.extensions@)
    }

    fn enablers_ref(&self) -> (r: &Vec<String>) {
        &self.extensions
    }
}

impl Named for Enum {
    open spec fn key(&self) -> Seq<char> {
        self.name@
    }

    open spec fn name_of(&self) -> String {
        self.name
    }

    fn name_ref(&self) -> (r: &String) {
        &self.name
    }
}

impl Entity for Enum {
    open spec fn enablers(&self) -> Seq<Seq<char>> {
        names(self.extensions@)
    }

    fn enablers_ref(&self) -> (r: &Vec<String>) {
        &self.extensions
    }
}

impl Named for Bitmask {
    open spec fn key(&self) -> Seq<char> {
        self.name@
    }

    open spec fn name_of(&self) -> String {
        self.name
    }

    fn name_ref(&self) -> (r: &String) {
        &self.name
    }
}

impl Entity for Bitmask {
    open spec fn enablers(&self) -> Seq<Seq<char>> {
        names(self.extensions@)
    }

    fn enablers_ref(&self) -> (r: &Vec<String>) {
        &self.extensions
    }
}

impl Named for Flags {
    open spec fn key(&self) -> Seq<char> {
        self.name@
    }

    open spec fn name_of(&self) -> String {
        self.name
    }

    fn name_ref(&self) -> (r: &String) {
        &self.name
    }
}

impl Entity for Flags {
    open spec fn enablers(&self) -> Seq<Seq<char>> {
        names(self.extensions@)
    }

    fn enablers_ref(&self) -> (r: &Vec<String>) {
        &self.extensions
    }
}

impl Named for EnumField {
    open spec fn key(&self) -> Seq<char> {
        self.name@
    }

    open spec fn name_of(&self) -> String {
        self.name
    }

    fn name_ref(&self) -> (r: &String) {
        &self.name
    }
}

impl Entity for EnumField {
    open spec fn enablers(&self) -> Seq<Seq<char>> {
        names(self.extensions@)
    }

    fn enablers_ref(&self) -> (r: &Vec<String>) {
        &self.extensions
    }
}

impl Named for Flag {
    open spec fn key(&self) -> Seq<char> {
        self.name@
    }

    open spec fn name_of(&self) -> String {
        self.name
    }

    fn name_ref(&self) -> (r: &String) {
        &self.name
    }
}

impl Entity for Flag {
    open spec fn enablers(&self) -> Seq<Seq<char>> {
        names(self.extensions@)
    }

    fn enablers_ref(&self) -> (r: &Vec<String>) {
        &self.extensions
    }
}

impl Named for Member {
    open spec fn key(&self) -> Seq<char> {
        self.name@
    }

    open spec fn name_of(&self) -> String {
        self.name
    }

    fn name_ref(&self) -> (r: &String) {
        &self.name
    }
}

impl Named for Extension {
    open spec fn key(&self) -> Seq<char> {
        self.name@
    }

    open spec fn name_of(&self) -> String {
        self.name
    }

    fn name_ref(&self) -> (r: &String) {
        &self.name
    }
}

impl Named for Version {
    open spec fn key(&self) -> Seq<char> {
        self.name@
    }

    open spec fn name_of(&self) -> String {
        self.name
    }

    fn name_ref(&self) -> (r: &String) {
        &self.name
    }
}

impl Named for Constant {
    open spec fn key(&self) -> Seq<char> {
        self.name@
    }

    open spec fn name_of(&self) -> String {
        self.name
    }

    fn name_ref(&self) -> (r: &String) {
        &self.name
    }
}

impl Named for Format {
    open spec fn key(&self) -> Seq<char> {
        self.name@
    }

    open spec fn name_of(&self) -> String {
        self.name
    }

    fn name_ref(&self) -> (r: &String) {
        &self.name
    }
}

/// The names of the entities of `s` that `ext` enables, in the order of `s`.
pub open spec fn enabled_names<T: Entity>(s: Seq<T>, ext: Seq<char>) -> Seq<Seq<char>>
    decreases s.len(),
{
    if s.len() == 0 {
        Seq::empty()
    } else {
        let rest = enabled_names(s.drop_last(), ext);
        if s.last().enablers().contains(ext) {
            rest.push(s.last().key())
        } else {
            rest
        }
    }
}

/// A field addition as a pair of names: the owner and the field.
pub open spec fn addition_views(v: Seq<FieldAddition>) -> Seq<(Seq<char>, Seq<char>)> {
    v.map_values(|a: FieldAddition| (a.owner@, a.name@))
}

/// Each name of `ns`, paired with `owner`.
pub open spec fn owned(owner: Seq<char>, ns: Seq<Seq<char>>) -> Seq<(Seq<char>, Seq<char>)> {
    ns.map_values(|n: Seq<char>| (owner, n))
}

/// The enum fields that `ext` enables, enum by enum, each in field order.
pub open spec fn enum_field_additions(es: Seq<Enum>, ext: Seq<char>) -> Seq<(Seq<char>, Seq<char>)>
    decreases es.len(),
{
    if es.len() == 0 {
        Seq::empty()
    } else {
        enum_field_additions(es.drop_last(), ext) + owned(
            es.last().name@,
            enabled_names(es.last().fields@, ext),
        )
    }
}

/// The flag bits that `ext` enables, bitmask by bitmask, each in flag order.
pub open spec fn flag_bit_additions(bs: Seq<Bitmask>, ext: Seq<char>) -> Seq<(Seq<char>, Seq<char>)>
    decreases bs.len(),
{
    if bs.len() == 0 {
        Seq::empty()
    } else {
        flag_bit_additions(bs.drop_last(), ext) + owned(
            bs.last().name@,
            enabled_names(bs.last().flags@, ext),
        )
    }
}

/// Every extension that an entity of `s` names is among `known`.
pub open spec fn resolves<T: Entity>(s: Seq<T>, known: Seq<Seq<char>>) -> bool {
    forall|i: int, j: int|
        0 <= i < s.len() && 0 <= j < s[i].enablers().len() ==> known.contains(
            #[trigger] s[i].enablers()[j],
        )
}

/// The names of the extensions that a document defines.
pub open spec fn extension_names(o: VulkanObject) -> Seq<Seq<char>> {
    o.extensions@.map_values(|e: Extension| e.name@)
}

/// Every extension named by a handle, command, struct, enum, bitmask, flags
/// type, enum field or flag bit is defined in the document.
pub open spec fn all_resolve(o: VulkanObject) -> bool {
    let known = extension_names(o);
    &&& resolves(o.handles@, known)
    &&& resolves(o.commands@, known)
    &&& resolves(o.structs@, known)
    &&& resolves(o.enums@, known)
    &&& resolves(o.bitmasks@, known)
    &&& resolves(o.flags@, known)
    &&& forall|i: int| 0 <= i < o.enums@.len() ==> resolves(#[trigger] o.enums@[i].fields@, known)
    &&& forall|i: int|
        0 <= i < o.bitmasks@.len() ==> resolves(#[trigger] o.bitmasks@[i].flags@, known)
}

/// The reverse lookup fields of `e` list exactly what names `e` in `o`.
pub open spec fn extension_indexed(e: Extension, o: VulkanObject) -> bool {
    &&& names(e.handles@) == enabled_names(o.handles@, e.name@)
    &&& names(e.commands@) == enabled_names(o.commands@, e.name@)
    &&& names(e.structs@) == enabled_names(o.structs@, e.name@)
    &&& names(e.enums@) == enabled_names(o.enums@, e.name@)
    &&& names(e.bitmasks@) == enabled_names(o.bitmasks@, e.name@)
    &&& names(e.flags@) == enabled_names(o.flags@, e.name@)
    &&& addition_views(e.enum_fields@) == enum_field_additions(o.enums@, e.name@)
    &&& addition_views(e.flag_bits@) == flag_bit_additions(o.bitmasks@, e.name@)
}

/// Every extension of `o` is indexed.
pub open spec fn indexed(o: VulkanObject) -> bool {
    forall|k: int| 0 <= k < o.extensions@.len() ==> extension_indexed(#[trigger] o.extensions@[k], o)
}

/// `a` and `b` agree on every field that the document gives an extension.
pub open spec fn same_extension(a: Extension, b: Extension) -> bool {
    &&& a.name == b.name
    &&& a.name_string == b.name_string
    &&& a.spec_version == b.spec_version
    &&& a.instance == b.instance
    &&& a.device == b.device
    &&& a.depends == b.depends
    &&& a.vendor_tag == b.vendor_tag
    &&& a.platform == b.platform
    &&& a.protect == b.protect
    &&& a.provisional == b.provisional
    &&& a.promoted_to == b.promoted_to
    &&& a.deprecated_by == b.deprecated_by
    &&& a.obsoleted_by == b.obsoleted_by
    &&& a.special_use == b.special_use
    &&& a.feature_requirement == b.feature_requirement
    &&& a.ratified == b.ratified
}

/// `a` and `b` agree everywhere but in the reverse lookup fields of their
/// extensions.
pub open spec fn same_document(a: VulkanObject, b: VulkanObject) -> bool {
    &&& a.header_version == b.header_version
    &&& a.header_version_complete == b.header_version_complete
    &&& a.extensions@.len() == b.extensions@.len()
    &&& forall|k: int|
        0 <= k < a.extensions@.len() ==> same_extension(
            #[trigger] a.extensions@[k],
            b.extensions@[k],
        )
    &&& a.versions == b.versions
    &&& a.handles == b.handles
    &&& a.commands == b.commands
    &&& a.structs == b.structs
    &&& a.enums == b.enums
    &&& a.bitmasks == b.bitmasks
    &&& a.flags == b.flags
    &&& a.constants == b.constants
    &&& a.formats == b.formats
    &&& a.sync_stage == b.sync_stage
    &&& a.sync_access == b.sync_access
    &&& a.sync_pipeline == b.sync_pipeline
    &&& a.spirv == b.spirv
    &&& a.platforms == b.platforms
    &&& a.vendor_tags == b.vendor_tags
    &&& a.video_codecs == b.video_codecs
    &&& a.video_std == b.video_std
}

/// Documents that differ only in reverse lookup fields define the same
/// extension names.
pub proof fn lemma_same_document_names(a: VulkanObject, b: VulkanObject)
    requires
        same_document(a, b),
    ensures
        extension_names(a) == extension_names(b),
        names_unique(a) == names_unique(b),
{
    assert forall|k: int| 0 <= k < a.extensions@.len() implies #[trigger] a.extensions@[k].key() == b.extensions@[k].key() by {
        assert(same_extension(a.extensions@[k], b.extensions@[k]));
    }
    if unique_keys(a.extensions@) {
        assert forall|i: int, j: int| 0 <= i < j < b.extensions@.len() implies #[trigger] b.extensions@[i].key() != #[trigger] b.extensions@[j].key() by {
            assert(a.extensions@[i].key() == b.extensions@[i].key());
            assert(a.extensions@[j].key() == b.extensions@[j].key());
        }
    }
    if unique_keys(b.extensions@) {
        assert forall|i: int, j: int| 0 <= i < j < a.extensions@.len() implies #[trigger] a.extensions@[i].key() != #[trigger] a.extensions@[j].key() by {
            assert(a.extensions@[i].key() == b.extensions@[i].key());
            assert(a.extensions@[j].key() == b.extensions@[j].key());
        }
    }
    assert forall|k: int| 0 <= k < extension_names(a).len() implies extension_names(a)[k] == extension_names(b)[k] by {
        assert(same_extension(a.extensions@[k], b.extensions@[k]));
    }
    assert(extension_names(a) =~= extension_names(b));
}

/// Whether `x` is one of `v`.
pub fn contains_name(v: &Vec<String>, x: &String) -> (r: bool)
    ensures
        r == names(v@).contains(x@),
{
    let mut i: usize = 0;
    while i < v.len()
        invariant
            i <= v.len(),
            forall|j: int| 0 <= j < i ==> v@[j]@ != x@,
        decreases v.len() - i,
    {
        if v[i] == *x {
            assert(names(v@)[i as int] == x@);
            return true;
        }
        i = i + 1;
    }
    assert forall|j: int| 0 <= j < names(v@).len() implies names(v@)[j] != x@ by {
        assert(v@[j]@ != x@);
    }
    false
}

/// The names of the entities of `items` that `ext` enables, in order.
pub fn names_enabled_by<T: Entity>(items: &Vec<T>, ext: &String) -> (r: Vec<String>)
    ensures
        names(r@) == enabled_names(items@, ext@),
{
    let mut r: Vec<String> = Vec::new();
    let mut i: usize = 0;
    while i < items.len()
        invariant
            i <= items.len(),
            names(r@) == enabled_names(items@.take(i as int), ext@),
        decreases items.len() - i,
    {
        let item = &items[i];
        assert(items@.take(i + 1).drop_last() == items@.take(i as int));
        assert(items@.take(i + 1).last() == item);
        if contains_name(item.enablers_ref(), ext) {
            let n = item.name_ref().clone();
            let ghost before = r@;
            r.push(n);
            assert(names(r@) =~= names(before).push(item.key()));
        }
        i = i + 1;
    }
    assert(items@.take(items.len() as int) == items@);
    r
}

/// Appends each of `ns`, paired with `owner`, to `out`.
fn push_owned(out: &mut Vec<FieldAddition>, owner: &String, ns: &Vec<String>)
    ensures
        addition_views(final(out)@) == addition_views(old(out)@) + owned(owner@, names(ns@)),
{
    let mut i: usize = 0;
    while i < ns.len()
        invariant
            i <= ns.len(),
            addition_views(out@) == addition_views(old(out)@) + owned(owner@, names(ns@.take(i as int))),
        decreases ns.len() - i,
    {
        let ghost before = out@;
        out.push(FieldAddition { owner: owner.clone(), name: ns[i].clone() });
        assert(names(ns@.take(i + 1)) =~= names(ns@.take(i as int)).push(ns@[i as int]@));
        assert(addition_views(out@) =~= addition_views(before).push((owner@, ns@[i as int]@)));
        assert(owned(owner@, names(ns@.take(i + 1))) =~= owned(owner@, names(ns@.take(i as int))).push((owner@, ns@[i as int]@)));
        i = i + 1;
    }
    assert(ns@.take(ns.len() as int) == ns@);
}

/// The enum fields that `ext` enables, with their enums.
pub fn enum_fields_enabled_by(es: &Vec<Enum>, ext: &String) -> (r: Vec<FieldAddition>)
    ensures
        addition_views(r@) == enum_field_additions(es@, ext@),
{
    let mut r: Vec<FieldAddition> = Vec::new();
    let mut i: usize = 0;
    while i < es.len()
        invariant
            i <= es.len(),
            addition_views(r@) == enum_field_additions(es@.take(i as int), ext@),
        decreases es.len() - i,
    {
        assert(es@.take(i + 1).drop_last() == es@.take(i as int));
        assert(es@.take(i + 1).last() == es@[i as int]);
        let ns = names_enabled_by(&es[i].fields, ext);
        push_owned(&mut r, &es[i].name, &ns);
        i = i + 1;
    }
    assert(es@.take(es.len() as int) == es@);
    r
}

/// The flag bits that `ext` enables, with their bitmasks.
pub fn flag_bits_enabled_by(bs: &Vec<Bitmask>, ext: &String) -> (r: Vec<FieldAddition>)
    ensures
        addition_views(r@) == flag_bit_additions(bs@, ext@),
{
    let mut r: Vec<FieldAddition> = Vec::new();
    let mut i: usize = 0;
    while i < bs.len()
        invariant
            i <= bs.len(),
            addition_views(r@) == flag_bit_additions(bs@.take(i as int), ext@),
        decreases bs.len() - i,
    {
        assert(bs@.take(i + 1).drop_last() == bs@.take(i as int));
        assert(bs@.take(i + 1).last() == bs@[i as int]);
        let ns = names_enabled_by(&bs[i].flags, ext);
        push_owned(&mut r, &bs[i].name, &ns);
        i = i + 1;
    }
    assert(bs@.take(bs.len() as int) == bs@);
    r
}

/// An entity of `s` named `e` names the extension `x`, which is not among
/// `known`.
pub open spec fn dangling_at<T: Entity>(s: Seq<T>, known: Seq<Seq<char>>, e: Seq<char>, x: Seq<char>) -> bool {
    &&& !known.contains(x)
    &&& exists|i: int| 0 <= i < s.len() && s[i].key() == e && #[trigger] s[i].enablers().contains(x)
}

/// The first entity of `items` that names an extension outside `known`, with
/// that extension.
pub fn find_dangling<T: Entity>(items: &Vec<T>, known: &Vec<String>) -> (r: Option<(String, String)>)
    ensures
        r is None <==> resolves(items@, names(known@)),
        r is Some ==> dangling_at(items@, names(known@), r->Some_0.0@, r->Some_0.1@),
{
    let mut i: usize = 0;
    while i < items.len()
        invariant
            i <= items.len(),
            resolves(items@.take(i as int), names(known@)),
        decreases items.len() - i,
    {
        let exts = items[i].enablers_ref();
        let mut j: usize = 0;
        while j < exts.len()
            invariant
                i < items.len(),
                j <= exts.len(),
                names(exts@) == items@[i as int].enablers(),
                forall|k: int| 0 <= k < j ==> names(known@).contains(#[trigger] items@[i as int].enablers()[k]),
            decreases exts.len() - j,
        {
            if !contains_name(known, &exts[j]) {
                assert(items@[i as int].enablers()[j as int] == exts@[j as int]@);
                assert(items@[i as int].enablers().contains(exts@[j as int]@));
                let e = items[i].name_ref().clone();
                let x = exts[j].clone();
                assert(items@[i as int].key() == e@ && items@[i as int].enablers().contains(x@)
                    && !names(known@).contains(x@));

                return Some((e, x));
            }
            assert(items@[i as int].enablers()[j as int] == exts@[j as int]@);
            j = j + 1;
        }
        assert forall|a: int, b: int|
            0 <= a < items@.take(i + 1).len() && 0 <= b < items@.take(i + 1)[a].enablers().len()
            implies names(known@).contains(#[trigger] items@.take(i + 1)[a].enablers()[b]) by {
            if a < i {
                assert(items@.take(i + 1)[a] == items@.take(i as int)[a]);
            }
        }
        i = i + 1;
    }
    assert(items@.take(items.len() as int) == items@);
    None
}

/// The first enum field or flag bit, among the members of `owners`, that
/// names an extension outside `known`.
fn find_dangling_in_enums(es: &Vec<Enum>, known: &Vec<String>) -> (r: Option<(String, String)>)
    ensures
        r is None <==> forall|i: int| 0 <= i < es@.len() ==> resolves(#[trigger] es@[i].fields@, names(known@)),
        r is Some ==> exists|i: int| 0 <= i < es@.len() && #[trigger] dangling_at(es@[i].fields@, names(known@), r->Some_0.0@, r->Some_0.1@),
{
    let mut i: usize = 0;
    while i < es.len()
        invariant
            i <= es.len(),
            forall|k: int| 0 <= k < i ==> resolves(#[trigger] es@[k].fields@, names(known@)),
        decreases es.len() - i,
    {
        let found = find_dangling(&es[i].fields, known);
        if found.is_some() {
            return found;
        }
        i = i + 1;
    }
    None
}

fn find_dangling_in_bitmasks(bs: &Vec<Bitmask>, known: &Vec<String>) -> (r: Option<(String, String)>)
    ensures
        r is None <==> forall|i: int| 0 <= i < bs@.len() ==> resolves(#[trigger] bs@[i].flags@, names(known@)),
        r is Some ==> exists|i: int| 0 <= i < bs@.len() && #[trigger] dangling_at(bs@[i].flags@, names(known@), r->Some_0.0@, r->Some_0.1@),
{
    let mut i: usize = 0;
    while i < bs.len()
        invariant
            i <= bs.len(),
            forall|k: int| 0 <= k < i ==> resolves(#[trigger] bs@[k].flags@, names(known@)),
        decreases bs.len() - i,
    {
        let found = find_dangling(&bs[i].flags, known);
        if found.is_some() {
            return found;
        }
        i = i + 1;
    }
    None
}

/// The names of `exts`, in order.
fn extension_name_list(exts: &Vec<Extension>) -> (r: Vec<String>)
    ensures
        names(r@) == exts@.map_values(|e: Extension| e.name@),
{
    let mut r: Vec<String> = Vec::new();
    let mut i: usize = 0;
    while i < exts.len()
        invariant
            i <= exts.len(),
            names(r@) == exts@.take(i as int).map_values(|e: Extension| e.name@),
        decreases exts.len() - i,
    {
        let ghost before = r@;
        r.push(exts[i].name.clone());
        assert(names(r@) =~= names(before).push(exts@[i as int].name@));
        assert(exts@.take(i + 1).map_values(|e: Extension| e.name@) =~= exts@.take(i as int).map_values(|e: Extension| e.name@).push(exts@[i as int].name@));
        i = i + 1;
    }
    assert(exts@.take(exts.len() as int) == exts@);
    r
}

/// The first entity of the document that names an undefined extension.
pub fn first_dangling(o: &VulkanObject) -> (r: Option<(String, String)>)
    ensures
        r is None <==> all_resolve(*o),
        r is Some ==> dangling_reference(*o, r->Some_0.0@, r->Some_0.1@),
{
    let known = extension_name_list(&o.extensions);
    let found = find_dangling(&o.handles, &known);
    if found.is_some() {
        return found;
    }
    let found = find_dangling(&o.commands, &known);
    if found.is_some() {
        return found;
    }
    let found = find_dangling(&o.structs, &known);
    if found.is_some() {
        return found;
    }
    let found = find_dangling(&o.enums, &known);
    if found.is_some() {
        return found;
    }
    let found = find_dangling(&o.bitmasks, &known);
    if found.is_some() {
        return found;
    }
    let found = find_dangling(&o.flags, &known);
    if found.is_some() {
        return found;
    }
    let found = find_dangling_in_enums(&o.enums, &known);
    if found.is_some() {
        return found;
    }
    find_dangling_in_bitmasks(&o.bitmasks, &known)
}

/// No two items of `s` share a name.
pub open spec fn unique_keys<T: Named>(s: Seq<T>) -> bool {
    forall|i: int, j: int| 0 <= i < j < s.len() ==> #[trigger] s[i].key() != #[trigger] s[j].key()
}

/// Every name-keyed collection of the document holds each name once.
pub open spec fn names_unique(o: VulkanObject) -> bool {
    &&& unique_keys(o.extensions@)
    &&& unique_keys(o.versions@)
    &&& unique_keys(o.handles@)
    &&& unique_keys(o.commands@)
    &&& unique_keys(o.structs@)
    &&& unique_keys(o.enums@)
    &&& unique_keys(o.bitmasks@)
    &&& unique_keys(o.flags@)
    &&& unique_keys(o.constants@)
    &&& unique_keys(o.formats@)
}

/// The first item of `items` whose name an earlier item already has.
pub fn find_duplicate<T: Named>(items: &Vec<T>) -> (r: Option<usize>)
    ensures
        r is None <==> unique_keys(items@),
        r matches Some(j) ==> j < items@.len() && exists|i: int| 0 <= i < j && items@[i].key() == items@[j as int].key(),
{
    let mut j: usize = 0;
    while j < items.len()
        invariant
            j <= items@.len(),
            forall|a: int, b: int| 0 <= a < b < j ==> #[trigger] items@[a].key() != #[trigger] items@[b].key(),
        decreases items.len() - j,
    {
        let mut i: usize = 0;
        while i < j
            invariant
                i <= j < items@.len(),
                forall|a: int| 0 <= a < i ==> items@[a].key() != items@[j as int].key(),
            decreases j - i,
        {
            if *items[i].name_ref() == *items[j].name_ref() {
                return Some(j);
            }
            i = i + 1;
        }
        j = j + 1;
    }
    None
}

/// The name of the first item of `items` that repeats an earlier name.
fn duplicate_name<T: Named>(items: &Vec<T>) -> (r: Option<String>)
    ensures
        r is None <==> unique_keys(items@),
{
    match find_duplicate(items) {
        Some(j) => Some(items[j].name_ref().clone()),
        None => None,
    }
}

/// A name that two items of one collection of the document share.
pub fn first_duplicate_name(o: &VulkanObject) -> (r: Option<String>)
    ensures
        r is None <==> names_unique(*o),
{
    let found = duplicate_name(&o.extensions);
    if found.is_some() {
        return found;
    }
    let found = duplicate_name(&o.versions);
    if found.is_some() {
        return found;
    }
    let found = duplicate_name(&o.handles);
    if found.is_some() {
        return found;
    }
    let found = duplicate_name(&o.commands);
    if found.is_some() {
        return found;
    }
    let found = duplicate_name(&o.structs);
    if found.is_some() {
        return found;
    }
    let found = duplicate_name(&o.enums);
    if found.is_some() {
        return found;
    }
    let found = duplicate_name(&o.bitmasks);
    if found.is_some() {
        return found;
    }
    let found = duplicate_name(&o.flags);
    if found.is_some() {
        return found;
    }
    let found = duplicate_name(&o.constants);
    if found.is_some() {
        return found;
    }
    duplicate_name(&o.formats)
}

/// Some entity of the document, of any kind, named `e` lists the extension
/// `x`, which the document does not define.
pub open spec fn dangling_reference(o: VulkanObject, e: Seq<char>, x: Seq<char>) -> bool {
    let known = extension_names(o);
    ||| dangling_at(o.handles@, known, e, x)
    ||| dangling_at(o.commands@, known, e, x)
    ||| dangling_at(o.structs@, known, e, x)
    ||| dangling_at(o.enums@, known, e, x)
    ||| dangling_at(o.bitmasks@, known, e, x)
    ||| dangling_at(o.flags@, known, e, x)
    ||| exists|i: int| 0 <= i < o.enums@.len() && #[trigger] dangling_at(o.enums@[i].fields@, known, e, x)
    ||| exists|i: int| 0 <= i < o.bitmasks@.len() && #[trigger] dangling_at(o.bitmasks@[i].flags@, known, e, x)
}

/// Fills the reverse lookup fields of `e` from the entities of `o`.
fn index_extension(e: &mut Extension, o: &VulkanObject)
    ensures
        same_extension(*final(e), *old(e)),
        extension_indexed(*final(e), *o),
{
    e.handles = names_enabled_by(&o.handles, &e.name);
    e.commands = names_enabled_by(&o.commands, &e.name);
    e.structs = names_enabled_by(&o.structs, &e.name);
    e.enums = names_enabled_by(&o.enums, &e.name);
    e.bitmasks = names_enabled_by(&o.bitmasks, &e.name);
    e.flags = names_enabled_by(&o.flags, &e.name);
    e.enum_fields = enum_fields_enabled_by(&o.enums, &e.name);
    e.flag_bits = flag_bits_enabled_by(&o.bitmasks, &e.name);
}

/// Builds the reverse lookup fields of every extension. Fails, naming the
/// entity and the extension, where an entity names an extension that the
/// document does not define.
pub fn build_indices(o: VulkanObject) -> (r: Result<VulkanObject, LoadError>)
    ensures
        r is Ok <==> all_resolve(o),
        r matches Ok(n) ==> indexed(n) && same_document(n, o),
        r matches Err(e) ==> e matches LoadError::DanglingExtension { entity, extension } && dangling_reference(
            o,
            entity@,
            extension@,
        ),
{
    match first_dangling(&o) {
        Some((entity, extension)) => {
            return Err(LoadError::DanglingExtension { entity, extension });
        },
        None => {},
    }
    let ghost orig = o;
    let mut o = o;
    let mut rest: Vec<Extension> = Vec::new();
    core::mem::swap(&mut rest, &mut o.extensions);
    let ghost exts = rest@;
    let mut done: Vec<Extension> = Vec::new();
    while rest.len() > 0
        invariant
            exts == orig.extensions@,
            done@.len() + rest@.len() == exts.len(),
            rest@ == exts.subrange(done@.len() as int, exts.len() as int),
            forall|k: int| 0 <= k < done@.len() ==> same_extension(#[trigger] done@[k], exts[k]),
            forall|k: int| 0 <= k < done@.len() ==> extension_indexed(#[trigger] done@[k], o),
            o.handles == orig.handles,
            o.commands == orig.commands,
            o.structs == orig.structs,
            o.enums == orig.enums,
            o.bitmasks == orig.bitmasks,
            o.flags == orig.flags,
        decreases rest@.len(),
    {
        let mut e = rest.remove(0);
        index_extension(&mut e, &o);
        done.push(e);
    }
    o.extensions = done;
    Ok(o)
}

/// A name is among the names that `ext` enables in `s` exactly when an
/// entity of `s` with that name lists `ext`.
pub proof fn lemma_enabled_names<T: Entity>(s: Seq<T>, ext: Seq<char>, x: Seq<char>)
    ensures
        enabled_names(s, ext).contains(x) <==> exists|i: int|
            0 <= i < s.len() && s[i].key() == x && #[trigger] s[i].enablers().contains(ext),
    decreases s.len(),
{
    if s.len() > 0 {
        let p = s.drop_last();
        let rest = enabled_names(p, ext);
        let r = enabled_names(s, ext);
        lemma_enabled_names(p, ext, x);
        if r.contains(x) {
            if !(s.last().enablers().contains(ext) && s.last().key() == x) {
                let idx = choose|idx: int| 0 <= idx < r.len() && r[idx] == x;
                assert(idx < rest.len() && rest[idx] == x);
                assert(rest.contains(x));
                let i = choose|i: int| 0 <= i < p.len() && p[i].key() == x && #[trigger] p[i].enablers().contains(ext);
                assert(p[i] == s[i]);
            } else {
                assert(s[s.len() - 1] == s.last());
            }
        }
        if exists|i: int| 0 <= i < s.len() && s[i].key() == x && #[trigger] s[i].enablers().contains(ext) {
            let i = choose|i: int| 0 <= i < s.len() && s[i].key() == x && #[trigger] s[i].enablers().contains(ext);
            if i == s.len() - 1 {
                assert(r[rest.len() as int] == x);
            } else {
                assert(p[i] == s[i]);
                assert(rest.contains(x));
                let idx = choose|idx: int| 0 <= idx < rest.len() && rest[idx] == x;
                assert(r[idx] == x);
            }
        }
    }
}

/// The reverse lookup fields of a loaded document are complete and sound:
/// extension `E` lists an entity exactly when that entity lists `E`, for
/// handles, commands, structs, enums, bitmasks and flags types alike
/// (`key` is an entity's name, `enablers` the extensions it lists).
pub proof fn lemma_reverse_index_complete(o: VulkanObject, k: int, x: Seq<char>)
    requires
        indexed(o),
        0 <= k < o.extensions@.len(),
    ensures
        names(o.extensions@[k].handles@).contains(x) <==> exists|i: int|
            0 <= i < o.handles@.len() && o.handles@[i].key() == x && #[trigger] o.handles@[i].enablers().contains(
                o.extensions@[k].name@,
            ),
        names(o.extensions@[k].commands@).contains(x) <==> exists|i: int|
            0 <= i < o.commands@.len() && o.commands@[i].key() == x && #[trigger] o.commands@[i].enablers().contains(
                o.extensions@[k].name@,
            ),
        names(o.extensions@[k].structs@).contains(x) <==> exists|i: int|
            0 <= i < o.structs@.len() && o.structs@[i].key() == x && #[trigger] o.structs@[i].enablers().contains(
                o.extensions@[k].name@,
            ),
        names(o.extensions@[k].enums@).contains(x) <==> exists|i: int|
            0 <= i < o.enums@.len() && o.enums@[i].key() == x && #[trigger] o.enums@[i].enablers().contains(
                o.extensions@[k].name@,
            ),
        names(o.extensions@[k].bitmasks@).contains(x) <==> exists|i: int|
            0 <= i < o.bitmasks@.len() && o.bitmasks@[i].key() == x && #[trigger] o.bitmasks@[i].enablers().contains(
                o.extensions@[k].name@,
            ),
        names(o.extensions@[k].flags@).contains(x) <==> exists|i: int|
            0 <= i < o.flags@.len() && o.flags@[i].key() == x && #[trigger] o.flags@[i].enablers().contains(
                o.extensions@[k].name@,
            ),
{
    assert(extension_indexed(o.extensions@[k], o));
    lemma_enabled_names(o.handles@, o.extensions@[k].name@, x);
    lemma_enabled_names(o.commands@, o.extensions@[k].name@, x);
    lemma_enabled_names(o.structs@, o.extensions@[k].name@, x);
    lemma_enabled_names(o.enums@, o.extensions@[k].name@, x);
    lemma_enabled_names(o.bitmasks@, o.extensions@[k].name@, x);
    lemma_enabled_names(o.flags@, o.extensions@[k].name@, x);
}

/// An enum field addition is listed for `ext` exactly when the enum it
/// names has a field of that name that lists `ext`.
pub proof fn lemma_enum_field_additions(es: Seq<Enum>, ext: Seq<char>, owner: Seq<char>, f: Seq<char>)
    ensures
        enum_field_additions(es, ext).contains((owner, f)) <==> exists|i: int|
            0 <= i < es.len() && es[i].name@ == owner && #[trigger] enabled_names(es[i].fields@, ext).contains(f),
    decreases es.len(),
{
    if es.len() > 0 {
        let p = es.drop_last();
        let a = enum_field_additions(p, ext);
        let b = owned(es.last().name@, enabled_names(es.last().fields@, ext));
        lemma_enum_field_additions(p, ext, owner, f);
        lemma_concat_contains(a, b, (owner, f));
        lemma_owned_contains(es.last().name@, enabled_names(es.last().fields@, ext), owner, f);
        assert forall|i: int| 0 <= i < p.len() implies #[trigger] p[i] == es[i] by {}
        if exists|i: int| 0 <= i < es.len() && es[i].name@ == owner && #[trigger] enabled_names(es[i].fields@, ext).contains(f) {
            let i = choose|i: int| 0 <= i < es.len() && es[i].name@ == owner && #[trigger] enabled_names(es[i].fields@, ext).contains(f);
            if i < es.len() - 1 {
                assert(p[i] == es[i]);
            }
        }
    }
}

/// A flag bit addition is listed for `ext` exactly when the bitmask it
/// names has a flag of that name that lists `ext`.
pub proof fn lemma_flag_bit_additions(bs: Seq<Bitmask>, ext: Seq<char>, owner: Seq<char>, f: Seq<char>)
    ensures
        flag_bit_additions(bs, ext).contains((owner, f)) <==> exists|i: int|
            0 <= i < bs.len() && bs[i].name@ == owner && #[trigger] enabled_names(bs[i].flags@, ext).contains(f),
    decreases bs.len(),
{
    if bs.len() > 0 {
        let p = bs.drop_last();
        let a = flag_bit_additions(p, ext);
        let b = owned(bs.last().name@, enabled_names(bs.last().flags@, ext));
        lemma_flag_bit_additions(p, ext, owner, f);
        lemma_concat_contains(a, b, (owner, f));
        lemma_owned_contains(bs.last().name@, enabled_names(bs.last().flags@, ext), owner, f);
        assert forall|i: int| 0 <= i < p.len() implies #[trigger] p[i] == bs[i] by {}
        if exists|i: int| 0 <= i < bs.len() && bs[i].name@ == owner && #[trigger] enabled_names(bs[i].flags@, ext).contains(f) {
            let i = choose|i: int| 0 <= i < bs.len() && bs[i].name@ == owner && #[trigger] enabled_names(bs[i].flags@, ext).contains(f);
            if i < bs.len() - 1 {
                assert(p[i] == bs[i]);
            }
        }
    }
}

proof fn lemma_concat_contains<A>(a: Seq<A>, b: Seq<A>, x: A)
    ensures
        (a + b).contains(x) <==> a.contains(x) || b.contains(x),
{
    if (a + b).contains(x) {
        let i = choose|i: int| 0 <= i < (a + b).len() && (a + b)[i] == x;
        if i >= a.len() {
            assert(b[i - a.len()] == x);
        }
    }
    if a.contains(x) {
        let i = choose|i: int| 0 <= i < a.len() && a[i] == x;
        assert((a + b)[i] == x);
    }
    if b.contains(x) {
        let i = choose|i: int| 0 <= i < b.len() && b[i] == x;
        assert((a + b)[a.len() + i] == x);
    }
}

proof fn lemma_owned_contains(owner: Seq<char>, ns: Seq<Seq<char>>, o2: Seq<char>, f: Seq<char>)
    ensures
        owned(owner, ns).contains((o2, f)) <==> o2 == owner && ns.contains(f),
{
    if owned(owner, ns).contains((o2, f)) {
        let i = choose|i: int| 0 <= i < owned(owner, ns).len() && owned(owner, ns)[i] == (o2, f);
        assert(ns[i] == f);
    }
    if o2 == owner && ns.contains(f) {
        let i = choose|i: int| 0 <= i < ns.len() && ns[i] == f;
        assert(owned(owner, ns)[i] == (o2, f));
    }
}

/// In a loaded document, extension `E` lists the enum field `f` of enum
/// `owner` (or the flag bit `f` of bitmask `owner`) exactly when such a
/// field exists and lists `E`.
pub proof fn lemma_field_index_complete(o: VulkanObject, k: int, owner: Seq<char>, f: Seq<char>)
    requires
        indexed(o),
        0 <= k < o.extensions@.len(),
    ensures
        addition_views(o.extensions@[k].enum_fields@).contains((owner, f)) <==> exists|i: int, j: int|
            0 <= i < o.enums@.len() && 0 <= j < o.enums@[i].fields@.len() && o.enums@[i].name@ == owner
                && o.enums@[i].fields@[j].key() == f && #[trigger] o.enums@[i].fields@[j].enablers().contains(
                o.extensions@[k].name@,
            ),
        addition_views(o.extensions@[k].flag_bits@).contains((owner, f)) <==> exists|i: int, j: int|
            0 <= i < o.bitmasks@.len() && 0 <= j < o.bitmasks@[i].flags@.len() && o.bitmasks@[i].name@ == owner
                && o.bitmasks@[i].flags@[j].key() == f && #[trigger] o.bitmasks@[i].flags@[j].enablers().contains(
                o.extensions@[k].name@,
            ),
{
    let ext = o.extensions@[k].name@;
    assert(extension_indexed(o.extensions@[k], o));
    lemma_enum_field_additions(o.enums@, ext, owner, f);
    lemma_flag_bit_additions(o.bitmasks@, ext, owner, f);
    if enum_field_additions(o.enums@, ext).contains((owner, f)) {
        let i = choose|i: int|
            0 <= i < o.enums@.len() && o.enums@[i].name@ == owner && #[trigger] enabled_names(o.enums@[i].fields@, ext).contains(f);
        lemma_enabled_names(o.enums@[i].fields@, ext, f);
        let j = choose|j: int|
            0 <= j < o.enums@[i].fields@.len() && o.enums@[i].fields@[j].key() == f && #[trigger] o.enums@[i].fields@[j].enablers().contains(ext);
        assert(o.enums@[i].fields@[j].enablers().contains(ext));
    }
    if exists|i: int, j: int|
        0 <= i < o.enums@.len() && 0 <= j < o.enums@[i].fields@.len() && o.enums@[i].name@ == owner
            && o.enums@[i].fields@[j].key() == f && #[trigger] o.enums@[i].fields@[j].enablers().contains(ext) {
        let (i, j) = choose|i: int, j: int|
            0 <= i < o.enums@.len() && 0 <= j < o.enums@[i].fields@.len() && o.enums@[i].name@ == owner
                && o.enums@[i].fields@[j].key() == f && #[trigger] o.enums@[i].fields@[j].enablers().contains(ext);
        lemma_enabled_names(o.enums@[i].fields@, ext, f);
        assert(enabled_names(o.enums@[i].fields@, ext).contains(f));
    }
    if flag_bit_additions(o.bitmasks@, ext).contains((owner, f)) {
        let i = choose|i: int|
            0 <= i < o.bitmasks@.len() && o.bitmasks@[i].name@ == owner && #[trigger] enabled_names(o.bitmasks@[i].flags@, ext).contains(f);
        lemma_enabled_names(o.bitmasks@[i].flags@, ext, f);
        let j = choose|j: int|
            0 <= j < o.bitmasks@[i].flags@.len() && o.bitmasks@[i].flags@[j].key() == f && #[trigger] o.bitmasks@[i].flags@[j].enablers().contains(ext);
        assert(o.bitmasks@[i].flags@[j].enablers().contains(ext));
    }
    if exists|i: int, j: int|
        0 <= i < o.bitmasks@.len() && 0 <= j < o.bitmasks@[i].flags@.len() && o.bitmasks@[i].name@ == owner
            && o.bitmasks@[i].flags@[j].key() == f && #[trigger] o.bitmasks@[i].flags@[j].enablers().contains(ext) {
        let (i, j) = choose|i: int, j: int|
            0 <= i < o.bitmasks@.len() && 0 <= j < o.bitmasks@[i].flags@.len() && o.bitmasks@[i].name@ == owner
                && o.bitmasks@[i].flags@[j].key() == f && #[trigger] o.bitmasks@[i].flags@[j].enablers().contains(ext);
        lemma_enabled_names(o.bitmasks@[i].flags@, ext, f);
        assert(enabled_names(o.bitmasks@[i].flags@, ext).contains(f));
    }
}

/// The document defines an extension named `x`.
pub open spec fn defined(o: VulkanObject, x: Seq<char>) -> bool {
    exists|k: int| 0 <= k < o.extensions@.len() && o.extensions@[k].name@ == x
}

proof fn lemma_defined(o: VulkanObject, x: Seq<char>)
    requires
        extension_names(o).contains(x),
    ensures
        defined(o, x),
{
    let k = choose|k: int| 0 <= k < extension_names(o).len() && extension_names(o)[k] == x;
    assert(o.extensions@[k].name@ == x);
}

proof fn lemma_resolved<T: Entity>(s: Seq<T>, o: VulkanObject)
    requires
        resolves(s, extension_names(o)),
    ensures
        forall|i: int, j: int|
            0 <= i < s.len() && 0 <= j < s[i].enablers().len() ==> defined(o, #[trigger] s[i].enablers()[j]),
{
    assert forall|i: int, j: int| 0 <= i < s.len() && 0 <= j < s[i].enablers().len()
        implies defined(o, #[trigger] s[i].enablers()[j]) by {
        lemma_defined(o, s[i].enablers()[j]);
    }
}

/// Every extension that an entity of a loaded document names is one that
/// the document defines (`enablers` are the extensions an entity lists).
pub proof fn lemma_no_dangling_references(o: VulkanObject)
    requires
        all_resolve(o),
    ensures
        forall|i: int, j: int|
            0 <= i < o.handles@.len() && 0 <= j < o.handles@[i].enablers().len() ==> defined(o, #[trigger] o.handles@[i].enablers()[j]),
        forall|i: int, j: int|
            0 <= i < o.commands@.len() && 0 <= j < o.commands@[i].enablers().len() ==> defined(o, #[trigger] o.commands@[i].enablers()[j]),
        forall|i: int, j: int|
            0 <= i < o.structs@.len() && 0 <= j < o.structs@[i].enablers().len() ==> defined(o, #[trigger] o.structs@[i].enablers()[j]),
        forall|i: int, j: int|
            0 <= i < o.enums@.len() && 0 <= j < o.enums@[i].enablers().len() ==> defined(o, #[trigger] o.enums@[i].enablers()[j]),
        forall|i: int, j: int|
            0 <= i < o.bitmasks@.len() && 0 <= j < o.bitmasks@[i].enablers().len() ==> defined(o, #[trigger] o.bitmasks@[i].enablers()[j]),
        forall|i: int, j: int|
            0 <= i < o.flags@.len() && 0 <= j < o.flags@[i].enablers().len() ==> defined(o, #[trigger] o.flags@[i].enablers()[j]),
{
    lemma_resolved(o.handles@, o);
    lemma_resolved(o.commands@, o);
    lemma_resolved(o.structs@, o);
    lemma_resolved(o.enums@, o);
    lemma_resolved(o.bitmasks@, o);
    lemma_resolved(o.flags@, o);
}

/// In a loaded document the reverse lookup fields agree with lookup by
/// name: extension `E` lists the name `x` exactly when the entity that a
/// lookup of `x` finds exists and lists `E`, for every entity kind.
pub proof fn lemma_reverse_index_by_name(o: VulkanObject, k: int, x: Seq<char>)
    requires
        indexed(o),
        names_unique(o),
        0 <= k < o.extensions@.len(),
    ensures
        names(o.extensions@[k].handles@).contains(x) <==> (lookup(o.handles@, x) matches Some(h) && h.enablers().contains(
            o.extensions@[k].name@,
        )),
        names(o.extensions@[k].commands@).contains(x) <==> (lookup(o.commands@, x) matches Some(h) && h.enablers().contains(
            o.extensions@[k].name@,
        )),
        names(o.extensions@[k].structs@).contains(x) <==> (lookup(o.structs@, x) matches Some(h) && h.enablers().contains(
            o.extensions@[k].name@,
        )),
        names(o.extensions@[k].enums@).contains(x) <==> (lookup(o.enums@, x) matches Some(h) && h.enablers().contains(
            o.extensions@[k].name@,
        )),
        names(o.extensions@[k].bitmasks@).contains(x) <==> (lookup(o.bitmasks@, x) matches Some(h) && h.enablers().contains(
            o.extensions@[k].name@,
        )),
        names(o.extensions@[k].flags@).contains(x) <==> (lookup(o.flags@, x) matches Some(h) && h.enablers().contains(
            o.extensions@[k].name@,
        )),
{
    assert(extension_indexed(o.extensions@[k], o));
    lemma_enabled_names(o.handles@, o.extensions@[k].name@, x);
    lemma_position_bounds(o.handles@, x);
    if exists|i: int| 0 <= i < o.handles@.len() && o.handles@[i].key() == x && #[trigger] o.handles@[i].enablers().contains(o.extensions@[k].name@) {
        let i = choose|i: int| 0 <= i < o.handles@.len() && o.handles@[i].key() == x && #[trigger] o.handles@[i].enablers().contains(o.extensions@[k].name@);
        lemma_position_unique(o.handles@, i);
    }
    lemma_enabled_names(o.commands@, o.extensions@[k].name@, x);
    lemma_position_bounds(o.commands@, x);
    if exists|i: int| 0 <= i < o.commands@.len() && o.commands@[i].key() == x && #[trigger] o.commands@[i].enablers().contains(o.extensions@[k].name@) {
        let i = choose|i: int| 0 <= i < o.commands@.len() && o.commands@[i].key() == x && #[trigger] o.commands@[i].enablers().contains(o.extensions@[k].name@);
        lemma_position_unique(o.commands@, i);
    }
    lemma_enabled_names(o.structs@, o.extensions@[k].name@, x);
    lemma_position_bounds(o.structs@, x);
    if exists|i: int| 0 <= i < o.structs@.len() && o.structs@[i].key() == x && #[trigger] o.structs@[i].enablers().contains(o.extensions@[k].name@) {
        let i = choose|i: int| 0 <= i < o.structs@.len() && o.structs@[i].key() == x && #[trigger] o.structs@[i].enablers().contains(o.extensions@[k].name@);
        lemma_position_unique(o.structs@, i);
    }
    lemma_enabled_names(o.enums@, o.extensions@[k].name@, x);
    lemma_position_bounds(o.enums@, x);
    if exists|i: int| 0 <= i < o.enums@.len() && o.enums@[i].key() == x && #[trigger] o.enums@[i].enablers().contains(o.extensions@[k].name@) {
        let i = choose|i: int| 0 <= i < o.enums@.len() && o.enums@[i].key() == x && #[trigger] o.enums@[i].enablers().contains(o.extensions@[k].name@);
        lemma_position_unique(o.enums@, i);
    }
    lemma_enabled_names(o.bitmasks@, o.extensions@[k].name@, x);
    lemma_position_bounds(o.bitmasks@, x);
    if exists|i: int| 0 <= i < o.bitmasks@.len() && o.bitmasks@[i].key() == x && #[trigger] o.bitmasks@[i].enablers().contains(o.extensions@[k].name@) {
        let i = choose|i: int| 0 <= i < o.bitmasks@.len() && o.bitmasks@[i].key() == x && #[trigger] o.bitmasks@[i].enablers().contains(o.extensions@[k].name@);
        lemma_position_unique(o.bitmasks@, i);
    }
    lemma_enabled_names(o.flags@, o.extensions@[k].name@, x);
    lemma_position_bounds(o.flags@, x);
    if exists|i: int| 0 <= i < o.flags@.len() && o.flags@[i].key() == x && #[trigger] o.flags@[i].enablers().contains(o.extensions@[k].name@) {
        let i = choose|i: int| 0 <= i < o.flags@.len() && o.flags@[i].key() == x && #[trigger] o.flags@[i].enablers().contains(o.extensions@[k].name@);
        lemma_position_unique(o.flags@, i);
    }
}

} // verus!

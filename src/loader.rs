//! The document loader: turns a JSON tree into the entity schema, field by
//! field, and reports the path of the first field that does not fit. For
//! each type, `fits_x` says when a tree decodes and `x_from` what it decodes
//! to; members that the schema does not name are never read.

use vstd::prelude::*;
use crate::index::names;
use crate::json::{entry_position, lemma_entry_position_bounds, member, member_of, Json};
use crate::vulkan_object::{
    Bitmask, Command, CommandScope, Constant, ConstantValue, Enum, EnumField, Extension,
    ExternSync, FeatureRequirement, Flag, Flags, Format, FormatComponent, FormatPlane, Handle,
    Legacy, Member, Param, Spirv, SpirvEnables, Struct, SyncAccess, SyncEquivalent,
    SyncPipeline, SyncPipelineStage, SyncStage, SyncSupport, Version, VideoCodec, VideoFormat,
    VideoProfileMember, VideoProfiles, VideoRequiredCapabilities, VideoStd, VideoStdHeader,
    VulkanObject,
};

verus! {

/// How deep a chain of parent handles may be nested in a document.
pub const MAX_PARENT_DEPTH: usize = 128;

/// What is wrong with a field of the document.
#[derive(Clone, Copy, Debug, PartialEq, Eq, Structural)]
pub enum FieldProblem {
    /// A required field is absent.
    Missing,
    /// The field holds a value of another JSON type.
    WrongType,
    /// A number that the field's type cannot hold, or an unknown enumeration code.
    OutOfRange,
    /// Parent handles nested deeper than `MAX_PARENT_DEPTH`.
    TooDeep,
}

/// Why a document could not be loaded.
#[derive(Clone, Debug)]
pub enum LoadError {
    /// The text is not JSON.
    Syntax(String),
    /// A field does not fit the schema; `path` leads to it from the document root.
    Field { path: Vec<String>, problem: FieldProblem },
    /// An entity names an extension that the document does not define.
    DanglingExtension { entity: String, extension: String },
    /// Two items of one name-keyed collection share `name`.
    DuplicateName { name: String },
    /// Handle `handle` is its own ancestor, along its nested parent chain or
    /// by following parents by name.
    HandleCycle { handle: String },
    /// Following `extends` links by name from `structure` comes back to it.
    ExtendsCycle { structure: String },
}

/// The code of each external synchronization kind in a document.
pub open spec fn extern_sync_code(e: ExternSync) -> u64 {
    match e {
        ExternSync::Never => 1,
        ExternSync::Always => 2,
        ExternSync::Maybe => 3,
        ExternSync::Subtype => 4,
        ExternSync::SubtypeMaybe => 5,
    }
}

/// The code of each command scope in a document.
pub open spec fn command_scope_code(c: CommandScope) -> u64 {
    match c {
        CommandScope::Neither => 1,
        CommandScope::Inside => 2,
        CommandScope::Outside => 3,
        CommandScope::Both => 4,
    }
}

impl ExternSync {
    /// The kind that a document writes as `n`; `None` for any other number.
    pub fn from_code(n: u64) -> (r: Option<ExternSync>)
        ensures
            r matches Some(e) ==> extern_sync_code(e) == n,
            r is None <==> !(1 <= n <= 5),
    {
        if n == 1 {
            Some(ExternSync::Never)
        } else if n == 2 {
            Some(ExternSync::Always)
        } else if n == 3 {
            Some(ExternSync::Maybe)
        } else if n == 4 {
            Some(ExternSync::Subtype)
        } else if n == 5 {
            Some(ExternSync::SubtypeMaybe)
        } else {
            None
        }
    }

    /// The number that a document writes for this kind.
    pub fn code(&self) -> (r: u64)
        ensures
            r == extern_sync_code(*self),
    {
        match self {
            ExternSync::Never => 1,
            ExternSync::Always => 2,
            ExternSync::Maybe => 3,
            ExternSync::Subtype => 4,
            ExternSync::SubtypeMaybe => 5,
        }
    }
}

impl CommandScope {
    /// The scope that a document writes as `n`; `None` for any other number.
    pub fn from_code(n: u64) -> (r: Option<CommandScope>)
        ensures
            r matches Some(c) ==> command_scope_code(c) == n,
            r is None <==> !(1 <= n <= 4),
    {
        if n == 1 {
            Some(CommandScope::Neither)
        } else if n == 2 {
            Some(CommandScope::Inside)
        } else if n == 3 {
            Some(CommandScope::Outside)
        } else if n == 4 {
            Some(CommandScope::Both)
        } else {
            None
        }
    }

    /// The number that a document writes for this scope.
    pub fn code(&self) -> (r: u64)
        ensures
            r == command_scope_code(*self),
    {
        match self {
            CommandScope::Neither => 1,
            CommandScope::Inside => 2,
            CommandScope::Outside => 3,
            CommandScope::Both => 4,
        }
    }
}

/// Writing an enumeration value as its code and reading the code back gives
/// the same value, and distinct values have distinct codes.
pub proof fn lemma_codes_round_trip(e: ExternSync, f: ExternSync, c: CommandScope, d: CommandScope)
    ensures
        1 <= extern_sync_code(e) <= 5,
        1 <= command_scope_code(c) <= 4,
        extern_sync_code(e) == extern_sync_code(f) ==> e == f,
        command_scope_code(c) == command_scope_code(d) ==> c == d,
{
}

/// The path of member `key` below `path`.
fn child(path: &Vec<String>, key: &str) -> (r: Vec<String>) {
    let mut r = path.clone();
    r.push(key.to_owned());
    r
}

/// The path of item `i` of the array at `path`.
fn position(path: &Vec<String>, i: usize) -> (r: Vec<String>) {
    let mut r = path.clone();
    r.push(i.to_string());
    r
}

fn field_error(path: &Vec<String>, key: &str, problem: FieldProblem) -> (r: LoadError)
    ensures
        r is Field,
{
    LoadError::Field { path: child(path, key), problem }
}

/// The member under `k`, unless it is absent or null.
pub open spec fn present(j: Json, k: Seq<char>) -> Option<Json> {
    match member_of(j, k) {
        Some(Json::Null) => None,
        Some(m) => Some(m),
        None => None,
    }
}

/// The text of the string member under `k`.
pub open spec fn text_at(j: Json, k: Seq<char>) -> Option<Seq<char>> {
    match member_of(j, k) {
        Some(Json::Str(s)) => Some(s@),
        _ => None,
    }
}

/// An optional text member is absent, null or a string.
pub open spec fn opt_text_fits(j: Json, k: Seq<char>) -> bool {
    match present(j, k) {
        None => true,
        Some(Json::Str(_)) => true,
        _ => false,
    }
}

pub open spec fn opt_text_from(j: Json, k: Seq<char>, x: Option<String>) -> bool {
    match present(j, k) {
        None => x is None,
        Some(Json::Str(s)) => x matches Some(t) && t@ == s@,
        _ => false,
    }
}

/// The boolean member under `k`.
pub open spec fn bool_at(j: Json, k: Seq<char>) -> Option<bool> {
    match member_of(j, k) {
        Some(Json::Bool(b)) => Some(b),
        _ => None,
    }
}

/// The value of an integer.
pub open spec fn number_value(m: Json) -> Option<int> {
    match m {
        Json::UInt(u) => Some(u as int),
        Json::Int(i) => Some(i as int),
        _ => None,
    }
}

/// The integer member under `k`.
pub open spec fn int_at(j: Json, k: Seq<char>) -> Option<int> {
    match member_of(j, k) {
        Some(m) => number_value(m),
        None => None,
    }
}

/// The member under `k` is an integer from `lo` to `hi`.
pub open spec fn int_in(j: Json, k: Seq<char>, lo: int, hi: int) -> bool {
    int_at(j, k) matches Some(n) && lo <= n <= hi
}

pub open spec fn opt_int32_fits(j: Json, k: Seq<char>) -> bool {
    match present(j, k) {
        None => true,
        Some(m) => number_value(m) matches Some(n) && i32::MIN <= n <= i32::MAX,
    }
}

pub open spec fn opt_int32_from(j: Json, k: Seq<char>, x: Option<i32>) -> bool {
    match present(j, k) {
        None => x is None,
        Some(m) => x matches Some(n) && number_value(m) == Some(n as int),
    }
}

/// The text of a string.
pub open spec fn str_view(m: Json) -> Seq<char> {
    match m {
        Json::Str(s) => s@,
        _ => Seq::empty(),
    }
}

/// An array of strings, as their texts.
pub open spec fn texts_of(m: Json) -> Option<Seq<Seq<char>>> {
    match m {
        Json::Array(items) => if forall|i: int| 0 <= i < items@.len() ==> #[trigger] items@[i] is Str {
            Some(items@.map_values(|x: Json| str_view(x)))
        } else {
            None
        },
        _ => None,
    }
}

/// The array of strings under `k`.
pub open spec fn texts_at(j: Json, k: Seq<char>) -> Option<Seq<Seq<char>>> {
    match member_of(j, k) {
        Some(m) => texts_of(m),
        None => None,
    }
}

pub open spec fn opt_texts_fits(j: Json, k: Seq<char>) -> bool {
    match present(j, k) {
        None => true,
        Some(m) => texts_of(m) is Some,
    }
}

pub open spec fn opt_texts_from(j: Json, k: Seq<char>, x: Option<Vec<String>>) -> bool {
    match present(j, k) {
        None => x is None,
        Some(m) => x matches Some(v) && texts_of(m) == Some(names(v@)),
    }
}

/// Pairs of texts.
pub open spec fn pair_views(v: Seq<(String, String)>) -> Seq<(Seq<char>, Seq<char>)> {
    v.map_values(|p: (String, String)| (p.0@, p.1@))
}

/// The object of strings under `k`, as pairs of key and text.
pub open spec fn text_map_at(j: Json, k: Seq<char>) -> Option<Seq<(Seq<char>, Seq<char>)>> {
    match member_of(j, k) {
        Some(Json::Object(es)) => if forall|i: int| 0 <= i < es@.len() ==> #[trigger] es@[i].1 is Str {
            Some(es@.map_values(|e: (String, Json)| (e.0@, str_view(e.1))))
        } else {
            None
        },
        _ => None,
    }
}

/// A constant's value is a float, or an integer that fits in i64.
pub open spec fn constant_value_fits(j: Json, k: Seq<char>) -> bool {
    match member_of(j, k) {
        Some(Json::Float(_)) => true,
        Some(Json::UInt(u)) => u <= i64::MAX,
        Some(Json::Int(_)) => true,
        _ => false,
    }
}

/// A float decodes as `Float` with its text, an integer as `Int` with its
/// value; the declared type of the constant plays no part.
pub open spec fn constant_value_from(j: Json, k: Seq<char>, c: ConstantValue) -> bool {
    match (member_of(j, k), c) {
        (Some(Json::Float(t)), ConstantValue::Float(s)) => s@ == t@,
        (Some(Json::UInt(u)), ConstantValue::Int(n)) => n as int == u as int,
        (Some(Json::Int(i)), ConstantValue::Int(n)) => n == i,
        _ => false,
    }
}

fn expect_object(v: &Json, path: &Vec<String>) -> (r: Result<(), LoadError>)
    ensures
        r is Ok <==> *v is Object,
        r is Err ==> r->Err_0 is Field,
{
    match v {
        Json::Object(_) => Ok(()),
        _ => Err(LoadError::Field { path: path.clone(), problem: FieldProblem::WrongType }),
    }
}

/// The member under `key`, unless it is absent or null.
fn opt_member<'a>(v: &'a Json, key: &str) -> (r: Option<&'a Json>)
    ensures
        match r {
            Some(m) => present(*v, key@) == Some(*m),
            None => present(*v, key@) is None,
        },
{
    match member(v, key) {
        Some(m) => match m {
            Json::Null => None,
            _ => Some(m),
        },
        None => None,
    }
}

fn required<'a>(v: &'a Json, key: &str, path: &Vec<String>) -> (r: Result<&'a Json, LoadError>)
    ensures
        r is Ok <==> member_of(*v, key@) is Some,
        r matches Ok(m) ==> member_of(*v, key@) == Some(*m),
        r is Err ==> r->Err_0 is Field,
{
    match member(v, key) {
        Some(m) => Ok(m),
        None => Err(field_error(path, key, FieldProblem::Missing)),
    }
}

fn text(v: &Json, key: &str, path: &Vec<String>) -> (r: Result<String, LoadError>)
    ensures
        r is Ok <==> text_at(*v, key@) is Some,
        r matches Ok(s) ==> text_at(*v, key@) == Some(s@),
        r is Err ==> r->Err_0 is Field,
{
    match required(v, key, path)? {
        Json::Str(s) => Ok(s.clone()),
        _ => Err(field_error(path, key, FieldProblem::WrongType)),
    }
}

fn opt_text(v: &Json, key: &str, path: &Vec<String>) -> (r: Result<Option<String>, LoadError>)
    ensures
        r is Ok <==> opt_text_fits(*v, key@),
        r matches Ok(x) ==> opt_text_from(*v, key@, x),
        r is Err ==> r->Err_0 is Field,
{
    match opt_member(v, key) {
        None => Ok(None),
        Some(Json::Str(s)) => Ok(Some(s.clone())),
        Some(_) => Err(field_error(path, key, FieldProblem::WrongType)),
    }
}

fn flag(v: &Json, key: &str, path: &Vec<String>) -> (r: Result<bool, LoadError>)
    ensures
        r is Ok <==> bool_at(*v, key@) is Some,
        r matches Ok(b) ==> bool_at(*v, key@) == Some(b),
        r is Err ==> r->Err_0 is Field,
{
    match required(v, key, path)? {
        Json::Bool(b) => Ok(*b),
        _ => Err(field_error(path, key, FieldProblem::WrongType)),
    }
}

/// An integer from `lo` to `hi`.
fn integer(v: &Json, key: &str, path: &Vec<String>, lo: i128, hi: i128) -> (r: Result<i128, LoadError>)
    ensures
        r is Ok <==> int_in(*v, key@, lo as int, hi as int),
        r matches Ok(n) ==> int_at(*v, key@) == Some(n as int),
        r is Err ==> r->Err_0 is Field,
{
    let n: i128 = match required(v, key, path)? {
        Json::UInt(u) => *u as i128,
        Json::Int(i) => *i as i128,
        _ => return Err(field_error(path, key, FieldProblem::WrongType)),
    };
    if lo <= n && n <= hi {
        Ok(n)
    } else {
        Err(field_error(path, key, FieldProblem::OutOfRange))
    }
}

fn int64(v: &Json, key: &str, path: &Vec<String>) -> (r: Result<i64, LoadError>)
    ensures
        r is Ok <==> int_in(*v, key@, i64::MIN as int, i64::MAX as int),
        r matches Ok(n) ==> int_at(*v, key@) == Some(n as int),
        r is Err ==> r->Err_0 is Field,
{
    let n = integer(v, key, path, i64::MIN as i128, i64::MAX as i128)?;
    Ok(n as i64)
}

fn uint64(v: &Json, key: &str, path: &Vec<String>) -> (r: Result<u64, LoadError>)
    ensures
        r is Ok <==> int_in(*v, key@, 0, u64::MAX as int),
        r matches Ok(n) ==> int_at(*v, key@) == Some(n as int),
        r is Err ==> r->Err_0 is Field,
{
    let n = integer(v, key, path, 0, u64::MAX as i128)?;
    Ok(n as u64)
}

fn int32(v: &Json, key: &str, path: &Vec<String>) -> (r: Result<i32, LoadError>)
    ensures
        r is Ok <==> int_in(*v, key@, i32::MIN as int, i32::MAX as int),
        r matches Ok(n) ==> int_at(*v, key@) == Some(n as int),
        r is Err ==> r->Err_0 is Field,
{
    let n = integer(v, key, path, i32::MIN as i128, i32::MAX as i128)?;
    Ok(n as i32)
}

fn opt_int32(v: &Json, key: &str, path: &Vec<String>) -> (r: Result<Option<i32>, LoadError>)
    ensures
        r is Ok <==> opt_int32_fits(*v, key@),
        r matches Ok(x) ==> opt_int32_from(*v, key@, x),
        r is Err ==> r->Err_0 is Field,
{
    match opt_member(v, key) {
        None => Ok(None),
        Some(_) => Ok(Some(int32(v, key, path)?)),
    }
}

/// The items of the array under `k`.
pub open spec fn array_at(j: Json, k: Seq<char>) -> Option<Seq<Json>> {
    match member_of(j, k) {
        Some(Json::Array(items)) => Some(items@),
        _ => None,
    }
}

/// The members of the object under `k`.
pub open spec fn object_at(j: Json, k: Seq<char>) -> Option<Seq<(String, Json)>> {
    match member_of(j, k) {
        Some(Json::Object(es)) => Some(es@),
        _ => None,
    }
}

fn array<'a>(v: &'a Json, key: &str, path: &Vec<String>) -> (r: Result<&'a Vec<Json>, LoadError>)
    ensures
        r is Ok <==> array_at(*v, key@) is Some,
        r matches Ok(items) ==> array_at(*v, key@) == Some(items@),
        r is Err ==> r->Err_0 is Field,
{
    match required(v, key, path)? {
        Json::Array(items) => Ok(items),
        _ => Err(field_error(path, key, FieldProblem::WrongType)),
    }
}

fn entries<'a>(v: &'a Json, key: &str, path: &Vec<String>) -> (r: Result<&'a Vec<(String, Json)>, LoadError>)
    ensures
        r is Ok <==> object_at(*v, key@) is Some,
        r matches Ok(es) ==> object_at(*v, key@) == Some(es@),
        r is Err ==> r->Err_0 is Field,
{
    match required(v, key, path)? {
        Json::Object(es) => Ok(es),
        _ => Err(field_error(path, key, FieldProblem::WrongType)),
    }
}

/// The texts of an array of strings.
fn text_items(m: &Json, path: &Vec<String>) -> (r: Result<Vec<String>, LoadError>)
    ensures
        r is Ok <==> texts_of(*m) is Some,
        r matches Ok(v) ==> texts_of(*m) == Some(names(v@)),
        r is Err ==> r->Err_0 is Field,
{
    let items = match m {
        Json::Array(items) => items,
        _ => return Err(LoadError::Field { path: path.clone(), problem: FieldProblem::WrongType }),
    };
    let mut out: Vec<String> = Vec::new();
    let mut i: usize = 0;
    while i < items.len()
        invariant
            i <= items@.len(),
            *m == Json::Array(*items),
            forall|k: int| 0 <= k < i ==> #[trigger] items@[k] is Str,
            names(out@) =~= items@.take(i as int).map_values(|x: Json| str_view(x)),
        decreases items.len() - i,
    {
        match &items[i] {
            Json::Str(s) => {
                let ghost before = out@;
                out.push(s.clone());
                assert(names(out@) =~= names(before).push(s@));
                assert(items@.take(i + 1).map_values(|x: Json| str_view(x)) =~= items@.take(i as int).map_values(
                    |x: Json| str_view(x),
                ).push(s@));
            },
            _ => return Err(LoadError::Field { path: position(path, i), problem: FieldProblem::WrongType }),
        }
        i = i + 1;
    }
    assert(items@.take(items.len() as int) == items@);
    Ok(out)
}

fn texts(v: &Json, key: &str, path: &Vec<String>) -> (r: Result<Vec<String>, LoadError>)
    ensures
        r is Ok <==> texts_at(*v, key@) is Some,
        r matches Ok(x) ==> texts_at(*v, key@) == Some(names(x@)),
        r is Err ==> r->Err_0 is Field,
{
    text_items(required(v, key, path)?, &child(path, key))
}

fn opt_texts(v: &Json, key: &str, path: &Vec<String>) -> (r: Result<Option<Vec<String>>, LoadError>)
    ensures
        r is Ok <==> opt_texts_fits(*v, key@),
        r matches Ok(x) ==> opt_texts_from(*v, key@, x),
        r is Err ==> r->Err_0 is Field,
{
    match opt_member(v, key) {
        None => Ok(None),
        Some(m) => Ok(Some(text_items(m, &child(path, key))?)),
    }
}

fn text_map(v: &Json, key: &str, path: &Vec<String>) -> (r: Result<Vec<(String, String)>, LoadError>)
    ensures
        r is Ok <==> text_map_at(*v, key@) is Some,
        r matches Ok(x) ==> text_map_at(*v, key@) == Some(pair_views(x@)),
        r is Err ==> r->Err_0 is Field,
{
    let es = entries(v, key, path)?;
    let here = child(path, key);
    let mut out: Vec<(String, String)> = Vec::new();
    let mut i: usize = 0;
    while i < es.len()
        invariant
            i <= es@.len(),
            object_at(*v, key@) == Some(es@),
            forall|k: int| 0 <= k < i ==> #[trigger] es@[k].1 is Str,
            pair_views(out@) =~= es@.take(i as int).map_values(|e: (String, Json)| (e.0@, str_view(e.1))),
        decreases es.len() - i,
    {
        match &es[i].1 {
            Json::Str(s) => {
                let ghost before = out@;
                out.push((es[i].0.clone(), s.clone()));
                assert(pair_views(out@) =~= pair_views(before).push((es@[i as int].0@, s@)));
                assert(es@.take(i + 1).map_values(|e: (String, Json)| (e.0@, str_view(e.1))) =~= es@.take(
                    i as int,
                ).map_values(|e: (String, Json)| (e.0@, str_view(e.1))).push((es@[i as int].0@, s@)));
            },
            _ => return Err(field_error(&here, es[i].0.as_str(), FieldProblem::WrongType)),
        }
        i = i + 1;
    }
    assert(es@.take(es.len() as int) == es@);
    Ok(out)
}

fn extern_sync(v: &Json, key: &str, path: &Vec<String>) -> (r: Result<ExternSync, LoadError>)
    ensures
        r is Ok <==> int_in(*v, key@, 1, 5),
        r matches Ok(e) ==> int_at(*v, key@) == Some(extern_sync_code(e) as int),
        r is Err ==> r->Err_0 is Field,
{
    let n = integer(v, key, path, 1, 5)?;
    match ExternSync::from_code(n as u64) {
        Some(e) => Ok(e),
        None => Err(field_error(path, key, FieldProblem::OutOfRange)),
    }
}

fn command_scope(v: &Json, key: &str, path: &Vec<String>) -> (r: Result<CommandScope, LoadError>)
    ensures
        r is Ok <==> int_in(*v, key@, 1, 4),
        r matches Ok(c) ==> int_at(*v, key@) == Some(command_scope_code(c) as int),
        r is Err ==> r->Err_0 is Field,
{
    let n = integer(v, key, path, 1, 4)?;
    match CommandScope::from_code(n as u64) {
        Some(c) => Ok(c),
        None => Err(field_error(path, key, FieldProblem::OutOfRange)),
    }
}

/// A constant's value: a float where serde_json holds the number as one, an
/// integer otherwise; the declared type is not consulted.
fn constant_value(v: &Json, key: &str, path: &Vec<String>) -> (r: Result<ConstantValue, LoadError>)
    ensures
        r is Ok <==> constant_value_fits(*v, key@),
        r matches Ok(c) ==> constant_value_from(*v, key@, c),
        r is Err ==> r->Err_0 is Field,
{
    match required(v, key, path)? {
        Json::Float(t) => Ok(ConstantValue::Float(t.clone())),
        Json::Int(i) => Ok(ConstantValue::Int(*i)),
        Json::UInt(u) => if *u <= i64::MAX as u64 {
            Ok(ConstantValue::Int(*u as i64))
        } else {
            Err(field_error(path, key, FieldProblem::OutOfRange))
        },
        _ => Err(field_error(path, key, FieldProblem::WrongType)),
    }
}

/// Decodes a whole document. The reverse lookup fields of each extension
/// are left empty for the index builder.
pub fn decode_document(v: &Json) -> (r: Result<VulkanObject, LoadError>)
    ensures
        r is Ok <==> fits_vulkan_object(*v),
        r matches Ok(o) ==> vulkan_object_from(*v, o),
        r is Err ==> r->Err_0 is Field,
{
    let root: Vec<String> = Vec::new();
    decode_vulkan_object(v, &root)
}

/// `j` is an object that holds every field of `FeatureRequirement`.
pub open spec fn fits_feature_requirement(j: Json) -> bool {
    &&& j is Object
    &&& text_at(j, "struct"@) is Some
    &&& text_at(j, "field"@) is Some
    &&& opt_text_fits(j, "depends"@)
}

/// `x` holds what object `j` holds.
pub open spec fn feature_requirement_from(j: Json, x: FeatureRequirement) -> bool {
    &&& j is Object
    &&& text_at(j, "struct"@) == Some(x.struct_@)
    &&& text_at(j, "field"@) == Some(x.field@)
    &&& opt_text_from(j, "depends"@, x.depends)
}

fn decode_feature_requirement(v: &Json, path: &Vec<String>) -> (r: Result<FeatureRequirement, LoadError>)
    ensures
        r is Ok <==> fits_feature_requirement(*v),
        r matches Ok(x) ==> feature_requirement_from(*v, x),
        r is Err ==> r->Err_0 is Field,
{
    expect_object(v, path)?;
    Ok(
        FeatureRequirement {
            struct_: text(v, "struct", path)?,
            field: text(v, "field", path)?,
            depends: opt_text(v, "depends", path)?,
        },
    )
}

/// `j` is an object that holds every field of `Extension`.
pub open spec fn fits_extension(j: Json) -> bool {
    &&& j is Object
    &&& text_at(j, "name"@) is Some
    &&& text_at(j, "nameString"@) is Some
    &&& text_at(j, "specVersion"@) is Some
    &&& bool_at(j, "instance"@) is Some
    &&& bool_at(j, "device"@) is Some
    &&& opt_text_fits(j, "depends"@)
    &&& opt_text_fits(j, "vendorTag"@)
    &&& opt_text_fits(j, "platform"@)
    &&& opt_text_fits(j, "protect"@)
    &&& bool_at(j, "provisional"@) is Some
    &&& opt_text_fits(j, "promotedTo"@)
    &&& opt_text_fits(j, "deprecatedBy"@)
    &&& opt_text_fits(j, "obsoletedBy"@)
    &&& texts_at(j, "specialUse"@) is Some
    &&& fits_feature_requirement_list(j, "featureRequirement"@)
    &&& bool_at(j, "ratified"@) is Some
}

/// `x` holds what object `j` holds.
pub open spec fn extension_from(j: Json, x: Extension) -> bool {
    &&& j is Object
    &&& text_at(j, "name"@) == Some(x.name@)
    &&& text_at(j, "nameString"@) == Some(x.name_string@)
    &&& text_at(j, "specVersion"@) == Some(x.spec_version@)
    &&& bool_at(j, "instance"@) == Some(x.instance)
    &&& bool_at(j, "device"@) == Some(x.device)
    &&& opt_text_from(j, "depends"@, x.depends)
    &&& opt_text_from(j, "vendorTag"@, x.vendor_tag)
    &&& opt_text_from(j, "platform"@, x.platform)
    &&& opt_text_from(j, "protect"@, x.protect)
    &&& bool_at(j, "provisional"@) == Some(x.provisional)
    &&& opt_text_from(j, "promotedTo"@, x.promoted_to)
    &&& opt_text_from(j, "deprecatedBy"@, x.deprecated_by)
    &&& opt_text_from(j, "obsoletedBy"@, x.obsoleted_by)
    &&& texts_at(j, "specialUse"@) == Some(names(x.special_use@))
    &&& feature_requirement_list_from(j, "featureRequirement"@, x.feature_requirement)
    &&& bool_at(j, "ratified"@) == Some(x.ratified)
}

fn decode_extension(v: &Json, path: &Vec<String>) -> (r: Result<Extension, LoadError>)
    ensures
        r is Ok <==> fits_extension(*v),
        r matches Ok(x) ==> extension_from(*v, x),
        r is Err ==> r->Err_0 is Field,
{
    expect_object(v, path)?;
    Ok(
        Extension {
            name: text(v, "name", path)?,
            name_string: text(v, "nameString", path)?,
            spec_version: text(v, "specVersion", path)?,
            instance: flag(v, "instance", path)?,
            device: flag(v, "device", path)?,
            depends: opt_text(v, "depends", path)?,
            vendor_tag: opt_text(v, "vendorTag", path)?,
            platform: opt_text(v, "platform", path)?,
            protect: opt_text(v, "protect", path)?,
            provisional: flag(v, "provisional", path)?,
            promoted_to: opt_text(v, "promotedTo", path)?,
            deprecated_by: opt_text(v, "deprecatedBy", path)?,
            obsoleted_by: opt_text(v, "obsoletedBy", path)?,
            special_use: texts(v, "specialUse", path)?,
            feature_requirement: decode_feature_requirement_list(v, "featureRequirement", path)?,
            ratified: flag(v, "ratified", path)?,
            handles: Vec::new(),
            commands: Vec::new(),
            structs: Vec::new(),
            enums: Vec::new(),
            bitmasks: Vec::new(),
            flags: Vec::new(),
            enum_fields: Vec::new(),
            flag_bits: Vec::new(),
        },
    )
}

/// `j` is an object that holds every field of `Version`.
pub open spec fn fits_version(j: Json) -> bool {
    &&& j is Object
    &&& text_at(j, "name"@) is Some
    &&& text_at(j, "nameString"@) is Some
    &&& text_at(j, "nameApi"@) is Some
    &&& fits_feature_requirement_list(j, "featureRequirement"@)
}

/// `x` holds what object `j` holds.
pub open spec fn version_from(j: Json, x: Version) -> bool {
    &&& j is Object
    &&& text_at(j, "name"@) == Some(x.name@)
    &&& text_at(j, "nameString"@) == Some(x.name_string@)
    &&& text_at(j, "nameApi"@) == Some(x.name_api@)
    &&& feature_requirement_list_from(j, "featureRequirement"@, x.feature_requirement)
}

fn decode_version(v: &Json, path: &Vec<String>) -> (r: Result<Version, LoadError>)
    ensures
        r is Ok <==> fits_version(*v),
        r matches Ok(x) ==> version_from(*v, x),
        r is Err ==> r->Err_0 is Field,
{
    expect_object(v, path)?;
    Ok(
        Version {
            name: text(v, "name", path)?,
            name_string: text(v, "nameString", path)?,
            name_api: text(v, "nameApi", path)?,
            feature_requirement: decode_feature_requirement_list(v, "featureRequirement", path)?,
        },
    )
}

/// `j` is an object that holds every field of `Legacy`.
pub open spec fn fits_legacy(j: Json) -> bool {
    &&& j is Object
    &&& opt_text_fits(j, "link"@)
    &&& match present(j, "version"@) {
            Some(m) => fits_version(m),
            None => true,
        }
    &&& texts_at(j, "extensions"@) is Some
}

/// `x` holds what object `j` holds.
pub open spec fn legacy_from(j: Json, x: Legacy) -> bool {
    &&& j is Object
    &&& opt_text_from(j, "link"@, x.link)
    &&& match present(j, "version"@) {
            Some(m) => x.version matches Some(b) && version_from(m, *b),
            None => x.version is None,
        }
    &&& texts_at(j, "extensions"@) == Some(names(x.extensions@))
}

fn decode_legacy(v: &Json, path: &Vec<String>) -> (r: Result<Legacy, LoadError>)
    ensures
        r is Ok <==> fits_legacy(*v),
        r matches Ok(x) ==> legacy_from(*v, x),
        r is Err ==> r->Err_0 is Field,
{
    expect_object(v, path)?;
    Ok(
        Legacy {
            link: opt_text(v, "link", path)?,
            version: match opt_member(v, "version") {
                None => None,
                Some(m) => Some(Box::new(decode_version(m, &child(path, "version"))?)),
            },
            extensions: texts(v, "extensions", path)?,
        },
    )
}

/// `j` is an object that holds every field of `Handle`.
pub open spec fn fits_handle(j: Json, depth: nat) -> bool
    decreases depth,
{
    &&& j is Object
    &&& text_at(j, "name"@) is Some
    &&& texts_at(j, "aliases"@) is Some
    &&& text_at(j, "type"@) is Some
    &&& opt_text_fits(j, "protect"@)
    &&& match present(j, "parent"@) {
            Some(m) => depth > 0 && fits_handle(m, (depth - 1) as nat),
            None => true,
        }
    &&& bool_at(j, "instance"@) is Some
    &&& bool_at(j, "device"@) is Some
    &&& bool_at(j, "dispatchable"@) is Some
    &&& texts_at(j, "extensions"@) is Some
}

/// `x` holds what object `j` holds.
pub open spec fn handle_from(j: Json, x: Handle, depth: nat) -> bool
    decreases depth,
{
    &&& j is Object
    &&& text_at(j, "name"@) == Some(x.name@)
    &&& texts_at(j, "aliases"@) == Some(names(x.aliases@))
    &&& text_at(j, "type"@) == Some(x.type_@)
    &&& opt_text_from(j, "protect"@, x.protect)
    &&& match present(j, "parent"@) {
            Some(m) => x.parent matches Some(b) && depth > 0 && handle_from(m, *b, (depth - 1) as nat),
            None => x.parent is None,
        }
    &&& bool_at(j, "instance"@) == Some(x.instance)
    &&& bool_at(j, "device"@) == Some(x.device)
    &&& bool_at(j, "dispatchable"@) == Some(x.dispatchable)
    &&& texts_at(j, "extensions"@) == Some(names(x.extensions@))
}

fn decode_handle(v: &Json, path: &Vec<String>, depth: usize) -> (r: Result<Handle, LoadError>)
    ensures
        r is Ok <==> fits_handle(*v, depth as nat),
        r matches Ok(x) ==> handle_from(*v, x, depth as nat),
        r is Err ==> r->Err_0 is Field,
    decreases depth,
{
    expect_object(v, path)?;
    let parent = match opt_member(v, "parent") {
        None => None,
        Some(m) => {
            if depth == 0 {
                return Err(field_error(path, "parent", FieldProblem::TooDeep));
            }
            Some(Box::new(decode_handle(m, &child(path, "parent"), depth - 1)?))
        },
    };
    Ok(
        Handle {
            name: text(v, "name", path)?,
            aliases: texts(v, "aliases", path)?,
            type_: text(v, "type", path)?,
            protect: opt_text(v, "protect", path)?,
            parent: parent,
            instance: flag(v, "instance", path)?,
            device: flag(v, "device", path)?,
            dispatchable: flag(v, "dispatchable", path)?,
            extensions: texts(v, "extensions", path)?,
        },
    )
}

/// `j` is an object that holds every field of `Param`.
pub open spec fn fits_param(j: Json) -> bool {
    &&& j is Object
    &&& text_at(j, "name"@) is Some
    &&& opt_text_fits(j, "alias"@)
    &&& text_at(j, "type"@) is Some
    &&& text_at(j, "fullType"@) is Some
    &&& bool_at(j, "noAutoValidity"@) is Some
    &&& bool_at(j, "const"@) is Some
    &&& opt_text_fits(j, "length"@)
    &&& bool_at(j, "nullTerminated"@) is Some
    &&& bool_at(j, "pointer"@) is Some
    &&& texts_at(j, "fixedSizeArray"@) is Some
    &&& bool_at(j, "optional"@) is Some
    &&& bool_at(j, "optionalPointer"@) is Some
    &&& int_in(j, "externSync"@, 1, 5)
    &&& opt_text_fits(j, "externSyncPointer"@)
    &&& text_at(j, "cDeclaration"@) is Some
}

/// `x` holds what object `j` holds.
pub open spec fn param_from(j: Json, x: Param) -> bool {
    &&& j is Object
    &&& text_at(j, "name"@) == Some(x.name@)
    &&& opt_text_from(j, "alias"@, x.alias)
    &&& text_at(j, "type"@) == Some(x.type_@)
    &&& text_at(j, "fullType"@) == Some(x.full_type@)
    &&& bool_at(j, "noAutoValidity"@) == Some(x.no_auto_validity)
    &&& bool_at(j, "const"@) == Some(x.const_)
    &&& opt_text_from(j, "length"@, x.length)
    &&& bool_at(j, "nullTerminated"@) == Some(x.null_terminated)
    &&& bool_at(j, "pointer"@) == Some(x.pointer)
    &&& texts_at(j, "fixedSizeArray"@) == Some(names(x.fixed_size_array@))
    &&& bool_at(j, "optional"@) == Some(x.optional)
    &&& bool_at(j, "optionalPointer"@) == Some(x.optional_pointer)
    &&& int_at(j, "externSync"@) == Some(extern_sync_code(x.extern_sync) as int)
    &&& opt_text_from(j, "externSyncPointer"@, x.extern_sync_pointer)
    &&& text_at(j, "cDeclaration"@) == Some(x.c_declaration@)
}

fn decode_param(v: &Json, path: &Vec<String>) -> (r: Result<Param, LoadError>)
    ensures
        r is Ok <==> fits_param(*v),
        r matches Ok(x) ==> param_from(*v, x),
        r is Err ==> r->Err_0 is Field,
{
    expect_object(v, path)?;
    Ok(
        Param {
            name: text(v, "name", path)?,
            alias: opt_text(v, "alias", path)?,
            type_: text(v, "type", path)?,
            full_type: text(v, "fullType", path)?,
            no_auto_validity: flag(v, "noAutoValidity", path)?,
            const_: flag(v, "const", path)?,
            length: opt_text(v, "length", path)?,
            null_terminated: flag(v, "nullTerminated", path)?,
            pointer: flag(v, "pointer", path)?,
            fixed_size_array: texts(v, "fixedSizeArray", path)?,
            optional: flag(v, "optional", path)?,
            optional_pointer: flag(v, "optionalPointer", path)?,
            extern_sync: extern_sync(v, "externSync", path)?,
            extern_sync_pointer: opt_text(v, "externSyncPointer", path)?,
            c_declaration: text(v, "cDeclaration", path)?,
        },
    )
}

/// `j` is an object that holds every field of `Command`.
pub open spec fn fits_command(j: Json) -> bool {
    &&& j is Object
    &&& text_at(j, "name"@) is Some
    &&& opt_text_fits(j, "alias"@)
    &&& opt_text_fits(j, "protect"@)
    &&& texts_at(j, "extensions"@) is Some
    &&& match present(j, "version"@) {
            Some(m) => fits_version(m),
            None => true,
        }
    &&& text_at(j, "returnType"@) is Some
    &&& fits_param_list(j, "params"@)
    &&& bool_at(j, "instance"@) is Some
    &&& bool_at(j, "device"@) is Some
    &&& texts_at(j, "tasks"@) is Some
    &&& texts_at(j, "queues"@) is Some
    &&& bool_at(j, "allowNoQueues"@) is Some
    &&& texts_at(j, "successCodes"@) is Some
    &&& texts_at(j, "errorCodes"@) is Some
    &&& bool_at(j, "primary"@) is Some
    &&& bool_at(j, "secondary"@) is Some
    &&& int_in(j, "renderPass"@, 1, 4)
    &&& int_in(j, "videoCoding"@, 1, 4)
    &&& texts_at(j, "implicitExternSyncParams"@) is Some
    &&& match present(j, "legacy"@) {
            Some(m) => fits_legacy(m),
            None => true,
        }
    &&& text_at(j, "cPrototype"@) is Some
    &&& text_at(j, "cFunctionPointer"@) is Some
}

/// `x` holds what object `j` holds.
pub open spec fn command_from(j: Json, x: Command) -> bool {
    &&& j is Object
    &&& text_at(j, "name"@) == Some(x.name@)
    &&& opt_text_from(j, "alias"@, x.alias)
    &&& opt_text_from(j, "protect"@, x.protect)
    &&& texts_at(j, "extensions"@) == Some(names(x.extensions@))
    &&& match present(j, "version"@) {
            Some(m) => x.version matches Some(b) && version_from(m, *b),
            None => x.version is None,
        }
    &&& text_at(j, "returnType"@) == Some(x.return_type@)
    &&& param_list_from(j, "params"@, x.params)
    &&& bool_at(j, "instance"@) == Some(x.instance)
    &&& bool_at(j, "device"@) == Some(x.device)
    &&& texts_at(j, "tasks"@) == Some(names(x.tasks@))
    &&& texts_at(j, "queues"@) == Some(names(x.queues@))
    &&& bool_at(j, "allowNoQueues"@) == Some(x.allow_no_queues)
    &&& texts_at(j, "successCodes"@) == Some(names(x.success_codes@))
    &&& texts_at(j, "errorCodes"@) == Some(names(x.error_codes@))
    &&& bool_at(j, "primary"@) == Some(x.primary)
    &&& bool_at(j, "secondary"@) == Some(x.secondary)
    &&& int_at(j, "renderPass"@) == Some(command_scope_code(x.render_pass) as int)
    &&& int_at(j, "videoCoding"@) == Some(command_scope_code(x.video_coding) as int)
    &&& texts_at(j, "implicitExternSyncParams"@) == Some(names(x.implicit_extern_sync_params@))
    &&& match present(j, "legacy"@) {
            Some(m) => x.legacy matches Some(b) && legacy_from(m, *b),
            None => x.legacy is None,
        }
    &&& text_at(j, "cPrototype"@) == Some(x.c_prototype@)
    &&& text_at(j, "cFunctionPointer"@) == Some(x.c_function_pointer@)
}

fn decode_command(v: &Json, path: &Vec<String>) -> (r: Result<Command, LoadError>)
    ensures
        r is Ok <==> fits_command(*v),
        r matches Ok(x) ==> command_from(*v, x),
        r is Err ==> r->Err_0 is Field,
{
    expect_object(v, path)?;
    Ok(
        Command {
            name: text(v, "name", path)?,
            alias: opt_text(v, "alias", path)?,
            protect: opt_text(v, "protect", path)?,
            extensions: texts(v, "extensions", path)?,
            version: match opt_member(v, "version") {
                None => None,
                Some(m) => Some(Box::new(decode_version(m, &child(path, "version"))?)),
            },
            return_type: text(v, "returnType", path)?,
            params: decode_param_list(v, "params", path)?,
            instance: flag(v, "instance", path)?,
            device: flag(v, "device", path)?,
            tasks: texts(v, "tasks", path)?,
            queues: texts(v, "queues", path)?,
            allow_no_queues: flag(v, "allowNoQueues", path)?,
            success_codes: texts(v, "successCodes", path)?,
            error_codes: texts(v, "errorCodes", path)?,
            primary: flag(v, "primary", path)?,
            secondary: flag(v, "secondary", path)?,
            render_pass: command_scope(v, "renderPass", path)?,
            video_coding: command_scope(v, "videoCoding", path)?,
            implicit_extern_sync_params: texts(v, "implicitExternSyncParams", path)?,
            legacy: match opt_member(v, "legacy") {
                None => None,
                Some(m) => Some(Box::new(decode_legacy(m, &child(path, "legacy"))?)),
            },
            c_prototype: text(v, "cPrototype", path)?,
            c_function_pointer: text(v, "cFunctionPointer", path)?,
        },
    )
}

/// `j` is an object that holds every field of `Member`.
pub open spec fn fits_member(j: Json) -> bool {
    &&& j is Object
    &&& text_at(j, "name"@) is Some
    &&& text_at(j, "type"@) is Some
    &&& text_at(j, "fullType"@) is Some
    &&& bool_at(j, "noAutoValidity"@) is Some
    &&& opt_text_fits(j, "limitType"@)
    &&& bool_at(j, "const"@) is Some
    &&& opt_text_fits(j, "length"@)
    &&& bool_at(j, "nullTerminated"@) is Some
    &&& bool_at(j, "pointer"@) is Some
    &&& texts_at(j, "fixedSizeArray"@) is Some
    &&& bool_at(j, "optional"@) is Some
    &&& bool_at(j, "optionalPointer"@) is Some
    &&& int_in(j, "externSync"@, 1, 5)
    &&& text_at(j, "cDeclaration"@) is Some
    &&& opt_int32_fits(j, "bitFieldWidth"@)
    &&& opt_text_fits(j, "selector"@)
    &&& texts_at(j, "selection"@) is Some
}

/// `x` holds what object `j` holds.
pub open spec fn member_from(j: Json, x: Member) -> bool {
    &&& j is Object
    &&& text_at(j, "name"@) == Some(x.name@)
    &&& text_at(j, "type"@) == Some(x.type_@)
    &&& text_at(j, "fullType"@) == Some(x.full_type@)
    &&& bool_at(j, "noAutoValidity"@) == Some(x.no_auto_validity)
    &&& opt_text_from(j, "limitType"@, x.limit_type)
    &&& bool_at(j, "const"@) == Some(x.const_)
    &&& opt_text_from(j, "length"@, x.length)
    &&& bool_at(j, "nullTerminated"@) == Some(x.null_terminated)
    &&& bool_at(j, "pointer"@) == Some(x.pointer)
    &&& texts_at(j, "fixedSizeArray"@) == Some(names(x.fixed_size_array@))
    &&& bool_at(j, "optional"@) == Some(x.optional)
    &&& bool_at(j, "optionalPointer"@) == Some(x.optional_pointer)
    &&& int_at(j, "externSync"@) == Some(extern_sync_code(x.extern_sync) as int)
    &&& text_at(j, "cDeclaration"@) == Some(x.c_declaration@)
    &&& opt_int32_from(j, "bitFieldWidth"@, x.bit_field_width)
    &&& opt_text_from(j, "selector"@, x.selector)
    &&& texts_at(j, "selection"@) == Some(names(x.selection@))
}

fn decode_member(v: &Json, path: &Vec<String>) -> (r: Result<Member, LoadError>)
    ensures
        r is Ok <==> fits_member(*v),
        r matches Ok(x) ==> member_from(*v, x),
        r is Err ==> r->Err_0 is Field,
{
    expect_object(v, path)?;
    Ok(
        Member {
            name: text(v, "name", path)?,
            type_: text(v, "type", path)?,
            full_type: text(v, "fullType", path)?,
            no_auto_validity: flag(v, "noAutoValidity", path)?,
            limit_type: opt_text(v, "limitType", path)?,
            const_: flag(v, "const", path)?,
            length: opt_text(v, "length", path)?,
            null_terminated: flag(v, "nullTerminated", path)?,
            pointer: flag(v, "pointer", path)?,
            fixed_size_array: texts(v, "fixedSizeArray", path)?,
            optional: flag(v, "optional", path)?,
            optional_pointer: flag(v, "optionalPointer", path)?,
            extern_sync: extern_sync(v, "externSync", path)?,
            c_declaration: text(v, "cDeclaration", path)?,
            bit_field_width: opt_int32(v, "bitFieldWidth", path)?,
            selector: opt_text(v, "selector", path)?,
            selection: texts(v, "selection", path)?,
        },
    )
}

/// `j` is an object that holds every field of `Struct`.
pub open spec fn fits_struct(j: Json) -> bool {
    &&& j is Object
    &&& text_at(j, "name"@) is Some
    &&& texts_at(j, "aliases"@) is Some
    &&& texts_at(j, "extensions"@) is Some
    &&& match present(j, "version"@) {
            Some(m) => fits_version(m),
            None => true,
        }
    &&& opt_text_fits(j, "protect"@)
    &&& fits_member_list(j, "members"@)
    &&& bool_at(j, "union"@) is Some
    &&& bool_at(j, "returnedOnly"@) is Some
    &&& opt_text_fits(j, "sType"@)
    &&& bool_at(j, "allowDuplicate"@) is Some
    &&& texts_at(j, "extends"@) is Some
    &&& texts_at(j, "extendedBy"@) is Some
    &&& opt_text_fits(j, "videoStdHeader"@)
}

/// `x` holds what object `j` holds.
pub open spec fn struct_from(j: Json, x: Struct) -> bool {
    &&& j is Object
    &&& text_at(j, "name"@) == Some(x.name@)
    &&& texts_at(j, "aliases"@) == Some(names(x.aliases@))
    &&& texts_at(j, "extensions"@) == Some(names(x.extensions@))
    &&& match present(j, "version"@) {
            Some(m) => x.version matches Some(b) && version_from(m, *b),
            None => x.version is None,
        }
    &&& opt_text_from(j, "protect"@, x.protect)
    &&& member_list_from(j, "members"@, x.members)
    &&& bool_at(j, "union"@) == Some(x.union)
    &&& bool_at(j, "returnedOnly"@) == Some(x.returned_only)
    &&& opt_text_from(j, "sType"@, x.s_type)
    &&& bool_at(j, "allowDuplicate"@) == Some(x.allow_duplicate)
    &&& texts_at(j, "extends"@) == Some(names(x.extends@))
    &&& texts_at(j, "extendedBy"@) == Some(names(x.extended_by@))
    &&& opt_text_from(j, "videoStdHeader"@, x.video_std_header)
}

fn decode_struct(v: &Json, path: &Vec<String>) -> (r: Result<Struct, LoadError>)
    ensures
        r is Ok <==> fits_struct(*v),
        r matches Ok(x) ==> struct_from(*v, x),
        r is Err ==> r->Err_0 is Field,
{
    expect_object(v, path)?;
    Ok(
        Struct {
            name: text(v, "name", path)?,
            aliases: texts(v, "aliases", path)?,
            extensions: texts(v, "extensions", path)?,
            version: match opt_member(v, "version") {
                None => None,
                Some(m) => Some(Box::new(decode_version(m, &child(path, "version"))?)),
            },
            protect: opt_text(v, "protect", path)?,
            members: decode_member_list(v, "members", path)?,
            union: flag(v, "union", path)?,
            returned_only: flag(v, "returnedOnly", path)?,
            s_type: opt_text(v, "sType", path)?,
            allow_duplicate: flag(v, "allowDuplicate", path)?,
            extends: texts(v, "extends", path)?,
            extended_by: texts(v, "extendedBy", path)?,
            video_std_header: opt_text(v, "videoStdHeader", path)?,
        },
    )
}

/// `j` is an object that holds every field of `EnumField`.
pub open spec fn fits_enum_field(j: Json) -> bool {
    &&& j is Object
    &&& text_at(j, "name"@) is Some
    &&& texts_at(j, "aliases"@) is Some
    &&& opt_text_fits(j, "protect"@)
    &&& bool_at(j, "negative"@) is Some
    &&& int_in(j, "value"@, i64::MIN as int, i64::MAX as int)
    &&& text_at(j, "valueStr"@) is Some
    &&& texts_at(j, "extensions"@) is Some
}

/// `x` holds what object `j` holds.
pub open spec fn enum_field_from(j: Json, x: EnumField) -> bool {
    &&& j is Object
    &&& text_at(j, "name"@) == Some(x.name@)
    &&& texts_at(j, "aliases"@) == Some(names(x.aliases@))
    &&& opt_text_from(j, "protect"@, x.protect)
    &&& bool_at(j, "negative"@) == Some(x.negative)
    &&& int_at(j, "value"@) == Some(x.value as int)
    &&& text_at(j, "valueStr"@) == Some(x.value_str@)
    &&& texts_at(j, "extensions"@) == Some(names(x.extensions@))
}

fn decode_enum_field(v: &Json, path: &Vec<String>) -> (r: Result<EnumField, LoadError>)
    ensures
        r is Ok <==> fits_enum_field(*v),
        r matches Ok(x) ==> enum_field_from(*v, x),
        r is Err ==> r->Err_0 is Field,
{
    expect_object(v, path)?;
    Ok(
        EnumField {
            name: text(v, "name", path)?,
            aliases: texts(v, "aliases", path)?,
            protect: opt_text(v, "protect", path)?,
            negative: flag(v, "negative", path)?,
            value: int64(v, "value", path)?,
            value_str: text(v, "valueStr", path)?,
            extensions: texts(v, "extensions", path)?,
        },
    )
}

/// `j` is an object that holds every field of `Enum`.
pub open spec fn fits_enum(j: Json) -> bool {
    &&& j is Object
    &&& text_at(j, "name"@) is Some
    &&& texts_at(j, "aliases"@) is Some
    &&& opt_text_fits(j, "protect"@)
    &&& int_in(j, "bitWidth"@, i32::MIN as int, i32::MAX as int)
    &&& bool_at(j, "returnedOnly"@) is Some
    &&& fits_enum_field_list(j, "fields"@)
    &&& texts_at(j, "extensions"@) is Some
    &&& texts_at(j, "fieldExtensions"@) is Some
    &&& opt_text_fits(j, "videoStdHeader"@)
}

/// `x` holds what object `j` holds.
pub open spec fn enum_from(j: Json, x: Enum) -> bool {
    &&& j is Object
    &&& text_at(j, "name"@) == Some(x.name@)
    &&& texts_at(j, "aliases"@) == Some(names(x.aliases@))
    &&& opt_text_from(j, "protect"@, x.protect)
    &&& int_at(j, "bitWidth"@) == Some(x.bit_width as int)
    &&& bool_at(j, "returnedOnly"@) == Some(x.returned_only)
    &&& enum_field_list_from(j, "fields"@, x.fields)
    &&& texts_at(j, "extensions"@) == Some(names(x.extensions@))
    &&& texts_at(j, "fieldExtensions"@) == Some(names(x.field_extensions@))
    &&& opt_text_from(j, "videoStdHeader"@, x.video_std_header)
}

fn decode_enum(v: &Json, path: &Vec<String>) -> (r: Result<Enum, LoadError>)
    ensures
        r is Ok <==> fits_enum(*v),
        r matches Ok(x) ==> enum_from(*v, x),
        r is Err ==> r->Err_0 is Field,
{
    expect_object(v, path)?;
    Ok(
        Enum {
            name: text(v, "name", path)?,
            aliases: texts(v, "aliases", path)?,
            protect: opt_text(v, "protect", path)?,
            bit_width: int32(v, "bitWidth", path)?,
            returned_only: flag(v, "returnedOnly", path)?,
            fields: decode_enum_field_list(v, "fields", path)?,
            extensions: texts(v, "extensions", path)?,
            field_extensions: texts(v, "fieldExtensions", path)?,
            video_std_header: opt_text(v, "videoStdHeader", path)?,
        },
    )
}

/// `j` is an object that holds every field of `Flag`.
pub open spec fn fits_flag(j: Json) -> bool {
    &&& j is Object
    &&& text_at(j, "name"@) is Some
    &&& opt_texts_fits(j, "aliases"@)
    &&& opt_text_fits(j, "protect"@)
    &&& int_in(j, "value"@, 0, u64::MAX as int)
    &&& text_at(j, "valueStr"@) is Some
    &&& bool_at(j, "multiBit"@) is Some
    &&& bool_at(j, "zero"@) is Some
    &&& texts_at(j, "extensions"@) is Some
}

/// `x` holds what object `j` holds.
pub open spec fn flag_from(j: Json, x: Flag) -> bool {
    &&& j is Object
    &&& text_at(j, "name"@) == Some(x.name@)
    &&& opt_texts_from(j, "aliases"@, x.aliases)
    &&& opt_text_from(j, "protect"@, x.protect)
    &&& int_at(j, "value"@) == Some(x.value as int)
    &&& text_at(j, "valueStr"@) == Some(x.value_str@)
    &&& bool_at(j, "multiBit"@) == Some(x.multi_bit)
    &&& bool_at(j, "zero"@) == Some(x.zero)
    &&& texts_at(j, "extensions"@) == Some(names(x.extensions@))
}

fn decode_flag(v: &Json, path: &Vec<String>) -> (r: Result<Flag, LoadError>)
    ensures
        r is Ok <==> fits_flag(*v),
        r matches Ok(x) ==> flag_from(*v, x),
        r is Err ==> r->Err_0 is Field,
{
    expect_object(v, path)?;
    Ok(
        Flag {
            name: text(v, "name", path)?,
            aliases: opt_texts(v, "aliases", path)?,
            protect: opt_text(v, "protect", path)?,
            value: uint64(v, "value", path)?,
            value_str: text(v, "valueStr", path)?,
            multi_bit: flag(v, "multiBit", path)?,
            zero: flag(v, "zero", path)?,
            extensions: texts(v, "extensions", path)?,
        },
    )
}

/// `j` is an object that holds every field of `Bitmask`.
pub open spec fn fits_bitmask(j: Json) -> bool {
    &&& j is Object
    &&& text_at(j, "name"@) is Some
    &&& texts_at(j, "aliases"@) is Some
    &&& text_at(j, "flagName"@) is Some
    &&& opt_text_fits(j, "protect"@)
    &&& int_in(j, "bitWidth"@, i32::MIN as int, i32::MAX as int)
    &&& bool_at(j, "returnedOnly"@) is Some
    &&& fits_flag_list(j, "flags"@)
    &&& texts_at(j, "extensions"@) is Some
    &&& texts_at(j, "flagExtensions"@) is Some
}

/// `x` holds what object `j` holds.
pub open spec fn bitmask_from(j: Json, x: Bitmask) -> bool {
    &&& j is Object
    &&& text_at(j, "name"@) == Some(x.name@)
    &&& texts_at(j, "aliases"@) == Some(names(x.aliases@))
    &&& text_at(j, "flagName"@) == Some(x.flag_name@)
    &&& opt_text_from(j, "protect"@, x.protect)
    &&& int_at(j, "bitWidth"@) == Some(x.bit_width as int)
    &&& bool_at(j, "returnedOnly"@) == Some(x.returned_only)
    &&& flag_list_from(j, "flags"@, x.flags)
    &&& texts_at(j, "extensions"@) == Some(names(x.extensions@))
    &&& texts_at(j, "flagExtensions"@) == Some(names(x.flag_extensions@))
}

fn decode_bitmask(v: &Json, path: &Vec<String>) -> (r: Result<Bitmask, LoadError>)
    ensures
        r is Ok <==> fits_bitmask(*v),
        r matches Ok(x) ==> bitmask_from(*v, x),
        r is Err ==> r->Err_0 is Field,
{
    expect_object(v, path)?;
    Ok(
        Bitmask {
            name: text(v, "name", path)?,
            aliases: texts(v, "aliases", path)?,
            flag_name: text(v, "flagName", path)?,
            protect: opt_text(v, "protect", path)?,
            bit_width: int32(v, "bitWidth", path)?,
            returned_only: flag(v, "returnedOnly", path)?,
            flags: decode_flag_list(v, "flags", path)?,
            extensions: texts(v, "extensions", path)?,
            flag_extensions: texts(v, "flagExtensions", path)?,
        },
    )
}

/// `j` is an object that holds every field of `Flags`.
pub open spec fn fits_flags(j: Json) -> bool {
    &&& j is Object
    &&& text_at(j, "name"@) is Some
    &&& texts_at(j, "aliases"@) is Some
    &&& opt_text_fits(j, "bitmaskName"@)
    &&& opt_text_fits(j, "protect"@)
    &&& text_at(j, "baseFlagsType"@) is Some
    &&& int_in(j, "bitWidth"@, i32::MIN as int, i32::MAX as int)
    &&& bool_at(j, "returnedOnly"@) is Some
    &&& texts_at(j, "extensions"@) is Some
}

/// `x` holds what object `j` holds.
pub open spec fn flags_from(j: Json, x: Flags) -> bool {
    &&& j is Object
    &&& text_at(j, "name"@) == Some(x.name@)
    &&& texts_at(j, "aliases"@) == Some(names(x.aliases@))
    &&& opt_text_from(j, "bitmaskName"@, x.bitmask_name)
    &&& opt_text_from(j, "protect"@, x.protect)
    &&& text_at(j, "baseFlagsType"@) == Some(x.base_flags_type@)
    &&& int_at(j, "bitWidth"@) == Some(x.bit_width as int)
    &&& bool_at(j, "returnedOnly"@) == Some(x.returned_only)
    &&& texts_at(j, "extensions"@) == Some(names(x.extensions@))
}

fn decode_flags(v: &Json, path: &Vec<String>) -> (r: Result<Flags, LoadError>)
    ensures
        r is Ok <==> fits_flags(*v),
        r matches Ok(x) ==> flags_from(*v, x),
        r is Err ==> r->Err_0 is Field,
{
    expect_object(v, path)?;
    Ok(
        Flags {
            name: text(v, "name", path)?,
            aliases: texts(v, "aliases", path)?,
            bitmask_name: opt_text(v, "bitmaskName", path)?,
            protect: opt_text(v, "protect", path)?,
            base_flags_type: text(v, "baseFlagsType", path)?,
            bit_width: int32(v, "bitWidth", path)?,
            returned_only: flag(v, "returnedOnly", path)?,
            extensions: texts(v, "extensions", path)?,
        },
    )
}

/// `j` is an object that holds every field of `Constant`.
pub open spec fn fits_constant(j: Json) -> bool {
    &&& j is Object
    &&& text_at(j, "name"@) is Some
    &&& text_at(j, "type"@) is Some
    &&& constant_value_fits(j, "value"@)
    &&& text_at(j, "valueStr"@) is Some
    &&& opt_text_fits(j, "videoStdHeader"@)
}

/// `x` holds what object `j` holds.
pub open spec fn constant_from(j: Json, x: Constant) -> bool {
    &&& j is Object
    &&& text_at(j, "name"@) == Some(x.name@)
    &&& text_at(j, "type"@) == Some(x.type_@)
    &&& constant_value_from(j, "value"@, x.value)
    &&& text_at(j, "valueStr"@) == Some(x.value_str@)
    &&& opt_text_from(j, "videoStdHeader"@, x.video_std_header)
}

fn decode_constant(v: &Json, path: &Vec<String>) -> (r: Result<Constant, LoadError>)
    ensures
        r is Ok <==> fits_constant(*v),
        r matches Ok(x) ==> constant_from(*v, x),
        r is Err ==> r->Err_0 is Field,
{
    expect_object(v, path)?;
    Ok(
        Constant {
            name: text(v, "name", path)?,
            type_: text(v, "type", path)?,
            value: constant_value(v, "value", path)?,
            value_str: text(v, "valueStr", path)?,
            video_std_header: opt_text(v, "videoStdHeader", path)?,
        },
    )
}

/// `j` is an object that holds every field of `FormatComponent`.
pub open spec fn fits_format_component(j: Json) -> bool {
    &&& j is Object
    &&& text_at(j, "type"@) is Some
    &&& text_at(j, "bits"@) is Some
    &&& text_at(j, "numericFormat"@) is Some
    &&& opt_int32_fits(j, "planeIndex"@)
}

/// `x` holds what object `j` holds.
pub open spec fn format_component_from(j: Json, x: FormatComponent) -> bool {
    &&& j is Object
    &&& text_at(j, "type"@) == Some(x.type_@)
    &&& text_at(j, "bits"@) == Some(x.bits@)
    &&& text_at(j, "numericFormat"@) == Some(x.numeric_format@)
    &&& opt_int32_from(j, "planeIndex"@, x.plane_index)
}

fn decode_format_component(v: &Json, path: &Vec<String>) -> (r: Result<FormatComponent, LoadError>)
    ensures
        r is Ok <==> fits_format_component(*v),
        r matches Ok(x) ==> format_component_from(*v, x),
        r is Err ==> r->Err_0 is Field,
{
    expect_object(v, path)?;
    Ok(
        FormatComponent {
            type_: text(v, "type", path)?,
            bits: text(v, "bits", path)?,
            numeric_format: text(v, "numericFormat", path)?,
            plane_index: opt_int32(v, "planeIndex", path)?,
        },
    )
}

/// `j` is an object that holds every field of `FormatPlane`.
pub open spec fn fits_format_plane(j: Json) -> bool {
    &&& j is Object
    &&& int_in(j, "index"@, i32::MIN as int, i32::MAX as int)
    &&& int_in(j, "widthDivisor"@, i32::MIN as int, i32::MAX as int)
    &&& int_in(j, "heightDivisor"@, i32::MIN as int, i32::MAX as int)
    &&& text_at(j, "compatible"@) is Some
}

/// `x` holds what object `j` holds.
pub open spec fn format_plane_from(j: Json, x: FormatPlane) -> bool {
    &&& j is Object
    &&& int_at(j, "index"@) == Some(x.index as int)
    &&& int_at(j, "widthDivisor"@) == Some(x.width_divisor as int)
    &&& int_at(j, "heightDivisor"@) == Some(x.height_divisor as int)
    &&& text_at(j, "compatible"@) == Some(x.compatible@)
}

fn decode_format_plane(v: &Json, path: &Vec<String>) -> (r: Result<FormatPlane, LoadError>)
    ensures
        r is Ok <==> fits_format_plane(*v),
        r matches Ok(x) ==> format_plane_from(*v, x),
        r is Err ==> r->Err_0 is Field,
{
    expect_object(v, path)?;
    Ok(
        FormatPlane {
            index: int32(v, "index", path)?,
            width_divisor: int32(v, "widthDivisor", path)?,
            height_divisor: int32(v, "heightDivisor", path)?,
            compatible: text(v, "compatible", path)?,
        },
    )
}

/// `j` is an object that holds every field of `Format`.
pub open spec fn fits_format(j: Json) -> bool {
    &&& j is Object
    &&& text_at(j, "name"@) is Some
    &&& text_at(j, "className"@) is Some
    &&& int_in(j, "blockSize"@, i32::MIN as int, i32::MAX as int)
    &&& int_in(j, "texelsPerBlock"@, i32::MIN as int, i32::MAX as int)
    &&& texts_at(j, "blockExtent"@) is Some
    &&& opt_int32_fits(j, "packed"@)
    &&& opt_text_fits(j, "chroma"@)
    &&& opt_text_fits(j, "compressed"@)
    &&& fits_format_component_list(j, "components"@)
    &&& fits_format_plane_list(j, "planes"@)
    &&& opt_text_fits(j, "spirvImageFormat"@)
}

/// `x` holds what object `j` holds.
pub open spec fn format_from(j: Json, x: Format) -> bool {
    &&& j is Object
    &&& text_at(j, "name"@) == Some(x.name@)
    &&& text_at(j, "className"@) == Some(x.class_name@)
    &&& int_at(j, "blockSize"@) == Some(x.block_size as int)
    &&& int_at(j, "texelsPerBlock"@) == Some(x.texels_per_block as int)
    &&& texts_at(j, "blockExtent"@) == Some(names(x.block_extent@))
    &&& opt_int32_from(j, "packed"@, x.packed)
    &&& opt_text_from(j, "chroma"@, x.chroma)
    &&& opt_text_from(j, "compressed"@, x.compressed)
    &&& format_component_list_from(j, "components"@, x.components)
    &&& format_plane_list_from(j, "planes"@, x.planes)
    &&& opt_text_from(j, "spirvImageFormat"@, x.spirv_image_format)
}

fn decode_format(v: &Json, path: &Vec<String>) -> (r: Result<Format, LoadError>)
    ensures
        r is Ok <==> fits_format(*v),
        r matches Ok(x) ==> format_from(*v, x),
        r is Err ==> r->Err_0 is Field,
{
    expect_object(v, path)?;
    Ok(
        Format {
            name: text(v, "name", path)?,
            class_name: text(v, "className", path)?,
            block_size: int32(v, "blockSize", path)?,
            texels_per_block: int32(v, "texelsPerBlock", path)?,
            block_extent: texts(v, "blockExtent", path)?,
            packed: opt_int32(v, "packed", path)?,
            chroma: opt_text(v, "chroma", path)?,
            compressed: opt_text(v, "compressed", path)?,
            components: decode_format_component_list(v, "components", path)?,
            planes: decode_format_plane_list(v, "planes", path)?,
            spirv_image_format: opt_text(v, "spirvImageFormat", path)?,
        },
    )
}

/// `j` is an object that holds every field of `SyncSupport`.
pub open spec fn fits_sync_support(j: Json) -> bool {
    &&& j is Object
    &&& opt_texts_fits(j, "queues"@)
    &&& match present(j, "stages"@) {
            Some(_) => fits_flag_list(j, "stages"@),
            None => true,
        }
    &&& bool_at(j, "max"@) is Some
}

/// `x` holds what object `j` holds.
pub open spec fn sync_support_from(j: Json, x: SyncSupport) -> bool {
    &&& j is Object
    &&& opt_texts_from(j, "queues"@, x.queues)
    &&& match present(j, "stages"@) {
            Some(_) => x.stages matches Some(xs) && flag_list_from(j, "stages"@, xs),
            None => x.stages is None,
        }
    &&& bool_at(j, "max"@) == Some(x.max)
}

fn decode_sync_support(v: &Json, path: &Vec<String>) -> (r: Result<SyncSupport, LoadError>)
    ensures
        r is Ok <==> fits_sync_support(*v),
        r matches Ok(x) ==> sync_support_from(*v, x),
        r is Err ==> r->Err_0 is Field,
{
    expect_object(v, path)?;
    Ok(
        SyncSupport {
            queues: opt_texts(v, "queues", path)?,
            stages: match opt_member(v, "stages") {
                None => None,
                Some(_) => Some(decode_flag_list(v, "stages", path)?),
            },
            max: flag(v, "max", path)?,
        },
    )
}

/// `j` is an object that holds every field of `SyncEquivalent`.
pub open spec fn fits_sync_equivalent(j: Json) -> bool {
    &&& j is Object
    &&& match present(j, "stages"@) {
            Some(_) => fits_flag_list(j, "stages"@),
            None => true,
        }
    &&& match present(j, "accesses"@) {
            Some(_) => fits_flag_list(j, "accesses"@),
            None => true,
        }
    &&& bool_at(j, "max"@) is Some
}

/// `x` holds what object `j` holds.
pub open spec fn sync_equivalent_from(j: Json, x: SyncEquivalent) -> bool {
    &&& j is Object
    &&& match present(j, "stages"@) {
            Some(_) => x.stages matches Some(xs) && flag_list_from(j, "stages"@, xs),
            None => x.stages is None,
        }
    &&& match present(j, "accesses"@) {
            Some(_) => x.accesses matches Some(xs) && flag_list_from(j, "accesses"@, xs),
            None => x.accesses is None,
        }
    &&& bool_at(j, "max"@) == Some(x.max)
}

fn decode_sync_equivalent(v: &Json, path: &Vec<String>) -> (r: Result<SyncEquivalent, LoadError>)
    ensures
        r is Ok <==> fits_sync_equivalent(*v),
        r matches Ok(x) ==> sync_equivalent_from(*v, x),
        r is Err ==> r->Err_0 is Field,
{
    expect_object(v, path)?;
    Ok(
        SyncEquivalent {
            stages: match opt_member(v, "stages") {
                None => None,
                Some(_) => Some(decode_flag_list(v, "stages", path)?),
            },
            accesses: match opt_member(v, "accesses") {
                None => None,
                Some(_) => Some(decode_flag_list(v, "accesses", path)?),
            },
            max: flag(v, "max", path)?,
        },
    )
}

/// `j` is an object that holds every field of `SyncStage`.
pub open spec fn fits_sync_stage(j: Json) -> bool {
    &&& j is Object
    &&& member_of(j, "flag"@) matches Some(m) && fits_flag(m)
    &&& member_of(j, "support"@) matches Some(m) && fits_sync_support(m)
    &&& member_of(j, "equivalent"@) matches Some(m) && fits_sync_equivalent(m)
}

/// `x` holds what object `j` holds.
pub open spec fn sync_stage_from(j: Json, x: SyncStage) -> bool {
    &&& j is Object
    &&& member_of(j, "flag"@) matches Some(m) && flag_from(m, x.flag)
    &&& member_of(j, "support"@) matches Some(m) && sync_support_from(m, x.support)
    &&& member_of(j, "equivalent"@) matches Some(m) && sync_equivalent_from(m, x.equivalent)
}

fn decode_sync_stage(v: &Json, path: &Vec<String>) -> (r: Result<SyncStage, LoadError>)
    ensures
        r is Ok <==> fits_sync_stage(*v),
        r matches Ok(x) ==> sync_stage_from(*v, x),
        r is Err ==> r->Err_0 is Field,
{
    expect_object(v, path)?;
    Ok(
        SyncStage {
            flag: decode_flag(required(v, "flag", path)?, &child(path, "flag"))?,
            support: decode_sync_support(required(v, "support", path)?, &child(path, "support"))?,
            equivalent: decode_sync_equivalent(required(v, "equivalent", path)?, &child(path, "equivalent"))?,
        },
    )
}

/// `j` is an object that holds every field of `SyncAccess`.
pub open spec fn fits_sync_access(j: Json) -> bool {
    &&& j is Object
    &&& member_of(j, "flag"@) matches Some(m) && fits_flag(m)
    &&& member_of(j, "support"@) matches Some(m) && fits_sync_support(m)
    &&& member_of(j, "equivalent"@) matches Some(m) && fits_sync_equivalent(m)
}

/// `x` holds what object `j` holds.
pub open spec fn sync_access_from(j: Json, x: SyncAccess) -> bool {
    &&& j is Object
    &&& member_of(j, "flag"@) matches Some(m) && flag_from(m, x.flag)
    &&& member_of(j, "support"@) matches Some(m) && sync_support_from(m, x.support)
    &&& member_of(j, "equivalent"@) matches Some(m) && sync_equivalent_from(m, x.equivalent)
}

fn decode_sync_access(v: &Json, path: &Vec<String>) -> (r: Result<SyncAccess, LoadError>)
    ensures
        r is Ok <==> fits_sync_access(*v),
        r matches Ok(x) ==> sync_access_from(*v, x),
        r is Err ==> r->Err_0 is Field,
{
    expect_object(v, path)?;
    Ok(
        SyncAccess {
            flag: decode_flag(required(v, "flag", path)?, &child(path, "flag"))?,
            support: decode_sync_support(required(v, "support", path)?, &child(path, "support"))?,
            equivalent: decode_sync_equivalent(required(v, "equivalent", path)?, &child(path, "equivalent"))?,
        },
    )
}

/// `j` is an object that holds every field of `SyncPipelineStage`.
pub open spec fn fits_sync_pipeline_stage(j: Json) -> bool {
    &&& j is Object
    &&& opt_text_fits(j, "order"@)
    &&& opt_text_fits(j, "before"@)
    &&& opt_text_fits(j, "after"@)
    &&& text_at(j, "value"@) is Some
}

/// `x` holds what object `j` holds.
pub open spec fn sync_pipeline_stage_from(j: Json, x: SyncPipelineStage) -> bool {
    &&& j is Object
    &&& opt_text_from(j, "order"@, x.order)
    &&& opt_text_from(j, "before"@, x.before)
    &&& opt_text_from(j, "after"@, x.after)
    &&& text_at(j, "value"@) == Some(x.value@)
}

fn decode_sync_pipeline_stage(v: &Json, path: &Vec<String>) -> (r: Result<SyncPipelineStage, LoadError>)
    ensures
        r is Ok <==> fits_sync_pipeline_stage(*v),
        r matches Ok(x) ==> sync_pipeline_stage_from(*v, x),
        r is Err ==> r->Err_0 is Field,
{
    expect_object(v, path)?;
    Ok(
        SyncPipelineStage {
            order: opt_text(v, "order", path)?,
            before: opt_text(v, "before", path)?,
            after: opt_text(v, "after", path)?,
            value: text(v, "value", path)?,
        },
    )
}

/// `j` is an object that holds every field of `SyncPipeline`.
pub open spec fn fits_sync_pipeline(j: Json) -> bool {
    &&& j is Object
    &&& text_at(j, "name"@) is Some
    &&& texts_at(j, "depends"@) is Some
    &&& fits_sync_pipeline_stage_list(j, "stages"@)
}

/// `x` holds what object `j` holds.
pub open spec fn sync_pipeline_from(j: Json, x: SyncPipeline) -> bool {
    &&& j is Object
    &&& text_at(j, "name"@) == Some(x.name@)
    &&& texts_at(j, "depends"@) == Some(names(x.depends@))
    &&& sync_pipeline_stage_list_from(j, "stages"@, x.stages)
}

fn decode_sync_pipeline(v: &Json, path: &Vec<String>) -> (r: Result<SyncPipeline, LoadError>)
    ensures
        r is Ok <==> fits_sync_pipeline(*v),
        r matches Ok(x) ==> sync_pipeline_from(*v, x),
        r is Err ==> r->Err_0 is Field,
{
    expect_object(v, path)?;
    Ok(
        SyncPipeline {
            name: text(v, "name", path)?,
            depends: texts(v, "depends", path)?,
            stages: decode_sync_pipeline_stage_list(v, "stages", path)?,
        },
    )
}

/// `j` is an object that holds every field of `SpirvEnables`.
pub open spec fn fits_spirv_enables(j: Json) -> bool {
    &&& j is Object
    &&& opt_text_fits(j, "version"@)
    &&& opt_text_fits(j, "extension"@)
    &&& opt_text_fits(j, "struct"@)
    &&& opt_text_fits(j, "feature"@)
    &&& opt_text_fits(j, "requires"@)
    &&& opt_text_fits(j, "property"@)
    &&& opt_text_fits(j, "member"@)
    &&& opt_text_fits(j, "value"@)
}

/// `x` holds what object `j` holds.
pub open spec fn spirv_enables_from(j: Json, x: SpirvEnables) -> bool {
    &&& j is Object
    &&& opt_text_from(j, "version"@, x.version)
    &&& opt_text_from(j, "extension"@, x.extension)
    &&& opt_text_from(j, "struct"@, x.struct_)
    &&& opt_text_from(j, "feature"@, x.feature)
    &&& opt_text_from(j, "requires"@, x.requires)
    &&& opt_text_from(j, "property"@, x.property)
    &&& opt_text_from(j, "member"@, x.member)
    &&& opt_text_from(j, "value"@, x.value)
}

fn decode_spirv_enables(v: &Json, path: &Vec<String>) -> (r: Result<SpirvEnables, LoadError>)
    ensures
        r is Ok <==> fits_spirv_enables(*v),
        r matches Ok(x) ==> spirv_enables_from(*v, x),
        r is Err ==> r->Err_0 is Field,
{
    expect_object(v, path)?;
    Ok(
        SpirvEnables {
            version: opt_text(v, "version", path)?,
            extension: opt_text(v, "extension", path)?,
            struct_: opt_text(v, "struct", path)?,
            feature: opt_text(v, "feature", path)?,
            requires: opt_text(v, "requires", path)?,
            property: opt_text(v, "property", path)?,
            member: opt_text(v, "member", path)?,
            value: opt_text(v, "value", path)?,
        },
    )
}

/// `j` is an object that holds every field of `Spirv`.
pub open spec fn fits_spirv(j: Json) -> bool {
    &&& j is Object
    &&& text_at(j, "name"@) is Some
    &&& bool_at(j, "extension"@) is Some
    &&& bool_at(j, "capability"@) is Some
    &&& fits_spirv_enables_list(j, "enable"@)
}

/// `x` holds what object `j` holds.
pub open spec fn spirv_from(j: Json, x: Spirv) -> bool {
    &&& j is Object
    &&& text_at(j, "name"@) == Some(x.name@)
    &&& bool_at(j, "extension"@) == Some(x.extension)
    &&& bool_at(j, "capability"@) == Some(x.capability)
    &&& spirv_enables_list_from(j, "enable"@, x.enable)
}

fn decode_spirv(v: &Json, path: &Vec<String>) -> (r: Result<Spirv, LoadError>)
    ensures
        r is Ok <==> fits_spirv(*v),
        r matches Ok(x) ==> spirv_from(*v, x),
        r is Err ==> r->Err_0 is Field,
{
    expect_object(v, path)?;
    Ok(
        Spirv {
            name: text(v, "name", path)?,
            extension: flag(v, "extension", path)?,
            capability: flag(v, "capability", path)?,
            enable: decode_spirv_enables_list(v, "enable", path)?,
        },
    )
}

/// `j` is an object that holds every field of `VideoRequiredCapabilities`.
pub open spec fn fits_video_required_capabilities(j: Json) -> bool {
    &&& j is Object
    &&& text_at(j, "struct"@) is Some
    &&& text_at(j, "member"@) is Some
    &&& text_at(j, "value"@) is Some
}

/// `x` holds what object `j` holds.
pub open spec fn video_required_capabilities_from(j: Json, x: VideoRequiredCapabilities) -> bool {
    &&& j is Object
    &&& text_at(j, "struct"@) == Some(x.struct_@)
    &&& text_at(j, "member"@) == Some(x.member@)
    &&& text_at(j, "value"@) == Some(x.value@)
}

fn decode_video_required_capabilities(v: &Json, path: &Vec<String>) -> (r: Result<VideoRequiredCapabilities, LoadError>)
    ensures
        r is Ok <==> fits_video_required_capabilities(*v),
        r matches Ok(x) ==> video_required_capabilities_from(*v, x),
        r is Err ==> r->Err_0 is Field,
{
    expect_object(v, path)?;
    Ok(
        VideoRequiredCapabilities {
            struct_: text(v, "struct", path)?,
            member: text(v, "member", path)?,
            value: text(v, "value", path)?,
        },
    )
}

/// `j` is an object that holds every field of `VideoFormat`.
pub open spec fn fits_video_format(j: Json) -> bool {
    &&& j is Object
    &&& text_at(j, "name"@) is Some
    &&& text_at(j, "usage"@) is Some
    &&& fits_video_required_capabilities_list(j, "requiredCaps"@)
    &&& text_map_at(j, "properties"@) is Some
}

/// `x` holds what object `j` holds.
pub open spec fn video_format_from(j: Json, x: VideoFormat) -> bool {
    &&& j is Object
    &&& text_at(j, "name"@) == Some(x.name@)
    &&& text_at(j, "usage"@) == Some(x.usage@)
    &&& video_required_capabilities_list_from(j, "requiredCaps"@, x.required_caps)
    &&& text_map_at(j, "properties"@) == Some(pair_views(x.properties@))
}

fn decode_video_format(v: &Json, path: &Vec<String>) -> (r: Result<VideoFormat, LoadError>)
    ensures
        r is Ok <==> fits_video_format(*v),
        r matches Ok(x) ==> video_format_from(*v, x),
        r is Err ==> r->Err_0 is Field,
{
    expect_object(v, path)?;
    Ok(
        VideoFormat {
            name: text(v, "name", path)?,
            usage: text(v, "usage", path)?,
            required_caps: decode_video_required_capabilities_list(v, "requiredCaps", path)?,
            properties: text_map(v, "properties", path)?,
        },
    )
}

/// `j` is an object that holds every field of `VideoProfileMember`.
pub open spec fn fits_video_profile_member(j: Json) -> bool {
    &&& j is Object
    &&& text_at(j, "name"@) is Some
    &&& text_map_at(j, "values"@) is Some
}

/// `x` holds what object `j` holds.
pub open spec fn video_profile_member_from(j: Json, x: VideoProfileMember) -> bool {
    &&& j is Object
    &&& text_at(j, "name"@) == Some(x.name@)
    &&& text_map_at(j, "values"@) == Some(pair_views(x.values@))
}

fn decode_video_profile_member(v: &Json, path: &Vec<String>) -> (r: Result<VideoProfileMember, LoadError>)
    ensures
        r is Ok <==> fits_video_profile_member(*v),
        r matches Ok(x) ==> video_profile_member_from(*v, x),
        r is Err ==> r->Err_0 is Field,
{
    expect_object(v, path)?;
    Ok(
        VideoProfileMember {
            name: text(v, "name", path)?,
            values: text_map(v, "values", path)?,
        },
    )
}

/// `j` is an object that holds every field of `VideoProfiles`.
pub open spec fn fits_video_profiles(j: Json) -> bool {
    &&& j is Object
    &&& text_at(j, "name"@) is Some
    &&& fits_video_profile_member_map(j, "members"@)
}

/// `x` holds what object `j` holds.
pub open spec fn video_profiles_from(j: Json, x: VideoProfiles) -> bool {
    &&& j is Object
    &&& text_at(j, "name"@) == Some(x.name@)
    &&& video_profile_member_map_from(j, "members"@, x.members)
}

fn decode_video_profiles(v: &Json, path: &Vec<String>) -> (r: Result<VideoProfiles, LoadError>)
    ensures
        r is Ok <==> fits_video_profiles(*v),
        r matches Ok(x) ==> video_profiles_from(*v, x),
        r is Err ==> r->Err_0 is Field,
{
    expect_object(v, path)?;
    Ok(
        VideoProfiles {
            name: text(v, "name", path)?,
            members: decode_video_profile_member_map(v, "members", path)?,
        },
    )
}

/// `j` is an object that holds every field of `VideoCodec`.
pub open spec fn fits_video_codec(j: Json) -> bool {
    &&& j is Object
    &&& text_at(j, "name"@) is Some
    &&& opt_text_fits(j, "value"@)
    &&& fits_video_profiles_map(j, "profiles"@)
    &&& text_map_at(j, "capabilities"@) is Some
    &&& fits_video_format_map(j, "formats"@)
}

/// `x` holds what object `j` holds.
pub open spec fn video_codec_from(j: Json, x: VideoCodec) -> bool {
    &&& j is Object
    &&& text_at(j, "name"@) == Some(x.name@)
    &&& opt_text_from(j, "value"@, x.value)
    &&& video_profiles_map_from(j, "profiles"@, x.profiles)
    &&& text_map_at(j, "capabilities"@) == Some(pair_views(x.capabilities@))
    &&& video_format_map_from(j, "formats"@, x.formats)
}

fn decode_video_codec(v: &Json, path: &Vec<String>) -> (r: Result<VideoCodec, LoadError>)
    ensures
        r is Ok <==> fits_video_codec(*v),
        r matches Ok(x) ==> video_codec_from(*v, x),
        r is Err ==> r->Err_0 is Field,
{
    expect_object(v, path)?;
    Ok(
        VideoCodec {
            name: text(v, "name", path)?,
            value: opt_text(v, "value", path)?,
            profiles: decode_video_profiles_map(v, "profiles", path)?,
            capabilities: text_map(v, "capabilities", path)?,
            formats: decode_video_format_map(v, "formats", path)?,
        },
    )
}

/// `j` is an object that holds every field of `VideoStdHeader`.
pub open spec fn fits_video_std_header(j: Json) -> bool {
    &&& j is Object
    &&& text_at(j, "name"@) is Some
    &&& opt_text_fits(j, "version"@)
    &&& text_at(j, "headerFile"@) is Some
    &&& texts_at(j, "depends"@) is Some
}

/// `x` holds what object `j` holds.
pub open spec fn video_std_header_from(j: Json, x: VideoStdHeader) -> bool {
    &&& j is Object
    &&& text_at(j, "name"@) == Some(x.name@)
    &&& opt_text_from(j, "version"@, x.version)
    &&& text_at(j, "headerFile"@) == Some(x.header_file@)
    &&& texts_at(j, "depends"@) == Some(names(x.depends@))
}

fn decode_video_std_header(v: &Json, path: &Vec<String>) -> (r: Result<VideoStdHeader, LoadError>)
    ensures
        r is Ok <==> fits_video_std_header(*v),
        r matches Ok(x) ==> video_std_header_from(*v, x),
        r is Err ==> r->Err_0 is Field,
{
    expect_object(v, path)?;
    Ok(
        VideoStdHeader {
            name: text(v, "name", path)?,
            version: opt_text(v, "version", path)?,
            header_file: text(v, "headerFile", path)?,
            depends: texts(v, "depends", path)?,
        },
    )
}

/// `j` is an object that holds every field of `VideoStd`.
pub open spec fn fits_video_std(j: Json) -> bool {
    &&& j is Object
    &&& fits_video_std_header_map(j, "headers"@)
    &&& fits_enum_map(j, "enums"@)
    &&& fits_struct_map(j, "structs"@)
    &&& fits_constant_map(j, "constants"@)
}

/// `x` holds what object `j` holds.
pub open spec fn video_std_from(j: Json, x: VideoStd) -> bool {
    &&& j is Object
    &&& video_std_header_map_from(j, "headers"@, x.headers)
    &&& enum_map_from(j, "enums"@, x.enums)
    &&& struct_map_from(j, "structs"@, x.structs)
    &&& constant_map_from(j, "constants"@, x.constants)
}

fn decode_video_std(v: &Json, path: &Vec<String>) -> (r: Result<VideoStd, LoadError>)
    ensures
        r is Ok <==> fits_video_std(*v),
        r matches Ok(x) ==> video_std_from(*v, x),
        r is Err ==> r->Err_0 is Field,
{
    expect_object(v, path)?;
    Ok(
        VideoStd {
            headers: decode_video_std_header_map(v, "headers", path)?,
            enums: decode_enum_map(v, "enums", path)?,
            structs: decode_struct_map(v, "structs", path)?,
            constants: decode_constant_map(v, "constants", path)?,
        },
    )
}

/// `j` is an object that holds every field of `VulkanObject`.
pub open spec fn fits_vulkan_object(j: Json) -> bool {
    &&& j is Object
    &&& text_at(j, "headerVersion"@) is Some
    &&& text_at(j, "headerVersionComplete"@) is Some
    &&& fits_extension_map(j, "extensions"@)
    &&& fits_version_map(j, "versions"@)
    &&& fits_handle_map(j, "handles"@)
    &&& fits_command_map(j, "commands"@)
    &&& fits_struct_map(j, "structs"@)
    &&& fits_enum_map(j, "enums"@)
    &&& fits_bitmask_map(j, "bitmasks"@)
    &&& fits_flags_map(j, "flags"@)
    &&& fits_constant_map(j, "constants"@)
    &&& fits_format_map(j, "formats"@)
    &&& fits_sync_stage_list(j, "syncStage"@)
    &&& fits_sync_access_list(j, "syncAccess"@)
    &&& fits_sync_pipeline_list(j, "syncPipeline"@)
    &&& fits_spirv_list(j, "spirv"@)
    &&& text_map_at(j, "platforms"@) is Some
    &&& texts_at(j, "vendorTags"@) is Some
    &&& fits_video_codec_map(j, "videoCodecs"@)
    &&& match present(j, "videoStd"@) {
            Some(m) => fits_video_std(m),
            None => true,
        }
}

/// `x` holds what object `j` holds.
pub open spec fn vulkan_object_from(j: Json, x: VulkanObject) -> bool {
    &&& j is Object
    &&& text_at(j, "headerVersion"@) == Some(x.header_version@)
    &&& text_at(j, "headerVersionComplete"@) == Some(x.header_version_complete@)
    &&& extension_map_from(j, "extensions"@, x.extensions)
    &&& version_map_from(j, "versions"@, x.versions)
    &&& handle_map_from(j, "handles"@, x.handles)
    &&& command_map_from(j, "commands"@, x.commands)
    &&& struct_map_from(j, "structs"@, x.structs)
    &&& enum_map_from(j, "enums"@, x.enums)
    &&& bitmask_map_from(j, "bitmasks"@, x.bitmasks)
    &&& flags_map_from(j, "flags"@, x.flags)
    &&& constant_map_from(j, "constants"@, x.constants)
    &&& format_map_from(j, "formats"@, x.formats)
    &&& sync_stage_list_from(j, "syncStage"@, x.sync_stage)
    &&& sync_access_list_from(j, "syncAccess"@, x.sync_access)
    &&& sync_pipeline_list_from(j, "syncPipeline"@, x.sync_pipeline)
    &&& spirv_list_from(j, "spirv"@, x.spirv)
    &&& text_map_at(j, "platforms"@) == Some(pair_views(x.platforms@))
    &&& texts_at(j, "vendorTags"@) == Some(names(x.vendor_tags@))
    &&& video_codec_map_from(j, "videoCodecs"@, x.video_codecs)
    &&& match present(j, "videoStd"@) {
            Some(m) => x.video_std matches Some(b) && video_std_from(m, b),
            None => x.video_std is None,
        }
}

fn decode_vulkan_object(v: &Json, path: &Vec<String>) -> (r: Result<VulkanObject, LoadError>)
    ensures
        r is Ok <==> fits_vulkan_object(*v),
        r matches Ok(x) ==> vulkan_object_from(*v, x),
        r is Err ==> r->Err_0 is Field,
{
    expect_object(v, path)?;
    Ok(
        VulkanObject {
            header_version: text(v, "headerVersion", path)?,
            header_version_complete: text(v, "headerVersionComplete", path)?,
            extensions: decode_extension_map(v, "extensions", path)?,
            versions: decode_version_map(v, "versions", path)?,
            handles: decode_handle_map(v, "handles", path)?,
            commands: decode_command_map(v, "commands", path)?,
            structs: decode_struct_map(v, "structs", path)?,
            enums: decode_enum_map(v, "enums", path)?,
            bitmasks: decode_bitmask_map(v, "bitmasks", path)?,
            flags: decode_flags_map(v, "flags", path)?,
            constants: decode_constant_map(v, "constants", path)?,
            formats: decode_format_map(v, "formats", path)?,
            sync_stage: decode_sync_stage_list(v, "syncStage", path)?,
            sync_access: decode_sync_access_list(v, "syncAccess", path)?,
            sync_pipeline: decode_sync_pipeline_list(v, "syncPipeline", path)?,
            spirv: decode_spirv_list(v, "spirv", path)?,
            platforms: text_map(v, "platforms", path)?,
            vendor_tags: texts(v, "vendorTags", path)?,
            video_codecs: decode_video_codec_map(v, "videoCodecs", path)?,
            video_std: match opt_member(v, "videoStd") {
                None => None,
                Some(m) => Some(decode_video_std(m, &child(path, "videoStd"))?),
            },
        },
    )
}

/// The member of `j` under `k` is an array of `EnumField` objects.
pub open spec fn fits_enum_field_list(j: Json, k: Seq<char>) -> bool {
    match array_at(j, k) {
        Some(items) => forall|i: int| 0 <= i < items.len() ==> #[trigger] fits_enum_field(items[i]),
        None => false,
    }
}

/// `xs` holds, in order, what the array under `k` holds.
pub open spec fn enum_field_list_from(j: Json, k: Seq<char>, xs: Vec<EnumField>) -> bool {
    match array_at(j, k) {
        Some(items) => xs@.len() == items.len() && forall|i: int|
            0 <= i < items.len() ==> #[trigger] enum_field_from(items[i], xs@[i]),
        None => false,
    }
}

fn decode_enum_field_list(v: &Json, key: &str, path: &Vec<String>) -> (r: Result<Vec<EnumField>, LoadError>)
    ensures
        r is Ok <==> fits_enum_field_list(*v, key@),
        r matches Ok(xs) ==> enum_field_list_from(*v, key@, xs),
        r is Err ==> r->Err_0 is Field,
{
    let items = array(v, key, path)?;
    let here = child(path, key);
    let mut out: Vec<EnumField> = Vec::new();
    let mut i: usize = 0;
    while i < items.len()
        invariant
            i <= items@.len(),
            array_at(*v, key@) == Some(items@),
            out@.len() == i,
            forall|m: int| 0 <= m < i ==> #[trigger] fits_enum_field(items@[m]),
            forall|m: int| 0 <= m < i ==> #[trigger] enum_field_from(items@[m], out@[m]),
        decreases items.len() - i,
    {
        match decode_enum_field(&items[i], &position(&here, i)) {
            Ok(x) => out.push(x),
            Err(e) => {
                assert(!fits_enum_field(items@[i as int]));
                assert(array_at(*v, key@)->Some_0 == items@);
                return Err(e);
            },
        }
        i = i + 1;
    }
    Ok(out)
}

/// The member of `j` under `k` is an array of `FeatureRequirement` objects.
pub open spec fn fits_feature_requirement_list(j: Json, k: Seq<char>) -> bool {
    match array_at(j, k) {
        Some(items) => forall|i: int| 0 <= i < items.len() ==> #[trigger] fits_feature_requirement(items[i]),
        None => false,
    }
}

/// `xs` holds, in order, what the array under `k` holds.
pub open spec fn feature_requirement_list_from(j: Json, k: Seq<char>, xs: Vec<FeatureRequirement>) -> bool {
    match array_at(j, k) {
        Some(items) => xs@.len() == items.len() && forall|i: int|
            0 <= i < items.len() ==> #[trigger] feature_requirement_from(items[i], xs@[i]),
        None => false,
    }
}

fn decode_feature_requirement_list(v: &Json, key: &str, path: &Vec<String>) -> (r: Result<Vec<FeatureRequirement>, LoadError>)
    ensures
        r is Ok <==> fits_feature_requirement_list(*v, key@),
        r matches Ok(xs) ==> feature_requirement_list_from(*v, key@, xs),
        r is Err ==> r->Err_0 is Field,
{
    let items = array(v, key, path)?;
    let here = child(path, key);
    let mut out: Vec<FeatureRequirement> = Vec::new();
    let mut i: usize = 0;
    while i < items.len()
        invariant
            i <= items@.len(),
            array_at(*v, key@) == Some(items@),
            out@.len() == i,
            forall|m: int| 0 <= m < i ==> #[trigger] fits_feature_requirement(items@[m]),
            forall|m: int| 0 <= m < i ==> #[trigger] feature_requirement_from(items@[m], out@[m]),
        decreases items.len() - i,
    {
        match decode_feature_requirement(&items[i], &position(&here, i)) {
            Ok(x) => out.push(x),
            Err(e) => {
                assert(!fits_feature_requirement(items@[i as int]));
                assert(array_at(*v, key@)->Some_0 == items@);
                return Err(e);
            },
        }
        i = i + 1;
    }
    Ok(out)
}

/// The member of `j` under `k` is an array of `Flag` objects.
pub open spec fn fits_flag_list(j: Json, k: Seq<char>) -> bool {
    match array_at(j, k) {
        Some(items) => forall|i: int| 0 <= i < items.len() ==> #[trigger] fits_flag(items[i]),
        None => false,
    }
}

/// `xs` holds, in order, what the array under `k` holds.
pub open spec fn flag_list_from(j: Json, k: Seq<char>, xs: Vec<Flag>) -> bool {
    match array_at(j, k) {
        Some(items) => xs@.len() == items.len() && forall|i: int|
            0 <= i < items.len() ==> #[trigger] flag_from(items[i], xs@[i]),
        None => false,
    }
}

fn decode_flag_list(v: &Json, key: &str, path: &Vec<String>) -> (r: Result<Vec<Flag>, LoadError>)
    ensures
        r is Ok <==> fits_flag_list(*v, key@),
        r matches Ok(xs) ==> flag_list_from(*v, key@, xs),
        r is Err ==> r->Err_0 is Field,
{
    let items = array(v, key, path)?;
    let here = child(path, key);
    let mut out: Vec<Flag> = Vec::new();
    let mut i: usize = 0;
    while i < items.len()
        invariant
            i <= items@.len(),
            array_at(*v, key@) == Some(items@),
            out@.len() == i,
            forall|m: int| 0 <= m < i ==> #[trigger] fits_flag(items@[m]),
            forall|m: int| 0 <= m < i ==> #[trigger] flag_from(items@[m], out@[m]),
        decreases items.len() - i,
    {
        match decode_flag(&items[i], &position(&here, i)) {
            Ok(x) => out.push(x),
            Err(e) => {
                assert(!fits_flag(items@[i as int]));
                assert(array_at(*v, key@)->Some_0 == items@);
                return Err(e);
            },
        }
        i = i + 1;
    }
    Ok(out)
}

/// The member of `j` under `k` is an array of `FormatComponent` objects.
pub open spec fn fits_format_component_list(j: Json, k: Seq<char>) -> bool {
    match array_at(j, k) {
        Some(items) => forall|i: int| 0 <= i < items.len() ==> #[trigger] fits_format_component(items[i]),
        None => false,
    }
}

/// `xs` holds, in order, what the array under `k` holds.
pub open spec fn format_component_list_from(j: Json, k: Seq<char>, xs: Vec<FormatComponent>) -> bool {
    match array_at(j, k) {
        Some(items) => xs@.len() == items.len() && forall|i: int|
            0 <= i < items.len() ==> #[trigger] format_component_from(items[i], xs@[i]),
        None => false,
    }
}

fn decode_format_component_list(v: &Json, key: &str, path: &Vec<String>) -> (r: Result<Vec<FormatComponent>, LoadError>)
    ensures
        r is Ok <==> fits_format_component_list(*v, key@),
        r matches Ok(xs) ==> format_component_list_from(*v, key@, xs),
        r is Err ==> r->Err_0 is Field,
{
    let items = array(v, key, path)?;
    let here = child(path, key);
    let mut out: Vec<FormatComponent> = Vec::new();
    let mut i: usize = 0;
    while i < items.len()
        invariant
            i <= items@.len(),
            array_at(*v, key@) == Some(items@),
            out@.len() == i,
            forall|m: int| 0 <= m < i ==> #[trigger] fits_format_component(items@[m]),
            forall|m: int| 0 <= m < i ==> #[trigger] format_component_from(items@[m], out@[m]),
        decreases items.len() - i,
    {
        match decode_format_component(&items[i], &position(&here, i)) {
            Ok(x) => out.push(x),
            Err(e) => {
                assert(!fits_format_component(items@[i as int]));
                assert(array_at(*v, key@)->Some_0 == items@);
                return Err(e);
            },
        }
        i = i + 1;
    }
    Ok(out)
}

/// The member of `j` under `k` is an array of `FormatPlane` objects.
pub open spec fn fits_format_plane_list(j: Json, k: Seq<char>) -> bool {
    match array_at(j, k) {
        Some(items) => forall|i: int| 0 <= i < items.len() ==> #[trigger] fits_format_plane(items[i]),
        None => false,
    }
}

/// `xs` holds, in order, what the array under `k` holds.
pub open spec fn format_plane_list_from(j: Json, k: Seq<char>, xs: Vec<FormatPlane>) -> bool {
    match array_at(j, k) {
        Some(items) => xs@.len() == items.len() && forall|i: int|
            0 <= i < items.len() ==> #[trigger] format_plane_from(items[i], xs@[i]),
        None => false,
    }
}

fn decode_format_plane_list(v: &Json, key: &str, path: &Vec<String>) -> (r: Result<Vec<FormatPlane>, LoadError>)
    ensures
        r is Ok <==> fits_format_plane_list(*v, key@),
        r matches Ok(xs) ==> format_plane_list_from(*v, key@, xs),
        r is Err ==> r->Err_0 is Field,
{
    let items = array(v, key, path)?;
    let here = child(path, key);
    let mut out: Vec<FormatPlane> = Vec::new();
    let mut i: usize = 0;
    while i < items.len()
        invariant
            i <= items@.len(),
            array_at(*v, key@) == Some(items@),
            out@.len() == i,
            forall|m: int| 0 <= m < i ==> #[trigger] fits_format_plane(items@[m]),
            forall|m: int| 0 <= m < i ==> #[trigger] format_plane_from(items@[m], out@[m]),
        decreases items.len() - i,
    {
        match decode_format_plane(&items[i], &position(&here, i)) {
            Ok(x) => out.push(x),
            Err(e) => {
                assert(!fits_format_plane(items@[i as int]));
                assert(array_at(*v, key@)->Some_0 == items@);
                return Err(e);
            },
        }
        i = i + 1;
    }
    Ok(out)
}

/// The member of `j` under `k` is an array of `Member` objects.
pub open spec fn fits_member_list(j: Json, k: Seq<char>) -> bool {
    match array_at(j, k) {
        Some(items) => forall|i: int| 0 <= i < items.len() ==> #[trigger] fits_member(items[i]),
        None => false,
    }
}

/// `xs` holds, in order, what the array under `k` holds.
pub open spec fn member_list_from(j: Json, k: Seq<char>, xs: Vec<Member>) -> bool {
    match array_at(j, k) {
        Some(items) => xs@.len() == items.len() && forall|i: int|
            0 <= i < items.len() ==> #[trigger] member_from(items[i], xs@[i]),
        None => false,
    }
}

fn decode_member_list(v: &Json, key: &str, path: &Vec<String>) -> (r: Result<Vec<Member>, LoadError>)
    ensures
        r is Ok <==> fits_member_list(*v, key@),
        r matches Ok(xs) ==> member_list_from(*v, key@, xs),
        r is Err ==> r->Err_0 is Field,
{
    let items = array(v, key, path)?;
    let here = child(path, key);
    let mut out: Vec<Member> = Vec::new();
    let mut i: usize = 0;
    while i < items.len()
        invariant
            i <= items@.len(),
            array_at(*v, key@) == Some(items@),
            out@.len() == i,
            forall|m: int| 0 <= m < i ==> #[trigger] fits_member(items@[m]),
            forall|m: int| 0 <= m < i ==> #[trigger] member_from(items@[m], out@[m]),
        decreases items.len() - i,
    {
        match decode_member(&items[i], &position(&here, i)) {
            Ok(x) => out.push(x),
            Err(e) => {
                assert(!fits_member(items@[i as int]));
                assert(array_at(*v, key@)->Some_0 == items@);
                return Err(e);
            },
        }
        i = i + 1;
    }
    Ok(out)
}

/// The member of `j` under `k` is an array of `Param` objects.
pub open spec fn fits_param_list(j: Json, k: Seq<char>) -> bool {
    match array_at(j, k) {
        Some(items) => forall|i: int| 0 <= i < items.len() ==> #[trigger] fits_param(items[i]),
        None => false,
    }
}

/// `xs` holds, in order, what the array under `k` holds.
pub open spec fn param_list_from(j: Json, k: Seq<char>, xs: Vec<Param>) -> bool {
    match array_at(j, k) {
        Some(items) => xs@.len() == items.len() && forall|i: int|
            0 <= i < items.len() ==> #[trigger] param_from(items[i], xs@[i]),
        None => false,
    }
}

fn decode_param_list(v: &Json, key: &str, path: &Vec<String>) -> (r: Result<Vec<Param>, LoadError>)
    ensures
        r is Ok <==> fits_param_list(*v, key@),
        r matches Ok(xs) ==> param_list_from(*v, key@, xs),
        r is Err ==> r->Err_0 is Field,
{
    let items = array(v, key, path)?;
    let here = child(path, key);
    let mut out: Vec<Param> = Vec::new();
    let mut i: usize = 0;
    while i < items.len()
        invariant
            i <= items@.len(),
            array_at(*v, key@) == Some(items@),
            out@.len() == i,
            forall|m: int| 0 <= m < i ==> #[trigger] fits_param(items@[m]),
            forall|m: int| 0 <= m < i ==> #[trigger] param_from(items@[m], out@[m]),
        decreases items.len() - i,
    {
        match decode_param(&items[i], &position(&here, i)) {
            Ok(x) => out.push(x),
            Err(e) => {
                assert(!fits_param(items@[i as int]));
                assert(array_at(*v, key@)->Some_0 == items@);
                return Err(e);
            },
        }
        i = i + 1;
    }
    Ok(out)
}

/// The member of `j` under `k` is an array of `Spirv` objects.
pub open spec fn fits_spirv_list(j: Json, k: Seq<char>) -> bool {
    match array_at(j, k) {
        Some(items) => forall|i: int| 0 <= i < items.len() ==> #[trigger] fits_spirv(items[i]),
        None => false,
    }
}

/// `xs` holds, in order, what the array under `k` holds.
pub open spec fn spirv_list_from(j: Json, k: Seq<char>, xs: Vec<Spirv>) -> bool {
    match array_at(j, k) {
        Some(items) => xs@.len() == items.len() && forall|i: int|
            0 <= i < items.len() ==> #[trigger] spirv_from(items[i], xs@[i]),
        None => false,
    }
}

fn decode_spirv_list(v: &Json, key: &str, path: &Vec<String>) -> (r: Result<Vec<Spirv>, LoadError>)
    ensures
        r is Ok <==> fits_spirv_list(*v, key@),
        r matches Ok(xs) ==> spirv_list_from(*v, key@, xs),
        r is Err ==> r->Err_0 is Field,
{
    let items = array(v, key, path)?;
    let here = child(path, key);
    let mut out: Vec<Spirv> = Vec::new();
    let mut i: usize = 0;
    while i < items.len()
        invariant
            i <= items@.len(),
            array_at(*v, key@) == Some(items@),
            out@.len() == i,
            forall|m: int| 0 <= m < i ==> #[trigger] fits_spirv(items@[m]),
            forall|m: int| 0 <= m < i ==> #[trigger] spirv_from(items@[m], out@[m]),
        decreases items.len() - i,
    {
        match decode_spirv(&items[i], &position(&here, i)) {
            Ok(x) => out.push(x),
            Err(e) => {
                assert(!fits_spirv(items@[i as int]));
                assert(array_at(*v, key@)->Some_0 == items@);
                return Err(e);
            },
        }
        i = i + 1;
    }
    Ok(out)
}

/// The member of `j` under `k` is an array of `SpirvEnables` objects.
pub open spec fn fits_spirv_enables_list(j: Json, k: Seq<char>) -> bool {
    match array_at(j, k) {
        Some(items) => forall|i: int| 0 <= i < items.len() ==> #[trigger] fits_spirv_enables(items[i]),
        None => false,
    }
}

/// `xs` holds, in order, what the array under `k` holds.
pub open spec fn spirv_enables_list_from(j: Json, k: Seq<char>, xs: Vec<SpirvEnables>) -> bool {
    match array_at(j, k) {
        Some(items) => xs@.len() == items.len() && forall|i: int|
            0 <= i < items.len() ==> #[trigger] spirv_enables_from(items[i], xs@[i]),
        None => false,
    }
}

fn decode_spirv_enables_list(v: &Json, key: &str, path: &Vec<String>) -> (r: Result<Vec<SpirvEnables>, LoadError>)
    ensures
        r is Ok <==> fits_spirv_enables_list(*v, key@),
        r matches Ok(xs) ==> spirv_enables_list_from(*v, key@, xs),
        r is Err ==> r->Err_0 is Field,
{
    let items = array(v, key, path)?;
    let here = child(path, key);
    let mut out: Vec<SpirvEnables> = Vec::new();
    let mut i: usize = 0;
    while i < items.len()
        invariant
            i <= items@.len(),
            array_at(*v, key@) == Some(items@),
            out@.len() == i,
            forall|m: int| 0 <= m < i ==> #[trigger] fits_spirv_enables(items@[m]),
            forall|m: int| 0 <= m < i ==> #[trigger] spirv_enables_from(items@[m], out@[m]),
        decreases items.len() - i,
    {
        match decode_spirv_enables(&items[i], &position(&here, i)) {
            Ok(x) => out.push(x),
            Err(e) => {
                assert(!fits_spirv_enables(items@[i as int]));
                assert(array_at(*v, key@)->Some_0 == items@);
                return Err(e);
            },
        }
        i = i + 1;
    }
    Ok(out)
}

/// The member of `j` under `k` is an array of `SyncAccess` objects.
pub open spec fn fits_sync_access_list(j: Json, k: Seq<char>) -> bool {
    match array_at(j, k) {
        Some(items) => forall|i: int| 0 <= i < items.len() ==> #[trigger] fits_sync_access(items[i]),
        None => false,
    }
}

/// `xs` holds, in order, what the array under `k` holds.
pub open spec fn sync_access_list_from(j: Json, k: Seq<char>, xs: Vec<SyncAccess>) -> bool {
    match array_at(j, k) {
        Some(items) => xs@.len() == items.len() && forall|i: int|
            0 <= i < items.len() ==> #[trigger] sync_access_from(items[i], xs@[i]),
        None => false,
    }
}

fn decode_sync_access_list(v: &Json, key: &str, path: &Vec<String>) -> (r: Result<Vec<SyncAccess>, LoadError>)
    ensures
        r is Ok <==> fits_sync_access_list(*v, key@),
        r matches Ok(xs) ==> sync_access_list_from(*v, key@, xs),
        r is Err ==> r->Err_0 is Field,
{
    let items = array(v, key, path)?;
    let here = child(path, key);
    let mut out: Vec<SyncAccess> = Vec::new();
    let mut i: usize = 0;
    while i < items.len()
        invariant
            i <= items@.len(),
            array_at(*v, key@) == Some(items@),
            out@.len() == i,
            forall|m: int| 0 <= m < i ==> #[trigger] fits_sync_access(items@[m]),
            forall|m: int| 0 <= m < i ==> #[trigger] sync_access_from(items@[m], out@[m]),
        decreases items.len() - i,
    {
        match decode_sync_access(&items[i], &position(&here, i)) {
            Ok(x) => out.push(x),
            Err(e) => {
                assert(!fits_sync_access(items@[i as int]));
                assert(array_at(*v, key@)->Some_0 == items@);
                return Err(e);
            },
        }
        i = i + 1;
    }
    Ok(out)
}

/// The member of `j` under `k` is an array of `SyncPipeline` objects.
pub open spec fn fits_sync_pipeline_list(j: Json, k: Seq<char>) -> bool {
    match array_at(j, k) {
        Some(items) => forall|i: int| 0 <= i < items.len() ==> #[trigger] fits_sync_pipeline(items[i]),
        None => false,
    }
}

/// `xs` holds, in order, what the array under `k` holds.
pub open spec fn sync_pipeline_list_from(j: Json, k: Seq<char>, xs: Vec<SyncPipeline>) -> bool {
    match array_at(j, k) {
        Some(items) => xs@.len() == items.len() && forall|i: int|
            0 <= i < items.len() ==> #[trigger] sync_pipeline_from(items[i], xs@[i]),
        None => false,
    }
}

fn decode_sync_pipeline_list(v: &Json, key: &str, path: &Vec<String>) -> (r: Result<Vec<SyncPipeline>, LoadError>)
    ensures
        r is Ok <==> fits_sync_pipeline_list(*v, key@),
        r matches Ok(xs) ==> sync_pipeline_list_from(*v, key@, xs),
        r is Err ==> r->Err_0 is Field,
{
    let items = array(v, key, path)?;
    let here = child(path, key);
    let mut out: Vec<SyncPipeline> = Vec::new();
    let mut i: usize = 0;
    while i < items.len()
        invariant
            i <= items@.len(),
            array_at(*v, key@) == Some(items@),
            out@.len() == i,
            forall|m: int| 0 <= m < i ==> #[trigger] fits_sync_pipeline(items@[m]),
            forall|m: int| 0 <= m < i ==> #[trigger] sync_pipeline_from(items@[m], out@[m]),
        decreases items.len() - i,
    {
        match decode_sync_pipeline(&items[i], &position(&here, i)) {
            Ok(x) => out.push(x),
            Err(e) => {
                assert(!fits_sync_pipeline(items@[i as int]));
                assert(array_at(*v, key@)->Some_0 == items@);
                return Err(e);
            },
        }
        i = i + 1;
    }
    Ok(out)
}

/// The member of `j` under `k` is an array of `SyncPipelineStage` objects.
pub open spec fn fits_sync_pipeline_stage_list(j: Json, k: Seq<char>) -> bool {
    match array_at(j, k) {
        Some(items) => forall|i: int| 0 <= i < items.len() ==> #[trigger] fits_sync_pipeline_stage(items[i]),
        None => false,
    }
}

/// `xs` holds, in order, what the array under `k` holds.
pub open spec fn sync_pipeline_stage_list_from(j: Json, k: Seq<char>, xs: Vec<SyncPipelineStage>) -> bool {
    match array_at(j, k) {
        Some(items) => xs@.len() == items.len() && forall|i: int|
            0 <= i < items.len() ==> #[trigger] sync_pipeline_stage_from(items[i], xs@[i]),
        None => false,
    }
}

fn decode_sync_pipeline_stage_list(v: &Json, key: &str, path: &Vec<String>) -> (r: Result<Vec<SyncPipelineStage>, LoadError>)
    ensures
        r is Ok <==> fits_sync_pipeline_stage_list(*v, key@),
        r matches Ok(xs) ==> sync_pipeline_stage_list_from(*v, key@, xs),
        r is Err ==> r->Err_0 is Field,
{
    let items = array(v, key, path)?;
    let here = child(path, key);
    let mut out: Vec<SyncPipelineStage> = Vec::new();
    let mut i: usize = 0;
    while i < items.len()
        invariant
            i <= items@.len(),
            array_at(*v, key@) == Some(items@),
            out@.len() == i,
            forall|m: int| 0 <= m < i ==> #[trigger] fits_sync_pipeline_stage(items@[m]),
            forall|m: int| 0 <= m < i ==> #[trigger] sync_pipeline_stage_from(items@[m], out@[m]),
        decreases items.len() - i,
    {
        match decode_sync_pipeline_stage(&items[i], &position(&here, i)) {
            Ok(x) => out.push(x),
            Err(e) => {
                assert(!fits_sync_pipeline_stage(items@[i as int]));
                assert(array_at(*v, key@)->Some_0 == items@);
                return Err(e);
            },
        }
        i = i + 1;
    }
    Ok(out)
}

/// The member of `j` under `k` is an array of `SyncStage` objects.
pub open spec fn fits_sync_stage_list(j: Json, k: Seq<char>) -> bool {
    match array_at(j, k) {
        Some(items) => forall|i: int| 0 <= i < items.len() ==> #[trigger] fits_sync_stage(items[i]),
        None => false,
    }
}

/// `xs` holds, in order, what the array under `k` holds.
pub open spec fn sync_stage_list_from(j: Json, k: Seq<char>, xs: Vec<SyncStage>) -> bool {
    match array_at(j, k) {
        Some(items) => xs@.len() == items.len() && forall|i: int|
            0 <= i < items.len() ==> #[trigger] sync_stage_from(items[i], xs@[i]),
        None => false,
    }
}

fn decode_sync_stage_list(v: &Json, key: &str, path: &Vec<String>) -> (r: Result<Vec<SyncStage>, LoadError>)
    ensures
        r is Ok <==> fits_sync_stage_list(*v, key@),
        r matches Ok(xs) ==> sync_stage_list_from(*v, key@, xs),
        r is Err ==> r->Err_0 is Field,
{
    let items = array(v, key, path)?;
    let here = child(path, key);
    let mut out: Vec<SyncStage> = Vec::new();
    let mut i: usize = 0;
    while i < items.len()
        invariant
            i <= items@.len(),
            array_at(*v, key@) == Some(items@),
            out@.len() == i,
            forall|m: int| 0 <= m < i ==> #[trigger] fits_sync_stage(items@[m]),
            forall|m: int| 0 <= m < i ==> #[trigger] sync_stage_from(items@[m], out@[m]),
        decreases items.len() - i,
    {
        match decode_sync_stage(&items[i], &position(&here, i)) {
            Ok(x) => out.push(x),
            Err(e) => {
                assert(!fits_sync_stage(items@[i as int]));
                assert(array_at(*v, key@)->Some_0 == items@);
                return Err(e);
            },
        }
        i = i + 1;
    }
    Ok(out)
}

/// The member of `j` under `k` is an array of `VideoRequiredCapabilities` objects.
pub open spec fn fits_video_required_capabilities_list(j: Json, k: Seq<char>) -> bool {
    match array_at(j, k) {
        Some(items) => forall|i: int| 0 <= i < items.len() ==> #[trigger] fits_video_required_capabilities(items[i]),
        None => false,
    }
}

/// `xs` holds, in order, what the array under `k` holds.
pub open spec fn video_required_capabilities_list_from(j: Json, k: Seq<char>, xs: Vec<VideoRequiredCapabilities>) -> bool {
    match array_at(j, k) {
        Some(items) => xs@.len() == items.len() && forall|i: int|
            0 <= i < items.len() ==> #[trigger] video_required_capabilities_from(items[i], xs@[i]),
        None => false,
    }
}

fn decode_video_required_capabilities_list(v: &Json, key: &str, path: &Vec<String>) -> (r: Result<Vec<VideoRequiredCapabilities>, LoadError>)
    ensures
        r is Ok <==> fits_video_required_capabilities_list(*v, key@),
        r matches Ok(xs) ==> video_required_capabilities_list_from(*v, key@, xs),
        r is Err ==> r->Err_0 is Field,
{
    let items = array(v, key, path)?;
    let here = child(path, key);
    let mut out: Vec<VideoRequiredCapabilities> = Vec::new();
    let mut i: usize = 0;
    while i < items.len()
        invariant
            i <= items@.len(),
            array_at(*v, key@) == Some(items@),
            out@.len() == i,
            forall|m: int| 0 <= m < i ==> #[trigger] fits_video_required_capabilities(items@[m]),
            forall|m: int| 0 <= m < i ==> #[trigger] video_required_capabilities_from(items@[m], out@[m]),
        decreases items.len() - i,
    {
        match decode_video_required_capabilities(&items[i], &position(&here, i)) {
            Ok(x) => out.push(x),
            Err(e) => {
                assert(!fits_video_required_capabilities(items@[i as int]));
                assert(array_at(*v, key@)->Some_0 == items@);
                return Err(e);
            },
        }
        i = i + 1;
    }
    Ok(out)
}

/// The member of `j` under `k` is an object whose members are `Bitmask` objects.
pub open spec fn fits_bitmask_map(j: Json, k: Seq<char>) -> bool {
    match object_at(j, k) {
        Some(es) => forall|i: int| 0 <= i < es.len() ==> #[trigger] fits_bitmask(es[i].1),
        None => false,
    }
}

/// `xs` holds, in key order, what the members of the object under `k` hold.
pub open spec fn bitmask_map_from(j: Json, k: Seq<char>, xs: Vec<Bitmask>) -> bool {
    match object_at(j, k) {
        Some(es) => xs@.len() == es.len() && forall|i: int|
            0 <= i < es.len() ==> #[trigger] bitmask_from(es[i].1, xs@[i]),
        None => false,
    }
}

fn decode_bitmask_map(v: &Json, key: &str, path: &Vec<String>) -> (r: Result<Vec<Bitmask>, LoadError>)
    ensures
        r is Ok <==> fits_bitmask_map(*v, key@),
        r matches Ok(xs) ==> bitmask_map_from(*v, key@, xs),
        r is Err ==> r->Err_0 is Field,
{
    let es = entries(v, key, path)?;
    let here = child(path, key);
    let mut out: Vec<Bitmask> = Vec::new();
    let mut i: usize = 0;
    while i < es.len()
        invariant
            i <= es@.len(),
            object_at(*v, key@) == Some(es@),
            out@.len() == i,
            forall|m: int| 0 <= m < i ==> #[trigger] fits_bitmask(es@[m].1),
            forall|m: int| 0 <= m < i ==> #[trigger] bitmask_from(es@[m].1, out@[m]),
        decreases es.len() - i,
    {
        match decode_bitmask(&es[i].1, &child(&here, es[i].0.as_str())) {
            Ok(x) => out.push(x),
            Err(e) => {
                assert(!fits_bitmask(es@[i as int].1));
                assert(object_at(*v, key@)->Some_0 == es@);
                return Err(e);
            },
        }
        i = i + 1;
    }
    Ok(out)
}

/// The member of `j` under `k` is an object whose members are `Command` objects.
pub open spec fn fits_command_map(j: Json, k: Seq<char>) -> bool {
    match object_at(j, k) {
        Some(es) => forall|i: int| 0 <= i < es.len() ==> #[trigger] fits_command(es[i].1),
        None => false,
    }
}

/// `xs` holds, in key order, what the members of the object under `k` hold.
pub open spec fn command_map_from(j: Json, k: Seq<char>, xs: Vec<Command>) -> bool {
    match object_at(j, k) {
        Some(es) => xs@.len() == es.len() && forall|i: int|
            0 <= i < es.len() ==> #[trigger] command_from(es[i].1, xs@[i]),
        None => false,
    }
}

fn decode_command_map(v: &Json, key: &str, path: &Vec<String>) -> (r: Result<Vec<Command>, LoadError>)
    ensures
        r is Ok <==> fits_command_map(*v, key@),
        r matches Ok(xs) ==> command_map_from(*v, key@, xs),
        r is Err ==> r->Err_0 is Field,
{
    let es = entries(v, key, path)?;
    let here = child(path, key);
    let mut out: Vec<Command> = Vec::new();
    let mut i: usize = 0;
    while i < es.len()
        invariant
            i <= es@.len(),
            object_at(*v, key@) == Some(es@),
            out@.len() == i,
            forall|m: int| 0 <= m < i ==> #[trigger] fits_command(es@[m].1),
            forall|m: int| 0 <= m < i ==> #[trigger] command_from(es@[m].1, out@[m]),
        decreases es.len() - i,
    {
        match decode_command(&es[i].1, &child(&here, es[i].0.as_str())) {
            Ok(x) => out.push(x),
            Err(e) => {
                assert(!fits_command(es@[i as int].1));
                assert(object_at(*v, key@)->Some_0 == es@);
                return Err(e);
            },
        }
        i = i + 1;
    }
    Ok(out)
}

/// The member of `j` under `k` is an object whose members are `Constant` objects.
pub open spec fn fits_constant_map(j: Json, k: Seq<char>) -> bool {
    match object_at(j, k) {
        Some(es) => forall|i: int| 0 <= i < es.len() ==> #[trigger] fits_constant(es[i].1),
        None => false,
    }
}

/// `xs` holds, in key order, what the members of the object under `k` hold.
pub open spec fn constant_map_from(j: Json, k: Seq<char>, xs: Vec<Constant>) -> bool {
    match object_at(j, k) {
        Some(es) => xs@.len() == es.len() && forall|i: int|
            0 <= i < es.len() ==> #[trigger] constant_from(es[i].1, xs@[i]),
        None => false,
    }
}

fn decode_constant_map(v: &Json, key: &str, path: &Vec<String>) -> (r: Result<Vec<Constant>, LoadError>)
    ensures
        r is Ok <==> fits_constant_map(*v, key@),
        r matches Ok(xs) ==> constant_map_from(*v, key@, xs),
        r is Err ==> r->Err_0 is Field,
{
    let es = entries(v, key, path)?;
    let here = child(path, key);
    let mut out: Vec<Constant> = Vec::new();
    let mut i: usize = 0;
    while i < es.len()
        invariant
            i <= es@.len(),
            object_at(*v, key@) == Some(es@),
            out@.len() == i,
            forall|m: int| 0 <= m < i ==> #[trigger] fits_constant(es@[m].1),
            forall|m: int| 0 <= m < i ==> #[trigger] constant_from(es@[m].1, out@[m]),
        decreases es.len() - i,
    {
        match decode_constant(&es[i].1, &child(&here, es[i].0.as_str())) {
            Ok(x) => out.push(x),
            Err(e) => {
                assert(!fits_constant(es@[i as int].1));
                assert(object_at(*v, key@)->Some_0 == es@);
                return Err(e);
            },
        }
        i = i + 1;
    }
    Ok(out)
}

/// The member of `j` under `k` is an object whose members are `Enum` objects.
pub open spec fn fits_enum_map(j: Json, k: Seq<char>) -> bool {
    match object_at(j, k) {
        Some(es) => forall|i: int| 0 <= i < es.len() ==> #[trigger] fits_enum(es[i].1),
        None => false,
    }
}

/// `xs` holds, in key order, what the members of the object under `k` hold.
pub open spec fn enum_map_from(j: Json, k: Seq<char>, xs: Vec<Enum>) -> bool {
    match object_at(j, k) {
        Some(es) => xs@.len() == es.len() && forall|i: int|
            0 <= i < es.len() ==> #[trigger] enum_from(es[i].1, xs@[i]),
        None => false,
    }
}

fn decode_enum_map(v: &Json, key: &str, path: &Vec<String>) -> (r: Result<Vec<Enum>, LoadError>)
    ensures
        r is Ok <==> fits_enum_map(*v, key@),
        r matches Ok(xs) ==> enum_map_from(*v, key@, xs),
        r is Err ==> r->Err_0 is Field,
{
    let es = entries(v, key, path)?;
    let here = child(path, key);
    let mut out: Vec<Enum> = Vec::new();
    let mut i: usize = 0;
    while i < es.len()
        invariant
            i <= es@.len(),
            object_at(*v, key@) == Some(es@),
            out@.len() == i,
            forall|m: int| 0 <= m < i ==> #[trigger] fits_enum(es@[m].1),
            forall|m: int| 0 <= m < i ==> #[trigger] enum_from(es@[m].1, out@[m]),
        decreases es.len() - i,
    {
        match decode_enum(&es[i].1, &child(&here, es[i].0.as_str())) {
            Ok(x) => out.push(x),
            Err(e) => {
                assert(!fits_enum(es@[i as int].1));
                assert(object_at(*v, key@)->Some_0 == es@);
                return Err(e);
            },
        }
        i = i + 1;
    }
    Ok(out)
}

/// The member of `j` under `k` is an object whose members are `Extension` objects.
pub open spec fn fits_extension_map(j: Json, k: Seq<char>) -> bool {
    match object_at(j, k) {
        Some(es) => forall|i: int| 0 <= i < es.len() ==> #[trigger] fits_extension(es[i].1),
        None => false,
    }
}

/// `xs` holds, in key order, what the members of the object under `k` hold.
pub open spec fn extension_map_from(j: Json, k: Seq<char>, xs: Vec<Extension>) -> bool {
    match object_at(j, k) {
        Some(es) => xs@.len() == es.len() && forall|i: int|
            0 <= i < es.len() ==> #[trigger] extension_from(es[i].1, xs@[i]),
        None => false,
    }
}

fn decode_extension_map(v: &Json, key: &str, path: &Vec<String>) -> (r: Result<Vec<Extension>, LoadError>)
    ensures
        r is Ok <==> fits_extension_map(*v, key@),
        r matches Ok(xs) ==> extension_map_from(*v, key@, xs),
        r is Err ==> r->Err_0 is Field,
{
    let es = entries(v, key, path)?;
    let here = child(path, key);
    let mut out: Vec<Extension> = Vec::new();
    let mut i: usize = 0;
    while i < es.len()
        invariant
            i <= es@.len(),
            object_at(*v, key@) == Some(es@),
            out@.len() == i,
            forall|m: int| 0 <= m < i ==> #[trigger] fits_extension(es@[m].1),
            forall|m: int| 0 <= m < i ==> #[trigger] extension_from(es@[m].1, out@[m]),
        decreases es.len() - i,
    {
        match decode_extension(&es[i].1, &child(&here, es[i].0.as_str())) {
            Ok(x) => out.push(x),
            Err(e) => {
                assert(!fits_extension(es@[i as int].1));
                assert(object_at(*v, key@)->Some_0 == es@);
                return Err(e);
            },
        }
        i = i + 1;
    }
    Ok(out)
}

/// The member of `j` under `k` is an object whose members are `Flags` objects.
pub open spec fn fits_flags_map(j: Json, k: Seq<char>) -> bool {
    match object_at(j, k) {
        Some(es) => forall|i: int| 0 <= i < es.len() ==> #[trigger] fits_flags(es[i].1),
        None => false,
    }
}

/// `xs` holds, in key order, what the members of the object under `k` hold.
pub open spec fn flags_map_from(j: Json, k: Seq<char>, xs: Vec<Flags>) -> bool {
    match object_at(j, k) {
        Some(es) => xs@.len() == es.len() && forall|i: int|
            0 <= i < es.len() ==> #[trigger] flags_from(es[i].1, xs@[i]),
        None => false,
    }
}

fn decode_flags_map(v: &Json, key: &str, path: &Vec<String>) -> (r: Result<Vec<Flags>, LoadError>)
    ensures
        r is Ok <==> fits_flags_map(*v, key@),
        r matches Ok(xs) ==> flags_map_from(*v, key@, xs),
        r is Err ==> r->Err_0 is Field,
{
    let es = entries(v, key, path)?;
    let here = child(path, key);
    let mut out: Vec<Flags> = Vec::new();
    let mut i: usize = 0;
    while i < es.len()
        invariant
            i <= es@.len(),
            object_at(*v, key@) == Some(es@),
            out@.len() == i,
            forall|m: int| 0 <= m < i ==> #[trigger] fits_flags(es@[m].1),
            forall|m: int| 0 <= m < i ==> #[trigger] flags_from(es@[m].1, out@[m]),
        decreases es.len() - i,
    {
        match decode_flags(&es[i].1, &child(&here, es[i].0.as_str())) {
            Ok(x) => out.push(x),
            Err(e) => {
                assert(!fits_flags(es@[i as int].1));
                assert(object_at(*v, key@)->Some_0 == es@);
                return Err(e);
            },
        }
        i = i + 1;
    }
    Ok(out)
}

/// The member of `j` under `k` is an object whose members are `Format` objects.
pub open spec fn fits_format_map(j: Json, k: Seq<char>) -> bool {
    match object_at(j, k) {
        Some(es) => forall|i: int| 0 <= i < es.len() ==> #[trigger] fits_format(es[i].1),
        None => false,
    }
}

/// `xs` holds, in key order, what the members of the object under `k` hold.
pub open spec fn format_map_from(j: Json, k: Seq<char>, xs: Vec<Format>) -> bool {
    match object_at(j, k) {
        Some(es) => xs@.len() == es.len() && forall|i: int|
            0 <= i < es.len() ==> #[trigger] format_from(es[i].1, xs@[i]),
        None => false,
    }
}

fn decode_format_map(v: &Json, key: &str, path: &Vec<String>) -> (r: Result<Vec<Format>, LoadError>)
    ensures
        r is Ok <==> fits_format_map(*v, key@),
        r matches Ok(xs) ==> format_map_from(*v, key@, xs),
        r is Err ==> r->Err_0 is Field,
{
    let es = entries(v, key, path)?;
    let here = child(path, key);
    let mut out: Vec<Format> = Vec::new();
    let mut i: usize = 0;
    while i < es.len()
        invariant
            i <= es@.len(),
            object_at(*v, key@) == Some(es@),
            out@.len() == i,
            forall|m: int| 0 <= m < i ==> #[trigger] fits_format(es@[m].1),
            forall|m: int| 0 <= m < i ==> #[trigger] format_from(es@[m].1, out@[m]),
        decreases es.len() - i,
    {
        match decode_format(&es[i].1, &child(&here, es[i].0.as_str())) {
            Ok(x) => out.push(x),
            Err(e) => {
                assert(!fits_format(es@[i as int].1));
                assert(object_at(*v, key@)->Some_0 == es@);
                return Err(e);
            },
        }
        i = i + 1;
    }
    Ok(out)
}

/// The member of `j` under `k` is an object whose members are `Handle` objects.
pub open spec fn fits_handle_map(j: Json, k: Seq<char>) -> bool {
    match object_at(j, k) {
        Some(es) => forall|i: int| 0 <= i < es.len() ==> #[trigger] fits_handle(es[i].1, MAX_PARENT_DEPTH as nat),
        None => false,
    }
}

/// `xs` holds, in key order, what the members of the object under `k` hold.
pub open spec fn handle_map_from(j: Json, k: Seq<char>, xs: Vec<Handle>) -> bool {
    match object_at(j, k) {
        Some(es) => xs@.len() == es.len() && forall|i: int|
            0 <= i < es.len() ==> #[trigger] handle_from(es[i].1, xs@[i], MAX_PARENT_DEPTH as nat),
        None => false,
    }
}

fn decode_handle_map(v: &Json, key: &str, path: &Vec<String>) -> (r: Result<Vec<Handle>, LoadError>)
    ensures
        r is Ok <==> fits_handle_map(*v, key@),
        r matches Ok(xs) ==> handle_map_from(*v, key@, xs),
        r is Err ==> r->Err_0 is Field,
{
    let es = entries(v, key, path)?;
    let here = child(path, key);
    let mut out: Vec<Handle> = Vec::new();
    let mut i: usize = 0;
    while i < es.len()
        invariant
            i <= es@.len(),
            object_at(*v, key@) == Some(es@),
            out@.len() == i,
            forall|m: int| 0 <= m < i ==> #[trigger] fits_handle(es@[m].1, MAX_PARENT_DEPTH as nat),
            forall|m: int| 0 <= m < i ==> #[trigger] handle_from(es@[m].1, out@[m], MAX_PARENT_DEPTH as nat),
        decreases es.len() - i,
    {
        match decode_handle(&es[i].1, &child(&here, es[i].0.as_str()), MAX_PARENT_DEPTH) {
            Ok(x) => out.push(x),
            Err(e) => {
                assert(!fits_handle(es@[i as int].1, MAX_PARENT_DEPTH as nat));
                assert(object_at(*v, key@)->Some_0 == es@);
                return Err(e);
            },
        }
        i = i + 1;
    }
    Ok(out)
}

/// The member of `j` under `k` is an object whose members are `Struct` objects.
pub open spec fn fits_struct_map(j: Json, k: Seq<char>) -> bool {
    match object_at(j, k) {
        Some(es) => forall|i: int| 0 <= i < es.len() ==> #[trigger] fits_struct(es[i].1),
        None => false,
    }
}

/// `xs` holds, in key order, what the members of the object under `k` hold.
pub open spec fn struct_map_from(j: Json, k: Seq<char>, xs: Vec<Struct>) -> bool {
    match object_at(j, k) {
        Some(es) => xs@.len() == es.len() && forall|i: int|
            0 <= i < es.len() ==> #[trigger] struct_from(es[i].1, xs@[i]),
        None => false,
    }
}

fn decode_struct_map(v: &Json, key: &str, path: &Vec<String>) -> (r: Result<Vec<Struct>, LoadError>)
    ensures
        r is Ok <==> fits_struct_map(*v, key@),
        r matches Ok(xs) ==> struct_map_from(*v, key@, xs),
        r is Err ==> r->Err_0 is Field,
{
    let es = entries(v, key, path)?;
    let here = child(path, key);
    let mut out: Vec<Struct> = Vec::new();
    let mut i: usize = 0;
    while i < es.len()
        invariant
            i <= es@.len(),
            object_at(*v, key@) == Some(es@),
            out@.len() == i,
            forall|m: int| 0 <= m < i ==> #[trigger] fits_struct(es@[m].1),
            forall|m: int| 0 <= m < i ==> #[trigger] struct_from(es@[m].1, out@[m]),
        decreases es.len() - i,
    {
        match decode_struct(&es[i].1, &child(&here, es[i].0.as_str())) {
            Ok(x) => out.push(x),
            Err(e) => {
                assert(!fits_struct(es@[i as int].1));
                assert(object_at(*v, key@)->Some_0 == es@);
                return Err(e);
            },
        }
        i = i + 1;
    }
    Ok(out)
}

/// The member of `j` under `k` is an object whose members are `Version` objects.
pub open spec fn fits_version_map(j: Json, k: Seq<char>) -> bool {
    match object_at(j, k) {
        Some(es) => forall|i: int| 0 <= i < es.len() ==> #[trigger] fits_version(es[i].1),
        None => false,
    }
}

/// `xs` holds, in key order, what the members of the object under `k` hold.
pub open spec fn version_map_from(j: Json, k: Seq<char>, xs: Vec<Version>) -> bool {
    match object_at(j, k) {
        Some(es) => xs@.len() == es.len() && forall|i: int|
            0 <= i < es.len() ==> #[trigger] version_from(es[i].1, xs@[i]),
        None => false,
    }
}

fn decode_version_map(v: &Json, key: &str, path: &Vec<String>) -> (r: Result<Vec<Version>, LoadError>)
    ensures
        r is Ok <==> fits_version_map(*v, key@),
        r matches Ok(xs) ==> version_map_from(*v, key@, xs),
        r is Err ==> r->Err_0 is Field,
{
    let es = entries(v, key, path)?;
    let here = child(path, key);
    let mut out: Vec<Version> = Vec::new();
    let mut i: usize = 0;
    while i < es.len()
        invariant
            i <= es@.len(),
            object_at(*v, key@) == Some(es@),
            out@.len() == i,
            forall|m: int| 0 <= m < i ==> #[trigger] fits_version(es@[m].1),
            forall|m: int| 0 <= m < i ==> #[trigger] version_from(es@[m].1, out@[m]),
        decreases es.len() - i,
    {
        match decode_version(&es[i].1, &child(&here, es[i].0.as_str())) {
            Ok(x) => out.push(x),
            Err(e) => {
                assert(!fits_version(es@[i as int].1));
                assert(object_at(*v, key@)->Some_0 == es@);
                return Err(e);
            },
        }
        i = i + 1;
    }
    Ok(out)
}

/// The member of `j` under `k` is an object whose members are `VideoCodec` objects.
pub open spec fn fits_video_codec_map(j: Json, k: Seq<char>) -> bool {
    match object_at(j, k) {
        Some(es) => forall|i: int| 0 <= i < es.len() ==> #[trigger] fits_video_codec(es[i].1),
        None => false,
    }
}

/// `xs` holds, in key order, what the members of the object under `k` hold.
pub open spec fn video_codec_map_from(j: Json, k: Seq<char>, xs: Vec<VideoCodec>) -> bool {
    match object_at(j, k) {
        Some(es) => xs@.len() == es.len() && forall|i: int|
            0 <= i < es.len() ==> #[trigger] video_codec_from(es[i].1, xs@[i]),
        None => false,
    }
}

fn decode_video_codec_map(v: &Json, key: &str, path: &Vec<String>) -> (r: Result<Vec<VideoCodec>, LoadError>)
    ensures
        r is Ok <==> fits_video_codec_map(*v, key@),
        r matches Ok(xs) ==> video_codec_map_from(*v, key@, xs),
        r is Err ==> r->Err_0 is Field,
{
    let es = entries(v, key, path)?;
    let here = child(path, key);
    let mut out: Vec<VideoCodec> = Vec::new();
    let mut i: usize = 0;
    while i < es.len()
        invariant
            i <= es@.len(),
            object_at(*v, key@) == Some(es@),
            out@.len() == i,
            forall|m: int| 0 <= m < i ==> #[trigger] fits_video_codec(es@[m].1),
            forall|m: int| 0 <= m < i ==> #[trigger] video_codec_from(es@[m].1, out@[m]),
        decreases es.len() - i,
    {
        match decode_video_codec(&es[i].1, &child(&here, es[i].0.as_str())) {
            Ok(x) => out.push(x),
            Err(e) => {
                assert(!fits_video_codec(es@[i as int].1));
                assert(object_at(*v, key@)->Some_0 == es@);
                return Err(e);
            },
        }
        i = i + 1;
    }
    Ok(out)
}

/// The member of `j` under `k` is an object whose members are `VideoFormat` objects.
pub open spec fn fits_video_format_map(j: Json, k: Seq<char>) -> bool {
    match object_at(j, k) {
        Some(es) => forall|i: int| 0 <= i < es.len() ==> #[trigger] fits_video_format(es[i].1),
        None => false,
    }
}

/// `xs` holds, in key order, what the members of the object under `k` hold.
pub open spec fn video_format_map_from(j: Json, k: Seq<char>, xs: Vec<VideoFormat>) -> bool {
    match object_at(j, k) {
        Some(es) => xs@.len() == es.len() && forall|i: int|
            0 <= i < es.len() ==> #[trigger] video_format_from(es[i].1, xs@[i]),
        None => false,
    }
}

fn decode_video_format_map(v: &Json, key: &str, path: &Vec<String>) -> (r: Result<Vec<VideoFormat>, LoadError>)
    ensures
        r is Ok <==> fits_video_format_map(*v, key@),
        r matches Ok(xs) ==> video_format_map_from(*v, key@, xs),
        r is Err ==> r->Err_0 is Field,
{
    let es = entries(v, key, path)?;
    let here = child(path, key);
    let mut out: Vec<VideoFormat> = Vec::new();
    let mut i: usize = 0;
    while i < es.len()
        invariant
            i <= es@.len(),
            object_at(*v, key@) == Some(es@),
            out@.len() == i,
            forall|m: int| 0 <= m < i ==> #[trigger] fits_video_format(es@[m].1),
            forall|m: int| 0 <= m < i ==> #[trigger] video_format_from(es@[m].1, out@[m]),
        decreases es.len() - i,
    {
        match decode_video_format(&es[i].1, &child(&here, es[i].0.as_str())) {
            Ok(x) => out.push(x),
            Err(e) => {
                assert(!fits_video_format(es@[i as int].1));
                assert(object_at(*v, key@)->Some_0 == es@);
                return Err(e);
            },
        }
        i = i + 1;
    }
    Ok(out)
}

/// The member of `j` under `k` is an object whose members are `VideoProfileMember` objects.
pub open spec fn fits_video_profile_member_map(j: Json, k: Seq<char>) -> bool {
    match object_at(j, k) {
        Some(es) => forall|i: int| 0 <= i < es.len() ==> #[trigger] fits_video_profile_member(es[i].1),
        None => false,
    }
}

/// `xs` holds, in key order, what the members of the object under `k` hold.
pub open spec fn video_profile_member_map_from(j: Json, k: Seq<char>, xs: Vec<VideoProfileMember>) -> bool {
    match object_at(j, k) {
        Some(es) => xs@.len() == es.len() && forall|i: int|
            0 <= i < es.len() ==> #[trigger] video_profile_member_from(es[i].1, xs@[i]),
        None => false,
    }
}

fn decode_video_profile_member_map(v: &Json, key: &str, path: &Vec<String>) -> (r: Result<Vec<VideoProfileMember>, LoadError>)
    ensures
        r is Ok <==> fits_video_profile_member_map(*v, key@),
        r matches Ok(xs) ==> video_profile_member_map_from(*v, key@, xs),
        r is Err ==> r->Err_0 is Field,
{
    let es = entries(v, key, path)?;
    let here = child(path, key);
    let mut out: Vec<VideoProfileMember> = Vec::new();
    let mut i: usize = 0;
    while i < es.len()
        invariant
            i <= es@.len(),
            object_at(*v, key@) == Some(es@),
            out@.len() == i,
            forall|m: int| 0 <= m < i ==> #[trigger] fits_video_profile_member(es@[m].1),
            forall|m: int| 0 <= m < i ==> #[trigger] video_profile_member_from(es@[m].1, out@[m]),
        decreases es.len() - i,
    {
        match decode_video_profile_member(&es[i].1, &child(&here, es[i].0.as_str())) {
            Ok(x) => out.push(x),
            Err(e) => {
                assert(!fits_video_profile_member(es@[i as int].1));
                assert(object_at(*v, key@)->Some_0 == es@);
                return Err(e);
            },
        }
        i = i + 1;
    }
    Ok(out)
}

/// The member of `j` under `k` is an object whose members are `VideoProfiles` objects.
pub open spec fn fits_video_profiles_map(j: Json, k: Seq<char>) -> bool {
    match object_at(j, k) {
        Some(es) => forall|i: int| 0 <= i < es.len() ==> #[trigger] fits_video_profiles(es[i].1),
        None => false,
    }
}

/// `xs` holds, in key order, what the members of the object under `k` hold.
pub open spec fn video_profiles_map_from(j: Json, k: Seq<char>, xs: Vec<VideoProfiles>) -> bool {
    match object_at(j, k) {
        Some(es) => xs@.len() == es.len() && forall|i: int|
            0 <= i < es.len() ==> #[trigger] video_profiles_from(es[i].1, xs@[i]),
        None => false,
    }
}

fn decode_video_profiles_map(v: &Json, key: &str, path: &Vec<String>) -> (r: Result<Vec<VideoProfiles>, LoadError>)
    ensures
        r is Ok <==> fits_video_profiles_map(*v, key@),
        r matches Ok(xs) ==> video_profiles_map_from(*v, key@, xs),
        r is Err ==> r->Err_0 is Field,
{
    let es = entries(v, key, path)?;
    let here = child(path, key);
    let mut out: Vec<VideoProfiles> = Vec::new();
    let mut i: usize = 0;
    while i < es.len()
        invariant
            i <= es@.len(),
            object_at(*v, key@) == Some(es@),
            out@.len() == i,
            forall|m: int| 0 <= m < i ==> #[trigger] fits_video_profiles(es@[m].1),
            forall|m: int| 0 <= m < i ==> #[trigger] video_profiles_from(es@[m].1, out@[m]),
        decreases es.len() - i,
    {
        match decode_video_profiles(&es[i].1, &child(&here, es[i].0.as_str())) {
            Ok(x) => out.push(x),
            Err(e) => {
                assert(!fits_video_profiles(es@[i as int].1));
                assert(object_at(*v, key@)->Some_0 == es@);
                return Err(e);
            },
        }
        i = i + 1;
    }
    Ok(out)
}

/// The member of `j` under `k` is an object whose members are `VideoStdHeader` objects.
pub open spec fn fits_video_std_header_map(j: Json, k: Seq<char>) -> bool {
    match object_at(j, k) {
        Some(es) => forall|i: int| 0 <= i < es.len() ==> #[trigger] fits_video_std_header(es[i].1),
        None => false,
    }
}

/// `xs` holds, in key order, what the members of the object under `k` hold.
pub open spec fn video_std_header_map_from(j: Json, k: Seq<char>, xs: Vec<VideoStdHeader>) -> bool {
    match object_at(j, k) {
        Some(es) => xs@.len() == es.len() && forall|i: int|
            0 <= i < es.len() ==> #[trigger] video_std_header_from(es[i].1, xs@[i]),
        None => false,
    }
}

fn decode_video_std_header_map(v: &Json, key: &str, path: &Vec<String>) -> (r: Result<Vec<VideoStdHeader>, LoadError>)
    ensures
        r is Ok <==> fits_video_std_header_map(*v, key@),
        r matches Ok(xs) ==> video_std_header_map_from(*v, key@, xs),
        r is Err ==> r->Err_0 is Field,
{
    let es = entries(v, key, path)?;
    let here = child(path, key);
    let mut out: Vec<VideoStdHeader> = Vec::new();
    let mut i: usize = 0;
    while i < es.len()
        invariant
            i <= es@.len(),
            object_at(*v, key@) == Some(es@),
            out@.len() == i,
            forall|m: int| 0 <= m < i ==> #[trigger] fits_video_std_header(es@[m].1),
            forall|m: int| 0 <= m < i ==> #[trigger] video_std_header_from(es@[m].1, out@[m]),
        decreases es.len() - i,
    {
        match decode_video_std_header(&es[i].1, &child(&here, es[i].0.as_str())) {
            Ok(x) => out.push(x),
            Err(e) => {
                assert(!fits_video_std_header(es@[i as int].1));
                assert(object_at(*v, key@)->Some_0 == es@);
                return Err(e);
            },
        }
        i = i + 1;
    }
    Ok(out)
}


proof fn lemma_entry_position_push(es: Seq<(String, Json)>, e: (String, Json), k: Seq<char>)
    requires
        e.0@ != k,
    ensures
        entry_position(es.push(e), k) == entry_position(es, k),
{
    assert(es.push(e).drop_last() == es);
}

/// The document's top-level keys are all that the schema names there.
pub open spec fn top_level_key(k: Seq<char>) -> bool {
    (k == "headerVersion"@
        || k == "headerVersionComplete"@
        || k == "extensions"@
        || k == "versions"@
        || k == "handles"@
        || k == "commands"@
        || k == "structs"@
        || k == "enums"@
        || k == "bitmasks"@
        || k == "flags"@
        || k == "constants"@
        || k == "formats"@
        || k == "syncStage"@
        || k == "syncAccess"@
        || k == "syncPipeline"@
        || k == "spirv"@
        || k == "platforms"@
        || k == "vendorTags"@
        || k == "videoCodecs"@
        || k == "videoStd"@)
}

/// A member appended to the document's top-level object under a key that
/// the schema does not name changes neither whether the tree decodes nor
/// what it decodes to.
pub proof fn lemma_unknown_member_ignored(es: Vec<(String, Json)>, es2: Vec<(String, Json)>, e: (String, Json), o: VulkanObject)
    requires
        es2@ == es@.push(e),
        !top_level_key(e.0@),
    ensures
        fits_vulkan_object(Json::Object(es2)) == fits_vulkan_object(Json::Object(es)),
        vulkan_object_from(Json::Object(es2), o) == vulkan_object_from(Json::Object(es), o),
{
    let j = Json::Object(es);
    let j2 = Json::Object(es2);
    assert forall|k: Seq<char>| k != e.0@ implies member_of(j2, k) == member_of(j, k) by {
        lemma_entry_position_push(es@, e, k);
        lemma_entry_position_bounds(es@, k);
        let p = entry_position(es@, k);
        if p >= 0 {
            assert(es2@[p] == es@[p]);
        }
    }
    assert(member_of(j2, "headerVersion"@) == member_of(j, "headerVersion"@));
    assert(member_of(j2, "headerVersionComplete"@) == member_of(j, "headerVersionComplete"@));
    assert(member_of(j2, "extensions"@) == member_of(j, "extensions"@));
    assert(member_of(j2, "versions"@) == member_of(j, "versions"@));
    assert(member_of(j2, "handles"@) == member_of(j, "handles"@));
    assert(member_of(j2, "commands"@) == member_of(j, "commands"@));
    assert(member_of(j2, "structs"@) == member_of(j, "structs"@));
    assert(member_of(j2, "enums"@) == member_of(j, "enums"@));
    assert(member_of(j2, "bitmasks"@) == member_of(j, "bitmasks"@));
    assert(member_of(j2, "flags"@) == member_of(j, "flags"@));
    assert(member_of(j2, "constants"@) == member_of(j, "constants"@));
    assert(member_of(j2, "formats"@) == member_of(j, "formats"@));
    assert(member_of(j2, "syncStage"@) == member_of(j, "syncStage"@));
    assert(member_of(j2, "syncAccess"@) == member_of(j, "syncAccess"@));
    assert(member_of(j2, "syncPipeline"@) == member_of(j, "syncPipeline"@));
    assert(member_of(j2, "spirv"@) == member_of(j, "spirv"@));
    assert(member_of(j2, "platforms"@) == member_of(j, "platforms"@));
    assert(member_of(j2, "vendorTags"@) == member_of(j, "vendorTags"@));
    assert(member_of(j2, "videoCodecs"@) == member_of(j, "videoCodecs"@));
    assert(member_of(j2, "videoStd"@) == member_of(j, "videoStd"@));
}

} // verus!

//! The immutable snapshot model: a typed description of a database structure
//! at one point in time. Entities inside a snapshot are addressed by their
//! positional index, never by name.

use vstd::prelude::*;

verus! {

/// How many values a column holds: exactly one, at most one, or a list.
#[derive(Clone, Copy, Debug, PartialEq, Eq, Structural)]
pub enum ColumnArity {
    Required,
    Nullable,
    List,
}

/// The engine-independent classification of a column's type. The `Enum`
/// family carries the name of the enumerated type the column refers to.
#[derive(Clone, Debug, PartialEq, Eq)]
pub enum ColumnTypeFamily {
    Int,
    BigInt,
    Float,
    Decimal,
    Boolean,
    Text,
    DateTime,
    Binary,
    Json,
    Uuid,
    Enum(String),
    Unsupported,
}

/// A column's type: family classification, optional vendor-specific native
/// type name, and arity.
#[derive(Clone, Debug, PartialEq, Eq)]
pub struct ColumnType {
    pub family: ColumnTypeFamily,
    pub native: Option<String>,
    pub arity: ColumnArity,
}

/// A column's default value: either a literal rendered as text, or a
/// generator expression evaluated by the database.
#[derive(Clone, Debug, PartialEq, Eq)]
pub enum ColumnDefault {
    Literal(String),
    Generated(String),
}

#[derive(Clone, Debug, PartialEq, Eq)]
pub struct Column {
    pub name: String,
    pub tpe: ColumnType,
    pub default: Option<ColumnDefault>,
}

/// An index over an ordered list of columns, referenced by column name.
#[derive(Clone, Debug, PartialEq, Eq)]
pub struct Index {
    pub name: Option<String>,
    pub columns: Vec<String>,
    pub unique: bool,
}

/// The action a foreign key takes when the referenced row is deleted.
#[derive(Clone, Copy, Debug, PartialEq, Eq, Structural)]
pub enum ForeignKeyAction {
    NoAction,
    Restrict,
    Cascade,
    SetNull,
    SetDefault,
}

/// A foreign key constraint: an ordered list of constrained columns paired
/// positionally with the referenced columns of the referenced table.
#[derive(Clone, Debug, PartialEq, Eq)]
pub struct ForeignKey {
    pub constraint_name: Option<String>,
    pub columns: Vec<String>,
    pub referenced_table: String,
    pub referenced_columns: Vec<String>,
    pub on_delete_action: ForeignKeyAction,
}

/// A table: name, ordered columns, indexes, foreign keys, and an optional
/// primary key given as an ordered list of column positions.
#[derive(Clone, Debug, PartialEq, Eq)]
pub struct Table {
    pub name: String,
    pub columns: Vec<Column>,
    pub indexes: Vec<Index>,
    pub foreign_keys: Vec<ForeignKey>,
    pub primary_key: Option<Vec<usize>>,
}

/// A native enumerated type: name and ordered variant labels.
#[derive(Clone, Debug, PartialEq, Eq)]
pub struct DbEnum {
    pub name: String,
    pub variants: Vec<String>,
}

/// A complete structural snapshot of a database schema.
#[derive(Clone, Debug, PartialEq, Eq)]
pub struct SqlSchema {
    pub tables: Vec<Table>,
    pub enums: Vec<DbEnum>,
}

// --- Spec-level views and equality of model values ---------------------------

/// The views of a sequence of strings.
pub open spec fn str_seq(v: Seq<String>) -> Seq<Seq<char>> {
    v.map_values(|s: String| s@)
}

pub open spec fn opt_str_view(o: Option<String>) -> Option<Seq<char>> {
    match o {
        Option::Some(s) => Option::Some(s@),
        Option::None => Option::None,
    }
}

/// Structural equality of two type families, comparing enum names by content.
pub open spec fn family_eq(a: ColumnTypeFamily, b: ColumnTypeFamily) -> bool {
    match (a, b) {
        (ColumnTypeFamily::Int, ColumnTypeFamily::Int) => true,
        (ColumnTypeFamily::BigInt, ColumnTypeFamily::BigInt) => true,
        (ColumnTypeFamily::Float, ColumnTypeFamily::Float) => true,
        (ColumnTypeFamily::Decimal, ColumnTypeFamily::Decimal) => true,
        (ColumnTypeFamily::Boolean, ColumnTypeFamily::Boolean) => true,
        (ColumnTypeFamily::Text, ColumnTypeFamily::Text) => true,
        (ColumnTypeFamily::DateTime, ColumnTypeFamily::DateTime) => true,
        (ColumnTypeFamily::Binary, ColumnTypeFamily::Binary) => true,
        (ColumnTypeFamily::Json, ColumnTypeFamily::Json) => true,
        (ColumnTypeFamily::Uuid, ColumnTypeFamily::Uuid) => true,
        (ColumnTypeFamily::Enum(x), ColumnTypeFamily::Enum(y)) => x@ == y@,
        (ColumnTypeFamily::Unsupported, ColumnTypeFamily::Unsupported) => true,
        _ => false,
    }
}

pub open spec fn opt_string_eq_spec(a: Option<String>, b: Option<String>) -> bool {
    opt_str_view(a) == opt_str_view(b)
}

pub open spec fn column_default_eq(a: ColumnDefault, b: ColumnDefault) -> bool {
    match (a, b) {
        (ColumnDefault::Literal(x), ColumnDefault::Literal(y)) => x@ == y@,
        (ColumnDefault::Generated(x), ColumnDefault::Generated(y)) => x@ == y@,
        _ => false,
    }
}

pub open spec fn opt_default_eq(a: Option<ColumnDefault>, b: Option<ColumnDefault>) -> bool {
    match (a, b) {
        (Option::Some(x), Option::Some(y)) => column_default_eq(x, y),
        (Option::None, Option::None) => true,
        _ => false,
    }
}

pub open spec fn column_type_eq(a: ColumnType, b: ColumnType) -> bool {
    &&& family_eq(a.family, b.family)
    &&& opt_string_eq_spec(a.native, b.native)
    &&& a.arity == b.arity
}

pub open spec fn column_eq(a: Column, b: Column) -> bool {
    &&& a.name@ == b.name@
    &&& column_type_eq(a.tpe, b.tpe)
    &&& opt_default_eq(a.default, b.default)
}

// --- Executable equality helpers, each proved against the spec above ---------

pub fn string_eq(a: &String, b: &String) -> (r: bool)
    ensures
        r == (a@ == b@),
{
    *a == *b
}

pub fn opt_string_eq(a: &Option<String>, b: &Option<String>) -> (r: bool)
    ensures
        r == opt_string_eq_spec(*a, *b),
{
    match (a, b) {
        (Option::Some(x), Option::Some(y)) => *x == *y,
        (Option::None, Option::None) => true,
        _ => false,
    }
}

/// Element-wise equality of two lists of strings.
pub fn string_list_eq(a: &Vec<String>, b: &Vec<String>) -> (r: bool)
    ensures
        r == (str_seq(a@) == str_seq(b@)),
{
    if a.len() != b.len() {
        assert(str_seq(a@).len() != str_seq(b@).len());
        return false;
    }
    let mut i: usize = 0;
    while i < a.len()
        invariant
            i <= a.len(),
            a@.len() == b@.len(),
            forall|k: int| 0 <= k < i ==> str_seq(a@)[k] == str_seq(b@)[k],
        decreases a.len() - i,
    {
        if !string_eq(&a[i], &b[i]) {
            assert(str_seq(a@)[i as int] != str_seq(b@)[i as int]);
            return false;
        }
        i = i + 1;
    }
    proof {
        assert(str_seq(a@) =~= str_seq(b@));
    }
    true
}

pub fn usize_list_eq(a: &Vec<usize>, b: &Vec<usize>) -> (r: bool)
    ensures
        r == (a@ == b@),
{
    if a.len() != b.len() {
        return false;
    }
    let mut i: usize = 0;
    while i < a.len()
        invariant
            i <= a.len(),
            a@.len() == b@.len(),
            forall|k: int| 0 <= k < i ==> a@[k] == b@[k],
        decreases a.len() - i,
    {
        if a[i] != b[i] {
            return false;
        }
        i = i + 1;
    }
    proof {
        assert(a@ =~= b@);
    }
    true
}

pub fn families_equal(a: &ColumnTypeFamily, b: &ColumnTypeFamily) -> (r: bool)
    ensures
        r == family_eq(*a, *b),
{
    match (a, b) {
        (ColumnTypeFamily::Int, ColumnTypeFamily::Int) => true,
        (ColumnTypeFamily::BigInt, ColumnTypeFamily::BigInt) => true,
        (ColumnTypeFamily::Float, ColumnTypeFamily::Float) => true,
        (ColumnTypeFamily::Decimal, ColumnTypeFamily::Decimal) => true,
        (ColumnTypeFamily::Boolean, ColumnTypeFamily::Boolean) => true,
        (ColumnTypeFamily::Text, ColumnTypeFamily::Text) => true,
        (ColumnTypeFamily::DateTime, ColumnTypeFamily::DateTime) => true,
        (ColumnTypeFamily::Binary, ColumnTypeFamily::Binary) => true,
        (ColumnTypeFamily::Json, ColumnTypeFamily::Json) => true,
        (ColumnTypeFamily::Uuid, ColumnTypeFamily::Uuid) => true,
        (ColumnTypeFamily::Enum(x), ColumnTypeFamily::Enum(y)) => *x == *y,
        (ColumnTypeFamily::Unsupported, ColumnTypeFamily::Unsupported) => true,
        _ => false,
    }
}

pub fn column_defaults_equal(a: &Option<ColumnDefault>, b: &Option<ColumnDefault>) -> (r: bool)
    ensures
        r == opt_default_eq(*a, *b),
{
    match (a, b) {
        (Option::Some(ColumnDefault::Literal(x)), Option::Some(ColumnDefault::Literal(y))) => *x
            == *y,
        (Option::Some(ColumnDefault::Generated(x)), Option::Some(ColumnDefault::Generated(y))) => *x
            == *y,
        (Option::None, Option::None) => true,
        _ => false,
    }
}

/// Clone a type family, preserving its value.
pub fn clone_family(a: &ColumnTypeFamily) -> (r: ColumnTypeFamily)
    ensures
        r == *a,
{
    match a {
        ColumnTypeFamily::Int => ColumnTypeFamily::Int,
        ColumnTypeFamily::BigInt => ColumnTypeFamily::BigInt,
        ColumnTypeFamily::Float => ColumnTypeFamily::Float,
        ColumnTypeFamily::Decimal => ColumnTypeFamily::Decimal,
        ColumnTypeFamily::Boolean => ColumnTypeFamily::Boolean,
        ColumnTypeFamily::Text => ColumnTypeFamily::Text,
        ColumnTypeFamily::DateTime => ColumnTypeFamily::DateTime,
        ColumnTypeFamily::Binary => ColumnTypeFamily::Binary,
        ColumnTypeFamily::Json => ColumnTypeFamily::Json,
        ColumnTypeFamily::Uuid => ColumnTypeFamily::Uuid,
        ColumnTypeFamily::Enum(s) => ColumnTypeFamily::Enum(s.clone()),
        ColumnTypeFamily::Unsupported => ColumnTypeFamily::Unsupported,
    }
}

/// Copy a list of positions.
pub fn clone_usize_vec(v: &Vec<usize>) -> (r: Vec<usize>)
    ensures
        r@ == v@,
{
    let mut out: Vec<usize> = Vec::new();
    let mut i: usize = 0;
    while i < v.len()
        invariant
            i <= v@.len(),
            out@ == v@.take(i as int),
        decreases v@.len() - i,
    {
        out.push(v[i]);
        proof {
            crate::matching::lemma_take_push(v@, i as int);
        }
        i = i + 1;
    }
    proof {
        assert(v@.take(v@.len() as int) =~= v@);
    }
    out
}

/// Copy a list of strings, preserving each string's value.
pub fn clone_string_vec(v: &Vec<String>) -> (r: Vec<String>)
    ensures
        str_seq(r@) == str_seq(v@),
{
    let mut out: Vec<String> = Vec::new();
    let mut i: usize = 0;
    while i < v.len()
        invariant
            i <= v@.len(),
            out@.len() == i,
            forall|k: int| 0 <= k < i ==> str_seq(out@)[k] == str_seq(v@)[k],
        decreases v@.len() - i,
    {
        out.push(v[i].clone());
        i = i + 1;
    }
    proof {
        assert(str_seq(out@) =~= str_seq(v@));
    }
    out
}

pub fn column_types_equal(a: &ColumnType, b: &ColumnType) -> (r: bool)
    ensures
        r == column_type_eq(*a, *b),
{
    families_equal(&a.family, &b.family) && opt_string_eq(&a.native, &b.native) && a.arity
        == b.arity
}

} // verus!

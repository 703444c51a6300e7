//! The engine capability interface: a closed set of behavioral facts the
//! differ and the step assembler consult. Every query is a total, stateless
//! function of the capability data, so classification results never vary
//! between calls.

use vstd::prelude::*;
use crate::schema::{family_eq, ColumnTypeFamily};

verus! {

/// Classification of a column type change: whether the engine can alter the
/// column in place without losing data, with a possible loss, or not at all.
#[derive(Clone, Copy, Debug, PartialEq, Eq, Structural)]
pub enum ColumnTypeChange {
    SafeCast,
    RiskyCast,
    NotCastable,
}

/// How a flavour classifies casts between type families that have no
/// engine-independent classification: a lenient engine attempts an in-place
/// conversion that may fail on existing rows, a strict engine refuses and
/// forces the column to be dropped and recreated.
#[derive(Clone, Copy, Debug, PartialEq, Eq, Structural)]
pub enum CastPolicy {
    Lenient,
    Strict,
}

/// The per-engine behavioral facts consulted during diffing. All fields are
/// plain data; no query result can depend on anything but the flavour value
/// and the query's arguments.
#[derive(Clone, Copy, Debug, PartialEq, Eq, Structural)]
pub struct Flavour {
    /// Table names are compared ignoring ASCII case.
    pub table_names_case_insensitive: bool,
    /// Column names are compared ignoring ASCII case.
    pub column_names_case_insensitive: bool,
    /// The engine supports renaming an index in place; otherwise a rename is
    /// expressed as a drop followed by a recreation of the index.
    pub can_alter_index: bool,
    /// The engine has native enumerated types that need their own steps.
    pub has_native_enums: bool,
    /// Foreign keys of newly created tables are pushed as separate steps
    /// rather than folded into the table creation.
    pub should_push_foreign_keys_from_created_tables: bool,
    /// Indexes of newly created tables are pushed as separate steps rather
    /// than folded into the table creation.
    pub should_create_indexes_from_created_tables: bool,
    /// The engine creates an index for every foreign key automatically; such
    /// indexes are dropped with their foreign key, never on their own.
    pub should_skip_fk_indexes: bool,
    /// Indexes of dropped tables must be dropped explicitly when tables are
    /// being redefined.
    pub should_drop_indexes_from_dropped_tables: bool,
    /// Dropping and recreating a primary-key column forces the primary key
    /// itself to be dropped and recreated.
    pub should_recreate_the_primary_key_on_column_recreate: bool,
    /// Indexes whose columns were destructively recreated must be re-created.
    pub indexes_should_be_recreated_after_column_drop: bool,
    /// The engine lacks a general in-place column alteration, so table pairs
    /// with structural changes are rebuilt wholesale.
    pub uses_redefine_for_alter: bool,
    /// How casts without an engine-independent classification are treated.
    pub cast_policy: CastPolicy,
}

// --- Name equivalence ---------------------------------------------------------

/// ASCII lower-casing of a single character; other characters are unchanged.
pub open spec fn lower_char(c: char) -> char {
    if 65 <= c as u32 && c as u32 <= 90 {
        ((c as u32 + 32) as u8) as char
    } else {
        c
    }
}

pub open spec fn lower_seq(s: Seq<char>) -> Seq<char> {
    s.map_values(|c: char| lower_char(c))
}

/// Name equivalence: exact equality, or equality up to ASCII case.
pub open spec fn names_equiv(case_insensitive: bool, a: Seq<char>, b: Seq<char>) -> bool {
    if case_insensitive {
        lower_seq(a) == lower_seq(b)
    } else {
        a == b
    }
}

fn lower_char_exec(c: char) -> (r: char)
    ensures
        r == lower_char(c),
{
    let u = c as u32;
    if 65 <= u && u <= 90 {
        ((u + 32) as u8) as char
    } else {
        c
    }
}

/// Whether two names are equivalent under the given case-sensitivity rule.
pub fn names_match(case_insensitive: bool, a: &String, b: &String) -> (r: bool)
    ensures
        r == names_equiv(case_insensitive, a@, b@),
{
    if !case_insensitive {
        return *a == *b;
    }
    let a_str = a.as_str();
    let b_str = b.as_str();
    let a_len = a_str.unicode_len();
    let b_len = b_str.unicode_len();
    if a_len != b_len {
        assert(lower_seq(a@).len() != lower_seq(b@).len());
        return false;
    }
    let mut i: usize = 0;
    while i < a_len
        invariant
            i <= a_len,
            a_len == a@.len(),
            b_len == b@.len(),
            a_len == b_len,
            a_str@ == a@,
            b_str@ == b@,
            forall|k: int| 0 <= k < i ==> lower_seq(a@)[k] == lower_seq(b@)[k],
        decreases a_len - i,
    {
        let ca = lower_char_exec(a_str.get_char(i));
        let cb = lower_char_exec(b_str.get_char(i));
        if ca != cb {
            assert(lower_seq(a@)[i as int] != lower_seq(b@)[i as int]);
            return false;
        }
        i = i + 1;
    }
    proof {
        assert(lower_seq(a@) =~= lower_seq(b@));
    }
    true
}

/// Name equivalence is symmetric: the order of the two names never matters.
pub proof fn lemma_names_equiv_symmetric(ci: bool, a: Seq<char>, b: Seq<char>)
    ensures
        names_equiv(ci, a, b) == names_equiv(ci, b, a),
{
}

/// Name equivalence is reflexive: every name is equivalent to itself.
pub proof fn lemma_names_equiv_reflexive(ci: bool, a: Seq<char>)
    ensures
        names_equiv(ci, a, a),
{
}

// --- Cast classification ------------------------------------------------------

/// The classification of an in-place change from one type family to another,
/// a total function of the flavour's cast policy and the two families alone.
pub open spec fn classify_cast_spec(
    policy: CastPolicy,
    previous: ColumnTypeFamily,
    next: ColumnTypeFamily,
) -> ColumnTypeChange {
    if family_eq(previous, next) {
        ColumnTypeChange::SafeCast
    } else {
        match (previous, next) {
            (ColumnTypeFamily::Int, ColumnTypeFamily::BigInt) => ColumnTypeChange::SafeCast,
            (ColumnTypeFamily::Int, ColumnTypeFamily::Decimal) => ColumnTypeChange::SafeCast,
            (ColumnTypeFamily::Int, ColumnTypeFamily::Float) => ColumnTypeChange::SafeCast,
            (ColumnTypeFamily::BigInt, ColumnTypeFamily::Int) => ColumnTypeChange::RiskyCast,
            (ColumnTypeFamily::BigInt, ColumnTypeFamily::Decimal) => ColumnTypeChange::SafeCast,
            (ColumnTypeFamily::BigInt, ColumnTypeFamily::Float) => ColumnTypeChange::RiskyCast,
            (ColumnTypeFamily::Decimal, ColumnTypeFamily::Int) => ColumnTypeChange::RiskyCast,
            (ColumnTypeFamily::Decimal, ColumnTypeFamily::BigInt) => ColumnTypeChange::RiskyCast,
            (ColumnTypeFamily::Decimal, ColumnTypeFamily::Float) => ColumnTypeChange::RiskyCast,
            (ColumnTypeFamily::Float, ColumnTypeFamily::Int) => ColumnTypeChange::RiskyCast,
            (ColumnTypeFamily::Float, ColumnTypeFamily::BigInt) => ColumnTypeChange::RiskyCast,
            (ColumnTypeFamily::Float, ColumnTypeFamily::Decimal) => ColumnTypeChange::RiskyCast,
            (_, ColumnTypeFamily::Text) => ColumnTypeChange::SafeCast,
            (ColumnTypeFamily::Text, _) => ColumnTypeChange::RiskyCast,
            _ => match policy {
                CastPolicy::Lenient => ColumnTypeChange::RiskyCast,
                CastPolicy::Strict => ColumnTypeChange::NotCastable,
            },
        }
    }
}

/// Classify an in-place type change under the flavour's cast policy.
pub fn classify_cast(
    flavour: &Flavour,
    previous: &ColumnTypeFamily,
    next: &ColumnTypeFamily,
) -> (r: ColumnTypeChange)
    ensures
        r == classify_cast_spec(flavour.cast_policy, *previous, *next),
{
    if crate::schema::families_equal(previous, next) {
        return ColumnTypeChange::SafeCast;
    }
    match (previous, next) {
        (ColumnTypeFamily::Int, ColumnTypeFamily::BigInt) => ColumnTypeChange::SafeCast,
        (ColumnTypeFamily::Int, ColumnTypeFamily::Decimal) => ColumnTypeChange::SafeCast,
        (ColumnTypeFamily::Int, ColumnTypeFamily::Float) => ColumnTypeChange::SafeCast,
        (ColumnTypeFamily::BigInt, ColumnTypeFamily::Int) => ColumnTypeChange::RiskyCast,
        (ColumnTypeFamily::BigInt, ColumnTypeFamily::Decimal) => ColumnTypeChange::SafeCast,
        (ColumnTypeFamily::BigInt, ColumnTypeFamily::Float) => ColumnTypeChange::RiskyCast,
        (ColumnTypeFamily::Decimal, ColumnTypeFamily::Int) => ColumnTypeChange::RiskyCast,
        (ColumnTypeFamily::Decimal, ColumnTypeFamily::BigInt) => ColumnTypeChange::RiskyCast,
        (ColumnTypeFamily::Decimal, ColumnTypeFamily::Float) => ColumnTypeChange::RiskyCast,
        (ColumnTypeFamily::Float, ColumnTypeFamily::Int) => ColumnTypeChange::RiskyCast,
        (ColumnTypeFamily::Float, ColumnTypeFamily::BigInt) => ColumnTypeChange::RiskyCast,
        (ColumnTypeFamily::Float, ColumnTypeFamily::Decimal) => ColumnTypeChange::RiskyCast,
        (_, ColumnTypeFamily::Text) => ColumnTypeChange::SafeCast,
        (ColumnTypeFamily::Text, _) => ColumnTypeChange::RiskyCast,
        _ => match flavour.cast_policy {
            CastPolicy::Lenient => ColumnTypeChange::RiskyCast,
            CastPolicy::Strict => ColumnTypeChange::NotCastable,
        },
    }
}

// --- Reserved bookkeeping table -----------------------------------------------

/// The reserved bookkeeping table name that is always excluded from diffing.
pub open spec fn ignored_table_name() -> Seq<char> {
    "_prisma_migrations"@
}

pub open spec fn table_is_ignored_spec(table_name: Seq<char>) -> bool {
    table_name == ignored_table_name()
}

/// Whether a table is excluded from diffing regardless of match outcome.
pub fn table_is_ignored(table_name: &String) -> (r: bool)
    ensures
        r == table_is_ignored_spec(table_name@),
{
    let reserved: String = String::from_str("_prisma_migrations");
    *table_name == reserved
}

} // verus!

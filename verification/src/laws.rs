//! The laws of the diff engine, each proved from the contracts in the rest of
//! the library: symmetry of create and drop, the phase-ordering guarantees of
//! the emitted plan, and the determinism of cast classification.

use vstd::prelude::*;
use crate::database::{
    created_tables_s, dropped_tables_s, table_active, table_match_in_next, table_match_in_prev,
    tables_match,
};
use crate::differ::{calculate_steps_s, create_tables_s, drop_tables_s};
use crate::flavour::{
    classify_cast_spec, lemma_names_equiv_symmetric, ColumnTypeChange, Flavour,
};
use crate::matching::{
    lemma_first_where_congruent, lemma_indices_where_upto_congruent,
};
use crate::schema::{family_eq, ColumnTypeFamily, SqlSchema, Table};
use crate::steps::StepV;

verus! {

// --- Symmetry of create and drop --------------------------------------------------

proof fn lemma_created_equals_dropped(f: Flavour, a: SqlSchema, b: SqlSchema)
    ensures
        created_tables_s(f, a, b) == dropped_tables_s(f, b, a),
{
    let q1 = |j: int|
        table_active(b.tables@[j]) && table_match_in_prev(f, a.tables@, b.tables@[j]) == -1;
    let q2 = |i: int|
        table_active(b.tables@[i]) && table_match_in_next(f, b.tables@[i], a.tables@) == -1;
    assert forall|k: int| 0 <= k < b.tables@.len() implies #[trigger] q1(k) == q2(k) by {
        let p1 = |x: Table| table_active(x) && tables_match(f, x, b.tables@[k]);
        let p2 = |x: Table| table_active(x) && tables_match(f, b.tables@[k], x);
        assert forall|m: int|
            0 <= m < a.tables@.len() implies #[trigger] p1(a.tables@[m]) == p2(a.tables@[m]) by {
            lemma_names_equiv_symmetric(
                f.table_names_case_insensitive,
                a.tables@[m].name@,
                b.tables@[k].name@,
            );
        }
        lemma_first_where_congruent(a.tables@, p1, p2, 0);
    }
    assert forall|k: int| 0 <= k < b.tables@.len() implies #[trigger] q2(k) == q1(k) by {
        assert(q1(k) == q2(k));
    }
    lemma_indices_where_upto_congruent(q1, q2, b.tables@.len() as int);
}

/// Symmetry of create and drop: the tables created when diffing towards `b`
/// are, position for position, the tables dropped when diffing back from `b`,
/// and the other way round. The corresponding steps carry the same indices
/// into `b`'s table list, hence the same table names.
pub proof fn lemma_create_drop_symmetric(f: Flavour, a: SqlSchema, b: SqlSchema)
    ensures
        created_tables_s(f, a, b) == dropped_tables_s(f, b, a),
        dropped_tables_s(f, a, b) == created_tables_s(f, b, a),
        create_tables_s(f, a, b).len() == drop_tables_s(f, b, a).len(),
        forall|m: int|
            0 <= m < create_tables_s(f, a, b).len() ==> (#[trigger] create_tables_s(
                f,
                a,
                b,
            )[m]).table_index == drop_tables_s(f, b, a)[m].table_index,
{
    lemma_created_equals_dropped(f, a, b);
    lemma_created_equals_dropped(f, b, a);
}

// --- Phase ordering -----------------------------------------------------------------

/// The rank of a step's phase in the fixed emission order.
pub open spec fn phase_rank(s: StepV) -> int {
    match s {
        StepV::CreateEnum { .. } => 1,
        StepV::AlterEnum(..) => 2,
        StepV::DropForeignKey(..) => 3,
        StepV::DropIndex(..) => 4,
        StepV::AlterTable(..) => 5,
        StepV::DropTable(..) => 6,
        StepV::DropEnum { .. } => 7,
        StepV::CreateTable(..) => 8,
        StepV::RedefineTables(..) => 9,
        StepV::CreateIndex(..) => 10,
        StepV::AddForeignKey(..) => 11,
        StepV::AlterIndex { .. } => 12,
        StepV::RedefineIndex { .. } => 13,
    }
}

/// A step sequence whose phases never run backwards.
pub open spec fn sorted_by_phase(s: Seq<StepV>) -> bool {
    forall|i: int, j: int|
        0 <= i < j < s.len() ==> phase_rank(#[trigger] s[i]) <= phase_rank(#[trigger] s[j])
}

proof fn lemma_sorted_concat(a: Seq<StepV>, b: Seq<StepV>, lo: int, hi: int)
    requires
        sorted_by_phase(a),
        forall|m: int| 0 <= m < a.len() ==> phase_rank(#[trigger] a[m]) <= lo,
        sorted_by_phase(b),
        forall|m: int| 0 <= m < b.len() ==> lo <= phase_rank(#[trigger] b[m]) <= hi,
        lo <= hi,
    ensures
        sorted_by_phase(a + b),
        forall|m: int| 0 <= m < (a + b).len() ==> phase_rank(#[trigger] (a + b)[m]) <= hi,
{
    let c = a + b;
    assert forall|m: int| 0 <= m < c.len() implies phase_rank(#[trigger] c[m]) <= hi by {
        if m < a.len() {
            assert(c[m] == a[m]);
        } else {
            assert(c[m] == b[m - a.len()]);
        }
    }
    assert forall|i: int, j: int|
        0 <= i < j < c.len() implies phase_rank(#[trigger] c[i]) <= phase_rank(
        #[trigger] c[j],
    ) by {
        if i < a.len() {
            assert(c[i] == a[i]);
        } else {
            assert(c[i] == b[i - a.len()]);
        }
        if j < a.len() {
            assert(c[j] == a[j]);
        } else {
            assert(c[j] == b[j - a.len()]);
        }
    }
}

/// The emitted plan never runs a phase backwards: step ranks are
/// non-decreasing along the sequence.
pub proof fn lemma_steps_sorted_by_phase(f: Flavour, ps: SqlSchema, ns: SqlSchema)
    ensures
        sorted_by_phase(calculate_steps_s(f, ps, ns)),
{
    let s1 = crate::differ::create_enums_s(f, ps, ns).map_values(
        |i: usize| StepV::CreateEnum { enum_index: i },
    );
    let s2 = crate::differ::alter_enums_s(f, ps, ns).map_values(
        |a: crate::steps::AlterEnumV| StepV::AlterEnum(a),
    );
    let s3 = (crate::differ::dropped_tables_fks_s(f, ps, ns) + crate::differ::pairs_drop_fks_s(
        f,
        ps,
        ns,
    )).map_values(|d: crate::steps::DropForeignKeyV| StepV::DropForeignKey(d));
    let s4 = crate::differ::drop_indexes_s(f, ps, ns).map_values(
        |d: crate::steps::DropIndex| StepV::DropIndex(d),
    );
    let s5 = crate::differ::alter_tables_s(f, ps, ns).map_values(
        |a: crate::steps::AlterTableV| StepV::AlterTable(a),
    );
    let s6 = drop_tables_s(f, ps, ns).map_values(
        |d: crate::steps::DropTable| StepV::DropTable(d),
    );
    let s7 = crate::differ::drop_enums_s(f, ps, ns).map_values(
        |i: usize| StepV::DropEnum { enum_index: i },
    );
    let s8 = create_tables_s(f, ps, ns).map_values(
        |c: crate::steps::CreateTable| StepV::CreateTable(c),
    );
    let s9 = if crate::differ::redefine_tables_s(f, ps, ns).len() > 0 {
        seq![StepV::RedefineTables(crate::differ::redefine_tables_s(f, ps, ns))]
    } else {
        Seq::<StepV>::empty()
    };
    let s10 = crate::differ::create_indexes_s(f, ps, ns).map_values(
        |c: crate::steps::CreateIndex| StepV::CreateIndex(c),
    );
    let s11 = crate::differ::add_foreign_keys_s(f, ps, ns).map_values(
        |a: crate::steps::AddForeignKey| StepV::AddForeignKey(a),
    );
    let s12 = (if f.can_alter_index {
        crate::differ::alter_indexes_s(f, ps, ns)
    } else {
        Seq::empty()
    }).map_values(
        |p: crate::pair::Pair<(usize, usize)>| StepV::AlterIndex {
            table: crate::pair::Pair { previous: p.previous.0, next: p.next.0 },
            index: crate::pair::Pair { previous: p.previous.1, next: p.next.1 },
        },
    );
    let s13 = (if f.can_alter_index {
        Seq::empty()
    } else {
        crate::differ::alter_indexes_s(f, ps, ns)
    }).map_values(
        |p: crate::pair::Pair<(usize, usize)>| StepV::RedefineIndex {
            table: crate::pair::Pair { previous: p.previous.0, next: p.next.0 },
            index: crate::pair::Pair { previous: p.previous.1, next: p.next.1 },
        },
    );
    assert(calculate_steps_s(f, ps, ns) == s1 + s2 + s3 + s4 + s5 + s6 + s7 + s8 + s9 + s10 + s11
        + s12 + s13);
    assert forall|m: int| 0 <= m < s1.len() implies phase_rank(#[trigger] s1[m]) == 1 by {}
    assert forall|m: int| 0 <= m < s2.len() implies phase_rank(#[trigger] s2[m]) == 2 by {}
    assert forall|m: int| 0 <= m < s3.len() implies phase_rank(#[trigger] s3[m]) == 3 by {}
    assert forall|m: int| 0 <= m < s4.len() implies phase_rank(#[trigger] s4[m]) == 4 by {}
    assert forall|m: int| 0 <= m < s5.len() implies phase_rank(#[trigger] s5[m]) == 5 by {}
    assert forall|m: int| 0 <= m < s6.len() implies phase_rank(#[trigger] s6[m]) == 6 by {}
    assert forall|m: int| 0 <= m < s7.len() implies phase_rank(#[trigger] s7[m]) == 7 by {}
    assert forall|m: int| 0 <= m < s8.len() implies phase_rank(#[trigger] s8[m]) == 8 by {}
    assert forall|m: int| 0 <= m < s9.len() implies phase_rank(#[trigger] s9[m]) == 9 by {}
    assert forall|m: int| 0 <= m < s10.len() implies phase_rank(#[trigger] s10[m]) == 10 by {}
    assert forall|m: int| 0 <= m < s11.len() implies phase_rank(#[trigger] s11[m]) == 11 by {}
    assert forall|m: int| 0 <= m < s12.len() implies phase_rank(#[trigger] s12[m]) == 12 by {}
    assert forall|m: int| 0 <= m < s13.len() implies phase_rank(#[trigger] s13[m]) == 13 by {}
    lemma_sorted_concat(s1, s2, 1, 2);
    lemma_sorted_concat(s1 + s2, s3, 2, 3);
    lemma_sorted_concat(s1 + s2 + s3, s4, 3, 4);
    lemma_sorted_concat(s1 + s2 + s3 + s4, s5, 4, 5);
    lemma_sorted_concat(s1 + s2 + s3 + s4 + s5, s6, 5, 6);
    lemma_sorted_concat(s1 + s2 + s3 + s4 + s5 + s6, s7, 6, 7);
    lemma_sorted_concat(s1 + s2 + s3 + s4 + s5 + s6 + s7, s8, 7, 8);
    lemma_sorted_concat(s1 + s2 + s3 + s4 + s5 + s6 + s7 + s8, s9, 8, 9);
    lemma_sorted_concat(s1 + s2 + s3 + s4 + s5 + s6 + s7 + s8 + s9, s10, 9, 10);
    lemma_sorted_concat(s1 + s2 + s3 + s4 + s5 + s6 + s7 + s8 + s9 + s10, s11, 10, 11);
    lemma_sorted_concat(s1 + s2 + s3 + s4 + s5 + s6 + s7 + s8 + s9 + s10 + s11, s12, 11, 12);
    lemma_sorted_concat(s1 + s2 + s3 + s4 + s5 + s6 + s7 + s8 + s9 + s10 + s11 + s12, s13, 12, 13);
}

/// Foreign keys are dropped before tables: in any one plan, every
/// `DropForeignKey` step precedes every `DropTable` step, in particular the
/// drop of the foreign keys of a dropped table precedes the drop of the table
/// itself.
pub proof fn lemma_drop_foreign_key_precedes_drop_table(
    f: Flavour,
    ps: SqlSchema,
    ns: SqlSchema,
    i: int,
    j: int,
)
    requires
        0 <= i < calculate_steps_s(f, ps, ns).len(),
        0 <= j < calculate_steps_s(f, ps, ns).len(),
        calculate_steps_s(f, ps, ns)[i] is DropForeignKey,
        calculate_steps_s(f, ps, ns)[j] is DropTable,
    ensures
        i < j,
{
    lemma_steps_sorted_by_phase(f, ps, ns);
    if j < i {
        assert(phase_rank(calculate_steps_s(f, ps, ns)[j]) <= phase_rank(
            calculate_steps_s(f, ps, ns)[i],
        ));
    }
}

/// Indexes are created only after the table-shaping phases: in any one plan,
/// every `CreateIndex` step follows every `AlterTable`, `CreateTable` and
/// table-redefinition step.
pub proof fn lemma_create_index_follows_table_shaping(
    f: Flavour,
    ps: SqlSchema,
    ns: SqlSchema,
    i: int,
    j: int,
)
    requires
        0 <= i < calculate_steps_s(f, ps, ns).len(),
        0 <= j < calculate_steps_s(f, ps, ns).len(),
        calculate_steps_s(f, ps, ns)[i] is CreateIndex,
        calculate_steps_s(f, ps, ns)[j] is AlterTable || calculate_steps_s(f, ps, ns)[j]
            is CreateTable || calculate_steps_s(f, ps, ns)[j] is RedefineTables,
    ensures
        j < i,
{
    lemma_steps_sorted_by_phase(f, ps, ns);
    if i < j {
        assert(phase_rank(calculate_steps_s(f, ps, ns)[i]) <= phase_rank(
            calculate_steps_s(f, ps, ns)[j],
        ));
    }
}

// --- Idempotence on equal snapshots ---------------------------------------------------

/// A table without duplicates: no two columns match and no two indexes carry
/// the same signature.
pub open spec fn wf_table(f: Flavour, t: Table) -> bool {
    &&& (forall|i: int, j: int|
        #![trigger t.columns@[i], t.columns@[j]]
        0 <= i < t.columns@.len() && 0 <= j < t.columns@.len() && i != j ==> !crate::column::columns_match(
            f,
            t.columns@[i],
            t.columns@[j],
        ))
    &&& (forall|i: int, j: int|
        #![trigger t.indexes@[i], t.indexes@[j]]
        0 <= i < t.indexes@.len() && 0 <= j < t.indexes@.len() && i != j ==> !crate::table::indexes_match(
            t.indexes@[i],
            t.indexes@[j],
        ))
}

/// A snapshot without duplicates: no two tables match under the flavour's
/// name equivalence, every table is itself without duplicates, and no two
/// enums share a name.
pub open spec fn wf_schema(f: Flavour, s: SqlSchema) -> bool {
    &&& (forall|i: int, j: int|
        #![trigger s.tables@[i], s.tables@[j]]
        0 <= i < s.tables@.len() && 0 <= j < s.tables@.len() && i != j ==> !tables_match(
            f,
            s.tables@[i],
            s.tables@[j],
        ))
    &&& (forall|i: int| 0 <= i < s.tables@.len() ==> wf_table(f, #[trigger] s.tables@[i]))
    &&& (forall|i: int, j: int|
        #![trigger s.enums@[i], s.enums@[j]]
        0 <= i < s.enums@.len() && 0 <= j < s.enums@.len() && i != j ==> !crate::enums::enums_match(
            s.enums@[i],
            s.enums@[j],
        ))
}

/// A position where the predicate holds rules a failed search out.
proof fn lemma_first_where_hit<T>(s: Seq<T>, p: spec_fn(T) -> bool, k: int)
    requires
        0 <= k < s.len(),
        p(s[k]),
    ensures
        crate::matching::first_where(s, p, 0) != -1,
{
    crate::matching::lemma_first_where_bounds(s, p, 0);
}

proof fn lemma_family_eq_refl(x: ColumnTypeFamily)
    ensures
        family_eq(x, x),
{
}

proof fn lemma_column_changes_refl(f: Flavour, c: crate::schema::Column)
    ensures
        !crate::column::column_changes_spec(c, c).differs_in_something(),
        crate::column::column_type_change_spec(f, c, c) == Option::<ColumnTypeChange>::None,
{
    crate::flavour::lemma_names_equiv_reflexive(f.column_names_case_insensitive, c.name@);
    lemma_family_eq_refl(c.tpe.family);
}

proof fn lemma_fks_match_refl(f: Flavour, t: Table, a: crate::schema::ForeignKey)
    ensures
        crate::table::fks_match(f, t, a, t, a),
{
    crate::flavour::lemma_names_equiv_reflexive(
        f.table_names_case_insensitive,
        a.referenced_table@,
    );
    assert forall|k: int|
        0 <= k < a.columns@.len() implies (#[trigger] a.columns@[k])@ == a.columns@[k]@
            && crate::table::families_interchangeable(
            crate::table::column_family_in(t, a.columns@[k]@),
            crate::table::column_family_in(t, a.columns@[k]@),
        ) by {
        lemma_family_eq_refl(crate::table::column_family_in(t, a.columns@[k]@));
    }
}

/// In a duplicate-free snapshot, an active table's first (and only) match in
/// the same snapshot is itself.
proof fn lemma_table_self_match(f: Flavour, s: SqlSchema, i: int)
    requires
        wf_schema(f, s),
        0 <= i < s.tables@.len(),
        table_active(s.tables@[i]),
    ensures
        table_match_in_next(f, s.tables@[i], s.tables@) == i,
        table_match_in_prev(f, s.tables@, s.tables@[i]) == i,
{
    crate::flavour::lemma_names_equiv_reflexive(
        f.table_names_case_insensitive,
        s.tables@[i].name@,
    );
    let p = |x: Table| table_active(x) && tables_match(f, s.tables@[i], x);
    assert forall|k: int| 0 <= k < i implies !p(s.tables@[k]) by {
        assert(!tables_match(f, s.tables@[i], s.tables@[k]));
    }
    assert(p(s.tables@[i]));
    crate::matching::lemma_first_where_from(s.tables@, p, 0, i);
    let p2 = |x: Table| table_active(x) && tables_match(f, x, s.tables@[i]);
    assert forall|k: int| 0 <= k < i implies !p2(s.tables@[k]) by {
        assert(!tables_match(f, s.tables@[k], s.tables@[i]));
    }
    assert(p2(s.tables@[i]));
    crate::matching::lemma_first_where_from(s.tables@, p2, 0, i);
}

/// In a duplicate-free table, a column's first match among the same columns
/// is itself.
proof fn lemma_col_self_match(f: Flavour, t: Table, i: int)
    requires
        wf_table(f, t),
        0 <= i < t.columns@.len(),
    ensures
        crate::table::col_match_in_next(f, t.columns@[i], t.columns@) == i,
        crate::table::col_match_in_prev(f, t.columns@, t.columns@[i]) == i,
{
    crate::flavour::lemma_names_equiv_reflexive(
        f.column_names_case_insensitive,
        t.columns@[i].name@,
    );
    let p = |x: crate::schema::Column| crate::column::columns_match(f, t.columns@[i], x);
    assert forall|k: int| 0 <= k < i implies !p(t.columns@[k]) by {
        assert(!crate::column::columns_match(f, t.columns@[i], t.columns@[k]));
    }
    assert(p(t.columns@[i]));
    crate::matching::lemma_first_where_from(t.columns@, p, 0, i);
    let p2 = |x: crate::schema::Column| crate::column::columns_match(f, x, t.columns@[i]);
    assert forall|k: int| 0 <= k < i implies !p2(t.columns@[k]) by {
        assert(!crate::column::columns_match(f, t.columns@[k], t.columns@[i]));
    }
    assert(p2(t.columns@[i]));
    crate::matching::lemma_first_where_from(t.columns@, p2, 0, i);
}

/// In a duplicate-free table, an index's first match among the same indexes
/// is itself.
proof fn lemma_idx_self_match(f: Flavour, t: Table, i: int)
    requires
        wf_table(f, t),
        0 <= i < t.indexes@.len(),
    ensures
        crate::table::idx_match_in_next(t.indexes@[i], t.indexes@) == i,
        crate::table::idx_match_in_prev(t.indexes@, t.indexes@[i]) == i,
{
    let p = |x: crate::schema::Index| crate::table::indexes_match(t.indexes@[i], x);
    assert forall|k: int| 0 <= k < i implies !p(t.indexes@[k]) by {
        assert(!crate::table::indexes_match(t.indexes@[i], t.indexes@[k]));
    }
    assert(p(t.indexes@[i]));
    crate::matching::lemma_first_where_from(t.indexes@, p, 0, i);
    let p2 = |x: crate::schema::Index| crate::table::indexes_match(x, t.indexes@[i]);
    assert forall|k: int| 0 <= k < i implies !p2(t.indexes@[k]) by {
        assert(!crate::table::indexes_match(t.indexes@[k], t.indexes@[i]));
    }
    assert(p2(t.indexes@[i]));
    crate::matching::lemma_first_where_from(t.indexes@, p2, 0, i);
}

/// In a duplicate-free snapshot, an enum's first match among the same enums
/// is itself.
proof fn lemma_enum_self_match(s: SqlSchema, i: int)
    requires
        forall|x: int, y: int|
            #![trigger s.enums@[x], s.enums@[y]]
            0 <= x < s.enums@.len() && 0 <= y < s.enums@.len() && x != y ==> !crate::enums::enums_match(
                s.enums@[x],
                s.enums@[y],
            ),
        0 <= i < s.enums@.len(),
    ensures
        crate::database::enum_match_in_next(s.enums@[i], s.enums@) == i,
        crate::database::enum_match_in_prev(s.enums@, s.enums@[i]) == i,
{
    let p = |x: crate::schema::DbEnum| crate::enums::enums_match(s.enums@[i], x);
    assert forall|k: int| 0 <= k < i implies !p(s.enums@[k]) by {
        assert(!crate::enums::enums_match(s.enums@[i], s.enums@[k]));
    }
    assert(p(s.enums@[i]));
    crate::matching::lemma_first_where_from(s.enums@, p, 0, i);
    let p2 = |x: crate::schema::DbEnum| crate::enums::enums_match(x, s.enums@[i]);
    assert forall|k: int| 0 <= k < i implies !p2(s.enums@[k]) by {
        assert(!crate::enums::enums_match(s.enums@[k], s.enums@[i]));
    }
    assert(p2(s.enums@[i]));
    crate::matching::lemma_first_where_from(s.enums@, p2, 0, i);
}

proof fn lemma_alter_columns_upto_trivial(
    f: Flavour,
    t: Table,
    cpairs: Seq<(usize, usize)>,
    m: int,
)
    requires
        forall|x: int|
            #![trigger cpairs[x]]
            0 <= x < m ==> cpairs[x].1 == cpairs[x].0 && cpairs[x].0 < t.columns@.len(),
    ensures
        crate::differ::alter_columns_upto(f, t, t, cpairs, m) == Seq::<
            crate::steps::TableChangeV,
        >::empty(),
        crate::differ::recreated_next_cols_upto(f, t, t, cpairs, m) == Seq::<usize>::empty(),
    decreases m,
{
    if m > 0 {
        lemma_alter_columns_upto_trivial(f, t, cpairs, m - 1);
        lemma_column_changes_refl(f, t.columns@[cpairs[m - 1].0 as int]);
    }
}

/// Diffing a duplicate-free table against itself yields nothing at all.
proof fn lemma_self_pair_trivial(f: Flavour, t: Table)
    requires
        wf_table(f, t),
    ensures
        crate::table::dropped_columns_s(f, t, t) == Seq::<usize>::empty(),
        crate::table::added_columns_s(f, t, t) == Seq::<usize>::empty(),
        crate::differ::alter_columns_s(f, t, t) == Seq::<crate::steps::TableChangeV>::empty(),
        crate::table::created_indexes_s(t, t) == Seq::<usize>::empty(),
        crate::table::dropped_indexes_s(t, t) == Seq::<usize>::empty(),
        crate::table::created_fks_s(f, t, t) == Seq::<usize>::empty(),
        crate::table::dropped_fks_s(f, t, t) == Seq::<usize>::empty(),
        !crate::table::pk_created(t, t),
        !crate::table::pk_dropped(t, t),
        !crate::differ::pk_col_recreated(f, t, t),
        !crate::differ::drop_pk_s(f, t, t),
        !crate::differ::add_pk_s(f, t, t),
        crate::differ::table_changes_s(f, t, t) == Seq::<crate::steps::TableChangeV>::empty(),
        !crate::differ::pair_to_redefine(f, t, t),
        crate::differ::recreated_next_cols_s(f, t, t) == Seq::<usize>::empty(),
{
    crate::matching::lemma_vec_len_bound(&t.columns);
    crate::matching::lemma_vec_len_bound(&t.indexes);
    crate::matching::lemma_vec_len_bound(&t.foreign_keys);
    // Columns: every column matches itself, so nothing is added or dropped.
    let dq = |i: int| crate::table::col_match_in_next(f, t.columns@[i], t.columns@) == -1;
    assert forall|i: int| 0 <= i < t.columns@.len() implies !(#[trigger] dq(i)) by {
        lemma_col_self_match(f, t, i);
    }
    crate::matching::lemma_indices_where_upto_empty(dq, t.columns@.len() as int);
    let aq = |j: int| crate::table::col_match_in_prev(f, t.columns@, t.columns@[j]) == -1;
    assert forall|j: int| 0 <= j < t.columns@.len() implies !(#[trigger] aq(j)) by {
        lemma_col_self_match(f, t, j);
    }
    crate::matching::lemma_indices_where_upto_empty(aq, t.columns@.len() as int);
    // Matched column pairs are identity pairs and carry no changes.
    crate::table::lemma_column_pairs_props(f, t, t);
    let cpairs = crate::table::column_pairs_s(f, t, t);
    assert forall|x: int|
        0 <= x < cpairs.len() implies (#[trigger] cpairs[x]).1 == cpairs[x].0 && cpairs[x].0
            < t.columns@.len() by {
        lemma_col_self_match(f, t, cpairs[x].0 as int);
    }
    lemma_alter_columns_upto_trivial(f, t, cpairs, cpairs.len() as int);
    // Indexes: every index matches itself.
    let diq = |i: int| crate::table::idx_match_in_next(t.indexes@[i], t.indexes@) == -1;
    assert forall|i: int| 0 <= i < t.indexes@.len() implies !(#[trigger] diq(i)) by {
        lemma_idx_self_match(f, t, i);
    }
    crate::matching::lemma_indices_where_upto_empty(diq, t.indexes@.len() as int);
    let aiq = |j: int| crate::table::idx_match_in_prev(t.indexes@, t.indexes@[j]) == -1;
    assert forall|j: int| 0 <= j < t.indexes@.len() implies !(#[trigger] aiq(j)) by {
        lemma_idx_self_match(f, t, j);
    }
    crate::matching::lemma_indices_where_upto_empty(aiq, t.indexes@.len() as int);
    // Foreign keys: every key matches itself, so none is created or dropped.
    let dfq = |i: int| crate::table::fk_match_in_next(f, t, t.foreign_keys@[i], t) == -1;
    assert forall|i: int| 0 <= i < t.foreign_keys@.len() implies !(#[trigger] dfq(i)) by {
        lemma_fks_match_refl(f, t, t.foreign_keys@[i]);
        lemma_first_where_hit(
            t.foreign_keys@,
            |x: crate::schema::ForeignKey| crate::table::fks_match(f, t, t.foreign_keys@[i], t, x),
            i,
        );
    }
    crate::matching::lemma_indices_where_upto_empty(dfq, t.foreign_keys@.len() as int);
    let afq = |j: int| crate::table::fk_match_in_prev(f, t, t, t.foreign_keys@[j]) == -1;
    assert forall|j: int| 0 <= j < t.foreign_keys@.len() implies !(#[trigger] afq(j)) by {
        lemma_fks_match_refl(f, t, t.foreign_keys@[j]);
        lemma_first_where_hit(
            t.foreign_keys@,
            |x: crate::schema::ForeignKey| crate::table::fks_match(f, t, x, t, t.foreign_keys@[j]),
            j,
        );
    }
    crate::matching::lemma_indices_where_upto_empty(afq, t.foreign_keys@.len() as int);
    // The primary key is unchanged and no key column is recreated.
    assert(!crate::differ::pk_col_recreated(f, t, t)) by {
        if crate::differ::pk_col_recreated(f, t, t) {
            let m = choose|m: int|
                0 <= m < cpairs.len() && crate::differ::col_pair_recreated(
                    f,
                    t,
                    t,
                    #[trigger] cpairs[m],
                ) && crate::differ::col_in_pk(t, cpairs[m].0);
            lemma_col_self_match(f, t, cpairs[m].0 as int);
            lemma_column_changes_refl(f, t.columns@[cpairs[m].0 as int]);
        }
    }
    // The assembled change list is empty.
    assert(crate::differ::table_changes_s(f, t, t) =~= Seq::<crate::steps::TableChangeV>::empty());
}

/// The identity-pair facts the phase inductions need: every pair of the
/// self-diff pairs two equal positions of a duplicate-free table list.
spec fn self_pairs_ok(f: Flavour, s: SqlSchema, pairs: Seq<(usize, usize)>) -> bool {
    forall|m: int|
        #![trigger pairs[m]]
        0 <= m < pairs.len() ==> pairs[m].1 == pairs[m].0 && pairs[m].0 < s.tables@.len()
            && wf_table(f, s.tables@[pairs[m].0 as int])
}

proof fn lemma_self_table_pairs(f: Flavour, s: SqlSchema)
    requires
        wf_schema(f, s),
    ensures
        self_pairs_ok(f, s, crate::database::table_pairs_s(f, s, s)),
{
    crate::differ::lemma_table_pairs_in_range(f, s, s);
    let pairs = crate::database::table_pairs_s(f, s, s);
    crate::matching::lemma_vec_len_bound(&s.tables);
    let q = |i: int| table_active(s.tables@[i]) && table_match_in_next(f, s.tables@[i], s.tables@)
        >= 0;
    let w = |i: int| table_match_in_next(f, s.tables@[i], s.tables@);
    assert forall|k: int| 0 <= k < s.tables@.len() && #[trigger] q(k) implies 0 <= w(k)
        <= usize::MAX by {
        crate::matching::lemma_first_where_bounds(
            s.tables@,
            |x: Table| table_active(x) && tables_match(f, s.tables@[k], x),
            0,
        );
    }
    crate::matching::lemma_pairs_where_upto_props(q, w, s.tables@.len() as int);
    assert forall|m: int|
        0 <= m < pairs.len() implies (#[trigger] pairs[m]).1 == pairs[m].0 && pairs[m].0
            < s.tables@.len() && wf_table(f, s.tables@[pairs[m].0 as int]) by {
        assert(q(pairs[m].0 as int));
        lemma_table_self_match(f, s, pairs[m].0 as int);
        assert(pairs[m].1 as int == w(pairs[m].0 as int));
    }
}

proof fn lemma_self_no_created_dropped_tables(f: Flavour, s: SqlSchema)
    requires
        wf_schema(f, s),
    ensures
        created_tables_s(f, s, s) == Seq::<usize>::empty(),
        dropped_tables_s(f, s, s) == Seq::<usize>::empty(),
{
    crate::matching::lemma_vec_len_bound(&s.tables);
    let cq = |j: int|
        table_active(s.tables@[j]) && table_match_in_prev(f, s.tables@, s.tables@[j]) == -1;
    assert forall|j: int| 0 <= j < s.tables@.len() implies !(#[trigger] cq(j)) by {
        if table_active(s.tables@[j]) {
            lemma_table_self_match(f, s, j);
        }
    }
    crate::matching::lemma_indices_where_upto_empty(cq, s.tables@.len() as int);
    let dq = |i: int|
        table_active(s.tables@[i]) && table_match_in_next(f, s.tables@[i], s.tables@) == -1;
    assert forall|i: int| 0 <= i < s.tables@.len() implies !(#[trigger] dq(i)) by {
        if table_active(s.tables@[i]) {
            lemma_table_self_match(f, s, i);
        }
    }
    crate::matching::lemma_indices_where_upto_empty(dq, s.tables@.len() as int);
}

proof fn lemma_self_enums_trivial(f: Flavour, s: SqlSchema)
    requires
        wf_schema(f, s),
    ensures
        crate::database::created_enums_s(s, s) == Seq::<usize>::empty(),
        crate::database::dropped_enums_s(s, s) == Seq::<usize>::empty(),
        crate::differ::alter_enums_s(f, s, s) == Seq::<crate::steps::AlterEnumV>::empty(),
{
    crate::matching::lemma_vec_len_bound(&s.enums);
    let cq = |j: int| crate::database::enum_match_in_prev(s.enums@, s.enums@[j]) == -1;
    assert forall|j: int| 0 <= j < s.enums@.len() implies !(#[trigger] cq(j)) by {
        lemma_enum_self_match(s, j);
    }
    crate::matching::lemma_indices_where_upto_empty(cq, s.enums@.len() as int);
    let dq = |i: int| crate::database::enum_match_in_next(s.enums@[i], s.enums@) == -1;
    assert forall|i: int| 0 <= i < s.enums@.len() implies !(#[trigger] dq(i)) by {
        lemma_enum_self_match(s, i);
    }
    crate::matching::lemma_indices_where_upto_empty(dq, s.enums@.len() as int);
    crate::differ::lemma_enum_pairs_in_range(s, s);
    let pairs = crate::database::enum_pairs_s(s, s);
    lemma_self_alter_enums_upto(f, s, pairs, pairs.len() as int);
}

proof fn lemma_self_alter_enums_upto(f: Flavour, s: SqlSchema, pairs: Seq<(usize, usize)>, n: int)
    requires
        forall|m: int|
            #![trigger pairs[m]]
            0 <= m < pairs.len() ==> pairs[m].0 < s.enums@.len() && pairs[m].1 < s.enums@.len()
                && crate::enums::enums_match(
                s.enums@[pairs[m].0 as int],
                s.enums@[pairs[m].1 as int],
            ),
        forall|x: int, y: int|
            #![trigger s.enums@[x], s.enums@[y]]
            0 <= x < s.enums@.len() && 0 <= y < s.enums@.len() && x != y ==> !crate::enums::enums_match(
                s.enums@[x],
                s.enums@[y],
            ),
        n <= pairs.len(),
    ensures
        crate::differ::alter_enums_full_upto(f, s, s, pairs, n) == Seq::<
            crate::steps::AlterEnumV,
        >::empty(),
    decreases n,
{
    if n > 0 {
        lemma_self_alter_enums_upto(f, s, pairs, n - 1);
        let pi = pairs[n - 1].0;
        let ni = pairs[n - 1].1;
        if pi != ni {
            assert(!crate::enums::enums_match(s.enums@[pi as int], s.enums@[ni as int]));
        }
        assert(pi == ni);
        assert(!crate::enums::enum_changed(s.enums@[pi as int], s.enums@[ni as int]));
    }
}

proof fn lemma_self_pairs_drop_fks_upto(f: Flavour, s: SqlSchema, pairs: Seq<(usize, usize)>, n: int)
    requires
        self_pairs_ok(f, s, pairs),
        n <= pairs.len(),
    ensures
        crate::differ::pairs_drop_fks_upto(f, s, s, pairs, n) == Seq::<
            crate::steps::DropForeignKeyV,
        >::empty(),
    decreases n,
{
    if n > 0 {
        lemma_self_pairs_drop_fks_upto(f, s, pairs, n - 1);
        lemma_self_pair_trivial(f, s.tables@[pairs[n - 1].0 as int]);
        assert(crate::differ::pairs_drop_fks_upto(f, s, s, pairs, n) =~= Seq::<
            crate::steps::DropForeignKeyV,
        >::empty());
    }
}

proof fn lemma_self_pairs_add_fks_upto(f: Flavour, s: SqlSchema, pairs: Seq<(usize, usize)>, n: int)
    requires
        self_pairs_ok(f, s, pairs),
        n <= pairs.len(),
    ensures
        crate::differ::pairs_add_fks_upto(f, s, s, pairs, n) == Seq::<
            crate::steps::AddForeignKey,
        >::empty(),
    decreases n,
{
    if n > 0 {
        lemma_self_pairs_add_fks_upto(f, s, pairs, n - 1);
        lemma_self_pair_trivial(f, s.tables@[pairs[n - 1].0 as int]);
        assert(crate::differ::pairs_add_fks_upto(f, s, s, pairs, n) =~= Seq::<
            crate::steps::AddForeignKey,
        >::empty());
    }
}

proof fn lemma_self_pairs_drop_indexes_upto(
    f: Flavour,
    s: SqlSchema,
    pairs: Seq<(usize, usize)>,
    n: int,
)
    requires
        self_pairs_ok(f, s, pairs),
        n <= pairs.len(),
    ensures
        crate::differ::pairs_drop_indexes_upto(f, s, s, pairs, n) == Seq::<
            crate::steps::DropIndex,
        >::empty(),
    decreases n,
{
    if n > 0 {
        lemma_self_pairs_drop_indexes_upto(f, s, pairs, n - 1);
        lemma_self_pair_trivial(f, s.tables@[pairs[n - 1].0 as int]);
        assert(crate::differ::pairs_drop_indexes_upto(f, s, s, pairs, n) =~= Seq::<
            crate::steps::DropIndex,
        >::empty());
    }
}

proof fn lemma_self_renamed_indexes_upto(
    f: Flavour,
    t: Table,
    ti: usize,
    tj: usize,
    ipairs: Seq<(usize, usize)>,
    m: int,
)
    requires
        wf_table(f, t),
        forall|x: int|
            #![trigger ipairs[x]]
            0 <= x < ipairs.len() ==> ipairs[x].1 == ipairs[x].0 && ipairs[x].0 < t.indexes@.len(),
        m <= ipairs.len(),
    ensures
        crate::differ::renamed_indexes_of_pair_upto(t, ti, t, tj, ipairs, m) == Seq::<
            crate::pair::Pair<(usize, usize)>,
        >::empty(),
    decreases m,
{
    if m > 0 {
        lemma_self_renamed_indexes_upto(f, t, ti, tj, ipairs, m - 1);
        assert(!crate::table::index_renamed(
            t.indexes@[ipairs[m - 1].0 as int],
            t.indexes@[ipairs[m - 1].1 as int],
        ));
    }
}

proof fn lemma_self_index_pairs_identity(f: Flavour, t: Table)
    requires
        wf_table(f, t),
    ensures
        forall|x: int|
            #![trigger crate::table::index_pairs_s(t, t)[x]]
            0 <= x < crate::table::index_pairs_s(t, t).len() ==> crate::table::index_pairs_s(
                t,
                t,
            )[x].1 == crate::table::index_pairs_s(t, t)[x].0 && crate::table::index_pairs_s(
                t,
                t,
            )[x].0 < t.indexes@.len(),
{
    crate::table::lemma_index_pairs_props(t, t);
    let ipairs = crate::table::index_pairs_s(t, t);
    crate::matching::lemma_vec_len_bound(&t.indexes);
    let q = |i: int| crate::table::idx_match_in_next(t.indexes@[i], t.indexes@) >= 0;
    let w = |i: int| crate::table::idx_match_in_next(t.indexes@[i], t.indexes@);
    assert forall|k: int| 0 <= k < t.indexes@.len() && #[trigger] q(k) implies 0 <= w(k)
        <= usize::MAX by {
        crate::matching::lemma_first_where_bounds(
            t.indexes@,
            |x: crate::schema::Index| crate::table::indexes_match(t.indexes@[k], x),
            0,
        );
    }
    crate::matching::lemma_pairs_where_upto_props(q, w, t.indexes@.len() as int);
    assert forall|x: int|
        0 <= x < ipairs.len() implies (#[trigger] ipairs[x]).1 == ipairs[x].0 && ipairs[x].0
            < t.indexes@.len() by {
        assert(q(ipairs[x].0 as int));
        lemma_idx_self_match(f, t, ipairs[x].0 as int);
        assert(ipairs[x].1 as int == w(ipairs[x].0 as int));
    }
}

proof fn lemma_self_alter_indexes_upto(f: Flavour, s: SqlSchema, pairs: Seq<(usize, usize)>, n: int)
    requires
        self_pairs_ok(f, s, pairs),
        n <= pairs.len(),
    ensures
        crate::differ::alter_indexes_upto(f, s, s, pairs, n) == Seq::<
            crate::pair::Pair<(usize, usize)>,
        >::empty(),
    decreases n,
{
    if n > 0 {
        lemma_self_alter_indexes_upto(f, s, pairs, n - 1);
        let t = s.tables@[pairs[n - 1].0 as int];
        lemma_self_index_pairs_identity(f, t);
        lemma_self_renamed_indexes_upto(
            f,
            t,
            pairs[n - 1].0,
            pairs[n - 1].1,
            crate::table::index_pairs_s(t, t),
            crate::table::index_pairs_s(t, t).len() as int,
        );
        assert(crate::differ::alter_indexes_upto(f, s, s, pairs, n) =~= Seq::<
            crate::pair::Pair<(usize, usize)>,
        >::empty());
    }
}

proof fn lemma_self_recreate_indexes_upto(
    f: Flavour,
    t: Table,
    tj: usize,
    ipairs: Seq<(usize, usize)>,
    m: int,
)
    requires
        wf_table(f, t),
        m <= ipairs.len(),
    ensures
        crate::differ::pair_recreate_indexes_upto(f, t, t, tj, ipairs, m) == Seq::<
            crate::steps::CreateIndex,
        >::empty(),
    decreases m,
{
    if m > 0 {
        lemma_self_recreate_indexes_upto(f, t, tj, ipairs, m - 1);
        lemma_self_pair_trivial(f, t);
        assert(!crate::differ::index_references_cols(
            t,
            t.indexes@[ipairs[m - 1].1 as int],
            crate::differ::recreated_next_cols_s(f, t, t),
        ));
    }
}

proof fn lemma_self_pairs_create_indexes_upto(
    f: Flavour,
    s: SqlSchema,
    pairs: Seq<(usize, usize)>,
    n: int,
)
    requires
        self_pairs_ok(f, s, pairs),
        n <= pairs.len(),
    ensures
        crate::differ::pairs_create_indexes_upto(f, s, s, pairs, n) == Seq::<
            crate::steps::CreateIndex,
        >::empty(),
    decreases n,
{
    if n > 0 {
        lemma_self_pairs_create_indexes_upto(f, s, pairs, n - 1);
        let t = s.tables@[pairs[n - 1].0 as int];
        lemma_self_pair_trivial(f, t);
        lemma_self_recreate_indexes_upto(
            f,
            t,
            pairs[n - 1].1,
            crate::table::index_pairs_s(t, t),
            crate::table::index_pairs_s(t, t).len() as int,
        );
        assert(crate::differ::pair_create_indexes_s(f, t, t, pairs[n - 1].1) =~= Seq::<
            crate::steps::CreateIndex,
        >::empty());
        assert(crate::differ::pairs_create_indexes_upto(f, s, s, pairs, n) =~= Seq::<
            crate::steps::CreateIndex,
        >::empty());
    }
}

proof fn lemma_self_alter_tables_upto(f: Flavour, s: SqlSchema, pairs: Seq<(usize, usize)>, n: int)
    requires
        self_pairs_ok(f, s, pairs),
        n <= pairs.len(),
    ensures
        crate::differ::alter_tables_upto(f, s, s, pairs, n) == Seq::<
            crate::steps::AlterTableV,
        >::empty(),
    decreases n,
{
    if n > 0 {
        lemma_self_alter_tables_upto(f, s, pairs, n - 1);
        lemma_self_pair_trivial(f, s.tables@[pairs[n - 1].0 as int]);
    }
}

proof fn lemma_self_redefine_pairs_upto(f: Flavour, s: SqlSchema, pairs: Seq<(usize, usize)>, n: int)
    requires
        self_pairs_ok(f, s, pairs),
        n <= pairs.len(),
    ensures
        crate::differ::redefine_pairs_upto(f, s, s, pairs, n) == Seq::<(usize, usize)>::empty(),
    decreases n,
{
    if n > 0 {
        lemma_self_redefine_pairs_upto(f, s, pairs, n - 1);
        lemma_self_pair_trivial(f, s.tables@[pairs[n - 1].0 as int]);
    }
}

/// Idempotence on equal snapshots: diffing a duplicate-free snapshot against
/// itself yields the empty plan.
pub proof fn lemma_diff_identical_snapshots_empty(f: Flavour, s: SqlSchema)
    requires
        wf_schema(f, s),
    ensures
        calculate_steps_s(f, s, s) == Seq::<StepV>::empty(),
{
    let pairs = crate::database::table_pairs_s(f, s, s);
    lemma_self_table_pairs(f, s);
    lemma_self_no_created_dropped_tables(f, s);
    lemma_self_enums_trivial(f, s);
    lemma_self_pairs_drop_fks_upto(f, s, pairs, pairs.len() as int);
    lemma_self_pairs_add_fks_upto(f, s, pairs, pairs.len() as int);
    lemma_self_pairs_drop_indexes_upto(f, s, pairs, pairs.len() as int);
    lemma_self_alter_indexes_upto(f, s, pairs, pairs.len() as int);
    lemma_self_pairs_create_indexes_upto(f, s, pairs, pairs.len() as int);
    lemma_self_alter_tables_upto(f, s, pairs, pairs.len() as int);
    lemma_self_redefine_pairs_upto(f, s, pairs, pairs.len() as int);
    assert(crate::differ::dropped_tables_fks_s(f, s, s) =~= Seq::<
        crate::steps::DropForeignKeyV,
    >::empty());
    assert(crate::differ::drop_indexes_s(f, s, s) =~= Seq::<crate::steps::DropIndex>::empty());
    assert(crate::differ::create_indexes_s(f, s, s) =~= Seq::<crate::steps::CreateIndex>::empty());
    assert(crate::differ::add_foreign_keys_s(f, s, s) =~= Seq::<
        crate::steps::AddForeignKey,
    >::empty());
    assert(crate::differ::redefine_tables_s(f, s, s) =~= Seq::<
        crate::steps::RedefineTableV,
    >::empty());
    assert(calculate_steps_s(f, s, s) =~= Seq::<StepV>::empty());
}

// --- Determinism of cast classification -----------------------------------------------

/// Cast classification is a total function of the cast policy and the two
/// type families alone: flavours with the same policy classify any two
/// structurally equal type pairs identically, wherever in the schema the
/// columns live.
pub proof fn lemma_cast_classification_deterministic(
    f1: Flavour,
    f2: Flavour,
    p1: ColumnTypeFamily,
    p2: ColumnTypeFamily,
    n1: ColumnTypeFamily,
    n2: ColumnTypeFamily,
)
    requires
        f1.cast_policy == f2.cast_policy,
        family_eq(p1, p2),
        family_eq(n1, n2),
    ensures
        classify_cast_spec(f1.cast_policy, p1, n1) == classify_cast_spec(f2.cast_policy, p2, n2),
{
}

} // verus!

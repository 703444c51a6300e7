//! Step assembly and ordering: combines the per-entity diffs into the final
//! step sequence by concatenating fixed phases in a fixed order. Several real
//! engines reject operations issued out of this order, so the ordering is the
//! central invariant of the library.

use vstd::prelude::*;
use crate::column::{column_changes_spec, column_type_change_spec, all_changes};
use crate::database::{
    created_enums_s, created_tables_s, dropped_enums_s, dropped_tables_s, enum_pairs_s,
    table_active, table_match_in_next, table_pairs_s, tables_match, DifferDatabase,
};
use crate::enums::{
    created_variants, created_variants_s, dropped_variants, dropped_variants_s, enum_changed,
    enum_lists_differ,
};
use crate::flavour::{ColumnTypeChange, Flavour};
use crate::matching::{
    lemma_first_where_bounds, lemma_indices_where_upto_props, lemma_pairs_where_upto_props,
};
use crate::pair::Pair;
use crate::schema::{Column, Index, SqlSchema, Table};
use crate::steps::{
    steps_view, AddColumn, AddForeignKey, AlterEnum, AlterEnumV, AlterTable, AlterTableV,
    ColumnChanges, CreateIndex, CreateTable, DropColumn, DropForeignKey, DropForeignKeyV,
    DropIndex, DropTable, RedefineTable, RedefineTableV, SqlMigrationStep, StepV, TableChange,
    TableChangeV,
};
use crate::table::{
    added_columns, added_columns_s, column_pairs, column_pairs_s, created_foreign_keys,
    created_fks_s, created_indexes, created_indexes_s, dropped_columns, dropped_columns_s,
    dropped_foreign_keys, dropped_fks_s, dropped_indexes, dropped_indexes_s, index_covers_fk,
    index_covers_fk_s, index_pairs, index_pairs_s, index_renamed, pk_created, pk_dropped,
    primary_key_created, primary_key_dropped,
};

verus! {

/// The matcher output agrees with the two snapshots it was computed from.
pub open spec fn db_matches(db: DifferDatabase, ps: SqlSchema, ns: SqlSchema) -> bool {
    &&& db.created_tables@ == created_tables_s(db.flavour, ps, ns)
    &&& db.dropped_tables@ == dropped_tables_s(db.flavour, ps, ns)
    &&& db.table_pairs@ == table_pairs_s(db.flavour, ps, ns)
    &&& db.created_enums@ == created_enums_s(ps, ns)
    &&& db.dropped_enums@ == dropped_enums_s(ps, ns)
    &&& db.enum_pairs@ == enum_pairs_s(ps, ns)
}

/// Every created-table index lies in the next snapshot.
pub proof fn lemma_created_tables_in_range(f: Flavour, ps: SqlSchema, ns: SqlSchema)
    ensures
        forall|m: int|
            #![trigger created_tables_s(f, ps, ns)[m]]
            0 <= m < created_tables_s(f, ps, ns).len() ==> created_tables_s(f, ps, ns)[m]
                < ns.tables@.len(),
{
    crate::matching::lemma_vec_len_bound(&ns.tables);
    lemma_indices_where_upto_props(
        |j: int| table_active(ns.tables@[j]) && crate::database::table_match_in_prev(
            f,
            ps.tables@,
            ns.tables@[j],
        ) == -1,
        ns.tables@.len() as int,
    );
}

/// Every dropped-table index lies in the previous snapshot.
pub proof fn lemma_dropped_tables_in_range(f: Flavour, ps: SqlSchema, ns: SqlSchema)
    ensures
        forall|m: int|
            #![trigger dropped_tables_s(f, ps, ns)[m]]
            0 <= m < dropped_tables_s(f, ps, ns).len() ==> dropped_tables_s(f, ps, ns)[m]
                < ps.tables@.len(),
{
    crate::matching::lemma_vec_len_bound(&ps.tables);
    lemma_indices_where_upto_props(
        |i: int| table_active(ps.tables@[i]) && table_match_in_next(f, ps.tables@[i], ns.tables@)
            == -1,
        ps.tables@.len() as int,
    );
}

/// Every table pair lies in range, and the paired tables are active and match.
pub proof fn lemma_table_pairs_in_range(f: Flavour, ps: SqlSchema, ns: SqlSchema)
    ensures
        forall|m: int|
            #![trigger table_pairs_s(f, ps, ns)[m]]
            0 <= m < table_pairs_s(f, ps, ns).len() ==> {
                let p = table_pairs_s(f, ps, ns)[m];
                &&& p.0 < ps.tables@.len()
                &&& p.1 < ns.tables@.len()
                &&& table_active(ps.tables@[p.0 as int])
                &&& table_active(ns.tables@[p.1 as int])
                &&& tables_match(f, ps.tables@[p.0 as int], ns.tables@[p.1 as int])
            },
{
    crate::matching::lemma_vec_len_bound(&ps.tables);
    crate::matching::lemma_vec_len_bound(&ns.tables);
    let q = |i: int| table_active(ps.tables@[i]) && table_match_in_next(
        f,
        ps.tables@[i],
        ns.tables@,
    ) >= 0;
    let w = |i: int| table_match_in_next(f, ps.tables@[i], ns.tables@);
    assert forall|k: int| 0 <= k < ps.tables@.len() && #[trigger] q(k) implies 0 <= w(k)
        <= usize::MAX by {
        lemma_first_where_bounds(
            ns.tables@,
            |x: Table| table_active(x) && tables_match(f, ps.tables@[k], x),
            0,
        );
    }
    lemma_pairs_where_upto_props(q, w, ps.tables@.len() as int);
    assert forall|m: int|
        0 <= m < table_pairs_s(f, ps, ns).len() implies {
        let p = #[trigger] table_pairs_s(f, ps, ns)[m];
        &&& p.0 < ps.tables@.len()
        &&& p.1 < ns.tables@.len()
        &&& table_active(ps.tables@[p.0 as int])
        &&& table_active(ns.tables@[p.1 as int])
        &&& tables_match(f, ps.tables@[p.0 as int], ns.tables@[p.1 as int])
    } by {
        let p = table_pairs_s(f, ps, ns)[m];
        assert(q(p.0 as int));
        assert(p.1 as int == w(p.0 as int));
        lemma_first_where_bounds(
            ns.tables@,
            |x: Table| table_active(x) && tables_match(f, ps.tables@[p.0 as int], x),
            0,
        );
    }
}

/// Every enum pair lies in range and the paired enums match.
pub proof fn lemma_enum_pairs_in_range(ps: SqlSchema, ns: SqlSchema)
    ensures
        forall|m: int|
            #![trigger enum_pairs_s(ps, ns)[m]]
            0 <= m < enum_pairs_s(ps, ns).len() ==> {
                let p = enum_pairs_s(ps, ns)[m];
                &&& p.0 < ps.enums@.len()
                &&& p.1 < ns.enums@.len()
                &&& crate::enums::enums_match(ps.enums@[p.0 as int], ns.enums@[p.1 as int])
            },
{
    crate::matching::lemma_vec_len_bound(&ps.enums);
    crate::matching::lemma_vec_len_bound(&ns.enums);
    let q = |i: int| crate::database::enum_match_in_next(ps.enums@[i], ns.enums@) >= 0;
    let w = |i: int| crate::database::enum_match_in_next(ps.enums@[i], ns.enums@);
    assert forall|k: int| 0 <= k < ps.enums@.len() && #[trigger] q(k) implies 0 <= w(k)
        <= usize::MAX by {
        lemma_first_where_bounds(
            ns.enums@,
            |x: crate::schema::DbEnum| crate::enums::enums_match(ps.enums@[k], x),
            0,
        );
    }
    lemma_pairs_where_upto_props(q, w, ps.enums@.len() as int);
    assert forall|m: int|
        0 <= m < enum_pairs_s(ps, ns).len() implies {
        let p = #[trigger] enum_pairs_s(ps, ns)[m];
        &&& p.0 < ps.enums@.len()
        &&& p.1 < ns.enums@.len()
        &&& crate::enums::enums_match(ps.enums@[p.0 as int], ns.enums@[p.1 as int])
    } by {
        let p = enum_pairs_s(ps, ns)[m];
        assert(q(p.0 as int));
        assert(p.1 as int == w(p.0 as int));
        lemma_first_where_bounds(
            ns.enums@,
            |x: crate::schema::DbEnum| crate::enums::enums_match(ps.enums@[p.0 as int], x),
            0,
        );
    }
}

// --- Phase: create tables -------------------------------------------------------

/// The table-creation steps: one per created table, in next snapshot order.
pub open spec fn create_tables_s(f: Flavour, ps: SqlSchema, ns: SqlSchema) -> Seq<CreateTable> {
    created_tables_s(f, ps, ns).map_values(|i: usize| CreateTable { table_index: i })
}

/// Emit one `CreateTable` per created table, in next snapshot order.
pub fn create_tables(db: &DifferDatabase, previous: &SqlSchema, next: &SqlSchema) -> (r: Vec<
    CreateTable,
>)
    requires
        db_matches(*db, *previous, *next),
    ensures
        r@ == create_tables_s(db.flavour, *previous, *next),
{
    let ghost g = |i: usize| CreateTable { table_index: i };
    let mut out: Vec<CreateTable> = Vec::new();
    let mut m: usize = 0;
    while m < db.created_tables.len()
        invariant
            m <= db.created_tables@.len(),
            g == (|i: usize| CreateTable { table_index: i }),
            out@ == db.created_tables@.take(m as int).map_values(g),
        decreases db.created_tables@.len() - m,
    {
        out.push(CreateTable { table_index: db.created_tables[m] });
        proof {
            crate::matching::lemma_take_push(db.created_tables@, m as int);
            crate::matching::lemma_map_values_push(
                db.created_tables@.take(m as int),
                g,
                db.created_tables@[m as int],
            );
        }
        m = m + 1;
    }
    proof {
        assert(db.created_tables@.take(db.created_tables@.len() as int) =~= db.created_tables@);
    }
    out
}

// --- Phase: drop tables and their foreign keys -----------------------------------

/// The spec-level view of a list of foreign-key drop steps.
pub open spec fn dfk_views(s: Seq<DropForeignKey>) -> Seq<DropForeignKeyV> {
    s.map_values(|x: DropForeignKey| x@)
}

/// The table-drop steps: one per dropped table, in previous snapshot order.
pub open spec fn drop_tables_s(f: Flavour, ps: SqlSchema, ns: SqlSchema) -> Seq<DropTable> {
    dropped_tables_s(f, ps, ns).map_values(|i: usize| DropTable { table_index: i })
}

/// The drop steps for the named foreign keys of one table, in position order.
/// A foreign key without a constraint name needs no drop step of its own.
pub open spec fn drop_fks_of_table_s(t: Table, ti: usize, n: int) -> Seq<DropForeignKeyV>
    decreases n,
{
    if n <= 0 {
        Seq::empty()
    } else {
        let rest = drop_fks_of_table_s(t, ti, n - 1);
        match t.foreign_keys@[n - 1].constraint_name {
            Option::Some(cn) => rest.push(
                DropForeignKeyV {
                    table_index: ti,
                    foreign_key_index: (n - 1) as usize,
                    table: t.name@,
                    constraint_name: cn@,
                },
            ),
            Option::None => rest,
        }
    }
}

/// The foreign-key drop steps of the first `n` dropped tables, table by table
/// in previous snapshot order.
pub open spec fn dropped_tables_fks_upto(ps: SqlSchema, dropped: Seq<usize>, n: int) -> Seq<
    DropForeignKeyV,
>
    decreases n,
{
    if n <= 0 {
        Seq::empty()
    } else {
        let t = ps.tables@[dropped[n - 1] as int];
        dropped_tables_fks_upto(ps, dropped, n - 1) + drop_fks_of_table_s(
            t,
            dropped[n - 1],
            t.foreign_keys@.len() as int,
        )
    }
}

/// The foreign-key drop steps of all dropped tables.
pub open spec fn dropped_tables_fks_s(f: Flavour, ps: SqlSchema, ns: SqlSchema) -> Seq<
    DropForeignKeyV,
> {
    dropped_tables_fks_upto(
        ps,
        dropped_tables_s(f, ps, ns),
        dropped_tables_s(f, ps, ns).len() as int,
    )
}

/// Emit one `DropTable` per dropped table, together with the drop steps for
/// the dropped tables' named foreign keys. The foreign keys are collected
/// first so the tables themselves can later be dropped in any order.
pub fn drop_tables(db: &DifferDatabase, previous: &SqlSchema, next: &SqlSchema) -> (r: (
    Vec<DropTable>,
    Vec<DropForeignKey>,
))
    requires
        db_matches(*db, *previous, *next),
    ensures
        r.0@ == drop_tables_s(db.flavour, *previous, *next),
        dfk_views(r.1@) == dropped_tables_fks_s(db.flavour, *previous, *next),
{
    proof {
        lemma_dropped_tables_in_range(db.flavour, *previous, *next);
    }
    let ghost g = |i: usize| DropTable { table_index: i };
    let ghost dropped = db.dropped_tables@;
    let mut tables: Vec<DropTable> = Vec::new();
    let mut fks: Vec<DropForeignKey> = Vec::new();
    let mut m: usize = 0;
    while m < db.dropped_tables.len()
        invariant
            m <= dropped.len(),
            db_matches(*db, *previous, *next),
            dropped == db.dropped_tables@,
            g == (|i: usize| DropTable { table_index: i }),
            forall|k: int|
                #![trigger dropped[k]]
                0 <= k < dropped.len() ==> dropped[k] < previous.tables@.len(),
            tables@ == dropped.take(m as int).map_values(g),
            dfk_views(fks@) == dropped_tables_fks_upto(*previous, dropped, m as int),
        decreases dropped.len() - m,
    {
        let ti = db.dropped_tables[m];
        tables.push(DropTable { table_index: ti });
        proof {
            crate::matching::lemma_take_push(dropped, m as int);
            crate::matching::lemma_map_values_push(dropped.take(m as int), g, dropped[m as int]);
        }
        let t = &previous.tables[ti];
        let mut k: usize = 0;
        while k < t.foreign_keys.len()
            invariant
                k <= t.foreign_keys@.len(),
                t == &previous.tables@[ti as int],
                ti == dropped[m as int],
                0 <= m < dropped.len(),
                dfk_views(fks@) == dropped_tables_fks_upto(*previous, dropped, m as int)
                    + drop_fks_of_table_s(*t, ti, k as int),
            decreases t.foreign_keys@.len() - k,
        {
            match &t.foreign_keys[k].constraint_name {
                Option::Some(cn) => {
                    let ghost before = dfk_views(fks@);
                    let step = DropForeignKey {
                        table_index: ti,
                        foreign_key_index: k,
                        table: t.name.clone(),
                        constraint_name: cn.clone(),
                    };
                    fks.push(step);
                    proof {
                        assert(dfk_views(fks@) =~= before.push(step@));
                    }
                },
                Option::None => {},
            }
            k = k + 1;
        }
        m = m + 1;
    }
    proof {
        assert(dropped.take(dropped.len() as int) =~= dropped);
    }
    (tables, fks)
}

/// The drop steps for the named dropped foreign keys of one table pair, in
/// previous position order.
pub open spec fn drop_fks_of_pair_upto(
    pt: Table,
    ti: usize,
    dropped: Seq<usize>,
    m: int,
) -> Seq<DropForeignKeyV>
    decreases m,
{
    if m <= 0 {
        Seq::empty()
    } else {
        let rest = drop_fks_of_pair_upto(pt, ti, dropped, m - 1);
        match pt.foreign_keys@[dropped[m - 1] as int].constraint_name {
            Option::Some(cn) => rest.push(
                DropForeignKeyV {
                    table_index: ti,
                    foreign_key_index: dropped[m - 1],
                    table: pt.name@,
                    constraint_name: cn@,
                },
            ),
            Option::None => rest,
        }
    }
}

/// The foreign-key drop steps of the first `n` table pairs.
pub open spec fn pairs_drop_fks_upto(
    f: Flavour,
    ps: SqlSchema,
    ns: SqlSchema,
    pairs: Seq<(usize, usize)>,
    n: int,
) -> Seq<DropForeignKeyV>
    decreases n,
{
    if n <= 0 {
        Seq::empty()
    } else {
        let ti = pairs[n - 1].0;
        let pt = ps.tables@[ti as int];
        let nt = ns.tables@[pairs[n - 1].1 as int];
        pairs_drop_fks_upto(f, ps, ns, pairs, n - 1) + drop_fks_of_pair_upto(
            pt,
            ti,
            dropped_fks_s(f, pt, nt),
            dropped_fks_s(f, pt, nt).len() as int,
        )
    }
}

/// The foreign-key drop steps of all matched table pairs.
pub open spec fn pairs_drop_fks_s(f: Flavour, ps: SqlSchema, ns: SqlSchema) -> Seq<
    DropForeignKeyV,
> {
    pairs_drop_fks_upto(f, ps, ns, table_pairs_s(f, ps, ns), table_pairs_s(f, ps, ns).len() as int)
}

/// Append the drop steps for the named foreign keys dropped from surviving
/// table pairs, in previous snapshot order.
pub fn push_drop_foreign_keys(
    db: &DifferDatabase,
    previous: &SqlSchema,
    next: &SqlSchema,
    drop_foreign_keys: &mut Vec<DropForeignKey>,
)
    requires
        db_matches(*db, *previous, *next),
    ensures
        dfk_views(final(drop_foreign_keys)@) == dfk_views(old(drop_foreign_keys)@)
            + pairs_drop_fks_s(db.flavour, *previous, *next),
{
    proof {
        lemma_table_pairs_in_range(db.flavour, *previous, *next);
    }
    let ghost pairs = db.table_pairs@;
    let ghost base = dfk_views(old(drop_foreign_keys)@);
    let mut m: usize = 0;
    while m < db.table_pairs.len()
        invariant
            m <= pairs.len(),
            db_matches(*db, *previous, *next),
            pairs == db.table_pairs@,
            base == dfk_views(old(drop_foreign_keys)@),
            forall|k: int|
                #![trigger pairs[k]]
                0 <= k < pairs.len() ==> pairs[k].0 < previous.tables@.len() && pairs[k].1
                    < next.tables@.len(),
            dfk_views(drop_foreign_keys@) == base + pairs_drop_fks_upto(
                db.flavour,
                *previous,
                *next,
                pairs,
                m as int,
            ),
        decreases pairs.len() - m,
    {
        let (ti, tj) = db.table_pairs[m];
        let pt = &previous.tables[ti];
        let nt = &next.tables[tj];
        let dropped = dropped_foreign_keys(&db.flavour, pt, nt);
        proof {
            crate::table::lemma_dropped_fks_in_range(db.flavour, *pt, *nt);
        }
        let mut k: usize = 0;
        while k < dropped.len()
            invariant
                k <= dropped@.len(),
                dropped@ == dropped_fks_s(db.flavour, *pt, *nt),
                pt == &previous.tables@[ti as int],
                nt == &next.tables@[tj as int],
                forall|x: int|
                    #![trigger dropped@[x]]
                    0 <= x < dropped@.len() ==> dropped@[x] < pt.foreign_keys@.len(),
                dfk_views(drop_foreign_keys@) == base + pairs_drop_fks_upto(
                    db.flavour,
                    *previous,
                    *next,
                    pairs,
                    m as int,
                ) + drop_fks_of_pair_upto(*pt, ti, dropped@, k as int),
            decreases dropped@.len() - k,
        {
            let fk_index = dropped[k];
            match &pt.foreign_keys[fk_index].constraint_name {
                Option::Some(cn) => {
                    let ghost before = dfk_views(drop_foreign_keys@);
                    let step = DropForeignKey {
                        table_index: ti,
                        foreign_key_index: fk_index,
                        table: pt.name.clone(),
                        constraint_name: cn.clone(),
                    };
                    drop_foreign_keys.push(step);
                    proof {
                        assert(dfk_views(drop_foreign_keys@) =~= before.push(step@));
                    }
                },
                Option::None => {},
            }
            k = k + 1;
        }
        proof {
            assert(pairs[m as int].0 == ti && pairs[m as int].1 == tj);
        }
        m = m + 1;
    }
}

// --- Phase: add foreign keys ------------------------------------------------------

/// The foreign-key addition steps of one created table: every foreign key of
/// the table, in position order.
pub open spec fn add_fks_of_table_s(tj: usize, fk_count: int) -> Seq<AddForeignKey>
    decreases fk_count,
{
    if fk_count <= 0 {
        Seq::empty()
    } else {
        add_fks_of_table_s(tj, fk_count - 1).push(
            AddForeignKey { table_index: tj, foreign_key_index: (fk_count - 1) as usize },
        )
    }
}

/// The foreign-key addition steps of the first `n` created tables.
pub open spec fn created_tables_fks_upto(ns: SqlSchema, created: Seq<usize>, n: int) -> Seq<
    AddForeignKey,
>
    decreases n,
{
    if n <= 0 {
        Seq::empty()
    } else {
        created_tables_fks_upto(ns, created, n - 1) + add_fks_of_table_s(
            created[n - 1],
            ns.tables@[created[n - 1] as int].foreign_keys@.len() as int,
        )
    }
}

/// The foreign-key addition steps of the first `n` table pairs: one step per
/// created foreign key, in next position order.
pub open spec fn pairs_add_fks_upto(
    f: Flavour,
    ps: SqlSchema,
    ns: SqlSchema,
    pairs: Seq<(usize, usize)>,
    n: int,
) -> Seq<AddForeignKey>
    decreases n,
{
    if n <= 0 {
        Seq::empty()
    } else {
        let tj = pairs[n - 1].1;
        let pt = ps.tables@[pairs[n - 1].0 as int];
        let nt = ns.tables@[tj as int];
        pairs_add_fks_upto(f, ps, ns, pairs, n - 1) + created_fks_s(f, pt, nt).map_values(
            |k: usize| AddForeignKey { table_index: tj, foreign_key_index: k },
        )
    }
}

/// The complete foreign-key addition phase: the foreign keys of created
/// tables first, when the flavour pushes them as separate steps, then the
/// created foreign keys of every table pair.
pub open spec fn add_foreign_keys_s(f: Flavour, ps: SqlSchema, ns: SqlSchema) -> Seq<
    AddForeignKey,
> {
    let from_created = if f.should_push_foreign_keys_from_created_tables {
        created_tables_fks_upto(
            ns,
            created_tables_s(f, ps, ns),
            created_tables_s(f, ps, ns).len() as int,
        )
    } else {
        Seq::empty()
    };
    from_created + pairs_add_fks_upto(
        f,
        ps,
        ns,
        table_pairs_s(f, ps, ns),
        table_pairs_s(f, ps, ns).len() as int,
    )
}

/// Push one `AddForeignKey` per foreign key of every created table.
fn push_foreign_keys_from_created_tables(
    db: &DifferDatabase,
    previous: &SqlSchema,
    next: &SqlSchema,
    steps: &mut Vec<AddForeignKey>,
)
    requires
        db_matches(*db, *previous, *next),
    ensures
        final(steps)@ == old(steps)@ + created_tables_fks_upto(
            *next,
            created_tables_s(db.flavour, *previous, *next),
            created_tables_s(db.flavour, *previous, *next).len() as int,
        ),
{
    proof {
        lemma_created_tables_in_range(db.flavour, *previous, *next);
    }
    let ghost created = db.created_tables@;
    let ghost base = old(steps)@;
    let mut m: usize = 0;
    while m < db.created_tables.len()
        invariant
            m <= created.len(),
            db_matches(*db, *previous, *next),
            created == db.created_tables@,
            base == old(steps)@,
            forall|k: int|
                #![trigger created[k]]
                0 <= k < created.len() ==> created[k] < next.tables@.len(),
            steps@ == base + created_tables_fks_upto(*next, created, m as int),
        decreases created.len() - m,
    {
        let tj = db.created_tables[m];
        let t = &next.tables[tj];
        let mut k: usize = 0;
        while k < t.foreign_keys.len()
            invariant
                k <= t.foreign_keys@.len(),
                t == &next.tables@[tj as int],
                tj == created[m as int],
                0 <= m < created.len(),
                steps@ == base + created_tables_fks_upto(*next, created, m as int)
                    + add_fks_of_table_s(tj, k as int),
            decreases t.foreign_keys@.len() - k,
        {
            steps.push(AddForeignKey { table_index: tj, foreign_key_index: k });
            k = k + 1;
        }
        m = m + 1;
    }
}

/// Push one `AddForeignKey` per created foreign key of every table pair.
pub fn push_created_foreign_keys(
    db: &DifferDatabase,
    previous: &SqlSchema,
    next: &SqlSchema,
    added_foreign_keys: &mut Vec<AddForeignKey>,
)
    requires
        db_matches(*db, *previous, *next),
    ensures
        final(added_foreign_keys)@ == old(added_foreign_keys)@ + pairs_add_fks_upto(
            db.flavour,
            *previous,
            *next,
            table_pairs_s(db.flavour, *previous, *next),
            table_pairs_s(db.flavour, *previous, *next).len() as int,
        ),
{
    proof {
        lemma_table_pairs_in_range(db.flavour, *previous, *next);
    }
    let ghost pairs = db.table_pairs@;
    let ghost base = old(added_foreign_keys)@;
    let mut m: usize = 0;
    while m < db.table_pairs.len()
        invariant
            m <= pairs.len(),
            db_matches(*db, *previous, *next),
            pairs == db.table_pairs@,
            base == old(added_foreign_keys)@,
            forall|k: int|
                #![trigger pairs[k]]
                0 <= k < pairs.len() ==> pairs[k].0 < previous.tables@.len() && pairs[k].1
                    < next.tables@.len(),
            added_foreign_keys@ == base + pairs_add_fks_upto(
                db.flavour,
                *previous,
                *next,
                pairs,
                m as int,
            ),
        decreases pairs.len() - m,
    {
        let (ti, tj) = db.table_pairs[m];
        let pt = &previous.tables[ti];
        let nt = &next.tables[tj];
        let created = created_foreign_keys(&db.flavour, pt, nt);
        let ghost g = |k: usize| AddForeignKey { table_index: tj, foreign_key_index: k };
        let mut k: usize = 0;
        while k < created.len()
            invariant
                k <= created@.len(),
                created@ == created_fks_s(db.flavour, *pt, *nt),
                pt == &previous.tables@[ti as int],
                nt == &next.tables@[tj as int],
                g == (|k: usize| AddForeignKey { table_index: tj, foreign_key_index: k }),
                added_foreign_keys@ == base + pairs_add_fks_upto(
                    db.flavour,
                    *previous,
                    *next,
                    pairs,
                    m as int,
                ) + created@.take(k as int).map_values(g),
            decreases created@.len() - k,
        {
            added_foreign_keys.push(AddForeignKey { table_index: tj, foreign_key_index: created[k] });
            proof {
                crate::matching::lemma_take_push(created@, k as int);
                crate::matching::lemma_map_values_push(created@.take(k as int), g, created@[k as int]);
            }
            k = k + 1;
        }
        proof {
            assert(pairs[m as int].0 == ti && pairs[m as int].1 == tj);
            assert(created@.take(created@.len() as int) =~= created@);
        }
        m = m + 1;
    }
}

// --- Phase: index renames ---------------------------------------------------------

/// The renamed index pairs of one table pair: matched index pairs whose names
/// differ, each as a pair of (table position, index position) addresses.
pub open spec fn renamed_indexes_of_pair_upto(
    pt: Table,
    ti: usize,
    nt: Table,
    tj: usize,
    idx_pairs: Seq<(usize, usize)>,
    m: int,
) -> Seq<Pair<(usize, usize)>>
    decreases m,
{
    if m <= 0 {
        Seq::empty()
    } else {
        let rest = renamed_indexes_of_pair_upto(pt, ti, nt, tj, idx_pairs, m - 1);
        if index_renamed(
            pt.indexes@[idx_pairs[m - 1].0 as int],
            nt.indexes@[idx_pairs[m - 1].1 as int],
        ) {
            rest.push(
                Pair { previous: (ti, idx_pairs[m - 1].0), next: (tj, idx_pairs[m - 1].1) },
            )
        } else {
            rest
        }
    }
}

/// The renamed index pairs of the first `n` table pairs.
pub open spec fn alter_indexes_upto(
    f: Flavour,
    ps: SqlSchema,
    ns: SqlSchema,
    pairs: Seq<(usize, usize)>,
    n: int,
) -> Seq<Pair<(usize, usize)>>
    decreases n,
{
    if n <= 0 {
        Seq::empty()
    } else {
        let ti = pairs[n - 1].0;
        let tj = pairs[n - 1].1;
        let pt = ps.tables@[ti as int];
        let nt = ns.tables@[tj as int];
        alter_indexes_upto(f, ps, ns, pairs, n - 1) + renamed_indexes_of_pair_upto(
            pt,
            ti,
            nt,
            tj,
            index_pairs_s(pt, nt),
            index_pairs_s(pt, nt).len() as int,
        )
    }
}

/// All index renames, in previous snapshot order.
pub open spec fn alter_indexes_s(f: Flavour, ps: SqlSchema, ns: SqlSchema) -> Seq<
    Pair<(usize, usize)>,
> {
    alter_indexes_upto(f, ps, ns, table_pairs_s(f, ps, ns), table_pairs_s(f, ps, ns).len() as int)
}

/// Collect the matched index pairs whose names differ, as pairs of
/// (table position, index position) addresses into the two snapshots.
pub fn alter_indexes(db: &DifferDatabase, previous: &SqlSchema, next: &SqlSchema) -> (r: Vec<
    Pair<(usize, usize)>,
>)
    requires
        db_matches(*db, *previous, *next),
    ensures
        r@ == alter_indexes_s(db.flavour, *previous, *next),
{
    proof {
        lemma_table_pairs_in_range(db.flavour, *previous, *next);
    }
    let ghost pairs = db.table_pairs@;
    let mut out: Vec<Pair<(usize, usize)>> = Vec::new();
    let mut m: usize = 0;
    while m < db.table_pairs.len()
        invariant
            m <= pairs.len(),
            db_matches(*db, *previous, *next),
            pairs == db.table_pairs@,
            forall|k: int|
                #![trigger pairs[k]]
                0 <= k < pairs.len() ==> pairs[k].0 < previous.tables@.len() && pairs[k].1
                    < next.tables@.len(),
            out@ == alter_indexes_upto(db.flavour, *previous, *next, pairs, m as int),
        decreases pairs.len() - m,
    {
        let (ti, tj) = db.table_pairs[m];
        let pt = &previous.tables[ti];
        let nt = &next.tables[tj];
        let idx_pairs = index_pairs(pt, nt);
        proof {
            crate::table::lemma_index_pairs_props(*pt, *nt);
        }
        let mut k: usize = 0;
        while k < idx_pairs.len()
            invariant
                k <= idx_pairs@.len(),
                idx_pairs@ == index_pairs_s(*pt, *nt),
                pt == &previous.tables@[ti as int],
                nt == &next.tables@[tj as int],
                forall|x: int|
                    #![trigger idx_pairs@[x]]
                    0 <= x < idx_pairs@.len() ==> idx_pairs@[x].0 < pt.indexes@.len()
                        && idx_pairs@[x].1 < nt.indexes@.len(),
                out@ == alter_indexes_upto(db.flavour, *previous, *next, pairs, m as int)
                    + renamed_indexes_of_pair_upto(*pt, ti, *nt, tj, idx_pairs@, k as int),
            decreases idx_pairs@.len() - k,
        {
            let (pi, ni) = idx_pairs[k];
            if !crate::schema::opt_string_eq(&pt.indexes[pi].name, &nt.indexes[ni].name) {
                out.push(Pair { previous: (ti, pi), next: (tj, ni) });
                proof {
                    assert(idx_pairs@[k as int].0 == pi && idx_pairs@[k as int].1 == ni);
                }
            }
            k = k + 1;
        }
        proof {
            assert(pairs[m as int].0 == ti && pairs[m as int].1 == tj);
        }
        m = m + 1;
    }
    out
}

// --- Phase: enums ------------------------------------------------------------------

/// The enum-creation indices: created enums, only on flavours with native
/// enumerated types.
pub open spec fn create_enums_s(f: Flavour, ps: SqlSchema, ns: SqlSchema) -> Seq<usize> {
    if f.has_native_enums {
        created_enums_s(ps, ns)
    } else {
        Seq::empty()
    }
}

/// The enum-drop indices: dropped enums, only on flavours with native
/// enumerated types.
pub open spec fn drop_enums_s(f: Flavour, ps: SqlSchema, ns: SqlSchema) -> Seq<usize> {
    if f.has_native_enums {
        dropped_enums_s(ps, ns)
    } else {
        Seq::empty()
    }
}

/// The indices of enums to create, in next snapshot order.
pub fn create_enums(db: &DifferDatabase, previous: &SqlSchema, next: &SqlSchema) -> (r: Vec<usize>)
    requires
        db_matches(*db, *previous, *next),
    ensures
        r@ == create_enums_s(db.flavour, *previous, *next),
{
    if db.flavour.has_native_enums {
        crate::schema::clone_usize_vec(&db.created_enums)
    } else {
        Vec::new()
    }
}

/// The indices of enums to drop, in previous snapshot order.
pub fn drop_enums(db: &DifferDatabase, previous: &SqlSchema, next: &SqlSchema) -> (r: Vec<usize>)
    requires
        db_matches(*db, *previous, *next),
    ensures
        r@ == drop_enums_s(db.flavour, *previous, *next),
{
    if db.flavour.has_native_enums {
        crate::schema::clone_usize_vec(&db.dropped_enums)
    } else {
        Vec::new()
    }
}

/// Whether a column's type is the enumerated type named `ename`.
pub open spec fn col_uses_enum(c: Column, ename: Seq<char>) -> bool {
    match c.tpe.family {
        crate::schema::ColumnTypeFamily::Enum(s) => s@ == ename,
        _ => false,
    }
}

/// Whether a column used the enumerated type and carries a default whose
/// value may reference one of its variants.
pub open spec fn col_tracks_default(c: Column, ename: Seq<char>) -> bool {
    col_uses_enum(c, ename) && c.default is Some
}

fn col_tracks_default_exec(c: &Column, ename: &String) -> (r: bool)
    ensures
        r == col_tracks_default(*c, ename@),
{
    let uses = match &c.tpe.family {
        crate::schema::ColumnTypeFamily::Enum(s) => crate::schema::string_eq(s, ename),
        _ => false,
    };
    uses && c.default.is_some()
}

/// One usage record: the previous column's address, and the matching next
/// column's address when the default still applies there.
pub open spec fn dropped_table_usages_of(t: Table, ti: usize, ename: Seq<char>, n: int) -> Seq<
    ((usize, usize), Option<(usize, usize)>),
>
    decreases n,
{
    if n <= 0 {
        Seq::empty()
    } else {
        let rest = dropped_table_usages_of(t, ti, ename, n - 1);
        if col_tracks_default(t.columns@[n - 1], ename) {
            rest.push(((ti, (n - 1) as usize), Option::None))
        } else {
            rest
        }
    }
}

/// The usage records of the first `n` dropped tables.
pub open spec fn dropped_tables_usages_upto(
    ps: SqlSchema,
    dropped: Seq<usize>,
    ename: Seq<char>,
    n: int,
) -> Seq<((usize, usize), Option<(usize, usize)>)>
    decreases n,
{
    if n <= 0 {
        Seq::empty()
    } else {
        let t = ps.tables@[dropped[n - 1] as int];
        dropped_tables_usages_upto(ps, dropped, ename, n - 1) + dropped_table_usages_of(
            t,
            dropped[n - 1],
            ename,
            t.columns@.len() as int,
        )
    }
}

/// The usage records of one pair's dropped columns.
pub open spec fn pair_dropped_col_usages(
    pt: Table,
    ti: usize,
    ename: Seq<char>,
    dropped_cols: Seq<usize>,
    m: int,
) -> Seq<((usize, usize), Option<(usize, usize)>)>
    decreases m,
{
    if m <= 0 {
        Seq::empty()
    } else {
        let rest = pair_dropped_col_usages(pt, ti, ename, dropped_cols, m - 1);
        if col_tracks_default(pt.columns@[dropped_cols[m - 1] as int], ename) {
            rest.push(((ti, dropped_cols[m - 1]), Option::None))
        } else {
            rest
        }
    }
}

/// The usage records of one pair's matched columns: a previous column whose
/// default referenced the previous enum, paired with the next column when the
/// default still references the next enum there.
pub open spec fn pair_col_pair_usages(
    pt: Table,
    ti: usize,
    nt: Table,
    tj: usize,
    pename: Seq<char>,
    nename: Seq<char>,
    cpairs: Seq<(usize, usize)>,
    m: int,
) -> Seq<((usize, usize), Option<(usize, usize)>)>
    decreases m,
{
    if m <= 0 {
        Seq::empty()
    } else {
        let rest = pair_col_pair_usages(pt, ti, nt, tj, pename, nename, cpairs, m - 1);
        let ci = cpairs[m - 1].0;
        let cj = cpairs[m - 1].1;
        if col_tracks_default(pt.columns@[ci as int], pename) {
            let next_usage = if col_tracks_default(nt.columns@[cj as int], nename) {
                Option::Some((tj, cj))
            } else {
                Option::None
            };
            rest.push(((ti, ci), next_usage))
        } else {
            rest
        }
    }
}

/// The usage records of the first `n` table pairs: each pair's dropped
/// columns first, then its matched columns.
pub open spec fn pairs_usages_upto(
    f: Flavour,
    ps: SqlSchema,
    ns: SqlSchema,
    pename: Seq<char>,
    nename: Seq<char>,
    pairs: Seq<(usize, usize)>,
    n: int,
) -> Seq<((usize, usize), Option<(usize, usize)>)>
    decreases n,
{
    if n <= 0 {
        Seq::empty()
    } else {
        let ti = pairs[n - 1].0;
        let tj = pairs[n - 1].1;
        let pt = ps.tables@[ti as int];
        let nt = ns.tables@[tj as int];
        pairs_usages_upto(f, ps, ns, pename, nename, pairs, n - 1) + pair_dropped_col_usages(
            pt,
            ti,
            pename,
            dropped_columns_s(f, pt, nt),
            dropped_columns_s(f, pt, nt).len() as int,
        ) + pair_col_pair_usages(
            pt,
            ti,
            nt,
            tj,
            pename,
            nename,
            column_pairs_s(f, pt, nt),
            column_pairs_s(f, pt, nt).len() as int,
        )
    }
}

/// Every column whose previous default referenced the altered enum: columns
/// of dropped tables, dropped columns of surviving pairs, and matched columns
/// (with the next column's address when the default still applies).
pub open spec fn usages_s(
    f: Flavour,
    ps: SqlSchema,
    ns: SqlSchema,
    pename: Seq<char>,
    nename: Seq<char>,
) -> Seq<((usize, usize), Option<(usize, usize)>)> {
    dropped_tables_usages_upto(
        ps,
        dropped_tables_s(f, ps, ns),
        pename,
        dropped_tables_s(f, ps, ns).len() as int,
    ) + pairs_usages_upto(
        f,
        ps,
        ns,
        pename,
        nename,
        table_pairs_s(f, ps, ns),
        table_pairs_s(f, ps, ns).len() as int,
    )
}

/// Compute every previous usage of the altered enum as a column default.
fn compute_usages(
    db: &DifferDatabase,
    previous: &SqlSchema,
    next: &SqlSchema,
    pename: &String,
    nename: &String,
) -> (r: Vec<((usize, usize), Option<(usize, usize)>)>)
    requires
        db_matches(*db, *previous, *next),
    ensures
        r@ == usages_s(db.flavour, *previous, *next, pename@, nename@),
{
    proof {
        lemma_dropped_tables_in_range(db.flavour, *previous, *next);
        lemma_table_pairs_in_range(db.flavour, *previous, *next);
    }
    let ghost dropped = db.dropped_tables@;
    let ghost pairs = db.table_pairs@;
    let mut out: Vec<((usize, usize), Option<(usize, usize)>)> = Vec::new();
    let mut m: usize = 0;
    while m < db.dropped_tables.len()
        invariant
            m <= dropped.len(),
            db_matches(*db, *previous, *next),
            dropped == db.dropped_tables@,
            forall|k: int|
                #![trigger dropped[k]]
                0 <= k < dropped.len() ==> dropped[k] < previous.tables@.len(),
            out@ == dropped_tables_usages_upto(*previous, dropped, pename@, m as int),
        decreases dropped.len() - m,
    {
        let ti = db.dropped_tables[m];
        let t = &previous.tables[ti];
        let mut c: usize = 0;
        while c < t.columns.len()
            invariant
                c <= t.columns@.len(),
                t == &previous.tables@[ti as int],
                ti == dropped[m as int],
                0 <= m < dropped.len(),
                out@ == dropped_tables_usages_upto(*previous, dropped, pename@, m as int)
                    + dropped_table_usages_of(*t, ti, pename@, c as int),
            decreases t.columns@.len() - c,
        {
            if col_tracks_default_exec(&t.columns[c], pename) {
                out.push(((ti, c), Option::None));
            }
            c = c + 1;
        }
        m = m + 1;
    }
    let ghost part_a = dropped_tables_usages_upto(
        *previous,
        dropped,
        pename@,
        dropped.len() as int,
    );
    let mut m: usize = 0;
    while m < db.table_pairs.len()
        invariant
            m <= pairs.len(),
            db_matches(*db, *previous, *next),
            pairs == db.table_pairs@,
            part_a == dropped_tables_usages_upto(*previous, dropped, pename@, dropped.len() as int),
            dropped == db.dropped_tables@,
            forall|k: int|
                #![trigger pairs[k]]
                0 <= k < pairs.len() ==> pairs[k].0 < previous.tables@.len() && pairs[k].1
                    < next.tables@.len(),
            out@ == part_a + pairs_usages_upto(
                db.flavour,
                *previous,
                *next,
                pename@,
                nename@,
                pairs,
                m as int,
            ),
        decreases pairs.len() - m,
    {
        let (ti, tj) = db.table_pairs[m];
        let pt = &previous.tables[ti];
        let nt = &next.tables[tj];
        let dcols = dropped_columns(&db.flavour, pt, nt);
        proof {
            crate::table::lemma_dropped_columns_in_range(db.flavour, *pt, *nt);
        }
        let ghost mid = out@;
        let mut k: usize = 0;
        while k < dcols.len()
            invariant
                k <= dcols@.len(),
                dcols@ == dropped_columns_s(db.flavour, *pt, *nt),
                pt == &previous.tables@[ti as int],
                nt == &next.tables@[tj as int],
                forall|x: int|
                    #![trigger dcols@[x]]
                    0 <= x < dcols@.len() ==> dcols@[x] < pt.columns@.len(),
                out@ == mid + pair_dropped_col_usages(*pt, ti, pename@, dcols@, k as int),
            decreases dcols@.len() - k,
        {
            let ci = dcols[k];
            if col_tracks_default_exec(&pt.columns[ci], pename) {
                out.push(((ti, ci), Option::None));
            }
            k = k + 1;
        }
        let cpairs = column_pairs(&db.flavour, pt, nt);
        proof {
            crate::table::lemma_column_pairs_props(db.flavour, *pt, *nt);
        }
        let ghost mid2 = out@;
        let mut k: usize = 0;
        while k < cpairs.len()
            invariant
                k <= cpairs@.len(),
                cpairs@ == column_pairs_s(db.flavour, *pt, *nt),
                pt == &previous.tables@[ti as int],
                nt == &next.tables@[tj as int],
                forall|x: int|
                    #![trigger cpairs@[x]]
                    0 <= x < cpairs@.len() ==> cpairs@[x].0 < pt.columns@.len() && cpairs@[x].1
                        < nt.columns@.len(),
                out@ == mid2 + pair_col_pair_usages(
                    *pt,
                    ti,
                    *nt,
                    tj,
                    pename@,
                    nename@,
                    cpairs@,
                    k as int,
                ),
            decreases cpairs@.len() - k,
        {
            let (ci, cj) = cpairs[k];
            if col_tracks_default_exec(&pt.columns[ci], pename) {
                let next_usage = if col_tracks_default_exec(&nt.columns[cj], nename) {
                    Option::Some((tj, cj))
                } else {
                    Option::None
                };
                out.push(((ti, ci), next_usage));
                proof {
                    assert(cpairs@[k as int].0 == ci && cpairs@[k as int].1 == cj);
                }
            } else {
                proof {
                    assert(cpairs@[k as int].0 == ci);
                }
            }
            k = k + 1;
        }
        proof {
            assert(pairs[m as int].0 == ti && pairs[m as int].1 == tj);
            assert(out@ == part_a + pairs_usages_upto(
                db.flavour,
                *previous,
                *next,
                pename@,
                nename@,
                pairs,
                m as int,
            ) + pair_dropped_col_usages(
                *pt,
                ti,
                pename@,
                dropped_columns_s(db.flavour, *pt, *nt),
                dropped_columns_s(db.flavour, *pt, *nt).len() as int,
            ) + pair_col_pair_usages(
                *pt,
                ti,
                *nt,
                tj,
                pename@,
                nename@,
                column_pairs_s(db.flavour, *pt, *nt),
                column_pairs_s(db.flavour, *pt, *nt).len() as int,
            ));
            assert(out@ =~= part_a + pairs_usages_upto(
                db.flavour,
                *previous,
                *next,
                pename@,
                nename@,
                pairs,
                m as int + 1,
            ));
        }
        m = m + 1;
    }
    out
}

/// The spec-level view of a list of enum alterations.
pub open spec fn ae_views(s: Seq<AlterEnum>) -> Seq<AlterEnumV> {
    s.map_values(|x: AlterEnum| x@)
}

/// The enum alterations of the first `n` enum pairs, with the usage list left
/// for a later pass.
pub open spec fn alter_enums_base_upto(
    ps: SqlSchema,
    ns: SqlSchema,
    pairs: Seq<(usize, usize)>,
    n: int,
) -> Seq<AlterEnumV>
    decreases n,
{
    if n <= 0 {
        Seq::empty()
    } else {
        let rest = alter_enums_base_upto(ps, ns, pairs, n - 1);
        let pi = pairs[n - 1].0;
        let ni = pairs[n - 1].1;
        let pe = ps.enums@[pi as int];
        let ne = ns.enums@[ni as int];
        if enum_changed(pe, ne) {
            rest.push(
                AlterEnumV {
                    index: Pair { previous: pi, next: ni },
                    created_variants: created_variants_s(pe, ne),
                    dropped_variants: dropped_variants_s(pe, ne),
                    previous_usages_as_default: Seq::empty(),
                },
            )
        } else {
            rest
        }
    }
}

/// The enum alterations before usage tracking, gated on native enum support.
pub open spec fn alter_enums_base_s(f: Flavour, ps: SqlSchema, ns: SqlSchema) -> Seq<AlterEnumV> {
    if f.has_native_enums {
        alter_enums_base_upto(ps, ns, enum_pairs_s(ps, ns), enum_pairs_s(ps, ns).len() as int)
    } else {
        Seq::empty()
    }
}

/// The complete enum alterations, usage lists included.
pub open spec fn alter_enums_full_upto(
    f: Flavour,
    ps: SqlSchema,
    ns: SqlSchema,
    pairs: Seq<(usize, usize)>,
    n: int,
) -> Seq<AlterEnumV>
    decreases n,
{
    if n <= 0 {
        Seq::empty()
    } else {
        let rest = alter_enums_full_upto(f, ps, ns, pairs, n - 1);
        let pi = pairs[n - 1].0;
        let ni = pairs[n - 1].1;
        let pe = ps.enums@[pi as int];
        let ne = ns.enums@[ni as int];
        if enum_changed(pe, ne) {
            rest.push(
                AlterEnumV {
                    index: Pair { previous: pi, next: ni },
                    created_variants: created_variants_s(pe, ne),
                    dropped_variants: dropped_variants_s(pe, ne),
                    previous_usages_as_default: usages_s(f, ps, ns, pe.name@, ne.name@),
                },
            )
        } else {
            rest
        }
    }
}

/// The enum-alteration phase: one step per changed enum pair, in previous
/// snapshot order, gated on native enum support.
pub open spec fn alter_enums_s(f: Flavour, ps: SqlSchema, ns: SqlSchema) -> Seq<AlterEnumV> {
    if f.has_native_enums {
        alter_enums_full_upto(f, ps, ns, enum_pairs_s(ps, ns), enum_pairs_s(ps, ns).len() as int)
    } else {
        Seq::empty()
    }
}

/// Collect the changed enum pairs, with empty usage lists.
pub fn alter_enums(db: &DifferDatabase, previous: &SqlSchema, next: &SqlSchema) -> (r: Vec<
    AlterEnum,
>)
    requires
        db_matches(*db, *previous, *next),
    ensures
        ae_views(r@) == alter_enums_base_s(db.flavour, *previous, *next),
        forall|m: int|
            #![trigger r@[m]]
            0 <= m < r@.len() ==> r@[m].index.previous < previous.enums@.len()
                && r@[m].index.next < next.enums@.len(),
{
    let mut out: Vec<AlterEnum> = Vec::new();
    if !db.flavour.has_native_enums {
        proof {
            assert(ae_views(out@) =~= alter_enums_base_s(db.flavour, *previous, *next));
        }
        return out;
    }
    proof {
        lemma_enum_pairs_in_range(*previous, *next);
    }
    let ghost pairs = db.enum_pairs@;
    let mut m: usize = 0;
    while m < db.enum_pairs.len()
        invariant
            m <= pairs.len(),
            db_matches(*db, *previous, *next),
            pairs == db.enum_pairs@,
            forall|k: int|
                #![trigger pairs[k]]
                0 <= k < pairs.len() ==> pairs[k].0 < previous.enums@.len() && pairs[k].1
                    < next.enums@.len(),
            ae_views(out@) == alter_enums_base_upto(*previous, *next, pairs, m as int),
            forall|k: int|
                #![trigger out@[k]]
                0 <= k < out@.len() ==> out@[k].index.previous < previous.enums@.len()
                    && out@[k].index.next < next.enums@.len(),
        decreases pairs.len() - m,
    {
        let (pi, ni) = db.enum_pairs[m];
        let pe = &previous.enums[pi];
        let ne = &next.enums[ni];
        if enum_lists_differ(pe, ne) {
            let ghost before = ae_views(out@);
            let step = AlterEnum {
                index: Pair { previous: pi, next: ni },
                created_variants: created_variants(pe, ne),
                dropped_variants: dropped_variants(pe, ne),
                previous_usages_as_default: Vec::new(),
            };
            out.push(step);
            proof {
                assert(pairs[m as int].0 == pi && pairs[m as int].1 == ni);
                assert(ae_views(out@) =~= before.push(step@));
            }
        } else {
            proof {
                assert(pairs[m as int].0 == pi && pairs[m as int].1 == ni);
            }
        }
        m = m + 1;
    }
    out
}

/// The base and full alteration lists agree except in the usage field, which
/// the full list fills from the pair's enum names.
proof fn lemma_alter_enums_full_vs_base(
    f: Flavour,
    ps: SqlSchema,
    ns: SqlSchema,
    pairs: Seq<(usize, usize)>,
    n: int,
)
    ensures
        alter_enums_full_upto(f, ps, ns, pairs, n).len() == alter_enums_base_upto(
            ps,
            ns,
            pairs,
            n,
        ).len(),
        forall|m: int|
            #![trigger alter_enums_full_upto(f, ps, ns, pairs, n)[m]]
            0 <= m < alter_enums_full_upto(f, ps, ns, pairs, n).len() ==> {
                let b = alter_enums_base_upto(ps, ns, pairs, n)[m];
                alter_enums_full_upto(f, ps, ns, pairs, n)[m] == (AlterEnumV {
                    index: b.index,
                    created_variants: b.created_variants,
                    dropped_variants: b.dropped_variants,
                    previous_usages_as_default: usages_s(
                        f,
                        ps,
                        ns,
                        ps.enums@[b.index.previous as int].name@,
                        ns.enums@[b.index.next as int].name@,
                    ),
                })
            },
    decreases n,
{
    if n > 0 {
        lemma_alter_enums_full_vs_base(f, ps, ns, pairs, n - 1);
        let full = alter_enums_full_upto(f, ps, ns, pairs, n);
        let base = alter_enums_base_upto(ps, ns, pairs, n);
        let fullp = alter_enums_full_upto(f, ps, ns, pairs, n - 1);
        let basep = alter_enums_base_upto(ps, ns, pairs, n - 1);
        assert forall|m: int| 0 <= m < full.len() implies {
            let b = base[m];
            #[trigger] full[m] == (AlterEnumV {
                index: b.index,
                created_variants: b.created_variants,
                dropped_variants: b.dropped_variants,
                previous_usages_as_default: usages_s(
                    f,
                    ps,
                    ns,
                    ps.enums@[b.index.previous as int].name@,
                    ns.enums@[b.index.next as int].name@,
                ),
            })
        } by {
            if m < fullp.len() {
                assert(full[m] == fullp[m]);
                assert(base[m] == basep[m]);
            }
        }
    }
}

/// Fill in, for every enum alteration, the columns whose previous default
/// referenced the altered enum.
pub fn push_previous_usages_as_defaults_in_altered_enums(
    db: &DifferDatabase,
    previous: &SqlSchema,
    next: &SqlSchema,
    alter_enums: &mut Vec<AlterEnum>,
)
    requires
        db_matches(*db, *previous, *next),
        ae_views(old(alter_enums)@) == alter_enums_base_s(db.flavour, *previous, *next),
        forall|m: int|
            #![trigger old(alter_enums)@[m]]
            0 <= m < old(alter_enums)@.len() ==> old(alter_enums)@[m].index.previous
                < previous.enums@.len() && old(alter_enums)@[m].index.next < next.enums@.len(),
    ensures
        ae_views(final(alter_enums)@) == alter_enums_s(db.flavour, *previous, *next),
{
    proof {
        if db.flavour.has_native_enums {
            lemma_alter_enums_full_vs_base(
                db.flavour,
                *previous,
                *next,
                enum_pairs_s(*previous, *next),
                enum_pairs_s(*previous, *next).len() as int,
            );
        }
    }
    let ghost base = ae_views(old(alter_enums)@);
    let ghost full = alter_enums_s(db.flavour, *previous, *next);
    let mut m: usize = 0;
    while m < alter_enums.len()
        invariant
            m <= alter_enums@.len(),
            db_matches(*db, *previous, *next),
            alter_enums@.len() == base.len(),
            base == alter_enums_base_s(db.flavour, *previous, *next),
            full == alter_enums_s(db.flavour, *previous, *next),
            full.len() == base.len(),
            forall|k: int|
                #![trigger base[k]]
                0 <= k < base.len() ==> base[k].index.previous < previous.enums@.len()
                    && base[k].index.next < next.enums@.len(),
            forall|k: int|
                #![trigger full[k]]
                0 <= k < base.len() ==> full[k] == (AlterEnumV {
                    index: base[k].index,
                    created_variants: base[k].created_variants,
                    dropped_variants: base[k].dropped_variants,
                    previous_usages_as_default: usages_s(
                        db.flavour,
                        *previous,
                        *next,
                        previous.enums@[base[k].index.previous as int].name@,
                        next.enums@[base[k].index.next as int].name@,
                    ),
                }),
            forall|k: int|
                #![trigger alter_enums@[k]]
                0 <= k < base.len() ==> alter_enums@[k]@ == if k < m {
                    full[k]
                } else {
                    base[k]
                },
        decreases alter_enums@.len() - m,
    {
        let idx = alter_enums[m].index;
        proof {
            assert(alter_enums@[m as int]@ == base[m as int]);
        }
        let pename = &previous.enums[idx.previous].name;
        let nename = &next.enums[idx.next].name;
        let usages = compute_usages(db, previous, next, pename, nename);
        alter_enums[m].previous_usages_as_default = usages;
        proof {
            assert(alter_enums@[m as int]@ == full[m as int]);
        }
        m = m + 1;
    }
    proof {
        assert(ae_views(alter_enums@) =~= full);
    }
}

// --- Per-pair table changes --------------------------------------------------------

/// The primary-key column positions of a table, empty when it has none.
pub open spec fn pk_cols(t: Table) -> Seq<usize> {
    match t.primary_key {
        Option::Some(v) => v@,
        Option::None => Seq::empty(),
    }
}

/// Whether the table has a primary key over at least one column.
pub open spec fn pk_nonempty(t: Table) -> bool {
    pk_cols(t).len() > 0
}

/// Whether the column at position `ci` is part of the table's primary key.
pub open spec fn col_in_pk(t: Table, ci: usize) -> bool {
    pk_cols(t).contains(ci)
}

/// Whether a matched column pair is dropped and recreated: its type change is
/// classified as not castable in place.
pub open spec fn col_pair_recreated(f: Flavour, pt: Table, nt: Table, p: (usize, usize)) -> bool {
    column_type_change_spec(f, pt.columns@[p.0 as int], nt.columns@[p.1 as int]) == Option::Some(
        ColumnTypeChange::NotCastable,
    )
}

/// Whether some matched column pair both belongs to the previous primary key
/// and is dropped and recreated.
pub open spec fn pk_col_recreated(f: Flavour, pt: Table, nt: Table) -> bool {
    exists|m: int|
        0 <= m < column_pairs_s(f, pt, nt).len() && col_pair_recreated(
            f,
            pt,
            nt,
            #[trigger] column_pairs_s(f, pt, nt)[m],
        ) && col_in_pk(pt, column_pairs_s(f, pt, nt)[m].0)
}

/// The primary key is dropped: either the ordered column-position lists
/// differ, or the flavour recreates the key whenever one of its columns is
/// dropped and recreated.
pub open spec fn drop_pk_s(f: Flavour, pt: Table, nt: Table) -> bool {
    pk_dropped(pt, nt) || (f.should_recreate_the_primary_key_on_column_recreate
        && pk_col_recreated(f, pt, nt))
}

/// The primary key is (re-)added: a nonempty key was created, or the flavour
/// recreates the key around a recreated key column. The step always carries
/// the next table's key columns.
pub open spec fn add_pk_s(f: Flavour, pt: Table, nt: Table) -> bool {
    (pk_created(pt, nt) && pk_nonempty(nt)) || (f.should_recreate_the_primary_key_on_column_recreate
        && pk_col_recreated(f, pt, nt) && pk_nonempty(nt))
}

fn col_in_pk_exec(t: &Table, ci: usize) -> (r: bool)
    ensures
        r == col_in_pk(*t, ci),
{
    match &t.primary_key {
        Option::None => false,
        Option::Some(pk) => {
            let mut k: usize = 0;
            while k < pk.len()
                invariant
                    k <= pk@.len(),
                    pk@ == pk_cols(*t),
                    forall|x: int| 0 <= x < k ==> pk@[x] != ci,
                decreases pk@.len() - k,
            {
                if pk[k] == ci {
                    assert(pk_cols(*t)[k as int] == ci);
                    return true;
                }
                k = k + 1;
            }
            assert(!pk_cols(*t).contains(ci));
            false
        },
    }
}

/// Whether some previous primary-key column is dropped and recreated by the
/// pair's column changes.
fn pk_column_recreated(f: &Flavour, pt: &Table, nt: &Table) -> (r: bool)
    ensures
        r == pk_col_recreated(*f, *pt, *nt),
{
    let cpairs = column_pairs(f, pt, nt);
    proof {
        crate::table::lemma_column_pairs_props(*f, *pt, *nt);
    }
    let mut m: usize = 0;
    while m < cpairs.len()
        invariant
            m <= cpairs@.len(),
            cpairs@ == column_pairs_s(*f, *pt, *nt),
            forall|x: int|
                #![trigger cpairs@[x]]
                0 <= x < cpairs@.len() ==> cpairs@[x].0 < pt.columns@.len() && cpairs@[x].1
                    < nt.columns@.len(),
            forall|x: int|
                0 <= x < m ==> !(col_pair_recreated(*f, *pt, *nt, #[trigger] cpairs@[x])
                    && col_in_pk(*pt, cpairs@[x].0)),
        decreases cpairs@.len() - m,
    {
        let (ci, cj) = cpairs[m];
        let changes = all_changes(f, &pt.columns[ci], &nt.columns[cj]);
        let recreated = match changes.1 {
            Option::Some(ColumnTypeChange::NotCastable) => true,
            _ => false,
        };
        if recreated && col_in_pk_exec(pt, ci) {
            proof {
                assert(cpairs@[m as int].0 == ci && cpairs@[m as int].1 == cj);
                assert(col_pair_recreated(*f, *pt, *nt, cpairs@[m as int]));
            }
            return true;
        }
        proof {
            assert(cpairs@[m as int].0 == ci && cpairs@[m as int].1 == cj);
        }
        m = m + 1;
    }
    false
}

/// The primary-key drop change of the pair, when one is needed.
pub fn drop_primary_key(f: &Flavour, pt: &Table, nt: &Table) -> (r: Option<TableChange>)
    ensures
        match r {
            Option::Some(tc) => drop_pk_s(*f, *pt, *nt) && tc == TableChange::DropPrimaryKey,
            Option::None => !drop_pk_s(*f, *pt, *nt),
        },
{
    if primary_key_dropped(pt, nt) {
        return Option::Some(TableChange::DropPrimaryKey);
    }
    if f.should_recreate_the_primary_key_on_column_recreate && pk_column_recreated(f, pt, nt) {
        return Option::Some(TableChange::DropPrimaryKey);
    }
    Option::None
}

/// The primary-key addition change of the pair, when one is needed; it
/// carries the next table's key column positions.
pub fn add_primary_key(f: &Flavour, pt: &Table, nt: &Table) -> (r: Option<TableChange>)
    ensures
        match r {
            Option::Some(tc) => add_pk_s(*f, *pt, *nt) && tc@ == (TableChangeV::AddPrimaryKey {
                columns: pk_cols(*nt),
            }),
            Option::None => !add_pk_s(*f, *pt, *nt),
        },
{
    let nonempty = match &nt.primary_key {
        Option::Some(pk) => pk.len() > 0,
        Option::None => false,
    };
    let wanted = (primary_key_created(pt, nt) && nonempty) || (
    f.should_recreate_the_primary_key_on_column_recreate && pk_column_recreated(f, pt, nt)
        && nonempty);
    if wanted {
        let columns = match &nt.primary_key {
            Option::Some(pk) => crate::schema::clone_usize_vec(pk),
            Option::None => Vec::new(),
        };
        Option::Some(TableChange::AddPrimaryKey { columns })
    } else {
        Option::None
    }
}

/// The spec-level view of a list of table changes.
pub open spec fn tc_views(s: Seq<TableChange>) -> Seq<TableChangeV> {
    s.map_values(|x: TableChange| x@)
}

/// The change emitted for one matched column pair that differs: a column that
/// cannot be cast in place is dropped and recreated, any other difference is
/// an in-place alteration carrying the classification.
pub open spec fn alter_column_change(f: Flavour, p: (usize, usize), pc: Column, nc: Column) -> TableChangeV {
    let ch = column_changes_spec(pc, nc);
    if column_type_change_spec(f, pc, nc) == Option::Some(ColumnTypeChange::NotCastable) {
        TableChangeV::DropAndRecreateColumn {
            column_index: Pair { previous: p.0, next: p.1 },
            changes: ch,
        }
    } else {
        TableChangeV::AlterColumn {
            column_index: Pair { previous: p.0, next: p.1 },
            changes: ch,
            type_change: column_type_change_spec(f, pc, nc),
        }
    }
}

/// The alteration changes of the first `m` matched column pairs; a pair whose
/// fields are all equal contributes nothing.
pub open spec fn alter_columns_upto(
    f: Flavour,
    pt: Table,
    nt: Table,
    cpairs: Seq<(usize, usize)>,
    m: int,
) -> Seq<TableChangeV>
    decreases m,
{
    if m <= 0 {
        Seq::empty()
    } else {
        let rest = alter_columns_upto(f, pt, nt, cpairs, m - 1);
        let pc = pt.columns@[cpairs[m - 1].0 as int];
        let nc = nt.columns@[cpairs[m - 1].1 as int];
        if column_changes_spec(pc, nc).differs_in_something() {
            rest.push(alter_column_change(f, cpairs[m - 1], pc, nc))
        } else {
            rest
        }
    }
}

/// The alteration changes of all matched column pairs of the pair, in
/// previous column position order.
pub open spec fn alter_columns_s(f: Flavour, pt: Table, nt: Table) -> Seq<TableChangeV> {
    alter_columns_upto(f, pt, nt, column_pairs_s(f, pt, nt), column_pairs_s(f, pt, nt).len() as int)
}

/// Compute the alteration changes of the pair's matched columns.
pub fn alter_columns(f: &Flavour, pt: &Table, nt: &Table) -> (r: Vec<TableChange>)
    ensures
        tc_views(r@) == alter_columns_s(*f, *pt, *nt),
{
    let cpairs = column_pairs(f, pt, nt);
    proof {
        crate::table::lemma_column_pairs_props(*f, *pt, *nt);
    }
    let mut out: Vec<TableChange> = Vec::new();
    let mut m: usize = 0;
    while m < cpairs.len()
        invariant
            m <= cpairs@.len(),
            cpairs@ == column_pairs_s(*f, *pt, *nt),
            forall|x: int|
                #![trigger cpairs@[x]]
                0 <= x < cpairs@.len() ==> cpairs@[x].0 < pt.columns@.len() && cpairs@[x].1
                    < nt.columns@.len(),
            tc_views(out@) == alter_columns_upto(*f, *pt, *nt, cpairs@, m as int),
        decreases cpairs@.len() - m,
    {
        let (ci, cj) = cpairs[m];
        let (changes, type_change) = all_changes(f, &pt.columns[ci], &nt.columns[cj]);
        if changes.renamed || changes.arity_changed || changes.default_changed
            || changes.type_changed {
            let ghost before = tc_views(out@);
            let column_index = Pair { previous: ci, next: cj };
            let step = match type_change {
                Option::Some(ColumnTypeChange::NotCastable) => TableChange::DropAndRecreateColumn {
                    column_index,
                    changes,
                },
                _ => TableChange::AlterColumn(
                    crate::steps::AlterColumn { column_index, changes, type_change },
                ),
            };
            out.push(step);
            proof {
                assert(cpairs@[m as int].0 == ci && cpairs@[m as int].1 == cj);
                assert(tc_views(out@) =~= before.push(step@));
            }
        } else {
            proof {
                assert(cpairs@[m as int].0 == ci && cpairs@[m as int].1 == cj);
            }
        }
        m = m + 1;
    }
    out
}

/// The ordered change list of one matched table pair: drop the primary key,
/// drop columns, add columns, alter or recreate columns, then re-add the
/// primary key. The key is handled around the column changes because it is
/// defined over columns that may themselves be replaced.
pub open spec fn table_changes_s(f: Flavour, pt: Table, nt: Table) -> Seq<TableChangeV> {
    let drop_pk = if drop_pk_s(f, pt, nt) {
        seq![TableChangeV::DropPrimaryKey]
    } else {
        Seq::empty()
    };
    let drops = dropped_columns_s(f, pt, nt).map_values(
        |i: usize| TableChangeV::DropColumn { index: i },
    );
    let adds = added_columns_s(f, pt, nt).map_values(
        |j: usize| TableChangeV::AddColumn { column_index: j },
    );
    let add_pk = if add_pk_s(f, pt, nt) {
        seq![TableChangeV::AddPrimaryKey { columns: pk_cols(nt) }]
    } else {
        Seq::empty()
    };
    drop_pk + drops + adds + alter_columns_s(f, pt, nt) + add_pk
}

/// Compute the ordered change list of one matched table pair.
/// The column-drop changes of the pair, in previous position order.
pub fn drop_columns(f: &Flavour, pt: &Table, nt: &Table) -> (r: Vec<TableChange>)
    ensures
        tc_views(r@) == dropped_columns_s(*f, *pt, *nt).map_values(
            |i: usize| TableChangeV::DropColumn { index: i },
        ),
{
    let ghost gd = |i: usize| TableChangeV::DropColumn { index: i };
    let dcols = dropped_columns(f, pt, nt);
    let mut out: Vec<TableChange> = Vec::new();
    let mut k: usize = 0;
    while k < dcols.len()
        invariant
            k <= dcols@.len(),
            dcols@ == dropped_columns_s(*f, *pt, *nt),
            gd == (|i: usize| TableChangeV::DropColumn { index: i }),
            tc_views(out@) == dcols@.take(k as int).map_values(gd),
        decreases dcols@.len() - k,
    {
        let ghost before = tc_views(out@);
        let step = TableChange::DropColumn(DropColumn { index: dcols[k] });
        out.push(step);
        proof {
            crate::matching::lemma_take_push(dcols@, k as int);
            crate::matching::lemma_map_values_push(dcols@.take(k as int), gd, dcols@[k as int]);
            assert(tc_views(out@) =~= before.push(step@));
        }
        k = k + 1;
    }
    proof {
        assert(dcols@.take(dcols@.len() as int) =~= dcols@);
    }
    out
}

/// The column-addition changes of the pair, in next position order.
pub fn add_columns(f: &Flavour, pt: &Table, nt: &Table) -> (r: Vec<TableChange>)
    ensures
        tc_views(r@) == added_columns_s(*f, *pt, *nt).map_values(
            |j: usize| TableChangeV::AddColumn { column_index: j },
        ),
{
    let ghost ga = |j: usize| TableChangeV::AddColumn { column_index: j };
    let acols = added_columns(f, pt, nt);
    let mut out: Vec<TableChange> = Vec::new();
    let mut k: usize = 0;
    while k < acols.len()
        invariant
            k <= acols@.len(),
            acols@ == added_columns_s(*f, *pt, *nt),
            ga == (|j: usize| TableChangeV::AddColumn { column_index: j }),
            tc_views(out@) == acols@.take(k as int).map_values(ga),
        decreases acols@.len() - k,
    {
        let ghost before = tc_views(out@);
        let step = TableChange::AddColumn(AddColumn { column_index: acols[k] });
        out.push(step);
        proof {
            crate::matching::lemma_take_push(acols@, k as int);
            crate::matching::lemma_map_values_push(acols@.take(k as int), ga, acols@[k as int]);
            assert(tc_views(out@) =~= before.push(step@));
        }
        k = k + 1;
    }
    proof {
        assert(acols@.take(acols@.len() as int) =~= acols@);
    }
    out
}

pub fn table_changes(f: &Flavour, pt: &Table, nt: &Table) -> (r: Vec<TableChange>)
    ensures
        tc_views(r@) == table_changes_s(*f, *pt, *nt),
{
    let mut out: Vec<TableChange> = Vec::new();
    match drop_primary_key(f, pt, nt) {
        Option::Some(tc) => {
            out.push(tc);
        },
        Option::None => {},
    }
    let ghost part_drop_pk = tc_views(out@);
    let mut drops = drop_columns(f, pt, nt);
    let ghost drops_v = tc_views(drops@);
    out.append(&mut drops);
    proof {
        assert(tc_views(out@) =~= part_drop_pk + drops_v);
    }
    let ghost part_drops = tc_views(out@);
    let mut adds = add_columns(f, pt, nt);
    let ghost adds_v = tc_views(adds@);
    out.append(&mut adds);
    proof {
        assert(tc_views(out@) =~= part_drops + adds_v);
    }
    let ghost part_adds = tc_views(out@);
    let mut alters = alter_columns(f, pt, nt);
    let ghost alters_v = tc_views(alters@);
    out.append(&mut alters);
    proof {
        assert(tc_views(out@) =~= part_adds + alters_v);
    }
    let ghost part_alters = tc_views(out@);
    match add_primary_key(f, pt, nt) {
        Option::Some(tc) => {
            let ghost before = tc_views(out@);
            out.push(tc);
            proof {
                assert(tc_views(out@) =~= before.push(tc@));
            }
        },
        Option::None => {},
    }
    proof {
        assert(tc_views(out@) =~= table_changes_s(*f, *pt, *nt));
    }
    out
}

/// Whether the pair must be rebuilt wholesale: the flavour lacks a general
/// in-place column alteration and the pair has structural changes beyond
/// plain column additions.
pub open spec fn pair_to_redefine(f: Flavour, pt: Table, nt: Table) -> bool {
    f.uses_redefine_for_alter && (dropped_columns_s(f, pt, nt).len() > 0 || alter_columns_s(
        f,
        pt,
        nt,
    ).len() > 0 || pk_created(pt, nt) || pk_dropped(pt, nt) || created_fks_s(f, pt, nt).len() > 0
        || dropped_fks_s(f, pt, nt).len() > 0)
}

fn table_needs_redefine(f: &Flavour, pt: &Table, nt: &Table) -> (r: bool)
    ensures
        r == pair_to_redefine(*f, *pt, *nt),
{
    if !f.uses_redefine_for_alter {
        return false;
    }
    let dcols = dropped_columns(f, pt, nt);
    if dcols.len() > 0 {
        return true;
    }
    let alters = alter_columns(f, pt, nt);
    if alters.len() > 0 {
        return true;
    }
    if primary_key_created(pt, nt) || primary_key_dropped(pt, nt) {
        return true;
    }
    let cfks = created_foreign_keys(f, pt, nt);
    if cfks.len() > 0 {
        return true;
    }
    let dfks = dropped_foreign_keys(f, pt, nt);
    if dfks.len() > 0 {
        return true;
    }
    false
}

/// The table pairs that are rebuilt rather than altered, in previous order.
pub open spec fn redefine_pairs_upto(
    f: Flavour,
    ps: SqlSchema,
    ns: SqlSchema,
    pairs: Seq<(usize, usize)>,
    n: int,
) -> Seq<(usize, usize)>
    decreases n,
{
    if n <= 0 {
        Seq::empty()
    } else {
        let rest = redefine_pairs_upto(f, ps, ns, pairs, n - 1);
        if pair_to_redefine(
            f,
            ps.tables@[pairs[n - 1].0 as int],
            ns.tables@[pairs[n - 1].1 as int],
        ) {
            rest.push(pairs[n - 1])
        } else {
            rest
        }
    }
}

/// All table pairs to rebuild.
pub open spec fn tables_to_redefine_s(f: Flavour, ps: SqlSchema, ns: SqlSchema) -> Seq<
    (usize, usize),
> {
    redefine_pairs_upto(f, ps, ns, table_pairs_s(f, ps, ns), table_pairs_s(f, ps, ns).len() as int)
}

/// Collect the table pairs that are rebuilt rather than altered.
pub fn tables_to_redefine(db: &DifferDatabase, previous: &SqlSchema, next: &SqlSchema) -> (r: Vec<
    (usize, usize),
>)
    requires
        db_matches(*db, *previous, *next),
    ensures
        r@ == tables_to_redefine_s(db.flavour, *previous, *next),
{
    proof {
        lemma_table_pairs_in_range(db.flavour, *previous, *next);
    }
    let ghost pairs = db.table_pairs@;
    let mut out: Vec<(usize, usize)> = Vec::new();
    let mut m: usize = 0;
    while m < db.table_pairs.len()
        invariant
            m <= pairs.len(),
            db_matches(*db, *previous, *next),
            pairs == db.table_pairs@,
            forall|k: int|
                #![trigger pairs[k]]
                0 <= k < pairs.len() ==> pairs[k].0 < previous.tables@.len() && pairs[k].1
                    < next.tables@.len(),
            out@ == redefine_pairs_upto(db.flavour, *previous, *next, pairs, m as int),
        decreases pairs.len() - m,
    {
        let (ti, tj) = db.table_pairs[m];
        if table_needs_redefine(&db.flavour, &previous.tables[ti], &next.tables[tj]) {
            out.push((ti, tj));
        }
        proof {
            assert(pairs[m as int].0 == ti && pairs[m as int].1 == tj);
        }
        m = m + 1;
    }
    out
}

// --- Phase: alter tables -------------------------------------------------------------

/// The spec-level view of a list of table alterations.
pub open spec fn at_views(s: Seq<AlterTable>) -> Seq<AlterTableV> {
    s.map_values(|x: AlterTable| x@)
}

/// The table-alteration steps of the first `n` table pairs: one step per pair
/// with changes, skipping pairs that are rebuilt wholesale.
pub open spec fn alter_tables_upto(
    f: Flavour,
    ps: SqlSchema,
    ns: SqlSchema,
    pairs: Seq<(usize, usize)>,
    n: int,
) -> Seq<AlterTableV>
    decreases n,
{
    if n <= 0 {
        Seq::empty()
    } else {
        let rest = alter_tables_upto(f, ps, ns, pairs, n - 1);
        let pt = ps.tables@[pairs[n - 1].0 as int];
        let nt = ns.tables@[pairs[n - 1].1 as int];
        if !pair_to_redefine(f, pt, nt) && table_changes_s(f, pt, nt).len() > 0 {
            rest.push(
                AlterTableV {
                    table_index: Pair { previous: pairs[n - 1].0, next: pairs[n - 1].1 },
                    changes: table_changes_s(f, pt, nt),
                },
            )
        } else {
            rest
        }
    }
}

/// The table-alteration phase, in previous snapshot order.
pub open spec fn alter_tables_s(f: Flavour, ps: SqlSchema, ns: SqlSchema) -> Seq<AlterTableV> {
    alter_tables_upto(f, ps, ns, table_pairs_s(f, ps, ns), table_pairs_s(f, ps, ns).len() as int)
}

/// Emit one `AlterTable` per matched pair with changes, skipping pairs that
/// are rebuilt wholesale.
pub fn alter_tables(db: &DifferDatabase, previous: &SqlSchema, next: &SqlSchema) -> (r: Vec<
    AlterTable,
>)
    requires
        db_matches(*db, *previous, *next),
    ensures
        at_views(r@) == alter_tables_s(db.flavour, *previous, *next),
{
    proof {
        lemma_table_pairs_in_range(db.flavour, *previous, *next);
    }
    let ghost pairs = db.table_pairs@;
    let mut out: Vec<AlterTable> = Vec::new();
    let mut m: usize = 0;
    while m < db.table_pairs.len()
        invariant
            m <= pairs.len(),
            db_matches(*db, *previous, *next),
            pairs == db.table_pairs@,
            forall|k: int|
                #![trigger pairs[k]]
                0 <= k < pairs.len() ==> pairs[k].0 < previous.tables@.len() && pairs[k].1
                    < next.tables@.len(),
            at_views(out@) == alter_tables_upto(db.flavour, *previous, *next, pairs, m as int),
        decreases pairs.len() - m,
    {
        let (ti, tj) = db.table_pairs[m];
        let pt = &previous.tables[ti];
        let nt = &next.tables[tj];
        if !table_needs_redefine(&db.flavour, pt, nt) {
            let changes = table_changes(&db.flavour, pt, nt);
            if changes.len() > 0 {
                let ghost before = at_views(out@);
                let step = AlterTable { table_index: Pair { previous: ti, next: tj }, changes };
                out.push(step);
                proof {
                    assert(pairs[m as int].0 == ti && pairs[m as int].1 == tj);
                    assert(step@.changes == table_changes_s(db.flavour, *pt, *nt));
                    assert(at_views(out@) =~= before.push(step@));
                }
            } else {
                proof {
                    assert(pairs[m as int].0 == ti && pairs[m as int].1 == tj);
                    assert(table_changes_s(db.flavour, *pt, *nt).len() == 0);
                }
            }
        } else {
            proof {
                assert(pairs[m as int].0 == ti && pairs[m as int].1 == tj);
            }
        }
        m = m + 1;
    }
    out
}

// --- Phase: redefine tables -----------------------------------------------------------

/// The spec-level view of a list of table redefinitions.
pub open spec fn rt_views(s: Seq<RedefineTable>) -> Seq<RedefineTableV> {
    s.map_values(|x: RedefineTable| x@)
}

/// The classified column pairs carried by a redefinition: every matched
/// column pair with its change set and type-change classification.
pub open spec fn redefine_column_pairs_upto(
    f: Flavour,
    pt: Table,
    nt: Table,
    cpairs: Seq<(usize, usize)>,
    m: int,
) -> Seq<(Pair<usize>, ColumnChanges, Option<ColumnTypeChange>)>
    decreases m,
{
    if m <= 0 {
        Seq::empty()
    } else {
        let pc = pt.columns@[cpairs[m - 1].0 as int];
        let nc = nt.columns@[cpairs[m - 1].1 as int];
        redefine_column_pairs_upto(f, pt, nt, cpairs, m - 1).push(
            (
                Pair { previous: cpairs[m - 1].0, next: cpairs[m - 1].1 },
                column_changes_spec(pc, nc),
                column_type_change_spec(f, pc, nc),
            ),
        )
    }
}

/// The redefinition payload of one pair.
pub open spec fn redefine_table_of(f: Flavour, pt: Table, ti: usize, nt: Table, tj: usize) -> RedefineTableV {
    RedefineTableV {
        table_index: Pair { previous: ti, next: tj },
        dropped_primary_key: drop_pk_s(f, pt, nt),
        added_columns: added_columns_s(f, pt, nt),
        dropped_columns: dropped_columns_s(f, pt, nt),
        column_pairs: redefine_column_pairs_upto(
            f,
            pt,
            nt,
            column_pairs_s(f, pt, nt),
            column_pairs_s(f, pt, nt).len() as int,
        ),
    }
}

/// The redefinition steps of the first `n` pairs to rebuild.
pub open spec fn redefine_tables_upto(
    f: Flavour,
    ps: SqlSchema,
    ns: SqlSchema,
    rpairs: Seq<(usize, usize)>,
    n: int,
) -> Seq<RedefineTableV>
    decreases n,
{
    if n <= 0 {
        Seq::empty()
    } else {
        redefine_tables_upto(f, ps, ns, rpairs, n - 1).push(
            redefine_table_of(
                f,
                ps.tables@[rpairs[n - 1].0 as int],
                rpairs[n - 1].0,
                ns.tables@[rpairs[n - 1].1 as int],
                rpairs[n - 1].1,
            ),
        )
    }
}

/// The table-redefinition phase, in previous snapshot order.
pub open spec fn redefine_tables_s(f: Flavour, ps: SqlSchema, ns: SqlSchema) -> Seq<
    RedefineTableV,
> {
    redefine_tables_upto(
        f,
        ps,
        ns,
        tables_to_redefine_s(f, ps, ns),
        tables_to_redefine_s(f, ps, ns).len() as int,
    )
}

/// Emit one redefinition per pair to rebuild, carrying everything the
/// renderer needs to regenerate the table and copy data.
pub fn redefine_tables(db: &DifferDatabase, previous: &SqlSchema, next: &SqlSchema) -> (r: Vec<
    RedefineTable,
>)
    requires
        db_matches(*db, *previous, *next),
    ensures
        rt_views(r@) == redefine_tables_s(db.flavour, *previous, *next),
{
    proof {
        lemma_table_pairs_in_range(db.flavour, *previous, *next);
    }
    let rpairs = tables_to_redefine(db, previous, next);
    proof {
        lemma_redefine_pairs_in_range(db.flavour, *previous, *next);
    }
    let mut out: Vec<RedefineTable> = Vec::new();
    let mut m: usize = 0;
    while m < rpairs.len()
        invariant
            m <= rpairs@.len(),
            db_matches(*db, *previous, *next),
            rpairs@ == tables_to_redefine_s(db.flavour, *previous, *next),
            forall|k: int|
                #![trigger rpairs@[k]]
                0 <= k < rpairs@.len() ==> rpairs@[k].0 < previous.tables@.len() && rpairs@[k].1
                    < next.tables@.len(),
            rt_views(out@) == redefine_tables_upto(
                db.flavour,
                *previous,
                *next,
                rpairs@,
                m as int,
            ),
        decreases rpairs@.len() - m,
    {
        let (ti, tj) = rpairs[m];
        let pt = &previous.tables[ti];
        let nt = &next.tables[tj];
        let cpairs = column_pairs(&db.flavour, pt, nt);
        proof {
            crate::table::lemma_column_pairs_props(db.flavour, *pt, *nt);
        }
        let mut column_payload: Vec<(Pair<usize>, ColumnChanges, Option<ColumnTypeChange>)> =
            Vec::new();
        let mut k: usize = 0;
        while k < cpairs.len()
            invariant
                k <= cpairs@.len(),
                cpairs@ == column_pairs_s(db.flavour, *pt, *nt),
                pt == &previous.tables@[ti as int],
                nt == &next.tables@[tj as int],
                forall|x: int|
                    #![trigger cpairs@[x]]
                    0 <= x < cpairs@.len() ==> cpairs@[x].0 < pt.columns@.len() && cpairs@[x].1
                        < nt.columns@.len(),
                column_payload@ == redefine_column_pairs_upto(
                    db.flavour,
                    *pt,
                    *nt,
                    cpairs@,
                    k as int,
                ),
            decreases cpairs@.len() - k,
        {
            let (ci, cj) = cpairs[k];
            let (changes, type_change) = all_changes(&db.flavour, &pt.columns[ci], &nt.columns[cj]);
            column_payload.push((Pair { previous: ci, next: cj }, changes, type_change));
            proof {
                assert(cpairs@[k as int].0 == ci && cpairs@[k as int].1 == cj);
            }
            k = k + 1;
        }
        let dropped_primary_key = match drop_primary_key(&db.flavour, pt, nt) {
            Option::Some(_) => true,
            Option::None => false,
        };
        let step = RedefineTable {
            table_index: Pair { previous: ti, next: tj },
            dropped_primary_key,
            added_columns: added_columns(&db.flavour, pt, nt),
            dropped_columns: dropped_columns(&db.flavour, pt, nt),
            column_pairs: column_payload,
        };
        let ghost before = rt_views(out@);
        out.push(step);
        proof {
            assert(rpairs@[m as int].0 == ti && rpairs@[m as int].1 == tj);
            assert(step@ == redefine_table_of(db.flavour, *pt, ti, *nt, tj));
            assert(rt_views(out@) =~= before.push(step@));
        }
        m = m + 1;
    }
    out
}

/// Every pair to rebuild lies in range.
pub proof fn lemma_redefine_pairs_in_range(f: Flavour, ps: SqlSchema, ns: SqlSchema)
    ensures
        forall|m: int|
            #![trigger tables_to_redefine_s(f, ps, ns)[m]]
            0 <= m < tables_to_redefine_s(f, ps, ns).len() ==> tables_to_redefine_s(f, ps, ns)[m].0
                < ps.tables@.len() && tables_to_redefine_s(f, ps, ns)[m].1 < ns.tables@.len(),
{
    lemma_table_pairs_in_range(f, ps, ns);
    lemma_redefine_pairs_subset(
        f,
        ps,
        ns,
        table_pairs_s(f, ps, ns),
        table_pairs_s(f, ps, ns).len() as int,
    );
}

/// Every element of the rebuilt-pairs list is an element of the pair list.
proof fn lemma_redefine_pairs_subset(
    f: Flavour,
    ps: SqlSchema,
    ns: SqlSchema,
    pairs: Seq<(usize, usize)>,
    n: int,
)
    requires
        n <= pairs.len(),
    ensures
        forall|m: int|
            #![trigger redefine_pairs_upto(f, ps, ns, pairs, n)[m]]
            0 <= m < redefine_pairs_upto(f, ps, ns, pairs, n).len() ==> pairs.contains(
                redefine_pairs_upto(f, ps, ns, pairs, n)[m],
            ),
    decreases n,
{
    if n > 0 {
        lemma_redefine_pairs_subset(f, ps, ns, pairs, n - 1);
        let cur = redefine_pairs_upto(f, ps, ns, pairs, n);
        let prev = redefine_pairs_upto(f, ps, ns, pairs, n - 1);
        assert forall|m: int| 0 <= m < cur.len() implies pairs.contains(#[trigger] cur[m]) by {
            if m < prev.len() {
                assert(cur[m] == prev[m]);
            } else {
                assert(cur[m] == pairs[n - 1]);
            }
        }
    }
}

// --- Phase: drop indexes ---------------------------------------------------------------

/// The index-drop steps of one table pair: its dropped indexes, skipping
/// indexes that cover a foreign key on flavours where such indexes are
/// dropped with the foreign key itself.
pub open spec fn pair_drop_indexes_upto(
    f: Flavour,
    pt: Table,
    ti: usize,
    didx: Seq<usize>,
    m: int,
) -> Seq<DropIndex>
    decreases m,
{
    if m <= 0 {
        Seq::empty()
    } else {
        let rest = pair_drop_indexes_upto(f, pt, ti, didx, m - 1);
        if !(f.should_skip_fk_indexes && index_covers_fk_s(pt, pt.indexes@[didx[m - 1] as int])) {
            rest.push(DropIndex { table_index: ti, index_index: didx[m - 1] })
        } else {
            rest
        }
    }
}

/// The index-drop steps of the first `n` table pairs.
pub open spec fn pairs_drop_indexes_upto(
    f: Flavour,
    ps: SqlSchema,
    ns: SqlSchema,
    pairs: Seq<(usize, usize)>,
    n: int,
) -> Seq<DropIndex>
    decreases n,
{
    if n <= 0 {
        Seq::empty()
    } else {
        let ti = pairs[n - 1].0;
        let pt = ps.tables@[ti as int];
        let nt = ns.tables@[pairs[n - 1].1 as int];
        pairs_drop_indexes_upto(f, ps, ns, pairs, n - 1) + pair_drop_indexes_upto(
            f,
            pt,
            ti,
            dropped_indexes_s(pt, nt),
            dropped_indexes_s(pt, nt).len() as int,
        )
    }
}

/// Every index of one dropped table, in position order.
pub open spec fn all_indexes_of_table_s(ti: usize, index_count: int) -> Seq<DropIndex>
    decreases index_count,
{
    if index_count <= 0 {
        Seq::empty()
    } else {
        all_indexes_of_table_s(ti, index_count - 1).push(
            DropIndex { table_index: ti, index_index: (index_count - 1) as usize },
        )
    }
}

/// The index-drop steps of the first `n` dropped tables.
pub open spec fn dropped_tables_indexes_upto(ps: SqlSchema, dropped: Seq<usize>, n: int) -> Seq<
    DropIndex,
>
    decreases n,
{
    if n <= 0 {
        Seq::empty()
    } else {
        dropped_tables_indexes_upto(ps, dropped, n - 1) + all_indexes_of_table_s(
            dropped[n - 1],
            ps.tables@[dropped[n - 1] as int].indexes@.len() as int,
        )
    }
}

/// The index-drop phase: dropped indexes of surviving pairs, then, when
/// tables are being rebuilt and the flavour needs it, the indexes of dropped
/// tables.
pub open spec fn drop_indexes_s(f: Flavour, ps: SqlSchema, ns: SqlSchema) -> Seq<DropIndex> {
    let from_pairs = pairs_drop_indexes_upto(
        f,
        ps,
        ns,
        table_pairs_s(f, ps, ns),
        table_pairs_s(f, ps, ns).len() as int,
    );
    let from_dropped = if tables_to_redefine_s(f, ps, ns).len() > 0
        && f.should_drop_indexes_from_dropped_tables {
        dropped_tables_indexes_upto(
            ps,
            dropped_tables_s(f, ps, ns),
            dropped_tables_s(f, ps, ns).len() as int,
        )
    } else {
        Seq::empty()
    };
    from_pairs + from_dropped
}

/// Emit the index-drop phase, in snapshot positional order.
pub fn drop_indexes(db: &DifferDatabase, previous: &SqlSchema, next: &SqlSchema) -> (r: Vec<
    DropIndex,
>)
    requires
        db_matches(*db, *previous, *next),
    ensures
        r@ == drop_indexes_s(db.flavour, *previous, *next),
{
    proof {
        lemma_table_pairs_in_range(db.flavour, *previous, *next);
        lemma_dropped_tables_in_range(db.flavour, *previous, *next);
    }
    let ghost pairs = db.table_pairs@;
    let ghost dropped = db.dropped_tables@;
    let mut out: Vec<DropIndex> = Vec::new();
    let mut m: usize = 0;
    while m < db.table_pairs.len()
        invariant
            m <= pairs.len(),
            db_matches(*db, *previous, *next),
            pairs == db.table_pairs@,
            forall|k: int|
                #![trigger pairs[k]]
                0 <= k < pairs.len() ==> pairs[k].0 < previous.tables@.len() && pairs[k].1
                    < next.tables@.len(),
            out@ == pairs_drop_indexes_upto(db.flavour, *previous, *next, pairs, m as int),
        decreases pairs.len() - m,
    {
        let (ti, tj) = db.table_pairs[m];
        let pt = &previous.tables[ti];
        let nt = &next.tables[tj];
        let didx = dropped_indexes(pt, nt);
        proof {
            crate::table::lemma_dropped_indexes_in_range(*pt, *nt);
        }
        let mut k: usize = 0;
        while k < didx.len()
            invariant
                k <= didx@.len(),
                didx@ == dropped_indexes_s(*pt, *nt),
                pt == &previous.tables@[ti as int],
                nt == &next.tables@[tj as int],
                forall|x: int|
                    #![trigger didx@[x]]
                    0 <= x < didx@.len() ==> didx@[x] < pt.indexes@.len(),
                out@ == pairs_drop_indexes_upto(db.flavour, *previous, *next, pairs, m as int)
                    + pair_drop_indexes_upto(db.flavour, *pt, ti, didx@, k as int),
            decreases didx@.len() - k,
        {
            let ii = didx[k];
            if !(db.flavour.should_skip_fk_indexes && index_covers_fk(pt, &pt.indexes[ii])) {
                out.push(DropIndex { table_index: ti, index_index: ii });
            }
            k = k + 1;
        }
        proof {
            assert(pairs[m as int].0 == ti && pairs[m as int].1 == tj);
        }
        m = m + 1;
    }
    let ghost from_pairs = out@;
    let redefined = tables_to_redefine(db, previous, next);
    if redefined.len() > 0 && db.flavour.should_drop_indexes_from_dropped_tables {
        let mut m: usize = 0;
        while m < db.dropped_tables.len()
            invariant
                m <= dropped.len(),
                db_matches(*db, *previous, *next),
                dropped == db.dropped_tables@,
                from_pairs == pairs_drop_indexes_upto(
                    db.flavour,
                    *previous,
                    *next,
                    db.table_pairs@,
                    db.table_pairs@.len() as int,
                ),
                forall|k: int|
                    #![trigger dropped[k]]
                    0 <= k < dropped.len() ==> dropped[k] < previous.tables@.len(),
                out@ == from_pairs + dropped_tables_indexes_upto(*previous, dropped, m as int),
            decreases dropped.len() - m,
        {
            let ti = db.dropped_tables[m];
            let t = &previous.tables[ti];
            let mut k: usize = 0;
            while k < t.indexes.len()
                invariant
                    k <= t.indexes@.len(),
                    t == &previous.tables@[ti as int],
                    ti == dropped[m as int],
                    0 <= m < dropped.len(),
                    out@ == from_pairs + dropped_tables_indexes_upto(*previous, dropped, m as int)
                        + all_indexes_of_table_s(ti, k as int),
                decreases t.indexes@.len() - k,
            {
                out.push(DropIndex { table_index: ti, index_index: k });
                k = k + 1;
            }
            m = m + 1;
        }
    } else {
        proof {
            assert(out@ =~= from_pairs + Seq::<DropIndex>::empty());
        }
    }
    out
}

// --- Phase: create indexes --------------------------------------------------------------

/// The index-creation steps of one created table, skipping indexes that cover
/// a foreign key on flavours where the key brings its own index.
pub open spec fn created_table_indexes_of(f: Flavour, t: Table, tj: usize, n: int) -> Seq<
    CreateIndex,
>
    decreases n,
{
    if n <= 0 {
        Seq::empty()
    } else {
        let rest = created_table_indexes_of(f, t, tj, n - 1);
        if !(f.should_skip_fk_indexes && index_covers_fk_s(t, t.indexes@[n - 1])) {
            rest.push(
                CreateIndex {
                    table_index: tj,
                    index_index: (n - 1) as usize,
                    caused_by_create_table: true,
                },
            )
        } else {
            rest
        }
    }
}

/// The index-creation steps of the first `n` created tables.
pub open spec fn created_tables_indexes_upto(
    f: Flavour,
    ns: SqlSchema,
    created: Seq<usize>,
    n: int,
) -> Seq<CreateIndex>
    decreases n,
{
    if n <= 0 {
        Seq::empty()
    } else {
        let t = ns.tables@[created[n - 1] as int];
        created_tables_indexes_upto(f, ns, created, n - 1) + created_table_indexes_of(
            f,
            t,
            created[n - 1],
            t.indexes@.len() as int,
        )
    }
}

/// The next-table column positions of matched columns that are dropped and
/// recreated by the pair.
pub open spec fn recreated_next_cols_upto(
    f: Flavour,
    pt: Table,
    nt: Table,
    cpairs: Seq<(usize, usize)>,
    m: int,
) -> Seq<usize>
    decreases m,
{
    if m <= 0 {
        Seq::empty()
    } else {
        let rest = recreated_next_cols_upto(f, pt, nt, cpairs, m - 1);
        if col_pair_recreated(f, pt, nt, cpairs[m - 1]) {
            rest.push(cpairs[m - 1].1)
        } else {
            rest
        }
    }
}

pub open spec fn recreated_next_cols_s(f: Flavour, pt: Table, nt: Table) -> Seq<usize> {
    recreated_next_cols_upto(
        f,
        pt,
        nt,
        column_pairs_s(f, pt, nt),
        column_pairs_s(f, pt, nt).len() as int,
    )
}

/// Whether the index constrains any of the given next-table columns.
pub open spec fn index_references_cols(nt: Table, idx: Index, cols: Seq<usize>) -> bool {
    exists|k: int, l: int|
        #![trigger idx.columns@[k], cols[l]]
        0 <= k < idx.columns@.len() && 0 <= l < cols.len() && idx.columns@[k]@
            == nt.columns@[cols[l] as int].name@
}

fn index_references_cols_exec(nt: &Table, idx: &Index, cols: &Vec<usize>) -> (r: bool)
    requires
        forall|l: int| #![trigger cols@[l]] 0 <= l < cols@.len() ==> cols@[l] < nt.columns@.len(),
    ensures
        r == index_references_cols(*nt, *idx, cols@),
{
    let mut k: usize = 0;
    while k < idx.columns.len()
        invariant
            k <= idx.columns@.len(),
            forall|l: int|
                #![trigger cols@[l]]
                0 <= l < cols@.len() ==> cols@[l] < nt.columns@.len(),
            forall|x: int, l: int|
                #![trigger idx.columns@[x], cols@[l]]
                0 <= x < k && 0 <= l < cols@.len() ==> idx.columns@[x]@
                    != nt.columns@[cols@[l] as int].name@,
        decreases idx.columns@.len() - k,
    {
        let mut l: usize = 0;
        while l < cols.len()
            invariant
                k < idx.columns@.len(),
                l <= cols@.len(),
                forall|x: int|
                    #![trigger cols@[x]]
                    0 <= x < cols@.len() ==> cols@[x] < nt.columns@.len(),
                forall|x: int|
                    #![trigger cols@[x]]
                    0 <= x < l ==> idx.columns@[k as int]@ != nt.columns@[cols@[x] as int].name@,
            decreases cols@.len() - l,
        {
            if crate::schema::string_eq(&idx.columns[k], &nt.columns[cols[l]].name) {
                proof {
                    assert(idx.columns@[k as int]@ == nt.columns@[cols@[l as int] as int].name@);
                }
                return true;
            }
            l = l + 1;
        }
        k = k + 1;
    }
    false
}

/// Compute the next-table positions of columns recreated by the pair.
fn recreated_next_cols(f: &Flavour, pt: &Table, nt: &Table) -> (r: Vec<usize>)
    ensures
        r@ == recreated_next_cols_s(*f, *pt, *nt),
        forall|l: int| #![trigger r@[l]] 0 <= l < r@.len() ==> r@[l] < nt.columns@.len(),
{
    let cpairs = column_pairs(f, pt, nt);
    proof {
        crate::table::lemma_column_pairs_props(*f, *pt, *nt);
    }
    let mut out: Vec<usize> = Vec::new();
    let mut m: usize = 0;
    while m < cpairs.len()
        invariant
            m <= cpairs@.len(),
            cpairs@ == column_pairs_s(*f, *pt, *nt),
            forall|x: int|
                #![trigger cpairs@[x]]
                0 <= x < cpairs@.len() ==> cpairs@[x].0 < pt.columns@.len() && cpairs@[x].1
                    < nt.columns@.len(),
            out@ == recreated_next_cols_upto(*f, *pt, *nt, cpairs@, m as int),
            forall|l: int| #![trigger out@[l]] 0 <= l < out@.len() ==> out@[l] < nt.columns@.len(),
        decreases cpairs@.len() - m,
    {
        let (ci, cj) = cpairs[m];
        let changes = all_changes(f, &pt.columns[ci], &nt.columns[cj]);
        let recreated = match changes.1 {
            Option::Some(ColumnTypeChange::NotCastable) => true,
            _ => false,
        };
        if recreated {
            out.push(cj);
        }
        proof {
            assert(cpairs@[m as int].0 == ci && cpairs@[m as int].1 == cj);
        }
        m = m + 1;
    }
    out
}

/// The re-creation steps for matched indexes that constrain a recreated
/// column, in previous index order.
pub open spec fn pair_recreate_indexes_upto(
    f: Flavour,
    pt: Table,
    nt: Table,
    tj: usize,
    ipairs: Seq<(usize, usize)>,
    m: int,
) -> Seq<CreateIndex>
    decreases m,
{
    if m <= 0 {
        Seq::empty()
    } else {
        let rest = pair_recreate_indexes_upto(f, pt, nt, tj, ipairs, m - 1);
        if index_references_cols(
            nt,
            nt.indexes@[ipairs[m - 1].1 as int],
            recreated_next_cols_s(f, pt, nt),
        ) {
            rest.push(
                CreateIndex {
                    table_index: tj,
                    index_index: ipairs[m - 1].1,
                    caused_by_create_table: false,
                },
            )
        } else {
            rest
        }
    }
}

/// The index-creation steps of one table pair: the created indexes, then,
/// when the flavour recreates indexes after destructive column changes, the
/// matched indexes touching a recreated column.
pub open spec fn pair_create_indexes_s(f: Flavour, pt: Table, nt: Table, tj: usize) -> Seq<
    CreateIndex,
> {
    let created = created_indexes_s(pt, nt).map_values(
        |k: usize| CreateIndex { table_index: tj, index_index: k, caused_by_create_table: false },
    );
    let recreated = if f.indexes_should_be_recreated_after_column_drop {
        pair_recreate_indexes_upto(
            f,
            pt,
            nt,
            tj,
            index_pairs_s(pt, nt),
            index_pairs_s(pt, nt).len() as int,
        )
    } else {
        Seq::empty()
    };
    created + recreated
}

/// The index-creation steps of the first `n` table pairs.
pub open spec fn pairs_create_indexes_upto(
    f: Flavour,
    ps: SqlSchema,
    ns: SqlSchema,
    pairs: Seq<(usize, usize)>,
    n: int,
) -> Seq<CreateIndex>
    decreases n,
{
    if n <= 0 {
        Seq::empty()
    } else {
        pairs_create_indexes_upto(f, ps, ns, pairs, n - 1) + pair_create_indexes_s(
            f,
            ps.tables@[pairs[n - 1].0 as int],
            ns.tables@[pairs[n - 1].1 as int],
            pairs[n - 1].1,
        )
    }
}

/// The index-creation phase: indexes of created tables first, when the
/// flavour pushes them as separate steps, then each pair's created and
/// recreated indexes.
pub open spec fn create_indexes_s(f: Flavour, ps: SqlSchema, ns: SqlSchema) -> Seq<CreateIndex> {
    let from_created = if f.should_create_indexes_from_created_tables {
        created_tables_indexes_upto(
            f,
            ns,
            created_tables_s(f, ps, ns),
            created_tables_s(f, ps, ns).len() as int,
        )
    } else {
        Seq::empty()
    };
    from_created + pairs_create_indexes_upto(
        f,
        ps,
        ns,
        table_pairs_s(f, ps, ns),
        table_pairs_s(f, ps, ns).len() as int,
    )
}

/// Emit the index-creation phase, in snapshot positional order.
pub fn create_indexes(db: &DifferDatabase, previous: &SqlSchema, next: &SqlSchema) -> (r: Vec<
    CreateIndex,
>)
    requires
        db_matches(*db, *previous, *next),
    ensures
        r@ == create_indexes_s(db.flavour, *previous, *next),
{
    proof {
        lemma_created_tables_in_range(db.flavour, *previous, *next);
        lemma_table_pairs_in_range(db.flavour, *previous, *next);
    }
    let ghost created = db.created_tables@;
    let ghost pairs = db.table_pairs@;
    let mut out: Vec<CreateIndex> = Vec::new();
    if db.flavour.should_create_indexes_from_created_tables {
        let mut m: usize = 0;
        while m < db.created_tables.len()
            invariant
                m <= created.len(),
                db_matches(*db, *previous, *next),
                created == db.created_tables@,
                db.flavour.should_create_indexes_from_created_tables,
                forall|k: int|
                    #![trigger created[k]]
                    0 <= k < created.len() ==> created[k] < next.tables@.len(),
                out@ == created_tables_indexes_upto(db.flavour, *next, created, m as int),
            decreases created.len() - m,
        {
            let tj = db.created_tables[m];
            let t = &next.tables[tj];
            let mut k: usize = 0;
            while k < t.indexes.len()
                invariant
                    k <= t.indexes@.len(),
                    t == &next.tables@[tj as int],
                    tj == created[m as int],
                    0 <= m < created.len(),
                    out@ == created_tables_indexes_upto(db.flavour, *next, created, m as int)
                        + created_table_indexes_of(db.flavour, *t, tj, k as int),
                decreases t.indexes@.len() - k,
            {
                if !(db.flavour.should_skip_fk_indexes && index_covers_fk(t, &t.indexes[k])) {
                    out.push(
                        CreateIndex {
                            table_index: tj,
                            index_index: k,
                            caused_by_create_table: true,
                        },
                    );
                }
                k = k + 1;
            }
            m = m + 1;
        }
    }
    let ghost from_created = out@;
    proof {
        if db.flavour.should_create_indexes_from_created_tables {
            assert(from_created == created_tables_indexes_upto(
                db.flavour,
                *next,
                created,
                created.len() as int,
            ));
        } else {
            assert(from_created =~= Seq::<CreateIndex>::empty());
        }
    }
    let mut m: usize = 0;
    while m < db.table_pairs.len()
        invariant
            m <= pairs.len(),
            db_matches(*db, *previous, *next),
            pairs == db.table_pairs@,
            from_created == if db.flavour.should_create_indexes_from_created_tables {
                created_tables_indexes_upto(db.flavour, *next, created, created.len() as int)
            } else {
                Seq::<CreateIndex>::empty()
            },
            created == db.created_tables@,
            forall|k: int|
                #![trigger pairs[k]]
                0 <= k < pairs.len() ==> pairs[k].0 < previous.tables@.len() && pairs[k].1
                    < next.tables@.len(),
            out@ == from_created + pairs_create_indexes_upto(
                db.flavour,
                *previous,
                *next,
                pairs,
                m as int,
            ),
        decreases pairs.len() - m,
    {
        let (ti, tj) = db.table_pairs[m];
        let pt = &previous.tables[ti];
        let nt = &next.tables[tj];
        let cidx = created_indexes(pt, nt);
        let ghost mid = out@;
        let ghost g = |k: usize| CreateIndex {
            table_index: tj,
            index_index: k,
            caused_by_create_table: false,
        };
        let mut k: usize = 0;
        while k < cidx.len()
            invariant
                k <= cidx@.len(),
                cidx@ == created_indexes_s(*pt, *nt),
                g == (|k: usize| CreateIndex {
                    table_index: tj,
                    index_index: k,
                    caused_by_create_table: false,
                }),
                out@ == mid + cidx@.take(k as int).map_values(g),
            decreases cidx@.len() - k,
        {
            out.push(
                CreateIndex {
                    table_index: tj,
                    index_index: cidx[k],
                    caused_by_create_table: false,
                },
            );
            proof {
                crate::matching::lemma_take_push(cidx@, k as int);
                crate::matching::lemma_map_values_push(cidx@.take(k as int), g, cidx@[k as int]);
            }
            k = k + 1;
        }
        proof {
            assert(cidx@.take(cidx@.len() as int) =~= cidx@);
        }
        if db.flavour.indexes_should_be_recreated_after_column_drop {
            let rcols = recreated_next_cols(&db.flavour, pt, nt);
            let ipairs = index_pairs(pt, nt);
            proof {
                crate::table::lemma_index_pairs_props(*pt, *nt);
            }
            let ghost mid2 = out@;
            let mut k: usize = 0;
            while k < ipairs.len()
                invariant
                    k <= ipairs@.len(),
                    ipairs@ == index_pairs_s(*pt, *nt),
                    rcols@ == recreated_next_cols_s(db.flavour, *pt, *nt),
                    pt == &previous.tables@[ti as int],
                    nt == &next.tables@[tj as int],
                    forall|l: int|
                        #![trigger rcols@[l]]
                        0 <= l < rcols@.len() ==> rcols@[l] < nt.columns@.len(),
                    forall|x: int|
                        #![trigger ipairs@[x]]
                        0 <= x < ipairs@.len() ==> ipairs@[x].0 < pt.indexes@.len()
                            && ipairs@[x].1 < nt.indexes@.len(),
                    out@ == mid2 + pair_recreate_indexes_upto(
                        db.flavour,
                        *pt,
                        *nt,
                        tj,
                        ipairs@,
                        k as int,
                    ),
                decreases ipairs@.len() - k,
            {
                let (_pi, ni) = ipairs[k];
                if index_references_cols_exec(nt, &nt.indexes[ni], &rcols) {
                    out.push(
                        CreateIndex {
                            table_index: tj,
                            index_index: ni,
                            caused_by_create_table: false,
                        },
                    );
                    proof {
                        assert(ipairs@[k as int].1 == ni);
                    }
                } else {
                    proof {
                        assert(ipairs@[k as int].1 == ni);
                    }
                }
                k = k + 1;
            }
        }
        proof {
            assert(pairs[m as int].0 == ti && pairs[m as int].1 == tj);
            assert(out@ =~= from_created + pairs_create_indexes_upto(
                db.flavour,
                *previous,
                *next,
                pairs,
                m as int,
            ) + pair_create_indexes_s(db.flavour, *pt, *nt, tj));
        }
        m = m + 1;
    }
    out
}

/// Assemble the foreign-key addition phase.
pub fn add_foreign_keys(db: &DifferDatabase, previous: &SqlSchema, next: &SqlSchema) -> (r: Vec<
    AddForeignKey,
>)
    requires
        db_matches(*db, *previous, *next),
    ensures
        r@ == add_foreign_keys_s(db.flavour, *previous, *next),
{
    let mut out: Vec<AddForeignKey> = Vec::new();
    if db.flavour.should_push_foreign_keys_from_created_tables {
        push_foreign_keys_from_created_tables(db, previous, next, &mut out);
    }
    push_created_foreign_keys(db, previous, next, &mut out);
    proof {
        assert(Seq::<AddForeignKey>::empty() + pairs_add_fks_upto(
            db.flavour,
            *previous,
            *next,
            table_pairs_s(db.flavour, *previous, *next),
            table_pairs_s(db.flavour, *previous, *next).len() as int,
        ) =~= pairs_add_fks_upto(
            db.flavour,
            *previous,
            *next,
            table_pairs_s(db.flavour, *previous, *next),
            table_pairs_s(db.flavour, *previous, *next).len() as int,
        ));
    }
    out
}

// --- The assembled plan ----------------------------------------------------------------

/// The complete ordered step sequence: the fixed phases concatenated in the
/// fixed order. Enums are created and altered before anything else; foreign
/// keys and indexes are dropped before the tables that carry them; tables are
/// dropped before enums are dropped and before new tables are created, so
/// that reused names cannot collide; indexes are created only after every
/// table-shaping phase; foreign keys are added after the indexes that back
/// them; index renames come last.
pub open spec fn calculate_steps_s(f: Flavour, ps: SqlSchema, ns: SqlSchema) -> Seq<StepV> {
    create_enums_s(f, ps, ns).map_values(|i: usize| StepV::CreateEnum { enum_index: i })
        + alter_enums_s(f, ps, ns).map_values(|a: AlterEnumV| StepV::AlterEnum(a)) + (
    dropped_tables_fks_s(f, ps, ns) + pairs_drop_fks_s(f, ps, ns)).map_values(
        |d: DropForeignKeyV| StepV::DropForeignKey(d),
    ) + drop_indexes_s(f, ps, ns).map_values(|d: DropIndex| StepV::DropIndex(d)) + alter_tables_s(
        f,
        ps,
        ns,
    ).map_values(|a: AlterTableV| StepV::AlterTable(a)) + drop_tables_s(f, ps, ns).map_values(
        |d: DropTable| StepV::DropTable(d),
    ) + drop_enums_s(f, ps, ns).map_values(|i: usize| StepV::DropEnum { enum_index: i })
        + create_tables_s(f, ps, ns).map_values(|c: CreateTable| StepV::CreateTable(c)) + (
    if redefine_tables_s(f, ps, ns).len() > 0 {
        seq![StepV::RedefineTables(redefine_tables_s(f, ps, ns))]
    } else {
        Seq::empty()
    }) + create_indexes_s(f, ps, ns).map_values(|c: CreateIndex| StepV::CreateIndex(c))
        + add_foreign_keys_s(f, ps, ns).map_values(|a: AddForeignKey| StepV::AddForeignKey(a)) + (
    if f.can_alter_index {
        alter_indexes_s(f, ps, ns)
    } else {
        Seq::empty()
    }).map_values(
        |p: Pair<(usize, usize)>| StepV::AlterIndex {
            table: Pair { previous: p.previous.0, next: p.next.0 },
            index: Pair { previous: p.previous.1, next: p.next.1 },
        },
    ) + (if f.can_alter_index {
        Seq::empty()
    } else {
        alter_indexes_s(f, ps, ns)
    }).map_values(
        |p: Pair<(usize, usize)>| StepV::RedefineIndex {
            table: Pair { previous: p.previous.0, next: p.next.0 },
            index: Pair { previous: p.previous.1, next: p.next.1 },
        },
    )
}

fn push_create_enum_steps(out: &mut Vec<SqlMigrationStep>, v: &Vec<usize>)
    ensures
        steps_view(final(out)@) == steps_view(old(out)@) + v@.map_values(
            |i: usize| StepV::CreateEnum { enum_index: i },
        ),
{
    let ghost base = steps_view(old(out)@);
    let ghost g = |i: usize| StepV::CreateEnum { enum_index: i };
    let mut k: usize = 0;
    while k < v.len()
        invariant
            k <= v@.len(),
            base == steps_view(old(out)@),
            g == (|i: usize| StepV::CreateEnum { enum_index: i }),
            steps_view(out@) == base + v@.take(k as int).map_values(g),
        decreases v@.len() - k,
    {
        let ghost before = steps_view(out@);
        let step = SqlMigrationStep::CreateEnum { enum_index: v[k] };
        out.push(step);
        proof {
            crate::matching::lemma_take_push(v@, k as int);
            crate::matching::lemma_map_values_push(v@.take(k as int), g, v@[k as int]);
            assert(steps_view(out@) =~= before.push(step@));
        }
        k = k + 1;
    }
    proof {
        assert(v@.take(v@.len() as int) =~= v@);
    }
}

fn push_alter_enum_steps(out: &mut Vec<SqlMigrationStep>, v: &Vec<AlterEnum>)
    ensures
        steps_view(final(out)@) == steps_view(old(out)@) + ae_views(v@).map_values(
            |a: AlterEnumV| StepV::AlterEnum(a),
        ),
{
    let ghost base = steps_view(old(out)@);
    let ghost g = |a: AlterEnumV| StepV::AlterEnum(a);
    let mut k: usize = 0;
    while k < v.len()
        invariant
            k <= v@.len(),
            base == steps_view(old(out)@),
            g == (|a: AlterEnumV| StepV::AlterEnum(a)),
            ae_views(v@).len() == v@.len(),
            steps_view(out@) == base + ae_views(v@).take(k as int).map_values(g),
        decreases v@.len() - k,
    {
        let ghost before = steps_view(out@);
        let ghost elem = ae_views(v@)[k as int];
        let ae = AlterEnum {
            index: v[k].index,
            created_variants: crate::schema::clone_string_vec(&v[k].created_variants),
            dropped_variants: crate::schema::clone_string_vec(&v[k].dropped_variants),
            previous_usages_as_default: crate::steps::clone_usage_vec(
                &v[k].previous_usages_as_default,
            ),
        };
        out.push(SqlMigrationStep::AlterEnum(ae));
        proof {
            assert(ae@ == elem);
            crate::matching::lemma_take_push(ae_views(v@), k as int);
            crate::matching::lemma_map_values_push(ae_views(v@).take(k as int), g, elem);
            assert(steps_view(out@) =~= before.push(StepV::AlterEnum(elem)));
        }
        k = k + 1;
    }
    proof {
        assert(ae_views(v@).take(ae_views(v@).len() as int) =~= ae_views(v@));
    }
}

fn push_drop_foreign_key_steps(out: &mut Vec<SqlMigrationStep>, v: &Vec<DropForeignKey>)
    ensures
        steps_view(final(out)@) == steps_view(old(out)@) + dfk_views(v@).map_values(
            |d: DropForeignKeyV| StepV::DropForeignKey(d),
        ),
{
    let ghost base = steps_view(old(out)@);
    let ghost g = |d: DropForeignKeyV| StepV::DropForeignKey(d);
    let mut k: usize = 0;
    while k < v.len()
        invariant
            k <= v@.len(),
            base == steps_view(old(out)@),
            g == (|d: DropForeignKeyV| StepV::DropForeignKey(d)),
            dfk_views(v@).len() == v@.len(),
            steps_view(out@) == base + dfk_views(v@).take(k as int).map_values(g),
        decreases v@.len() - k,
    {
        let ghost before = steps_view(out@);
        let ghost elem = dfk_views(v@)[k as int];
        let d = &v[k];
        let step = SqlMigrationStep::DropForeignKey(
            DropForeignKey {
                table_index: d.table_index,
                foreign_key_index: d.foreign_key_index,
                table: d.table.clone(),
                constraint_name: d.constraint_name.clone(),
            },
        );
        out.push(step);
        proof {
            assert(step@ == StepV::DropForeignKey(elem));
            crate::matching::lemma_take_push(dfk_views(v@), k as int);
            crate::matching::lemma_map_values_push(dfk_views(v@).take(k as int), g, elem);
            assert(steps_view(out@) =~= before.push(StepV::DropForeignKey(elem)));
        }
        k = k + 1;
    }
    proof {
        assert(dfk_views(v@).take(dfk_views(v@).len() as int) =~= dfk_views(v@));
    }
}

fn push_drop_index_steps(out: &mut Vec<SqlMigrationStep>, v: &Vec<DropIndex>)
    ensures
        steps_view(final(out)@) == steps_view(old(out)@) + v@.map_values(
            |d: DropIndex| StepV::DropIndex(d),
        ),
{
    let ghost base = steps_view(old(out)@);
    let ghost g = |d: DropIndex| StepV::DropIndex(d);
    let mut k: usize = 0;
    while k < v.len()
        invariant
            k <= v@.len(),
            base == steps_view(old(out)@),
            g == (|d: DropIndex| StepV::DropIndex(d)),
            steps_view(out@) == base + v@.take(k as int).map_values(g),
        decreases v@.len() - k,
    {
        let ghost before = steps_view(out@);
        let step = SqlMigrationStep::DropIndex(v[k]);
        out.push(step);
        proof {
            crate::matching::lemma_take_push(v@, k as int);
            crate::matching::lemma_map_values_push(v@.take(k as int), g, v@[k as int]);
            assert(steps_view(out@) =~= before.push(step@));
        }
        k = k + 1;
    }
    proof {
        assert(v@.take(v@.len() as int) =~= v@);
    }
}

fn push_alter_table_steps(out: &mut Vec<SqlMigrationStep>, v: &Vec<AlterTable>)
    ensures
        steps_view(final(out)@) == steps_view(old(out)@) + at_views(v@).map_values(
            |a: AlterTableV| StepV::AlterTable(a),
        ),
{
    let ghost base = steps_view(old(out)@);
    let ghost g = |a: AlterTableV| StepV::AlterTable(a);
    let mut k: usize = 0;
    while k < v.len()
        invariant
            k <= v@.len(),
            base == steps_view(old(out)@),
            g == (|a: AlterTableV| StepV::AlterTable(a)),
            at_views(v@).len() == v@.len(),
            steps_view(out@) == base + at_views(v@).take(k as int).map_values(g),
        decreases v@.len() - k,
    {
        let ghost before = steps_view(out@);
        let ghost elem = at_views(v@)[k as int];
        let a = &v[k];
        let step = SqlMigrationStep::AlterTable(
            AlterTable {
                table_index: a.table_index,
                changes: crate::steps::clone_table_changes(&a.changes),
            },
        );
        out.push(step);
        proof {
            assert(step@ == StepV::AlterTable(elem));
            crate::matching::lemma_take_push(at_views(v@), k as int);
            crate::matching::lemma_map_values_push(at_views(v@).take(k as int), g, elem);
            assert(steps_view(out@) =~= before.push(StepV::AlterTable(elem)));
        }
        k = k + 1;
    }
    proof {
        assert(at_views(v@).take(at_views(v@).len() as int) =~= at_views(v@));
    }
}

fn push_drop_table_steps(out: &mut Vec<SqlMigrationStep>, v: &Vec<DropTable>)
    ensures
        steps_view(final(out)@) == steps_view(old(out)@) + v@.map_values(
            |d: DropTable| StepV::DropTable(d),
        ),
{
    let ghost base = steps_view(old(out)@);
    let ghost g = |d: DropTable| StepV::DropTable(d);
    let mut k: usize = 0;
    while k < v.len()
        invariant
            k <= v@.len(),
            base == steps_view(old(out)@),
            g == (|d: DropTable| StepV::DropTable(d)),
            steps_view(out@) == base + v@.take(k as int).map_values(g),
        decreases v@.len() - k,
    {
        let ghost before = steps_view(out@);
        let step = SqlMigrationStep::DropTable(v[k]);
        out.push(step);
        proof {
            crate::matching::lemma_take_push(v@, k as int);
            crate::matching::lemma_map_values_push(v@.take(k as int), g, v@[k as int]);
            assert(steps_view(out@) =~= before.push(step@));
        }
        k = k + 1;
    }
    proof {
        assert(v@.take(v@.len() as int) =~= v@);
    }
}

fn push_drop_enum_steps(out: &mut Vec<SqlMigrationStep>, v: &Vec<usize>)
    ensures
        steps_view(final(out)@) == steps_view(old(out)@) + v@.map_values(
            |i: usize| StepV::DropEnum { enum_index: i },
        ),
{
    let ghost base = steps_view(old(out)@);
    let ghost g = |i: usize| StepV::DropEnum { enum_index: i };
    let mut k: usize = 0;
    while k < v.len()
        invariant
            k <= v@.len(),
            base == steps_view(old(out)@),
            g == (|i: usize| StepV::DropEnum { enum_index: i }),
            steps_view(out@) == base + v@.take(k as int).map_values(g),
        decreases v@.len() - k,
    {
        let ghost before = steps_view(out@);
        let step = SqlMigrationStep::DropEnum { enum_index: v[k] };
        out.push(step);
        proof {
            crate::matching::lemma_take_push(v@, k as int);
            crate::matching::lemma_map_values_push(v@.take(k as int), g, v@[k as int]);
            assert(steps_view(out@) =~= before.push(step@));
        }
        k = k + 1;
    }
    proof {
        assert(v@.take(v@.len() as int) =~= v@);
    }
}

fn push_create_table_steps(out: &mut Vec<SqlMigrationStep>, v: &Vec<CreateTable>)
    ensures
        steps_view(final(out)@) == steps_view(old(out)@) + v@.map_values(
            |c: CreateTable| StepV::CreateTable(c),
        ),
{
    let ghost base = steps_view(old(out)@);
    let ghost g = |c: CreateTable| StepV::CreateTable(c);
    let mut k: usize = 0;
    while k < v.len()
        invariant
            k <= v@.len(),
            base == steps_view(old(out)@),
            g == (|c: CreateTable| StepV::CreateTable(c)),
            steps_view(out@) == base + v@.take(k as int).map_values(g),
        decreases v@.len() - k,
    {
        let ghost before = steps_view(out@);
        let step = SqlMigrationStep::CreateTable(v[k]);
        out.push(step);
        proof {
            crate::matching::lemma_take_push(v@, k as int);
            crate::matching::lemma_map_values_push(v@.take(k as int), g, v@[k as int]);
            assert(steps_view(out@) =~= before.push(step@));
        }
        k = k + 1;
    }
    proof {
        assert(v@.take(v@.len() as int) =~= v@);
    }
}

fn push_create_index_steps(out: &mut Vec<SqlMigrationStep>, v: &Vec<CreateIndex>)
    ensures
        steps_view(final(out)@) == steps_view(old(out)@) + v@.map_values(
            |c: CreateIndex| StepV::CreateIndex(c),
        ),
{
    let ghost base = steps_view(old(out)@);
    let ghost g = |c: CreateIndex| StepV::CreateIndex(c);
    let mut k: usize = 0;
    while k < v.len()
        invariant
            k <= v@.len(),
            base == steps_view(old(out)@),
            g == (|c: CreateIndex| StepV::CreateIndex(c)),
            steps_view(out@) == base + v@.take(k as int).map_values(g),
        decreases v@.len() - k,
    {
        let ghost before = steps_view(out@);
        let step = SqlMigrationStep::CreateIndex(v[k]);
        out.push(step);
        proof {
            crate::matching::lemma_take_push(v@, k as int);
            crate::matching::lemma_map_values_push(v@.take(k as int), g, v@[k as int]);
            assert(steps_view(out@) =~= before.push(step@));
        }
        k = k + 1;
    }
    proof {
        assert(v@.take(v@.len() as int) =~= v@);
    }
}

fn push_add_foreign_key_steps(out: &mut Vec<SqlMigrationStep>, v: &Vec<AddForeignKey>)
    ensures
        steps_view(final(out)@) == steps_view(old(out)@) + v@.map_values(
            |a: AddForeignKey| StepV::AddForeignKey(a),
        ),
{
    let ghost base = steps_view(old(out)@);
    let ghost g = |a: AddForeignKey| StepV::AddForeignKey(a);
    let mut k: usize = 0;
    while k < v.len()
        invariant
            k <= v@.len(),
            base == steps_view(old(out)@),
            g == (|a: AddForeignKey| StepV::AddForeignKey(a)),
            steps_view(out@) == base + v@.take(k as int).map_values(g),
        decreases v@.len() - k,
    {
        let ghost before = steps_view(out@);
        let step = SqlMigrationStep::AddForeignKey(v[k]);
        out.push(step);
        proof {
            crate::matching::lemma_take_push(v@, k as int);
            crate::matching::lemma_map_values_push(v@.take(k as int), g, v@[k as int]);
            assert(steps_view(out@) =~= before.push(step@));
        }
        k = k + 1;
    }
    proof {
        assert(v@.take(v@.len() as int) =~= v@);
    }
}

fn push_alter_index_steps(out: &mut Vec<SqlMigrationStep>, v: &Vec<Pair<(usize, usize)>>)
    ensures
        steps_view(final(out)@) == steps_view(old(out)@) + v@.map_values(
            |p: Pair<(usize, usize)>| StepV::AlterIndex {
                table: Pair { previous: p.previous.0, next: p.next.0 },
                index: Pair { previous: p.previous.1, next: p.next.1 },
            },
        ),
{
    let ghost base = steps_view(old(out)@);
    let ghost g = |p: Pair<(usize, usize)>| StepV::AlterIndex {
        table: Pair { previous: p.previous.0, next: p.next.0 },
        index: Pair { previous: p.previous.1, next: p.next.1 },
    };
    let mut k: usize = 0;
    while k < v.len()
        invariant
            k <= v@.len(),
            base == steps_view(old(out)@),
            g == (|p: Pair<(usize, usize)>| StepV::AlterIndex {
                table: Pair { previous: p.previous.0, next: p.next.0 },
                index: Pair { previous: p.previous.1, next: p.next.1 },
            }),
            steps_view(out@) == base + v@.take(k as int).map_values(g),
        decreases v@.len() - k,
    {
        let ghost before = steps_view(out@);
        let idxs = v[k];
        let step = SqlMigrationStep::AlterIndex {
            table: Pair { previous: idxs.previous.0, next: idxs.next.0 },
            index: Pair { previous: idxs.previous.1, next: idxs.next.1 },
        };
        out.push(step);
        proof {
            crate::matching::lemma_take_push(v@, k as int);
            crate::matching::lemma_map_values_push(v@.take(k as int), g, v@[k as int]);
            assert(steps_view(out@) =~= before.push(step@));
        }
        k = k + 1;
    }
    proof {
        assert(v@.take(v@.len() as int) =~= v@);
    }
}

fn push_redefine_index_steps(out: &mut Vec<SqlMigrationStep>, v: &Vec<Pair<(usize, usize)>>)
    ensures
        steps_view(final(out)@) == steps_view(old(out)@) + v@.map_values(
            |p: Pair<(usize, usize)>| StepV::RedefineIndex {
                table: Pair { previous: p.previous.0, next: p.next.0 },
                index: Pair { previous: p.previous.1, next: p.next.1 },
            },
        ),
{
    let ghost base = steps_view(old(out)@);
    let ghost g = |p: Pair<(usize, usize)>| StepV::RedefineIndex {
        table: Pair { previous: p.previous.0, next: p.next.0 },
        index: Pair { previous: p.previous.1, next: p.next.1 },
    };
    let mut k: usize = 0;
    while k < v.len()
        invariant
            k <= v@.len(),
            base == steps_view(old(out)@),
            g == (|p: Pair<(usize, usize)>| StepV::RedefineIndex {
                table: Pair { previous: p.previous.0, next: p.next.0 },
                index: Pair { previous: p.previous.1, next: p.next.1 },
            }),
            steps_view(out@) == base + v@.take(k as int).map_values(g),
        decreases v@.len() - k,
    {
        let ghost before = steps_view(out@);
        let idxs = v[k];
        let step = SqlMigrationStep::RedefineIndex {
            table: Pair { previous: idxs.previous.0, next: idxs.next.0 },
            index: Pair { previous: idxs.previous.1, next: idxs.next.1 },
        };
        out.push(step);
        proof {
            crate::matching::lemma_take_push(v@, k as int);
            crate::matching::lemma_map_values_push(v@.take(k as int), g, v@[k as int]);
            assert(steps_view(out@) =~= before.push(step@));
        }
        k = k + 1;
    }
    proof {
        assert(v@.take(v@.len() as int) =~= v@);
    }
}

/// Compute the ordered migration plan that transforms the previous snapshot
/// into the next one, a pure function of the two snapshots and the flavour.
pub fn calculate_steps(schemas: Pair<&SqlSchema>, flavour: &Flavour) -> (r: Vec<SqlMigrationStep>)
    ensures
        steps_view(r@) == calculate_steps_s(*flavour, *schemas.previous, *schemas.next),
{
    let previous = schemas.previous;
    let next = schemas.next;
    let db = DifferDatabase::new(flavour, previous, next);
    let all_renames = alter_indexes(&db, previous, next);
    let (alter_idx, redefine_idx) = if flavour.can_alter_index {
        (all_renames, Vec::new())
    } else {
        (Vec::new(), all_renames)
    };
    let (drop_tables_v, mut drop_fks) = drop_tables(&db, previous, next);
    push_drop_foreign_keys(&db, previous, next, &mut drop_fks);
    let drop_idx = drop_indexes(&db, previous, next);
    let create_idx = create_indexes(&db, previous, next);
    let alter_tables_v = alter_tables(&db, previous, next);
    let redefine_tables_v = redefine_tables(&db, previous, next);
    let add_fks = add_foreign_keys(&db, previous, next);
    let create_enums_v = create_enums(&db, previous, next);
    let drop_enums_v = drop_enums(&db, previous, next);
    let mut alter_enums_v = alter_enums(&db, previous, next);
    push_previous_usages_as_defaults_in_altered_enums(&db, previous, next, &mut alter_enums_v);
    let create_tables_v = create_tables(&db, previous, next);

    let ghost f = *flavour;
    let ghost ps = *previous;
    let ghost ns = *next;
    let mut out: Vec<SqlMigrationStep> = Vec::new();
    push_create_enum_steps(&mut out, &create_enums_v);
    push_alter_enum_steps(&mut out, &alter_enums_v);
    push_drop_foreign_key_steps(&mut out, &drop_fks);
    push_drop_index_steps(&mut out, &drop_idx);
    push_alter_table_steps(&mut out, &alter_tables_v);
    push_drop_table_steps(&mut out, &drop_tables_v);
    push_drop_enum_steps(&mut out, &drop_enums_v);
    push_create_table_steps(&mut out, &create_tables_v);
    let ghost before_redefine = steps_view(out@);
    if redefine_tables_v.len() > 0 {
        let ghost elem = StepV::RedefineTables(rt_views(redefine_tables_v@));
        let step = SqlMigrationStep::RedefineTables(redefine_tables_v);
        out.push(step);
        proof {
            assert(step@ == elem);
            assert(rt_views(redefine_tables_v@).len() == redefine_tables_v@.len());
            assert(steps_view(out@) =~= before_redefine + seq![
                StepV::RedefineTables(redefine_tables_s(f, ps, ns)),
            ]);
        }
    } else {
        proof {
            assert(rt_views(redefine_tables_v@).len() == redefine_tables_v@.len());
            assert(redefine_tables_s(f, ps, ns).len() == 0);
            assert(steps_view(out@) =~= before_redefine + Seq::<StepV>::empty());
        }
    }
    push_create_index_steps(&mut out, &create_idx);
    push_add_foreign_key_steps(&mut out, &add_fks);
    push_alter_index_steps(&mut out, &alter_idx);
    push_redefine_index_steps(&mut out, &redefine_idx);
    proof {
        if f.can_alter_index {
            assert(alter_idx@ == alter_indexes_s(f, ps, ns));
            assert(redefine_idx@ =~= Seq::<Pair<(usize, usize)>>::empty());
        } else {
            assert(alter_idx@ =~= Seq::<Pair<(usize, usize)>>::empty());
            assert(redefine_idx@ == alter_indexes_s(f, ps, ns));
        }
        assert(steps_view(out@) =~= calculate_steps_s(f, ps, ns));
    }
    out
}

} // verus!

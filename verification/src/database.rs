//! The entity matcher: pairs the tables and enumerated types of the two
//! snapshots and exposes the created, dropped and matched entities as
//! positional index lists, in snapshot order. A reserved bookkeeping table is
//! excluded from diffing regardless of match outcome.

use vstd::prelude::*;
use crate::enums::enums_match;
use crate::flavour::{
    names_equiv, names_match, table_is_ignored, table_is_ignored_spec, Flavour,
};
use crate::matching::{
    first_where, indices_where_upto, lemma_first_where_from, pairs_where_upto,
};
use crate::schema::{DbEnum, SqlSchema, Table};

verus! {

/// Whether two tables stand for the same table across the two snapshots,
/// under the flavour's table-name equivalence.
pub open spec fn tables_match(f: Flavour, previous: Table, next: Table) -> bool {
    names_equiv(f.table_names_case_insensitive, previous.name@, next.name@)
}

/// Whether a table takes part in diffing at all.
pub open spec fn table_active(t: Table) -> bool {
    !table_is_ignored_spec(t.name@)
}

/// The first active table of `others` matching previous table `a`, or -1.
pub open spec fn table_match_in_next(f: Flavour, a: Table, others: Seq<Table>) -> int {
    first_where(others, |x: Table| table_active(x) && tables_match(f, a, x), 0)
}

/// The first active table of `others` matching next table `b`, or -1.
pub open spec fn table_match_in_prev(f: Flavour, others: Seq<Table>, b: Table) -> int {
    first_where(others, |x: Table| table_active(x) && tables_match(f, x, b), 0)
}

/// The first enum of `others` matching previous enum `a`, or -1.
pub open spec fn enum_match_in_next(a: DbEnum, others: Seq<DbEnum>) -> int {
    first_where(others, |x: DbEnum| enums_match(a, x), 0)
}

/// The first enum of `others` matching next enum `b`, or -1.
pub open spec fn enum_match_in_prev(others: Seq<DbEnum>, b: DbEnum) -> int {
    first_where(others, |x: DbEnum| enums_match(x, b), 0)
}

/// The active next tables with no active match in the previous snapshot, in
/// next position order.
pub open spec fn created_tables_s(f: Flavour, ps: SqlSchema, ns: SqlSchema) -> Seq<usize> {
    indices_where_upto(
        |j: int| table_active(ns.tables@[j]) && table_match_in_prev(f, ps.tables@, ns.tables@[j])
            == -1,
        ns.tables@.len() as int,
    )
}

/// The active previous tables with no active match in the next snapshot, in
/// previous position order.
pub open spec fn dropped_tables_s(f: Flavour, ps: SqlSchema, ns: SqlSchema) -> Seq<usize> {
    indices_where_upto(
        |i: int| table_active(ps.tables@[i]) && table_match_in_next(f, ps.tables@[i], ns.tables@)
            == -1,
        ps.tables@.len() as int,
    )
}

/// The matched table pairs, ordered by previous table position; each active
/// previous table is paired with the first active matching next table.
pub open spec fn table_pairs_s(f: Flavour, ps: SqlSchema, ns: SqlSchema) -> Seq<(usize, usize)> {
    pairs_where_upto(
        |i: int| table_active(ps.tables@[i]) && table_match_in_next(f, ps.tables@[i], ns.tables@)
            >= 0,
        |i: int| table_match_in_next(f, ps.tables@[i], ns.tables@),
        ps.tables@.len() as int,
    )
}

/// The next enums with no match in the previous snapshot, in next position
/// order.
pub open spec fn created_enums_s(ps: SqlSchema, ns: SqlSchema) -> Seq<usize> {
    indices_where_upto(
        |j: int| enum_match_in_prev(ps.enums@, ns.enums@[j]) == -1,
        ns.enums@.len() as int,
    )
}

/// The previous enums with no match in the next snapshot, in previous
/// position order.
pub open spec fn dropped_enums_s(ps: SqlSchema, ns: SqlSchema) -> Seq<usize> {
    indices_where_upto(
        |i: int| enum_match_in_next(ps.enums@[i], ns.enums@) == -1,
        ps.enums@.len() as int,
    )
}

/// The matched enum pairs, ordered by previous enum position.
pub open spec fn enum_pairs_s(ps: SqlSchema, ns: SqlSchema) -> Seq<(usize, usize)> {
    pairs_where_upto(
        |i: int| enum_match_in_next(ps.enums@[i], ns.enums@) >= 0,
        |i: int| enum_match_in_next(ps.enums@[i], ns.enums@),
        ps.enums@.len() as int,
    )
}

fn table_takes_part(t: &Table) -> (r: bool)
    ensures
        r == table_active(*t),
{
    !table_is_ignored(&t.name)
}

fn find_table_match_in_next(f: &Flavour, a: &Table, others: &Vec<Table>) -> (r: Option<usize>)
    ensures
        match r {
            Option::Some(j) => table_match_in_next(*f, *a, others@) == j as int,
            Option::None => table_match_in_next(*f, *a, others@) == -1,
        },
{
    let ghost p = |x: Table| table_active(x) && tables_match(*f, *a, x);
    let mut j: usize = 0;
    while j < others.len()
        invariant
            j <= others@.len(),
            p == (|x: Table| table_active(x) && tables_match(*f, *a, x)),
            forall|k: int| 0 <= k < j ==> !p(others@[k]),
        decreases others@.len() - j,
    {
        if table_takes_part(&others[j]) && names_match(
            f.table_names_case_insensitive,
            &a.name,
            &others[j].name,
        ) {
            proof {
                assert(p(others@[j as int]));
                lemma_first_where_from(others@, p, 0, j as int);
            }
            return Option::Some(j);
        }
        proof {
            assert(!p(others@[j as int]));
        }
        j = j + 1;
    }
    proof {
        lemma_first_where_from(others@, p, 0, others@.len() as int);
    }
    Option::None
}

fn find_table_match_in_prev(f: &Flavour, others: &Vec<Table>, b: &Table) -> (r: Option<usize>)
    ensures
        match r {
            Option::Some(j) => table_match_in_prev(*f, others@, *b) == j as int,
            Option::None => table_match_in_prev(*f, others@, *b) == -1,
        },
{
    let ghost p = |x: Table| table_active(x) && tables_match(*f, x, *b);
    let mut j: usize = 0;
    while j < others.len()
        invariant
            j <= others@.len(),
            p == (|x: Table| table_active(x) && tables_match(*f, x, *b)),
            forall|k: int| 0 <= k < j ==> !p(others@[k]),
        decreases others@.len() - j,
    {
        if table_takes_part(&others[j]) && names_match(
            f.table_names_case_insensitive,
            &others[j].name,
            &b.name,
        ) {
            proof {
                assert(p(others@[j as int]));
                lemma_first_where_from(others@, p, 0, j as int);
            }
            return Option::Some(j);
        }
        proof {
            assert(!p(others@[j as int]));
        }
        j = j + 1;
    }
    proof {
        lemma_first_where_from(others@, p, 0, others@.len() as int);
    }
    Option::None
}

fn find_enum_match_in_next(a: &DbEnum, others: &Vec<DbEnum>) -> (r: Option<usize>)
    ensures
        match r {
            Option::Some(j) => enum_match_in_next(*a, others@) == j as int,
            Option::None => enum_match_in_next(*a, others@) == -1,
        },
{
    let ghost p = |x: DbEnum| enums_match(*a, x);
    let mut j: usize = 0;
    while j < others.len()
        invariant
            j <= others@.len(),
            p == (|x: DbEnum| enums_match(*a, x)),
            forall|k: int| 0 <= k < j ==> !p(others@[k]),
        decreases others@.len() - j,
    {
        if crate::schema::string_eq(&a.name, &others[j].name) {
            proof {
                assert(p(others@[j as int]));
                lemma_first_where_from(others@, p, 0, j as int);
            }
            return Option::Some(j);
        }
        proof {
            assert(!p(others@[j as int]));
        }
        j = j + 1;
    }
    proof {
        lemma_first_where_from(others@, p, 0, others@.len() as int);
    }
    Option::None
}

fn find_enum_match_in_prev(others: &Vec<DbEnum>, b: &DbEnum) -> (r: Option<usize>)
    ensures
        match r {
            Option::Some(j) => enum_match_in_prev(others@, *b) == j as int,
            Option::None => enum_match_in_prev(others@, *b) == -1,
        },
{
    let ghost p = |x: DbEnum| enums_match(x, *b);
    let mut j: usize = 0;
    while j < others.len()
        invariant
            j <= others@.len(),
            p == (|x: DbEnum| enums_match(x, *b)),
            forall|k: int| 0 <= k < j ==> !p(others@[k]),
        decreases others@.len() - j,
    {
        if crate::schema::string_eq(&others[j].name, &b.name) {
            proof {
                assert(p(others@[j as int]));
                lemma_first_where_from(others@, p, 0, j as int);
            }
            return Option::Some(j);
        }
        proof {
            assert(!p(others@[j as int]));
        }
        j = j + 1;
    }
    proof {
        lemma_first_where_from(others@, p, 0, others@.len() as int);
    }
    Option::None
}

/// The computed pairings of the two snapshots: which tables and enums were
/// created, dropped, or matched, all as positional indices in snapshot order.
pub struct DifferDatabase {
    pub flavour: Flavour,
    pub created_tables: Vec<usize>,
    pub dropped_tables: Vec<usize>,
    pub table_pairs: Vec<(usize, usize)>,
    pub created_enums: Vec<usize>,
    pub dropped_enums: Vec<usize>,
    pub enum_pairs: Vec<(usize, usize)>,
}

impl DifferDatabase {
    /// Match the entities of the two snapshots.
    pub fn new(flavour: &Flavour, previous: &SqlSchema, next: &SqlSchema) -> (db: DifferDatabase)
        ensures
            db.flavour == *flavour,
            db.created_tables@ == created_tables_s(*flavour, *previous, *next),
            db.dropped_tables@ == dropped_tables_s(*flavour, *previous, *next),
            db.table_pairs@ == table_pairs_s(*flavour, *previous, *next),
            db.created_enums@ == created_enums_s(*previous, *next),
            db.dropped_enums@ == dropped_enums_s(*previous, *next),
            db.enum_pairs@ == enum_pairs_s(*previous, *next),
    {
        let ghost cq = |j: int| table_active(next.tables@[j]) && table_match_in_prev(
            *flavour,
            previous.tables@,
            next.tables@[j],
        ) == -1;
        let mut created_tables: Vec<usize> = Vec::new();
        let mut j: usize = 0;
        while j < next.tables.len()
            invariant
                j <= next.tables@.len(),
                cq == (|j: int| table_active(next.tables@[j]) && table_match_in_prev(
                    *flavour,
                    previous.tables@,
                    next.tables@[j],
                ) == -1),
                created_tables@ == indices_where_upto(cq, j as int),
            decreases next.tables@.len() - j,
        {
            if table_takes_part(&next.tables[j]) {
                match find_table_match_in_prev(flavour, &previous.tables, &next.tables[j]) {
                    Option::Some(_) => {
                        proof {
                            assert(!cq(j as int));
                        }
                    },
                    Option::None => {
                        created_tables.push(j);
                        proof {
                            assert(cq(j as int));
                        }
                    },
                }
            } else {
                proof {
                    assert(!cq(j as int));
                }
            }
            j = j + 1;
        }
        let ghost dq = |i: int| table_active(previous.tables@[i]) && table_match_in_next(
            *flavour,
            previous.tables@[i],
            next.tables@,
        ) == -1;
        let ghost pq = |i: int| table_active(previous.tables@[i]) && table_match_in_next(
            *flavour,
            previous.tables@[i],
            next.tables@,
        ) >= 0;
        let ghost pw = |i: int| table_match_in_next(*flavour, previous.tables@[i], next.tables@);
        let mut dropped_tables: Vec<usize> = Vec::new();
        let mut table_pairs: Vec<(usize, usize)> = Vec::new();
        let mut i: usize = 0;
        while i < previous.tables.len()
            invariant
                i <= previous.tables@.len(),
                dq == (|i: int| table_active(previous.tables@[i]) && table_match_in_next(
                    *flavour,
                    previous.tables@[i],
                    next.tables@,
                ) == -1),
                pq == (|i: int| table_active(previous.tables@[i]) && table_match_in_next(
                    *flavour,
                    previous.tables@[i],
                    next.tables@,
                ) >= 0),
                pw == (|i: int| table_match_in_next(
                    *flavour,
                    previous.tables@[i],
                    next.tables@,
                )),
                dropped_tables@ == indices_where_upto(dq, i as int),
                table_pairs@ == pairs_where_upto(pq, pw, i as int),
            decreases previous.tables@.len() - i,
        {
            if table_takes_part(&previous.tables[i]) {
                match find_table_match_in_next(flavour, &previous.tables[i], &next.tables) {
                    Option::Some(m) => {
                        table_pairs.push((i, m));
                        proof {
                            assert(!dq(i as int));
                            assert(pq(i as int));
                            assert(pw(i as int) == m as int);
                        }
                    },
                    Option::None => {
                        dropped_tables.push(i);
                        proof {
                            assert(dq(i as int));
                            assert(!pq(i as int));
                        }
                    },
                }
            } else {
                proof {
                    assert(!dq(i as int));
                    assert(!pq(i as int));
                }
            }
            i = i + 1;
        }
        let ghost ceq = |j: int| enum_match_in_prev(previous.enums@, next.enums@[j]) == -1;
        let mut created_enums: Vec<usize> = Vec::new();
        let mut j: usize = 0;
        while j < next.enums.len()
            invariant
                j <= next.enums@.len(),
                ceq == (|j: int| enum_match_in_prev(previous.enums@, next.enums@[j]) == -1),
                created_enums@ == indices_where_upto(ceq, j as int),
            decreases next.enums@.len() - j,
        {
            match find_enum_match_in_prev(&previous.enums, &next.enums[j]) {
                Option::Some(_) => {
                    proof {
                        assert(!ceq(j as int));
                    }
                },
                Option::None => {
                    created_enums.push(j);
                    proof {
                        assert(ceq(j as int));
                    }
                },
            }
            j = j + 1;
        }
        let ghost deq = |i: int| enum_match_in_next(previous.enums@[i], next.enums@) == -1;
        let ghost peq = |i: int| enum_match_in_next(previous.enums@[i], next.enums@) >= 0;
        let ghost pew = |i: int| enum_match_in_next(previous.enums@[i], next.enums@);
        let mut dropped_enums: Vec<usize> = Vec::new();
        let mut enum_pairs: Vec<(usize, usize)> = Vec::new();
        let mut i: usize = 0;
        while i < previous.enums.len()
            invariant
                i <= previous.enums@.len(),
                deq == (|i: int| enum_match_in_next(previous.enums@[i], next.enums@) == -1),
                peq == (|i: int| enum_match_in_next(previous.enums@[i], next.enums@) >= 0),
                pew == (|i: int| enum_match_in_next(previous.enums@[i], next.enums@)),
                dropped_enums@ == indices_where_upto(deq, i as int),
                enum_pairs@ == pairs_where_upto(peq, pew, i as int),
            decreases previous.enums@.len() - i,
        {
            match find_enum_match_in_next(&previous.enums[i], &next.enums) {
                Option::Some(m) => {
                    enum_pairs.push((i, m));
                    proof {
                        assert(!deq(i as int));
                        assert(peq(i as int));
                        assert(pew(i as int) == m as int);
                    }
                },
                Option::None => {
                    dropped_enums.push(i);
                    proof {
                        assert(deq(i as int));
                        assert(!peq(i as int));
                    }
                },
            }
            i = i + 1;
        }
        DifferDatabase {
            flavour: *flavour,
            created_tables,
            dropped_tables,
            table_pairs,
            created_enums,
            dropped_enums,
            enum_pairs,
        }
    }

    /// The next-snapshot positions of the created tables.
    pub fn created_tables(&self) -> (r: &Vec<usize>)
        ensures
            r == &self.created_tables,
    {
        &self.created_tables
    }

    /// The previous-snapshot positions of the dropped tables.
    pub fn dropped_tables(&self) -> (r: &Vec<usize>)
        ensures
            r == &self.dropped_tables,
    {
        &self.dropped_tables
    }

    /// How many tables are dropped, for pre-sizing.
    pub fn dropped_tables_count(&self) -> (r: usize)
        ensures
            r == self.dropped_tables@.len(),
    {
        self.dropped_tables.len()
    }

    /// The matched table pairs, in previous snapshot order.
    pub fn table_pairs(&self) -> (r: &Vec<(usize, usize)>)
        ensures
            r == &self.table_pairs,
    {
        &self.table_pairs
    }

    /// The next-snapshot positions of the created enums.
    pub fn created_enums(&self) -> (r: &Vec<usize>)
        ensures
            r == &self.created_enums,
    {
        &self.created_enums
    }

    /// The previous-snapshot positions of the dropped enums.
    pub fn dropped_enums(&self) -> (r: &Vec<usize>)
        ensures
            r == &self.dropped_enums,
    {
        &self.dropped_enums
    }

    /// The matched enum pairs, in previous snapshot order.
    pub fn enum_pairs(&self) -> (r: &Vec<(usize, usize)>)
        ensures
            r == &self.enum_pairs,
    {
        &self.enum_pairs
    }
}

} // verus!

//! The table differ: for one matched table pair, the matched, added and
//! dropped columns, indexes and foreign keys, and the primary-key comparison.
//! All lists are in snapshot positional order.

use vstd::prelude::*;
use crate::column::columns_match;
use crate::flavour::{names_equiv, names_match, Flavour};
use crate::matching::{
    first_where, lemma_first_where_bounds, lemma_first_where_from, pairs_where_upto,
    indices_where_upto,
};
use crate::schema::{
    families_equal, family_eq, opt_string_eq_spec, str_seq, string_eq, string_list_eq,
    usize_list_eq, Column, ColumnTypeFamily, ForeignKey, Index, Table,
};

verus! {

// --- Column lookup by name ------------------------------------------------------

/// The first column of `t` whose name is exactly `name`, or -1.
pub open spec fn column_position(t: Table, name: Seq<char>) -> int {
    first_where(t.columns@, |c: Column| c.name@ == name, 0)
}

/// The type family of the column of `t` named `name`; `Unsupported` when no
/// such column exists.
pub open spec fn column_family_in(t: Table, name: Seq<char>) -> ColumnTypeFamily {
    if column_position(t, name) >= 0 {
        t.columns@[column_position(t, name)].tpe.family
    } else {
        ColumnTypeFamily::Unsupported
    }
}

/// Look up the type family of the column of `t` named `name`.
pub fn lookup_family(t: &Table, name: &String) -> (r: ColumnTypeFamily)
    ensures
        r == column_family_in(*t, name@),
{
    let ghost p = |c: Column| c.name@ == name@;
    let mut i: usize = 0;
    while i < t.columns.len()
        invariant
            i <= t.columns@.len(),
            p == (|c: Column| c.name@ == name@),
            forall|k: int| 0 <= k < i ==> !p(t.columns@[k]),
        decreases t.columns@.len() - i,
    {
        if string_eq(&t.columns[i].name, name) {
            proof {
                assert(p(t.columns@[i as int]));
                lemma_first_where_from(t.columns@, p, 0, i as int);
            }
            return crate::schema::clone_family(&t.columns[i].tpe.family);
        }
        proof {
            assert(!p(t.columns@[i as int]));
        }
        i = i + 1;
    }
    proof {
        lemma_first_where_from(t.columns@, p, 0, t.columns@.len() as int);
    }
    ColumnTypeFamily::Unsupported
}

// --- Foreign key matching -------------------------------------------------------

/// Whether two type families are interchangeable for foreign-key matching:
/// identical families, or the UUID and text families in either order, to
/// accommodate identifiers stored as text.
pub open spec fn families_interchangeable(a: ColumnTypeFamily, b: ColumnTypeFamily) -> bool {
    match (a, b) {
        (ColumnTypeFamily::Uuid, ColumnTypeFamily::Text) => true,
        (ColumnTypeFamily::Text, ColumnTypeFamily::Uuid) => true,
        _ => family_eq(a, b),
    }
}

pub fn families_interchangeable_exec(a: &ColumnTypeFamily, b: &ColumnTypeFamily) -> (r: bool)
    ensures
        r == families_interchangeable(*a, *b),
{
    match (a, b) {
        (ColumnTypeFamily::Uuid, ColumnTypeFamily::Text) => true,
        (ColumnTypeFamily::Text, ColumnTypeFamily::Uuid) => true,
        _ => families_equal(a, b),
    }
}

/// Whether two foreign keys stand for the same constraint across the two
/// snapshots: they reference the same table under the flavour's name
/// equivalence, constrain and reference the same number of columns, the
/// constrained columns agree in name and carry interchangeable type families
/// at every position, and the referenced column names are identical at every
/// position. Constraint names play no part.
pub open spec fn fks_match(
    f: Flavour,
    pt: Table,
    a: ForeignKey,
    nt: Table,
    b: ForeignKey,
) -> bool {
    &&& names_equiv(f.table_names_case_insensitive, a.referenced_table@, b.referenced_table@)
    &&& a.referenced_columns@.len() == b.referenced_columns@.len()
    &&& a.columns@.len() == b.columns@.len()
    &&& (forall|k: int|
        0 <= k < a.columns@.len() ==> (#[trigger] a.columns@[k])@ == b.columns@[k]@
            && families_interchangeable(
            column_family_in(pt, a.columns@[k]@),
            column_family_in(nt, b.columns@[k]@),
        ))
    &&& (forall|k: int|
        0 <= k < a.referenced_columns@.len() ==> (#[trigger] a.referenced_columns@[k])@
            == b.referenced_columns@[k]@)
}

/// Whether two foreign keys should be considered equivalent for diffing.
pub fn foreign_keys_match(
    f: &Flavour,
    pt: &Table,
    a: &ForeignKey,
    nt: &Table,
    b: &ForeignKey,
) -> (r: bool)
    ensures
        r == fks_match(*f, *pt, *a, *nt, *b),
{
    if !names_match(f.table_names_case_insensitive, &a.referenced_table, &b.referenced_table) {
        return false;
    }
    if a.referenced_columns.len() != b.referenced_columns.len() {
        return false;
    }
    if a.columns.len() != b.columns.len() {
        return false;
    }
    let mut k: usize = 0;
    while k < a.columns.len()
        invariant
            k <= a.columns@.len(),
            a.columns@.len() == b.columns@.len(),
            forall|m: int|
                0 <= m < k ==> (#[trigger] a.columns@[m])@ == b.columns@[m]@
                    && families_interchangeable(
                    column_family_in(*pt, a.columns@[m]@),
                    column_family_in(*nt, b.columns@[m]@),
                ),
        decreases a.columns@.len() - k,
    {
        if !string_eq(&a.columns[k], &b.columns[k]) {
            return false;
        }
        let fa = lookup_family(pt, &a.columns[k]);
        let fb = lookup_family(nt, &b.columns[k]);
        if !families_interchangeable_exec(&fa, &fb) {
            return false;
        }
        k = k + 1;
    }
    let mut k: usize = 0;
    while k < a.referenced_columns.len()
        invariant
            k <= a.referenced_columns@.len(),
            a.referenced_columns@.len() == b.referenced_columns@.len(),
            a.columns@.len() == b.columns@.len(),
            forall|m: int|
                0 <= m < a.columns@.len() ==> (#[trigger] a.columns@[m])@ == b.columns@[m]@
                    && families_interchangeable(
                    column_family_in(*pt, a.columns@[m]@),
                    column_family_in(*nt, b.columns@[m]@),
                ),
            forall|m: int|
                0 <= m < k ==> (#[trigger] a.referenced_columns@[m])@ == b.referenced_columns@[m]@,
        decreases a.referenced_columns@.len() - k,
    {
        if !string_eq(&a.referenced_columns[k], &b.referenced_columns[k]) {
            return false;
        }
        k = k + 1;
    }
    true
}

// --- Index matching -------------------------------------------------------------

/// Whether two indexes stand for the same index: same uniqueness and the same
/// constrained columns in the same order. Index names play no part here; a
/// matched pair whose names differ is an index rename.
pub open spec fn indexes_match(a: Index, b: Index) -> bool {
    a.unique == b.unique && str_seq(a.columns@) == str_seq(b.columns@)
}

/// Whether a matched index pair amounts to a rename.
pub open spec fn index_renamed(a: Index, b: Index) -> bool {
    !opt_string_eq_spec(a.name, b.name)
}

pub fn indexes_equal(a: &Index, b: &Index) -> (r: bool)
    ensures
        r == indexes_match(*a, *b),
{
    a.unique == b.unique && string_list_eq(&a.columns, &b.columns)
}

// --- First-match positions ------------------------------------------------------

/// The first column of `ncols` matching previous column `c`, or -1.
pub open spec fn col_match_in_next(f: Flavour, c: Column, ncols: Seq<Column>) -> int {
    first_where(ncols, |x: Column| columns_match(f, c, x), 0)
}

/// The first column of `pcols` matching next column `c`, or -1.
pub open spec fn col_match_in_prev(f: Flavour, pcols: Seq<Column>, c: Column) -> int {
    first_where(pcols, |x: Column| columns_match(f, x, c), 0)
}

/// The first index of `nidxs` matching previous index `a`, or -1.
pub open spec fn idx_match_in_next(a: Index, nidxs: Seq<Index>) -> int {
    first_where(nidxs, |x: Index| indexes_match(a, x), 0)
}

/// The first index of `pidxs` matching next index `b`, or -1.
pub open spec fn idx_match_in_prev(pidxs: Seq<Index>, b: Index) -> int {
    first_where(pidxs, |x: Index| indexes_match(x, b), 0)
}

/// The first foreign key of `nt` matching previous foreign key `a`, or -1.
pub open spec fn fk_match_in_next(f: Flavour, pt: Table, a: ForeignKey, nt: Table) -> int {
    first_where(nt.foreign_keys@, |x: ForeignKey| fks_match(f, pt, a, nt, x), 0)
}

/// The first foreign key of `pt` matching next foreign key `b`, or -1.
pub open spec fn fk_match_in_prev(f: Flavour, pt: Table, nt: Table, b: ForeignKey) -> int {
    first_where(pt.foreign_keys@, |x: ForeignKey| fks_match(f, pt, x, nt, b), 0)
}

fn find_col_match_in_next(f: &Flavour, c: &Column, ncols: &Vec<Column>) -> (r: Option<usize>)
    ensures
        match r {
            Option::Some(j) => col_match_in_next(*f, *c, ncols@) == j as int,
            Option::None => col_match_in_next(*f, *c, ncols@) == -1,
        },
{
    let ghost p = |x: Column| columns_match(*f, *c, x);
    let mut j: usize = 0;
    while j < ncols.len()
        invariant
            j <= ncols@.len(),
            p == (|x: Column| columns_match(*f, *c, x)),
            forall|k: int| 0 <= k < j ==> !p(ncols@[k]),
        decreases ncols@.len() - j,
    {
        if names_match(f.column_names_case_insensitive, &c.name, &ncols[j].name) {
            proof {
                assert(p(ncols@[j as int]));
                lemma_first_where_from(ncols@, p, 0, j as int);
            }
            return Option::Some(j);
        }
        proof {
            assert(!p(ncols@[j as int]));
        }
        j = j + 1;
    }
    proof {
        lemma_first_where_from(ncols@, p, 0, ncols@.len() as int);
    }
    Option::None
}

fn find_col_match_in_prev(f: &Flavour, pcols: &Vec<Column>, c: &Column) -> (r: Option<usize>)
    ensures
        match r {
            Option::Some(j) => col_match_in_prev(*f, pcols@, *c) == j as int,
            Option::None => col_match_in_prev(*f, pcols@, *c) == -1,
        },
{
    let ghost p = |x: Column| columns_match(*f, x, *c);
    let mut j: usize = 0;
    while j < pcols.len()
        invariant
            j <= pcols@.len(),
            p == (|x: Column| columns_match(*f, x, *c)),
            forall|k: int| 0 <= k < j ==> !p(pcols@[k]),
        decreases pcols@.len() - j,
    {
        if names_match(f.column_names_case_insensitive, &pcols[j].name, &c.name) {
            proof {
                assert(p(pcols@[j as int]));
                lemma_first_where_from(pcols@, p, 0, j as int);
            }
            return Option::Some(j);
        }
        proof {
            assert(!p(pcols@[j as int]));
        }
        j = j + 1;
    }
    proof {
        lemma_first_where_from(pcols@, p, 0, pcols@.len() as int);
    }
    Option::None
}

fn find_idx_match_in_next(a: &Index, nidxs: &Vec<Index>) -> (r: Option<usize>)
    ensures
        match r {
            Option::Some(j) => idx_match_in_next(*a, nidxs@) == j as int,
            Option::None => idx_match_in_next(*a, nidxs@) == -1,
        },
{
    let ghost p = |x: Index| indexes_match(*a, x);
    let mut j: usize = 0;
    while j < nidxs.len()
        invariant
            j <= nidxs@.len(),
            p == (|x: Index| indexes_match(*a, x)),
            forall|k: int| 0 <= k < j ==> !p(nidxs@[k]),
        decreases nidxs@.len() - j,
    {
        if indexes_equal(a, &nidxs[j]) {
            proof {
                assert(p(nidxs@[j as int]));
                lemma_first_where_from(nidxs@, p, 0, j as int);
            }
            return Option::Some(j);
        }
        proof {
            assert(!p(nidxs@[j as int]));
        }
        j = j + 1;
    }
    proof {
        lemma_first_where_from(nidxs@, p, 0, nidxs@.len() as int);
    }
    Option::None
}

fn find_idx_match_in_prev(pidxs: &Vec<Index>, b: &Index) -> (r: Option<usize>)
    ensures
        match r {
            Option::Some(j) => idx_match_in_prev(pidxs@, *b) == j as int,
            Option::None => idx_match_in_prev(pidxs@, *b) == -1,
        },
{
    let ghost p = |x: Index| indexes_match(x, *b);
    let mut j: usize = 0;
    while j < pidxs.len()
        invariant
            j <= pidxs@.len(),
            p == (|x: Index| indexes_match(x, *b)),
            forall|k: int| 0 <= k < j ==> !p(pidxs@[k]),
        decreases pidxs@.len() - j,
    {
        if indexes_equal(&pidxs[j], b) {
            proof {
                assert(p(pidxs@[j as int]));
                lemma_first_where_from(pidxs@, p, 0, j as int);
            }
            return Option::Some(j);
        }
        proof {
            assert(!p(pidxs@[j as int]));
        }
        j = j + 1;
    }
    proof {
        lemma_first_where_from(pidxs@, p, 0, pidxs@.len() as int);
    }
    Option::None
}

fn find_fk_match_in_next(f: &Flavour, pt: &Table, a: &ForeignKey, nt: &Table) -> (r: Option<usize>)
    ensures
        match r {
            Option::Some(j) => fk_match_in_next(*f, *pt, *a, *nt) == j as int,
            Option::None => fk_match_in_next(*f, *pt, *a, *nt) == -1,
        },
{
    let ghost p = |x: ForeignKey| fks_match(*f, *pt, *a, *nt, x);
    let mut j: usize = 0;
    while j < nt.foreign_keys.len()
        invariant
            j <= nt.foreign_keys@.len(),
            p == (|x: ForeignKey| fks_match(*f, *pt, *a, *nt, x)),
            forall|k: int| 0 <= k < j ==> !p(nt.foreign_keys@[k]),
        decreases nt.foreign_keys@.len() - j,
    {
        if foreign_keys_match(f, pt, a, nt, &nt.foreign_keys[j]) {
            proof {
                assert(p(nt.foreign_keys@[j as int]));
                lemma_first_where_from(nt.foreign_keys@, p, 0, j as int);
            }
            return Option::Some(j);
        }
        proof {
            assert(!p(nt.foreign_keys@[j as int]));
        }
        j = j + 1;
    }
    proof {
        lemma_first_where_from(nt.foreign_keys@, p, 0, nt.foreign_keys@.len() as int);
    }
    Option::None
}

fn find_fk_match_in_prev(f: &Flavour, pt: &Table, nt: &Table, b: &ForeignKey) -> (r: Option<usize>)
    ensures
        match r {
            Option::Some(j) => fk_match_in_prev(*f, *pt, *nt, *b) == j as int,
            Option::None => fk_match_in_prev(*f, *pt, *nt, *b) == -1,
        },
{
    let ghost p = |x: ForeignKey| fks_match(*f, *pt, x, *nt, *b);
    let mut j: usize = 0;
    while j < pt.foreign_keys.len()
        invariant
            j <= pt.foreign_keys@.len(),
            p == (|x: ForeignKey| fks_match(*f, *pt, x, *nt, *b)),
            forall|k: int| 0 <= k < j ==> !p(pt.foreign_keys@[k]),
        decreases pt.foreign_keys@.len() - j,
    {
        if foreign_keys_match(f, pt, &pt.foreign_keys[j], nt, b) {
            proof {
                assert(p(pt.foreign_keys@[j as int]));
                lemma_first_where_from(pt.foreign_keys@, p, 0, j as int);
            }
            return Option::Some(j);
        }
        proof {
            assert(!p(pt.foreign_keys@[j as int]));
        }
        j = j + 1;
    }
    proof {
        lemma_first_where_from(pt.foreign_keys@, p, 0, pt.foreign_keys@.len() as int);
    }
    Option::None
}

// --- The per-pair lists, in snapshot positional order ---------------------------

/// The matched column pairs, ordered by previous column position; each
/// previous column is paired with the first matching next column.
pub open spec fn column_pairs_s(f: Flavour, pt: Table, nt: Table) -> Seq<(usize, usize)> {
    pairs_where_upto(
        |i: int| col_match_in_next(f, pt.columns@[i], nt.columns@) >= 0,
        |i: int| col_match_in_next(f, pt.columns@[i], nt.columns@),
        pt.columns@.len() as int,
    )
}

/// The next-only columns, in next snapshot position order.
pub open spec fn added_columns_s(f: Flavour, pt: Table, nt: Table) -> Seq<usize> {
    indices_where_upto(
        |j: int| col_match_in_prev(f, pt.columns@, nt.columns@[j]) == -1,
        nt.columns@.len() as int,
    )
}

/// The previous-only columns, in previous snapshot position order.
pub open spec fn dropped_columns_s(f: Flavour, pt: Table, nt: Table) -> Seq<usize> {
    indices_where_upto(
        |i: int| col_match_in_next(f, pt.columns@[i], nt.columns@) == -1,
        pt.columns@.len() as int,
    )
}

/// The matched index pairs, ordered by previous index position.
pub open spec fn index_pairs_s(pt: Table, nt: Table) -> Seq<(usize, usize)> {
    pairs_where_upto(
        |i: int| idx_match_in_next(pt.indexes@[i], nt.indexes@) >= 0,
        |i: int| idx_match_in_next(pt.indexes@[i], nt.indexes@),
        pt.indexes@.len() as int,
    )
}

/// The next-only indexes, in next snapshot position order.
pub open spec fn created_indexes_s(pt: Table, nt: Table) -> Seq<usize> {
    indices_where_upto(
        |j: int| idx_match_in_prev(pt.indexes@, nt.indexes@[j]) == -1,
        nt.indexes@.len() as int,
    )
}

/// The previous-only indexes, in previous snapshot position order.
pub open spec fn dropped_indexes_s(pt: Table, nt: Table) -> Seq<usize> {
    indices_where_upto(
        |i: int| idx_match_in_next(pt.indexes@[i], nt.indexes@) == -1,
        pt.indexes@.len() as int,
    )
}

/// The next-only foreign keys, in next snapshot position order.
pub open spec fn created_fks_s(f: Flavour, pt: Table, nt: Table) -> Seq<usize> {
    indices_where_upto(
        |j: int| fk_match_in_prev(f, pt, nt, nt.foreign_keys@[j]) == -1,
        nt.foreign_keys@.len() as int,
    )
}

/// The previous-only foreign keys, in previous snapshot position order.
pub open spec fn dropped_fks_s(f: Flavour, pt: Table, nt: Table) -> Seq<usize> {
    indices_where_upto(
        |i: int| fk_match_in_next(f, pt, pt.foreign_keys@[i], nt) == -1,
        pt.foreign_keys@.len() as int,
    )
}

/// Compute the matched column pairs of a table pair.
pub fn column_pairs(f: &Flavour, pt: &Table, nt: &Table) -> (r: Vec<(usize, usize)>)
    ensures
        r@ == column_pairs_s(*f, *pt, *nt),
{
    let ghost q = |i: int| col_match_in_next(*f, pt.columns@[i], nt.columns@) >= 0;
    let ghost w = |i: int| col_match_in_next(*f, pt.columns@[i], nt.columns@);
    let mut out: Vec<(usize, usize)> = Vec::new();
    let mut i: usize = 0;
    while i < pt.columns.len()
        invariant
            i <= pt.columns@.len(),
            q == (|i: int| col_match_in_next(*f, pt.columns@[i], nt.columns@) >= 0),
            w == (|i: int| col_match_in_next(*f, pt.columns@[i], nt.columns@)),
            out@ == pairs_where_upto(q, w, i as int),
        decreases pt.columns@.len() - i,
    {
        match find_col_match_in_next(f, &pt.columns[i], &nt.columns) {
            Option::Some(j) => {
                out.push((i, j));
                proof {
                    assert(q(i as int));
                    assert(w(i as int) == j as int);
                }
            },
            Option::None => {
                proof {
                    assert(!q(i as int));
                }
            },
        }
        i = i + 1;
    }
    out
}

/// Compute the added columns of a table pair.
pub fn added_columns(f: &Flavour, pt: &Table, nt: &Table) -> (r: Vec<usize>)
    ensures
        r@ == added_columns_s(*f, *pt, *nt),
{
    let ghost q = |j: int| col_match_in_prev(*f, pt.columns@, nt.columns@[j]) == -1;
    let mut out: Vec<usize> = Vec::new();
    let mut j: usize = 0;
    while j < nt.columns.len()
        invariant
            j <= nt.columns@.len(),
            q == (|j: int| col_match_in_prev(*f, pt.columns@, nt.columns@[j]) == -1),
            out@ == indices_where_upto(q, j as int),
        decreases nt.columns@.len() - j,
    {
        match find_col_match_in_prev(f, &pt.columns, &nt.columns[j]) {
            Option::Some(_) => {
                proof {
                    assert(!q(j as int));
                }
            },
            Option::None => {
                out.push(j);
                proof {
                    assert(q(j as int));
                }
            },
        }
        j = j + 1;
    }
    out
}

/// Compute the dropped columns of a table pair.
pub fn dropped_columns(f: &Flavour, pt: &Table, nt: &Table) -> (r: Vec<usize>)
    ensures
        r@ == dropped_columns_s(*f, *pt, *nt),
{
    let ghost q = |i: int| col_match_in_next(*f, pt.columns@[i], nt.columns@) == -1;
    let mut out: Vec<usize> = Vec::new();
    let mut i: usize = 0;
    while i < pt.columns.len()
        invariant
            i <= pt.columns@.len(),
            q == (|i: int| col_match_in_next(*f, pt.columns@[i], nt.columns@) == -1),
            out@ == indices_where_upto(q, i as int),
        decreases pt.columns@.len() - i,
    {
        match find_col_match_in_next(f, &pt.columns[i], &nt.columns) {
            Option::Some(_) => {
                proof {
                    assert(!q(i as int));
                }
            },
            Option::None => {
                out.push(i);
                proof {
                    assert(q(i as int));
                }
            },
        }
        i = i + 1;
    }
    out
}

/// Compute the matched index pairs of a table pair.
pub fn index_pairs(pt: &Table, nt: &Table) -> (r: Vec<(usize, usize)>)
    ensures
        r@ == index_pairs_s(*pt, *nt),
{
    let ghost q = |i: int| idx_match_in_next(pt.indexes@[i], nt.indexes@) >= 0;
    let ghost w = |i: int| idx_match_in_next(pt.indexes@[i], nt.indexes@);
    let mut out: Vec<(usize, usize)> = Vec::new();
    let mut i: usize = 0;
    while i < pt.indexes.len()
        invariant
            i <= pt.indexes@.len(),
            q == (|i: int| idx_match_in_next(pt.indexes@[i], nt.indexes@) >= 0),
            w == (|i: int| idx_match_in_next(pt.indexes@[i], nt.indexes@)),
            out@ == pairs_where_upto(q, w, i as int),
        decreases pt.indexes@.len() - i,
    {
        match find_idx_match_in_next(&pt.indexes[i], &nt.indexes) {
            Option::Some(j) => {
                out.push((i, j));
                proof {
                    assert(q(i as int));
                    assert(w(i as int) == j as int);
                }
            },
            Option::None => {
                proof {
                    assert(!q(i as int));
                }
            },
        }
        i = i + 1;
    }
    out
}

/// Compute the created indexes of a table pair.
pub fn created_indexes(pt: &Table, nt: &Table) -> (r: Vec<usize>)
    ensures
        r@ == created_indexes_s(*pt, *nt),
{
    let ghost q = |j: int| idx_match_in_prev(pt.indexes@, nt.indexes@[j]) == -1;
    let mut out: Vec<usize> = Vec::new();
    let mut j: usize = 0;
    while j < nt.indexes.len()
        invariant
            j <= nt.indexes@.len(),
            q == (|j: int| idx_match_in_prev(pt.indexes@, nt.indexes@[j]) == -1),
            out@ == indices_where_upto(q, j as int),
        decreases nt.indexes@.len() - j,
    {
        match find_idx_match_in_prev(&pt.indexes, &nt.indexes[j]) {
            Option::Some(_) => {
                proof {
                    assert(!q(j as int));
                }
            },
            Option::None => {
                out.push(j);
                proof {
                    assert(q(j as int));
                }
            },
        }
        j = j + 1;
    }
    out
}

/// Compute the dropped indexes of a table pair.
pub fn dropped_indexes(pt: &Table, nt: &Table) -> (r: Vec<usize>)
    ensures
        r@ == dropped_indexes_s(*pt, *nt),
{
    let ghost q = |i: int| idx_match_in_next(pt.indexes@[i], nt.indexes@) == -1;
    let mut out: Vec<usize> = Vec::new();
    let mut i: usize = 0;
    while i < pt.indexes.len()
        invariant
            i <= pt.indexes@.len(),
            q == (|i: int| idx_match_in_next(pt.indexes@[i], nt.indexes@) == -1),
            out@ == indices_where_upto(q, i as int),
        decreases pt.indexes@.len() - i,
    {
        match find_idx_match_in_next(&pt.indexes[i], &nt.indexes) {
            Option::Some(_) => {
                proof {
                    assert(!q(i as int));
                }
            },
            Option::None => {
                out.push(i);
                proof {
                    assert(q(i as int));
                }
            },
        }
        i = i + 1;
    }
    out
}

/// Compute the created foreign keys of a table pair.
pub fn created_foreign_keys(f: &Flavour, pt: &Table, nt: &Table) -> (r: Vec<usize>)
    ensures
        r@ == created_fks_s(*f, *pt, *nt),
{
    let ghost q = |j: int| fk_match_in_prev(*f, *pt, *nt, nt.foreign_keys@[j]) == -1;
    let mut out: Vec<usize> = Vec::new();
    let mut j: usize = 0;
    while j < nt.foreign_keys.len()
        invariant
            j <= nt.foreign_keys@.len(),
            q == (|j: int| fk_match_in_prev(*f, *pt, *nt, nt.foreign_keys@[j]) == -1),
            out@ == indices_where_upto(q, j as int),
        decreases nt.foreign_keys@.len() - j,
    {
        match find_fk_match_in_prev(f, pt, nt, &nt.foreign_keys[j]) {
            Option::Some(_) => {
                proof {
                    assert(!q(j as int));
                }
            },
            Option::None => {
                out.push(j);
                proof {
                    assert(q(j as int));
                }
            },
        }
        j = j + 1;
    }
    out
}

/// Compute the dropped foreign keys of a table pair.
pub fn dropped_foreign_keys(f: &Flavour, pt: &Table, nt: &Table) -> (r: Vec<usize>)
    ensures
        r@ == dropped_fks_s(*f, *pt, *nt),
{
    let ghost q = |i: int| fk_match_in_next(*f, *pt, pt.foreign_keys@[i], *nt) == -1;
    let mut out: Vec<usize> = Vec::new();
    let mut i: usize = 0;
    while i < pt.foreign_keys.len()
        invariant
            i <= pt.foreign_keys@.len(),
            q == (|i: int| fk_match_in_next(*f, *pt, pt.foreign_keys@[i], *nt) == -1),
            out@ == indices_where_upto(q, i as int),
        decreases pt.foreign_keys@.len() - i,
    {
        match find_fk_match_in_next(f, pt, &pt.foreign_keys[i], nt) {
            Option::Some(_) => {
                proof {
                    assert(!q(i as int));
                }
            },
            Option::None => {
                out.push(i);
                proof {
                    assert(q(i as int));
                }
            },
        }
        i = i + 1;
    }
    out
}

// --- Range and matching facts about the per-pair lists --------------------------

/// Every column pair lies in range, the paired columns match, and the partner
/// is the first match.
pub proof fn lemma_column_pairs_props(f: Flavour, pt: Table, nt: Table)
    ensures
        forall|m: int|
            #![trigger column_pairs_s(f, pt, nt)[m]]
            0 <= m < column_pairs_s(f, pt, nt).len() ==> {
                let p = column_pairs_s(f, pt, nt)[m];
                &&& p.0 < pt.columns@.len()
                &&& p.1 < nt.columns@.len()
                &&& columns_match(f, pt.columns@[p.0 as int], nt.columns@[p.1 as int])
                &&& p.1 as int == col_match_in_next(f, pt.columns@[p.0 as int], nt.columns@)
            },
{
    crate::matching::lemma_vec_len_bound(&pt.columns);
    crate::matching::lemma_vec_len_bound(&nt.columns);
    let q = |i: int| col_match_in_next(f, pt.columns@[i], nt.columns@) >= 0;
    let w = |i: int| col_match_in_next(f, pt.columns@[i], nt.columns@);
    assert forall|k: int| 0 <= k < pt.columns@.len() && #[trigger] q(k) implies 0 <= w(k)
        <= usize::MAX by {
        lemma_first_where_bounds(
            nt.columns@,
            |x: Column| columns_match(f, pt.columns@[k], x),
            0,
        );
    }
    crate::matching::lemma_pairs_where_upto_props(q, w, pt.columns@.len() as int);
    assert forall|m: int|
        0 <= m < column_pairs_s(f, pt, nt).len() implies {
        let p = #[trigger] column_pairs_s(f, pt, nt)[m];
        &&& p.0 < pt.columns@.len()
        &&& p.1 < nt.columns@.len()
        &&& columns_match(f, pt.columns@[p.0 as int], nt.columns@[p.1 as int])
        &&& p.1 as int == col_match_in_next(f, pt.columns@[p.0 as int], nt.columns@)
    } by {
        let p = column_pairs_s(f, pt, nt)[m];
        assert(q(p.0 as int));
        assert(p.1 as int == w(p.0 as int));
        lemma_first_where_bounds(
            nt.columns@,
            |x: Column| columns_match(f, pt.columns@[p.0 as int], x),
            0,
        );
    }
}

/// Every index pair lies in range, the paired indexes match, and the partner
/// is the first match.
pub proof fn lemma_index_pairs_props(pt: Table, nt: Table)
    ensures
        forall|m: int|
            #![trigger index_pairs_s(pt, nt)[m]]
            0 <= m < index_pairs_s(pt, nt).len() ==> {
                let p = index_pairs_s(pt, nt)[m];
                &&& p.0 < pt.indexes@.len()
                &&& p.1 < nt.indexes@.len()
                &&& indexes_match(pt.indexes@[p.0 as int], nt.indexes@[p.1 as int])
            },
{
    crate::matching::lemma_vec_len_bound(&pt.indexes);
    crate::matching::lemma_vec_len_bound(&nt.indexes);
    let q = |i: int| idx_match_in_next(pt.indexes@[i], nt.indexes@) >= 0;
    let w = |i: int| idx_match_in_next(pt.indexes@[i], nt.indexes@);
    assert forall|k: int| 0 <= k < pt.indexes@.len() && #[trigger] q(k) implies 0 <= w(k)
        <= usize::MAX by {
        lemma_first_where_bounds(nt.indexes@, |x: Index| indexes_match(pt.indexes@[k], x), 0);
    }
    crate::matching::lemma_pairs_where_upto_props(q, w, pt.indexes@.len() as int);
    assert forall|m: int|
        0 <= m < index_pairs_s(pt, nt).len() implies {
        let p = #[trigger] index_pairs_s(pt, nt)[m];
        &&& p.0 < pt.indexes@.len()
        &&& p.1 < nt.indexes@.len()
        &&& indexes_match(pt.indexes@[p.0 as int], nt.indexes@[p.1 as int])
    } by {
        let p = index_pairs_s(pt, nt)[m];
        assert(q(p.0 as int));
        assert(p.1 as int == w(p.0 as int));
        lemma_first_where_bounds(
            nt.indexes@,
            |x: Index| indexes_match(pt.indexes@[p.0 as int], x),
            0,
        );
    }
}

/// Every added column index lies in the next table.
pub proof fn lemma_added_columns_in_range(f: Flavour, pt: Table, nt: Table)
    ensures
        forall|m: int|
            #![trigger added_columns_s(f, pt, nt)[m]]
            0 <= m < added_columns_s(f, pt, nt).len() ==> added_columns_s(f, pt, nt)[m]
                < nt.columns@.len(),
{
    crate::matching::lemma_vec_len_bound(&nt.columns);
    crate::matching::lemma_indices_where_upto_props(
        |j: int| col_match_in_prev(f, pt.columns@, nt.columns@[j]) == -1,
        nt.columns@.len() as int,
    );
}

/// Every dropped column index lies in the previous table.
pub proof fn lemma_dropped_columns_in_range(f: Flavour, pt: Table, nt: Table)
    ensures
        forall|m: int|
            #![trigger dropped_columns_s(f, pt, nt)[m]]
            0 <= m < dropped_columns_s(f, pt, nt).len() ==> dropped_columns_s(f, pt, nt)[m]
                < pt.columns@.len(),
{
    crate::matching::lemma_vec_len_bound(&pt.columns);
    crate::matching::lemma_indices_where_upto_props(
        |i: int| col_match_in_next(f, pt.columns@[i], nt.columns@) == -1,
        pt.columns@.len() as int,
    );
}

/// Every created index position lies in the next table.
pub proof fn lemma_created_indexes_in_range(pt: Table, nt: Table)
    ensures
        forall|m: int|
            #![trigger created_indexes_s(pt, nt)[m]]
            0 <= m < created_indexes_s(pt, nt).len() ==> created_indexes_s(pt, nt)[m]
                < nt.indexes@.len(),
{
    crate::matching::lemma_vec_len_bound(&nt.indexes);
    crate::matching::lemma_indices_where_upto_props(
        |j: int| idx_match_in_prev(pt.indexes@, nt.indexes@[j]) == -1,
        nt.indexes@.len() as int,
    );
}

/// Every dropped index position lies in the previous table.
pub proof fn lemma_dropped_indexes_in_range(pt: Table, nt: Table)
    ensures
        forall|m: int|
            #![trigger dropped_indexes_s(pt, nt)[m]]
            0 <= m < dropped_indexes_s(pt, nt).len() ==> dropped_indexes_s(pt, nt)[m]
                < pt.indexes@.len(),
{
    crate::matching::lemma_vec_len_bound(&pt.indexes);
    crate::matching::lemma_indices_where_upto_props(
        |i: int| idx_match_in_next(pt.indexes@[i], nt.indexes@) == -1,
        pt.indexes@.len() as int,
    );
}

/// Every created foreign key position lies in the next table.
pub proof fn lemma_created_fks_in_range(f: Flavour, pt: Table, nt: Table)
    ensures
        forall|m: int|
            #![trigger created_fks_s(f, pt, nt)[m]]
            0 <= m < created_fks_s(f, pt, nt).len() ==> created_fks_s(f, pt, nt)[m]
                < nt.foreign_keys@.len(),
{
    crate::matching::lemma_vec_len_bound(&nt.foreign_keys);
    crate::matching::lemma_indices_where_upto_props(
        |j: int| fk_match_in_prev(f, pt, nt, nt.foreign_keys@[j]) == -1,
        nt.foreign_keys@.len() as int,
    );
}

/// Every dropped foreign key position lies in the previous table.
pub proof fn lemma_dropped_fks_in_range(f: Flavour, pt: Table, nt: Table)
    ensures
        forall|m: int|
            #![trigger dropped_fks_s(f, pt, nt)[m]]
            0 <= m < dropped_fks_s(f, pt, nt).len() ==> dropped_fks_s(f, pt, nt)[m]
                < pt.foreign_keys@.len(),
{
    crate::matching::lemma_vec_len_bound(&pt.foreign_keys);
    crate::matching::lemma_indices_where_upto_props(
        |i: int| fk_match_in_next(f, pt, pt.foreign_keys@[i], nt) == -1,
        pt.foreign_keys@.len() as int,
    );
}

// --- Primary key comparison -----------------------------------------------------

/// The primary key of a table as an optional list of column positions.
pub open spec fn pk_view(t: Table) -> Option<Seq<usize>> {
    match t.primary_key {
        Option::Some(v) => Option::Some(v@),
        Option::None => Option::None,
    }
}

/// The next snapshot carries a primary key the previous one did not have, or
/// the ordered column-position lists differ.
pub open spec fn pk_created(pt: Table, nt: Table) -> bool {
    match (pk_view(pt), pk_view(nt)) {
        (_, Option::None) => false,
        (Option::None, Option::Some(_)) => true,
        (Option::Some(p), Option::Some(n)) => p != n,
    }
}

/// The previous snapshot carried a primary key the next one does not have, or
/// the ordered column-position lists differ.
pub open spec fn pk_dropped(pt: Table, nt: Table) -> bool {
    match (pk_view(pt), pk_view(nt)) {
        (Option::None, _) => false,
        (Option::Some(_), Option::None) => true,
        (Option::Some(p), Option::Some(n)) => p != n,
    }
}

pub fn primary_key_created(pt: &Table, nt: &Table) -> (r: bool)
    ensures
        r == pk_created(*pt, *nt),
{
    match (&pt.primary_key, &nt.primary_key) {
        (_, Option::None) => false,
        (Option::None, Option::Some(_)) => true,
        (Option::Some(p), Option::Some(n)) => !usize_list_eq(p, n),
    }
}

pub fn primary_key_dropped(pt: &Table, nt: &Table) -> (r: bool)
    ensures
        r == pk_dropped(*pt, *nt),
{
    match (&pt.primary_key, &nt.primary_key) {
        (Option::None, _) => false,
        (Option::Some(_), Option::None) => true,
        (Option::Some(p), Option::Some(n)) => !usize_list_eq(p, n),
    }
}

// --- Indexes covering foreign keys ----------------------------------------------

/// The first foreign key of `t` whose constrained columns are exactly the
/// columns of `idx`, or -1.
pub open spec fn fk_covering_index(t: Table, idx: Index) -> int {
    first_where(t.foreign_keys@, |fk: ForeignKey| str_seq(fk.columns@) == str_seq(idx.columns@), 0)
}

/// Whether an index covers one of the table's foreign keys. On engines where
/// foreign keys automatically create their backing index, such indexes are
/// dropped with the foreign key, never on their own.
pub open spec fn index_covers_fk_s(t: Table, idx: Index) -> bool {
    fk_covering_index(t, idx) >= 0
}

pub fn index_covers_fk(t: &Table, idx: &Index) -> (r: bool)
    ensures
        r == index_covers_fk_s(*t, *idx),
{
    let ghost p = |fk: ForeignKey| str_seq(fk.columns@) == str_seq(idx.columns@);
    let mut i: usize = 0;
    while i < t.foreign_keys.len()
        invariant
            i <= t.foreign_keys@.len(),
            p == (|fk: ForeignKey| str_seq(fk.columns@) == str_seq(idx.columns@)),
            forall|k: int| 0 <= k < i ==> !p(t.foreign_keys@[k]),
        decreases t.foreign_keys@.len() - i,
    {
        if string_list_eq(&t.foreign_keys[i].columns, &idx.columns) {
            proof {
                assert(p(t.foreign_keys@[i as int]));
                lemma_first_where_from(t.foreign_keys@, p, 0, i as int);
            }
            return true;
        }
        proof {
            assert(!p(t.foreign_keys@[i as int]));
        }
        i = i + 1;
    }
    proof {
        lemma_first_where_from(t.foreign_keys@, p, 0, t.foreign_keys@.len() as int);
    }
    false
}

} // verus!

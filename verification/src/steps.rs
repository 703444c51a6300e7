//! The migration step vocabulary: tagged values carrying positional indices
//! into the previous or next snapshot, plus a minimal change payload. Names
//! appear only where a constraint name must be referenced for dropping.

use vstd::prelude::*;
use crate::flavour::ColumnTypeChange;
use crate::pair::Pair;

verus! {

/// The changes computed for one matched column pair.
#[derive(Clone, Copy, Debug, PartialEq, Eq, Structural)]
pub struct ColumnChanges {
    pub renamed: bool,
    pub arity_changed: bool,
    pub default_changed: bool,
    pub type_changed: bool,
}

impl ColumnChanges {
    /// Whether any underlying field of the column pair differs.
    pub open spec fn differs_in_something(self) -> bool {
        self.renamed || self.arity_changed || self.default_changed || self.type_changed
    }
}

#[derive(Clone, Copy, Debug, PartialEq, Eq)]
pub struct CreateTable {
    pub table_index: usize,
}

#[derive(Clone, Copy, Debug, PartialEq, Eq)]
pub struct DropTable {
    pub table_index: usize,
}

#[derive(Clone, Debug, PartialEq, Eq)]
pub struct DropForeignKey {
    pub table_index: usize,
    pub foreign_key_index: usize,
    pub table: String,
    pub constraint_name: String,
}

#[derive(Clone, Copy, Debug, PartialEq, Eq)]
pub struct AddForeignKey {
    pub table_index: usize,
    pub foreign_key_index: usize,
}

#[derive(Clone, Copy, Debug, PartialEq, Eq)]
pub struct CreateIndex {
    pub table_index: usize,
    pub index_index: usize,
    pub caused_by_create_table: bool,
}

#[derive(Clone, Copy, Debug, PartialEq, Eq)]
pub struct DropIndex {
    pub table_index: usize,
    pub index_index: usize,
}

#[derive(Clone, Copy, Debug, PartialEq, Eq)]
pub struct AddColumn {
    pub column_index: usize,
}

#[derive(Clone, Copy, Debug, PartialEq, Eq)]
pub struct DropColumn {
    pub index: usize,
}

#[derive(Clone, Copy, Debug, PartialEq, Eq)]
pub struct AlterColumn {
    pub column_index: Pair<usize>,
    pub changes: ColumnChanges,
    pub type_change: Option<ColumnTypeChange>,
}

/// One change inside an `AlterTable` step, in the order the renderer must
/// apply them.
#[derive(Clone, Debug, PartialEq, Eq)]
pub enum TableChange {
    AddColumn(AddColumn),
    DropColumn(DropColumn),
    AlterColumn(AlterColumn),
    DropAndRecreateColumn { column_index: Pair<usize>, changes: ColumnChanges },
    DropPrimaryKey,
    AddPrimaryKey { columns: Vec<usize> },
}

#[derive(Clone, Debug, PartialEq, Eq)]
pub struct AlterTable {
    pub table_index: Pair<usize>,
    pub changes: Vec<TableChange>,
}

/// A full table rebuild, used by engines that cannot alter columns in place.
/// Carries everything the renderer needs to regenerate the table and copy the
/// surviving data across.
#[derive(Clone, Debug, PartialEq, Eq)]
pub struct RedefineTable {
    pub table_index: Pair<usize>,
    pub dropped_primary_key: bool,
    pub added_columns: Vec<usize>,
    pub dropped_columns: Vec<usize>,
    pub column_pairs: Vec<(Pair<usize>, ColumnChanges, Option<ColumnTypeChange>)>,
}

/// An enum alteration: the variants added and removed, plus every column
/// whose previous default referenced the altered enum, paired with the
/// matching column of the next snapshot when one still applies. The renderer
/// uses the usage list to strip and restore defaults around the alteration.
#[derive(Clone, Debug, PartialEq, Eq)]
pub struct AlterEnum {
    pub index: Pair<usize>,
    pub created_variants: Vec<String>,
    pub dropped_variants: Vec<String>,
    pub previous_usages_as_default: Vec<((usize, usize), Option<(usize, usize)>)>,
}

/// One primitive migration step. The renderer must process steps strictly in
/// the order they are emitted.
#[derive(Clone, Debug, PartialEq, Eq)]
pub enum SqlMigrationStep {
    CreateEnum { enum_index: usize },
    AlterEnum(AlterEnum),
    DropForeignKey(DropForeignKey),
    DropIndex(DropIndex),
    AlterTable(AlterTable),
    DropTable(DropTable),
    DropEnum { enum_index: usize },
    CreateTable(CreateTable),
    RedefineTables(Vec<RedefineTable>),
    CreateIndex(CreateIndex),
    AddForeignKey(AddForeignKey),
    AlterIndex { table: Pair<usize>, index: Pair<usize> },
    RedefineIndex { table: Pair<usize>, index: Pair<usize> },
}

// --- Spec-level views of the step vocabulary ----------------------------------

pub ghost struct DropForeignKeyV {
    pub table_index: usize,
    pub foreign_key_index: usize,
    pub table: Seq<char>,
    pub constraint_name: Seq<char>,
}

pub ghost enum TableChangeV {
    AddColumn { column_index: usize },
    DropColumn { index: usize },
    AlterColumn {
        column_index: Pair<usize>,
        changes: ColumnChanges,
        type_change: Option<ColumnTypeChange>,
    },
    DropAndRecreateColumn { column_index: Pair<usize>, changes: ColumnChanges },
    DropPrimaryKey,
    AddPrimaryKey { columns: Seq<usize> },
}

pub ghost struct AlterTableV {
    pub table_index: Pair<usize>,
    pub changes: Seq<TableChangeV>,
}

pub ghost struct RedefineTableV {
    pub table_index: Pair<usize>,
    pub dropped_primary_key: bool,
    pub added_columns: Seq<usize>,
    pub dropped_columns: Seq<usize>,
    pub column_pairs: Seq<(Pair<usize>, ColumnChanges, Option<ColumnTypeChange>)>,
}

pub ghost struct AlterEnumV {
    pub index: Pair<usize>,
    pub created_variants: Seq<Seq<char>>,
    pub dropped_variants: Seq<Seq<char>>,
    pub previous_usages_as_default: Seq<((usize, usize), Option<(usize, usize)>)>,
}

pub ghost enum StepV {
    CreateEnum { enum_index: usize },
    AlterEnum(AlterEnumV),
    DropForeignKey(DropForeignKeyV),
    DropIndex(DropIndex),
    AlterTable(AlterTableV),
    DropTable(DropTable),
    DropEnum { enum_index: usize },
    CreateTable(CreateTable),
    RedefineTables(Seq<RedefineTableV>),
    CreateIndex(CreateIndex),
    AddForeignKey(AddForeignKey),
    AlterIndex { table: Pair<usize>, index: Pair<usize> },
    RedefineIndex { table: Pair<usize>, index: Pair<usize> },
}

impl View for DropForeignKey {
    type V = DropForeignKeyV;

    open spec fn view(&self) -> DropForeignKeyV {
        DropForeignKeyV {
            table_index: self.table_index,
            foreign_key_index: self.foreign_key_index,
            table: self.table@,
            constraint_name: self.constraint_name@,
        }
    }
}

impl View for TableChange {
    type V = TableChangeV;

    open spec fn view(&self) -> TableChangeV {
        match *self {
            TableChange::AddColumn(c) => TableChangeV::AddColumn { column_index: c.column_index },
            TableChange::DropColumn(c) => TableChangeV::DropColumn { index: c.index },
            TableChange::AlterColumn(c) => TableChangeV::AlterColumn {
                column_index: c.column_index,
                changes: c.changes,
                type_change: c.type_change,
            },
            TableChange::DropAndRecreateColumn { column_index, changes } =>
                TableChangeV::DropAndRecreateColumn { column_index, changes },
            TableChange::DropPrimaryKey => TableChangeV::DropPrimaryKey,
            TableChange::AddPrimaryKey { columns } => TableChangeV::AddPrimaryKey {
                columns: columns@,
            },
        }
    }
}

impl View for AlterTable {
    type V = AlterTableV;

    open spec fn view(&self) -> AlterTableV {
        AlterTableV {
            table_index: self.table_index,
            changes: self.changes@.map_values(|c: TableChange| c@),
        }
    }
}

impl View for RedefineTable {
    type V = RedefineTableV;

    open spec fn view(&self) -> RedefineTableV {
        RedefineTableV {
            table_index: self.table_index,
            dropped_primary_key: self.dropped_primary_key,
            added_columns: self.added_columns@,
            dropped_columns: self.dropped_columns@,
            column_pairs: self.column_pairs@,
        }
    }
}

impl View for AlterEnum {
    type V = AlterEnumV;

    open spec fn view(&self) -> AlterEnumV {
        AlterEnumV {
            index: self.index,
            created_variants: crate::schema::str_seq(self.created_variants@),
            dropped_variants: crate::schema::str_seq(self.dropped_variants@),
            previous_usages_as_default: self.previous_usages_as_default@,
        }
    }
}

impl View for SqlMigrationStep {
    type V = StepV;

    open spec fn view(&self) -> StepV {
        match *self {
            SqlMigrationStep::CreateEnum { enum_index } => StepV::CreateEnum { enum_index },
            SqlMigrationStep::AlterEnum(s) => StepV::AlterEnum(s@),
            SqlMigrationStep::DropForeignKey(s) => StepV::DropForeignKey(s@),
            SqlMigrationStep::DropIndex(s) => StepV::DropIndex(s),
            SqlMigrationStep::AlterTable(s) => StepV::AlterTable(s@),
            SqlMigrationStep::DropTable(s) => StepV::DropTable(s),
            SqlMigrationStep::DropEnum { enum_index } => StepV::DropEnum { enum_index },
            SqlMigrationStep::CreateTable(s) => StepV::CreateTable(s),
            SqlMigrationStep::RedefineTables(v) => StepV::RedefineTables(
                v@.map_values(|t: RedefineTable| t@),
            ),
            SqlMigrationStep::CreateIndex(s) => StepV::CreateIndex(s),
            SqlMigrationStep::AddForeignKey(s) => StepV::AddForeignKey(s),
            SqlMigrationStep::AlterIndex { table, index } => StepV::AlterIndex { table, index },
            SqlMigrationStep::RedefineIndex { table, index } => StepV::RedefineIndex {
                table,
                index,
            },
        }
    }
}

/// The spec-level view of a sequence of steps.
pub open spec fn steps_view(s: Seq<SqlMigrationStep>) -> Seq<StepV> {
    s.map_values(|x: SqlMigrationStep| x@)
}

/// Copy a usage list.
pub fn clone_usage_vec(v: &Vec<((usize, usize), Option<(usize, usize)>)>) -> (r: Vec<
    ((usize, usize), Option<(usize, usize)>),
>)
    ensures
        r@ == v@,
{
    let mut out: Vec<((usize, usize), Option<(usize, usize)>)> = Vec::new();
    let mut i: usize = 0;
    while i < v.len()
        invariant
            i <= v@.len(),
            out@ == v@.take(i as int),
        decreases v@.len() - i,
    {
        out.push(v[i]);
        proof {
            assert(v@.take(i as int + 1) =~= v@.take(i as int).push(v@[i as int]));
        }
        i = i + 1;
    }
    proof {
        assert(v@.take(v@.len() as int) =~= v@);
    }
    out
}

/// Copy one table change, preserving its view.
pub fn clone_table_change(x: &TableChange) -> (r: TableChange)
    ensures
        r@ == x@,
{
    match x {
        TableChange::AddColumn(c) => TableChange::AddColumn(*c),
        TableChange::DropColumn(c) => TableChange::DropColumn(*c),
        TableChange::AlterColumn(c) => TableChange::AlterColumn(*c),
        TableChange::DropAndRecreateColumn { column_index, changes } =>
            TableChange::DropAndRecreateColumn { column_index: *column_index, changes: *changes },
        TableChange::DropPrimaryKey => TableChange::DropPrimaryKey,
        TableChange::AddPrimaryKey { columns } => TableChange::AddPrimaryKey {
            columns: crate::schema::clone_usize_vec(columns),
        },
    }
}

/// Copy a change list, preserving the views of its elements.
pub fn clone_table_changes(v: &Vec<TableChange>) -> (r: Vec<TableChange>)
    ensures
        r@.map_values(|x: TableChange| x@) == v@.map_values(|x: TableChange| x@),
{
    let ghost view = |x: TableChange| x@;
    let mut out: Vec<TableChange> = Vec::new();
    let mut i: usize = 0;
    while i < v.len()
        invariant
            i <= v@.len(),
            view == (|x: TableChange| x@),
            out@.map_values(view) == v@.take(i as int).map_values(view),
        decreases v@.len() - i,
    {
        let c = clone_table_change(&v[i]);
        let ghost before_out = out@;
        out.push(c);
        proof {
            crate::matching::lemma_map_values_push(before_out, view, c);
            crate::matching::lemma_map_values_push(v@.take(i as int), view, v@[i as int]);
            assert(v@.take(i as int + 1) =~= v@.take(i as int).push(v@[i as int]));
        }
        i = i + 1;
    }
    proof {
        assert(v@.take(v@.len() as int) =~= v@);
    }
    out
}

} // verus!

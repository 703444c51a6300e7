use schema_differ::column::all_changes;
use schema_differ::differ::calculate_steps;
use schema_differ::flavour::{classify_cast, CastPolicy, ColumnTypeChange, Flavour};
use schema_differ::pair::Pair;
use schema_differ::schema::{
    Column, ColumnArity, ColumnType, ColumnTypeFamily, DbEnum, ForeignKey, ForeignKeyAction,
    Index, SqlSchema, Table,
};
use schema_differ::steps::SqlMigrationStep;

fn flavour() -> Flavour {
    Flavour {
        table_names_case_insensitive: false,
        column_names_case_insensitive: false,
        can_alter_index: true,
        has_native_enums: true,
        should_push_foreign_keys_from_created_tables: true,
        should_create_indexes_from_created_tables: true,
        should_skip_fk_indexes: false,
        should_drop_indexes_from_dropped_tables: false,
        should_recreate_the_primary_key_on_column_recreate: true,
        indexes_should_be_recreated_after_column_drop: false,
        uses_redefine_for_alter: false,
        cast_policy: CastPolicy::Strict,
    }
}

fn column(name: &str, family: ColumnTypeFamily) -> Column {
    Column {
        name: name.to_owned(),
        tpe: ColumnType { family, native: None, arity: ColumnArity::Required },
        default: None,
    }
}

fn rich_snapshot() -> SqlSchema {
    let mut user = Table {
        name: "User".to_owned(),
        columns: vec![
            column("id", ColumnTypeFamily::Int),
            column("email", ColumnTypeFamily::Text),
            column("mood", ColumnTypeFamily::Enum("Mood".to_owned())),
        ],
        indexes: vec![Index {
            name: Some("User_email_key".to_owned()),
            columns: vec!["email".to_owned()],
            unique: true,
        }],
        foreign_keys: vec![],
        primary_key: Some(vec![0]),
    };
    user.columns[2].default =
        Some(schema_differ::schema::ColumnDefault::Literal("happy".to_owned()));
    let post = Table {
        name: "Post".to_owned(),
        columns: vec![
            column("id", ColumnTypeFamily::Int),
            column("author_email", ColumnTypeFamily::Text),
        ],
        indexes: vec![],
        foreign_keys: vec![ForeignKey {
            constraint_name: Some("Post_author_fkey".to_owned()),
            columns: vec!["author_email".to_owned()],
            referenced_table: "User".to_owned(),
            referenced_columns: vec!["email".to_owned()],
            on_delete_action: ForeignKeyAction::Restrict,
        }],
        primary_key: Some(vec![0]),
    };
    let mood = DbEnum {
        name: "Mood".to_owned(),
        variants: vec!["happy".to_owned(), "grumpy".to_owned()],
    };
    SqlSchema { tables: vec![user, post], enums: vec![mood] }
}

#[test]
fn diffing_a_snapshot_against_itself_is_empty() {
    let a = rich_snapshot();
    let b = rich_snapshot();
    let steps = calculate_steps(Pair::new(&a, &b), &flavour());
    assert!(steps.is_empty(), "unexpected steps: {:?}", steps);
}

#[test]
fn created_tables_one_way_are_dropped_tables_the_other_way() {
    let a = SqlSchema {
        tables: vec![Table {
            name: "Keep".to_owned(),
            columns: vec![column("id", ColumnTypeFamily::Int)],
            indexes: vec![],
            foreign_keys: vec![],
            primary_key: Some(vec![0]),
        }],
        enums: vec![],
    };
    let b = SqlSchema {
        tables: vec![
            Table {
                name: "Keep".to_owned(),
                columns: vec![column("id", ColumnTypeFamily::Int)],
                indexes: vec![],
                foreign_keys: vec![],
                primary_key: Some(vec![0]),
            },
            Table {
                name: "Fresh".to_owned(),
                columns: vec![column("id", ColumnTypeFamily::Int)],
                indexes: vec![],
                foreign_keys: vec![],
                primary_key: Some(vec![0]),
            },
        ],
        enums: vec![],
    };
    let forward = calculate_steps(Pair::new(&a, &b), &flavour());
    let backward = calculate_steps(Pair::new(&b, &a), &flavour());
    let created: Vec<&str> = forward
        .iter()
        .filter_map(|s| match s {
            SqlMigrationStep::CreateTable(c) => Some(b.tables[c.table_index].name.as_str()),
            _ => None,
        })
        .collect();
    let dropped: Vec<&str> = backward
        .iter()
        .filter_map(|s| match s {
            SqlMigrationStep::DropTable(d) => Some(b.tables[d.table_index].name.as_str()),
            _ => None,
        })
        .collect();
    assert_eq!(created, vec!["Fresh"]);
    assert_eq!(created, dropped);
}

#[test]
fn cast_classification_is_constant_across_calls_and_columns() {
    let f = flavour();
    let first = classify_cast(&f, &ColumnTypeFamily::Uuid, &ColumnTypeFamily::Int);
    let second = classify_cast(&f, &ColumnTypeFamily::Uuid, &ColumnTypeFamily::Int);
    assert_eq!(first, second);
    assert_eq!(first, ColumnTypeChange::NotCastable);
    let previous_a = column("a", ColumnTypeFamily::Uuid);
    let next_a = column("a", ColumnTypeFamily::Int);
    let previous_b = column("b", ColumnTypeFamily::Uuid);
    let next_b = column("b", ColumnTypeFamily::Int);
    let (_, change_a) = all_changes(&f, &previous_a, &next_a);
    let (_, change_b) = all_changes(&f, &previous_b, &next_b);
    assert_eq!(change_a, change_b);
    assert_eq!(change_a, Some(ColumnTypeChange::NotCastable));
}

#[test]
fn widening_int_casts_are_safe_and_narrowing_risky() {
    let f = flavour();
    assert_eq!(
        classify_cast(&f, &ColumnTypeFamily::Int, &ColumnTypeFamily::BigInt),
        ColumnTypeChange::SafeCast
    );
    assert_eq!(
        classify_cast(&f, &ColumnTypeFamily::BigInt, &ColumnTypeFamily::Int),
        ColumnTypeChange::RiskyCast
    );
    assert_eq!(
        classify_cast(&f, &ColumnTypeFamily::Boolean, &ColumnTypeFamily::Text),
        ColumnTypeChange::SafeCast
    );
    assert_eq!(
        classify_cast(&f, &ColumnTypeFamily::Text, &ColumnTypeFamily::DateTime),
        ColumnTypeChange::RiskyCast
    );
}

#[test]
fn every_step_phase_is_nondecreasing_in_a_mixed_diff() {
    fn rank(s: &SqlMigrationStep) -> u32 {
        match s {
            SqlMigrationStep::CreateEnum { .. } => 1,
            SqlMigrationStep::AlterEnum(..) => 2,
            SqlMigrationStep::DropForeignKey(..) => 3,
            SqlMigrationStep::DropIndex(..) => 4,
            SqlMigrationStep::AlterTable(..) => 5,
            SqlMigrationStep::DropTable(..) => 6,
            SqlMigrationStep::DropEnum { .. } => 7,
            SqlMigrationStep::CreateTable(..) => 8,
            SqlMigrationStep::RedefineTables(..) => 9,
            SqlMigrationStep::CreateIndex(..) => 10,
            SqlMigrationStep::AddForeignKey(..) => 11,
            SqlMigrationStep::AlterIndex { .. } => 12,
            SqlMigrationStep::RedefineIndex { .. } => 13,
        }
    }
    let a = rich_snapshot();
    let mut b = rich_snapshot();
    b.tables[0].columns.push(column("age", ColumnTypeFamily::Int));
    b.tables.remove(1);
    b.tables.push(Table {
        name: "Comment".to_owned(),
        columns: vec![column("id", ColumnTypeFamily::Int)],
        indexes: vec![],
        foreign_keys: vec![],
        primary_key: Some(vec![0]),
    });
    b.enums[0].variants.push("weary".to_owned());
    b.enums.push(DbEnum { name: "Visibility".to_owned(), variants: vec!["all".to_owned()] });
    let steps = calculate_steps(Pair::new(&a, &b), &flavour());
    assert!(!steps.is_empty());
    for window in steps.windows(2) {
        assert!(rank(&window[0]) <= rank(&window[1]), "phases out of order: {:?}", steps);
    }
}

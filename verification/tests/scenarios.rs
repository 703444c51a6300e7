use schema_differ::differ::calculate_steps;
use schema_differ::flavour::{CastPolicy, ColumnTypeChange, Flavour};
use schema_differ::pair::Pair;
use schema_differ::schema::{
    Column, ColumnArity, ColumnType, ColumnTypeFamily, DbEnum, ForeignKey, ForeignKeyAction,
    Index, SqlSchema, Table,
};
use schema_differ::steps::{SqlMigrationStep, TableChange};

fn base_flavour() -> Flavour {
    Flavour {
        table_names_case_insensitive: false,
        column_names_case_insensitive: false,
        can_alter_index: true,
        has_native_enums: true,
        should_push_foreign_keys_from_created_tables: true,
        should_create_indexes_from_created_tables: true,
        should_skip_fk_indexes: false,
        should_drop_indexes_from_dropped_tables: false,
        should_recreate_the_primary_key_on_column_recreate: false,
        indexes_should_be_recreated_after_column_drop: false,
        uses_redefine_for_alter: false,
        cast_policy: CastPolicy::Strict,
    }
}

fn column(name: &str, family: ColumnTypeFamily, arity: ColumnArity) -> Column {
    Column {
        name: name.to_owned(),
        tpe: ColumnType { family, native: None, arity },
        default: None,
    }
}

fn table(name: &str, columns: Vec<Column>, primary_key: Option<Vec<usize>>) -> Table {
    Table {
        name: name.to_owned(),
        columns,
        indexes: vec![],
        foreign_keys: vec![],
        primary_key,
    }
}

fn schema(tables: Vec<Table>) -> SqlSchema {
    SqlSchema { tables, enums: vec![] }
}

#[test]
fn add_nullable_column_yields_single_alter_table() {
    let previous = schema(vec![table(
        "User",
        vec![column("id", ColumnTypeFamily::Int, ColumnArity::Required)],
        Some(vec![0]),
    )]);
    let next = schema(vec![table(
        "User",
        vec![
            column("id", ColumnTypeFamily::Int, ColumnArity::Required),
            column("nickname", ColumnTypeFamily::Text, ColumnArity::Nullable),
        ],
        Some(vec![0]),
    )]);
    let steps = calculate_steps(Pair::new(&previous, &next), &base_flavour());
    assert_eq!(steps.len(), 1);
    match &steps[0] {
        SqlMigrationStep::AlterTable(alter) => {
            assert_eq!(alter.table_index, Pair { previous: 0, next: 0 });
            assert_eq!(alter.changes.len(), 1);
            match &alter.changes[0] {
                TableChange::AddColumn(add) => assert_eq!(add.column_index, 1),
                other => panic!("expected an added column, got {:?}", other),
            }
        }
        other => panic!("expected a table alteration, got {:?}", other),
    }
}

#[test]
fn renamed_table_becomes_drop_and_create() {
    let previous = schema(vec![table(
        "Post",
        vec![
            column("id", ColumnTypeFamily::Int, ColumnArity::Required),
            column("body", ColumnTypeFamily::Text, ColumnArity::Required),
        ],
        Some(vec![0]),
    )]);
    let next = schema(vec![table(
        "Article",
        vec![
            column("id", ColumnTypeFamily::Int, ColumnArity::Required),
            column("body", ColumnTypeFamily::Text, ColumnArity::Required),
        ],
        Some(vec![0]),
    )]);
    let steps = calculate_steps(Pair::new(&previous, &next), &base_flavour());
    assert_eq!(steps.len(), 2);
    match &steps[0] {
        SqlMigrationStep::DropTable(drop) => assert_eq!(drop.table_index, 0),
        other => panic!("expected a table drop, got {:?}", other),
    }
    match &steps[1] {
        SqlMigrationStep::CreateTable(create) => assert_eq!(create.table_index, 0),
        other => panic!("expected a table creation, got {:?}", other),
    }
}

#[test]
fn foreign_key_added_after_backing_index() {
    let user_prev = table(
        "User",
        vec![
            column("id", ColumnTypeFamily::Int, ColumnArity::Required),
            column("email", ColumnTypeFamily::Text, ColumnArity::Required),
        ],
        Some(vec![0]),
    );
    let post_prev = table(
        "Post",
        vec![
            column("id", ColumnTypeFamily::Int, ColumnArity::Required),
            column("user_email", ColumnTypeFamily::Text, ColumnArity::Required),
        ],
        Some(vec![0]),
    );
    let mut user_next = user_prev.clone();
    user_next.indexes.push(Index {
        name: Some("User_email_idx".to_owned()),
        columns: vec!["email".to_owned()],
        unique: true,
    });
    let mut post_next = post_prev.clone();
    post_next.foreign_keys.push(ForeignKey {
        constraint_name: Some("Post_user_email_fkey".to_owned()),
        columns: vec!["user_email".to_owned()],
        referenced_table: "User".to_owned(),
        referenced_columns: vec!["email".to_owned()],
        on_delete_action: ForeignKeyAction::NoAction,
    });
    let previous = schema(vec![user_prev, post_prev]);
    let next = schema(vec![user_next, post_next]);
    let steps = calculate_steps(Pair::new(&previous, &next), &base_flavour());
    let create_index_at = steps
        .iter()
        .position(|s| matches!(s, SqlMigrationStep::CreateIndex(_)))
        .expect("an index creation step");
    let add_fk_at = steps
        .iter()
        .position(|s| matches!(s, SqlMigrationStep::AddForeignKey(_)))
        .expect("a foreign key addition step");
    assert!(create_index_at < add_fk_at);
    match &steps[create_index_at] {
        SqlMigrationStep::CreateIndex(ci) => {
            assert_eq!(ci.table_index, 0);
            assert_eq!(ci.index_index, 0);
            assert!(!ci.caused_by_create_table);
        }
        _ => unreachable!(),
    }
    match &steps[add_fk_at] {
        SqlMigrationStep::AddForeignKey(fk) => {
            assert_eq!(fk.table_index, 1);
            assert_eq!(fk.foreign_key_index, 0);
        }
        _ => unreachable!(),
    }
}

#[test]
fn destructive_type_change_recreates_primary_key() {
    let previous = schema(vec![table(
        "Order",
        vec![column("id", ColumnTypeFamily::Uuid, ColumnArity::Required)],
        Some(vec![0]),
    )]);
    let next = schema(vec![table(
        "Order",
        vec![column("id", ColumnTypeFamily::Int, ColumnArity::Required)],
        Some(vec![0]),
    )]);
    let mut flavour = base_flavour();
    flavour.should_recreate_the_primary_key_on_column_recreate = true;
    let steps = calculate_steps(Pair::new(&previous, &next), &flavour);
    assert_eq!(steps.len(), 1);
    match &steps[0] {
        SqlMigrationStep::AlterTable(alter) => {
            assert_eq!(alter.changes.len(), 3);
            assert!(matches!(alter.changes[0], TableChange::DropPrimaryKey));
            match &alter.changes[1] {
                TableChange::DropAndRecreateColumn { column_index, changes } => {
                    assert_eq!(*column_index, Pair { previous: 0, next: 0 });
                    assert!(changes.type_changed);
                }
                other => panic!("expected a column recreation, got {:?}", other),
            }
            match &alter.changes[2] {
                TableChange::AddPrimaryKey { columns } => assert_eq!(columns, &vec![0]),
                other => panic!("expected a primary key addition, got {:?}", other),
            }
        }
        other => panic!("expected a table alteration, got {:?}", other),
    }
}

#[test]
fn dropped_table_foreign_keys_dropped_before_the_table() {
    let parent = table(
        "Parent",
        vec![column("id", ColumnTypeFamily::Int, ColumnArity::Required)],
        Some(vec![0]),
    );
    let mut child = table(
        "Child",
        vec![
            column("id", ColumnTypeFamily::Int, ColumnArity::Required),
            column("parent_id", ColumnTypeFamily::Int, ColumnArity::Required),
        ],
        Some(vec![0]),
    );
    child.foreign_keys.push(ForeignKey {
        constraint_name: Some("Child_parent_id_fkey".to_owned()),
        columns: vec!["parent_id".to_owned()],
        referenced_table: "Parent".to_owned(),
        referenced_columns: vec!["id".to_owned()],
        on_delete_action: ForeignKeyAction::Cascade,
    });
    let previous = schema(vec![parent, child]);
    let next = schema(vec![]);
    let steps = calculate_steps(Pair::new(&previous, &next), &base_flavour());
    let drop_fk_at = steps
        .iter()
        .position(|s| matches!(s, SqlMigrationStep::DropForeignKey(_)))
        .expect("a foreign key drop step");
    let first_drop_table_at = steps
        .iter()
        .position(|s| matches!(s, SqlMigrationStep::DropTable(_)))
        .expect("a table drop step");
    assert!(drop_fk_at < first_drop_table_at);
    match &steps[drop_fk_at] {
        SqlMigrationStep::DropForeignKey(fk) => {
            assert_eq!(fk.table_index, 1);
            assert_eq!(fk.foreign_key_index, 0);
            assert_eq!(fk.table, "Child");
            assert_eq!(fk.constraint_name, "Child_parent_id_fkey");
        }
        _ => unreachable!(),
    }
    assert_eq!(
        steps
            .iter()
            .filter(|s| matches!(s, SqlMigrationStep::DropTable(_)))
            .count(),
        2
    );
}

#[test]
fn altered_enum_tracks_previous_default_usages() {
    let color_prev = DbEnum {
        name: "Color".to_owned(),
        variants: vec!["red".to_owned(), "green".to_owned()],
    };
    let color_next = DbEnum {
        name: "Color".to_owned(),
        variants: vec!["red".to_owned(), "blue".to_owned()],
    };
    let mut paint_prev = table(
        "Paint",
        vec![Column {
            name: "color".to_owned(),
            tpe: ColumnType {
                family: ColumnTypeFamily::Enum("Color".to_owned()),
                native: None,
                arity: ColumnArity::Required,
            },
            default: Some(schema_differ::schema::ColumnDefault::Literal("red".to_owned())),
        }],
        None,
    );
    paint_prev.primary_key = None;
    let paint_next = paint_prev.clone();
    let previous = SqlSchema { tables: vec![paint_prev], enums: vec![color_prev] };
    let next = SqlSchema { tables: vec![paint_next], enums: vec![color_next] };
    let steps = calculate_steps(Pair::new(&previous, &next), &base_flavour());
    assert_eq!(steps.len(), 1);
    match &steps[0] {
        SqlMigrationStep::AlterEnum(alter) => {
            assert_eq!(alter.index, Pair { previous: 0, next: 0 });
            assert_eq!(alter.created_variants, vec!["blue".to_owned()]);
            assert_eq!(alter.dropped_variants, vec!["green".to_owned()]);
            assert_eq!(alter.previous_usages_as_default, vec![((0, 0), Some((0, 0)))]);
        }
        other => panic!("expected an enum alteration, got {:?}", other),
    }
}

#[test]
fn reserved_bookkeeping_table_is_never_diffed() {
    let previous = schema(vec![table(
        "_prisma_migrations",
        vec![column("id", ColumnTypeFamily::Text, ColumnArity::Required)],
        None,
    )]);
    let next = schema(vec![]);
    let steps = calculate_steps(Pair::new(&previous, &next), &base_flavour());
    assert!(steps.is_empty());
}

#[test]
fn case_insensitive_flavour_matches_renamed_case() {
    let previous = schema(vec![table(
        "users",
        vec![column("id", ColumnTypeFamily::Int, ColumnArity::Required)],
        Some(vec![0]),
    )]);
    let next = schema(vec![table(
        "USERS",
        vec![column("id", ColumnTypeFamily::Int, ColumnArity::Required)],
        Some(vec![0]),
    )]);
    let mut flavour = base_flavour();
    flavour.table_names_case_insensitive = true;
    let steps = calculate_steps(Pair::new(&previous, &next), &flavour);
    assert!(steps.is_empty());
    let sensitive = base_flavour();
    let steps = calculate_steps(Pair::new(&previous, &next), &sensitive);
    assert_eq!(steps.len(), 2);
}

#[test]
fn index_rename_uses_alter_or_redefine_by_capability() {
    let mut t_prev = table(
        "User",
        vec![column("email", ColumnTypeFamily::Text, ColumnArity::Required)],
        None,
    );
    t_prev.indexes.push(Index {
        name: Some("old_name".to_owned()),
        columns: vec!["email".to_owned()],
        unique: true,
    });
    let mut t_next = t_prev.clone();
    t_next.indexes[0].name = Some("new_name".to_owned());
    let previous = schema(vec![t_prev]);
    let next = schema(vec![t_next]);
    let steps = calculate_steps(Pair::new(&previous, &next), &base_flavour());
    assert_eq!(steps.len(), 1);
    assert!(matches!(steps[0], SqlMigrationStep::AlterIndex { .. }));
    let mut flavour = base_flavour();
    flavour.can_alter_index = false;
    let steps = calculate_steps(Pair::new(&previous, &next), &flavour);
    assert_eq!(steps.len(), 1);
    assert!(matches!(steps[0], SqlMigrationStep::RedefineIndex { .. }));
}

#[test]
fn redefining_flavour_rebuilds_changed_table() {
    let previous = schema(vec![table(
        "Track",
        vec![
            column("id", ColumnTypeFamily::Int, ColumnArity::Required),
            column("length", ColumnTypeFamily::Text, ColumnArity::Required),
        ],
        Some(vec![0]),
    )]);
    let next = schema(vec![table(
        "Track",
        vec![column("id", ColumnTypeFamily::Int, ColumnArity::Required)],
        Some(vec![0]),
    )]);
    let mut flavour = base_flavour();
    flavour.uses_redefine_for_alter = true;
    let steps = calculate_steps(Pair::new(&previous, &next), &flavour);
    assert_eq!(steps.len(), 1);
    match &steps[0] {
        SqlMigrationStep::RedefineTables(tables) => {
            assert_eq!(tables.len(), 1);
            assert_eq!(tables[0].table_index, Pair { previous: 0, next: 0 });
            assert_eq!(tables[0].dropped_columns, vec![1]);
            assert!(tables[0].added_columns.is_empty());
            assert!(!tables[0].dropped_primary_key);
            assert_eq!(tables[0].column_pairs.len(), 1);
        }
        other => panic!("expected a table redefinition, got {:?}", other),
    }
}

#[test]
fn classification_is_risky_under_lenient_policy() {
    let previous = schema(vec![table(
        "Order",
        vec![column("id", ColumnTypeFamily::Uuid, ColumnArity::Required)],
        None,
    )]);
    let next = schema(vec![table(
        "Order",
        vec![column("id", ColumnTypeFamily::Int, ColumnArity::Required)],
        None,
    )]);
    let mut flavour = base_flavour();
    flavour.cast_policy = CastPolicy::Lenient;
    let steps = calculate_steps(Pair::new(&previous, &next), &flavour);
    assert_eq!(steps.len(), 1);
    match &steps[0] {
        SqlMigrationStep::AlterTable(alter) => match &alter.changes[0] {
            TableChange::AlterColumn(ac) => {
                assert_eq!(ac.type_change, Some(ColumnTypeChange::RiskyCast));
            }
            other => panic!("expected an in-place alteration, got {:?}", other),
        },
        other => panic!("expected a table alteration, got {:?}", other),
    }
}

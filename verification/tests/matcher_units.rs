use schema_differ::database::DifferDatabase;
use schema_differ::enums::{created_variants, dropped_variants};
use schema_differ::flavour::{names_match, table_is_ignored, CastPolicy, Flavour};
use schema_differ::schema::{
    Column, ColumnArity, ColumnType, ColumnTypeFamily, DbEnum, ForeignKey, ForeignKeyAction,
    Index, SqlSchema, Table,
};
use schema_differ::table::{foreign_keys_match, index_covers_fk};

fn flavour() -> Flavour {
    Flavour {
        table_names_case_insensitive: false,
        column_names_case_insensitive: false,
        can_alter_index: true,
        has_native_enums: true,
        should_push_foreign_keys_from_created_tables: true,
        should_create_indexes_from_created_tables: true,
        should_skip_fk_indexes: false,
        should_drop_indexes_from_dropped_tables: false,
        should_recreate_the_primary_key_on_column_recreate: false,
        indexes_should_be_recreated_after_column_drop: false,
        uses_redefine_for_alter: false,
        cast_policy: CastPolicy::Strict,
    }
}

fn column(name: &str, family: ColumnTypeFamily) -> Column {
    Column {
        name: name.to_owned(),
        tpe: ColumnType { family, native: None, arity: ColumnArity::Required },
        default: None,
    }
}

fn fk(cols: &[&str], referenced_table: &str, referenced: &[&str]) -> ForeignKey {
    ForeignKey {
        constraint_name: None,
        columns: cols.iter().map(|s| s.to_string()).collect(),
        referenced_table: referenced_table.to_owned(),
        referenced_columns: referenced.iter().map(|s| s.to_string()).collect(),
        on_delete_action: ForeignKeyAction::NoAction,
    }
}

#[test]
fn reserved_table_name_is_ignored() {
    assert!(table_is_ignored(&"_prisma_migrations".to_owned()));
    assert!(!table_is_ignored(&"users".to_owned()));
}

#[test]
fn ascii_case_folding_in_name_matching() {
    assert!(names_match(true, &"UsErS".to_owned(), &"users".to_owned()));
    assert!(!names_match(false, &"UsErS".to_owned(), &"users".to_owned()));
    assert!(names_match(false, &"users".to_owned(), &"users".to_owned()));
    assert!(!names_match(true, &"user".to_owned(), &"users".to_owned()));
}

#[test]
fn foreign_keys_match_identifies_uuid_and_text() {
    let f = flavour();
    let pt = Table {
        name: "Post".to_owned(),
        columns: vec![column("author", ColumnTypeFamily::Uuid)],
        indexes: vec![],
        foreign_keys: vec![],
        primary_key: None,
    };
    let nt = Table {
        name: "Post".to_owned(),
        columns: vec![column("author", ColumnTypeFamily::Text)],
        indexes: vec![],
        foreign_keys: vec![],
        primary_key: None,
    };
    let a = fk(&["author"], "User", &["id"]);
    let b = fk(&["author"], "User", &["id"]);
    assert!(foreign_keys_match(&f, &pt, &a, &nt, &b));
    let c = fk(&["author"], "User", &["uid"]);
    assert!(!foreign_keys_match(&f, &pt, &a, &nt, &c));
    let d = fk(&["writer"], "User", &["id"]);
    assert!(!foreign_keys_match(&f, &pt, &a, &nt, &d));
    let e = fk(&["author"], "Account", &["id"]);
    assert!(!foreign_keys_match(&f, &pt, &a, &nt, &e));
}

#[test]
fn index_covering_a_foreign_key_is_detected() {
    let t = Table {
        name: "Post".to_owned(),
        columns: vec![column("author", ColumnTypeFamily::Int)],
        indexes: vec![],
        foreign_keys: vec![fk(&["author"], "User", &["id"])],
        primary_key: None,
    };
    let covering = Index { name: None, columns: vec!["author".to_owned()], unique: false };
    let other = Index { name: None, columns: vec!["title".to_owned()], unique: false };
    assert!(index_covers_fk(&t, &covering));
    assert!(!index_covers_fk(&t, &other));
}

#[test]
fn enum_variant_diffs_are_by_membership_in_order() {
    let previous = DbEnum {
        name: "Mood".to_owned(),
        variants: vec!["happy".to_owned(), "grumpy".to_owned(), "weary".to_owned()],
    };
    let next = DbEnum {
        name: "Mood".to_owned(),
        variants: vec!["grumpy".to_owned(), "bright".to_owned(), "calm".to_owned()],
    };
    assert_eq!(created_variants(&previous, &next), vec!["bright".to_owned(), "calm".to_owned()]);
    assert_eq!(dropped_variants(&previous, &next), vec!["happy".to_owned(), "weary".to_owned()]);
}

#[test]
fn matcher_pairs_by_position_of_first_match() {
    let make = |name: &str| Table {
        name: name.to_owned(),
        columns: vec![column("id", ColumnTypeFamily::Int)],
        indexes: vec![],
        foreign_keys: vec![],
        primary_key: Some(vec![0]),
    };
    let previous = SqlSchema {
        tables: vec![make("a"), make("gone"), make("b")],
        enums: vec![DbEnum { name: "kept".to_owned(), variants: vec![] }],
    };
    let next = SqlSchema {
        tables: vec![make("fresh"), make("b"), make("a")],
        enums: vec![
            DbEnum { name: "kept".to_owned(), variants: vec![] },
            DbEnum { name: "brand_new".to_owned(), variants: vec![] },
        ],
    };
    let db = DifferDatabase::new(&flavour(), &previous, &next);
    assert_eq!(db.created_tables(), &vec![0]);
    assert_eq!(db.dropped_tables(), &vec![1]);
    assert_eq!(db.dropped_tables_count(), 1);
    assert_eq!(db.table_pairs(), &vec![(0, 2), (2, 1)]);
    assert_eq!(db.enum_pairs(), &vec![(0, 0)]);
    assert_eq!(db.created_enums(), &vec![1]);
    assert!(db.dropped_enums().is_empty());
}

use query_core::grants::{
    GrantEntry, GrantObject, UserGrantSet, UserPrivilegeSet, UserPrivilegeType,
};
use query_core::meta::{Database, Operation, Table};

fn select_insert() -> UserPrivilegeSet {
    UserPrivilegeSet::empty().with(UserPrivilegeType::Select).with(UserPrivilegeType::Insert)
}

#[test]
fn grant_object_containment_follows_the_hierarchy() {
    let global = GrantObject::Global;
    let db = GrantObject::Database("d".to_string());
    let table = GrantObject::Table("d".to_string(), "t".to_string());
    let other_table = GrantObject::Table("e".to_string(), "t".to_string());
    assert!(global.contains(&db));
    assert!(global.contains(&table));
    assert!(db.contains(&table));
    assert!(db.contains(&db));
    assert!(!db.contains(&global));
    assert!(!db.contains(&other_table));
    assert!(table.contains(&table));
    assert!(!table.contains(&db));
    assert!(!table.contains(&other_table));
}

#[test]
fn entry_verifies_user_host_object_and_privilege() {
    let e = GrantEntry::new(
        "u1".to_string(),
        "%".to_string(),
        GrantObject::Database("d".to_string()),
        select_insert(),
    );
    let table = GrantObject::Table("d".to_string(), "t".to_string());
    assert!(e.verify_privilege("u1", "anywhere", &table, UserPrivilegeType::Select));
    assert!(!e.verify_privilege("u2", "anywhere", &table, UserPrivilegeType::Select));
    assert!(!e.verify_privilege("u1", "anywhere", &table, UserPrivilegeType::Create));
    let foreign = GrantObject::Table("e".to_string(), "t".to_string());
    assert!(!e.verify_privilege("u1", "anywhere", &foreign, UserPrivilegeType::Select));
}

#[test]
fn host_patterns_match_the_wildcard_or_exactly() {
    let exact = GrantEntry::new(
        "u".to_string(),
        "host1".to_string(),
        GrantObject::Global,
        select_insert(),
    );
    let g = GrantObject::Global;
    assert!(exact.verify_privilege("u", "host1", &g, UserPrivilegeType::Select));
    assert!(!exact.verify_privilege("u", "host2", &g, UserPrivilegeType::Select));
}

#[test]
fn granting_merges_into_the_keyed_row_or_appends() {
    let mut set = UserGrantSet::empty();
    let db = GrantObject::Database("d".to_string());
    set.grant_privileges(
        "u",
        "%",
        &db,
        UserPrivilegeSet::empty().with(UserPrivilegeType::Select),
    );
    assert_eq!(set.entries().len(), 1);
    set.grant_privileges(
        "u",
        "%",
        &db,
        UserPrivilegeSet::empty().with(UserPrivilegeType::Insert),
    );
    assert_eq!(set.entries().len(), 1);
    assert!(set.verify_privilege("u", "h", &db, UserPrivilegeType::Select));
    assert!(set.verify_privilege("u", "h", &db, UserPrivilegeType::Insert));
    let other = GrantObject::Database("e".to_string());
    set.grant_privileges(
        "u",
        "%",
        &other,
        UserPrivilegeSet::empty().with(UserPrivilegeType::Select),
    );
    assert_eq!(set.entries().len(), 2);
}

#[test]
fn revoking_toggles_privileges_and_drops_empty_rows() {
    let mut set = UserGrantSet::empty();
    let db = GrantObject::Database("d".to_string());
    set.grant_privileges("u", "%", &db, select_insert());
    set.revoke_privileges(
        "u",
        "%",
        &db,
        UserPrivilegeSet::empty().with(UserPrivilegeType::Insert),
    );
    assert_eq!(set.entries().len(), 1);
    assert!(set.verify_privilege("u", "h", &db, UserPrivilegeType::Select));
    assert!(!set.verify_privilege("u", "h", &db, UserPrivilegeType::Insert));
    set.revoke_privileges(
        "u",
        "%",
        &db,
        UserPrivilegeSet::empty().with(UserPrivilegeType::Select),
    );
    assert_eq!(set.entries().len(), 0);
}

#[test]
fn entry_reports_holding_every_available_privilege() {
    let table = GrantObject::Table("d".to_string(), "t".to_string());
    let all = table.available_privileges();
    let e = GrantEntry::new("u".to_string(), "%".to_string(), table, all);
    assert!(e.has_all_available_privileges());
    let partial = GrantEntry::new(
        "u".to_string(),
        "%".to_string(),
        GrantObject::Global,
        select_insert(),
    );
    assert!(!partial.has_all_available_privileges());
}

#[test]
fn operation_from_option_updates_or_deletes() {
    let up: Operation<u64> = Operation::from(Some(7u64));
    assert_eq!(up, Operation::Update(7));
    let del: Operation<u64> = Operation::from(None);
    assert_eq!(del, Operation::Delete);
    let as_is: Operation<u64> = Operation::AsIs;
    assert_ne!(as_is, del);
}

#[test]
fn meta_records_default_to_empty() {
    let d = Database::default();
    assert_eq!(d.database_id, 0);
    assert_eq!(d.database_engine, "");
    assert!(d.tables.is_empty());
    let t = Table::default();
    assert_eq!(t.table_id, 0);
    assert!(t.schema.is_empty());
    assert!(t.parts.is_empty());
}

#[test]
fn grant_entries_render_as_grant_statements() {
    let e = GrantEntry::new(
        "u1".to_string(),
        "%".to_string(),
        GrantObject::Database("d".to_string()),
        select_insert(),
    );
    assert_eq!(e.to_text(), "GRANT SELECT, INSERT ON 'd'.* TO 'u1'@'%'");
    let table = GrantObject::Table("d".to_string(), "t".to_string());
    let all = table.available_privileges();
    let full = GrantEntry::new("u2".to_string(), "h".to_string(), table, all);
    assert_eq!(full.to_text(), "GRANT ALL ON 'd'.'t' TO 'u2'@'h'");
    assert_eq!(GrantObject::Global.to_text(), "*.*");
}

#[test]
fn meta_records_describe_themselves() {
    let mut d = Database::default();
    d.database_id = 42;
    assert_eq!(d.describe(), "database id: 42");
    let mut t = Table::default();
    t.table_id = 7;
    assert_eq!(t.describe(), "table id: 7");
}

use dbless::Database;
use dbless::Error;

fn round_trip_on(db: &mut Database) {
    db.set("int", &30).unwrap();
    assert_eq!(db.get::<i32>("int").unwrap(), Some(30));

    db.set("neg", &-123456789i64).unwrap();
    assert_eq!(db.get::<i64>("neg").unwrap(), Some(-123456789i64));

    db.set("text", &"hello".to_owned()).unwrap();
    assert_eq!(db.get::<String>("text").unwrap(), Some("hello".to_owned()));

    db.set("flag", &true).unwrap();
    assert_eq!(db.get::<bool>("flag").unwrap(), Some(true));

    db.set("list", &vec!["a".to_owned(), "b".to_owned()]).unwrap();
    assert_eq!(
        db.get::<Vec<String>>("list").unwrap(),
        Some(vec!["a".to_owned(), "b".to_owned()]),
    );

    db.set("maybe", &Some(7u8)).unwrap();
    assert_eq!(db.get::<Option<u8>>("maybe").unwrap(), Some(Some(7u8)));

    db.set("pair", &("k".to_owned(), 9i32)).unwrap();
    assert_eq!(db.get::<(String, i32)>("pair").unwrap(), Some(("k".to_owned(), 9i32)));
}

#[test]
fn round_trip_every_type() {
    let mut db = Database::open("/tmp/dbless_prop_round_trip.db").unwrap();
    db.delete_all_tables().unwrap();
    round_trip_on(&mut db);
    let mut db = Database::in_memory().unwrap();
    round_trip_on(&mut db);
}

fn remove_absent_on(db: &mut Database) {
    db.remove("never-written").unwrap();
    assert_eq!(db.get::<String>("never-written").unwrap(), None);
    db.set("once", &1).unwrap();
    db.remove("once").unwrap();
    assert_eq!(db.get::<i32>("once").unwrap(), None);
    db.remove("once").unwrap();
    assert_eq!(db.get::<i32>("once").unwrap(), None);
}

#[test]
fn remove_is_silent_on_absent_keys() {
    let mut db = Database::open("/tmp/dbless_prop_remove_absent.db").unwrap();
    db.delete_all_tables().unwrap();
    remove_absent_on(&mut db);
    let mut db = Database::in_memory().unwrap();
    remove_absent_on(&mut db);
}

fn clear_on(db: &mut Database) {
    let mut t = db.table_mut("c");
    t.insert("a", &1).unwrap();
    t.insert("b", &2).unwrap();
    t.clear().unwrap();
    assert_eq!(t.len().unwrap(), 0);
    assert!(t.is_empty().unwrap());
    assert_eq!(t.keys().unwrap(), Vec::<String>::new());
}

#[test]
fn clear_leaves_nothing_behind() {
    let mut db = Database::open("/tmp/dbless_prop_clear.db").unwrap();
    db.delete_all_tables().unwrap();
    clear_on(&mut db);
    let mut db = Database::in_memory().unwrap();
    clear_on(&mut db);
}

fn isolation_on(db: &mut Database) {
    db.table_mut("t1").insert("k", &41).unwrap();
    assert_eq!(db.table("t2").get::<i32>("k").unwrap(), None);
    assert!(!db.table("t2").contains_key("k").unwrap());
    assert_eq!(db.table("t1").get::<i32>("k").unwrap(), Some(41));
    db.table_mut("t2").insert("k", &52).unwrap();
    assert_eq!(db.table("t1").get::<i32>("k").unwrap(), Some(41));
    db.table_mut("t2").remove("k").unwrap();
    assert_eq!(db.table("t1").get::<i32>("k").unwrap(), Some(41));
}

#[test]
fn tables_are_isolated() {
    let mut db = Database::open("/tmp/dbless_prop_isolation.db").unwrap();
    db.delete_all_tables().unwrap();
    isolation_on(&mut db);
    let mut db = Database::in_memory().unwrap();
    isolation_on(&mut db);
}

fn first_default_wins_on(db: &mut Database) {
    let mut t = db.table_mut("g");
    assert_eq!(t.get_or_insert("k", 10).unwrap(), 10);
    assert_eq!(t.get_or_insert("k", 20).unwrap(), 10);
    assert_eq!(t.len().unwrap(), 1);
    assert_eq!(t.get::<i32>("k").unwrap(), Some(10));
}

#[test]
fn get_or_insert_first_default_wins() {
    let mut db = Database::open("/tmp/dbless_prop_first_default.db").unwrap();
    db.delete_all_tables().unwrap();
    first_default_wins_on(&mut db);
    let mut db = Database::in_memory().unwrap();
    first_default_wins_on(&mut db);
}

fn typed_filtering_on(db: &mut Database) {
    let mut t = db.table_mut("mixed");
    t.insert("s1", &"one".to_owned()).unwrap();
    t.insert("s2", &"two".to_owned()).unwrap();
    t.insert("n1", &111).unwrap();
    let mut strings = t.values::<String>().unwrap();
    strings.sort();
    assert_eq!(strings, vec!["one".to_owned(), "two".to_owned()]);
    let numbers = t.values::<i32>().unwrap();
    assert_eq!(numbers, vec![111]);
    let mut string_entries = t.entries::<String>().unwrap();
    string_entries.sort();
    assert_eq!(
        string_entries,
        vec![("s1".to_owned(), "one".to_owned()), ("s2".to_owned(), "two".to_owned())],
    );
}

#[test]
fn values_filter_by_requested_type() {
    let mut db = Database::open("/tmp/dbless_prop_typed_filtering.db").unwrap();
    db.delete_all_tables().unwrap();
    typed_filtering_on(&mut db);
    let mut db = Database::in_memory().unwrap();
    typed_filtering_on(&mut db);
}

fn wrong_type_is_an_error_on(db: &mut Database) {
    db.set("age", &30).unwrap();
    assert_eq!(db.get::<i32>("age").unwrap(), Some(30));
    let err = db.get::<String>("age").unwrap_err();
    assert!(matches!(err, Error::Codec(_)));
    assert!(err.is_codec());
    assert!(!err.is_backend());
}

#[test]
fn wrong_type_is_a_decode_error() {
    let mut db = Database::open("/tmp/dbless_prop_wrong_type.db").unwrap();
    db.delete_all_tables().unwrap();
    wrong_type_is_an_error_on(&mut db);
    let mut db = Database::in_memory().unwrap();
    wrong_type_is_an_error_on(&mut db);
}

#[test]
fn durable_list_tables_tracks_table_life() {
    let mut db = Database::open("/tmp/dbless_prop_list_tables.db").unwrap();
    db.delete_all_tables().unwrap();
    assert_eq!(db.list_tables().unwrap(), Vec::<String>::new());
    db.table_mut("users").insert("a", &"b".to_owned()).unwrap();
    assert_eq!(db.list_tables().unwrap(), vec!["users".to_owned()]);
    db.delete_table("users").unwrap();
    assert_eq!(db.list_tables().unwrap(), Vec::<String>::new());
}

#[test]
fn reopening_preserves_committed_entries() {
    let mut db = Database::open("/tmp/dbless_prop_reopen.db").unwrap();
    db.delete_all_tables().unwrap();
    db.set("kept", &"across".to_owned()).unwrap();
    db.table_mut("users").insert("u", &77).unwrap();
    db.close();

    let db = Database::open("/tmp/dbless_prop_reopen.db").unwrap();
    assert_eq!(db.get::<String>("kept").unwrap(), Some("across".to_owned()));
    assert_eq!(db.table("users").get::<i32>("u").unwrap(), Some(77));
    assert_eq!(db.list_tables().unwrap(), vec!["users".to_owned()]);
}

#[test]
fn unusable_path_is_a_backend_error() {
    let err = match Database::open("") {
        Ok(_) => panic!("an empty path must not open"),
        Err(e) => e,
    };
    assert!(matches!(err, Error::Backend(_)));
    assert!(err.is_backend());
}

#[test]
fn volatile_clear_keeps_the_table_listed() {
    let mut db = Database::in_memory().unwrap();
    db.table_mut("seen").insert("k", &1).unwrap();
    db.table_mut("seen").clear().unwrap();
    assert_eq!(db.table("seen").len().unwrap(), 0);
    assert_eq!(db.list_tables().unwrap(), vec!["seen".to_owned()]);
}

#[test]
fn delete_table_unlists_on_both_backends() {
    let mut db = Database::open("/tmp/dbless_prop_delete_table.db").unwrap();
    db.delete_all_tables().unwrap();
    db.table_mut("gone").insert("k", &1).unwrap();
    db.delete_table("gone").unwrap();
    assert_eq!(db.list_tables().unwrap(), Vec::<String>::new());
    assert_eq!(db.table("gone").len().unwrap(), 0);
    assert_eq!(db.table("gone").keys().unwrap(), Vec::<String>::new());

    let mut db = Database::in_memory().unwrap();
    db.table_mut("gone").insert("k", &1).unwrap();
    db.table_mut("kept").insert("k", &2).unwrap();
    db.delete_table("gone").unwrap();
    assert_eq!(db.list_tables().unwrap(), vec!["kept".to_owned()]);
    assert_eq!(db.table("gone").len().unwrap(), 0);
    assert_eq!(db.table("gone").keys().unwrap(), Vec::<String>::new());
    assert_eq!(db.table("kept").get::<i32>("k").unwrap(), Some(2));
    db.delete_table("never-existed").unwrap();
    assert_eq!(db.list_tables().unwrap(), vec!["kept".to_owned()]);
}

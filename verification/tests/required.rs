use dbless::Database;
use dbless::TableMut;

fn clear_len_is_empty_on_db(db: &mut Database) {
    db.set("key2", &"value").unwrap();
    db.set("key1", &"value").unwrap();
    db.set("key2", &1234).unwrap();
    db.set("key3", &"value").unwrap();

    assert!(!db.is_empty().unwrap());
    assert_eq!(db.len().unwrap(), 3);
    assert_eq!(db.size().unwrap(), 3);
    assert_eq!(db.keys().unwrap().len(), 3);
    assert_eq!(db.values::<String>().unwrap().len(), 2);
    assert_eq!(db.entries::<String>().unwrap().len(), 2);
    assert_eq!(db.values::<i32>().unwrap().len(), 1);
    assert_eq!(db.entries::<i32>().unwrap().len(), 1);

    db.clear().unwrap();

    assert!(db.is_empty().unwrap());
    assert_eq!(db.len().unwrap(), 0);
    assert_eq!(db.size().unwrap(), 0);
    assert_eq!(db.keys().unwrap().len(), 0);
    assert_eq!(db.values::<String>().unwrap().len(), 0);
    assert_eq!(db.entries::<String>().unwrap().len(), 0);
    assert_eq!(db.values::<i32>().unwrap().len(), 0);
    assert_eq!(db.entries::<i32>().unwrap().len(), 0);
}

fn clear_len_is_empty_on_table(db: &mut TableMut) {
    db.set("key2", &"value").unwrap();
    db.set("key1", &"value").unwrap();
    db.set("key2", &1234).unwrap();
    db.set("key3", &"value").unwrap();

    assert!(!db.is_empty().unwrap());
    assert_eq!(db.len().unwrap(), 3);
    assert_eq!(db.size().unwrap(), 3);
    assert_eq!(db.keys().unwrap().len(), 3);
    assert_eq!(db.values::<String>().unwrap().len(), 2);
    assert_eq!(db.entries::<String>().unwrap().len(), 2);
    assert_eq!(db.values::<i32>().unwrap().len(), 1);
    assert_eq!(db.entries::<i32>().unwrap().len(), 1);

    db.clear().unwrap();

    assert!(db.is_empty().unwrap());
    assert_eq!(db.len().unwrap(), 0);
    assert_eq!(db.size().unwrap(), 0);
    assert_eq!(db.keys().unwrap().len(), 0);
    assert_eq!(db.values::<String>().unwrap().len(), 0);
    assert_eq!(db.entries::<String>().unwrap().len(), 0);
    assert_eq!(db.values::<i32>().unwrap().len(), 0);
    assert_eq!(db.entries::<i32>().unwrap().len(), 0);
}

fn clear_len_is_empty_all(mut db: Database) {
    db.delete_all_tables().unwrap();
    clear_len_is_empty_on_db(&mut db);
    let t1l;
    {
        let mut t = db.table_mut("t1");
        assert_eq!(t.len().unwrap(), 0);
        clear_len_is_empty_on_table(&mut t);
        t1l = t.len().unwrap();
    }
    let t2l;
    {
        let mut t = db.table_mut("t2");
        assert_eq!(t.len().unwrap(), 0);
        clear_len_is_empty_on_table(&mut t);
        t2l = t.len().unwrap();
    }
    assert_eq!(t1l, t2l);
}

#[test]
fn clear_len_is_empty() {
    clear_len_is_empty_all(Database::open("/tmp/dbless_required_clear_len_is_empty.db").unwrap());
    clear_len_is_empty_all(Database::in_memory().unwrap());
}

fn get_set_on_db(db: &mut Database) {
    assert!(db.get::<String>("key").unwrap().is_none());
    db.set("key", &"value").unwrap();
    assert_eq!(db.get::<String>("key").unwrap().unwrap(), "value".to_owned());
    assert!(db.get::<String>("key2").unwrap().is_none());
    db.set("key2", &"value2").unwrap();
    assert_eq!(db.get::<String>("key2").unwrap().unwrap(), "value2".to_owned());
    assert_eq!(db.get::<String>("key").unwrap().unwrap(), "value".to_owned());
}

fn get_set_on_table(db: &mut TableMut) {
    assert!(db.get::<String>("key").unwrap().is_none());
    db.set("key", &"value").unwrap();
    assert_eq!(db.get::<String>("key").unwrap().unwrap(), "value".to_owned());
    assert!(db.get::<String>("key2").unwrap().is_none());
    db.set("key2", &"value2").unwrap();
    assert_eq!(db.get::<String>("key2").unwrap().unwrap(), "value2".to_owned());
    assert_eq!(db.get::<String>("key").unwrap().unwrap(), "value".to_owned());
}

fn get_set_all(mut db: Database) {
    db.delete_all_tables().unwrap();
    get_set_on_db(&mut db);
    let t1l;
    {
        let mut t = db.table_mut("t1");
        assert_eq!(t.len().unwrap(), 0);
        get_set_on_table(&mut t);
        t1l = t.len().unwrap();
    }
    let t2l;
    {
        let mut t = db.table_mut("t2");
        assert_eq!(t.len().unwrap(), 0);
        get_set_on_table(&mut t);
        t2l = t.len().unwrap();
    }
    assert_eq!(t1l, t2l);
}

#[test]
fn get_set() {
    get_set_all(Database::open("/tmp/dbless_required_get_set.db").unwrap());
    get_set_all(Database::in_memory().unwrap());
}

fn remove_on_db(db: &mut Database) {
    db.set("key", &"value").unwrap();
    assert_eq!(db.get::<String>("key").unwrap().unwrap(), "value".to_owned());
    db.remove("key").unwrap();
    assert!(db.get::<String>("key").unwrap().is_none());
    db.remove("key").unwrap();
}

fn remove_on_table(db: &mut TableMut) {
    db.set("key", &"value").unwrap();
    assert_eq!(db.get::<String>("key").unwrap().unwrap(), "value".to_owned());
    db.remove("key").unwrap();
    assert!(db.get::<String>("key").unwrap().is_none());
    db.remove("key").unwrap();
}

fn remove_all(mut db: Database) {
    db.delete_all_tables().unwrap();
    remove_on_db(&mut db);
    let t1l;
    {
        let mut t = db.table_mut("t1");
        assert_eq!(t.len().unwrap(), 0);
        remove_on_table(&mut t);
        t1l = t.len().unwrap();
    }
    let t2l;
    {
        let mut t = db.table_mut("t2");
        assert_eq!(t.len().unwrap(), 0);
        remove_on_table(&mut t);
        t2l = t.len().unwrap();
    }
    assert_eq!(t1l, t2l);
}

#[test]
fn remove() {
    remove_all(Database::open("/tmp/dbless_required_remove.db").unwrap());
    remove_all(Database::in_memory().unwrap());
}

fn contains_on_db(db: &mut Database) {
    assert!(!db.contains("key").unwrap());
    assert!(!db.contains_key("key").unwrap());
    assert!(!db.has("key").unwrap());
    db.set("key", &"value").unwrap();
    assert!(db.contains("key").unwrap());
    assert!(db.contains_key("key").unwrap());
    assert!(db.has("key").unwrap());
    db.remove("key").unwrap();
    assert!(!db.contains("key").unwrap());
    assert!(!db.contains_key("key").unwrap());
    assert!(!db.has("key").unwrap());
}

fn contains_on_table(db: &mut TableMut) {
    assert!(!db.contains("key").unwrap());
    assert!(!db.contains_key("key").unwrap());
    assert!(!db.has("key").unwrap());
    db.set("key", &"value").unwrap();
    assert!(db.contains("key").unwrap());
    assert!(db.contains_key("key").unwrap());
    assert!(db.has("key").unwrap());
    db.remove("key").unwrap();
    assert!(!db.contains("key").unwrap());
    assert!(!db.contains_key("key").unwrap());
    assert!(!db.has("key").unwrap());
}

fn contains_all(mut db: Database) {
    db.delete_all_tables().unwrap();
    contains_on_db(&mut db);
    let t1l;
    {
        let mut t = db.table_mut("t1");
        assert_eq!(t.len().unwrap(), 0);
        contains_on_table(&mut t);
        t1l = t.len().unwrap();
    }
    let t2l;
    {
        let mut t = db.table_mut("t2");
        assert_eq!(t.len().unwrap(), 0);
        contains_on_table(&mut t);
        t2l = t.len().unwrap();
    }
    assert_eq!(t1l, t2l);
}

#[test]
fn contains() {
    contains_all(Database::open("/tmp/dbless_required_contains.db").unwrap());
    contains_all(Database::in_memory().unwrap());
}

fn keys_values_entries_on_db(db: &mut Database) {
    assert_eq!(db.keys().unwrap().len(), 0);
    assert_eq!(db.values::<String>().unwrap().len(), 0);
    assert_eq!(db.entries::<String>().unwrap().len(), 0);

    db.set("key", &"value").unwrap();

    let expected = vec!["key".to_owned()];
    let reality = db.keys().unwrap();
    assert_eq!(expected, reality);

    let expected = vec!["value".to_owned()];
    let reality = db.values::<String>().unwrap();
    assert_eq!(expected, reality);

    let expected = vec![("key".to_owned(), "value".to_owned())];
    let reality = db.entries::<String>().unwrap();
    assert_eq!(expected, reality);

    let expected = vec![("key".to_owned(), "value".to_owned())];
    let reality = db.entries().unwrap();
    assert_eq!(expected, reality);

    db.set("key2", &"value2").unwrap();
    db.set("key3", &12345).unwrap();

    let mut expected = vec!["key".to_owned(), "key2".to_owned(), "key3".to_owned()];
    let mut reality = db.keys().unwrap();
    expected.sort();
    reality.sort();
    assert_eq!(expected, reality);

    let mut expected = vec!["value".to_owned(), "value2".to_owned()];
    let mut reality = db.values::<String>().unwrap();
    expected.sort();
    reality.sort();
    assert_eq!(expected, reality);

    let mut expected = vec![
        ("key".to_owned(), "value".to_owned()),
        ("key2".to_owned(), "value2".to_owned()),
    ];
    let mut reality = db.entries::<String>().unwrap();
    expected.sort();
    reality.sort();
    assert_eq!(expected, reality);

    let expected = vec![12345];
    let reality = db.values::<i32>().unwrap();
    assert_eq!(expected, reality);

    let expected = vec![("key3".to_owned(), 12345)];
    let reality = db.entries::<i32>().unwrap();
    assert_eq!(expected, reality);
}

fn keys_values_entries_on_table(db: &mut TableMut) {
    assert_eq!(db.keys().unwrap().len(), 0);
    assert_eq!(db.values::<String>().unwrap().len(), 0);
    assert_eq!(db.entries::<String>().unwrap().len(), 0);

    db.set("key", &"value").unwrap();

    let expected = vec!["key".to_owned()];
    let reality = db.keys().unwrap();
    assert_eq!(expected, reality);

    let expected = vec!["value".to_owned()];
    let reality = db.values::<String>().unwrap();
    assert_eq!(expected, reality);

    let expected = vec![("key".to_owned(), "value".to_owned())];
    let reality = db.entries::<String>().unwrap();
    assert_eq!(expected, reality);

    let expected = vec![("key".to_owned(), "value".to_owned())];
    let reality = db.entries().unwrap();
    assert_eq!(expected, reality);

    db.set("key2", &"value2").unwrap();
    db.set("key3", &12345).unwrap();

    let mut expected = vec!["key".to_owned(), "key2".to_owned(), "key3".to_owned()];
    let mut reality = db.keys().unwrap();
    expected.sort();
    reality.sort();
    assert_eq!(expected, reality);

    let mut expected = vec!["value".to_owned(), "value2".to_owned()];
    let mut reality = db.values::<String>().unwrap();
    expected.sort();
    reality.sort();
    assert_eq!(expected, reality);

    let mut expected = vec![
        ("key".to_owned(), "value".to_owned()),
        ("key2".to_owned(), "value2".to_owned()),
    ];
    let mut reality = db.entries::<String>().unwrap();
    expected.sort();
    reality.sort();
    assert_eq!(expected, reality);

    let expected = vec![12345];
    let reality = db.values::<i32>().unwrap();
    assert_eq!(expected, reality);

    let expected = vec![("key3".to_owned(), 12345)];
    let reality = db.entries::<i32>().unwrap();
    assert_eq!(expected, reality);
}

fn keys_values_entries_all(mut db: Database) {
    db.delete_all_tables().unwrap();
    keys_values_entries_on_db(&mut db);
    let t1l;
    {
        let mut t = db.table_mut("t1");
        assert_eq!(t.len().unwrap(), 0);
        keys_values_entries_on_table(&mut t);
        t1l = t.len().unwrap();
    }
    let t2l;
    {
        let mut t = db.table_mut("t2");
        assert_eq!(t.len().unwrap(), 0);
        keys_values_entries_on_table(&mut t);
        t2l = t.len().unwrap();
    }
    assert_eq!(t1l, t2l);
}

#[test]
fn keys_values_entries() {
    keys_values_entries_all(Database::open("/tmp/dbless_required_keys_values_entries.db").unwrap());
    keys_values_entries_all(Database::in_memory().unwrap());
}

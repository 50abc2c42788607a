use dbless::Database;

fn get_or_family_on(db: &mut Database) {
    assert_eq!(db.get_or("missing", 5).unwrap(), 5);
    db.set("present", &8).unwrap();
    assert_eq!(db.get_or("present", 5).unwrap(), 8);

    assert_eq!(db.get_or_else("missing", || 6).unwrap(), 6);
    assert_eq!(db.get_or_else("present", || 6).unwrap(), 8);

    assert_eq!(db.get_or_default::<i32>("missing").unwrap(), 0);
    assert_eq!(db.get_or_default::<String>("missing").unwrap(), String::new());
    assert_eq!(db.get_or_default::<i32>("present").unwrap(), 8);

    assert!(!db.contains_key("missing").unwrap());

    let t = db.table("read-only");
    assert_eq!(t.get_or("nothing", 3).unwrap(), 3);
    assert_eq!(t.get_or_else("nothing", || 4).unwrap(), 4);
    assert_eq!(t.get_or_default::<i32>("nothing").unwrap(), 0);
}

#[test]
fn get_or_substitutes_only_absence() {
    let mut db = Database::open("/tmp/dbless_comb_get_or.db").unwrap();
    db.delete_all_tables().unwrap();
    get_or_family_on(&mut db);
    let mut db = Database::in_memory().unwrap();
    get_or_family_on(&mut db);
}

fn get_or_insert_family_on(db: &mut Database) {
    assert_eq!(db.get_or_insert("a", 11).unwrap(), 11);
    assert!(db.contains_key("a").unwrap());
    assert_eq!(db.get::<i32>("a").unwrap(), Some(11));

    assert_eq!(db.get_or_insert_with("b", || 12).unwrap(), 12);
    assert_eq!(db.get_or_insert_with("b", || 99).unwrap(), 12);
    assert_eq!(db.get::<i32>("b").unwrap(), Some(12));

    assert_eq!(db.get_or_insert_default::<i32>("c").unwrap(), 0);
    assert_eq!(db.get::<i32>("c").unwrap(), Some(0));

    let mut t = db.table_mut("writable");
    assert_eq!(t.get_or_insert_with("x", || "made".to_owned()).unwrap(), "made".to_owned());
    assert_eq!(t.get::<String>("x").unwrap(), Some("made".to_owned()));
    assert_eq!(t.get_or_insert_default::<String>("y").unwrap(), String::new());
    assert_eq!(t.len().unwrap(), 2);
}

#[test]
fn get_or_insert_persists_the_default() {
    let mut db = Database::open("/tmp/dbless_comb_get_or_insert.db").unwrap();
    db.delete_all_tables().unwrap();
    get_or_insert_family_on(&mut db);
    let mut db = Database::in_memory().unwrap();
    get_or_insert_family_on(&mut db);
}

fn default_table_on(db: &mut Database) {
    db.set("k", &1).unwrap();
    assert_eq!(db.default_table().get::<i32>("k").unwrap(), Some(1));
    db.default_table_mut().insert("k2", &2).unwrap();
    assert_eq!(db.get::<i32>("k2").unwrap(), Some(2));

    db.set_default_table("named");
    assert_eq!(db.get::<i32>("k").unwrap(), None);
    db.set("k", &3).unwrap();
    assert_eq!(db.table("named").get::<i32>("k").unwrap(), Some(3));
    assert_eq!(db.len().unwrap(), 1);
}

#[test]
fn default_table_mirrors_table_operations() {
    let mut db = Database::open("/tmp/dbless_comb_default_table.db").unwrap();
    db.delete_all_tables().unwrap();
    default_table_on(&mut db);
    let mut db = Database::in_memory().unwrap();
    default_table_on(&mut db);
}

#[test]
fn list_tables_hides_the_default_table() {
    let mut db = Database::in_memory().unwrap();
    db.set("k", &1).unwrap();
    assert_eq!(db.list_tables().unwrap(), Vec::<String>::new());
    db.table_mut("visible").insert("k", &1).unwrap();
    assert_eq!(db.list_tables().unwrap(), vec!["visible".to_owned()]);
}

fn len_all_on(db: &mut Database) {
    db.table_mut("t1").insert("a", &1).unwrap();
    db.table_mut("t1").insert("b", &2).unwrap();
    db.table_mut("t2").insert("c", &3).unwrap();
    assert_eq!(db.len_all_tables().unwrap(), 3);
    assert_eq!(db.size_all_tables().unwrap(), 3);
    db.set("d", &4).unwrap();
    assert_eq!(db.len_all_tables().unwrap(), 4);
    db.delete_all_tables().unwrap();
    assert_eq!(db.len_all_tables().unwrap(), 0);
    assert_eq!(db.list_tables().unwrap(), Vec::<String>::new());
}

#[test]
fn len_all_tables_counts_every_table() {
    let mut db = Database::open("/tmp/dbless_comb_len_all.db").unwrap();
    db.delete_all_tables().unwrap();
    len_all_on(&mut db);
    let mut db = Database::in_memory().unwrap();
    len_all_on(&mut db);
}

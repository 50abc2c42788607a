//! The two interface traits make the database and a mutable table handle
//! interchangeable: generic code written against them must behave the same
//! over either, on either backend.
use dbless::Database;
use dbless::TableReadInterface;
use dbless::TableWriteInterface;

fn exercise<H: TableWriteInterface>(h: &mut H) {
    assert_eq!(h.get::<i32>("num").unwrap(), None);
    h.set("num", &7).unwrap();
    assert_eq!(h.get::<i32>("num").unwrap(), Some(7));
    assert!(h.contains_key("num").unwrap());
    assert_eq!(h.len().unwrap(), 1);
    assert_eq!(h.get_or("other", 3).unwrap(), 3);
    assert_eq!(h.get_or_else("other", || 4).unwrap(), 4);
    assert_eq!(h.get_or_default::<i32>("other").unwrap(), 0);
    assert_eq!(h.get_or_insert("other", 5).unwrap(), 5);
    assert_eq!(h.get_or_insert_with("other", || 6).unwrap(), 5);
    assert_eq!(h.get_or_insert_default::<i32>("third").unwrap(), 0);
    assert_eq!(h.keys().unwrap().len(), 3);
    assert_eq!(h.values::<i32>().unwrap().len(), 3);
    assert_eq!(h.entries::<i32>().unwrap().len(), 3);
    h.delete("third").unwrap();
    assert_eq!(h.size().unwrap(), 2);
    assert!(!h.has("third").unwrap());
    h.reset().unwrap();
    assert!(h.is_empty().unwrap());
    assert_eq!(h.entries::<i32>().unwrap(), Vec::<(String, i32)>::new());
}

fn read_only<H: TableReadInterface>(h: &H) -> usize {
    assert!(!h.contains("nothing").unwrap());
    h.len().unwrap()
}

#[test]
fn generic_code_runs_on_database_and_handle() {
    let mut db = Database::open("/tmp/dbless_iface_generic.db").unwrap();
    db.delete_all_tables().unwrap();
    exercise(&mut db);
    assert_eq!(read_only(&db), 0);
    {
        let mut t = db.table_mut("via-trait");
        exercise(&mut t);
        assert_eq!(read_only(&t), 0);
    }

    let mut db = Database::in_memory().unwrap();
    exercise(&mut db);
    assert_eq!(read_only(&db), 0);
    {
        let mut t = db.table_mut("via-trait");
        exercise(&mut t);
        assert_eq!(read_only(&t), 0);
    }
    assert_eq!(read_only(&db.table("via-trait")), 0);
}

//! A minimal key-value persistence facade: named tables of string-keyed,
//! serialized values, backed either by a durable on-disk engine or by a
//! volatile in-memory map. A `Database` owns one store and a default table
//! name, so the database itself can be used exactly like one table; other
//! tables are reached through `Table` and `TableMut` handles.
use vstd::prelude::*;

mod codec;
pub mod laws;
pub mod model;
mod store;
mod table;

pub use store::Store;
pub use table::{Table, TableMut, TableReadInterface, TableWriteInterface};

use crate::model::{empty_model, is_total_len, table_model, views_of, with_entry, without_entry, StoreModel};

verus! {

/// The error type of every fallible operation of this crate.
#[derive(Debug, Clone)]
pub enum Error {
    /// The storage engine could not open a file, begin a transaction, or
    /// commit one.
    Backend(String),
    /// Stored bytes could not be decoded as the requested type, or a value
    /// could not be encoded.
    Codec(String),
}

impl Error {
    /// True for the backend variant.
    pub fn is_backend(&self) -> (r: bool)
        ensures
            r == (self is Backend),
    {
        match self {
            Error::Backend(_) => true,
            Error::Codec(_) => false,
        }
    }

    /// True for the codec variant.
    pub fn is_codec(&self) -> (r: bool)
        ensures
            r == (self is Codec),
    {
        match self {
            Error::Backend(_) => false,
            Error::Codec(_) => true,
        }
    }
}

/// The reserved table that a database's own read/write methods target until
/// `set_default_table` rebinds them; unlikely to collide with user tables.
pub const DEFAULT_DEFAULT_TABLE: &'static str = "#_#_main_dbless_table_#_#";

/// A database: one store and the name of its default table.
pub struct Database {
    store: Store,
    default_table: String,
}

impl Database {
    /// The tables the database holds: table name -> (key -> stored bytes).
    pub closed spec fn view(self) -> StoreModel {
        self.store@
    }

    /// The name of the table the database's own methods target.
    pub closed spec fn default_table_name(self) -> Seq<char> {
        self.default_table@
    }

    /// The contents of the default table.
    pub open spec fn default_table_model(self) -> Map<Seq<char>, Seq<u8>> {
        table_model(self.view(), self.default_table_name())
    }

    /// The database's internal invariant.
    pub closed spec fn wf(self) -> bool {
        self.store.wf() && self.default_table@.len() > 0
    }

    /// Whether the durable backend is active.
    pub closed spec fn is_durable(self) -> bool {
        self.store.is_durable()
    }

    /// Opens a file at the given path and uses it as the database, creating
    /// the file when it does not exist.
    pub fn open(path: &str) -> (r: Result<Database, Error>)
        ensures
            r matches Ok(db) ==> db.wf() && db.is_durable() && db.default_table_name()
                == DEFAULT_DEFAULT_TABLE@,
    {
        proof {
            reveal_strlit("#_#_main_dbless_table_#_#");
        }
        match Store::file(path) {
            Ok(store) => Ok(Database { store, default_table: DEFAULT_DEFAULT_TABLE.to_owned() }),
            Err(e) => Err(e),
        }
    }

    /// Opens an in-memory database: nothing is saved to disk.
    pub fn in_memory() -> (r: Result<Database, Error>)
        ensures
            r matches Ok(db) ==> db.wf() && !db.is_durable() && db@ == empty_model()
                && db.default_table_name() == DEFAULT_DEFAULT_TABLE@,
    {
        proof {
            reveal_strlit("#_#_main_dbless_table_#_#");
        }
        match Store::in_memory() {
            Ok(store) => Ok(Database { store, default_table: DEFAULT_DEFAULT_TABLE.to_owned() }),
            Err(e) => Err(e),
        }
    }

    /// Closes the database, releasing the backend's resources; every
    /// committed write is already durable.
    pub fn close(self) {
    }

    /// A read-only handle to the table with the given name.
    pub fn table<'a>(&'a self, name: &'a str) -> (r: Table<'a>)
        requires
            self.wf(),
            name@.len() > 0,
        ensures
            r.wf(),
            *r.store == self.store_spec(),
            r.name@ == name@,
            r@ == table_model(self@, name@),
            r.durable() == self.is_durable(),
    {
        Table { store: &self.store, name }
    }

    /// A read-write handle to the table with the given name.
    pub fn table_mut<'a>(&'a mut self, name: &'a str) -> (r: TableMut<'a>)
        requires
            old(self).wf(),
            name@.len() > 0,
        ensures
            r.wf(),
            r.name@ == name@,
            *r.store == old(self).store_spec(),
            r.durable() == old(self).is_durable(),
            final(self).store_spec() == *final(r.store),
            final(self).default_table_name() == old(self).default_table_name(),
    {
        TableMut { store: &mut self.store, name }
    }

    /// The store itself, as a specification-level value.
    pub closed spec fn store_spec(self) -> Store {
        self.store
    }

    /// The names of all tables, excluding the reserved default table.
    pub fn list_tables(&self) -> (r: Result<Vec<String>, Error>)
        requires
            self.wf(),
        ensures
            r matches Ok(ts) ==> views_of(ts@).no_duplicates(),
            r matches Ok(ts) ==> views_of(ts@).to_set() == self@.dom().remove(
                self.default_table_name(),
            ),
            !self.is_durable() ==> r is Ok,
    {
        let all = match self.store.list_tables() {
            Ok(ts) => ts,
            Err(e) => return Err(e),
        };
        let ghost s = all@;
        let ghost vs = views_of(s);
        let ghost d = self.default_table@;
        let mut out: Vec<String> = Vec::new();
        let mut i: usize = 0;
        while i < all.len()
            invariant
                i <= s.len(),
                all@ == s,
                vs == views_of(s),
                d == self.default_table@,
                vs.no_duplicates(),
                forall|a: int| 0 <= a < out@.len() ==> #[trigger] out@[a]@ != d,
                forall|a: int|
                    0 <= a < out@.len() ==> exists|jj: int|
                        0 <= jj < i && #[trigger] out@[a]@ == #[trigger] vs[jj],
                forall|a: int, b: int| 0 <= a < b < out@.len() ==> out@[a]@ != out@[b]@,
                forall|jj: int|
                    0 <= jj < i && vs[jj] != d ==> exists|a: int|
                        0 <= a < out@.len() && out@[a]@ == #[trigger] vs[jj],
            decreases s.len() - i,
        {
            let ghost i0 = i as int;
            if !crate::store::str_eq(all[i].as_str(), self.default_table.as_str()) {
                let ghost out0 = out@;
                out.push(all[i].clone());
                proof {
                    assert(out@[out@.len() - 1]@ == vs[i0]);
                    assert forall|a: int| 0 <= a < out@.len() - 1 implies out@[a]@ != vs[i0] by {
                        assert(out@[a] == out0[a]);
                        let jj = choose|jj: int| 0 <= jj < i0 && #[trigger] out0[a]@ == vs[jj];
                        assert(vs[jj] != vs[i0]);
                    }
                    assert forall|a: int| 0 <= a < out@.len() implies exists|jj: int|
                        0 <= jj < i0 + 1 && #[trigger] out@[a]@ == vs[jj] by {
                        if a == out@.len() - 1 {
                            assert(out@[a]@ == vs[i0]);
                        } else {
                            assert(out@[a] == out0[a]);
                            let jj = choose|jj: int| 0 <= jj < i0 && #[trigger] out0[a]@ == vs[jj];
                            assert(out@[a]@ == vs[jj]);
                        }
                    }
                    assert forall|jj: int| 0 <= jj < i0 + 1 && vs[jj] != d implies exists|a: int|
                        0 <= a < out@.len() && out@[a]@ == #[trigger] vs[jj] by {
                        if jj == i0 {
                            assert(out@[out@.len() - 1]@ == vs[jj]);
                        } else {
                            let a = choose|a: int|
                                0 <= a < out0.len() && out0[a]@ == #[trigger] vs[jj];
                            assert(out@[a]@ == vs[jj]);
                        }
                    }
                }
            } else {
                proof {
                    assert(vs[i0] == d);
                    assert forall|jj: int| 0 <= jj < i0 + 1 && vs[jj] != d implies exists|a: int|
                        0 <= a < out@.len() && out@[a]@ == #[trigger] vs[jj] by {
                        assert(jj < i0);
                    }
                    assert forall|a: int| 0 <= a < out@.len() implies exists|jj: int|
                        0 <= jj < i0 + 1 && #[trigger] out@[a]@ == vs[jj] by {
                        let jj = choose|jj: int| 0 <= jj < i0 && #[trigger] out@[a]@ == vs[jj];
                        assert(out@[a]@ == vs[jj]);
                    }
                }
            }
            i += 1;
        }
        proof {
            let ws = views_of(out@);
            assert(forall|a: int| 0 <= a < ws.len() ==> #[trigger] ws[a] == out@[a]@);
            assert forall|a: int, b: int|
                0 <= a < ws.len() && 0 <= b < ws.len() && a != b implies ws[a] != ws[b] by {
                assert(ws[a] == out@[a]@ && ws[b] == out@[b]@);
            }
            assert(ws.no_duplicates());
            assert forall|t: Seq<char>| ws.to_set().contains(t) implies self@.dom().remove(
                d,
            ).contains(t) by {
                let a = choose|a: int| 0 <= a < ws.len() && ws[a] == t;
                let jj = choose|jj: int| 0 <= jj < s.len() && #[trigger] out@[a]@ == vs[jj];
                assert(vs.to_set().contains(vs[jj]));
            }
            assert forall|t: Seq<char>| self@.dom().remove(d).contains(t) implies ws.to_set()
                .contains(t) by {
                assert(vs.to_set().contains(t));
                let jj = choose|jj: int| 0 <= jj < vs.len() && vs[jj] == t;
                let a = choose|a: int| 0 <= a < out@.len() && out@[a]@ == vs[jj];
                assert(ws[a] == t);
            }
            assert(ws.to_set() =~= self@.dom().remove(d));
        }
        Ok(out)
    }

    /// Deletes the named table entirely, on both backends: it stops being
    /// listed, never lingering as a tombstone, and a later read sees it
    /// empty; deleting an absent table is a no-op.
    pub fn delete_table(&mut self, name: &str) -> (r: Result<(), Error>)
        requires
            old(self).wf(),
            name@.len() > 0,
        ensures
            final(self).wf(),
            final(self).is_durable() == old(self).is_durable(),
            final(self).default_table_name() == old(self).default_table_name(),
            r is Ok ==> final(self)@ == old(self)@.remove(name@),
            r is Ok ==> table_model(final(self)@, name@) == Map::<Seq<char>, Seq<u8>>::empty(),
            r is Err ==> final(self)@ == old(self)@,
            !old(self).is_durable() ==> r is Ok,
    {
        self.store.delete_table(name)
    }

    /// The number of entries in all tables together.
    pub fn len_all_tables(&self) -> (r: Result<usize, Error>)
        requires
            self.wf(),
        ensures
            r matches Ok(n) ==> is_total_len(self@, n as nat),
            !self.is_durable() ==> (r is Err ==> exists|n: nat|
                is_total_len(self@, n) && n > usize::MAX),
    {
        let r = self.store.len_all_tables();
        proof {
            if r is Err && !self.is_durable() {
                let n = choose|n: nat| is_total_len(self.store@, n) && n > usize::MAX;
                assert(is_total_len(self@, n) && n > usize::MAX);
            }
        }
        r
    }

    /// The number of entries in all tables together; an alias of
    /// `len_all_tables`.
    pub fn size_all_tables(&self) -> (r: Result<usize, Error>)
        requires
            self.wf(),
        ensures
            r matches Ok(n) ==> is_total_len(self@, n as nat),
            !self.is_durable() ==> (r is Err ==> exists|n: nat|
                is_total_len(self@, n) && n > usize::MAX),
    {
        self.len_all_tables()
    }

    /// Deletes every table; on the durable backend in one all-or-nothing
    /// transaction.
    pub fn delete_all_tables(&mut self) -> (r: Result<(), Error>)
        requires
            old(self).wf(),
        ensures
            final(self).wf(),
            final(self).is_durable() == old(self).is_durable(),
            final(self).default_table_name() == old(self).default_table_name(),
            r is Ok ==> final(self)@ == empty_model(),
            r is Err ==> final(self)@ == old(self)@,
            !old(self).is_durable() ==> r is Ok,
    {
        self.store.clear_all_tables()
    }

    /// A read-only handle to the default table.
    pub fn default_table(&self) -> (r: Table<'_>)
        requires
            self.wf(),
        ensures
            r.wf(),
            *r.store == self.store_spec(),
            r.name@ == self.default_table_name(),
            r@ == self.default_table_model(),
            r.durable() == self.is_durable(),
    {
        Table { store: &self.store, name: self.default_table.as_str() }
    }

    /// A read-write handle to the default table.
    pub fn default_table_mut(&mut self) -> (r: TableMut<'_>)
        requires
            old(self).wf(),
        ensures
            r.wf(),
            r.name@ == old(self).default_table_name(),
            *r.store == old(self).store_spec(),
            r.durable() == old(self).is_durable(),
            final(self).store_spec() == *final(r.store),
            final(self).default_table_name() == old(self).default_table_name(),
    {
        let name = self.default_table.as_str();
        TableMut { store: &mut self.store, name }
    }

    /// Rebinds which table the database's own methods target; existing data
    /// is neither moved nor renamed.
    pub fn set_default_table(&mut self, name: &str)
        requires
            old(self).wf(),
            name@.len() > 0,
        ensures
            final(self).wf(),
            final(self)@ == old(self)@,
            final(self).is_durable() == old(self).is_durable(),
            final(self).default_table_name() == name@,
    {
        self.default_table = name.to_owned();
    }

    /// The value stored under `key` in the default table, decoded as `T`.
    pub fn get<T: serde::de::DeserializeOwned>(&self, key: &str) -> (r: Result<Option<T>, Error>)
        requires
            self.wf(),
        ensures
            r matches Ok(None) ==> !self.default_table_model().contains_key(key@),
            r matches Ok(Some(_)) ==> self.default_table_model().contains_key(key@),
            !self.is_durable() ==> (r matches Ok(None) <==> !self.default_table_model().contains_key(
                key@,
            )),
            !self.is_durable() ==> (r matches Err(e) ==> e is Codec
                && self.default_table_model().contains_key(key@)),
    {
        self.store.get(self.default_table.as_str(), key)
    }

    /// All keys of the default table, each once.
    pub fn keys(&self) -> (r: Result<Vec<String>, Error>)
        requires
            self.wf(),
        ensures
            r matches Ok(ks) ==> ks@.len() == self.default_table_model().dom().len(),
            r matches Ok(ks) ==> views_of(ks@).no_duplicates(),
            r matches Ok(ks) ==> views_of(ks@).to_set() == self.default_table_model().dom(),
            !self.is_durable() ==> r is Ok,
    {
        self.store.keys(self.default_table.as_str())
    }

    /// All values of the default table that decode as `T`.
    pub fn values<T: serde::de::DeserializeOwned>(&self) -> (r: Result<Vec<T>, Error>)
        requires
            self.wf(),
        ensures
            r matches Ok(vs) ==> vs@.len() <= self.default_table_model().dom().len(),
            !self.is_durable() ==> r is Ok,
    {
        self.store.values(self.default_table.as_str())
    }

    /// All entries of the default table whose value decodes as `T`.
    pub fn entries<T: serde::de::DeserializeOwned>(&self) -> (r: Result<Vec<(String, T)>, Error>)
        requires
            self.wf(),
        ensures
            r matches Ok(es) ==> es@.len() <= self.default_table_model().dom().len(),
            r matches Ok(es) ==> forall|a: int|
                0 <= a < es@.len() ==> self.default_table_model().contains_key(#[trigger] es@[a].0@),
            r matches Ok(es) ==> forall|a: int, b: int|
                0 <= a < b < es@.len() ==> es@[a].0@ != es@[b].0@,
            !self.is_durable() ==> r is Ok,
    {
        self.store.entries(self.default_table.as_str())
    }

    /// The number of entries in the default table; the whole database is
    /// counted by `len_all_tables`.
    pub fn len(&self) -> (r: Result<usize, Error>)
        requires
            self.wf(),
        ensures
            r matches Ok(n) ==> n == self.default_table_model().dom().len(),
            !self.is_durable() ==> r is Ok,
    {
        self.store.len(self.default_table.as_str())
    }

    /// Whether the default table has no entries.
    pub fn is_empty(&self) -> (r: Result<bool, Error>)
        requires
            self.wf(),
        ensures
            r matches Ok(b) ==> b == (self.default_table_model().dom().len() == 0),
            !self.is_durable() ==> r is Ok,
    {
        self.store.is_empty(self.default_table.as_str())
    }

    /// Whether the default table holds `key`.
    pub fn contains_key(&self, key: &str) -> (r: Result<bool, Error>)
        requires
            self.wf(),
        ensures
            r matches Ok(b) ==> b == self.default_table_model().contains_key(key@),
            !self.is_durable() ==> r is Ok,
    {
        self.store.contains_key(self.default_table.as_str(), key)
    }

    /// The number of entries in the default table; an alias of `len`.
    pub fn size(&self) -> (r: Result<usize, Error>)
        requires
            self.wf(),
        ensures
            r matches Ok(n) ==> n == self.default_table_model().dom().len(),
            !self.is_durable() ==> r is Ok,
    {
        self.len()
    }

    /// Whether the default table holds `key`; an alias of `contains_key`.
    pub fn contains(&self, key: &str) -> (r: Result<bool, Error>)
        requires
            self.wf(),
        ensures
            r matches Ok(b) ==> b == self.default_table_model().contains_key(key@),
            !self.is_durable() ==> r is Ok,
    {
        self.contains_key(key)
    }

    /// Whether the default table holds `key`; an alias of `contains_key`.
    pub fn has(&self, key: &str) -> (r: Result<bool, Error>)
        requires
            self.wf(),
        ensures
            r matches Ok(b) ==> b == self.default_table_model().contains_key(key@),
            !self.is_durable() ==> r is Ok,
    {
        self.contains_key(key)
    }

    /// The value under `key` in the default table, or `default` when absent.
    /// A decode failure still propagates; only absence is substituted.
    pub fn get_or<T: serde::de::DeserializeOwned>(&self, key: &str, default: T) -> (r: Result<
        T,
        Error,
    >)
        requires
            self.wf(),
        ensures
            !self.default_table_model().contains_key(key@) && r is Ok ==> r == Ok::<T, Error>(
                default,
            ),
            !self.is_durable() && !self.default_table_model().contains_key(key@) ==> r == Ok::<
                T,
                Error,
            >(default),
    {
        match self.get::<T>(key) {
            Err(e) => Err(e),
            Ok(Some(v)) => Ok(v),
            Ok(None) => Ok(default),
        }
    }

    /// The value under `key` in the default table, or the result of
    /// `default()` when absent; the thunk runs on the calling thread and only
    /// on absence.
    pub fn get_or_else<T: serde::de::DeserializeOwned, F: FnOnce() -> T>(
        &self,
        key: &str,
        default: F,
    ) -> (r: Result<T, Error>)
        requires
            self.wf(),
            call_requires(default, ()),
        ensures
            !self.default_table_model().contains_key(key@) ==> (r matches Ok(v) ==> call_ensures(
                default,
                (),
                v,
            )),
            !self.is_durable() && !self.default_table_model().contains_key(key@) ==> r is Ok,
    {
        match self.get::<T>(key) {
            Err(e) => Err(e),
            Ok(Some(v)) => Ok(v),
            Ok(None) => Ok(default()),
        }
    }

    /// The value under `key` in the default table, or the type's default
    /// value when absent.
    pub fn get_or_default<T: serde::de::DeserializeOwned + Default>(&self, key: &str) -> (r: Result<
        T,
        Error,
    >)
        requires
            self.wf(),
        ensures
            !self.is_durable() && !self.default_table_model().contains_key(key@) ==> r is Ok,
    {
        match self.get::<T>(key) {
            Err(e) => Err(e),
            Ok(Some(v)) => Ok(v),
            Ok(None) => Ok(T::default()),
        }
    }

    /// Serializes `value` and stores it under `key` in the default table; on
    /// any error the database is unchanged.
    pub fn insert<T: serde::Serialize>(&mut self, key: &str, value: &T) -> (r: Result<(), Error>)
        requires
            old(self).wf(),
        ensures
            final(self).wf(),
            final(self).is_durable() == old(self).is_durable(),
            final(self).default_table_name() == old(self).default_table_name(),
            r is Ok ==> exists|b: Seq<u8>|
                final(self)@ == with_entry(
                    old(self)@,
                    old(self).default_table_name(),
                    key@,
                    b,
                ),
            r is Err ==> final(self)@ == old(self)@,
    {
        let ghost m0 = self.store@;
        let name = self.default_table.as_str();
        let r = self.store.insert(name, key, value);
        proof {
            if r is Ok {
                let b = choose|b: Seq<u8>| (self.store)@ == with_entry(m0, name@, key@, b);
                assert(final(self)@ == with_entry(
                    old(self)@,
                    old(self).default_table_name(),
                    key@,
                    b,
                ));
            }
        }
        r
    }

    /// Removes `key` from the default table; an absent key is a no-op.
    pub fn remove(&mut self, key: &str) -> (r: Result<(), Error>)
        requires
            old(self).wf(),
        ensures
            final(self).wf(),
            final(self).is_durable() == old(self).is_durable(),
            final(self).default_table_name() == old(self).default_table_name(),
            r is Ok ==> final(self)@ == without_entry(
                old(self)@,
                old(self).default_table_name(),
                key@,
            ),
            r is Err ==> final(self)@ == old(self)@,
            !old(self).is_durable() ==> r is Ok,
    {
        self.store.remove(self.default_table.as_str(), key)
    }

    /// Empties the default table only; the whole database is cleared by
    /// `delete_all_tables`.
    pub fn clear(&mut self) -> (r: Result<(), Error>)
        requires
            old(self).wf(),
        ensures
            final(self).wf(),
            final(self).is_durable() == old(self).is_durable(),
            final(self).default_table_name() == old(self).default_table_name(),
            r is Ok ==> final(self).default_table_model() == Map::<Seq<char>, Seq<u8>>::empty(),
            r is Ok && old(self).is_durable() ==> final(self)@ == old(self)@.remove(
                old(self).default_table_name(),
            ),
            r is Ok && !old(self).is_durable() ==> final(self)@ == old(self)@.insert(
                old(self).default_table_name(),
                Map::empty(),
            ),
            r is Err ==> final(self)@ == old(self)@,
            !old(self).is_durable() ==> r is Ok,
    {
        self.store.clear(self.default_table.as_str())
    }

    /// Stores `value` under `key` in the default table; an alias of `insert`.
    pub fn set<T: serde::Serialize>(&mut self, key: &str, value: &T) -> (r: Result<(), Error>)
        requires
            old(self).wf(),
        ensures
            final(self).wf(),
            final(self).is_durable() == old(self).is_durable(),
            final(self).default_table_name() == old(self).default_table_name(),
            r is Ok ==> exists|b: Seq<u8>|
                final(self)@ == with_entry(
                    old(self)@,
                    old(self).default_table_name(),
                    key@,
                    b,
                ),
            r is Err ==> final(self)@ == old(self)@,
    {
        self.insert(key, value)
    }

    /// Removes `key` from the default table; an alias of `remove`.
    pub fn delete(&mut self, key: &str) -> (r: Result<(), Error>)
        requires
            old(self).wf(),
        ensures
            final(self).wf(),
            final(self).is_durable() == old(self).is_durable(),
            final(self).default_table_name() == old(self).default_table_name(),
            r is Ok ==> final(self)@ == without_entry(
                old(self)@,
                old(self).default_table_name(),
                key@,
            ),
            r is Err ==> final(self)@ == old(self)@,
            !old(self).is_durable() ==> r is Ok,
    {
        self.remove(key)
    }

    /// Empties the default table; an alias of `clear`.
    pub fn reset(&mut self) -> (r: Result<(), Error>)
        requires
            old(self).wf(),
        ensures
            final(self).wf(),
            final(self).is_durable() == old(self).is_durable(),
            final(self).default_table_name() == old(self).default_table_name(),
            r is Ok ==> final(self).default_table_model() == Map::<Seq<char>, Seq<u8>>::empty(),
            r is Err ==> final(self)@ == old(self)@,
            !old(self).is_durable() ==> r is Ok,
    {
        self.clear()
    }

    /// The value under `key` in the default table if present; otherwise
    /// stores `default` and returns it. The read and the write are two
    /// separate backend operations, not one atomic step.
    pub fn get_or_insert<T: serde::Serialize + serde::de::DeserializeOwned>(
        &mut self,
        key: &str,
        default: T,
    ) -> (r: Result<T, Error>)
        requires
            old(self).wf(),
        ensures
            final(self).wf(),
            final(self).is_durable() == old(self).is_durable(),
            final(self).default_table_name() == old(self).default_table_name(),
            old(self).default_table_model().contains_key(key@) ==> final(self)@ == old(self)@,
            r is Err ==> final(self)@ == old(self)@,
            !old(self).default_table_model().contains_key(key@) && r is Ok ==> r == Ok::<T, Error>(
                default,
            ) && exists|b: Seq<u8>|
                final(self)@ == with_entry(
                    old(self)@,
                    old(self).default_table_name(),
                    key@,
                    b,
                ),
            r is Ok ==> final(self).default_table_model().contains_key(key@),
    {
        match self.get::<T>(key) {
            Err(e) => Err(e),
            Ok(Some(v)) => Ok(v),
            Ok(None) => {
                match self.insert(key, &default) {
                    Ok(()) => Ok(default),
                    Err(e) => Err(e),
                }
            },
        }
    }

    /// The value under `key` in the default table if present; otherwise
    /// computes `default()`, stores the result and returns it. The thunk runs
    /// only on absence; the read and the write are two separate backend
    /// operations, not one atomic step.
    pub fn get_or_insert_with<
        T: serde::Serialize + serde::de::DeserializeOwned,
        F: FnOnce() -> T,
    >(&mut self, key: &str, default: F) -> (r: Result<T, Error>)
        requires
            old(self).wf(),
            call_requires(default, ()),
        ensures
            final(self).wf(),
            final(self).is_durable() == old(self).is_durable(),
            final(self).default_table_name() == old(self).default_table_name(),
            old(self).default_table_model().contains_key(key@) ==> final(self)@ == old(self)@,
            r is Err ==> final(self)@ == old(self)@,
            !old(self).default_table_model().contains_key(key@) && r is Ok ==> (r matches Ok(v)
                ==> call_ensures(default, (), v)) && exists|b: Seq<u8>|
                final(self)@ == with_entry(
                    old(self)@,
                    old(self).default_table_name(),
                    key@,
                    b,
                ),
            r is Ok ==> final(self).default_table_model().contains_key(key@),
    {
        match self.get::<T>(key) {
            Err(e) => Err(e),
            Ok(Some(v)) => Ok(v),
            Ok(None) => {
                let v = default();
                match self.insert(key, &v) {
                    Ok(()) => Ok(v),
                    Err(e) => Err(e),
                }
            },
        }
    }

    /// The value under `key` in the default table if present; otherwise
    /// stores the type's default value and returns it.
    pub fn get_or_insert_default<
        T: serde::Serialize + serde::de::DeserializeOwned + Default,
    >(&mut self, key: &str) -> (r: Result<T, Error>)
        requires
            old(self).wf(),
        ensures
            final(self).wf(),
            final(self).is_durable() == old(self).is_durable(),
            final(self).default_table_name() == old(self).default_table_name(),
            old(self).default_table_model().contains_key(key@) ==> final(self)@ == old(self)@,
            r is Err ==> final(self)@ == old(self)@,
            r is Ok ==> final(self).default_table_model().contains_key(key@),
    {
        match self.get::<T>(key) {
            Err(e) => Err(e),
            Ok(Some(v)) => Ok(v),
            Ok(None) => {
                let v = T::default();
                match self.insert(key, &v) {
                    Ok(()) => Ok(v),
                    Err(e) => Err(e),
                }
            },
        }
    }
}

impl TableReadInterface for Database {
    open spec fn table_view(&self) -> Map<Seq<char>, Seq<u8>> {
        self.default_table_model()
    }

    open spec fn handle_wf(&self) -> bool {
        self.wf()
    }

    open spec fn handle_durable(&self) -> bool {
        self.is_durable()
    }

    fn get<T: serde::de::DeserializeOwned>(&self, key: &str) -> (r: Result<Option<T>, Error>) {
        Database::get(self, key)
    }

    fn keys(&self) -> (r: Result<Vec<String>, Error>) {
        Database::keys(self)
    }

    fn values<T: serde::de::DeserializeOwned>(&self) -> (r: Result<Vec<T>, Error>) {
        Database::values(self)
    }

    fn entries<T: serde::de::DeserializeOwned>(&self) -> (r: Result<Vec<(String, T)>, Error>) {
        Database::entries(self)
    }

    fn len(&self) -> (r: Result<usize, Error>) {
        Database::len(self)
    }

    fn is_empty(&self) -> (r: Result<bool, Error>) {
        Database::is_empty(self)
    }

    fn contains_key(&self, key: &str) -> (r: Result<bool, Error>) {
        Database::contains_key(self, key)
    }

    fn size(&self) -> (r: Result<usize, Error>) {
        Database::size(self)
    }

    fn contains(&self, key: &str) -> (r: Result<bool, Error>) {
        Database::contains(self, key)
    }

    fn has(&self, key: &str) -> (r: Result<bool, Error>) {
        Database::has(self, key)
    }

    fn get_or<T: serde::de::DeserializeOwned>(&self, key: &str, default: T) -> (r: Result<
        T,
        Error,
    >) {
        Database::get_or(self, key, default)
    }

    fn get_or_else<T: serde::de::DeserializeOwned, F: FnOnce() -> T>(&self, key: &str, default: F)
        -> (r: Result<T, Error>) {
        Database::get_or_else(self, key, default)
    }

    fn get_or_default<T: serde::de::DeserializeOwned + Default>(&self, key: &str) -> (r: Result<
        T,
        Error,
    >) {
        Database::get_or_default(self, key)
    }
}

impl TableWriteInterface for Database {
    fn insert<T: serde::Serialize>(&mut self, key: &str, value: &T) -> (r: Result<(), Error>) {
        let r = Database::insert(self, key, value);
        proof {
            if r is Ok {
                let b = choose|b: Seq<u8>|
                    final(self)@ == with_entry(
                        old(self)@,
                        old(self).default_table_name(),
                        key@,
                        b,
                    );
                assert(final(self).table_view() == old(self).table_view().insert(key@, b));
            }
        }
        r
    }

    fn remove(&mut self, key: &str) -> (r: Result<(), Error>) {
        Database::remove(self, key)
    }

    fn clear(&mut self) -> (r: Result<(), Error>) {
        Database::clear(self)
    }

    fn set<T: serde::Serialize>(&mut self, key: &str, value: &T) -> (r: Result<(), Error>) {
        let r = Database::set(self, key, value);
        proof {
            if r is Ok {
                let b = choose|b: Seq<u8>|
                    final(self)@ == with_entry(
                        old(self)@,
                        old(self).default_table_name(),
                        key@,
                        b,
                    );
                assert(final(self).table_view() == old(self).table_view().insert(key@, b));
            }
        }
        r
    }

    fn delete(&mut self, key: &str) -> (r: Result<(), Error>) {
        Database::delete(self, key)
    }

    fn reset(&mut self) -> (r: Result<(), Error>) {
        Database::reset(self)
    }

    fn get_or_insert<T: serde::Serialize + serde::de::DeserializeOwned>(
        &mut self,
        key: &str,
        default: T,
    ) -> (r: Result<T, Error>) {
        let r = Database::get_or_insert(self, key, default);
        proof {
            if r is Ok && !old(self).table_view().contains_key(key@) {
                let b = choose|b: Seq<u8>|
                    final(self)@ == with_entry(
                        old(self)@,
                        old(self).default_table_name(),
                        key@,
                        b,
                    );
                assert(final(self).table_view() == old(self).table_view().insert(key@, b));
            }
        }
        r
    }

    fn get_or_insert_with<T: serde::Serialize + serde::de::DeserializeOwned, F: FnOnce() -> T>(
        &mut self,
        key: &str,
        default: F,
    ) -> (r: Result<T, Error>) {
        let r = Database::get_or_insert_with(self, key, default);
        proof {
            if r is Ok && !old(self).table_view().contains_key(key@) {
                let b = choose|b: Seq<u8>|
                    final(self)@ == with_entry(
                        old(self)@,
                        old(self).default_table_name(),
                        key@,
                        b,
                    );
                assert(final(self).table_view() == old(self).table_view().insert(key@, b));
            }
        }
        r
    }

    fn get_or_insert_default<T: serde::Serialize + serde::de::DeserializeOwned + Default>(
        &mut self,
        key: &str,
    ) -> (r: Result<T, Error>) {
        Database::get_or_insert_default(self, key)
    }
}

} // verus!

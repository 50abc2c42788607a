//! Table handles: bind a store and a table name so that callers do not
//! repeat the name on every call. `Table` is the read-only handle; `TableMut`
//! adds the write operations and behaves identically to `Table` for every
//! read. The derived combinators (`get_or*`, `get_or_insert*`) are built from
//! `get` and `insert` alone, never from backend internals.
use vstd::prelude::*;

use crate::model::{table_model, views_of, with_entry, without_entry, StoreModel};
use crate::store::Store;
use crate::Error;

verus! {

/// The read operations of one table, shared by the read-only handle, the
/// read-write handle, and the database itself (which reads its default
/// table): a mutable handle behaves identically to a read-only one for every
/// read, and the combinators below are built from `get` alone.
pub trait TableReadInterface {
    /// The table read through this handle: key -> stored bytes.
    spec fn table_view(&self) -> Map<Seq<char>, Seq<u8>>;

    /// The handle is usable.
    spec fn handle_wf(&self) -> bool;

    /// Whether the reads go to the durable backend.
    spec fn handle_durable(&self) -> bool;

    /// The value stored under `key`, decoded as `T`. A missing key is
    /// `Ok(None)`; bytes of the wrong shape are a codec error.
    fn get<T: serde::de::DeserializeOwned>(&self, key: &str) -> (r: Result<Option<T>, Error>)
        requires
            self.handle_wf(),
        ensures
            r matches Ok(None) ==> !self.table_view().contains_key(key@),
            r matches Ok(Some(_)) ==> self.table_view().contains_key(key@),
            !self.handle_durable() ==> (r matches Ok(None) <==> !self.table_view().contains_key(
                key@,
            )),
            !self.handle_durable() ==> (r matches Err(e) ==> e is Codec
                && self.table_view().contains_key(key@)),
    ;

    /// All keys of the table, each once.
    fn keys(&self) -> (r: Result<Vec<String>, Error>)
        requires
            self.handle_wf(),
        ensures
            r matches Ok(ks) ==> ks@.len() == self.table_view().dom().len(),
            r matches Ok(ks) ==> views_of(ks@).no_duplicates(),
            r matches Ok(ks) ==> views_of(ks@).to_set() == self.table_view().dom(),
            !self.handle_durable() ==> r is Ok,
    ;

    /// All values that decode as `T`; undecodable entries are skipped.
    fn values<T: serde::de::DeserializeOwned>(&self) -> (r: Result<Vec<T>, Error>)
        requires
            self.handle_wf(),
        ensures
            r matches Ok(vs) ==> vs@.len() <= self.table_view().dom().len(),
            !self.handle_durable() ==> r is Ok,
    ;

    /// All entries whose value decodes as `T`; undecodable entries are
    /// skipped.
    fn entries<T: serde::de::DeserializeOwned>(&self) -> (r: Result<Vec<(String, T)>, Error>)
        requires
            self.handle_wf(),
        ensures
            r matches Ok(es) ==> es@.len() <= self.table_view().dom().len(),
            r matches Ok(es) ==> forall|a: int|
                0 <= a < es@.len() ==> self.table_view().contains_key(#[trigger] es@[a].0@),
            r matches Ok(es) ==> forall|a: int, b: int|
                0 <= a < b < es@.len() ==> es@[a].0@ != es@[b].0@,
            !self.handle_durable() ==> r is Ok,
    ;

    /// The number of entries.
    fn len(&self) -> (r: Result<usize, Error>)
        requires
            self.handle_wf(),
        ensures
            r matches Ok(n) ==> n == self.table_view().dom().len(),
            !self.handle_durable() ==> r is Ok,
    ;

    /// Whether the table has no entries.
    fn is_empty(&self) -> (r: Result<bool, Error>)
        requires
            self.handle_wf(),
        ensures
            r matches Ok(b) ==> b == (self.table_view().dom().len() == 0),
            !self.handle_durable() ==> r is Ok,
    ;

    /// Whether `key` is present.
    fn contains_key(&self, key: &str) -> (r: Result<bool, Error>)
        requires
            self.handle_wf(),
        ensures
            r matches Ok(b) ==> b == self.table_view().contains_key(key@),
            !self.handle_durable() ==> r is Ok,
    ;

    /// The number of entries; an alias of `len`.
    fn size(&self) -> (r: Result<usize, Error>)
        requires
            self.handle_wf(),
        ensures
            r matches Ok(n) ==> n == self.table_view().dom().len(),
            !self.handle_durable() ==> r is Ok,
    ;

    /// Whether `key` is present; an alias of `contains_key`.
    fn contains(&self, key: &str) -> (r: Result<bool, Error>)
        requires
            self.handle_wf(),
        ensures
            r matches Ok(b) ==> b == self.table_view().contains_key(key@),
            !self.handle_durable() ==> r is Ok,
    ;

    /// Whether `key` is present; an alias of `contains_key`.
    fn has(&self, key: &str) -> (r: Result<bool, Error>)
        requires
            self.handle_wf(),
        ensures
            r matches Ok(b) ==> b == self.table_view().contains_key(key@),
            !self.handle_durable() ==> r is Ok,
    ;

    /// The value under `key`, or `default` when the key is absent. A decode
    /// failure still propagates as an error; only absence is substituted.
    fn get_or<T: serde::de::DeserializeOwned>(&self, key: &str, default: T) -> (r: Result<T, Error>)
        requires
            self.handle_wf(),
        ensures
            !self.table_view().contains_key(key@) && r is Ok ==> r == Ok::<T, Error>(default),
            !self.handle_durable() && !self.table_view().contains_key(key@) ==> r == Ok::<T, Error>(
                default,
            ),
    ;

    /// The value under `key`, or the result of `default()` when the key is
    /// absent; the thunk runs on the calling thread and only on absence.
    fn get_or_else<T: serde::de::DeserializeOwned, F: FnOnce() -> T>(&self, key: &str, default: F)
        -> (r: Result<T, Error>)
        requires
            self.handle_wf(),
            call_requires(default, ()),
        ensures
            !self.table_view().contains_key(key@) ==> (r matches Ok(v) ==> call_ensures(
                default,
                (),
                v,
            )),
            !self.handle_durable() && !self.table_view().contains_key(key@) ==> r is Ok,
    ;

    /// The value under `key`, or the type's default value when absent.
    fn get_or_default<T: serde::de::DeserializeOwned + Default>(&self, key: &str) -> (r: Result<
        T,
        Error,
    >)
        requires
            self.handle_wf(),
        ensures
            !self.handle_durable() && !self.table_view().contains_key(key@) ==> r is Ok,
    ;
}

/// The write operations of one table, shared by the read-write handle and
/// the database itself (which writes its default table).
pub trait TableWriteInterface: TableReadInterface {
    /// Serializes `value` and stores it under `key`; on any error the table
    /// is unchanged.
    fn insert<T: serde::Serialize>(&mut self, key: &str, value: &T) -> (r: Result<(), Error>)
        requires
            old(self).handle_wf(),
        ensures
            final(self).handle_wf(),
            final(self).handle_durable() == old(self).handle_durable(),
            r is Ok ==> exists|b: Seq<u8>|
                final(self).table_view() == old(self).table_view().insert(key@, b),
            r is Err ==> final(self).table_view() == old(self).table_view(),
    ;

    /// Removes `key`; an absent key is a no-op, not an error.
    fn remove(&mut self, key: &str) -> (r: Result<(), Error>)
        requires
            old(self).handle_wf(),
        ensures
            final(self).handle_wf(),
            final(self).handle_durable() == old(self).handle_durable(),
            r is Ok ==> final(self).table_view() == old(self).table_view().remove(key@),
            r is Err ==> final(self).table_view() == old(self).table_view(),
            !old(self).handle_durable() ==> r is Ok,
    ;

    /// Empties the table: afterwards it reads as empty on either backend.
    fn clear(&mut self) -> (r: Result<(), Error>)
        requires
            old(self).handle_wf(),
        ensures
            final(self).handle_wf(),
            final(self).handle_durable() == old(self).handle_durable(),
            r is Ok ==> final(self).table_view() == Map::<Seq<char>, Seq<u8>>::empty(),
            r is Err ==> final(self).table_view() == old(self).table_view(),
            !old(self).handle_durable() ==> r is Ok,
    ;

    /// Stores `value` under `key`; an alias of `insert`.
    fn set<T: serde::Serialize>(&mut self, key: &str, value: &T) -> (r: Result<(), Error>)
        requires
            old(self).handle_wf(),
        ensures
            final(self).handle_wf(),
            final(self).handle_durable() == old(self).handle_durable(),
            r is Ok ==> exists|b: Seq<u8>|
                final(self).table_view() == old(self).table_view().insert(key@, b),
            r is Err ==> final(self).table_view() == old(self).table_view(),
    ;

    /// Removes `key`; an alias of `remove`.
    fn delete(&mut self, key: &str) -> (r: Result<(), Error>)
        requires
            old(self).handle_wf(),
        ensures
            final(self).handle_wf(),
            final(self).handle_durable() == old(self).handle_durable(),
            r is Ok ==> final(self).table_view() == old(self).table_view().remove(key@),
            r is Err ==> final(self).table_view() == old(self).table_view(),
            !old(self).handle_durable() ==> r is Ok,
    ;

    /// Empties the table; an alias of `clear`.
    fn reset(&mut self) -> (r: Result<(), Error>)
        requires
            old(self).handle_wf(),
        ensures
            final(self).handle_wf(),
            final(self).handle_durable() == old(self).handle_durable(),
            r is Ok ==> final(self).table_view() == Map::<Seq<char>, Seq<u8>>::empty(),
            r is Err ==> final(self).table_view() == old(self).table_view(),
            !old(self).handle_durable() ==> r is Ok,
    ;

    /// The value under `key` if present; otherwise stores `default` and
    /// returns it; the read and the write are two separate backend
    /// operations, not one atomic step.
    fn get_or_insert<T: serde::Serialize + serde::de::DeserializeOwned>(
        &mut self,
        key: &str,
        default: T,
    ) -> (r: Result<T, Error>)
        requires
            old(self).handle_wf(),
        ensures
            final(self).handle_wf(),
            final(self).handle_durable() == old(self).handle_durable(),
            old(self).table_view().contains_key(key@) ==> final(self).table_view() == old(
                self,
            ).table_view(),
            r is Err ==> final(self).table_view() == old(self).table_view(),
            !old(self).table_view().contains_key(key@) && r is Ok ==> r == Ok::<T, Error>(default)
                && exists|b: Seq<u8>|
                final(self).table_view() == old(self).table_view().insert(key@, b),
            r is Ok ==> final(self).table_view().contains_key(key@),
    ;

    /// The value under `key` if present; otherwise computes `default()`,
    /// stores the result and returns it; the thunk runs only on absence, and
    /// the read and the write are two separate backend operations.
    fn get_or_insert_with<T: serde::Serialize + serde::de::DeserializeOwned, F: FnOnce() -> T>(
        &mut self,
        key: &str,
        default: F,
    ) -> (r: Result<T, Error>)
        requires
            old(self).handle_wf(),
            call_requires(default, ()),
        ensures
            final(self).handle_wf(),
            final(self).handle_durable() == old(self).handle_durable(),
            old(self).table_view().contains_key(key@) ==> final(self).table_view() == old(
                self,
            ).table_view(),
            r is Err ==> final(self).table_view() == old(self).table_view(),
            !old(self).table_view().contains_key(key@) && r is Ok ==> (r matches Ok(v)
                ==> call_ensures(default, (), v)) && exists|b: Seq<u8>|
                final(self).table_view() == old(self).table_view().insert(key@, b),
            r is Ok ==> final(self).table_view().contains_key(key@),
    ;

    /// The value under `key` if present; otherwise stores the type's default
    /// value and returns it.
    fn get_or_insert_default<T: serde::Serialize + serde::de::DeserializeOwned + Default>(
        &mut self,
        key: &str,
    ) -> (r: Result<T, Error>)
        requires
            old(self).handle_wf(),
        ensures
            final(self).handle_wf(),
            final(self).handle_durable() == old(self).handle_durable(),
            old(self).table_view().contains_key(key@) ==> final(self).table_view() == old(
                self,
            ).table_view(),
            r is Err ==> final(self).table_view() == old(self).table_view(),
            r is Ok ==> final(self).table_view().contains_key(key@),
    ;
}

/// A read-only handle to one table.
pub struct Table<'a> {
    pub store: &'a Store,
    pub name: &'a str,
}

impl<'a> Table<'a> {
    /// The table's contents: key -> stored bytes.
    pub open spec fn view(self) -> Map<Seq<char>, Seq<u8>> {
        table_model((*self.store)@, self.name@)
    }

    /// The handle is usable: the store is well formed and the name is a
    /// table name.
    pub open spec fn wf(self) -> bool {
        (*self.store).wf() && self.name@.len() > 0
    }

    /// Whether the underlying store is the durable one.
    pub open spec fn durable(self) -> bool {
        (*self.store).is_durable()
    }

    /// The value stored under `key`, decoded as `T`. A missing key is
    /// `Ok(None)`; bytes of the wrong shape are a codec error.
    pub fn get<T: serde::de::DeserializeOwned>(&self, key: &str) -> (r: Result<Option<T>, Error>)
        requires
            self.wf(),
        ensures
            r matches Ok(None) ==> !self@.contains_key(key@),
            r matches Ok(Some(_)) ==> self@.contains_key(key@),
            !self.durable() ==> (r matches Ok(None) <==> !self@.contains_key(key@)),
            !self.durable() ==> (r matches Err(e) ==> e is Codec && self@.contains_key(key@)),
    {
        self.store.get(self.name, key)
    }

    /// All keys of the table, each once.
    pub fn keys(&self) -> (r: Result<Vec<String>, Error>)
        requires
            self.wf(),
        ensures
            r matches Ok(ks) ==> ks@.len() == self@.dom().len(),
            r matches Ok(ks) ==> views_of(ks@).no_duplicates(),
            r matches Ok(ks) ==> views_of(ks@).to_set() == self@.dom(),
            !self.durable() ==> r is Ok,
    {
        self.store.keys(self.name)
    }

    /// All values that decode as `T`; undecodable entries are skipped.
    pub fn values<T: serde::de::DeserializeOwned>(&self) -> (r: Result<Vec<T>, Error>)
        requires
            self.wf(),
        ensures
            r matches Ok(vs) ==> vs@.len() <= self@.dom().len(),
            !self.durable() ==> r is Ok,
    {
        self.store.values(self.name)
    }

    /// All entries whose value decodes as `T`; undecodable entries are
    /// skipped.
    pub fn entries<T: serde::de::DeserializeOwned>(&self) -> (r: Result<Vec<(String, T)>, Error>)
        requires
            self.wf(),
        ensures
            r matches Ok(es) ==> es@.len() <= self@.dom().len(),
            r matches Ok(es) ==> forall|a: int|
                0 <= a < es@.len() ==> self@.contains_key(#[trigger] es@[a].0@),
            r matches Ok(es) ==> forall|a: int, b: int|
                0 <= a < b < es@.len() ==> es@[a].0@ != es@[b].0@,
            !self.durable() ==> r is Ok,
    {
        self.store.entries(self.name)
    }

    /// The number of entries.
    pub fn len(&self) -> (r: Result<usize, Error>)
        requires
            self.wf(),
        ensures
            r matches Ok(n) ==> n == self@.dom().len(),
            !self.durable() ==> r is Ok,
    {
        self.store.len(self.name)
    }

    /// Whether the table has no entries.
    pub fn is_empty(&self) -> (r: Result<bool, Error>)
        requires
            self.wf(),
        ensures
            r matches Ok(b) ==> b == (self@.dom().len() == 0),
            !self.durable() ==> r is Ok,
    {
        self.store.is_empty(self.name)
    }

    /// Whether `key` is present.
    pub fn contains_key(&self, key: &str) -> (r: Result<bool, Error>)
        requires
            self.wf(),
        ensures
            r matches Ok(b) ==> b == self@.contains_key(key@),
            !self.durable() ==> r is Ok,
    {
        self.store.contains_key(self.name, key)
    }

    /// The number of entries; an alias of `len`.
    pub fn size(&self) -> (r: Result<usize, Error>)
        requires
            self.wf(),
        ensures
            r matches Ok(n) ==> n == self@.dom().len(),
            !self.durable() ==> r is Ok,
    {
        self.len()
    }

    /// Whether `key` is present; an alias of `contains_key`.
    pub fn contains(&self, key: &str) -> (r: Result<bool, Error>)
        requires
            self.wf(),
        ensures
            r matches Ok(b) ==> b == self@.contains_key(key@),
            !self.durable() ==> r is Ok,
    {
        self.contains_key(key)
    }

    /// Whether `key` is present; an alias of `contains_key`.
    pub fn has(&self, key: &str) -> (r: Result<bool, Error>)
        requires
            self.wf(),
        ensures
            r matches Ok(b) ==> b == self@.contains_key(key@),
            !self.durable() ==> r is Ok,
    {
        self.contains_key(key)
    }

    /// The value under `key`, or `default` when the key is absent. A decode
    /// failure still propagates as an error; only absence is substituted.
    pub fn get_or<T: serde::de::DeserializeOwned>(&self, key: &str, default: T) -> (r: Result<
        T,
        Error,
    >)
        requires
            self.wf(),
        ensures
            !self@.contains_key(key@) && r is Ok ==> r == Ok::<T, Error>(default),
            !self.durable() && !self@.contains_key(key@) ==> r == Ok::<T, Error>(default),
    {
        match self.get::<T>(key) {
            Err(e) => Err(e),
            Ok(Some(v)) => Ok(v),
            Ok(None) => Ok(default),
        }
    }

    /// The value under `key`, or the result of `default()` when the key is
    /// absent; the thunk runs on the calling thread and only on absence.
    pub fn get_or_else<T: serde::de::DeserializeOwned, F: FnOnce() -> T>(
        &self,
        key: &str,
        default: F,
    ) -> (r: Result<T, Error>)
        requires
            self.wf(),
            call_requires(default, ()),
        ensures
            !self@.contains_key(key@) ==> (r matches Ok(v) ==> call_ensures(default, (), v)),
            !self.durable() && !self@.contains_key(key@) ==> r is Ok,
    {
        match self.get::<T>(key) {
            Err(e) => Err(e),
            Ok(Some(v)) => Ok(v),
            Ok(None) => Ok(default()),
        }
    }

    /// The value under `key`, or the type's default value when absent.
    pub fn get_or_default<T: serde::de::DeserializeOwned + Default>(&self, key: &str) -> (r: Result<
        T,
        Error,
    >)
        requires
            self.wf(),
        ensures
            !self.durable() && !self@.contains_key(key@) ==> r is Ok,
    {
        match self.get::<T>(key) {
            Err(e) => Err(e),
            Ok(Some(v)) => Ok(v),
            Ok(None) => Ok(T::default()),
        }
    }
}

/// A read-write handle to one table.
pub struct TableMut<'a> {
    pub store: &'a mut Store,
    pub name: &'a str,
}

impl<'a> TableMut<'a> {
    /// The table's current contents: key -> stored bytes.
    pub open spec fn view(self) -> Map<Seq<char>, Seq<u8>> {
        table_model((*self.store)@, self.name@)
    }

    /// The whole store's current contents.
    pub open spec fn store_model(self) -> StoreModel {
        (*self.store)@
    }

    /// The handle is usable: the store is well formed and the name is a
    /// table name.
    pub open spec fn wf(self) -> bool {
        (*self.store).wf() && self.name@.len() > 0
    }

    /// Whether the underlying store is the durable one.
    pub open spec fn durable(self) -> bool {
        (*self.store).is_durable()
    }

    /// The value stored under `key`, decoded as `T`.
    pub fn get<T: serde::de::DeserializeOwned>(&self, key: &str) -> (r: Result<Option<T>, Error>)
        requires
            self.wf(),
        ensures
            r matches Ok(None) ==> !self@.contains_key(key@),
            r matches Ok(Some(_)) ==> self@.contains_key(key@),
            !self.durable() ==> (r matches Ok(None) <==> !self@.contains_key(key@)),
            !self.durable() ==> (r matches Err(e) ==> e is Codec && self@.contains_key(key@)),
    {
        self.store.get(self.name, key)
    }

    /// All keys of the table, each once.
    pub fn keys(&self) -> (r: Result<Vec<String>, Error>)
        requires
            self.wf(),
        ensures
            r matches Ok(ks) ==> ks@.len() == self@.dom().len(),
            r matches Ok(ks) ==> views_of(ks@).no_duplicates(),
            r matches Ok(ks) ==> views_of(ks@).to_set() == self@.dom(),
            !self.durable() ==> r is Ok,
    {
        self.store.keys(self.name)
    }

    /// All values that decode as `T`; undecodable entries are skipped.
    pub fn values<T: serde::de::DeserializeOwned>(&self) -> (r: Result<Vec<T>, Error>)
        requires
            self.wf(),
        ensures
            r matches Ok(vs) ==> vs@.len() <= self@.dom().len(),
            !self.durable() ==> r is Ok,
    {
        self.store.values(self.name)
    }

    /// All entries whose value decodes as `T`; undecodable entries are
    /// skipped.
    pub fn entries<T: serde::de::DeserializeOwned>(&self) -> (r: Result<Vec<(String, T)>, Error>)
        requires
            self.wf(),
        ensures
            r matches Ok(es) ==> es@.len() <= self@.dom().len(),
            r matches Ok(es) ==> forall|a: int|
                0 <= a < es@.len() ==> self@.contains_key(#[trigger] es@[a].0@),
            r matches Ok(es) ==> forall|a: int, b: int|
                0 <= a < b < es@.len() ==> es@[a].0@ != es@[b].0@,
            !self.durable() ==> r is Ok,
    {
        self.store.entries(self.name)
    }

    /// The number of entries.
    pub fn len(&self) -> (r: Result<usize, Error>)
        requires
            self.wf(),
        ensures
            r matches Ok(n) ==> n == self@.dom().len(),
            !self.durable() ==> r is Ok,
    {
        self.store.len(self.name)
    }

    /// Whether the table has no entries.
    pub fn is_empty(&self) -> (r: Result<bool, Error>)
        requires
            self.wf(),
        ensures
            r matches Ok(b) ==> b == (self@.dom().len() == 0),
            !self.durable() ==> r is Ok,
    {
        self.store.is_empty(self.name)
    }

    /// Whether `key` is present.
    pub fn contains_key(&self, key: &str) -> (r: Result<bool, Error>)
        requires
            self.wf(),
        ensures
            r matches Ok(b) ==> b == self@.contains_key(key@),
            !self.durable() ==> r is Ok,
    {
        self.store.contains_key(self.name, key)
    }

    /// The number of entries; an alias of `len`.
    pub fn size(&self) -> (r: Result<usize, Error>)
        requires
            self.wf(),
        ensures
            r matches Ok(n) ==> n == self@.dom().len(),
            !self.durable() ==> r is Ok,
    {
        self.len()
    }

    /// Whether `key` is present; an alias of `contains_key`.
    pub fn contains(&self, key: &str) -> (r: Result<bool, Error>)
        requires
            self.wf(),
        ensures
            r matches Ok(b) ==> b == self@.contains_key(key@),
            !self.durable() ==> r is Ok,
    {
        self.contains_key(key)
    }

    /// Whether `key` is present; an alias of `contains_key`.
    pub fn has(&self, key: &str) -> (r: Result<bool, Error>)
        requires
            self.wf(),
        ensures
            r matches Ok(b) ==> b == self@.contains_key(key@),
            !self.durable() ==> r is Ok,
    {
        self.contains_key(key)
    }

    /// The value under `key`, or `default` when the key is absent.
    pub fn get_or<T: serde::de::DeserializeOwned>(&self, key: &str, default: T) -> (r: Result<
        T,
        Error,
    >)
        requires
            self.wf(),
        ensures
            !self@.contains_key(key@) && r is Ok ==> r == Ok::<T, Error>(default),
            !self.durable() && !self@.contains_key(key@) ==> r == Ok::<T, Error>(default),
    {
        match self.get::<T>(key) {
            Err(e) => Err(e),
            Ok(Some(v)) => Ok(v),
            Ok(None) => Ok(default),
        }
    }

    /// The value under `key`, or the result of `default()` when absent.
    pub fn get_or_else<T: serde::de::DeserializeOwned, F: FnOnce() -> T>(
        &self,
        key: &str,
        default: F,
    ) -> (r: Result<T, Error>)
        requires
            self.wf(),
            call_requires(default, ()),
        ensures
            !self@.contains_key(key@) ==> (r matches Ok(v) ==> call_ensures(default, (), v)),
            !self.durable() && !self@.contains_key(key@) ==> r is Ok,
    {
        match self.get::<T>(key) {
            Err(e) => Err(e),
            Ok(Some(v)) => Ok(v),
            Ok(None) => Ok(default()),
        }
    }

    /// The value under `key`, or the type's default value when absent.
    pub fn get_or_default<T: serde::de::DeserializeOwned + Default>(&self, key: &str) -> (r: Result<
        T,
        Error,
    >)
        requires
            self.wf(),
        ensures
            !self.durable() && !self@.contains_key(key@) ==> r is Ok,
    {
        match self.get::<T>(key) {
            Err(e) => Err(e),
            Ok(Some(v)) => Ok(v),
            Ok(None) => Ok(T::default()),
        }
    }

    /// Serializes `value` and stores it under `key`; on any error the store
    /// is unchanged.
    pub fn insert<T: serde::Serialize>(&mut self, key: &str, value: &T) -> (r: Result<(), Error>)
        requires
            old(self).wf(),
        ensures
            *final(final(self).store) == *final(old(self).store),
            final(self).name@ == old(self).name@,
            final(self).durable() == old(self).durable(),
            final(self).wf(),
            r is Ok ==> exists|b: Seq<u8>|
                final(self).store_model() == with_entry(
                    old(self).store_model(),
                    old(self).name@,
                    key@,
                    b,
                ),
            r is Err ==> final(self).store_model() == old(self).store_model(),
    {
        let ghost m0 = (*self.store)@;
        let r = self.store.insert(self.name, key, value);
        proof {
            if r is Ok {
                let b = choose|b: Seq<u8>| (*self.store)@ == with_entry(m0, self.name@, key@, b);
                assert(final(self).store_model() == with_entry(
                    old(self).store_model(),
                    old(self).name@,
                    key@,
                    b,
                ));
            }
        }
        r
    }

    /// Removes `key`; an absent key is a no-op, not an error.
    pub fn remove(&mut self, key: &str) -> (r: Result<(), Error>)
        requires
            old(self).wf(),
        ensures
            *final(final(self).store) == *final(old(self).store),
            final(self).name@ == old(self).name@,
            final(self).durable() == old(self).durable(),
            final(self).wf(),
            r is Ok ==> final(self).store_model() == without_entry(
                old(self).store_model(),
                old(self).name@,
                key@,
            ),
            r is Err ==> final(self).store_model() == old(self).store_model(),
            !old(self).durable() ==> r is Ok,
    {
        self.store.remove(self.name, key)
    }

    /// Empties the table: afterwards it reads as empty. On the durable
    /// backend the table object is deleted and stops being listed; on the
    /// volatile backend the emptied table stays listed.
    pub fn clear(&mut self) -> (r: Result<(), Error>)
        requires
            old(self).wf(),
        ensures
            *final(final(self).store) == *final(old(self).store),
            final(self).name@ == old(self).name@,
            final(self).durable() == old(self).durable(),
            final(self).wf(),
            r is Ok ==> final(self)@ == Map::<Seq<char>, Seq<u8>>::empty(),
            r is Ok && old(self).durable() ==> final(self).store_model() == old(
                self,
            ).store_model().remove(old(self).name@),
            r is Ok && !old(self).durable() ==> final(self).store_model() == old(
                self,
            ).store_model().insert(old(self).name@, Map::empty()),
            r is Err ==> final(self).store_model() == old(self).store_model(),
            !old(self).durable() ==> r is Ok,
    {
        self.store.clear(self.name)
    }

    /// Stores `value` under `key`; an alias of `insert`.
    pub fn set<T: serde::Serialize>(&mut self, key: &str, value: &T) -> (r: Result<(), Error>)
        requires
            old(self).wf(),
        ensures
            *final(final(self).store) == *final(old(self).store),
            final(self).name@ == old(self).name@,
            final(self).durable() == old(self).durable(),
            final(self).wf(),
            r is Ok ==> exists|b: Seq<u8>|
                final(self).store_model() == with_entry(
                    old(self).store_model(),
                    old(self).name@,
                    key@,
                    b,
                ),
            r is Err ==> final(self).store_model() == old(self).store_model(),
    {
        self.insert(key, value)
    }

    /// Removes `key`; an alias of `remove`.
    pub fn delete(&mut self, key: &str) -> (r: Result<(), Error>)
        requires
            old(self).wf(),
        ensures
            *final(final(self).store) == *final(old(self).store),
            final(self).name@ == old(self).name@,
            final(self).durable() == old(self).durable(),
            final(self).wf(),
            r is Ok ==> final(self).store_model() == without_entry(
                old(self).store_model(),
                old(self).name@,
                key@,
            ),
            r is Err ==> final(self).store_model() == old(self).store_model(),
            !old(self).durable() ==> r is Ok,
    {
        self.remove(key)
    }

    /// Empties the table; an alias of `clear`.
    pub fn reset(&mut self) -> (r: Result<(), Error>)
        requires
            old(self).wf(),
        ensures
            *final(final(self).store) == *final(old(self).store),
            final(self).name@ == old(self).name@,
            final(self).durable() == old(self).durable(),
            final(self).wf(),
            r is Ok ==> final(self)@ == Map::<Seq<char>, Seq<u8>>::empty(),
            r is Err ==> final(self).store_model() == old(self).store_model(),
            !old(self).durable() ==> r is Ok,
    {
        self.clear()
    }

    /// The value under `key` if present; otherwise stores `default` and
    /// returns it. The read and the write are two separate backend
    /// operations, not one atomic step.
    pub fn get_or_insert<T: serde::Serialize + serde::de::DeserializeOwned>(
        &mut self,
        key: &str,
        default: T,
    ) -> (r: Result<T, Error>)
        requires
            old(self).wf(),
        ensures
            *final(final(self).store) == *final(old(self).store),
            final(self).name@ == old(self).name@,
            final(self).durable() == old(self).durable(),
            final(self).wf(),
            old(self)@.contains_key(key@) ==> final(self).store_model() == old(self).store_model(),
            r is Err ==> final(self).store_model() == old(self).store_model(),
            !old(self)@.contains_key(key@) && r is Ok ==> r == Ok::<T, Error>(default) && exists|
                b: Seq<u8>,
            |
                final(self).store_model() == with_entry(
                    old(self).store_model(),
                    old(self).name@,
                    key@,
                    b,
                ),
            r is Ok ==> final(self)@.contains_key(key@),
    {
        let ghost pre = *self;
        match self.get::<T>(key) {
            Err(e) => Err(e),
            Ok(Some(v)) => Ok(v),
            Ok(None) => {
                match self.insert(key, &default) {
                    Ok(()) => Ok(default),
                    Err(e) => Err(e),
                }
            },
        }
    }

    /// The value under `key` if present; otherwise computes `default()`,
    /// stores the result and returns it. The thunk runs on the calling
    /// thread and only on absence; the read and the write are two separate
    /// backend operations, not one atomic step.
    pub fn get_or_insert_with<
        T: serde::Serialize + serde::de::DeserializeOwned,
        F: FnOnce() -> T,
    >(&mut self, key: &str, default: F) -> (r: Result<T, Error>)
        requires
            old(self).wf(),
            call_requires(default, ()),
        ensures
            *final(final(self).store) == *final(old(self).store),
            final(self).name@ == old(self).name@,
            final(self).durable() == old(self).durable(),
            final(self).wf(),
            old(self)@.contains_key(key@) ==> final(self).store_model() == old(self).store_model(),
            r is Err ==> final(self).store_model() == old(self).store_model(),
            !old(self)@.contains_key(key@) && r is Ok ==> (r matches Ok(v) ==> call_ensures(
                default,
                (),
                v,
            )) && exists|b: Seq<u8>|
                final(self).store_model() == with_entry(
                    old(self).store_model(),
                    old(self).name@,
                    key@,
                    b,
                ),
            r is Ok ==> final(self)@.contains_key(key@),
    {
        match self.get::<T>(key) {
            Err(e) => Err(e),
            Ok(Some(v)) => Ok(v),
            Ok(None) => {
                let v = default();
                match self.insert(key, &v) {
                    Ok(()) => Ok(v),
                    Err(e) => Err(e),
                }
            },
        }
    }

    /// The value under `key` if present; otherwise stores the type's default
    /// value and returns it.
    pub fn get_or_insert_default<
        T: serde::Serialize + serde::de::DeserializeOwned + Default,
    >(&mut self, key: &str) -> (r: Result<T, Error>)
        requires
            old(self).wf(),
        ensures
            *final(final(self).store) == *final(old(self).store),
            final(self).name@ == old(self).name@,
            final(self).durable() == old(self).durable(),
            final(self).wf(),
            old(self)@.contains_key(key@) ==> final(self).store_model() == old(self).store_model(),
            r is Err ==> final(self).store_model() == old(self).store_model(),
            r is Ok ==> final(self)@.contains_key(key@),
    {
        match self.get::<T>(key) {
            Err(e) => Err(e),
            Ok(Some(v)) => Ok(v),
            Ok(None) => {
                let v = T::default();
                match self.insert(key, &v) {
                    Ok(()) => Ok(v),
                    Err(e) => Err(e),
                }
            },
        }
    }
}

impl<'a> TableReadInterface for Table<'a> {
    open spec fn table_view(&self) -> Map<Seq<char>, Seq<u8>> {
        (*self).view()
    }

    open spec fn handle_wf(&self) -> bool {
        (*self).wf()
    }

    open spec fn handle_durable(&self) -> bool {
        (*self).durable()
    }

    fn get<T: serde::de::DeserializeOwned>(&self, key: &str) -> (r: Result<Option<T>, Error>) {
        Table::get(self, key)
    }

    fn keys(&self) -> (r: Result<Vec<String>, Error>) {
        Table::keys(self)
    }

    fn values<T: serde::de::DeserializeOwned>(&self) -> (r: Result<Vec<T>, Error>) {
        Table::values(self)
    }

    fn entries<T: serde::de::DeserializeOwned>(&self) -> (r: Result<Vec<(String, T)>, Error>) {
        Table::entries(self)
    }

    fn len(&self) -> (r: Result<usize, Error>) {
        Table::len(self)
    }

    fn is_empty(&self) -> (r: Result<bool, Error>) {
        Table::is_empty(self)
    }

    fn contains_key(&self, key: &str) -> (r: Result<bool, Error>) {
        Table::contains_key(self, key)
    }

    fn size(&self) -> (r: Result<usize, Error>) {
        Table::size(self)
    }

    fn contains(&self, key: &str) -> (r: Result<bool, Error>) {
        Table::contains(self, key)
    }

    fn has(&self, key: &str) -> (r: Result<bool, Error>) {
        Table::has(self, key)
    }

    fn get_or<T: serde::de::DeserializeOwned>(&self, key: &str, default: T) -> (r: Result<
        T,
        Error,
    >) {
        Table::get_or(self, key, default)
    }

    fn get_or_else<T: serde::de::DeserializeOwned, F: FnOnce() -> T>(&self, key: &str, default: F)
        -> (r: Result<T, Error>) {
        Table::get_or_else(self, key, default)
    }

    fn get_or_default<T: serde::de::DeserializeOwned + Default>(&self, key: &str) -> (r: Result<
        T,
        Error,
    >) {
        Table::get_or_default(self, key)
    }
}

impl<'a> TableReadInterface for TableMut<'a> {
    open spec fn table_view(&self) -> Map<Seq<char>, Seq<u8>> {
        (*self).view()
    }

    open spec fn handle_wf(&self) -> bool {
        (*self).wf()
    }

    open spec fn handle_durable(&self) -> bool {
        (*self).durable()
    }

    fn get<T: serde::de::DeserializeOwned>(&self, key: &str) -> (r: Result<Option<T>, Error>) {
        TableMut::get(self, key)
    }

    fn keys(&self) -> (r: Result<Vec<String>, Error>) {
        TableMut::keys(self)
    }

    fn values<T: serde::de::DeserializeOwned>(&self) -> (r: Result<Vec<T>, Error>) {
        TableMut::values(self)
    }

    fn entries<T: serde::de::DeserializeOwned>(&self) -> (r: Result<Vec<(String, T)>, Error>) {
        TableMut::entries(self)
    }

    fn len(&self) -> (r: Result<usize, Error>) {
        TableMut::len(self)
    }

    fn is_empty(&self) -> (r: Result<bool, Error>) {
        TableMut::is_empty(self)
    }

    fn contains_key(&self, key: &str) -> (r: Result<bool, Error>) {
        TableMut::contains_key(self, key)
    }

    fn size(&self) -> (r: Result<usize, Error>) {
        TableMut::size(self)
    }

    fn contains(&self, key: &str) -> (r: Result<bool, Error>) {
        TableMut::contains(self, key)
    }

    fn has(&self, key: &str) -> (r: Result<bool, Error>) {
        TableMut::has(self, key)
    }

    fn get_or<T: serde::de::DeserializeOwned>(&self, key: &str, default: T) -> (r: Result<
        T,
        Error,
    >) {
        TableMut::get_or(self, key, default)
    }

    fn get_or_else<T: serde::de::DeserializeOwned, F: FnOnce() -> T>(&self, key: &str, default: F)
        -> (r: Result<T, Error>) {
        TableMut::get_or_else(self, key, default)
    }

    fn get_or_default<T: serde::de::DeserializeOwned + Default>(&self, key: &str) -> (r: Result<
        T,
        Error,
    >) {
        TableMut::get_or_default(self, key)
    }
}

impl<'a> TableWriteInterface for TableMut<'a> {
    fn insert<T: serde::Serialize>(&mut self, key: &str, value: &T) -> (r: Result<(), Error>) {
        let r = TableMut::insert(self, key, value);
        proof {
            if r is Ok {
                let b = choose|b: Seq<u8>|
                    final(self).store_model() == with_entry(
                        old(self).store_model(),
                        old(self).name@,
                        key@,
                        b,
                    );
                assert(final(self).table_view() == old(self).table_view().insert(key@, b));
            }
        }
        r
    }

    fn remove(&mut self, key: &str) -> (r: Result<(), Error>) {
        TableMut::remove(self, key)
    }

    fn clear(&mut self) -> (r: Result<(), Error>) {
        TableMut::clear(self)
    }

    fn set<T: serde::Serialize>(&mut self, key: &str, value: &T) -> (r: Result<(), Error>) {
        let r = TableMut::set(self, key, value);
        proof {
            if r is Ok {
                let b = choose|b: Seq<u8>|
                    final(self).store_model() == with_entry(
                        old(self).store_model(),
                        old(self).name@,
                        key@,
                        b,
                    );
                assert(final(self).table_view() == old(self).table_view().insert(key@, b));
            }
        }
        r
    }

    fn delete(&mut self, key: &str) -> (r: Result<(), Error>) {
        TableMut::delete(self, key)
    }

    fn reset(&mut self) -> (r: Result<(), Error>) {
        TableMut::reset(self)
    }

    fn get_or_insert<T: serde::Serialize + serde::de::DeserializeOwned>(
        &mut self,
        key: &str,
        default: T,
    ) -> (r: Result<T, Error>) {
        let r = TableMut::get_or_insert(self, key, default);
        proof {
            if r is Ok && !old(self).table_view().contains_key(key@) {
                let b = choose|b: Seq<u8>|
                    final(self).store_model() == with_entry(
                        old(self).store_model(),
                        old(self).name@,
                        key@,
                        b,
                    );
                assert(final(self).table_view() == old(self).table_view().insert(key@, b));
            }
        }
        r
    }

    fn get_or_insert_with<T: serde::Serialize + serde::de::DeserializeOwned, F: FnOnce() -> T>(
        &mut self,
        key: &str,
        default: F,
    ) -> (r: Result<T, Error>) {
        let r = TableMut::get_or_insert_with(self, key, default);
        proof {
            if r is Ok && !old(self).table_view().contains_key(key@) {
                let b = choose|b: Seq<u8>|
                    final(self).store_model() == with_entry(
                        old(self).store_model(),
                        old(self).name@,
                        key@,
                        b,
                    );
                assert(final(self).table_view() == old(self).table_view().insert(key@, b));
            }
        }
        r
    }

    fn get_or_insert_default<T: serde::Serialize + serde::de::DeserializeOwned + Default>(
        &mut self,
        key: &str,
    ) -> (r: Result<T, Error>) {
        TableMut::get_or_insert_default(self, key)
    }
}

impl<'a> From<TableMut<'a>> for Table<'a> {
    /// Narrows a read-write handle into a read-only handle on the same
    /// table.
    fn from(table: TableMut<'a>) -> (r: Table<'a>)
    {
        Table { store: table.store, name: table.name }
    }
}

impl<'a> vstd::std_specs::convert::FromSpecImpl<TableMut<'a>> for Table<'a> {
    open spec fn obeys_from_spec() -> bool {
        true
    }

    open spec fn from_spec(t: TableMut<'a>) -> Table<'a> {
        Table { store: &*t.store, name: t.name }
    }
}

impl<'a> From<&'a TableMut<'a>> for Table<'a> {
    /// Borrows a read-write handle as a read-only handle on the same table.
    fn from(table: &'a TableMut<'a>) -> (r: Table<'a>)
    {
        Table { store: &*table.store, name: table.name }
    }
}

impl<'a> vstd::std_specs::convert::FromSpecImpl<&'a TableMut<'a>> for Table<'a> {
    open spec fn obeys_from_spec() -> bool {
        true
    }

    open spec fn from_spec(t: &'a TableMut<'a>) -> Table<'a> {
        Table { store: &*t.store, name: t.name }
    }
}

} // verus!

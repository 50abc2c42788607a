//! The backend-agnostic store: a tagged union over the durable and the
//! volatile backend, dispatching every operation to the active one. The
//! backend is picked at construction and never swapped afterwards, and no
//! caller of `Store` branches on which one is active.
use vstd::prelude::*;

pub mod durable;
pub mod memory;

use crate::model::{empty_model, is_total_len, table_model, views_of, with_entry, without_entry, StoreModel};
use crate::Error;

verus! {

/// Relies on str's PartialEq: string slices are equal exactly when their
/// characters are.
#[verifier::external_body]
pub(crate) fn str_eq(a: &str, b: &str) -> (r: bool)
    ensures
        r == (a@ == b@),
{
    a == b
}

/// The active backend of a store.
enum Backend {
    /// The durable, transactional, on-disk engine.
    Durable(durable::Store),
    /// The volatile in-process map.
    Volatile(memory::Store),
}

/// A store of named tables of (string key, bytes) entries, backed by exactly
/// one backend for its whole lifetime.
pub struct Store {
    backend: Backend,
}

impl Store {
    /// The tables the store holds: table name -> (key -> stored bytes).
    pub closed spec fn view(self) -> StoreModel {
        match self.backend {
            Backend::Durable(s) => s@,
            Backend::Volatile(m) => m@,
        }
    }

    /// Whether the durable backend is active.
    pub closed spec fn is_durable(self) -> bool {
        self.backend is Durable
    }

    /// The store's internal invariant.
    pub closed spec fn wf(self) -> bool {
        match self.backend {
            Backend::Durable(_) => true,
            Backend::Volatile(m) => m.wf(),
        }
    }

    /// Opens (creating if absent) a durable store in the file at `path`.
    pub fn file(path: &str) -> (r: Result<Store, Error>)
        ensures
            r matches Ok(s) ==> s.wf() && s.is_durable(),
    {
        match durable::Store::new(path) {
            Ok(s) => Ok(Store { backend: Backend::Durable(s) }),
            Err(e) => Err(e),
        }
    }

    /// A fresh, empty volatile store.
    pub fn in_memory() -> (r: Result<Store, Error>)
        ensures
            r matches Ok(s) ==> s.wf() && !s.is_durable() && s@ == empty_model(),
    {
        Ok(Store { backend: Backend::Volatile(memory::Store::new()) })
    }

    /// Reads the value stored under `key` in `table`, decoded as `T`.
    /// A missing table or key is `Ok(None)`; bytes of the wrong shape are a
    /// codec error, never a panic.
    pub fn get<T: serde::de::DeserializeOwned>(&self, table: &str, key: &str) -> (r: Result<
        Option<T>,
        Error,
    >)
        requires
            self.wf(),
            table@.len() > 0,
        ensures
            r matches Ok(None) ==> !table_model(self@, table@).contains_key(key@),
            r matches Ok(Some(_)) ==> table_model(self@, table@).contains_key(key@),
            !self.is_durable() ==> (r matches Ok(None) <==> !table_model(self@, table@).contains_key(
                key@,
            )),
            !self.is_durable() ==> (r matches Err(e) ==> e is Codec && table_model(
                self@,
                table@,
            ).contains_key(key@)),
    {
        match &self.backend {
            Backend::Durable(s) => s.get(table, key),
            Backend::Volatile(m) => m.get(table, key),
        }
    }

    /// Serializes `value` and stores it under `key` in `table`, creating the
    /// table when absent; on any error the store is unchanged.
    pub fn insert<T: serde::Serialize>(&mut self, table: &str, key: &str, value: &T) -> (r: Result<
        (),
        Error,
    >)
        requires
            old(self).wf(),
            table@.len() > 0,
        ensures
            final(self).wf(),
            final(self).is_durable() == old(self).is_durable(),
            r is Ok ==> exists|b: Seq<u8>|
                final(self)@ == with_entry(old(self)@, table@, key@, b),
            r is Err ==> final(self)@ == old(self)@,
    {
        match &mut self.backend {
            Backend::Durable(s) => {
                let r = s.insert(table, key, value);
                proof {
                    assert(final(self).backend is Durable);
                    if r is Ok {
                        let b = choose|b: Seq<u8>|
                            (*final(s))@ == with_entry(old(self)@, table@, key@, b);
                        assert(final(self)@ == with_entry(old(self)@, table@, key@, b));
                    }
                }
                r
            },
            Backend::Volatile(m) => {
                let r = m.insert(table, key, value);
                proof {
                    assert(final(self).backend is Volatile);
                    if r is Ok {
                        let b = choose|b: Seq<u8>|
                            (*final(m))@ == with_entry(old(self)@, table@, key@, b);
                        assert(final(self)@ == with_entry(old(self)@, table@, key@, b));
                    }
                }
                r
            },
        }
    }

    /// Removes `key` from `table`; an absent key is a no-op, not an error.
    pub fn remove(&mut self, table: &str, key: &str) -> (r: Result<(), Error>)
        requires
            old(self).wf(),
            table@.len() > 0,
        ensures
            final(self).wf(),
            final(self).is_durable() == old(self).is_durable(),
            r is Ok ==> final(self)@ == without_entry(old(self)@, table@, key@),
            r is Err ==> final(self)@ == old(self)@,
            !old(self).is_durable() ==> r is Ok,
    {
        match &mut self.backend {
            Backend::Durable(s) => s.remove(table, key),
            Backend::Volatile(m) => m.remove(table, key),
        }
    }

    /// Empties `table`. Afterwards the table reads as empty on both
    /// backends; but the durable backend deletes the table object (it stops
    /// being listed), while the volatile backend keeps the emptied table
    /// listed — a documented divergence observable through `list_tables`.
    pub fn clear(&mut self, table: &str) -> (r: Result<(), Error>)
        requires
            old(self).wf(),
            table@.len() > 0,
        ensures
            final(self).wf(),
            final(self).is_durable() == old(self).is_durable(),
            r is Ok && old(self).is_durable() ==> final(self)@ == old(self)@.remove(table@),
            r is Ok && !old(self).is_durable() ==> final(self)@ == old(self)@.insert(
                table@,
                Map::empty(),
            ),
            r is Ok ==> table_model(final(self)@, table@) == Map::<Seq<char>, Seq<u8>>::empty(),
            r is Err ==> final(self)@ == old(self)@,
            !old(self).is_durable() ==> r is Ok,
    {
        let r = match &mut self.backend {
            Backend::Durable(s) => s.delete_table(table),
            Backend::Volatile(m) => m.clear(table),
        };
        proof {
            if r is Ok {
                assert(table_model(final(self)@, table@) =~= Map::<Seq<char>, Seq<u8>>::empty());
            }
        }
        r
    }

    /// Deletes `table` entirely, on both backends: it stops being listed,
    /// never lingering as a tombstone, and a later read sees it empty;
    /// deleting an absent table is a no-op.
    pub fn delete_table(&mut self, table: &str) -> (r: Result<(), Error>)
        requires
            old(self).wf(),
            table@.len() > 0,
        ensures
            final(self).wf(),
            final(self).is_durable() == old(self).is_durable(),
            r is Ok ==> final(self)@ == old(self)@.remove(table@),
            r is Ok ==> table_model(final(self)@, table@) == Map::<Seq<char>, Seq<u8>>::empty(),
            r is Err ==> final(self)@ == old(self)@,
            !old(self).is_durable() ==> r is Ok,
    {
        let r = match &mut self.backend {
            Backend::Durable(s) => s.delete_table(table),
            Backend::Volatile(m) => m.delete_table(table),
        };
        proof {
            if r is Ok {
                assert(table_model(final(self)@, table@) =~= Map::<Seq<char>, Seq<u8>>::empty());
            }
        }
        r
    }

    /// All keys of `table`: exactly the table's key set, each once.
    pub fn keys(&self, table: &str) -> (r: Result<Vec<String>, Error>)
        requires
            self.wf(),
            table@.len() > 0,
        ensures
            r matches Ok(ks) ==> ks@.len() == table_model(self@, table@).dom().len(),
            r matches Ok(ks) ==> views_of(ks@).no_duplicates(),
            r matches Ok(ks) ==> views_of(ks@).to_set() == table_model(self@, table@).dom(),
            !self.is_durable() ==> r is Ok,
    {
        match &self.backend {
            Backend::Durable(s) => s.keys(table),
            Backend::Volatile(m) => m.keys(table),
        }
    }

    /// All values of `table` that decode as `T`; undecodable entries are
    /// skipped, never an error.
    pub fn values<T: serde::de::DeserializeOwned>(&self, table: &str) -> (r: Result<Vec<T>, Error>)
        requires
            self.wf(),
            table@.len() > 0,
        ensures
            r matches Ok(vs) ==> vs@.len() <= table_model(self@, table@).dom().len(),
            !self.is_durable() ==> r is Ok,
    {
        match &self.backend {
            Backend::Durable(s) => s.values(table),
            Backend::Volatile(m) => m.values(table),
        }
    }

    /// All entries of `table` whose value decodes as `T`; undecodable
    /// entries are skipped, never an error.
    pub fn entries<T: serde::de::DeserializeOwned>(&self, table: &str) -> (r: Result<
        Vec<(String, T)>,
        Error,
    >)
        requires
            self.wf(),
            table@.len() > 0,
        ensures
            r matches Ok(es) ==> es@.len() <= table_model(self@, table@).dom().len(),
            r matches Ok(es) ==> forall|a: int|
                0 <= a < es@.len() ==> table_model(self@, table@).contains_key(#[trigger] es@[a].0@),
            r matches Ok(es) ==> forall|a: int, b: int|
                0 <= a < b < es@.len() ==> es@[a].0@ != es@[b].0@,
            !self.is_durable() ==> r is Ok,
    {
        match &self.backend {
            Backend::Durable(s) => s.entries(table),
            Backend::Volatile(m) => m.entries(table),
        }
    }

    /// The number of entries in `table`; an absent table counts 0.
    pub fn len(&self, table: &str) -> (r: Result<usize, Error>)
        requires
            self.wf(),
            table@.len() > 0,
        ensures
            r matches Ok(n) ==> n == table_model(self@, table@).dom().len(),
            !self.is_durable() ==> r is Ok,
    {
        match &self.backend {
            Backend::Durable(s) => s.len(table),
            Backend::Volatile(m) => m.len(table),
        }
    }

    /// Whether `table` holds `key`, by backend containment.
    pub fn contains_key(&self, table: &str, key: &str) -> (r: Result<bool, Error>)
        requires
            self.wf(),
            table@.len() > 0,
        ensures
            r matches Ok(b) ==> b == table_model(self@, table@).contains_key(key@),
            !self.is_durable() ==> r is Ok,
    {
        match &self.backend {
            Backend::Durable(s) => s.contains_key(table, key),
            Backend::Volatile(m) => m.contains_key(table, key),
        }
    }

    /// Whether `table` has no entries; an absent table is empty.
    pub fn is_empty(&self, table: &str) -> (r: Result<bool, Error>)
        requires
            self.wf(),
            table@.len() > 0,
        ensures
            r matches Ok(b) ==> b == (table_model(self@, table@).dom().len() == 0),
            !self.is_durable() ==> r is Ok,
    {
        match &self.backend {
            Backend::Durable(s) => s.is_empty(table),
            Backend::Volatile(m) => m.is_empty(table),
        }
    }

    /// The names of all tables the backend tracks, each once.
    pub fn list_tables(&self) -> (r: Result<Vec<String>, Error>)
        requires
            self.wf(),
        ensures
            r matches Ok(ts) ==> views_of(ts@).no_duplicates(),
            r matches Ok(ts) ==> views_of(ts@).to_set() == self@.dom(),
            !self.is_durable() ==> r is Ok,
    {
        match &self.backend {
            Backend::Durable(s) => s.list_tables(),
            Backend::Volatile(m) => m.list_tables(),
        }
    }

    /// The number of entries across all tables.
    pub fn len_all_tables(&self) -> (r: Result<usize, Error>)
        requires
            self.wf(),
        ensures
            r matches Ok(n) ==> is_total_len(self@, n as nat),
            !self.is_durable() ==> (r is Err ==> exists|n: nat|
                is_total_len(self@, n) && n > usize::MAX),
    {
        match &self.backend {
            Backend::Durable(s) => s.len_all_tables(),
            Backend::Volatile(m) => {
                let r = m.len_all_tables();
                proof {
                    if r is Err {
                        let n = choose|n: nat| is_total_len((*m)@, n) && n > usize::MAX;
                        assert(is_total_len(self@, n) && n > usize::MAX);
                    }
                }
                r
            },
        }
    }

    /// Deletes every table; on the durable backend this happens in one
    /// all-or-nothing transaction.
    pub fn clear_all_tables(&mut self) -> (r: Result<(), Error>)
        requires
            old(self).wf(),
        ensures
            final(self).wf(),
            final(self).is_durable() == old(self).is_durable(),
            r is Ok ==> final(self)@ == empty_model(),
            r is Err ==> final(self)@ == old(self)@,
            !old(self).is_durable() ==> r is Ok,
    {
        match &mut self.backend {
            Backend::Durable(s) => s.clear_all_tables(),
            Backend::Volatile(m) => m.clear_all_tables(),
        }
    }
}

} // verus!

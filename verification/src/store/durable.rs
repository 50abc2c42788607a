//! The durable backend: wraps an embedded transactional storage engine.
//! Every operation opens a short-lived read or write transaction against a
//! named byte-table and commits on success; partial writes never become
//! visible. The engine itself is an opaque, already-correct dependency; what
//! it holds is modelled by the uninterpreted `durable_tables` below, and each
//! transaction-shaped operation is a trusted wrapper whose contract states
//! its effect on that model.
use vstd::prelude::*;

use crate::codec::{deserialize, serialize};
use crate::model::{
    assoc_view, empty_model, is_total_len, keys_distinct, lemma_assoc_contains, lemma_assoc_index,
    lemma_assoc_len, lemma_sum_lens_push, sum_lens, table_model, views_of, with_entry,
    without_entry, StoreModel,
};
use crate::Error;
use redb::Database as RedbDatabase;

verus! {

#[verifier::external_type_specification]
#[verifier::external_body]
pub struct ExDatabase(RedbDatabase);

/// What the engine holds: table name -> (key -> bytes). Committed writes are
/// the only thing that changes it, so it is a function of the database value.
pub uninterp spec fn durable_tables(db: redb::Database) -> StoreModel;

/// Relies on std's Display (through ToString): renders an engine error's
/// message.
#[verifier::external_body]
fn backend_err<E: std::fmt::Display>(e: E) -> Error {
    Error::Backend(e.to_string())
}

/// Relies on redb::Database::create: opens the file at `path` as a database,
/// initializing it when the file is absent or empty.
#[verifier::external_body]
fn db_create(path: &str) -> (r: Result<redb::Database, Error>) {
    redb::Database::create(path).map_err(backend_err)
}

/// Relies on redb's read transactions: a snapshot lookup of one key. A table
/// that does not exist reads as empty (redb reports TableDoesNotExist, which
/// is intercepted here); a missing key is None, never an error.
#[verifier::external_body]
fn db_get(db: &redb::Database, table: &str, key: &str) -> (r: Result<Option<Vec<u8>>, Error>)
    requires
        table@.len() > 0,
    ensures
        r matches Ok(Some(v)) ==> table_model(durable_tables(*db), table@).contains_key(key@)
            && v@ == table_model(durable_tables(*db), table@)[key@],
        r matches Ok(None) ==> !table_model(durable_tables(*db), table@).contains_key(key@),
{
    let tnx = db.begin_read().map_err(backend_err)?;
    let t = match tnx.open_table(redb::TableDefinition::<&str, &[u8]>::new(table)) {
        Ok(t) => t,
        Err(redb::TableError::TableDoesNotExist(_)) => return Ok(None),
        Err(e) => return Err(backend_err(e)),
    };
    let found = redb::ReadableTable::get(&t, key).map_err(backend_err)?;
    Ok(found.map(|g| g.value().to_vec()))
}

/// Relies on redb's write transactions: opening a table in a write
/// transaction creates it if absent; the insert replaces any previous value;
/// the write is visible only once commit succeeds, and an aborted or failed
/// transaction leaves the database unchanged.
#[verifier::external_body]
fn db_insert(db: &mut redb::Database, table: &str, key: &str, value: &[u8]) -> (r: Result<
    (),
    Error,
>)
    requires
        table@.len() > 0,
    ensures
        r is Ok ==> durable_tables(*final(db)) == with_entry(
            durable_tables(*old(db)),
            table@,
            key@,
            value@,
        ),
        r is Err ==> durable_tables(*final(db)) == durable_tables(*old(db)),
{
    let tnx = db.begin_write().map_err(backend_err)?;
    {
        let mut t = tnx.open_table(redb::TableDefinition::<&str, &[u8]>::new(table)).map_err(
            backend_err,
        )?;
        t.insert(key, value).map_err(backend_err)?;
    }
    tnx.commit().map_err(backend_err)
}

/// Relies on redb's write transactions: removing an absent key is a no-op,
/// and opening the table in a write transaction creates it if absent; the
/// change is visible only once commit succeeds.
#[verifier::external_body]
fn db_remove(db: &mut redb::Database, table: &str, key: &str) -> (r: Result<(), Error>)
    requires
        table@.len() > 0,
    ensures
        r is Ok ==> durable_tables(*final(db)) == without_entry(
            durable_tables(*old(db)),
            table@,
            key@,
        ),
        r is Err ==> durable_tables(*final(db)) == durable_tables(*old(db)),
{
    let tnx = db.begin_write().map_err(backend_err)?;
    {
        let mut t = tnx.open_table(redb::TableDefinition::<&str, &[u8]>::new(table)).map_err(
            backend_err,
        )?;
        t.remove(key).map_err(backend_err)?;
    }
    tnx.commit().map_err(backend_err)
}

/// Relies on redb::WriteTransaction::delete_table: removes the whole table
/// object, so the name stops being listed; deleting an absent table is a
/// no-op; visible only once commit succeeds.
#[verifier::external_body]
fn db_delete_table(db: &mut redb::Database, table: &str) -> (r: Result<(), Error>)
    requires
        table@.len() > 0,
    ensures
        r is Ok ==> durable_tables(*final(db)) == durable_tables(*old(db)).remove(table@),
        r is Err ==> durable_tables(*final(db)) == durable_tables(*old(db)),
{
    let tnx = db.begin_write().map_err(backend_err)?;
    tnx.delete_table(redb::TableDefinition::<&str, &[u8]>::new(table)).map_err(backend_err)?;
    tnx.commit().map_err(backend_err)
}

/// Relies on redb's snapshot iteration: one read transaction walks the whole
/// table in its native order; keys are unique within a table; an absent
/// table reads as empty.
#[verifier::external_body]
fn db_rows(db: &redb::Database, table: &str) -> (r: Result<Vec<(String, Vec<u8>)>, Error>)
    requires
        table@.len() > 0,
    ensures
        r matches Ok(rows) ==> keys_distinct(rows@),
        r matches Ok(rows) ==> assoc_view(rows@) == table_model(durable_tables(*db), table@),
{
    let tnx = db.begin_read().map_err(backend_err)?;
    let t = match tnx.open_table(redb::TableDefinition::<&str, &[u8]>::new(table)) {
        Ok(t) => t,
        Err(redb::TableError::TableDoesNotExist(_)) => return Ok(vec![]),
        Err(e) => return Err(backend_err(e)),
    };
    let rows: Result<Vec<(String, Vec<u8>)>, Error> = redb::ReadableTable::iter(&t).map_err(
        backend_err,
    )?.map(
        |row| row.map(|(k, v)| (k.value().to_string(), v.value().to_vec())).map_err(backend_err),
    ).collect();
    rows
}

/// Relies on redb's engine-reported table length; an absent table counts 0.
#[verifier::external_body]
fn db_len(db: &redb::Database, table: &str) -> (r: Result<usize, Error>)
    requires
        table@.len() > 0,
    ensures
        r matches Ok(n) ==> n as nat == table_model(durable_tables(*db), table@).dom().len(),
{
    let tnx = db.begin_read().map_err(backend_err)?;
    let t = match tnx.open_table(redb::TableDefinition::<&str, &[u8]>::new(table)) {
        Ok(t) => t,
        Err(redb::TableError::TableDoesNotExist(_)) => return Ok(0),
        Err(e) => return Err(backend_err(e)),
    };
    let n = redb::ReadableTableMetadata::len(&t).map_err(backend_err)?;
    usize::try_from(n).map_err(backend_err)
}

/// Relies on redb::ReadTransaction::list_tables: every table object known to
/// the engine, each name once; names were created through table definitions,
/// which the engine only accepts non-empty.
#[verifier::external_body]
fn db_list_tables(db: &redb::Database) -> (r: Result<Vec<String>, Error>)
    ensures
        r matches Ok(ts) ==> views_of(ts@).no_duplicates(),
        r matches Ok(ts) ==> views_of(ts@).to_set() == durable_tables(*db).dom(),
        r matches Ok(ts) ==> forall|a: int| 0 <= a < ts@.len() ==> (#[trigger] ts@[a]@).len() > 0,
{
    let tnx = db.begin_read().map_err(backend_err)?;
    let names: Vec<String> = tnx.list_tables().map_err(backend_err)?.map(
        |t| redb::TableHandle::name(&t).to_string(),
    ).collect();
    Ok(names)
}

/// Relies on redb's write transactions: all tables are deleted within one
/// transaction, all-or-nothing; visible only once commit succeeds.
#[verifier::external_body]
fn db_delete_all(db: &mut redb::Database) -> (r: Result<(), Error>)
    ensures
        r is Ok ==> durable_tables(*final(db)) == empty_model(),
        r is Err ==> durable_tables(*final(db)) == durable_tables(*old(db)),
{
    let tnx = db.begin_write().map_err(backend_err)?;
    let tables: Vec<redb::UntypedTableHandle> = tnx.list_tables().map_err(backend_err)?.collect();
    for t in tables {
        tnx.delete_table(t).map_err(backend_err)?;
    }
    tnx.commit().map_err(backend_err)
}

/// The durable store: one on-disk database file.
pub struct Store {
    db: redb::Database,
}

impl Store {
    /// The tables the engine holds.
    pub closed spec fn view(self) -> StoreModel {
        durable_tables(self.db)
    }

    /// Opens (creating if absent) the database file at `path`.
    pub(crate) fn new(path: &str) -> (r: Result<Store, Error>) {
        match db_create(path) {
            Ok(db) => Ok(Store { db }),
            Err(e) => Err(e),
        }
    }

    /// Reads the value stored under `key` in `table`, decoded as `T`.
    pub(crate) fn get<T: serde::de::DeserializeOwned>(&self, table: &str, key: &str) -> (r: Result<
        Option<T>,
        Error,
    >)
        requires
            table@.len() > 0,
        ensures
            r matches Ok(None) ==> !table_model(self@, table@).contains_key(key@),
            r matches Ok(Some(_)) ==> table_model(self@, table@).contains_key(key@),
    {
        match db_get(&self.db, table, key) {
            Err(e) => Err(e),
            Ok(None) => Ok(None),
            Ok(Some(bytes)) => match deserialize::<T>(bytes.as_slice()) {
                Ok(v) => Ok(Some(v)),
                Err(e) => Err(e),
            },
        }
    }

    /// Serializes `value` and commits it under `key` in `table`.
    pub(crate) fn insert<T: serde::Serialize>(&mut self, table: &str, key: &str, value: &T) -> (r:
        Result<(), Error>)
        requires
            table@.len() > 0,
        ensures
            r is Ok ==> exists|b: Seq<u8>|
                final(self)@ == with_entry(old(self)@, table@, key@, b),
            r is Err ==> final(self)@ == old(self)@,
    {
        match serialize(value) {
            Err(e) => Err(e),
            Ok(bytes) => {
                let ghost b = bytes@;
                match db_insert(&mut self.db, table, key, bytes.as_slice()) {
                    Ok(()) => {
                        proof {
                            assert(final(self)@ == with_entry(old(self)@, table@, key@, b));
                        }
                        Ok(())
                    },
                    Err(e) => Err(e),
                }
            },
        }
    }

    /// Commits the removal of `key` from `table`; absent keys are a no-op.
    pub(crate) fn remove(&mut self, table: &str, key: &str) -> (r: Result<(), Error>)
        requires
            table@.len() > 0,
        ensures
            r is Ok ==> final(self)@ == without_entry(old(self)@, table@, key@),
            r is Err ==> final(self)@ == old(self)@,
    {
        db_remove(&mut self.db, table, key)
    }

    /// Deletes the whole table object, so a later read sees it absent —
    /// behaviorally identical to empty, and no longer listed. On this
    /// backend, clearing a table and deleting it coincide.
    pub(crate) fn delete_table(&mut self, table: &str) -> (r: Result<(), Error>)
        requires
            table@.len() > 0,
        ensures
            r is Ok ==> final(self)@ == old(self)@.remove(table@),
            r is Err ==> final(self)@ == old(self)@,
    {
        db_delete_table(&mut self.db, table)
    }

    /// All keys of `table`, one for each entry.
    pub(crate) fn keys(&self, table: &str) -> (r: Result<Vec<String>, Error>)
        requires
            table@.len() > 0,
        ensures
            r matches Ok(ks) ==> ks@.len() == table_model(self@, table@).dom().len(),
            r matches Ok(ks) ==> views_of(ks@).no_duplicates(),
            r matches Ok(ks) ==> views_of(ks@).to_set() == table_model(self@, table@).dom(),
    {
        let rows = match db_rows(&self.db, table) {
            Ok(rows) => rows,
            Err(e) => return Err(e),
        };
        let ghost e = rows@;
        let mut out: Vec<String> = Vec::new();
        let mut j: usize = 0;
        while j < rows.len()
            invariant
                j <= e.len(),
                rows@ == e,
                out@.len() == j,
                forall|a: int| 0 <= a < j ==> #[trigger] out@[a]@ == e[a].0@,
            decreases e.len() - j,
        {
            out.push(rows[j].0.clone());
            j += 1;
        }
        proof {
            lemma_assoc_len(e);
            let vs = views_of(out@);
            assert(vs.len() == e.len());
            assert(forall|a: int| 0 <= a < vs.len() ==> #[trigger] vs[a] == e[a].0@);
            assert forall|a: int, b: int|
                0 <= a < vs.len() && 0 <= b < vs.len() && a != b implies vs[a] != vs[b] by {
                assert(vs[a] == e[a].0@ && vs[b] == e[b].0@);
            }
            assert(vs.no_duplicates());
            assert forall|t: Seq<char>| vs.to_set().contains(t) implies table_model(
                self@,
                table@,
            ).contains_key(t) by {
                let a = choose|a: int| 0 <= a < vs.len() && vs[a] == t;
                lemma_assoc_index(e, a);
            }
            assert forall|t: Seq<char>|
                table_model(self@, table@).contains_key(t) implies vs.to_set().contains(t) by {
                lemma_assoc_contains(e, t);
                let a = choose|a: int| 0 <= a < e.len() && e[a].0@ == t;
                assert(vs[a] == t);
            }
            assert(vs.to_set() =~= table_model(self@, table@).dom());
        }
        Ok(out)
    }

    /// All values of `table` that decode as `T`; entries that do not are
    /// skipped.
    pub(crate) fn values<T: serde::de::DeserializeOwned>(&self, table: &str) -> (r: Result<
        Vec<T>,
        Error,
    >)
        requires
            table@.len() > 0,
        ensures
            r matches Ok(vs) ==> vs@.len() <= table_model(self@, table@).dom().len(),
    {
        let rows = match db_rows(&self.db, table) {
            Ok(rows) => rows,
            Err(e) => return Err(e),
        };
        proof {
            lemma_assoc_len(rows@);
        }
        let mut out: Vec<T> = Vec::new();
        let mut j: usize = 0;
        while j < rows.len()
            invariant
                j <= rows@.len(),
                out@.len() <= j,
            decreases rows@.len() - j,
        {
            match deserialize::<T>(rows[j].1.as_slice()) {
                Ok(v) => out.push(v),
                Err(_) => (),
            }
            j += 1;
        }
        Ok(out)
    }

    /// All entries of `table` whose value decodes as `T`, as (key, value)
    /// pairs; entries that do not decode are skipped.
    pub(crate) fn entries<T: serde::de::DeserializeOwned>(&self, table: &str) -> (r: Result<
        Vec<(String, T)>,
        Error,
    >)
        requires
            table@.len() > 0,
        ensures
            r matches Ok(es) ==> es@.len() <= table_model(self@, table@).dom().len(),
            r matches Ok(es) ==> forall|a: int|
                0 <= a < es@.len() ==> table_model(self@, table@).contains_key(#[trigger] es@[a].0@),
            r matches Ok(es) ==> forall|a: int, b: int|
                0 <= a < b < es@.len() ==> es@[a].0@ != es@[b].0@,
    {
        let rows = match db_rows(&self.db, table) {
            Ok(rows) => rows,
            Err(e) => return Err(e),
        };
        let ghost e = rows@;
        proof {
            lemma_assoc_len(e);
        }
        let mut out: Vec<(String, T)> = Vec::new();
        let mut j: usize = 0;
        while j < rows.len()
            invariant
                j <= e.len(),
                rows@ == e,
                keys_distinct(e),
                table_model(self@, table@) == assoc_view(e),
                out@.len() <= j,
                forall|a: int|
                    0 <= a < out@.len() ==> exists|jj: int|
                        0 <= jj < j && #[trigger] out@[a].0@ == e[jj].0@,
                forall|a: int, b: int| 0 <= a < b < out@.len() ==> out@[a].0@ != out@[b].0@,
            decreases e.len() - j,
        {
            match deserialize::<T>(rows[j].1.as_slice()) {
                Ok(v) => {
                    let ghost out0 = out@;
                    out.push((rows[j].0.clone(), v));
                    proof {
                        assert(out@[out@.len() - 1].0@ == e[j as int].0@);
                        assert forall|a: int| 0 <= a < out@.len() - 1 implies out@[a].0@ != e[
                            j as int
                        ].0@ by {
                            assert(out@[a] == out0[a]);
                            let jj = choose|jj: int|
                                0 <= jj < j && #[trigger] out0[a].0@ == e[jj].0@;
                            assert(e[jj].0@ != e[j as int].0@);
                        }
                    }
                },
                Err(_) => (),
            }
            j += 1;
        }
        proof {
            assert forall|a: int|
                0 <= a < out@.len() implies table_model(self@, table@).contains_key(
                #[trigger] out@[a].0@,
            ) by {
                let jj = choose|jj: int| 0 <= jj < e.len() && #[trigger] out@[a].0@ == e[jj].0@;
                lemma_assoc_index(e, jj);
            }
        }
        Ok(out)
    }

    /// The engine-reported number of entries in `table`.
    pub(crate) fn len(&self, table: &str) -> (r: Result<usize, Error>)
        requires
            table@.len() > 0,
        ensures
            r matches Ok(n) ==> n == table_model(self@, table@).dom().len(),
    {
        db_len(&self.db, table)
    }

    /// Whether `table` holds `key`; backend containment, not a key scan.
    pub(crate) fn contains_key(&self, table: &str, key: &str) -> (r: Result<bool, Error>)
        requires
            table@.len() > 0,
        ensures
            r matches Ok(b) ==> b == table_model(self@, table@).contains_key(key@),
    {
        match db_get(&self.db, table, key) {
            Ok(Some(_)) => Ok(true),
            Ok(None) => Ok(false),
            Err(e) => Err(e),
        }
    }

    /// Whether `table` has no entries.
    pub(crate) fn is_empty(&self, table: &str) -> (r: Result<bool, Error>)
        requires
            table@.len() > 0,
        ensures
            r matches Ok(b) ==> b == (table_model(self@, table@).dom().len() == 0),
    {
        match self.len(table) {
            Ok(n) => Ok(n == 0),
            Err(e) => Err(e),
        }
    }

    /// The names of every table the engine knows.
    pub(crate) fn list_tables(&self) -> (r: Result<Vec<String>, Error>)
        ensures
            r matches Ok(ts) ==> views_of(ts@).no_duplicates(),
            r matches Ok(ts) ==> views_of(ts@).to_set() == self@.dom(),
    {
        db_list_tables(&self.db)
    }

    /// The number of entries across all tables, read in one enumeration.
    pub(crate) fn len_all_tables(&self) -> (r: Result<usize, Error>)
        ensures
            r matches Ok(n) ==> is_total_len(self@, n as nat),
    {
        let names = match db_list_tables(&self.db) {
            Ok(ts) => ts,
            Err(e) => return Err(e),
        };
        let ghost vs = views_of(names@);
        let mut sum: usize = 0;
        let mut i: usize = 0;
        while i < names.len()
            invariant
                i <= names@.len(),
                vs == views_of(names@),
                vs.no_duplicates(),
                vs.to_set() == self@.dom(),
                forall|a: int| 0 <= a < names@.len() ==> (#[trigger] names@[a]@).len() > 0,
                sum as nat == sum_lens(self@, vs.take(i as int)),
            decreases names@.len() - i,
        {
            let l = match db_len(&self.db, names[i].as_str()) {
                Ok(l) => l,
                Err(e) => return Err(e),
            };
            proof {
                lemma_sum_lens_push(self@, vs.take(i as int), vs[i as int]);
                assert(vs.take(i as int).push(vs[i as int]) =~= vs.take(i as int + 1));
            }
            if l > usize::MAX - sum {
                return Err(Error::Backend("the total entry count does not fit in usize".to_owned()));
            }
            sum = sum + l;
            i += 1;
        }
        proof {
            assert(vs.take(vs.len() as int) =~= vs);
            assert(vs.no_duplicates() && vs.to_set() == self@.dom() && sum as nat == sum_lens(
                self@,
                vs,
            ));
            assert(is_total_len(self@, sum as nat));
        }
        Ok(sum)
    }

    /// Deletes every table in a single all-or-nothing transaction.
    pub(crate) fn clear_all_tables(&mut self) -> (r: Result<(), Error>)
        ensures
            r is Ok ==> final(self)@ == empty_model(),
            r is Err ==> final(self)@ == old(self)@,
    {
        db_delete_all(&mut self.db)
    }
}

} // verus!

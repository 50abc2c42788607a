//! The volatile backend: an in-process association list from table name to
//! a list of (key, bytes) entries, with no persistence and no transactions.
use vstd::prelude::*;

use crate::codec::{deserialize, serialize};
use crate::model::{
    assoc_view, is_total_len, keys_distinct, lemma_assoc_contains, lemma_assoc_index,
    lemma_assoc_len, lemma_assoc_push, lemma_assoc_remove, lemma_distinct_remove,
    lemma_sum_lens_push, lemma_sum_lens_split, sum_lens, table_model, views_of, with_entry,
    without_entry, StoreModel,
};
use crate::store::str_eq;
use crate::Error;

verus! {

/// One table held in memory: unique keys, each with its stored bytes.
type Entries = Vec<(String, Vec<u8>)>;

/// The in-memory store.
pub struct Store {
    tables: Vec<(String, Entries)>,
}

impl Store {
    /// The nested-map reading of the held association lists.
    pub closed spec fn view(self) -> StoreModel {
        assoc_view(self.tables@).map_values(|es: Seq<(String, Vec<u8>)>| assoc_view(es))
    }

    /// Table names are unique, and so are the keys within each table.
    pub closed spec fn wf(self) -> bool {
        &&& keys_distinct(self.tables@)
        &&& forall|i: int|
            0 <= i < self.tables@.len() ==> keys_distinct(#[trigger] self.tables@[i].1@)
    }

    proof fn lemma_view_table(self, i: int)
        requires
            self.wf(),
            0 <= i < self.tables@.len(),
        ensures
            self@.contains_key(self.tables@[i].0@),
            table_model(self@, self.tables@[i].0@) == assoc_view(self.tables@[i].1@),
    {
        lemma_assoc_index(self.tables@, i);
    }

    proof fn lemma_view_absent(self, t: Seq<char>)
        requires
            forall|i: int| 0 <= i < self.tables@.len() ==> self.tables@[i].0@ != t,
        ensures
            !self@.contains_key(t),
            table_model(self@, t) == Map::<Seq<char>, Seq<u8>>::empty(),
    {
        lemma_assoc_contains(self.tables@, t);
    }

    /// A fresh store with no tables.
    pub(crate) fn new() -> (r: Store)
        ensures
            r.wf(),
            r@ == Map::<Seq<char>, Map<Seq<char>, Seq<u8>>>::empty(),
    {
        let r = Store { tables: Vec::new() };
        proof {
            assert(r@ =~= Map::<Seq<char>, Map<Seq<char>, Seq<u8>>>::empty());
        }
        r
    }

    /// The position of the named table, when it is held.
    fn table_index(&self, table: &str) -> (r: Option<usize>)
        ensures
            match r {
                Some(i) => i < self.tables@.len() && self.tables@[i as int].0@ == table@,
                None => forall|i: int| 0 <= i < self.tables@.len() ==> self.tables@[i].0@ != table@,
            },
    {
        let mut i: usize = 0;
        while i < self.tables.len()
            invariant
                i <= self.tables@.len(),
                forall|j: int| 0 <= j < i ==> self.tables@[j].0@ != table@,
            decreases self.tables@.len() - i,
        {
            if str_eq(self.tables[i].0.as_str(), table) {
                return Some(i);
            }
            i += 1;
        }
        None
    }

    /// The position of the key within one table's entries, when present.
    fn entry_index(entries: &Entries, key: &str) -> (r: Option<usize>)
        ensures
            match r {
                Some(j) => j < entries@.len() && entries@[j as int].0@ == key@,
                None => forall|j: int| 0 <= j < entries@.len() ==> entries@[j].0@ != key@,
            },
    {
        let mut j: usize = 0;
        while j < entries.len()
            invariant
                j <= entries@.len(),
                forall|i: int| 0 <= i < j ==> entries@[i].0@ != key@,
            decreases entries@.len() - j,
        {
            if str_eq(entries[j].0.as_str(), key) {
                return Some(j);
            }
            j += 1;
        }
        None
    }

    /// The bytes stored under `key` in `table`, when present.
    fn lookup(&self, table: &str, key: &str) -> (r: Option<&Vec<u8>>)
        requires
            self.wf(),
        ensures
            match r {
                Some(v) => table_model(self@, table@).contains_key(key@) && v@ == table_model(
                    self@,
                    table@,
                )[key@],
                None => !table_model(self@, table@).contains_key(key@),
            },
    {
        match self.table_index(table) {
            None => {
                proof {
                    self.lemma_view_absent(table@);
                }
                None
            },
            Some(i) => {
                proof {
                    self.lemma_view_table(i as int);
                }
                let entries = &self.tables[i].1;
                match Self::entry_index(entries, key) {
                    None => {
                        proof {
                            lemma_assoc_contains(entries@, key@);
                        }
                        None
                    },
                    Some(j) => {
                        proof {
                            lemma_assoc_index(entries@, j as int);
                        }
                        Some(&entries[j].1)
                    },
                }
            },
        }
    }

    /// Stores `bytes` under `key` in `table`, creating the table if absent.
    fn insert_raw(&mut self, table: &str, key: &str, bytes: Vec<u8>)
        requires
            old(self).wf(),
        ensures
            final(self).wf(),
            final(self)@ == with_entry(old(self)@, table@, key@, bytes@),
    {
        let ghost m0 = old(self)@;
        let ghost s0 = old(self).tables@;
        match self.table_index(table) {
            None => {
                proof {
                    self.lemma_view_absent(table@);
                }
                let mut entries: Entries = Vec::new();
                entries.push((key.to_owned(), bytes));
                let ghost e1 = entries@;
                self.tables.push((table.to_owned(), entries));
                proof {
                    lemma_assoc_push(s0, self.tables@.last());
                    assert(e1.drop_last() =~= Seq::<(String, Vec<u8>)>::empty());
                    assert(assoc_view(Seq::<(String, Vec<u8>)>::empty()) == Map::<
                        Seq<char>,
                        Seq<u8>,
                    >::empty());
                    assert(e1.last().0@ == key@ && e1.last().1@ == bytes@);
                    assert(assoc_view(e1) =~= table_model(m0, table@).insert(key@, bytes@));
                    assert(self@ =~= with_entry(m0, table@, key@, bytes@));
                }
            },
            Some(i) => {
                proof {
                    self.lemma_view_table(i as int);
                    lemma_assoc_remove(s0, i as int);
                    lemma_distinct_remove(s0, i as int);
                }
                let mut pair = self.tables.remove(i);
                let ghost e0 = pair.1@;
                match Self::entry_index(&pair.1, key) {
                    Some(j) => {
                        proof {
                            lemma_assoc_remove(e0, j as int);
                            lemma_distinct_remove(e0, j as int);
                        }
                        let _ = pair.1.remove(j);
                        pair.1.push((key.to_owned(), bytes));
                        proof {
                            lemma_assoc_push(e0.remove(j as int), pair.1@.last());
                        }
                    },
                    None => {
                        proof {
                            lemma_assoc_contains(e0, key@);
                        }
                        pair.1.push((key.to_owned(), bytes));
                        proof {
                            lemma_assoc_push(e0, pair.1@.last());
                        }
                    },
                }
                let ghost e1 = pair.1@;
                self.tables.push(pair);
                proof {
                    lemma_assoc_push(s0.remove(i as int), self.tables@.last());
                    assert(assoc_view(e1) =~= table_model(m0, table@).insert(key@, bytes@));
                    assert(self@ =~= with_entry(m0, table@, key@, bytes@));
                }
            },
        }
    }

    /// Serializes `value` and stores it under `key` in `table`.
    pub(crate) fn insert<T: serde::Serialize>(&mut self, table: &str, key: &str, value: &T) -> (r:
        Result<(), Error>)
        requires
            old(self).wf(),
        ensures
            final(self).wf(),
            r is Ok ==> exists|b: Seq<u8>|
                final(self)@ == with_entry(old(self)@, table@, key@, b),
            r is Err ==> final(self)@ == old(self)@,
    {
        match serialize(value) {
            Ok(bytes) => {
                let ghost b = bytes@;
                self.insert_raw(table, key, bytes);
                proof {
                    assert(final(self)@ == with_entry(old(self)@, table@, key@, b));
                }
                Ok(())
            },
            Err(e) => Err(e),
        }
    }

    /// Reads the value stored under `key` in `table`, decoded as `T`.
    pub(crate) fn get<T: serde::de::DeserializeOwned>(&self, table: &str, key: &str) -> (r: Result<
        Option<T>,
        Error,
    >)
        requires
            self.wf(),
        ensures
            r matches Ok(None) <==> !table_model(self@, table@).contains_key(key@),
            r matches Err(e) ==> e is Codec && table_model(self@, table@).contains_key(key@),
    {
        match self.lookup(table, key) {
            None => Ok(None),
            Some(bytes) => match deserialize::<T>(bytes.as_slice()) {
                Ok(v) => Ok(Some(v)),
                Err(e) => Err(e),
            },
        }
    }

    /// Removes `key` from `table`; absent keys are a no-op. The table itself
    /// stays, and is created empty when it was absent.
    pub(crate) fn remove(&mut self, table: &str, key: &str) -> (r: Result<(), Error>)
        requires
            old(self).wf(),
        ensures
            final(self).wf(),
            r is Ok,
            final(self)@ == without_entry(old(self)@, table@, key@),
    {
        let ghost m0 = old(self)@;
        let ghost s0 = old(self).tables@;
        match self.table_index(table) {
            None => {
                proof {
                    self.lemma_view_absent(table@);
                }
                self.tables.push((table.to_owned(), Vec::new()));
                proof {
                    lemma_assoc_push(s0, self.tables@.last());
                    assert(assoc_view(Seq::<(String, Vec<u8>)>::empty())
                        =~= table_model(m0, table@).remove(key@));
                    assert(self@ =~= without_entry(m0, table@, key@));
                }
            },
            Some(i) => {
                proof {
                    self.lemma_view_table(i as int);
                    lemma_assoc_remove(s0, i as int);
                    lemma_distinct_remove(s0, i as int);
                }
                let mut pair = self.tables.remove(i);
                let ghost e0 = pair.1@;
                match Self::entry_index(&pair.1, key) {
                    Some(j) => {
                        proof {
                            lemma_assoc_remove(e0, j as int);
                            lemma_distinct_remove(e0, j as int);
                        }
                        let _ = pair.1.remove(j);
                    },
                    None => {
                        proof {
                            lemma_assoc_contains(e0, key@);
                            assert(assoc_view(e0).remove(key@) =~= assoc_view(e0));
                        }
                    },
                }
                let ghost e1 = pair.1@;
                self.tables.push(pair);
                proof {
                    lemma_assoc_push(s0.remove(i as int), self.tables@.last());
                    assert(assoc_view(e1) =~= table_model(m0, table@).remove(key@));
                    assert(self@ =~= without_entry(m0, table@, key@));
                }
            },
        }
        Ok(())
    }

    /// Deletes `table` entirely: it stops being tracked, never lingering as
    /// a tombstone; deleting an absent table is a no-op.
    pub(crate) fn delete_table(&mut self, table: &str) -> (r: Result<(), Error>)
        requires
            old(self).wf(),
        ensures
            final(self).wf(),
            r is Ok,
            final(self)@ == old(self)@.remove(table@),
    {
        let ghost m0 = old(self)@;
        let ghost s0 = old(self).tables@;
        match self.table_index(table) {
            None => {
                proof {
                    self.lemma_view_absent(table@);
                    assert(m0.remove(table@) =~= m0);
                }
            },
            Some(i) => {
                proof {
                    lemma_assoc_remove(s0, i as int);
                    lemma_distinct_remove(s0, i as int);
                }
                let _ = self.tables.remove(i);
                proof {
                    assert forall|a: int| 0 <= a < self.tables@.len() implies keys_distinct(
                        #[trigger] self.tables@[a].1@,
                    ) by {
                        assert(self.tables@[a] == (if a < i as int {
                            s0[a]
                        } else {
                            s0[a + 1]
                        }));
                    }
                    assert(self@ =~= m0.remove(table@));
                }
            },
        }
        Ok(())
    }

    /// Empties `table` but keeps it listed; an absent table is created empty.
    pub(crate) fn clear(&mut self, table: &str) -> (r: Result<(), Error>)
        requires
            old(self).wf(),
        ensures
            final(self).wf(),
            r is Ok,
            final(self)@ == old(self)@.insert(table@, Map::<Seq<char>, Seq<u8>>::empty()),
    {
        let ghost m0 = old(self)@;
        let ghost s0 = old(self).tables@;
        match self.table_index(table) {
            None => {
                self.tables.push((table.to_owned(), Vec::new()));
                proof {
                    lemma_assoc_push(s0, self.tables@.last());
                    assert(assoc_view(Seq::<(String, Vec<u8>)>::empty()) =~= Map::<
                        Seq<char>,
                        Seq<u8>,
                    >::empty());
                    assert(self@ =~= m0.insert(table@, Map::<Seq<char>, Seq<u8>>::empty()));
                }
            },
            Some(i) => {
                proof {
                    lemma_assoc_remove(s0, i as int);
                    lemma_distinct_remove(s0, i as int);
                }
                let mut pair = self.tables.remove(i);
                pair.1 = Vec::new();
                self.tables.push(pair);
                proof {
                    lemma_assoc_push(s0.remove(i as int), self.tables@.last());
                    assert(assoc_view(Seq::<(String, Vec<u8>)>::empty()) =~= Map::<
                        Seq<char>,
                        Seq<u8>,
                    >::empty());
                    assert(self@ =~= m0.insert(table@, Map::<Seq<char>, Seq<u8>>::empty()));
                }
            },
        }
        Ok(())
    }

    /// All keys of `table`, one for each entry.
    pub(crate) fn keys(&self, table: &str) -> (r: Result<Vec<String>, Error>)
        requires
            self.wf(),
        ensures
            r is Ok,
            r matches Ok(ks) ==> ks@.len() == table_model(self@, table@).dom().len(),
            r matches Ok(ks) ==> views_of(ks@).no_duplicates(),
            r matches Ok(ks) ==> views_of(ks@).to_set() == table_model(self@, table@).dom(),
    {
        let mut out: Vec<String> = Vec::new();
        match self.table_index(table) {
            None => {
                proof {
                    self.lemma_view_absent(table@);
                    broadcast use vstd::set::axiom_set_empty_len;

                    assert(views_of(out@) =~= Seq::<Seq<char>>::empty());
                    assert(views_of(out@).to_set() =~= table_model(self@, table@).dom());
                }
                Ok(out)
            },
            Some(i) => {
                proof {
                    self.lemma_view_table(i as int);
                }
                let entries = &self.tables[i].1;
                let ghost e = entries@;
                let mut j: usize = 0;
                while j < entries.len()
                    invariant
                        j <= e.len(),
                        entries@ == e,
                        out@.len() == j,
                        forall|a: int| 0 <= a < j ==> #[trigger] out@[a]@ == e[a].0@,
                    decreases e.len() - j,
                {
                    out.push(entries[j].0.clone());
                    j += 1;
                }
                proof {
                    assert(keys_distinct(e));
                    lemma_assoc_len(e);
                    let vs = views_of(out@);
                    assert(vs.len() == e.len());
                    assert(forall|a: int| 0 <= a < vs.len() ==> #[trigger] vs[a] == e[a].0@);
                    assert forall|a: int, b: int|
                        0 <= a < vs.len() && 0 <= b < vs.len() && a != b implies vs[a] != vs[b] by {
                        assert(vs[a] == e[a].0@ && vs[b] == e[b].0@);
                    }
                    assert(vs.no_duplicates());
                    assert forall|t: Seq<char>| vs.to_set().contains(t) implies table_model(
                        self@,
                        table@,
                    ).contains_key(t) by {
                        let a = choose|a: int| 0 <= a < vs.len() && vs[a] == t;
                        lemma_assoc_index(e, a);
                    }
                    assert forall|t: Seq<char>|
                        table_model(self@, table@).contains_key(t) implies vs.to_set().contains(
                        t,
                    ) by {
                        lemma_assoc_contains(e, t);
                        let a = choose|a: int| 0 <= a < e.len() && e[a].0@ == t;
                        assert(vs[a] == t);
                    }
                    assert(vs.to_set() =~= table_model(self@, table@).dom());
                }
                Ok(out)
            },
        }
    }

    /// All values of `table` that decode as `T`; entries that do not are
    /// skipped.
    pub(crate) fn values<T: serde::de::DeserializeOwned>(&self, table: &str) -> (r: Result<
        Vec<T>,
        Error,
    >)
        requires
            self.wf(),
        ensures
            r is Ok,
            r matches Ok(vs) ==> vs@.len() <= table_model(self@, table@).dom().len(),
    {
        let mut out: Vec<T> = Vec::new();
        match self.table_index(table) {
            None => {
                proof {
                    self.lemma_view_absent(table@);
                }
                Ok(out)
            },
            Some(i) => {
                proof {
                    self.lemma_view_table(i as int);
                    lemma_assoc_len(self.tables@[i as int].1@);
                }
                let entries = &self.tables[i].1;
                let mut j: usize = 0;
                while j < entries.len()
                    invariant
                        j <= entries@.len(),
                        out@.len() <= j,
                    decreases entries@.len() - j,
                {
                    match deserialize::<T>(entries[j].1.as_slice()) {
                        Ok(v) => out.push(v),
                        Err(_) => (),
                    }
                    j += 1;
                }
                Ok(out)
            },
        }
    }

    /// All entries of `table` whose value decodes as `T`, as (key, value)
    /// pairs; entries that do not decode are skipped.
    pub(crate) fn entries<T: serde::de::DeserializeOwned>(&self, table: &str) -> (r: Result<
        Vec<(String, T)>,
        Error,
    >)
        requires
            self.wf(),
        ensures
            r is Ok,
            r matches Ok(es) ==> es@.len() <= table_model(self@, table@).dom().len(),
            r matches Ok(es) ==> forall|a: int|
                0 <= a < es@.len() ==> table_model(self@, table@).contains_key(#[trigger] es@[a].0@),
            r matches Ok(es) ==> forall|a: int, b: int|
                0 <= a < b < es@.len() ==> es@[a].0@ != es@[b].0@,
    {
        let mut out: Vec<(String, T)> = Vec::new();
        match self.table_index(table) {
            None => {
                proof {
                    self.lemma_view_absent(table@);
                }
                Ok(out)
            },
            Some(i) => {
                proof {
                    self.lemma_view_table(i as int);
                    lemma_assoc_len(self.tables@[i as int].1@);
                }
                let entries = &self.tables[i].1;
                let ghost e = entries@;
                let mut j: usize = 0;
                while j < entries.len()
                    invariant
                        self.wf(),
                        0 <= i < self.tables@.len(),
                        entries@ == e,
                        e == self.tables@[i as int].1@,
                        table_model(self@, table@) == assoc_view(e),
                        j <= e.len(),
                        out@.len() <= j,
                        keys_distinct(e),
                        forall|a: int|
                            0 <= a < out@.len() ==> exists|jj: int|
                                0 <= jj < j && #[trigger] out@[a].0@ == e[jj].0@,
                        forall|a: int, b: int| 0 <= a < b < out@.len() ==> out@[a].0@ != out@[b].0@,
                    decreases e.len() - j,
                {
                    match deserialize::<T>(entries[j].1.as_slice()) {
                        Ok(v) => {
                            let ghost out0 = out@;
                            out.push((entries[j].0.clone(), v));
                            proof {
                                assert(out@[out@.len() - 1].0@ == e[j as int].0@);
                                assert forall|a: int| 0 <= a < out@.len() - 1 implies out@[a].0@
                                    != e[j as int].0@ by {
                                    assert(out@[a] == out0[a]);
                                    let jj = choose|jj: int|
                                        0 <= jj < j && #[trigger] out0[a].0@ == e[jj].0@;
                                    assert(e[jj].0@ != e[j as int].0@);
                                }
                            }
                        },
                        Err(_) => (),
                    }
                    j += 1;
                }
                proof {
                    assert forall|a: int|
                        0 <= a < out@.len() implies table_model(self@, table@).contains_key(
                        #[trigger] out@[a].0@,
                    ) by {
                        let jj = choose|jj: int|
                            0 <= jj < e.len() && #[trigger] out@[a].0@ == e[jj].0@;
                        lemma_assoc_index(e, jj);
                    }
                }
                Ok(out)
            },
        }
    }

    /// The number of entries in `table`.
    pub(crate) fn len(&self, table: &str) -> (r: Result<usize, Error>)
        requires
            self.wf(),
        ensures
            r is Ok,
            r matches Ok(n) ==> n == table_model(self@, table@).dom().len(),
    {
        match self.table_index(table) {
            None => {
                proof {
                    self.lemma_view_absent(table@);
                    broadcast use vstd::set::axiom_set_empty_len;
                }
                Ok(0)
            },
            Some(i) => {
                proof {
                    self.lemma_view_table(i as int);
                    lemma_assoc_len(self.tables@[i as int].1@);
                }
                Ok(self.tables[i].1.len())
            },
        }
    }

    /// Whether `table` holds `key`.
    pub(crate) fn contains_key(&self, table: &str, key: &str) -> (r: Result<bool, Error>)
        requires
            self.wf(),
        ensures
            r is Ok,
            r matches Ok(b) ==> b == table_model(self@, table@).contains_key(key@),
    {
        match self.lookup(table, key) {
            Some(_) => Ok(true),
            None => Ok(false),
        }
    }

    /// Whether `table` has no entries.
    pub(crate) fn is_empty(&self, table: &str) -> (r: Result<bool, Error>)
        requires
            self.wf(),
        ensures
            r is Ok,
            r matches Ok(b) ==> b == (table_model(self@, table@).dom().len() == 0),
    {
        match self.len(table) {
            Ok(n) => Ok(n == 0),
            Err(e) => Err(e),
        }
    }

    /// The names of all tracked tables, a table once written to or cleared
    /// staying tracked even when empty.
    pub(crate) fn list_tables(&self) -> (r: Result<Vec<String>, Error>)
        requires
            self.wf(),
        ensures
            r is Ok,
            r matches Ok(ts) ==> views_of(ts@).no_duplicates(),
            r matches Ok(ts) ==> views_of(ts@).to_set() == self@.dom(),
    {
        let mut out: Vec<String> = Vec::new();
        let ghost s = self.tables@;
        let mut i: usize = 0;
        while i < self.tables.len()
            invariant
                i <= s.len(),
                self.tables@ == s,
                out@.len() == i,
                forall|a: int| 0 <= a < i ==> #[trigger] out@[a]@ == s[a].0@,
            decreases s.len() - i,
        {
            out.push(self.tables[i].0.clone());
            i += 1;
        }
        proof {
            let vs = views_of(out@);
            assert(vs.len() == s.len());
            assert(forall|a: int| 0 <= a < vs.len() ==> #[trigger] vs[a] == s[a].0@);
            assert forall|a: int, b: int|
                0 <= a < vs.len() && 0 <= b < vs.len() && a != b implies vs[a] != vs[b] by {
                assert(vs[a] == s[a].0@ && vs[b] == s[b].0@);
            }
            assert(vs.no_duplicates());
            assert forall|t: Seq<char>| vs.to_set().contains(t) implies self@.contains_key(t) by {
                let a = choose|a: int| 0 <= a < vs.len() && vs[a] == t;
                lemma_assoc_index(s, a);
            }
            assert forall|t: Seq<char>| self@.contains_key(t) implies vs.to_set().contains(t) by {
                lemma_assoc_contains(s, t);
                let a = choose|a: int| 0 <= a < s.len() && s[a].0@ == t;
                assert(vs[a] == t);
            }
            assert(vs.to_set() =~= self@.dom());
        }
        Ok(out)
    }

    /// The number of entries across all tables.
    pub(crate) fn len_all_tables(&self) -> (r: Result<usize, Error>)
        requires
            self.wf(),
        ensures
            r matches Ok(n) ==> is_total_len(self@, n as nat),
            r is Err ==> exists|n: nat| is_total_len(self@, n) && n > usize::MAX,
    {
        let ghost s = self.tables@;
        let ghost names: Seq<Seq<char>> = Seq::new(s.len(), |a: int| s[a].0@);
        proof {
            assert forall|a: int, b: int| 0 <= a < b < names.len() implies names[a] != names[b] by {
                assert(s[a].0@ != s[b].0@);
            }
            assert(names.no_duplicates());
            assert forall|t: Seq<char>| names.to_set().contains(t) implies self@.contains_key(
                t,
            ) by {
                let a = choose|a: int| 0 <= a < names.len() && names[a] == t;
                assert(s[a].0@ == t);
                lemma_assoc_contains(s, t);
            }
            assert forall|t: Seq<char>| self@.contains_key(t) implies names.to_set().contains(
                t,
            ) by {
                lemma_assoc_contains(s, t);
                let a = choose|a: int| 0 <= a < s.len() && s[a].0@ == t;
                assert(names[a] == t);
            }
            assert(names.to_set() =~= self@.dom());
        }
        let mut sum: usize = 0;
        let mut i: usize = 0;
        while i < self.tables.len()
            invariant
                self.wf(),
                i <= s.len(),
                self.tables@ == s,
                names == Seq::new(s.len(), |a: int| s[a].0@),
                names.no_duplicates(),
                names.to_set() == self@.dom(),
                sum as nat == sum_lens(self@, names.take(i as int)),
            decreases s.len() - i,
        {
            let l = self.tables[i].1.len();
            proof {
                self.lemma_view_table(i as int);
                lemma_assoc_len(s[i as int].1@);
                lemma_sum_lens_push(self@, names.take(i as int), names[i as int]);
                assert(names.take(i as int).push(names[i as int]) =~= names.take(i as int + 1));
            }
            if l > usize::MAX - sum {
                proof {
                    lemma_sum_lens_split(self@, names, i as int + 1);
                    assert(sum_lens(self@, names) > usize::MAX);
                    assert(is_total_len(self@, sum_lens(self@, names)));
                }
                return Err(Error::Backend("the total entry count does not fit in usize".to_owned()));
            }
            sum = sum + l;
            i += 1;
        }
        proof {
            assert(names.take(s.len() as int) =~= names);
            assert(names.no_duplicates() && names.to_set() == self@.dom() && sum as nat == sum_lens(
                self@,
                names,
            ));
            assert(is_total_len(self@, sum as nat));
        }
        Ok(sum)
    }

    /// Drops every table.
    pub(crate) fn clear_all_tables(&mut self) -> (r: Result<(), Error>)
        requires
            old(self).wf(),
        ensures
            final(self).wf(),
            r is Ok,
            final(self)@ == Map::<Seq<char>, Map<Seq<char>, Seq<u8>>>::empty(),
    {
        self.tables.clear();
        proof {
            assert(self@ =~= Map::<Seq<char>, Map<Seq<char>, Seq<u8>>>::empty());
        }
        Ok(())
    }
}

} // verus!

//! Laws of the store model: what the operations promise when composed.
//! Each law is stated over the same spec functions that the executable
//! operations' contracts use, so it applies to both backends.
use vstd::prelude::*;

use crate::model::{table_model, with_entry, without_entry, StoreModel};

verus! {

/// Law: a write followed by a read of the same table and key sees exactly
/// the bytes written, whatever the store held before.
pub proof fn lemma_insert_then_get(m: StoreModel, t: Seq<char>, k: Seq<char>, b: Seq<u8>)
    ensures
        table_model(with_entry(m, t, k, b), t).contains_key(k),
        table_model(with_entry(m, t, k, b), t)[k] == b,
{
}

/// Law: removing an absent key changes nothing, provided the table already
/// exists (removing from an absent table creates it empty).
pub proof fn lemma_remove_absent_noop(m: StoreModel, t: Seq<char>, k: Seq<char>)
    requires
        m.dom().contains(t),
        !table_model(m, t).contains_key(k),
    ensures
        without_entry(m, t, k) == m,
{
    assert(table_model(m, t).remove(k) =~= table_model(m, t));
    assert(without_entry(m, t, k) =~= m);
}

/// Law: after a removal the key reads as absent, whether or not it was
/// present before.
pub proof fn lemma_get_after_remove(m: StoreModel, t: Seq<char>, k: Seq<char>)
    ensures
        !table_model(without_entry(m, t, k), t).contains_key(k),
{
}

/// Law: clearing empties the table on either backend. The durable backend
/// deletes the table object (`m.remove(t)`); the volatile backend keeps an
/// emptied table listed (`m.insert(t, empty)`); on both, every read of the
/// cleared table afterwards sees no entries, no keys, length zero.
pub proof fn lemma_clear_empties(m: StoreModel, t: Seq<char>)
    ensures
        table_model(m.remove(t), t) == Map::<Seq<char>, Seq<u8>>::empty(),
        table_model(m.insert(t, Map::empty()), t) == Map::<Seq<char>, Seq<u8>>::empty(),
        table_model(m.remove(t), t).dom().len() == 0,
        table_model(m.insert(t, Map::empty()), t).dom().len() == 0,
{
    broadcast use vstd::set::axiom_set_empty_len;

}

/// Law: tables are isolated. A write or removal in one table is invisible
/// through any other table.
pub proof fn lemma_table_isolation(
    m: StoreModel,
    t1: Seq<char>,
    t2: Seq<char>,
    k: Seq<char>,
    b: Seq<u8>,
)
    requires
        t1 != t2,
    ensures
        table_model(with_entry(m, t1, k, b), t2) == table_model(m, t2),
        table_model(without_entry(m, t1, k), t2) == table_model(m, t2),
{
}

/// Law: reading from a table that does not exist behaves exactly like
/// reading from an empty one.
pub proof fn lemma_absent_table_reads_empty(m: StoreModel, t: Seq<char>)
    requires
        !m.dom().contains(t),
    ensures
        table_model(m, t) == Map::<Seq<char>, Seq<u8>>::empty(),
{
}

/// Law: a get-or-insert that wrote a default leaves the key present, and an
/// overwrite of the same key adds no second entry: the table's key set gains
/// `k` once and only once. Together with the get-or-insert contract — a
/// present key leaves the store untouched — a second get-or-insert with a
/// different default writes nothing and returns what the first call stored.
pub proof fn lemma_get_or_insert_single_entry(
    m: StoreModel,
    t: Seq<char>,
    k: Seq<char>,
    b1: Seq<u8>,
    b2: Seq<u8>,
)
    ensures
        table_model(with_entry(m, t, k, b1), t).contains_key(k),
        table_model(with_entry(with_entry(m, t, k, b1), t, k, b2), t).dom() == table_model(
            with_entry(m, t, k, b1),
            t,
        ).dom(),
{
    assert(table_model(with_entry(with_entry(m, t, k, b1), t, k, b2), t).dom()
        =~= table_model(with_entry(m, t, k, b1), t).dom());
}

} // verus!

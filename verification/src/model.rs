//! The mathematical model of a store: a map from table names to tables,
//! where each table maps keys to the bytes stored under them.
use vstd::prelude::*;

verus! {

/// Abstract state of a whole store: table name -> (key -> stored bytes).
pub type StoreModel = Map<Seq<char>, Map<Seq<char>, Seq<u8>>>;

/// The store with no tables at all.
pub open spec fn empty_model() -> StoreModel {
    Map::empty()
}

/// The contents of one table. A table that is not listed reads as an empty
/// one: reading from a missing table and reading from an empty table are
/// indistinguishable.
pub open spec fn table_model(m: StoreModel, t: Seq<char>) -> Map<Seq<char>, Seq<u8>> {
    if m.dom().contains(t) {
        m[t]
    } else {
        Map::empty()
    }
}

/// The store after writing `v` under key `k` of table `t`; the table is
/// created when it was absent.
pub open spec fn with_entry(m: StoreModel, t: Seq<char>, k: Seq<char>, v: Seq<u8>) -> StoreModel {
    m.insert(t, table_model(m, t).insert(k, v))
}

/// The store after removing key `k` from table `t`; the table itself stays
/// listed (an empty table remains), and is created when it was absent.
pub open spec fn without_entry(m: StoreModel, t: Seq<char>, k: Seq<char>) -> StoreModel {
    m.insert(t, table_model(m, t).remove(k))
}

/// Total number of entries in the tables named by `names`.
pub open spec fn sum_lens(m: StoreModel, names: Seq<Seq<char>>) -> nat
    decreases names.len(),
{
    if names.len() == 0 {
        0
    } else {
        table_model(m, names[0]).dom().len() + sum_lens(m, names.drop_first())
    }
}

/// `n` is the total entry count of `m`: the sum of the table sizes, taken
/// over some duplicate-free enumeration of the table names.
pub open spec fn is_total_len(m: StoreModel, n: nat) -> bool {
    exists|names: Seq<Seq<char>>|
        names.no_duplicates() && names.to_set() == m.dom() && n == sum_lens(m, names)
}

/// A duplicate-free association list, read as a map from the keys' views to
/// the values' views.
pub open spec fn assoc_view<T: View>(s: Seq<(String, T)>) -> Map<Seq<char>, T::V>
    decreases s.len(),
{
    if s.len() == 0 {
        Map::empty()
    } else {
        assoc_view(s.drop_last()).insert(s.last().0@, s.last().1@)
    }
}

/// No two entries share a key.
pub open spec fn keys_distinct<T>(s: Seq<(String, T)>) -> bool {
    forall|i: int, j: int| 0 <= i < j < s.len() ==> s[i].0@ != s[j].0@
}

pub proof fn lemma_assoc_contains<T: View>(s: Seq<(String, T)>, k: Seq<char>)
    ensures
        assoc_view(s).contains_key(k) <==> exists|i: int| 0 <= i < s.len() && s[i].0@ == k,
    decreases s.len(),
{
    if s.len() > 0 {
        lemma_assoc_contains(s.drop_last(), k);
        if s.last().0@ == k {
            assert(s[s.len() - 1].0@ == k);
        } else if assoc_view(s).contains_key(k) {
            let i = choose|i: int| 0 <= i < s.drop_last().len() && s.drop_last()[i].0@ == k;
            assert(s[i].0@ == k);
        } else if exists|i: int| 0 <= i < s.len() && s[i].0@ == k {
            let i = choose|i: int| 0 <= i < s.len() && s[i].0@ == k;
            assert(s.drop_last()[i].0@ == k);
        }
    }
}

pub proof fn lemma_assoc_index<T: View>(s: Seq<(String, T)>, i: int)
    requires
        keys_distinct(s),
        0 <= i < s.len(),
    ensures
        assoc_view(s).contains_key(s[i].0@),
        assoc_view(s)[s[i].0@] == s[i].1@,
    decreases s.len(),
{
    if i < s.len() - 1 {
        lemma_assoc_index(s.drop_last(), i);
        assert(s.drop_last()[i] == s[i]);
        assert(s.last().0@ != s[i].0@);
    }
}

pub proof fn lemma_assoc_len<T: View>(s: Seq<(String, T)>)
    requires
        keys_distinct(s),
    ensures
        assoc_view(s).dom().finite(),
        assoc_view(s).dom().len() == s.len(),
    decreases s.len(),
{
    if s.len() > 0 {
        lemma_assoc_len(s.drop_last());
        lemma_assoc_contains(s.drop_last(), s.last().0@);
        assert(!assoc_view(s.drop_last()).contains_key(s.last().0@));
        vstd::set::axiom_set_insert_len(assoc_view(s.drop_last()).dom(), s.last().0@);
    }
}

pub proof fn lemma_assoc_push<T: View>(s: Seq<(String, T)>, p: (String, T))
    ensures
        assoc_view(s.push(p)) == assoc_view(s).insert(p.0@, p.1@),
{
    assert(s.push(p).drop_last() =~= s);
    assert(s.push(p).last() == p);
}

pub proof fn lemma_assoc_remove<T: View>(s: Seq<(String, T)>, i: int)
    requires
        keys_distinct(s),
        0 <= i < s.len(),
    ensures
        assoc_view(s.remove(i)) == assoc_view(s).remove(s[i].0@),
    decreases s.len(),
{
    if i == s.len() - 1 {
        assert(s.remove(i) =~= s.drop_last());
        lemma_assoc_contains(s.drop_last(), s[i].0@);
        assert(!assoc_view(s.drop_last()).contains_key(s[i].0@));
        assert(assoc_view(s.drop_last()).remove(s[i].0@) =~= assoc_view(s.drop_last()));
    } else {
        lemma_assoc_remove(s.drop_last(), i);
        assert(s.remove(i).drop_last() =~= s.drop_last().remove(i));
        assert(s.remove(i).last() == s.last());
        assert(s.last().0@ != s[i].0@);
        assert(assoc_view(s.remove(i)) =~= assoc_view(s).remove(s[i].0@));
    }
}

pub proof fn lemma_distinct_remove<T>(s: Seq<(String, T)>, i: int)
    requires
        keys_distinct(s),
        0 <= i < s.len(),
    ensures
        keys_distinct(s.remove(i)),
        forall|a: int| 0 <= a < s.remove(i).len() ==> s.remove(i)[a].0@ != s[i].0@,
{
    assert forall|a: int, b: int| 0 <= a < b < s.remove(i).len() implies s.remove(i)[a].0@ != s.remove(
        i,
    )[b].0@ by {
        assert(s.remove(i)[a] == (if a < i { s[a] } else { s[a + 1] }));
        assert(s.remove(i)[b] == (if b < i { s[b] } else { s[b + 1] }));
    }
    assert forall|a: int| 0 <= a < s.remove(i).len() implies s.remove(i)[a].0@ != s[i].0@ by {
        assert(s.remove(i)[a] == (if a < i { s[a] } else { s[a + 1] }));
    }
}

/// The views of a list of owned strings.
pub open spec fn views_of(ks: Seq<String>) -> Seq<Seq<char>> {
    ks.map_values(|s: String| s@)
}

pub proof fn lemma_sum_lens_split(m: StoreModel, names: Seq<Seq<char>>, i: int)
    requires
        0 <= i <= names.len(),
    ensures
        sum_lens(m, names) == sum_lens(m, names.take(i)) + sum_lens(m, names.skip(i)),
    decreases i,
{
    if i == 0 {
        assert(names.take(0) =~= Seq::<Seq<char>>::empty());
        assert(names.skip(0) =~= names);
        assert(sum_lens(m, Seq::<Seq<char>>::empty()) == 0);
    } else {
        lemma_sum_lens_split(m, names.drop_first(), i - 1);
        assert(names.take(i).drop_first() =~= names.drop_first().take(i - 1));
        assert(names.take(i)[0] == names[0]);
        assert(names.skip(i) =~= names.drop_first().skip(i - 1));
    }
}

pub proof fn lemma_sum_lens_push(m: StoreModel, names: Seq<Seq<char>>, t: Seq<char>)
    ensures
        sum_lens(m, names.push(t)) == sum_lens(m, names) + table_model(m, t).dom().len(),
    decreases names.len(),
{
    if names.len() == 0 {
        assert(names.push(t)[0] == t);
        assert(names.push(t).drop_first() =~= Seq::<Seq<char>>::empty());
        assert(names =~= Seq::<Seq<char>>::empty());
        assert(sum_lens(m, Seq::<Seq<char>>::empty()) == 0);
        assert(sum_lens(m, names.push(t)) == table_model(m, t).dom().len() + sum_lens(
            m,
            Seq::<Seq<char>>::empty(),
        ));
    } else {
        assert(names.push(t)[0] == names[0]);
        assert(names.push(t).drop_first() =~= names.drop_first().push(t));
        lemma_sum_lens_push(m, names.drop_first(), t);
    }
}

} // verus!

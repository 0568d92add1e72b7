//! Sparse flag storage: an insertion-ordered associative map from an outside
//! crate, seen by the proofs through one name per instantiation — the
//! sequence of key/value pairs it holds, in storage order.
//!
//! Every method the library calls goes through a wrapper whose contract says,
//! over that sequence, what the crate's own documentation and source promise:
//! a new map is empty, `insert` updates an existing key in place or appends a
//! new one last, `get` finds the value under a key, `get_index` reads a pair
//! by position, and `clone` copies the pairs in order.

use indexmap::IndexMap;
use vstd::prelude::*;

verus! {

#[verifier::external_type_specification]
#[verifier::external_body]
#[verifier::reject_recursive_types(K)]
#[verifier::reject_recursive_types(V)]
#[verifier::reject_recursive_types(S)]
pub struct ExIndexMap<K, V, S>(IndexMap<K, V, S>);

/// What an integer-valued map holds: its key/value pairs in storage order.
pub uninterp spec fn int_entries(m: IndexMap<i32, i32>) -> Seq<(i32, i32)>;

/// What a float-bits-valued map holds: its key/value pairs in storage order.
pub uninterp spec fn float_entries(m: IndexMap<i32, u32>) -> Seq<(i32, u32)>;

// ---------------------------------------------------------------------------
// The mathematical model of insertion-ordered associative storage.
// ---------------------------------------------------------------------------

pub open spec fn has_key<V>(s: Seq<(i32, V)>, k: i32) -> bool {
    exists|i: int| 0 <= i < s.len() && (#[trigger] s[i]).0 == k
}

pub open spec fn index_of_key<V>(s: Seq<(i32, V)>, k: i32) -> int {
    choose|i: int| 0 <= i < s.len() && (#[trigger] s[i]).0 == k
}

/// The value stored under a key, or absent.
pub open spec fn lookup<V>(s: Seq<(i32, V)>, k: i32) -> Option<V> {
    if has_key(s, k) {
        Some(s[index_of_key(s, k)].1)
    } else {
        None
    }
}

/// No key occurs twice; every map reachable through this module satisfies it.
pub open spec fn unique_keys<V>(s: Seq<(i32, V)>) -> bool {
    forall|i: int, j: int|
        0 <= i < j < s.len() ==> (#[trigger] s[i]).0 != (#[trigger] s[j]).0
}

/// What one insert does to the pairs: an existing key keeps its place and
/// takes the new value; a new key is appended last.
pub open spec fn insert_entry<V>(s: Seq<(i32, V)>, k: i32, v: V) -> Seq<(i32, V)> {
    if has_key(s, k) {
        s.update(index_of_key(s, k), (k, v))
    } else {
        s.push((k, v))
    }
}

pub proof fn lemma_insert_entry_unique<V>(s: Seq<(i32, V)>, k: i32, v: V)
    requires
        unique_keys(s),
    ensures
        unique_keys(insert_entry(s, k, v)),
        lookup(insert_entry(s, k, v), k) == Some(v),
        forall|k2: i32| k2 != k ==> lookup(insert_entry(s, k, v), k2) == lookup(s, k2),
        insert_entry(s, k, v).len() == if has_key(s, k) {
            s.len()
        } else {
            s.len() + 1
        },
{
    let t = insert_entry(s, k, v);
    if has_key(s, k) {
        let i = index_of_key(s, k);
        assert(0 <= i < s.len() && s[i].0 == k);
        assert(t[i] == (k, v));
        assert(has_key(t, k));
        assert(forall|j: int| 0 <= j < t.len() && j != i ==> t[j] == s[j]);
        assert(forall|j: int| 0 <= j < t.len() && (#[trigger] t[j]).0 == k ==> j == i);
        assert(index_of_key(t, k) == i);
        assert forall|k2: i32| k2 != k implies lookup(t, k2) == lookup(s, k2) by {
            assert(forall|j: int|
                0 <= j < t.len() ==> (#[trigger] t[j]).0 == (#[trigger] s[j]).0);
            if has_key(s, k2) {
                let j = index_of_key(s, k2);
                assert(t[j].0 == k2);
                assert(has_key(t, k2));
                assert(index_of_key(t, k2) == j);
                assert(j != i);
            } else {
                assert(!has_key(t, k2));
            }
        }
    } else {
        let n = s.len() as int;
        assert(t[n] == (k, v));
        assert(has_key(t, k));
        assert(forall|j: int| 0 <= j < n ==> t[j] == s[j]);
        assert(forall|j: int| 0 <= j < n ==> (#[trigger] t[j]).0 != k);
        assert(index_of_key(t, k) == n);
        assert(unique_keys(t));
        assert forall|k2: i32| k2 != k implies lookup(t, k2) == lookup(s, k2) by {
            if has_key(s, k2) {
                let j = index_of_key(s, k2);
                assert(t[j].0 == k2);
                assert(has_key(t, k2));
                assert(index_of_key(t, k2) == j);
            } else {
                assert(!has_key(t, k2));
            }
        }
    }
}

/// What decoding a run of wire pairs leaves in a map: each pair inserted in
/// order, so a duplicated key keeps its first position and its last value.
pub open spec fn fold_inserts<V>(pairs: Seq<(i32, V)>) -> Seq<(i32, V)>
    decreases pairs.len(),
{
    if pairs.len() == 0 {
        Seq::empty()
    } else {
        insert_entry(fold_inserts(pairs.drop_last()), pairs.last().0, pairs.last().1)
    }
}

pub proof fn lemma_fold_inserts_unique<V>(pairs: Seq<(i32, V)>)
    ensures
        unique_keys(fold_inserts(pairs)),
        fold_inserts(pairs).len() <= pairs.len(),
    decreases pairs.len(),
{
    if pairs.len() == 0 {
    } else {
        lemma_fold_inserts_unique(pairs.drop_last());
        lemma_insert_entry_unique(fold_inserts(pairs.drop_last()), pairs.last().0, pairs.last().1);
    }
}

/// On pairs whose keys are already unique, decoding restores them exactly.
pub proof fn lemma_fold_inserts_identity<V>(pairs: Seq<(i32, V)>)
    requires
        unique_keys(pairs),
    ensures
        fold_inserts(pairs) == pairs,
    decreases pairs.len(),
{
    if pairs.len() == 0 {
        assert(fold_inserts(pairs) =~= pairs);
    } else {
        let front = pairs.drop_last();
        assert(unique_keys(front));
        lemma_fold_inserts_identity(front);
        assert(forall|j: int|
            0 <= j < front.len() ==> (#[trigger] front[j]).0 != pairs.last().0);
        assert(!has_key(front, pairs.last().0));
        assert(fold_inserts(pairs) == front.push(pairs.last()));
        assert(front.push(pairs.last()) =~= pairs);
    }
}

/// What one extend step does: a missing id gains the default value, a
/// present id is left alone.
pub open spec fn insert_default<V>(s: Seq<(i32, V)>, k: i32, d: V) -> Seq<(i32, V)> {
    if has_key(s, k) {
        s
    } else {
        s.push((k, d))
    }
}

/// What extending by a catalog of ids does: each missing id gains the
/// default, in catalog order; present ids are never touched.
pub open spec fn extend_fold<V>(s: Seq<(i32, V)>, ids: Seq<i32>, d: V) -> Seq<(i32, V)>
    decreases ids.len(),
{
    if ids.len() == 0 {
        s
    } else {
        extend_fold(insert_default(s, ids[0], d), ids.drop_first(), d)
    }
}

/// Law: extending is monotonic.  It never changes the value of any id
/// already present, afterwards every id of the catalog and every previously
/// present id is present, and no other id appears.
pub proof fn lemma_extend_fold_monotonic<V>(s: Seq<(i32, V)>, ids: Seq<i32>, d: V)
    requires
        unique_keys(s),
    ensures
        unique_keys(extend_fold(s, ids, d)),
        forall|k: i32| has_key(s, k) ==> lookup(extend_fold(s, ids, d), k) == lookup(s, k),
        forall|k: i32| has_key(s, k) ==> has_key(extend_fold(s, ids, d), k),
        forall|j: int| 0 <= j < ids.len() ==> has_key(extend_fold(s, ids, d), #[trigger] ids[j]),
        forall|k: i32|
            has_key(extend_fold(s, ids, d), k) ==> has_key(s, k) || ids.contains(k),
        forall|k: i32|
            !has_key(s, k) && ids.contains(k) ==> lookup(extend_fold(s, ids, d), k) == Some(d),
    decreases ids.len(),
{
    if ids.len() == 0 {
    } else {
        let k0 = ids[0];
        let s1 = insert_default(s, k0, d);
        if !has_key(s, k0) {
            lemma_insert_entry_unique(s, k0, d);
            assert(s1 == insert_entry(s, k0, d));
            assert(lookup(s1, k0) == Some(d));
        }
        assert(unique_keys(s1));
        assert(forall|k: i32| has_key(s, k) ==> has_key(s1, k) && lookup(s1, k) == lookup(
            s,
            k,
        ));
        assert(forall|k: i32| has_key(s1, k) ==> has_key(s, k) || k == k0);
        lemma_extend_fold_monotonic(s1, ids.drop_first(), d);
        let total = extend_fold(s, ids, d);
        assert(total == extend_fold(s1, ids.drop_first(), d));
        assert forall|j: int| 0 <= j < ids.len() implies has_key(total, #[trigger] ids[j]) by {
            if j == 0 {
                assert(has_key(s1, k0));
            } else {
                assert(ids.drop_first()[j - 1] == ids[j]);
            }
        }
        assert forall|k: i32| has_key(total, k) implies has_key(s, k) || ids.contains(k) by {
            if has_key(s1, k) {
                if !has_key(s, k) {
                    assert(ids[0] == k);
                }
            } else {
                assert(ids.drop_first().contains(k));
                let j = choose|j: int|
                    0 <= j < ids.drop_first().len() && ids.drop_first()[j] == k;
                assert(ids[j + 1] == k);
            }
        }
        assert forall|k: i32|
            !has_key(s, k) && ids.contains(k) implies lookup(total, k) == Some(d) by {
            if k == k0 {
                assert(lookup(s1, k0) == Some(d));
                assert(has_key(s1, k0));
            } else {
                let j = choose|j: int| 0 <= j < ids.len() && ids[j] == k;
                assert(j != 0);
                assert(ids.drop_first()[j - 1] == k);
                assert(ids.drop_first().contains(k));
                if has_key(s1, k) {
                    assert(has_key(s, k));
                } else {
                    assert(lookup(total, k) == Some(d));
                }
            }
        }
    }
}

// ---------------------------------------------------------------------------
// Wrappers over the integer-valued maps.
// ---------------------------------------------------------------------------

/// Relies on indexmap's IndexMap::new: a fresh map holds no pairs.
#[verifier::external_body]
pub fn imap_int_new() -> (m: IndexMap<i32, i32>)
    ensures
        int_entries(m) == Seq::<(i32, i32)>::empty(),
{
    IndexMap::new()
}

/// Relies on indexmap's IndexMap::len: the number of stored pairs.
#[verifier::external_body]
pub fn imap_int_len(m: &IndexMap<i32, i32>) -> (n: usize)
    ensures
        n == int_entries(*m).len(),
{
    m.len()
}

/// Relies on indexmap's IndexMap::get: the value stored under the key.
#[verifier::external_body]
pub fn imap_int_get(m: &IndexMap<i32, i32>, k: i32) -> (r: Option<i32>)
    requires
        unique_keys(int_entries(*m)),
    ensures
        r == lookup(int_entries(*m), k),
{
    m.get(&k).copied()
}

/// Relies on indexmap's IndexMap::insert: an existing key keeps its place in
/// the order and takes the new value; a new key is appended last in order.
#[verifier::external_body]
pub fn imap_int_insert(m: &mut IndexMap<i32, i32>, k: i32, v: i32)
    requires
        unique_keys(int_entries(*old(m))),
    ensures
        int_entries(*final(m)) == insert_entry(int_entries(*old(m)), k, v),
{
    m.insert(k, v);
}

/// Relies on indexmap's IndexMap::get_index: the pair at a storage position,
/// in insertion order.
#[verifier::external_body]
pub fn imap_int_get_index(m: &IndexMap<i32, i32>, i: usize) -> (r: Option<(i32, i32)>)
    ensures
        r == (if i < int_entries(*m).len() {
            Some(int_entries(*m)[i as int])
        } else {
            None::<(i32, i32)>
        }),
{
    m.get_index(i).map(|(k, v)| (*k, *v))
}

/// Relies on indexmap's Clone impl: the copy holds the same pairs in the
/// same order.
#[verifier::external_body]
pub fn imap_int_clone(m: &IndexMap<i32, i32>) -> (r: IndexMap<i32, i32>)
    ensures
        int_entries(r) == int_entries(*m),
{
    m.clone()
}

// ---------------------------------------------------------------------------
// Wrappers over the float-bits-valued maps.
// ---------------------------------------------------------------------------

/// Relies on indexmap's IndexMap::new: a fresh map holds no pairs.
#[verifier::external_body]
pub fn imap_float_new() -> (m: IndexMap<i32, u32>)
    ensures
        float_entries(m) == Seq::<(i32, u32)>::empty(),
{
    IndexMap::new()
}

/// Relies on indexmap's IndexMap::len: the number of stored pairs.
#[verifier::external_body]
pub fn imap_float_len(m: &IndexMap<i32, u32>) -> (n: usize)
    ensures
        n == float_entries(*m).len(),
{
    m.len()
}

/// Relies on indexmap's IndexMap::get: the value stored under the key.
#[verifier::external_body]
pub fn imap_float_get(m: &IndexMap<i32, u32>, k: i32) -> (r: Option<u32>)
    requires
        unique_keys(float_entries(*m)),
    ensures
        r == lookup(float_entries(*m), k),
{
    m.get(&k).copied()
}

/// Relies on indexmap's IndexMap::insert: an existing key keeps its place in
/// the order and takes the new value; a new key is appended last in order.
#[verifier::external_body]
pub fn imap_float_insert(m: &mut IndexMap<i32, u32>, k: i32, v: u32)
    requires
        unique_keys(float_entries(*old(m))),
    ensures
        float_entries(*final(m)) == insert_entry(float_entries(*old(m)), k, v),
{
    m.insert(k, v);
}

/// Relies on indexmap's IndexMap::get_index: the pair at a storage position,
/// in insertion order.
#[verifier::external_body]
pub fn imap_float_get_index(m: &IndexMap<i32, u32>, i: usize) -> (r: Option<(i32, u32)>)
    ensures
        r == (if i < float_entries(*m).len() {
            Some(float_entries(*m)[i as int])
        } else {
            None::<(i32, u32)>
        }),
{
    m.get_index(i).map(|(k, v)| (*k, *v))
}

/// Relies on indexmap's Clone impl: the copy holds the same pairs in the
/// same order.
#[verifier::external_body]
pub fn imap_float_clone(m: &IndexMap<i32, u32>) -> (r: IndexMap<i32, u32>)
    ensures
        float_entries(r) == float_entries(*m),
{
    m.clone()
}

} // verus!

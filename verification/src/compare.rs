//! Compare: a pure function over two fully decoded save trees.
//!
//! Each tree is projected to its plot table; then, per flag space, the ids
//! appearing on either side are walked in ascending order and every
//! disagreement is recorded with both sides kept as optional values —
//! absence is distinct from a present default.  The report is deterministic:
//! equal inputs give an identically ordered, identically valued report.
//!
//! The waiting state machine at the bottom is the decision core of the wider
//! open/compare flow: the caller performs the two opens and feeds completion
//! events back in whatever order they finish; matching is by file path, not
//! by request order, and any failure aborts the whole comparison.

use indexmap::IndexMap;
use vstd::prelude::*;

use crate::index_map::{
    float_entries, has_key, imap_float_clone, imap_float_get, imap_float_get_index,
    imap_float_insert, imap_float_len, imap_float_new, imap_int_clone, imap_int_get,
    imap_int_get_index, imap_int_insert, imap_int_len, imap_int_new, insert_entry, int_entries,
    lemma_insert_entry_unique, lookup, unique_keys,
};
use crate::plot::dense_get;
use crate::save_game::{comparable, dense_pairs, proj_bools, proj_floats, proj_ints, SaveGame, SaveGameV};

verus! {

// ---------------------------------------------------------------------------
// The difference report.
// ---------------------------------------------------------------------------

#[derive(Clone, Copy, Debug, PartialEq, Eq, Structural)]
pub struct BoolDiff {
    pub id: usize,
    pub src: Option<bool>,
    pub cmp: Option<bool>,
}

#[derive(Clone, Copy, Debug, PartialEq, Eq, Structural)]
pub struct IntDiff {
    pub id: i32,
    pub src: Option<i32>,
    pub cmp: Option<i32>,
}

#[derive(Clone, Copy, Debug, PartialEq, Eq, Structural)]
pub struct FloatDiff {
    pub id: i32,
    pub src: Option<u32>,
    pub cmp: Option<u32>,
}

impl DeepView for BoolDiff {
    type V = BoolDiff;

    open spec fn deep_view(&self) -> BoolDiff {
        *self
    }
}

impl DeepView for IntDiff {
    type V = IntDiff;

    open spec fn deep_view(&self) -> IntDiff {
        *self
    }
}

impl DeepView for FloatDiff {
    type V = FloatDiff;

    open spec fn deep_view(&self) -> FloatDiff {
        *self
    }
}

/// Compare's output: one ordered difference list per flag space, keyed by
/// plot id, holding both sides of every disagreement.  Built once, then
/// read-only.
pub struct Differences {
    pub booleans: Vec<BoolDiff>,
    pub integers: Vec<IntDiff>,
    pub floats: Vec<FloatDiff>,
}

pub struct DifferencesV {
    pub booleans: Seq<BoolDiff>,
    pub integers: Seq<IntDiff>,
    pub floats: Seq<FloatDiff>,
}

impl DeepView for Differences {
    type V = DifferencesV;

    open spec fn deep_view(&self) -> DifferencesV {
        DifferencesV { booleans: self.booleans@, integers: self.integers@, floats: self.floats@ }
    }
}

// ---------------------------------------------------------------------------
// The boolean diff: ids are positions; both sides are walked to the longer
// length.
// ---------------------------------------------------------------------------

pub open spec fn max_len(a: Seq<bool>, b: Seq<bool>) -> int {
    if a.len() >= b.len() {
        a.len() as int
    } else {
        b.len() as int
    }
}

pub open spec fn bool_diffs_upto(a: Seq<bool>, b: Seq<bool>, n: int) -> Seq<BoolDiff>
    decreases n,
{
    if n <= 0 {
        Seq::empty()
    } else {
        let prev = bool_diffs_upto(a, b, n - 1);
        if dense_get(a, n - 1) == dense_get(b, n - 1) {
            prev
        } else {
            prev.push(BoolDiff { id: (n - 1) as usize, src: dense_get(a, n - 1), cmp: dense_get(b, n - 1) })
        }
    }
}

/// The boolean entries of the report: every index where the two sides
/// disagree, ascending, absence distinct from any value.
pub open spec fn bool_diffs(a: Seq<bool>, b: Seq<bool>) -> Seq<BoolDiff> {
    bool_diffs_upto(a, b, max_len(a, b))
}

pub open spec fn swap_bool_diff(d: BoolDiff) -> BoolDiff {
    BoolDiff { id: d.id, src: d.cmp, cmp: d.src }
}

pub open spec fn swap_int_diff(d: IntDiff) -> IntDiff {
    IntDiff { id: d.id, src: d.cmp, cmp: d.src }
}

pub open spec fn swap_float_diff(d: FloatDiff) -> FloatDiff {
    FloatDiff { id: d.id, src: d.cmp, cmp: d.src }
}

/// Law: comparing booleans the other way round yields the same ids with the
/// two sides swapped in every entry.
pub proof fn lemma_bool_diffs_swap(a: Seq<bool>, b: Seq<bool>)
    ensures
        bool_diffs(b, a) == bool_diffs(a, b).map_values(|d: BoolDiff| swap_bool_diff(d)),
{
    lemma_bool_diffs_upto_swap(a, b, max_len(a, b));
    assert(max_len(b, a) == max_len(a, b));
}

proof fn lemma_bool_diffs_upto_swap(a: Seq<bool>, b: Seq<bool>, n: int)
    ensures
        bool_diffs_upto(b, a, n) == bool_diffs_upto(a, b, n).map_values(
            |d: BoolDiff| swap_bool_diff(d),
        ),
    decreases n,
{
    if n <= 0 {
        assert(bool_diffs_upto(b, a, n) =~= bool_diffs_upto(a, b, n).map_values(
            |d: BoolDiff| swap_bool_diff(d),
        ));
    } else {
        lemma_bool_diffs_upto_swap(a, b, n - 1);
        if dense_get(a, n - 1) == dense_get(b, n - 1) {
        } else {
            assert(bool_diffs_upto(b, a, n) =~= bool_diffs_upto(a, b, n).map_values(
                |d: BoolDiff| swap_bool_diff(d),
            ));
        }
    }
}

/// Law: comparing a boolean space against itself reports nothing.
pub proof fn lemma_bool_diffs_self_empty(a: Seq<bool>)
    ensures
        bool_diffs(a, a) == Seq::<BoolDiff>::empty(),
{
    lemma_bool_diffs_upto_self(a, max_len(a, a));
}

proof fn lemma_bool_diffs_upto_self(a: Seq<bool>, n: int)
    ensures
        bool_diffs_upto(a, a, n) == Seq::<BoolDiff>::empty(),
    decreases n,
{
    if n <= 0 {
    } else {
        lemma_bool_diffs_upto_self(a, n - 1);
    }
}

// ---------------------------------------------------------------------------
// Sorted key unions.
// ---------------------------------------------------------------------------

pub open spec fn strict_sorted(s: Seq<i32>) -> bool {
    forall|i: int, j: int| 0 <= i < j < s.len() ==> s[i] < s[j]
}

/// Inserting one key into a strictly sorted sequence, keeping it strictly
/// sorted: before the first larger element, or nowhere if already present.
pub open spec fn insert_sorted(s: Seq<i32>, x: i32) -> Seq<i32>
    decreases s.len(),
{
    if s.len() == 0 {
        seq![x]
    } else if x < s[0] {
        seq![x] + s
    } else if x == s[0] {
        s
    } else {
        seq![s[0]] + insert_sorted(s.drop_first(), x)
    }
}

pub proof fn lemma_insert_sorted(s: Seq<i32>, x: i32)
    requires
        strict_sorted(s),
    ensures
        strict_sorted(insert_sorted(s, x)),
        forall|y: i32| insert_sorted(s, x).contains(y) <==> (s.contains(y) || y == x),
    decreases s.len(),
{
    let t = insert_sorted(s, x);
    if s.len() == 0 {
        assert(t =~= seq![x]);
        assert(t.contains(x)) by {
            assert(t[0] == x);
        }
        assert forall|y: i32| t.contains(y) implies (s.contains(y) || y == x) by {
            let i = choose|i: int| 0 <= i < t.len() && t[i] == y;
            assert(i == 0);
        }
    } else if x < s[0] {
        assert(t =~= seq![x] + s);
        assert forall|i: int, j: int| 0 <= i < j < t.len() implies t[i] < t[j] by {
            if i == 0 {
                assert(t[0] == x);
                if j == 1 {
                    assert(t[j] == s[0]);
                } else {
                    assert(t[j] == s[j - 1]);
                    assert(s[0] < s[j - 1]);
                }
            } else {
                assert(t[i] == s[i - 1] && t[j] == s[j - 1]);
            }
        }
        assert forall|y: i32| t.contains(y) implies (s.contains(y) || y == x) by {
            let i = choose|i: int| 0 <= i < t.len() && t[i] == y;
            if i > 0 {
                assert(s[i - 1] == y);
            }
        }
        assert forall|y: i32| (s.contains(y) || y == x) implies t.contains(y) by {
            if y == x {
                assert(t[0] == y);
            } else {
                let i = choose|i: int| 0 <= i < s.len() && s[i] == y;
                assert(t[i + 1] == y);
            }
        }
    } else if x == s[0] {
        assert forall|y: i32| s.contains(y) implies (s.contains(y) || y == x) by {}
    } else {
        let tail = s.drop_first();
        assert(strict_sorted(tail));
        lemma_insert_sorted(tail, x);
        let u = insert_sorted(tail, x);
        assert(forall|y: i32| u.contains(y) <==> (tail.contains(y) || y == x));
        assert(u.contains(x));
        assert(t =~= seq![s[0]] + u);
        assert forall|i: int, j: int| 0 <= i < j < t.len() implies t[i] < t[j] by {
            if i == 0 {
                assert(t[0] == s[0]);
                assert(t[j] == u[j - 1]);
                assert(u.contains(u[j - 1]));
                if tail.contains(u[j - 1]) {
                    let k = choose|k: int| 0 <= k < tail.len() && tail[k] == u[j - 1];
                    assert(s[k + 1] == u[j - 1]);
                } else {
                    assert(u[j - 1] == x);
                }
            } else {
                assert(t[i] == u[i - 1] && t[j] == u[j - 1]);
            }
        }
        assert forall|y: i32| t.contains(y) implies (s.contains(y) || y == x) by {
            let i = choose|i: int| 0 <= i < t.len() && t[i] == y;
            if i == 0 {
                assert(s[0] == y);
            } else {
                assert(u.contains(t[i])) by {
                    assert(u[i - 1] == t[i]);
                }
                if tail.contains(y) {
                    let k = choose|k: int| 0 <= k < tail.len() && tail[k] == y;
                    assert(s[k + 1] == y);
                }
            }
        }
        assert forall|y: i32| (s.contains(y) || y == x) implies t.contains(y) by {
            if s.contains(y) {
                let i = choose|i: int| 0 <= i < s.len() && s[i] == y;
                if i == 0 {
                    assert(t[0] == y);
                } else {
                    assert(tail[i - 1] == y);
                    assert(tail.contains(y));
                    assert(u.contains(y));
                    let k = choose|k: int| 0 <= k < u.len() && u[k] == y;
                    assert(t[k + 1] == y);
                }
            } else {
                assert(u.contains(x));
                let k = choose|k: int| 0 <= k < u.len() && u[k] == x;
                assert(t[k + 1] == x);
            }
        }
    }
}

/// Folding the keys of a pair sequence into a sorted key sequence.
pub open spec fn insert_keys<V>(s: Seq<i32>, pairs: Seq<(i32, V)>) -> Seq<i32>
    decreases pairs.len(),
{
    if pairs.len() == 0 {
        s
    } else {
        insert_sorted(insert_keys(s, pairs.drop_last()), pairs.last().0)
    }
}

pub proof fn lemma_insert_keys<V>(s: Seq<i32>, pairs: Seq<(i32, V)>)
    requires
        strict_sorted(s),
    ensures
        strict_sorted(insert_keys(s, pairs)),
        forall|y: i32|
            insert_keys(s, pairs).contains(y) <==> (s.contains(y) || has_key(pairs, y)),
    decreases pairs.len(),
{
    if pairs.len() == 0 {
        assert(forall|y: i32| !has_key(pairs, y));
    } else {
        let front = pairs.drop_last();
        lemma_insert_keys(s, front);
        lemma_insert_sorted(insert_keys(s, front), pairs.last().0);
        assert forall|y: i32|
            insert_keys(s, pairs).contains(y) implies (s.contains(y) || has_key(pairs, y)) by {
            if !s.contains(y) {
                if has_key(front, y) {
                    let i = choose|i: int| 0 <= i < front.len() && front[i].0 == y;
                    assert(pairs[i].0 == y);
                } else {
                    assert(y == pairs.last().0);
                    assert(pairs[pairs.len() - 1].0 == y);
                }
            }
        }
        assert forall|y: i32|
            (s.contains(y) || has_key(pairs, y)) implies insert_keys(s, pairs).contains(y) by {
            if !s.contains(y) && has_key(pairs, y) {
                let i = choose|i: int| 0 <= i < pairs.len() && pairs[i].0 == y;
                if i < pairs.len() - 1 {
                    assert(front[i].0 == y);
                    assert(has_key(front, y));
                }
            }
        }
    }
}

/// The ids appearing on either side, each once, ascending.
pub open spec fn key_union<V>(a: Seq<(i32, V)>, b: Seq<(i32, V)>) -> Seq<i32> {
    insert_keys(insert_keys(Seq::empty(), a), b)
}

pub proof fn lemma_key_union<V>(a: Seq<(i32, V)>, b: Seq<(i32, V)>)
    ensures
        strict_sorted(key_union(a, b)),
        forall|y: i32| key_union(a, b).contains(y) <==> (has_key(a, y) || has_key(b, y)),
{
    assert(forall|y: i32| !Seq::<i32>::empty().contains(y));
    lemma_insert_keys(Seq::empty(), a);
    let m = insert_keys(Seq::<i32>::empty(), a);
    lemma_insert_keys(m, b);
    assert(key_union(a, b) == insert_keys(m, b));
    assert forall|y: i32|
        key_union(a, b).contains(y) <==> (has_key(a, y) || has_key(b, y)) by {
        assert(insert_keys(m, b).contains(y) <==> (m.contains(y) || has_key(b, y)));
        assert(m.contains(y) <==> (Seq::<i32>::empty().contains(y) || has_key(a, y)));
    }
}

/// Two strictly sorted sequences holding the same keys are the same
/// sequence — the canonical form that makes compare deterministic and its
/// key set symmetric.
pub proof fn lemma_sorted_same_members_equal(s1: Seq<i32>, s2: Seq<i32>)
    requires
        strict_sorted(s1),
        strict_sorted(s2),
        forall|y: i32| s1.contains(y) <==> s2.contains(y),
    ensures
        s1 == s2,
    decreases s1.len(),
{
    if s1.len() == 0 {
        if s2.len() > 0 {
            assert(s2.contains(s2[0]));
        }
        assert(s1 =~= s2);
    } else {
        assert(s1.contains(s1[0]));
        assert(s2.contains(s1[0]));
        assert(s2.len() > 0);
        assert(s2.contains(s2[0]));
        assert(s1.contains(s2[0]));
        let i = choose|i: int| 0 <= i < s2.len() && s2[i] == s1[0];
        let j = choose|j: int| 0 <= j < s1.len() && s1[j] == s2[0];
        assert(s2[0] <= s2[i]);
        assert(s1[0] <= s1[j]);
        assert(s1[0] == s2[0]);
        let t1 = s1.drop_first();
        let t2 = s2.drop_first();
        assert forall|i: int, j: int| 0 <= i < j < t1.len() implies t1[i] < t1[j] by {
            assert(t1[i] == s1[i + 1]);
            assert(t1[j] == s1[j + 1]);
        }
        assert forall|i: int, j: int| 0 <= i < j < t2.len() implies t2[i] < t2[j] by {
            assert(t2[i] == s2[i + 1]);
            assert(t2[j] == s2[j + 1]);
        }
        assert forall|y: i32| t1.contains(y) implies t2.contains(y) by {
            let k = choose|k: int| 0 <= k < t1.len() && t1[k] == y;
            assert(s1[k + 1] == y);
            assert(s1[0] < y);
            assert(s2.contains(y));
            let m = choose|m: int| 0 <= m < s2.len() && s2[m] == y;
            assert(m != 0);
            assert(t2[m - 1] == y);
        }
        assert forall|y: i32| t2.contains(y) implies t1.contains(y) by {
            let k = choose|k: int| 0 <= k < t2.len() && t2[k] == y;
            assert(s2[k + 1] == y);
            assert(s2[0] < y);
            assert(s1.contains(y));
            let m = choose|m: int| 0 <= m < s1.len() && s1[m] == y;
            assert(m != 0);
            assert(t1[m - 1] == y);
        }
        lemma_sorted_same_members_equal(t1, t2);
        assert(s1.len() == s2.len());
        assert forall|i: int| 0 <= i < s1.len() implies s1[i] == s2[i] by {
            if i > 0 {
                assert(s1[i] == t1[i - 1]);
                assert(s2[i] == t2[i - 1]);
            }
        }
        assert(s1 =~= s2);
    }
}

/// Law: the key union does not depend on the order of its two arguments.
pub proof fn lemma_key_union_symmetric<V>(a: Seq<(i32, V)>, b: Seq<(i32, V)>)
    ensures
        key_union(a, b) == key_union(b, a),
{
    lemma_key_union(a, b);
    lemma_key_union(b, a);
    assert forall|y: i32| key_union(a, b).contains(y) <==> key_union(b, a).contains(y) by {
        assert(key_union(a, b).contains(y) <==> (has_key(a, y) || has_key(b, y)));
        assert(key_union(b, a).contains(y) <==> (has_key(b, y) || has_key(a, y)));
    }
    lemma_sorted_same_members_equal(key_union(a, b), key_union(b, a));
}

// ---------------------------------------------------------------------------
// The keyed diffs.
// ---------------------------------------------------------------------------

pub open spec fn int_diffs(keys: Seq<i32>, a: Seq<(i32, i32)>, b: Seq<(i32, i32)>) -> Seq<
    IntDiff,
>
    decreases keys.len(),
{
    if keys.len() == 0 {
        Seq::empty()
    } else {
        let prev = int_diffs(keys.drop_last(), a, b);
        let k = keys.last();
        if lookup(a, k) == lookup(b, k) {
            prev
        } else {
            prev.push(IntDiff { id: k, src: lookup(a, k), cmp: lookup(b, k) })
        }
    }
}

pub open spec fn float_diffs(keys: Seq<i32>, a: Seq<(i32, u32)>, b: Seq<(i32, u32)>) -> Seq<
    FloatDiff,
>
    decreases keys.len(),
{
    if keys.len() == 0 {
        Seq::empty()
    } else {
        let prev = float_diffs(keys.drop_last(), a, b);
        let k = keys.last();
        if lookup(a, k) == lookup(b, k) {
            prev
        } else {
            prev.push(FloatDiff { id: k, src: lookup(a, k), cmp: lookup(b, k) })
        }
    }
}

/// Law: swapping the two sides swaps every entry of the keyed diff and keeps
/// the ids.
pub proof fn lemma_int_diffs_swap(keys: Seq<i32>, a: Seq<(i32, i32)>, b: Seq<(i32, i32)>)
    ensures
        int_diffs(keys, b, a) == int_diffs(keys, a, b).map_values(|d: IntDiff| swap_int_diff(d)),
    decreases keys.len(),
{
    if keys.len() == 0 {
        assert(int_diffs(keys, b, a) =~= int_diffs(keys, a, b).map_values(
            |d: IntDiff| swap_int_diff(d),
        ));
    } else {
        lemma_int_diffs_swap(keys.drop_last(), a, b);
        assert(int_diffs(keys, b, a) =~= int_diffs(keys, a, b).map_values(
            |d: IntDiff| swap_int_diff(d),
        ));
    }
}

pub proof fn lemma_float_diffs_swap(keys: Seq<i32>, a: Seq<(i32, u32)>, b: Seq<(i32, u32)>)
    ensures
        float_diffs(keys, b, a) == float_diffs(keys, a, b).map_values(
            |d: FloatDiff| swap_float_diff(d),
        ),
    decreases keys.len(),
{
    if keys.len() == 0 {
        assert(float_diffs(keys, b, a) =~= float_diffs(keys, a, b).map_values(
            |d: FloatDiff| swap_float_diff(d),
        ));
    } else {
        lemma_float_diffs_swap(keys.drop_last(), a, b);
        assert(float_diffs(keys, b, a) =~= float_diffs(keys, a, b).map_values(
            |d: FloatDiff| swap_float_diff(d),
        ));
    }
}

/// Law: a keyed space compared against itself reports nothing.
pub proof fn lemma_int_diffs_self_empty(keys: Seq<i32>, a: Seq<(i32, i32)>)
    ensures
        int_diffs(keys, a, a) == Seq::<IntDiff>::empty(),
    decreases keys.len(),
{
    if keys.len() == 0 {
    } else {
        lemma_int_diffs_self_empty(keys.drop_last(), a);
    }
}

pub proof fn lemma_float_diffs_self_empty(keys: Seq<i32>, a: Seq<(i32, u32)>)
    ensures
        float_diffs(keys, a, a) == Seq::<FloatDiff>::empty(),
    decreases keys.len(),
{
    if keys.len() == 0 {
    } else {
        lemma_float_diffs_self_empty(keys.drop_last(), a);
    }
}

// ---------------------------------------------------------------------------
// The report-level laws: comparing the other way round swaps every entry
// and keeps the ids; comparing a tree against itself reports nothing.
// ---------------------------------------------------------------------------

/// Law: the reports of comparing A against B and B against A hold the same
/// ids, per flag space, and each entry's sides are swapped.
pub proof fn lemma_compare_report_symmetric(a: SaveGameV, b: SaveGameV)
    ensures
        bool_diffs(proj_bools(b), proj_bools(a)) == bool_diffs(
            proj_bools(a),
            proj_bools(b),
        ).map_values(|d: BoolDiff| swap_bool_diff(d)),
        key_union(proj_ints(b), proj_ints(a)) == key_union(proj_ints(a), proj_ints(b)),
        int_diffs(key_union(proj_ints(a), proj_ints(b)), proj_ints(b), proj_ints(a))
            == int_diffs(
            key_union(proj_ints(a), proj_ints(b)),
            proj_ints(a),
            proj_ints(b),
        ).map_values(|d: IntDiff| swap_int_diff(d)),
        key_union(proj_floats(b), proj_floats(a)) == key_union(
            proj_floats(a),
            proj_floats(b),
        ),
        float_diffs(key_union(proj_floats(a), proj_floats(b)), proj_floats(b), proj_floats(a))
            == float_diffs(
            key_union(proj_floats(a), proj_floats(b)),
            proj_floats(a),
            proj_floats(b),
        ).map_values(|d: FloatDiff| swap_float_diff(d)),
{
    lemma_bool_diffs_swap(proj_bools(a), proj_bools(b));
    lemma_key_union_symmetric(proj_ints(a), proj_ints(b));
    lemma_int_diffs_swap(key_union(proj_ints(a), proj_ints(b)), proj_ints(a), proj_ints(b));
    lemma_key_union_symmetric(proj_floats(a), proj_floats(b));
    lemma_float_diffs_swap(
        key_union(proj_floats(a), proj_floats(b)),
        proj_floats(a),
        proj_floats(b),
    );
}

/// Law: comparing a tree against itself yields an empty report for all
/// three flag spaces.
pub proof fn lemma_compare_report_self_empty(a: SaveGameV)
    ensures
        bool_diffs(proj_bools(a), proj_bools(a)) == Seq::<BoolDiff>::empty(),
        int_diffs(key_union(proj_ints(a), proj_ints(a)), proj_ints(a), proj_ints(a)) == Seq::<
            IntDiff,
        >::empty(),
        float_diffs(
            key_union(proj_floats(a), proj_floats(a)),
            proj_floats(a),
            proj_floats(a),
        ) == Seq::<FloatDiff>::empty(),
{
    lemma_bool_diffs_self_empty(proj_bools(a));
    lemma_int_diffs_self_empty(key_union(proj_ints(a), proj_ints(a)), proj_ints(a));
    lemma_float_diffs_self_empty(key_union(proj_floats(a), proj_floats(a)), proj_floats(a));
}

// ---------------------------------------------------------------------------
// The executable comparison.
// ---------------------------------------------------------------------------

#[verifier::loop_isolation(false)]
fn diff_bools(a: &Vec<bool>, b: &Vec<bool>) -> (r: Vec<BoolDiff>)
    ensures
        r@ == bool_diffs(a@, b@),
{
    let m: usize = if a.len() >= b.len() {
        a.len()
    } else {
        b.len()
    };
    let mut out: Vec<BoolDiff> = Vec::new();
    let mut i: usize = 0;
    while i < m
        invariant
            i <= m,
            out@ == bool_diffs_upto(a@, b@, i as int),
        decreases m - i,
    {
        let sa = if i < a.len() {
            Some(a[i])
        } else {
            None
        };
        let sb = if i < b.len() {
            Some(b[i])
        } else {
            None
        };
        let differ = match (sa, sb) {
            (Some(x), Some(y)) => x != y,
            (None, None) => false,
            _ => true,
        };
        proof {
            assert(sa == dense_get(a@, i as int));
            assert(sb == dense_get(b@, i as int));
        }
        if differ {
            out.push(BoolDiff { id: i, src: sa, cmp: sb });
        }
        i = i + 1;
    }
    out
}

/// First position whose element is at least `x`, scanning a sorted vector.
#[verifier::loop_isolation(false)]
fn lower_bound(out: &Vec<i32>, x: i32) -> (idx: usize)
    requires
        strict_sorted(out@),
    ensures
        idx <= out@.len(),
        forall|j: int| 0 <= j < idx ==> out@[j] < x,
        idx < out@.len() ==> out@[idx as int] >= x,
{
    let mut idx: usize = 0;
    while idx < out.len() && out[idx] < x
        invariant
            idx <= out@.len(),
            forall|j: int| 0 <= j < idx ==> out@[j] < x,
        decreases out@.len() - idx,
    {
        idx = idx + 1;
    }
    idx
}

/// Where one key lands in a strictly sorted sequence: at the first position
/// whose element is at least as large, or nowhere if already there.
proof fn lemma_insert_sorted_at(s: Seq<i32>, x: i32, idx: int)
    requires
        strict_sorted(s),
        0 <= idx <= s.len(),
        forall|j: int| 0 <= j < idx ==> s[j] < x,
        idx < s.len() ==> s[idx] >= x,
    ensures
        idx < s.len() && s[idx] == x ==> insert_sorted(s, x) == s,
        !(idx < s.len() && s[idx] == x) ==> insert_sorted(s, x) == s.take(idx) + seq![x]
            + s.skip(idx),
    decreases s.len(),
{
    if s.len() == 0 {
        assert(insert_sorted(s, x) =~= s.take(idx) + seq![x] + s.skip(idx));
    } else if idx == 0 {
        if s[0] == x {
        } else {
            assert(s[0] >= x);
            assert(insert_sorted(s, x) =~= s.take(0) + seq![x] + s.skip(0));
        }
    } else {
        assert(s[0] < x);
        let tail = s.drop_first();
        assert(strict_sorted(tail));
        assert(forall|j: int| 0 <= j < idx - 1 ==> tail[j] < x);
        lemma_insert_sorted_at(tail, x, idx - 1);
        if idx < s.len() && s[idx] == x {
            assert(tail[idx - 1] == x);
            assert(insert_sorted(s, x) =~= s);
        } else {
            assert(insert_sorted(s, x) =~= seq![s[0]] + (tail.take(idx - 1) + seq![x]
                + tail.skip(idx - 1)));
            assert(seq![s[0]] + (tail.take(idx - 1) + seq![x] + tail.skip(idx - 1)) =~= s.take(
                idx,
            ) + seq![x] + s.skip(idx));
        }
    }
}

/// Inserts a key into a sorted key vector, keeping it sorted and unique.
fn insert_key(out: &mut Vec<i32>, x: i32)
    requires
        strict_sorted(old(out)@),
    ensures
        final(out)@ == insert_sorted(old(out)@, x),
{
    let idx = lower_bound(out, x);
    if idx < out.len() && out[idx] == x {
        proof {
            lemma_insert_sorted_at(out@, x, idx as int);
        }
    } else {
        proof {
            lemma_insert_sorted_at(out@, x, idx as int);
        }
        out.insert(idx, x);
        proof {
            assert(out@ =~= old(out)@.take(idx as int) + seq![x] + old(out)@.skip(idx as int));
        }
    }
}

/// The sorted union of the ids of two integer maps.
#[verifier::loop_isolation(false)]
fn int_key_union(ma: &IndexMap<i32, i32>, mb: &IndexMap<i32, i32>) -> (ku: Vec<i32>)
    ensures
        ku@ == key_union(int_entries(*ma), int_entries(*mb)),
        strict_sorted(ku@),
{
    let ghost ea = int_entries(*ma);
    let ghost eb = int_entries(*mb);
    let mut out: Vec<i32> = Vec::new();
    proof {
        assert(ea.take(0) =~= Seq::<(i32, i32)>::empty());
        assert(strict_sorted(out@));
    }
    let na = imap_int_len(ma);
    let mut i: usize = 0;
    while i < na
        invariant
            i <= na,
            na == ea.len(),
            out@ == insert_keys(Seq::<i32>::empty(), ea.take(i as int)),
            strict_sorted(out@),
        decreases na - i,
    {
        let pair = match imap_int_get_index(ma, i) {
            Some(p) => p,
            None => {
                proof {
                    assert(false);
                }
                (0, 0)
            },
        };
        proof {
            lemma_insert_sorted(out@, pair.0);
        }
        insert_key(&mut out, pair.0);
        i = i + 1;
        proof {
            assert(ea.take(i as int).drop_last() =~= ea.take(i - 1));
            assert(ea.take(i as int).last() == ea[i - 1]);
        }
    }
    proof {
        assert(ea.take(na as int) =~= ea);
        assert(eb.take(0) =~= Seq::<(i32, i32)>::empty());
    }
    let nb = imap_int_len(mb);
    let mut k: usize = 0;
    while k < nb
        invariant
            k <= nb,
            nb == eb.len(),
            out@ == insert_keys(insert_keys(Seq::<i32>::empty(), ea), eb.take(k as int)),
            strict_sorted(out@),
        decreases nb - k,
    {
        let pair = match imap_int_get_index(mb, k) {
            Some(p) => p,
            None => {
                proof {
                    assert(false);
                }
                (0, 0)
            },
        };
        proof {
            lemma_insert_sorted(out@, pair.0);
        }
        insert_key(&mut out, pair.0);
        k = k + 1;
        proof {
            assert(eb.take(k as int).drop_last() =~= eb.take(k - 1));
            assert(eb.take(k as int).last() == eb[k - 1]);
        }
    }
    proof {
        assert(eb.take(nb as int) =~= eb);
    }
    out
}

/// The sorted union of the ids of two float maps.
#[verifier::loop_isolation(false)]
fn float_key_union(ma: &IndexMap<i32, u32>, mb: &IndexMap<i32, u32>) -> (ku: Vec<i32>)
    ensures
        ku@ == key_union(float_entries(*ma), float_entries(*mb)),
        strict_sorted(ku@),
{
    let ghost ea = float_entries(*ma);
    let ghost eb = float_entries(*mb);
    let mut out: Vec<i32> = Vec::new();
    proof {
        assert(ea.take(0) =~= Seq::<(i32, u32)>::empty());
        assert(strict_sorted(out@));
    }
    let na = imap_float_len(ma);
    let mut i: usize = 0;
    while i < na
        invariant
            i <= na,
            na == ea.len(),
            out@ == insert_keys(Seq::<i32>::empty(), ea.take(i as int)),
            strict_sorted(out@),
        decreases na - i,
    {
        let pair = match imap_float_get_index(ma, i) {
            Some(p) => p,
            None => {
                proof {
                    assert(false);
                }
                (0, 0)
            },
        };
        proof {
            lemma_insert_sorted(out@, pair.0);
        }
        insert_key(&mut out, pair.0);
        i = i + 1;
        proof {
            assert(ea.take(i as int).drop_last() =~= ea.take(i - 1));
            assert(ea.take(i as int).last() == ea[i - 1]);
        }
    }
    proof {
        assert(ea.take(na as int) =~= ea);
        assert(eb.take(0) =~= Seq::<(i32, u32)>::empty());
    }
    let nb = imap_float_len(mb);
    let mut k: usize = 0;
    while k < nb
        invariant
            k <= nb,
            nb == eb.len(),
            out@ == insert_keys(insert_keys(Seq::<i32>::empty(), ea), eb.take(k as int)),
            strict_sorted(out@),
        decreases nb - k,
    {
        let pair = match imap_float_get_index(mb, k) {
            Some(p) => p,
            None => {
                proof {
                    assert(false);
                }
                (0, 0)
            },
        };
        proof {
            lemma_insert_sorted(out@, pair.0);
        }
        insert_key(&mut out, pair.0);
        k = k + 1;
        proof {
            assert(eb.take(k as int).drop_last() =~= eb.take(k - 1));
            assert(eb.take(k as int).last() == eb[k - 1]);
        }
    }
    proof {
        assert(eb.take(nb as int) =~= eb);
    }
    out
}

/// Builds this save's integer flag map: dense spaces are keyed by index,
/// sparse ones are copied as they stand.
#[verifier::loop_isolation(false)]
fn ints_of_save(s: &SaveGame) -> (m: IndexMap<i32, i32>)
    requires
        comparable(s.deep_view()),
    ensures
        int_entries(m) == proj_ints(s.deep_view()),
        unique_keys(proj_ints(s.deep_view())),
{
    match s {
        SaveGame::MassEffect2(x) => {
            let ghost dv = x.plot.integers@;
            let mut m = imap_int_new();
            let mut i: usize = 0;
            proof {
                assert(int_entries(m) =~= dense_pairs(dv).take(0));
            }
            while i < x.plot.integers.len()
                invariant
                    i <= dv.len(),
                    int_entries(m) == dense_pairs(dv).take(i as int),
                    unique_keys(int_entries(m)),
                decreases dv.len() - i,
            {
                let ghost cur = int_entries(m);
                let v = x.plot.integers[i];
                let key = i as i32;
                proof {
                    assert forall|j: int| 0 <= j < cur.len() implies (#[trigger] cur[j]).0
                        != key by {
                        assert(cur[j] == dense_pairs(dv)[j]);
                    }
                    assert(!has_key(cur, key));
                    lemma_insert_entry_unique(cur, key, v);
                    assert(insert_entry(cur, key, v) == cur.push((key, v)));
                }
                imap_int_insert(&mut m, key, v);
                i = i + 1;
                proof {
                    assert(dense_pairs(dv).take(i as int) =~= cur.push((key, v)));
                }
            }
            proof {
                assert(dense_pairs(dv).take(dv.len() as int) =~= dense_pairs(dv));
            }
            m
        },
        SaveGame::MassEffect3(x) => {
            imap_int_clone(&x.plot.integers)
        },
    }
}

/// Builds this save's float flag map; float values are their raw bits.
#[verifier::loop_isolation(false)]
fn floats_of_save(s: &SaveGame) -> (m: IndexMap<i32, u32>)
    requires
        comparable(s.deep_view()),
    ensures
        float_entries(m) == proj_floats(s.deep_view()),
        unique_keys(proj_floats(s.deep_view())),
{
    match s {
        SaveGame::MassEffect2(x) => {
            let ghost dv = x.plot.floats@;
            let mut m = imap_float_new();
            let mut i: usize = 0;
            proof {
                assert(float_entries(m) =~= dense_pairs(dv).take(0));
            }
            while i < x.plot.floats.len()
                invariant
                    i <= dv.len(),
                    float_entries(m) == dense_pairs(dv).take(i as int),
                    unique_keys(float_entries(m)),
                decreases dv.len() - i,
            {
                let ghost cur = float_entries(m);
                let v = x.plot.floats[i];
                let key = i as i32;
                proof {
                    assert forall|j: int| 0 <= j < cur.len() implies (#[trigger] cur[j]).0
                        != key by {
                        assert(cur[j] == dense_pairs(dv)[j]);
                    }
                    assert(!has_key(cur, key));
                    lemma_insert_entry_unique(cur, key, v);
                    assert(insert_entry(cur, key, v) == cur.push((key, v)));
                }
                imap_float_insert(&mut m, key, v);
                i = i + 1;
                proof {
                    assert(dense_pairs(dv).take(i as int) =~= cur.push((key, v)));
                }
            }
            proof {
                assert(dense_pairs(dv).take(dv.len() as int) =~= dense_pairs(dv));
            }
            m
        },
        SaveGame::MassEffect3(x) => {
            imap_float_clone(&x.plot.floats)
        },
    }
}

#[verifier::loop_isolation(false)]
fn diff_int_maps(ku: &Vec<i32>, ma: &IndexMap<i32, i32>, mb: &IndexMap<i32, i32>) -> (r: Vec<
    IntDiff,
>)
    requires
        unique_keys(int_entries(*ma)),
        unique_keys(int_entries(*mb)),
    ensures
        r@ == int_diffs(ku@, int_entries(*ma), int_entries(*mb)),
{
    let ghost ea = int_entries(*ma);
    let ghost eb = int_entries(*mb);
    let mut out: Vec<IntDiff> = Vec::new();
    proof {
        assert(ku@.take(0) =~= Seq::<i32>::empty());
    }
    let mut i: usize = 0;
    while i < ku.len()
        invariant
            i <= ku@.len(),
            out@ == int_diffs(ku@.take(i as int), ea, eb),
        decreases ku@.len() - i,
    {
        let k = ku[i];
        let sa = imap_int_get(ma, k);
        let sb = imap_int_get(mb, k);
        let differ = match (sa, sb) {
            (Some(x), Some(y)) => x != y,
            (None, None) => false,
            _ => true,
        };
        if differ {
            out.push(IntDiff { id: k, src: sa, cmp: sb });
        }
        i = i + 1;
        proof {
            assert(ku@.take(i as int).drop_last() =~= ku@.take(i - 1));
            assert(ku@.take(i as int).last() == ku@[i - 1]);
        }
    }
    proof {
        assert(ku@.take(ku@.len() as int) =~= ku@);
    }
    out
}

#[verifier::loop_isolation(false)]
fn diff_float_maps(ku: &Vec<i32>, ma: &IndexMap<i32, u32>, mb: &IndexMap<i32, u32>) -> (r: Vec<
    FloatDiff,
>)
    requires
        unique_keys(float_entries(*ma)),
        unique_keys(float_entries(*mb)),
    ensures
        r@ == float_diffs(ku@, float_entries(*ma), float_entries(*mb)),
{
    let ghost ea = float_entries(*ma);
    let ghost eb = float_entries(*mb);
    let mut out: Vec<FloatDiff> = Vec::new();
    proof {
        assert(ku@.take(0) =~= Seq::<i32>::empty());
    }
    let mut i: usize = 0;
    while i < ku.len()
        invariant
            i <= ku@.len(),
            out@ == float_diffs(ku@.take(i as int), ea, eb),
        decreases ku@.len() - i,
    {
        let k = ku[i];
        let sa = imap_float_get(ma, k);
        let sb = imap_float_get(mb, k);
        let differ = match (sa, sb) {
            (Some(x), Some(y)) => x != y,
            (None, None) => false,
            _ => true,
        };
        if differ {
            out.push(FloatDiff { id: k, src: sa, cmp: sb });
        }
        i = i + 1;
        proof {
            assert(ku@.take(i as int).drop_last() =~= ku@.take(i - 1));
            assert(ku@.take(i as int).last() == ku@[i - 1]);
        }
    }
    proof {
        assert(ku@.take(ku@.len() as int) =~= ku@);
    }
    out
}

/// Compares two fully decoded save trees: projects each to its plot table
/// and reports, per flag space in ascending id order, every id where the
/// two sides disagree — including ids present on only one side.  Neither
/// input is changed; equal inputs always yield the same report.
pub fn compare(src: &SaveGame, cmp: &SaveGame) -> (r: Differences)
    requires
        comparable(src.deep_view()),
        comparable(cmp.deep_view()),
    ensures
        r.deep_view().booleans == bool_diffs(
            proj_bools(src.deep_view()),
            proj_bools(cmp.deep_view()),
        ),
        r.deep_view().integers == int_diffs(
            key_union(proj_ints(src.deep_view()), proj_ints(cmp.deep_view())),
            proj_ints(src.deep_view()),
            proj_ints(cmp.deep_view()),
        ),
        r.deep_view().floats == float_diffs(
            key_union(proj_floats(src.deep_view()), proj_floats(cmp.deep_view())),
            proj_floats(src.deep_view()),
            proj_floats(cmp.deep_view()),
        ),
{
    let booleans = match (src, cmp) {
        (SaveGame::MassEffect2(a), SaveGame::MassEffect2(b)) => diff_bools(
            &a.plot.booleans,
            &b.plot.booleans,
        ),
        (SaveGame::MassEffect2(a), SaveGame::MassEffect3(b)) => diff_bools(
            &a.plot.booleans,
            &b.plot.booleans,
        ),
        (SaveGame::MassEffect3(a), SaveGame::MassEffect2(b)) => diff_bools(
            &a.plot.booleans,
            &b.plot.booleans,
        ),
        (SaveGame::MassEffect3(a), SaveGame::MassEffect3(b)) => diff_bools(
            &a.plot.booleans,
            &b.plot.booleans,
        ),
    };
    let ma = ints_of_save(src);
    let mb = ints_of_save(cmp);
    let ku = int_key_union(&ma, &mb);
    let integers = diff_int_maps(&ku, &ma, &mb);
    let fa = floats_of_save(src);
    let fb = floats_of_save(cmp);
    let kf = float_key_union(&fa, &fb);
    let floats = diff_float_maps(&kf, &fa, &fb);
    Differences { booleans, integers, floats }
}

// ---------------------------------------------------------------------------
// The waiting state machine of the wider open/compare flow.
// ---------------------------------------------------------------------------

/// A completion notification from one of the two open requests, in whatever
/// order the loads finish.
pub enum FlowEvent {
    /// An open finished: the resolved file path and the decoded tree.
    Opened(Vec<u8>, SaveGame),
    /// An open failed, with the failure's description.
    Failed(Vec<u8>),
}

/// What the caller must do next after feeding one event in.
#[derive(Clone, Copy, Debug, PartialEq, Eq, Structural)]
pub enum FlowStep {
    /// Keep waiting for more completions.
    Wait,
    /// Both saves are resolved; take them and run the comparison.
    Ready,
    /// An open failed: abort the whole comparison, never retry.
    Abort,
}

/// The accumulating state: the two requested paths and the slots their
/// completed opens fill.  Matching is by file path: a completion whose path
/// is the first request's path fills the first slot, any other completion
/// fills the second.
pub struct CompareFlow {
    pub src_path: Vec<u8>,
    pub cmp_path: Vec<u8>,
    pub src_save: Option<SaveGame>,
    pub cmp_save: Option<SaveGame>,
}

impl CompareFlow {
    pub fn new(src_path: Vec<u8>, cmp_path: Vec<u8>) -> (f: CompareFlow)
        ensures
            f.src_path@ == src_path@,
            f.cmp_path@ == cmp_path@,
            f.src_save is None,
            f.cmp_save is None,
    {
        CompareFlow { src_path, cmp_path, src_save: None, cmp_save: None }
    }

    /// Feeds one completion in and decides the next step.  A failure aborts;
    /// an open fills the slot its path selects, but only while a slot is
    /// still empty; once both slots hold a save the flow is ready.
    pub fn on_event(&mut self, ev: FlowEvent) -> (step: FlowStep)
        ensures
            final(self).src_path == old(self).src_path,
            final(self).cmp_path == old(self).cmp_path,
            match ev {
                FlowEvent::Failed(_) => step == FlowStep::Abort && final(self).src_save == old(
                    self,
                ).src_save && final(self).cmp_save == old(self).cmp_save,
                FlowEvent::Opened(path, save) => {
                    &&& (if (old(self).src_save is None || old(self).cmp_save is None) {
                        if path@ == old(self).src_path@ {
                            final(self).src_save matches Some(s) && s.deep_view()
                                == save.deep_view() && final(self).cmp_save == old(self).cmp_save
                        } else {
                            final(self).cmp_save matches Some(s) && s.deep_view()
                                == save.deep_view() && final(self).src_save == old(self).src_save
                        }
                    } else {
                        final(self).src_save == old(self).src_save && final(self).cmp_save == old(
                            self,
                        ).cmp_save
                    })
                    &&& step == (if final(self).src_save is Some && final(self).cmp_save is Some {
                        FlowStep::Ready
                    } else {
                        FlowStep::Wait
                    })
                },
            },
    {
        match ev {
            FlowEvent::Failed(_) => FlowStep::Abort,
            FlowEvent::Opened(path, save) => {
                if self.src_save.is_none() || self.cmp_save.is_none() {
                    if eq_bytes(&path, &self.src_path) {
                        self.src_save = Some(save);
                    } else {
                        self.cmp_save = Some(save);
                    }
                }
                if self.src_save.is_some() && self.cmp_save.is_some() {
                    FlowStep::Ready
                } else {
                    FlowStep::Wait
                }
            },
        }
    }

    /// Hands the two resolved saves out once both opens completed.
    pub fn into_saves(self) -> (r: Option<(SaveGame, SaveGame)>)
        ensures
            match (self.src_save, self.cmp_save) {
                (Some(a), Some(b)) => r matches Some(p) && p.0.deep_view() == a.deep_view()
                    && p.1.deep_view() == b.deep_view(),
                _ => r is None,
            },
    {
        match (self.src_save, self.cmp_save) {
            (Some(a), Some(b)) => Some((a, b)),
            _ => None,
        }
    }
}

/// Byte-for-byte path equality; paths are opaque byte strings here.
fn eq_bytes(a: &Vec<u8>, b: &Vec<u8>) -> (r: bool)
    ensures
        r == (a@ == b@),
{
    if a.len() != b.len() {
        return false;
    }
    let mut i: usize = 0;
    while i < a.len()
        invariant
            i <= a@.len(),
            a@.len() == b@.len(),
            forall|j: int| 0 <= j < i ==> a@[j] == b@[j],
        decreases a@.len() - i,
    {
        if a[i] != b[i] {
            proof {
                assert(a@[i as int] != b@[i as int]);
            }
            return false;
        }
        i = i + 1;
    }
    proof {
        assert(a@ =~= b@);
    }
    true
}

} // verus!

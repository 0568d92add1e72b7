//! Plot tables: sparse boolean/integer/float flag storage keyed by small
//! non-negative plot ids.
//!
//! Two storage shapes occur across titles and both live here.  The dense
//! shape stores each flag space as an ordered sequence where the id is the
//! index; the sparse shape keys integers and floats by explicit id in an
//! insertion-ordered associative map.  Float flags are carried as their raw
//! 32-bit patterns: the codec never does float arithmetic, so round trips
//! are exact bit for bit.
//!
//! A table's domain is fixed by what the source file held; `extend` is the
//! one explicit growing operation, and it only appends default-valued slots.

use indexmap::IndexMap;
use vstd::prelude::*;

use crate::codec::{all_inv, decode_run, lemma_parse_ser_elems, lemma_ser_elems_push, parse_elems,
    ser_elems, SaveData};
use crate::cursor::{lemma_parse_ser_u32, parse_u32, ser_u32, write_u32, Cursor, DecodeError};
use crate::index_map::{
    extend_fold, float_entries, fold_inserts, has_key, int_entries, imap_float_get,
    imap_float_get_index,
    imap_float_insert, imap_float_len, imap_float_new, imap_int_get, imap_int_get_index,
    imap_int_insert, imap_int_len, imap_int_new, insert_default, insert_entry,
    lemma_fold_inserts_identity, lemma_fold_inserts_unique, lemma_insert_entry_unique, lookup,
    unique_keys,
};

verus! {

/// Reading a dense flag space: in range yields the slot, out of range is
/// absent — reading never extends storage.
pub open spec fn dense_get<T>(s: Seq<T>, id: int) -> Option<T> {
    if 0 <= id < s.len() {
        Some(s[id])
    } else {
        None
    }
}

/// Law: writing an allocated dense id then reading it yields the value
/// written, and no other id changes.
pub proof fn lemma_dense_set_then_get<T>(s: Seq<T>, id: int, v: T)
    requires
        0 <= id < s.len(),
    ensures
        dense_get(s.update(id, v), id) == Some(v),
        forall|o: int| o != id ==> dense_get(s.update(id, v), o) == dense_get(s, o),
{
}

/// Law: writing an allocated sparse id then reading it yields the value
/// written, and no other id changes (see `lemma_insert_entry_unique`).
pub proof fn lemma_sparse_set_then_get<V>(s: Seq<(i32, V)>, id: i32, v: V)
    requires
        unique_keys(s),
        has_key(s, id),
    ensures
        lookup(insert_entry(s, id, v), id) == Some(v),
        forall|o: i32| o != id ==> lookup(insert_entry(s, id, v), o) == lookup(s, o),
{
    lemma_insert_entry_unique(s, id, v);
}

/// Law: reading a sparse id that was never set is absent.
pub proof fn lemma_sparse_never_set_absent<V>(s: Seq<(i32, V)>, id: i32)
    requires
        !has_key(s, id),
    ensures
        lookup(s, id) is None,
{
}

// ---------------------------------------------------------------------------
// Shared executable helpers for dense flag spaces.
// ---------------------------------------------------------------------------

fn dense_get_exec<T: Copy>(v: &Vec<T>, id: usize) -> (r: Option<T>)
    ensures
        r == dense_get(v@, id as int),
{
    if id < v.len() {
        Some(v[id])
    } else {
        None
    }
}

fn dense_set_exec<T>(v: &mut Vec<T>, id: usize, x: T) -> (ok: bool)
    ensures
        ok == (id < old(v)@.len()),
        ok ==> final(v)@ == old(v)@.update(id as int, x),
        !ok ==> final(v)@ == old(v)@,
{
    if id < v.len() {
        v.set(id, x);
        true
    } else {
        false
    }
}

/// Grows a dense space just enough that every id of the catalog is in
/// range, filling new slots with the default; never touches old slots.
#[verifier::loop_isolation(false)]
fn extend_dense<T: Copy>(v: &mut Vec<T>, ids: &Vec<usize>, d: T)
    requires
        forall|j: int| 0 <= j < ids@.len() ==> #[trigger] ids@[j] < usize::MAX,
    ensures
        final(v)@.len() >= old(v)@.len(),
        final(v)@.take(old(v)@.len() as int) == old(v)@,
        forall|j: int| 0 <= j < ids@.len() ==> (#[trigger] ids@[j]) < final(v)@.len(),
        forall|i: int| old(v)@.len() <= i < final(v)@.len() ==> final(v)@[i] == d,
        final(v)@.len() == old(v)@.len() || exists|j: int|
            0 <= j < ids@.len() && #[trigger] ids@[j] + 1 == final(v)@.len(),
{
    let mut needed: usize = v.len();
    let mut j: usize = 0;
    while j < ids.len()
        invariant
            j <= ids@.len(),
            needed >= v@.len(),
            forall|jj: int| 0 <= jj < j ==> (#[trigger] ids@[jj]) < needed,
            needed == v@.len() || exists|jj: int|
                0 <= jj < j && #[trigger] ids@[jj] + 1 == needed,
        decreases ids@.len() - j,
    {
        if ids[j] >= needed {
            needed = ids[j] + 1;
        }
        j = j + 1;
    }
    while v.len() < needed
        invariant
            v@.len() <= needed || v@.len() == old(v)@.len(),
            v@.len() >= old(v)@.len(),
            v@.take(old(v)@.len() as int) == old(v)@,
            forall|i: int| old(v)@.len() <= i < v@.len() ==> v@[i] == d,
        decreases needed - v@.len(),
    {
        let ghost pre = v@;
        v.push(d);
        proof {
            assert(v@.take(old(v)@.len() as int) =~= pre.take(old(v)@.len() as int));
        }
    }
}

// ---------------------------------------------------------------------------
// The dense table: ids are positions in an ordered sequence.
// ---------------------------------------------------------------------------

/// A dense plot table: for each flag space, the id is the index.
#[derive(Clone, Debug, PartialEq, Eq, Default)]
pub struct PlotTable {
    pub booleans: Vec<bool>,
    pub integers: Vec<i32>,
    pub floats: Vec<u32>,
}

/// The mathematical content of a dense table.
pub struct PlotTableV {
    pub booleans: Seq<bool>,
    pub integers: Seq<i32>,
    pub floats: Seq<u32>,
}

impl DeepView for PlotTable {
    type V = PlotTableV;

    open spec fn deep_view(&self) -> PlotTableV {
        PlotTableV { booleans: self.booleans@, integers: self.integers@, floats: self.floats@ }
    }
}

impl PlotTable {
    pub fn new() -> (t: PlotTable)
        ensures
            t.deep_view().booleans == Seq::<bool>::empty(),
            t.deep_view().integers == Seq::<i32>::empty(),
            t.deep_view().floats == Seq::<u32>::empty(),
    {
        PlotTable { booleans: Vec::new(), integers: Vec::new(), floats: Vec::new() }
    }

    pub fn get_boolean(&self, id: usize) -> (r: Option<bool>)
        ensures
            r == dense_get(self.deep_view().booleans, id as int),
    {
        dense_get_exec(&self.booleans, id)
    }

    /// Writes an allocated slot and reports whether it did; an out-of-range
    /// id changes nothing.
    pub fn set_boolean(&mut self, id: usize, v: bool) -> (ok: bool)
        ensures
            ok == (id < old(self).deep_view().booleans.len()),
            ok ==> final(self).deep_view().booleans == old(self).deep_view().booleans.update(
                id as int,
                v,
            ),
            !ok ==> final(self).deep_view().booleans == old(self).deep_view().booleans,
            final(self).deep_view().integers == old(self).deep_view().integers,
            final(self).deep_view().floats == old(self).deep_view().floats,
    {
        dense_set_exec(&mut self.booleans, id, v)
    }

    pub fn get_integer(&self, id: usize) -> (r: Option<i32>)
        ensures
            r == dense_get(self.deep_view().integers, id as int),
    {
        dense_get_exec(&self.integers, id)
    }

    pub fn set_integer(&mut self, id: usize, v: i32) -> (ok: bool)
        ensures
            ok == (id < old(self).deep_view().integers.len()),
            ok ==> final(self).deep_view().integers == old(self).deep_view().integers.update(
                id as int,
                v,
            ),
            !ok ==> final(self).deep_view().integers == old(self).deep_view().integers,
            final(self).deep_view().booleans == old(self).deep_view().booleans,
            final(self).deep_view().floats == old(self).deep_view().floats,
    {
        dense_set_exec(&mut self.integers, id, v)
    }

    pub fn get_float_bits(&self, id: usize) -> (r: Option<u32>)
        ensures
            r == dense_get(self.deep_view().floats, id as int),
    {
        dense_get_exec(&self.floats, id)
    }

    pub fn set_float_bits(&mut self, id: usize, v: u32) -> (ok: bool)
        ensures
            ok == (id < old(self).deep_view().floats.len()),
            ok ==> final(self).deep_view().floats == old(self).deep_view().floats.update(
                id as int,
                v,
            ),
            !ok ==> final(self).deep_view().floats == old(self).deep_view().floats,
            final(self).deep_view().booleans == old(self).deep_view().booleans,
            final(self).deep_view().integers == old(self).deep_view().integers,
    {
        dense_set_exec(&mut self.floats, id, v)
    }

    /// Extend is monotonic: it never changes an already present slot, and
    /// afterwards every id of the catalog is present; new slots hold the
    /// default.
    pub fn extend_booleans(&mut self, ids: &Vec<usize>)
        requires
            forall|j: int| 0 <= j < ids@.len() ==> #[trigger] ids@[j] < usize::MAX,
        ensures
            final(self).deep_view().booleans.len() >= old(self).deep_view().booleans.len(),
            final(self).deep_view().booleans.take(old(self).deep_view().booleans.len() as int)
                == old(self).deep_view().booleans,
            forall|j: int|
                0 <= j < ids@.len() ==> (#[trigger] ids@[j])
                    < final(self).deep_view().booleans.len(),
            forall|i: int|
                old(self).deep_view().booleans.len() <= i < final(self).deep_view().booleans.len() ==> final(self).deep_view().booleans[i] == false,
            final(self).deep_view().booleans.len() == old(self).deep_view().booleans.len()
                || exists|j: int|
                0 <= j < ids@.len() && #[trigger] ids@[j] + 1 == final(self).deep_view().booleans.len(),
            final(self).deep_view().integers == old(self).deep_view().integers,
            final(self).deep_view().floats == old(self).deep_view().floats,
    {
        extend_dense(&mut self.booleans, ids, false);
    }

    pub fn extend_integers(&mut self, ids: &Vec<usize>)
        requires
            forall|j: int| 0 <= j < ids@.len() ==> #[trigger] ids@[j] < usize::MAX,
        ensures
            final(self).deep_view().integers.len() >= old(self).deep_view().integers.len(),
            final(self).deep_view().integers.take(old(self).deep_view().integers.len() as int)
                == old(self).deep_view().integers,
            forall|j: int|
                0 <= j < ids@.len() ==> (#[trigger] ids@[j])
                    < final(self).deep_view().integers.len(),
            forall|i: int|
                old(self).deep_view().integers.len() <= i < final(self).deep_view().integers.len() ==> final(self).deep_view().integers[i] == 0,
            final(self).deep_view().integers.len() == old(self).deep_view().integers.len()
                || exists|j: int|
                0 <= j < ids@.len() && #[trigger] ids@[j] + 1 == final(self).deep_view().integers.len(),
            final(self).deep_view().booleans == old(self).deep_view().booleans,
            final(self).deep_view().floats == old(self).deep_view().floats,
    {
        extend_dense(&mut self.integers, ids, 0);
    }

    pub fn extend_floats(&mut self, ids: &Vec<usize>)
        requires
            forall|j: int| 0 <= j < ids@.len() ==> #[trigger] ids@[j] < usize::MAX,
        ensures
            final(self).deep_view().floats.len() >= old(self).deep_view().floats.len(),
            final(self).deep_view().floats.take(old(self).deep_view().floats.len() as int)
                == old(self).deep_view().floats,
            forall|j: int|
                0 <= j < ids@.len() ==> (#[trigger] ids@[j]) < final(self).deep_view().floats.len(),
            forall|i: int|
                old(self).deep_view().floats.len() <= i < final(self).deep_view().floats.len()
                    ==> final(self).deep_view().floats[i] == 0,
            final(self).deep_view().floats.len() == old(self).deep_view().floats.len() || exists|
                j: int,
            |
                0 <= j < ids@.len() && #[trigger] ids@[j] + 1 == final(self).deep_view().floats.len(),
            final(self).deep_view().booleans == old(self).deep_view().booleans,
            final(self).deep_view().integers == old(self).deep_view().integers,
    {
        extend_dense(&mut self.floats, ids, 0);
    }
}

impl SaveData for PlotTable {
    open spec fn inv(v: PlotTableV) -> bool {
        v.booleans.len() <= u32::MAX && v.integers.len() <= u32::MAX && v.floats.len()
            <= u32::MAX
    }

    open spec fn ser(v: PlotTableV) -> Seq<u8> {
        Vec::<bool>::ser(v.booleans) + Vec::<i32>::ser(v.integers) + Vec::<u32>::ser(v.floats)
    }

    open spec fn parse(buf: Seq<u8>, pos: int) -> Result<(PlotTableV, int), DecodeError> {
        match Vec::<bool>::parse(buf, pos) {
            Ok((bools, p1)) => match Vec::<i32>::parse(buf, p1) {
                Ok((ints, p2)) => match Vec::<u32>::parse(buf, p2) {
                    Ok((floats, p3)) => Ok((
                        PlotTableV { booleans: bools, integers: ints, floats },
                        p3,
                    )),
                    Err(e) => Err(e),
                },
                Err(e) => Err(e),
            },
            Err(e) => Err(e),
        }
    }

    proof fn lemma_parse_ser(v: PlotTableV, pre: Seq<u8>, rest: Seq<u8>) {
        let buf = pre + Self::ser(v) + rest;
        let s1 = Vec::<bool>::ser(v.booleans);
        let s2 = Vec::<i32>::ser(v.integers);
        let s3 = Vec::<u32>::ser(v.floats);
        assert(buf =~= pre + s1 + (s2 + s3 + rest));
        Vec::<bool>::lemma_parse_ser(v.booleans, pre, s2 + s3 + rest);
        assert(buf =~= (pre + s1) + s2 + (s3 + rest));
        Vec::<i32>::lemma_parse_ser(v.integers, pre + s1, s3 + rest);
        assert(buf =~= (pre + s1 + s2) + s3 + rest);
        Vec::<u32>::lemma_parse_ser(v.floats, pre + s1 + s2, rest);
        assert(PlotTableV { booleans: v.booleans, integers: v.integers, floats: v.floats } == v);
    }

    fn encode(&self, out: &mut Vec<u8>) {
        proof {
            assert(self.booleans.deep_view() =~= self.booleans@);
            assert(self.integers.deep_view() =~= self.integers@);
            assert(self.floats.deep_view() =~= self.floats@);
        }
        self.booleans.encode(out);
        self.integers.encode(out);
        self.floats.encode(out);
        proof {
            assert(final(out)@ =~= old(out)@ + Self::ser(self.deep_view()));
        }
    }

    fn decode(cur: &mut Cursor) -> (r: Result<PlotTable, DecodeError>) {
        let booleans = match Vec::<bool>::decode(cur) {
            Ok(v) => v,
            Err(e) => {
                return Err(e);
            },
        };
        let integers = match Vec::<i32>::decode(cur) {
            Ok(v) => v,
            Err(e) => {
                return Err(e);
            },
        };
        let floats = match Vec::<u32>::decode(cur) {
            Ok(v) => v,
            Err(e) => {
                return Err(e);
            },
        };
        let t = PlotTable { booleans, integers, floats };
        proof {
            assert(t.booleans.deep_view() =~= t.booleans@);
            assert(t.integers.deep_view() =~= t.integers@);
            assert(t.floats.deep_view() =~= t.floats@);
        }
        Ok(t)
    }
}

// ---------------------------------------------------------------------------
// The sparse table: integer and float flags keyed by explicit id.
// ---------------------------------------------------------------------------

/// A sparse plot table: booleans stay dense, integers and floats hold only
/// the allocated ids, in insertion order.
pub struct SparsePlotTable {
    pub booleans: Vec<bool>,
    pub integers: IndexMap<i32, i32>,
    pub floats: IndexMap<i32, u32>,
}

/// The mathematical content of a sparse table.
pub struct SparsePlotV {
    pub booleans: Seq<bool>,
    pub integers: Seq<(i32, i32)>,
    pub floats: Seq<(i32, u32)>,
}

impl SparsePlotV {
    /// Every map reachable through this library has unique keys.
    pub open spec fn wf(self) -> bool {
        unique_keys(self.integers) && unique_keys(self.floats)
    }
}

impl DeepView for SparsePlotTable {
    type V = SparsePlotV;

    open spec fn deep_view(&self) -> SparsePlotV {
        SparsePlotV {
            booleans: self.booleans@,
            integers: int_entries_of(self),
            floats: float_entries_of(self),
        }
    }
}

pub open spec fn int_entries_of(t: &SparsePlotTable) -> Seq<(i32, i32)> {
    crate::index_map::int_entries(t.integers)
}

pub open spec fn float_entries_of(t: &SparsePlotTable) -> Seq<(i32, u32)> {
    crate::index_map::float_entries(t.floats)
}

impl SparsePlotTable {
    pub fn new() -> (t: SparsePlotTable)
        ensures
            t.deep_view().booleans == Seq::<bool>::empty(),
            t.deep_view().integers == Seq::<(i32, i32)>::empty(),
            t.deep_view().floats == Seq::<(i32, u32)>::empty(),
            t.deep_view().wf(),
    {
        SparsePlotTable { booleans: Vec::new(), integers: imap_int_new(), floats: imap_float_new() }
    }

    pub fn get_boolean(&self, id: usize) -> (r: Option<bool>)
        ensures
            r == dense_get(self.deep_view().booleans, id as int),
    {
        dense_get_exec(&self.booleans, id)
    }

    pub fn set_boolean(&mut self, id: usize, v: bool) -> (ok: bool)
        ensures
            ok == (id < old(self).deep_view().booleans.len()),
            ok ==> final(self).deep_view().booleans == old(self).deep_view().booleans.update(
                id as int,
                v,
            ),
            !ok ==> final(self).deep_view().booleans == old(self).deep_view().booleans,
            final(self).deep_view().integers == old(self).deep_view().integers,
            final(self).deep_view().floats == old(self).deep_view().floats,
    {
        dense_set_exec(&mut self.booleans, id, v)
    }

    pub fn extend_booleans(&mut self, ids: &Vec<usize>)
        requires
            forall|j: int| 0 <= j < ids@.len() ==> #[trigger] ids@[j] < usize::MAX,
        ensures
            final(self).deep_view().booleans.len() >= old(self).deep_view().booleans.len(),
            final(self).deep_view().booleans.take(old(self).deep_view().booleans.len() as int)
                == old(self).deep_view().booleans,
            forall|j: int|
                0 <= j < ids@.len() ==> (#[trigger] ids@[j])
                    < final(self).deep_view().booleans.len(),
            forall|i: int|
                old(self).deep_view().booleans.len() <= i < final(self).deep_view().booleans.len() ==> final(self).deep_view().booleans[i] == false,
            final(self).deep_view().booleans.len() == old(self).deep_view().booleans.len()
                || exists|j: int|
                0 <= j < ids@.len() && #[trigger] ids@[j] + 1 == final(self).deep_view().booleans.len(),
            final(self).deep_view().integers == old(self).deep_view().integers,
            final(self).deep_view().floats == old(self).deep_view().floats,
    {
        extend_dense(&mut self.booleans, ids, false);
    }

    /// Reads an allocated integer id; a never-set id is absent.
    pub fn get_integer(&self, id: i32) -> (r: Option<i32>)
        requires
            self.deep_view().wf(),
        ensures
            r == lookup(self.deep_view().integers, id),
    {
        imap_int_get(&self.integers, id)
    }

    /// Writes an allocated integer id and reports whether it did; an
    /// unallocated id changes nothing — only `extend` grows the domain.
    pub fn set_integer(&mut self, id: i32, v: i32) -> (ok: bool)
        requires
            old(self).deep_view().wf(),
        ensures
            final(self).deep_view().wf(),
            ok == has_key(old(self).deep_view().integers, id),
            ok ==> final(self).deep_view().integers == insert_entry(
                old(self).deep_view().integers,
                id,
                v,
            ),
            !ok ==> final(self).deep_view().integers == old(self).deep_view().integers,
            final(self).deep_view().booleans == old(self).deep_view().booleans,
            final(self).deep_view().floats == old(self).deep_view().floats,
    {
        let present = imap_int_get(&self.integers, id).is_some();
        if present {
            proof {
                lemma_insert_entry_unique(int_entries_of(self), id, v);
            }
            imap_int_insert(&mut self.integers, id, v);
            true
        } else {
            false
        }
    }

    pub fn get_float_bits(&self, id: i32) -> (r: Option<u32>)
        requires
            self.deep_view().wf(),
        ensures
            r == lookup(self.deep_view().floats, id),
    {
        imap_float_get(&self.floats, id)
    }

    pub fn set_float_bits(&mut self, id: i32, v: u32) -> (ok: bool)
        requires
            old(self).deep_view().wf(),
        ensures
            final(self).deep_view().wf(),
            ok == has_key(old(self).deep_view().floats, id),
            ok ==> final(self).deep_view().floats == insert_entry(
                old(self).deep_view().floats,
                id,
                v,
            ),
            !ok ==> final(self).deep_view().floats == old(self).deep_view().floats,
            final(self).deep_view().booleans == old(self).deep_view().booleans,
            final(self).deep_view().integers == old(self).deep_view().integers,
    {
        let present = imap_float_get(&self.floats, id).is_some();
        if present {
            proof {
                lemma_insert_entry_unique(float_entries_of(self), id, v);
            }
            imap_float_insert(&mut self.floats, id, v);
            true
        } else {
            false
        }
    }

    /// Extend is monotonic: ids already present keep their values, and every
    /// id of the catalog is present afterwards with the default if it was
    /// missing (see `lemma_extend_fold_monotonic`).
    #[verifier::loop_isolation(false)]
    pub fn extend_integers(&mut self, ids: &Vec<i32>)
        requires
            old(self).deep_view().wf(),
        ensures
            final(self).deep_view().wf(),
            final(self).deep_view().integers == extend_fold(
                old(self).deep_view().integers,
                ids@,
                0i32,
            ),
            final(self).deep_view().booleans == old(self).deep_view().booleans,
            final(self).deep_view().floats == old(self).deep_view().floats,
    {
        let ghost s0 = int_entries_of(self);
        proof {
            assert(ids@.skip(0) =~= ids@);
        }
        let mut j: usize = 0;
        while j < ids.len()
            invariant
                j <= ids@.len(),
                unique_keys(int_entries_of(self)),
                extend_fold(int_entries_of(self), ids@.skip(j as int), 0i32) == extend_fold(
                    s0,
                    ids@,
                    0i32,
                ),
                float_entries_of(self) == float_entries_of(&*old(self)),
                self.booleans@ == old(self).booleans@,
            decreases ids@.len() - j,
        {
            let ghost cur = int_entries_of(self);
            let id = ids[j];
            let absent = imap_int_get(&self.integers, id).is_none();
            if absent {
                proof {
                    lemma_insert_entry_unique(cur, id, 0i32);
                    assert(!has_key(cur, id));
                    assert(insert_entry(cur, id, 0i32) == cur.push((id, 0i32)));
                }
                imap_int_insert(&mut self.integers, id, 0);
            }
            j = j + 1;
            proof {
                assert(int_entries_of(self) == insert_default(cur, id, 0i32));
                assert(ids@.skip(j - 1)[0] == id);
                assert(ids@.skip(j - 1).drop_first() =~= ids@.skip(j as int));
            }
        }
        proof {
            assert(ids@.skip(ids@.len() as int) =~= Seq::<i32>::empty());
        }
    }

    #[verifier::loop_isolation(false)]
    pub fn extend_floats(&mut self, ids: &Vec<i32>)
        requires
            old(self).deep_view().wf(),
        ensures
            final(self).deep_view().wf(),
            final(self).deep_view().floats == extend_fold(
                old(self).deep_view().floats,
                ids@,
                0u32,
            ),
            final(self).deep_view().booleans == old(self).deep_view().booleans,
            final(self).deep_view().integers == old(self).deep_view().integers,
    {
        let ghost s0 = float_entries_of(self);
        proof {
            assert(ids@.skip(0) =~= ids@);
        }
        let mut j: usize = 0;
        while j < ids.len()
            invariant
                j <= ids@.len(),
                unique_keys(float_entries_of(self)),
                extend_fold(float_entries_of(self), ids@.skip(j as int), 0u32) == extend_fold(
                    s0,
                    ids@,
                    0u32,
                ),
                int_entries_of(self) == int_entries_of(&*old(self)),
                self.booleans@ == old(self).booleans@,
            decreases ids@.len() - j,
        {
            let ghost cur = float_entries_of(self);
            let id = ids[j];
            let absent = imap_float_get(&self.floats, id).is_none();
            if absent {
                proof {
                    lemma_insert_entry_unique(cur, id, 0u32);
                    assert(!has_key(cur, id));
                    assert(insert_entry(cur, id, 0u32) == cur.push((id, 0u32)));
                }
                imap_float_insert(&mut self.floats, id, 0);
            }
            j = j + 1;
            proof {
                assert(float_entries_of(self) == insert_default(cur, id, 0u32));
                assert(ids@.skip(j - 1)[0] == id);
                assert(ids@.skip(j - 1).drop_first() =~= ids@.skip(j as int));
            }
        }
        proof {
            assert(ids@.skip(ids@.len() as int) =~= Seq::<i32>::empty());
        }
    }
}

impl SaveData for SparsePlotTable {
    open spec fn inv(v: SparsePlotV) -> bool {
        v.booleans.len() <= u32::MAX && v.integers.len() <= u32::MAX && v.floats.len()
            <= u32::MAX && v.wf()
    }

    open spec fn ser(v: SparsePlotV) -> Seq<u8> {
        Vec::<bool>::ser(v.booleans) + (ser_u32(v.integers.len() as u32) + ser_elems::<
            (i32, i32),
        >(v.integers)) + (ser_u32(v.floats.len() as u32) + ser_elems::<(i32, u32)>(v.floats))
    }

    open spec fn parse(buf: Seq<u8>, pos: int) -> Result<(SparsePlotV, int), DecodeError> {
        match Vec::<bool>::parse(buf, pos) {
            Ok((bools, p1)) => match parse_u32(buf, p1) {
                Ok((ni, p2)) => match parse_elems::<(i32, i32)>(buf, p2, ni as nat) {
                    Ok((ipairs, p3)) => match parse_u32(buf, p3) {
                        Ok((nf, p4)) => match parse_elems::<(i32, u32)>(buf, p4, nf as nat) {
                            Ok((fpairs, p5)) => Ok((
                                SparsePlotV {
                                    booleans: bools,
                                    integers: fold_inserts(ipairs),
                                    floats: fold_inserts(fpairs),
                                },
                                p5,
                            )),
                            Err(e) => Err(e),
                        },
                        Err(e) => Err(e),
                    },
                    Err(e) => Err(e),
                },
                Err(e) => Err(e),
            },
            Err(e) => Err(e),
        }
    }

    #[verifier::rlimit(80)]
    proof fn lemma_parse_ser(v: SparsePlotV, pre: Seq<u8>, rest: Seq<u8>) {
        let buf = pre + Self::ser(v) + rest;
        let s1 = Vec::<bool>::ser(v.booleans);
        let ni = v.integers.len() as u32;
        let s2 = ser_u32(ni);
        let s3 = ser_elems::<(i32, i32)>(v.integers);
        let nf = v.floats.len() as u32;
        let s4 = ser_u32(nf);
        let s5 = ser_elems::<(i32, u32)>(v.floats);
        assert(buf =~= pre + s1 + (s2 + s3 + s4 + s5 + rest));
        Vec::<bool>::lemma_parse_ser(v.booleans, pre, s2 + s3 + s4 + s5 + rest);
        assert(buf =~= (pre + s1) + s2 + (s3 + s4 + s5 + rest));
        lemma_parse_ser_u32(ni, pre + s1, s3 + s4 + s5 + rest);
        assert(buf =~= (pre + s1 + s2) + s3 + (s4 + s5 + rest));
        assert(all_inv::<(i32, i32)>(v.integers));
        lemma_parse_ser_elems::<(i32, i32)>(v.integers, pre + s1 + s2, s4 + s5 + rest);
        assert(buf =~= (pre + s1 + s2 + s3) + s4 + (s5 + rest));
        lemma_parse_ser_u32(nf, pre + s1 + s2 + s3, s5 + rest);
        assert(buf =~= (pre + s1 + s2 + s3 + s4) + s5 + rest);
        assert(all_inv::<(i32, u32)>(v.floats));
        lemma_parse_ser_elems::<(i32, u32)>(v.floats, pre + s1 + s2 + s3 + s4, rest);
        lemma_fold_inserts_identity(v.integers);
        lemma_fold_inserts_identity(v.floats);
        assert(SparsePlotV {
            booleans: v.booleans,
            integers: fold_inserts(v.integers),
            floats: fold_inserts(v.floats),
        } == v);
    }

    #[verifier::loop_isolation(false)]
    fn encode(&self, out: &mut Vec<u8>) {
        proof {
            assert(self.booleans.deep_view() =~= self.booleans@);
        }
        self.booleans.encode(out);
        let ients_len = imap_int_len(&self.integers);
        write_u32(out, ients_len as u32);
        let ghost ients = int_entries_of(self);
        let ghost base_i = old(out)@ + Vec::<bool>::ser(self.booleans@) + ser_u32(
            ients.len() as u32,
        );
        let mut i: usize = 0;
        while i < ients_len
            invariant
                i <= ients_len,
                out@ == base_i + ser_elems::<(i32, i32)>(ients.take(i as int)),
            decreases ients_len - i,
        {
            let pair = match imap_int_get_index(&self.integers, i) {
                Some(p) => p,
                None => {
                    proof {
                        assert(false);
                    }
                    (0, 0)
                },
            };
            proof {
                assert(pair.deep_view() == ients[i as int]);
                lemma_ser_elems_push::<(i32, i32)>(ients.take(i as int), ients[i as int]);
                assert(ients.take(i as int).push(ients[i as int]) =~= ients.take(i + 1));
            }
            pair.encode(out);
            i = i + 1;
        }
        proof {
            assert(ients.take(ients_len as int) =~= ients);
        }
        let fents_len = imap_float_len(&self.floats);
        write_u32(out, fents_len as u32);
        let ghost fents = float_entries_of(self);
        let ghost base_f = out@;
        let mut k: usize = 0;
        while k < fents_len
            invariant
                k <= fents_len,
                out@ == base_f + ser_elems::<(i32, u32)>(fents.take(k as int)),
            decreases fents_len - k,
        {
            let pair = match imap_float_get_index(&self.floats, k) {
                Some(p) => p,
                None => {
                    proof {
                        assert(false);
                    }
                    (0, 0)
                },
            };
            proof {
                assert(pair.deep_view() == fents[k as int]);
                lemma_ser_elems_push::<(i32, u32)>(fents.take(k as int), fents[k as int]);
                assert(fents.take(k as int).push(fents[k as int]) =~= fents.take(k + 1));
            }
            pair.encode(out);
            k = k + 1;
        }
        proof {
            assert(fents.take(fents_len as int) =~= fents);
            assert(final(out)@ =~= old(out)@ + Self::ser(self.deep_view()));
        }
    }

    #[verifier::loop_isolation(false)]
    fn decode(cur: &mut Cursor) -> (r: Result<SparsePlotTable, DecodeError>) {
        let booleans = match Vec::<bool>::decode(cur) {
            Ok(v) => v,
            Err(e) => {
                return Err(e);
            },
        };
        let ni = match cur.read_u32() {
            Ok(v) => v,
            Err(e) => {
                return Err(e);
            },
        };
        let ipairs = match decode_run::<(i32, i32)>(cur, ni as usize) {
            Ok(v) => v,
            Err(e) => {
                return Err(e);
            },
        };
        let ghost idv = ipairs.deep_view();
        let mut integers = imap_int_new();
        let mut i: usize = 0;
        proof {
            assert(idv.take(0) =~= Seq::<(i32, i32)>::empty());
        }
        while i < ipairs.len()
            invariant
                i <= ipairs@.len(),
                unique_keys(int_entries(integers)),
                int_entries(integers) == fold_inserts(idv.take(i as int)),
            decreases ipairs@.len() - i,
        {
            let ghost cur_entries = int_entries(integers);
            let pair = &ipairs[i];
            proof {
                assert(idv[i as int] == ipairs@[i as int].deep_view());
                lemma_insert_entry_unique(cur_entries, pair.0, pair.1);
            }
            imap_int_insert(&mut integers, pair.0, pair.1);
            i = i + 1;
            proof {
                assert(idv.take(i as int).drop_last() =~= idv.take(i - 1));
                assert(idv.take(i as int).last() == idv[i - 1]);
                assert(int_entries(integers) == fold_inserts(idv.take(i as int)));
            }
        }
        proof {
            assert(idv.take(ipairs@.len() as int) =~= idv);
            lemma_fold_inserts_unique(idv);
        }
        let nf = match cur.read_u32() {
            Ok(v) => v,
            Err(e) => {
                return Err(e);
            },
        };
        let fpairs = match decode_run::<(i32, u32)>(cur, nf as usize) {
            Ok(v) => v,
            Err(e) => {
                return Err(e);
            },
        };
        let ghost fdv = fpairs.deep_view();
        let mut floats = imap_float_new();
        let mut k: usize = 0;
        proof {
            assert(fdv.take(0) =~= Seq::<(i32, u32)>::empty());
        }
        while k < fpairs.len()
            invariant
                k <= fpairs@.len(),
                unique_keys(float_entries(floats)),
                float_entries(floats) == fold_inserts(fdv.take(k as int)),
            decreases fpairs@.len() - k,
        {
            let ghost cur_entries = float_entries(floats);
            let pair = &fpairs[k];
            proof {
                assert(fdv[k as int] == fpairs@[k as int].deep_view());
                lemma_insert_entry_unique(cur_entries, pair.0, pair.1);
            }
            imap_float_insert(&mut floats, pair.0, pair.1);
            k = k + 1;
            proof {
                assert(fdv.take(k as int).drop_last() =~= fdv.take(k - 1));
                assert(fdv.take(k as int).last() == fdv[k - 1]);
                assert(float_entries(floats) == fold_inserts(fdv.take(k as int)));
            }
        }
        proof {
            assert(fdv.take(fpairs@.len() as int) =~= fdv);
            lemma_fold_inserts_unique(fdv);
        }
        let t = SparsePlotTable { booleans, integers, floats };
        proof {
            assert(t.booleans.deep_view() =~= t.booleans@);
        }
        Ok(t)
    }
}

} // verus!

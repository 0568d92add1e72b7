//! The single point where the open flow chooses which concrete tree to
//! decode into, driven by externally supplied game selection — never by
//! sniffing the content.

use vstd::prelude::*;

use crate::codec::{lemma_decode_of_encode, SaveData};
use crate::cursor::{Cursor, DecodeError};
use crate::index_map::{has_key, index_of_key, insert_entry, lookup};
use crate::mass_effect_2::{Me2SaveGame, Me2SaveGameV};
use crate::mass_effect_3::{Me3SaveGame, Me3SaveGameV};
use crate::plot::{dense_get, PlotTableV, SparsePlotV};

verus! {

/// Which title's format to decode; supplied by the caller from selection
/// context such as the file extension.
#[derive(Clone, Copy, Debug, PartialEq, Eq, Structural)]
pub enum GameKind {
    MassEffect2,
    MassEffect3,
}

/// A fully decoded save tree of one of the supported titles.
pub enum SaveGame {
    MassEffect2(Me2SaveGame),
    MassEffect3(Me3SaveGame),
}

pub enum SaveGameV {
    MassEffect2(Me2SaveGameV),
    MassEffect3(Me3SaveGameV),
}

impl DeepView for SaveGame {
    type V = SaveGameV;

    open spec fn deep_view(&self) -> SaveGameV {
        match self {
            SaveGame::MassEffect2(s) => SaveGameV::MassEffect2(s.deep_view()),
            SaveGame::MassEffect3(s) => SaveGameV::MassEffect3(s.deep_view()),
        }
    }
}

pub open spec fn save_game_kind(v: SaveGameV) -> GameKind {
    match v {
        SaveGameV::MassEffect2(_) => GameKind::MassEffect2,
        SaveGameV::MassEffect3(_) => GameKind::MassEffect3,
    }
}

pub open spec fn save_game_inv(v: SaveGameV) -> bool {
    match v {
        SaveGameV::MassEffect2(x) => Me2SaveGame::inv(x),
        SaveGameV::MassEffect3(x) => Me3SaveGame::inv(x),
    }
}

pub open spec fn save_game_ser(v: SaveGameV) -> Seq<u8> {
    match v {
        SaveGameV::MassEffect2(x) => Me2SaveGame::ser(x),
        SaveGameV::MassEffect3(x) => Me3SaveGame::ser(x),
    }
}

/// What opening a buffer as the given title yields: the decoded tree and the
/// position after it, or the first decode error.
pub open spec fn save_game_parse(kind: GameKind, buf: Seq<u8>) -> Result<
    (SaveGameV, int),
    DecodeError,
> {
    match kind {
        GameKind::MassEffect2 => match Me2SaveGame::parse(buf, 0) {
            Ok((v, p)) => Ok((SaveGameV::MassEffect2(v), p)),
            Err(e) => Err(e),
        },
        GameKind::MassEffect3 => match Me3SaveGame::parse(buf, 0) {
            Ok((v, p)) => Ok((SaveGameV::MassEffect3(v), p)),
            Err(e) => Err(e),
        },
    }
}


// ---------------------------------------------------------------------------
// Projections: every title's tree reduces to one boolean sequence and two
// id-keyed pair sequences.  Dense integer and float spaces project to pairs
// keyed by their index.
// ---------------------------------------------------------------------------

pub open spec fn dense_pairs<V>(s: Seq<V>) -> Seq<(i32, V)> {
    Seq::new(s.len(), |i: int| (i as i32, s[i]))
}

pub open spec fn proj_bools(v: SaveGameV) -> Seq<bool> {
    match v {
        SaveGameV::MassEffect2(x) => x.plot.booleans,
        SaveGameV::MassEffect3(x) => x.plot.booleans,
    }
}

pub open spec fn proj_ints(v: SaveGameV) -> Seq<(i32, i32)> {
    match v {
        SaveGameV::MassEffect2(x) => dense_pairs(x.plot.integers),
        SaveGameV::MassEffect3(x) => x.plot.integers,
    }
}

pub open spec fn proj_floats(v: SaveGameV) -> Seq<(i32, u32)> {
    match v {
        SaveGameV::MassEffect2(x) => dense_pairs(x.plot.floats),
        SaveGameV::MassEffect3(x) => x.plot.floats,
    }
}

/// What compare needs of a decoded tree: sparse maps have unique keys (as
/// every decoded or extended table does), and dense id spaces fit the
/// 32-bit id domain.
pub open spec fn comparable(v: SaveGameV) -> bool {
    match v {
        SaveGameV::MassEffect2(x) => x.plot.integers.len() <= i32::MAX && x.plot.floats.len()
            <= i32::MAX,
        SaveGameV::MassEffect3(x) => x.plot.wf(),
    }
}

/// Decodes a whole save file buffer as the chosen title.  Succeeds if and
/// only if the buffer parses; on failure nothing partially decoded escapes.
pub fn open_save(data: Vec<u8>, kind: GameKind) -> (r: Result<SaveGame, DecodeError>)
    ensures
        match save_game_parse(kind, data@) {
            Ok((v, p)) => r matches Ok(s) && s.deep_view() == v && save_game_inv(v),
            Err(e) => r matches Err(e2) && e2 == e,
        },
{
    let mut cur = Cursor::new(data);
    match kind {
        GameKind::MassEffect2 => match Me2SaveGame::decode(&mut cur) {
            Ok(s) => Ok(SaveGame::MassEffect2(s)),
            Err(e) => Err(e),
        },
        GameKind::MassEffect3 => match Me3SaveGame::decode(&mut cur) {
            Ok(s) => Ok(SaveGame::MassEffect3(s)),
            Err(e) => Err(e),
        },
    }
}

/// Re-encodes a save tree to the exact bytes its view serializes to.
pub fn save_to_bytes(save: &SaveGame) -> (out: Vec<u8>)
    requires
        save_game_inv(save.deep_view()),
    ensures
        out@ == save_game_ser(save.deep_view()),
{
    let mut out: Vec<u8> = Vec::new();
    match save {
        SaveGame::MassEffect2(s) => s.encode(&mut out),
        SaveGame::MassEffect3(s) => s.encode(&mut out),
    }
    proof {
        assert(out@ =~= save_game_ser(save.deep_view()));
    }
    out
}

/// Under an id-keyed view, a dense flag space reads like the sparse one:
/// in-range ids are present with their slot, all others absent.
pub proof fn lemma_lookup_dense_pairs<V>(s: Seq<V>, k: i32)
    requires
        s.len() <= i32::MAX,
    ensures
        lookup(dense_pairs(s), k) == (if 0 <= k < s.len() {
            Some(s[k as int])
        } else {
            None::<V>
        }),
{
    let d = dense_pairs(s);
    if 0 <= k < s.len() {
        assert(d[k as int].0 == k);
        assert(has_key(d, k));
        let i = index_of_key(d, k);
        assert(d[i].0 == (i as i32));
        assert(i == k);
    } else {
        if has_key(d, k) {
            let i = index_of_key(d, k);
            assert(d[i].0 == (i as i32));
        }
    }
}

/// A write into a dense slot is one id-keyed update.
pub proof fn lemma_dense_pairs_update<V>(s: Seq<V>, k: i32, v: V)
    requires
        s.len() <= i32::MAX,
        0 <= k < s.len(),
    ensures
        has_key(dense_pairs(s), k),
        dense_pairs(s.update(k as int, v)) == insert_entry(dense_pairs(s), k, v),
{
    let d = dense_pairs(s);
    assert(d[k as int].0 == k);
    assert(has_key(d, k));
    let i = index_of_key(d, k);
    assert(d[i].0 == (i as i32));
    assert(i == k);
    assert(dense_pairs(s.update(k as int, v)) =~= d.update(k as int, (k, v)));
}

// ---------------------------------------------------------------------------
// The generic edit capability: the editing layer reads and writes plot
// flags of any decoded tree by flag space and id, without knowing which
// title's storage shape lies underneath.
// ---------------------------------------------------------------------------

impl SaveGame {
    pub fn get_plot_boolean(&self, id: usize) -> (r: Option<bool>)
        ensures
            r == dense_get(proj_bools(self.deep_view()), id as int),
    {
        match self {
            SaveGame::MassEffect2(x) => x.plot.get_boolean(id),
            SaveGame::MassEffect3(x) => x.plot.get_boolean(id),
        }
    }

    /// Writes an allocated boolean id and reports whether it did; nothing
    /// else of the tree changes.
    pub fn set_plot_boolean(&mut self, id: usize, v: bool) -> (ok: bool)
        ensures
            ok == (id < proj_bools(old(self).deep_view()).len()),
            ok ==> proj_bools(final(self).deep_view()) == proj_bools(
                old(self).deep_view(),
            ).update(id as int, v),
            !ok ==> proj_bools(final(self).deep_view()) == proj_bools(old(self).deep_view()),
            proj_ints(final(self).deep_view()) == proj_ints(old(self).deep_view()),
            proj_floats(final(self).deep_view()) == proj_floats(old(self).deep_view()),
            same_save_outside_plot(old(self).deep_view(), final(self).deep_view()),
    {
        match self {
            SaveGame::MassEffect2(x) => x.plot.set_boolean(id, v),
            SaveGame::MassEffect3(x) => x.plot.set_boolean(id, v),
        }
    }

    /// Reads an integer flag by id; an id the tree never held is absent.
    pub fn get_plot_integer(&self, id: i32) -> (r: Option<i32>)
        requires
            comparable(self.deep_view()),
        ensures
            r == lookup(proj_ints(self.deep_view()), id),
    {
        match self {
            SaveGame::MassEffect2(x) => {
                proof {
                    lemma_lookup_dense_pairs(x.plot.integers@, id);
                }
                if id >= 0 && (id as usize) < x.plot.integers.len() {
                    x.plot.get_integer(id as usize)
                } else {
                    None
                }
            },
            SaveGame::MassEffect3(x) => x.plot.get_integer(id),
        }
    }

    /// Writes an allocated integer id and reports whether it did; an
    /// unallocated id changes nothing, whichever storage shape holds it.
    pub fn set_plot_integer(&mut self, id: i32, v: i32) -> (ok: bool)
        requires
            comparable(old(self).deep_view()),
        ensures
            comparable(final(self).deep_view()),
            ok == has_key(proj_ints(old(self).deep_view()), id),
            ok ==> proj_ints(final(self).deep_view()) == insert_entry(
                proj_ints(old(self).deep_view()),
                id,
                v,
            ),
            !ok ==> proj_ints(final(self).deep_view()) == proj_ints(old(self).deep_view()),
            proj_bools(final(self).deep_view()) == proj_bools(old(self).deep_view()),
            proj_floats(final(self).deep_view()) == proj_floats(old(self).deep_view()),
            same_save_outside_plot(old(self).deep_view(), final(self).deep_view()),
    {
        match self {
            SaveGame::MassEffect2(x) => {
                proof {
                    lemma_lookup_dense_pairs(x.plot.integers@, id);
                }
                if id >= 0 && (id as usize) < x.plot.integers.len() {
                    proof {
                        lemma_dense_pairs_update(x.plot.integers@, id, v);
                    }
                    x.plot.set_integer(id as usize, v)
                } else {
                    proof {
                        if has_key(dense_pairs(x.plot.integers@), id) {
                            let i = index_of_key(dense_pairs(x.plot.integers@), id);
                            assert(dense_pairs(x.plot.integers@)[i].0 == (i as i32));
                        }
                    }
                    false
                }
            },
            SaveGame::MassEffect3(x) => x.plot.set_integer(id, v),
        }
    }

    /// Reads a float flag's raw bits by id.
    pub fn get_plot_float_bits(&self, id: i32) -> (r: Option<u32>)
        requires
            comparable(self.deep_view()),
        ensures
            r == lookup(proj_floats(self.deep_view()), id),
    {
        match self {
            SaveGame::MassEffect2(x) => {
                proof {
                    lemma_lookup_dense_pairs(x.plot.floats@, id);
                }
                if id >= 0 && (id as usize) < x.plot.floats.len() {
                    x.plot.get_float_bits(id as usize)
                } else {
                    None
                }
            },
            SaveGame::MassEffect3(x) => x.plot.get_float_bits(id),
        }
    }

    /// Writes an allocated float id's raw bits and reports whether it did.
    pub fn set_plot_float_bits(&mut self, id: i32, v: u32) -> (ok: bool)
        requires
            comparable(old(self).deep_view()),
        ensures
            comparable(final(self).deep_view()),
            ok == has_key(proj_floats(old(self).deep_view()), id),
            ok ==> proj_floats(final(self).deep_view()) == insert_entry(
                proj_floats(old(self).deep_view()),
                id,
                v,
            ),
            !ok ==> proj_floats(final(self).deep_view()) == proj_floats(old(self).deep_view()),
            proj_bools(final(self).deep_view()) == proj_bools(old(self).deep_view()),
            proj_ints(final(self).deep_view()) == proj_ints(old(self).deep_view()),
            same_save_outside_plot(old(self).deep_view(), final(self).deep_view()),
    {
        match self {
            SaveGame::MassEffect2(x) => {
                proof {
                    lemma_lookup_dense_pairs(x.plot.floats@, id);
                }
                if id >= 0 && (id as usize) < x.plot.floats.len() {
                    proof {
                        lemma_dense_pairs_update(x.plot.floats@, id, v);
                    }
                    x.plot.set_float_bits(id as usize, v)
                } else {
                    proof {
                        if has_key(dense_pairs(x.plot.floats@), id) {
                            let i = index_of_key(dense_pairs(x.plot.floats@), id);
                            assert(dense_pairs(x.plot.floats@)[i].0 == (i as i32));
                        }
                    }
                    false
                }
            },
            SaveGame::MassEffect3(x) => x.plot.set_float_bits(id, v),
        }
    }
}

/// The two trees are the same title and agree on everything but the plot
/// table.
pub open spec fn same_save_outside_plot(a: SaveGameV, b: SaveGameV) -> bool {
    match (a, b) {
        (SaveGameV::MassEffect2(x), SaveGameV::MassEffect2(y)) => y == (Me2SaveGameV {
            plot: (PlotTableV { ..y.plot }),
            ..x
        }),
        (SaveGameV::MassEffect3(x), SaveGameV::MassEffect3(y)) => y == (Me3SaveGameV {
            plot: (SparsePlotV { ..y.plot }),
            ..x
        }),
        _ => false,
    }
}

/// Law: for every save tree, re-encoding and opening under the same title
/// yields the tree back — whatever trailing bytes follow it.
pub proof fn lemma_save_round_trip(v: SaveGameV, rest: Seq<u8>)
    requires
        save_game_inv(v),
    ensures
        save_game_parse(save_game_kind(v), save_game_ser(v) + rest) == Ok::<
            (SaveGameV, int),
            DecodeError,
        >((v, save_game_ser(v).len() as int)),
{
    match v {
        SaveGameV::MassEffect2(x) => {
            lemma_decode_of_encode::<Me2SaveGame>(x, rest);
        },
        SaveGameV::MassEffect3(x) => {
            lemma_decode_of_encode::<Me3SaveGame>(x, rest);
        },
    }
}

} // verus!

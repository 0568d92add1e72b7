//! The polymorphic read/write contract every save entity implements.
//!
//! An entity's wire form is fixed by two spec functions: `ser` gives the
//! exact bytes a value serializes to, and `parse` gives the exact outcome of
//! reading one from a buffer position.  `encode` and `decode` are proved
//! against them, and `lemma_parse_ser` is the round-trip law: parsing an
//! entity's own serialization yields the value back.
//!
//! Contracts speak about mathematical models: every entity type has a deep
//! view (`Seq`, `Option`, plain integers, or a view struct of those), and
//! `ser` / `parse` / `inv` are functions of that view.

use vstd::prelude::*;

use crate::cursor::{
    parse_bool, parse_i32, parse_u16, parse_u32, parse_u8, ser_bool, ser_i32, ser_u16, ser_u32,
    ser_u8, write_bool, write_i32, write_u16, write_u32, write_u8, Cursor, DecodeError,
};
use crate::cursor::{lemma_parse_ser_bool, lemma_parse_ser_i32, lemma_parse_ser_u16,
    lemma_parse_ser_u32, lemma_parse_ser_u8};

verus! {

/// The codec contract: a save entity is anything that can be decoded from a
/// cursor and encoded onto an output buffer, with both directions pinned to
/// the same spec-level wire format.
pub trait SaveData: Sized + DeepView {
    /// Which views are encodable: sizes fit the format's count fields, and
    /// every nested entity is encodable too.
    spec fn inv(v: Self::V) -> bool;

    /// The exact bytes `v` serializes to.
    spec fn ser(v: Self::V) -> Seq<u8>;

    /// The exact outcome of parsing one entity at `pos`: the parsed view and
    /// the position after it, or the error the wire data forces.
    spec fn parse(buf: Seq<u8>, pos: int) -> Result<(Self::V, int), DecodeError>;

    /// Round trip: parsing an entity's own serialization, wherever it sits
    /// in a buffer, yields the value back and consumes exactly its bytes.
    proof fn lemma_parse_ser(v: Self::V, pre: Seq<u8>, rest: Seq<u8>)
        requires
            Self::inv(v),
        ensures
            Self::parse(pre + Self::ser(v) + rest, pre.len() as int)
                == Ok::<(Self::V, int), DecodeError>((
                v,
                (pre.len() + Self::ser(v).len()) as int,
            )),
    ;

    /// Appends exactly `ser` of this value to the output buffer.
    fn encode(&self, out: &mut Vec<u8>)
        requires
            Self::inv(self.deep_view()),
        ensures
            final(out)@ == old(out)@ + Self::ser(self.deep_view()),
    ;

    /// Reads one entity from the cursor; succeeds if and only if `parse`
    /// does, returns exactly the parsed value, and fails with exactly the
    /// error `parse` gives.
    fn decode(cur: &mut Cursor) -> (r: Result<Self, DecodeError>)
        requires
            old(cur).wf(),
        ensures
            final(cur).wf(),
            final(cur).data() == old(cur).data(),
            match Self::parse(old(cur).data(), old(cur).pos()) {
                Ok((v, p)) => r matches Ok(x) && x.deep_view() == v && Self::inv(v)
                    && final(cur).pos() == p,
                Err(e) => r matches Err(e2) && e2 == e,
            },
    ;
}

/// Law: decoding an entity's own encoding, from the start of a buffer,
/// yields the entity back and consumes exactly its serialization — whatever
/// trailing bytes follow it.
pub proof fn lemma_decode_of_encode<T: SaveData>(v: T::V, rest: Seq<u8>)
    requires
        T::inv(v),
    ensures
        T::parse(T::ser(v) + rest, 0) == Ok::<(T::V, int), DecodeError>((
            v,
            T::ser(v).len() as int,
        )),
{
    T::lemma_parse_ser(v, Seq::empty(), rest);
    assert(Seq::<u8>::empty() + T::ser(v) + rest =~= T::ser(v) + rest);
}

// ---------------------------------------------------------------------------
// Primitives.
// ---------------------------------------------------------------------------

impl SaveData for u8 {
    open spec fn inv(v: u8) -> bool {
        true
    }

    open spec fn ser(v: u8) -> Seq<u8> {
        ser_u8(v)
    }

    open spec fn parse(buf: Seq<u8>, pos: int) -> Result<(u8, int), DecodeError> {
        parse_u8(buf, pos)
    }

    proof fn lemma_parse_ser(v: u8, pre: Seq<u8>, rest: Seq<u8>) {
        lemma_parse_ser_u8(v, pre, rest);
    }

    fn encode(&self, out: &mut Vec<u8>) {
        write_u8(out, *self);
    }

    fn decode(cur: &mut Cursor) -> (r: Result<u8, DecodeError>) {
        cur.read_u8()
    }
}

impl SaveData for u32 {
    open spec fn inv(v: u32) -> bool {
        true
    }

    open spec fn ser(v: u32) -> Seq<u8> {
        ser_u32(v)
    }

    open spec fn parse(buf: Seq<u8>, pos: int) -> Result<(u32, int), DecodeError> {
        parse_u32(buf, pos)
    }

    proof fn lemma_parse_ser(v: u32, pre: Seq<u8>, rest: Seq<u8>) {
        lemma_parse_ser_u32(v, pre, rest);
    }

    fn encode(&self, out: &mut Vec<u8>) {
        write_u32(out, *self);
    }

    fn decode(cur: &mut Cursor) -> (r: Result<u32, DecodeError>) {
        cur.read_u32()
    }
}

impl SaveData for u16 {
    open spec fn inv(v: u16) -> bool {
        true
    }

    open spec fn ser(v: u16) -> Seq<u8> {
        ser_u16(v)
    }

    open spec fn parse(buf: Seq<u8>, pos: int) -> Result<(u16, int), DecodeError> {
        parse_u16(buf, pos)
    }

    proof fn lemma_parse_ser(v: u16, pre: Seq<u8>, rest: Seq<u8>) {
        lemma_parse_ser_u16(v, pre, rest);
    }

    fn encode(&self, out: &mut Vec<u8>) {
        write_u16(out, *self);
    }

    fn decode(cur: &mut Cursor) -> (r: Result<u16, DecodeError>) {
        cur.read_u16()
    }
}

impl SaveData for i32 {
    open spec fn inv(v: i32) -> bool {
        true
    }

    open spec fn ser(v: i32) -> Seq<u8> {
        ser_i32(v)
    }

    open spec fn parse(buf: Seq<u8>, pos: int) -> Result<(i32, int), DecodeError> {
        parse_i32(buf, pos)
    }

    proof fn lemma_parse_ser(v: i32, pre: Seq<u8>, rest: Seq<u8>) {
        lemma_parse_ser_i32(v, pre, rest);
    }

    fn encode(&self, out: &mut Vec<u8>) {
        write_i32(out, *self);
    }

    fn decode(cur: &mut Cursor) -> (r: Result<i32, DecodeError>) {
        cur.read_i32()
    }
}

impl SaveData for bool {
    open spec fn inv(v: bool) -> bool {
        true
    }

    open spec fn ser(v: bool) -> Seq<u8> {
        ser_bool(v)
    }

    open spec fn parse(buf: Seq<u8>, pos: int) -> Result<(bool, int), DecodeError> {
        parse_bool(buf, pos)
    }

    proof fn lemma_parse_ser(v: bool, pre: Seq<u8>, rest: Seq<u8>) {
        lemma_parse_ser_bool(v, pre, rest);
    }

    fn encode(&self, out: &mut Vec<u8>) {
        write_bool(out, *self);
    }

    fn decode(cur: &mut Cursor) -> (r: Result<bool, DecodeError>) {
        cur.read_bool()
    }
}

// ---------------------------------------------------------------------------
// Optional values: a one-byte presence flag, then the payload if present.
// ---------------------------------------------------------------------------

impl<T: SaveData> SaveData for Option<T> {
    open spec fn inv(v: Option<T::V>) -> bool {
        match v {
            Some(x) => T::inv(x),
            None => true,
        }
    }

    open spec fn ser(v: Option<T::V>) -> Seq<u8> {
        match v {
            Some(x) => seq![1u8] + T::ser(x),
            None => seq![0u8],
        }
    }

    open spec fn parse(buf: Seq<u8>, pos: int) -> Result<(Option<T::V>, int), DecodeError> {
        match parse_u8(buf, pos) {
            Ok((flag, p)) => if flag == 0 {
                Ok((None, p))
            } else if flag == 1 {
                match T::parse(buf, p) {
                    Ok((x, q)) => Ok((Some(x), q)),
                    Err(e) => Err(e),
                }
            } else {
                Err(DecodeError::OutOfRange)
            },
            Err(e) => Err(e),
        }
    }

    proof fn lemma_parse_ser(v: Option<T::V>, pre: Seq<u8>, rest: Seq<u8>) {
        let buf = pre + Self::ser(v) + rest;
        match v {
            Some(x) => {
                assert(buf =~= pre + ser_u8(1u8) + (T::ser(x) + rest));
                lemma_parse_ser_u8(1u8, pre, T::ser(x) + rest);
                assert(buf =~= (pre + ser_u8(1u8)) + T::ser(x) + rest);
                T::lemma_parse_ser(x, pre + ser_u8(1u8), rest);
            },
            None => {
                assert(buf =~= pre + ser_u8(0u8) + rest);
                lemma_parse_ser_u8(0u8, pre, rest);
            },
        }
    }

    fn encode(&self, out: &mut Vec<u8>) {
        match self {
            Some(x) => {
                write_u8(out, 1);
                x.encode(out);
                assert(final(out)@ =~= old(out)@ + Self::ser(self.deep_view()));
            },
            None => {
                write_u8(out, 0);
            },
        }
    }

    fn decode(cur: &mut Cursor) -> (r: Result<Option<T>, DecodeError>) {
        let flag = match cur.read_u8() {
            Ok(b) => b,
            Err(e) => {
                return Err(e);
            },
        };
        if flag == 0 {
            Ok(None)
        } else if flag == 1 {
            match T::decode(cur) {
                Ok(x) => Ok(Some(x)),
                Err(e) => Err(e),
            }
        } else {
            Err(DecodeError::OutOfRange)
        }
    }
}

// ---------------------------------------------------------------------------
// Key/value pairs: the two halves back to back, no padding.
// ---------------------------------------------------------------------------

impl<A: SaveData, B: SaveData> SaveData for (A, B) {
    open spec fn inv(v: (A::V, B::V)) -> bool {
        A::inv(v.0) && B::inv(v.1)
    }

    open spec fn ser(v: (A::V, B::V)) -> Seq<u8> {
        A::ser(v.0) + B::ser(v.1)
    }

    open spec fn parse(buf: Seq<u8>, pos: int) -> Result<((A::V, B::V), int), DecodeError> {
        match A::parse(buf, pos) {
            Ok((a, p)) => match B::parse(buf, p) {
                Ok((b, q)) => Ok(((a, b), q)),
                Err(e) => Err(e),
            },
            Err(e) => Err(e),
        }
    }

    proof fn lemma_parse_ser(v: (A::V, B::V), pre: Seq<u8>, rest: Seq<u8>) {
        let buf = pre + Self::ser(v) + rest;
        assert(buf =~= pre + A::ser(v.0) + (B::ser(v.1) + rest));
        A::lemma_parse_ser(v.0, pre, B::ser(v.1) + rest);
        assert(buf =~= (pre + A::ser(v.0)) + B::ser(v.1) + rest);
        B::lemma_parse_ser(v.1, pre + A::ser(v.0), rest);
        assert((v.0, v.1) == v);
    }

    fn encode(&self, out: &mut Vec<u8>) {
        self.0.encode(out);
        self.1.encode(out);
        proof {
            assert(final(out)@ =~= old(out)@ + Self::ser(self.deep_view()));
        }
    }

    fn decode(cur: &mut Cursor) -> (r: Result<(A, B), DecodeError>) {
        let a = match A::decode(cur) {
            Ok(a) => a,
            Err(e) => {
                return Err(e);
            },
        };
        let b = match B::decode(cur) {
            Ok(b) => b,
            Err(e) => {
                return Err(e);
            },
        };
        Ok((a, b))
    }
}

// ---------------------------------------------------------------------------
// Homogeneous sequences: a 32-bit count, then exactly that many elements.
// ---------------------------------------------------------------------------

/// The concatenated serializations of a sequence of entity views.
pub open spec fn ser_elems<T: SaveData>(s: Seq<T::V>) -> Seq<u8>
    decreases s.len(),
{
    if s.len() == 0 {
        Seq::empty()
    } else {
        T::ser(s[0]) + ser_elems::<T>(s.drop_first())
    }
}

/// Parses exactly `n` entities in sequence starting at `pos`.
pub open spec fn parse_elems<T: SaveData>(buf: Seq<u8>, pos: int, n: nat) -> Result<
    (Seq<T::V>, int),
    DecodeError,
>
    decreases n,
{
    if n == 0 {
        Ok((Seq::empty(), pos))
    } else {
        match T::parse(buf, pos) {
            Ok((v, p)) => match parse_elems::<T>(buf, p, (n - 1) as nat) {
                Ok((s, q)) => Ok((seq![v] + s, q)),
                Err(e) => Err(e),
            },
            Err(e) => Err(e),
        }
    }
}

pub open spec fn all_inv<T: SaveData>(s: Seq<T::V>) -> bool {
    forall|i: int| 0 <= i < s.len() ==> T::inv(#[trigger] s[i])
}

/// Appending an element serializes as the old bytes plus the element's.
pub proof fn lemma_ser_elems_push<T: SaveData>(s: Seq<T::V>, x: T::V)
    ensures
        ser_elems::<T>(s.push(x)) == ser_elems::<T>(s) + T::ser(x),
    decreases s.len(),
{
    if s.len() == 0 {
        assert(s.push(x)[0] == x);
        assert(s.push(x).drop_first() =~= Seq::<T::V>::empty());
        assert(ser_elems::<T>(Seq::<T::V>::empty()) == Seq::<u8>::empty());
        assert(ser_elems::<T>(s.push(x)) =~= T::ser(x));
        assert(ser_elems::<T>(s) + T::ser(x) =~= T::ser(x));
    } else {
        assert(s.push(x).drop_first() =~= s.drop_first().push(x));
        lemma_ser_elems_push::<T>(s.drop_first(), x);
        assert(ser_elems::<T>(s.push(x)) =~= ser_elems::<T>(s) + T::ser(x));
    }
}

/// Round trip for the element run of a sequence.
pub proof fn lemma_parse_ser_elems<T: SaveData>(s: Seq<T::V>, pre: Seq<u8>, rest: Seq<u8>)
    requires
        all_inv::<T>(s),
    ensures
        parse_elems::<T>(pre + ser_elems::<T>(s) + rest, pre.len() as int, s.len())
            == Ok::<(Seq<T::V>, int), DecodeError>((
            s,
            (pre.len() + ser_elems::<T>(s).len()) as int,
        )),
    decreases s.len(),
{
    let buf = pre + ser_elems::<T>(s) + rest;
    if s.len() == 0 {
        assert(s =~= Seq::<T::V>::empty());
    } else {
        let v0 = s[0];
        let tail = s.drop_first();
        assert(buf =~= pre + T::ser(v0) + (ser_elems::<T>(tail) + rest));
        T::lemma_parse_ser(v0, pre, ser_elems::<T>(tail) + rest);
        assert(buf =~= (pre + T::ser(v0)) + ser_elems::<T>(tail) + rest);
        assert(all_inv::<T>(tail));
        lemma_parse_ser_elems::<T>(tail, pre + T::ser(v0), rest);
        assert(seq![v0] + tail =~= s);
    }
}

/// Appends the serializations of all the elements, with no count prefix.
#[verifier::loop_isolation(false)]
pub fn encode_run<T: SaveData>(items: &Vec<T>, out: &mut Vec<u8>)
    requires
        all_inv::<T>(items.deep_view()),
    ensures
        final(out)@ == old(out)@ + ser_elems::<T>(items.deep_view()),
{
    let ghost dv = items.deep_view();
    let mut idx: usize = 0;
    while idx < items.len()
        invariant
            idx <= items@.len(),
            out@ == old(out)@ + ser_elems::<T>(dv.take(idx as int)),
        decreases items@.len() - idx,
    {
        proof {
            assert(dv[idx as int] == items@[idx as int].deep_view());
            assert(T::inv(dv[idx as int]));
            lemma_ser_elems_push::<T>(dv.take(idx as int), dv[idx as int]);
            assert(dv.take(idx as int).push(dv[idx as int]) =~= dv.take(idx + 1));
        }
        items[idx].encode(out);
        idx = idx + 1;
    }
    proof {
        assert(dv.take(items@.len() as int) =~= dv);
    }
}

/// Reads exactly `count` elements in sequence; succeeds if and only if the
/// spec-level element run parses, and returns exactly the parsed elements.
#[verifier::loop_isolation(false)]
pub fn decode_run<T: SaveData>(cur: &mut Cursor, count: usize) -> (r: Result<Vec<T>, DecodeError>)
    requires
        old(cur).wf(),
    ensures
        final(cur).wf(),
        final(cur).data() == old(cur).data(),
        match parse_elems::<T>(old(cur).data(), old(cur).pos(), count as nat) {
            Ok((s, q)) => r matches Ok(v) && v.deep_view() == s && all_inv::<T>(s)
                && s.len() == count as nat && final(cur).pos() == q,
            Err(e) => r matches Err(e2) && e2 == e,
        },
{
    let ghost buf = cur.data();
    let ghost all_r = parse_elems::<T>(buf, cur.pos(), count as nat);
    let mut items: Vec<T> = Vec::new();
    let mut i: usize = 0;
    while i < count
        invariant
            i <= count,
            cur.wf(),
            cur.data() == buf,
            items.deep_view().len() == i as nat,
            all_inv::<T>(items.deep_view()),
            match parse_elems::<T>(buf, cur.pos(), (count - i) as nat) {
                Ok((s, q)) => all_r == Ok::<(Seq<T::V>, int), DecodeError>((
                    items.deep_view() + s,
                    q,
                )),
                Err(e) => all_r == Err::<(Seq<T::V>, int), DecodeError>(e),
            },
        decreases count - i,
    {
        let ghost items_pre = items.deep_view();
        let x = match T::decode(cur) {
            Ok(x) => x,
            Err(e) => {
                return Err(e);
            },
        };
        items.push(x);
        i = i + 1;
        proof {
            assert(items.deep_view() =~= items_pre.push(x.deep_view()));
            match parse_elems::<T>(buf, cur.pos(), (count - i) as nat) {
                Ok((s, q)) => {
                    assert(items_pre + (seq![x.deep_view()] + s) =~= items.deep_view() + s);
                },
                Err(_) => {},
            }
        }
    }
    proof {
        assert(parse_elems::<T>(buf, cur.pos(), 0) == Ok::<(Seq<T::V>, int), DecodeError>((
            Seq::empty(),
            cur.pos(),
        )));
        assert(items.deep_view() + Seq::<T::V>::empty() =~= items.deep_view());
    }
    Ok(items)
}

impl<T: SaveData> SaveData for Vec<T> {
    open spec fn inv(s: Seq<T::V>) -> bool {
        s.len() <= u32::MAX && all_inv::<T>(s)
    }

    open spec fn ser(s: Seq<T::V>) -> Seq<u8> {
        ser_u32(s.len() as u32) + ser_elems::<T>(s)
    }

    open spec fn parse(buf: Seq<u8>, pos: int) -> Result<(Seq<T::V>, int), DecodeError> {
        match parse_u32(buf, pos) {
            Ok((n, p)) => parse_elems::<T>(buf, p, n as nat),
            Err(e) => Err(e),
        }
    }

    proof fn lemma_parse_ser(s: Seq<T::V>, pre: Seq<u8>, rest: Seq<u8>) {
        let n = s.len() as u32;
        let buf = pre + Self::ser(s) + rest;
        assert(buf =~= pre + ser_u32(n) + (ser_elems::<T>(s) + rest));
        lemma_parse_ser_u32(n, pre, ser_elems::<T>(s) + rest);
        assert(buf =~= (pre + ser_u32(n)) + ser_elems::<T>(s) + rest);
        lemma_parse_ser_elems::<T>(s, pre + ser_u32(n), rest);
        assert(n as nat == s.len());
    }

    fn encode(&self, out: &mut Vec<u8>) {
        let n = self.len() as u32;
        write_u32(out, n);
        encode_run::<T>(self, out);
        proof {
            assert(final(out)@ =~= old(out)@ + Self::ser(self.deep_view()));
        }
    }

    fn decode(cur: &mut Cursor) -> (r: Result<Vec<T>, DecodeError>) {
        let count = match cur.read_u32() {
            Ok(c) => c,
            Err(e) => {
                return Err(e);
            },
        };
        decode_run::<T>(cur, count as usize)
    }
}

} // verus!

//! Entities shared by every title: length-prefixed strings, GUIDs, and the
//! enumerated fields whose unknown wire values decode to a fallback variant.

use vstd::prelude::*;

use crate::codec::{
    all_inv, decode_run, encode_run, lemma_parse_ser_elems, lemma_ser_elems_push, parse_elems,
    ser_elems, SaveData,
};
use crate::cursor::{
    lemma_parse_ser_i32, parse_i32, ser_i32, write_i32, write_u16, Cursor, DecodeError,
};

verus! {

// ---------------------------------------------------------------------------
// Strings.
//
// On the wire: a 32-bit signed length field.  A positive length means the
// payload is one byte per character; a negative length means its absolute
// value counts 2-byte characters.  Either way the count includes one
// trailing terminator character, which decoding strips.  A zero length is an
// empty string with no payload.
// ---------------------------------------------------------------------------

/// A string of the save format, held as its 16-bit character units.
/// Whether it is stored narrow or wide is re-derived at encode time.
#[derive(Clone, Debug, PartialEq, Eq, Default)]
pub struct SaveString {
    pub units: Vec<u16>,
}

impl DeepView for SaveString {
    type V = Seq<u16>;

    open spec fn deep_view(&self) -> Seq<u16> {
        self.units.deep_view()
    }
}

/// A string can be stored one byte per character exactly when every
/// character is plain ASCII.
pub open spec fn is_narrow(s: Seq<u16>) -> bool {
    forall|i: int| 0 <= i < s.len() ==> #[trigger] s[i] < 0x80
}

pub open spec fn narrow_payload(s: Seq<u16>) -> Seq<u8> {
    s.map_values(|u: u16| u as u8).push(0u8)
}

impl SaveData for SaveString {
    open spec fn inv(s: Seq<u16>) -> bool {
        s.len() + 1 <= i32::MAX
    }

    open spec fn ser(s: Seq<u16>) -> Seq<u8> {
        if is_narrow(s) {
            ser_i32(((s.len() + 1) as int) as i32) + ser_elems::<u8>(narrow_payload(s))
        } else {
            ser_i32((-((s.len() + 1) as int)) as i32) + ser_elems::<u16>(s.push(0u16))
        }
    }

    open spec fn parse(buf: Seq<u8>, pos: int) -> Result<(Seq<u16>, int), DecodeError> {
        match parse_i32(buf, pos) {
            Ok((n, p)) => if n == 0 {
                Ok((Seq::empty(), p))
            } else if n > 0 {
                match parse_elems::<u8>(buf, p, n as nat) {
                    Ok((bytes, q)) => Ok((
                        bytes.take(n - 1).map_values(|b: u8| b as u16),
                        q,
                    )),
                    Err(e) => Err(e),
                }
            } else if n == i32::MIN {
                // A wide count whose magnitude exceeds the length field's own
                // positive range can never be re-encoded; reject it.
                Err(DecodeError::OutOfRange)
            } else {
                match parse_elems::<u16>(buf, p, (-(n as int)) as nat) {
                    Ok((units, q)) => Ok((units.take(-(n as int) - 1), q)),
                    Err(e) => Err(e),
                }
            },
            Err(e) => Err(e),
        }
    }

    proof fn lemma_parse_ser(s: Seq<u16>, pre: Seq<u8>, rest: Seq<u8>) {
        let buf = pre + Self::ser(s) + rest;
        if is_narrow(s) {
            let m = ((s.len() + 1) as int) as i32;
            let payload = narrow_payload(s);
            assert(m == s.len() + 1);
            assert(buf =~= pre + ser_i32(m) + (ser_elems::<u8>(payload) + rest));
            lemma_parse_ser_i32(m, pre, ser_elems::<u8>(payload) + rest);
            assert(buf =~= (pre + ser_i32(m)) + ser_elems::<u8>(payload) + rest);
            assert(all_inv::<u8>(payload));
            lemma_parse_ser_elems::<u8>(payload, pre + ser_i32(m), rest);
            let back = payload.take(m - 1).map_values(|b: u8| b as u16);
            assert(payload.take(m - 1) =~= s.map_values(|u: u16| u as u8));
            assert forall|i: int| 0 <= i < s.len() implies back[i] == s[i] by {
                let u = s[i];
                assert(u < 0x80 ==> (u as u8) as u16 == u) by (bit_vector);
            }
            assert(back =~= s);
        } else {
            let m = (-((s.len() + 1) as int)) as i32;
            let payload = s.push(0u16);
            assert(m == -((s.len() + 1) as int));
            assert(buf =~= pre + ser_i32(m) + (ser_elems::<u16>(payload) + rest));
            lemma_parse_ser_i32(m, pre, ser_elems::<u16>(payload) + rest);
            assert(buf =~= (pre + ser_i32(m)) + ser_elems::<u16>(payload) + rest);
            assert(all_inv::<u16>(payload));
            lemma_parse_ser_elems::<u16>(payload, pre + ser_i32(m), rest);
            assert(payload.take(-(m as int) - 1) =~= s);
        }
    }

    fn encode(&self, out: &mut Vec<u8>) {
        let ghost dv = self.deep_view();
        if units_are_narrow(&self.units) {
            let n = self.units.len() as i32 + 1;
            write_i32(out, n);
            let mut bytes: Vec<u8> = Vec::new();
            let mut i: usize = 0;
            while i < self.units.len()
                invariant
                    i <= self.units@.len(),
                    dv == self.units.deep_view(),
                    bytes.deep_view() == dv.take(i as int).map_values(|u: u16| u as u8),
                decreases self.units@.len() - i,
            {
                let ghost bytes_pre = bytes.deep_view();
                bytes.push(self.units[i] as u8);
                i = i + 1;
                proof {
                    assert(bytes.deep_view() =~= bytes_pre.push(dv[i - 1] as u8));
                    assert(dv.take(i as int).map_values(|u: u16| u as u8) =~= dv.take(
                        i - 1,
                    ).map_values(|u: u16| u as u8).push(dv[i - 1] as u8));
                }
            }
            bytes.push(0u8);
            proof {
                assert(dv.take(dv.len() as int) =~= dv);
                assert(bytes.deep_view() =~= narrow_payload(dv));
                assert(n == ((dv.len() + 1) as int) as i32);
            }
            encode_run::<u8>(&bytes, out);
            proof {
                assert(final(out)@ =~= old(out)@ + Self::ser(dv));
            }
        } else {
            let n = -(self.units.len() as i32 + 1);
            write_i32(out, n);
            encode_run::<u16>(&self.units, out);
            write_u16(out, 0);
            proof {
                lemma_ser_elems_push::<u16>(dv, 0u16);
                assert(n == (-((dv.len() + 1) as int)) as i32);
                assert(final(out)@ =~= old(out)@ + Self::ser(dv));
            }
        }
    }

    fn decode(cur: &mut Cursor) -> (r: Result<SaveString, DecodeError>) {
        let n = match cur.read_i32() {
            Ok(v) => v,
            Err(e) => {
                return Err(e);
            },
        };
        if n == 0 {
            let s = SaveString { units: Vec::new() };
            proof {
                assert(s.deep_view() =~= Seq::<u16>::empty());
            }
            Ok(s)
        } else if n > 0 {
            let bytes = match decode_run::<u8>(cur, n as usize) {
                Ok(b) => b,
                Err(e) => {
                    return Err(e);
                },
            };
            let mut units: Vec<u16> = Vec::new();
            let last = bytes.len() - 1;
            let mut i: usize = 0;
            while i < last
                invariant
                    i <= last,
                    last < bytes@.len(),
                    units.deep_view() == bytes.deep_view().take(i as int).map_values(
                        |b: u8| b as u16,
                    ),
                decreases last - i,
            {
                let ghost units_pre = units.deep_view();
                units.push(bytes[i] as u16);
                i = i + 1;
                proof {
                    assert(units.deep_view() =~= units_pre.push(
                        bytes.deep_view()[i - 1] as u16,
                    ));
                    assert(bytes.deep_view().take(i as int).map_values(|b: u8| b as u16)
                        =~= bytes.deep_view().take(i - 1).map_values(|b: u8| b as u16).push(
                        bytes.deep_view()[i - 1] as u16,
                    ));
                }
            }
            let s = SaveString { units };
            proof {
                assert(s.deep_view() =~= bytes.deep_view().take(n - 1).map_values(
                    |b: u8| b as u16,
                ));
            }
            Ok(s)
        } else if n == i32::MIN {
            Err(DecodeError::OutOfRange)
        } else {
            let count64: i64 = -(n as i64);
            let count: usize = count64 as usize;
            let mut units = match decode_run::<u16>(cur, count) {
                Ok(u) => u,
                Err(e) => {
                    return Err(e);
                },
            };
            let ghost full = units.deep_view();
            units.pop();
            let s = SaveString { units };
            proof {
                assert(s.deep_view() =~= full.take(-(n as int) - 1));
            }
            Ok(s)
        }
    }
}

/// Whether every character of the vector is plain ASCII.
fn units_are_narrow(units: &Vec<u16>) -> (b: bool)
    ensures
        b == is_narrow(units.deep_view()),
{
    let mut i: usize = 0;
    while i < units.len()
        invariant
            i <= units@.len(),
            forall|j: int| 0 <= j < i ==> #[trigger] units.deep_view()[j] < 0x80,
        decreases units@.len() - i,
    {
        if units[i] >= 0x80 {
            proof {
                assert(units.deep_view()[i as int] >= 0x80);
            }
            return false;
        }
        i = i + 1;
    }
    true
}

// ---------------------------------------------------------------------------
// GUIDs: four 32-bit words, no padding.
// ---------------------------------------------------------------------------

#[derive(Clone, Copy, Debug, PartialEq, Eq, Structural, Default)]
pub struct Guid {
    pub part1: u32,
    pub part2: u32,
    pub part3: u32,
    pub part4: u32,
}

impl DeepView for Guid {
    type V = Guid;

    open spec fn deep_view(&self) -> Guid {
        *self
    }
}

impl SaveData for Guid {
    open spec fn inv(v: Guid) -> bool {
        true
    }

    open spec fn ser(v: Guid) -> Seq<u8> {
        u32::ser(v.part1) + u32::ser(v.part2) + u32::ser(v.part3) + u32::ser(v.part4)
    }

    open spec fn parse(buf: Seq<u8>, pos: int) -> Result<(Guid, int), DecodeError> {
        match u32::parse(buf, pos) {
            Ok((p1, a)) => match u32::parse(buf, a) {
                Ok((p2, b)) => match u32::parse(buf, b) {
                    Ok((p3, c)) => match u32::parse(buf, c) {
                        Ok((p4, d)) => Ok((
                            Guid { part1: p1, part2: p2, part3: p3, part4: p4 },
                            d,
                        )),
                        Err(e) => Err(e),
                    },
                    Err(e) => Err(e),
                },
                Err(e) => Err(e),
            },
            Err(e) => Err(e),
        }
    }

    proof fn lemma_parse_ser(v: Guid, pre: Seq<u8>, rest: Seq<u8>) {
        let buf = pre + Self::ser(v) + rest;
        let s1 = u32::ser(v.part1);
        let s2 = u32::ser(v.part2);
        let s3 = u32::ser(v.part3);
        let s4 = u32::ser(v.part4);
        assert(buf =~= pre + s1 + (s2 + s3 + s4 + rest));
        u32::lemma_parse_ser(v.part1, pre, s2 + s3 + s4 + rest);
        assert(buf =~= (pre + s1) + s2 + (s3 + s4 + rest));
        u32::lemma_parse_ser(v.part2, pre + s1, s3 + s4 + rest);
        assert(buf =~= (pre + s1 + s2) + s3 + (s4 + rest));
        u32::lemma_parse_ser(v.part3, pre + s1 + s2, s4 + rest);
        assert(buf =~= (pre + s1 + s2 + s3) + s4 + rest);
        u32::lemma_parse_ser(v.part4, pre + s1 + s2 + s3, rest);
    }

    fn encode(&self, out: &mut Vec<u8>) {
        self.part1.encode(out);
        self.part2.encode(out);
        self.part3.encode(out);
        self.part4.encode(out);
        proof {
            assert(final(out)@ =~= old(out)@ + Self::ser(*self));
        }
    }

    fn decode(cur: &mut Cursor) -> (r: Result<Guid, DecodeError>) {
        let part1 = match u32::decode(cur) {
            Ok(v) => v,
            Err(e) => {
                return Err(e);
            },
        };
        let part2 = match u32::decode(cur) {
            Ok(v) => v,
            Err(e) => {
                return Err(e);
            },
        };
        let part3 = match u32::decode(cur) {
            Ok(v) => v,
            Err(e) => {
                return Err(e);
            },
        };
        let part4 = match u32::decode(cur) {
            Ok(v) => v,
            Err(e) => {
                return Err(e);
            },
        };
        Ok(Guid { part1, part2, part3, part4 })
    }
}

// ---------------------------------------------------------------------------
// Enumerated fields.
//
// Tags travel as 32-bit integers.  A tag outside the known set decodes to the
// first variant as a fallback instead of failing, so files written by newer
// game versions still open; re-encoding such a value writes the fallback's
// own tag.
// ---------------------------------------------------------------------------

/// Character origin. The first variant stands for "not imported" and is the
/// fallback for unknown tags.
#[derive(Clone, Copy, Debug, PartialEq, Eq, Structural)]
pub enum Origin {
    Unset,
    Spacer,
    Colonist,
    Earthborn,
}

impl DeepView for Origin {
    type V = Origin;

    open spec fn deep_view(&self) -> Origin {
        *self
    }
}

impl Origin {
    pub open spec fn tag_spec(self) -> i32 {
        match self {
            Origin::Unset => 0,
            Origin::Spacer => 1,
            Origin::Colonist => 2,
            Origin::Earthborn => 3,
        }
    }

    pub open spec fn of_tag_spec(n: i32) -> Origin {
        if n == 1 {
            Origin::Spacer
        } else if n == 2 {
            Origin::Colonist
        } else if n == 3 {
            Origin::Earthborn
        } else {
            Origin::Unset
        }
    }

    pub fn of_tag(n: i32) -> (r: Origin)
        ensures
            r == Origin::of_tag_spec(n),
    {
        if n == 1 {
            Origin::Spacer
        } else if n == 2 {
            Origin::Colonist
        } else if n == 3 {
            Origin::Earthborn
        } else {
            Origin::Unset
        }
    }

    pub fn tag(&self) -> (r: i32)
        ensures
            r == self.tag_spec(),
    {
        match self {
            Origin::Unset => 0,
            Origin::Spacer => 1,
            Origin::Colonist => 2,
            Origin::Earthborn => 3,
        }
    }
}

impl SaveData for Origin {
    open spec fn inv(v: Origin) -> bool {
        true
    }

    open spec fn ser(v: Origin) -> Seq<u8> {
        ser_i32(v.tag_spec())
    }

    open spec fn parse(buf: Seq<u8>, pos: int) -> Result<(Origin, int), DecodeError> {
        match parse_i32(buf, pos) {
            Ok((n, p)) => Ok((Origin::of_tag_spec(n), p)),
            Err(e) => Err(e),
        }
    }

    proof fn lemma_parse_ser(v: Origin, pre: Seq<u8>, rest: Seq<u8>) {
        lemma_parse_ser_i32(v.tag_spec(), pre, rest);
    }

    fn encode(&self, out: &mut Vec<u8>) {
        write_i32(out, self.tag());
    }

    fn decode(cur: &mut Cursor) -> (r: Result<Origin, DecodeError>) {
        match cur.read_i32() {
            Ok(n) => Ok(Origin::of_tag(n)),
            Err(e) => Err(e),
        }
    }
}

/// Character notoriety. The first variant is the fallback for unknown tags.
#[derive(Clone, Copy, Debug, PartialEq, Eq, Structural)]
pub enum Notoriety {
    Unset,
    Survivor,
    Warhero,
    Ruthless,
}

impl DeepView for Notoriety {
    type V = Notoriety;

    open spec fn deep_view(&self) -> Notoriety {
        *self
    }
}

impl Notoriety {
    pub open spec fn tag_spec(self) -> i32 {
        match self {
            Notoriety::Unset => 0,
            Notoriety::Survivor => 1,
            Notoriety::Warhero => 2,
            Notoriety::Ruthless => 3,
        }
    }

    pub open spec fn of_tag_spec(n: i32) -> Notoriety {
        if n == 1 {
            Notoriety::Survivor
        } else if n == 2 {
            Notoriety::Warhero
        } else if n == 3 {
            Notoriety::Ruthless
        } else {
            Notoriety::Unset
        }
    }

    pub fn of_tag(n: i32) -> (r: Notoriety)
        ensures
            r == Notoriety::of_tag_spec(n),
    {
        if n == 1 {
            Notoriety::Survivor
        } else if n == 2 {
            Notoriety::Warhero
        } else if n == 3 {
            Notoriety::Ruthless
        } else {
            Notoriety::Unset
        }
    }

    pub fn tag(&self) -> (r: i32)
        ensures
            r == self.tag_spec(),
    {
        match self {
            Notoriety::Unset => 0,
            Notoriety::Survivor => 1,
            Notoriety::Warhero => 2,
            Notoriety::Ruthless => 3,
        }
    }
}

impl SaveData for Notoriety {
    open spec fn inv(v: Notoriety) -> bool {
        true
    }

    open spec fn ser(v: Notoriety) -> Seq<u8> {
        ser_i32(v.tag_spec())
    }

    open spec fn parse(buf: Seq<u8>, pos: int) -> Result<(Notoriety, int), DecodeError> {
        match parse_i32(buf, pos) {
            Ok((n, p)) => Ok((Notoriety::of_tag_spec(n), p)),
            Err(e) => Err(e),
        }
    }

    proof fn lemma_parse_ser(v: Notoriety, pre: Seq<u8>, rest: Seq<u8>) {
        lemma_parse_ser_i32(v.tag_spec(), pre, rest);
    }

    fn encode(&self, out: &mut Vec<u8>) {
        write_i32(out, self.tag());
    }

    fn decode(cur: &mut Cursor) -> (r: Result<Notoriety, DecodeError>) {
        match cur.read_i32() {
            Ok(n) => Ok(Notoriety::of_tag(n)),
            Err(e) => Err(e),
        }
    }
}

/// How the previous game ended. The first variant is the fallback for
/// unknown tags.
#[derive(Clone, Copy, Debug, PartialEq, Eq, Structural)]
pub enum EndGameState {
    NotFinished,
    OutInABlazeOfGlory,
    LivedToFightAgain,
}

impl DeepView for EndGameState {
    type V = EndGameState;

    open spec fn deep_view(&self) -> EndGameState {
        *self
    }
}

impl EndGameState {
    pub open spec fn tag_spec(self) -> i32 {
        match self {
            EndGameState::NotFinished => 0,
            EndGameState::OutInABlazeOfGlory => 1,
            EndGameState::LivedToFightAgain => 2,
        }
    }

    pub open spec fn of_tag_spec(n: i32) -> EndGameState {
        if n == 1 {
            EndGameState::OutInABlazeOfGlory
        } else if n == 2 {
            EndGameState::LivedToFightAgain
        } else {
            EndGameState::NotFinished
        }
    }

    pub fn of_tag(n: i32) -> (r: EndGameState)
        ensures
            r == EndGameState::of_tag_spec(n),
    {
        if n == 1 {
            EndGameState::OutInABlazeOfGlory
        } else if n == 2 {
            EndGameState::LivedToFightAgain
        } else {
            EndGameState::NotFinished
        }
    }

    pub fn tag(&self) -> (r: i32)
        ensures
            r == self.tag_spec(),
    {
        match self {
            EndGameState::NotFinished => 0,
            EndGameState::OutInABlazeOfGlory => 1,
            EndGameState::LivedToFightAgain => 2,
        }
    }
}

impl SaveData for EndGameState {
    open spec fn inv(v: EndGameState) -> bool {
        true
    }

    open spec fn ser(v: EndGameState) -> Seq<u8> {
        ser_i32(v.tag_spec())
    }

    open spec fn parse(buf: Seq<u8>, pos: int) -> Result<(EndGameState, int), DecodeError> {
        match parse_i32(buf, pos) {
            Ok((n, p)) => Ok((EndGameState::of_tag_spec(n), p)),
            Err(e) => Err(e),
        }
    }

    proof fn lemma_parse_ser(v: EndGameState, pre: Seq<u8>, rest: Seq<u8>) {
        lemma_parse_ser_i32(v.tag_spec(), pre, rest);
    }

    fn encode(&self, out: &mut Vec<u8>) {
        write_i32(out, self.tag());
    }

    fn decode(cur: &mut Cursor) -> (r: Result<EndGameState, DecodeError>) {
        match cur.read_i32() {
            Ok(n) => Ok(EndGameState::of_tag(n)),
            Err(e) => Err(e),
        }
    }
}

} // verus!

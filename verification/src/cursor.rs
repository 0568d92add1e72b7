//! Forward-only byte reader over an in-memory buffer, plus the primitive
//! little-endian encodings shared by every save entity.
//!
//! The byte-level wire format is fixed here once: each `ser_*` spec function
//! gives the exact bytes a primitive serializes to, each `parse_*` spec
//! function gives the exact outcome of reading one from a buffer position,
//! and the executable reads and writes are proved against them.

use vstd::prelude::*;

verus! {

/// Why a decode failed: the buffer ended before the value, or a byte held a
/// value outside the primitive's valid numeric range.
#[derive(Clone, Copy, Debug, PartialEq, Eq, Structural)]
pub enum DecodeError {
    UnexpectedEof,
    OutOfRange,
}

// ---------------------------------------------------------------------------
// Serialized forms of the primitives (little-endian).
// ---------------------------------------------------------------------------

pub open spec fn ser_u8(v: u8) -> Seq<u8> {
    seq![v]
}

pub open spec fn ser_u16(v: u16) -> Seq<u8> {
    seq![(v & 0xff) as u8, ((v >> 8) & 0xff) as u8]
}

pub open spec fn ser_u32(v: u32) -> Seq<u8> {
    seq![
        (v & 0xff) as u8,
        ((v >> 8) & 0xff) as u8,
        ((v >> 16) & 0xff) as u8,
        ((v >> 24) & 0xff) as u8,
    ]
}

pub open spec fn ser_i32(v: i32) -> Seq<u8> {
    ser_u32(v as u32)
}

/// A boolean is one byte on the wire: zero or one.
pub open spec fn ser_bool(v: bool) -> Seq<u8> {
    if v {
        seq![1u8]
    } else {
        seq![0u8]
    }
}

pub open spec fn u16_of_le(b0: u8, b1: u8) -> u16 {
    (b0 as u16) | ((b1 as u16) << 8)
}

pub open spec fn u32_of_le(b0: u8, b1: u8, b2: u8, b3: u8) -> u32 {
    (b0 as u32) | ((b1 as u32) << 8) | ((b2 as u32) << 16) | ((b3 as u32) << 24)
}

// ---------------------------------------------------------------------------
// Parsing the primitives from a buffer position.
// ---------------------------------------------------------------------------

pub open spec fn parse_u8(buf: Seq<u8>, pos: int) -> Result<(u8, int), DecodeError> {
    if 0 <= pos && pos + 1 <= buf.len() {
        Ok((buf[pos], pos + 1))
    } else {
        Err(DecodeError::UnexpectedEof)
    }
}

pub open spec fn parse_u16(buf: Seq<u8>, pos: int) -> Result<(u16, int), DecodeError> {
    if 0 <= pos && pos + 2 <= buf.len() {
        Ok((u16_of_le(buf[pos], buf[pos + 1]), pos + 2))
    } else {
        Err(DecodeError::UnexpectedEof)
    }
}

pub open spec fn parse_u32(buf: Seq<u8>, pos: int) -> Result<(u32, int), DecodeError> {
    if 0 <= pos && pos + 4 <= buf.len() {
        Ok((u32_of_le(buf[pos], buf[pos + 1], buf[pos + 2], buf[pos + 3]), pos + 4))
    } else {
        Err(DecodeError::UnexpectedEof)
    }
}

pub open spec fn parse_i32(buf: Seq<u8>, pos: int) -> Result<(i32, int), DecodeError> {
    match parse_u32(buf, pos) {
        Ok((v, p)) => Ok((v as i32, p)),
        Err(e) => Err(e),
    }
}

/// A boolean byte outside {0, 1} is a range error, not a tolerated tag.
pub open spec fn parse_bool(buf: Seq<u8>, pos: int) -> Result<(bool, int), DecodeError> {
    match parse_u8(buf, pos) {
        Ok((b, p)) => if b == 0 {
            Ok((false, p))
        } else if b == 1 {
            Ok((true, p))
        } else {
            Err(DecodeError::OutOfRange)
        },
        Err(e) => Err(e),
    }
}

// ---------------------------------------------------------------------------
// Round trips: parsing a primitive's own serialization yields it back.
// ---------------------------------------------------------------------------

pub proof fn lemma_parse_ser_u8(v: u8, pre: Seq<u8>, rest: Seq<u8>)
    ensures
        parse_u8(pre + ser_u8(v) + rest, pre.len() as int)
            == Ok::<(u8, int), DecodeError>((v, pre.len() + 1 as int)),
{
    let buf = pre + ser_u8(v) + rest;
    assert(buf[pre.len() as int] == v);
}

pub proof fn lemma_parse_ser_u16(v: u16, pre: Seq<u8>, rest: Seq<u8>)
    ensures
        parse_u16(pre + ser_u16(v) + rest, pre.len() as int)
            == Ok::<(u16, int), DecodeError>((v, pre.len() + 2 as int)),
{
    let buf = pre + ser_u16(v) + rest;
    let p = pre.len() as int;
    assert(buf[p] == (v & 0xff) as u8);
    assert(buf[p + 1] == ((v >> 8) & 0xff) as u8);
    assert(u16_of_le((v & 0xff) as u8, ((v >> 8) & 0xff) as u8) == v) by (bit_vector);
}

pub proof fn lemma_parse_ser_u32(v: u32, pre: Seq<u8>, rest: Seq<u8>)
    ensures
        parse_u32(pre + ser_u32(v) + rest, pre.len() as int)
            == Ok::<(u32, int), DecodeError>((v, pre.len() + 4 as int)),
{
    let buf = pre + ser_u32(v) + rest;
    let p = pre.len() as int;
    assert(buf[p] == (v & 0xff) as u8);
    assert(buf[p + 1] == ((v >> 8) & 0xff) as u8);
    assert(buf[p + 2] == ((v >> 16) & 0xff) as u8);
    assert(buf[p + 3] == ((v >> 24) & 0xff) as u8);
    assert(u32_of_le(
        (v & 0xff) as u8,
        ((v >> 8) & 0xff) as u8,
        ((v >> 16) & 0xff) as u8,
        ((v >> 24) & 0xff) as u8,
    ) == v) by (bit_vector);
}

pub proof fn lemma_parse_ser_i32(v: i32, pre: Seq<u8>, rest: Seq<u8>)
    ensures
        parse_i32(pre + ser_i32(v) + rest, pre.len() as int)
            == Ok::<(i32, int), DecodeError>((v, pre.len() + 4 as int)),
{
    lemma_parse_ser_u32(v as u32, pre, rest);
    assert((v as u32) as i32 == v) by (bit_vector);
}

pub proof fn lemma_parse_ser_bool(v: bool, pre: Seq<u8>, rest: Seq<u8>)
    ensures
        parse_bool(pre + ser_bool(v) + rest, pre.len() as int)
            == Ok::<(bool, int), DecodeError>((v, pre.len() + 1 as int)),
{
    let buf = pre + ser_bool(v) + rest;
    assert(buf[pre.len() as int] == if v { 1u8 } else { 0u8 });
}

// ---------------------------------------------------------------------------
// The cursor.
// ---------------------------------------------------------------------------

/// Owns the whole file buffer and a single read offset.
///
/// Invariant: the offset never exceeds the buffer length; every primitive
/// read advances it by exactly the primitive's width, or fails without
/// reading past the end.
pub struct Cursor {
    buf: Vec<u8>,
    ofs: usize,
}

impl Cursor {
    /// The whole underlying buffer; reads never change it.
    pub closed spec fn data(&self) -> Seq<u8> {
        self.buf@
    }

    /// The current read offset.
    pub closed spec fn pos(&self) -> int {
        self.ofs as int
    }

    pub open spec fn wf(&self) -> bool {
        self.pos() <= self.data().len()
    }

    pub fn new(data: Vec<u8>) -> (c: Cursor)
        ensures
            c.data() == data@,
            c.pos() == 0,
            c.wf(),
    {
        Cursor { buf: data, ofs: 0 }
    }

    /// How many bytes remain to be read.
    pub fn remaining(&self) -> (n: usize)
        requires
            self.wf(),
        ensures
            n == self.data().len() - self.pos(),
    {
        self.buf.len() - self.ofs
    }

    /// Whether the whole buffer has been consumed.
    pub fn at_end(&self) -> (b: bool)
        requires
            self.wf(),
        ensures
            b == (self.pos() == self.data().len()),
    {
        self.ofs == self.buf.len()
    }

    pub fn read_u8(&mut self) -> (r: Result<u8, DecodeError>)
        requires
            old(self).wf(),
        ensures
            final(self).wf(),
            final(self).data() == old(self).data(),
            match parse_u8(old(self).data(), old(self).pos()) {
                Ok((v, p)) => r == Ok::<u8, DecodeError>(v) && final(self).pos() == p,
                Err(e) => r == Err::<u8, DecodeError>(e) && final(self).pos() == old(self).pos(),
            },
    {
        if self.buf.len() - self.ofs >= 1 {
            let b = self.buf[self.ofs];
            self.ofs = self.ofs + 1;
            Ok(b)
        } else {
            Err(DecodeError::UnexpectedEof)
        }
    }

    pub fn read_u16(&mut self) -> (r: Result<u16, DecodeError>)
        requires
            old(self).wf(),
        ensures
            final(self).wf(),
            final(self).data() == old(self).data(),
            match parse_u16(old(self).data(), old(self).pos()) {
                Ok((v, p)) => r == Ok::<u16, DecodeError>(v) && final(self).pos() == p,
                Err(e) => r == Err::<u16, DecodeError>(e) && final(self).pos() == old(self).pos(),
            },
    {
        if self.buf.len() - self.ofs >= 2 {
            let b0 = self.buf[self.ofs];
            let b1 = self.buf[self.ofs + 1];
            self.ofs = self.ofs + 2;
            Ok((b0 as u16) | ((b1 as u16) << 8))
        } else {
            Err(DecodeError::UnexpectedEof)
        }
    }

    pub fn read_u32(&mut self) -> (r: Result<u32, DecodeError>)
        requires
            old(self).wf(),
        ensures
            final(self).wf(),
            final(self).data() == old(self).data(),
            match parse_u32(old(self).data(), old(self).pos()) {
                Ok((v, p)) => r == Ok::<u32, DecodeError>(v) && final(self).pos() == p,
                Err(e) => r == Err::<u32, DecodeError>(e) && final(self).pos() == old(self).pos(),
            },
    {
        if self.buf.len() - self.ofs >= 4 {
            let b0 = self.buf[self.ofs];
            let b1 = self.buf[self.ofs + 1];
            let b2 = self.buf[self.ofs + 2];
            let b3 = self.buf[self.ofs + 3];
            self.ofs = self.ofs + 4;
            Ok((b0 as u32) | ((b1 as u32) << 8) | ((b2 as u32) << 16) | ((b3 as u32) << 24))
        } else {
            Err(DecodeError::UnexpectedEof)
        }
    }

    pub fn read_i32(&mut self) -> (r: Result<i32, DecodeError>)
        requires
            old(self).wf(),
        ensures
            final(self).wf(),
            final(self).data() == old(self).data(),
            match parse_i32(old(self).data(), old(self).pos()) {
                Ok((v, p)) => r == Ok::<i32, DecodeError>(v) && final(self).pos() == p,
                Err(e) => r == Err::<i32, DecodeError>(e) && final(self).pos() == old(self).pos(),
            },
    {
        match self.read_u32() {
            Ok(v) => Ok(v as i32),
            Err(e) => Err(e),
        }
    }

    pub fn read_bool(&mut self) -> (r: Result<bool, DecodeError>)
        requires
            old(self).wf(),
        ensures
            final(self).wf(),
            final(self).data() == old(self).data(),
            match parse_bool(old(self).data(), old(self).pos()) {
                Ok((v, p)) => r == Ok::<bool, DecodeError>(v) && final(self).pos() == p,
                Err(e) => r matches Err(e2) && e2 == e,
            },
    {
        match self.read_u8() {
            Ok(b) => if b == 0 {
                Ok(false)
            } else if b == 1 {
                Ok(true)
            } else {
                Err(DecodeError::OutOfRange)
            },
            Err(e) => Err(e),
        }
    }
}

// ---------------------------------------------------------------------------
// Writing: appends to a growable output buffer and cannot fail.
// ---------------------------------------------------------------------------

pub fn write_u8(out: &mut Vec<u8>, v: u8)
    ensures
        final(out)@ == old(out)@ + ser_u8(v),
{
    out.push(v);
    assert(out@ =~= old(out)@ + ser_u8(v));
}

pub fn write_u16(out: &mut Vec<u8>, v: u16)
    ensures
        final(out)@ == old(out)@ + ser_u16(v),
{
    out.push((v & 0xff) as u8);
    out.push(((v >> 8) & 0xff) as u8);
    assert(out@ =~= old(out)@ + ser_u16(v));
}

pub fn write_u32(out: &mut Vec<u8>, v: u32)
    ensures
        final(out)@ == old(out)@ + ser_u32(v),
{
    out.push((v & 0xff) as u8);
    out.push(((v >> 8) & 0xff) as u8);
    out.push(((v >> 16) & 0xff) as u8);
    out.push(((v >> 24) & 0xff) as u8);
    assert(out@ =~= old(out)@ + ser_u32(v));
}

pub fn write_i32(out: &mut Vec<u8>, v: i32)
    ensures
        final(out)@ == old(out)@ + ser_i32(v),
{
    write_u32(out, v as u32);
}

pub fn write_bool(out: &mut Vec<u8>, v: bool)
    ensures
        final(out)@ == old(out)@ + ser_bool(v),
{
    if v {
        write_u8(out, 1);
    } else {
        write_u8(out, 0);
    }
}

} // verus!

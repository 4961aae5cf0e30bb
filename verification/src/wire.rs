//! Little-endian wire primitives: what a run of bytes at an offset reads as,
//! count-prefixed repetition, and a cursor that reads them in order.

use vstd::bytes::{
    spec_u16_from_le_bytes, spec_u32_from_le_bytes, spec_u64_from_le_bytes, u16_from_le_bytes,
    u32_from_le_bytes, u64_from_le_bytes,
};
use vstd::prelude::*;
use vstd::slice::slice_subrange;

use crate::error::QtmError;

verus! {

/// The little-endian `u16` at offset `o`.
pub open spec fn le_u16(s: Seq<u8>, o: int) -> u16 {
    spec_u16_from_le_bytes(s.subrange(o, o + 2))
}

/// The little-endian `i16` at offset `o` (two's complement).
pub open spec fn le_i16(s: Seq<u8>, o: int) -> i16 {
    le_u16(s, o) as i16
}

/// The little-endian `u32` at offset `o`.
pub open spec fn le_u32(s: Seq<u8>, o: int) -> u32 {
    spec_u32_from_le_bytes(s.subrange(o, o + 4))
}

/// The little-endian `i32` at offset `o` (two's complement).
pub open spec fn le_i32(s: Seq<u8>, o: int) -> i32 {
    le_u32(s, o) as i32
}

/// The little-endian `u64` at offset `o`.
pub open spec fn le_u64(s: Seq<u8>, o: int) -> u64 {
    spec_u64_from_le_bytes(s.subrange(o, o + 8))
}

/// Whether `n` bytes starting at offset `o` lie inside `s`.
pub open spec fn fits(s: Seq<u8>, o: int, n: int) -> bool {
    0 <= o && o + n <= s.len()
}

/// A reader: what the bytes at an offset read as, with the offset after
/// them, or `None` when they do not read as one.
pub type Read<T> = Option<(T, int)>;

pub open spec fn rd_u8(s: Seq<u8>, o: int) -> Read<u8> {
    if fits(s, o, 1) { Some((s[o], o + 1)) } else { None }
}

pub open spec fn rd_i16(s: Seq<u8>, o: int) -> Read<i16> {
    if fits(s, o, 2) { Some((le_i16(s, o), o + 2)) } else { None }
}

pub open spec fn rd_u32(s: Seq<u8>, o: int) -> Read<u32> {
    if fits(s, o, 4) { Some((le_u32(s, o), o + 4)) } else { None }
}

pub open spec fn rd_i32(s: Seq<u8>, o: int) -> Read<i32> {
    if fits(s, o, 4) { Some((le_i32(s, o), o + 4)) } else { None }
}

pub open spec fn rd_u64(s: Seq<u8>, o: int) -> Read<u64> {
    if fits(s, o, 8) { Some((le_u64(s, o), o + 8)) } else { None }
}

/// `n` bytes taken as they are.
pub open spec fn rd_bytes(s: Seq<u8>, o: int, n: int) -> Read<Seq<u8>> {
    if 0 <= n && fits(s, o, n) { Some((s.subrange(o, o + n), o + n)) } else { None }
}

/// `n` items read one after the other with `item`, starting at offset `o`.
pub open spec fn repeat<T>(
    s: Seq<u8>,
    o: int,
    n: nat,
    item: spec_fn(Seq<u8>, int) -> Read<T>,
) -> Read<Seq<T>>
    decreases n,
{
    if n == 0 {
        Some((Seq::empty(), o))
    } else {
        match repeat(s, o, (n - 1) as nat, item) {
            Some((xs, o1)) => match item(s, o1) {
                Some((x, o2)) => Some((xs.push(x), o2)),
                None => None,
            },
            None => None,
        }
    }
}

/// Once a prefix of the repetition fails, the whole repetition fails.
pub proof fn lemma_repeat_fails<T>(
    s: Seq<u8>,
    o: int,
    i: nat,
    n: nat,
    item: spec_fn(Seq<u8>, int) -> Read<T>,
)
    requires
        i <= n,
        repeat(s, o, i, item) is None,
    ensures
        repeat(s, o, n, item) is None,
    decreases n - i,
{
    if i < n {
        lemma_repeat_fails(s, o, i + 1, n, item);
    }
}

/// One more step of a repetition that has gone well so far.
pub proof fn lemma_repeat_step<T>(
    s: Seq<u8>,
    o: int,
    i: nat,
    item: spec_fn(Seq<u8>, int) -> Read<T>,
    xs: Seq<T>,
    o1: int,
)
    requires
        repeat(s, o, i, item) == Some((xs, o1)),
    ensures
        repeat(s, o, i + 1, item) == match item(s, o1) {
            Some((x, o2)) => Some((xs.push(x), o2)),
            None => None::<(Seq<T>, int)>,
        },
{
    assert(((i + 1) as nat - 1) as nat == i);
}

/// Whether an exec result agrees with a reader: `Ok` exactly when the reader
/// reads a value, that value (by its view) with the cursor left right
/// after it, and an `InvalidPacket` error when it does not read.
pub open spec fn reads<T: View>(expected: Read<T::V>, r: Result<T, QtmError>, end: int) -> bool {
    match r {
        Ok(v) => expected == Some((v@, end)),
        Err(e) => expected is None && e is InvalidPacket,
    }
}

/// A position in a byte buffer, read forward.
pub struct Cursor<'a> {
    pub bytes: &'a [u8],
    pub offset: usize,
}

impl<'a> Cursor<'a> {
    /// The cursor's bytes.
    pub open spec fn data(&self) -> Seq<u8> {
        self.bytes@
    }

    /// The offset stays within the bytes.
    pub open spec fn wf(&self) -> bool {
        self.offset <= self.bytes@.len()
    }

    pub fn new(bytes: &'a [u8]) -> (c: Self)
        ensures
            c.data() == bytes@,
            c.offset == 0,
            c.wf(),
    {
        Cursor { bytes, offset: 0 }
    }

    /// The next `len` bytes; on failure the cursor does not move.
    pub fn take(&mut self, len: usize) -> (r: Result<&'a [u8], QtmError>)
        requires
            old(self).wf(),
        ensures
            final(self).wf(),
            final(self).data() == old(self).data(),
            match r {
                Ok(b) => rd_bytes(old(self).data(), old(self).offset as int, len as int) == Some(
                    (b@, final(self).offset as int),
                ),
                Err(e) => rd_bytes(old(self).data(), old(self).offset as int, len as int) is None
                    && e is InvalidPacket && final(self).offset == old(self).offset,
            },
    {
        if len > self.bytes.len() - self.offset {
            return Err(QtmError::invalid_packet("packet truncated"));
        }
        let end = self.offset + len;
        let slice = slice_subrange(self.bytes, self.offset, end);
        self.offset = end;
        Ok(slice)
    }

    pub fn read_u8(&mut self) -> (r: Result<u8, QtmError>)
        requires
            old(self).wf(),
        ensures
            final(self).wf(),
            final(self).data() == old(self).data(),
            reads(rd_u8(old(self).data(), old(self).offset as int), r, final(self).offset as int),
    {
        let b = self.take(1)?;
        Ok(b[0])
    }

    pub fn read_i16(&mut self) -> (r: Result<i16, QtmError>)
        requires
            old(self).wf(),
        ensures
            final(self).wf(),
            final(self).data() == old(self).data(),
            reads(rd_i16(old(self).data(), old(self).offset as int), r, final(self).offset as int),
    {
        let b = self.take(2)?;
        Ok(u16_from_le_bytes(b) as i16)
    }

    pub fn read_u32(&mut self) -> (r: Result<u32, QtmError>)
        requires
            old(self).wf(),
        ensures
            final(self).wf(),
            final(self).data() == old(self).data(),
            reads(rd_u32(old(self).data(), old(self).offset as int), r, final(self).offset as int),
    {
        let b = self.take(4)?;
        Ok(u32_from_le_bytes(b))
    }

    pub fn read_i32(&mut self) -> (r: Result<i32, QtmError>)
        requires
            old(self).wf(),
        ensures
            final(self).wf(),
            final(self).data() == old(self).data(),
            reads(rd_i32(old(self).data(), old(self).offset as int), r, final(self).offset as int),
    {
        let b = self.take(4)?;
        Ok(u32_from_le_bytes(b) as i32)
    }

    pub fn read_u64(&mut self) -> (r: Result<u64, QtmError>)
        requires
            old(self).wf(),
        ensures
            final(self).wf(),
            final(self).data() == old(self).data(),
            reads(rd_u64(old(self).data(), old(self).offset as int), r, final(self).offset as int),
    {
        let b = self.take(8)?;
        Ok(u64_from_le_bytes(b))
    }

    /// `Ok` exactly when every byte has been read.
    pub fn expect_exhausted(&self, context: &str) -> (r: Result<(), QtmError>)
        requires
            self.wf(),
        ensures
            r is Ok <==> self.offset == self.data().len(),
            r matches Err(e) ==> e is InvalidPacket,
    {
        if self.offset == self.bytes.len() {
            return Ok(());
        }
        let mut message = context.to_owned();
        crate::text::push_str(&mut message, " left ");
        crate::text::push_decimal(&mut message, (self.bytes.len() - self.offset) as u128);
        crate::text::push_str(&mut message, " unread bytes");
        Err(QtmError::InvalidPacket(message))
    }
}

/// A count read from the wire as a length: negative counts are refused.
pub fn to_usize_non_negative(value: i32) -> (r: Result<usize, QtmError>)
    ensures
        value >= 0 ==> r == Ok::<usize, QtmError>(value as usize),
        value < 0 ==> (r matches Err(e) && e is InvalidPacket),
{
    if value < 0 {
        return Err(QtmError::invalid_packet("negative count encountered"));
    }
    Ok(value as usize)
}

/// A `u32` count as a length (every `u32` fits a `usize` here).
pub fn to_usize(value: u32) -> (r: usize)
    ensures
        r == value,
{
    value as usize
}

} // verus!

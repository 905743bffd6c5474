//! A received frame as a region of bytes, and reads from it that never pass
//! its end.

use vstd::prelude::*;
use vstd::slice::slice_subrange;

verus! {

/// The 16-bit value that two bytes at `at` hold in network byte order.
pub open spec fn be16(bytes: Seq<u8>, at: int) -> u16 {
    (bytes[at] as int * 256 + bytes[at + 1] as int) as u16
}

/// The 32-bit value that four bytes at `at` hold in network byte order.
pub open spec fn be32(bytes: Seq<u8>, at: int) -> u32 {
    (((bytes[at] as int * 256 + bytes[at + 1] as int) * 256 + bytes[at + 2] as int) * 256
        + bytes[at + 3] as int) as u32
}

/// Whether `width` bytes at `offset` lie inside a frame of `len` bytes.
pub open spec fn in_bounds(len: nat, offset: int, width: int) -> bool {
    0 <= offset && 0 <= width && offset + width <= len
}

/// Reading outside the frame.
#[derive(Debug, Clone, Copy, PartialEq, Eq)]
pub struct BoundsViolation;

/// One received frame: the bytes from its start to its end. Nothing is read
/// from it before the read has been held against the frame's end.
#[derive(Debug, Clone, Copy)]
pub struct PacketView<'a> {
    data: &'a [u8],
}

impl<'a> View for PacketView<'a> {
    type V = Seq<u8>;

    closed spec fn view(&self) -> Seq<u8> {
        self.data@
    }
}

impl<'a> PacketView<'a> {
    /// A view of the whole of `data`.
    pub fn new(data: &'a [u8]) -> (packet: Self)
        ensures
            packet@ == data@,
    {
        PacketView { data }
    }

    /// The frame's length in bytes.
    pub fn len(&self) -> (len: usize)
        ensures
            len == self@.len(),
    {
        self.data.len()
    }

    /// The `len` bytes at `offset`, if all of them lie inside the frame.
    pub fn ptr_at(&self, offset: usize, len: usize) -> (window: Result<&'a [u8], BoundsViolation>)
        ensures
            window is Ok <==> in_bounds(self@.len(), offset as int, len as int),
            window matches Ok(bytes) ==> bytes@ == self@.subrange(
                offset as int,
                offset as int + len as int,
            ),
    {
        let total = self.data.len();
        if offset > total || len > total - offset {
            return Err(BoundsViolation);
        }
        Ok(slice_subrange(self.data, offset, offset + len))
    }

    /// The byte at `offset`.
    pub fn read_u8(&self, offset: usize) -> (value: Result<u8, BoundsViolation>)
        ensures
            value is Ok <==> in_bounds(self@.len(), offset as int, 1),
            value matches Ok(byte) ==> byte == self@[offset as int],
    {
        let window = self.ptr_at(offset, 1)?;
        Ok(window[0])
    }

    /// The 16-bit field at `offset`, converted from network byte order.
    pub fn read_be16(&self, offset: usize) -> (value: Result<u16, BoundsViolation>)
        ensures
            value is Ok <==> in_bounds(self@.len(), offset as int, 2),
            value matches Ok(field) ==> field == be16(self@, offset as int),
    {
        let window = self.ptr_at(offset, 2)?;
        Ok(u16_from_be(window[0], window[1]))
    }

    /// The 32-bit field at `offset`, converted from network byte order.
    pub fn read_be32(&self, offset: usize) -> (value: Result<u32, BoundsViolation>)
        ensures
            value is Ok <==> in_bounds(self@.len(), offset as int, 4),
            value matches Ok(field) ==> field == be32(self@, offset as int),
    {
        let window = self.ptr_at(offset, 4)?;
        Ok(u32_from_be(window[0], window[1], window[2], window[3]))
    }
}

/// The 16-bit value whose high byte is `hi` and whose low byte is `lo`.
pub fn u16_from_be(hi: u8, lo: u8) -> (value: u16)
    ensures
        value == hi as int * 256 + lo as int,
{
    (hi as u16) * 256 + (lo as u16)
}

/// The 32-bit value of four bytes, the most significant first.
pub fn u32_from_be(b0: u8, b1: u8, b2: u8, b3: u8) -> (value: u32)
    ensures
        value == ((b0 as int * 256 + b1 as int) * 256 + b2 as int) * 256 + b3 as int,
{
    (((b0 as u32) * 256 + (b1 as u32)) * 256 + (b2 as u32)) * 256 + (b3 as u32)
}

} // verus!

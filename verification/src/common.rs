//! One guest access to a device's register window.

use crate::bytes::{le_bytes, le_value, push_le, read_le, zeroed, zeros};
use vstd::prelude::*;

verus! {

/// A read: its offset in the window, and the bytes handed back to the guest.
/// The number of bytes is the width of the read.
pub struct ReadOp {
    pub offset: usize,
    pub data: Vec<u8>,
}

/// A write: its offset in the window, and the bytes that the guest stores.
pub struct WriteOp {
    pub offset: usize,
    pub data: Vec<u8>,
}

/// A read or a write.
pub enum RWOp {
    Read(ReadOp),
    Write(WriteOp),
}

impl ReadOp {
    /// A read of `len` bytes at `offset`, with nothing handed back yet.
    pub fn new(offset: usize, len: usize) -> (op: ReadOp)
        ensures
            op.offset == offset,
            op.data@ == zeros(len as nat),
    {
        ReadOp { offset, data: zeroed(len) }
    }

    /// The width of the read.
    pub fn len(&self) -> (n: usize)
        ensures
            n == self.data@.len(),
    {
        self.data.len()
    }

    /// Hands back zero bytes.
    pub fn fill_zero(&mut self)
        ensures
            final(self).offset == old(self).offset,
            final(self).data@ == zeros(old(self).data@.len()),
    {
        let n: usize = self.data.len();
        self.data = zeroed(n);
    }

    /// Hands back the low bytes of `val`, in little-endian order, as many as
    /// the read is wide.
    pub fn write_uint(&mut self, val: u64)
        ensures
            final(self).offset == old(self).offset,
            final(self).data@ == le_bytes(val as nat, old(self).data@.len()),
    {
        let n: usize = self.data.len();
        let mut data: Vec<u8> = Vec::new();
        push_le(&mut data, val, n);
        assert(data@ =~= le_bytes(val as nat, n as nat));
        self.data = data;
    }

    /// Hands back `bytes`.
    pub fn write_bytes(&mut self, bytes: Vec<u8>)
        requires
            bytes@.len() == old(self).data@.len(),
        ensures
            final(self).offset == old(self).offset,
            final(self).data@ == bytes@,
    {
        self.data = bytes;
    }
}

impl WriteOp {
    /// A write of `data` at `offset`.
    pub fn new(offset: usize, data: Vec<u8>) -> (op: WriteOp)
        ensures
            op.offset == offset,
            op.data@ == data@,
    {
        WriteOp { offset, data }
    }

    /// The width of the write.
    pub fn len(&self) -> (n: usize)
        ensures
            n == self.data@.len(),
    {
        self.data.len()
    }

    /// The bytes as one little-endian number.
    pub fn read_uint(&self) -> (val: u64)
        requires
            self.data@.len() <= 8,
        ensures
            val == le_value(self.data@),
    {
        read_le(self.data.as_slice())
    }
}

impl RWOp {
    /// The offset in the window.
    pub open spec fn offset_spec(&self) -> usize {
        match self {
            RWOp::Read(ro) => ro.offset,
            RWOp::Write(wo) => wo.offset,
        }
    }

    /// The offset in the window.
    pub fn offset(&self) -> (offset: usize)
        ensures
            offset == self.offset_spec(),
            *self matches RWOp::Read(ro) ==> offset == ro.offset,
            *self matches RWOp::Write(wo) ==> offset == wo.offset,
    {
        match self {
            RWOp::Read(ro) => ro.offset,
            RWOp::Write(wo) => wo.offset,
        }
    }
}

} // verus!

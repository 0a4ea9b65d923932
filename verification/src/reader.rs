use vstd::prelude::*;

use crate::config::WireConfig;
use crate::error::DecodeError;
use crate::wirebytes::{
    i16_from_bits, i32_from_bits, i64_from_bits, i8_from_bits, u16_from_le, u32_from_le,
    u64_from_le,
};

verus! {

/// An in-memory byte source carrying a fixed wire configuration.
///
/// Reads consume bytes from the front; `rest` is the sequence of bytes not
/// yet consumed. A read that would pass the end fails with `IoFailure` and
/// consumes nothing.
pub struct Reader {
    pub data: Vec<u8>,
    pub pos: usize,
    pub config: WireConfig,
}

impl Reader {
    /// The position never passes the end of the data.
    pub open spec fn inv(self) -> bool {
        self.pos <= self.data@.len()
    }

    /// The bytes not yet consumed.
    pub open spec fn rest(self) -> Seq<u8> {
        self.data@.skip(self.pos as int)
    }

    /// A reader over the given bytes, starting at the front.
    pub fn new(data: Vec<u8>, config: WireConfig) -> (r: Reader)
        ensures
            r.data == data,
            r.pos == 0,
            r.config == config,
            r.inv(),
            r.rest() == data@,
    {
        let r = Reader { data, pos: 0, config };
        proof {
            assert(r.rest() =~= r.data@);
        }
        r
    }

    pub fn string_length_size(&self) -> (r: u8)
        ensures
            r == self.config.string_length_size,
    {
        self.config.string_length_size
    }

    pub fn pid_size(&self) -> (r: u8)
        ensures
            r == self.config.pid_size,
    {
        self.config.pid_size
    }

    pub fn use_structure_header(&self) -> (r: bool)
        ensures
            r == self.config.use_structure_header,
    {
        self.config.use_structure_header
    }

    /// How many bytes are left to read.
    pub fn remaining(&self) -> (r: u64)
        requires
            self.inv(),
        ensures
            r == self.rest().len(),
    {
        (self.data.len() - self.pos) as u64
    }

    /// Read exactly `length` bytes, or fail without consuming anything.
    pub fn read(&mut self, length: u64) -> (res: Result<Vec<u8>, DecodeError>)
        requires
            old(self).inv(),
        ensures
            final(self).inv(),
            final(self).data == old(self).data,
            final(self).config == old(self).config,
            length <= old(self).rest().len() ==> (res matches Ok(v) && v@ == old(
                self,
            ).rest().take(length as int) && final(self).pos == old(self).pos + length),
            length > old(self).rest().len() ==> (res == Err::<Vec<u8>, DecodeError>(
                DecodeError::IoFailure,
            ) && final(self).pos == old(self).pos),
    {
        let rem: usize = self.data.len() - self.pos;
        if length > rem as u64 {
            return Err(DecodeError::IoFailure);
        }
        let l: usize = length as usize;
        let mut out: Vec<u8> = Vec::new();
        let mut i: usize = 0;
        while i < l
            invariant
                i <= l,
                l == length,
                self == old(self),
                self.pos + l <= self.data@.len(),
                out@ == self.rest().take(i as int),
            decreases l - i,
        {
            let dl = self.data.len();
            let b = self.data[self.pos + i];
            out.push(b);
            i = i + 1;
            proof {
                assert(self.rest().take(i as int) =~= self.rest().take(i as int - 1) + seq![
                    self.rest()[i as int - 1]]);
                assert(self.rest()[i as int - 1] == self.data@[self.pos + i - 1]);
                assert(out@ =~= self.rest().take(i as int));
            }
        }
        self.pos = self.pos + l;
        Ok(out)
    }

    /// Read all bytes that are left.
    pub fn read_remaining(&mut self) -> (res: Vec<u8>)
        requires
            old(self).inv(),
        ensures
            final(self).inv(),
            final(self).data == old(self).data,
            final(self).config == old(self).config,
            res@ == old(self).rest(),
            final(self).pos == final(self).data@.len(),
    {
        let n: u64 = (self.data.len() - self.pos) as u64;
        proof {
            assert(old(self).rest().take(n as int) =~= old(self).rest());
        }
        match self.read(n) {
            Ok(v) => v,
            Err(_) => {
                proof {
                    assert(false);
                }
                Vec::new()
            },
        }
    }

    /// Read one byte.
    pub fn read_u8(&mut self) -> (res: Result<u8, DecodeError>)
        requires
            old(self).inv(),
        ensures
            final(self).inv(),
            final(self).data == old(self).data,
            final(self).config == old(self).config,
            old(self).rest().len() >= 1 ==> (res matches Ok(v) && v == old(self).rest()[0]
                && final(self).pos == old(self).pos + 1),
            old(self).rest().len() < 1 ==> (res == Err::<u8, DecodeError>(DecodeError::IoFailure)
                && final(self).pos == old(self).pos),
    {
        if self.data.len() - self.pos >= 1 {
            let b = self.data[self.pos];
            self.pos = self.pos + 1;
            Ok(b)
        } else {
            Err(DecodeError::IoFailure)
        }
    }

    /// Read a boolean: one byte, anything other than zero counts as true.
    pub fn read_bool(&mut self) -> (res: Result<bool, DecodeError>)
        requires
            old(self).inv(),
        ensures
            final(self).inv(),
            final(self).data == old(self).data,
            final(self).config == old(self).config,
            old(self).rest().len() >= 1 ==> (res matches Ok(v) && v == (old(self).rest()[0] != 0)
                && final(self).pos == old(self).pos + 1),
            old(self).rest().len() < 1 ==> (res == Err::<bool, DecodeError>(DecodeError::IoFailure)
                && final(self).pos == old(self).pos),
    {
        match self.read_u8() {
            Ok(b) => Ok(b != 0),
            Err(e) => Err(e),
        }
    }

    /// Read a signed 8-bit value from its two's-complement byte.
    pub fn read_i8(&mut self) -> (res: Result<i8, DecodeError>)
        requires
            old(self).inv(),
        ensures
            final(self).inv(),
            final(self).data == old(self).data,
            final(self).config == old(self).config,
            old(self).rest().len() >= 1 ==> (res matches Ok(v) && v == i8_from_bits(
                old(self).rest()[0],
            ) && final(self).pos == old(self).pos + 1),
            old(self).rest().len() < 1 ==> (res == Err::<i8, DecodeError>(DecodeError::IoFailure)
                && final(self).pos == old(self).pos),
    {
        match self.read_u8() {
            Ok(b) => {
                if b < 0x80 {
                    Ok(b as i8)
                } else {
                    Ok(((b as i16) - 0x100) as i8)
                }
            },
            Err(e) => Err(e),
        }
    }

    /// Read a signed 16-bit value, two's complement, little-endian.
    pub fn read_i16_le(&mut self) -> (res: Result<i16, DecodeError>)
        requires
            old(self).inv(),
        ensures
            final(self).inv(),
            final(self).data == old(self).data,
            final(self).config == old(self).config,
            old(self).rest().len() >= 2 ==> (res matches Ok(v) && v == i16_from_bits(
                u16_from_le(old(self).rest()),
            ) && final(self).pos == old(self).pos + 2),
            old(self).rest().len() < 2 ==> (res == Err::<i16, DecodeError>(DecodeError::IoFailure)
                && final(self).pos == old(self).pos),
    {
        match self.read_u16_le() {
            Ok(b) => {
                if b < 0x8000 {
                    Ok(b as i16)
                } else {
                    Ok(((b as i32) - 0x1_0000) as i16)
                }
            },
            Err(e) => Err(e),
        }
    }

    /// Read a signed 32-bit value, two's complement, little-endian.
    pub fn read_i32_le(&mut self) -> (res: Result<i32, DecodeError>)
        requires
            old(self).inv(),
        ensures
            final(self).inv(),
            final(self).data == old(self).data,
            final(self).config == old(self).config,
            old(self).rest().len() >= 4 ==> (res matches Ok(v) && v == i32_from_bits(
                u32_from_le(old(self).rest()),
            ) && final(self).pos == old(self).pos + 4),
            old(self).rest().len() < 4 ==> (res == Err::<i32, DecodeError>(DecodeError::IoFailure)
                && final(self).pos == old(self).pos),
    {
        match self.read_u32_le() {
            Ok(b) => {
                if b < 0x8000_0000 {
                    Ok(b as i32)
                } else {
                    Ok(((b as i64) - 0x1_0000_0000) as i32)
                }
            },
            Err(e) => Err(e),
        }
    }

    /// Read a signed 64-bit value, two's complement, little-endian.
    pub fn read_i64_le(&mut self) -> (res: Result<i64, DecodeError>)
        requires
            old(self).inv(),
        ensures
            final(self).inv(),
            final(self).data == old(self).data,
            final(self).config == old(self).config,
            old(self).rest().len() >= 8 ==> (res matches Ok(v) && v == i64_from_bits(
                u64_from_le(old(self).rest()),
            ) && final(self).pos == old(self).pos + 8),
            old(self).rest().len() < 8 ==> (res == Err::<i64, DecodeError>(DecodeError::IoFailure)
                && final(self).pos == old(self).pos),
    {
        match self.read_u64_le() {
            Ok(b) => {
                if b < 0x8000_0000_0000_0000 {
                    Ok(b as i64)
                } else {
                    Ok(((b as i128) - 0x1_0000_0000_0000_0000) as i64)
                }
            },
            Err(e) => Err(e),
        }
    }

    /// Read a 16-bit unsigned value, little-endian.
    pub fn read_u16_le(&mut self) -> (res: Result<u16, DecodeError>)
        requires
            old(self).inv(),
        ensures
            final(self).inv(),
            final(self).data == old(self).data,
            final(self).config == old(self).config,
            old(self).rest().len() >= 2 ==> (res matches Ok(v) && v == u16_from_le(
                old(self).rest(),
            ) && final(self).pos == old(self).pos + 2),
            old(self).rest().len() < 2 ==> (res == Err::<u16, DecodeError>(DecodeError::IoFailure)
                && final(self).pos == old(self).pos),
    {
        if self.data.len() - self.pos >= 2 {
            let b0 = self.data[self.pos];
            let b1 = self.data[self.pos + 1];
            self.pos = self.pos + 2;
            Ok(b0 as u16 | (b1 as u16) << 8)
        } else {
            Err(DecodeError::IoFailure)
        }
    }

    /// Read a 32-bit unsigned value, little-endian.
    pub fn read_u32_le(&mut self) -> (res: Result<u32, DecodeError>)
        requires
            old(self).inv(),
        ensures
            final(self).inv(),
            final(self).data == old(self).data,
            final(self).config == old(self).config,
            old(self).rest().len() >= 4 ==> (res matches Ok(v) && v == u32_from_le(
                old(self).rest(),
            ) && final(self).pos == old(self).pos + 4),
            old(self).rest().len() < 4 ==> (res == Err::<u32, DecodeError>(DecodeError::IoFailure)
                && final(self).pos == old(self).pos),
    {
        if self.data.len() - self.pos >= 4 {
            let b0 = self.data[self.pos];
            let b1 = self.data[self.pos + 1];
            let b2 = self.data[self.pos + 2];
            let b3 = self.data[self.pos + 3];
            self.pos = self.pos + 4;
            Ok(b0 as u32 | (b1 as u32) << 8 | (b2 as u32) << 16 | (b3 as u32) << 24)
        } else {
            Err(DecodeError::IoFailure)
        }
    }

    /// Read a 64-bit unsigned value, little-endian.
    pub fn read_u64_le(&mut self) -> (res: Result<u64, DecodeError>)
        requires
            old(self).inv(),
        ensures
            final(self).inv(),
            final(self).data == old(self).data,
            final(self).config == old(self).config,
            old(self).rest().len() >= 8 ==> (res matches Ok(v) && v == u64_from_le(
                old(self).rest(),
            ) && final(self).pos == old(self).pos + 8),
            old(self).rest().len() < 8 ==> (res == Err::<u64, DecodeError>(DecodeError::IoFailure)
                && final(self).pos == old(self).pos),
    {
        if self.data.len() - self.pos >= 8 {
            let b0 = self.data[self.pos];
            let b1 = self.data[self.pos + 1];
            let b2 = self.data[self.pos + 2];
            let b3 = self.data[self.pos + 3];
            let b4 = self.data[self.pos + 4];
            let b5 = self.data[self.pos + 5];
            let b6 = self.data[self.pos + 6];
            let b7 = self.data[self.pos + 7];
            self.pos = self.pos + 8;
            Ok(b0 as u64 | (b1 as u64) << 8 | (b2 as u64) << 16 | (b3 as u64) << 24 | (b4
                as u64) << 32 | (b5 as u64) << 40 | (b6 as u64) << 48 | (b7 as u64) << 56)
        } else {
            Err(DecodeError::IoFailure)
        }
    }
}

} // verus!

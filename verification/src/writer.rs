use vstd::prelude::*;

use crate::config::WireConfig;
use crate::wirebytes::{i16_bits, i32_bits, i64_bits, i8_bits, u16_le, u32_le, u64_le};

verus! {

/// The byte image of a boolean: one byte, one for true and zero for false.
pub open spec fn bool_byte(b: bool) -> u8 {
    if b {
        1
    } else {
        0
    }
}

/// An in-memory byte sink carrying a fixed wire configuration.
///
/// Every write appends at the end; the view of a writer is the sequence of
/// bytes accumulated so far.
pub struct Writer {
    pub data: Vec<u8>,
    pub config: WireConfig,
}

impl View for Writer {
    type V = Seq<u8>;

    open spec fn view(&self) -> Seq<u8> {
        self.data@
    }
}

impl Writer {
    /// A fresh, empty writer with the given configuration.
    pub fn new(config: WireConfig) -> (r: Writer)
        ensures
            r@ == Seq::<u8>::empty(),
            r.config == config,
    {
        let r = Writer { data: Vec::new(), config };
        proof {
            assert(r@ =~= Seq::<u8>::empty());
        }
        r
    }

    /// A fresh, empty, independently owned writer with the same configuration.
    ///
    /// Nested framed payloads are produced into such a scratch writer, so the
    /// outer stream is not touched until the payload is complete.
    pub fn copy_new(&self) -> (r: Writer)
        ensures
            r@ == Seq::<u8>::empty(),
            r.config == self.config,
    {
        Writer::new(self.config)
    }

    /// The bytes accumulated so far.
    pub fn bytes(&self) -> (r: &Vec<u8>)
        ensures
            r@ == self@,
    {
        &self.data
    }

    pub fn string_length_size(&self) -> (r: u8)
        ensures
            r == self.config.string_length_size,
    {
        self.config.string_length_size
    }

    pub fn pid_size(&self) -> (r: u8)
        ensures
            r == self.config.pid_size,
    {
        self.config.pid_size
    }

    pub fn use_structure_header(&self) -> (r: bool)
        ensures
            r == self.config.use_structure_header,
    {
        self.config.use_structure_header
    }

    /// Append a run of raw bytes verbatim.
    pub fn write(&mut self, bytes: &[u8])
        ensures
            final(self).config == old(self).config,
            final(self)@ == old(self)@ + bytes@,
    {
        let mut i: usize = 0;
        while i < bytes.len()
            invariant
                i <= bytes@.len(),
                self.config == old(self).config,
                self.data@ == old(self).data@ + bytes@.take(i as int),
            decreases bytes@.len() - i,
        {
            let b = bytes[i];
            self.data.push(b);
            i = i + 1;
            proof {
                assert(bytes@.take(i as int) =~= bytes@.take(i as int - 1) + seq![bytes@[
                    i as int - 1]]);
                assert(self.data@ =~= old(self).data@ + bytes@.take(i as int));
            }
        }
        proof {
            assert(bytes@.take(bytes@.len() as int) =~= bytes@);
        }
    }

    /// Append one byte.
    pub fn write_u8(&mut self, value: u8)
        ensures
            final(self).config == old(self).config,
            final(self)@ == old(self)@ + seq![value],
    {
        self.data.push(value);
    }

    /// Append a boolean as a single byte, one for true and zero for false.
    pub fn write_bool(&mut self, value: bool)
        ensures
            final(self).config == old(self).config,
            final(self)@ == old(self)@ + seq![bool_byte(value)],
    {
        if value {
            self.data.push(1);
        } else {
            self.data.push(0);
        }
    }

    /// Append a signed 8-bit value as its two's-complement byte.
    pub fn write_i8(&mut self, value: i8)
        ensures
            final(self).config == old(self).config,
            final(self)@ == old(self)@ + seq![i8_bits(value)],
    {
        let bits: u8 = if value >= 0 {
            value as u8
        } else {
            ((value as i16) + 0x100) as u8
        };
        self.write_u8(bits);
    }

    /// Append a signed 16-bit value, two's complement, little-endian.
    pub fn write_i16_le(&mut self, value: i16)
        ensures
            final(self).config == old(self).config,
            final(self)@ == old(self)@ + u16_le(i16_bits(value)),
    {
        let bits: u16 = if value >= 0 {
            value as u16
        } else {
            ((value as i32) + 0x1_0000) as u16
        };
        self.write_u16_le(bits);
    }

    /// Append a signed 32-bit value, two's complement, little-endian.
    pub fn write_i32_le(&mut self, value: i32)
        ensures
            final(self).config == old(self).config,
            final(self)@ == old(self)@ + u32_le(i32_bits(value)),
    {
        let bits: u32 = if value >= 0 {
            value as u32
        } else {
            ((value as i64) + 0x1_0000_0000) as u32
        };
        self.write_u32_le(bits);
    }

    /// Append a signed 64-bit value, two's complement, little-endian.
    pub fn write_i64_le(&mut self, value: i64)
        ensures
            final(self).config == old(self).config,
            final(self)@ == old(self)@ + u64_le(i64_bits(value)),
    {
        let bits: u64 = if value >= 0 {
            value as u64
        } else {
            ((value as i128) + 0x1_0000_0000_0000_0000) as u64
        };
        self.write_u64_le(bits);
    }

    /// Append a 16-bit unsigned value, little-endian.
    pub fn write_u16_le(&mut self, value: u16)
        ensures
            final(self).config == old(self).config,
            final(self)@ == old(self)@ + u16_le(value),
    {
        proof {
            assert(value & 0xff <= 0xff) by (bit_vector);
            assert((value >> 8) & 0xff <= 0xff) by (bit_vector);
        }
        self.data.push((value & 0xff) as u8);
        self.data.push(((value >> 8) & 0xff) as u8);
        proof {
            assert(self.data@ =~= old(self).data@ + u16_le(value));
        }
    }

    /// Append a 32-bit unsigned value, little-endian.
    pub fn write_u32_le(&mut self, value: u32)
        ensures
            final(self).config == old(self).config,
            final(self)@ == old(self)@ + u32_le(value),
    {
        proof {
            assert(value & 0xff <= 0xff) by (bit_vector);
            assert((value >> 8) & 0xff <= 0xff) by (bit_vector);
            assert((value >> 16) & 0xff <= 0xff) by (bit_vector);
            assert((value >> 24) & 0xff <= 0xff) by (bit_vector);
        }
        self.data.push((value & 0xff) as u8);
        self.data.push(((value >> 8) & 0xff) as u8);
        self.data.push(((value >> 16) & 0xff) as u8);
        self.data.push(((value >> 24) & 0xff) as u8);
        proof {
            assert(self.data@ =~= old(self).data@ + u32_le(value));
        }
    }

    /// Append a 64-bit unsigned value, little-endian.
    pub fn write_u64_le(&mut self, value: u64)
        ensures
            final(self).config == old(self).config,
            final(self)@ == old(self)@ + u64_le(value),
    {
        proof {
            assert(value & 0xff <= 0xff) by (bit_vector);
            assert((value >> 8) & 0xff <= 0xff) by (bit_vector);
            assert((value >> 16) & 0xff <= 0xff) by (bit_vector);
            assert((value >> 24) & 0xff <= 0xff) by (bit_vector);
            assert((value >> 32) & 0xff <= 0xff) by (bit_vector);
            assert((value >> 40) & 0xff <= 0xff) by (bit_vector);
            assert((value >> 48) & 0xff <= 0xff) by (bit_vector);
            assert((value >> 56) & 0xff <= 0xff) by (bit_vector);
        }
        self.data.push((value & 0xff) as u8);
        self.data.push(((value >> 8) & 0xff) as u8);
        self.data.push(((value >> 16) & 0xff) as u8);
        self.data.push(((value >> 24) & 0xff) as u8);
        self.data.push(((value >> 32) & 0xff) as u8);
        self.data.push(((value >> 40) & 0xff) as u8);
        self.data.push(((value >> 48) & 0xff) as u8);
        self.data.push(((value >> 56) & 0xff) as u8);
        proof {
            assert(self.data@ =~= old(self).data@ + u64_le(value));
        }
    }
}

} // verus!

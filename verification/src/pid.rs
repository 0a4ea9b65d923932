use vstd::prelude::*;

use crate::config::WireConfig;
use crate::error::DecodeError;
use crate::reader::Reader;
use crate::rvtype::RVType;
use crate::wirebytes::{
    lemma_u32_from_le_prefix, lemma_u32_le_roundtrip, lemma_u64_from_le_prefix,
    lemma_u64_le_roundtrip, u32_from_le, u32_le, u64_from_le, u64_le,
};
use crate::writer::Writer;

verus! {

/// A numeric process identifier. Its wire width follows the configuration:
/// eight bytes when `pid_size` is eight, otherwise four.
#[derive(Clone, Copy, Debug, PartialEq, Eq, Structural)]
pub struct PID(pub u64);

impl PID {
    pub fn new(input: u64) -> (r: Self)
        ensures
            r.0 == input,
    {
        PID(input)
    }
}

impl RVType for PID {
    type Model = u64;

    open spec fn inv(&self) -> bool {
        true
    }

    open spec fn model(&self) -> u64 {
        self.0
    }

    open spec fn model_wf(m: u64) -> bool {
        true
    }

    open spec fn model_eq(a: u64, b: u64) -> bool {
        a == b
    }

    open spec fn wire_spec(&self, config: WireConfig) -> Seq<u8> {
        if config.pid_size == 8 {
            u64_le(self.0)
        } else {
            u32_le(self.0 as u32)
        }
    }

    open spec fn wire_valid(&self, config: WireConfig) -> bool {
        config.pid_size == 8 || self.0 <= 0xffff_ffff
    }

    open spec fn wire_decode(bytes: Seq<u8>, config: WireConfig) -> Option<(u64, nat)> {
        if config.pid_size == 8 {
            if bytes.len() >= 8 {
                Some((u64_from_le(bytes), 8nat))
            } else {
                None
            }
        } else {
            if bytes.len() >= 4 {
                Some((u32_from_le(bytes) as u64, 4nat))
            } else {
                None
            }
        }
    }

    proof fn lemma_inv_model_wf(a: Self) {
    }

    proof fn lemma_model_eq_reflexive(a: u64) {
    }

    proof fn lemma_model_eq_symmetric(a: u64, b: u64) {
    }

    proof fn lemma_model_eq_transitive(a: u64, b: u64, c: u64) {
    }

    proof fn lemma_decode_wf(bytes: Seq<u8>, config: WireConfig) {
    }

    proof fn lemma_roundtrip(a: Self, suffix: Seq<u8>, config: WireConfig) {
        if config.pid_size == 8 {
            lemma_u64_from_le_prefix(u64_le(a.0), u64_le(a.0) + suffix);
            lemma_u64_le_roundtrip(a.0);
        } else {
            let v = a.0 as u32;
            assert(v as u64 == a.0);
            lemma_u32_from_le_prefix(u32_le(v), u32_le(v) + suffix);
            lemma_u32_le_roundtrip(v);
        }
    }

    fn zero() -> (r: Self) {
        PID(0)
    }

    fn copy(&self) -> (r: Self) {
        PID(self.0)
    }

    fn copy_ref(&self) -> (r: Self) {
        PID(self.0)
    }

    fn equals(&self, other: &Self) -> (r: bool) {
        self.0 == other.0
    }

    fn write_to(&self, w: &mut Writer) {
        if w.pid_size() == 8 {
            w.write_u64_le(self.0);
        } else {
            w.write_u32_le(self.0 as u32);
        }
    }

    fn extract_from(&mut self, r: &mut Reader) -> (res: Result<(), DecodeError>) {
        if r.pid_size() == 8 {
            match r.read_u64_le() {
                Ok(v) => {
                    self.0 = v;
                    Ok(())
                },
                Err(e) => Err(e),
            }
        } else {
            match r.read_u32_le() {
                Ok(v) => {
                    self.0 = v as u64;
                    Ok(())
                },
                Err(e) => Err(e),
            }
        }
    }
}

} // verus!

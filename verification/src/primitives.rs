use vstd::prelude::*;

use crate::config::WireConfig;
use crate::error::DecodeError;
use crate::reader::Reader;
use crate::rvtype::RVType;
use crate::wirebytes::{lemma_u16_from_le_prefix, lemma_u16_le_roundtrip, u16_from_le, u16_le};
use crate::writer::Writer;

verus! {

/// A 16-bit unsigned wire value: two bytes on the wire, little-endian.
/// Container value slots (class version numbers, for one) use it directly.
impl RVType for u16 {
    type Model = u16;

    open spec fn inv(&self) -> bool {
        true
    }

    open spec fn model(&self) -> u16 {
        *self
    }

    open spec fn model_wf(m: u16) -> bool {
        true
    }

    open spec fn model_eq(a: u16, b: u16) -> bool {
        a == b
    }

    open spec fn wire_spec(&self, config: WireConfig) -> Seq<u8> {
        u16_le(*self)
    }

    open spec fn wire_valid(&self, config: WireConfig) -> bool {
        true
    }

    open spec fn wire_decode(bytes: Seq<u8>, config: WireConfig) -> Option<(u16, nat)> {
        if bytes.len() >= 2 {
            Some((u16_from_le(bytes), 2nat))
        } else {
            None
        }
    }

    proof fn lemma_inv_model_wf(a: Self) {
    }

    proof fn lemma_model_eq_reflexive(a: u16) {
    }

    proof fn lemma_model_eq_symmetric(a: u16, b: u16) {
    }

    proof fn lemma_model_eq_transitive(a: u16, b: u16, c: u16) {
    }

    proof fn lemma_decode_wf(bytes: Seq<u8>, config: WireConfig) {
    }

    proof fn lemma_roundtrip(a: Self, suffix: Seq<u8>, config: WireConfig) {
        lemma_u16_from_le_prefix(u16_le(a), u16_le(a) + suffix);
        lemma_u16_le_roundtrip(a);
    }

    fn zero() -> (r: Self) {
        0
    }

    fn copy(&self) -> (r: Self) {
        *self
    }

    fn copy_ref(&self) -> (r: Self) {
        *self
    }

    fn equals(&self, other: &Self) -> (r: bool) {
        *self == *other
    }

    fn write_to(&self, w: &mut Writer) {
        w.write_u16_le(*self);
    }

    fn extract_from(&mut self, r: &mut Reader) -> (res: Result<(), DecodeError>) {
        match r.read_u16_le() {
            Ok(v) => {
                *self = v;
                Ok(())
            },
            Err(e) => Err(e),
        }
    }
}

} // verus!

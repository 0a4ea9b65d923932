use vstd::prelude::*;

use crate::config::WireConfig;
use crate::error::DecodeError;
use crate::reader::Reader;
use crate::rvtype::RVType;
use crate::writer::{bool_byte, Writer};

verus! {

/// A boolean wire value: one byte on the wire, one for true, zero for false.
#[derive(Clone, Copy, Debug, PartialEq, Eq, Structural)]
pub struct Bool(pub bool);

impl Bool {
    pub fn new(input: bool) -> (r: Self)
        ensures
            r.0 == input,
    {
        Bool(input)
    }
}

impl RVType for Bool {
    type Model = bool;

    open spec fn inv(&self) -> bool {
        true
    }

    open spec fn model(&self) -> bool {
        self.0
    }

    open spec fn model_wf(m: bool) -> bool {
        true
    }

    open spec fn model_eq(a: bool, b: bool) -> bool {
        a == b
    }

    open spec fn wire_spec(&self, config: WireConfig) -> Seq<u8> {
        seq![bool_byte(self.0)]
    }

    open spec fn wire_valid(&self, config: WireConfig) -> bool {
        true
    }

    open spec fn wire_decode(bytes: Seq<u8>, config: WireConfig) -> Option<(bool, nat)> {
        if bytes.len() >= 1 {
            Some(((bytes[0] != 0), 1nat))
        } else {
            None
        }
    }

    proof fn lemma_inv_model_wf(a: Self) {
    }

    proof fn lemma_model_eq_reflexive(a: bool) {
    }

    proof fn lemma_model_eq_symmetric(a: bool, b: bool) {
    }

    proof fn lemma_model_eq_transitive(a: bool, b: bool, c: bool) {
    }

    proof fn lemma_decode_wf(bytes: Seq<u8>, config: WireConfig) {
    }

    proof fn lemma_roundtrip(a: Self, suffix: Seq<u8>, config: WireConfig) {
        assert((a.wire_spec(config) + suffix)[0] == bool_byte(a.0));
    }

    fn zero() -> (r: Self) {
        Bool(false)
    }

    fn copy(&self) -> (r: Self) {
        Bool(self.0)
    }

    fn copy_ref(&self) -> (r: Self) {
        Bool(self.0)
    }

    fn equals(&self, other: &Self) -> (r: bool) {
        self.0 == other.0
    }

    fn write_to(&self, w: &mut Writer) {
        w.write_bool(self.0);
    }

    fn extract_from(&mut self, r: &mut Reader) -> (res: Result<(), DecodeError>) {
        match r.read_bool() {
            Ok(v) => {
                self.0 = v;
                Ok(())
            },
            Err(e) => Err(e),
        }
    }
}

} // verus!

use vstd::prelude::*;

use vstd::slice::slice_to_vec;
use vstd::string::StringSliceAdditionalSpecFns;

use crate::config::WireConfig;
use crate::error::DecodeError;
use crate::reader::Reader;
use crate::rvtype::RVType;
use crate::wirebytes::{
    lemma_u16_from_le_prefix, lemma_u16_le_roundtrip, lemma_u32_from_le_prefix,
    lemma_u32_le_roundtrip, u16_from_le, u16_le, u32_from_le, u32_le,
};
use crate::writer::Writer;

verus! {

/// Width in bytes of a string length prefix under a configuration.
pub open spec fn len_width(config: WireConfig) -> int {
    if config.string_length_size == 2 {
        2
    } else {
        4
    }
}

/// The byte image of a string: a length prefix counting the content plus
/// one terminator byte, the content, and a zero terminator.
pub open spec fn str_wire(content: Seq<u8>, config: WireConfig) -> Seq<u8> {
    if config.string_length_size == 2 {
        u16_le((content.len() + 1) as u16) + content + seq![0u8]
    } else {
        u32_le((content.len() + 1) as u32) + content + seq![0u8]
    }
}

/// Whether a string's length fits the configured prefix width.
pub open spec fn str_valid(content: Seq<u8>, config: WireConfig) -> bool {
    if config.string_length_size == 2 {
        content.len() + 1 <= 0xffff
    } else {
        content.len() + 1 <= 0xffff_ffff
    }
}

/// The canonical decode of a string: the content bytes and the total
/// number of bytes consumed. The declared length must cover the
/// terminator, whose value is ignored.
pub open spec fn str_decode(bytes: Seq<u8>, config: WireConfig) -> Option<(Seq<u8>, nat)> {
    let w = len_width(config);
    if bytes.len() >= w {
        let l: int = if config.string_length_size == 2 {
            u16_from_le(bytes) as int
        } else {
            u32_from_le(bytes) as int
        };
        if l >= 1 && bytes.len() >= w + l {
            Some((bytes.subrange(w, w + l - 1), (w + l) as nat))
        } else {
            None
        }
    } else {
        None
    }
}

/// The error a failed string decode surfaces: a zero length declaration
/// is a malformed frame (the length must cover at least the terminator);
/// anything else that fails is a short read.
pub open spec fn str_decode_err(bytes: Seq<u8>, config: WireConfig) -> DecodeError {
    let w = len_width(config);
    if bytes.len() >= w {
        let l: int = if config.string_length_size == 2 {
            u16_from_le(bytes) as int
        } else {
            u32_from_le(bytes) as int
        };
        if l < 1 {
            DecodeError::MalformedFrame { expected: 1, available: 0 }
        } else {
            DecodeError::IoFailure
        }
    } else {
        DecodeError::IoFailure
    }
}

/// Verified byte-wise equality of two byte vectors.
pub fn bytes_equal(a: &Vec<u8>, b: &Vec<u8>) -> (r: bool)
    ensures
        r == (a@ == b@),
{
    if a.len() != b.len() {
        return false;
    }
    let n = a.len();
    let mut i: usize = 0;
    while i < n
        invariant
            n == a@.len(),
            n == b@.len(),
            i <= n,
            forall|j: int| 0 <= j < i ==> a@[j] == b@[j],
        decreases n - i,
    {
        if a[i] != b[i] {
            return false;
        }
        i = i + 1;
    }
    proof {
        assert(a@ =~= b@);
    }
    true
}

/// A string wire value: its content is a run of bytes, carried on the wire
/// behind a length prefix of the configured width and closed by a zero
/// terminator that the length counts.
#[derive(Debug)]
pub struct WireString {
    pub data: Vec<u8>,
}

impl WireString {
    /// The empty string.
    pub fn new() -> (r: WireString)
        ensures
            r.data@ == Seq::<u8>::empty(),
    {
        let r = WireString { data: Vec::new() };
        proof {
            assert(r.data@ =~= Seq::<u8>::empty());
        }
        r
    }

    /// A string over the given content bytes.
    pub fn from_bytes(data: Vec<u8>) -> (r: WireString)
        ensures
            r.data == data,
    {
        WireString { data }
    }

    /// A string over the bytes of a text literal.
    pub fn from_text(s: &str) -> (r: WireString)
        ensures
            r.data@ == s.spec_bytes(),
    {
        WireString { data: slice_to_vec(s.as_bytes()) }
    }

    pub fn len(&self) -> (r: usize)
        ensures
            r == self.data@.len(),
    {
        self.data.len()
    }

    /// Decode a string in place, reporting the exact failure kind.
    pub fn read_from(&mut self, r: &mut Reader) -> (res: Result<(), DecodeError>)
        requires
            old(r).inv(),
            old(r).config.wf(),
        ensures
            final(r).inv(),
            final(r).data == old(r).data,
            final(r).config == old(r).config,
            old(r).pos <= final(r).pos,
            match str_decode(old(r).rest(), old(r).config) {
                Some(p) => res is Ok && final(self).data@ == p.0 && final(r).pos == old(r).pos
                    + p.1,
                None => res == Err::<(), DecodeError>(str_decode_err(old(r).rest(), old(r).config)),
            },
    {
        let l: u64 = if r.string_length_size() == 2 {
            match r.read_u16_le() {
                Ok(v) => v as u64,
                Err(e) => {
                    return Err(e);
                },
            }
        } else {
            match r.read_u32_le() {
                Ok(v) => v as u64,
                Err(e) => {
                    return Err(e);
                },
            }
        };
        if l < 1 {
            return Err(DecodeError::MalformedFrame { expected: 1, available: 0 });
        }
        let mut buf = match r.read(l) {
            Ok(v) => v,
            Err(e) => {
                return Err(e);
            },
        };
        let keep: usize = buf.len() - 1;
        buf.truncate(keep);
        proof {
            let bytes = old(r).rest();
            let w = len_width(old(r).config);
            assert(buf@ =~= bytes.subrange(w, w + l - 1));
        }
        self.data = buf;
        Ok(())
    }
}

impl RVType for WireString {
    type Model = Seq<u8>;

    open spec fn inv(&self) -> bool {
        true
    }

    open spec fn model(&self) -> Seq<u8> {
        self.data@
    }

    open spec fn model_wf(m: Seq<u8>) -> bool {
        true
    }

    open spec fn model_eq(a: Seq<u8>, b: Seq<u8>) -> bool {
        a == b
    }

    open spec fn wire_spec(&self, config: WireConfig) -> Seq<u8> {
        str_wire(self.data@, config)
    }

    open spec fn wire_valid(&self, config: WireConfig) -> bool {
        str_valid(self.data@, config)
    }

    open spec fn wire_decode(bytes: Seq<u8>, config: WireConfig) -> Option<(Seq<u8>, nat)> {
        str_decode(bytes, config)
    }

    proof fn lemma_inv_model_wf(a: Self) {
    }

    proof fn lemma_model_eq_reflexive(a: Seq<u8>) {
    }

    proof fn lemma_model_eq_symmetric(a: Seq<u8>, b: Seq<u8>) {
    }

    proof fn lemma_model_eq_transitive(a: Seq<u8>, b: Seq<u8>, c: Seq<u8>) {
    }

    proof fn lemma_decode_wf(bytes: Seq<u8>, config: WireConfig) {
    }

    proof fn lemma_roundtrip(a: Self, suffix: Seq<u8>, config: WireConfig) {
        let content = a.data@;
        let enc = str_wire(content, config);
        let bytes = enc + suffix;
        let w = len_width(config);
        let l = content.len() + 1;
        if config.string_length_size == 2 {
            lemma_u16_from_le_prefix(u16_le(l as u16), bytes);
            lemma_u16_le_roundtrip(l as u16);
        } else {
            lemma_u32_from_le_prefix(u32_le(l as u32), bytes);
            lemma_u32_le_roundtrip(l as u32);
        }
        assert(bytes.subrange(w, w + l - 1) =~= content);
    }

    fn zero() -> (r: Self) {
        WireString::new()
    }

    fn copy(&self) -> (r: Self) {
        WireString { data: slice_to_vec(self.data.as_slice()) }
    }

    fn copy_ref(&self) -> (r: Self) {
        WireString { data: slice_to_vec(self.data.as_slice()) }
    }

    fn equals(&self, other: &Self) -> (r: bool) {
        bytes_equal(&self.data, &other.data)
    }

    fn write_to(&self, w: &mut Writer) {
        let n = self.data.len();
        if w.string_length_size() == 2 {
            w.write_u16_le((n + 1) as u16);
        } else {
            w.write_u32_le((n + 1) as u32);
        }
        w.write(self.data.as_slice());
        w.write_u8(0);
        proof {
            assert(w@ =~= old(w)@ + str_wire(self.data@, old(w).config));
        }
    }

    fn extract_from(&mut self, r: &mut Reader) -> (res: Result<(), DecodeError>) {
        self.read_from(r)
    }
}

} // verus!

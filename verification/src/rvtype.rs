use vstd::prelude::*;

use crate::config::WireConfig;
use crate::error::DecodeError;
use crate::reader::Reader;
use crate::writer::Writer;

verus! {

/// The uniform wire value contract: every serializable type can encode
/// itself into a writer, decode itself in place from a reader, duplicate
/// itself, and compare itself for value equality.
///
/// Each implementor names a mathematical `Model` of its values and pins
/// down, as specification functions, the exact byte image of a value
/// (`wire_spec`) and the canonical meaning of a byte stream
/// (`wire_decode`). The executable operations are verified against those
/// functions, and `lemma_roundtrip` obliges every implementor to prove that
/// decoding inverts encoding.
pub trait RVType: Sized {
    /// The mathematical value a wire value stands for.
    type Model;

    /// Structural well-formedness of a value (for a container: unique keys).
    spec fn inv(&self) -> bool;

    /// The model this value stands for.
    spec fn model(&self) -> Self::Model;

    /// Well-formedness of a model, mirroring `inv`.
    spec fn model_wf(m: Self::Model) -> bool;

    /// Value equality of two models. For containers this is
    /// order-independent content equality, not structural equality.
    spec fn model_eq(a: Self::Model, b: Self::Model) -> bool;

    /// The exact byte image of this value under a configuration.
    spec fn wire_spec(&self, config: WireConfig) -> Seq<u8>;

    /// Whether this value can be represented exactly under a configuration
    /// (its lengths and numeric fields fit the configured widths).
    spec fn wire_valid(&self, config: WireConfig) -> bool;

    /// The canonical meaning of a byte stream: the model encoded at the
    /// front and the number of bytes it occupies, if the stream decodes.
    spec fn wire_decode(bytes: Seq<u8>, config: WireConfig) -> Option<(Self::Model, nat)>;

    /// A well-formed value has a well-formed model.
    proof fn lemma_inv_model_wf(a: Self)
        requires
            a.inv(),
        ensures
            Self::model_wf(a.model()),
    ;

    /// Model equality is reflexive on well-formed models.
    proof fn lemma_model_eq_reflexive(a: Self::Model)
        requires
            Self::model_wf(a),
        ensures
            Self::model_eq(a, a),
    ;

    /// Model equality is symmetric on well-formed models.
    proof fn lemma_model_eq_symmetric(a: Self::Model, b: Self::Model)
        requires
            Self::model_wf(a),
            Self::model_wf(b),
            Self::model_eq(a, b),
        ensures
            Self::model_eq(b, a),
    ;

    /// Model equality is transitive on well-formed models.
    proof fn lemma_model_eq_transitive(a: Self::Model, b: Self::Model, c: Self::Model)
        requires
            Self::model_wf(a),
            Self::model_wf(b),
            Self::model_wf(c),
            Self::model_eq(a, b),
            Self::model_eq(b, c),
        ensures
            Self::model_eq(a, c),
    ;

    /// A successful decode consumes no more bytes than there are, and its
    /// result is a well-formed model.
    proof fn lemma_decode_wf(bytes: Seq<u8>, config: WireConfig)
        requires
            config.wf(),
        ensures
            Self::wire_decode(bytes, config) matches Some(p) ==> p.1 <= bytes.len()
                && Self::model_wf(p.0),
    ;

    /// Decoding inverts encoding: the byte image of a representable value,
    /// followed by anything, decodes to exactly that value's model,
    /// consuming exactly the image.
    proof fn lemma_roundtrip(a: Self, suffix: Seq<u8>, config: WireConfig)
        requires
            a.inv(),
            a.wire_valid(config),
            config.wf(),
        ensures
            Self::wire_decode(a.wire_spec(config) + suffix, config) == Some(
                (a.model(), a.wire_spec(config).len() as nat),
            ),
    ;

    /// The canonical empty value, the state a decode target starts from.
    fn zero() -> (r: Self)
        ensures
            r.inv(),
    ;

    /// A deep, independently owned duplicate.
    fn copy(&self) -> (r: Self)
        requires
            self.inv(),
        ensures
            r.inv(),
            r.model() == self.model(),
    ;

    /// A cheap owned duplicate usable as a registry prototype stand-in.
    fn copy_ref(&self) -> (r: Self)
        requires
            self.inv(),
        ensures
            r.inv(),
            r.model() == self.model(),
    ;

    /// Value equality, resolved through the models.
    fn equals(&self, other: &Self) -> (r: bool)
        requires
            self.inv(),
            other.inv(),
        ensures
            r == Self::model_eq(self.model(), other.model()),
    ;

    /// Append this value's byte image to a writer.
    fn write_to(&self, w: &mut Writer)
        requires
            self.inv(),
            old(w).config.wf(),
            self.wire_valid(old(w).config),
        ensures
            final(w).config == old(w).config,
            final(w)@ == old(w)@ + self.wire_spec(old(w).config),
    ;

    /// Decode a value from the reader into this one, in place.
    ///
    /// Succeeds exactly when the unread bytes decode canonically; on
    /// success the receiver holds the decoded model and the reader has
    /// consumed exactly the decoded bytes. On failure the receiver is left
    /// in a valid, though not necessarily old, state.
    fn extract_from(&mut self, r: &mut Reader) -> (res: Result<(), DecodeError>)
        requires
            old(self).inv(),
            old(r).inv(),
            old(r).config.wf(),
        ensures
            final(self).inv(),
            final(r).inv(),
            final(r).data == old(r).data,
            final(r).config == old(r).config,
            old(r).pos <= final(r).pos,
            match Self::wire_decode(old(r).rest(), old(r).config) {
                Some(p) => res is Ok && final(self).model() == p.0 && final(r).pos == old(r).pos
                    + p.1,
                None => res is Err,
            },
    ;
}

} // verus!

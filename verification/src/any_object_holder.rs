use vstd::prelude::*;

use crate::config::WireConfig;
use crate::error::DecodeError;
use crate::object::{ObjectModel, WireObject};
use crate::reader::Reader;
use crate::registry::{find_entry, HoldableObject, Registry};
use crate::rvtype::RVType;
use crate::wire_string::{str_decode, str_decode_err, str_valid, WireString};
use crate::wirebytes::{u32_from_le, u32_le};
use crate::writer::Writer;

verus! {

/// What decoding an envelope from a byte stream means: the resolved
/// prototype with the decoded payload model and the bytes consumed; a
/// failure of the envelope's own framing, with its exact error; a miss
/// in the registry, with the identifier that missed; or a failure inside
/// the resolved type's payload decode, whose kind that type picks.
pub enum EnvelopeOutcome {
    Done(HoldableObject, ObjectModel, nat),
    Fail(DecodeError),
    FailUnknown(Seq<u8>),
    FailPayload,
}

/// The canonical decode of an envelope: read the identifier, read the
/// frame length, check the frame against the bytes available, resolve the
/// identifier, and decode the payload as the resolved concrete type.
pub open spec fn env_outcome(
    bytes: Seq<u8>,
    config: WireConfig,
    entries: Seq<HoldableObject>,
) -> EnvelopeOutcome {
    match str_decode(bytes, config) {
        None => EnvelopeOutcome::Fail(str_decode_err(bytes, config)),
        Some(idp) => {
            let rest1 = bytes.skip(idp.1 as int);
            if rest1.len() < 4 {
                EnvelopeOutcome::Fail(DecodeError::IoFailure)
            } else {
                let frame = u32_from_le(rest1);
                let rest2 = rest1.skip(4);
                if frame < 4 {
                    EnvelopeOutcome::Fail(
                        DecodeError::MalformedFrame { expected: 4, available: frame as u64 },
                    )
                } else if rest2.len() < frame - 4 {
                    EnvelopeOutcome::Fail(
                        DecodeError::MalformedFrame {
                            expected: (frame - 4) as u64,
                            available: rest2.len() as u64,
                        },
                    )
                } else {
                    match find_entry(entries, idp.0) {
                        None => EnvelopeOutcome::FailUnknown(idp.0),
                        Some(proto) => match WireObject::obj_decode(
                            proto.value.model(),
                            rest2,
                            config,
                        ) {
                            None => EnvelopeOutcome::FailPayload,
                            Some(op) => EnvelopeOutcome::Done(
                                proto,
                                op.0,
                                (idp.1 + 4 + op.1) as nat,
                            ),
                        },
                    }
                }
            }
        },
    }
}

/// The polymorphic envelope: holds exactly one value behind the wire
/// value contract and carries it on the wire as a self-describing,
/// length-framed record `[identifier][frame length][payload]`, where the
/// frame length counts the payload plus its own four bytes.
#[derive(Debug)]
pub struct AnyObjectHolder {
    pub object: HoldableObject,
}

impl AnyObjectHolder {
    pub open spec fn inv(&self) -> bool {
        self.object.inv()
    }

    /// Whether this envelope can be represented under a configuration:
    /// the identifier and the held value fit their widths, and the frame
    /// length fits its four bytes.
    pub open spec fn wire_valid(&self, config: WireConfig) -> bool {
        &&& str_valid(self.object.id.data@, config)
        &&& self.object.value.wire_valid(config)
        &&& self.object.value.wire_spec(config).len() + 4 <= 0xffff_ffff
    }

    /// The exact byte image of the envelope: the identifier, then a
    /// four-byte frame length equal to the payload length plus four, then
    /// the payload.
    pub open spec fn env_wire(&self, config: WireConfig) -> Seq<u8> {
        self.object.id.wire_spec(config) + u32_le(
            (self.object.value.wire_spec(config).len() + 4) as u32,
        ) + self.object.value.wire_spec(config)
    }

    /// A fresh envelope holding the documented placeholder: the envelope
    /// is never in a value-less state.
    pub fn new() -> (r: AnyObjectHolder)
        ensures
            r.inv(),
            r.object.value.model() == ObjectModel::Dummy,
            r.object.id.data@ == Seq::<u8>::empty(),
    {
        AnyObjectHolder {
            object: HoldableObject { id: WireString::new(), value: WireObject::zero() },
        }
    }

    /// An envelope holding the given prototype.
    pub fn holding(object: HoldableObject) -> (r: AnyObjectHolder)
        ensures
            r.object == object,
    {
        AnyObjectHolder { object }
    }

    /// Encode the envelope: write the held value into a scratch writer,
    /// write the identifier, the frame length (payload plus four), and
    /// the payload bytes verbatim.
    pub fn write_to(&self, w: &mut Writer)
        requires
            self.inv(),
            old(w).config.wf(),
            self.wire_valid(old(w).config),
        ensures
            final(w).config == old(w).config,
            final(w)@ == old(w)@ + self.env_wire(old(w).config),
    {
        let mut content_writable = w.copy_new();
        self.object.value.write_to(&mut content_writable);
        let object_buffer = content_writable.bytes();
        proof {
            assert(object_buffer@.len() + 4 <= 0xffff_ffff);
        }
        let object_buffer_length: u32 = (object_buffer.len() + 4) as u32;
        self.object.id.write_to(w);
        w.write_u32_le(object_buffer_length);
        w.write(object_buffer.as_slice());
        proof {
            assert(w@ =~= old(w)@ + self.env_wire(old(w).config));
        }
    }

    /// Decode an envelope: read the identifier and the frame length,
    /// reject a frame that declares more bytes than are available,
    /// resolve the identifier against the registry, clone the resolved
    /// prototype, and decode the payload into the clone. Only on full
    /// success does the clone replace the held value: any failure leaves
    /// the previously held value untouched.
    pub fn extract_from(&mut self, r: &mut Reader, registry: &Registry) -> (res: Result<
        (),
        DecodeError,
    >)
        requires
            old(self).inv(),
            old(r).inv(),
            old(r).config.wf(),
            registry.inv(),
        ensures
            final(self).inv(),
            final(r).inv(),
            final(r).data == old(r).data,
            final(r).config == old(r).config,
            old(r).pos <= final(r).pos,
            res is Err ==> *final(self) == *old(self),
            match env_outcome(old(r).rest(), old(r).config, registry.entries@) {
                EnvelopeOutcome::Done(proto, m, used) => res is Ok
                    && final(self).object.id.data@ == proto.id.data@
                    && final(self).object.value.model() == m
                    && final(r).pos == old(r).pos + used,
                EnvelopeOutcome::Fail(e) => res == Err::<(), DecodeError>(e),
                EnvelopeOutcome::FailUnknown(id) => res matches Err(
                    DecodeError::UnknownTypeIdentifier(v),
                ) && v@ == id,
                EnvelopeOutcome::FailPayload => res is Err,
            },
    {
        let mut identifier = WireString::new();
        match identifier.read_from(r) {
            Err(e) => {
                return Err(e);
            },
            Ok(_) => {},
        }
        let ghost idp = str_decode(old(r).rest(), old(r).config)->Some_0;
        let ghost r1 = *r;
        proof {
            assert(r1.rest() =~= old(r).rest().skip(idp.1 as int));
        }
        let frame_len = match r.read_u32_le() {
            Err(e) => {
                return Err(e);
            },
            Ok(v) => v,
        };
        proof {
            assert(r.rest() =~= r1.rest().skip(4));
        }
        if frame_len < 4 {
            return Err(DecodeError::MalformedFrame { expected: 4, available: frame_len as u64 });
        }
        let rem = r.remaining();
        if rem < (frame_len - 4) as u64 {
            return Err(
                DecodeError::MalformedFrame { expected: (frame_len - 4) as u64, available: rem },
            );
        }
        let proto = match registry.lookup(&identifier) {
            None => {
                return Err(DecodeError::UnknownTypeIdentifier(identifier.data));
            },
            Some(p) => p,
        };
        let mut candidate = proto.copy_ref();
        match candidate.value.extract_from(r) {
            Err(e) => {
                return Err(e);
            },
            Ok(_) => {},
        }
        self.object = candidate;
        Ok(())
    }

    /// A deep duplicate of the envelope and the value it holds.
    pub fn copy(&self) -> (r: AnyObjectHolder)
        requires
            self.inv(),
        ensures
            r.inv(),
            r.object.id.data@ == self.object.id.data@,
            r.object.value.model() == self.object.value.model(),
    {
        AnyObjectHolder { object: self.object.copy_ref() }
    }

    /// Value equality of two envelopes: the held values are compared;
    /// a mismatch of concrete types resolves to an unequal result.
    pub fn equals(&self, other: &AnyObjectHolder) -> (r: bool)
        requires
            self.inv(),
            other.inv(),
        ensures
            r == WireObject::model_eq(self.object.value.model(), other.object.value.model()),
    {
        self.object.value.equals(&other.object.value)
    }
}

} // verus!

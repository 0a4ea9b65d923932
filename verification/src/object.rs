use vstd::prelude::*;

use crate::bool_type::Bool;
use crate::class_version_container::ClassVersionContainer;
use crate::config::WireConfig;
use crate::error::DecodeError;
use crate::pid::PID;
use crate::reader::Reader;
use crate::rv_map::{map_model_eq, models_wf, RvMap};
use crate::rvtype::RVType;
use crate::wire_string::WireString;
use crate::writer::Writer;

verus! {

/// A value of one of the concrete types an envelope can hold.
///
/// The `Dummy` variant is the documented placeholder a fresh envelope
/// holds: it writes nothing, reads nothing, and equals anything.
#[derive(Debug)]
pub enum WireObject {
    Dummy,
    Bool(Bool),
    Pid(PID),
    ClassVersions(ClassVersionContainer),
}

/// The mathematical value a held object stands for.
pub enum ObjectModel {
    Dummy,
    Bool(bool),
    Pid(u64),
    ClassVersions(Seq<(Seq<u8>, u16)>),
}

impl WireObject {
    pub open spec fn inv(&self) -> bool {
        match self {
            WireObject::Dummy => true,
            WireObject::Bool(b) => b.inv(),
            WireObject::Pid(p) => p.inv(),
            WireObject::ClassVersions(c) => c.inv(),
        }
    }

    pub open spec fn model(&self) -> ObjectModel {
        match self {
            WireObject::Dummy => ObjectModel::Dummy,
            WireObject::Bool(b) => ObjectModel::Bool(b.0),
            WireObject::Pid(p) => ObjectModel::Pid(p.0),
            WireObject::ClassVersions(c) => ObjectModel::ClassVersions(c.model()),
        }
    }

    /// Value equality of two held objects: the placeholder equals
    /// anything; anything else equals only a value of its own concrete
    /// type, and a type mismatch resolves to an unequal result.
    pub open spec fn model_eq(a: ObjectModel, b: ObjectModel) -> bool {
        match a {
            ObjectModel::Dummy => true,
            ObjectModel::Bool(x) => match b {
                ObjectModel::Bool(y) => x == y,
                _ => false,
            },
            ObjectModel::Pid(x) => match b {
                ObjectModel::Pid(y) => x == y,
                _ => false,
            },
            ObjectModel::ClassVersions(x) => match b {
                ObjectModel::ClassVersions(y) => map_model_eq::<WireString, u16>(x, y),
                _ => false,
            },
        }
    }

    /// Whether two models belong to the same concrete type.
    pub open spec fn same_variant(a: ObjectModel, b: ObjectModel) -> bool {
        match a {
            ObjectModel::Dummy => b is Dummy,
            ObjectModel::Bool(_) => b is Bool,
            ObjectModel::Pid(_) => b is Pid,
            ObjectModel::ClassVersions(_) => b is ClassVersions,
        }
    }

    pub open spec fn wire_spec(&self, config: WireConfig) -> Seq<u8> {
        match self {
            WireObject::Dummy => Seq::empty(),
            WireObject::Bool(b) => b.wire_spec(config),
            WireObject::Pid(p) => p.wire_spec(config),
            WireObject::ClassVersions(c) => c.wire_spec(config),
        }
    }

    pub open spec fn wire_valid(&self, config: WireConfig) -> bool {
        match self {
            WireObject::Dummy => true,
            WireObject::Bool(b) => b.wire_valid(config),
            WireObject::Pid(p) => p.wire_valid(config),
            WireObject::ClassVersions(c) => c.wire_valid(config),
        }
    }

    /// The canonical decode of a payload, directed by the concrete type of
    /// the prototype that the stream's identifier resolved to.
    pub open spec fn obj_decode(proto: ObjectModel, bytes: Seq<u8>, config: WireConfig) -> Option<
        (ObjectModel, nat),
    > {
        match proto {
            ObjectModel::Dummy => Some((ObjectModel::Dummy, 0nat)),
            ObjectModel::Bool(_) => match Bool::wire_decode(bytes, config) {
                None => None,
                Some(p) => Some((ObjectModel::Bool(p.0), p.1)),
            },
            ObjectModel::Pid(_) => match PID::wire_decode(bytes, config) {
                None => None,
                Some(p) => Some((ObjectModel::Pid(p.0), p.1)),
            },
            ObjectModel::ClassVersions(_) => match ClassVersionContainer::wire_decode(
                bytes,
                config,
            ) {
                None => None,
                Some(p) => Some((ObjectModel::ClassVersions(p.0), p.1)),
            },
        }
    }

    /// Decoding inverts encoding, under any prototype of the value's own
    /// concrete type.
    pub proof fn lemma_obj_roundtrip(
        a: WireObject,
        proto: ObjectModel,
        suffix: Seq<u8>,
        config: WireConfig,
    )
        requires
            a.inv(),
            a.wire_valid(config),
            config.wf(),
            WireObject::same_variant(proto, a.model()),
        ensures
            WireObject::obj_decode(proto, a.wire_spec(config) + suffix, config) == Some(
                (a.model(), a.wire_spec(config).len() as nat),
            ),
    {
        match a {
            WireObject::Dummy => {
                assert(a.wire_spec(config) + suffix =~= suffix);
            },
            WireObject::Bool(b) => {
                Bool::lemma_roundtrip(b, suffix, config);
            },
            WireObject::Pid(p) => {
                PID::lemma_roundtrip(p, suffix, config);
            },
            WireObject::ClassVersions(c) => {
                ClassVersionContainer::lemma_roundtrip(c, suffix, config);
            },
        }
    }

    /// The canonical empty value: the placeholder.
    pub fn zero() -> (r: WireObject)
        ensures
            r.inv(),
            r.model() == ObjectModel::Dummy,
    {
        WireObject::Dummy
    }

    /// A deep, independently owned duplicate.
    pub fn copy(&self) -> (r: WireObject)
        requires
            self.inv(),
        ensures
            r.inv(),
            r.model() == self.model(),
    {
        match self {
            WireObject::Dummy => WireObject::Dummy,
            WireObject::Bool(b) => WireObject::Bool(b.copy()),
            WireObject::Pid(p) => WireObject::Pid(p.copy()),
            WireObject::ClassVersions(c) => WireObject::ClassVersions(c.copy()),
        }
    }

    /// A cheap owned duplicate usable as a registry prototype stand-in.
    pub fn copy_ref(&self) -> (r: WireObject)
        requires
            self.inv(),
        ensures
            r.inv(),
            r.model() == self.model(),
    {
        self.copy()
    }

    /// Value equality against a value of possibly another concrete type.
    pub fn equals(&self, other: &WireObject) -> (r: bool)
        requires
            self.inv(),
            other.inv(),
        ensures
            r == WireObject::model_eq(self.model(), other.model()),
    {
        match self {
            WireObject::Dummy => true,
            WireObject::Bool(b) => match other {
                WireObject::Bool(o) => b.equals(o),
                _ => false,
            },
            WireObject::Pid(p) => match other {
                WireObject::Pid(o) => p.equals(o),
                _ => false,
            },
            WireObject::ClassVersions(c) => match other {
                WireObject::ClassVersions(o) => c.equals(o),
                _ => false,
            },
        }
    }

    /// Append this value's byte image to a writer.
    pub fn write_to(&self, w: &mut Writer)
        requires
            self.inv(),
            old(w).config.wf(),
            self.wire_valid(old(w).config),
        ensures
            final(w).config == old(w).config,
            final(w)@ == old(w)@ + self.wire_spec(old(w).config),
    {
        match self {
            WireObject::Dummy => {
                proof {
                    assert(w@ =~= w@ + Seq::<u8>::empty());
                }
            },
            WireObject::Bool(b) => b.write_to(w),
            WireObject::Pid(p) => p.write_to(w),
            WireObject::ClassVersions(c) => c.write_to(w),
        }
    }

    /// Decode a payload in place. The receiver's concrete type directs the
    /// decode; the decoded value replaces the receiver's value.
    pub fn extract_from(&mut self, r: &mut Reader) -> (res: Result<(), DecodeError>)
        requires
            old(self).inv(),
            old(r).inv(),
            old(r).config.wf(),
        ensures
            final(self).inv(),
            final(r).inv(),
            final(r).data == old(r).data,
            final(r).config == old(r).config,
            old(r).pos <= final(r).pos,
            match WireObject::obj_decode(old(self).model(), old(r).rest(), old(r).config) {
                Some(p) => res is Ok && final(self).model() == p.0 && final(r).pos == old(r).pos
                    + p.1,
                None => res is Err,
            },
    {
        match self {
            WireObject::Dummy => Ok(()),
            WireObject::Bool(b) => b.extract_from(r),
            WireObject::Pid(p) => p.extract_from(r),
            WireObject::ClassVersions(c) => c.extract_from(r),
        }
    }
}

/// Well-formedness of a held object's model, mirroring the value's own
/// well-formedness.
pub open spec fn object_model_wf(m: ObjectModel) -> bool {
    match m {
        ObjectModel::ClassVersions(x) => models_wf::<WireString, u16>(x),
        _ => true,
    }
}

/// A well-formed held object has a well-formed model.
pub proof fn lemma_object_inv_model_wf(v: WireObject)
    requires
        v.inv(),
    ensures
        object_model_wf(v.model()),
{
    match v {
        WireObject::ClassVersions(c) => {
            ClassVersionContainer::lemma_inv_model_wf(c);
        },
        _ => {},
    }
}

/// Value equality of held objects is reflexive on well-formed models.
pub proof fn lemma_object_model_eq_reflexive(m: ObjectModel)
    requires
        object_model_wf(m),
    ensures
        WireObject::model_eq(m, m),
{
    match m {
        ObjectModel::ClassVersions(x) => {
            <RvMap<WireString, u16> as RVType>::lemma_model_eq_reflexive(x);
        },
        _ => {},
    }
}

} // verus!

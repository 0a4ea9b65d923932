use vstd::prelude::*;

use crate::any_object_holder::{env_outcome, AnyObjectHolder, EnvelopeOutcome};
use crate::config::WireConfig;
use crate::object::{lemma_object_inv_model_wf, lemma_object_model_eq_reflexive, WireObject};
use crate::pid::PID;
use crate::registry::{find_entry, HoldableObject};
use crate::rv_map::{has_match, map_model_eq, model_insert};
use crate::rvtype::RVType;
use crate::wire_string::{str_decode, WireString};
use crate::wirebytes::{lemma_u32_from_le_prefix, lemma_u32_le_roundtrip, u32_from_le, u32_le};

verus! {

/// Round trip: an envelope holding a representable value, whose
/// identifier resolves in the registry to a prototype of the value's own
/// concrete type, decodes from its own byte image back to the value it
/// held, consuming exactly that image.
pub proof fn lemma_envelope_roundtrip(
    e: AnyObjectHolder,
    proto: HoldableObject,
    entries: Seq<HoldableObject>,
    suffix: Seq<u8>,
    config: WireConfig,
)
    requires
        e.inv(),
        e.wire_valid(config),
        config.wf(),
        find_entry(entries, e.object.id.data@) == Some(proto),
        WireObject::same_variant(proto.value.model(), e.object.value.model()),
    ensures
        env_outcome(e.env_wire(config) + suffix, config, entries) == EnvelopeOutcome::Done(
            proto,
            e.object.value.model(),
            e.env_wire(config).len() as nat,
        ),
{
    let idb = e.object.id.wire_spec(config);
    let payload = e.object.value.wire_spec(config);
    let frame = u32_le((payload.len() + 4) as u32);
    let bytes = e.env_wire(config) + suffix;
    assert(bytes =~= idb + (frame + (payload + suffix)));
    WireString::lemma_roundtrip(e.object.id, frame + (payload + suffix), config);
    assert(str_decode(bytes, config) == Some((e.object.id.data@, idb.len() as nat)));
    let rest1 = bytes.skip(idb.len() as int);
    assert(rest1 =~= frame + (payload + suffix));
    assert(frame.is_prefix_of(rest1));
    lemma_u32_from_le_prefix(frame, rest1);
    lemma_u32_le_roundtrip((payload.len() + 4) as u32);
    assert(u32_from_le(rest1) == payload.len() + 4);
    let rest2 = rest1.skip(4);
    assert(rest2 =~= payload + suffix);
    WireObject::lemma_obj_roundtrip(e.object.value, proto.value.model(), suffix, config);
    assert(WireObject::obj_decode(proto.value.model(), rest2, config) == Some(
        (e.object.value.model(), payload.len() as nat),
    ));
}

/// Round trip, closed at the equality operation: the value decoded from
/// an envelope's own byte image compares equal, in both directions, to
/// the value that was encoded.
pub proof fn lemma_roundtrip_equality(
    e: AnyObjectHolder,
    proto: HoldableObject,
    entries: Seq<HoldableObject>,
    suffix: Seq<u8>,
    config: WireConfig,
)
    requires
        e.inv(),
        e.wire_valid(config),
        config.wf(),
        find_entry(entries, e.object.id.data@) == Some(proto),
        WireObject::same_variant(proto.value.model(), e.object.value.model()),
    ensures
        match env_outcome(e.env_wire(config) + suffix, config, entries) {
            EnvelopeOutcome::Done(_, m, _) => WireObject::model_eq(m, e.object.value.model())
                && WireObject::model_eq(e.object.value.model(), m),
            _ => false,
        },
{
    lemma_envelope_roundtrip(e, proto, entries, suffix, config);
    lemma_object_inv_model_wf(e.object.value);
    lemma_object_model_eq_reflexive(e.object.value.model());
}

/// Frame length invariant: in every encoded envelope the four-byte field
/// after the identifier reads back as the payload length plus four,
/// exactly.
pub proof fn lemma_frame_length(e: AnyObjectHolder, config: WireConfig)
    requires
        e.inv(),
        e.wire_valid(config),
        config.wf(),
    ensures
        ({
            let idb = e.object.id.wire_spec(config);
            let payload = e.object.value.wire_spec(config);
            &&& e.env_wire(config) == idb + u32_le((payload.len() + 4) as u32) + payload
            &&& u32_from_le(e.env_wire(config).skip(idb.len() as int)) == payload.len() + 4
        }),
{
    let idb = e.object.id.wire_spec(config);
    let payload = e.object.value.wire_spec(config);
    let frame = u32_le((payload.len() + 4) as u32);
    assert(e.env_wire(config).skip(idb.len() as int) =~= frame + payload);
    assert(frame.is_prefix_of(frame + payload));
    lemma_u32_from_le_prefix(frame, frame + payload);
    lemma_u32_le_roundtrip((payload.len() + 4) as u32);
}

/// Container equality is order-independent: inserting the same two pairs
/// with unequal keys in either order into two fresh containers gives
/// mappings that compare equal.
pub proof fn lemma_insert_order_independent<K: RVType, V: RVType>(
    k1: K::Model,
    v1: V::Model,
    k2: K::Model,
    v2: V::Model,
)
    requires
        K::model_wf(k1),
        V::model_wf(v1),
        K::model_wf(k2),
        V::model_wf(v2),
        !K::model_eq(k1, k2),
    ensures
        map_model_eq::<K, V>(
            model_insert::<K, V>(model_insert::<K, V>(Seq::empty(), k1, v1), k2, v2),
            model_insert::<K, V>(model_insert::<K, V>(Seq::empty(), k2, v2), k1, v1),
        ),
{
    let a = model_insert::<K, V>(model_insert::<K, V>(Seq::empty(), k1, v1), k2, v2);
    let b = model_insert::<K, V>(model_insert::<K, V>(Seq::empty(), k2, v2), k1, v1);
    assert(!K::model_eq(k2, k1)) by {
        if K::model_eq(k2, k1) {
            K::lemma_model_eq_symmetric(k2, k1);
        }
    }
    let s1 = model_insert::<K, V>(Seq::empty(), k1, v1);
    let s2 = model_insert::<K, V>(Seq::empty(), k2, v2);
    assert(s1 =~= seq![(k1, v1)]);
    assert(s2 =~= seq![(k2, v2)]);
    assert(s1.skip(1) =~= Seq::<(K::Model, V::Model)>::empty());
    assert(s2.skip(1) =~= Seq::<(K::Model, V::Model)>::empty());
    assert(model_insert::<K, V>(Seq::empty(), k2, v2) =~= seq![(k2, v2)]);
    assert(model_insert::<K, V>(Seq::empty(), k1, v1) =~= seq![(k1, v1)]);
    assert(a =~= seq![(k1, v1), (k2, v2)]);
    assert(b =~= seq![(k2, v2), (k1, v1)]);
    K::lemma_model_eq_reflexive(k1);
    K::lemma_model_eq_reflexive(k2);
    V::lemma_model_eq_reflexive(v1);
    V::lemma_model_eq_reflexive(v2);
    assert forall|i: int| 0 <= i < a.len() implies #[trigger] has_match::<K, V>(a, b, i) by {
        if i == 0 {
            assert(0 <= 1 < b.len() && K::model_eq(a[0].0, b[1].0) && V::model_eq(a[0].1, b[1].1));
        } else {
            assert(0 <= 0 < b.len() && K::model_eq(a[1].0, b[0].0) && V::model_eq(a[1].1, b[0].1));
        }
    }
    assert forall|i: int| 0 <= i < b.len() implies #[trigger] has_match::<K, V>(b, a, i) by {
        if i == 0 {
            assert(0 <= 1 < a.len() && K::model_eq(b[0].0, a[1].0) && V::model_eq(b[0].1, a[1].1));
        } else {
            assert(0 <= 0 < a.len() && K::model_eq(b[1].0, a[0].0) && V::model_eq(b[1].1, a[0].1));
        }
    }
}

/// Configuration sensitivity, identifier width: the same process
/// identifier occupies four bytes under `pid_size` four and eight bytes
/// under `pid_size` eight, and it round-trips under each configuration.
pub proof fn lemma_config_sensitivity_pid(p: PID, c4: WireConfig, c8: WireConfig, suffix: Seq<u8>)
    requires
        c4.wf(),
        c8.wf(),
        c4.pid_size == 4,
        c8.pid_size == 8,
        p.wire_valid(c4),
    ensures
        p.wire_spec(c4).len() == 4,
        p.wire_spec(c8).len() == 8,
        PID::wire_decode(p.wire_spec(c4) + suffix, c4) == Some((p.model(), 4nat)),
        PID::wire_decode(p.wire_spec(c8) + suffix, c8) == Some((p.model(), 8nat)),
{
    PID::lemma_roundtrip(p, suffix, c4);
    PID::lemma_roundtrip(p, suffix, c8);
}

/// Configuration sensitivity, string length width: the same string
/// occupies two more bytes under the four-byte length prefix than under
/// the two-byte one, and it round-trips under each configuration.
pub proof fn lemma_config_sensitivity_string(
    s: WireString,
    c2: WireConfig,
    c4: WireConfig,
    suffix: Seq<u8>,
)
    requires
        c2.wf(),
        c4.wf(),
        c2.string_length_size == 2,
        c4.string_length_size == 4,
        s.wire_valid(c2),
    ensures
        s.wire_spec(c2).len() == s.data@.len() + 3,
        s.wire_spec(c4).len() == s.data@.len() + 5,
        WireString::wire_decode(s.wire_spec(c2) + suffix, c2) == Some(
            (s.data@, (s.data@.len() + 3) as nat),
        ),
        WireString::wire_decode(s.wire_spec(c4) + suffix, c4) == Some(
            (s.data@, (s.data@.len() + 5) as nat),
        ),
{
    assert(s.wire_valid(c4));
    WireString::lemma_roundtrip(s, suffix, c2);
    WireString::lemma_roundtrip(s, suffix, c4);
}

} // verus!

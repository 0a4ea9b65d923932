use vstd::prelude::*;

use crate::config::WireConfig;
use crate::error::DecodeError;
use crate::reader::Reader;
use crate::rvtype::RVType;
use crate::wirebytes::{lemma_u32_from_le_prefix, lemma_u32_le_roundtrip, u32_from_le, u32_le};
use crate::writer::Writer;

verus! {

/// The models of a sequence of key/value entries.
pub open spec fn pair_models<K: RVType, V: RVType>(s: Seq<(K, V)>) -> Seq<(K::Model, V::Model)> {
    s.map_values(|p: (K, V)| (p.0.model(), p.1.model()))
}

/// How `pair_models` relates to the entries, index by index.
pub proof fn lemma_pair_models_index<K: RVType, V: RVType>(s: Seq<(K, V)>)
    ensures
        pair_models::<K, V>(s).len() == s.len(),
        forall|i: int| #![trigger pair_models::<K, V>(s)[i]]
            0 <= i < s.len() ==> pair_models::<K, V>(s)[i] == (s[i].0.model(), s[i].1.model()),
{
}

/// Every entry of the sequence is well formed.
pub open spec fn entries_inv<K: RVType, V: RVType>(s: Seq<(K, V)>) -> bool {
    forall|i: int| #![trigger s[i]] 0 <= i < s.len() ==> s[i].0.inv() && s[i].1.inv()
}

/// Every entry of the sequence is representable under the configuration.
pub open spec fn entries_wire_valid<K: RVType, V: RVType>(
    s: Seq<(K, V)>,
    config: WireConfig,
) -> bool {
    forall|i: int| #![trigger s[i]]
        0 <= i < s.len() ==> s[i].0.wire_valid(config) && s[i].1.wire_valid(config)
}

/// Every model pair of the sequence is well formed.
pub open spec fn models_wf<K: RVType, V: RVType>(s: Seq<(K::Model, V::Model)>) -> bool {
    forall|i: int| #![trigger s[i]] 0 <= i < s.len() ==> K::model_wf(s[i].0) && V::model_wf(s[i].1)
}

/// No two entries carry equal keys.
pub open spec fn keys_unique<K: RVType, V: RVType>(s: Seq<(K::Model, V::Model)>) -> bool {
    forall|i: int, j: int| #![trigger s[i], s[j]]
        0 <= i < s.len() && 0 <= j < s.len() && i != j ==> !K::model_eq(s[i].0, s[j].0)
}

/// Whether some pair of `b` equals pair `i` of `a` in key and value.
pub open spec fn has_match<K: RVType, V: RVType>(
    a: Seq<(K::Model, V::Model)>,
    b: Seq<(K::Model, V::Model)>,
    i: int,
) -> bool {
    exists|j: int|
        0 <= j < b.len() && #[trigger] K::model_eq(a[i].0, b[j].0) && V::model_eq(a[i].1, b[j].1)
}

/// Every pair of `a` has an equal key with an equal value somewhere in `b`.
pub open spec fn pairs_contained<K: RVType, V: RVType>(
    a: Seq<(K::Model, V::Model)>,
    b: Seq<(K::Model, V::Model)>,
) -> bool {
    forall|i: int| 0 <= i < a.len() ==> #[trigger] has_match::<K, V>(a, b, i)
}

/// Order-independent content equality of two mappings: same cardinality and
/// mutual containment.
pub open spec fn map_model_eq<K: RVType, V: RVType>(
    a: Seq<(K::Model, V::Model)>,
    b: Seq<(K::Model, V::Model)>,
) -> bool {
    a.len() == b.len() && pairs_contained::<K, V>(a, b) && pairs_contained::<K, V>(b, a)
}

#[verifier::rlimit(30)]
proof fn lemma_contained_trans<K: RVType, V: RVType>(
    a: Seq<(K::Model, V::Model)>,
    b: Seq<(K::Model, V::Model)>,
    c: Seq<(K::Model, V::Model)>,
)
    requires
        models_wf::<K, V>(a),
        models_wf::<K, V>(b),
        models_wf::<K, V>(c),
        pairs_contained::<K, V>(a, b),
        pairs_contained::<K, V>(b, c),
    ensures
        pairs_contained::<K, V>(a, c),
{
    assert forall|i: int| 0 <= i < a.len() implies #[trigger] has_match::<K, V>(a, c, i) by {
        let p = a[i];
        assert(has_match::<K, V>(a, b, i));
        let j = choose|j: int|
            0 <= j < b.len() && #[trigger] K::model_eq(a[i].0, b[j].0) && V::model_eq(
                a[i].1,
                b[j].1,
            );
        assert(has_match::<K, V>(b, c, j));
        let l = choose|l: int|
            0 <= l < c.len() && #[trigger] K::model_eq(b[j].0, c[l].0) && V::model_eq(
                b[j].1,
                c[l].1,
            );
        K::lemma_model_eq_transitive(a[i].0, b[j].0, c[l].0);
        V::lemma_model_eq_transitive(a[i].1, b[j].1, c[l].1);
        assert(0 <= l < c.len() && K::model_eq(a[i].0, c[l].0) && V::model_eq(a[i].1, c[l].1));
    }
}

/// The effect of an insertion on the model: replace the value behind an
/// equal key, or append a fresh pair at the end.
pub open spec fn model_insert<K: RVType, V: RVType>(
    s: Seq<(K::Model, V::Model)>,
    k: K::Model,
    v: V::Model,
) -> Seq<(K::Model, V::Model)>
    decreases s.len(),
{
    if s.len() == 0 {
        seq![(k, v)]
    } else if K::model_eq(s[0].0, k) {
        seq![(s[0].0, v)] + s.skip(1)
    } else {
        seq![s[0]] + model_insert::<K, V>(s.skip(1), k, v)
    }
}

proof fn lemma_model_insert_at<K: RVType, V: RVType>(
    s: Seq<(K::Model, V::Model)>,
    k: K::Model,
    v: V::Model,
    j: int,
)
    requires
        0 <= j < s.len(),
        K::model_eq(s[j].0, k),
        forall|i: int| #![trigger s[i]] 0 <= i < j ==> !K::model_eq(s[i].0, k),
    ensures
        model_insert::<K, V>(s, k, v) == s.update(j, (s[j].0, v)),
    decreases j,
{
    if j == 0 {
        assert(model_insert::<K, V>(s, k, v) =~= s.update(0, (s[0].0, v)));
    } else {
        assert(!K::model_eq(s[0].0, k));
        assert(s.skip(1)[j - 1] == s[j]);
        assert(forall|i: int| #![trigger s.skip(1)[i]]
            0 <= i < j - 1 ==> s.skip(1)[i] == s[i + 1] && !K::model_eq(s.skip(1)[i].0, k));
        lemma_model_insert_at::<K, V>(s.skip(1), k, v, j - 1);
        assert(seq![s[0]] + s.skip(1).update(j - 1, (s[j].0, v)) =~= s.update(j, (s[j].0, v)));
    }
}

proof fn lemma_model_insert_append<K: RVType, V: RVType>(
    s: Seq<(K::Model, V::Model)>,
    k: K::Model,
    v: V::Model,
)
    requires
        forall|i: int| #![trigger s[i]] 0 <= i < s.len() ==> !K::model_eq(s[i].0, k),
    ensures
        model_insert::<K, V>(s, k, v) == s.push((k, v)),
    decreases s.len(),
{
    if s.len() == 0 {
        assert(model_insert::<K, V>(s, k, v) =~= s.push((k, v)));
    } else {
        assert(forall|i: int| #![trigger s.skip(1)[i]]
            0 <= i < s.skip(1).len() ==> s.skip(1)[i] == s[i + 1] && !K::model_eq(
                s.skip(1)[i].0,
                k,
            ));
        lemma_model_insert_append::<K, V>(s.skip(1), k, v);
        assert(seq![s[0]] + s.skip(1).push((k, v)) =~= s.push((k, v)));
    }
}

proof fn lemma_model_insert_models_wf<K: RVType, V: RVType>(
    s: Seq<(K::Model, V::Model)>,
    k: K::Model,
    v: V::Model,
)
    requires
        models_wf::<K, V>(s),
        K::model_wf(k),
        V::model_wf(v),
    ensures
        models_wf::<K, V>(model_insert::<K, V>(s, k, v)),
    decreases s.len(),
{
    if s.len() == 0 {
    } else if K::model_eq(s[0].0, k) {
        let r = seq![(s[0].0, v)] + s.skip(1);
        assert(forall|i: int| #![trigger r[i]]
            0 <= i < r.len() ==> K::model_wf(r[i].0) && V::model_wf(r[i].1)) by {
            assert(forall|i: int| #![trigger r[i]] 1 <= i < r.len() ==> r[i] == s[i]);
        }
    } else {
        assert(forall|i: int| #![trigger s.skip(1)[i]]
            0 <= i < s.skip(1).len() ==> s.skip(1)[i] == s[i + 1]);
        lemma_model_insert_models_wf::<K, V>(s.skip(1), k, v);
        let t = model_insert::<K, V>(s.skip(1), k, v);
        let r = seq![s[0]] + t;
        assert(forall|i: int| #![trigger r[i]]
            0 <= i < r.len() ==> K::model_wf(r[i].0) && V::model_wf(r[i].1)) by {
            assert(forall|i: int| #![trigger r[i]] 1 <= i < r.len() ==> r[i] == t[i - 1]);
        }
    }
}

/// The concatenated byte images of a sequence of entries, keys first.
pub open spec fn pairs_wire<K: RVType, V: RVType>(s: Seq<(K, V)>, config: WireConfig) -> Seq<u8>
    decreases s.len(),
{
    if s.len() == 0 {
        Seq::empty()
    } else {
        s[0].0.wire_spec(config) + s[0].1.wire_spec(config) + pairs_wire::<K, V>(s.skip(1), config)
    }
}

proof fn lemma_pairs_wire_snoc<K: RVType, V: RVType>(s: Seq<(K, V)>, i: int, config: WireConfig)
    requires
        0 <= i < s.len(),
    ensures
        pairs_wire::<K, V>(s.take(i + 1), config) == pairs_wire::<K, V>(s.take(i), config)
            + s[i].0.wire_spec(config) + s[i].1.wire_spec(config),
    decreases i,
{
    if i == 0 {
        assert(s.take(1)[0] == s[0]);
        assert(s.take(1).skip(1) =~= Seq::<(K, V)>::empty());
        assert(s.take(0) =~= Seq::<(K, V)>::empty());
        assert(pairs_wire::<K, V>(s.take(1), config) =~= pairs_wire::<K, V>(s.take(0), config)
            + s[0].0.wire_spec(config) + s[0].1.wire_spec(config));
    } else {
        assert(s.skip(1)[i - 1] == s[i]);
        lemma_pairs_wire_snoc::<K, V>(s.skip(1), i - 1, config);
        assert(s.take(i + 1)[0] == s[0]);
        assert(s.take(i + 1).len() == i + 1);
        assert(s.take(i + 1).skip(1) =~= s.skip(1).take(i));
        assert(s.take(i)[0] == s[0]);
        assert(s.take(i).skip(1) =~= s.skip(1).take(i - 1));
        assert(pairs_wire::<K, V>(s.take(i + 1), config) =~= pairs_wire::<K, V>(s.take(i), config)
            + s[i].0.wire_spec(config) + s[i].1.wire_spec(config));
    }
}

/// The canonical decode of `n` key/value pairs, inserted in order into an
/// accumulated mapping model.
pub open spec fn pairs_decode<K: RVType, V: RVType>(
    bytes: Seq<u8>,
    config: WireConfig,
    n: nat,
    acc: Seq<(K::Model, V::Model)>,
) -> Option<(Seq<(K::Model, V::Model)>, nat)>
    decreases n,
{
    if n == 0 {
        Some((acc, 0nat))
    } else {
        match K::wire_decode(bytes, config) {
            None => None,
            Some(kp) => match V::wire_decode(bytes.skip(kp.1 as int), config) {
                None => None,
                Some(vp) => match pairs_decode::<K, V>(
                    bytes.skip((kp.1 + vp.1) as int),
                    config,
                    (n - 1) as nat,
                    model_insert::<K, V>(acc, kp.0, vp.0),
                ) {
                    None => None,
                    Some(p) => Some((p.0, (kp.1 + vp.1 + p.1) as nat)),
                },
            },
        }
    }
}

proof fn lemma_pairs_decode_wf<K: RVType, V: RVType>(
    bytes: Seq<u8>,
    config: WireConfig,
    n: nat,
    acc: Seq<(K::Model, V::Model)>,
)
    requires
        config.wf(),
        models_wf::<K, V>(acc),
    ensures
        pairs_decode::<K, V>(bytes, config, n, acc) matches Some(p) ==> p.1 <= bytes.len()
            && models_wf::<K, V>(p.0),
    decreases n,
{
    if n != 0 {
        match K::wire_decode(bytes, config) {
            None => {},
            Some(kp) => {
                K::lemma_decode_wf(bytes, config);
                match V::wire_decode(bytes.skip(kp.1 as int), config) {
                    None => {},
                    Some(vp) => {
                        V::lemma_decode_wf(bytes.skip(kp.1 as int), config);
                        lemma_model_insert_models_wf::<K, V>(acc, kp.0, vp.0);
                        lemma_pairs_decode_wf::<K, V>(
                            bytes.skip((kp.1 + vp.1) as int),
                            config,
                            (n - 1) as nat,
                            model_insert::<K, V>(acc, kp.0, vp.0),
                        );
                    },
                }
            },
        }
    }
}

#[verifier::rlimit(60)]
proof fn lemma_pairs_roundtrip<K: RVType, V: RVType>(
    s: Seq<(K, V)>,
    suffix: Seq<u8>,
    config: WireConfig,
    acc: Seq<(K::Model, V::Model)>,
)
    requires
        config.wf(),
        entries_inv::<K, V>(s),
        entries_wire_valid::<K, V>(s, config),
        keys_unique::<K, V>(pair_models(s)),
        forall|i: int, j: int| #![trigger s[i], acc[j]]
            0 <= i < s.len() && 0 <= j < acc.len() ==> !K::model_eq(acc[j].0, s[i].0.model()),
    ensures
        pairs_decode::<K, V>(pairs_wire::<K, V>(s, config) + suffix, config, s.len() as nat, acc)
            == Some((acc + pair_models(s), pairs_wire::<K, V>(s, config).len() as nat)),
    decreases s.len(),
{
    lemma_pair_models_index::<K, V>(s);
    if s.len() == 0 {
        assert(pairs_wire::<K, V>(s, config) =~= Seq::<u8>::empty());
        assert(acc + pair_models(s) =~= acc);
    } else {
        let k0 = s[0].0;
        let v0 = s[0].1;
        let kb = k0.wire_spec(config);
        let vb = v0.wire_spec(config);
        let tail = pairs_wire::<K, V>(s.skip(1), config);
        let bytes = pairs_wire::<K, V>(s, config) + suffix;
        assert(pairs_wire::<K, V>(s, config) == kb + vb + tail);
        assert(bytes =~= kb + (vb + (tail + suffix)));
        K::lemma_roundtrip(k0, vb + (tail + suffix), config);
        assert(K::wire_decode(bytes, config) == Some((k0.model(), kb.len() as nat)));
        assert(bytes.skip(kb.len() as int) =~= vb + (tail + suffix));
        V::lemma_roundtrip(v0, tail + suffix, config);
        assert(V::wire_decode(bytes.skip(kb.len() as int), config) == Some(
            (v0.model(), vb.len() as nat),
        ));
        assert(bytes.skip((kb.len() + vb.len()) as int) =~= tail + suffix);
        assert(forall|j: int| #![trigger acc[j]]
            0 <= j < acc.len() ==> !K::model_eq(acc[j].0, k0.model()));
        lemma_model_insert_append::<K, V>(acc, k0.model(), v0.model());
        let acc2 = acc.push((k0.model(), v0.model()));
        lemma_pair_models_index::<K, V>(s.skip(1));
        assert(forall|i: int| #![trigger s.skip(1)[i]]
            0 <= i < s.skip(1).len() ==> s.skip(1)[i] == s[i + 1]);
        assert(keys_unique::<K, V>(pair_models(s.skip(1)))) by {
            assert(forall|i: int| #![trigger pair_models::<K, V>(s.skip(1))[i]]
                0 <= i < s.skip(1).len() ==> pair_models::<K, V>(s.skip(1))[i]
                    == pair_models::<K, V>(s)[i + 1]);
        }
        assert(entries_inv::<K, V>(s.skip(1)));
        assert(entries_wire_valid::<K, V>(s.skip(1), config));
        assert forall|i: int, j: int|
            0 <= i < s.skip(1).len() && 0 <= j < acc2.len() implies !K::model_eq(
            (#[trigger] acc2[j]).0,
            (#[trigger] s.skip(1)[i]).0.model(),
        ) by {
            assert(s.skip(1)[i] == s[i + 1]);
            if j < acc.len() {
                assert(acc2[j] == acc[j]);
                assert(!K::model_eq(acc[j].0, s[i + 1].0.model()));
            } else {
                assert(acc2[j] == (k0.model(), v0.model()));
                assert(pair_models::<K, V>(s)[0].0 == k0.model());
                assert(pair_models::<K, V>(s)[i + 1].0 == s[i + 1].0.model());
                assert(!K::model_eq(pair_models::<K, V>(s)[0].0, pair_models::<K, V>(s)[i + 1].0));
            }
        }
        lemma_pairs_roundtrip::<K, V>(s.skip(1), suffix, config, acc2);
        assert(acc2 + pair_models(s.skip(1)) =~= acc + pair_models(s));
    }
}

/// The generic associative container: a count-prefixed sequence of
/// key/value pairs, each encoded through its own wire value contract. Keys
/// are unique; equality is order-independent content equality.
#[derive(Debug)]
pub struct RvMap<K, V> {
    pub entries: Vec<(K, V)>,
}

/// Whether some entry of `b` matches pair `i` of `a` in key and value.
fn find_match<K: RVType, V: RVType>(a: &RvMap<K, V>, b: &RvMap<K, V>, i: usize) -> (r: bool)
    requires
        a.inv(),
        b.inv(),
        i < a.entries@.len(),
    ensures
        r == has_match::<K, V>(pair_models(a.entries@), pair_models(b.entries@), i as int),
{
    let m = b.entries.len();
    let mut j: usize = 0;
    while j < m
        invariant
            a.inv(),
            b.inv(),
            i < a.entries@.len(),
            m == b.entries@.len(),
            j <= m,
            forall|j2: int| #![trigger pair_models::<K, V>(b.entries@)[j2]]
                0 <= j2 < j ==> !(K::model_eq(
                    pair_models::<K, V>(a.entries@)[i as int].0,
                    pair_models::<K, V>(b.entries@)[j2].0,
                ) && V::model_eq(
                    pair_models::<K, V>(a.entries@)[i as int].1,
                    pair_models::<K, V>(b.entries@)[j2].1,
                )),
        decreases m - j,
    {
        proof {
            lemma_pair_models_index::<K, V>(a.entries@);
            lemma_pair_models_index::<K, V>(b.entries@);
            assert(a.entries@[i as int].0.inv() && a.entries@[i as int].1.inv());
            assert(b.entries@[j as int].0.inv() && b.entries@[j as int].1.inv());
        }
        if a.entries[i].0.equals(&b.entries[j].0) && a.entries[i].1.equals(&b.entries[j].1) {
            proof {
                assert(K::model_eq(
                    pair_models::<K, V>(a.entries@)[i as int].0,
                    pair_models::<K, V>(b.entries@)[j as int].0,
                ));
                assert(V::model_eq(
                    pair_models::<K, V>(a.entries@)[i as int].1,
                    pair_models::<K, V>(b.entries@)[j as int].1,
                ));
                assert(has_match::<K, V>(
                    pair_models(a.entries@),
                    pair_models(b.entries@),
                    i as int,
                ));
            }
            return true;
        }
        j = j + 1;
    }
    proof {
        lemma_pair_models_index::<K, V>(a.entries@);
        lemma_pair_models_index::<K, V>(b.entries@);
        assert(!has_match::<K, V>(pair_models(a.entries@), pair_models(b.entries@), i as int)) by {
            if has_match::<K, V>(pair_models(a.entries@), pair_models(b.entries@), i as int) {
                let j2 = choose|j2: int|
                    0 <= j2 < pair_models::<K, V>(b.entries@).len() && #[trigger] K::model_eq(
                        pair_models::<K, V>(a.entries@)[i as int].0,
                        pair_models::<K, V>(b.entries@)[j2].0,
                    ) && V::model_eq(
                        pair_models::<K, V>(a.entries@)[i as int].1,
                        pair_models::<K, V>(b.entries@)[j2].1,
                    );
                assert(pair_models::<K, V>(b.entries@)[j2] == pair_models::<K, V>(b.entries@)[j2]);
                assert(false);
            }
        }
    }
    false
}

/// Whether every pair of `a` has an equal pair in `b`.
fn contained_in<K: RVType, V: RVType>(a: &RvMap<K, V>, b: &RvMap<K, V>) -> (r: bool)
    requires
        a.inv(),
        b.inv(),
    ensures
        r == pairs_contained::<K, V>(pair_models(a.entries@), pair_models(b.entries@)),
{
    let n = a.entries.len();
    let mut i: usize = 0;
    while i < n
        invariant
            a.inv(),
            b.inv(),
            n == a.entries@.len(),
            i <= n,
            forall|i2: int|
                0 <= i2 < i ==> #[trigger] has_match::<K, V>(
                    pair_models(a.entries@),
                    pair_models(b.entries@),
                    i2,
                ),
        decreases n - i,
    {
        proof {
            lemma_pair_models_index::<K, V>(a.entries@);
            lemma_pair_models_index::<K, V>(b.entries@);
        }
        if !find_match(a, b, i) {
            proof {
                assert(0 <= i < pair_models::<K, V>(a.entries@).len());
                assert(!pairs_contained::<K, V>(pair_models(a.entries@), pair_models(b.entries@)));
            }
            return false;
        }
        i = i + 1;
    }
    proof {
        lemma_pair_models_index::<K, V>(a.entries@);
        lemma_pair_models_index::<K, V>(b.entries@);
        assert(pairs_contained::<K, V>(pair_models(a.entries@), pair_models(b.entries@)));
    }
    true
}

impl<K: RVType, V: RVType> RvMap<K, V> {
    /// A fresh, empty mapping.
    pub fn new() -> (r: Self)
        ensures
            r.inv(),
            r.entries@.len() == 0,
            r.model() == Seq::<(K::Model, V::Model)>::empty(),
    {
        let r = RvMap { entries: Vec::new() };
        proof {
            assert(pair_models(r.entries@) =~= Seq::<(K::Model, V::Model)>::empty());
        }
        r
    }

    /// Bind a value to a key: replace the value behind an equal key, or
    /// append a fresh pair. A later insertion under an equal key wins.
    pub fn insert(&mut self, k: K, v: V)
        requires
            old(self).inv(),
            k.inv(),
            v.inv(),
        ensures
            final(self).inv(),
            final(self).model() == model_insert::<K, V>(old(self).model(), k.model(), v.model()),
    {
        proof {
            K::lemma_inv_model_wf(k);
            lemma_pair_models_index::<K, V>(self.entries@);
        }
        let ghost km = k.model();
        let ghost vm = v.model();
        let ghost s0 = pair_models(self.entries@);
        let n = self.entries.len();
        let mut j: usize = 0;
        while j < n
            invariant
                self == old(self),
                self.inv(),
                k.inv(),
                v.inv(),
                n == self.entries@.len(),
                j <= n,
                km == k.model(),
                vm == v.model(),
                s0 == pair_models::<K, V>(self.entries@),
                forall|i: int| #![trigger s0[i]] 0 <= i < j ==> !K::model_eq(s0[i].0, km),
            decreases n - j,
        {
            proof {
                lemma_pair_models_index::<K, V>(self.entries@);
                assert(self.entries@[j as int].0.inv());
            }
            if self.entries[j].0.equals(&k) {
                let prev = self.entries.remove(j);
                self.entries.insert(j, (prev.0, v));
                proof {
                    lemma_model_insert_at::<K, V>(s0, km, vm, j as int);
                    assert(self.entries@ =~= old(self).entries@.update(
                        j as int,
                        (old(self).entries@[j as int].0, v),
                    ));
                    lemma_pair_models_index::<K, V>(self.entries@);
                    lemma_pair_models_index::<K, V>(old(self).entries@);
                    assert(pair_models(self.entries@) =~= s0.update(j as int, (s0[j as int].0, vm)));
                    assert(entries_inv::<K, V>(self.entries@)) by {
                        assert(forall|i: int| #![trigger self.entries@[i]]
                            0 <= i < self.entries@.len() && i != j ==> self.entries@[i] == old(
                                self,
                            ).entries@[i]);
                    }
                    assert(keys_unique::<K, V>(pair_models(self.entries@))) by {
                        assert(forall|i: int| #![trigger pair_models::<K, V>(self.entries@)[i]]
                            0 <= i < s0.len() ==> pair_models::<K, V>(self.entries@)[i].0
                                == s0[i].0);
                    }
                }
                return ;
            }
            j = j + 1;
        }
        proof {
            lemma_model_insert_append::<K, V>(s0, km, vm);
            assert forall|i: int| 0 <= i < s0.len() implies !K::model_eq(km, (#[trigger] s0[i]).0)
                by {
                if K::model_eq(km, s0[i].0) {
                    lemma_pair_models_index::<K, V>(self.entries@);
                    K::lemma_inv_model_wf(self.entries@[i].0);
                    K::lemma_model_eq_symmetric(km, s0[i].0);
                }
            }
        }
        self.entries.push((k, v));
        proof {
            lemma_pair_models_index::<K, V>(self.entries@);
            lemma_pair_models_index::<K, V>(old(self).entries@);
            assert(pair_models(self.entries@) =~= s0.push((km, vm)));
            assert(entries_inv::<K, V>(self.entries@)) by {
                assert(forall|i: int| #![trigger self.entries@[i]]
                    0 <= i < s0.len() ==> self.entries@[i] == old(self).entries@[i]);
            }
            assert(keys_unique::<K, V>(pair_models(self.entries@)));
        }
    }

    /// How many pairs the mapping holds.
    pub fn len(&self) -> (r: usize)
        ensures
            r == self.entries@.len(),
    {
        self.entries.len()
    }

    /// Whether the mapping holds no pair at all.
    pub fn is_empty(&self) -> (r: bool)
        ensures
            r == (self.entries@.len() == 0),
    {
        self.entries.len() == 0
    }
}

impl<K: RVType, V: RVType> RVType for RvMap<K, V> {
    type Model = Seq<(K::Model, V::Model)>;

    open spec fn inv(&self) -> bool {
        entries_inv::<K, V>(self.entries@) && keys_unique::<K, V>(pair_models(self.entries@))
    }

    open spec fn model(&self) -> Seq<(K::Model, V::Model)> {
        pair_models(self.entries@)
    }

    open spec fn model_wf(m: Seq<(K::Model, V::Model)>) -> bool {
        models_wf::<K, V>(m)
    }

    open spec fn model_eq(a: Seq<(K::Model, V::Model)>, b: Seq<(K::Model, V::Model)>) -> bool {
        map_model_eq::<K, V>(a, b)
    }

    open spec fn wire_spec(&self, config: WireConfig) -> Seq<u8> {
        u32_le(self.entries@.len() as u32) + pairs_wire::<K, V>(self.entries@, config)
    }

    open spec fn wire_valid(&self, config: WireConfig) -> bool {
        self.entries@.len() <= 0xffff_ffff && entries_wire_valid::<K, V>(self.entries@, config)
    }

    open spec fn wire_decode(bytes: Seq<u8>, config: WireConfig) -> Option<
        (Seq<(K::Model, V::Model)>, nat),
    > {
        if bytes.len() >= 4 {
            match pairs_decode::<K, V>(
                bytes.skip(4),
                config,
                u32_from_le(bytes) as nat,
                Seq::empty(),
            ) {
                None => None,
                Some(p) => Some((p.0, (4 + p.1) as nat)),
            }
        } else {
            None
        }
    }

    proof fn lemma_inv_model_wf(a: Self) {
        lemma_pair_models_index::<K, V>(a.entries@);
        assert forall|i: int| 0 <= i < pair_models::<K, V>(a.entries@).len() implies K::model_wf(
            (#[trigger] pair_models::<K, V>(a.entries@)[i]).0,
        ) && V::model_wf(pair_models::<K, V>(a.entries@)[i].1) by {
            assert(a.entries@[i].0.inv() && a.entries@[i].1.inv());
            K::lemma_inv_model_wf(a.entries@[i].0);
            V::lemma_inv_model_wf(a.entries@[i].1);
        }
    }

    proof fn lemma_model_eq_reflexive(a: Seq<(K::Model, V::Model)>) {
        assert forall|i: int| 0 <= i < a.len() implies #[trigger] has_match::<K, V>(a, a, i) by {
            let p = a[i];
            K::lemma_model_eq_reflexive(a[i].0);
            V::lemma_model_eq_reflexive(a[i].1);
            assert(0 <= i < a.len() && K::model_eq(a[i].0, a[i].0) && V::model_eq(a[i].1, a[i].1));
        }
        assert(pairs_contained::<K, V>(a, a));
    }

    proof fn lemma_model_eq_symmetric(a: Seq<(K::Model, V::Model)>, b: Seq<(K::Model, V::Model)>) {
    }

    proof fn lemma_model_eq_transitive(
        a: Seq<(K::Model, V::Model)>,
        b: Seq<(K::Model, V::Model)>,
        c: Seq<(K::Model, V::Model)>,
    ) {
        lemma_contained_trans::<K, V>(a, b, c);
        lemma_contained_trans::<K, V>(c, b, a);
    }

    proof fn lemma_decode_wf(bytes: Seq<u8>, config: WireConfig) {
        if bytes.len() >= 4 {
            assert(models_wf::<K, V>(Seq::empty()));
            lemma_pairs_decode_wf::<K, V>(
                bytes.skip(4),
                config,
                u32_from_le(bytes) as nat,
                Seq::empty(),
            );
        }
    }

    proof fn lemma_roundtrip(a: Self, suffix: Seq<u8>, config: WireConfig) {
        let n = a.entries@.len();
        let enc = a.wire_spec(config);
        let bytes = enc + suffix;
        assert(u32_le(n as u32).is_prefix_of(bytes));
        lemma_u32_from_le_prefix(u32_le(n as u32), bytes);
        lemma_u32_le_roundtrip(n as u32);
        assert(u32_from_le(bytes) as nat == n);
        assert(bytes.skip(4) =~= pairs_wire::<K, V>(a.entries@, config) + suffix);
        lemma_pairs_roundtrip::<K, V>(a.entries@, suffix, config, Seq::empty());
        assert(Seq::empty() + pair_models::<K, V>(a.entries@) =~= pair_models::<K, V>(a.entries@));
    }

    fn zero() -> (r: Self) {
        RvMap::new()
    }

    fn copy(&self) -> (r: Self) {
        let n = self.entries.len();
        let mut out: Vec<(K, V)> = Vec::new();
        let mut i: usize = 0;
        while i < n
            invariant
                self.inv(),
                n == self.entries@.len(),
                i <= n,
                entries_inv::<K, V>(out@),
                pair_models::<K, V>(out@) == pair_models::<K, V>(self.entries@.take(i as int)),
                out@.len() == i,
            decreases n - i,
        {
            proof {
                lemma_pair_models_index::<K, V>(self.entries@);
                assert(self.entries@[i as int].0.inv() && self.entries@[i as int].1.inv());
            }
            let ghost out0 = out@;
            let k2 = self.entries[i].0.copy();
            let v2 = self.entries[i].1.copy();
            let ghost k2m = k2.model();
            let ghost v2m = v2.model();
            out.push((k2, v2));
            i = i + 1;
            proof {
                assert forall|l: int| 0 <= l < i implies #[trigger] pair_models::<K, V>(out@)[l]
                    == pair_models::<K, V>(self.entries@.take(i as int))[l] by {
                    lemma_pair_models_index::<K, V>(out0);
                    lemma_pair_models_index::<K, V>(out@);
                    lemma_pair_models_index::<K, V>(self.entries@.take(i as int));
                    lemma_pair_models_index::<K, V>(self.entries@.take(i as int - 1));
                    assert(self.entries@.take(i as int)[l] == self.entries@[l]);
                    if l < i - 1 {
                        assert(out@[l] == out0[l]);
                        assert(self.entries@.take(i as int - 1)[l] == self.entries@[l]);
                        assert(pair_models::<K, V>(out0)[l] == pair_models::<K, V>(
                            self.entries@.take(i as int - 1),
                        )[l]);
                    } else {
                        assert(pair_models::<K, V>(out@)[l] == (k2m, v2m));
                        assert(pair_models::<K, V>(self.entries@.take(i as int))[l] == (
                            self.entries@[l].0.model(),
                            self.entries@[l].1.model(),
                        ));
                    }
                }
                lemma_pair_models_index::<K, V>(out@);
                lemma_pair_models_index::<K, V>(self.entries@.take(i as int));
                assert(pair_models::<K, V>(out@) =~= pair_models::<K, V>(
                    self.entries@.take(i as int),
                ));
            }
        }
        proof {
            assert(self.entries@.take(n as int) =~= self.entries@);
        }
        RvMap { entries: out }
    }

    fn copy_ref(&self) -> (r: Self) {
        self.copy()
    }

    fn equals(&self, other: &Self) -> (r: bool) {
        proof {
            lemma_pair_models_index::<K, V>(self.entries@);
            lemma_pair_models_index::<K, V>(other.entries@);
        }
        if self.entries.len() != other.entries.len() {
            return false;
        }
        let fwd = contained_in(self, other);
        if !fwd {
            return false;
        }
        contained_in(other, self)
    }

    fn write_to(&self, w: &mut Writer) {
        let n = self.entries.len();
        w.write_u32_le(n as u32);
        let mut i: usize = 0;
        while i < n
            invariant
                self.inv(),
                self.wire_valid(old(w).config),
                n == self.entries@.len(),
                i <= n,
                w.config == old(w).config,
                w.config.wf(),
                w@ == old(w)@ + u32_le(n as u32) + pairs_wire::<K, V>(
                    self.entries@.take(i as int),
                    w.config,
                ),
            decreases n - i,
        {
            proof {
                assert(self.entries@[i as int].0.inv() && self.entries@[i as int].1.inv());
                assert(self.entries@[i as int].0.wire_valid(w.config) && self.entries@[
                    i as int].1.wire_valid(w.config));
            }
            self.entries[i].0.write_to(w);
            self.entries[i].1.write_to(w);
            proof {
                lemma_pairs_wire_snoc::<K, V>(self.entries@, i as int, w.config);
                assert(w@ =~= old(w)@ + u32_le(n as u32) + pairs_wire::<K, V>(
                    self.entries@.take(i + 1),
                    w.config,
                ));
            }
            i = i + 1;
        }
        proof {
            assert(self.entries@.take(n as int) =~= self.entries@);
        }
    }

    fn extract_from(&mut self, r: &mut Reader) -> (res: Result<(), DecodeError>) {
        let ghost bytes0 = old(r).rest();
        let n = match r.read_u32_le() {
            Ok(v) => v,
            Err(e) => {
                return Err(e);
            },
        };
        let mut m = RvMap::<K, V>::new();
        proof {
            assert(r.rest() =~= bytes0.skip(4));
        }
        let mut i: u32 = 0;
        while i < n
            invariant
                i <= n,
                r.inv(),
                r.config == old(r).config,
                r.data == old(r).data,
                r.config.wf(),
                *self == *old(self),
                old(self).inv(),
                m.inv(),
                bytes0 == old(r).rest(),
                bytes0.len() >= 4,
                old(r).pos + 4 <= r.pos,
                n == u32_from_le(bytes0),
                ({
                    let di = pairs_decode::<K, V>(r.rest(), r.config, (n - i) as nat, m.model());
                    let d0 = pairs_decode::<K, V>(bytes0.skip(4), r.config, n as nat, Seq::empty());
                    match di {
                        None => d0 is None,
                        Some(p) => d0 == Some((p.0, ((r.pos - old(r).pos - 4) + p.1) as nat)),
                    }
                }),
            decreases n - i,
        {
            let ghost prev_r = *r;
            let ghost prev_m = m.model();
            let mut k = K::zero();
            match k.extract_from(r) {
                Err(e) => {
                    proof {
                        assert(K::wire_decode(prev_r.rest(), prev_r.config) is None);
                        assert(pairs_decode::<K, V>(
                            prev_r.rest(),
                            prev_r.config,
                            (n - i) as nat,
                            prev_m,
                        ) is None);
                    }
                    return Err(e);
                },
                Ok(_) => {},
            }
            let ghost kp = K::wire_decode(prev_r.rest(), prev_r.config)->Some_0;
            let ghost mid_r = *r;
            proof {
                assert(mid_r.rest() =~= prev_r.rest().skip(kp.1 as int));
            }
            let mut v = V::zero();
            match v.extract_from(r) {
                Err(e) => {
                    proof {
                        assert(V::wire_decode(mid_r.rest(), mid_r.config) is None);
                        assert(pairs_decode::<K, V>(
                            prev_r.rest(),
                            prev_r.config,
                            (n - i) as nat,
                            prev_m,
                        ) is None);
                    }
                    return Err(e);
                },
                Ok(_) => {},
            }
            let ghost vp = V::wire_decode(mid_r.rest(), mid_r.config)->Some_0;
            m.insert(k, v);
            i = i + 1;
            proof {
                assert(r.rest() =~= prev_r.rest().skip((kp.1 + vp.1) as int));
                assert(m.model() == model_insert::<K, V>(prev_m, kp.0, vp.0));
            }
        }
        proof {
            let d0 = pairs_decode::<K, V>(bytes0.skip(4), r.config, n as nat, Seq::empty());
            assert(pairs_decode::<K, V>(r.rest(), r.config, 0nat, m.model()) == Some(
                (m.model(), 0nat),
            ));
            assert(d0 == Some((m.model(), (r.pos - old(r).pos - 4) as nat)));
        }
        self.entries = m.entries;
        Ok(())
    }
}

} // verus!

use vstd::prelude::*;

use crate::object::WireObject;
use crate::wire_string::{bytes_equal, WireString};

verus! {

/// A registered prototype: a stable string identifier together with one
/// canonical instance of a concrete type. The instance is never mutated;
/// envelope decoding clones it and decodes into the clone.
#[derive(Debug)]
pub struct HoldableObject {
    pub id: WireString,
    pub value: WireObject,
}

impl HoldableObject {
    pub open spec fn inv(&self) -> bool {
        self.value.inv()
    }

    pub fn new(id: WireString, value: WireObject) -> (r: HoldableObject)
        ensures
            r.id == id,
            r.value == value,
    {
        HoldableObject { id, value }
    }

    /// The stable identifier this prototype is registered under.
    pub fn object_id(&self) -> (r: &WireString)
        ensures
            r == &self.id,
    {
        &self.id
    }

    /// A cheap owned duplicate: same identifier, same held value.
    pub fn copy_ref(&self) -> (r: HoldableObject)
        requires
            self.inv(),
        ensures
            r.inv(),
            r.id.data@ == self.id.data@,
            r.value.model() == self.value.model(),
    {
        HoldableObject {
            id: WireString::from_bytes(vstd::slice::slice_to_vec(self.id.data.as_slice())),
            value: self.value.copy_ref(),
        }
    }
}

/// The first registered prototype carrying the given identifier, front
/// first.
pub open spec fn find_entry(s: Seq<HoldableObject>, id: Seq<u8>) -> Option<HoldableObject>
    decreases s.len(),
{
    if s.len() == 0 {
        None
    } else if s[0].id.data@ == id {
        Some(s[0])
    } else {
        find_entry(s.skip(1), id)
    }
}

proof fn lemma_find_entry_update(s: Seq<HoldableObject>, j: int, obj: HoldableObject, id: Seq<u8>)
    requires
        0 <= j < s.len(),
        obj.id.data@ == s[j].id.data@,
        forall|i: int| #![trigger s[i]] 0 <= i < j ==> s[i].id.data@ != s[j].id.data@,
    ensures
        find_entry(s.update(j, obj), id) == if id == obj.id.data@ {
            Some(obj)
        } else {
            find_entry(s, id)
        },
    decreases j,
{
    let t = s.update(j, obj);
    if j == 0 {
        assert(t[0] == obj);
        if id == obj.id.data@ {
        } else {
            assert(t.skip(1) =~= s.skip(1));
            assert(s[0].id.data@ != id);
        }
    } else {
        assert(t[0] == s[0]);
        assert(s[0].id.data@ != s[j].id.data@);
        assert(s.skip(1)[j - 1] == s[j]);
        assert(forall|i: int| #![trigger s.skip(1)[i]]
            0 <= i < j - 1 ==> s.skip(1)[i] == s[i + 1] && s.skip(1)[i].id.data@
                != s.skip(1)[j - 1].id.data@);
        lemma_find_entry_update(s.skip(1), j - 1, obj, id);
        assert(t.skip(1) =~= s.skip(1).update(j - 1, obj));
        if id == obj.id.data@ {
            assert(t[0].id.data@ != id);
        }
    }
}

proof fn lemma_find_entry_push(s: Seq<HoldableObject>, obj: HoldableObject, id: Seq<u8>)
    requires
        forall|i: int| #![trigger s[i]] 0 <= i < s.len() ==> s[i].id.data@ != obj.id.data@,
    ensures
        find_entry(s.push(obj), id) == if id == obj.id.data@ {
            Some(obj)
        } else {
            find_entry(s, id)
        },
    decreases s.len(),
{
    let t = s.push(obj);
    if s.len() == 0 {
        assert(t[0] == obj);
        assert(t.skip(1) =~= Seq::<HoldableObject>::empty());
        assert(find_entry(Seq::<HoldableObject>::empty(), id) is None);
    } else {
        assert(t[0] == s[0]);
        assert(forall|i: int| #![trigger s.skip(1)[i]]
            0 <= i < s.skip(1).len() ==> s.skip(1)[i] == s[i + 1]);
        lemma_find_entry_push(s.skip(1), obj, id);
        assert(t.skip(1) =~= s.skip(1).push(obj));
    }
}

/// The table of registered prototypes: one per stable identifier, used as
/// a factory during envelope decoding. A handle to it is passed
/// explicitly wherever decoding needs it.
#[derive(Debug)]
pub struct Registry {
    pub entries: Vec<HoldableObject>,
}

impl Registry {
    /// Identifiers are unique and every prototype is well formed.
    pub open spec fn inv(&self) -> bool {
        &&& forall|i: int| #![trigger self.entries@[i]]
            0 <= i < self.entries@.len() ==> self.entries@[i].inv()
        &&& forall|i: int, j: int| #![trigger self.entries@[i], self.entries@[j]]
            0 <= i < self.entries@.len() && 0 <= j < self.entries@.len() && i != j
                ==> self.entries@[i].id.data@ != self.entries@[j].id.data@
    }

    /// A fresh registry with no prototype registered.
    pub fn new() -> (r: Registry)
        ensures
            r.inv(),
            r.entries@.len() == 0,
    {
        Registry { entries: Vec::new() }
    }

    /// The prototype registered under an identifier, if any.
    pub fn lookup(&self, id: &WireString) -> (r: Option<&HoldableObject>)
        requires
            self.inv(),
        ensures
            match find_entry(self.entries@, id.data@) {
                Some(o) => r matches Some(p) && *p == o && o.inv(),
                None => r is None,
            },
    {
        let n = self.entries.len();
        let mut i: usize = 0;
        proof {
            assert(self.entries@.skip(0) =~= self.entries@);
        }
        while i < n
            invariant
                self.inv(),
                n == self.entries@.len(),
                i <= n,
                find_entry(self.entries@, id.data@) == find_entry(
                    self.entries@.skip(i as int),
                    id.data@,
                ),
                forall|l: int| #![trigger self.entries@[l]]
                    0 <= l < i ==> self.entries@[l].id.data@ != id.data@,
            decreases n - i,
        {
            if bytes_equal(&self.entries[i].id.data, &id.data) {
                proof {
                    assert(self.entries@.skip(i as int)[0] == self.entries@[i as int]);
                }
                return Some(&self.entries[i]);
            }
            i = i + 1;
            proof {
                assert(self.entries@.skip(i as int - 1)[0] == self.entries@[i - 1]);
                assert(self.entries@.skip(i as int - 1).skip(1) =~= self.entries@.skip(i as int));
            }
        }
        proof {
            assert(self.entries@.skip(n as int) =~= Seq::<HoldableObject>::empty());
        }
        None
    }
}

/// Register a prototype under its own identifier, replacing any earlier
/// prototype registered under an equal identifier: the last writer wins.
pub fn register_object_holder_type(registry: &mut Registry, obj: HoldableObject)
    requires
        old(registry).inv(),
        obj.inv(),
    ensures
        final(registry).inv(),
        forall|id: Seq<u8>| #![trigger find_entry(final(registry).entries@, id)]
            find_entry(final(registry).entries@, id) == if id == obj.id.data@ {
                Some(obj)
            } else {
                find_entry(old(registry).entries@, id)
            },
{
    let ghost s0 = registry.entries@;
    let ghost obj_id = obj.id.data@;
    let ghost obj_inv = obj.inv();
    let n = registry.entries.len();
    let mut j: usize = 0;
    while j < n
        invariant
            registry == old(registry),
            registry.inv(),
            obj.inv(),
            s0 == registry.entries@,
            obj_id == obj.id.data@,
            n == registry.entries@.len(),
            j <= n,
            forall|i: int| #![trigger registry.entries@[i]]
                0 <= i < j ==> registry.entries@[i].id.data@ != obj.id.data@,
        decreases n - j,
    {
        if bytes_equal(&registry.entries[j].id.data, &obj.id.data) {
            let ghost jj = j as int;
            let _prev = registry.entries.remove(j);
            registry.entries.insert(j, obj);
            proof {
                assert(registry.entries@ =~= s0.update(jj, obj));
                assert forall|id: Seq<u8>|
                    find_entry(#[trigger] registry.entries@, id) == (if id == obj_id {
                        Some(registry.entries@[jj])
                    } else {
                        find_entry(s0, id)
                    }) by {
                    lemma_find_entry_update(s0, jj, registry.entries@[jj], id);
                }
                assert forall|i: int, l: int|
                    0 <= i < registry.entries@.len() && 0 <= l < registry.entries@.len() && i != l
                        implies (#[trigger] registry.entries@[i]).id.data@ != (
                    #[trigger] registry.entries@[l]).id.data@ by {
                    assert(s0[i].id.data@ != s0[l].id.data@);
                    assert(registry.entries@[jj].id.data@ == s0[jj].id.data@);
                }
            }
            return ;
        }
        j = j + 1;
    }
    registry.entries.push(obj);
    proof {
        assert(registry.entries@ =~= s0.push(registry.entries@[s0.len() as int]));
        assert forall|id: Seq<u8>|
            find_entry(#[trigger] registry.entries@, id) == (if id == obj_id {
                Some(registry.entries@[s0.len() as int])
            } else {
                find_entry(s0, id)
            }) by {
            lemma_find_entry_push(s0, registry.entries@[s0.len() as int], id);
        }
    }
}

} // verus!

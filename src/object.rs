use vstd::prelude::*;

use crate::base::Base;
use crate::hierarchy::Hierarchy;
use crate::ident::{base_ident, TypeIdent};
use crate::unsafe_castable::UnsafeCastable;

verus! {

/// What an object is, as its contracts see it.
pub struct ObjectModel<V> {
    /// Identities from the anchor (position 0) to the concrete type (last).
    pub chain: Seq<TypeIdent>,
    /// The fields of each level: entry `i` belongs to position `i + 1`.
    pub fields: Seq<V>,
    /// The anchor's back-reference.
    pub back_ref: Option<usize>,
}

/// Identities that start at the anchor and grow strictly along the chain, as
/// a declaration order gives them: no type occurs twice.
pub open spec fn chain_wf(c: Seq<TypeIdent>) -> bool {
    &&& c.len() >= 1
    &&& c[0] == base_ident()
    &&& forall|i: int, j: int| 0 <= i < j < c.len() ==> #[trigger] c[i].id < #[trigger] c[j].id
}

/// A well-formed chain, with one level of fields for each position above the
/// anchor.
pub open spec fn model_wf<V>(m: ObjectModel<V>) -> bool {
    &&& chain_wf(m.chain)
    &&& m.fields.len() + 1 == m.chain.len()
}

/// The position of `t` in a chain, where it occurs.
pub open spec fn position_in(c: Seq<TypeIdent>, t: TypeIdent) -> Option<int> {
    if exists|i: int| 0 <= i < c.len() && c[i] == t {
        Some(choose|i: int| 0 <= i < c.len() && c[i] == t)
    } else {
        None
    }
}

/// A value of some concrete type of a hierarchy: the anchor, then one level
/// of fields for each type from the top ancestor down to the concrete type.
/// Each type's value contains its parent's value, as a prefix of the chain.
pub struct Object<V> {
    base: Base,
    chain: Vec<TypeIdent>,
    fields: Vec<V>,
}

impl<V> View for Object<V> {
    type V = ObjectModel<V>;

    closed spec fn view(&self) -> ObjectModel<V> {
        ObjectModel { chain: self.chain@, fields: self.fields@, back_ref: self.base.instance }
    }
}

impl<V> Object<V> {
    /// What every object built by `new` and `inherit` satisfies.
    pub open spec fn wf(&self) -> bool {
        model_wf(self@)
    }

    /// A disconnected object of the anchor type alone.
    pub fn new() -> (r: Object<V>)
        ensures
            r.wf(),
            r@.chain == seq![base_ident()],
            r@.fields == Seq::<V>::empty(),
            r@.back_ref is None,
    {
        let mut chain: Vec<TypeIdent> = Vec::new();
        chain.push(TypeIdent::base());
        Object { base: Base::new(), chain, fields: Vec::new() }
    }

    /// Composes a value of type `t` from this value, its parent part, and the
    /// fields that `t` adds. `None` where the hierarchy does not declare `t`
    /// as a child of this value's concrete type.
    pub fn inherit(self, h: &Hierarchy, t: TypeIdent, fields: V) -> (r: Option<Object<V>>)
        requires
            self.wf(),
            h.wf(),
        ensures
            r is Some <==> h.declares(t) && t != base_ident() && h.parent_of(t)
                == self@.chain.last(),
            r matches Some(o) ==> {
                &&& o.wf()
                &&& o@.chain == self@.chain.push(t)
                &&& o@.fields == self@.fields.push(fields)
                &&& o@.back_ref == self@.back_ref
            },
    {
        let concrete = self.chain[self.chain.len() - 1];
        match h.parent(t) {
            None => None,
            Some(p) => {
                if p != concrete {
                    return None;
                }
                proof {
                    assert(t.id - 1 < h@.len());
                    assert(h@[t.id - 1] <= t.id - 1);
                }
                let Object { base, chain: mut c_new, fields: mut f_new } = self;
                c_new.push(t);
                f_new.push(fields);
                proof {
                    let c = c_new@;
                    assert forall|i: int, j: int| 0 <= i < j < c.len() implies #[trigger] c[i].id
                        < #[trigger] c[j].id by {
                        if j == c.len() - 1 {
                            assert(c[i].id <= concrete.id);
                        }
                    }
                }
                Some(Object { base, chain: c_new, fields: f_new })
            },
        }
    }

    /// The position of type `t` in the chain, or `None` where `t` is not the
    /// concrete type or one of its ancestors.
    pub fn position_of(&self, t: TypeIdent) -> (r: Option<usize>)
        requires
            self.wf(),
        ensures
            match r {
                Some(i) => i < self@.chain.len() && self@.chain[i as int] == t,
                None => !self@.chain.contains(t),
            },
            r matches Some(i) ==> position_in(self@.chain, t) == Some(i as int),
    {
        let top = self.depth();
        let r = self.u_upcast(top, t);
        proof {
            if let Some(i) = r {
                lemma_position_unique(self@.chain, t, i as int);
            }
        }
        r
    }

    /// The fields of the level at position `at` (1 or more).
    pub fn fields_at(&self, at: usize) -> (r: &V)
        requires
            self.wf(),
            1 <= at < self@.chain.len(),
        ensures
            *r == self@.fields[at - 1],
    {
        &self.fields[at - 1]
    }

    /// The fields of the level of type `t`: `None` where `t` is not in the
    /// chain, and for the anchor, which has none.
    pub fn get(&self, t: TypeIdent) -> (r: Option<&V>)
        requires
            self.wf(),
        ensures
            r is Some <==> self@.chain.contains(t) && t != base_ident(),
            r matches Some(v) ==> *v == self@.fields[position_in(self@.chain, t)->0 - 1],
    {
        proof {
            lemma_position_unique(self@.chain, base_ident(), 0);
        }
        match self.position_of(t) {
            None => None,
            Some(i) => {
                if i == 0 {
                    None
                } else {
                    Some(&self.fields[i - 1])
                }
            },
        }
    }

    /// Replaces the fields of the level at position `at` (1 or more).
    pub fn set_fields_at(&mut self, at: usize, v: V)
        requires
            old(self).wf(),
            1 <= at < old(self)@.chain.len(),
        ensures
            final(self).wf(),
            final(self)@.chain == old(self)@.chain,
            final(self)@.back_ref == old(self)@.back_ref,
            final(self)@.fields == old(self)@.fields.update(at - 1, v),
    {
        self.fields.set(at - 1, v);
    }
}

/// In a well-formed chain an identity occurs at one position at most.
pub proof fn lemma_position_unique(c: Seq<TypeIdent>, t: TypeIdent, i: int)
    requires
        chain_wf(c),
        0 <= i < c.len(),
        c[i] == t,
    ensures
        position_in(c, t) == Some(i),
        forall|j: int| 0 <= j < c.len() && c[j] == t ==> j == i,
{
    assert forall|j: int| 0 <= j < c.len() && c[j] == t implies j == i by {
        if j < i {
            assert(c[j].id < c[i].id);
        } else if i < j {
            assert(c[i].id < c[j].id);
        }
    }
}

impl<V: Clone> Object<V> {
    /// A disconnected copy of the part of this value that has the type at
    /// position `at`: the anchor and the levels up to `at`. The copy is a
    /// value of that type, not of the concrete type.
    pub fn prefix(&self, at: usize) -> (r: Object<V>)
        requires
            self.wf(),
            at < self@.chain.len(),
        ensures
            r.wf(),
            r@.chain == self@.chain.subrange(0, at + 1),
            r@.fields.len() == at,
            forall|i: int| 0 <= i < at ==> cloned(self@.fields[i], r@.fields[i]),
            r@.back_ref is None,
    {
        let mut chain: Vec<TypeIdent> = Vec::new();
        let mut fields: Vec<V> = Vec::new();
        let mut i: usize = 0;
        while i < at
            invariant
                self.wf(),
                at < self@.chain.len(),
                i <= at,
                chain@ == self@.chain.subrange(0, i as int),
                fields@.len() == i,
                forall|k: int| 0 <= k < i ==> cloned(self@.fields[k], fields@[k]),
            decreases at - i,
        {
            chain.push(self.chain[i]);
            fields.push(self.fields[i].clone());
            proof {
                assert(chain@ =~= self@.chain.subrange(0, i + 1));
            }
            i = i + 1;
        }
        chain.push(self.chain[at]);
        proof {
            assert(chain@ =~= self@.chain.subrange(0, at + 1));
        }
        Object { base: Base::new(), chain, fields }
    }
}

impl<V: Clone> Clone for Object<V> {
    /// A copy of the value, disconnected: the copy must be linked on its own
    /// before it can be downcast.
    fn clone(&self) -> (r: Object<V>)
        ensures
            self.wf() ==> r.wf(),
            r@.chain == self@.chain,
            r@.fields.len() == self@.fields.len(),
            forall|i: int| 0 <= i < self@.fields.len() ==> cloned(self@.fields[i], r@.fields[i]),
            r@.back_ref is None,
    {
        Object { base: self.base.clone(), chain: self.chain.clone(), fields: self.fields.clone() }
    }
}

impl<V> UnsafeCastable for Object<V> {
    open spec fn chain(&self) -> Seq<TypeIdent> {
        self@.chain
    }

    open spec fn back_reference(&self) -> Option<usize> {
        self@.back_ref
    }

    fn get_ident(&self) -> (r: TypeIdent)
        ensures
            r == self@.chain.last(),
    {
        self.chain[self.chain.len() - 1]
    }

    fn ident_at(&self, at: usize) -> (r: TypeIdent) {
        self.chain[at]
    }

    fn depth(&self) -> (r: usize) {
        self.chain.len() - 1
    }

    fn get_base(&self) -> (r: &Base) {
        &self.base
    }

    fn init_base(&mut self, instance: Option<usize>)
        ensures
            final(self)@ == (ObjectModel {
                chain: old(self)@.chain,
                fields: old(self)@.fields,
                back_ref: instance,
            }),
    {
        self.base.instance = instance;
    }
}

} // verus!

use vstd::prelude::*;

use crate::cast::Cast;
use crate::ident::{base_ident, TypeIdent};
use crate::object::{lemma_position_unique, model_wf, position_in, Object, ObjectModel};
use crate::unsafe_castable::{downcast_finds, UnsafeCastable};

verus! {

/// The arena that linked objects live in. Linking moves an object in and
/// sets its anchor's back-reference to its index, so that a downcast from any
/// view of it can reach its most-derived type.
pub struct Heap<V> {
    objects: Vec<Object<V>>,
}

impl<V> View for Heap<V> {
    type V = Seq<ObjectModel<V>>;

    closed spec fn view(&self) -> Seq<ObjectModel<V>> {
        self.objects@.map_values(|o: Object<V>| o@)
    }
}

/// `m` as it is once linked at index `i`.
pub open spec fn linked_at<V>(m: ObjectModel<V>, i: usize) -> ObjectModel<V> {
    ObjectModel { chain: m.chain, fields: m.fields, back_ref: Some(i) }
}

impl<V> Heap<V> {
    /// Every object is well formed and linked: its back-reference is its own
    /// index.
    pub open spec fn wf(&self) -> bool {
        forall|i: int|
            0 <= i < self@.len() ==> model_wf(#[trigger] self@[i]) && self@[i].back_ref == Some(
                i as usize,
            )
    }

    /// Whether `c` names an object of this heap and a type that it has.
    pub open spec fn holds(&self, c: Cast) -> bool {
        &&& c.index < self@.len()
        &&& self@[c.index as int].chain.contains(c.ident)
    }

    /// Whether `t` is the type of `c` or one of its ancestors, in the object
    /// that `c` names.
    pub open spec fn has_ancestor(&self, c: Cast, t: TypeIdent) -> bool {
        &&& self.holds(c)
        &&& self@[c.index as int].chain.contains(t)
        &&& position_in(self@[c.index as int].chain, t)->0 <= position_in(
            self@[c.index as int].chain,
            c.ident,
        )->0
    }

    /// What an upcast of `c` to `t` gives.
    pub open spec fn spec_upcast(&self, c: Cast, t: TypeIdent) -> Option<Cast> {
        if self.has_ancestor(c, t) {
            Some(Cast { index: c.index, ident: t })
        } else {
            None
        }
    }

    /// What a downcast of `c` to `t` gives: every object of a well-formed heap
    /// is linked, so the whole chain of the object is searched.
    pub open spec fn spec_downcast(&self, c: Cast, t: TypeIdent) -> Option<Cast> {
        if self.holds(c) && self@[c.index as int].chain.contains(t) {
            Some(Cast { index: c.index, ident: t })
        } else {
            None
        }
    }

    /// The fields of the level that `c` sees.
    pub open spec fn spec_fields(&self, c: Cast) -> Option<V> {
        if self.holds(c) && c.ident != base_ident() {
            Some(
                self@[c.index as int].fields[position_in(self@[c.index as int].chain, c.ident)->0
                    - 1],
            )
        } else {
            None
        }
    }

    /// The objects once the fields of the level that `c` sees are `v`.
    pub open spec fn after_set(&self, c: Cast, v: V) -> Seq<ObjectModel<V>> {
        let m = self@[c.index as int];
        self@.update(
            c.index as int,
            ObjectModel {
                chain: m.chain,
                fields: m.fields.update(position_in(m.chain, c.ident)->0 - 1, v),
                back_ref: m.back_ref,
            },
        )
    }

    /// An empty heap.
    pub fn new() -> (r: Heap<V>)
        ensures
            r@ == Seq::<ObjectModel<V>>::empty(),
            r.wf(),
    {
        Heap { objects: Vec::new() }
    }

    /// The number of objects.
    pub fn len(&self) -> (r: usize)
        ensures
            r == self@.len(),
    {
        self.objects.len()
    }

    /// The object at `index`.
    pub fn object(&self, index: usize) -> (r: &Object<V>)
        requires
            index < self@.len(),
        ensures
            r@ == self@[index as int],
    {
        &self.objects[index]
    }

    /// Links `obj`: moves it into the heap and sets its anchor's
    /// back-reference to its index. Returns a handle that sees it as its
    /// concrete type.
    pub fn link(&mut self, obj: Object<V>) -> (r: Cast)
        requires
            old(self).wf(),
            obj.wf(),
            old(self)@.len() < usize::MAX,
        ensures
            final(self).wf(),
            final(self)@ == old(self)@.push(linked_at(obj@, old(self)@.len() as usize)),
            r == (Cast { index: old(self)@.len() as usize, ident: obj@.chain.last() }),
    {
        let n = self.objects.len();
        let ghost m = obj@;
        let mut obj = obj;
        let ident = obj.get_ident();
        obj.init_base(Some(n));
        proof {
            assert(obj@ == linked_at(m, n));
        }
        self.objects.push(obj);
        proof {
            assert(self@ =~= old(self)@.push(linked_at(m, n)));
        }
        Cast { index: n, ident }
    }

    /// The position of the type of `c` in its object, where `c` holds.
    fn view_position(&self, c: &Cast) -> (r: Option<usize>)
        requires
            self.wf(),
        ensures
            r is Some <==> self.holds(*c),
            r matches Some(i) ==> i < self@[c.index as int].chain.len() && position_in(
                self@[c.index as int].chain,
                c.ident,
            ) == Some(i as int),
    {
        if c.index >= self.objects.len() {
            return None;
        }
        let obj = &self.objects[c.index];
        obj.position_of(c.ident)
    }

    /// A disconnected copy of the object that `c` names, as a value of the
    /// type that `c` sees; `None` where `c` does not hold. The copy must be
    /// linked on its own before it can be downcast.
    pub fn clone_as(&self, c: &Cast) -> (r: Option<Object<V>>)
        where
            V: Clone,
        requires
            self.wf(),
        ensures
            r is Some <==> self.holds(*c),
            r matches Some(o) ==> {
                let m = self@[c.index as int];
                let at = position_in(m.chain, c.ident)->0;
                &&& o.wf()
                &&& o@.chain == m.chain.subrange(0, at + 1)
                &&& o@.fields.len() == at
                &&& forall|i: int| 0 <= i < at ==> cloned(m.fields[i], o@.fields[i])
                &&& o@.back_ref is None
            },
    {
        match self.view_position(c) {
            None => None,
            Some(at) => Some(self.objects[c.index].prefix(at)),
        }
    }

    /// Upcast: a handle on the same object seen as `t`, where `t` is the type
    /// of `c` or one of its ancestors; `None` otherwise, and where `c` does
    /// not hold.
    pub fn upcast(&self, c: &Cast, t: TypeIdent) -> (r: Option<Cast>)
        requires
            self.wf(),
        ensures
            r == self.spec_upcast(*c, t),
    {
        match self.view_position(c) {
            None => None,
            Some(at) => {
                let obj = &self.objects[c.index];
                let found = obj.u_upcast(at, t);
                proof {
                    let ch = self@[c.index as int].chain;
                    assert(obj@.chain == ch);
                    match found {
                        Some(i) => {
                            lemma_position_unique(ch, t, i as int);
                            assert(ch[i as int] == t);
                            assert(ch.contains(t));
                        },
                        None => {
                            if self.has_ancestor(*c, t) {
                                assert(exists|k: int| 0 <= k < ch.len() && ch[k] == t);
                                let j = position_in(ch, t)->0;
                                assert(0 <= j < ch.len() && ch[j] == t);
                                assert(j <= at);
                                assert(obj.chain()[j] != t);
                            }
                        },
                    }
                }
                match found {
                    None => None,
                    Some(_) => Some(Cast { index: c.index, ident: t }),
                }
            },
        }
    }

    /// Downcast: where `c` is seen as `t`, `c` itself; otherwise the anchor's
    /// back-reference leads to the most-derived object, which is searched
    /// from its concrete type towards the anchor. `None` where `c` does not
    /// hold or the object does not have type `t`.
    pub fn downcast(&self, c: &Cast, t: TypeIdent) -> (r: Option<Cast>)
        requires
            self.wf(),
        ensures
            r == self.spec_downcast(*c, t),
    {
        match self.view_position(c) {
            None => None,
            Some(_) => {
                if c.ident == t {
                    return Some(*c);
                }
                let obj = &self.objects[c.index];
                match obj.get_base().instance {
                    None => None,
                    Some(p) => {
                        let top = &self.objects[p];
                        let found = top.u_upcast(top.depth(), t);
                        proof {
                            let ch = self@[c.index as int].chain;
                            assert(p == c.index);
                            assert(top@.chain == ch);
                            if found is None && ch.contains(t) {
                                let j = choose|j: int| 0 <= j < ch.len() && ch[j] == t;
                                assert(ch[j] == t);
                            }
                        }
                        match found {
                            None => None,
                            Some(_) => Some(Cast { index: p, ident: t }),
                        }
                    },
                }
            },
        }
    }

    /// Whether the object that `c` names has type `t`: a downcast to `t`
    /// would succeed.
    pub fn is(&self, c: &Cast, t: TypeIdent) -> (r: bool)
        requires
            self.wf(),
        ensures
            r == self.spec_downcast(*c, t) is Some,
    {
        self.downcast(c, t).is_some()
    }

    /// The fields of the level of the type that `c` sees: `None` where `c`
    /// does not hold, and for the anchor, which has none.
    pub fn fields(&self, c: &Cast) -> (r: Option<&V>)
        requires
            self.wf(),
        ensures
            r is Some <==> self.spec_fields(*c) is Some,
            r matches Some(v) ==> self.spec_fields(*c) == Some(*v),
    {
        if c.index >= self.objects.len() {
            return None;
        }
        self.objects[c.index].get(c.ident)
    }

    /// Replaces the fields of the level of the type that `c` sees. Returns
    /// whether it did: not where `c` does not hold, nor for the anchor.
    pub fn set_fields(&mut self, c: &Cast, v: V) -> (r: bool)
        requires
            old(self).wf(),
        ensures
            final(self).wf(),
            r == (old(self).holds(*c) && c.ident != base_ident()),
            r ==> final(self)@ == old(self).after_set(*c, v),
            !r ==> final(self)@ == old(self)@,
    {
        match self.view_position(c) {
            None => false,
            Some(at) => {
                if at == 0 {
                    proof {
                        assert(self@[c.index as int].chain[0] == base_ident());
                    }
                    return false;
                }
                proof {
                    let ch = self@[c.index as int].chain;
                    lemma_position_unique(ch, base_ident(), 0);
                }
                let ghost before = self@;
                self.objects[c.index].set_fields_at(at, v);
                proof {
                    assert(self@ =~= before.update(
                        c.index as int,
                        ObjectModel {
                            chain: before[c.index as int].chain,
                            fields: before[c.index as int].fields.update(at - 1, v),
                            back_ref: before[c.index as int].back_ref,
                        },
                    ));
                }
                true
            },
        }
    }
}

/// Round trip: from a handle that sees a linked object as its concrete type,
/// an upcast to any type of the object succeeds, and a downcast of that back
/// to the concrete type gives the original handle.
pub proof fn lemma_round_trip<V>(h: Heap<V>, c: Cast, x: TypeIdent)
    requires
        h.wf(),
        c.index < h@.len(),
        c.ident == h@[c.index as int].chain.last(),
        h@[c.index as int].chain.contains(x),
    ensures
        h.spec_upcast(c, x) == Some(Cast { index: c.index, ident: x }),
        h.spec_downcast(Cast { index: c.index, ident: x }, c.ident) == Some(c),
{
    let ch = h@[c.index as int].chain;
    assert(model_wf(h@[c.index as int]));
    let top = ch.len() - 1;
    assert(ch[top] == c.ident);
    lemma_position_unique(ch, c.ident, top);
    let j = choose|j: int| 0 <= j < ch.len() && ch[j] == x;
    lemma_position_unique(ch, x, j);
    assert(ch.contains(c.ident));
}

/// A disconnected object cannot be downcast from a view of a strict ancestor
/// of its concrete type, though the same object, once linked, can.
pub proof fn lemma_unlinked_downcast<V>(o: Object<V>, from: int, h1: Heap<V>, h2: Heap<V>)
    requires
        o.wf(),
        o@.back_ref is None,
        0 <= from < o@.chain.len() - 1,
        h1.wf(),
        h1@.len() < usize::MAX,
        h2@ == h1@.push(linked_at(o@, h1@.len() as usize)),
    ensures
        !downcast_finds(o.chain(), o.back_reference(), from, o@.chain.last()),
        downcast_finds(o.chain(), Some(h1@.len() as usize), from, o@.chain.last()),
        h2.spec_downcast(
            Cast { index: h1@.len() as usize, ident: o@.chain[from] },
            o@.chain.last(),
        ) == Some(Cast { index: h1@.len() as usize, ident: o@.chain.last() }),
{
    let ch = o@.chain;
    let top = ch.len() - 1;
    assert(ch[from].id < ch[top].id);
    assert(ch[top] == ch.last());
    assert(ch.contains(ch.last()));
    assert(h2@[h1@.len() as int] == linked_at(o@, h1@.len() as usize));
    assert(ch.contains(ch[from]));
    assert(h2.holds(Cast { index: h1@.len() as usize, ident: o@.chain[from] }));
}

/// A change is seen through every view: once the fields of the level of type
/// `t` are set through the handle that a downcast to `t` gave, an upcast to
/// `t` from any handle on the same object whose type descends from `t` gives
/// that handle again, and it reads the new fields.
pub proof fn lemma_mutation_visible<V>(
    h1: Heap<V>,
    h2: Heap<V>,
    c: Cast,
    t: TypeIdent,
    v: V,
    d: Cast,
)
    requires
        h1.wf(),
        t != base_ident(),
        h1.spec_downcast(c, t) is Some,
        h2@ == h1.after_set(h1.spec_downcast(c, t)->0, v),
        d.index == c.index,
        h1.has_ancestor(d, t),
    ensures
        h2.wf(),
        h2.spec_upcast(d, t) == h1.spec_downcast(c, t),
        h2.spec_fields(h1.spec_downcast(c, t)->0) == Some(v),
{
    let e = h1.spec_downcast(c, t)->0;
    let m = h1@[c.index as int];
    let ch = m.chain;
    assert(model_wf(m));
    let j = choose|j: int| 0 <= j < ch.len() && ch[j] == t;
    lemma_position_unique(ch, t, j);
    lemma_position_unique(ch, base_ident(), 0);
    assert(j != 0);
    assert forall|i: int| 0 <= i < h2@.len() implies model_wf(#[trigger] h2@[i]) && h2@[i].back_ref
        == Some(i as usize) by {
        if i != c.index {
            assert(h2@[i] == h1@[i]);
        }
    }
    assert(h2@[c.index as int].chain == ch);
    assert(h2@[c.index as int].fields == m.fields.update(j - 1, v));
}

/// Casting to a type the object does not have fails, down and up.
pub proof fn lemma_negative_cast<V>(h: Heap<V>, c: Cast, t: TypeIdent)
    requires
        h.wf(),
        c.index < h@.len(),
        !h@[c.index as int].chain.contains(t),
    ensures
        h.spec_downcast(c, t) is None,
        h.spec_upcast(c, t) is None,
{
}

} // verus!

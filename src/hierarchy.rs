use vstd::prelude::*;

use crate::ident::{base_ident, TypeIdent};

verus! {

/// The table of the types of a hierarchy: which type each one inherits from.
///
/// Identities are issued in order: the anchor `Base` is 0 and the type
/// declared k-th (from 1) gets k. Entry k - 1 of the view is the identity
/// number of the parent of type k.
pub struct Hierarchy {
    parents: Vec<u64>,
}

impl View for Hierarchy {
    type V = Seq<u64>;

    closed spec fn view(&self) -> Seq<u64> {
        self.parents@
    }
}

impl Hierarchy {
    /// Every parent was declared before its child, so the parent-of relation
    /// is acyclic and every chain ends at the anchor.
    pub open spec fn wf(&self) -> bool {
        forall|k: int| 0 <= k < self@.len() ==> #[trigger] self@[k] <= k
    }

    /// Whether `t` is the anchor or a declared type.
    pub open spec fn declares(&self, t: TypeIdent) -> bool {
        t.id <= self@.len()
    }

    /// The parent of a declared type other than the anchor.
    pub open spec fn parent_of(&self, t: TypeIdent) -> TypeIdent
        recommends
            self.declares(t),
            t != base_ident(),
    {
        TypeIdent { id: self@[t.id - 1] }
    }

    /// The identity that the next declaration issues.
    pub open spec fn next_ident(&self) -> TypeIdent {
        TypeIdent { id: (self@.len() + 1) as u64 }
    }

    /// Whether `a` is `t` or one of its ancestors, following parents down to
    /// the anchor.
    pub open spec fn is_ancestor(&self, a: TypeIdent, t: TypeIdent) -> bool
        decreases t.id,
    {
        if a == t {
            true
        } else if t.id == 0 || !self.declares(t) || self@[t.id - 1] >= t.id {
            false
        } else {
            self.is_ancestor(a, self.parent_of(t))
        }
    }

    /// A table with the anchor alone.
    pub fn new() -> (r: Hierarchy)
        ensures
            r@ == Seq::<u64>::empty(),
            r.wf(),
    {
        Hierarchy { parents: Vec::new() }
    }

    /// The number of declared types, the anchor not counted.
    pub fn len(&self) -> (r: usize)
        ensures
            r == self@.len(),
    {
        self.parents.len()
    }

    /// Declares a type that inherits from `parent` and returns its identity,
    /// one that no type had before. `None`, with the table unchanged, where
    /// `parent` is not declared or the identities are exhausted.
    pub fn declare(&mut self, parent: TypeIdent) -> (r: Option<TypeIdent>)
        requires
            old(self).wf(),
        ensures
            final(self).wf(),
            r is Some <==> old(self).declares(parent) && old(self)@.len() < u64::MAX,
            r is Some ==> r == Some(old(self).next_ident()) && final(self)@ == old(
                self,
            )@.push(parent.id),
            r is Some ==> !old(self).declares(old(self).next_ident()),
            r is None ==> final(self)@ == old(self)@,
    {
        let n = self.parents.len();
        if parent.id > n as u64 || n as u64 == u64::MAX {
            return None;
        }
        self.parents.push(parent.id);
        proof {
            assert forall|k: int| 0 <= k < self@.len() implies #[trigger] self@[k] <= k by {
                if k < n {
                    assert(self@[k] == old(self)@[k]);
                }
            }
        }
        Some(TypeIdent { id: n as u64 + 1 })
    }

    /// The parent of a declared type; `None` for the anchor and for an
    /// identity this table did not issue.
    pub fn parent(&self, t: TypeIdent) -> (r: Option<TypeIdent>)
        ensures
            r is Some <==> self.declares(t) && t != base_ident(),
            r is Some ==> r == Some(self.parent_of(t)),
    {
        if t.id == 0 || t.id > self.parents.len() as u64 {
            None
        } else {
            Some(TypeIdent { id: self.parents[t.id as usize - 1] })
        }
    }

    /// Whether `a` is `t` itself or one of its ancestors.
    pub fn inherits_from(&self, t: TypeIdent, a: TypeIdent) -> (r: bool)
        requires
            self.wf(),
        ensures
            r == self.is_ancestor(a, t),
    {
        let mut cur = t;
        loop
            invariant
                self.wf(),
                self.is_ancestor(a, cur) == self.is_ancestor(a, t),
            decreases cur.id,
        {
            if cur == a {
                return true;
            }
            match self.parent(cur) {
                None => {
                    return false;
                },
                Some(p) => {
                    cur = p;
                },
            }
        }
    }
}

/// Identities are unique per type: the identity that the next declaration
/// issues is neither the anchor's nor that of any type declared before it.
pub proof fn lemma_identity_unique(h: Hierarchy, a: TypeIdent)
    requires
        h.declares(a),
        h@.len() < u64::MAX,
    ensures
        a != h.next_ident(),
{
}

} // verus!

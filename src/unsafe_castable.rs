use vstd::prelude::*;

use crate::base::Base;
use crate::ident::TypeIdent;

verus! {

/// Whether a downcast to `t` from position `from` of a node that is its own
/// whole chain finds `t`: at `from` itself, or anywhere in the chain once the
/// anchor holds a back-reference.
pub open spec fn downcast_finds(
    chain: Seq<TypeIdent>,
    back_ref: Option<usize>,
    from: int,
    t: TypeIdent,
) -> bool {
    chain[from] == t || (back_ref is Some && chain.contains(t))
}

/// The capability of every node of an inheritance chain.
///
/// A node is seen as its chain of identities: position 0 is the anchor,
/// each later position the type that inherits from the one before it, and the
/// last position the node's own concrete type. Searches take a position and
/// return one.
pub trait UnsafeCastable {
    /// Identities from the anchor (position 0) to the concrete type (last).
    spec fn chain(&self) -> Seq<TypeIdent>;

    /// The anchor's back-reference.
    spec fn back_reference(&self) -> Option<usize>;

    /// The identity of the concrete type.
    fn get_ident(&self) -> (r: TypeIdent)
        requires
            self.chain().len() > 0,
        ensures
            r == self.chain().last(),
    ;

    /// The identity at a position of the chain.
    fn ident_at(&self, at: usize) -> (r: TypeIdent)
        requires
            at < self.chain().len(),
        ensures
            r == self.chain()[at as int],
    ;

    /// The position of the concrete type: the number of levels above the anchor.
    fn depth(&self) -> (r: usize)
        requires
            self.chain().len() > 0,
        ensures
            r + 1 == self.chain().len(),
    ;

    /// The anchor of the chain.
    fn get_base(&self) -> (r: &Base)
        ensures
            r.instance == self.back_reference(),
    ;

    /// Sets the anchor's back-reference; the chain stays as it was.
    fn init_base(&mut self, instance: Option<usize>)
        ensures
            final(self).chain() == old(self).chain(),
            final(self).back_reference() == instance,
    ;

    /// Upcast search: the highest position at or below `from` (towards the
    /// anchor) whose identity is `t`, or `None` where there is none.
    fn u_upcast(&self, from: usize, t: TypeIdent) -> (r: Option<usize>)
        requires
            from < self.chain().len(),
        ensures
            match r {
                Some(i) => i <= from && self.chain()[i as int] == t && forall|j: int|
                    i < j <= from ==> self.chain()[j] != t,
                None => forall|j: int| 0 <= j <= from ==> self.chain()[j] != t,
            },
    {
        let mut i: usize = from;
        loop
            invariant
                i <= from,
                from < self.chain().len(),
                forall|j: int| i < j <= from ==> self.chain()[j] != t,
            decreases i,
        {
            if self.ident_at(i) == t {
                return Some(i);
            }
            if i == 0 {
                return None;
            }
            i = i - 1;
        }
    }

    /// Downcast search on a node that is its own whole chain: the position
    /// `from` itself where its identity is `t`; otherwise, where the anchor
    /// holds a back-reference, an upcast search from the most-derived
    /// position; `None` for a disconnected node.
    fn u_downcast(&self, from: usize, t: TypeIdent) -> (r: Option<usize>)
        requires
            from < self.chain().len(),
        ensures
            r is Some <==> downcast_finds(self.chain(), self.back_reference(), from as int, t),
            r matches Some(i) ==> i < self.chain().len() && self.chain()[i as int] == t,
            self.chain()[from as int] == t ==> r == Some(from),
    {
        if self.ident_at(from) == t {
            return Some(from);
        }
        match self.get_base().instance {
            None => None,
            Some(_) => {
                let top = self.depth();
                self.u_upcast(top, t)
            },
        }
    }
}

} // verus!

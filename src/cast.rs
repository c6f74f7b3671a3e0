use vstd::prelude::*;

use crate::ident::TypeIdent;

verus! {

/// A handle on an object of a heap, viewed as one of its types: the object's
/// index in the heap, and the type it is seen as. The type is what the holder
/// expects; the heap checks it against the object on every use.
#[derive(Clone, Copy, Debug, PartialEq, Eq, Structural)]
pub struct Cast {
    pub index: usize,
    pub ident: TypeIdent,
}

impl Cast {
    /// A handle on the object at `index`, seen as type `ident`.
    pub fn new(index: usize, ident: TypeIdent) -> (r: Cast)
        ensures
            r.index == index,
            r.ident == ident,
    {
        Cast { index, ident }
    }

    /// The same object, seen as type `ident`. Nothing is checked here: a
    /// handle whose type the object does not have makes every cast fail.
    pub fn cast_as(self, ident: TypeIdent) -> (r: Cast)
        ensures
            r.index == self.index,
            r.ident == ident,
    {
        Cast { index: self.index, ident }
    }
}

} // verus!

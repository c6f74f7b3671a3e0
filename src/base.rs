use vstd::prelude::*;

use crate::ident::{base_ident, TypeIdent};
use crate::unsafe_castable::UnsafeCastable;

verus! {

/// The anchor at the root of every chain. It holds the back-reference to the
/// most-derived object once that object has been linked into a heap: the
/// object's index there. A fresh anchor is disconnected.
pub struct Base {
    pub instance: Option<usize>,
}

impl Base {
    /// A disconnected anchor.
    pub fn new() -> (r: Base)
        ensures
            r.instance is None,
    {
        Base { instance: None }
    }

    /// The back-reference, if the object has been linked.
    pub fn instance(&self) -> (r: Option<usize>)
        ensures
            r == self.instance,
    {
        self.instance
    }
}

impl Clone for Base {
    /// A copy of an anchor starts disconnected: two objects never share one
    /// back-reference.
    fn clone(&self) -> (r: Base)
        ensures
            r.instance is None,
    {
        Base { instance: None }
    }
}

impl Default for Base {
    fn default() -> (r: Base)
        ensures
            r.instance is None,
    {
        Base { instance: None }
    }
}

impl UnsafeCastable for Base {
    open spec fn chain(&self) -> Seq<TypeIdent> {
        seq![base_ident()]
    }

    open spec fn back_reference(&self) -> Option<usize> {
        self.instance
    }

    fn get_ident(&self) -> (r: TypeIdent) {
        TypeIdent::base()
    }

    fn ident_at(&self, at: usize) -> (r: TypeIdent) {
        TypeIdent::base()
    }

    fn depth(&self) -> (r: usize) {
        0
    }

    fn get_base(&self) -> (r: &Base) {
        self
    }

    fn init_base(&mut self, instance: Option<usize>) {
        self.instance = instance;
    }
}

} // verus!

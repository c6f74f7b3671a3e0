use vstd::prelude::*;

verus! {

/// The identity of a concrete type: a plain number, issued once per type by
/// the hierarchy that declares it. The anchor type `Base` has identity 0.
#[derive(Clone, Copy, Debug, PartialEq, Eq, Structural)]
pub struct TypeIdent {
    pub id: u64,
}

/// The identity of the anchor type `Base`.
pub open spec fn base_ident() -> TypeIdent {
    TypeIdent { id: 0 }
}

impl TypeIdent {
    /// The identity of the anchor type `Base`.
    pub fn base() -> (r: TypeIdent)
        ensures
            r == base_ident(),
    {
        TypeIdent { id: 0 }
    }

    /// Whether this is the anchor's identity.
    pub fn is_base(&self) -> (r: bool)
        ensures
            r == (*self == base_ident()),
    {
        self.id == 0
    }
}

} // verus!

//! Single inheritance for plain data: objects are chains of typed levels
//! over an anchor, and casts search that chain by type identity.
pub mod base;
pub mod cast;
pub mod heap;
pub mod hierarchy;
pub mod ident;
pub mod object;
pub mod unsafe_castable;

pub use base::Base;
pub use cast::Cast;
pub use heap::Heap;
pub use hierarchy::Hierarchy;
pub use ident::TypeIdent;
pub use object::Object;
pub use unsafe_castable::UnsafeCastable;

//! Identities of the things that the host keeps for the library.

use vstd::prelude::*;

verus! {

/// Identity of something in the host's store: of a source bitmap, or of a
/// nine-patch builder. Two handles name the same thing if and only if they
/// are equal.
#[derive(Clone, Copy, Debug, PartialEq, Eq, Hash, Structural)]
pub enum HandleId {
    /// A slot of the store.
    Index(u64),
    /// A name that does not depend on the store.
    Uuid(u128),
}

impl Default for HandleId {
    fn default() -> (id: HandleId)
        ensures
            id == HandleId::Uuid(0),
    {
        HandleId::Uuid(0)
    }
}

/// Identity of a node of the host's scene.
pub type NodeId = u64;

} // verus!

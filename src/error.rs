use vstd::prelude::*;

verus! {

/// Why the generation of a node failed.
#[derive(Debug, Clone, Copy, PartialEq, Eq, Structural)]
pub enum GenError {
    /// A name that must become a Rust identifier is not one.
    InvalidIdentifier,
    /// A lifetime parameter or bound is not a valid lifetime name.
    InvalidLifetime,
    /// Equality or ordering asserted without the comparison it builds on.
    UnrealizableCapabilities,
    /// Two walked entries of the same kind denote the same node, or an entry
    /// denotes the root.
    NameConflict,
}

} // verus!

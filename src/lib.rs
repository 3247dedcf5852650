//! Code generation for safe host-side wrappers around foreign (C++) types.
//!
//! A capability descriptor names a foreign type; the probe answers tell which
//! operations it supports and its layout. From these the library produces the
//! source of a wrapper module, the probe module of each configuration node, and
//! the root module that drives them all.
pub use indexmap;

pub mod error;
pub mod syntax;
pub mod order;
pub mod capability;
pub mod artifact;
pub mod wrapper;
pub mod entry;
pub mod tree;

pub use crate::artifact::CxxAutoArtifactInfo;
pub use crate::capability::{merge_trivial, ordering_from_three_way, partial_ordering_from_three_way};
pub use crate::entry::CxxAutoEntry;
pub use crate::error::GenError;
pub use crate::tree::process_artifacts;

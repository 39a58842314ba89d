//! Capability routing: which component provides what another one uses.
//!
//! A component reaches a capability only through an unbroken chain of
//! declarations: it *uses* a path, its parent *offers* that path to it, and the
//! offer names where the capability comes from. The modules here hold the
//! declarations, the tree of realms, and the walk that resolves a use.

pub mod capability;
pub mod decl;
pub mod error;
pub mod laws;
pub mod moniker;
pub mod realm;
pub mod router;

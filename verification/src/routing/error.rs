//! What can go wrong while routing, and where.

use vstd::prelude::*;
use crate::routing::moniker::{Moniker, MonikerSpec};

verus! {

/// The kinds of routing failure. Each one ends the request it arose in.
#[derive(Clone, Copy, Debug, PartialEq, Eq, Structural)]
pub enum ErrorKind {
    /// A capability path is empty, lacks its leading `/`, or has an empty segment.
    InvalidPath,
    /// The component does not declare that it uses the capability.
    NotUsed,
    /// No offer reaches the component that asked.
    NotOffered,
    /// The offering component has no program, so it can provide nothing.
    OfferFromNonExecutable,
    /// No instance has the moniker.
    InstanceNotFound,
    /// An expose chain ends before it reaches a component that provides.
    ExposeSourceNotFound,
    /// The parent declares no collection of that name.
    CollectionNotFound,
    /// The collection already holds a child of that name.
    DuplicateChild,
    /// A realm's manifest could not be had.
    ResolverError,
}

impl ErrorKind {
    /// Whether a later attempt may succeed where this one failed. Only a missing
    /// manifest can arrive later; every other kind is a fault of the manifests.
    pub fn is_transient(&self) -> (transient: bool)
        ensures
            transient == (*self == ErrorKind::ResolverError),
    {
        match self {
            ErrorKind::ResolverError => true,
            ErrorKind::InvalidPath
            | ErrorKind::NotUsed
            | ErrorKind::NotOffered
            | ErrorKind::OfferFromNonExecutable
            | ErrorKind::InstanceNotFound
            | ErrorKind::ExposeSourceNotFound
            | ErrorKind::CollectionNotFound
            | ErrorKind::DuplicateChild => false,
        }
    }
}

/// The mathematical value of a routing error.
pub struct ErrorSpec {
    pub kind: ErrorKind,
    pub moniker: MonikerSpec,
    pub path: Seq<char>,
}

/// A routing failure, with the instance and the path at which it arose.
#[derive(Debug, PartialEq, Eq)]
pub struct RoutingError {
    /// What went wrong.
    pub kind: ErrorKind,
    /// The instance at which it went wrong.
    pub moniker: Moniker,
    /// The capability path that was looked for there; for a failure that
    /// concerns no capability, the name that was.
    pub path: String,
}

impl View for RoutingError {
    type V = ErrorSpec;

    open spec fn view(&self) -> ErrorSpec {
        ErrorSpec { kind: self.kind, moniker: self.moniker@, path: self.path@ }
    }
}

impl RoutingError {
    /// The error of the given kind at `moniker`, about `path`.
    pub fn new(kind: ErrorKind, moniker: Moniker, path: String) -> (error: RoutingError)
        ensures
            error@ == (ErrorSpec { kind, moniker: moniker@, path: path@ }),
    {
        RoutingError { kind, moniker, path }
    }
}

} // verus!

//! Capability paths: what a component names when it uses, offers or exposes.

use vstd::prelude::*;
use crate::routing::error::{ErrorKind, ErrorSpec, RoutingError};
use crate::routing::moniker::{Moniker, SegmentSpec};

verus! {

/// What sort of thing a capability is.
#[derive(Clone, Copy, Debug, PartialEq, Eq, Hash, Structural)]
pub enum CapabilityKind {
    Directory,
    Service,
}

/// The mathematical value of a capability path: its kind and its text.
pub struct PathSpec {
    pub kind: CapabilityKind,
    pub path: Seq<char>,
}

/// Whether `text` is a well-formed path: it starts with `/`, and every segment
/// between two `/`, or after the last one, has at least one character.
pub open spec fn valid_path(text: Seq<char>) -> bool {
    &&& text.len() > 0
    &&& text[0] == '/'
    &&& text[text.len() - 1] != '/'
    &&& forall|i: int|
        0 <= i < text.len() - 1 ==> !(text[i] == '/' && #[trigger] text[i + 1] == '/')
}

/// A capability path. Two are the same capability when kind and text agree.
#[derive(Debug, PartialEq, Eq, Hash)]
pub struct CapabilityPath {
    kind: CapabilityKind,
    path: String,
}

impl View for CapabilityPath {
    type V = PathSpec;

    closed spec fn view(&self) -> PathSpec {
        PathSpec { kind: self.kind, path: self.path@ }
    }
}

impl Clone for CapabilityPath {
    fn clone(&self) -> (copy: CapabilityPath)
        ensures
            copy@ == self@,
    {
        proof {
            use_type_invariant(self);
        }
        CapabilityPath { kind: self.kind, path: self.path.clone() }
    }
}

impl CapabilityPath {
    #[verifier::type_invariant]
    spec fn well_formed(&self) -> bool {
        valid_path(self.path@)
    }

    /// Checks `text` and makes the path of the given kind from it.
    pub fn new(kind: CapabilityKind, text: &str) -> (made: Result<CapabilityPath, RoutingError>)
        ensures
            valid_path(text@) ==> made is Ok && made->Ok_0@ == (PathSpec { kind, path: text@ }),
            !valid_path(text@) ==> made is Err && made->Err_0@ == (ErrorSpec {
                kind: ErrorKind::InvalidPath,
                moniker: Seq::<SegmentSpec>::empty(),
                path: text@,
            }),
    {
        if is_valid_path(text) {
            Ok(CapabilityPath { kind, path: text.to_owned() })
        } else {
            Err(RoutingError::new(ErrorKind::InvalidPath, Moniker::root(), text.to_owned()))
        }
    }

    /// The path's kind.
    pub fn kind(&self) -> (kind: CapabilityKind)
        ensures
            kind == self@.kind,
    {
        self.kind
    }

    /// The path's text.
    pub fn as_str(&self) -> (text: &str)
        ensures
            text@ == self@.path,
            valid_path(text@),
    {
        proof {
            use_type_invariant(self);
        }
        self.path.as_str()
    }

    /// Whether two paths name the same capability.
    pub fn same(&self, other: &CapabilityPath) -> (equal: bool)
        ensures
            equal == (self@ == other@),
    {
        self.kind == other.kind && self.path == other.path
    }
}

/// Whether `text` is a well-formed path.
pub fn is_valid_path(text: &str) -> (valid: bool)
    ensures
        valid == valid_path(text@),
{
    let len: usize = text.unicode_len();
    if len == 0 {
        return false;
    }
    if text.get_char(0) != '/' {
        return false;
    }
    let mut at: usize = 0;
    let mut after_slash: bool = true;
    // `after_slash` says whether the character at `at` is a `/`.
    while at + 1 < len
        invariant
            0 < len == text@.len(),
            at < len,
            after_slash == (text@[at as int] == '/'),
            forall|i: int| 0 <= i < at ==> !(text@[i] == '/' && #[trigger] text@[i + 1] == '/'),
        decreases len - at,
    {
        let next = text.get_char(at + 1);
        if after_slash && next == '/' {
            return false;
        }
        after_slash = next == '/';
        at += 1;
    }
    !after_slash
}

} // verus!

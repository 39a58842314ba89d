//! Manifests: what one component declares that it uses, offers and exposes,
//! and which children and collections it has.

use vstd::prelude::*;
use crate::routing::capability::{CapabilityKind, CapabilityPath, PathSpec};
use crate::routing::moniker::{ChildMoniker, SegmentSpec};
use crate::search::{first_match, lemma_first_match_absent, lemma_first_match_found};
use crate::text::same_text;

verus! {

/// A capability that the component consumes: it is routed to the component
/// under `source_path` and appears in its own namespace under `target_path`.
#[derive(Clone, Debug, PartialEq, Eq)]
pub struct UseDecl {
    pub source_path: CapabilityPath,
    pub target_path: CapabilityPath,
}

/// Where an offered capability comes from.
#[derive(Clone, Debug, PartialEq, Eq)]
pub enum OfferSource {
    /// The offering component provides it.
    Self_,
    /// The offering component got it from its own parent and passes it on.
    Realm,
    /// A child of the offering component exposes it.
    Child(String),
}

/// To whom a capability is offered.
#[derive(Clone, Debug, PartialEq, Eq)]
pub enum OfferTarget {
    /// The static child of that name.
    Child(String),
    /// Every child in the collection of that name.
    Collection(String),
}

/// A capability that the component hands down: it has it under `source_path`
/// from `source`, and `target` sees it under `target_path`.
#[derive(Clone, Debug, PartialEq, Eq)]
pub struct OfferDecl {
    pub source: OfferSource,
    pub source_path: CapabilityPath,
    pub target_path: CapabilityPath,
    pub target: OfferTarget,
}

/// Where an exposed capability comes from.
#[derive(Clone, Debug, PartialEq, Eq)]
pub enum ExposeSource {
    /// The exposing component provides it.
    Self_,
    /// A child of the exposing component exposes it in turn.
    Child(String),
}

/// A capability that the component publishes to its parent: it has it under
/// `source_path` from `source`, and the parent sees it under `target_path`.
#[derive(Clone, Debug, PartialEq, Eq)]
pub struct ExposeDecl {
    pub source: ExposeSource,
    pub source_path: CapabilityPath,
    pub target_path: CapabilityPath,
}

/// When a child is started.
#[derive(Clone, Copy, Debug, PartialEq, Eq, Structural)]
pub enum StartupMode {
    /// When something binds to it.
    Lazy,
    /// Together with its parent.
    Eager,
}

/// A child that the manifest declares.
#[derive(Clone, Debug, PartialEq, Eq)]
pub struct ChildDecl {
    pub name: String,
    pub url: String,
    pub startup: StartupMode,
}

/// How long the children of a collection live.
#[derive(Clone, Copy, Debug, PartialEq, Eq, Structural)]
pub enum Durability {
    /// Until they are destroyed, across restarts of the parent.
    Persistent,
    /// No longer than the parent runs.
    Transient,
}

/// A slot for children that are created at run time.
#[derive(Clone, Debug, PartialEq, Eq)]
pub struct CollectionDecl {
    pub name: String,
    pub durability: Durability,
}

/// One component's manifest.
#[derive(Clone, Debug, PartialEq, Eq)]
pub struct ComponentDecl {
    /// What the component runs, if it runs anything.
    pub program: Option<String>,
    pub uses: Vec<UseDecl>,
    pub offers: Vec<OfferDecl>,
    pub exposes: Vec<ExposeDecl>,
    pub children: Vec<ChildDecl>,
    pub collections: Vec<CollectionDecl>,
}

impl UseDecl {
    /// The kind of the capability that is used.
    pub fn kind(&self) -> (kind: CapabilityKind)
        ensures
            kind == self.target_path@.kind,
    {
        self.target_path.kind()
    }
}

impl OfferDecl {
    /// The kind of the capability that is offered.
    pub fn kind(&self) -> (kind: CapabilityKind)
        ensures
            kind == self.target_path@.kind,
    {
        self.target_path.kind()
    }
}

impl ExposeDecl {
    /// The kind of the capability that is exposed.
    pub fn kind(&self) -> (kind: CapabilityKind)
        ensures
            kind == self.target_path@.kind,
    {
        self.target_path.kind()
    }
}

impl OfferTarget {
    /// Whether the target takes in the child that `segment` names: a static
    /// child by its name, a dynamic one by its collection.
    pub open spec fn names(&self, segment: SegmentSpec) -> bool {
        match *self {
            OfferTarget::Child(name) => match segment {
                SegmentSpec::Static { name: child } => name@ == child,
                SegmentSpec::Dynamic { .. } => false,
            },
            OfferTarget::Collection(name) => match segment {
                SegmentSpec::Static { .. } => false,
                SegmentSpec::Dynamic { collection, .. } => name@ == collection,
            },
        }
    }

    /// Whether the target takes in the child that `segment` names.
    pub fn takes(&self, segment: &ChildMoniker) -> (named: bool)
        ensures
            named == self.names(segment@),
    {
        match self {
            OfferTarget::Child(name) => match segment {
                ChildMoniker::Static { name: child } => *name == *child,
                ChildMoniker::Dynamic { .. } => false,
            },
            OfferTarget::Collection(name) => match segment {
                ChildMoniker::Static { .. } => false,
                ChildMoniker::Dynamic { collection, .. } => *name
                    == *collection,
            },
        }
    }
}

/// Accepts the use that mounts a capability at `target`.
pub open spec fn mounts_at(target: PathSpec) -> spec_fn(UseDecl) -> bool {
    |used: UseDecl| used.target_path@ == target
}

/// Accepts the offer that hands `wanted` to the child that `segment` names.
pub open spec fn hands_down(wanted: PathSpec, segment: SegmentSpec) -> spec_fn(OfferDecl) -> bool {
    |offer: OfferDecl| offer.target_path@ == wanted && offer.target.names(segment)
}

/// Accepts the expose that publishes `wanted`.
pub open spec fn publishes(wanted: PathSpec) -> spec_fn(ExposeDecl) -> bool {
    |expose: ExposeDecl| expose.target_path@ == wanted
}

/// Accepts the child declaration of that name.
pub open spec fn child_called(name: Seq<char>) -> spec_fn(ChildDecl) -> bool {
    |child: ChildDecl| child.name@ == name
}

/// Accepts the collection declaration of that name.
pub open spec fn collection_called(name: Seq<char>) -> spec_fn(CollectionDecl) -> bool {
    |collection: CollectionDecl| collection.name@ == name
}

impl ComponentDecl {
    /// The use by which the component mounts a capability at `target`: the
    /// first such, should the manifest hold several.
    pub open spec fn use_for(&self, target: PathSpec) -> Option<UseDecl> {
        match first_match(self.uses@, mounts_at(target)) {
            Some(at) => Some(self.uses@[at]),
            None => None,
        }
    }

    /// The offer by which the component hands `wanted` to the child that
    /// `segment` names: the first such.
    pub open spec fn offer_for(&self, wanted: PathSpec, segment: SegmentSpec) -> Option<OfferDecl> {
        match first_match(self.offers@, hands_down(wanted, segment)) {
            Some(at) => Some(self.offers@[at]),
            None => None,
        }
    }

    /// The expose by which the component publishes `wanted`: the first such.
    pub open spec fn expose_for(&self, wanted: PathSpec) -> Option<ExposeDecl> {
        match first_match(self.exposes@, publishes(wanted)) {
            Some(at) => Some(self.exposes@[at]),
            None => None,
        }
    }

    /// The declaration of the static child called `name`.
    pub open spec fn child_for(&self, name: Seq<char>) -> Option<ChildDecl> {
        match first_match(self.children@, child_called(name)) {
            Some(at) => Some(self.children@[at]),
            None => None,
        }
    }

    /// Whether the component declares a collection called `name`.
    pub open spec fn has_collection(&self, name: Seq<char>) -> bool {
        first_match(self.collections@, collection_called(name)) is Some
    }

    /// Whether the component declares the child that `segment` names: a static
    /// child by its name, a dynamic one by its collection.
    pub open spec fn declares(&self, segment: SegmentSpec) -> bool {
        match segment {
            SegmentSpec::Static { name } => self.child_for(name) is Some,
            SegmentSpec::Dynamic { collection, .. } => self.has_collection(collection),
        }
    }

    /// Whether the component runs a program.
    pub open spec fn is_executable(&self) -> bool {
        self.program is Some
    }

    /// Whether the manifest is consistent: no path is mounted twice, no child or
    /// collection name is declared twice, and no declaration turns a capability
    /// of one kind into one of the other.
    pub open spec fn valid(&self) -> bool {
        &&& forall|i: int, j: int|
            0 <= i < j < self.uses@.len() ==> self.uses@[i].target_path@
                != self.uses@[j].target_path@
        &&& forall|i: int, j: int|
            0 <= i < j < self.children@.len() ==> self.children@[i].name@
                != self.children@[j].name@
        &&& forall|i: int, j: int|
            0 <= i < j < self.collections@.len() ==> self.collections@[i].name@
                != self.collections@[j].name@
        &&& forall|i: int|
            0 <= i < self.uses@.len() ==> (#[trigger] self.uses@[i]).source_path@.kind
                == self.uses@[i].target_path@.kind
        &&& forall|i: int|
            0 <= i < self.offers@.len() ==> (#[trigger] self.offers@[i]).source_path@.kind
                == self.offers@[i].target_path@.kind
        &&& forall|i: int|
            0 <= i < self.exposes@.len() ==> (#[trigger] self.exposes@[i]).source_path@.kind
                == self.exposes@[i].target_path@.kind
    }

    /// A manifest that declares nothing and runs nothing.
    pub fn new() -> (decl: ComponentDecl)
        ensures
            decl.program is None,
            decl.uses@.len() == 0,
            decl.offers@.len() == 0,
            decl.exposes@.len() == 0,
            decl.children@.len() == 0,
            decl.collections@.len() == 0,
            decl.valid(),
    {
        ComponentDecl {
            program: None,
            uses: Vec::new(),
            offers: Vec::new(),
            exposes: Vec::new(),
            children: Vec::new(),
            collections: Vec::new(),
        }
    }

    /// Where in `uses` the component mounts a capability at `target`.
    pub fn find_use(&self, target: &CapabilityPath) -> (found: Option<usize>)
        ensures
            match found {
                Some(at) => at < self.uses@.len() && first_match(
                    self.uses@,
                    mounts_at(target@),
                ) == Some(at as int),
                None => first_match(self.uses@, mounts_at(target@)) is None,
            },
    {
        let mut at: usize = 0;
        while at < self.uses.len()
            invariant
                at <= self.uses@.len(),
                forall|j: int| 0 <= j < at ==> !mounts_at(target@)(#[trigger] self.uses@[j]),
            decreases self.uses@.len() - at,
        {
            if self.uses[at].target_path.same(target) {
                proof {
                    lemma_first_match_found(self.uses@, mounts_at(target@), at as int);
                }
                return Some(at);
            }
            at += 1;
        }
        proof {
            lemma_first_match_absent(self.uses@, mounts_at(target@));
        }
        None
    }

    /// Where in `offers` the component hands `wanted` to the child that
    /// `segment` names.
    pub fn find_offer(
        &self,
        wanted: &CapabilityPath,
        segment: &ChildMoniker,
    ) -> (found: Option<usize>)
        ensures
            match found {
                Some(at) => at < self.offers@.len() && first_match(
                    self.offers@,
                    hands_down(wanted@, segment@),
                ) == Some(at as int),
                None => first_match(self.offers@, hands_down(wanted@, segment@)) is None,
            },
    {
        let mut at: usize = 0;
        while at < self.offers.len()
            invariant
                at <= self.offers@.len(),
                forall|j: int|
                    0 <= j < at ==> !hands_down(wanted@, segment@)(#[trigger] self.offers@[j]),
            decreases self.offers@.len() - at,
        {
            if self.offers[at].target_path.same(wanted) && self.offers[at].target.takes(segment) {
                proof {
                    lemma_first_match_found(
                        self.offers@,
                        hands_down(wanted@, segment@),
                        at as int,
                    );
                }
                return Some(at);
            }
            at += 1;
        }
        proof {
            lemma_first_match_absent(self.offers@, hands_down(wanted@, segment@));
        }
        None
    }

    /// Where in `exposes` the component publishes `wanted`.
    pub fn find_expose(&self, wanted: &CapabilityPath) -> (found: Option<usize>)
        ensures
            match found {
                Some(at) => at < self.exposes@.len() && first_match(
                    self.exposes@,
                    publishes(wanted@),
                ) == Some(at as int),
                None => first_match(self.exposes@, publishes(wanted@)) is None,
            },
    {
        let mut at: usize = 0;
        while at < self.exposes.len()
            invariant
                at <= self.exposes@.len(),
                forall|j: int| 0 <= j < at ==> !publishes(wanted@)(#[trigger] self.exposes@[j]),
            decreases self.exposes@.len() - at,
        {
            if self.exposes[at].target_path.same(wanted) {
                proof {
                    lemma_first_match_found(self.exposes@, publishes(wanted@), at as int);
                }
                return Some(at);
            }
            at += 1;
        }
        proof {
            lemma_first_match_absent(self.exposes@, publishes(wanted@));
        }
        None
    }

    /// Where in `children` the component declares the child called `name`.
    pub fn find_child(&self, name: &str) -> (found: Option<usize>)
        ensures
            match found {
                Some(at) => at < self.children@.len() && first_match(
                    self.children@,
                    child_called(name@),
                ) == Some(at as int),
                None => first_match(self.children@, child_called(name@)) is None,
            },
    {
        let mut at: usize = 0;
        while at < self.children.len()
            invariant
                at <= self.children@.len(),
                forall|j: int| 0 <= j < at ==> !child_called(name@)(#[trigger] self.children@[j]),
            decreases self.children@.len() - at,
        {
            if same_text(self.children[at].name.as_str(), name) {
                proof {
                    lemma_first_match_found(self.children@, child_called(name@), at as int);
                }
                return Some(at);
            }
            at += 1;
        }
        proof {
            lemma_first_match_absent(self.children@, child_called(name@));
        }
        None
    }

    /// Where in `collections` the component declares the collection called `name`.
    pub fn find_collection(&self, name: &str) -> (found: Option<usize>)
        ensures
            match found {
                Some(at) => at < self.collections@.len() && first_match(
                    self.collections@,
                    collection_called(name@),
                ) == Some(at as int),
                None => first_match(self.collections@, collection_called(name@)) is None,
            },
    {
        let mut at: usize = 0;
        while at < self.collections.len()
            invariant
                at <= self.collections@.len(),
                forall|j: int|
                    0 <= j < at ==> !collection_called(name@)(#[trigger] self.collections@[j]),
            decreases self.collections@.len() - at,
        {
            if same_text(self.collections[at].name.as_str(), name) {
                proof {
                    lemma_first_match_found(
                        self.collections@,
                        collection_called(name@),
                        at as int,
                    );
                }
                return Some(at);
            }
            at += 1;
        }
        proof {
            lemma_first_match_absent(self.collections@, collection_called(name@));
        }
        None
    }
}

impl ComponentDecl {
    /// Whether the use at `at` mounts a path that an earlier use mounts too.
    fn use_repeats(&self, at: usize) -> (repeats: bool)
        requires
            at < self.uses@.len(),
        ensures
            repeats == exists|j: int|
                0 <= j < at && self.uses@[j].target_path@ == self.uses@[at as int].target_path@,
    {
        let mut before: usize = 0;
        while before < at
            invariant
                before <= at < self.uses@.len(),
                forall|j: int|
                    0 <= j < before ==> self.uses@[j].target_path@
                        != self.uses@[at as int].target_path@,
            decreases at - before,
        {
            if self.uses[before].target_path.same(&self.uses[at].target_path) {
                return true;
            }
            before += 1;
        }
        false
    }

    /// Whether the child at `at` has the name of an earlier child.
    fn child_repeats(&self, at: usize) -> (repeats: bool)
        requires
            at < self.children@.len(),
        ensures
            repeats == exists|j: int|
                0 <= j < at && self.children@[j].name@ == self.children@[at as int].name@,
    {
        let mut before: usize = 0;
        while before < at
            invariant
                before <= at < self.children@.len(),
                forall|j: int|
                    0 <= j < before ==> self.children@[j].name@ != self.children@[at as int].name@,
            decreases at - before,
        {
            if self.children[before].name == self.children[at].name {
                return true;
            }
            before += 1;
        }
        false
    }

    /// Whether the collection at `at` has the name of an earlier collection.
    fn collection_repeats(&self, at: usize) -> (repeats: bool)
        requires
            at < self.collections@.len(),
        ensures
            repeats == exists|j: int|
                0 <= j < at && self.collections@[j].name@ == self.collections@[at as int].name@,
    {
        let mut before: usize = 0;
        while before < at
            invariant
                before <= at < self.collections@.len(),
                forall|j: int|
                    0 <= j < before ==> self.collections@[j].name@
                        != self.collections@[at as int].name@,
            decreases at - before,
        {
            if self.collections[before].name == self.collections[at].name {
                return true;
            }
            before += 1;
        }
        false
    }

    /// Whether the manifest is consistent.
    pub fn is_valid(&self) -> (valid: bool)
        ensures
            valid == self.valid(),
    {
        let mut at: usize = 0;
        while at < self.uses.len()
            invariant
                at <= self.uses@.len(),
                forall|i: int, j: int|
                    0 <= i < j < at ==> self.uses@[i].target_path@ != self.uses@[j].target_path@,
                forall|i: int|
                    0 <= i < at ==> (#[trigger] self.uses@[i]).source_path@.kind
                        == self.uses@[i].target_path@.kind,
            decreases self.uses@.len() - at,
        {
            if self.use_repeats(at) {
                return false;
            }
            if self.uses[at].source_path.kind() != self.uses[at].target_path.kind() {
                return false;
            }
            at += 1;
        }
        let mut at: usize = 0;
        while at < self.children.len()
            invariant
                at <= self.children@.len(),
                forall|i: int, j: int|
                    0 <= i < j < at ==> self.children@[i].name@ != self.children@[j].name@,
            decreases self.children@.len() - at,
        {
            if self.child_repeats(at) {
                return false;
            }
            at += 1;
        }
        let mut at: usize = 0;
        while at < self.collections.len()
            invariant
                at <= self.collections@.len(),
                forall|i: int, j: int|
                    0 <= i < j < at ==> self.collections@[i].name@ != self.collections@[j].name@,
            decreases self.collections@.len() - at,
        {
            if self.collection_repeats(at) {
                return false;
            }
            at += 1;
        }
        let mut at: usize = 0;
        while at < self.offers.len()
            invariant
                at <= self.offers@.len(),
                forall|i: int|
                    0 <= i < at ==> (#[trigger] self.offers@[i]).source_path@.kind
                        == self.offers@[i].target_path@.kind,
            decreases self.offers@.len() - at,
        {
            if self.offers[at].source_path.kind() != self.offers[at].target_path.kind() {
                return false;
            }
            at += 1;
        }
        let mut at: usize = 0;
        while at < self.exposes.len()
            invariant
                at <= self.exposes@.len(),
                forall|i: int|
                    0 <= i < at ==> (#[trigger] self.exposes@[i]).source_path@.kind
                        == self.exposes@[i].target_path@.kind,
            decreases self.exposes@.len() - at,
        {
            let expose = &self.exposes[at];
            if expose.source_path.kind() != expose.target_path.kind() {
                return false;
            }
            at += 1;
        }
        true
    }
}

} // verus!

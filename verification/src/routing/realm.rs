//! The realm tree: the component instances that exist, each under its moniker,
//! with the manifest it was bound to.
//!
//! A realm owns its children: they come into the tree when their parent is
//! bound or creates them, and leave it with the parent. The link from a child
//! to its parent is the moniker itself, which is only ever looked up.

use vstd::prelude::*;
use crate::routing::decl::{child_called, ChildDecl, ComponentDecl};
use crate::routing::error::{ErrorKind, ErrorSpec, RoutingError};
use crate::routing::moniker::{
    is_prefix, segment_text, ChildMoniker, Moniker, MonikerSpec, SegmentSpec,
};
use crate::search::{
    first_match, lemma_first_match, lemma_first_match_absent, lemma_first_match_found,
};

verus! {

/// The mathematical value of a realm: where its manifest comes from, and the
/// manifest once the realm is bound.
pub struct RealmSpec {
    pub url: Seq<char>,
    pub decl: Option<ComponentDecl>,
}

/// One component instance.
#[derive(Debug)]
pub struct Realm {
    /// The instance's name in the tree.
    pub moniker: Moniker,
    /// Where the instance's manifest is to be had.
    pub url: String,
    /// The manifest, once the realm is bound.
    pub decl: Option<ComponentDecl>,
}

impl View for Realm {
    type V = RealmSpec;

    open spec fn view(&self) -> RealmSpec {
        RealmSpec { url: self.url@, decl: self.decl }
    }
}

/// Accepts the realm under the moniker `moniker`.
pub open spec fn named(moniker: MonikerSpec) -> spec_fn(Realm) -> bool {
    |realm: Realm| realm.moniker@ == moniker
}

/// The length of the longest moniker among `realms`.
pub open spec fn deepest(realms: Seq<Realm>) -> nat
    decreases realms.len(),
{
    if realms.len() == 0 {
        0
    } else {
        let rest = deepest(realms.drop_last());
        if realms.last().moniker@.len() > rest {
            realms.last().moniker@.len()
        } else {
            rest
        }
    }
}

/// No moniker among `realms` is longer than `deepest(realms)`.
pub proof fn lemma_deepest(realms: Seq<Realm>, at: int)
    requires
        0 <= at < realms.len(),
    ensures
        realms[at].moniker@.len() <= deepest(realms),
    decreases realms.len(),
{
    if at < realms.len() - 1 {
        lemma_deepest(realms.drop_last(), at);
    }
}

/// The moniker of the static child called `name` under `parent`.
pub open spec fn static_child(parent: MonikerSpec, name: Seq<char>) -> MonikerSpec {
    parent.push(SegmentSpec::Static { name })
}

/// The component instances that exist.
#[derive(Debug)]
pub struct RealmTree {
    realms: Vec<Realm>,
}

impl View for RealmTree {
    type V = Map<MonikerSpec, RealmSpec>;

    /// The tree as a map: each instance's moniker, and its realm.
    closed spec fn view(&self) -> Map<MonikerSpec, RealmSpec> {
        Map::new(
            |moniker: MonikerSpec| first_match(self.realms@, named(moniker)) is Some,
            |moniker: MonikerSpec|
                self.realms@[first_match(self.realms@, named(moniker)).unwrap()]@,
        )
    }
}

impl RealmTree {
    /// No two realms of the table share a moniker.
    pub closed spec fn compact(&self) -> bool {
        forall|i: int, j: int|
            0 <= i < j < self.realms@.len() ==> self.realms@[i].moniker@
                != self.realms@[j].moniker@
    }

    /// The depth of the deepest instance.
    pub closed spec fn depth(&self) -> nat {
        deepest(self.realms@)
    }

    /// Whether the tree is well formed: it has a root; every other instance has
    /// a bound parent that declares it; and every bound instance has a
    /// consistent manifest and all the static children that this declares,
    /// each with the URL that the manifest gives it.
    pub open spec fn wf(&self) -> bool {
        &&& self.compact()
        &&& self@.dom().contains(Seq::<SegmentSpec>::empty())
        &&& forall|moniker: MonikerSpec|
            #![trigger self@.dom().contains(moniker)]
            self@.dom().contains(moniker) && moniker.len() > 0 ==> {
                &&& self@.dom().contains(moniker.drop_last())
                &&& self@[moniker.drop_last()].decl is Some
                &&& self@[moniker.drop_last()].decl.unwrap().declares(moniker.last())
            }
        &&& forall|moniker: MonikerSpec|
            #![trigger self@.dom().contains(moniker)]
            self@.dom().contains(moniker) && self@[moniker].decl is Some ==> {
                &&& self@[moniker].decl.unwrap().valid()
                &&& forall|k: int|
                    0 <= k < self@[moniker].decl.unwrap().children@.len() ==> self.holds_child(
                        moniker,
                        #[trigger] self@[moniker].decl.unwrap().children@[k],
                    )
            }
    }

    /// Whether the tree holds the static child that `child` declares under
    /// `parent`, with the URL that the declaration gives it.
    pub open spec fn holds_child(&self, parent: MonikerSpec, child: ChildDecl) -> bool {
        &&& self@.dom().contains(static_child(parent, child.name@))
        &&& self@[static_child(parent, child.name@)].url == child.url@
    }

    /// No instance lies deeper than `depth()`.
    pub proof fn lemma_depth(&self, moniker: MonikerSpec)
        requires
            self@.dom().contains(moniker),
        ensures
            moniker.len() <= self.depth(),
    {
        lemma_first_match(self.realms@, named(moniker));
        lemma_deepest(self.realms@, first_match(self.realms@, named(moniker)).unwrap());
    }

    /// The realm at a position of the table is the one that the tree holds
    /// under its moniker.
    proof fn lemma_entry(&self, at: int)
        requires
            self.compact(),
            0 <= at < self.realms@.len(),
        ensures
            self@.dom().contains(self.realms@[at].moniker@),
            self@[self.realms@[at].moniker@] == self.realms@[at]@,
            first_match(self.realms@, named(self.realms@[at].moniker@)) == Some(at),
    {
        let moniker = self.realms@[at].moniker@;
        lemma_first_match(self.realms@, named(moniker));
        assert(named(moniker)(self.realms@[at]));
    }

    /// An instance of the tree stands somewhere in the table.
    proof fn lemma_position(&self, moniker: MonikerSpec) -> (at: int)
        requires
            self@.dom().contains(moniker),
        ensures
            0 <= at < self.realms@.len(),
            self.realms@[at].moniker@ == moniker,
            self@[moniker] == self.realms@[at]@,
            first_match(self.realms@, named(moniker)) == Some(at),
    {
        lemma_first_match(self.realms@, named(moniker));
        first_match(self.realms@, named(moniker)).unwrap()
    }

    /// A tree that holds only an unbound root, whose manifest is at `root_url`.
    pub fn new(root_url: String) -> (tree: RealmTree)
        ensures
            tree.wf(),
            tree@ == map![Seq::<SegmentSpec>::empty() => RealmSpec { url: root_url@, decl: None }],
    {
        let root = Realm { moniker: Moniker::root(), url: root_url, decl: None };
        let mut realms: Vec<Realm> = Vec::new();
        realms.push(root);
        let tree = RealmTree { realms };
        proof {
            let empty = Seq::<SegmentSpec>::empty();
            tree.lemma_entry(0);
            assert forall|moniker: MonikerSpec| tree@.dom().contains(moniker) implies moniker
                == empty by {
                tree.lemma_position(moniker);
            }
            assert(tree@ =~= map![empty => RealmSpec { url: root_url@, decl: None }]);
        }
        tree
    }

    /// How many instances the tree holds.
    pub fn len(&self) -> (count: usize)
        requires
            self.wf(),
        ensures
            count == self@.dom().len(),
            self@.dom().finite(),
    {
        proof {
            self.lemma_count();
        }
        self.realms.len()
    }

    /// Where in the table the realm stands whose moniker is the first `len`
    /// segments of `moniker`.
    fn find_prefix(&self, moniker: &Moniker, len: usize) -> (found: Option<usize>)
        requires
            len <= moniker@.len(),
        ensures
            match found {
                Some(at) => {
                    &&& at < self.realms@.len()
                    &&& first_match(self.realms@, named(moniker@.take(len as int))) == Some(
                        at as int,
                    )
                    &&& self.realms@[at as int].moniker@ == moniker@.take(len as int)
                    &&& self@.dom().contains(moniker@.take(len as int))
                    &&& self@[moniker@.take(len as int)] == self.realms@[at as int]@
                },
                None => !self@.dom().contains(moniker@.take(len as int)),
            },
    {
        let ghost wanted = moniker@.take(len as int);
        let mut at: usize = 0;
        while at < self.realms.len()
            invariant
                at <= self.realms@.len(),
                len <= moniker@.len(),
                wanted == moniker@.take(len as int),
                forall|j: int| 0 <= j < at ==> !named(wanted)(#[trigger] self.realms@[j]),
            decreases self.realms@.len() - at,
        {
            if moniker.prefix_is(len, &self.realms[at].moniker) {
                proof {
                    lemma_first_match_found(self.realms@, named(wanted), at as int);
                }
                return Some(at);
            }
            at += 1;
        }
        proof {
            lemma_first_match_absent(self.realms@, named(wanted));
        }
        None
    }

    /// Where in the table the realm under `moniker` stands.
    fn find(&self, moniker: &Moniker) -> (found: Option<usize>)
        ensures
            match found {
                Some(at) => {
                    &&& at < self.realms@.len()
                    &&& first_match(self.realms@, named(moniker@)) == Some(at as int)
                    &&& self.realms@[at as int].moniker@ == moniker@
                    &&& self@.dom().contains(moniker@)
                    &&& self@[moniker@] == self.realms@[at as int]@
                },
                None => !self@.dom().contains(moniker@),
            },
    {
        assert(moniker@.take(moniker@.len() as int) =~= moniker@);
        self.find_prefix(moniker, moniker.len())
    }

    /// The realm of the ancestor that the first `len` segments of `moniker`
    /// name, if there is such an instance; none where the moniker has fewer
    /// segments.
    pub fn ancestor(&self, moniker: &Moniker, len: usize) -> (realm: Option<&Realm>)
        ensures
            match realm {
                Some(realm) => {
                    &&& len <= moniker@.len()
                    &&& self@.dom().contains(moniker@.take(len as int))
                    &&& realm.moniker@ == moniker@.take(len as int)
                    &&& realm@ == self@[moniker@.take(len as int)]
                },
                None => len > moniker@.len() || !self@.dom().contains(
                    moniker@.take(len as int),
                ),
            },
    {
        if len > moniker.len() {
            return None;
        }
        match self.find_prefix(moniker, len) {
            Some(at) => Some(&self.realms[at]),
            None => None,
        }
    }

    /// Whether an instance has the moniker `moniker`.
    pub fn contains(&self, moniker: &Moniker) -> (present: bool)
        ensures
            present == self@.dom().contains(moniker@),
    {
        self.find(moniker).is_some()
    }

    /// The realm under `moniker`, if an instance has that moniker.
    pub fn get(&self, moniker: &Moniker) -> (realm: Option<&Realm>)
        ensures
            match realm {
                Some(realm) => {
                    &&& self@.dom().contains(moniker@)
                    &&& realm.moniker@ == moniker@
                    &&& realm@ == self@[moniker@]
                },
                None => !self@.dom().contains(moniker@),
            },
    {
        match self.find(moniker) {
            Some(at) => Some(&self.realms[at]),
            None => None,
        }
    }

    /// The tree's instances are as many as the table's realms.
    proof fn lemma_count(&self)
        requires
            self.compact(),
        ensures
            self@.dom().finite(),
            self@.dom().len() == self.realms@.len(),
    {
        let monikers = self.realms@.map_values(|realm: Realm| realm.moniker@);
        assert forall|i: int, j: int| 0 <= i < j < monikers.len() implies monikers[i]
            != monikers[j] by {}
        assert(monikers.no_duplicates());
        monikers.unique_seq_to_set();
        assert forall|moniker: MonikerSpec| self@.dom().contains(moniker)
            <==> monikers.to_set().contains(moniker) by {
            if self@.dom().contains(moniker) {
                let at = self.lemma_position(moniker);
                assert(monikers[at] == moniker);
            }
            if monikers.to_set().contains(moniker) {
                let at = choose|at: int| 0 <= at < monikers.len() && monikers[at] == moniker;
                self.lemma_entry(at);
            }
        }
        assert(self@.dom() =~= monikers.to_set());
    }
}

impl RealmTree {
    /// What stops a walk from the root down the first `upto` segments of
    /// `moniker`, if anything does: an instance on the way that is not bound
    /// yet, whose manifest is then wanted from its URL, or an instance that
    /// does not exist.
    pub open spec fn obstacle(&self, moniker: MonikerSpec, upto: nat) -> Option<ErrorSpec>
        decreases upto,
    {
        if upto == 0 {
            if self@.dom().contains(Seq::<SegmentSpec>::empty()) {
                None
            } else {
                Some(
                    ErrorSpec {
                        kind: ErrorKind::InstanceNotFound,
                        moniker: Seq::<SegmentSpec>::empty(),
                        path: Seq::<char>::empty(),
                    },
                )
            }
        } else {
            let parent = moniker.take(upto - 1);
            let here = moniker.take(upto as int);
            match self.obstacle(moniker, (upto - 1) as nat) {
                Some(error) => Some(error),
                None => if self@[parent].decl is None {
                    Some(
                        ErrorSpec {
                            kind: ErrorKind::ResolverError,
                            moniker: parent,
                            path: self@[parent].url,
                        },
                    )
                } else if !self@.dom().contains(here) {
                    Some(
                        ErrorSpec {
                            kind: ErrorKind::InstanceNotFound,
                            moniker: here,
                            path: segment_text(moniker[upto - 1]),
                        },
                    )
                } else {
                    None
                },
            }
        }
    }

    /// What stops a walk stops every longer walk along the same moniker.
    pub proof fn lemma_obstacle_stays(&self, moniker: MonikerSpec, at: nat, upto: nat)
        requires
            at <= upto,
            self.obstacle(moniker, at) is Some,
        ensures
            self.obstacle(moniker, upto) == self.obstacle(moniker, at),
        decreases upto,
    {
        if at < upto {
            self.lemma_obstacle_stays(moniker, at, (upto - 1) as nat);
        }
    }

    /// Walks from the root to the instance that `moniker` names and returns its
    /// realm. The walk passes only through bound instances: where it meets one
    /// that is not bound, it fails with `ResolverError`, naming that instance
    /// and the URL of its manifest. Where a segment names no child of the
    /// instance reached, it fails with `InstanceNotFound`.
    pub fn resolve(&self, moniker: &Moniker) -> (found: Result<&Realm, RoutingError>)
        ensures
            match found {
                Ok(realm) => {
                    &&& self.obstacle(moniker@, moniker@.len()) is None
                    &&& self@.dom().contains(moniker@)
                    &&& realm.moniker@ == moniker@
                    &&& realm@ == self@[moniker@]
                },
                Err(error) => self.obstacle(moniker@, moniker@.len()) == Some(error@),
            },
    {
        let len: usize = moniker.len();
        let mut at: usize = match self.find_prefix(moniker, 0) {
            Some(at) => at,
            None => {
                let error = RoutingError::new(
                    ErrorKind::InstanceNotFound,
                    Moniker::root(),
                    String::new(),
                );
                proof {
                    assert(moniker@.take(0) =~= Seq::<SegmentSpec>::empty());
                    self.lemma_obstacle_stays(moniker@, 0, len as nat);
                }
                return Err(error);
            },
        };
        let mut depth: usize = 0;
        proof {
            assert(moniker@.take(0) =~= Seq::<SegmentSpec>::empty());
        }
        while depth < len
            invariant
                depth <= len == moniker@.len(),
                at < self.realms@.len(),
                self.obstacle(moniker@, depth as nat) is None,
                self@.dom().contains(moniker@.take(depth as int)),
                self.realms@[at as int].moniker@ == moniker@.take(depth as int),
                self@[moniker@.take(depth as int)] == self.realms@[at as int]@,
            decreases len - depth,
        {
            if self.realms[at].decl.is_none() {
                let error = RoutingError::new(
                    ErrorKind::ResolverError,
                    moniker.prefix(depth),
                    self.realms[at].url.clone(),
                );
                proof {
                    self.lemma_obstacle_stays(moniker@, (depth + 1) as nat, len as nat);
                }
                return Err(error);
            }
            match self.find_prefix(moniker, depth + 1) {
                Some(next) => {
                    at = next;
                },
                None => {
                    let error = RoutingError::new(
                        ErrorKind::InstanceNotFound,
                        moniker.prefix(depth + 1),
                        moniker.segments[depth].text(),
                    );
                    proof {
                        self.lemma_obstacle_stays(moniker@, (depth + 1) as nat, len as nat);
                    }
                    return Err(error);
                },
            }
            depth += 1;
        }
        assert(moniker@.take(len as int) =~= moniker@);
        Ok(&self.realms[at])
    }
}

/// Whether `moniker` names a static child that `decl` declares, under the
/// instance `parent`.
pub open spec fn declared_under(
    parent: MonikerSpec,
    decl: ComponentDecl,
    moniker: MonikerSpec,
) -> bool {
    &&& moniker.len() > 0
    &&& moniker.drop_last() == parent
    &&& match moniker.last() {
        SegmentSpec::Static { name } => decl.child_for(name) is Some,
        SegmentSpec::Dynamic { .. } => false,
    }
}

/// The realm that a static child starts as: not bound, with the URL that the
/// parent's manifest gives it.
pub open spec fn declared_realm(decl: ComponentDecl, segment: SegmentSpec) -> RealmSpec {
    match segment {
        SegmentSpec::Static { name } => RealmSpec {
            url: decl.child_for(name).unwrap().url@,
            decl: None,
        },
        SegmentSpec::Dynamic { .. } => arbitrary(),
    }
}

/// The tree after the instance `moniker` of `tree` was bound to `decl`: the
/// instance has its manifest, and each static child that the manifest declares
/// has come into being, not bound yet.
pub open spec fn bound(
    tree: Map<MonikerSpec, RealmSpec>,
    moniker: MonikerSpec,
    decl: ComponentDecl,
) -> Map<MonikerSpec, RealmSpec> {
    Map::new(
        |other: MonikerSpec| tree.dom().contains(other) || declared_under(moniker, decl, other),
        |other: MonikerSpec|
            if other == moniker {
                RealmSpec { url: tree[moniker].url, decl: Some(decl) }
            } else if tree.dom().contains(other) {
                tree[other]
            } else {
                declared_realm(decl, other.last())
            },
    )
}

/// The realms that the static children of `decl` start as, under `parent`.
fn static_children(parent: &Moniker, decl: &ComponentDecl) -> (children: Vec<Realm>)
    ensures
        children@.len() == decl.children@.len(),
        forall|k: int|
            0 <= k < children@.len() ==> {
                &&& (#[trigger] children@[k]).moniker@ == static_child(
                    parent@,
                    decl.children@[k].name@,
                )
                &&& children@[k]@ == RealmSpec { url: decl.children@[k].url@, decl: None }
            },
{
    let mut children: Vec<Realm> = Vec::new();
    let mut at: usize = 0;
    while at < decl.children.len()
        invariant
            at <= decl.children@.len(),
            children@.len() == at,
            forall|k: int|
                0 <= k < at ==> {
                    &&& (#[trigger] children@[k]).moniker@ == static_child(
                        parent@,
                        decl.children@[k].name@,
                    )
                    &&& children@[k]@ == RealmSpec { url: decl.children@[k].url@, decl: None }
                },
        decreases decl.children@.len() - at,
    {
        let segment = ChildMoniker::Static { name: decl.children[at].name.clone() };
        children.push(
            Realm {
                moniker: parent.child(segment),
                url: decl.children[at].url.clone(),
                decl: None,
            },
        );
        at += 1;
    }
    children
}

impl RealmTree {
    /// Binding an instance of a table gives a well-formed table whose tree is
    /// `bound(..)` of the one before.
    proof fn lemma_bound(
        before: RealmTree,
        after: RealmTree,
        at: int,
        moniker: MonikerSpec,
        decl: ComponentDecl,
    )
        requires
            before.wf(),
            0 <= at < before.realms@.len(),
            before.realms@[at].moniker@ == moniker,
            before.realms@[at].decl is None,
            decl.valid(),
            after.realms@.len() == before.realms@.len() + decl.children@.len(),
            forall|j: int|
                0 <= j < before.realms@.len() && j != at ==> after.realms@[j]
                    == before.realms@[j],
            after.realms@[at].moniker@ == moniker,
            after.realms@[at]@ == (RealmSpec { url: before.realms@[at].url@, decl: Some(decl) }),
            forall|k: int|
                0 <= k < decl.children@.len() ==> {
                    &&& (#[trigger] after.realms@[before.realms@.len() + k]).moniker@
                        == static_child(moniker, decl.children@[k].name@)
                    &&& after.realms@[before.realms@.len() + k]@ == RealmSpec {
                        url: decl.children@[k].url@,
                        decl: None,
                    }
                },
        ensures
            after.wf(),
            after@ == bound(before@, moniker, decl),
    {
        let olds = before.realms@;
        let news = after.realms@;
        let base = olds.len() as int;
        before.lemma_entry(at);
        // Every realm keeps its moniker.
        assert forall|j: int| 0 <= j < base implies (#[trigger] news[j]).moniker@
            == olds[j].moniker@ by {}
        // No realm of the old table is a child of the instance: it was not bound.
        assert forall|j: int| 0 <= j < base implies !((#[trigger] olds[j]).moniker@.len() > 0
            && olds[j].moniker@.drop_last() == moniker) by {
            before.lemma_entry(j);
        }
        assert forall|k: int| 0 <= k < decl.children@.len() implies {
            &&& (#[trigger] news[base + k]).moniker@.len() > 0
            &&& news[base + k].moniker@.drop_last() == moniker
            &&& news[base + k].moniker@.last() == SegmentSpec::Static {
                name: decl.children@[k].name@,
            }
        } by {
            let child = static_child(moniker, decl.children@[k].name@);
            assert(child.drop_last() =~= moniker);
        }
        assert(after.compact()) by {
            assert forall|i: int, j: int| 0 <= i < j < news.len() implies news[i].moniker@
                != news[j].moniker@ by {
                if j < base {
                    assert(olds[i].moniker@ != olds[j].moniker@);
                } else if i < base {
                    assert(news[j] == news[base + (j - base)]);
                    assert(olds[i].moniker@ == news[i].moniker@);
                } else {
                    assert(news[i] == news[base + (i - base)]);
                    assert(news[j] == news[base + (j - base)]);
                    assert(decl.children@[i - base].name@ != decl.children@[j - base].name@);
                }
            }
        }
        // What the new tree holds, and under which moniker.
        assert forall|other: MonikerSpec| #[trigger]
            after@.dom().contains(other) <==> bound(before@, moniker, decl).dom().contains(
                other,
            ) by {
            if after@.dom().contains(other) {
                let j = after.lemma_position(other);
                if j < base {
                    before.lemma_entry(j);
                } else {
                    let k = j - base;
                    assert(news[j] == news[base + k]);
                    lemma_first_match(decl.children@, child_called(decl.children@[k].name@));
                    assert(child_called(decl.children@[k].name@)(decl.children@[k]));
                }
            }
            if before@.dom().contains(other) {
                let j = before.lemma_position(other);
                after.lemma_entry(j);
            }
            if declared_under(moniker, decl, other) {
                let name = other.last()->Static_name;
                lemma_first_match(decl.children@, child_called(name));
                let k = first_match(decl.children@, child_called(name)).unwrap();
                after.lemma_entry(base + k);
                assert(static_child(moniker, name) =~= other);
            }
        }
        assert forall|other: MonikerSpec| #[trigger]
            after@.dom().contains(other) implies after@[other] == bound(
                before@,
                moniker,
                decl,
            )[other] by {
            let j = after.lemma_position(other);
            if j == at {
            } else if j < base {
                before.lemma_entry(j);
            } else {
                let k = j - base;
                assert(news[j] == news[base + k]);
                let name = decl.children@[k].name@;
                lemma_first_match(decl.children@, child_called(name));
                assert(child_called(name)(decl.children@[k]));
                let first = first_match(decl.children@, child_called(name)).unwrap();
                assert(first == k);
                if before@.dom().contains(other) {
                    let i = before.lemma_position(other);
                    assert(olds[i].moniker@.len() > 0 && olds[i].moniker@.drop_last() == moniker);
                }
            }
        }
        assert(after@ =~= bound(before@, moniker, decl));
        // The tree is well formed again.
        assert forall|other: MonikerSpec|
            #![trigger after@.dom().contains(other)]
            after@.dom().contains(other) && other.len() > 0 implies {
                &&& after@.dom().contains(other.drop_last())
                &&& after@[other.drop_last()].decl is Some
                &&& after@[other.drop_last()].decl.unwrap().declares(other.last())
            } by {
            if before@.dom().contains(other) {
                assert(before@.dom().contains(other.drop_last()));
                assert(other.drop_last() != moniker);
            }
        }
        assert forall|other: MonikerSpec|
            #![trigger after@.dom().contains(other)]
            after@.dom().contains(other) && after@[other].decl is Some implies {
                &&& after@[other].decl.unwrap().valid()
                &&& forall|k: int|
                    0 <= k < after@[other].decl.unwrap().children@.len() ==> after.holds_child(
                        other,
                        #[trigger] after@[other].decl.unwrap().children@[k],
                    )
            } by {
            if other == moniker {
                assert forall|k: int| 0 <= k < decl.children@.len() implies after.holds_child(
                    other,
                    #[trigger] decl.children@[k],
                ) by {
                    after.lemma_entry(base + k);
                }
            } else {
                assert(before@.dom().contains(other));
                assert(before@[other].decl is Some);
                let held = before@[other].decl.unwrap();
                assert forall|k: int| 0 <= k < held.children@.len() implies after.holds_child(
                    other,
                    #[trigger] held.children@[k],
                ) by {
                    assert(before.holds_child(other, held.children@[k]));
                }
            }
        }
    }

    /// Binds the instance `moniker` to its manifest `decl`, if it is not bound
    /// yet: the instance gets the manifest, and the static children that this
    /// declares come into being. Binding an instance that is bound already
    /// changes nothing. A manifest that is not consistent is refused with
    /// `ResolverError`, an unknown moniker with `InstanceNotFound`.
    pub fn bind(&mut self, moniker: &Moniker, decl: ComponentDecl) -> (done: Result<
        (),
        RoutingError,
    >)
        requires
            old(self).wf(),
        ensures
            final(self).wf(),
            match done {
                Ok(_) => {
                    &&& old(self)@.dom().contains(moniker@)
                    &&& old(self)@[moniker@].decl is Some ==> final(self)@ == old(self)@
                    &&& old(self)@[moniker@].decl is None ==> decl.valid() && final(self)@
                        == bound(old(self)@, moniker@, decl)
                },
                Err(error) => {
                    &&& final(self)@ == old(self)@
                    &&& !old(self)@.dom().contains(moniker@) ==> error@ == ErrorSpec {
                        kind: ErrorKind::InstanceNotFound,
                        moniker: moniker@,
                        path: Seq::<char>::empty(),
                    }
                    &&& old(self)@.dom().contains(moniker@) ==> {
                        &&& old(self)@[moniker@].decl is None
                        &&& !decl.valid()
                        &&& error@ == ErrorSpec {
                            kind: ErrorKind::ResolverError,
                            moniker: moniker@,
                            path: old(self)@[moniker@].url,
                        }
                    }
                },
            },
    {
        let at: usize = match self.find(moniker) {
            Some(at) => at,
            None => {
                return Err(
                    RoutingError::new(ErrorKind::InstanceNotFound, moniker.clone(), String::new()),
                );
            },
        };
        if self.realms[at].decl.is_some() {
            return Ok(());
        }
        if !decl.is_valid() {
            return Err(
                RoutingError::new(
                    ErrorKind::ResolverError,
                    moniker.clone(),
                    self.realms[at].url.clone(),
                ),
            );
        }
        let ghost before = *self;
        let mut children = static_children(moniker, &decl);
        let realm = Realm {
            moniker: moniker.clone(),
            url: self.realms[at].url.clone(),
            decl: Some(decl),
        };
        self.realms.set(at, realm);
        self.realms.append(&mut children);
        proof {
            Self::lemma_bound(before, *self, at as int, moniker@, decl);
        }
        Ok(())
    }
}

/// The moniker of the dynamic child called `name` in the collection
/// `collection` of `parent`.
pub open spec fn dynamic_child(
    parent: MonikerSpec,
    collection: Seq<char>,
    name: Seq<char>,
) -> MonikerSpec {
    parent.push(SegmentSpec::Dynamic { collection, name })
}

/// Whether `moniker` names a dynamic child: an instance that was created in a
/// collection.
pub open spec fn is_dynamic(moniker: MonikerSpec) -> bool {
    moniker.len() > 0 && moniker.last() is Dynamic
}

/// The tree without the instance `moniker` and everything below it.
pub open spec fn without(
    tree: Map<MonikerSpec, RealmSpec>,
    moniker: MonikerSpec,
) -> Map<MonikerSpec, RealmSpec> {
    Map::new(
        |other: MonikerSpec| tree.dom().contains(other) && !is_prefix(moniker, other),
        |other: MonikerSpec| tree[other],
    )
}

impl RealmTree {
    /// Why a child called `name` cannot be created in the collection
    /// `collection` of `parent`, if it cannot.
    pub open spec fn creation_error(
        &self,
        parent: MonikerSpec,
        collection: Seq<char>,
        name: Seq<char>,
    ) -> Option<ErrorSpec> {
        if !self@.dom().contains(parent) {
            Some(
                ErrorSpec {
                    kind: ErrorKind::InstanceNotFound,
                    moniker: parent,
                    path: Seq::<char>::empty(),
                },
            )
        } else if self@[parent].decl is None {
            Some(
                ErrorSpec {
                    kind: ErrorKind::ResolverError,
                    moniker: parent,
                    path: self@[parent].url,
                },
            )
        } else if !self@[parent].decl.unwrap().has_collection(collection) {
            Some(
                ErrorSpec {
                    kind: ErrorKind::CollectionNotFound,
                    moniker: parent,
                    path: collection,
                },
            )
        } else if self@.dom().contains(dynamic_child(parent, collection, name)) {
            Some(
                ErrorSpec {
                    kind: ErrorKind::DuplicateChild,
                    moniker: dynamic_child(parent, collection, name),
                    path: name,
                },
            )
        } else {
            None
        }
    }

    /// Why the instance `moniker` cannot be destroyed, if it cannot: there is
    /// no such instance, or it is not a dynamic child.
    pub open spec fn removal_error(&self, moniker: MonikerSpec) -> Option<ErrorSpec> {
        if !self@.dom().contains(moniker) || !is_dynamic(moniker) {
            Some(
                ErrorSpec {
                    kind: ErrorKind::InstanceNotFound,
                    moniker,
                    path: Seq::<char>::empty(),
                },
            )
        } else {
            None
        }
    }

    /// A table with one more realm, for a new dynamic child, is well formed and
    /// holds the child beside what it held.
    proof fn lemma_created(before: RealmTree, after: RealmTree, child: MonikerSpec)
        requires
            before.wf(),
            is_dynamic(child),
            before@.dom().contains(child.drop_last()),
            before@[child.drop_last()].decl is Some,
            before@[child.drop_last()].decl.unwrap().declares(child.last()),
            !before@.dom().contains(child),
            after.realms@.len() == before.realms@.len() + 1,
            after.realms@.drop_last() == before.realms@,
            after.realms@.last().moniker@ == child,
            after.realms@.last().decl is None,
        ensures
            after.wf(),
            after@ == before@.insert(child, after.realms@.last()@),
    {
        let olds = before.realms@;
        let news = after.realms@;
        let base = olds.len() as int;
        assert forall|j: int| 0 <= j < base implies #[trigger] news[j] == olds[j] by {
            assert(news.drop_last()[j] == news[j]);
        }
        assert(after.compact()) by {
            assert forall|i: int, j: int| 0 <= i < j < news.len() implies news[i].moniker@
                != news[j].moniker@ by {
                if j == base {
                    before.lemma_entry(i);
                }
            }
        }
        after.lemma_entry(base);
        assert forall|other: MonikerSpec| #[trigger]
            after@.dom().contains(other) <==> before@.insert(
                child,
                news.last()@,
            ).dom().contains(other) by {
            if after@.dom().contains(other) {
                let j = after.lemma_position(other);
                if j < base {
                    before.lemma_entry(j);
                }
            }
            if before@.dom().contains(other) {
                let j = before.lemma_position(other);
                after.lemma_entry(j);
            }
        }
        assert forall|other: MonikerSpec| #[trigger]
            after@.dom().contains(other) implies after@[other] == before@.insert(
                child,
                news.last()@,
            )[other] by {
            let j = after.lemma_position(other);
            if j < base {
                before.lemma_entry(j);
            }
        }
        assert(after@ =~= before@.insert(child, news.last()@));
        assert forall|other: MonikerSpec|
            #![trigger after@.dom().contains(other)]
            after@.dom().contains(other) && other.len() > 0 implies {
                &&& after@.dom().contains(other.drop_last())
                &&& after@[other.drop_last()].decl is Some
                &&& after@[other.drop_last()].decl.unwrap().declares(other.last())
            } by {
            if other != child {
                assert(before@.dom().contains(other));
                assert(before@.dom().contains(other.drop_last()));
            }
        }
        assert forall|other: MonikerSpec|
            #![trigger after@.dom().contains(other)]
            after@.dom().contains(other) && after@[other].decl is Some implies {
                &&& after@[other].decl.unwrap().valid()
                &&& forall|k: int|
                    0 <= k < after@[other].decl.unwrap().children@.len() ==> after.holds_child(
                        other,
                        #[trigger] after@[other].decl.unwrap().children@[k],
                    )
            } by {
            assert(before@.dom().contains(other));
            let held = before@[other].decl.unwrap();
            assert forall|k: int| 0 <= k < held.children@.len() implies after.holds_child(
                other,
                #[trigger] held.children@[k],
            ) by {
                assert(before.holds_child(other, held.children@[k]));
            }
        }
    }

    /// Creates a child in a collection of the instance `parent`: the child that
    /// `child` describes, by its name and the URL of its manifest. The new
    /// instance is not bound. Fails with `CollectionNotFound` where the
    /// parent's manifest declares no such collection, and with `DuplicateChild`
    /// where the collection holds a child of that name already.
    pub fn create_dynamic_child(
        &mut self,
        parent: &Moniker,
        collection: &str,
        child: ChildDecl,
    ) -> (done: Result<(), RoutingError>)
        requires
            old(self).wf(),
        ensures
            final(self).wf(),
            match done {
                Ok(_) => {
                    &&& old(self).creation_error(parent@, collection@, child.name@) is None
                    &&& final(self)@ == old(self)@.insert(
                        dynamic_child(parent@, collection@, child.name@),
                        RealmSpec { url: child.url@, decl: None },
                    )
                },
                Err(error) => {
                    &&& old(self).creation_error(parent@, collection@, child.name@) == Some(
                        error@,
                    )
                    &&& final(self)@ == old(self)@
                },
            },
    {
        let at: usize = match self.find(parent) {
            Some(at) => at,
            None => {
                return Err(
                    RoutingError::new(ErrorKind::InstanceNotFound, parent.clone(), String::new()),
                );
            },
        };
        match &self.realms[at].decl {
            None => {
                return Err(
                    RoutingError::new(
                        ErrorKind::ResolverError,
                        parent.clone(),
                        self.realms[at].url.clone(),
                    ),
                );
            },
            Some(decl) => {
                if decl.find_collection(collection).is_none() {
                    return Err(
                        RoutingError::new(
                            ErrorKind::CollectionNotFound,
                            parent.clone(),
                            collection.to_owned(),
                        ),
                    );
                }
            },
        }
        let segment = ChildMoniker::Dynamic {
            collection: collection.to_owned(),
            name: child.name.clone(),
        };
        let moniker = parent.child(segment);
        if self.find(&moniker).is_some() {
            return Err(RoutingError::new(ErrorKind::DuplicateChild, moniker, child.name));
        }
        let ghost before = *self;
        proof {
            assert(moniker@.drop_last() =~= parent@);
        }
        self.realms.push(Realm { moniker, url: child.url, decl: None });
        proof {
            assert(self.realms@.drop_last() =~= before.realms@);
            Self::lemma_created(before, *self, moniker@);
        }
        Ok(())
    }

    /// A table that keeps just the realms that are not under `moniker` is well
    /// formed, where `moniker` names a dynamic child, and holds the tree
    /// without that child.
    proof fn lemma_removed(
        before: RealmTree,
        after: RealmTree,
        moniker: MonikerSpec,
        origin: Seq<int>,
    )
        requires
            before.wf(),
            is_dynamic(moniker),
            after.compact(),
            origin.len() == after.realms@.len(),
            forall|i: int|
                0 <= i < after.realms@.len() ==> {
                    &&& 0 <= #[trigger] origin[i] < before.realms@.len()
                    &&& after.realms@[i] == before.realms@[origin[i]]
                    &&& !is_prefix(moniker, before.realms@[origin[i]].moniker@)
                },
            forall|j: int|
                0 <= j < before.realms@.len() && !is_prefix(
                    moniker,
                    (#[trigger] before.realms@[j]).moniker@,
                ) ==> exists|i: int|
                    0 <= i < after.realms@.len() && #[trigger] after.realms@[i]
                        == before.realms@[j],
        ensures
            after.wf(),
            after@ == without(before@, moniker),
    {
        let olds = before.realms@;
        let news = after.realms@;
        assert forall|other: MonikerSpec| #[trigger]
            after@.dom().contains(other) <==> without(before@, moniker).dom().contains(
                other,
            ) by {
            if after@.dom().contains(other) {
                let i = after.lemma_position(other);
                let j = origin[i];
                before.lemma_entry(j);
            }
            if before@.dom().contains(other) && !is_prefix(moniker, other) {
                let j = before.lemma_position(other);
                let i = choose|i: int| 0 <= i < news.len() && #[trigger] news[i] == olds[j];
                after.lemma_entry(i);
            }
        }
        assert forall|other: MonikerSpec| #[trigger]
            after@.dom().contains(other) implies after@[other] == without(
                before@,
                moniker,
            )[other] by {
            let i = after.lemma_position(other);
            let j = origin[i];
            before.lemma_entry(j);
        }
        assert(after@ =~= without(before@, moniker));
        assert(after@.dom().contains(Seq::<SegmentSpec>::empty()));
        assert forall|other: MonikerSpec|
            #![trigger after@.dom().contains(other)]
            after@.dom().contains(other) && other.len() > 0 implies {
                &&& after@.dom().contains(other.drop_last())
                &&& after@[other.drop_last()].decl is Some
                &&& after@[other.drop_last()].decl.unwrap().declares(other.last())
            } by {
            assert(before@.dom().contains(other));
            assert(before@.dom().contains(other.drop_last()));
            if is_prefix(moniker, other.drop_last()) {
                assert(other.take(moniker.len() as int) =~= other.drop_last().take(
                    moniker.len() as int,
                ));
            }
        }
        assert forall|other: MonikerSpec|
            #![trigger after@.dom().contains(other)]
            after@.dom().contains(other) && after@[other].decl is Some implies {
                &&& after@[other].decl.unwrap().valid()
                &&& forall|k: int|
                    0 <= k < after@[other].decl.unwrap().children@.len() ==> after.holds_child(
                        other,
                        #[trigger] after@[other].decl.unwrap().children@[k],
                    )
            } by {
            assert(before@.dom().contains(other));
            let decl = before@[other].decl.unwrap();
            assert forall|k: int| 0 <= k < decl.children@.len() implies after.holds_child(
                other,
                #[trigger] decl.children@[k],
            ) by {
                let child = static_child(other, decl.children@[k].name@);
                assert(before.holds_child(other, decl.children@[k]));
                if is_prefix(moniker, child) {
                    if moniker.len() == child.len() {
                        assert(child.take(child.len() as int) =~= child);
                        assert(child.last() is Static);
                    } else {
                        assert(other.take(moniker.len() as int) =~= child.take(
                            moniker.len() as int,
                        ));
                    }
                }
            }
        }
    }

    /// Destroys the dynamic child `moniker`, with everything below it, in one
    /// step: afterwards the tree holds the child and its descendants no more,
    /// and everything else as before. Fails with `InstanceNotFound` where no
    /// dynamic child has that moniker.
    pub fn destroy_dynamic_child(&mut self, moniker: &Moniker) -> (done: Result<(), RoutingError>)
        requires
            old(self).wf(),
        ensures
            final(self).wf(),
            match done {
                Ok(_) => {
                    &&& old(self).removal_error(moniker@) is None
                    &&& final(self)@ == without(old(self)@, moniker@)
                },
                Err(error) => {
                    &&& old(self).removal_error(moniker@) == Some(error@)
                    &&& final(self)@ == old(self)@
                },
            },
    {
        let len: usize = moniker.len();
        let dynamic: bool = len > 0 && match moniker.segments[len - 1] {
            ChildMoniker::Static { .. } => false,
            ChildMoniker::Dynamic { .. } => true,
        };
        if !dynamic || self.find(moniker).is_none() {
            return Err(
                RoutingError::new(ErrorKind::InstanceNotFound, moniker.clone(), String::new()),
            );
        }
        let ghost before = *self;
        let ghost olds = self.realms@;
        let mut all: Vec<Realm> = Vec::new();
        std::mem::swap(&mut self.realms, &mut all);
        let mut kept: Vec<Realm> = Vec::new();
        let ghost mut origin: Seq<int> = Seq::empty();
        while all.len() > 0
            invariant
                before.wf(),
                olds == before.realms@,
                all@.len() <= olds.len(),
                all@ == olds.take(all@.len() as int),
                origin.len() == kept@.len(),
                forall|i: int|
                    0 <= i < kept@.len() ==> {
                        &&& all@.len() <= #[trigger] origin[i] < olds.len()
                        &&& kept@[i] == olds[origin[i]]
                        &&& !is_prefix(moniker@, olds[origin[i]].moniker@)
                    },
                forall|i: int, j: int| 0 <= i < j < kept@.len() ==> origin[i] > origin[j],
                forall|j: int|
                    all@.len() <= j < olds.len() && !is_prefix(
                        moniker@,
                        (#[trigger] olds[j]).moniker@,
                    ) ==> exists|i: int| 0 <= i < kept@.len() && #[trigger] kept@[i] == olds[j],
            decreases all@.len(),
        {
            let ghost last = all@.len() - 1;
            let realm = all.pop().unwrap();
            assert(realm == olds[last]);
            if !realm.moniker.starts_with(moniker) {
                let ghost kept_before = kept@;
                kept.push(realm);
                proof {
                    origin = origin.push(last);
                    assert forall|j: int|
                        all@.len() <= j < olds.len() && !is_prefix(
                            moniker@,
                            (#[trigger] olds[j]).moniker@,
                        ) implies exists|i: int|
                        0 <= i < kept@.len() && #[trigger] kept@[i] == olds[j] by {
                        if j == last {
                            assert(kept@[kept@.len() - 1] == olds[j]);
                        } else {
                            let i = choose|i: int|
                                0 <= i < kept_before.len() && #[trigger] kept_before[i] == olds[j];
                            assert(kept@[i] == olds[j]);
                        }
                    }
                }
            }
        }
        self.realms = kept;
        proof {
            assert(self.compact()) by {
                assert forall|i: int, j: int|
                    0 <= i < j < self.realms@.len() implies self.realms@[i].moniker@
                    != self.realms@[j].moniker@ by {
                    assert(origin[i] > origin[j]);
                }
            }
            Self::lemma_removed(before, *self, moniker@, origin);
        }
        Ok(())
    }
}

} // verus!

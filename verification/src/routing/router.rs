//! The router: from a component's use of a capability to the one that
//! provides it.
//!
//! The walk has two directions. It goes *up* from the component that asks,
//! parent by parent, for as long as each parent passes the capability on from
//! its own parent. Where a parent offers the capability from one of its
//! children, the walk turns *down* and follows what that child, and then
//! perhaps a child of it, exposes. It never turns up again: what a component
//! exposes reaches its parent and nobody else.

use vstd::prelude::*;
use crate::routing::capability::{valid_path, CapabilityKind, CapabilityPath, PathSpec};
use crate::routing::decl::{ComponentDecl, ExposeSource, OfferSource};
use crate::routing::error::{ErrorKind, ErrorSpec, RoutingError};
use crate::routing::moniker::{ChildMoniker, Moniker, MonikerSpec, SegmentSpec};
use crate::routing::realm::{static_child, Realm, RealmTree};
use crate::search::{first_match, lemma_first_match_absent, lemma_first_match_found};

verus! {

/// The mathematical value of a provider.
pub enum ProviderSpec {
    Component { moniker: MonikerSpec },
    Ambient,
    Namespace,
}

/// The mathematical value of a route: who provides, and under which path.
pub struct RouteSpec {
    pub provider: ProviderSpec,
    pub path: PathSpec,
}

/// Who provides a capability.
#[derive(Debug, PartialEq, Eq)]
pub enum Provider {
    /// The component instance of that moniker.
    Component(Moniker),
    /// The runtime's ambient environment, which serves the realm service.
    Ambient,
    /// The namespace that the runtime itself was started with.
    Namespace,
}

impl View for Provider {
    type V = ProviderSpec;

    open spec fn view(&self) -> ProviderSpec {
        match self {
            Provider::Component(moniker) => ProviderSpec::Component { moniker: moniker@ },
            Provider::Ambient => ProviderSpec::Ambient,
            Provider::Namespace => ProviderSpec::Namespace,
        }
    }
}

/// Where a use ends: the provider, and the path under which the provider has
/// the capability.
#[derive(Debug, PartialEq, Eq)]
pub struct Route {
    pub provider: Provider,
    pub path: CapabilityPath,
}

impl View for Route {
    type V = RouteSpec;

    open spec fn view(&self) -> RouteSpec {
        RouteSpec { provider: self.provider@, path: self.path@ }
    }
}

/// The mathematical value of a routing result.
pub open spec fn outcome(result: Result<Route, RoutingError>) -> Result<RouteSpec, ErrorSpec> {
    match result {
        Ok(route) => Ok(route@),
        Err(error) => Err(error@),
    }
}

/// The failure of kind `kind` at `moniker`, about the capability `wanted`.
pub open spec fn failure(kind: ErrorKind, moniker: MonikerSpec, wanted: PathSpec) -> Result<
    RouteSpec,
    ErrorSpec,
> {
    Err(ErrorSpec { kind, moniker, path: wanted.path })
}

/// Accepts the path that is the capability `wanted`.
pub open spec fn is_path(wanted: PathSpec) -> spec_fn(CapabilityPath) -> bool {
    |path: CapabilityPath| path@ == wanted
}

/// Where the chain of exposes ends that starts with `wanted` at the instance
/// `at`: at the component that exposes the capability from itself. Each
/// instance on the way must exist, be bound, and expose what the one above asks
/// of it; else the chain is broken.
pub open spec fn exposed(tree: &RealmTree, at: MonikerSpec, wanted: PathSpec) -> Result<
    RouteSpec,
    ErrorSpec,
>
    decreases tree.depth() - at.len(),
{
    if !tree@.dom().contains(at) {
        failure(ErrorKind::ExposeSourceNotFound, at, wanted)
    } else {
        match tree@[at].decl {
            None => failure(ErrorKind::ResolverError, at, wanted),
            Some(decl) => match decl.expose_for(wanted) {
                None => failure(ErrorKind::ExposeSourceNotFound, at, wanted),
                Some(expose) => match expose.source {
                    ExposeSource::Self_ => Ok(
                        RouteSpec {
                            provider: ProviderSpec::Component { moniker: at },
                            path: expose.source_path@,
                        },
                    ),
                    ExposeSource::Child(name) => {
                        let child = static_child(at, name@);
                        if tree@.dom().contains(child) {
                            proof {
                                tree.lemma_depth(child);
                            }
                            exposed(tree, child, expose.source_path@)
                        } else {
                            failure(ErrorKind::ExposeSourceNotFound, child, expose.source_path@)
                        }
                    },
                },
            },
        }
    }
}

/// What the instance `moniker` exposes as `target`: the end of the chain of
/// exposes that starts there, or `InstanceNotFound` where there is no such
/// instance.
pub open spec fn exposed_by(tree: &RealmTree, moniker: MonikerSpec, target: PathSpec) -> Result<
    RouteSpec,
    ErrorSpec,
> {
    if tree@.dom().contains(moniker) {
        exposed(tree, moniker, target)
    } else {
        failure(ErrorKind::InstanceNotFound, moniker, target)
    }
}

/// Routes the uses of components through a realm tree. The router keeps no
/// state of its own: a route is a function of the tree, the request, and the
/// two things the router was made with.
#[derive(Debug)]
pub struct Router {
    /// The path of the realm service, which the ambient environment serves to
    /// every component that uses it.
    pub realm_service: CapabilityPath,
    /// The capabilities of the namespace that the runtime was started with. The
    /// root reaches them, and what the root passes on.
    pub namespace: Vec<CapabilityPath>,
}

impl Router {
    /// Whether the runtime's namespace holds the capability `wanted`.
    pub open spec fn in_namespace(&self, wanted: PathSpec) -> bool {
        first_match(self.namespace@, is_path(wanted)) is Some
    }

    /// Who provides the capability that reaches the instance `holder` as
    /// `wanted`: the walk up from `holder`.
    ///
    /// The root has no parent: what it wants comes from the runtime's
    /// namespace or from nowhere. Any other instance needs an offer of its
    /// parent that names it: the instance's own name, or its collection. The
    /// parent must run a program. It then provides the capability itself,
    /// passes on what it was offered in turn, or hands down what one of its
    /// children exposes.
    pub open spec fn offered(
        &self,
        tree: &RealmTree,
        holder: MonikerSpec,
        wanted: PathSpec,
    ) -> Result<RouteSpec, ErrorSpec>
        decreases holder.len(),
    {
        if holder.len() == 0 {
            if self.in_namespace(wanted) {
                Ok(RouteSpec { provider: ProviderSpec::Namespace, path: wanted })
            } else {
                failure(ErrorKind::NotOffered, holder, wanted)
            }
        } else {
            let parent = holder.drop_last();
            if !tree@.dom().contains(parent) {
                failure(ErrorKind::InstanceNotFound, parent, wanted)
            } else {
                match tree@[parent].decl {
                    None => failure(ErrorKind::ResolverError, parent, wanted),
                    Some(decl) => match decl.offer_for(wanted, holder.last()) {
                        None => failure(ErrorKind::NotOffered, holder, wanted),
                        Some(offer) => if !decl.is_executable() {
                            failure(ErrorKind::OfferFromNonExecutable, parent, wanted)
                        } else {
                            match offer.source {
                                OfferSource::Self_ => Ok(
                                    RouteSpec {
                                        provider: ProviderSpec::Component { moniker: parent },
                                        path: offer.source_path@,
                                    },
                                ),
                                OfferSource::Realm => self.offered(
                                    tree,
                                    parent,
                                    offer.source_path@,
                                ),
                                OfferSource::Child(name) => exposed_by(
                                    tree,
                                    static_child(parent, name@),
                                    offer.source_path@,
                                ),
                            }
                        },
                    },
                }
            }
        }
    }

    /// Who provides what the instance `moniker` uses as `target`.
    ///
    /// The instance must exist, be bound, and declare the use. A use of the
    /// realm service ends at the ambient environment, whatever is offered. Any
    /// other use is routed up from the instance, under the path that the use
    /// names as its source.
    pub open spec fn routed(
        &self,
        tree: &RealmTree,
        moniker: MonikerSpec,
        target: PathSpec,
    ) -> Result<RouteSpec, ErrorSpec> {
        if !tree@.dom().contains(moniker) {
            failure(ErrorKind::InstanceNotFound, moniker, target)
        } else {
            match tree@[moniker].decl {
                None => failure(ErrorKind::ResolverError, moniker, target),
                Some(decl) => match decl.use_for(target) {
                    None => failure(ErrorKind::NotUsed, moniker, target),
                    Some(used) => if used.source_path@ == self.realm_service@ {
                        Ok(RouteSpec { provider: ProviderSpec::Ambient, path: used.source_path@ })
                    } else {
                        self.offered(tree, moniker, used.source_path@)
                    },
                },
            }
        }
    }

    /// A router that binds uses of `realm_service` to the ambient environment
    /// and lets the root fall back on the capabilities in `namespace`.
    pub fn new(realm_service: CapabilityPath, namespace: Vec<CapabilityPath>) -> (router: Router)
        ensures
            router.realm_service == realm_service,
            router.namespace == namespace,
    {
        Router { realm_service, namespace }
    }
}

/// The error of kind `kind` at `moniker`, about the capability `wanted`.
fn fail(kind: ErrorKind, moniker: Moniker, wanted: &CapabilityPath) -> (failed: Result<
    Route,
    RoutingError,
>)
    ensures
        outcome(failed) == failure(kind, moniker@, wanted@),
{
    Err(RoutingError::new(kind, moniker, wanted.as_str().to_owned()))
}

/// Follows the chain of exposes that starts with `wanted` at the instance
/// `start`.
#[verifier::loop_isolation(false)]
fn follow_exposes(tree: &RealmTree, start: Moniker, wanted: CapabilityPath) -> (found: Result<
    Route,
    RoutingError,
>)
    ensures
        outcome(found) == exposed(tree, start@, wanted@),
{
    let ghost goal = exposed(tree, start@, wanted@);
    let mut at: Moniker = start;
    let mut wanted: CapabilityPath = wanted;
    loop
        invariant
            exposed(tree, at@, wanted@) == goal,
        decreases tree.depth() - at@.len(),
    {
        let realm: &Realm = match tree.get(&at) {
            Some(realm) => realm,
            None => {
                return fail(ErrorKind::ExposeSourceNotFound, at, &wanted);
            },
        };
        let decl: &ComponentDecl = match &realm.decl {
            Some(decl) => decl,
            None => {
                return fail(ErrorKind::ResolverError, at, &wanted);
            },
        };
        let expose = match decl.find_expose(&wanted) {
            Some(index) => &decl.exposes[index],
            None => {
                return fail(ErrorKind::ExposeSourceNotFound, at, &wanted);
            },
        };
        match &expose.source {
            ExposeSource::Self_ => {
                return Ok(
                    Route { provider: Provider::Component(at), path: expose.source_path.clone() },
                );
            },
            ExposeSource::Child(name) => {
                let child = at.child(ChildMoniker::Static { name: name.clone() });
                if !tree.contains(&child) {
                    return fail(ErrorKind::ExposeSourceNotFound, child, &expose.source_path);
                }
                proof {
                    tree.lemma_depth(child@);
                }
                wanted = expose.source_path.clone();
                at = child;
            },
        }
    }
}

impl Router {
    /// Whether the runtime's namespace holds the capability `wanted`.
    pub fn namespace_has(&self, wanted: &CapabilityPath) -> (held: bool)
        ensures
            held == self.in_namespace(wanted@),
    {
        let mut at: usize = 0;
        while at < self.namespace.len()
            invariant
                at <= self.namespace@.len(),
                forall|j: int| 0 <= j < at ==> !is_path(wanted@)(#[trigger] self.namespace@[j]),
            decreases self.namespace@.len() - at,
        {
            if self.namespace[at].same(wanted) {
                proof {
                    lemma_first_match_found(self.namespace@, is_path(wanted@), at as int);
                }
                return true;
            }
            at += 1;
        }
        proof {
            lemma_first_match_absent(self.namespace@, is_path(wanted@));
        }
        false
    }

    /// Walks up from the instance `moniker` to the provider of what reaches it
    /// as `wanted`.
    #[verifier::loop_isolation(false)]
    fn follow_offers(&self, tree: &RealmTree, moniker: &Moniker, wanted: CapabilityPath) -> (found:
        Result<Route, RoutingError>)
        ensures
            outcome(found) == self.offered(tree, moniker@, wanted@),
    {
        let ghost goal = self.offered(tree, moniker@, wanted@);
        let mut depth: usize = moniker.len();
        let mut wanted: CapabilityPath = wanted;
        proof {
            assert(moniker@.take(depth as int) =~= moniker@);
        }
        while depth > 0
            invariant
                depth <= moniker@.len(),
                self.offered(tree, moniker@.take(depth as int), wanted@) == goal,
            decreases depth,
        {
            let ghost holder = moniker@.take(depth as int);
            proof {
                assert(holder.drop_last() =~= moniker@.take(depth - 1));
                assert(holder.last() == moniker@[depth - 1]);
            }
            let parent: &Realm = match tree.ancestor(moniker, depth - 1) {
                Some(realm) => realm,
                None => {
                    return fail(ErrorKind::InstanceNotFound, moniker.prefix(depth - 1), &wanted);
                },
            };
            let decl: &ComponentDecl = match &parent.decl {
                Some(decl) => decl,
                None => {
                    return fail(ErrorKind::ResolverError, moniker.prefix(depth - 1), &wanted);
                },
            };
            let offer = match decl.find_offer(&wanted, &moniker.segments[depth - 1]) {
                Some(index) => &decl.offers[index],
                None => {
                    return fail(ErrorKind::NotOffered, moniker.prefix(depth), &wanted);
                },
            };
            if decl.program.is_none() {
                return fail(ErrorKind::OfferFromNonExecutable, moniker.prefix(depth - 1), &wanted);
            }
            match &offer.source {
                OfferSource::Self_ => {
                    return Ok(
                        Route {
                            provider: Provider::Component(moniker.prefix(depth - 1)),
                            path: offer.source_path.clone(),
                        },
                    );
                },
                OfferSource::Realm => {
                    wanted = offer.source_path.clone();
                    depth -= 1;
                },
                OfferSource::Child(name) => {
                    let child = moniker.prefix(depth - 1).child(
                        ChildMoniker::Static { name: name.clone() },
                    );
                    if !tree.contains(&child) {
                        return fail(ErrorKind::InstanceNotFound, child, &offer.source_path);
                    }
                    return follow_exposes(tree, child, offer.source_path.clone());
                },
            }
        }
        proof {
            assert(moniker@.take(0) =~= Seq::<SegmentSpec>::empty());
        }
        if self.namespace_has(&wanted) {
            Ok(Route { provider: Provider::Namespace, path: wanted })
        } else {
            fail(ErrorKind::NotOffered, Moniker::root(), &wanted)
        }
    }

    /// Finds who provides the capability of kind `kind` that the instance
    /// `moniker` uses as `target_path`.
    pub fn route(
        &self,
        tree: &RealmTree,
        moniker: &Moniker,
        kind: CapabilityKind,
        target_path: &str,
    ) -> (found: Result<Route, RoutingError>)
        ensures
            valid_path(target_path@) ==> outcome(found) == self.routed(
                tree,
                moniker@,
                PathSpec { kind, path: target_path@ },
            ),
            !valid_path(target_path@) ==> outcome(found) == failure(
                ErrorKind::InvalidPath,
                moniker@,
                PathSpec { kind, path: target_path@ },
            ),
    {
        let target: CapabilityPath = match CapabilityPath::new(kind, target_path) {
            Ok(target) => target,
            Err(_) => {
                return Err(
                    RoutingError::new(
                        ErrorKind::InvalidPath,
                        moniker.clone(),
                        target_path.to_owned(),
                    ),
                );
            },
        };
        let realm: &Realm = match tree.get(moniker) {
            Some(realm) => realm,
            None => {
                return fail(ErrorKind::InstanceNotFound, moniker.clone(), &target);
            },
        };
        let decl: &ComponentDecl = match &realm.decl {
            Some(decl) => decl,
            None => {
                return fail(ErrorKind::ResolverError, moniker.clone(), &target);
            },
        };
        let used = match decl.find_use(&target) {
            Some(index) => &decl.uses[index],
            None => {
                return fail(ErrorKind::NotUsed, moniker.clone(), &target);
            },
        };
        if used.source_path.same(&self.realm_service) {
            return Ok(Route { provider: Provider::Ambient, path: used.source_path.clone() });
        }
        self.follow_offers(tree, moniker, used.source_path.clone())
    }

    /// Finds who provides what the instance `moniker` exposes to its parent as
    /// `target_path`, of kind `kind`. No use and no offer is looked at: only
    /// the chain of exposes, from that instance down.
    pub fn route_exposed(
        &self,
        tree: &RealmTree,
        moniker: &Moniker,
        kind: CapabilityKind,
        target_path: &str,
    ) -> (found: Result<Route, RoutingError>)
        ensures
            valid_path(target_path@) ==> outcome(found) == exposed_by(
                tree,
                moniker@,
                PathSpec { kind, path: target_path@ },
            ),
            !valid_path(target_path@) ==> outcome(found) == failure(
                ErrorKind::InvalidPath,
                moniker@,
                PathSpec { kind, path: target_path@ },
            ),
    {
        let target: CapabilityPath = match CapabilityPath::new(kind, target_path) {
            Ok(target) => target,
            Err(_) => {
                return Err(
                    RoutingError::new(
                        ErrorKind::InvalidPath,
                        moniker.clone(),
                        target_path.to_owned(),
                    ),
                );
            },
        };
        if !tree.contains(moniker) {
            return fail(ErrorKind::InstanceNotFound, moniker.clone(), &target);
        }
        follow_exposes(tree, moniker.clone(), target)
    }
}

} // verus!

//! What holds of every route: the laws of the walk, proved from its
//! definition.

use vstd::prelude::*;
use crate::routing::capability::PathSpec;
use crate::routing::decl::{
    hands_down, publishes, ComponentDecl, ExposeSource, OfferSource, OfferTarget,
};
use crate::routing::error::{ErrorKind, ErrorSpec};
use crate::routing::moniker::{is_prefix, MonikerSpec};
use crate::routing::realm::{
    bound, dynamic_child, static_child, without, RealmSpec, RealmTree,
};
use crate::routing::router::{exposed, exposed_by, failure, ProviderSpec, RouteSpec, Router};
use crate::search::{first_match, lemma_first_match, lemma_first_match_same};

verus! {

/// The instance that stands `hops` levels above `leaf`.
pub open spec fn above(leaf: MonikerSpec, hops: int) -> MonikerSpec {
    leaf.take(leaf.len() - hops)
}

/// Whether the instance `hops + 1` levels above `leaf` passes a capability on
/// to the one below it on the way to `leaf`: it is bound and runs a program,
/// and its offer of `wanted` to that child comes from its own realm, where it
/// has the capability as `source`.
pub open spec fn passes_on(
    tree: &RealmTree,
    leaf: MonikerSpec,
    hops: int,
    wanted: PathSpec,
    source: PathSpec,
) -> bool {
    let parent = above(leaf, hops + 1);
    &&& 0 <= hops < leaf.len()
    &&& tree@.dom().contains(parent)
    &&& tree@[parent].decl is Some
    &&& tree@[parent].decl.unwrap().is_executable()
    &&& match tree@[parent].decl.unwrap().offer_for(wanted, leaf[leaf.len() - hops - 1]) {
        Some(offer) => offer.source is Realm && offer.source_path@ == source,
        None => false,
    }
}

/// Whether a capability comes down to `leaf` through `hops` levels of
/// pass-through offers: `paths[0]` is what `leaf` wants, and `paths[i + 1]` is
/// what the instance `i + 1` levels above it wants in turn.
pub open spec fn passed_down(
    tree: &RealmTree,
    leaf: MonikerSpec,
    hops: int,
    paths: Seq<PathSpec>,
) -> bool {
    &&& 0 <= hops <= leaf.len()
    &&& paths.len() == hops + 1
    &&& forall|i: int| 0 <= i < hops ==> passes_on(tree, leaf, i, #[trigger] paths[i], paths[i + 1])
}

/// The instance above an instance is its parent.
proof fn lemma_above(leaf: MonikerSpec, hops: int)
    requires
        0 <= hops < leaf.len(),
    ensures
        above(leaf, hops).len() == leaf.len() - hops,
        above(leaf, hops).drop_last() == above(leaf, hops + 1),
        above(leaf, hops).last() == leaf[leaf.len() - hops - 1],
        above(leaf, 0) == leaf,
{
    assert(above(leaf, hops).drop_last() =~= above(leaf, hops + 1));
    assert(above(leaf, 0) =~= leaf);
}

/// Pass-through: what reaches `leaf` through some levels of pass-through offers
/// is provided by whoever provides it to the topmost of those levels.
pub proof fn law_pass_through(
    router: Router,
    tree: &RealmTree,
    leaf: MonikerSpec,
    hops: int,
    paths: Seq<PathSpec>,
)
    requires
        passed_down(tree, leaf, hops, paths),
    ensures
        router.offered(tree, leaf, paths[0]) == router.offered(
            tree,
            above(leaf, hops),
            paths[hops],
        ),
    decreases hops,
{
    if hops == 0 {
        assert(above(leaf, 0) =~= leaf);
    } else {
        let shorter = paths.take(hops);
        assert forall|i: int| 0 <= i < hops - 1 implies passes_on(
            tree,
            leaf,
            i,
            #[trigger] shorter[i],
            shorter[i + 1],
        ) by {
            assert(passes_on(tree, leaf, i, paths[i], paths[i + 1]));
        }
        law_pass_through(router, tree, leaf, hops - 1, shorter);
        assert(passes_on(tree, leaf, hops - 1, paths[hops - 1], paths[hops]));
        lemma_above(leaf, hops - 1);
    }
}

/// A route is a use and a walk up. Where a component declares the use of a
/// capability that is not the realm service, the route of that use is the
/// walk up from the component, for the path that the use names as its source.
pub proof fn law_route_is_walk_up(
    router: Router,
    tree: &RealmTree,
    moniker: MonikerSpec,
    target: PathSpec,
)
    requires
        tree@.dom().contains(moniker),
        tree@[moniker].decl is Some,
        tree@[moniker].decl.unwrap().use_for(target) is Some,
        tree@[moniker].decl.unwrap().use_for(target).unwrap().source_path@ != router.realm_service@,
    ensures
        router.routed(tree, moniker, target) == router.offered(
            tree,
            moniker,
            tree@[moniker].decl.unwrap().use_for(target).unwrap().source_path@,
        ),
{
}

/// A chain of offers ends at the realm that started it. Where `hops` realms in
/// a row above `leaf` each offer the capability to the next one down, the
/// topmost from itself and the others from their realm, and `leaf` uses it,
/// the route of that use succeeds and the provider is the topmost realm.
pub proof fn law_chain_reaches_origin(
    router: Router,
    tree: &RealmTree,
    leaf: MonikerSpec,
    target: PathSpec,
    hops: int,
    paths: Seq<PathSpec>,
    source: PathSpec,
)
    requires
        tree@.dom().contains(leaf),
        tree@[leaf].decl is Some,
        tree@[leaf].decl.unwrap().use_for(target) is Some,
        tree@[leaf].decl.unwrap().use_for(target).unwrap().source_path@ == paths[0],
        paths[0] != router.realm_service@,
        hops >= 1,
        passed_down(tree, leaf, hops - 1, paths),
        tree@.dom().contains(above(leaf, hops)),
        tree@[above(leaf, hops)].decl is Some,
        tree@[above(leaf, hops)].decl.unwrap().is_executable(),
        hops <= leaf.len(),
        match tree@[above(leaf, hops)].decl.unwrap().offer_for(
            paths[hops - 1],
            leaf[leaf.len() - hops],
        ) {
            Some(offer) => offer.source is Self_ && offer.source_path@ == source,
            None => false,
        },
    ensures
        router.routed(tree, leaf, target) == Ok::<RouteSpec, ErrorSpec>(
            RouteSpec {
                provider: ProviderSpec::Component { moniker: above(leaf, hops) },
                path: source,
            },
        ),
{
    law_pass_through(router, tree, leaf, hops - 1, paths);
    lemma_above(leaf, hops - 1);
}

/// No offer, no route. Where a capability comes down towards `leaf` through
/// some levels of pass-through offers, and the next realm up is bound but none
/// of its offers of that capability names the child on the way to `leaf`,
/// neither by the child's name nor by its collection, the walk fails there
/// with `NotOffered`.
pub proof fn law_unnamed_target_is_not_offered(
    router: Router,
    tree: &RealmTree,
    leaf: MonikerSpec,
    hops: int,
    paths: Seq<PathSpec>,
)
    requires
        passed_down(tree, leaf, hops, paths),
        hops < leaf.len(),
        tree@.dom().contains(above(leaf, hops + 1)),
        tree@[above(leaf, hops + 1)].decl is Some,
        forall|k: int|
            0 <= k < tree@[above(leaf, hops + 1)].decl.unwrap().offers@.len() && (
            #[trigger] tree@[above(leaf, hops + 1)].decl.unwrap().offers@[k]).target_path@
                == paths[hops] ==> !tree@[above(
                leaf,
                hops + 1,
            )].decl.unwrap().offers@[k].target.names(leaf[leaf.len() - hops - 1]),
    ensures
        router.offered(tree, leaf, paths[0]) == failure(
            ErrorKind::NotOffered,
            above(leaf, hops),
            paths[hops],
        ),
{
    law_pass_through(router, tree, leaf, hops, paths);
    lemma_above(leaf, hops);
    let decl = tree@[above(leaf, hops + 1)].decl.unwrap();
    lemma_first_match(decl.offers@, hands_down(paths[hops], leaf[leaf.len() - hops - 1]));
}

/// An offer from a child needs the child's expose. Where a capability comes
/// down towards `leaf` through some levels of pass-through offers, and the next
/// realm up offers it from a child of its own that is bound but exposes no
/// such capability, the walk fails at that child with `ExposeSourceNotFound`.
pub proof fn law_unexposed_source_is_not_found(
    router: Router,
    tree: &RealmTree,
    leaf: MonikerSpec,
    hops: int,
    paths: Seq<PathSpec>,
    child: Seq<char>,
    source: PathSpec,
)
    requires
        passed_down(tree, leaf, hops, paths),
        hops < leaf.len(),
        tree@.dom().contains(above(leaf, hops + 1)),
        tree@[above(leaf, hops + 1)].decl is Some,
        tree@[above(leaf, hops + 1)].decl.unwrap().is_executable(),
        match tree@[above(leaf, hops + 1)].decl.unwrap().offer_for(
            paths[hops],
            leaf[leaf.len() - hops - 1],
        ) {
            Some(offer) => offer.source_path@ == source && match offer.source {
                OfferSource::Child(name) => name@ == child,
                OfferSource::Self_ | OfferSource::Realm => false,
            },
            None => false,
        },
        tree@.dom().contains(static_child(above(leaf, hops + 1), child)),
        tree@[static_child(above(leaf, hops + 1), child)].decl is Some,
        tree@[static_child(above(leaf, hops + 1), child)].decl.unwrap().expose_for(source) is None,
    ensures
        router.offered(tree, leaf, paths[0]) == failure(
            ErrorKind::ExposeSourceNotFound,
            static_child(above(leaf, hops + 1), child),
            source,
        ),
{
    law_pass_through(router, tree, leaf, hops, paths);
    lemma_above(leaf, hops);
}

/// A pass-through offer needs an offer from above. Where the parent of
/// `holder` offers a capability from its realm, and the grandparent is bound
/// but has no offer of that capability that names the parent, the walk fails
/// at the parent with `NotOffered`.
pub proof fn law_unoffered_realm_source_is_not_offered(
    router: Router,
    tree: &RealmTree,
    holder: MonikerSpec,
    wanted: PathSpec,
    source: PathSpec,
)
    requires
        holder.len() >= 2,
        passes_on(tree, holder, 0, wanted, source),
        tree@.dom().contains(above(holder, 2)),
        tree@[above(holder, 2)].decl is Some,
        tree@[above(holder, 2)].decl.unwrap().offer_for(source, holder[holder.len() - 2]) is None,
    ensures
        router.offered(tree, holder, wanted) == failure(
            ErrorKind::NotOffered,
            above(holder, 1),
            source,
        ),
{
    lemma_above(holder, 0);
    lemma_above(holder, 1);
    assert(router.offered(tree, holder, wanted) == router.offered(tree, above(holder, 1), source));
}

/// Exposes do not reach siblings. Where a component uses a capability that its
/// parent offers to nobody, the route fails with `NotOffered`, whatever any
/// component exposes: what a sibling exposes reaches the parent alone, and
/// only an offer of the parent hands it on.
pub proof fn law_expose_alone_does_not_route(
    router: Router,
    tree: &RealmTree,
    moniker: MonikerSpec,
    target: PathSpec,
)
    requires
        moniker.len() > 0,
        tree@.dom().contains(moniker),
        tree@[moniker].decl is Some,
        tree@[moniker].decl.unwrap().use_for(target) is Some,
        tree@[moniker].decl.unwrap().use_for(target).unwrap().source_path@ != router.realm_service@,
        tree@.dom().contains(moniker.drop_last()),
        tree@[moniker.drop_last()].decl is Some,
        forall|k: int|
            0 <= k < tree@[moniker.drop_last()].decl.unwrap().offers@.len() ==> (
            #[trigger] tree@[moniker.drop_last()].decl.unwrap().offers@[k]).target_path@
                != tree@[moniker].decl.unwrap().use_for(target).unwrap().source_path@,
    ensures
        router.routed(tree, moniker, target) == failure(
            ErrorKind::NotOffered,
            moniker,
            tree@[moniker].decl.unwrap().use_for(target).unwrap().source_path@,
        ),
{
    let wanted = tree@[moniker].decl.unwrap().use_for(target).unwrap().source_path@;
    let decl = tree@[moniker.drop_last()].decl.unwrap();
    lemma_first_match(decl.offers@, hands_down(wanted, moniker.last()));
}

/// A dynamic child is reached through its collection alone. Where the walk up
/// from a dynamic child succeeds, the parent has an offer of the capability
/// whose target is the child's collection.
pub proof fn law_dynamic_child_needs_collection_offer(
    router: Router,
    tree: &RealmTree,
    parent: MonikerSpec,
    collection: Seq<char>,
    name: Seq<char>,
    wanted: PathSpec,
)
    requires
        router.offered(tree, dynamic_child(parent, collection, name), wanted) is Ok,
    ensures
        tree@.dom().contains(parent),
        tree@[parent].decl is Some,
        exists|k: int|
            0 <= k < tree@[parent].decl.unwrap().offers@.len() && (
            #[trigger] tree@[parent].decl.unwrap().offers@[k]).target_path@ == wanted && (
            match tree@[parent].decl.unwrap().offers@[k].target {
                OfferTarget::Collection(offered_to) => offered_to@ == collection,
                OfferTarget::Child(_) => false,
            }),
{
    let child = dynamic_child(parent, collection, name);
    assert(child.drop_last() =~= parent);
    let decl = tree@[parent].decl.unwrap();
    lemma_first_match(decl.offers@, hands_down(wanted, child.last()));
    let at = first_match(decl.offers@, hands_down(wanted, child.last())).unwrap();
    assert(hands_down(wanted, child.last())(decl.offers@[at]));
}

/// The members of a collection inherit alike. What is offered to a collection
/// reaches every child in it: where the walk up from one child succeeds, the
/// walk up from any other child of the same collection ends at the same
/// provider.
pub proof fn law_collection_members_share_routes(
    router: Router,
    tree: &RealmTree,
    parent: MonikerSpec,
    collection: Seq<char>,
    name: Seq<char>,
    other: Seq<char>,
    wanted: PathSpec,
)
    requires
        router.offered(tree, dynamic_child(parent, collection, name), wanted) is Ok,
    ensures
        router.offered(tree, dynamic_child(parent, collection, other), wanted) == router.offered(
            tree,
            dynamic_child(parent, collection, name),
            wanted,
        ),
{
    let one = dynamic_child(parent, collection, name);
    let two = dynamic_child(parent, collection, other);
    assert(one.drop_last() =~= parent);
    assert(two.drop_last() =~= parent);
    let decl = tree@[parent].decl.unwrap();
    lemma_first_match_same(
        decl.offers@,
        hands_down(wanted, one.last()),
        hands_down(wanted, two.last()),
    );
}

/// The walk down stays down. The provider at the end of a chain of exposes is
/// the instance where the chain starts or one below it: following exposes
/// never leads to an ancestor or a sibling.
pub proof fn law_exposes_stay_below(tree: &RealmTree, at: MonikerSpec, wanted: PathSpec)
    ensures
        match exposed(tree, at, wanted) {
            Ok(route) => route.provider is Component && is_prefix(
                at,
                route.provider->Component_moniker,
            ) && tree@.dom().contains(route.provider->Component_moniker),
            Err(_) => true,
        },
    decreases tree.depth() - at.len(),
{
    if tree@.dom().contains(at) {
        match tree@[at].decl {
            None => {},
            Some(decl) => match decl.expose_for(wanted) {
                None => {},
                Some(expose) => match expose.source {
                    ExposeSource::Self_ => {
                        assert(at.take(at.len() as int) =~= at);
                    },
                    ExposeSource::Child(name) => {
                        let child = static_child(at, name@);
                        if tree@.dom().contains(child) {
                            tree.lemma_depth(child);
                            law_exposes_stay_below(tree, child, expose.source_path@);
                            match exposed(tree, child, expose.source_path@) {
                                Ok(route) => {
                                    let provider = route.provider->Component_moniker;
                                    assert(provider.take(at.len() as int) =~= provider.take(
                                        child.len() as int,
                                    ).take(at.len() as int));
                                    assert(child.take(at.len() as int) =~= at);
                                },
                                Err(_) => {},
                            }
                        }
                    },
                },
            },
        }
    }
}

/// The realm service needs no offer. A component that declares the use of
/// the realm service is bound to the ambient environment, whatever its
/// ancestors offer.
pub proof fn law_realm_service_is_ambient(
    router: Router,
    tree: &RealmTree,
    moniker: MonikerSpec,
    target: PathSpec,
)
    requires
        tree@.dom().contains(moniker),
        tree@[moniker].decl is Some,
        tree@[moniker].decl.unwrap().use_for(target) is Some,
        tree@[moniker].decl.unwrap().use_for(target).unwrap().source_path@ == router.realm_service@,
    ensures
        router.routed(tree, moniker, target) == Ok::<RouteSpec, ErrorSpec>(
            RouteSpec { provider: ProviderSpec::Ambient, path: router.realm_service@ },
        ),
{
}

/// Offers fail closed. In a well-formed tree every instance but the root is
/// declared by its parent's manifest, as a static child or through its
/// collection: an offer whose target the manifest does not declare reaches
/// nobody.
pub proof fn law_offer_targets_are_declared(tree: &RealmTree, holder: MonikerSpec)
    requires
        tree.wf(),
        tree@.dom().contains(holder),
        holder.len() > 0,
    ensures
        tree@.dom().contains(holder.drop_last()),
        tree@[holder.drop_last()].decl is Some,
        tree@[holder.drop_last()].decl.unwrap().declares(holder.last()),
{
}

/// Whether the instance `provider` stands where a walk up from `holder` can
/// end: it is an ancestor of `holder`, or it is a static child of an
/// ancestor, which that ancestor offers from, or lies below such a child.
pub open spec fn reachable_from(holder: MonikerSpec, provider: MonikerSpec) -> bool {
    exists|level: int|
        0 <= level < holder.len() && is_prefix(#[trigger] holder.take(level), provider) && (
        provider.len() == level || provider[level] is Static)
}

/// Capabilities flow down from ancestors, and up from a child to its parent
/// alone. The provider at the end of a walk up from `holder` is an ancestor
/// of `holder`, or a static child of an ancestor, or lies below such a child;
/// unless the walk ends at the runtime's namespace. The walk up never ends at
/// the ambient environment.
pub proof fn law_provider_is_above_or_beside(
    router: Router,
    tree: &RealmTree,
    holder: MonikerSpec,
    wanted: PathSpec,
)
    ensures
        match router.offered(tree, holder, wanted) {
            Ok(route) => match route.provider {
                ProviderSpec::Component { moniker } => reachable_from(holder, moniker),
                ProviderSpec::Namespace => true,
                ProviderSpec::Ambient => false,
            },
            Err(_) => true,
        },
    decreases holder.len(),
{
    if holder.len() > 0 {
        let parent = holder.drop_last();
        let level = holder.len() - 1;
        assert(holder.take(level) =~= parent);
        if tree@.dom().contains(parent) && tree@[parent].decl is Some {
            let decl = tree@[parent].decl.unwrap();
            match decl.offer_for(wanted, holder.last()) {
                None => {},
                Some(offer) => if decl.is_executable() {
                    match offer.source {
                        OfferSource::Self_ => {
                            assert(parent.take(parent.len() as int) =~= parent);
                        },
                        OfferSource::Realm => {
                            law_provider_is_above_or_beside(
                                router,
                                tree,
                                parent,
                                offer.source_path@,
                            );
                            match router.offered(tree, parent, offer.source_path@) {
                                Ok(route) => match route.provider {
                                    ProviderSpec::Component { moniker } => {
                                        let above = choose|above: int|
                                            0 <= above < parent.len() && is_prefix(
                                                #[trigger] parent.take(above),
                                                moniker,
                                            ) && (moniker.len() == above
                                                || moniker[above] is Static);
                                        assert(holder.take(above) =~= parent.take(above));
                                    },
                                    ProviderSpec::Namespace | ProviderSpec::Ambient => {},
                                },
                                Err(_) => {},
                            }
                        },
                        OfferSource::Child(name) => {
                            let child = static_child(parent, name@);
                            if tree@.dom().contains(child) {
                                law_exposes_stay_below(tree, child, offer.source_path@);
                                match exposed(tree, child, offer.source_path@) {
                                    Ok(route) => {
                                        let moniker = route.provider->Component_moniker;
                                        assert(moniker.take(level) =~= moniker.take(
                                            child.len() as int,
                                        ).take(level));
                                        assert(child.take(level) =~= parent);
                                        assert(moniker.take(child.len() as int)[level]
                                            == moniker[level]);
                                    },
                                    Err(_) => {},
                                }
                            }
                        },
                    }
                },
            }
        }
    }
}

/// A chain of exposes keeps the kind of the capability, in a well-formed tree.
pub proof fn law_exposes_keep_kind(tree: &RealmTree, at: MonikerSpec, wanted: PathSpec)
    requires
        tree.wf(),
    ensures
        match exposed(tree, at, wanted) {
            Ok(route) => route.path.kind == wanted.kind,
            Err(_) => true,
        },
    decreases tree.depth() - at.len(),
{
    if tree@.dom().contains(at) {
        match tree@[at].decl {
            None => {},
            Some(decl) => {
                lemma_first_match(decl.exposes@, publishes(wanted));
                match decl.expose_for(wanted) {
                    None => {},
                    Some(expose) => match expose.source {
                        ExposeSource::Self_ => {},
                        ExposeSource::Child(name) => {
                            let child = static_child(at, name@);
                            if tree@.dom().contains(child) {
                                tree.lemma_depth(child);
                                law_exposes_keep_kind(tree, child, expose.source_path@);
                            }
                        },
                    },
                }
            },
        }
    }
}

/// A route keeps the kind of the capability: in a well-formed tree, what is
/// found for a directory is a directory, and what is found for a service is
/// a service.
pub proof fn law_route_keeps_kind(
    router: Router,
    tree: &RealmTree,
    holder: MonikerSpec,
    wanted: PathSpec,
)
    requires
        tree.wf(),
    ensures
        match router.offered(tree, holder, wanted) {
            Ok(route) => route.path.kind == wanted.kind,
            Err(_) => true,
        },
    decreases holder.len(),
{
    if holder.len() > 0 {
        let parent = holder.drop_last();
        if tree@.dom().contains(parent) && tree@[parent].decl is Some {
            let decl = tree@[parent].decl.unwrap();
            lemma_first_match(decl.offers@, hands_down(wanted, holder.last()));
            match decl.offer_for(wanted, holder.last()) {
                None => {},
                Some(offer) => if decl.is_executable() {
                    match offer.source {
                        OfferSource::Self_ => {},
                        OfferSource::Realm => {
                            law_route_keeps_kind(router, tree, parent, offer.source_path@);
                        },
                        OfferSource::Child(name) => {
                            law_exposes_keep_kind(
                                tree,
                                static_child(parent, name@),
                                offer.source_path@,
                            );
                        },
                    }
                },
            }
        }
    }
}

/// A child that was created is there. A request that comes after a dynamic
/// child was created finds the child: not bound yet, so that its manifest is
/// what the request waits for.
pub proof fn law_created_child_is_seen(
    router: Router,
    before: &RealmTree,
    after: &RealmTree,
    child: MonikerSpec,
    url: Seq<char>,
    target: PathSpec,
)
    requires
        after@ == before@.insert(child, RealmSpec { url, decl: None }),
    ensures
        after@.dom().contains(child),
        router.routed(after, child, target) == failure(ErrorKind::ResolverError, child, target),
        exposed_by(after, child, target) == failure(ErrorKind::ResolverError, child, target),
{
}

/// A child that was destroyed is gone, with all below it. A request that
/// comes after a dynamic child was destroyed finds neither the child nor any
/// instance that stood below it.
pub proof fn law_destroyed_child_is_gone(
    router: Router,
    before: &RealmTree,
    after: &RealmTree,
    child: MonikerSpec,
    below: MonikerSpec,
    target: PathSpec,
)
    requires
        after@ == without(before@, child),
        is_prefix(child, below),
    ensures
        !after@.dom().contains(below),
        router.routed(after, below, target) == failure(
            ErrorKind::InstanceNotFound,
            below,
            target,
        ),
        exposed_by(after, below, target) == failure(ErrorKind::InstanceNotFound, below, target),
{
}

/// What is not below a destroyed child stays. The instances that do not stand
/// below a dynamic child are the same before and after the child is destroyed.
pub proof fn law_destroying_spares_the_rest(
    before: &RealmTree,
    after: &RealmTree,
    child: MonikerSpec,
    other: MonikerSpec,
)
    requires
        after@ == without(before@, child),
        !is_prefix(child, other),
    ensures
        after@.dom().contains(other) == before@.dom().contains(other),
        before@.dom().contains(other) ==> after@[other] == before@[other],
{
}

/// Whether the tree `after` is the tree `before` grown: it holds every
/// instance that `before` holds, and every instance that is bound in `before`
/// is bound to the same manifest in `after`.
pub open spec fn grown_from(after: &RealmTree, before: &RealmTree) -> bool {
    forall|moniker: MonikerSpec|
        #![trigger before@.dom().contains(moniker)]
        before@.dom().contains(moniker) ==> {
            &&& after@.dom().contains(moniker)
            &&& before@[moniker].decl is Some ==> after@[moniker].decl == before@[moniker].decl
        }
}

/// Binding grows the tree.
pub proof fn law_binding_grows(
    before: &RealmTree,
    after: &RealmTree,
    moniker: MonikerSpec,
    decl: ComponentDecl,
)
    requires
        before@.dom().contains(moniker),
        before@[moniker].decl is None,
        after@ == bound(before@, moniker, decl),
    ensures
        grown_from(after, before),
{
}

/// Creating a child grows the tree.
pub proof fn law_creating_grows(
    before: &RealmTree,
    after: &RealmTree,
    child: MonikerSpec,
    url: Seq<char>,
)
    requires
        !before@.dom().contains(child),
        after@ == before@.insert(child, RealmSpec { url, decl: None }),
    ensures
        grown_from(after, before),
{
}

/// A chain of exposes that was found stays found when the tree grows.
pub proof fn law_growth_keeps_exposes(
    before: &RealmTree,
    after: &RealmTree,
    at: MonikerSpec,
    wanted: PathSpec,
)
    requires
        grown_from(after, before),
        exposed(before, at, wanted) is Ok,
    ensures
        exposed(after, at, wanted) == exposed(before, at, wanted),
    decreases before.depth() - at.len(),
{
    assert(before@.dom().contains(at));
    let decl = before@[at].decl.unwrap();
    let expose = decl.expose_for(wanted).unwrap();
    match expose.source {
        ExposeSource::Self_ => {},
        ExposeSource::Child(name) => {
            let child = static_child(at, name@);
            assert(before@.dom().contains(child));
            before.lemma_depth(child);
            if after@.dom().contains(child) {
                after.lemma_depth(child);
            }
            law_growth_keeps_exposes(before, after, child, expose.source_path@);
        },
    }
}

/// A provider that was found stays the provider when the tree grows: when
/// more realms are bound, or more children created, a walk up that succeeded
/// before ends where it ended before.
pub proof fn law_growth_keeps_offers(
    router: Router,
    before: &RealmTree,
    after: &RealmTree,
    holder: MonikerSpec,
    wanted: PathSpec,
)
    requires
        grown_from(after, before),
        router.offered(before, holder, wanted) is Ok,
    ensures
        router.offered(after, holder, wanted) == router.offered(before, holder, wanted),
    decreases holder.len(),
{
    if holder.len() > 0 {
        let parent = holder.drop_last();
        assert(before@.dom().contains(parent));
        let decl = before@[parent].decl.unwrap();
        let offer = decl.offer_for(wanted, holder.last()).unwrap();
        match offer.source {
            OfferSource::Self_ => {},
            OfferSource::Realm => {
                law_growth_keeps_offers(router, before, after, parent, offer.source_path@);
            },
            OfferSource::Child(name) => {
                let child = static_child(parent, name@);
                assert(before@.dom().contains(child));
                law_growth_keeps_exposes(before, after, child, offer.source_path@);
            },
        }
    }
}

/// Binding is not seen in the answers. A route that was found stays the
/// route when the tree grows: a request that succeeded is answered alike
/// however many more realms are bound or children created afterwards.
pub proof fn law_growth_keeps_routes(
    router: Router,
    before: &RealmTree,
    after: &RealmTree,
    moniker: MonikerSpec,
    target: PathSpec,
)
    requires
        grown_from(after, before),
        router.routed(before, moniker, target) is Ok,
    ensures
        router.routed(after, moniker, target) == router.routed(before, moniker, target),
{
    assert(before@.dom().contains(moniker));
    let decl = before@[moniker].decl.unwrap();
    let used = decl.use_for(target).unwrap();
    if used.source_path@ != router.realm_service@ {
        law_growth_keeps_offers(router, before, after, moniker, used.source_path@);
    }
}

/// Whether every instance of the tree is bound.
pub open spec fn all_bound(tree: &RealmTree) -> bool {
    forall|moniker: MonikerSpec|
        #![trigger tree@.dom().contains(moniker)]
        tree@.dom().contains(moniker) ==> tree@[moniker].decl is Some
}

/// A chain of exposes waits for no manifest where every instance is bound.
pub proof fn law_bound_tree_exposes_without_resolver(
    tree: &RealmTree,
    at: MonikerSpec,
    wanted: PathSpec,
)
    requires
        all_bound(tree),
    ensures
        match exposed(tree, at, wanted) {
            Ok(_) => true,
            Err(error) => error.kind != ErrorKind::ResolverError,
        },
    decreases tree.depth() - at.len(),
{
    if tree@.dom().contains(at) {
        let decl = tree@[at].decl.unwrap();
        match decl.expose_for(wanted) {
            None => {},
            Some(expose) => match expose.source {
                ExposeSource::Self_ => {},
                ExposeSource::Child(name) => {
                    let child = static_child(at, name@);
                    if tree@.dom().contains(child) {
                        tree.lemma_depth(child);
                        law_bound_tree_exposes_without_resolver(tree, child, expose.source_path@);
                    }
                },
            },
        }
    }
}

/// Only a realm that is not bound makes a request wait. Where every
/// instance of the tree is bound, no walk up fails with `ResolverError`.
pub proof fn law_bound_tree_routes_without_resolver(
    router: Router,
    tree: &RealmTree,
    holder: MonikerSpec,
    wanted: PathSpec,
)
    requires
        all_bound(tree),
    ensures
        match router.offered(tree, holder, wanted) {
            Ok(_) => true,
            Err(error) => error.kind != ErrorKind::ResolverError,
        },
    decreases holder.len(),
{
    if holder.len() > 0 {
        let parent = holder.drop_last();
        if tree@.dom().contains(parent) {
            let decl = tree@[parent].decl.unwrap();
            match decl.offer_for(wanted, holder.last()) {
                None => {},
                Some(offer) => if decl.is_executable() {
                    match offer.source {
                        OfferSource::Self_ => {},
                        OfferSource::Realm => {
                            law_bound_tree_routes_without_resolver(
                                router,
                                tree,
                                parent,
                                offer.source_path@,
                            );
                        },
                        OfferSource::Child(name) => {
                            law_bound_tree_exposes_without_resolver(
                                tree,
                                static_child(parent, name@),
                                offer.source_path@,
                            );
                        },
                    }
                },
            }
        }
    }
}

} // verus!

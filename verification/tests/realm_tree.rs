use component_runtime::routing::capability::{is_valid_path, CapabilityKind, CapabilityPath};
use component_runtime::routing::decl::{
    ChildDecl, CollectionDecl, ComponentDecl, Durability, ExposeDecl, ExposeSource, OfferDecl,
    OfferSource, OfferTarget, StartupMode, UseDecl,
};
use std::collections::HashSet;
use component_runtime::routing::error::ErrorKind;
use component_runtime::routing::moniker::{ChildMoniker, Moniker};
use component_runtime::routing::realm::RealmTree;
use component_runtime::routing::router::Router;

fn child(name: &str) -> ChildDecl {
    ChildDecl {
        name: name.to_string(),
        url: format!("test:///{}", name),
        startup: StartupMode::Lazy,
    }
}

fn collection(name: &str) -> CollectionDecl {
    CollectionDecl { name: name.to_string(), durability: Durability::Transient }
}

fn moniker(parts: &[&str]) -> Moniker {
    Moniker::new(parts.iter().map(|part| ChildMoniker::parse(part)).collect())
}

fn parent_with(children: Vec<ChildDecl>, collections: Vec<CollectionDecl>) -> ComponentDecl {
    ComponentDecl { children, collections, ..ComponentDecl::new() }
}

#[test]
fn paths_must_start_with_a_slash_and_have_no_empty_segment() {
    assert!(is_valid_path("/svc"));
    assert!(is_valid_path("/svc/fuchsia.sys2.Realm"));
    assert!(is_valid_path("/a/b/c"));
    assert!(!is_valid_path(""));
    assert!(!is_valid_path("/"));
    assert!(!is_valid_path("svc"));
    assert!(!is_valid_path("svc/foo"));
    assert!(!is_valid_path("/svc/"));
    assert!(!is_valid_path("//svc"));
    assert!(!is_valid_path("/svc//foo"));
}

#[test]
fn an_invalid_path_is_refused_with_its_text() {
    let error = CapabilityPath::new(CapabilityKind::Service, "svc/foo").unwrap_err();
    assert_eq!(error.kind, ErrorKind::InvalidPath);
    assert_eq!(error.moniker, Moniker::root());
    assert_eq!(error.path, "svc/foo");
}

#[test]
fn a_path_keeps_its_kind_and_text() {
    let path = CapabilityPath::new(CapabilityKind::Directory, "/data/foo").unwrap();
    assert_eq!(path.kind(), CapabilityKind::Directory);
    assert_eq!(path.as_str(), "/data/foo");
    assert!(path.same(&CapabilityPath::new(CapabilityKind::Directory, "/data/foo").unwrap()));
    assert!(!path.same(&CapabilityPath::new(CapabilityKind::Service, "/data/foo").unwrap()));
    assert!(!path.same(&CapabilityPath::new(CapabilityKind::Directory, "/data/bar").unwrap()));
    assert!(path.clone().same(&path));
}

#[test]
fn segments_are_static_or_dynamic() {
    assert_eq!(ChildMoniker::parse("b"), ChildMoniker::Static { name: "b".to_string() });
    assert_eq!(
        ChildMoniker::parse("coll:c"),
        ChildMoniker::Dynamic { collection: "coll".to_string(), name: "c".to_string() }
    );
    assert_eq!(
        ChildMoniker::parse("coll:c:d"),
        ChildMoniker::Dynamic { collection: "coll".to_string(), name: "c:d".to_string() }
    );
    assert_eq!(
        ChildMoniker::parse(":c"),
        ChildMoniker::Dynamic { collection: "".to_string(), name: "c".to_string() }
    );
    assert_eq!(ChildMoniker::parse("coll:c").text(), "coll:c");
    assert_eq!(ChildMoniker::parse("b").text(), "b");
    assert!(ChildMoniker::parse("coll:c").same(&ChildMoniker::parse("coll:c")));
    assert!(!ChildMoniker::parse("coll:c").same(&ChildMoniker::parse("coll:d")));
    assert!(!ChildMoniker::parse("c").same(&ChildMoniker::parse("coll:c")));
}

#[test]
fn monikers_know_their_ancestors() {
    let deep = moniker(&["a", "coll:b", "c"]);
    assert_eq!(deep.len(), 3);
    assert!(!deep.is_root());
    assert!(Moniker::root().is_root());
    assert_eq!(deep.prefix(0), Moniker::root());
    assert_eq!(deep.prefix(2), moniker(&["a", "coll:b"]));
    assert_eq!(deep.prefix(3), deep);
    assert_eq!(deep.prefix(7), deep);
    assert_eq!(deep.parent(), Some(moniker(&["a", "coll:b"])));
    assert_eq!(Moniker::root().parent(), None);
    assert_eq!(moniker(&["a"]).child(ChildMoniker::parse("coll:b")), moniker(&["a", "coll:b"]));
    assert!(deep.starts_with(&moniker(&["a"])));
    assert!(deep.starts_with(&deep));
    assert!(deep.starts_with(&Moniker::root()));
    assert!(!deep.starts_with(&moniker(&["b"])));
    assert!(!moniker(&["a"]).starts_with(&deep));
    assert!(deep.prefix_is(1, &moniker(&["a"])));
    assert!(!deep.prefix_is(1, &moniker(&["a", "coll:b"])));
    assert!(!deep.prefix_is(4, &deep));
    assert!(deep.same(&moniker(&["a", "coll:b", "c"])));
    assert!(!deep.same(&moniker(&["a", "coll:b"])));
}

#[test]
fn a_new_tree_holds_an_unbound_root() {
    let tree = RealmTree::new("test:///a".to_string());
    assert_eq!(tree.len(), 1);
    assert!(tree.contains(&Moniker::root()));
    let root = tree.get(&Moniker::root()).unwrap();
    assert_eq!(root.url, "test:///a");
    assert!(root.decl.is_none());
    assert!(tree.get(&moniker(&["b"])).is_none());
}

#[test]
fn binding_brings_the_static_children_into_being() {
    let mut tree = RealmTree::new("test:///a".to_string());
    tree.bind(&Moniker::root(), parent_with(vec![child("b"), child("c")], vec![])).unwrap();
    assert_eq!(tree.len(), 3);
    let b = tree.get(&moniker(&["b"])).unwrap();
    assert_eq!(b.url, "test:///b");
    assert!(b.decl.is_none());
    assert_eq!(tree.get(&moniker(&["c"])).unwrap().url, "test:///c");
    assert!(tree.get(&Moniker::root()).unwrap().decl.is_some());
    assert!(!tree.contains(&moniker(&["d"])));
}

#[test]
fn binding_twice_changes_nothing() {
    let mut tree = RealmTree::new("test:///a".to_string());
    tree.bind(&Moniker::root(), parent_with(vec![child("b")], vec![])).unwrap();
    tree.bind(&Moniker::root(), parent_with(vec![child("c")], vec![])).unwrap();
    assert_eq!(tree.len(), 2);
    assert!(tree.contains(&moniker(&["b"])));
    assert!(!tree.contains(&moniker(&["c"])));
}

#[test]
fn binding_an_unknown_instance_fails() {
    let mut tree = RealmTree::new("test:///a".to_string());
    let error = tree.bind(&moniker(&["b"]), ComponentDecl::new()).unwrap_err();
    assert_eq!(error.kind, ErrorKind::InstanceNotFound);
    assert_eq!(error.moniker, moniker(&["b"]));
    assert_eq!(tree.len(), 1);
}

#[test]
fn an_inconsistent_manifest_is_refused() {
    let mut tree = RealmTree::new("test:///a".to_string());
    let twice = parent_with(vec![child("b"), child("b")], vec![]);
    assert!(!twice.is_valid());
    let error = tree.bind(&Moniker::root(), twice).unwrap_err();
    assert_eq!(error.kind, ErrorKind::ResolverError);
    assert_eq!(error.moniker, Moniker::root());
    assert_eq!(error.path, "test:///a");
    assert!(tree.get(&Moniker::root()).unwrap().decl.is_none());
    assert_eq!(tree.len(), 1);
}

#[test]
fn manifests_must_not_mount_a_path_twice() {
    let hippo = || CapabilityPath::new(CapabilityKind::Directory, "/data/hippo").unwrap();
    let foo = || CapabilityPath::new(CapabilityKind::Directory, "/data/foo").unwrap();
    let bar = || CapabilityPath::new(CapabilityKind::Directory, "/data/bar").unwrap();
    let once = ComponentDecl {
        uses: vec![UseDecl { source_path: foo(), target_path: hippo() }],
        ..ComponentDecl::new()
    };
    assert!(once.is_valid());
    let twice = ComponentDecl {
        uses: vec![
            UseDecl { source_path: foo(), target_path: hippo() },
            UseDecl { source_path: bar(), target_path: hippo() },
        ],
        ..ComponentDecl::new()
    };
    assert!(!twice.is_valid());
    let mixed = ComponentDecl {
        uses: vec![UseDecl {
            source_path: CapabilityPath::new(CapabilityKind::Service, "/data/foo").unwrap(),
            target_path: hippo(),
        }],
        ..ComponentDecl::new()
    };
    assert!(!mixed.is_valid());
    let collections = parent_with(vec![], vec![collection("coll"), collection("coll")]);
    assert!(!collections.is_valid());
    assert!(ComponentDecl::new().is_valid());
}

#[test]
fn resolve_walks_from_the_root_and_says_what_to_bind() {
    let mut tree = RealmTree::new("test:///a".to_string());
    let c = moniker(&["b", "c"]);

    let error = tree.resolve(&c).unwrap_err();
    assert_eq!(error.kind, ErrorKind::ResolverError);
    assert_eq!(error.moniker, Moniker::root());
    assert_eq!(error.path, "test:///a");

    tree.bind(&Moniker::root(), parent_with(vec![child("b")], vec![])).unwrap();
    let error = tree.resolve(&c).unwrap_err();
    assert_eq!(error.kind, ErrorKind::ResolverError);
    assert_eq!(error.moniker, moniker(&["b"]));
    assert_eq!(error.path, "test:///b");

    tree.bind(&moniker(&["b"]), parent_with(vec![child("c")], vec![])).unwrap();
    let realm = tree.resolve(&c).unwrap();
    assert_eq!(realm.moniker, c);
    assert_eq!(realm.url, "test:///c");
    assert!(realm.decl.is_none());

    let error = tree.resolve(&moniker(&["b", "d"])).unwrap_err();
    assert_eq!(error.kind, ErrorKind::InstanceNotFound);
    assert_eq!(error.moniker, moniker(&["b", "d"]));
    assert_eq!(error.path, "d");

    let error = tree.resolve(&moniker(&["x", "y"])).unwrap_err();
    assert_eq!(error.kind, ErrorKind::InstanceNotFound);
    assert_eq!(error.moniker, moniker(&["x"]));

    assert_eq!(tree.resolve(&Moniker::root()).unwrap().url, "test:///a");
    assert_eq!(tree.ancestor(&c, 1).unwrap().url, "test:///b");
    assert_eq!(tree.ancestor(&c, 0).unwrap().url, "test:///a");
}

fn tree_with_collection() -> RealmTree {
    let mut tree = RealmTree::new("test:///a".to_string());
    tree.bind(&Moniker::root(), parent_with(vec![child("b")], vec![])).unwrap();
    tree.bind(&moniker(&["b"]), parent_with(vec![], vec![collection("coll")])).unwrap();
    tree
}

#[test]
fn dynamic_children_are_created_in_declared_collections() {
    let mut tree = tree_with_collection();
    let b = moniker(&["b"]);
    tree.create_dynamic_child(&b, "coll", child("c")).unwrap();
    let c = tree.get(&moniker(&["b", "coll:c"])).unwrap();
    assert_eq!(c.url, "test:///c");
    assert!(c.decl.is_none());
    assert_eq!(tree.len(), 3);

    let error = tree.create_dynamic_child(&b, "other", child("d")).unwrap_err();
    assert_eq!(error.kind, ErrorKind::CollectionNotFound);
    assert_eq!(error.moniker, b);
    assert_eq!(error.path, "other");

    let error = tree.create_dynamic_child(&b, "coll", child("c")).unwrap_err();
    assert_eq!(error.kind, ErrorKind::DuplicateChild);
    assert_eq!(error.moniker, moniker(&["b", "coll:c"]));
    assert_eq!(error.path, "c");

    let error = tree.create_dynamic_child(&moniker(&["x"]), "coll", child("c")).unwrap_err();
    assert_eq!(error.kind, ErrorKind::InstanceNotFound);

    let error = tree
        .create_dynamic_child(&moniker(&["b", "coll:c"]), "coll", child("d"))
        .unwrap_err();
    assert_eq!(error.kind, ErrorKind::ResolverError);
    assert_eq!(error.path, "test:///c");
    assert_eq!(tree.len(), 3);
}

#[test]
fn destroying_a_dynamic_child_takes_its_descendants_along() {
    let mut tree = tree_with_collection();
    let b = moniker(&["b"]);
    tree.create_dynamic_child(&b, "coll", child("c")).unwrap();
    tree.create_dynamic_child(&b, "coll", child("d")).unwrap();
    let c = moniker(&["b", "coll:c"]);
    tree.bind(&c, parent_with(vec![child("e")], vec![])).unwrap();
    assert_eq!(tree.len(), 5);
    assert!(tree.contains(&moniker(&["b", "coll:c", "e"])));

    tree.destroy_dynamic_child(&c).unwrap();
    assert_eq!(tree.len(), 3);
    assert!(!tree.contains(&c));
    assert!(!tree.contains(&moniker(&["b", "coll:c", "e"])));
    assert!(tree.contains(&moniker(&["b", "coll:d"])));
    assert!(tree.contains(&b));
    assert!(tree.contains(&Moniker::root()));

    // A request that comes after the child is gone does not find it.
    let router = Router::new(
        CapabilityPath::new(CapabilityKind::Service, "/svc/fuchsia.sys2.Realm").unwrap(),
        vec![],
    );
    let error = router.route(&tree, &c, CapabilityKind::Service, "/svc/hippo").unwrap_err();
    assert_eq!(error.kind, ErrorKind::InstanceNotFound);
    assert_eq!(error.moniker, c);

    // The name is free again.
    tree.create_dynamic_child(&b, "coll", child("c")).unwrap();
    assert!(tree.get(&c).unwrap().decl.is_none());
}

#[test]
fn only_dynamic_children_can_be_destroyed() {
    let mut tree = tree_with_collection();
    let error = tree.destroy_dynamic_child(&moniker(&["b"])).unwrap_err();
    assert_eq!(error.kind, ErrorKind::InstanceNotFound);
    let error = tree.destroy_dynamic_child(&Moniker::root()).unwrap_err();
    assert_eq!(error.kind, ErrorKind::InstanceNotFound);
    let error = tree.destroy_dynamic_child(&moniker(&["b", "coll:c"])).unwrap_err();
    assert_eq!(error.kind, ErrorKind::InstanceNotFound);
    assert_eq!(error.moniker, moniker(&["b", "coll:c"]));
    assert_eq!(tree.len(), 2);
}

#[test]
fn routing_reports_invalid_paths_unused_paths_and_unbound_realms() {
    let mut tree = RealmTree::new("test:///a".to_string());
    let router = Router::new(
        CapabilityPath::new(CapabilityKind::Service, "/svc/fuchsia.sys2.Realm").unwrap(),
        vec![],
    );
    let root = Moniker::root();

    let error = router.route(&tree, &root, CapabilityKind::Service, "svc").unwrap_err();
    assert_eq!(error.kind, ErrorKind::InvalidPath);
    assert_eq!(error.path, "svc");

    let error = router.route(&tree, &root, CapabilityKind::Service, "/svc/hippo").unwrap_err();
    assert_eq!(error.kind, ErrorKind::ResolverError);
    assert!(error.kind.is_transient());

    tree.bind(&root, ComponentDecl::new()).unwrap();
    let error = router.route(&tree, &root, CapabilityKind::Service, "/svc/hippo").unwrap_err();
    assert_eq!(error.kind, ErrorKind::NotUsed);
    assert_eq!(error.moniker, root);
    assert_eq!(error.path, "/svc/hippo");
    assert!(!error.kind.is_transient());

    let error =
        router.route_exposed(&tree, &root, CapabilityKind::Service, "/svc/hippo").unwrap_err();
    assert_eq!(error.kind, ErrorKind::ExposeSourceNotFound);
    let error = router
        .route_exposed(&tree, &moniker(&["b"]), CapabilityKind::Service, "/svc/hippo")
        .unwrap_err();
    assert_eq!(error.kind, ErrorKind::InstanceNotFound);
    let error = router.route_exposed(&tree, &root, CapabilityKind::Service, "").unwrap_err();
    assert_eq!(error.kind, ErrorKind::InvalidPath);
}

#[test]
fn manifests_find_their_declarations() {
    let decl = parent_with(vec![child("b"), child("c")], vec![collection("coll")]);
    assert_eq!(decl.find_child("b"), Some(0));
    assert_eq!(decl.find_child("c"), Some(1));
    assert_eq!(decl.find_child("coll"), None);
    assert_eq!(decl.find_collection("coll"), Some(0));
    assert_eq!(decl.find_collection("b"), None);
    let hippo = CapabilityPath::new(CapabilityKind::Directory, "/data/hippo").unwrap();
    assert_eq!(decl.find_use(&hippo), None);
    assert_eq!(decl.find_expose(&hippo), None);
    assert_eq!(decl.find_offer(&hippo, &ChildMoniker::parse("b")), None);
}

#[test]
fn declarations_have_the_kind_of_their_capability() {
    let dir = |text: &str| CapabilityPath::new(CapabilityKind::Directory, text).unwrap();
    let svc = |text: &str| CapabilityPath::new(CapabilityKind::Service, text).unwrap();
    let used = UseDecl { source_path: dir("/data/foo"), target_path: dir("/data/hippo") };
    assert_eq!(used.kind(), CapabilityKind::Directory);
    let offered = OfferDecl {
        source: OfferSource::Realm,
        source_path: svc("/svc/foo"),
        target_path: svc("/svc/bar"),
        target: OfferTarget::Child("b".to_string()),
    };
    assert_eq!(offered.kind(), CapabilityKind::Service);
    let exposed = ExposeDecl {
        source: ExposeSource::Self_,
        source_path: svc("/svc/foo"),
        target_path: svc("/svc/bar"),
    };
    assert_eq!(exposed.kind(), CapabilityKind::Service);
}

#[test]
fn paths_and_monikers_can_key_a_set() {
    let mut paths = HashSet::new();
    paths.insert(CapabilityPath::new(CapabilityKind::Directory, "/data/foo").unwrap());
    paths.insert(CapabilityPath::new(CapabilityKind::Service, "/data/foo").unwrap());
    paths.insert(CapabilityPath::new(CapabilityKind::Directory, "/data/foo").unwrap());
    assert_eq!(paths.len(), 2);
    let mut monikers = HashSet::new();
    monikers.insert(moniker(&["b", "coll:c"]));
    monikers.insert(moniker(&["b", "coll:c"]));
    monikers.insert(moniker(&["b", "c"]));
    assert_eq!(monikers.len(), 2);
}

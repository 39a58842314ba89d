use component_runtime::health::{InspectNode, Node, Status};

#[test]
fn health_checker_lifecycle() {
    let root = InspectNode::root();
    // In the beginning, the tree has no health node.
    assert!(root.path.is_empty());

    let mut health = Node::new(&root);
    assert_eq!(health.node().path, vec!["fuchsia.inspect.Health".to_string()]);
    assert_eq!(health.status().key, "status");
    assert_eq!(health.status().value, "STARTING_UP");
    assert!(health.message().is_none());

    health.set_ok();
    assert_eq!(health.status().value, "OK");
    assert!(health.message().is_none());

    health.set_unhealthy("Bad state");
    assert_eq!(health.status().value, "UNHEALTHY");
    assert_eq!(health.message().unwrap().key, "message");
    assert_eq!(health.message().unwrap().value, "Bad state");

    // Verify that the message changes.
    health.set_unhealthy("Another bad state");
    assert_eq!(health.status().value, "UNHEALTHY");
    assert_eq!(health.message().unwrap().value, "Another bad state");

    // Also verifies that there is no more message.
    health.set_ok();
    assert_eq!(health.status().value, "OK");
    assert!(health.message().is_none());
    assert_eq!(health.node().path, vec!["fuchsia.inspect.Health".to_string()]);
}

#[test]
fn health_node_is_a_child_of_its_parent() {
    let parent = InspectNode::root().create_child("net").create_child("stack");
    let health = Node::new(&parent);
    assert_eq!(
        health.node().path,
        vec!["net".to_string(), "stack".to_string(), "fuchsia.inspect.Health".to_string()]
    );
    assert_eq!(parent.path, vec!["net".to_string(), "stack".to_string()]);
}

#[test]
fn status_texts() {
    assert_eq!(Status::StartingUp.to_string(), "STARTING_UP");
    assert_eq!(Status::Unhealthy.to_string(), "UNHEALTHY");
    assert_eq!(Status::Healthy.to_string(), "OK");
}

#[test]
fn any_status_can_be_set() {
    let mut health = Node::new(&InspectNode::root());
    health.set_status("DEGRADED", Some("one disk left"));
    assert_eq!(health.status().value, "DEGRADED");
    assert_eq!(health.message().unwrap().value, "one disk left");
    health.set_status("DEGRADED", None);
    assert!(health.message().is_none());
    health.set_status_enum(Status::StartingUp, None);
    assert_eq!(health.status().value, "STARTING_UP");
}

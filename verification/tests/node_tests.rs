//! Node identities and their canonical keys.

use truthlayer::node::{NodeId, NodeType};
use truthlayer::store::key_to_node_id;

#[test]
fn node_id_key_without_namespace() {
    let id = NodeId { id: "a".to_string(), namespace: None };
    assert_eq!(id.key(), "a");
}

#[test]
fn node_id_key_with_namespace() {
    let id = NodeId {
        id: "goal-001".to_string(),
        namespace: Some("ui".to_string()),
    };
    assert_eq!(id.key(), "ui:goal-001");
}

#[test]
fn key_round_trips_through_node_id() {
    let id = key_to_node_id("ui:goal-001").unwrap();
    assert_eq!(id.namespace.as_deref(), Some("ui"));
    assert_eq!(id.id, "goal-001");
    assert_eq!(id.key(), "ui:goal-001");

    let bare = key_to_node_id("goal-001").unwrap();
    assert!(bare.namespace.is_none());
    assert_eq!(bare.id, "goal-001");
}

#[test]
fn node_type_names() {
    assert_eq!(NodeType::Goal.as_str(), "goal");
    assert_eq!(NodeType::Decision.as_str(), "decision");
    assert_eq!(NodeType::Risk.as_str(), "risk");
}

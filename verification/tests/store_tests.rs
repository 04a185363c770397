//! The in-memory store: proposal lifecycle, the apply engine, conflict
//! detection, merge, staleness and the audit log.

use truthlayer::audit::{AuditAction, AuditEvent, AuditOutcome};
use truthlayer::conflicts::{ConflictSeverity, MergeValue};
use truthlayer::node::{ContextNode, NodeId, NodeMetadata, NodeStatus, NodeType};
use truthlayer::proposal::{
    BaseVersion, Operation, Proposal, ProposalMetadata, ProposalPatch, ProposalStatus, Review,
    ReviewAction, UpdateChanges,
};
use truthlayer::sensitivity::content_hash;
use truthlayer::store::{InMemoryStore, StoreError};

fn meta() -> NodeMetadata {
    NodeMetadata {
        created_at: "2026-01-01T00:00:00Z".to_string(),
        created_by: "test".to_string(),
        modified_at: "2026-01-01T00:00:00Z".to_string(),
        modified_by: "test".to_string(),
        tags: None,
        implemented_in_commit: None,
        referenced_in_commits: None,
        version: 1,
        sensitivity: None,
        content_hash: None,
        source_attribution: None,
        ip_classification: None,
        license: None,
    }
}

fn proposal_meta() -> ProposalMetadata {
    ProposalMetadata {
        created_at: "2026-01-01T00:00:00Z".to_string(),
        created_by: "test".to_string(),
        modified_at: "2026-01-01T00:00:00Z".to_string(),
        modified_by: "test".to_string(),
        rationale: None,
        required_approvers: None,
        approved_by: None,
        base_versions: None,
    }
}

fn node(id: &str, content: &str) -> ContextNode {
    ContextNode {
        id: NodeId { id: id.to_string(), namespace: None },
        node_type: NodeType::Goal,
        status: NodeStatus::Accepted,
        title: Some("A goal".to_string()),
        description: None,
        content: content.to_string(),
        text_range: None,
        metadata: meta(),
        relationships: None,
        relations: None,
        referenced_by: None,
        source_files: None,
        decision: None,
        rationale: None,
        alternatives: None,
        decided_at: None,
        state: None,
        assignee: None,
        due_date: None,
        dependencies: None,
        severity: None,
        likelihood: None,
        mitigation: None,
        question: None,
        answer: None,
        answered_at: None,
        constraint: None,
        reason: None,
    }
}

fn proposal(id: &str, status: ProposalStatus, operations: Vec<Operation>) -> Proposal {
    Proposal {
        id: id.to_string(),
        status,
        operations,
        metadata: proposal_meta(),
        comments: None,
        relations: None,
        applied: None,
    }
}

fn update_content_op(op_id: &str, order: u32, node_id: &str, content: &str) -> Operation {
    Operation::Update {
        id: op_id.to_string(),
        order,
        node_id: NodeId { id: node_id.to_string(), namespace: None },
        changes: UpdateChanges {
            content: Some(content.to_string()),
            status: None,
            extra: None,
        },
    }
}

fn update_status_op(op_id: &str, order: u32, node_id: &str, status: NodeStatus) -> Operation {
    Operation::Update {
        id: op_id.to_string(),
        order,
        node_id: NodeId { id: node_id.to_string(), namespace: None },
        changes: UpdateChanges { content: None, status: Some(status), extra: None },
    }
}

#[test]
fn create_and_get_proposal() {
    let mut store = InMemoryStore::new();
    store
        .create_proposal(proposal("p-1", ProposalStatus::Open, vec![]))
        .unwrap();
    let got = store.get_proposal("p-1");
    assert!(got.is_some());
    assert_eq!(got.unwrap().id, "p-1");
}

#[test]
fn apply_create_then_get_node() {
    let mut store = InMemoryStore::new();
    let op = Operation::Create { id: "op-1".to_string(), order: 1, node: node("goal-1", "A goal") };
    store
        .create_proposal(proposal("p-create", ProposalStatus::Accepted, vec![op]))
        .unwrap();
    store.apply_proposal("p-create", "test-user").unwrap();
    let got = store.get_node(&NodeId { id: "goal-1".to_string(), namespace: None });
    assert!(got.is_some());
    assert_eq!(got.unwrap().content, "A goal");
}

#[test]
fn reset_clears_store() {
    let mut store = InMemoryStore::new();
    store
        .create_proposal(proposal("p-1", ProposalStatus::Open, vec![]))
        .unwrap();
    store.reset().unwrap();
    assert!(store.get_proposal("p-1").is_none());
}

#[test]
fn apply_sets_content_hash() {
    let mut store = InMemoryStore::new();
    let op = Operation::Create {
        id: "op-1".to_string(),
        order: 1,
        node: node("hash-node", "Test content for hashing"),
    };
    store
        .create_proposal(proposal("p-hash", ProposalStatus::Accepted, vec![op]))
        .unwrap();
    store.apply_proposal("p-hash", "test-user").unwrap();

    let got = store
        .get_node(&NodeId { id: "hash-node".to_string(), namespace: None })
        .unwrap();
    assert!(got.metadata.content_hash.is_some(), "content_hash should be set after apply");
    assert_eq!(
        got.metadata.content_hash.unwrap(),
        content_hash("Test content for hashing")
    );
}

#[test]
fn audit_log_survives_reset() {
    let mut store = InMemoryStore::new();
    let event = AuditEvent::new(
        "test-actor",
        "human",
        AuditAction::StoreReset,
        "store",
        AuditOutcome::Success,
    );
    store.append_audit(event).unwrap();
    store.reset().unwrap();
    let events = store
        .query_audit(None, None, None, None, None, None, None)
        .unwrap();
    assert!(!events.is_empty(), "audit log should survive reset");
}

#[test]
fn create_apply_read_assigns_versions_and_revisions() {
    let mut store = InMemoryStore::new();
    let op = Operation::Create { id: "op1".to_string(), order: 1, node: node("n1", "hello") };
    store
        .create_proposal(proposal("p1", ProposalStatus::Accepted, vec![op]))
        .unwrap();
    store
        .apply_proposal_at("p1", "applier", "2026-01-02T00:00:00Z")
        .unwrap();

    let got = store
        .get_node(&NodeId { id: "n1".to_string(), namespace: None })
        .unwrap();
    assert_eq!(got.content, "hello");
    assert_eq!(got.metadata.version, 2);
    assert_eq!(got.metadata.content_hash.as_deref(), Some(content_hash("hello").as_str()));

    let applied = store.get_proposal("p1").unwrap();
    assert_eq!(applied.status, ProposalStatus::Applied);
    let am = applied.applied.unwrap();
    assert_eq!(am.previous_revision_id, "rev_0");
    assert_eq!(am.applied_to_revision_id, "rev_1");
    assert_eq!(am.applied_by, "applier");
    assert_eq!(am.applied_at, "2026-01-02T00:00:00Z");
    assert_eq!(store.revision(), 1);
}

#[test]
fn apply_twice_changes_nothing() {
    let mut store = InMemoryStore::new();
    let op = Operation::Create { id: "op1".to_string(), order: 1, node: node("n1", "hello") };
    store
        .create_proposal(proposal("p1", ProposalStatus::Accepted, vec![op]))
        .unwrap();
    store
        .apply_proposal_at("p1", "applier", "2026-01-02T00:00:00Z")
        .unwrap();
    let version_before = store
        .get_node(&NodeId { id: "n1".to_string(), namespace: None })
        .unwrap()
        .metadata
        .version;
    let revision_before = store.revision();

    store
        .apply_proposal_at("p1", "applier", "2026-01-03T00:00:00Z")
        .unwrap();
    let version_after = store
        .get_node(&NodeId { id: "n1".to_string(), namespace: None })
        .unwrap()
        .metadata
        .version;
    assert_eq!(version_before, version_after);
    assert_eq!(store.revision(), revision_before);
}

#[test]
fn successive_applies_chain_revision_ids() {
    let mut store = InMemoryStore::new();
    let op1 = Operation::Create { id: "op1".to_string(), order: 1, node: node("n1", "one") };
    let op2 = Operation::Create { id: "op2".to_string(), order: 1, node: node("n2", "two") };
    store
        .create_proposal(proposal("p1", ProposalStatus::Accepted, vec![op1]))
        .unwrap();
    store
        .create_proposal(proposal("p2", ProposalStatus::Accepted, vec![op2]))
        .unwrap();
    store.apply_proposal_at("p1", "a", "t1").unwrap();
    store.apply_proposal_at("p2", "a", "t2").unwrap();
    let first = store.get_proposal("p1").unwrap().applied.unwrap();
    let second = store.get_proposal("p2").unwrap().applied.unwrap();
    assert_eq!(second.previous_revision_id, first.applied_to_revision_id);
    assert_eq!(store.revision(), 2);
}

#[test]
fn operations_apply_in_ascending_order() {
    let mut store = InMemoryStore::new();
    let create = Operation::Create { id: "op2".to_string(), order: 1, node: node("n1", "first") };
    let update = update_content_op("op1", 2, "n1", "second");
    // Deliberately listed update-first: the apply engine sorts by order.
    store
        .create_proposal(proposal("p1", ProposalStatus::Accepted, vec![update, create]))
        .unwrap();
    store.apply_proposal_at("p1", "a", "t").unwrap();
    let got = store
        .get_node(&NodeId { id: "n1".to_string(), namespace: None })
        .unwrap();
    assert_eq!(got.content, "second");
    assert_eq!(got.metadata.version, 3, "created at 2, updated to 3");
}

#[test]
fn apply_requires_accepted_status() {
    let mut store = InMemoryStore::new();
    store
        .create_proposal(proposal("p-open", ProposalStatus::Open, vec![]))
        .unwrap();
    let err = store.apply_proposal_at("p-open", "a", "t").unwrap_err();
    assert!(matches!(err, StoreError::Invalid(_)));
    let err = store.apply_proposal_at("p-missing", "a", "t").unwrap_err();
    assert!(matches!(err, StoreError::NotFound(_)));
}

#[test]
fn withdraw_on_terminal_proposal_is_invalid() {
    let mut store = InMemoryStore::new();
    let op = Operation::Create { id: "op1".to_string(), order: 1, node: node("n1", "x") };
    store
        .create_proposal(proposal("p1", ProposalStatus::Accepted, vec![op]))
        .unwrap();
    store.apply_proposal_at("p1", "a", "t").unwrap();
    let err = store.withdraw_proposal("p1").unwrap_err();
    assert!(matches!(err, StoreError::Invalid(_)));
}

#[test]
fn withdraw_open_proposal() {
    let mut store = InMemoryStore::new();
    store
        .create_proposal(proposal("p-withdraw", ProposalStatus::Open, vec![]))
        .unwrap();
    store.withdraw_proposal("p-withdraw").unwrap();
    assert_eq!(
        store.get_proposal("p-withdraw").unwrap().status,
        ProposalStatus::Withdrawn
    );
}

#[test]
fn patch_cannot_set_status_applied() {
    let mut store = InMemoryStore::new();
    store
        .create_proposal(proposal("p1", ProposalStatus::Open, vec![]))
        .unwrap();
    let patch = ProposalPatch {
        status: Some("applied".to_string()),
        modified_at: None,
        modified_by: None,
        comments: None,
    };
    let err = store.update_proposal("p1", patch).unwrap_err();
    assert!(matches!(err, StoreError::Invalid(_)));

    let ok_patch = ProposalPatch {
        status: Some("accepted".to_string()),
        modified_at: None,
        modified_by: None,
        comments: None,
    };
    store.update_proposal("p1", ok_patch).unwrap();
    assert_eq!(store.get_proposal("p1").unwrap().status, ProposalStatus::Accepted);

    let unknown = ProposalPatch {
        status: Some("bogus".to_string()),
        modified_at: None,
        modified_by: None,
        comments: None,
    };
    assert!(matches!(
        store.update_proposal("p1", unknown),
        Err(StoreError::Invalid(_))
    ));
}

#[test]
fn submit_review_transitions_open_proposal() {
    let mut store = InMemoryStore::new();
    store
        .create_proposal(proposal("p-review", ProposalStatus::Open, vec![]))
        .unwrap();
    let review = Review {
        id: "r-1".to_string(),
        proposal_id: "p-review".to_string(),
        reviewer: "rev-1".to_string(),
        reviewer_role: None,
        reviewed_at: "2026-01-02T00:00:00Z".to_string(),
        action: ReviewAction::Accept,
        comment: None,
        comments: None,
        operation_ids: None,
        is_approval: None,
    };
    store.submit_review(review).unwrap();
    assert_eq!(store.get_proposal("p-review").unwrap().status, ProposalStatus::Accepted);
    let history = store.get_review_history("p-review").unwrap();
    assert_eq!(history.len(), 1);
    assert_eq!(history[0].reviewer, "rev-1");
    assert_eq!(history[0].action, ReviewAction::Accept);
}

#[test]
fn conflict_detection_on_shared_node() {
    let mut store = InMemoryStore::new();
    let a = proposal(
        "A",
        ProposalStatus::Open,
        vec![update_content_op("opA", 1, "n1", "from A")],
    );
    let b = proposal(
        "B",
        ProposalStatus::Open,
        vec![update_content_op("opB", 1, "n1", "from B")],
    );
    store.create_proposal(a).unwrap();
    store.create_proposal(b).unwrap();
    let result = store.detect_conflicts("A").unwrap();
    assert_eq!(result.conflicts.len(), 1);
    let conflict = &result.conflicts[0];
    assert_eq!(conflict.proposals, vec!["A".to_string(), "B".to_string()]);
    assert_eq!(conflict.conflicting_nodes.len(), 1);
    assert_eq!(conflict.conflicting_nodes[0].id, "n1");
    assert_eq!(conflict.severity, ConflictSeverity::Node);
    assert!(!conflict.auto_resolvable);
    assert_eq!(result.needs_resolution, vec!["B".to_string()]);
    assert!(result.mergeable.is_empty());
}

#[test]
fn merge_disjoint_fields_auto_resolves() {
    let mut store = InMemoryStore::new();
    let a = proposal(
        "A",
        ProposalStatus::Open,
        vec![update_content_op("opA", 1, "n1", "new content")],
    );
    let b = proposal(
        "B",
        ProposalStatus::Open,
        vec![update_status_op("opB", 1, "n1", NodeStatus::Superseded)],
    );
    store.create_proposal(a).unwrap();
    store.create_proposal(b).unwrap();
    let result = store
        .merge_proposals(&vec!["A".to_string(), "B".to_string()])
        .unwrap();
    assert_eq!(result.auto_merged.len(), 2);
    assert_eq!(result.auto_merged[0].field, "content");
    assert_eq!(result.auto_merged[0].node_id.id, "n1");
    assert!(matches!(result.auto_merged[0].new_value, MergeValue::Text(ref t) if t == "new content"));
    assert_eq!(result.auto_merged[1].field, "status");
    assert!(result.conflicts.is_empty());
    assert!(result.merged.is_empty());
}

#[test]
fn merge_divergent_values_conflict() {
    let mut store = InMemoryStore::new();
    let a = proposal(
        "A",
        ProposalStatus::Open,
        vec![update_content_op("opA", 1, "n1", "version A")],
    );
    let b = proposal(
        "B",
        ProposalStatus::Open,
        vec![update_content_op("opB", 1, "n1", "version B")],
    );
    store.create_proposal(a).unwrap();
    store.create_proposal(b).unwrap();
    let result = store
        .merge_proposals(&vec!["A".to_string(), "B".to_string()])
        .unwrap();
    assert!(result.auto_merged.is_empty());
    assert!(result.merged.is_empty());
    assert_eq!(result.conflicts.len(), 1);
    let c = &result.conflicts[0];
    assert_eq!(c.field, "content");
    assert!(matches!(c.proposal1_value, MergeValue::Text(ref t) if t == "version A"));
    assert!(matches!(c.proposal2_value, MergeValue::Text(ref t) if t == "version B"));
}

#[test]
fn merge_unknown_proposal_not_found() {
    let store = InMemoryStore::new();
    match store.merge_proposals(&vec!["nope".to_string()]) {
        Err(StoreError::NotFound(_)) => {},
        Err(_) => panic!("expected a not-found error"),
        Ok(_) => panic!("merging an unknown proposal must fail"),
    }
}

#[test]
fn stale_proposal_detected_from_base_versions() {
    let mut store = InMemoryStore::new();
    let op = Operation::Create { id: "op1".to_string(), order: 1, node: node("n1", "x") };
    store
        .create_proposal(proposal("p-seed", ProposalStatus::Accepted, vec![op]))
        .unwrap();
    store.apply_proposal_at("p-seed", "a", "t").unwrap();
    // The node is now at version 2.
    let mut stale = proposal(
        "p-stale",
        ProposalStatus::Open,
        vec![update_content_op("op2", 1, "n1", "y")],
    );
    stale.metadata.base_versions = Some(vec![BaseVersion { key: "n1".to_string(), version: 1 }]);
    store.create_proposal(stale).unwrap();
    assert!(store.is_proposal_stale("p-stale").unwrap());

    let mut fresh = proposal(
        "p-fresh",
        ProposalStatus::Open,
        vec![update_content_op("op3", 1, "n1", "z")],
    );
    fresh.metadata.base_versions = Some(vec![BaseVersion { key: "n1".to_string(), version: 2 }]);
    store.create_proposal(fresh).unwrap();
    assert!(!store.is_proposal_stale("p-fresh").unwrap());
}

#[test]
fn content_update_mirrors_description() {
    let mut store = InMemoryStore::new();
    let create = Operation::Create { id: "op1".to_string(), order: 1, node: node("n1", "old") };
    store
        .create_proposal(proposal("p-seed", ProposalStatus::Accepted, vec![create]))
        .unwrap();
    store.apply_proposal_at("p-seed", "a", "t1").unwrap();
    let update = update_content_op("op2", 1, "n1", "new text");
    store
        .create_proposal(proposal("p-upd", ProposalStatus::Accepted, vec![update]))
        .unwrap();
    store.apply_proposal_at("p-upd", "a", "t2").unwrap();
    let got = store
        .get_node(&NodeId { id: "n1".to_string(), namespace: None })
        .unwrap();
    assert_eq!(got.content, "new text");
    assert_eq!(got.description.as_deref(), Some("new text"));
    assert_eq!(
        got.metadata.content_hash.unwrap(),
        content_hash("new text")
    );
}

#[test]
fn stale_when_snapshot_names_untouched_moved_node() {
    let mut store = InMemoryStore::new();
    let op = Operation::Create { id: "op1".to_string(), order: 1, node: node("n1", "x") };
    store
        .create_proposal(proposal("p-seed", ProposalStatus::Accepted, vec![op]))
        .unwrap();
    store.apply_proposal_at("p-seed", "a", "t").unwrap();
    // The proposal touches only n2, but its snapshot also recorded n1 at
    // version 1; n1 has since moved to version 2, so the proposal is stale.
    let mut p = proposal(
        "p-untouched",
        ProposalStatus::Open,
        vec![update_content_op("op2", 1, "n2", "y")],
    );
    p.metadata.base_versions = Some(vec![
        BaseVersion { key: "n2".to_string(), version: 1 },
        BaseVersion { key: "n1".to_string(), version: 1 },
    ]);
    store.create_proposal(p).unwrap();
    assert!(store.is_proposal_stale("p-untouched").unwrap());
}

#[test]
fn accepted_nodes_and_open_proposals_are_complete() {
    let mut store = InMemoryStore::new();
    let mut ops = Vec::new();
    for k in 0..60u32 {
        ops.push(Operation::Create {
            id: format!("op{}", k),
            order: k,
            node: node(&format!("n{}", k), "content"),
        });
    }
    store
        .create_proposal(proposal("p-many", ProposalStatus::Accepted, ops))
        .unwrap();
    store.apply_proposal_at("p-many", "a", "t").unwrap();
    let accepted = store.get_accepted_nodes().unwrap();
    assert_eq!(accepted.len(), 60, "no page cap on the accepted-node list");

    for k in 0..55u32 {
        store
            .create_proposal(proposal(&format!("open{}", k), ProposalStatus::Open, vec![]))
            .unwrap();
    }
    let open = store.get_open_proposals().unwrap();
    assert_eq!(open.len(), 55, "no page cap on the open-proposal list");
}

#[test]
fn query_nodes_filters_and_paginates() {
    let mut store = InMemoryStore::new();
    let ops = vec![
        Operation::Create { id: "o1".to_string(), order: 1, node: node("n1", "alpha goal") },
        Operation::Create { id: "o2".to_string(), order: 2, node: node("n2", "beta goal") },
        Operation::Create {
            id: "o3".to_string(),
            order: 3,
            node: {
                let mut n = node("n3", "gamma");
                n.status = NodeStatus::Proposed;
                n
            },
        },
    ];
    store
        .create_proposal(proposal("p1", ProposalStatus::Accepted, ops))
        .unwrap();
    store.apply_proposal_at("p1", "a", "t").unwrap();

    let mut q = truthlayer::query::NodeQuery::default();
    q.status = Some(vec![NodeStatus::Accepted]);
    let res = store.query_nodes(q).unwrap();
    assert_eq!(res.total, 2);
    assert_eq!(res.nodes.len(), 2);
    assert!(!res.has_more);

    let mut q2 = truthlayer::query::NodeQuery::default();
    q2.search = Some("ALPHA".to_string());
    let res2 = store.query_nodes(q2).unwrap();
    assert_eq!(res2.total, 1);
    assert_eq!(res2.nodes[0].id.id, "n1");

    let mut q3 = truthlayer::query::NodeQuery::default();
    q3.limit = Some(1);
    let res3 = store.query_nodes(q3).unwrap();
    assert_eq!(res3.nodes.len(), 1);
    assert!(res3.has_more);
}

#[test]
fn query_audit_filters_by_action_and_actor() {
    let mut store = InMemoryStore::new();
    store
        .append_audit(AuditEvent::new(
            "alice",
            "human",
            AuditAction::ProposalCreated,
            "p1",
            AuditOutcome::Success,
        ))
        .unwrap();
    store
        .append_audit(AuditEvent::new(
            "bob",
            "human",
            AuditAction::ProposalApplied,
            "p1",
            AuditOutcome::Success,
        ))
        .unwrap();
    let by_actor = store
        .query_audit(Some("alice"), None, None, None, None, None, None)
        .unwrap();
    assert_eq!(by_actor.len(), 1);
    assert_eq!(by_actor[0].actor_id, "alice");
    let by_action = store
        .query_audit(None, Some("proposal_applied"), None, None, None, None, None)
        .unwrap();
    assert_eq!(by_action.len(), 1);
    assert_eq!(by_action[0].actor_id, "bob");
}

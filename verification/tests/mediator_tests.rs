//! The request mediator: RBAC gates, the policy gate on apply, the agent
//! sensitivity read gate, the audit CSV export, and resets.

use truthlayer::audit::AuditAction;
use truthlayer::auth::{ActorContext, ActorType, Role};
use truthlayer::mediator::{
    ApiError, NodeReadOutcome, audit_csv, handle_apply_proposal_at, handle_create_proposal,
    handle_dsar_erase, handle_export_audit_csv, handle_get_node, handle_query_nodes,
    handle_reset, handle_submit_review, handle_withdraw_proposal,
};
use truthlayer::node::{ContextNode, NodeId, NodeMetadata, NodeStatus, NodeType};
use truthlayer::policy::{PolicyConfig, PolicyRule};
use truthlayer::proposal::{Operation, Proposal, ProposalMetadata, ProposalStatus, Review, ReviewAction};
use truthlayer::sensitivity::Sensitivity;
use truthlayer::store::InMemoryStore;

fn admin() -> ActorContext {
    ActorContext::dev_default()
}

fn agent(roles: Vec<Role>) -> ActorContext {
    ActorContext {
        actor_id: "agent-1".to_string(),
        actor_type: ActorType::Agent,
        roles,
    }
}

fn meta() -> NodeMetadata {
    NodeMetadata {
        created_at: "t".to_string(),
        created_by: "t".to_string(),
        modified_at: "t".to_string(),
        modified_by: "t".to_string(),
        tags: None,
        implemented_in_commit: None,
        referenced_in_commits: None,
        version: 1,
        sensitivity: None,
        content_hash: None,
        source_attribution: None,
        ip_classification: None,
        license: None,
    }
}

fn node(id: &str, content: &str, sensitivity: Option<Sensitivity>) -> ContextNode {
    let mut m = meta();
    m.sensitivity = sensitivity;
    ContextNode {
        id: NodeId { id: id.to_string(), namespace: None },
        node_type: NodeType::Goal,
        status: NodeStatus::Accepted,
        title: None,
        description: None,
        content: content.to_string(),
        text_range: None,
        metadata: m,
        relationships: None,
        relations: None,
        referenced_by: None,
        source_files: None,
        decision: None,
        rationale: None,
        alternatives: None,
        decided_at: None,
        state: None,
        assignee: None,
        due_date: None,
        dependencies: None,
        severity: None,
        likelihood: None,
        mitigation: None,
        question: None,
        answer: None,
        answered_at: None,
        constraint: None,
        reason: None,
    }
}

fn proposal(id: &str, status: ProposalStatus, operations: Vec<Operation>) -> Proposal {
    Proposal {
        id: id.to_string(),
        status,
        operations,
        metadata: ProposalMetadata {
            created_at: "t".to_string(),
            created_by: "t".to_string(),
            modified_at: "t".to_string(),
            modified_by: "t".to_string(),
            rationale: None,
            required_approvers: None,
            approved_by: None,
            base_versions: None,
        },
        comments: None,
        relations: None,
        applied: None,
    }
}

fn seed_node(store: &mut InMemoryStore, id: &str, content: &str, s: Option<Sensitivity>) {
    let op = Operation::Create {
        id: format!("op-{}", id),
        order: 1,
        node: node(id, content, s),
    };
    store
        .create_proposal(proposal(&format!("p-{}", id), ProposalStatus::Accepted, vec![op]))
        .unwrap();
    store
        .apply_proposal_at(&format!("p-{}", id), "seed", "t")
        .unwrap();
}

#[test]
fn policy_blocks_agent_apply_at_policy_layer() {
    // The policy hook produces exactly the agent-restriction violation;
    // at the endpoint, an agent is already turned away by the RBAC gate,
    // so the 422 path is reachable only for callers that pass it.
    let policies = PolicyConfig {
        rules: vec![PolicyRule::AgentRestriction {
            blocked_actions: vec!["apply".to_string()],
        }],
    };
    let violations = truthlayer::policy::evaluate_on_apply_at("agent", &policies, 0, 12);
    assert_eq!(violations.len(), 1);
    assert_eq!(violations[0].rule, "agent_restriction");
    assert_eq!(violations[0].message, "agents cannot apply proposals");

    let mut store = InMemoryStore::new();
    store
        .create_proposal(proposal("pX", ProposalStatus::Accepted, vec![]))
        .unwrap();
    let actor = agent(vec![Role::Admin]);
    let r = handle_apply_proposal_at(&mut store, &actor, "pX", None, &policies, 0, 12, "t");
    assert!(matches!(r, Err(ApiError::Forbidden(_))), "agents are rejected outright");
    let denied = store
        .query_audit(None, None, None, None, None, None, None)
        .unwrap();
    assert_eq!(denied.len(), 1);
    assert_eq!(denied[0].action, AuditAction::ProposalApplied);
}

#[test]
fn change_window_blocks_apply_with_policy_violation() {
    let policies = PolicyConfig {
        rules: vec![PolicyRule::ChangeWindow {
            allowed_days: vec![0],
            allowed_hour_start: 9,
            allowed_hour_end: 17,
        }],
    };
    let mut store = InMemoryStore::new();
    store
        .create_proposal(proposal("p1", ProposalStatus::Accepted, vec![]))
        .unwrap();
    // Sunday, 03:00 — outside the window on both counts.
    let r = handle_apply_proposal_at(&mut store, &admin(), "p1", None, &policies, 6, 3, "t");
    match r {
        Err(ApiError::PolicyViolation(violations)) => {
            assert_eq!(violations.len(), 2);
            assert!(violations.iter().all(|v| v.rule == "change_window"));
        },
        other => panic!("expected a policy violation, got {:?}", other),
    }
    let events = store
        .query_audit(None, Some("policy_evaluated"), None, None, None, None, None)
        .unwrap();
    assert_eq!(events.len(), 1);
    assert_eq!(
        events[0].outcome,
        truthlayer::audit::AuditOutcome::PolicyViolation
    );
    // The proposal was not applied.
    assert_eq!(store.get_proposal("p1").unwrap().status, ProposalStatus::Accepted);
}

#[test]
fn apply_is_idempotent_at_the_endpoint() {
    let policies = PolicyConfig { rules: vec![] };
    let mut store = InMemoryStore::new();
    let op = Operation::Create { id: "op1".to_string(), order: 1, node: node("n1", "hello", None) };
    store
        .create_proposal(proposal("p1", ProposalStatus::Accepted, vec![op]))
        .unwrap();
    handle_apply_proposal_at(&mut store, &admin(), "p1", None, &policies, 0, 12, "t1").unwrap();
    let audit_len_before = store
        .query_audit(None, None, None, None, None, Some(100000), None)
        .unwrap()
        .len();
    let revision_before = store.revision();

    handle_apply_proposal_at(&mut store, &admin(), "p1", None, &policies, 0, 12, "t2").unwrap();
    let audit_len_after = store
        .query_audit(None, None, None, None, None, Some(100000), None)
        .unwrap()
        .len();
    assert_eq!(audit_len_before, audit_len_after, "no new audit event on re-apply");
    assert_eq!(store.revision(), revision_before);
    let n = store
        .get_node(&NodeId { id: "n1".to_string(), namespace: None })
        .unwrap();
    assert_eq!(n.metadata.version, 2);
}

#[test]
fn agent_read_gate_redacts_above_ceiling() {
    let policies = PolicyConfig { rules: vec![] };  // ceiling defaults to internal
    let mut store = InMemoryStore::new();
    seed_node(&mut store, "open-node", "readable", Some(Sensitivity::Internal));
    seed_node(&mut store, "secret-node", "hidden", Some(Sensitivity::Restricted));
    let reader = agent(vec![Role::Reader]);

    let ok = handle_get_node(&mut store, &reader, "open-node", &policies).unwrap();
    match ok {
        NodeReadOutcome::Full(n) => assert_eq!(n.content, "readable"),
        NodeReadOutcome::Redacted(_) => panic!("internal node must be readable"),
    }

    let redacted = handle_get_node(&mut store, &reader, "secret-node", &policies).unwrap();
    match redacted {
        NodeReadOutcome::Full(_) => panic!("restricted node must be redacted for an agent"),
        NodeReadOutcome::Redacted(stub) => {
            assert_eq!(stub.id.id, "secret-node");
            assert_eq!(stub.sensitivity, Sensitivity::Restricted);
        },
    }
    let denied = store
        .query_audit(Some("agent-1"), Some("sensitive_read"), None, None, None, None, None)
        .unwrap();
    assert_eq!(denied.len(), 1);
    assert_eq!(denied[0].outcome, truthlayer::audit::AuditOutcome::Denied);
    assert_eq!(denied[0].resource_id, "secret-node");
}

#[test]
fn agent_query_drops_unreadable_nodes() {
    let policies = PolicyConfig { rules: vec![] };
    let mut store = InMemoryStore::new();
    seed_node(&mut store, "a", "one", Some(Sensitivity::Public));
    seed_node(&mut store, "b", "two", Some(Sensitivity::Restricted));
    let reader = agent(vec![Role::Reader]);
    let res = handle_query_nodes(
        &mut store,
        &reader,
        truthlayer::query::NodeQuery::default(),
        &policies,
    )
    .unwrap();
    assert_eq!(res.nodes.len(), 1);
    assert_eq!(res.nodes[0].id.id, "a");
    assert_eq!(res.total, 2, "total reflects the unfiltered page");
    let denied = store
        .query_audit(None, Some("sensitive_read"), Some("query_nodes"), None, None, None, None)
        .unwrap();
    assert_eq!(denied.len(), 1);
}

#[test]
fn audit_csv_has_exact_header_and_rows() {
    let mut store = InMemoryStore::new();
    store
        .create_proposal(proposal("p-csv", ProposalStatus::Open, vec![]))
        .unwrap();
    handle_create_proposal(
        &mut store,
        &admin(),
        proposal("p-csv-2", ProposalStatus::Open, vec![]),
        &PolicyConfig { rules: vec![] },
    )
    .unwrap();
    let csv = handle_export_audit_csv(&store, &admin()).unwrap();
    let mut lines = csv.lines();
    assert_eq!(
        lines.next().unwrap(),
        "event_id,timestamp,actor_id,actor_type,action,resource_id,outcome"
    );
    let row = lines.next().unwrap();
    let fields: Vec<&str> = row.split(',').collect();
    assert_eq!(fields.len(), 7);
    assert_eq!(fields[2], "dev-user");
    assert_eq!(fields[3], "human");
    assert_eq!(fields[4], "proposal_created");
    assert_eq!(fields[5], "p-csv-2");
    assert_eq!(fields[6], "success");
    assert!(lines.next().is_none(), "one data row per audit event");
}

#[test]
fn audit_csv_empty_log_is_header_only() {
    let events = Vec::new();
    assert_eq!(
        audit_csv(&events),
        "event_id,timestamp,actor_id,actor_type,action,resource_id,outcome\n"
    );
}

#[test]
fn audit_survives_reset_through_the_endpoint() {
    let mut store = InMemoryStore::new();
    handle_dsar_erase(&mut store, &admin(), "someone").unwrap();
    handle_reset(&mut store, &admin()).unwrap();
    let events = store
        .query_audit(None, None, None, None, None, None, None)
        .unwrap();
    assert!(events.len() >= 2, "the erase record and the reset record both survive");
    assert!(store.get_proposal("anything").is_none());
}

#[test]
fn withdraw_terminal_proposal_via_endpoint_is_invalid() {
    let policies = PolicyConfig { rules: vec![] };
    let mut store = InMemoryStore::new();
    let op = Operation::Create { id: "op1".to_string(), order: 1, node: node("n1", "x", None) };
    store
        .create_proposal(proposal("p1", ProposalStatus::Accepted, vec![op]))
        .unwrap();
    handle_apply_proposal_at(&mut store, &admin(), "p1", None, &policies, 0, 12, "t").unwrap();
    let r = handle_withdraw_proposal(&mut store, &admin(), "p1");
    assert!(matches!(
        r,
        Err(ApiError::Store(truthlayer::store::StoreError::Invalid(_)))
    ));
}

#[test]
fn review_submission_folds_policy_decision() {
    let policies = PolicyConfig {
        rules: vec![PolicyRule::MinApprovals { node_types: vec![], min: 2 }],
    };
    let mut store = InMemoryStore::new();
    store
        .create_proposal(proposal("p1", ProposalStatus::Open, vec![]))
        .unwrap();
    let review = Review {
        id: "r1".to_string(),
        proposal_id: "p1".to_string(),
        reviewer: "rev".to_string(),
        reviewer_role: None,
        reviewed_at: "t".to_string(),
        action: ReviewAction::Accept,
        comment: None,
        comments: None,
        operation_ids: None,
        is_approval: None,
    };
    handle_submit_review(&mut store, &admin(), "p1", review, &policies).unwrap();
    // One accept is short of the two the policy demands: still accepted by
    // the immediate transition, not overridden by the policy hook.
    assert_eq!(store.get_proposal("p1").unwrap().status, ProposalStatus::Accepted);
    assert_eq!(store.get_review_history("p1").unwrap().len(), 1);
}

#[test]
fn review_mismatched_proposal_id_is_invalid() {
    let mut store = InMemoryStore::new();
    store
        .create_proposal(proposal("p-mismatch", ProposalStatus::Open, vec![]))
        .unwrap();
    let review = Review {
        id: "r1".to_string(),
        proposal_id: "wrong-id".to_string(),
        reviewer: "rev".to_string(),
        reviewer_role: None,
        reviewed_at: "t".to_string(),
        action: ReviewAction::Accept,
        comment: None,
        comments: None,
        operation_ids: None,
        is_approval: None,
    };
    let r = handle_submit_review(
        &mut store,
        &admin(),
        "p-mismatch",
        review,
        &PolicyConfig { rules: vec![] },
    );
    assert!(matches!(r, Err(ApiError::Invalid(_))));
}

#[test]
fn create_proposal_conflict_is_conflict_error() {
    let mut store = InMemoryStore::new();
    let policies = PolicyConfig { rules: vec![] };
    handle_create_proposal(&mut store, &admin(), proposal("dup", ProposalStatus::Open, vec![]), &policies)
        .unwrap();
    let r = handle_create_proposal(
        &mut store,
        &admin(),
        proposal("dup", ProposalStatus::Open, vec![]),
        &policies,
    );
    assert!(matches!(
        r,
        Err(ApiError::Store(truthlayer::store::StoreError::Conflict(_)))
    ));
}

#[test]
fn list_proposals_pages_past_fifty() {
    let mut store = InMemoryStore::new();
    for k in 0..55u32 {
        store
            .create_proposal(proposal(&format!("open{}", k), ProposalStatus::Open, vec![]))
            .unwrap();
    }
    let first = truthlayer::mediator::handle_list_proposals(&store, &admin(), None, None).unwrap();
    assert_eq!(first.total, 55);
    assert_eq!(first.proposals.len(), 50, "the default page size is fifty");
    assert!(first.has_more);
    let second =
        truthlayer::mediator::handle_list_proposals(&store, &admin(), Some(50), Some(50)).unwrap();
    assert_eq!(second.proposals.len(), 5);
    assert!(!second.has_more);
}

#[test]
fn reader_cannot_reset() {
    let mut store = InMemoryStore::new();
    let reader = ActorContext {
        actor_id: "r".to_string(),
        actor_type: ActorType::Human,
        roles: vec![Role::Reader],
    };
    let r = handle_reset(&mut store, &reader);
    assert!(matches!(r, Err(ApiError::Forbidden(_))));
    let events = store
        .query_audit(None, None, None, None, None, None, None)
        .unwrap();
    assert_eq!(events.len(), 1);
    assert_eq!(events[0].outcome, truthlayer::audit::AuditOutcome::Denied);
}

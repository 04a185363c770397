//! The policy engine's three hooks and the agent sensitivity ceiling.

use truthlayer::node::{ContextNode, NodeId, NodeMetadata, NodeStatus, NodeType};
use truthlayer::policy::{
    PolicyConfig, PolicyRule, agent_max_sensitivity, check_agent_restricted_node_modification,
    evaluate_on_apply, evaluate_on_create, evaluate_on_review,
};
use truthlayer::proposal::{Operation, Proposal, ProposalMetadata, ProposalStatus, Review, ReviewAction};
use truthlayer::sensitivity::Sensitivity;

fn meta() -> NodeMetadata {
    NodeMetadata {
        created_at: "t".to_string(),
        created_by: "t".to_string(),
        modified_at: "t".to_string(),
        modified_by: "t".to_string(),
        tags: None,
        implemented_in_commit: None,
        referenced_in_commits: None,
        version: 1,
        sensitivity: None,
        content_hash: None,
        source_attribution: None,
        ip_classification: None,
        license: None,
    }
}

fn node(id: &str, content: &str) -> ContextNode {
    ContextNode {
        id: NodeId { id: id.to_string(), namespace: None },
        node_type: NodeType::Goal,
        status: NodeStatus::Accepted,
        title: None,
        description: None,
        content: content.to_string(),
        text_range: None,
        metadata: meta(),
        relationships: None,
        relations: None,
        referenced_by: None,
        source_files: None,
        decision: None,
        rationale: None,
        alternatives: None,
        decided_at: None,
        state: None,
        assignee: None,
        due_date: None,
        dependencies: None,
        severity: None,
        likelihood: None,
        mitigation: None,
        question: None,
        answer: None,
        answered_at: None,
        constraint: None,
        reason: None,
    }
}

fn empty_proposal() -> Proposal {
    Proposal {
        id: "p-test".to_string(),
        status: ProposalStatus::Open,
        operations: vec![],
        metadata: ProposalMetadata {
            created_at: "t".to_string(),
            created_by: "t".to_string(),
            modified_at: "t".to_string(),
            modified_by: "t".to_string(),
            rationale: None,
            required_approvers: None,
            approved_by: None,
            base_versions: None,
        },
        comments: None,
        relations: None,
        applied: None,
    }
}

fn create_op(op_id: &str, order: u32, n: ContextNode) -> Operation {
    Operation::Create { id: op_id.to_string(), order, node: n }
}

#[test]
fn agent_max_sensitivity_default_is_internal() {
    let policies = PolicyConfig::default();
    assert_eq!(agent_max_sensitivity(&policies), Sensitivity::Internal);
}

#[test]
fn agent_max_sensitivity_from_egress_control() {
    let policies = PolicyConfig {
        rules: vec![PolicyRule::EgressControl {
            max_sensitivity: Sensitivity::Confidential,
            destinations: vec![],
        }],
    };
    assert_eq!(agent_max_sensitivity(&policies), Sensitivity::Confidential);
}

#[test]
fn evaluate_on_create_agent_size_limit() {
    let policies = PolicyConfig {
        rules: vec![PolicyRule::AgentProposalLimit {
            max_operations: 1,
            max_content_length: 10,
        }],
    };
    let mut proposal = empty_proposal();
    proposal.operations = vec![
        create_op("op1", 1, node("n1", "short")),
        create_op("op2", 2, node("n2", "short")),
    ];
    let violations = evaluate_on_create(&proposal, "agent", &policies);
    assert!(!violations.is_empty(), "should reject agent: too many operations");
    assert!(violations.iter().any(|v| v.rule == "agent_proposal_limit"));
}

#[test]
fn agent_content_limit_counts_bytes() {
    let policies = PolicyConfig {
        rules: vec![PolicyRule::AgentProposalLimit {
            max_operations: 10,
            max_content_length: 5,
        }],
    };
    // Five characters, six UTF-8 bytes: the byte cap of five is exceeded.
    let mut proposal = empty_proposal();
    proposal.operations = vec![create_op("op1", 1, node("n1", "h\u{e9}llo"))];
    let violations = evaluate_on_create(&proposal, "agent", &policies);
    assert!(violations.iter().any(|v| v.rule == "agent_proposal_limit"));

    // Five ASCII characters are five bytes: at the cap, allowed.
    let mut ok = empty_proposal();
    ok.operations = vec![create_op("op1", 1, node("n1", "hello"))];
    let violations = evaluate_on_create(&ok, "agent", &policies);
    assert!(violations.is_empty());
}

#[test]
fn evaluate_on_create_human_bypasses_agent_limits() {
    let policies = PolicyConfig {
        rules: vec![PolicyRule::AgentProposalLimit {
            max_operations: 0,
            max_content_length: 0,
        }],
    };
    let proposal = empty_proposal();
    let violations = evaluate_on_create(&proposal, "human", &policies);
    assert!(violations.is_empty(), "human should not be affected by agent limits");
}

#[test]
fn evaluate_on_apply_change_window_blocks() {
    let policies = PolicyConfig {
        rules: vec![PolicyRule::ChangeWindow {
            allowed_days: vec![],
            allowed_hour_start: 0,
            allowed_hour_end: 0,
        }],
    };
    let proposal = empty_proposal();
    let violations = evaluate_on_apply(&proposal, "human", &policies);
    assert!(!violations.is_empty(), "should block apply outside change window");
}

#[test]
fn evaluate_on_apply_agent_restriction() {
    let policies = PolicyConfig {
        rules: vec![PolicyRule::AgentRestriction {
            blocked_actions: vec!["apply".to_string()],
        }],
    };
    let proposal = empty_proposal();
    let violations = evaluate_on_apply(&proposal, "agent", &policies);
    assert!(!violations.is_empty(), "agent should be blocked from applying");
    assert!(violations.iter().any(|v| v.rule == "agent_restriction"));
    assert!(violations.iter().any(|v| v.message == "agents cannot apply proposals"));
}

#[test]
fn check_agent_restricted_node_modification_blocks_high_sensitivity() {
    let policies = PolicyConfig {
        rules: vec![PolicyRule::EgressControl {
            max_sensitivity: Sensitivity::Internal,
            destinations: vec![],
        }],
    };
    let mut restricted = node("restricted-node", "secret");
    restricted.metadata.sensitivity = Some(Sensitivity::Restricted);
    let mut proposal = empty_proposal();
    proposal.operations = vec![create_op("op1", 1, restricted)];
    let violations = check_agent_restricted_node_modification(&proposal, "agent", &policies);
    assert!(
        !violations.is_empty(),
        "agent should be blocked from modifying restricted nodes"
    );
    assert!(violations.iter().any(|v| v.rule == "agent_restricted_modification"));

    let human_violations =
        check_agent_restricted_node_modification(&proposal, "human", &policies);
    assert!(human_violations.is_empty(), "human should not be restricted");
}

#[test]
fn review_decision_needs_enough_accepts() {
    let policies = PolicyConfig {
        rules: vec![PolicyRule::MinApprovals { node_types: vec![], min: 2 }],
    };
    let proposal = empty_proposal();
    let accept = |id: &str| Review {
        id: id.to_string(),
        proposal_id: "p-test".to_string(),
        reviewer: "r".to_string(),
        reviewer_role: None,
        reviewed_at: "t".to_string(),
        action: ReviewAction::Accept,
        comment: None,
        comments: None,
        operation_ids: None,
        is_approval: None,
    };
    let one = vec![accept("r1")];
    let (decision, violations) = evaluate_on_review(&proposal, &one, &policies);
    assert_eq!(decision, None, "one accept is not enough for min 2");
    assert!(violations.is_empty());

    let two = vec![accept("r1"), accept("r2")];
    let (decision, _) = evaluate_on_review(&proposal, &two, &policies);
    assert_eq!(decision, Some(ProposalStatus::Accepted));
}

#[test]
fn review_rejection_dominates() {
    let policies = PolicyConfig::default();
    let proposal = empty_proposal();
    let review = |id: &str, action: ReviewAction| Review {
        id: id.to_string(),
        proposal_id: "p-test".to_string(),
        reviewer: "r".to_string(),
        reviewer_role: None,
        reviewed_at: "t".to_string(),
        action,
        comment: None,
        comments: None,
        operation_ids: None,
        is_approval: None,
    };
    let reviews = vec![
        review("r1", ReviewAction::Accept),
        review("r2", ReviewAction::Reject),
        review("r3", ReviewAction::Accept),
    ];
    let (decision, _) = evaluate_on_review(&proposal, &reviews, &policies);
    assert_eq!(decision, Some(ProposalStatus::Rejected));
}

#[test]
fn required_reviewer_role_gates_acceptance() {
    let policies = PolicyConfig {
        rules: vec![PolicyRule::RequiredReviewerRole {
            node_types: vec![],
            role: "security".to_string(),
        }],
    };
    let proposal = empty_proposal();
    let accept_with = |id: &str, role: Option<&str>| Review {
        id: id.to_string(),
        proposal_id: "p-test".to_string(),
        reviewer: "r".to_string(),
        reviewer_role: role.map(|s| s.to_string()),
        reviewed_at: "t".to_string(),
        action: ReviewAction::Accept,
        comment: None,
        comments: None,
        operation_ids: None,
        is_approval: None,
    };
    let plain = vec![accept_with("r1", None)];
    let (decision, violations) = evaluate_on_review(&proposal, &plain, &policies);
    assert_eq!(decision, None);
    assert!(violations.iter().any(|v| v.rule == "required_reviewer_role"));

    let with_role = vec![accept_with("r1", Some("security"))];
    let (decision, violations) = evaluate_on_review(&proposal, &with_role, &policies);
    assert_eq!(decision, Some(ProposalStatus::Accepted));
    assert!(violations.is_empty());
}

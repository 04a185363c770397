//! The audit event model: the unit of the immutable, append-only log of
//! every governance decision.

use vstd::prelude::*;

use crate::support::clone_opt_string;

verus! {

/// The actions recorded in the audit log.
#[derive(Debug, Clone, Copy, PartialEq, Eq, Structural)]
pub enum AuditAction {
    ProposalCreated,
    ProposalUpdated,
    ReviewSubmitted,
    ProposalApplied,
    ProposalWithdrawn,
    NodeCreated,
    NodeUpdated,
    NodeDeleted,
    RoleChanged,
    PolicyEvaluated,
    StoreReset,
    /// An agent read of sensitive content.
    SensitiveRead,
}

impl DeepView for AuditAction {
    type V = AuditAction;

    open spec fn deep_view(&self) -> AuditAction {
        *self
    }
}

/// The snake_case name of an audit action, as exported.
pub open spec fn audit_action_name(a: AuditAction) -> Seq<char> {
    match a {
        AuditAction::ProposalCreated => "proposal_created"@,
        AuditAction::ProposalUpdated => "proposal_updated"@,
        AuditAction::ReviewSubmitted => "review_submitted"@,
        AuditAction::ProposalApplied => "proposal_applied"@,
        AuditAction::ProposalWithdrawn => "proposal_withdrawn"@,
        AuditAction::NodeCreated => "node_created"@,
        AuditAction::NodeUpdated => "node_updated"@,
        AuditAction::NodeDeleted => "node_deleted"@,
        AuditAction::RoleChanged => "role_changed"@,
        AuditAction::PolicyEvaluated => "policy_evaluated"@,
        AuditAction::StoreReset => "store_reset"@,
        AuditAction::SensitiveRead => "sensitive_read"@,
    }
}

impl AuditAction {
    /// The action's snake_case name.
    pub fn as_str(&self) -> (r: &'static str)
        ensures
            r@ == audit_action_name(*self),
    {
        match self {
            AuditAction::ProposalCreated => "proposal_created",
            AuditAction::ProposalUpdated => "proposal_updated",
            AuditAction::ReviewSubmitted => "review_submitted",
            AuditAction::ProposalApplied => "proposal_applied",
            AuditAction::ProposalWithdrawn => "proposal_withdrawn",
            AuditAction::NodeCreated => "node_created",
            AuditAction::NodeUpdated => "node_updated",
            AuditAction::NodeDeleted => "node_deleted",
            AuditAction::RoleChanged => "role_changed",
            AuditAction::PolicyEvaluated => "policy_evaluated",
            AuditAction::StoreReset => "store_reset",
            AuditAction::SensitiveRead => "sensitive_read",
        }
    }
}

/// Outcome of an audited action.
#[derive(Debug, Clone, Copy, PartialEq, Eq, Structural)]
pub enum AuditOutcome {
    Success,
    Denied,
    PolicyViolation,
    Error,
}

impl DeepView for AuditOutcome {
    type V = AuditOutcome;

    open spec fn deep_view(&self) -> AuditOutcome {
        *self
    }
}

/// The snake_case name of an audit outcome, as exported.
pub open spec fn audit_outcome_name(o: AuditOutcome) -> Seq<char> {
    match o {
        AuditOutcome::Success => "success"@,
        AuditOutcome::Denied => "denied"@,
        AuditOutcome::PolicyViolation => "policy_violation"@,
        AuditOutcome::Error => "error"@,
    }
}

impl AuditOutcome {
    /// The outcome's snake_case name.
    pub fn as_str(&self) -> (r: &'static str)
        ensures
            r@ == audit_outcome_name(*self),
    {
        match self {
            AuditOutcome::Success => "success",
            AuditOutcome::Denied => "denied",
            AuditOutcome::PolicyViolation => "policy_violation",
            AuditOutcome::Error => "error",
        }
    }
}

/// A single event of the immutable audit log.
pub struct AuditEvent {
    pub event_id: String,
    pub timestamp: String,
    pub actor_id: String,
    pub actor_type: String,
    pub action: AuditAction,
    pub resource_id: String,
    pub workspace_id: Option<String>,
    /// Structured detail, kept as raw JSON text.
    pub details: Option<String>,
    pub outcome: AuditOutcome,
}

/// Mathematical view of an `AuditEvent`.
pub ghost struct AuditEventView {
    pub event_id: Seq<char>,
    pub timestamp: Seq<char>,
    pub actor_id: Seq<char>,
    pub actor_type: Seq<char>,
    pub action: AuditAction,
    pub resource_id: Seq<char>,
    pub workspace_id: Option<Seq<char>>,
    pub details: Option<Seq<char>>,
    pub outcome: AuditOutcome,
}

impl DeepView for AuditEvent {
    type V = AuditEventView;

    open spec fn deep_view(&self) -> AuditEventView {
        AuditEventView {
            event_id: self.event_id.deep_view(),
            timestamp: self.timestamp.deep_view(),
            actor_id: self.actor_id.deep_view(),
            actor_type: self.actor_type.deep_view(),
            action: self.action,
            resource_id: self.resource_id.deep_view(),
            workspace_id: self.workspace_id.deep_view(),
            details: self.details.deep_view(),
            outcome: self.outcome,
        }
    }
}

impl Clone for AuditEvent {
    /// The copy has the same view as the original.
    fn clone(&self) -> (r: Self)
        ensures
            r.deep_view() == self.deep_view(),
    {
        AuditEvent {
            event_id: self.event_id.clone(),
            timestamp: self.timestamp.clone(),
            actor_id: self.actor_id.clone(),
            actor_type: self.actor_type.clone(),
            action: self.action,
            resource_id: self.resource_id.clone(),
            workspace_id: clone_opt_string(&self.workspace_id),
            details: clone_opt_string(&self.details),
            outcome: self.outcome,
        }
    }
}

/// Relies on `uuid::Uuid::new_v4` and its `Display`: a fresh random v4 UUID
/// in the hyphenated form, which is 36 characters long. The value depends on
/// the process's randomness source.
#[verifier::external_body]
fn uuid_v4_string() -> (r: String)
    ensures
        r@.len() == 36,
{
    uuid::Uuid::new_v4().to_string()
}

impl AuditEvent {
    /// Builds an audit event with a fresh event id and the current
    /// timestamp. Every recorded field equals the given argument; the id and
    /// timestamp come from the process environment and are not pinned.
    pub fn new(
        actor_id: &str,
        actor_type: &str,
        action: AuditAction,
        resource_id: &str,
        outcome: AuditOutcome,
    ) -> (r: AuditEvent)
        ensures
            r.actor_id@ == actor_id@,
            r.actor_type@ == actor_type@,
            r.action == action,
            r.resource_id@ == resource_id@,
            r.outcome == outcome,
            r.workspace_id is None,
            r.details is None,
            r.event_id@.len() == 36,
    {
        AuditEvent {
            event_id: uuid_v4_string(),
            timestamp: crate::clock::now_rfc3339(),
            actor_id: actor_id.to_owned(),
            actor_type: actor_type.to_owned(),
            action,
            resource_id: resource_id.to_owned(),
            workspace_id: Option::None,
            details: Option::None,
            outcome,
        }
    }

    /// The same event with the given detail text attached.
    pub fn with_details(self, details: String) -> (r: AuditEvent)
        ensures
            r.deep_view() == (AuditEventView { details: Some(details@), ..self.deep_view() }),
    {
        AuditEvent { details: Option::Some(details), ..self }
    }
}

} // verus!

//! Retention policy shapes: rules for data lifecycle management. The
//! periodic task that enforces them is scheduling plumbing and lives
//! outside the library; it records one audit event per rule checked.

use vstd::prelude::*;

use crate::audit::{AuditAction, AuditEvent, AuditOutcome};
use vstd::string::StringExecFns;

verus! {

/// What to do when a retention period expires.
#[derive(Debug, Clone, Copy, PartialEq, Eq, Structural)]
pub enum RetentionAction {
    Archive,
    Delete,
}

/// One retention rule.
pub struct RetentionRule {
    /// Resource type: `proposal`, `audit` or `node`.
    pub resource_type: String,
    /// Days to retain.
    pub retention_days: u32,
    /// What to do when retention expires.
    pub action: RetentionAction,
}

/// The retention configuration: rules, and how often to check them.
pub struct RetentionConfig {
    pub rules: Vec<RetentionRule>,
    /// Seconds between retention checks.
    pub check_interval_secs: u64,
}

/// The interval between retention checks when the configuration names
/// none: one hour.
pub fn default_interval() -> (r: u64)
    ensures
        r == 3600,
{
    3600
}

/// The audit event a retention check records for one rule.
pub fn retention_check_event(rule: &RetentionRule) -> (r: AuditEvent)
    ensures
        r.actor_id@ == "system"@,
        r.actor_type@ == "system"@,
        r.action == AuditAction::PolicyEvaluated,
        r.resource_id@ == "retention:"@ + rule.resource_type@,
        r.outcome == AuditOutcome::Success,
{
    let mut resource = "retention:".to_owned();
    resource.append(rule.resource_type.as_str());
    AuditEvent::new("system", "system", AuditAction::PolicyEvaluated, resource.as_str(), AuditOutcome::Success)
}

} // verus!

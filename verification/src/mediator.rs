//! The request mediator: per-endpoint orchestration. Every mutating
//! request runs the same skeleton — RBAC, then policy, then the store,
//! then exactly one audit event recording how it went; reads by agents
//! pass the sensitivity gate.

use vstd::prelude::*;
use vstd::string::StringExecFns;

use crate::audit::{AuditAction, AuditEvent, AuditEventView, AuditOutcome, audit_action_name, audit_outcome_name};
use crate::auth::{ActorContext, ActorContextView, ActorType, Role, actor_type_name, actor_type_str, roles_grant};
use crate::node::{ContextNode, NodeId, NodeStatus, NodeType, NodeView, key_of};
use crate::policy::{PolicyConfig, PolicyRuleView, PolicyViolation, PolicyViolationView, agent_max_sensitivity, agent_max_sensitivity_spec, create_violations_spec, evaluate_on_create, evaluate_on_apply_at, apply_violations_spec, evaluate_on_review, review_decision_spec};
use crate::proposal::{Proposal, ProposalPatch, ProposalStatus, ProposalView, Review, ReviewAction, ReviewView};
use crate::store::reviews_for;
use crate::rbac::{Forbidden, reject_agent, require_role};
use crate::sensitivity::{Sensitivity, sensitivity_rank};
use crate::store::{InMemoryStore, StoreError, StoreErrorView, StoreView, lookup_node, lookup_proposal, store_wf};
use crate::text::str_eq;

verus! {

broadcast use vstd::string::group_string_axioms;

/// An error a request ends in, one variant per response class.
#[derive(Debug)]
pub enum ApiError {
    NotFound(String),
    Invalid(String),
    Store(StoreError),
    Forbidden(Forbidden),
    PolicyViolation(Vec<PolicyViolation>),
}

/// Mathematical view of an `ApiError`.
pub ghost enum ApiErrorView {
    NotFound(Seq<char>),
    Invalid(Seq<char>),
    Store(StoreErrorView),
    Forbidden(Seq<char>),
    PolicyViolation(Seq<PolicyViolationView>),
}

impl DeepView for ApiError {
    type V = ApiErrorView;

    open spec fn deep_view(&self) -> ApiErrorView {
        match self {
            ApiError::NotFound(m) => ApiErrorView::NotFound(m.deep_view()),
            ApiError::Invalid(m) => ApiErrorView::Invalid(m.deep_view()),
            ApiError::Store(e) => ApiErrorView::Store(e.deep_view()),
            ApiError::Forbidden(f) => ApiErrorView::Forbidden(f.deep_view()),
            ApiError::PolicyViolation(v) => ApiErrorView::PolicyViolation(v.deep_view()),
        }
    }
}

/// The two stores differ only in their audit log.
pub open spec fn same_but_audit(s1: StoreView, s2: StoreView) -> bool {
    &&& s2.nodes == s1.nodes
    &&& s2.proposals == s1.proposals
    &&& s2.reviews == s1.reviews
    &&& s2.revision == s1.revision
}

/// Whether an audit event records this actor, action, resource and
/// outcome. (An event's id and timestamp come from the process
/// environment.)
pub open spec fn audit_event_matches(
    e: AuditEventView,
    actor: ActorContextView,
    action: AuditAction,
    resource: Seq<char>,
    outcome: AuditOutcome,
) -> bool {
    &&& e.actor_id == actor.actor_id
    &&& e.actor_type == actor_type_name(actor.actor_type)
    &&& e.action == action
    &&& e.resource_id == resource
    &&& e.outcome == outcome
}

/// The audit log grew by exactly one event, recording this actor, action,
/// resource and outcome.
pub open spec fn audit_extended(
    old_audit: Seq<AuditEventView>,
    new_audit: Seq<AuditEventView>,
    actor: ActorContextView,
    action: AuditAction,
    resource: Seq<char>,
    outcome: AuditOutcome,
) -> bool {
    &&& new_audit.len() == old_audit.len() + 1
    &&& new_audit.take(old_audit.len() as int) == old_audit
    &&& audit_event_matches(new_audit.last(), actor, action, resource, outcome)
}

/// Appends one audit event for this request, with optional detail text.
fn record(
    store: &mut InMemoryStore,
    actor: &ActorContext,
    action: AuditAction,
    resource: &str,
    outcome: AuditOutcome,
    details: Option<String>,
)
    ensures
        same_but_audit(old(store)@, final(store)@),
        audit_extended(
            old(store)@.audit,
            final(store)@.audit,
            actor.deep_view(),
            action,
            resource@,
            outcome,
        ),
        final(store)@.audit.last().details == details.deep_view(),
        store_wf(old(store)@) ==> store_wf(final(store)@),
{
    let event = AuditEvent::new(
        actor.actor_id.as_str(),
        actor_type_str(actor.actor_type),
        action,
        resource,
        outcome,
    );
    let event = match details {
        Option::Some(d) => event.with_details(d),
        Option::None => event,
    };
    let r = store.append_audit(event);
    proof {
        assert(final(store)@.audit.take(old(store)@.audit.len() as int) =~= old(store)@.audit);
        let _ = r;
    }
}

/// The rule names of a violation list, comma-separated.
pub open spec fn rules_joined(vs: Seq<PolicyViolationView>) -> Seq<char>
    decreases vs.len(),
{
    if vs.len() == 0 {
        Seq::empty()
    } else if vs.len() == 1 {
        vs[0].rule
    } else {
        vs[0].rule + ","@ + rules_joined(vs.drop_first())
    }
}

/// Writes the rule names of a violation list, comma-separated.
fn join_rules(vs: &Vec<PolicyViolation>) -> (r: String)
    ensures
        r@ == rules_joined(vs.deep_view()),
{
    let mut out = String::new();
    let mut i: usize = 0;
    proof {
        assert(vs.deep_view().skip(0) =~= vs.deep_view());
        assert(out@ =~= Seq::<char>::empty());
        if vs.deep_view().len() == 0 {
            assert(rules_joined(vs.deep_view()) == Seq::<char>::empty());
        } else {
            assert(out@ + rules_joined(vs.deep_view()) =~= rules_joined(vs.deep_view()));
        }
    }
    while i < vs.len()
        invariant
            i <= vs.len(),
            i < vs.len() ==> rules_joined(vs.deep_view()) == out@ + rules_joined(
                vs.deep_view().skip(i as int),
            ),
            i == vs.len() ==> rules_joined(vs.deep_view()) == out@,
        decreases vs.len() - i,
    {
        proof {
            let rest = vs.deep_view().skip(i as int);
            assert(rest[0] == vs.deep_view()[i as int]);
            assert(vs.deep_view()[i as int] == vs@[i as int].deep_view());
            assert(rest.drop_first() =~= vs.deep_view().skip(i as int + 1));
        }
        out.append(vs[i].rule.as_str());
        if i + 1 < vs.len() {
            out.append(",");
            proof {
                reveal_strlit(",");
                assert(","@ =~= seq![',']);
                assert(out@ + rules_joined(vs.deep_view().skip(i as int + 1)) =~= rules_joined(
                    vs.deep_view(),
                ));
            }
        } else {
            proof {
                assert(out@ =~= rules_joined(vs.deep_view()));
            }
        }
        i = i + 1;
    }
    out
}

/// Creates a proposal: contributors and up, gated by the create-time
/// policy hook; exactly one audit event records how it went.
pub fn handle_create_proposal(
    store: &mut InMemoryStore,
    actor: &ActorContext,
    proposal: Proposal,
    policies: &PolicyConfig,
) -> (r: Result<(), ApiError>)
    requires
        store_wf(old(store)@),
    ensures
        store_wf(final(store)@),
        same_but_audit(old(store)@, final(store)@) || (final(store)@.nodes == old(store)@.nodes
            && final(store)@.reviews == old(store)@.reviews && final(store)@.revision == old(store)@.revision),
        ({
            let a = actor.deep_view();
            let pv = proposal.deep_view();
            let violations = create_violations_spec(
                pv,
                actor_type_name(a.actor_type),
                policies.deep_view(),
            );
            if !roles_grant(a.roles, Role::Contributor) {
                (r matches Err(e) && e.deep_view() matches ApiErrorView::Forbidden(_))
                    && same_but_audit(old(store)@, final(store)@) && audit_extended(
                    old(store)@.audit,
                    final(store)@.audit,
                    a,
                    AuditAction::ProposalCreated,
                    pv.id,
                    AuditOutcome::Denied,
                )
            } else if violations.len() > 0 {
                (r matches Err(e) && e.deep_view() == ApiErrorView::PolicyViolation(violations))
                    && same_but_audit(old(store)@, final(store)@) && audit_extended(
                    old(store)@.audit,
                    final(store)@.audit,
                    a,
                    AuditAction::PolicyEvaluated,
                    pv.id,
                    AuditOutcome::PolicyViolation,
                )
            } else if lookup_proposal(old(store)@.proposals, pv.id) is Some {
                (r matches Err(e) && e.deep_view() matches ApiErrorView::Store(
                    StoreErrorView::Conflict(_),
                )) && same_but_audit(old(store)@, final(store)@) && audit_extended(
                    old(store)@.audit,
                    final(store)@.audit,
                    a,
                    AuditAction::ProposalCreated,
                    pv.id,
                    AuditOutcome::Error,
                )
            } else if pv.status == ProposalStatus::Applied {
                (r matches Err(e) && e.deep_view() matches ApiErrorView::Store(
                    StoreErrorView::Invalid(_),
                )) && same_but_audit(old(store)@, final(store)@) && audit_extended(
                    old(store)@.audit,
                    final(store)@.audit,
                    a,
                    AuditAction::ProposalCreated,
                    pv.id,
                    AuditOutcome::Error,
                )
            } else {
                r is Ok && final(store)@.proposals == old(store)@.proposals.push(pv) && final(store)@.nodes == old(store)@.nodes && final(store)@.reviews == old(store)@.reviews
                    && final(store)@.revision == old(store)@.revision && audit_extended(
                    old(store)@.audit,
                    final(store)@.audit,
                    a,
                    AuditAction::ProposalCreated,
                    pv.id,
                    AuditOutcome::Success,
                )
            }
        }),
{
    let id = proposal.id.clone();
    match require_role(actor, Role::Contributor) {
        Result::Err(f) => {
            record(
                store,
                actor,
                AuditAction::ProposalCreated,
                id.as_str(),
                AuditOutcome::Denied,
                Option::None,
            );
            return Err(ApiError::Forbidden(f));
        },
        Result::Ok(_) => {},
    }
    let violations = evaluate_on_create(&proposal, actor_type_str(actor.actor_type), policies);
    if violations.len() > 0 {
        let details = join_rules(&violations);
        record(
            store,
            actor,
            AuditAction::PolicyEvaluated,
            id.as_str(),
            AuditOutcome::PolicyViolation,
            Option::Some(details),
        );
        proof {
            assert(violations.deep_view().len() > 0);
        }
        return Err(ApiError::PolicyViolation(violations));
    }
    proof {
        assert(violations.deep_view().len() == 0);
    }
    match store.create_proposal(proposal) {
        Result::Err(e) => {
            record(
                store,
                actor,
                AuditAction::ProposalCreated,
                id.as_str(),
                AuditOutcome::Error,
                Option::None,
            );
            Err(ApiError::Store(e))
        },
        Result::Ok(_) => {
            record(
                store,
                actor,
                AuditAction::ProposalCreated,
                id.as_str(),
                AuditOutcome::Success,
                Option::None,
            );
            Ok(())
        },
    }
}

/// Withdraws a proposal: contributors and up, legal only while it is
/// open; exactly one audit event records how it went.
pub fn handle_withdraw_proposal(
    store: &mut InMemoryStore,
    actor: &ActorContext,
    proposal_id: &str,
) -> (r: Result<(), ApiError>)
    requires
        store_wf(old(store)@),
    ensures
        store_wf(final(store)@),
        ({
            let a = actor.deep_view();
            if !roles_grant(a.roles, Role::Contributor) {
                (r matches Err(e) && e.deep_view() matches ApiErrorView::Forbidden(_))
                    && same_but_audit(old(store)@, final(store)@) && audit_extended(
                    old(store)@.audit,
                    final(store)@.audit,
                    a,
                    AuditAction::ProposalWithdrawn,
                    proposal_id@,
                    AuditOutcome::Denied,
                )
            } else {
                match lookup_proposal(old(store)@.proposals, proposal_id@) {
                    None => (r matches Err(e) && e.deep_view() matches ApiErrorView::Store(
                        StoreErrorView::NotFound(_),
                    )) && same_but_audit(old(store)@, final(store)@) && audit_extended(
                        old(store)@.audit,
                        final(store)@.audit,
                        a,
                        AuditAction::ProposalWithdrawn,
                        proposal_id@,
                        AuditOutcome::Error,
                    ),
                    Some(p) => {
                        if p.status != ProposalStatus::Open {
                            (r matches Err(e) && e.deep_view() matches ApiErrorView::Store(
                                StoreErrorView::Invalid(_),
                            )) && same_but_audit(old(store)@, final(store)@) && audit_extended(
                                old(store)@.audit,
                                final(store)@.audit,
                                a,
                                AuditAction::ProposalWithdrawn,
                                proposal_id@,
                                AuditOutcome::Error,
                            )
                        } else {
                            r is Ok && lookup_proposal(final(store)@.proposals, proposal_id@)
                                == Some(
                                (ProposalView { status: ProposalStatus::Withdrawn, ..p }),
                            ) && final(store)@.nodes == old(store)@.nodes && final(store)@.reviews
                                == old(store)@.reviews && final(store)@.revision == old(store)@.revision && audit_extended(
                                old(store)@.audit,
                                final(store)@.audit,
                                a,
                                AuditAction::ProposalWithdrawn,
                                proposal_id@,
                                AuditOutcome::Success,
                            )
                        }
                    },
                }
            }
        }),
{
    match require_role(actor, Role::Contributor) {
        Result::Err(f) => {
            record(
                store,
                actor,
                AuditAction::ProposalWithdrawn,
                proposal_id,
                AuditOutcome::Denied,
                Option::None,
            );
            return Err(ApiError::Forbidden(f));
        },
        Result::Ok(_) => {},
    }
    match store.withdraw_proposal(proposal_id) {
        Result::Err(e) => {
            record(
                store,
                actor,
                AuditAction::ProposalWithdrawn,
                proposal_id,
                AuditOutcome::Error,
                Option::None,
            );
            Err(ApiError::Store(e))
        },
        Result::Ok(_) => {
            proof {
                crate::support::lemma_first_idx(
                    old(store)@.proposals,
                    |pv: ProposalView| pv.id == proposal_id@,
                );
                let i = crate::store::proposal_idx(old(store)@.proposals, proposal_id@).unwrap();
                crate::support::lemma_first_idx_same_pred(
                    old(store)@.proposals,
                    store@.proposals,
                    |pv: ProposalView| pv.id == proposal_id@,
                );
            }
            record(
                store,
                actor,
                AuditAction::ProposalWithdrawn,
                proposal_id,
                AuditOutcome::Success,
                Option::None,
            );
            Ok(())
        },
    }
}

/// Clears the store: admins only. The audit log survives, gaining the
/// reset event itself.
pub fn handle_reset(store: &mut InMemoryStore, actor: &ActorContext) -> (r: Result<(), ApiError>)
    requires
        store_wf(old(store)@),
    ensures
        store_wf(final(store)@),
        ({
            let a = actor.deep_view();
            if !roles_grant(a.roles, Role::Admin) {
                (r matches Err(e) && e.deep_view() matches ApiErrorView::Forbidden(_))
                    && same_but_audit(old(store)@, final(store)@) && audit_extended(
                    old(store)@.audit,
                    final(store)@.audit,
                    a,
                    AuditAction::StoreReset,
                    "store"@,
                    AuditOutcome::Denied,
                )
            } else {
                r is Ok && final(store)@.nodes.len() == 0 && final(store)@.proposals.len() == 0
                    && final(store)@.reviews.len() == 0 && final(store)@.revision == 0
                    && audit_extended(
                    old(store)@.audit,
                    final(store)@.audit,
                    a,
                    AuditAction::StoreReset,
                    "store"@,
                    AuditOutcome::Success,
                )
            }
        }),
{
    match require_role(actor, Role::Admin) {
        Result::Err(f) => {
            record(
                store,
                actor,
                AuditAction::StoreReset,
                "store",
                AuditOutcome::Denied,
                Option::None,
            );
            return Err(ApiError::Forbidden(f));
        },
        Result::Ok(_) => {},
    }
    let r = store.reset();
    proof {
        let _ = r;
    }
    record(store, actor, AuditAction::StoreReset, "store", AuditOutcome::Success, Option::None);
    Ok(())
}

/// Patches a proposal from a sparse document: contributors and up;
/// exactly one audit event records how it went.
pub fn handle_update_proposal(
    store: &mut InMemoryStore,
    actor: &ActorContext,
    proposal_id: &str,
    patch: ProposalPatch,
) -> (r: Result<(), ApiError>)
    requires
        store_wf(old(store)@),
    ensures
        store_wf(final(store)@),
        ({
            let a = actor.deep_view();
            let qv = patch.deep_view();
            if !roles_grant(a.roles, Role::Contributor) {
                (r matches Err(e) && e.deep_view() matches ApiErrorView::Forbidden(_))
                    && same_but_audit(old(store)@, final(store)@) && audit_extended(
                    old(store)@.audit,
                    final(store)@.audit,
                    a,
                    AuditAction::ProposalUpdated,
                    proposal_id@,
                    AuditOutcome::Denied,
                )
            } else {
                match lookup_proposal(old(store)@.proposals, proposal_id@) {
                    None => (r matches Err(e) && e.deep_view() matches ApiErrorView::Store(
                        StoreErrorView::NotFound(_),
                    )) && same_but_audit(old(store)@, final(store)@) && audit_extended(
                        old(store)@.audit,
                        final(store)@.audit,
                        a,
                        AuditAction::ProposalUpdated,
                        proposal_id@,
                        AuditOutcome::Error,
                    ),
                    Some(p) => match crate::store::patched_proposal(p, qv) {
                        None => (r matches Err(e) && e.deep_view() matches ApiErrorView::Store(
                            StoreErrorView::Invalid(_),
                        )) && same_but_audit(old(store)@, final(store)@) && audit_extended(
                            old(store)@.audit,
                            final(store)@.audit,
                            a,
                            AuditAction::ProposalUpdated,
                            proposal_id@,
                            AuditOutcome::Error,
                        ),
                        Some(p2) => r is Ok && lookup_proposal(
                            final(store)@.proposals,
                            proposal_id@,
                        ) == Some(p2) && final(store)@.nodes == old(store)@.nodes && final(store)@.reviews == old(store)@.reviews && final(store)@.revision == old(store)@.revision && audit_extended(
                            old(store)@.audit,
                            final(store)@.audit,
                            a,
                            AuditAction::ProposalUpdated,
                            proposal_id@,
                            AuditOutcome::Success,
                        ),
                    },
                }
            }
        }),
{
    match require_role(actor, Role::Contributor) {
        Result::Err(f) => {
            record(
                store,
                actor,
                AuditAction::ProposalUpdated,
                proposal_id,
                AuditOutcome::Denied,
                Option::None,
            );
            return Err(ApiError::Forbidden(f));
        },
        Result::Ok(_) => {},
    }
    match store.update_proposal(proposal_id, patch) {
        Result::Err(e) => {
            record(
                store,
                actor,
                AuditAction::ProposalUpdated,
                proposal_id,
                AuditOutcome::Error,
                Option::None,
            );
            Err(ApiError::Store(e))
        },
        Result::Ok(_) => {
            proof {
                crate::support::lemma_first_idx(
                    old(store)@.proposals,
                    |pv: ProposalView| pv.id == proposal_id@,
                );
                crate::support::lemma_first_idx_same_pred(
                    old(store)@.proposals,
                    store@.proposals,
                    |pv: ProposalView| pv.id == proposal_id@,
                );
            }
            record(
                store,
                actor,
                AuditAction::ProposalUpdated,
                proposal_id,
                AuditOutcome::Success,
                Option::None,
            );
            Ok(())
        },
    }
}

/// What a handled apply request guarantees, given the UTC weekday and
/// hour the policy window saw and the timestamp the apply carried: the
/// RBAC gates, the policy gate, the store transition, and the single
/// audit event recording the outcome.
pub open spec fn apply_handled(
    s0: StoreView,
    s1: StoreView,
    a: ActorContextView,
    proposal_id: Seq<char>,
    applied_by: Option<Seq<char>>,
    rules: Seq<PolicyRuleView>,
    weekday: u8,
    hour: u8,
    now: Seq<char>,
    r: Result<(), ApiError>,
) -> bool {
    let by = match applied_by {
        Some(b) => b,
        None => a.actor_id,
    };
    if !roles_grant(a.roles, Role::Applier) {
        (r matches Err(e) && e.deep_view() matches ApiErrorView::Forbidden(_)) && same_but_audit(
            s0,
            s1,
        ) && audit_extended(
            s0.audit,
            s1.audit,
            a,
            AuditAction::ProposalApplied,
            proposal_id,
            AuditOutcome::Denied,
        )
    } else if a.actor_type == ActorType::Agent {
        (r matches Err(e) && e.deep_view() matches ApiErrorView::Forbidden(_)) && same_but_audit(
            s0,
            s1,
        ) && audit_extended(
            s0.audit,
            s1.audit,
            a,
            AuditAction::ProposalApplied,
            proposal_id,
            AuditOutcome::Denied,
        )
    } else if lookup_proposal(s0.proposals, proposal_id) matches Some(p) && p.status
        == ProposalStatus::Applied {
        // Idempotent re-apply: succeed without touching anything, the
        // audit log included.
        r is Ok && s1 == s0
    } else {
        let violations = if lookup_proposal(s0.proposals, proposal_id) is Some {
            apply_violations_spec(actor_type_name(a.actor_type), rules, weekday, hour)
        } else {
            Seq::empty()
        };
        if violations.len() > 0 {
            (r matches Err(e) && e.deep_view() == ApiErrorView::PolicyViolation(violations))
                && same_but_audit(s0, s1) && audit_extended(
                s0.audit,
                s1.audit,
                a,
                AuditAction::PolicyEvaluated,
                proposal_id,
                AuditOutcome::PolicyViolation,
            )
        } else {
            match crate::store::apply_failure(s0, proposal_id, by, now) {
                None => r is Ok && same_but_audit(
                    crate::store::apply_post(s0, proposal_id, by, now),
                    s1,
                ) && audit_extended(
                    s0.audit,
                    s1.audit,
                    a,
                    AuditAction::ProposalApplied,
                    proposal_id,
                    AuditOutcome::Success,
                ),
                Some(_) => (r matches Err(e) && e.deep_view() matches ApiErrorView::Store(_))
                    && same_but_audit(s0, s1) && audit_extended(
                    s0.audit,
                    s1.audit,
                    a,
                    AuditAction::ProposalApplied,
                    proposal_id,
                    AuditOutcome::Error,
                ),
            }
        }
    }
}

/// Applies a proposal at the given policy-window instant and timestamp:
/// appliers and up, never agents, gated by the apply-time policy hook.
pub fn handle_apply_proposal_at(
    store: &mut InMemoryStore,
    actor: &ActorContext,
    proposal_id: &str,
    applied_by: Option<String>,
    policies: &PolicyConfig,
    weekday: u8,
    hour: u8,
    now: &str,
) -> (r: Result<(), ApiError>)
    requires
        store_wf(old(store)@),
    ensures
        store_wf(final(store)@),
        apply_handled(
            old(store)@,
            final(store)@,
            actor.deep_view(),
            proposal_id@,
            applied_by.deep_view(),
            policies.deep_view(),
            weekday,
            hour,
            now@,
            r,
        ),
{
    match require_role(actor, Role::Applier) {
        Result::Err(f) => {
            record(
                store,
                actor,
                AuditAction::ProposalApplied,
                proposal_id,
                AuditOutcome::Denied,
                Option::None,
            );
            return Err(ApiError::Forbidden(f));
        },
        Result::Ok(_) => {},
    }
    match reject_agent(actor, "apply proposal") {
        Result::Err(f) => {
            record(
                store,
                actor,
                AuditAction::ProposalApplied,
                proposal_id,
                AuditOutcome::Denied,
                Option::None,
            );
            return Err(ApiError::Forbidden(f));
        },
        Result::Ok(_) => {},
    }
    let known = match store.get_proposal(proposal_id) {
        Option::Some(p) => {
            if matches!(p.status, ProposalStatus::Applied) {
                return Ok(());
            }
            true
        },
        Option::None => false,
    };
    if known {
        let violations = evaluate_on_apply_at(
            actor_type_str(actor.actor_type),
            policies,
            weekday,
            hour,
        );
        if violations.len() > 0 {
            let details = join_rules(&violations);
            record(
                store,
                actor,
                AuditAction::PolicyEvaluated,
                proposal_id,
                AuditOutcome::PolicyViolation,
                Option::Some(details),
            );
            proof {
                assert(violations.deep_view().len() > 0);
            }
            return Err(ApiError::PolicyViolation(violations));
        }
        proof {
            assert(violations.deep_view().len() == 0);
        }
    }
    let by: String = match applied_by {
        Option::Some(b) => b,
        Option::None => actor.actor_id.clone(),
    };
    match store.apply_proposal_at(proposal_id, by.as_str(), now) {
        Result::Err(e) => {
            record(
                store,
                actor,
                AuditAction::ProposalApplied,
                proposal_id,
                AuditOutcome::Error,
                Option::None,
            );
            Err(ApiError::Store(e))
        },
        Result::Ok(_) => {
            record(
                store,
                actor,
                AuditAction::ProposalApplied,
                proposal_id,
                AuditOutcome::Success,
                Option::None,
            );
            Ok(())
        },
    }
}

/// Applies a proposal now: as `handle_apply_proposal_at`, against the
/// current UTC instant.
pub fn handle_apply_proposal(
    store: &mut InMemoryStore,
    actor: &ActorContext,
    proposal_id: &str,
    applied_by: Option<String>,
    policies: &PolicyConfig,
) -> (r: Result<(), ApiError>)
    requires
        store_wf(old(store)@),
    ensures
        store_wf(final(store)@),
        exists|weekday: u8, hour: u8, now: Seq<char>|
            weekday < 7 && hour < 24 && apply_handled(
                old(store)@,
                final(store)@,
                actor.deep_view(),
                proposal_id@,
                applied_by.deep_view(),
                policies.deep_view(),
                weekday,
                hour,
                now,
                r,
            ),
{
    let (weekday, hour) = crate::clock::utc_weekday_hour();
    let now = crate::clock::now_rfc3339();
    let r = handle_apply_proposal_at(
        store,
        actor,
        proposal_id,
        applied_by,
        policies,
        weekday,
        hour,
        now.as_str(),
    );
    proof {
        assert(weekday < 7 && hour < 24 && apply_handled(
            old(store)@,
            store@,
            actor.deep_view(),
            proposal_id@,
            applied_by.deep_view(),
            policies.deep_view(),
            weekday,
            hour,
            now@,
            r,
        ));
    }
    r
}

/// The status a review sets while the proposal is open: accept opens the
/// way to apply, reject closes it, a request for changes leaves it open.
pub open spec fn immediate_review_status(action: ReviewAction) -> ProposalStatus {
    match action {
        ReviewAction::Accept => ProposalStatus::Accepted,
        ReviewAction::Reject => ProposalStatus::Rejected,
        ReviewAction::RequestChanges => ProposalStatus::Open,
    }
}

/// What a handled review submission guarantees: the RBAC gates, the
/// review appended, and — inside the same step — the policy hook's
/// decision folded in, so the proposal leaves with one final status.
pub open spec fn review_handled(
    s0: StoreView,
    s1: StoreView,
    a: ActorContextView,
    proposal_id: Seq<char>,
    rv: ReviewView,
    rules: Seq<PolicyRuleView>,
    r: Result<(), ApiError>,
) -> bool {
    if !roles_grant(a.roles, Role::Reviewer) || a.actor_type == ActorType::Agent {
        (r matches Err(e) && e.deep_view() matches ApiErrorView::Forbidden(_)) && same_but_audit(
            s0,
            s1,
        ) && audit_extended(
            s0.audit,
            s1.audit,
            a,
            AuditAction::ReviewSubmitted,
            proposal_id,
            AuditOutcome::Denied,
        )
    } else if rv.proposal_id != proposal_id {
        (r matches Err(e) && e.deep_view() matches ApiErrorView::Invalid(_)) && same_but_audit(
            s0,
            s1,
        ) && audit_extended(
            s0.audit,
            s1.audit,
            a,
            AuditAction::ReviewSubmitted,
            proposal_id,
            AuditOutcome::Error,
        )
    } else {
        match lookup_proposal(s0.proposals, proposal_id) {
            None => (r matches Err(e) && e.deep_view() matches ApiErrorView::Store(
                StoreErrorView::NotFound(_),
            )) && same_but_audit(s0, s1) && audit_extended(
                s0.audit,
                s1.audit,
                a,
                AuditAction::ReviewSubmitted,
                proposal_id,
                AuditOutcome::Error,
            ),
            Some(p) => {
                if p.status != ProposalStatus::Open {
                    (r matches Err(e) && e.deep_view() matches ApiErrorView::Store(
                        StoreErrorView::Invalid(_),
                    )) && same_but_audit(s0, s1) && audit_extended(
                        s0.audit,
                        s1.audit,
                        a,
                        AuditAction::ReviewSubmitted,
                        proposal_id,
                        AuditOutcome::Error,
                    )
                } else {
                    let p1 = ProposalView { status: immediate_review_status(rv.action), ..p };
                    let history = reviews_for(s0.reviews.push(rv), proposal_id);
                    let decision = review_decision_spec(p1, history, rules);
                    let final_status = match decision {
                        Some(st) => st,
                        None => p1.status,
                    };
                    &&& r is Ok
                    &&& s1.proposals == s0.proposals.update(
                        crate::store::proposal_idx(s0.proposals, proposal_id).unwrap(),
                        (ProposalView { status: final_status, ..p }),
                    )
                    &&& s1.reviews == s0.reviews.push(rv)
                    &&& s1.nodes == s0.nodes
                    &&& s1.revision == s0.revision
                    &&& (match decision {
                        None => audit_extended(
                            s0.audit,
                            s1.audit,
                            a,
                            AuditAction::ReviewSubmitted,
                            proposal_id,
                            AuditOutcome::Success,
                        ),
                        Some(_) => s1.audit.len() == s0.audit.len() + 2 && s1.audit.take(
                            s0.audit.len() as int,
                        ) == s0.audit && audit_event_matches(
                            s1.audit[s0.audit.len() as int],
                            a,
                            AuditAction::ReviewSubmitted,
                            proposal_id,
                            AuditOutcome::Success,
                        ) && audit_event_matches(
                            s1.audit.last(),
                            a,
                            AuditAction::PolicyEvaluated,
                            proposal_id,
                            AuditOutcome::Success,
                        ),
                    })
                }
            },
        }
    }
}

/// Submits a review: the review role and up, never agents. The review is
/// appended and the policy hook's decision is folded into the same step,
/// so the proposal leaves with one final status.
pub fn handle_submit_review(
    store: &mut InMemoryStore,
    actor: &ActorContext,
    proposal_id: &str,
    review: Review,
    policies: &PolicyConfig,
) -> (r: Result<(), ApiError>)
    requires
        store_wf(old(store)@),
    ensures
        store_wf(final(store)@),
        review_handled(
            old(store)@,
            final(store)@,
            actor.deep_view(),
            proposal_id@,
            review.deep_view(),
            policies.deep_view(),
            r,
        ),
{
    let ghost rv = review.deep_view();
    match require_role(actor, Role::Reviewer) {
        Result::Err(f) => {
            record(
                store,
                actor,
                AuditAction::ReviewSubmitted,
                proposal_id,
                AuditOutcome::Denied,
                Option::None,
            );
            return Err(ApiError::Forbidden(f));
        },
        Result::Ok(_) => {},
    }
    match reject_agent(actor, "submit review") {
        Result::Err(f) => {
            record(
                store,
                actor,
                AuditAction::ReviewSubmitted,
                proposal_id,
                AuditOutcome::Denied,
                Option::None,
            );
            return Err(ApiError::Forbidden(f));
        },
        Result::Ok(_) => {},
    }
    if !str_eq(review.proposal_id.as_str(), proposal_id) {
        record(
            store,
            actor,
            AuditAction::ReviewSubmitted,
            proposal_id,
            AuditOutcome::Error,
            Option::None,
        );
        return Err(ApiError::Invalid("proposal_id mismatch".to_owned()));
    }
    match store.submit_review(review) {
        Result::Err(e) => {
            record(
                store,
                actor,
                AuditAction::ReviewSubmitted,
                proposal_id,
                AuditOutcome::Error,
                Option::None,
            );
            return Err(ApiError::Store(e));
        },
        Result::Ok(_) => {},
    }
    let ghost s0 = old(store)@;
    let ghost i = crate::store::proposal_idx(s0.proposals, proposal_id@).unwrap();
    proof {
        crate::support::lemma_first_idx(s0.proposals, |pv: ProposalView| pv.id == proposal_id@);
    }
    record(
        store,
        actor,
        AuditAction::ReviewSubmitted,
        proposal_id,
        AuditOutcome::Success,
        Option::None,
    );
    proof {
        assert forall|j: int| 0 <= j < s0.proposals.len() implies ((#[trigger] s0.proposals[j]).id
            == proposal_id@) == (store@.proposals[j].id == proposal_id@) by {}
        crate::support::lemma_first_idx_same_pred(
            s0.proposals,
            store@.proposals,
            |pv: ProposalView| pv.id == proposal_id@,
        );
    }
    let p1 = match store.get_proposal(proposal_id) {
        Option::Some(p) => p,
        Option::None => {
            proof {
                assert(false);
            }
            return Ok(());
        },
    };
    let history = match store.get_review_history(proposal_id) {
        Result::Ok(h) => h,
        Result::Err(_) => {
            proof {
                assert(false);
            }
            return Ok(());
        },
    };
    proof {
        assert(history.deep_view() == reviews_for(s0.reviews.push(rv), proposal_id@));
    }
    let (decision, _violations) = evaluate_on_review(&p1, &history, policies);
    match decision {
        Option::None => Ok(()),
        Option::Some(st) => {
            let name: &'static str = match st {
                ProposalStatus::Accepted => "accepted",
                ProposalStatus::Rejected => "rejected",
                _ => {
                    proof {
                        assert(false);
                    }
                    "accepted"
                },
            };
            let patch = ProposalPatch {
                status: Option::Some(name.to_owned()),
                modified_at: Option::None,
                modified_by: Option::None,
                comments: Option::None,
            };
            let ghost mid = store@;
            proof {
                reveal_strlit("open");
                reveal_strlit("accepted");
                reveal_strlit("rejected");
                reveal_strlit("withdrawn");
                reveal_strlit("applied");
                assert("open"@.len() == 4);
                assert("accepted"@.len() == 8);
                assert("rejected"@.len() == 8);
                assert("applied"@.len() == 7);
                assert("rejected"@[0] == 'r' && "accepted"@[0] == 'a');
                assert(name@ != "applied"@);
                assert(crate::proposal::proposal_status_of_name(name@) == Some(st)) by {
                    assert("accepted"@ != "open"@);
                    assert("rejected"@ != "open"@);
                    assert("rejected"@ != "accepted"@);
                }
                let pmid = lookup_proposal(mid.proposals, proposal_id@).unwrap();
                assert(pmid.status != ProposalStatus::Applied);
            }
            match store.update_proposal(proposal_id, patch) {
                Result::Err(_) => {
                    proof {
                        let pmid = lookup_proposal(mid.proposals, proposal_id@).unwrap();
                        assert(crate::store::patched_proposal(
                            pmid,
                            (crate::proposal::ProposalPatchView {
                                status: Some(name@),
                                modified_at: None,
                                modified_by: None,
                                comments: None,
                            }),
                        ) is Some);
                        assert(false);
                    }
                    Ok(())
                },
                Result::Ok(_) => {
                    proof {
                        crate::support::lemma_first_idx_same_pred(
                            s0.proposals,
                            mid.proposals,
                            |pv: ProposalView| pv.id == proposal_id@,
                        );
                        let pmid = lookup_proposal(mid.proposals, proposal_id@).unwrap();
                        let qv = crate::proposal::ProposalPatchView {
                            status: Some(name@),
                            modified_at: None,
                            modified_by: None,
                            comments: None,
                        };
                        assert(crate::store::patched_proposal(pmid, qv).unwrap()
                            == (ProposalView { status: st, ..pmid }));
                        assert(store@.proposals =~= s0.proposals.update(
                            i,
                            (ProposalView {
                                status: st,
                                ..lookup_proposal(s0.proposals, proposal_id@).unwrap()
                            }),
                        ));
                    }
                    record(
                        store,
                        actor,
                        AuditAction::PolicyEvaluated,
                        proposal_id,
                        AuditOutcome::Success,
                        Option::Some(name.to_owned()),
                    );
                    proof {
                        assert(store@.audit.take(s0.audit.len() as int) =~= s0.audit);
                    }
                    Ok(())
                },
            }
        },
    }
}

/// The stub an agent sees in place of a node above its sensitivity
/// ceiling: identity, type and status, with the content withheld.
pub struct RedactedNode {
    pub id: NodeId,
    pub node_type: NodeType,
    pub status: NodeStatus,
    pub sensitivity: Sensitivity,
}

/// Mathematical view of a `RedactedNode`.
pub ghost struct RedactedNodeView {
    pub id: crate::node::NodeIdView,
    pub node_type: NodeType,
    pub status: NodeStatus,
    pub sensitivity: Sensitivity,
}

impl DeepView for RedactedNode {
    type V = RedactedNodeView;

    open spec fn deep_view(&self) -> RedactedNodeView {
        RedactedNodeView {
            id: self.id.deep_view(),
            node_type: self.node_type,
            status: self.status,
            sensitivity: self.sensitivity,
        }
    }
}

/// What a node read returns: the node itself, or a redacted stub.
pub enum NodeReadOutcome {
    Full(ContextNode),
    Redacted(RedactedNode),
}

/// Mathematical view of a `NodeReadOutcome`.
pub ghost enum NodeReadOutcomeView {
    Full(NodeView),
    Redacted(RedactedNodeView),
}

impl DeepView for NodeReadOutcome {
    type V = NodeReadOutcomeView;

    open spec fn deep_view(&self) -> NodeReadOutcomeView {
        match self {
            NodeReadOutcome::Full(n) => NodeReadOutcomeView::Full(n.deep_view()),
            NodeReadOutcome::Redacted(s) => NodeReadOutcomeView::Redacted(s.deep_view()),
        }
    }
}

/// A node's effective sensitivity: its classification, or `internal` when
/// unclassified.
pub open spec fn effective_sensitivity(n: NodeView) -> Sensitivity {
    match n.metadata.sensitivity {
        Some(s) => s,
        None => Sensitivity::Internal,
    }
}

/// Reads one node by bare id: readers and up. An agent observes the node
/// exactly when its sensitivity is at or below the agent's ceiling;
/// otherwise it observes a redacted stub and the log gains a denied
/// sensitive-read event. An agent's successful read of confidential or
/// restricted content is logged too.
pub fn handle_get_node(
    store: &mut InMemoryStore,
    actor: &ActorContext,
    node_id: &str,
    policies: &PolicyConfig,
) -> (r: Result<NodeReadOutcome, ApiError>)
    requires
        store_wf(old(store)@),
    ensures
        store_wf(final(store)@),
        ({
            let a = actor.deep_view();
            if !roles_grant(a.roles, Role::Reader) {
                (r matches Err(e) && e.deep_view() matches ApiErrorView::Forbidden(_))
                    && final(store)@ == old(store)@
            } else {
                match lookup_node(old(store)@.nodes, node_id@) {
                    None => (r matches Err(e) && e.deep_view() matches ApiErrorView::NotFound(_))
                        && final(store)@ == old(store)@,
                    Some(n) => {
                        let s = effective_sensitivity(n);
                        let m = agent_max_sensitivity_spec(policies.deep_view());
                        if a.actor_type != ActorType::Agent {
                            (r matches Ok(o) && o.deep_view() == NodeReadOutcomeView::Full(n))
                                && final(store)@ == old(store)@
                        } else if sensitivity_rank(s) <= sensitivity_rank(m) {
                            (r matches Ok(o) && o.deep_view() == NodeReadOutcomeView::Full(n)) && (
                            if sensitivity_rank(s) >= sensitivity_rank(Sensitivity::Confidential) {
                                same_but_audit(old(store)@, final(store)@) && audit_extended(
                                    old(store)@.audit,
                                    final(store)@.audit,
                                    a,
                                    AuditAction::SensitiveRead,
                                    node_id@,
                                    AuditOutcome::Success,
                                )
                            } else {
                                final(store)@ == old(store)@
                            })
                        } else {
                            (r matches Ok(o) && o.deep_view() == NodeReadOutcomeView::Redacted(
                                (RedactedNodeView {
                                    id: n.id,
                                    node_type: n.node_type,
                                    status: n.status,
                                    sensitivity: s,
                                }),
                            )) && same_but_audit(old(store)@, final(store)@) && audit_extended(
                                old(store)@.audit,
                                final(store)@.audit,
                                a,
                                AuditAction::SensitiveRead,
                                node_id@,
                                AuditOutcome::Denied,
                            )
                        }
                    },
                }
            }
        }),
{
    if let Result::Err(f) = require_role(actor, Role::Reader) {
        return Err(ApiError::Forbidden(f));
    }
    let nid = NodeId { id: node_id.to_owned(), namespace: Option::None };
    proof {
        assert(key_of(nid.deep_view()) == node_id@);
    }
    let node = match store.get_node(&nid) {
        Option::Some(n) => n,
        Option::None => {
            let mut m = "node ".to_owned();
            m.append(node_id);
            return Err(ApiError::NotFound(m));
        },
    };
    let is_agent = matches!(actor.actor_type, ActorType::Agent);
    if !is_agent {
        return Ok(NodeReadOutcome::Full(node));
    }
    let sens = match &node.metadata.sensitivity {
        Option::Some(s) => *s,
        Option::None => Sensitivity::Internal,
    };
    let ceiling = agent_max_sensitivity(policies);
    if crate::sensitivity::agent_can_read(sens, ceiling) {
        if sens.rank() >= Sensitivity::Confidential.rank() {
            record(
                store,
                actor,
                AuditAction::SensitiveRead,
                node_id,
                AuditOutcome::Success,
                Option::Some(sens.as_str().to_owned()),
            );
        }
        Ok(NodeReadOutcome::Full(node))
    } else {
        record(
            store,
            actor,
            AuditAction::SensitiveRead,
            node_id,
            AuditOutcome::Denied,
            Option::Some(sens.as_str().to_owned()),
        );
        let stub = RedactedNode {
            id: node.id,
            node_type: node.node_type,
            status: node.status,
            sensitivity: sens,
        };
        Ok(NodeReadOutcome::Redacted(stub))
    }
}

/// The audit export's header row.
pub open spec fn csv_header() -> Seq<char> {
    "event_id,timestamp,actor_id,actor_type,action,resource_id,outcome\n"@
}

/// One audit event as a CSV data row.
pub open spec fn csv_line(e: AuditEventView) -> Seq<char> {
    e.event_id + ","@ + e.timestamp + ","@ + e.actor_id + ","@ + e.actor_type + ","@
        + audit_action_name(e.action) + ","@ + e.resource_id + ","@ + audit_outcome_name(e.outcome)
        + "\n"@
}

/// The data rows for a sequence of events, in order.
pub open spec fn csv_body(events: Seq<AuditEventView>) -> Seq<char>
    decreases events.len(),
{
    if events.len() == 0 {
        Seq::empty()
    } else {
        csv_line(events[0]) + csv_body(events.drop_first())
    }
}

/// Writes the audit CSV export: exactly the header row, then one data row
/// per event in the given order.
pub fn audit_csv(events: &Vec<AuditEvent>) -> (r: String)
    ensures
        r@ == csv_header() + csv_body(events.deep_view()),
{
    let mut out = "event_id,timestamp,actor_id,actor_type,action,resource_id,outcome\n".to_owned();
    let mut i: usize = 0;
    proof {
        assert(events.deep_view().skip(0) =~= events.deep_view());
        assert(out@ + csv_body(events.deep_view()) =~= csv_header() + csv_body(
            events.deep_view(),
        ));
    }
    while i < events.len()
        invariant
            i <= events.len(),
            csv_header() + csv_body(events.deep_view()) == out@ + csv_body(
                events.deep_view().skip(i as int),
            ),
        decreases events.len() - i,
    {
        proof {
            let rest = events.deep_view().skip(i as int);
            assert(rest[0] == events.deep_view()[i as int]);
            assert(events.deep_view()[i as int] == events@[i as int].deep_view());
            assert(rest.drop_first() =~= events.deep_view().skip(i as int + 1));
        }
        let e = &events[i];
        out.append(e.event_id.as_str());
        out.append(",");
        out.append(e.timestamp.as_str());
        out.append(",");
        out.append(e.actor_id.as_str());
        out.append(",");
        out.append(e.actor_type.as_str());
        out.append(",");
        out.append(e.action.as_str());
        out.append(",");
        out.append(e.resource_id.as_str());
        out.append(",");
        out.append(e.outcome.as_str());
        out.append("\n");
        proof {
            assert(out@ + csv_body(events.deep_view().skip(i as int + 1)) =~= csv_header()
                + csv_body(events.deep_view()));
        }
        i = i + 1;
    }
    proof {
        assert(events.deep_view().skip(events.len() as int).len() == 0);
        assert(out@ =~= csv_header() + csv_body(events.deep_view()));
    }
    out
}

/// Exports the audit log as CSV: admins only. The export holds exactly
/// the header row and one data row per event, in append order, up to the
/// export cap of 100000 events.
pub fn handle_export_audit_csv(store: &InMemoryStore, actor: &ActorContext) -> (r: Result<
    String,
    ApiError,
>)
    ensures
        ({
            let a = actor.deep_view();
            if !roles_grant(a.roles, Role::Admin) {
                r matches Err(e) && e.deep_view() matches ApiErrorView::Forbidden(_)
            } else {
                r matches Ok(csv) && csv@ == csv_header() + csv_body(
                    crate::store::audit_query_page(
                        store@.audit,
                        None,
                        None,
                        None,
                        None,
                        None,
                        Some(100000u32),
                        None,
                    ),
                )
            }
        }),
{
    if let Result::Err(f) = require_role(actor, Role::Admin) {
        return Err(ApiError::Forbidden(f));
    }
    let events = match store.query_audit(
        Option::None,
        Option::None,
        Option::None,
        Option::None,
        Option::None,
        Option::Some(100000),
        Option::None,
    ) {
        Result::Ok(ev) => ev,
        Result::Err(e) => {
            return Err(ApiError::Store(e));
        },
    };
    Ok(audit_csv(&events))
}

/// Reads one proposal: readers and up.
pub fn handle_get_proposal(store: &InMemoryStore, actor: &ActorContext, proposal_id: &str) -> (r:
    Result<Proposal, ApiError>)
    ensures
        ({
            let a = actor.deep_view();
            if !roles_grant(a.roles, Role::Reader) {
                r matches Err(e) && e.deep_view() matches ApiErrorView::Forbidden(_)
            } else {
                match lookup_proposal(store@.proposals, proposal_id@) {
                    None => r matches Err(e) && e.deep_view() matches ApiErrorView::NotFound(_),
                    Some(p) => r matches Ok(got) && got.deep_view() == p,
                }
            }
        }),
{
    if let Result::Err(f) = require_role(actor, Role::Reader) {
        return Err(ApiError::Forbidden(f));
    }
    match store.get_proposal(proposal_id) {
        Option::Some(p) => Ok(p),
        Option::None => {
            let mut m = "proposal ".to_owned();
            m.append(proposal_id);
            Err(ApiError::NotFound(m))
        },
    }
}

/// Reads a proposal's review history: readers and up.
pub fn handle_get_review_history(
    store: &InMemoryStore,
    actor: &ActorContext,
    proposal_id: &str,
) -> (r: Result<Vec<Review>, ApiError>)
    ensures
        ({
            let a = actor.deep_view();
            if !roles_grant(a.roles, Role::Reader) {
                r matches Err(e) && e.deep_view() matches ApiErrorView::Forbidden(_)
            } else {
                r matches Ok(v) && v.deep_view() == reviews_for(store@.reviews, proposal_id@)
            }
        }),
{
    if let Result::Err(f) = require_role(actor, Role::Reader) {
        return Err(ApiError::Forbidden(f));
    }
    match store.get_review_history(proposal_id) {
        Result::Ok(v) => Ok(v),
        Result::Err(e) => Err(ApiError::Store(e)),
    }
}

/// Queries the audit log: admins only.
pub fn handle_query_audit(
    store: &InMemoryStore,
    actor: &ActorContext,
    actor_filter: Option<&str>,
    action: Option<&str>,
    resource_id: Option<&str>,
    from: Option<&str>,
    to: Option<&str>,
    limit: Option<u32>,
    offset: Option<u32>,
) -> (r: Result<Vec<AuditEvent>, ApiError>)
    ensures
        ({
            let a = actor.deep_view();
            if !roles_grant(a.roles, Role::Admin) {
                r matches Err(e) && e.deep_view() matches ApiErrorView::Forbidden(_)
            } else {
                r matches Ok(v) && v.deep_view() == crate::store::audit_query_page(
                    store@.audit,
                    actor_filter.deep_view(),
                    action.deep_view(),
                    resource_id.deep_view(),
                    from.deep_view(),
                    to.deep_view(),
                    limit,
                    offset,
                )
            }
        }),
{
    if let Result::Err(f) = require_role(actor, Role::Admin) {
        return Err(ApiError::Forbidden(f));
    }
    match store.query_audit(actor_filter, action, resource_id, from, to, limit, offset) {
        Result::Ok(v) => Ok(v),
        Result::Err(e) => Err(ApiError::Store(e)),
    }
}

/// The provenance of one resource: its audit trail.
pub struct ProvenanceResponse {
    pub resource_id: String,
    pub events: Vec<AuditEvent>,
}

/// Reads a resource's provenance: readers and up; the resource's audit
/// events in append order, up to the provenance cap of 1000 events.
pub fn handle_get_provenance(store: &InMemoryStore, actor: &ActorContext, resource_id: &str) -> (r:
    Result<ProvenanceResponse, ApiError>)
    ensures
        ({
            let a = actor.deep_view();
            if !roles_grant(a.roles, Role::Reader) {
                r matches Err(e) && e.deep_view() matches ApiErrorView::Forbidden(_)
            } else {
                r matches Ok(res) && res.resource_id@ == resource_id@ && res.events.deep_view()
                    == crate::store::audit_query_page(
                    store@.audit,
                    None,
                    None,
                    Some(resource_id@),
                    None,
                    None,
                    Some(1000u32),
                    None,
                )
            }
        }),
{
    if let Result::Err(f) = require_role(actor, Role::Reader) {
        return Err(ApiError::Forbidden(f));
    }
    match store.query_audit(
        Option::None,
        Option::None,
        Option::Some(resource_id),
        Option::None,
        Option::None,
        Option::Some(1000),
        Option::None,
    ) {
        Result::Ok(events) => Ok(
            ProvenanceResponse { resource_id: resource_id.to_owned(), events },
        ),
        Result::Err(e) => Err(ApiError::Store(e)),
    }
}

/// Everything exported for one data subject: their audit events.
pub struct DsarExportResponse {
    pub subject: String,
    pub audit_events: Vec<AuditEvent>,
}

/// Exports a data subject's audit events: admins only.
pub fn handle_dsar_export(store: &InMemoryStore, actor: &ActorContext, subject: &str) -> (r:
    Result<DsarExportResponse, ApiError>)
    ensures
        ({
            let a = actor.deep_view();
            if !roles_grant(a.roles, Role::Admin) {
                r matches Err(e) && e.deep_view() matches ApiErrorView::Forbidden(_)
            } else {
                r matches Ok(res) && res.subject@ == subject@ && res.audit_events.deep_view()
                    == crate::store::audit_query_page(
                    store@.audit,
                    Some(subject@),
                    None,
                    None,
                    None,
                    None,
                    Some(100000u32),
                    None,
                )
            }
        }),
{
    if let Result::Err(f) = require_role(actor, Role::Admin) {
        return Err(ApiError::Forbidden(f));
    }
    match store.query_audit(
        Option::Some(subject),
        Option::None,
        Option::None,
        Option::None,
        Option::None,
        Option::Some(100000),
        Option::None,
    ) {
        Result::Ok(events) => Ok(
            DsarExportResponse { subject: subject.to_owned(), audit_events: events },
        ),
        Result::Err(e) => Err(ApiError::Store(e)),
    }
}

/// One page of open proposals.
pub struct ProposalListResponse {
    pub proposals: Vec<Proposal>,
    pub total: u64,
    pub limit: u32,
    pub offset: u32,
    pub has_more: bool,
}

/// Lists open proposals with pagination: readers and up. The page is cut
/// out of the complete list of open proposals, in storage order.
pub fn handle_list_proposals(
    store: &InMemoryStore,
    actor: &ActorContext,
    limit: Option<u32>,
    offset: Option<u32>,
) -> (r: Result<ProposalListResponse, ApiError>)
    ensures
        ({
            let a = actor.deep_view();
            if !roles_grant(a.roles, Role::Reader) {
                r matches Err(e) && e.deep_view() matches ApiErrorView::Forbidden(_)
            } else {
                let full = crate::store::filter_proposals(
                    store@.proposals,
                    Some(seq![ProposalStatus::Open]),
                );
                let lim = crate::store::min_int(
                    match limit {
                        Some(l) => l as int,
                        None => 50,
                    },
                    1000,
                );
                let off = crate::store::min_int(
                    match offset {
                        Some(o) => o as int,
                        None => 0,
                    },
                    full.len() as int,
                );
                let end = crate::store::min_int(off + lim, full.len() as int);
                r matches Ok(res) && res.proposals.deep_view() == full.subrange(
                    off,
                    if end < off {
                        off
                    } else {
                        end
                    },
                ) && res.total == full.len() && res.limit == lim && res.offset == off && (
                res.has_more == (end < full.len()))
            }
        }),
{
    if let Result::Err(f) = require_role(actor, Role::Reader) {
        return Err(ApiError::Forbidden(f));
    }
    let full = match store.get_open_proposals() {
        Result::Ok(v) => v,
        Result::Err(e) => {
            return Err(ApiError::Store(e));
        },
    };
    let lim: u32 = match limit {
        Option::Some(l) => if l < 1000 {
            l
        } else {
            1000
        },
        Option::None => 50,
    };
    let off: usize = match offset {
        Option::Some(o) => if (o as usize) < full.len() {
            o as usize
        } else {
            full.len()
        },
        Option::None => 0,
    };
    let end: usize = if full.len() - off < lim as usize {
        full.len()
    } else {
        off + lim as usize
    };
    let mut page: Vec<Proposal> = Vec::new();
    let mut j: usize = off;
    while j < end
        invariant
            off <= j <= end <= full.len(),
            page.deep_view() =~= full.deep_view().subrange(off as int, j as int),
        decreases end - j,
    {
        let ghost v1 = page;
        page.push(full[j].clone());
        proof {
            crate::support::lemma_push_deep_view(v1, page, page@.last());
            assert(page.deep_view() =~= full.deep_view().subrange(off as int, j as int + 1));
        }
        j = j + 1;
    }
    let total: u64 = full.len() as u64;
    let has_more = end < full.len();
    Ok(ProposalListResponse { proposals: page, total, limit: lim, offset: off as u32, has_more })
}

/// The nodes of a page an agent with this ceiling may observe, in page
/// order.
pub open spec fn readable_page(page: Seq<NodeView>, ceiling: Sensitivity) -> Seq<NodeView>
    decreases page.len(),
{
    if page.len() == 0 {
        Seq::empty()
    } else {
        (if sensitivity_rank(effective_sensitivity(page[0])) <= sensitivity_rank(ceiling) {
            seq![page[0]]
        } else {
            Seq::empty()
        }) + readable_page(page.drop_first(), ceiling)
    }
}

/// The keys of the readable nodes whose sensitivity is confidential or
/// above — the reads that are logged — in page order.
pub open spec fn sensitive_kept_keys(page: Seq<NodeView>, ceiling: Sensitivity) -> Seq<Seq<char>>
    decreases page.len(),
{
    if page.len() == 0 {
        Seq::empty()
    } else {
        (if sensitivity_rank(effective_sensitivity(page[0])) <= sensitivity_rank(ceiling)
            && sensitivity_rank(effective_sensitivity(page[0])) >= sensitivity_rank(
            Sensitivity::Confidential,
        ) {
            seq![page[0].key()]
        } else {
            Seq::empty()
        }) + sensitive_kept_keys(page.drop_first(), ceiling)
    }
}

/// One page of nodes as a query response.
pub struct NodeQueryResultResponse {
    pub nodes: Vec<ContextNode>,
    pub total: u64,
    pub limit: u32,
    pub offset: u32,
    pub has_more: bool,
}

/// Queries the node graph: readers and up. An agent's page keeps only the
/// nodes at or below its ceiling; each logged sensitive read appends a
/// success event, and any withheld node appends one denied event.
pub fn handle_query_nodes(
    store: &mut InMemoryStore,
    actor: &ActorContext,
    query: crate::query::NodeQuery,
    policies: &PolicyConfig,
) -> (r: Result<NodeQueryResultResponse, ApiError>)
    requires
        store_wf(old(store)@),
    ensures
        store_wf(final(store)@),
        same_but_audit(old(store)@, final(store)@),
        ({
            let a = actor.deep_view();
            let base = crate::store::node_query_result_spec(old(store)@.nodes, query.deep_view());
            let m = agent_max_sensitivity_spec(policies.deep_view());
            if !roles_grant(a.roles, Role::Reader) {
                (r matches Err(e) && e.deep_view() matches ApiErrorView::Forbidden(_)) && final(store)@ == old(store)@
            } else if a.actor_type != ActorType::Agent {
                (r matches Ok(res) && res.nodes.deep_view() == base.nodes && res.total
                    == base.total && res.limit == base.limit && res.offset == base.offset
                    && res.has_more == base.has_more) && final(store)@ == old(store)@
            } else {
                let kept = readable_page(base.nodes, m);
                let keys = sensitive_kept_keys(base.nodes, m);
                let redacted = base.nodes.len() - kept.len();
                &&& (r matches Ok(res) && res.nodes.deep_view() == kept && res.total == base.total
                    && res.limit == base.limit && res.offset == base.offset && res.has_more
                    == base.has_more)
                &&& final(store)@.audit.len() == old(store)@.audit.len() + keys.len() + (
                if redacted > 0 {
                    1int
                } else {
                    0int
                })
                &&& final(store)@.audit.take(old(store)@.audit.len() as int) == old(store)@.audit
                &&& (forall|j: int|
                    0 <= j < keys.len() ==> audit_event_matches(
                        #[trigger] final(store)@.audit[old(store)@.audit.len() + j],
                        a,
                        AuditAction::SensitiveRead,
                        keys[j],
                        AuditOutcome::Success,
                    ))
                &&& (redacted > 0 ==> audit_event_matches(
                    final(store)@.audit.last(),
                    a,
                    AuditAction::SensitiveRead,
                    "query_nodes"@,
                    AuditOutcome::Denied,
                ))
            }
        }),
{
    if let Result::Err(f) = require_role(actor, Role::Reader) {
        return Err(ApiError::Forbidden(f));
    }
    let base = match store.query_nodes(query) {
        Result::Ok(res) => res,
        Result::Err(e) => {
            return Err(ApiError::Store(e));
        },
    };
    let is_agent = matches!(actor.actor_type, ActorType::Agent);
    if !is_agent {
        return Ok(
            NodeQueryResultResponse {
                nodes: base.nodes,
                total: base.total,
                limit: base.limit,
                offset: base.offset,
                has_more: base.has_more,
            },
        );
    }
    let ceiling = agent_max_sensitivity(policies);
    let ghost pagev = base.nodes.deep_view();
    let ghost s0 = store@;
    let mut kept: Vec<ContextNode> = Vec::new();
    let ghost mut logged: Seq<Seq<char>> = Seq::empty();
    let mut redacted: u64 = 0;
    let mut i: usize = 0;
    proof {
        assert(pagev.skip(0) =~= pagev);
        assert(s0.audit.take(s0.audit.len() as int) =~= s0.audit);
    }
    while i < base.nodes.len()
        invariant
            i <= base.nodes.len(),
            pagev == base.nodes.deep_view(),
            s0.audit == old(store)@.audit,
            store_wf(store@),
            same_but_audit(old(store)@, store@),
            store@.nodes == old(store)@.nodes,
            store@.proposals == old(store)@.proposals,
            store@.reviews == old(store)@.reviews,
            store@.revision == old(store)@.revision,
            readable_page(pagev, ceiling) == kept.deep_view() + readable_page(
                pagev.skip(i as int),
                ceiling,
            ),
            sensitive_kept_keys(pagev, ceiling) == logged + sensitive_kept_keys(
                pagev.skip(i as int),
                ceiling,
            ),
            store@.audit.len() == s0.audit.len() + logged.len(),
            store@.audit.take(s0.audit.len() as int) == s0.audit,
            forall|j: int|
                0 <= j < logged.len() ==> audit_event_matches(
                    #[trigger] store@.audit[s0.audit.len() + j],
                    actor.deep_view(),
                    AuditAction::SensitiveRead,
                    logged[j],
                    AuditOutcome::Success,
                ),
            kept.len() + redacted == i,
        decreases base.nodes.len() - i,
    {
        let ghost logged0 = logged;
        let ghost audit0 = store@.audit;
        proof {
            let rest = pagev.skip(i as int);
            assert(rest[0] == pagev[i as int]);
            assert(pagev[i as int] == base.nodes@[i as int].deep_view());
            assert(rest.drop_first() =~= pagev.skip(i as int + 1));
        }
        let node = &base.nodes[i];
        let sens = match &node.metadata.sensitivity {
            Option::Some(s) => *s,
            Option::None => Sensitivity::Internal,
        };
        if crate::sensitivity::agent_can_read(sens, ceiling) {
            if sens.rank() >= Sensitivity::Confidential.rank() {
                let key = node.id.key();
                let ghost audit_before = store@.audit;
                record(
                    store,
                    actor,
                    AuditAction::SensitiveRead,
                    key.as_str(),
                    AuditOutcome::Success,
                    Option::None,
                );
                proof {
                    logged = logged.push(key@);
                    assert forall|k: int| 0 <= k < audit_before.len() implies store@.audit[k]
                        == audit_before[k] by {
                        assert(store@.audit.take(audit_before.len() as int)[k] == store@.audit[k]);
                    }
                    assert(store@.audit.take(s0.audit.len() as int) =~= s0.audit);
                    assert(store@.audit.last() == store@.audit[s0.audit.len() + (logged.len()
                        - 1)]);
                }
            }
            let ghost v1 = kept;
            kept.push(base.nodes[i].clone());
            proof {
                crate::support::lemma_push_deep_view(v1, kept, kept@.last());
            }
        } else {
            redacted = redacted + 1;
        }
        proof {
            assert(kept.deep_view() + readable_page(
                pagev.skip(i as int + 1),
                ceiling,
            ) =~= readable_page(pagev, ceiling));
            assert(logged + sensitive_kept_keys(
                pagev.skip(i as int + 1),
                ceiling,
            ) =~= sensitive_kept_keys(pagev, ceiling));
            assert forall|j: int| 0 <= j < logged.len() implies audit_event_matches(
                #[trigger] store@.audit[s0.audit.len() + j],
                actor.deep_view(),
                AuditAction::SensitiveRead,
                logged[j],
                AuditOutcome::Success,
            ) by {
                if logged == logged0 {
                    assert(store@.audit == audit0);
                    assert(audit_event_matches(
                        audit0[s0.audit.len() + j],
                        actor.deep_view(),
                        AuditAction::SensitiveRead,
                        logged0[j],
                        AuditOutcome::Success,
                    ));
                } else {
                    assert(logged == logged0.push(logged[logged.len() - 1]));
                    if j < logged0.len() {
                        assert(store@.audit[s0.audit.len() + j] == audit0[s0.audit.len() + j]);
                        assert(logged[j] == logged0[j]);
                    } else {
                        assert(store@.audit[s0.audit.len() + j] == store@.audit.last());
                    }
                }
            }
        }
        i = i + 1;
    }
    proof {
        assert(pagev.skip(base.nodes.len() as int).len() == 0);
        assert(kept.deep_view() =~= readable_page(pagev, ceiling));
        assert(logged =~= sensitive_kept_keys(pagev, ceiling));
    }
    if redacted > 0 {
        let ghost audit_mid = store@.audit;
        record(
            store,
            actor,
            AuditAction::SensitiveRead,
            "query_nodes",
            AuditOutcome::Denied,
            Option::None,
        );
        proof {
            assert forall|k: int| 0 <= k < audit_mid.len() implies store@.audit[k]
                == audit_mid[k] by {
                assert(store@.audit.take(audit_mid.len() as int)[k] == store@.audit[k]);
            }
            assert(store@.audit.take(s0.audit.len() as int) =~= s0.audit);
            assert forall|j: int| 0 <= j < logged.len() implies audit_event_matches(
                #[trigger] store@.audit[s0.audit.len() + j],
                actor.deep_view(),
                AuditAction::SensitiveRead,
                logged[j],
                AuditOutcome::Success,
            ) by {
                assert(store@.audit[s0.audit.len() + j] == audit_mid[s0.audit.len() + j]);
            }
        }
    }
    Ok(
        NodeQueryResultResponse {
            nodes: kept,
            total: base.total,
            limit: base.limit,
            offset: base.offset,
            has_more: base.has_more,
        },
    )
}

/// The query-string parameters of a node query.
pub struct NodeQueryParams {
    /// Comma-separated status names.
    pub status: Option<String>,
    pub limit: Option<u32>,
    pub offset: Option<u32>,
}

/// The query-string parameters of a proposal listing.
pub struct ProposalListParams {
    pub limit: Option<u32>,
    pub offset: Option<u32>,
}

/// The query-string parameters of an audit query.
pub struct AuditQueryParams {
    pub actor: Option<String>,
    pub action: Option<String>,
    pub resource_id: Option<String>,
    pub from: Option<String>,
    pub to: Option<String>,
    pub limit: Option<u32>,
    pub offset: Option<u32>,
}

/// The query-string parameters of an audit export.
pub struct ExportParams {
    /// `csv` or `json`.
    pub format: Option<String>,
}

/// The query-string parameters of a data-subject request.
pub struct DsarParams {
    pub subject: String,
}

/// The query-string parameters of an event subscription.
pub struct EventsParams {
    pub workspace: Option<String>,
}

/// The body of an apply request.
pub struct ApplyBody {
    pub applied_by: Option<String>,
}

/// Records a data-subject erasure request: admins only. The audit log is
/// append-only, so the intent is recorded rather than history rewritten.
pub fn handle_dsar_erase(store: &mut InMemoryStore, actor: &ActorContext, subject: &str) -> (r:
    Result<(), ApiError>)
    requires
        store_wf(old(store)@),
    ensures
        store_wf(final(store)@),
        same_but_audit(old(store)@, final(store)@),
        ({
            let a = actor.deep_view();
            if !roles_grant(a.roles, Role::Admin) {
                (r matches Err(e) && e.deep_view() matches ApiErrorView::Forbidden(_))
                    && audit_extended(
                    old(store)@.audit,
                    final(store)@.audit,
                    a,
                    AuditAction::RoleChanged,
                    subject@,
                    AuditOutcome::Denied,
                )
            } else {
                r is Ok && audit_extended(
                    old(store)@.audit,
                    final(store)@.audit,
                    a,
                    AuditAction::RoleChanged,
                    subject@,
                    AuditOutcome::Success,
                ) && final(store)@.audit.last().details == Some("dsar erase requested"@)
            }
        }),
{
    match require_role(actor, Role::Admin) {
        Result::Err(f) => {
            record(
                store,
                actor,
                AuditAction::RoleChanged,
                subject,
                AuditOutcome::Denied,
                Option::None,
            );
            return Err(ApiError::Forbidden(f));
        },
        Result::Ok(_) => {},
    }
    record(
        store,
        actor,
        AuditAction::RoleChanged,
        subject,
        AuditOutcome::Success,
        Option::Some("dsar erase requested".to_owned()),
    );
    Ok(())
}

} // verus!

//! The policy engine: declarative rules evaluated when a proposal is
//! created, reviewed, and applied. Each hook returns the violations the
//! rules produce, in rule order; the review hook also decides the
//! proposal's next status.

use vstd::prelude::*;
use vstd::string::StringExecFns;

use crate::node::node_type_name;
use crate::proposal::{Operation, OperationView, Proposal, ProposalStatus, ProposalView, Review, ReviewAction, ReviewView};
use crate::sensitivity::{Sensitivity, sensitivity_rank};
use crate::support::{count_matching, lemma_count_matching_bounds, lemma_count_matching_permutation, lemma_exists_matching_permutation, lemma_push_deep_view, vec_contains_str, vec_contains_u8};

verus! {

/// A single policy violation: which rule fired, and why.
#[derive(Debug)]
pub struct PolicyViolation {
    pub rule: String,
    pub message: String,
}

/// Mathematical view of a `PolicyViolation`.
pub ghost struct PolicyViolationView {
    pub rule: Seq<char>,
    pub message: Seq<char>,
}

impl DeepView for PolicyViolation {
    type V = PolicyViolationView;

    open spec fn deep_view(&self) -> PolicyViolationView {
        PolicyViolationView { rule: self.rule.deep_view(), message: self.message.deep_view() }
    }
}

impl Clone for PolicyViolation {
    /// The copy has the same view as the original.
    fn clone(&self) -> (r: Self)
        ensures
            r.deep_view() == self.deep_view(),
    {
        PolicyViolation { rule: self.rule.clone(), message: self.message.clone() }
    }
}

/// A policy rule, as loaded from configuration.
pub enum PolicyRule {
    /// A proposal touching any listed node type (or any type, when the list
    /// is empty) needs at least `min` accepting reviews.
    MinApprovals { node_types: Vec<String>, min: u32 },
    /// At least one accepting review must carry this review role.
    RequiredReviewerRole { node_types: Vec<String>, role: String },
    /// Apply is allowed only inside this window (days 0 = Monday .. 6 =
    /// Sunday; hours start inclusive, end exclusive).
    AgentRestriction { blocked_actions: Vec<String> },
    ChangeWindow { allowed_days: Vec<u8>, allowed_hour_start: u8, allowed_hour_end: u8 },
    /// Caps on the size of an agent's proposal.
    AgentProposalLimit { max_operations: u32, max_content_length: u32 },
    /// The sensitivity ceiling for agent reads and agent-created nodes.
    EgressControl { max_sensitivity: Sensitivity, destinations: Vec<String> },
}

/// Mathematical view of a `PolicyRule`.
pub ghost enum PolicyRuleView {
    MinApprovals { node_types: Seq<Seq<char>>, min: u32 },
    RequiredReviewerRole { node_types: Seq<Seq<char>>, role: Seq<char> },
    AgentRestriction { blocked_actions: Seq<Seq<char>> },
    ChangeWindow { allowed_days: Seq<u8>, allowed_hour_start: u8, allowed_hour_end: u8 },
    AgentProposalLimit { max_operations: u32, max_content_length: u32 },
    EgressControl { max_sensitivity: Sensitivity, destinations: Seq<Seq<char>> },
}

impl DeepView for PolicyRule {
    type V = PolicyRuleView;

    open spec fn deep_view(&self) -> PolicyRuleView {
        match self {
            PolicyRule::MinApprovals { node_types, min } => PolicyRuleView::MinApprovals {
                node_types: node_types.deep_view(),
                min: *min,
            },
            PolicyRule::RequiredReviewerRole { node_types, role } => PolicyRuleView::RequiredReviewerRole {
                node_types: node_types.deep_view(),
                role: role.deep_view(),
            },
            PolicyRule::AgentRestriction { blocked_actions } => PolicyRuleView::AgentRestriction {
                blocked_actions: blocked_actions.deep_view(),
            },
            PolicyRule::ChangeWindow { allowed_days, allowed_hour_start, allowed_hour_end } => PolicyRuleView::ChangeWindow {
                allowed_days: allowed_days.deep_view(),
                allowed_hour_start: *allowed_hour_start,
                allowed_hour_end: *allowed_hour_end,
            },
            PolicyRule::AgentProposalLimit { max_operations, max_content_length } => PolicyRuleView::AgentProposalLimit {
                max_operations: *max_operations,
                max_content_length: *max_content_length,
            },
            PolicyRule::EgressControl { max_sensitivity, destinations } => PolicyRuleView::EgressControl {
                max_sensitivity: *max_sensitivity,
                destinations: destinations.deep_view(),
            },
        }
    }
}

/// The full policy configuration: a list of rules, evaluated in order.
pub struct PolicyConfig {
    pub rules: Vec<PolicyRule>,
}

impl DeepView for PolicyConfig {
    type V = Seq<PolicyRuleView>;

    open spec fn deep_view(&self) -> Seq<PolicyRuleView> {
        self.rules.deep_view()
    }
}

impl Default for PolicyConfig {
    /// The empty configuration: no rules.
    fn default() -> (r: Self)
        ensures
            r.deep_view() =~= Seq::<PolicyRuleView>::empty(),
    {
        PolicyConfig { rules: Vec::new() }
    }
}

/// The content-length cap an `AgentProposalLimit` rule carries when the
/// configuration names none.
pub fn default_max_content_length() -> (r: u32)
    ensures
        r == 50000,
{
    50000
}

/// A violation of the named rule with the given message.
pub open spec fn violation(rule: Seq<char>, message: Seq<char>) -> PolicyViolationView {
    PolicyViolationView { rule, message }
}

/// Whether the operation creates a node of one of the listed types.
pub open spec fn op_creates_listed_type(op: OperationView, types: Seq<Seq<char>>) -> bool {
    match op {
        OperationView::Create { node, .. } => types.contains(node_type_name(node.node_type)),
        _ => false,
    }
}

/// Whether the proposal's operations create a node of one of the listed
/// types.
pub open spec fn touches_node_types(ops: Seq<OperationView>, types: Seq<Seq<char>>) -> bool {
    exists|i: int| 0 <= i < ops.len() && op_creates_listed_type(#[trigger] ops[i], types)
}

/// Whether a rule scoped to `types` applies to the proposal: an empty list
/// scopes the rule to every proposal.
pub open spec fn rule_applies(p: ProposalView, types: Seq<Seq<char>>) -> bool {
    types.len() == 0 || touches_node_types(p.operations, types)
}

/// The content a single operation carries, in UTF-8 bytes: the created
/// node's content, or an update's replacement content.
pub open spec fn op_content_len(op: OperationView) -> int {
    match op {
        OperationView::Create { node, .. } => crate::text::utf8_len(node.content),
        OperationView::Update { changes, .. } => match changes.content {
            Some(c) => crate::text::utf8_len(c),
            None => 0,
        },
        _ => 0,
    }
}

/// Total content bytes across a proposal's operations.
pub open spec fn ops_content_len(ops: Seq<OperationView>) -> int
    decreases ops.len(),
{
    if ops.len() == 0 {
        0
    } else {
        op_content_len(ops[0]) + ops_content_len(ops.drop_first())
    }
}

/// The total is never negative.
pub proof fn lemma_ops_content_len_nonneg(ops: Seq<OperationView>)
    ensures
        ops_content_len(ops) >= 0,
    decreases ops.len(),
{
    if ops.len() > 0 {
        lemma_ops_content_len_nonneg(ops.drop_first());
        match ops[0] {
            OperationView::Create { node, .. } => {
                crate::text::lemma_utf8_len_nonneg(node.content);
            },
            OperationView::Update { changes, .. } => {
                match changes.content {
                    Some(c) => {
                        crate::text::lemma_utf8_len_nonneg(c);
                    },
                    None => {},
                }
            },
            _ => {},
        }
    }
}

/// The violations one rule contributes at proposal creation.
pub open spec fn create_rule_violations(
    p: ProposalView,
    actor_type: Seq<char>,
    rule: PolicyRuleView,
) -> Seq<PolicyViolationView> {
    match rule {
        PolicyRuleView::AgentProposalLimit { max_operations, max_content_length } => {
            if actor_type == "agent"@ {
                (if p.operations.len() > max_operations {
                    seq![
                        violation(
                            "agent_proposal_limit"@,
                            "agent proposal exceeds the operation limit"@,
                        ),
                    ]
                } else {
                    Seq::empty()
                }) + (if ops_content_len(p.operations) > max_content_length {
                    seq![
                        violation(
                            "agent_proposal_limit"@,
                            "agent proposal content exceeds the length limit"@,
                        ),
                    ]
                } else {
                    Seq::empty()
                })
            } else {
                Seq::empty()
            }
        },
        _ => Seq::empty(),
    }
}

/// The violations all rules contribute at proposal creation, in rule order.
pub open spec fn create_rules_violations(
    p: ProposalView,
    actor_type: Seq<char>,
    rules: Seq<PolicyRuleView>,
) -> Seq<PolicyViolationView>
    decreases rules.len(),
{
    if rules.len() == 0 {
        Seq::empty()
    } else {
        create_rule_violations(p, actor_type, rules[0]) + create_rules_violations(
            p,
            actor_type,
            rules.drop_first(),
        )
    }
}

/// The sensitivity ceiling for agents: the first `EgressControl` rule's
/// ceiling, or `internal` when none is configured.
pub open spec fn agent_max_sensitivity_spec(rules: Seq<PolicyRuleView>) -> Sensitivity
    decreases rules.len(),
{
    if rules.len() == 0 {
        Sensitivity::Internal
    } else {
        match rules[0] {
            PolicyRuleView::EgressControl { max_sensitivity, .. } => max_sensitivity,
            _ => agent_max_sensitivity_spec(rules.drop_first()),
        }
    }
}

/// The violation one operation contributes when an agent creates a node
/// above the ceiling.
pub open spec fn restricted_op_violations(op: OperationView, ceiling: Sensitivity) -> Seq<
    PolicyViolationView,
> {
    match op {
        OperationView::Create { node, .. } => match node.metadata.sensitivity {
            Some(s) => {
                if sensitivity_rank(s) > sensitivity_rank(ceiling) {
                    seq![
                        violation(
                            "agent_restricted_modification"@,
                            "agents cannot create nodes above the allowed sensitivity"@,
                        ),
                    ]
                } else {
                    Seq::empty()
                }
            },
            None => Seq::empty(),
        },
        _ => Seq::empty(),
    }
}

/// The violations an agent's operations contribute against the ceiling, in
/// operation order.
pub open spec fn restricted_ops_violations(ops: Seq<OperationView>, ceiling: Sensitivity) -> Seq<
    PolicyViolationView,
>
    decreases ops.len(),
{
    if ops.len() == 0 {
        Seq::empty()
    } else {
        restricted_op_violations(ops[0], ceiling) + restricted_ops_violations(
            ops.drop_first(),
            ceiling,
        )
    }
}

/// The sensitivity gate at creation: agents only, against the configured
/// ceiling.
pub open spec fn restricted_modification_violations(
    p: ProposalView,
    actor_type: Seq<char>,
    rules: Seq<PolicyRuleView>,
) -> Seq<PolicyViolationView> {
    if actor_type == "agent"@ {
        restricted_ops_violations(p.operations, agent_max_sensitivity_spec(rules))
    } else {
        Seq::empty()
    }
}

/// Everything the create hook reports: rule violations in rule order, then
/// the sensitivity gate's violations in operation order.
pub open spec fn create_violations_spec(
    p: ProposalView,
    actor_type: Seq<char>,
    rules: Seq<PolicyRuleView>,
) -> Seq<PolicyViolationView> {
    create_rules_violations(p, actor_type, rules) + restricted_modification_violations(
        p,
        actor_type,
        rules,
    )
}

/// Whether a review accepts.
pub open spec fn is_accept(r: ReviewView) -> bool {
    r.action == ReviewAction::Accept
}

/// Whether a review rejects.
pub open spec fn is_reject(r: ReviewView) -> bool {
    r.action == ReviewAction::Reject
}

/// Whether any review rejects.
pub open spec fn has_rejection(reviews: Seq<ReviewView>) -> bool {
    exists|i: int| 0 <= i < reviews.len() && is_reject(#[trigger] reviews[i])
}

/// How many reviews accept.
pub open spec fn accept_count(reviews: Seq<ReviewView>) -> int {
    count_matching(reviews, |r: ReviewView| is_accept(r))
}

/// Whether some accepting review carries the given review role.
pub open spec fn accept_with_role(reviews: Seq<ReviewView>, role: Seq<char>) -> bool {
    exists|i: int|
        0 <= i < reviews.len() && (is_accept(#[trigger] reviews[i]) && reviews[i].reviewer_role
            == Some(role))
}

/// The number of accepting reviews the proposal needs: the largest
/// applicable `MinApprovals` bound, and at least one.
pub open spec fn min_approvals_needed(p: ProposalView, rules: Seq<PolicyRuleView>) -> int
    decreases rules.len(),
{
    if rules.len() == 0 {
        1
    } else {
        let rest = min_approvals_needed(p, rules.drop_first());
        let here = match rules[0] {
            PolicyRuleView::MinApprovals { node_types, min } => {
                if rule_applies(p, node_types) {
                    min as int
                } else {
                    1
                }
            },
            _ => 1,
        };
        if here > rest {
            here
        } else {
            rest
        }
    }
}

/// The violations the review hook reports, in rule order: each applicable
/// `RequiredReviewerRole` rule not yet satisfied by an accepting review.
pub open spec fn review_violations_spec(
    p: ProposalView,
    reviews: Seq<ReviewView>,
    rules: Seq<PolicyRuleView>,
) -> Seq<PolicyViolationView>
    decreases rules.len(),
{
    if rules.len() == 0 {
        Seq::empty()
    } else {
        (match rules[0] {
            PolicyRuleView::RequiredReviewerRole { node_types, role } => {
                if rule_applies(p, node_types) && !accept_with_role(reviews, role) {
                    seq![
                        violation(
                            "required_reviewer_role"@,
                            "requires an accepting review with role "@ + role,
                        ),
                    ]
                } else {
                    Seq::empty()
                }
            },
            _ => Seq::empty(),
        }) + review_violations_spec(p, reviews, rules.drop_first())
    }
}

/// The decision the review hook returns: a single rejection dominates;
/// otherwise the proposal is accepted once enough accepting reviews are in
/// and every required review role is present; otherwise it stays pending.
pub open spec fn review_decision_spec(
    p: ProposalView,
    reviews: Seq<ReviewView>,
    rules: Seq<PolicyRuleView>,
) -> Option<ProposalStatus> {
    if has_rejection(reviews) {
        Some(ProposalStatus::Rejected)
    } else if accept_count(reviews) >= min_approvals_needed(p, rules) && review_violations_spec(
        p,
        reviews,
        rules,
    ).len() == 0 {
        Some(ProposalStatus::Accepted)
    } else {
        None
    }
}

/// The violations one rule contributes at apply time, given the current
/// UTC weekday and hour.
pub open spec fn apply_rule_violations(
    actor_type: Seq<char>,
    rule: PolicyRuleView,
    weekday: u8,
    hour: u8,
) -> Seq<PolicyViolationView> {
    match rule {
        PolicyRuleView::ChangeWindow { allowed_days, allowed_hour_start, allowed_hour_end } => {
            (if !allowed_days.contains(weekday) {
                seq![violation("change_window"@, "apply not allowed on this weekday"@)]
            } else {
                Seq::empty()
            }) + (if hour < allowed_hour_start || hour >= allowed_hour_end {
                seq![violation("change_window"@, "apply not allowed at this hour"@)]
            } else {
                Seq::empty()
            })
        },
        PolicyRuleView::AgentRestriction { blocked_actions } => {
            if actor_type == "agent"@ && blocked_actions.contains("apply"@) {
                seq![violation("agent_restriction"@, "agents cannot apply proposals"@)]
            } else {
                Seq::empty()
            }
        },
        _ => Seq::empty(),
    }
}

/// The violations the apply hook reports, in rule order, given the current
/// UTC weekday and hour.
pub open spec fn apply_violations_spec(
    actor_type: Seq<char>,
    rules: Seq<PolicyRuleView>,
    weekday: u8,
    hour: u8,
) -> Seq<PolicyViolationView>
    decreases rules.len(),
{
    if rules.len() == 0 {
        Seq::empty()
    } else {
        apply_rule_violations(actor_type, rules[0], weekday, hour) + apply_violations_spec(
            actor_type,
            rules.drop_first(),
            weekday,
            hour,
        )
    }
}

/// Whether the proposal's operations create a node of one of the listed
/// types.
fn proposal_touches_node_types(proposal: &Proposal, node_types: &Vec<String>) -> (r: bool)
    ensures
        r == touches_node_types(proposal.operations.deep_view(), node_types.deep_view()),
{
    let ops = &proposal.operations;
    let mut i: usize = 0;
    while i < ops.len()
        invariant
            i <= ops.len(),
            ops.deep_view() == proposal.operations.deep_view(),
            forall|j: int|
                0 <= j < i ==> !op_creates_listed_type(
                    #[trigger] ops.deep_view()[j],
                    node_types.deep_view(),
                ),
        decreases ops.len() - i,
    {
        let hit = match &ops[i] {
            Operation::Create { node, .. } => {
                let h = vec_contains_str(node_types, node.node_type.as_str());
                proof {
                    assert(ops.deep_view()[i as int] == ops@[i as int].deep_view());
                    assert(h == op_creates_listed_type(
                        ops.deep_view()[i as int],
                        node_types.deep_view(),
                    ));
                }
                h
            },
            _ => {
                proof {
                    assert(ops.deep_view()[i as int] == ops@[i as int].deep_view());
                    assert(!op_creates_listed_type(
                        ops.deep_view()[i as int],
                        node_types.deep_view(),
                    ));
                }
                false
            },
        };
        if hit {
            proof {
                assert(touches_node_types(ops.deep_view(), node_types.deep_view())) by {
                    assert((i as int) < ops.deep_view().len());
                    assert(op_creates_listed_type(
                        ops.deep_view()[i as int],
                        node_types.deep_view(),
                    ));
                }
            }
            return true;
        }
        i = i + 1;
    }
    proof {
        if touches_node_types(ops.deep_view(), node_types.deep_view()) {
            let j = choose|j: int|
                0 <= j < ops.deep_view().len() && op_creates_listed_type(
                    #[trigger] ops.deep_view()[j],
                    node_types.deep_view(),
                );
            assert(!op_creates_listed_type(ops.deep_view()[j], node_types.deep_view()));
        }
    }
    false
}

/// Whether the total content across operations exceeds `max` bytes.
fn content_exceeds(ops: &Vec<Operation>, max: u32) -> (r: bool)
    ensures
        r == (ops_content_len(ops.deep_view()) > max),
{
    let mut total: u64 = 0;
    let mut i: usize = 0;
    proof {
        assert(ops.deep_view().skip(0) =~= ops.deep_view());
    }
    while i < ops.len()
        invariant
            i <= ops.len(),
            total <= max,
            ops_content_len(ops.deep_view()) == total + ops_content_len(
                ops.deep_view().skip(i as int),
            ),
        decreases ops.len() - i,
    {
        proof {
            let rest = ops.deep_view().skip(i as int);
            assert(rest[0] == ops.deep_view()[i as int]);
            assert(ops.deep_view()[i as int] == ops@[i as int].deep_view());
            assert(rest.drop_first() =~= ops.deep_view().skip(i as int + 1));
            lemma_ops_content_len_nonneg(ops.deep_view().skip(i as int + 1));
        }
        let added: Option<u64> = match &ops[i] {
            Operation::Create { node, .. } => crate::text::add_utf8_len(
                total,
                node.content.as_str(),
                max,
            ),
            Operation::Update { changes, .. } => match &changes.content {
                Option::Some(c) => crate::text::add_utf8_len(total, c.as_str(), max),
                Option::None => Option::Some(total),
            },
            _ => Option::Some(total),
        };
        proof {
            assert(match added {
                Some(t) => t == total + op_content_len(ops.deep_view()[i as int]) && t <= max,
                None => total + op_content_len(ops.deep_view()[i as int]) > max,
            });
        }
        match added {
            Option::None => {
                return true;
            },
            Option::Some(t) => {
                total = t;
            },
        }
        i = i + 1;
    }
    proof {
        assert(ops.deep_view().skip(ops.len() as int).len() == 0);
    }
    false
}

/// The sensitivity ceiling for agents, from the first `EgressControl`
/// rule; `internal` when none is configured.
pub fn agent_max_sensitivity(policies: &PolicyConfig) -> (r: Sensitivity)
    ensures
        r == agent_max_sensitivity_spec(policies.deep_view()),
{
    let rules = &policies.rules;
    let mut i: usize = 0;
    proof {
        assert(rules.deep_view().skip(0) =~= rules.deep_view());
    }
    while i < rules.len()
        invariant
            i <= rules.len(),
            agent_max_sensitivity_spec(policies.deep_view()) == agent_max_sensitivity_spec(
                rules.deep_view().skip(i as int),
            ),
            policies.deep_view() == rules.deep_view(),
        decreases rules.len() - i,
    {
        proof {
            let rest = rules.deep_view().skip(i as int);
            assert(rest[0] == rules.deep_view()[i as int]);
            assert(rules.deep_view()[i as int] == rules@[i as int].deep_view());
            assert(rest.drop_first() =~= rules.deep_view().skip(i as int + 1));
        }
        match &rules[i] {
            PolicyRule::EgressControl { max_sensitivity, .. } => {
                return *max_sensitivity;
            },
            _ => {},
        }
        i = i + 1;
    }
    proof {
        assert(rules.deep_view().skip(rules.len() as int).len() == 0);
    }
    Sensitivity::Internal
}

/// Appends the sensitivity-gate violations for each operation, in order.
fn push_restricted_violations(
    out: &mut Vec<PolicyViolation>,
    ops: &Vec<Operation>,
    ceiling: Sensitivity,
)
    ensures
        final(out).deep_view() == old(out).deep_view() + restricted_ops_violations(
            ops.deep_view(),
            ceiling,
        ),
{
    let ghost base = out.deep_view();
    let mut i: usize = 0;
    proof {
        assert(ops.deep_view().skip(0) =~= ops.deep_view());
        assert(base + restricted_ops_violations(ops.deep_view(), ceiling) == out.deep_view()
            + restricted_ops_violations(ops.deep_view().skip(0), ceiling));
    }
    while i < ops.len()
        invariant
            i <= ops.len(),
            base + restricted_ops_violations(ops.deep_view(), ceiling) == out.deep_view()
                + restricted_ops_violations(ops.deep_view().skip(i as int), ceiling),
        decreases ops.len() - i,
    {
        proof {
            let rest = ops.deep_view().skip(i as int);
            assert(rest[0] == ops.deep_view()[i as int]);
            assert(ops.deep_view()[i as int] == ops@[i as int].deep_view());
            assert(rest.drop_first() =~= ops.deep_view().skip(i as int + 1));
        }
        match &ops[i] {
            Operation::Create { node, .. } => {
                match &node.metadata.sensitivity {
                    Option::Some(s) => {
                        if s.rank() > ceiling.rank() {
                            out.push(
                                PolicyViolation {
                                    rule: "agent_restricted_modification".to_owned(),
                                    message:
                                    "agents cannot create nodes above the allowed sensitivity".to_owned(),
                                },
                            );
                            proof {
                                assert(out.deep_view() =~= out.deep_view().drop_last().push(
                                    out.deep_view().last(),
                                ));
                            }
                        }
                    },
                    Option::None => {},
                }
            },
            _ => {},
        }
        proof {
            assert(out.deep_view() + restricted_ops_violations(
                ops.deep_view().skip(i as int + 1),
                ceiling,
            ) =~= base + restricted_ops_violations(ops.deep_view(), ceiling));
        }
        i = i + 1;
    }
    proof {
        assert(ops.deep_view().skip(ops.len() as int).len() == 0);
        assert(out.deep_view() =~= base + restricted_ops_violations(ops.deep_view(), ceiling));
    }
}

/// Evaluates the policy rules for a proposal being created. An empty result
/// means the proposal passes.
pub fn evaluate_on_create(
    proposal: &Proposal,
    actor_type: &str,
    policies: &PolicyConfig,
) -> (r: Vec<PolicyViolation>)
    ensures
        r.deep_view() == create_violations_spec(
            proposal.deep_view(),
            actor_type@,
            policies.deep_view(),
        ),
{
    let rules = &policies.rules;
    let mut out: Vec<PolicyViolation> = Vec::new();
    let is_agent = crate::text::str_eq(actor_type, "agent");
    let mut i: usize = 0;
    proof {
        assert(rules.deep_view().skip(0) =~= rules.deep_view());
    }
    while i < rules.len()
        invariant
            i <= rules.len(),
            policies.deep_view() == rules.deep_view(),
            is_agent == (actor_type@ == "agent"@),
            create_rules_violations(proposal.deep_view(), actor_type@, rules.deep_view())
                == out.deep_view() + create_rules_violations(
                proposal.deep_view(),
                actor_type@,
                rules.deep_view().skip(i as int),
            ),
        decreases rules.len() - i,
    {
        proof {
            let rest = rules.deep_view().skip(i as int);
            assert(rest[0] == rules.deep_view()[i as int]);
            assert(rules.deep_view()[i as int] == rules@[i as int].deep_view());
            assert(rest.drop_first() =~= rules.deep_view().skip(i as int + 1));
        }
        match &rules[i] {
            PolicyRule::AgentProposalLimit { max_operations, max_content_length } => {
                if is_agent {
                    if proposal.operations.len() > *max_operations as usize {
                        out.push(
                            PolicyViolation {
                                rule: "agent_proposal_limit".to_owned(),
                                message: "agent proposal exceeds the operation limit".to_owned(),
                            },
                        );
                    }
                    if content_exceeds(&proposal.operations, *max_content_length) {
                        out.push(
                            PolicyViolation {
                                rule: "agent_proposal_limit".to_owned(),
                                message:
                                "agent proposal content exceeds the length limit".to_owned(),
                            },
                        );
                    }
                }
            },
            _ => {},
        }
        proof {
            assert(out.deep_view() + create_rules_violations(
                proposal.deep_view(),
                actor_type@,
                rules.deep_view().skip(i as int + 1),
            ) =~= create_rules_violations(proposal.deep_view(), actor_type@, rules.deep_view()));
        }
        i = i + 1;
    }
    proof {
        assert(rules.deep_view().skip(rules.len() as int).len() == 0);
    }
    if is_agent {
        let ceiling = agent_max_sensitivity(policies);
        push_restricted_violations(&mut out, &proposal.operations, ceiling);
    }
    proof {
        assert(out.deep_view() =~= create_violations_spec(
            proposal.deep_view(),
            actor_type@,
            policies.deep_view(),
        ));
    }
    out
}

/// The sensitivity gate alone: the violations an agent's proposal draws
/// from creating nodes above the configured ceiling.
pub fn check_agent_restricted_node_modification(
    proposal: &Proposal,
    actor_type: &str,
    policies: &PolicyConfig,
) -> (r: Vec<PolicyViolation>)
    ensures
        r.deep_view() == restricted_modification_violations(
            proposal.deep_view(),
            actor_type@,
            policies.deep_view(),
        ),
{
    let mut out: Vec<PolicyViolation> = Vec::new();
    if crate::text::str_eq(actor_type, "agent") {
        let ceiling = agent_max_sensitivity(policies);
        push_restricted_violations(&mut out, &proposal.operations, ceiling);
    }
    proof {
        assert(out.deep_view() =~= restricted_modification_violations(
            proposal.deep_view(),
            actor_type@,
            policies.deep_view(),
        ));
    }
    out
}

/// Evaluates the policy rules over a proposal's full review history.
/// Returns the proposal's next status, if the rules decide one, and the
/// outstanding violations: a rejection decides immediately; acceptance
/// needs enough accepting reviews and every required review role.
pub fn evaluate_on_review(
    proposal: &Proposal,
    all_reviews: &Vec<Review>,
    policies: &PolicyConfig,
) -> (r: (Option<ProposalStatus>, Vec<PolicyViolation>))
    ensures
        r.0 == review_decision_spec(
            proposal.deep_view(),
            all_reviews.deep_view(),
            policies.deep_view(),
        ),
        r.1.deep_view() == (if has_rejection(all_reviews.deep_view()) {
            Seq::<PolicyViolationView>::empty()
        } else {
            review_violations_spec(
                proposal.deep_view(),
                all_reviews.deep_view(),
                policies.deep_view(),
            )
        }),
{
    let mut rejected = false;
    let mut accepts: u64 = 0;
    let mut i: usize = 0;
    proof {
        lemma_count_matching_bounds(
            all_reviews.deep_view(),
            |rv: ReviewView| is_accept(rv),
        );
        assert(all_reviews.deep_view().skip(0) =~= all_reviews.deep_view());
    }
    while i < all_reviews.len()
        invariant
            i <= all_reviews.len(),
            accepts <= i,
            rejected == (exists|j: int|
                0 <= j < i && is_reject(#[trigger] all_reviews.deep_view()[j])),
            accept_count(all_reviews.deep_view()) == accepts + count_matching(
                all_reviews.deep_view().skip(i as int),
                |rv: ReviewView| is_accept(rv),
            ),
        decreases all_reviews.len() - i,
    {
        proof {
            let rest = all_reviews.deep_view().skip(i as int);
            assert(rest[0] == all_reviews.deep_view()[i as int]);
            assert(all_reviews.deep_view()[i as int] == all_reviews@[i as int].deep_view());
            assert(rest.drop_first() =~= all_reviews.deep_view().skip(i as int + 1));
        }
        if all_reviews[i].action == ReviewAction::Reject {
            rejected = true;
            proof {
                assert(is_reject(all_reviews.deep_view()[i as int]));
            }
        }
        if all_reviews[i].action == ReviewAction::Accept {
            accepts = accepts + 1;
        }
        i = i + 1;
    }
    proof {
        assert(all_reviews.deep_view().skip(all_reviews.len() as int).len() == 0);
        assert(rejected == has_rejection(all_reviews.deep_view()));
    }
    if rejected {
        return (Some(ProposalStatus::Rejected), Vec::new());
    }
    let needed = min_approvals(proposal, policies);
    let violations = role_violations(proposal, all_reviews, policies);
    if accepts >= needed as u64 && violations.len() == 0 {
        proof {
            assert(violations.deep_view().len() == 0);
        }
        (Some(ProposalStatus::Accepted), violations)
    } else {
        proof {
            if violations.len() != 0 {
                assert(violations.deep_view().len() == violations@.len());
            }
        }
        (None, violations)
    }
}

/// The needed approvals are always at least one.
pub proof fn lemma_min_approvals_needed_ge_1(p: ProposalView, rules: Seq<PolicyRuleView>)
    ensures
        min_approvals_needed(p, rules) >= 1,
    decreases rules.len(),
{
    if rules.len() > 0 {
        lemma_min_approvals_needed_ge_1(p, rules.drop_first());
    }
}

/// The largest applicable `MinApprovals` bound, and at least one.
fn min_approvals(proposal: &Proposal, policies: &PolicyConfig) -> (r: u32)
    ensures
        r == min_approvals_needed(proposal.deep_view(), policies.deep_view()),
{
    let rules = &policies.rules;
    let mut acc: u32 = 1;
    let mut i: usize = 0;
    proof {
        assert(rules.deep_view().skip(0) =~= rules.deep_view());
        lemma_min_approvals_needed_ge_1(proposal.deep_view(), policies.deep_view());
    }
    while i < rules.len()
        invariant
            i <= rules.len(),
            policies.deep_view() == rules.deep_view(),
            acc >= 1,
            min_approvals_needed(proposal.deep_view(), policies.deep_view()) == (if acc
                > min_approvals_needed(
                proposal.deep_view(),
                rules.deep_view().skip(i as int),
            ) {
                acc as int
            } else {
                min_approvals_needed(proposal.deep_view(), rules.deep_view().skip(i as int))
            }),
        decreases rules.len() - i,
    {
        proof {
            let rest = rules.deep_view().skip(i as int);
            assert(rest[0] == rules.deep_view()[i as int]);
            assert(rules.deep_view()[i as int] == rules@[i as int].deep_view());
            assert(rest.drop_first() =~= rules.deep_view().skip(i as int + 1));
        }
        match &rules[i] {
            PolicyRule::MinApprovals { node_types, min } => {
                if proposal_touches_node_types(proposal, node_types) || node_types.len() == 0 {
                    if *min > acc {
                        acc = *min;
                    }
                }
            },
            _ => {},
        }
        i = i + 1;
    }
    proof {
        assert(rules.deep_view().skip(rules.len() as int).len() == 0);
    }
    acc
}

/// The outstanding `RequiredReviewerRole` violations, in rule order.
fn role_violations(
    proposal: &Proposal,
    all_reviews: &Vec<Review>,
    policies: &PolicyConfig,
) -> (r: Vec<PolicyViolation>)
    ensures
        r.deep_view() == review_violations_spec(
            proposal.deep_view(),
            all_reviews.deep_view(),
            policies.deep_view(),
        ),
{
    let rules = &policies.rules;
    let mut out: Vec<PolicyViolation> = Vec::new();
    let mut i: usize = 0;
    proof {
        assert(rules.deep_view().skip(0) =~= rules.deep_view());
    }
    while i < rules.len()
        invariant
            i <= rules.len(),
            policies.deep_view() == rules.deep_view(),
            review_violations_spec(
                proposal.deep_view(),
                all_reviews.deep_view(),
                rules.deep_view(),
            ) == out.deep_view() + review_violations_spec(
                proposal.deep_view(),
                all_reviews.deep_view(),
                rules.deep_view().skip(i as int),
            ),
        decreases rules.len() - i,
    {
        proof {
            let rest = rules.deep_view().skip(i as int);
            assert(rest[0] == rules.deep_view()[i as int]);
            assert(rules.deep_view()[i as int] == rules@[i as int].deep_view());
            assert(rest.drop_first() =~= rules.deep_view().skip(i as int + 1));
        }
        match &rules[i] {
            PolicyRule::RequiredReviewerRole { node_types, role } => {
                let applies = node_types.len() == 0 || proposal_touches_node_types(
                    proposal,
                    node_types,
                );
                if applies && !has_accept_with_role(all_reviews, role) {
                    let mut msg = String::new();
                    msg.append("requires an accepting review with role ");
                    msg.append(role.as_str());
                    out.push(
                        PolicyViolation { rule: "required_reviewer_role".to_owned(), message: msg },
                    );
                }
            },
            _ => {},
        }
        proof {
            assert(out.deep_view() + review_violations_spec(
                proposal.deep_view(),
                all_reviews.deep_view(),
                rules.deep_view().skip(i as int + 1),
            ) =~= review_violations_spec(
                proposal.deep_view(),
                all_reviews.deep_view(),
                rules.deep_view(),
            ));
        }
        i = i + 1;
    }
    proof {
        assert(rules.deep_view().skip(rules.len() as int).len() == 0);
        assert(out.deep_view() =~= review_violations_spec(
            proposal.deep_view(),
            all_reviews.deep_view(),
            policies.deep_view(),
        ));
    }
    out
}

/// Whether some accepting review carries the given review role.
fn has_accept_with_role(all_reviews: &Vec<Review>, role: &String) -> (r: bool)
    ensures
        r == accept_with_role(all_reviews.deep_view(), role@),
{
    let mut i: usize = 0;
    while i < all_reviews.len()
        invariant
            i <= all_reviews.len(),
            forall|j: int|
                0 <= j < i ==> !(is_accept(#[trigger] all_reviews.deep_view()[j])
                    && all_reviews.deep_view()[j].reviewer_role == Some(role@)),
        decreases all_reviews.len() - i,
    {
        proof {
            assert(all_reviews.deep_view()[i as int] == all_reviews@[i as int].deep_view());
        }
        let rv = &all_reviews[i];
        if rv.action == ReviewAction::Accept {
            match &rv.reviewer_role {
                Option::Some(rr) => {
                    if crate::text::str_eq(rr.as_str(), role.as_str()) {
                        proof {
                            assert(is_accept(all_reviews.deep_view()[i as int]));
                            assert(all_reviews.deep_view()[i as int].reviewer_role == Some(role@));
                        }
                        return true;
                    }
                },
                Option::None => {},
            }
        }
        i = i + 1;
    }
    proof {
        if accept_with_role(all_reviews.deep_view(), role@) {
            let j = choose|j: int|
                0 <= j < all_reviews.deep_view().len() && (is_accept(
                    #[trigger] all_reviews.deep_view()[j],
                ) && all_reviews.deep_view()[j].reviewer_role == Some(role@));
            assert(!(is_accept(all_reviews.deep_view()[j])
                && all_reviews.deep_view()[j].reviewer_role == Some(role@)));
        }
    }
    false
}

/// Evaluates the policy rules for an apply at the given UTC weekday
/// (0 = Monday .. 6 = Sunday) and hour of day.
pub fn evaluate_on_apply_at(
    actor_type: &str,
    policies: &PolicyConfig,
    weekday: u8,
    hour: u8,
) -> (r: Vec<PolicyViolation>)
    ensures
        r.deep_view() == apply_violations_spec(actor_type@, policies.deep_view(), weekday, hour),
{
    let rules = &policies.rules;
    let mut out: Vec<PolicyViolation> = Vec::new();
    let is_agent = crate::text::str_eq(actor_type, "agent");
    let mut i: usize = 0;
    proof {
        assert(rules.deep_view().skip(0) =~= rules.deep_view());
    }
    while i < rules.len()
        invariant
            i <= rules.len(),
            policies.deep_view() == rules.deep_view(),
            is_agent == (actor_type@ == "agent"@),
            apply_violations_spec(actor_type@, rules.deep_view(), weekday, hour) == out.deep_view()
                + apply_violations_spec(
                actor_type@,
                rules.deep_view().skip(i as int),
                weekday,
                hour,
            ),
        decreases rules.len() - i,
    {
        proof {
            let rest = rules.deep_view().skip(i as int);
            assert(rest[0] == rules.deep_view()[i as int]);
            assert(rules.deep_view()[i as int] == rules@[i as int].deep_view());
            assert(rest.drop_first() =~= rules.deep_view().skip(i as int + 1));
        }
        let ghost prev = out.deep_view();
        match &rules[i] {
            PolicyRule::ChangeWindow { allowed_days, allowed_hour_start, allowed_hour_end } => {
                proof {
                    assert(allowed_days.deep_view() =~= allowed_days@);
                }
                if !vec_contains_u8(allowed_days, weekday) {
                    let ghost v1 = out;
                    let viol = PolicyViolation {
                        rule: "change_window".to_owned(),
                        message: "apply not allowed on this weekday".to_owned(),
                    };
                    out.push(viol);
                    proof {
                        lemma_push_deep_view(v1, out, viol);
                    }
                }
                if hour < *allowed_hour_start || hour >= *allowed_hour_end {
                    let ghost v1 = out;
                    let viol = PolicyViolation {
                        rule: "change_window".to_owned(),
                        message: "apply not allowed at this hour".to_owned(),
                    };
                    out.push(viol);
                    proof {
                        lemma_push_deep_view(v1, out, viol);
                    }
                }
            },
            PolicyRule::AgentRestriction { blocked_actions } => {
                if is_agent && vec_contains_str(blocked_actions, "apply") {
                    let ghost v1 = out;
                    let viol = PolicyViolation {
                        rule: "agent_restriction".to_owned(),
                        message: "agents cannot apply proposals".to_owned(),
                    };
                    out.push(viol);
                    proof {
                        lemma_push_deep_view(v1, out, viol);
                    }
                }
            },
            _ => {},
        }
        proof {
            assert(out.deep_view() =~= prev + apply_rule_violations(
                actor_type@,
                rules.deep_view()[i as int],
                weekday,
                hour,
            ));
            assert(out.deep_view() + apply_violations_spec(
                actor_type@,
                rules.deep_view().skip(i as int + 1),
                weekday,
                hour,
            ) =~= apply_violations_spec(actor_type@, rules.deep_view(), weekday, hour));
        }
        i = i + 1;
    }
    proof {
        assert(rules.deep_view().skip(rules.len() as int).len() == 0);
        assert(out.deep_view() =~= apply_violations_spec(
            actor_type@,
            policies.deep_view(),
            weekday,
            hour,
        ));
    }
    out
}

/// Evaluates the policy rules for an apply happening now: the result is
/// what `evaluate_on_apply_at` reports for the current UTC weekday and
/// hour.
pub fn evaluate_on_apply(
    proposal: &Proposal,
    actor_type: &str,
    policies: &PolicyConfig,
) -> (r: Vec<PolicyViolation>)
    ensures
        exists|weekday: u8, hour: u8|
            weekday < 7 && hour < 24 && r.deep_view() == apply_violations_spec(
                actor_type@,
                policies.deep_view(),
                weekday,
                hour,
            ),
{
    let _ = proposal;
    let (weekday, hour) = crate::clock::utc_weekday_hour();
    let r = evaluate_on_apply_at(actor_type, policies, weekday, hour);
    proof {
        assert(weekday < 7 && hour < 24 && r.deep_view() == apply_violations_spec(
            actor_type@,
            policies.deep_view(),
            weekday,
            hour,
        ));
    }
    r
}

/// Review determinism: the review hook's decision depends only on which
/// reviews were submitted, never on the order they arrived in; and a single
/// rejection always dominates.
pub proof fn lemma_review_determinism(
    p: ProposalView,
    reviews1: Seq<ReviewView>,
    reviews2: Seq<ReviewView>,
    rules: Seq<PolicyRuleView>,
)
    requires
        reviews1.to_multiset() == reviews2.to_multiset(),
    ensures
        review_decision_spec(p, reviews1, rules) == review_decision_spec(p, reviews2, rules),
        has_rejection(reviews1) ==> review_decision_spec(p, reviews1, rules) == Some(
            ProposalStatus::Rejected,
        ),
{
    lemma_exists_matching_permutation(reviews1, reviews2, |rv: ReviewView| is_reject(rv));
    assert(has_rejection(reviews1) == has_rejection(reviews2));
    lemma_count_matching_permutation(reviews1, reviews2, |rv: ReviewView| is_accept(rv));
    lemma_review_violations_permutation(p, reviews1, reviews2, rules);
}

/// The outstanding role violations are likewise determined by which
/// reviews were submitted.
proof fn lemma_review_violations_permutation(
    p: ProposalView,
    reviews1: Seq<ReviewView>,
    reviews2: Seq<ReviewView>,
    rules: Seq<PolicyRuleView>,
)
    requires
        reviews1.to_multiset() == reviews2.to_multiset(),
    ensures
        review_violations_spec(p, reviews1, rules) == review_violations_spec(p, reviews2, rules),
    decreases rules.len(),
{
    if rules.len() > 0 {
        match rules[0] {
            PolicyRuleView::RequiredReviewerRole { node_types, role } => {
                lemma_exists_matching_permutation(
                    reviews1,
                    reviews2,
                    |rv: ReviewView| is_accept(rv) && rv.reviewer_role == Some(role),
                );
                assert(accept_with_role(reviews1, role) == accept_with_role(reviews2, role));
            },
            _ => {},
        }
        lemma_review_violations_permutation(p, reviews1, reviews2, rules.drop_first());
    }
}

} // verus!

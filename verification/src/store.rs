//! The in-memory context store: the transactional boundary that owns every
//! node, proposal, review and audit event.
//!
//! The store's state is modelled by [`StoreView`]; every operation's
//! contract says exactly how it reads or rewrites that model. Callers
//! receive deep copies; the store alone mutates its state.

use vstd::prelude::*;
use vstd::pervasive::VecAdditionalExecFns;
use vstd::string::StringExecFns;

use crate::audit::{AuditEvent, AuditEventView, audit_action_name};
use crate::query::{NodeQuery, NodeQueryResult, NodeQueryResultView, NodeQueryView, ProposalQuery, ProposalQueryView};
use crate::text::{contains_seq, lex_le, lower_of, lowercase, str_contains, str_lex_le};
use crate::proposal::BaseVersionView;
use crate::proposal::UpdateChangesView;
use crate::node::NodeType;
use crate::conflicts::{ConflictDetectionResult, ConflictDetectionResultView, ConflictSeverity, FieldChange, FieldChangeView, MergeConflictField, MergeConflictFieldView, MergeResult, MergeResultView, MergeValue, MergeValueView, ProposalConflict, ProposalConflictView};
use crate::support::vec_contains_str;
use crate::node::{ContextNode, NodeId, NodeIdView, NodeMetadataView, NodeStatus, NodeView, key_of};
use crate::proposal::AppliedMetadata;
use crate::proposal::AppliedMetadataView;
use crate::proposal::{Comment, Operation, OperationView, Proposal, ProposalMetadataView, ProposalPatch, ProposalPatchView, ProposalStatus, ProposalView, Review, ReviewAction, ReviewView, proposal_status_of_name};
use crate::sensitivity::sha256_hex_of;
use crate::support::{first_idx, lemma_first_idx, lemma_first_idx_is, lemma_first_idx_none, lemma_first_idx_same_pred, lemma_push_deep_view};
use crate::text::{dec_of, str_eq, u64_to_string};

verus! {

/// An error a store operation can return.
#[derive(Debug)]
pub enum StoreError {
    NotFound(String),
    Conflict(String),
    Invalid(String),
    Internal(String),
}

/// Mathematical view of a `StoreError`.
pub ghost enum StoreErrorView {
    NotFound(Seq<char>),
    Conflict(Seq<char>),
    Invalid(Seq<char>),
    Internal(Seq<char>),
}

impl DeepView for StoreError {
    type V = StoreErrorView;

    open spec fn deep_view(&self) -> StoreErrorView {
        match self {
            StoreError::NotFound(m) => StoreErrorView::NotFound(m.deep_view()),
            StoreError::Conflict(m) => StoreErrorView::Conflict(m.deep_view()),
            StoreError::Invalid(m) => StoreErrorView::Invalid(m.deep_view()),
            StoreError::Internal(m) => StoreErrorView::Internal(m.deep_view()),
        }
    }
}

impl StoreError {
    /// A short description of the error, kind first.
    pub fn describe(&self) -> (r: String)
        ensures
            r@ == (match self.deep_view() {
                StoreErrorView::NotFound(m) => "not found: "@ + m,
                StoreErrorView::Conflict(m) => "conflict: "@ + m,
                StoreErrorView::Invalid(m) => "invalid: "@ + m,
                StoreErrorView::Internal(m) => "internal: "@ + m,
            }),
    {
        match self {
            StoreError::NotFound(m) => {
                let mut s = "not found: ".to_owned();
                s.append(m.as_str());
                s
            },
            StoreError::Conflict(m) => {
                let mut s = "conflict: ".to_owned();
                s.append(m.as_str());
                s
            },
            StoreError::Invalid(m) => {
                let mut s = "invalid: ".to_owned();
                s.append(m.as_str());
                s
            },
            StoreError::Internal(m) => {
                let mut s = "internal: ".to_owned();
                s.append(m.as_str());
                s
            },
        }
    }
}

/// The mathematical state of the store.
pub ghost struct StoreView {
    pub nodes: Seq<NodeView>,
    pub proposals: Seq<ProposalView>,
    /// Every review ever submitted, in submission order.
    pub reviews: Seq<ReviewView>,
    /// The process-wide revision counter.
    pub revision: u64,
    /// The append-only audit log.
    pub audit: Seq<AuditEventView>,
}

/// Whether the node at this key is present, and its index.
pub open spec fn node_idx(nodes: Seq<NodeView>, key: Seq<char>) -> Option<int> {
    first_idx(nodes, |n: NodeView| n.key() == key)
}

/// The node stored under this key, if any.
pub open spec fn lookup_node(nodes: Seq<NodeView>, key: Seq<char>) -> Option<NodeView> {
    match node_idx(nodes, key) {
        None => None,
        Some(i) => Some(nodes[i]),
    }
}

/// Whether the proposal with this id is present, and its index.
pub open spec fn proposal_idx(proposals: Seq<ProposalView>, id: Seq<char>) -> Option<int> {
    first_idx(proposals, |p: ProposalView| p.id == id)
}

/// The proposal with this id, if any.
pub open spec fn lookup_proposal(proposals: Seq<ProposalView>, id: Seq<char>) -> Option<
    ProposalView,
> {
    match proposal_idx(proposals, id) {
        None => None,
        Some(i) => Some(proposals[i]),
    }
}

/// No two stored nodes share a key.
pub open spec fn unique_node_keys(nodes: Seq<NodeView>) -> bool {
    forall|i: int, j: int|
        0 <= i < j < nodes.len() ==> (#[trigger] nodes[i]).key() != (#[trigger] nodes[j]).key()
}

/// No two stored proposals share an id.
pub open spec fn unique_proposal_ids(proposals: Seq<ProposalView>) -> bool {
    forall|i: int, j: int|
        0 <= i < j < proposals.len() ==> (#[trigger] proposals[i]).id != (
        #[trigger] proposals[j]).id
}

/// An applied proposal always carries its applied metadata.
pub open spec fn applied_have_metadata(proposals: Seq<ProposalView>) -> bool {
    forall|i: int|
        0 <= i < proposals.len() && (#[trigger] proposals[i]).status == ProposalStatus::Applied
            ==> proposals[i].applied is Some
}

/// Every stored content hash is the SHA-256 digest of the node's content.
pub open spec fn hashes_consistent(nodes: Seq<NodeView>) -> bool {
    forall|i: int|
        0 <= i < nodes.len() ==> (match (#[trigger] nodes[i]).metadata.content_hash {
            Some(h) => h == sha256_hex_of(nodes[i].content),
            None => true,
        })
}

/// The store's invariant, established by `new` and preserved by every
/// operation.
pub open spec fn store_wf(s: StoreView) -> bool {
    &&& unique_node_keys(s.nodes)
    &&& unique_proposal_ids(s.proposals)
    &&& applied_have_metadata(s.proposals)
    &&& hashes_consistent(s.nodes)
}

/// The reviews submitted for one proposal, in submission order.
pub open spec fn reviews_for(reviews: Seq<ReviewView>, proposal_id: Seq<char>) -> Seq<ReviewView>
    decreases reviews.len(),
{
    if reviews.len() == 0 {
        Seq::empty()
    } else {
        (if reviews[0].proposal_id == proposal_id {
            seq![reviews[0]]
        } else {
            Seq::empty()
        }) + reviews_for(reviews.drop_first(), proposal_id)
    }
}

/// What a sparse patch makes of a proposal: `None` when the patch is
/// illegal — it names the `applied` status, names an unknown status, or
/// tries to move an applied proposal.
pub open spec fn patched_proposal(p: ProposalView, q: ProposalPatchView) -> Option<ProposalView> {
    let status_ok = match q.status {
        None => true,
        Some(name) => name != "applied"@ && proposal_status_of_name(name) is Some && p.status
            != ProposalStatus::Applied,
    };
    if !status_ok {
        None
    } else {
        Some(
            ProposalView {
                status: match q.status {
                    None => p.status,
                    Some(name) => proposal_status_of_name(name).unwrap(),
                },
                metadata: ProposalMetadataView {
                    modified_at: match q.modified_at {
                        None => p.metadata.modified_at,
                        Some(v) => v,
                    },
                    modified_by: match q.modified_by {
                        None => p.metadata.modified_by,
                        Some(v) => v,
                    },
                    ..p.metadata
                },
                comments: match q.comments {
                    None => p.comments,
                    Some(c) => Some(c),
                },
                ..p
            },
        )
    }
}

/// Stable insertion of one operation into a run already sorted by `order`:
/// the operation lands after every element whose order is not greater.
pub open spec fn sort_ops_insert(s: Seq<OperationView>, op: OperationView) -> Seq<OperationView>
    decreases s.len(),
{
    if s.len() == 0 {
        seq![op]
    } else if s.last().order() <= op.order() {
        s.push(op)
    } else {
        sort_ops_insert(s.drop_last(), op).push(s.last())
    }
}

/// The stable sort of a proposal's operations by ascending `order`: ties
/// keep their input order.
pub open spec fn sort_ops(s: Seq<OperationView>) -> Seq<OperationView>
    decreases s.len(),
{
    if s.len() == 0 {
        Seq::empty()
    } else {
        sort_ops_insert(sort_ops(s.drop_last()), s.last())
    }
}

/// A run of operations sorted by ascending order.
pub open spec fn ops_sorted(s: Seq<OperationView>) -> bool {
    forall|i: int, j: int|
        0 <= i < j < s.len() ==> (#[trigger] s[i]).order() <= (#[trigger] s[j]).order()
}

/// Stable insertion keeps a sorted run sorted and adds exactly the new
/// operation.
proof fn lemma_sort_ops_insert_sorted(s: Seq<OperationView>, op: OperationView)
    requires
        ops_sorted(s),
    ensures
        ops_sorted(sort_ops_insert(s, op)),
        sort_ops_insert(s, op).to_multiset() == s.to_multiset().insert(op),
    decreases s.len(),
{
    broadcast use vstd::seq_lib::group_to_multiset_ensures;

    if s.len() == 0 {
        assert(sort_ops_insert(s, op) =~= Seq::empty().push(op));
        assert(Seq::<OperationView>::empty().push(op).to_multiset() =~= s.to_multiset().insert(
            op,
        ));
    } else if s.last().order() <= op.order() {
        let r = s.push(op);
        assert forall|i: int, j: int| 0 <= i < j < r.len() implies r[i].order() <= r[j].order() by {
            if j == r.len() - 1 {
                if i < s.len() - 1 {
                    assert(s[i].order() <= s[s.len() - 1].order());
                }
            }
        }
    } else {
        assert(forall|i: int, j: int|
            0 <= i < j < s.len() - 1 ==> (#[trigger] s.drop_last()[i]).order() <= (
            #[trigger] s.drop_last()[j]).order());
        lemma_sort_ops_insert_sorted(s.drop_last(), op);
        let inner = sort_ops_insert(s.drop_last(), op);
        let r = inner.push(s.last());
        assert forall|i: int, j: int| 0 <= i < j < r.len() implies r[i].order() <= r[j].order() by {
            if j == r.len() - 1 {
                // Every element of the inner run is either an element of
                // the sorted prefix or the inserted operation, both at or
                // below the last element's order.
                assert(inner.to_multiset().count(inner[i]) > 0);
                assert(s.drop_last().to_multiset().insert(op).count(inner[i]) > 0);
                if inner[i] == op {
                } else {
                    assert(s.drop_last().to_multiset().count(inner[i]) > 0);
                    assert(s.drop_last().contains(inner[i]));
                    let w = choose|w: int|
                        0 <= w < s.drop_last().len() && s.drop_last()[w] == inner[i];
                    assert(s[w].order() <= s[s.len() - 1].order());
                }
            }
        }
        assert(s =~= s.drop_last().push(s.last()));
        assert(r.to_multiset() =~= s.to_multiset().insert(op)) by {
            assert(r.to_multiset() =~= inner.to_multiset().insert(s.last()));
            assert(s.to_multiset() =~= s.drop_last().to_multiset().insert(s.last()));
        }
    }
}

/// The apply engine's sort really sorts: the result is in ascending
/// order and holds exactly the input operations. Ties keep their input
/// order by construction of `sort_ops_insert`.
pub proof fn lemma_sort_ops_sorted(s: Seq<OperationView>)
    ensures
        ops_sorted(sort_ops(s)),
        sort_ops(s).to_multiset() == s.to_multiset(),
    decreases s.len(),
{
    broadcast use vstd::seq_lib::group_to_multiset_ensures;

    if s.len() == 0 {
        assert(sort_ops(s).to_multiset() =~= s.to_multiset());
    } else {
        lemma_sort_ops_sorted(s.drop_last());
        lemma_sort_ops_insert_sorted(sort_ops(s.drop_last()), s.last());
        assert(s =~= s.drop_last().push(s.last()));
        assert(sort_ops(s).to_multiset() =~= s.to_multiset()) by {
            assert(s.to_multiset() =~= s.drop_last().to_multiset().insert(s.last()));
        }
    }
}

/// Why an operation could not be executed.
pub ghost enum ApplyError {
    /// An update named a node that does not exist.
    MissingNode,
    /// A touched node's version counter is exhausted.
    VersionOverflow,
}

/// What a single operation makes of the node map. An update that carries
/// new content deliberately mirrors it into the node's description as
/// well, keeping the summary field in step with the text it summarises.
pub open spec fn apply_op(
    nodes: Seq<NodeView>,
    op: OperationView,
    at: Seq<char>,
    by: Seq<char>,
) -> Result<Seq<NodeView>, ApplyError> {
    match op {
        OperationView::Create { node, .. } => {
            if node.metadata.version == u32::MAX {
                Err(ApplyError::VersionOverflow)
            } else {
                let n2 = NodeView {
                    metadata: NodeMetadataView {
                        modified_at: at,
                        modified_by: by,
                        version: (node.metadata.version + 1) as u32,
                        content_hash: Some(sha256_hex_of(node.content)),
                        ..node.metadata
                    },
                    ..node
                };
                match node_idx(nodes, n2.key()) {
                    None => Ok(nodes.push(n2)),
                    Some(i) => Ok(nodes.update(i, n2)),
                }
            }
        },
        OperationView::Update { node_id, changes, .. } => {
            match node_idx(nodes, key_of(node_id)) {
                None => Err(ApplyError::MissingNode),
                Some(i) => {
                    let n = nodes[i];
                    if n.metadata.version == u32::MAX {
                        Err(ApplyError::VersionOverflow)
                    } else {
                        let content = match changes.content {
                            Some(c) => c,
                            None => n.content,
                        };
                        let n2 = NodeView {
                            content,
                            description: match changes.content {
                                Some(c) => Some(c),
                                None => n.description,
                            },
                            status: match changes.status {
                                Some(st) => st,
                                None => n.status,
                            },
                            metadata: NodeMetadataView {
                                modified_at: at,
                                modified_by: by,
                                version: (n.metadata.version + 1) as u32,
                                content_hash: Some(sha256_hex_of(content)),
                                ..n.metadata
                            },
                            ..n
                        };
                        Ok(nodes.update(i, n2))
                    }
                },
            }
        },
        OperationView::Delete { node_id, .. } => {
            match node_idx(nodes, key_of(node_id)) {
                None => Ok(nodes),
                Some(i) => {
                    let n = nodes[i];
                    if n.metadata.version == u32::MAX {
                        Err(ApplyError::VersionOverflow)
                    } else {
                        Ok(
                            nodes.update(
                                i,
                                (NodeView {
                                    status: NodeStatus::Rejected,
                                    metadata: NodeMetadataView {
                                        modified_at: at,
                                        modified_by: by,
                                        version: (n.metadata.version + 1) as u32,
                                        ..n.metadata
                                    },
                                    ..n
                                }),
                            ),
                        )
                    }
                },
            }
        },
        OperationView::StatusChange { node_id, new_status, .. } => {
            match node_idx(nodes, key_of(node_id)) {
                None => Ok(nodes),
                Some(i) => {
                    let n = nodes[i];
                    if n.metadata.version == u32::MAX {
                        Err(ApplyError::VersionOverflow)
                    } else {
                        Ok(
                            nodes.update(
                                i,
                                (NodeView {
                                    status: new_status,
                                    metadata: NodeMetadataView {
                                        modified_at: at,
                                        modified_by: by,
                                        version: (n.metadata.version + 1) as u32,
                                        ..n.metadata
                                    },
                                    ..n
                                }),
                            ),
                        )
                    }
                },
            }
        },
    }
}

/// What an ordered run of operations makes of the node map: the first
/// failing operation aborts the whole run.
pub open spec fn apply_ops(
    nodes: Seq<NodeView>,
    ops: Seq<OperationView>,
    at: Seq<char>,
    by: Seq<char>,
) -> Result<Seq<NodeView>, ApplyError>
    decreases ops.len(),
{
    if ops.len() == 0 {
        Ok(nodes)
    } else {
        match apply_op(nodes, ops[0], at, by) {
            Err(e) => Err(e),
            Ok(n1) => apply_ops(n1, ops.drop_first(), at, by),
        }
    }
}

/// The id of the most recent review of this proposal, if any.
pub open spec fn last_review_id(reviews: Seq<ReviewView>, proposal_id: Seq<char>) -> Option<
    Seq<char>,
>
    decreases reviews.len(),
{
    if reviews.len() == 0 {
        None
    } else if reviews.last().proposal_id == proposal_id {
        Some(reviews.last().id)
    } else {
        last_review_id(reviews.drop_last(), proposal_id)
    }
}

/// Why an apply failed, or `None` when it succeeded.
pub ghost enum ApplyFailure {
    /// The proposal does not exist.
    UnknownProposal,
    /// The proposal is neither accepted nor already applied.
    NotAccepted,
    /// The revision counter is exhausted.
    RevisionOverflow,
    /// Executing the operations failed.
    Op(ApplyError),
}

/// Whether and why an apply of this proposal fails. An already-applied
/// proposal is a success (idempotence); only an accepted one executes.
pub open spec fn apply_failure(
    s: StoreView,
    id: Seq<char>,
    by: Seq<char>,
    now: Seq<char>,
) -> Option<ApplyFailure> {
    match lookup_proposal(s.proposals, id) {
        None => Some(ApplyFailure::UnknownProposal),
        Some(p) => {
            if p.status == ProposalStatus::Applied {
                None
            } else if p.status != ProposalStatus::Accepted {
                Some(ApplyFailure::NotAccepted)
            } else if s.revision == u64::MAX {
                Some(ApplyFailure::RevisionOverflow)
            } else {
                match apply_ops(s.nodes, sort_ops(p.operations), now, by) {
                    Err(e) => Some(ApplyFailure::Op(e)),
                    Ok(_) => None,
                }
            }
        },
    }
}

/// The store after an apply of this proposal: unchanged on failure and on
/// the idempotent re-apply; otherwise the operations are executed in
/// ascending order, the revision counter advances by one, and the proposal
/// becomes `Applied` carrying its applied metadata.
pub open spec fn apply_post(
    s: StoreView,
    id: Seq<char>,
    by: Seq<char>,
    now: Seq<char>,
) -> StoreView {
    if apply_failure(s, id, by, now) is Some {
        s
    } else {
        let p = lookup_proposal(s.proposals, id).unwrap();
        if p.status == ProposalStatus::Applied {
            s
        } else {
            let nodes2 = apply_ops(s.nodes, sort_ops(p.operations), now, by)->Ok_0;
            let p2 = ProposalView {
                status: ProposalStatus::Applied,
                applied: Some(
                    AppliedMetadataView {
                        applied_at: now,
                        applied_by: by,
                        applied_from_review_id: last_review_id(s.reviews, id),
                        applied_from_proposal_id: id,
                        applied_to_revision_id: rev_id_of(s.revision + 1),
                        previous_revision_id: rev_id_of(s.revision as int),
                    },
                ),
                ..p
            };
            StoreView {
                nodes: nodes2,
                proposals: s.proposals.update(proposal_idx(s.proposals, id).unwrap(), p2),
                revision: (s.revision + 1) as u64,
                ..s
            }
        }
    }
}

/// Whether a node passes a query's filters: status set, type set, and
/// case-insensitive substring search over content, title and description.
pub open spec fn node_matches_query(n: NodeView, q: NodeQueryView) -> bool {
    &&& (match q.status {
        None => true,
        Some(ss) => ss.contains(n.status),
    })
    &&& (match q.node_types {
        None => true,
        Some(ts) => ts.contains(n.node_type),
    })
    &&& (match q.search {
        None => true,
        Some(s) => contains_seq(lower_of(n.content), lower_of(s)) || (n.title matches Some(t)
            && contains_seq(lower_of(t), lower_of(s))) || (n.description matches Some(d)
            && contains_seq(lower_of(d), lower_of(s))),
    })
}

/// The nodes passing a query's filters, in storage order.
pub open spec fn filter_nodes(nodes: Seq<NodeView>, q: NodeQueryView) -> Seq<NodeView>
    decreases nodes.len(),
{
    if nodes.len() == 0 {
        Seq::empty()
    } else {
        (if node_matches_query(nodes[0], q) {
            seq![nodes[0]]
        } else {
            Seq::empty()
        }) + filter_nodes(nodes.drop_first(), q)
    }
}

/// The smaller of two integers.
pub open spec fn min_int(a: int, b: int) -> int {
    if a < b {
        a
    } else {
        b
    }
}

/// Everything a node query returns: its filter hits from `offset`, at most
/// `limit` of them (the limit capped at 1000 and defaulted to 50), the
/// total number of hits, and whether more hits follow the page.
pub open spec fn node_query_result_spec(nodes: Seq<NodeView>, q: NodeQueryView) -> NodeQueryResultView {
    let f = filter_nodes(nodes, q);
    let limit = min_int(
        match q.limit {
            None => 50,
            Some(l) => l as int,
        },
        1000,
    );
    let offset = match q.offset {
        None => 0,
        Some(o) => o as int,
    };
    let start = min_int(offset, f.len() as int);
    let end = min_int(offset + limit, f.len() as int);
    let page = f.subrange(start, if end < start { start } else { end });
    NodeQueryResultView {
        nodes: page,
        total: f.len() as u64,
        limit: limit as u32,
        offset: (match q.offset {
            None => 0u32,
            Some(o) => o,
        }),
        has_more: start + page.len() < f.len(),
    }
}

/// The proposals passing a status filter, in storage order.
pub open spec fn filter_proposals(proposals: Seq<ProposalView>, status: Option<Seq<ProposalStatus>>) -> Seq<ProposalView>
    decreases proposals.len(),
{
    if proposals.len() == 0 {
        Seq::empty()
    } else {
        (if (match status {
            None => true,
            Some(ss) => ss.contains(proposals[0].status),
        }) {
            seq![proposals[0]]
        } else {
            Seq::empty()
        }) + filter_proposals(proposals.drop_first(), status)
    }
}

/// The page a proposal query returns: its filter hits from `offset`, at
/// most `limit` of them, with the limit defaulted to 50.
pub open spec fn proposal_query_page(proposals: Seq<ProposalView>, q: ProposalQueryView) -> Seq<
    ProposalView,
> {
    let f = filter_proposals(proposals, q.status);
    let limit = match q.limit {
        None => 50,
        Some(l) => l as int,
    };
    let offset = match q.offset {
        None => 0,
        Some(o) => o as int,
    };
    let start = min_int(offset, f.len() as int);
    let end = min_int(offset + limit, f.len() as int);
    f.subrange(start, if end < start { start } else { end })
}

/// Whether an audit event passes the query filters: exact actor, action
/// name and resource id, and an inclusive timestamp window in the
/// lexicographic order RFC 3339 timestamps sort by.
pub open spec fn audit_matches(
    e: AuditEventView,
    actor: Option<Seq<char>>,
    action: Option<Seq<char>>,
    resource_id: Option<Seq<char>>,
    from: Option<Seq<char>>,
    to: Option<Seq<char>>,
) -> bool {
    &&& (match actor {
        None => true,
        Some(a) => e.actor_id == a,
    })
    &&& (match action {
        None => true,
        Some(a) => audit_action_name(e.action) == a,
    })
    &&& (match resource_id {
        None => true,
        Some(rid) => e.resource_id == rid,
    })
    &&& (match from {
        None => true,
        Some(f) => lex_le(f, e.timestamp),
    })
    &&& (match to {
        None => true,
        Some(t) => lex_le(e.timestamp, t),
    })
}

/// The audit events passing the filters, in append order.
pub open spec fn filter_audit(
    log: Seq<AuditEventView>,
    actor: Option<Seq<char>>,
    action: Option<Seq<char>>,
    resource_id: Option<Seq<char>>,
    from: Option<Seq<char>>,
    to: Option<Seq<char>>,
) -> Seq<AuditEventView>
    decreases log.len(),
{
    if log.len() == 0 {
        Seq::empty()
    } else {
        (if audit_matches(log[0], actor, action, resource_id, from, to) {
            seq![log[0]]
        } else {
            Seq::empty()
        }) + filter_audit(log.drop_first(), actor, action, resource_id, from, to)
    }
}

/// The page an audit query returns, with the limit defaulted to 100.
pub open spec fn audit_query_page(
    log: Seq<AuditEventView>,
    actor: Option<Seq<char>>,
    action: Option<Seq<char>>,
    resource_id: Option<Seq<char>>,
    from: Option<Seq<char>>,
    to: Option<Seq<char>>,
    limit: Option<u32>,
    offset: Option<u32>,
) -> Seq<AuditEventView> {
    let f = filter_audit(log, actor, action, resource_id, from, to);
    let lim = match limit {
        None => 100,
        Some(l) => l as int,
    };
    let off = match offset {
        None => 0,
        Some(o) => o as int,
    };
    let start = min_int(off, f.len() as int);
    let end = min_int(off + lim, f.len() as int);
    f.subrange(start, if end < start { start } else { end })
}

/// Whether a proposal is stale: some entry of its optimistic-lock
/// snapshot names a node whose stored version has moved past the version
/// observed at proposal creation. A proposal without a snapshot is never
/// stale.
pub open spec fn stale_spec(p: ProposalView, nodes: Seq<NodeView>) -> bool {
    match p.metadata.base_versions {
        None => false,
        Some(bvs) => exists|j: int|
            0 <= j < bvs.len() && (lookup_node(nodes, (#[trigger] bvs[j]).key) matches Some(n)
                && n.metadata.version > bvs[j].version),
    }
}

/// The identity a canonical key denotes: the part before the first colon
/// is the namespace, the rest the id; a key without a colon is a bare id.
pub open spec fn key_to_id_view(key: Seq<char>) -> NodeIdView {
    match first_idx(key, |c: char| c == ':') {
        None => NodeIdView { id: key, namespace: None },
        Some(i) => NodeIdView { id: key.skip(i + 1), namespace: Some(key.take(i)) },
    }
}

/// Whether any operation touches this node key.
pub open spec fn touched_by(ops: Seq<OperationView>, key: Seq<char>) -> bool {
    exists|i: int| 0 <= i < ops.len() && (#[trigger] ops[i]).touched_key() == key
}

/// The node keys a run of operations touches, first occurrence first,
/// without repetition, appended to `acc`.
pub open spec fn touched_keys_from(ops: Seq<OperationView>, acc: Seq<Seq<char>>) -> Seq<Seq<char>>
    decreases ops.len(),
{
    if ops.len() == 0 {
        acc
    } else {
        touched_keys_from(
            ops.drop_first(),
            if acc.contains(ops[0].touched_key()) {
                acc
            } else {
                acc.push(ops[0].touched_key())
            },
        )
    }
}

/// The node keys a run of operations touches, in first-occurrence order.
pub open spec fn touched_keys(ops: Seq<OperationView>) -> Seq<Seq<char>> {
    touched_keys_from(ops, Seq::empty())
}

/// The keys out of `tkeys` that the other proposal's operations touch too,
/// in `tkeys` order.
pub open spec fn shared_keys(tkeys: Seq<Seq<char>>, ops: Seq<OperationView>) -> Seq<Seq<char>>
    decreases tkeys.len(),
{
    if tkeys.len() == 0 {
        Seq::empty()
    } else {
        (if touched_by(ops, tkeys[0]) {
            seq![tkeys[0]]
        } else {
            Seq::empty()
        }) + shared_keys(tkeys.drop_first(), ops)
    }
}

/// The identities the keys denote, in order.
pub open spec fn ids_of_keys_view(keys: Seq<Seq<char>>) -> Seq<NodeIdView>
    decreases keys.len(),
{
    if keys.len() == 0 {
        Seq::empty()
    } else {
        seq![key_to_id_view(keys[0])] + ids_of_keys_view(keys.drop_first())
    }
}

/// The other open proposals, in storage order.
pub open spec fn open_others(proposals: Seq<ProposalView>, target_id: Seq<char>) -> Seq<
    ProposalView,
>
    decreases proposals.len(),
{
    if proposals.len() == 0 {
        Seq::empty()
    } else {
        (if proposals[0].status == ProposalStatus::Open && proposals[0].id != target_id {
            seq![proposals[0]]
        } else {
            Seq::empty()
        }) + open_others(proposals.drop_first(), target_id)
    }
}

/// The conflict one other proposal contributes: none when it touches no
/// key of the target's; otherwise the pair, the shared keys, and a
/// severity of `Critical` when more than one key is shared.
pub open spec fn conflict_for(
    target_id: Seq<char>,
    tkeys: Seq<Seq<char>>,
    q: ProposalView,
) -> Seq<ProposalConflictView> {
    let sk = shared_keys(tkeys, q.operations);
    if sk.len() == 0 {
        Seq::empty()
    } else {
        seq![
            ProposalConflictView {
                proposals: seq![target_id, q.id],
                conflicting_nodes: ids_of_keys_view(sk),
                conflicting_fields: None,
                severity: if sk.len() > 1 {
                    ConflictSeverity::Critical
                } else {
                    ConflictSeverity::Node
                },
                auto_resolvable: false,
            },
        ]
    }
}

/// The conflicts all other open proposals contribute, in storage order.
pub open spec fn conflicts_of(
    target_id: Seq<char>,
    tkeys: Seq<Seq<char>>,
    others: Seq<ProposalView>,
) -> Seq<ProposalConflictView>
    decreases others.len(),
{
    if others.len() == 0 {
        Seq::empty()
    } else {
        conflict_for(target_id, tkeys, others[0]) + conflicts_of(
            target_id,
            tkeys,
            others.drop_first(),
        )
    }
}

/// The ids of other proposals that need resolution, in first-conflict
/// order, appended to `acc`.
pub open spec fn needs_from(
    tkeys: Seq<Seq<char>>,
    others: Seq<ProposalView>,
    acc: Seq<Seq<char>>,
) -> Seq<Seq<char>>
    decreases others.len(),
{
    if others.len() == 0 {
        acc
    } else {
        needs_from(
            tkeys,
            others.drop_first(),
            if shared_keys(tkeys, others[0].operations).len() > 0 && !acc.contains(others[0].id) {
                acc.push(others[0].id)
            } else {
                acc
            },
        )
    }
}

/// The ids of other open proposals not needing resolution, in storage
/// order.
pub open spec fn mergeable_of(others: Seq<ProposalView>, needs: Seq<Seq<char>>) -> Seq<Seq<char>>
    decreases others.len(),
{
    if others.len() == 0 {
        Seq::empty()
    } else {
        (if !needs.contains(others[0].id) {
            seq![others[0].id]
        } else {
            Seq::empty()
        }) + mergeable_of(others.drop_first(), needs)
    }
}

/// Everything conflict detection returns for one target proposal.
pub open spec fn detect_conflicts_spec(
    proposals: Seq<ProposalView>,
    target_id: Seq<char>,
    target: ProposalView,
) -> ConflictDetectionResultView {
    let tkeys = touched_keys(target.operations);
    let others = open_others(proposals, target_id);
    let needs = needs_from(tkeys, others, Seq::empty());
    ConflictDetectionResultView {
        conflicts: conflicts_of(target_id, tkeys, others),
        mergeable: mergeable_of(others, needs),
        needs_resolution: needs,
    }
}

/// One field-level value an update operation proposes.
pub ghost struct ContributionView {
    pub key: Seq<char>,
    pub field: Seq<char>,
    pub value: MergeValueView,
}

/// A node field named by key and field name.
pub ghost struct FieldKeyView {
    pub key: Seq<char>,
    pub field: Seq<char>,
}

/// The field-level values one operation proposes: an update's content
/// and/or status. Other operations propose none.
pub open spec fn op_contribs(op: OperationView) -> Seq<ContributionView> {
    match op {
        OperationView::Update { node_id, changes, .. } => {
            (match changes.content {
                Some(c) => seq![
                    ContributionView {
                        key: key_of(node_id),
                        field: "content"@,
                        value: MergeValueView::Text(c),
                    },
                ],
                None => Seq::empty(),
            }) + (match changes.status {
                Some(st) => seq![
                    ContributionView {
                        key: key_of(node_id),
                        field: "status"@,
                        value: MergeValueView::Status(st),
                    },
                ],
                None => Seq::empty(),
            })
        },
        _ => Seq::empty(),
    }
}

/// The field-level values a run of operations proposes, in order.
pub open spec fn ops_contribs(ops: Seq<OperationView>) -> Seq<ContributionView>
    decreases ops.len(),
{
    if ops.len() == 0 {
        Seq::empty()
    } else {
        op_contribs(ops[0]) + ops_contribs(ops.drop_first())
    }
}

/// The field-level values a list of proposals proposes, proposal by
/// proposal in the given order.
pub open spec fn props_contribs(ps: Seq<ProposalView>) -> Seq<ContributionView>
    decreases ps.len(),
{
    if ps.len() == 0 {
        Seq::empty()
    } else {
        ops_contribs(ps[0].operations) + props_contribs(ps.drop_first())
    }
}

/// The distinct fields the contributions touch, in first-occurrence
/// order, appended to `acc`.
pub open spec fn pairs_from(cs: Seq<ContributionView>, acc: Seq<FieldKeyView>) -> Seq<FieldKeyView>
    decreases cs.len(),
{
    if cs.len() == 0 {
        acc
    } else {
        pairs_from(
            cs.drop_first(),
            if acc.contains(FieldKeyView { key: cs[0].key, field: cs[0].field }) {
                acc
            } else {
                acc.push(FieldKeyView { key: cs[0].key, field: cs[0].field })
            },
        )
    }
}

/// The values proposed for one field, in contribution order.
pub open spec fn values_for(cs: Seq<ContributionView>, pair: FieldKeyView) -> Seq<MergeValueView>
    decreases cs.len(),
{
    if cs.len() == 0 {
        Seq::empty()
    } else {
        (if cs[0].key == pair.key && cs[0].field == pair.field {
            seq![cs[0].value]
        } else {
            Seq::empty()
        }) + values_for(cs.drop_first(), pair)
    }
}

/// The field change recorded for a field whose values agree.
pub open spec fn agreed_change(pair: FieldKeyView, value: MergeValueView) -> FieldChangeView {
    FieldChangeView {
        node_id: key_to_id_view(pair.key),
        field: pair.field,
        old_value: None,
        new_value: value,
    }
}

/// Fields proposed by exactly one contribution, in field order.
pub open spec fn auto_merged_of(cs: Seq<ContributionView>, pairs: Seq<FieldKeyView>) -> Seq<
    FieldChangeView,
>
    decreases pairs.len(),
{
    if pairs.len() == 0 {
        Seq::empty()
    } else {
        (if values_for(cs, pairs[0]).len() == 1 {
            seq![agreed_change(pairs[0], values_for(cs, pairs[0])[0])]
        } else {
            Seq::empty()
        }) + auto_merged_of(cs, pairs.drop_first())
    }
}

/// Fields proposed more than once with one agreed value, in field order.
pub open spec fn merged_of(cs: Seq<ContributionView>, pairs: Seq<FieldKeyView>) -> Seq<
    FieldChangeView,
>
    decreases pairs.len(),
{
    if pairs.len() == 0 {
        Seq::empty()
    } else {
        (if values_for(cs, pairs[0]).len() >= 2 && (forall|j: int|
            0 <= j < values_for(cs, pairs[0]).len() ==> #[trigger] values_for(cs, pairs[0])[j]
                == values_for(cs, pairs[0])[0]) {
            seq![agreed_change(pairs[0], values_for(cs, pairs[0])[0])]
        } else {
            Seq::empty()
        }) + merged_of(cs, pairs.drop_first())
    }
}

/// Fields proposed with divergent values, in field order, each carrying
/// the first value and the first value differing from it.
pub open spec fn merge_conflicts_of(cs: Seq<ContributionView>, pairs: Seq<FieldKeyView>) -> Seq<
    MergeConflictFieldView,
>
    decreases pairs.len(),
{
    if pairs.len() == 0 {
        Seq::empty()
    } else {
        (if values_for(cs, pairs[0]).len() >= 2 && !(forall|j: int|
            0 <= j < values_for(cs, pairs[0]).len() ==> #[trigger] values_for(cs, pairs[0])[j]
                == values_for(cs, pairs[0])[0]) {
            let vals = values_for(cs, pairs[0]);
            seq![
                MergeConflictFieldView {
                    field: pairs[0].field,
                    node_id: key_to_id_view(pairs[0].key),
                    proposal1_value: vals[0],
                    proposal2_value: vals[first_idx(vals, |v: MergeValueView| v != vals[0]).unwrap()],
                },
            ]
        } else {
            Seq::empty()
        }) + merge_conflicts_of(cs, pairs.drop_first())
    }
}

/// The proposals the given ids name, in id order; `None` when any id is
/// unknown.
pub open spec fn selected_proposals(ps: Seq<ProposalView>, ids: Seq<Seq<char>>) -> Option<
    Seq<ProposalView>,
>
    decreases ids.len(),
{
    if ids.len() == 0 {
        Some(Seq::empty())
    } else {
        match lookup_proposal(ps, ids[0]) {
            None => None,
            Some(p) => match selected_proposals(ps, ids.drop_first()) {
                None => None,
                Some(rest) => Some(seq![p] + rest),
            },
        }
    }
}

/// Everything a merge attempt returns for the named proposals.
pub open spec fn merge_result_spec(sel: Seq<ProposalView>) -> MergeResultView {
    let cs = props_contribs(sel);
    let pairs = pairs_from(cs, Seq::empty());
    MergeResultView {
        merged: merged_of(cs, pairs),
        conflicts: merge_conflicts_of(cs, pairs),
        auto_merged: auto_merged_of(cs, pairs),
    }
}

/// No proposal leaves the applied state: a patch that would change an
/// applied proposal's status is refused outright, so whatever a patch
/// makes of an applied proposal is still applied. The review and
/// withdraw paths demand an open proposal, and the apply path itself
/// only ever sets this status, never clears it.
pub proof fn lemma_patch_keeps_applied(p: ProposalView, q: ProposalPatchView)
    requires
        p.status == ProposalStatus::Applied,
    ensures
        patched_proposal(p, q) matches Some(p2) ==> p2.status == ProposalStatus::Applied
            && p2.applied == p.applied,
{
}

/// The name of the revision checkpoint numbered `n`.
pub open spec fn rev_id_of(n: int) -> Seq<char> {
    "rev_"@ + dec_of(n)
}

/// The in-memory store.
pub struct InMemoryStore {
    nodes: Vec<ContextNode>,
    proposals: Vec<Proposal>,
    reviews: Vec<Review>,
    revision_counter: u64,
    audit_log: Vec<AuditEvent>,
}

impl View for InMemoryStore {
    type V = StoreView;

    closed spec fn view(&self) -> StoreView {
        StoreView {
            nodes: self.nodes.deep_view(),
            proposals: self.proposals.deep_view(),
            reviews: self.reviews.deep_view(),
            revision: self.revision_counter,
            audit: self.audit_log.deep_view(),
        }
    }
}

/// The canonical map key of an identity.
pub fn node_key(id: &NodeId) -> (r: String)
    ensures
        r@ == key_of(id.deep_view()),
{
    id.key()
}

/// The index of the node stored under `key` in a node list, if any.
fn find_node_in(nodes: &Vec<ContextNode>, key: &String) -> (r: Option<usize>)
    ensures
        match r {
            None => node_idx(nodes.deep_view(), key@) is None,
            Some(i) => node_idx(nodes.deep_view(), key@) == Some(i as int),
        },
{
    let ghost p = |n: NodeView| n.key() == key@;
    let mut i: usize = 0;
    while i < nodes.len()
        invariant
            i <= nodes.len(),
            forall|j: int| 0 <= j < i ==> !p(#[trigger] nodes.deep_view()[j]),
            p == (|n: NodeView| n.key() == key@),
        decreases nodes.len() - i,
    {
        proof {
            assert(nodes.deep_view()[i as int] == nodes@[i as int].deep_view());
        }
        let k = nodes[i].id.key();
        if str_eq(k.as_str(), key.as_str()) {
            proof {
                assert(p(nodes.deep_view()[i as int]));
                lemma_first_idx_is(nodes.deep_view(), p, i as int);
            }
            return Some(i);
        }
        proof {
            assert(!p(nodes.deep_view()[i as int]));
        }
        i = i + 1;
    }
    proof {
        lemma_first_idx_none(nodes.deep_view(), p);
    }
    None
}

/// Places one operation into a run already sorted by ascending order,
/// after every element of equal or lower order.
fn insert_sorted(v: &mut Vec<Operation>, op: Operation)
    ensures
        final(v).deep_view() == sort_ops_insert(old(v).deep_view(), op.deep_view()),
{
    let key = op.order();
    let mut j: usize = v.len();
    while j > 0 && v[j - 1].order() > key
        invariant
            j <= v.len(),
            key == op.deep_view().order(),
            forall|k: int|
                j <= k < v.len() ==> (#[trigger] v.deep_view()[k]).order() > op.deep_view().order(),
        decreases j,
    {
        proof {
            assert(v.deep_view()[j - 1] == v@[j - 1].deep_view());
        }
        j = j - 1;
    }
    proof {
        if j > 0 {
            assert(v.deep_view()[j - 1] == v@[j - 1].deep_view());
        }
    }
    let ghost before = v;
    v.insert(j, op);
    proof {
        lemma_sort_insert_at(before.deep_view(), op.deep_view(), j as int);
        assert(v.deep_view() =~= before.deep_view().insert(j as int, op.deep_view()));
        assert(before.deep_view().insert(j as int, op.deep_view()) =~= before.deep_view().take(
            j as int,
        ) + seq![op.deep_view()] + before.deep_view().skip(j as int));
    }
}

/// Where stable insertion lands: just before the maximal suffix of
/// strictly greater orders.
proof fn lemma_sort_insert_at(s: Seq<OperationView>, op: OperationView, j: int)
    requires
        0 <= j <= s.len(),
        forall|k: int| j <= k < s.len() ==> (#[trigger] s[k]).order() > op.order(),
        j > 0 ==> s[j - 1].order() <= op.order(),
    ensures
        sort_ops_insert(s, op) == s.take(j) + seq![op] + s.skip(j),
    decreases s.len(),
{
    if s.len() == 0 {
        assert(sort_ops_insert(s, op) =~= s.take(j) + seq![op] + s.skip(j));
    } else if j == s.len() {
        assert(s.last().order() <= op.order());
        assert(s.push(op) =~= s.take(j) + seq![op] + s.skip(j));
    } else {
        assert(s[s.len() - 1].order() > op.order());
        lemma_sort_insert_at(s.drop_last(), op, j);
        assert(s.drop_last().take(j) =~= s.take(j));
        assert(s.drop_last().skip(j) =~= s.skip(j).drop_last());
        assert((s.drop_last().take(j) + seq![op] + s.drop_last().skip(j)).push(s.last()) =~= s.take(
            j,
        ) + seq![op] + s.skip(j));
    }
}

/// Executes one operation against a node list, per `apply_op`; on failure
/// the list is unchanged.
fn apply_one(nodes: &mut Vec<ContextNode>, op: &Operation, at: &str, by: &str) -> (r: Result<
    (),
    StoreError,
>)
    ensures
        match apply_op(old(nodes).deep_view(), op.deep_view(), at@, by@) {
            Ok(n2) => r is Ok && final(nodes).deep_view() == n2,
            Err(ApplyError::MissingNode) => (r matches Err(e) && e.deep_view()
                matches StoreErrorView::NotFound(_)) && *final(nodes) == *old(nodes),
            Err(ApplyError::VersionOverflow) => (r matches Err(e) && e.deep_view()
                matches StoreErrorView::Internal(_)) && *final(nodes) == *old(nodes),
        },
{
    match op {
        Operation::Create { node, .. } => {
            if node.metadata.version == u32::MAX {
                return Err(StoreError::Internal("node version counter exhausted".to_owned()));
            }
            let key = node.id.key();
            let mut n2 = node.clone();
            n2.metadata.modified_at = at.to_owned();
            n2.metadata.modified_by = by.to_owned();
            n2.metadata.version = n2.metadata.version + 1;
            n2.metadata.content_hash = Option::Some(
                crate::sensitivity::content_hash(node.content.as_str()),
            );
            proof {
                assert(n2.deep_view().key() == key@);
            }
            let ghost before = *nodes;
            match find_node_in(nodes, &key) {
                Option::None => {
                    nodes.push(n2);
                    proof {
                        lemma_push_deep_view(before, *nodes, nodes@.last());
                    }
                },
                Option::Some(i) => {
                    proof {
                        lemma_first_idx(nodes.deep_view(), |n: NodeView| n.key() == key@);
                    }
                    nodes.set(i, n2);
                    proof {
                        assert(nodes.deep_view() =~= apply_op(
                            before.deep_view(),
                            op.deep_view(),
                            at@,
                            by@,
                        )->Ok_0);
                    }
                },
            }
            Ok(())
        },
        Operation::Update { node_id, changes, .. } => {
            let key = node_id.key();
            let ghost before = *nodes;
            match find_node_in(nodes, &key) {
                Option::None => {
                    let mut m = "node ".to_owned();
                    m.append(key.as_str());
                    Err(StoreError::NotFound(m))
                },
                Option::Some(i) => {
                    proof {
                        lemma_first_idx(nodes.deep_view(), |n: NodeView| n.key() == key@);
                        assert(nodes.deep_view()[i as int] == nodes@[i as int].deep_view());
                    }
                    if nodes[i].metadata.version == u32::MAX {
                        return Err(
                            StoreError::Internal("node version counter exhausted".to_owned()),
                        );
                    }
                    let mut n2 = nodes[i].clone();
                    match &changes.content {
                        Option::Some(c) => {
                            n2.content = c.clone();
                            n2.description = Option::Some(c.clone());
                        },
                        Option::None => {},
                    }
                    match &changes.status {
                        Option::Some(st) => {
                            n2.status = *st;
                        },
                        Option::None => {},
                    }
                    n2.metadata.modified_at = at.to_owned();
                    n2.metadata.modified_by = by.to_owned();
                    n2.metadata.version = n2.metadata.version + 1;
                    n2.metadata.content_hash = Option::Some(
                        crate::sensitivity::content_hash(n2.content.as_str()),
                    );
                    nodes.set(i, n2);
                    proof {
                        assert(nodes.deep_view() =~= apply_op(
                            before.deep_view(),
                            op.deep_view(),
                            at@,
                            by@,
                        )->Ok_0);
                    }
                    Ok(())
                },
            }
        },
        Operation::Delete { node_id, .. } => {
            let key = node_id.key();
            let ghost before = *nodes;
            match find_node_in(nodes, &key) {
                Option::None => Ok(()),
                Option::Some(i) => {
                    proof {
                        lemma_first_idx(nodes.deep_view(), |n: NodeView| n.key() == key@);
                        assert(nodes.deep_view()[i as int] == nodes@[i as int].deep_view());
                    }
                    if nodes[i].metadata.version == u32::MAX {
                        return Err(
                            StoreError::Internal("node version counter exhausted".to_owned()),
                        );
                    }
                    let mut n2 = nodes[i].clone();
                    n2.status = NodeStatus::Rejected;
                    n2.metadata.modified_at = at.to_owned();
                    n2.metadata.modified_by = by.to_owned();
                    n2.metadata.version = n2.metadata.version + 1;
                    nodes.set(i, n2);
                    proof {
                        assert(nodes.deep_view() =~= apply_op(
                            before.deep_view(),
                            op.deep_view(),
                            at@,
                            by@,
                        )->Ok_0);
                    }
                    Ok(())
                },
            }
        },
        Operation::StatusChange { node_id, new_status, .. } => {
            let key = node_id.key();
            let ghost before = *nodes;
            match find_node_in(nodes, &key) {
                Option::None => Ok(()),
                Option::Some(i) => {
                    proof {
                        lemma_first_idx(nodes.deep_view(), |n: NodeView| n.key() == key@);
                        assert(nodes.deep_view()[i as int] == nodes@[i as int].deep_view());
                    }
                    if nodes[i].metadata.version == u32::MAX {
                        return Err(
                            StoreError::Internal("node version counter exhausted".to_owned()),
                        );
                    }
                    let mut n2 = nodes[i].clone();
                    n2.status = *new_status;
                    n2.metadata.modified_at = at.to_owned();
                    n2.metadata.modified_by = by.to_owned();
                    n2.metadata.version = n2.metadata.version + 1;
                    nodes.set(i, n2);
                    proof {
                        assert(nodes.deep_view() =~= apply_op(
                            before.deep_view(),
                            op.deep_view(),
                            at@,
                            by@,
                        )->Ok_0);
                    }
                    Ok(())
                },
            }
        },
    }
}

/// One successful operation keeps the node map well formed: keys stay in
/// place, nothing disappears, uniqueness and hash consistency hold, and
/// every operation but a create leaves no version smaller.
proof fn lemma_apply_op_preserves(
    nodes: Seq<NodeView>,
    op: OperationView,
    at: Seq<char>,
    by: Seq<char>,
)
    requires
        unique_node_keys(nodes),
        hashes_consistent(nodes),
        apply_op(nodes, op, at, by) is Ok,
    ensures
        apply_op(nodes, op, at, by)->Ok_0.len() >= nodes.len(),
        forall|j: int|
            0 <= j < nodes.len() ==> (#[trigger] apply_op(nodes, op, at, by)->Ok_0[j]).key()
                == nodes[j].key(),
        unique_node_keys(apply_op(nodes, op, at, by)->Ok_0),
        hashes_consistent(apply_op(nodes, op, at, by)->Ok_0),
        forall|j: int|
            0 <= j < nodes.len() && nodes[j].key() != op.touched_key() ==> #[trigger] apply_op(
                nodes,
                op,
                at,
                by,
            )->Ok_0[j] == nodes[j],
        forall|j: int|
            nodes.len() <= j < apply_op(nodes, op, at, by)->Ok_0.len() ==> (#[trigger] apply_op(
                nodes,
                op,
                at,
                by,
            )->Ok_0[j]).key() == op.touched_key(),
        !(op is Create) ==> apply_op(nodes, op, at, by)->Ok_0.len() == nodes.len(),
        !(op is Create) ==> forall|j: int|
            0 <= j < nodes.len() ==> (#[trigger] apply_op(nodes, op, at, by)->Ok_0[j]).metadata.version
                >= nodes[j].metadata.version,
{
    let res = apply_op(nodes, op, at, by)->Ok_0;
    match op {
        OperationView::Create { node, .. } => {
            let n2 = NodeView {
                metadata: NodeMetadataView {
                    modified_at: at,
                    modified_by: by,
                    version: (node.metadata.version + 1) as u32,
                    content_hash: Some(sha256_hex_of(node.content)),
                    ..node.metadata
                },
                ..node
            };
            lemma_first_idx(nodes, |n: NodeView| n.key() == n2.key());
            match node_idx(nodes, n2.key()) {
                None => {
                    assert(res == nodes.push(n2));
                    assert(forall|j: int| 0 <= j < nodes.len() ==> res[j] == nodes[j]);
                    assert forall|i: int, j: int| 0 <= i < j < res.len() implies res[i].key()
                        != res[j].key() by {
                        if j == res.len() - 1 {
                            assert(!(nodes[i].key() == n2.key()));
                        }
                    }
                },
                Some(i) => {
                    assert(res == nodes.update(i, n2));
                    assert(nodes[i].key() == n2.key());
                    assert(forall|j: int|
                        0 <= j < nodes.len() && j != i ==> res[j] == nodes[j]);
                    assert(forall|j: int| 0 <= j < nodes.len() ==> res[j].key() == nodes[j].key());
                },
            }
        },
        OperationView::Update { node_id, .. } => {
            let i = node_idx(nodes, key_of(node_id)).unwrap();
            lemma_first_idx(nodes, |n: NodeView| n.key() == key_of(node_id));
            assert(forall|j: int| 0 <= j < nodes.len() && j != i ==> res[j] == nodes[j]);
            assert(res[i].key() == nodes[i].key());
        },
        OperationView::Delete { node_id, .. } => {
            lemma_first_idx(nodes, |n: NodeView| n.key() == key_of(node_id));
            match node_idx(nodes, key_of(node_id)) {
                None => {},
                Some(i) => {
                    assert(forall|j: int|
                        0 <= j < nodes.len() && j != i ==> res[j] == nodes[j]);
                    assert(res[i].key() == nodes[i].key());
                },
            }
        },
        OperationView::StatusChange { node_id, .. } => {
            lemma_first_idx(nodes, |n: NodeView| n.key() == key_of(node_id));
            match node_idx(nodes, key_of(node_id)) {
                None => {},
                Some(i) => {
                    assert(forall|j: int|
                        0 <= j < nodes.len() && j != i ==> res[j] == nodes[j]);
                    assert(res[i].key() == nodes[i].key());
                },
            }
        },
    }
}

/// A successful run of operations preserves what each single operation
/// preserves, composed over the run.
proof fn lemma_apply_ops_preserves(
    nodes: Seq<NodeView>,
    ops: Seq<OperationView>,
    at: Seq<char>,
    by: Seq<char>,
)
    requires
        unique_node_keys(nodes),
        hashes_consistent(nodes),
        apply_ops(nodes, ops, at, by) is Ok,
    ensures
        apply_ops(nodes, ops, at, by)->Ok_0.len() >= nodes.len(),
        forall|j: int|
            0 <= j < nodes.len() ==> (#[trigger] apply_ops(nodes, ops, at, by)->Ok_0[j]).key()
                == nodes[j].key(),
        unique_node_keys(apply_ops(nodes, ops, at, by)->Ok_0),
        hashes_consistent(apply_ops(nodes, ops, at, by)->Ok_0),
        forall|j: int|
            0 <= j < nodes.len() && (forall|k: int|
                0 <= k < ops.len() ==> (#[trigger] ops[k]).touched_key() != nodes[j].key())
                ==> #[trigger] apply_ops(nodes, ops, at, by)->Ok_0[j] == nodes[j],
        forall|j: int|
            nodes.len() <= j < apply_ops(nodes, ops, at, by)->Ok_0.len() ==> (exists|k: int|
                0 <= k < ops.len() && (#[trigger] apply_ops(nodes, ops, at, by)->Ok_0[j]).key()
                    == (#[trigger] ops[k]).touched_key()),
        (forall|k: int| 0 <= k < ops.len() ==> !((#[trigger] ops[k]) is Create)) ==> apply_ops(
            nodes,
            ops,
            at,
            by,
        )->Ok_0.len() == nodes.len(),
        (forall|k: int| 0 <= k < ops.len() ==> !((#[trigger] ops[k]) is Create)) ==> forall|j: int|
            0 <= j < nodes.len() ==> (#[trigger] apply_ops(nodes, ops, at, by)->Ok_0[j]).metadata.version
                >= nodes[j].metadata.version,
    decreases ops.len(),
{
    if ops.len() > 0 {
        lemma_apply_op_preserves(nodes, ops[0], at, by);
        let n1 = apply_op(nodes, ops[0], at, by)->Ok_0;
        lemma_apply_ops_preserves(n1, ops.drop_first(), at, by);
        assert forall|k: int| 0 <= k < ops.len() - 1 implies ops.drop_first()[k] == ops[k + 1] by {}
        let res = apply_ops(nodes, ops, at, by)->Ok_0;
        assert forall|j: int|
            nodes.len() <= j < res.len() implies (exists|k: int|
                0 <= k < ops.len() && (#[trigger] res[j]).key() == (
                #[trigger] ops[k]).touched_key()) by {
            if j < n1.len() {
                assert(res[j].key() == n1[j].key());
                assert(n1[j].key() == ops[0].touched_key());
                assert(res[j].key() == ops[0].touched_key());
            } else {
                let k2 = choose|k2: int|
                    0 <= k2 < ops.drop_first().len() && res[j].key() == ops.drop_first()[
                        k2
                    ].touched_key();
                assert(res[j].key() == ops[k2 + 1].touched_key());
            }
        }
    }
}

/// Every element of a stable insertion satisfies what every element of the
/// input satisfied, the inserted one included.
proof fn lemma_sort_insert_all(s: Seq<OperationView>, op: OperationView, pred: spec_fn(
    OperationView,
) -> bool)
    requires
        forall|j: int| 0 <= j < s.len() ==> pred(#[trigger] s[j]),
        pred(op),
    ensures
        forall|j: int|
            0 <= j < sort_ops_insert(s, op).len() ==> pred(#[trigger] sort_ops_insert(s, op)[j]),
    decreases s.len(),
{
    if s.len() != 0 && !(s.last().order() <= op.order()) {
        assert(forall|j: int| 0 <= j < s.len() - 1 ==> pred(#[trigger] s.drop_last()[j]));
        lemma_sort_insert_all(s.drop_last(), op, pred);
        let inner = sort_ops_insert(s.drop_last(), op);
        assert(forall|j: int|
            0 <= j < inner.push(s.last()).len() ==> pred(#[trigger] inner.push(s.last())[j]));
    }
}

/// Sorting keeps every per-element property.
proof fn lemma_sort_ops_all(s: Seq<OperationView>, pred: spec_fn(OperationView) -> bool)
    requires
        forall|j: int| 0 <= j < s.len() ==> pred(#[trigger] s[j]),
    ensures
        forall|j: int| 0 <= j < sort_ops(s).len() ==> pred(#[trigger] sort_ops(s)[j]),
    decreases s.len(),
{
    if s.len() > 0 {
        assert(forall|j: int| 0 <= j < s.len() - 1 ==> pred(#[trigger] s.drop_last()[j]));
        lemma_sort_ops_all(s.drop_last(), pred);
        lemma_sort_insert_all(sort_ops(s.drop_last()), s.last(), pred);
    }
}

/// Apply idempotence: once an apply of a proposal has succeeded, applying
/// it again succeeds and changes nothing — whatever timestamp or actor the
/// second call carries.
pub proof fn lemma_apply_idempotent(
    s: StoreView,
    id: Seq<char>,
    by: Seq<char>,
    now: Seq<char>,
    by2: Seq<char>,
    now2: Seq<char>,
)
    requires
        apply_failure(s, id, by, now) is None,
    ensures
        apply_failure(apply_post(s, id, by, now), id, by2, now2) is None,
        apply_post(apply_post(s, id, by, now), id, by2, now2) == apply_post(s, id, by, now),
{
    let p = lookup_proposal(s.proposals, id).unwrap();
    let s1 = apply_post(s, id, by, now);
    if p.status == ProposalStatus::Applied {
    } else {
        let i = proposal_idx(s.proposals, id).unwrap();
        lemma_first_idx(s.proposals, |pv: ProposalView| pv.id == id);
        assert forall|j: int| 0 <= j < s.proposals.len() implies ((#[trigger] s.proposals[j]).id
            == id) == (s1.proposals[j].id == id) by {}
        lemma_first_idx_same_pred(s.proposals, s1.proposals, |pv: ProposalView| pv.id == id);
        assert(lookup_proposal(s1.proposals, id).unwrap().status == ProposalStatus::Applied);
    }
}

/// Revision chaining: across two successive effective applies, the second
/// proposal's `previous_revision_id` equals the first's
/// `applied_to_revision_id`, and the revision counter advances by exactly
/// one each time.
pub proof fn lemma_revision_chain(
    s: StoreView,
    id1: Seq<char>,
    by1: Seq<char>,
    now1: Seq<char>,
    id2: Seq<char>,
    by2: Seq<char>,
    now2: Seq<char>,
)
    requires
        apply_failure(s, id1, by1, now1) is None,
        lookup_proposal(s.proposals, id1).unwrap().status == ProposalStatus::Accepted,
        apply_failure(apply_post(s, id1, by1, now1), id2, by2, now2) is None,
        lookup_proposal(apply_post(s, id1, by1, now1).proposals, id2).unwrap().status
            == ProposalStatus::Accepted,
    ensures
        apply_post(s, id1, by1, now1).revision == s.revision + 1,
        apply_post(apply_post(s, id1, by1, now1), id2, by2, now2).revision == s.revision + 2,
        ({
            let s2 = apply_post(apply_post(s, id1, by1, now1), id2, by2, now2);
            lookup_proposal(s2.proposals, id2).unwrap().applied.unwrap().previous_revision_id
                == lookup_proposal(s2.proposals, id1).unwrap().applied.unwrap().applied_to_revision_id
        }),
{
    let s1 = apply_post(s, id1, by1, now1);
    let s2 = apply_post(s1, id2, by2, now2);
    let i1 = proposal_idx(s.proposals, id1).unwrap();
    lemma_first_idx(s.proposals, |pv: ProposalView| pv.id == id1);
    assert forall|j: int| 0 <= j < s.proposals.len() implies ((#[trigger] s.proposals[j]).id
        == id1) == (s1.proposals[j].id == id1) by {}
    lemma_first_idx_same_pred(s.proposals, s1.proposals, |pv: ProposalView| pv.id == id1);
    assert(lookup_proposal(s1.proposals, id1).unwrap().status == ProposalStatus::Applied);
    let i2 = proposal_idx(s1.proposals, id2).unwrap();
    lemma_first_idx(s1.proposals, |pv: ProposalView| pv.id == id2);
    assert(i1 != i2);
    assert forall|j: int| 0 <= j < s1.proposals.len() implies ((#[trigger] s1.proposals[j]).id
        == id1) == (s2.proposals[j].id == id1) by {}
    lemma_first_idx_same_pred(s1.proposals, s2.proposals, |pv: ProposalView| pv.id == id1);
    assert(lookup_proposal(s2.proposals, id1) == Some(s1.proposals[i1]));
    assert forall|j: int| 0 <= j < s1.proposals.len() implies ((#[trigger] s1.proposals[j]).id
        == id2) == (s2.proposals[j].id == id2) by {}
    lemma_first_idx_same_pred(s1.proposals, s2.proposals, |pv: ProposalView| pv.id == id2);
    assert(lookup_proposal(s2.proposals, id2) == Some(s2.proposals[i2]));
}

/// Version monotonicity: an effective apply of a proposal that carries no
/// create operation leaves every stored node in place with a version at
/// least as large as before. (A create may replace the node under its key
/// wholesale, version included, so creates are excluded here.)
pub proof fn lemma_apply_versions_monotonic(s: StoreView, id: Seq<char>, by: Seq<char>, now: Seq<
    char,
>)
    requires
        store_wf(s),
        apply_failure(s, id, by, now) is None,
        lookup_proposal(s.proposals, id) matches Some(p) && p.status == ProposalStatus::Accepted
            && (forall|k: int| 0 <= k < p.operations.len() ==> !((#[trigger] p.operations[k])
            is Create)),
    ensures
        forall|key: Seq<char>|
            (#[trigger] lookup_node(s.nodes, key)) is Some ==> lookup_node(
                apply_post(s, id, by, now).nodes,
                key,
            ) is Some && lookup_node(apply_post(s, id, by, now).nodes, key).unwrap().metadata.version
                >= lookup_node(s.nodes, key).unwrap().metadata.version,
{
    let p = lookup_proposal(s.proposals, id).unwrap();
    let sorted = sort_ops(p.operations);
    lemma_sort_ops_all(p.operations, |op: OperationView| !(op is Create));
    let res = apply_ops(s.nodes, sorted, now, by)->Ok_0;
    lemma_apply_ops_preserves(s.nodes, sorted, now, by);
    assert(res.len() == s.nodes.len());
    assert(apply_post(s, id, by, now).nodes == res);
    assert forall|key: Seq<char>| (#[trigger] lookup_node(s.nodes, key)) is Some implies
        lookup_node(res, key) is Some && lookup_node(res, key).unwrap().metadata.version
        >= lookup_node(s.nodes, key).unwrap().metadata.version by {
        assert forall|j: int| 0 <= j < s.nodes.len() implies ((#[trigger] s.nodes[j]).key()
            == key) == (res[j].key() == key) by {}
        lemma_first_idx_same_pred(s.nodes, res, |n: NodeView| n.key() == key);
        lemma_first_idx(s.nodes, |n: NodeView| n.key() == key);
    }
}

/// No apply removes a node: a delete is logical, a create replaces in
/// place or appends, so every key present before an apply is present
/// after it.
pub proof fn lemma_apply_keeps_nodes(s: StoreView, id: Seq<char>, by: Seq<char>, now: Seq<char>)
    requires
        store_wf(s),
        apply_failure(s, id, by, now) is None,
    ensures
        forall|key: Seq<char>|
            (#[trigger] lookup_node(s.nodes, key)) is Some ==> lookup_node(
                apply_post(s, id, by, now).nodes,
                key,
            ) is Some,
{
    let p = lookup_proposal(s.proposals, id).unwrap();
    if p.status == ProposalStatus::Applied {
    } else {
        let sorted = sort_ops(p.operations);
        let res = apply_ops(s.nodes, sorted, now, by)->Ok_0;
        lemma_apply_ops_preserves(s.nodes, sorted, now, by);
        assert forall|key: Seq<char>| (#[trigger] lookup_node(s.nodes, key)) is Some implies
            lookup_node(res, key) is Some by {
            lemma_first_idx(s.nodes, |n: NodeView| n.key() == key);
            let j = node_idx(s.nodes, key).unwrap();
            assert forall|m: int| 0 <= m < j implies !(res[m].key() == key) by {
                assert(s.nodes[m].key() != key);
            }
            lemma_first_idx_is(res, |n: NodeView| n.key() == key, j);
        }
    }
}

/// An apply leaves untouched nodes untouched: a node whose key no
/// operation of the proposal names is exactly the node it was before.
pub proof fn lemma_apply_untouched_unchanged(
    s: StoreView,
    id: Seq<char>,
    by: Seq<char>,
    now: Seq<char>,
)
    requires
        store_wf(s),
        apply_failure(s, id, by, now) is None,
    ensures
        forall|key: Seq<char>|
            (forall|k: int|
                0 <= k < lookup_proposal(s.proposals, id).unwrap().operations.len() ==> (
                #[trigger] lookup_proposal(s.proposals, id).unwrap().operations[k]).touched_key()
                    != key) ==> #[trigger] lookup_node(apply_post(s, id, by, now).nodes, key)
                == lookup_node(s.nodes, key),
{
    let p = lookup_proposal(s.proposals, id).unwrap();
    if p.status == ProposalStatus::Applied {
    } else {
        let sorted = sort_ops(p.operations);
        let res = apply_ops(s.nodes, sorted, now, by)->Ok_0;
        lemma_apply_ops_preserves(s.nodes, sorted, now, by);
        lemma_sort_ops_sorted(p.operations);
        assert forall|key: Seq<char>|
            (forall|k: int|
                0 <= k < p.operations.len() ==> (#[trigger] p.operations[k]).touched_key()
                    != key) implies #[trigger] lookup_node(res, key) == lookup_node(
            s.nodes,
            key,
        ) by {
            assert forall|k: int| 0 <= k < sorted.len() implies (#[trigger] sorted[k]).touched_key()
                != key by {
                broadcast use vstd::seq_lib::group_to_multiset_ensures;

                assert(sorted.contains(sorted[k]));
                assert(sorted.to_multiset().count(sorted[k]) > 0);
                assert(p.operations.contains(sorted[k]));
                let w = choose|w: int|
                    0 <= w < p.operations.len() && p.operations[w] == sorted[k];
                assert(p.operations[w].touched_key() != key);
            }
            lemma_first_idx(s.nodes, |n: NodeView| n.key() == key);
            match node_idx(s.nodes, key) {
                Some(j) => {
                    assert(res[j] == s.nodes[j]) by {
                        assert(forall|k: int|
                            0 <= k < sorted.len() ==> (#[trigger] sorted[k]).touched_key()
                                != s.nodes[j].key());
                    }
                    assert forall|m: int| 0 <= m < j implies !(res[m].key() == key) by {
                        assert(s.nodes[m].key() != key);
                    }
                    lemma_first_idx_is(res, |n: NodeView| n.key() == key, j);
                },
                None => {
                    assert forall|m: int| 0 <= m < res.len() implies !(res[m].key() == key) by {
                        if m < s.nodes.len() {
                            assert(res[m].key() == s.nodes[m].key());
                        } else {
                            let k = choose|k: int|
                                0 <= k < sorted.len() && res[m].key() == (
                                #[trigger] sorted[k]).touched_key();
                        }
                    }
                    lemma_first_idx_none(res, |n: NodeView| n.key() == key);
                },
            }
        }
    }
}

/// A content-bearing update writes the content, mirrors it into the
/// description, stamps the modification fields, bumps the version by one,
/// and records the content's SHA-256 digest as the new hash.
pub proof fn lemma_update_sets_content_hash(
    nodes: Seq<NodeView>,
    op_id: Seq<char>,
    order: u32,
    node_id: NodeIdView,
    changes: UpdateChangesView,
    at: Seq<char>,
    by: Seq<char>,
)
    requires
        changes.content is Some,
        node_idx(nodes, key_of(node_id)) matches Some(i) && nodes[i].metadata.version < u32::MAX,
    ensures
        ({
            let op = OperationView::Update { id: op_id, order, node_id, changes };
            let i = node_idx(nodes, key_of(node_id)).unwrap();
            let c = changes.content.unwrap();
            &&& apply_op(nodes, op, at, by) matches Ok(res)
            &&& apply_op(nodes, op, at, by)->Ok_0[i].content == c
            &&& apply_op(nodes, op, at, by)->Ok_0[i].description == Some(c)
            &&& apply_op(nodes, op, at, by)->Ok_0[i].metadata.content_hash == Some(
                sha256_hex_of(c),
            )
            &&& apply_op(nodes, op, at, by)->Ok_0[i].metadata.version == nodes[i].metadata.version
                + 1
            &&& apply_op(nodes, op, at, by)->Ok_0[i].metadata.modified_at == at
            &&& apply_op(nodes, op, at, by)->Ok_0[i].metadata.modified_by == by
            &&& forall|j: int|
                0 <= j < nodes.len() && j != i ==> #[trigger] apply_op(nodes, op, at, by)->Ok_0[j]
                    == nodes[j]
        }),
{
    let op = OperationView::Update { id: op_id, order, node_id, changes };
    lemma_first_idx(nodes, |n: NodeView| n.key() == key_of(node_id));
    let i = node_idx(nodes, key_of(node_id)).unwrap();
    assert(0 <= i < nodes.len());
    assert(apply_op(nodes, op, at, by) is Ok);
}

/// The id of the most recent review of this proposal, if any.
fn find_last_review_id(reviews: &Vec<Review>, proposal_id: &str) -> (r: Option<String>)
    ensures
        r.deep_view() == last_review_id(reviews.deep_view(), proposal_id@),
{
    let mut j: usize = reviews.len();
    proof {
        assert(reviews.deep_view().take(reviews.len() as int) =~= reviews.deep_view());
    }
    while j > 0
        invariant
            j <= reviews.len(),
            last_review_id(reviews.deep_view(), proposal_id@) == last_review_id(
                reviews.deep_view().take(j as int),
                proposal_id@,
            ),
        decreases j,
    {
        proof {
            let pre = reviews.deep_view().take(j as int);
            assert(pre.last() == reviews.deep_view()[j - 1]);
            assert(reviews.deep_view()[j - 1] == reviews@[j - 1].deep_view());
            assert(pre.drop_last() =~= reviews.deep_view().take(j - 1));
        }
        if str_eq(reviews[j - 1].proposal_id.as_str(), proposal_id) {
            return Some(reviews[j - 1].id.clone());
        }
        j = j - 1;
    }
    proof {
        assert(reviews.deep_view().take(0).len() == 0);
    }
    None
}

/// Parses a canonical key back into an identity; always succeeds.
pub fn key_to_node_id(key: &str) -> (r: Option<NodeId>)
    ensures
        r matches Some(nid) && nid.deep_view() == key_to_id_view(key@),
{
    let ghost p = |c: char| c == ':';
    let n = key.unicode_len();
    let mut i: usize = 0;
    while i < n
        invariant
            i <= n,
            n == key@.len(),
            forall|j: int| 0 <= j < i ==> !p(#[trigger] key@[j]),
            p == (|c: char| c == ':'),
        decreases n - i,
    {
        if key.get_char(i) == ':' {
            proof {
                lemma_first_idx_is(key@, p, i as int);
            }
            let ns = key.substring_char(0, i);
            let id = key.substring_char(i + 1, n);
            proof {
                assert(ns@ =~= key@.take(i as int));
                assert(id@ =~= key@.skip(i as int + 1));
            }
            return Some(NodeId { id: id.to_owned(), namespace: Option::Some(ns.to_owned()) });
        }
        i = i + 1;
    }
    proof {
        lemma_first_idx_none(key@, p);
    }
    Some(NodeId { id: key.to_owned(), namespace: Option::None })
}

/// The node keys a run of operations touches, in first-occurrence order.
fn touched_keys_vec(ops: &Vec<Operation>) -> (r: Vec<String>)
    ensures
        r.deep_view() == touched_keys(ops.deep_view()),
{
    let mut acc: Vec<String> = Vec::new();
    let mut i: usize = 0;
    proof {
        assert(ops.deep_view().skip(0) =~= ops.deep_view());
        assert(acc.deep_view() =~= Seq::<Seq<char>>::empty());
    }
    while i < ops.len()
        invariant
            i <= ops.len(),
            touched_keys(ops.deep_view()) == touched_keys_from(
                ops.deep_view().skip(i as int),
                acc.deep_view(),
            ),
        decreases ops.len() - i,
    {
        proof {
            let rest = ops.deep_view().skip(i as int);
            assert(rest[0] == ops.deep_view()[i as int]);
            assert(ops.deep_view()[i as int] == ops@[i as int].deep_view());
            assert(rest.drop_first() =~= ops.deep_view().skip(i as int + 1));
        }
        let key = ops[i].touched_key();
        if !vec_contains_str(&acc, key.as_str()) {
            let ghost v1 = acc;
            acc.push(key);
            proof {
                lemma_push_deep_view(v1, acc, acc@.last());
            }
        }
        i = i + 1;
    }
    proof {
        assert(ops.deep_view().skip(ops.len() as int).len() == 0);
    }
    acc
}

/// Whether any of the operations touches this key.
fn ops_touch(ops: &Vec<Operation>, key: &str) -> (r: bool)
    ensures
        r == touched_by(ops.deep_view(), key@),
{
    let mut i: usize = 0;
    while i < ops.len()
        invariant
            i <= ops.len(),
            forall|j: int| 0 <= j < i ==> (#[trigger] ops.deep_view()[j]).touched_key() != key@,
        decreases ops.len() - i,
    {
        proof {
            assert(ops.deep_view()[i as int] == ops@[i as int].deep_view());
        }
        let k = ops[i].touched_key();
        if str_eq(k.as_str(), key) {
            return true;
        }
        i = i + 1;
    }
    proof {
        if touched_by(ops.deep_view(), key@) {
            let j = choose|j: int|
                0 <= j < ops.deep_view().len() && (#[trigger] ops.deep_view()[j]).touched_key()
                    == key@;
            assert(false);
        }
    }
    false
}

/// The keys of `tkeys` that the operations touch too, in order.
fn shared_keys_vec(tkeys: &Vec<String>, ops: &Vec<Operation>) -> (r: Vec<String>)
    ensures
        r.deep_view() == shared_keys(tkeys.deep_view(), ops.deep_view()),
{
    let mut out: Vec<String> = Vec::new();
    let mut i: usize = 0;
    proof {
        assert(tkeys.deep_view().skip(0) =~= tkeys.deep_view());
    }
    while i < tkeys.len()
        invariant
            i <= tkeys.len(),
            shared_keys(tkeys.deep_view(), ops.deep_view()) == out.deep_view() + shared_keys(
                tkeys.deep_view().skip(i as int),
                ops.deep_view(),
            ),
        decreases tkeys.len() - i,
    {
        proof {
            let rest = tkeys.deep_view().skip(i as int);
            assert(rest[0] == tkeys.deep_view()[i as int]);
            assert(tkeys.deep_view()[i as int] == tkeys@[i as int].deep_view());
            assert(rest.drop_first() =~= tkeys.deep_view().skip(i as int + 1));
        }
        if ops_touch(ops, tkeys[i].as_str()) {
            let ghost v1 = out;
            out.push(tkeys[i].clone());
            proof {
                lemma_push_deep_view(v1, out, out@.last());
            }
        }
        proof {
            assert(out.deep_view() + shared_keys(
                tkeys.deep_view().skip(i as int + 1),
                ops.deep_view(),
            ) =~= shared_keys(tkeys.deep_view(), ops.deep_view()));
        }
        i = i + 1;
    }
    proof {
        assert(tkeys.deep_view().skip(tkeys.len() as int).len() == 0);
        assert(out.deep_view() =~= shared_keys(tkeys.deep_view(), ops.deep_view()));
    }
    out
}

/// The identities the keys denote, in order.
fn ids_of_keys(keys: &Vec<String>) -> (r: Vec<NodeId>)
    ensures
        r.deep_view() == ids_of_keys_view(keys.deep_view()),
{
    let mut out: Vec<NodeId> = Vec::new();
    let mut i: usize = 0;
    proof {
        assert(keys.deep_view().skip(0) =~= keys.deep_view());
    }
    while i < keys.len()
        invariant
            i <= keys.len(),
            ids_of_keys_view(keys.deep_view()) == out.deep_view() + ids_of_keys_view(
                keys.deep_view().skip(i as int),
            ),
        decreases keys.len() - i,
    {
        proof {
            let rest = keys.deep_view().skip(i as int);
            assert(rest[0] == keys.deep_view()[i as int]);
            assert(keys.deep_view()[i as int] == keys@[i as int].deep_view());
            assert(rest.drop_first() =~= keys.deep_view().skip(i as int + 1));
        }
        let nid = match key_to_node_id(keys[i].as_str()) {
            Option::Some(n) => n,
            Option::None => NodeId { id: keys[i].clone(), namespace: Option::None },
        };
        let ghost v1 = out;
        out.push(nid);
        proof {
            lemma_push_deep_view(v1, out, out@.last());
            assert(out.deep_view() + ids_of_keys_view(
                keys.deep_view().skip(i as int + 1),
            ) =~= ids_of_keys_view(keys.deep_view()));
        }
        i = i + 1;
    }
    proof {
        assert(keys.deep_view().skip(keys.len() as int).len() == 0);
        assert(out.deep_view() =~= ids_of_keys_view(keys.deep_view()));
    }
    out
}

/// One field-level value an update operation proposes.
struct Contribution {
    key: String,
    field: String,
    value: MergeValue,
}

impl DeepView for Contribution {
    type V = ContributionView;

    closed spec fn deep_view(&self) -> ContributionView {
        ContributionView {
            key: self.key.deep_view(),
            field: self.field.deep_view(),
            value: self.value.deep_view(),
        }
    }
}

/// A node field named by key and field name.
struct FieldKey {
    key: String,
    field: String,
}

impl DeepView for FieldKey {
    type V = FieldKeyView;

    closed spec fn deep_view(&self) -> FieldKeyView {
        FieldKeyView { key: self.key.deep_view(), field: self.field.deep_view() }
    }
}

/// Appends the field-level values these operations propose, in order.
fn push_op_contribs(out: &mut Vec<Contribution>, ops: &Vec<Operation>)
    ensures
        final(out).deep_view() == old(out).deep_view() + ops_contribs(ops.deep_view()),
{
    let ghost base = out.deep_view();
    let mut i: usize = 0;
    proof {
        assert(ops.deep_view().skip(0) =~= ops.deep_view());
        assert(base + ops_contribs(ops.deep_view()) == out.deep_view() + ops_contribs(
            ops.deep_view().skip(0),
        ));
    }
    while i < ops.len()
        invariant
            i <= ops.len(),
            base + ops_contribs(ops.deep_view()) == out.deep_view() + ops_contribs(
                ops.deep_view().skip(i as int),
            ),
        decreases ops.len() - i,
    {
        proof {
            let rest = ops.deep_view().skip(i as int);
            assert(rest[0] == ops.deep_view()[i as int]);
            assert(ops.deep_view()[i as int] == ops@[i as int].deep_view());
            assert(rest.drop_first() =~= ops.deep_view().skip(i as int + 1));
        }
        match &ops[i] {
            Operation::Update { node_id, changes, .. } => {
                match &changes.content {
                    Option::Some(c) => {
                        let ghost v1 = *out;
                        out.push(
                            Contribution {
                                key: node_id.key(),
                                field: "content".to_owned(),
                                value: MergeValue::Text(c.clone()),
                            },
                        );
                        proof {
                            lemma_push_deep_view(v1, *out, out@.last());
                        }
                    },
                    Option::None => {},
                }
                match &changes.status {
                    Option::Some(st) => {
                        let ghost v1 = *out;
                        out.push(
                            Contribution {
                                key: node_id.key(),
                                field: "status".to_owned(),
                                value: MergeValue::Status(*st),
                            },
                        );
                        proof {
                            lemma_push_deep_view(v1, *out, out@.last());
                        }
                    },
                    Option::None => {},
                }
            },
            _ => {},
        }
        proof {
            assert(out.deep_view() + ops_contribs(ops.deep_view().skip(i as int + 1)) =~= base
                + ops_contribs(ops.deep_view()));
        }
        i = i + 1;
    }
    proof {
        assert(ops.deep_view().skip(ops.len() as int).len() == 0);
        assert(out.deep_view() =~= base + ops_contribs(ops.deep_view()));
    }
}

/// Whether the list of fields holds this one.
fn contains_field_key(v: &Vec<FieldKey>, key: &str, field: &str) -> (r: bool)
    ensures
        r == v.deep_view().contains((FieldKeyView { key: key@, field: field@ })),
{
    let mut i: usize = 0;
    while i < v.len()
        invariant
            i <= v.len(),
            forall|j: int|
                0 <= j < i ==> #[trigger] v.deep_view()[j] != (FieldKeyView {
                    key: key@,
                    field: field@,
                }),
        decreases v.len() - i,
    {
        proof {
            assert(v.deep_view()[i as int] == v@[i as int].deep_view());
        }
        if str_eq(v[i].key.as_str(), key) && str_eq(v[i].field.as_str(), field) {
            return true;
        }
        i = i + 1;
    }
    proof {
        if v.deep_view().contains((FieldKeyView { key: key@, field: field@ })) {
            let j = choose|j: int|
                0 <= j < v.deep_view().len() && v.deep_view()[j] == (FieldKeyView {
                    key: key@,
                    field: field@,
                });
            assert(false);
        }
    }
    false
}

/// The values proposed for one field, in contribution order.
fn values_for_vec(cs: &Vec<Contribution>, pair: &FieldKey) -> (r: Vec<MergeValue>)
    ensures
        r.deep_view() == values_for(cs.deep_view(), pair.deep_view()),
{
    let mut out: Vec<MergeValue> = Vec::new();
    let mut i: usize = 0;
    proof {
        assert(cs.deep_view().skip(0) =~= cs.deep_view());
    }
    while i < cs.len()
        invariant
            i <= cs.len(),
            values_for(cs.deep_view(), pair.deep_view()) == out.deep_view() + values_for(
                cs.deep_view().skip(i as int),
                pair.deep_view(),
            ),
        decreases cs.len() - i,
    {
        proof {
            let rest = cs.deep_view().skip(i as int);
            assert(rest[0] == cs.deep_view()[i as int]);
            assert(cs.deep_view()[i as int] == cs@[i as int].deep_view());
            assert(rest.drop_first() =~= cs.deep_view().skip(i as int + 1));
        }
        if str_eq(cs[i].key.as_str(), pair.key.as_str()) && str_eq(
            cs[i].field.as_str(),
            pair.field.as_str(),
        ) {
            let ghost v1 = out;
            out.push(cs[i].value.clone());
            proof {
                lemma_push_deep_view(v1, out, out@.last());
            }
        }
        proof {
            assert(out.deep_view() + values_for(
                cs.deep_view().skip(i as int + 1),
                pair.deep_view(),
            ) =~= values_for(cs.deep_view(), pair.deep_view()));
        }
        i = i + 1;
    }
    proof {
        assert(cs.deep_view().skip(cs.len() as int).len() == 0);
        assert(out.deep_view() =~= values_for(cs.deep_view(), pair.deep_view()));
    }
    out
}

/// The index of the first value differing from the first, if any.
fn first_divergent(vals: &Vec<MergeValue>) -> (r: Option<usize>)
    requires
        vals.len() > 0,
    ensures
        match r {
            None => forall|j: int|
                0 <= j < vals.deep_view().len() ==> #[trigger] vals.deep_view()[j]
                    == vals.deep_view()[0],
            Some(i) => 0 < i < vals.deep_view().len() && vals.deep_view()[i as int]
                != vals.deep_view()[0] && forall|j: int|
                0 <= j < i ==> #[trigger] vals.deep_view()[j] == vals.deep_view()[0],
        },
{
    let mut i: usize = 1;
    proof {
        assert(vals.deep_view()[0] == vals@[0].deep_view());
    }
    while i < vals.len()
        invariant
            1 <= i <= vals.len(),
            vals.len() > 0,
            forall|j: int| 0 <= j < i ==> #[trigger] vals.deep_view()[j] == vals.deep_view()[0],
        decreases vals.len() - i,
    {
        proof {
            assert(vals.deep_view()[i as int] == vals@[i as int].deep_view());
        }
        if !vals[i].same(&vals[0]) {
            return Some(i);
        }
        i = i + 1;
    }
    None
}

/// Whether the list holds this status.
fn contains_status(v: &Vec<NodeStatus>, x: NodeStatus) -> (r: bool)
    ensures
        r == v.deep_view().contains(x),
{
    let mut i: usize = 0;
    while i < v.len()
        invariant
            i <= v.len(),
            forall|j: int| 0 <= j < i ==> v.deep_view()[j] != x,
        decreases v.len() - i,
    {
        proof {
            assert(v.deep_view()[i as int] == v@[i as int].deep_view());
        }
        if v[i] == x {
            return true;
        }
        i = i + 1;
    }
    proof {
        if v.deep_view().contains(x) {
            let j = choose|j: int| 0 <= j < v.deep_view().len() && v.deep_view()[j] == x;
            assert(v.deep_view()[j] != x);
        }
    }
    false
}

/// Whether the list holds this node type.
fn contains_node_type(v: &Vec<NodeType>, x: NodeType) -> (r: bool)
    ensures
        r == v.deep_view().contains(x),
{
    let mut i: usize = 0;
    while i < v.len()
        invariant
            i <= v.len(),
            forall|j: int| 0 <= j < i ==> v.deep_view()[j] != x,
        decreases v.len() - i,
    {
        proof {
            assert(v.deep_view()[i as int] == v@[i as int].deep_view());
        }
        if v[i] == x {
            return true;
        }
        i = i + 1;
    }
    proof {
        if v.deep_view().contains(x) {
            let j = choose|j: int| 0 <= j < v.deep_view().len() && v.deep_view()[j] == x;
            assert(v.deep_view()[j] != x);
        }
    }
    false
}

/// Whether a node passes a query's filters; see `node_matches_query`.
fn node_matches(n: &ContextNode, q: &NodeQuery) -> (r: bool)
    ensures
        r == node_matches_query(n.deep_view(), q.deep_view()),
{
    let status_ok = match &q.status {
        Option::None => true,
        Option::Some(ss) => contains_status(ss, n.status),
    };
    if !status_ok {
        return false;
    }
    let type_ok = match &q.node_types {
        Option::None => true,
        Option::Some(ts) => contains_node_type(ts, n.node_type),
    };
    if !type_ok {
        return false;
    }
    match &q.search {
        Option::None => true,
        Option::Some(s) => {
            let needle = lowercase(s.as_str());
            if str_contains(lowercase(n.content.as_str()).as_str(), needle.as_str()) {
                return true;
            }
            match &n.title {
                Option::Some(t) => {
                    if str_contains(lowercase(t.as_str()).as_str(), needle.as_str()) {
                        return true;
                    }
                },
                Option::None => {},
            }
            match &n.description {
                Option::Some(d) => {
                    if str_contains(lowercase(d.as_str()).as_str(), needle.as_str()) {
                        return true;
                    }
                },
                Option::None => {},
            }
            false
        },
    }
}

/// Writes `rev_{n}`.
pub fn rev_string(n: u64) -> (r: String)
    ensures
        r@ == rev_id_of(n as int),
{
    let mut s = "rev_".to_owned();
    s.append(u64_to_string(n).as_str());
    s
}

impl InMemoryStore {
    /// A fresh, empty store.
    pub fn new() -> (r: Self)
        ensures
            r@.nodes.len() == 0,
            r@.proposals.len() == 0,
            r@.reviews.len() == 0,
            r@.revision == 0,
            r@.audit.len() == 0,
            store_wf(r@),
    {
        let r = InMemoryStore {
            nodes: Vec::new(),
            proposals: Vec::new(),
            reviews: Vec::new(),
            revision_counter: 0,
            audit_log: Vec::new(),
        };
        proof {
            assert(r@.nodes =~= Seq::<NodeView>::empty());
            assert(r@.proposals =~= Seq::<ProposalView>::empty());
            assert(r@.reviews =~= Seq::<ReviewView>::empty());
            assert(r@.audit =~= Seq::<AuditEventView>::empty());
        }
        r
    }

    /// Rebuilds a store from previously exported state, as the file-backed
    /// persistence variant does at startup. The state is admitted exactly
    /// when it satisfies the store's invariant — keys and ids unique, every
    /// applied proposal carrying its metadata, every content hash the
    /// digest of its content — and rejected as `Invalid` otherwise.
    pub fn from_state(
        nodes: Vec<ContextNode>,
        proposals: Vec<Proposal>,
        reviews: Vec<Review>,
        revision_counter: u64,
        audit_log: Vec<AuditEvent>,
    ) -> (r: Result<InMemoryStore, StoreError>)
        ensures
            ({
                let candidate = StoreView {
                    nodes: nodes.deep_view(),
                    proposals: proposals.deep_view(),
                    reviews: reviews.deep_view(),
                    revision: revision_counter,
                    audit: audit_log.deep_view(),
                };
                match r {
                    Ok(s) => store_wf(candidate) && s@ == candidate,
                    Err(e) => !store_wf(candidate) && e.deep_view()
                        matches StoreErrorView::Invalid(_),
                }
            }),
    {
        let ghost nv = nodes.deep_view();
        let ghost pv = proposals.deep_view();
        let mut i: usize = 0;
        while i < nodes.len()
            invariant
                i <= nodes.len(),
                nv == nodes.deep_view(),
                forall|a: int, b: int|
                    0 <= a < b < i ==> (#[trigger] nv[a]).key() != (#[trigger] nv[b]).key(),
                forall|a: int|
                    0 <= a < i ==> (match (#[trigger] nv[a]).metadata.content_hash {
                        Some(h) => h == sha256_hex_of(nv[a].content),
                        None => true,
                    }),
            decreases nodes.len() - i,
        {
            proof {
                assert(nv[i as int] == nodes@[i as int].deep_view());
            }
            let key = nodes[i].id.key();
            let mut j: usize = 0;
            while j < i
                invariant
                    j <= i < nodes.len(),
                    nv == nodes.deep_view(),
                    key@ == nv[i as int].key(),
                    forall|a: int| 0 <= a < j ==> (#[trigger] nv[a]).key() != nv[i as int].key(),
                decreases i - j,
            {
                proof {
                    assert(nv[j as int] == nodes@[j as int].deep_view());
                }
                let other = nodes[j].id.key();
                if str_eq(other.as_str(), key.as_str()) {
                    return Err(StoreError::Invalid("duplicate node key".to_owned()));
                }
                j = j + 1;
            }
            match &nodes[i].metadata.content_hash {
                Option::Some(h) => {
                    let expected = crate::sensitivity::content_hash(nodes[i].content.as_str());
                    if !str_eq(h.as_str(), expected.as_str()) {
                        return Err(
                            StoreError::Invalid("content hash does not match content".to_owned()),
                        );
                    }
                },
                Option::None => {},
            }
            i = i + 1;
        }
        let mut i2: usize = 0;
        while i2 < proposals.len()
            invariant
                i2 <= proposals.len(),
                pv == proposals.deep_view(),
                forall|a: int, b: int|
                    0 <= a < b < i2 ==> (#[trigger] pv[a]).id != (#[trigger] pv[b]).id,
                forall|a: int|
                    0 <= a < i2 && (#[trigger] pv[a]).status == ProposalStatus::Applied
                        ==> pv[a].applied is Some,
            decreases proposals.len() - i2,
        {
            proof {
                assert(pv[i2 as int] == proposals@[i2 as int].deep_view());
            }
            let mut j: usize = 0;
            while j < i2
                invariant
                    j <= i2 < proposals.len(),
                    pv == proposals.deep_view(),
                    forall|a: int| 0 <= a < j ==> (#[trigger] pv[a]).id != pv[i2 as int].id,
                decreases i2 - j,
            {
                proof {
                    assert(pv[j as int] == proposals@[j as int].deep_view());
                }
                if str_eq(proposals[j].id.as_str(), proposals[i2].id.as_str()) {
                    return Err(StoreError::Invalid("duplicate proposal id".to_owned()));
                }
                j = j + 1;
            }
            if matches!(proposals[i2].status, ProposalStatus::Applied) && matches!(
                proposals[i2].applied,
                Option::None,
            ) {
                return Err(
                    StoreError::Invalid(
                        "an applied proposal must carry its applied metadata".to_owned(),
                    ),
                );
            }
            i2 = i2 + 1;
        }
        Ok(InMemoryStore { nodes, proposals, reviews, revision_counter, audit_log })
    }

    /// A deep copy of the whole store state, in the shape `from_state`
    /// accepts: nodes, proposals, reviews, the revision counter, and the
    /// audit log.
    pub fn export_state(&self) -> (r: (
        Vec<ContextNode>,
        Vec<Proposal>,
        Vec<Review>,
        u64,
        Vec<AuditEvent>,
    ))
        ensures
            r.0.deep_view() == self@.nodes,
            r.1.deep_view() == self@.proposals,
            r.2.deep_view() == self@.reviews,
            r.3 == self@.revision,
            r.4.deep_view() == self@.audit,
    {
        proof {
            assert forall|a: ContextNode, b: ContextNode| cloned(a, b) implies a.deep_view()
                == b.deep_view() by {}
            assert forall|a: Proposal, b: Proposal| cloned(a, b) implies a.deep_view()
                == b.deep_view() by {}
            assert forall|a: Review, b: Review| cloned(a, b) implies a.deep_view()
                == b.deep_view() by {}
            assert forall|a: AuditEvent, b: AuditEvent| cloned(a, b) implies a.deep_view()
                == b.deep_view() by {}
        }
        (
            crate::support::clone_vec_deep(&self.nodes),
            crate::support::clone_vec_deep(&self.proposals),
            crate::support::clone_vec_deep(&self.reviews),
            self.revision_counter,
            crate::support::clone_vec_deep(&self.audit_log),
        )
    }

    /// The current value of the revision counter.
    pub fn revision(&self) -> (r: u64)
        ensures
            r == self@.revision,
    {
        self.revision_counter
    }

    /// The index of the node stored under `key`, if any.
    fn find_node_index(&self, key: &String) -> (r: Option<usize>)
        ensures
            match r {
                None => node_idx(self@.nodes, key@) is None,
                Some(i) => node_idx(self@.nodes, key@) == Some(i as int),
            },
    {
        find_node_in(&self.nodes, key)
    }

    /// The index of the proposal with this id, if any.
    fn find_proposal_index(&self, proposal_id: &str) -> (r: Option<usize>)
        ensures
            match r {
                None => proposal_idx(self@.proposals, proposal_id@) is None,
                Some(i) => proposal_idx(self@.proposals, proposal_id@) == Some(i as int),
            },
    {
        let ghost p = |pv: ProposalView| pv.id == proposal_id@;
        let mut i: usize = 0;
        while i < self.proposals.len()
            invariant
                i <= self.proposals.len(),
                forall|j: int| 0 <= j < i ==> !p(#[trigger] self@.proposals[j]),
                p == (|pv: ProposalView| pv.id == proposal_id@),
            decreases self.proposals.len() - i,
        {
            proof {
                assert(self@.proposals[i as int] == self.proposals@[i as int].deep_view());
            }
            if str_eq(self.proposals[i].id.as_str(), proposal_id) {
                proof {
                    assert(p(self@.proposals[i as int]));
                    lemma_first_idx_is(self@.proposals, p, i as int);
                }
                return Some(i);
            }
            proof {
                assert(!p(self@.proposals[i as int]));
            }
            i = i + 1;
        }
        proof {
            lemma_first_idx_none(self@.proposals, p);
        }
        None
    }

    /// A copy of the node stored under this identity, if any.
    pub fn get_node(&self, node_id: &NodeId) -> (r: Option<ContextNode>)
        ensures
            r.deep_view() == lookup_node(self@.nodes, key_of(node_id.deep_view())),
    {
        let key = node_id.key();
        match self.find_node_index(&key) {
            Option::None => Option::None,
            Option::Some(i) => {
                proof {
                    lemma_first_idx(self@.nodes, |n: NodeView| n.key() == key@);
                    assert(self@.nodes[i as int] == self.nodes@[i as int].deep_view());
                }
                Option::Some(self.nodes[i].clone())
            },
        }
    }

    /// A copy of the proposal with this id, if any.
    pub fn get_proposal(&self, proposal_id: &str) -> (r: Option<Proposal>)
        ensures
            r.deep_view() == lookup_proposal(self@.proposals, proposal_id@),
    {
        match self.find_proposal_index(proposal_id) {
            Option::None => Option::None,
            Option::Some(i) => {
                proof {
                    lemma_first_idx(self@.proposals, |pv: ProposalView| pv.id == proposal_id@);
                    assert(self@.proposals[i as int] == self.proposals@[i as int].deep_view());
                }
                Option::Some(self.proposals[i].clone())
            },
        }
    }

    /// Records a new proposal. Fails with `Conflict` when one with the same
    /// id already exists, and with `Invalid` for a proposal arriving in the
    /// `Applied` state, which only the apply step may produce; otherwise
    /// appends it, touching nothing else.
    pub fn create_proposal(&mut self, proposal: Proposal) -> (r: Result<(), StoreError>)
        requires
            store_wf(old(self)@),
        ensures
            store_wf(final(self)@),
            match lookup_proposal(old(self)@.proposals, proposal.deep_view().id) {
                Some(_) => r matches Err(e) && e.deep_view() matches StoreErrorView::Conflict(_)
                    && final(self)@ == old(self)@,
                None => {
                    if proposal.deep_view().status == ProposalStatus::Applied {
                        r matches Err(e) && e.deep_view() matches StoreErrorView::Invalid(_)
                            && final(self)@ == old(self)@
                    } else {
                        r is Ok && final(self)@ == (StoreView {
                            proposals: old(self)@.proposals.push(proposal.deep_view()),
                            ..old(self)@
                        })
                    }
                },
            },
    {
        match self.find_proposal_index(proposal.id.as_str()) {
            Option::Some(_) => {
                let mut m = "proposal already exists: ".to_owned();
                m.append(proposal.id.as_str());
                Err(StoreError::Conflict(m))
            },
            Option::None if matches!(proposal.status, ProposalStatus::Applied) => {
                Err(
                    StoreError::Invalid(
                        "a proposal cannot be created in the applied state".to_owned(),
                    ),
                )
            },
            Option::None => {
                let ghost before = self.proposals;
                let ghost pview = proposal.deep_view();
                self.proposals.push(proposal);
                proof {
                    lemma_push_deep_view(before, self.proposals, self.proposals@.last());
                    lemma_first_idx(before.deep_view(), |pv: ProposalView| pv.id == pview.id);
                    assert(unique_proposal_ids(self@.proposals)) by {
                        assert(forall|j: int|
                            0 <= j < before.deep_view().len() ==> (#[trigger] before.deep_view()[j]).id
                                != pview.id);
                    }
                }
                Ok(())
            },
        }
    }

    /// Withdraws a proposal: legal only while it is open; the status then
    /// becomes `Withdrawn` and nothing else changes.
    pub fn withdraw_proposal(&mut self, proposal_id: &str) -> (r: Result<(), StoreError>)
        requires
            store_wf(old(self)@),
        ensures
            store_wf(final(self)@),
            match lookup_proposal(old(self)@.proposals, proposal_id@) {
                None => r matches Err(e) && e.deep_view() matches StoreErrorView::NotFound(_)
                    && final(self)@ == old(self)@,
                Some(p) => {
                    if p.status != ProposalStatus::Open {
                        r matches Err(e) && e.deep_view() matches StoreErrorView::Invalid(_)
                            && final(self)@ == old(self)@
                    } else {
                        r is Ok && final(self)@ == (StoreView {
                            proposals: old(self)@.proposals.update(
                                proposal_idx(old(self)@.proposals, proposal_id@).unwrap(),
                                (ProposalView { status: ProposalStatus::Withdrawn, ..p }),
                            ),
                            ..old(self)@
                        })
                    }
                },
            },
    {
        match self.find_proposal_index(proposal_id) {
            Option::None => {
                let mut m = "proposal ".to_owned();
                m.append(proposal_id);
                Err(StoreError::NotFound(m))
            },
            Option::Some(i) => {
                proof {
                    lemma_first_idx(self@.proposals, |pv: ProposalView| pv.id == proposal_id@);
                    assert(self@.proposals[i as int] == self.proposals@[i as int].deep_view());
                }
                if !matches!(self.proposals[i].status, ProposalStatus::Open) {
                    return Err(
                        StoreError::Invalid(
                            "only open proposals can be withdrawn".to_owned(),
                        ),
                    );
                }
                let ghost before = self.proposals;
                let mut p = self.proposals[i].clone();
                p.status = ProposalStatus::Withdrawn;
                self.proposals.set(i, p);
                proof {
                    assert(self@.proposals =~= before.deep_view().update(
                        i as int,
                        (ProposalView {
                            status: ProposalStatus::Withdrawn,
                            ..before.deep_view()[i as int]
                        }),
                    ));
                }
                Ok(())
            },
        }
    }

    /// Appends a review to the history and, while the proposal is open,
    /// transitions its status: an accept opens the way to apply, a reject
    /// closes it, a request for changes leaves it open. Fails with
    /// `NotFound` for an unknown proposal and with `Invalid` when the
    /// proposal is no longer open; the history then stays unchanged.
    pub fn submit_review(&mut self, review: Review) -> (r: Result<(), StoreError>)
        requires
            store_wf(old(self)@),
        ensures
            store_wf(final(self)@),
            match lookup_proposal(old(self)@.proposals, review.deep_view().proposal_id) {
                None => r matches Err(e) && e.deep_view() matches StoreErrorView::NotFound(_)
                    && final(self)@ == old(self)@,
                Some(p) => {
                    if p.status != ProposalStatus::Open {
                        r matches Err(e) && e.deep_view() matches StoreErrorView::Invalid(_)
                            && final(self)@ == old(self)@
                    } else {
                        r is Ok && final(self)@ == (StoreView {
                            proposals: old(self)@.proposals.update(
                                proposal_idx(
                                    old(self)@.proposals,
                                    review.deep_view().proposal_id,
                                ).unwrap(),
                                (ProposalView {
                                    status: match review.deep_view().action {
                                        ReviewAction::Accept => ProposalStatus::Accepted,
                                        ReviewAction::Reject => ProposalStatus::Rejected,
                                        ReviewAction::RequestChanges => ProposalStatus::Open,
                                    },
                                    ..p
                                }),
                            ),
                            reviews: old(self)@.reviews.push(review.deep_view()),
                            ..old(self)@
                        })
                    }
                },
            },
    {
        match self.find_proposal_index(review.proposal_id.as_str()) {
            Option::None => {
                let mut m = "proposal ".to_owned();
                m.append(review.proposal_id.as_str());
                Err(StoreError::NotFound(m))
            },
            Option::Some(i) => {
                proof {
                    lemma_first_idx(
                        self@.proposals,
                        |pv: ProposalView| pv.id == review.deep_view().proposal_id,
                    );
                    assert(self@.proposals[i as int] == self.proposals@[i as int].deep_view());
                }
                if !matches!(self.proposals[i].status, ProposalStatus::Open) {
                    return Err(
                        StoreError::Invalid("proposal is not open for review".to_owned()),
                    );
                }
                let ghost before = self.proposals;
                let mut p = self.proposals[i].clone();
                p.status = match review.action {
                    ReviewAction::Accept => ProposalStatus::Accepted,
                    ReviewAction::Reject => ProposalStatus::Rejected,
                    ReviewAction::RequestChanges => ProposalStatus::Open,
                };
                self.proposals.set(i, p);
                let ghost before_reviews = self.reviews;
                self.reviews.push(review);
                proof {
                    lemma_push_deep_view(before_reviews, self.reviews, self.reviews@.last());
                    assert(self@.proposals =~= before.deep_view().update(
                        i as int,
                        (ProposalView {
                            status: self@.proposals[i as int].status,
                            ..before.deep_view()[i as int]
                        }),
                    ));
                }
                Ok(())
            },
        }
    }

    /// Every review submitted for this proposal, in submission order.
    pub fn get_review_history(&self, proposal_id: &str) -> (r: Result<Vec<Review>, StoreError>)
        ensures
            r matches Ok(v) && v.deep_view() == reviews_for(self@.reviews, proposal_id@),
    {
        let mut out: Vec<Review> = Vec::new();
        let mut i: usize = 0;
        proof {
            assert(self@.reviews.skip(0) =~= self@.reviews);
        }
        while i < self.reviews.len()
            invariant
                i <= self.reviews.len(),
                reviews_for(self@.reviews, proposal_id@) == out.deep_view() + reviews_for(
                    self@.reviews.skip(i as int),
                    proposal_id@,
                ),
            decreases self.reviews.len() - i,
        {
            proof {
                let rest = self@.reviews.skip(i as int);
                assert(rest[0] == self@.reviews[i as int]);
                assert(self@.reviews[i as int] == self.reviews@[i as int].deep_view());
                assert(rest.drop_first() =~= self@.reviews.skip(i as int + 1));
            }
            if str_eq(self.reviews[i].proposal_id.as_str(), proposal_id) {
                let ghost v1 = out;
                out.push(self.reviews[i].clone());
                proof {
                    lemma_push_deep_view(v1, out, out@.last());
                }
            }
            proof {
                assert(out.deep_view() + reviews_for(
                    self@.reviews.skip(i as int + 1),
                    proposal_id@,
                ) =~= reviews_for(self@.reviews, proposal_id@));
            }
            i = i + 1;
        }
        proof {
            assert(self@.reviews.skip(self.reviews.len() as int).len() == 0);
            assert(out.deep_view() =~= reviews_for(self@.reviews, proposal_id@));
        }
        Ok(out)
    }

    /// Rewrites a proposal from a sparse patch: a status by name (never
    /// `applied`, never away from `Applied`), new modification stamps, or a
    /// replacement comment list. An unknown or forbidden status leaves the
    /// store unchanged.
    pub fn update_proposal(&mut self, proposal_id: &str, patch: ProposalPatch) -> (r: Result<
        (),
        StoreError,
    >)
        requires
            store_wf(old(self)@),
        ensures
            store_wf(final(self)@),
            match lookup_proposal(old(self)@.proposals, proposal_id@) {
                None => r matches Err(e) && e.deep_view() matches StoreErrorView::NotFound(_)
                    && final(self)@ == old(self)@,
                Some(p) => match patched_proposal(p, patch.deep_view()) {
                    None => r matches Err(e) && e.deep_view() matches StoreErrorView::Invalid(_)
                        && final(self)@ == old(self)@,
                    Some(p2) => r is Ok && final(self)@ == (StoreView {
                        proposals: old(self)@.proposals.update(
                            proposal_idx(old(self)@.proposals, proposal_id@).unwrap(),
                            p2,
                        ),
                        ..old(self)@
                    }),
                },
            },
    {
        match self.find_proposal_index(proposal_id) {
            Option::None => {
                let mut m = "proposal ".to_owned();
                m.append(proposal_id);
                Err(StoreError::NotFound(m))
            },
            Option::Some(i) => {
                proof {
                    lemma_first_idx(self@.proposals, |pv: ProposalView| pv.id == proposal_id@);
                    assert(self@.proposals[i as int] == self.proposals@[i as int].deep_view());
                }
                let mut p = self.proposals[i].clone();
                match &patch.status {
                    Option::Some(name) => {
                        if str_eq(name.as_str(), "applied") {
                            return Err(
                                StoreError::Invalid(
                                    "cannot set status to applied via a patch; use apply".to_owned(),
                                ),
                            );
                        }
                        if matches!(p.status, ProposalStatus::Applied) {
                            return Err(
                                StoreError::Invalid(
                                    "an applied proposal's status cannot change".to_owned(),
                                ),
                            );
                        }
                        let parsed: Option<ProposalStatus> = if str_eq(name.as_str(), "open") {
                            Option::Some(ProposalStatus::Open)
                        } else if str_eq(name.as_str(), "accepted") {
                            Option::Some(ProposalStatus::Accepted)
                        } else if str_eq(name.as_str(), "rejected") {
                            Option::Some(ProposalStatus::Rejected)
                        } else if str_eq(name.as_str(), "withdrawn") {
                            Option::Some(ProposalStatus::Withdrawn)
                        } else {
                            Option::None
                        };
                        match parsed {
                            Option::Some(s) => {
                                p.status = s;
                            },
                            Option::None => {
                                return Err(StoreError::Invalid("unknown status".to_owned()));
                            },
                        }
                    },
                    Option::None => {},
                }
                match patch.modified_at {
                    Option::Some(v) => {
                        p.metadata.modified_at = v;
                    },
                    Option::None => {},
                }
                match patch.modified_by {
                    Option::Some(v) => {
                        p.metadata.modified_by = v;
                    },
                    Option::None => {},
                }
                match patch.comments {
                    Option::Some(c) => {
                        p.comments = Option::Some(c);
                    },
                    Option::None => {},
                }
                let ghost before = self.proposals;
                self.proposals.set(i, p);
                proof {
                    let pv = before.deep_view()[i as int];
                    let q = patch.deep_view();
                    assert(patched_proposal(pv, q) is Some);
                    assert(self@.proposals =~= before.deep_view().update(
                        i as int,
                        patched_proposal(pv, q).unwrap(),
                    ));
                }
                Ok(())
            },
        }
    }

    /// The comments attached to a proposal; empty for an unknown proposal
    /// or one without comments.
    pub fn get_proposal_comments(&self, proposal_id: &str) -> (r: Result<Vec<Comment>, StoreError>)
        ensures
            r matches Ok(v) && v.deep_view() == (match lookup_proposal(
                self@.proposals,
                proposal_id@,
            ) {
                Some(p) => match p.comments {
                    Some(c) => c,
                    None => Seq::<crate::proposal::CommentView>::empty(),
                },
                None => Seq::<crate::proposal::CommentView>::empty(),
            }),
    {
        match self.find_proposal_index(proposal_id) {
            Option::None => {
                let r: Vec<Comment> = Vec::new();
                proof {
                    assert(r.deep_view() =~= Seq::<crate::proposal::CommentView>::empty());
                }
                Ok(r)
            },
            Option::Some(i) => {
                proof {
                    lemma_first_idx(self@.proposals, |pv: ProposalView| pv.id == proposal_id@);
                    assert(self@.proposals[i as int] == self.proposals@[i as int].deep_view());
                }
                match &self.proposals[i].comments {
                    Option::Some(c) => {
                        proof {
                            assert forall|a: Comment, b: Comment| cloned(a, b) implies a.deep_view()
                                == b.deep_view() by {}
                        }
                        Ok(crate::support::clone_vec_deep(c))
                    },
                    Option::None => {
                        let r: Vec<Comment> = Vec::new();
                        proof {
                            assert(r.deep_view() =~= Seq::<
                                crate::proposal::CommentView,
                            >::empty());
                        }
                        Ok(r)
                    },
                }
            },
        }
    }

    /// Appends a comment to a proposal's comment list, creating the list
    /// when absent. Fails with `NotFound` for an unknown proposal.
    pub fn add_proposal_comment(&mut self, proposal_id: &str, comment: Comment) -> (r: Result<
        (),
        StoreError,
    >)
        requires
            store_wf(old(self)@),
        ensures
            store_wf(final(self)@),
            match lookup_proposal(old(self)@.proposals, proposal_id@) {
                None => r matches Err(e) && e.deep_view() matches StoreErrorView::NotFound(_)
                    && final(self)@ == old(self)@,
                Some(p) => r is Ok && final(self)@ == (StoreView {
                    proposals: old(self)@.proposals.update(
                        proposal_idx(old(self)@.proposals, proposal_id@).unwrap(),
                        (ProposalView {
                            comments: Some(
                                (match p.comments {
                                    Some(c) => c,
                                    None => Seq::empty(),
                                }).push(comment.deep_view()),
                            ),
                            ..p
                        }),
                    ),
                    ..old(self)@
                }),
            },
    {
        match self.find_proposal_index(proposal_id) {
            Option::None => {
                let mut m = "proposal ".to_owned();
                m.append(proposal_id);
                Err(StoreError::NotFound(m))
            },
            Option::Some(i) => {
                proof {
                    lemma_first_idx(self@.proposals, |pv: ProposalView| pv.id == proposal_id@);
                    assert(self@.proposals[i as int] == self.proposals@[i as int].deep_view());
                }
                let ghost before = self.proposals;
                let mut p = self.proposals[i].clone();
                let mut comments: Vec<Comment> = match p.comments {
                    Option::Some(c) => c,
                    Option::None => Vec::new(),
                };
                let ghost c_before = comments;
                comments.push(comment);
                proof {
                    lemma_push_deep_view(c_before, comments, comments@.last());
                    if before.deep_view()[i as int].comments is None {
                        assert(c_before.deep_view() =~= Seq::<
                            crate::proposal::CommentView,
                        >::empty());
                    }
                }
                p.comments = Option::Some(comments);
                self.proposals.set(i, p);
                proof {
                    let pv = before.deep_view()[i as int];
                    assert(self@.proposals =~= before.deep_view().update(
                        i as int,
                        (ProposalView {
                            comments: Some(
                                (match pv.comments {
                                    Some(c) => c,
                                    None => Seq::empty(),
                                }).push(comment.deep_view()),
                            ),
                            ..pv
                        }),
                    ));
                }
                Ok(())
            },
        }
    }

    /// Appends an event to the audit log; the log only ever grows.
    pub fn append_audit(&mut self, event: AuditEvent) -> (r: Result<(), StoreError>)
        ensures
            r is Ok,
            final(self)@ == (StoreView {
                audit: old(self)@.audit.push(event.deep_view()),
                ..old(self)@
            }),
    {
        let ghost before = self.audit_log;
        self.audit_log.push(event);
        proof {
            lemma_push_deep_view(before, self.audit_log, self.audit_log@.last());
        }
        Ok(())
    }

    /// Clears nodes, proposals, reviews and the revision counter. The audit
    /// log is immutable and survives.
    pub fn reset(&mut self) -> (r: Result<(), StoreError>)
        ensures
            r is Ok,
            store_wf(final(self)@),
            final(self)@.nodes.len() == 0,
            final(self)@.proposals.len() == 0,
            final(self)@.reviews.len() == 0,
            final(self)@.revision == 0,
            final(self)@.audit == old(self)@.audit,
    {
        self.nodes = Vec::new();
        self.proposals = Vec::new();
        self.reviews = Vec::new();
        self.revision_counter = 0;
        proof {
            assert(self@.nodes =~= Seq::<NodeView>::empty());
            assert(self@.proposals =~= Seq::<ProposalView>::empty());
            assert(self@.reviews =~= Seq::<ReviewView>::empty());
        }
        Ok(())
    }

    /// Applies an accepted proposal at the given timestamp: executes its
    /// operations in ascending order against the node map, advances the
    /// revision counter by one, and marks the proposal applied, all
    /// atomically — on any failure nothing changes. Re-applying an already
    /// applied proposal succeeds without any effect.
    pub fn apply_proposal_at(&mut self, proposal_id: &str, applied_by: &str, now: &str) -> (r:
        Result<(), StoreError>)
        requires
            store_wf(old(self)@),
        ensures
            store_wf(final(self)@),
            final(self)@ == apply_post(old(self)@, proposal_id@, applied_by@, now@),
            match apply_failure(old(self)@, proposal_id@, applied_by@, now@) {
                None => r is Ok,
                Some(ApplyFailure::UnknownProposal) => r matches Err(e) && e.deep_view()
                    matches StoreErrorView::NotFound(_),
                Some(ApplyFailure::NotAccepted) => r matches Err(e) && e.deep_view()
                    matches StoreErrorView::Invalid(_),
                Some(ApplyFailure::RevisionOverflow) => r matches Err(e) && e.deep_view()
                    matches StoreErrorView::Internal(_),
                Some(ApplyFailure::Op(ApplyError::MissingNode)) => r matches Err(e)
                    && e.deep_view() matches StoreErrorView::NotFound(_),
                Some(ApplyFailure::Op(ApplyError::VersionOverflow)) => r matches Err(e)
                    && e.deep_view() matches StoreErrorView::Internal(_),
            },
    {
        let pi = match self.find_proposal_index(proposal_id) {
            Option::None => {
                let mut m = "proposal ".to_owned();
                m.append(proposal_id);
                return Err(StoreError::NotFound(m));
            },
            Option::Some(i) => i,
        };
        proof {
            lemma_first_idx(self@.proposals, |pv: ProposalView| pv.id == proposal_id@);
            assert(self@.proposals[pi as int] == self.proposals@[pi as int].deep_view());
        }
        if matches!(self.proposals[pi].status, ProposalStatus::Applied) {
            return Ok(());
        }
        if !matches!(self.proposals[pi].status, ProposalStatus::Accepted) {
            return Err(
                StoreError::Invalid("only accepted proposals can be applied".to_owned()),
            );
        }
        if self.revision_counter == u64::MAX {
            return Err(StoreError::Internal("revision counter exhausted".to_owned()));
        }

        // Execute the operations, in ascending order, against a scratch
        // copy of the node map: on failure the store stays untouched.
        let ghost opsv = self.proposals@[pi as int].deep_view().operations;
        let mut sorted: Vec<Operation> = Vec::new();
        let ops = &self.proposals[pi].operations;
        let mut k: usize = 0;
        proof {
            assert(ops.deep_view().take(0).len() == 0);
            assert(sorted.deep_view() =~= sort_ops(ops.deep_view().take(0)));
        }
        while k < ops.len()
            invariant
                k <= ops.len(),
                ops.deep_view() == opsv,
                sorted.deep_view() == sort_ops(opsv.take(k as int)),
            decreases ops.len() - k,
        {
            proof {
                assert(ops.deep_view()[k as int] == ops@[k as int].deep_view());
                assert(opsv.take(k as int + 1).drop_last() =~= opsv.take(k as int));
                assert(opsv.take(k as int + 1).last() == opsv[k as int]);
            }
            insert_sorted(&mut sorted, ops[k].clone());
            k = k + 1;
        }
        proof {
            assert(opsv.take(opsv.len() as int) =~= opsv);
        }

        proof {
            assert forall|a: ContextNode, b: ContextNode| cloned(a, b) implies a.deep_view()
                == b.deep_view() by {}
        }
        let mut nodes2 = crate::support::clone_vec_deep(&self.nodes);
        let ghost nodes0 = self@.nodes;
        let ghost sortedv = sorted.deep_view();
        let mut k2: usize = 0;
        proof {
            assert(sortedv.skip(0) =~= sortedv);
        }
        while k2 < sorted.len()
            invariant
                k2 <= sorted.len(),
                sorted.deep_view() == sortedv,
                self@ == old(self)@,
                store_wf(old(self)@),
                proposal_idx(old(self)@.proposals, proposal_id@) == Some(pi as int),
                old(self)@.proposals[pi as int].status == ProposalStatus::Accepted,
                old(self)@.revision < u64::MAX,
                nodes0 == old(self)@.nodes,
                sortedv == sort_ops(old(self)@.proposals[pi as int].operations),
                apply_ops(nodes0, sortedv, now@, applied_by@) == apply_ops(
                    nodes2.deep_view(),
                    sortedv.skip(k2 as int),
                    now@,
                    applied_by@,
                ),
            decreases sorted.len() - k2,
        {
            proof {
                let rest = sortedv.skip(k2 as int);
                assert(rest[0] == sortedv[k2 as int]);
                assert(sortedv[k2 as int] == sorted@[k2 as int].deep_view());
                assert(rest.drop_first() =~= sortedv.skip(k2 as int + 1));
            }
            match apply_one(&mut nodes2, &sorted[k2], now, applied_by) {
                Result::Err(e) => {
                    return Err(e);
                },
                Result::Ok(_) => {},
            }
            k2 = k2 + 1;
        }
        proof {
            assert(sortedv.skip(sorted.len() as int).len() == 0);
        }

        // Commit: revision, nodes, then the proposal's applied metadata.
        let last_rid = find_last_review_id(&self.reviews, proposal_id);
        let prev = self.revision_counter;
        let prev_s = rev_string(prev);
        let to_s = rev_string(prev + 1);
        self.revision_counter = prev + 1;
        self.nodes = nodes2;
        let ghost before = self.proposals;
        let mut p = self.proposals[pi].clone();
        p.status = ProposalStatus::Applied;
        p.applied = Option::Some(
            AppliedMetadata {
                applied_at: now.to_owned(),
                applied_by: applied_by.to_owned(),
                applied_from_review_id: last_rid,
                applied_from_proposal_id: proposal_id.to_owned(),
                applied_to_revision_id: to_s,
                previous_revision_id: prev_s,
            },
        );
        self.proposals.set(pi, p);
        proof {
            lemma_apply_ops_preserves(nodes0, sortedv, now@, applied_by@);
            let post = apply_post(old(self)@, proposal_id@, applied_by@, now@);
            assert(self@.proposals =~= post.proposals);
            assert(self@ == post);
            assert(unique_proposal_ids(self@.proposals)) by {
                assert(forall|j: int|
                    0 <= j < before.deep_view().len() ==> (#[trigger] before.deep_view()[j]).id
                        == self@.proposals[j].id);
            }
            assert(applied_have_metadata(self@.proposals)) by {
                assert(forall|j: int|
                    0 <= j < before.deep_view().len() && j != pi as int
                        ==> #[trigger] self@.proposals[j] == before.deep_view()[j]);
            }
        }
        Ok(())
    }

    /// Runs a node query: filters the node map, then pages the hits.
    pub fn query_nodes(&self, query: NodeQuery) -> (r: Result<NodeQueryResult, StoreError>)
        ensures
            r matches Ok(res) && res.deep_view() == node_query_result_spec(
                self@.nodes,
                query.deep_view(),
            ),
    {
        let ghost qv = query.deep_view();
        let mut filtered: Vec<ContextNode> = Vec::new();
        let mut i: usize = 0;
        proof {
            assert(self@.nodes.skip(0) =~= self@.nodes);
        }
        while i < self.nodes.len()
            invariant
                i <= self.nodes.len(),
                qv == query.deep_view(),
                filter_nodes(self@.nodes, qv) == filtered.deep_view() + filter_nodes(
                    self@.nodes.skip(i as int),
                    qv,
                ),
            decreases self.nodes.len() - i,
        {
            proof {
                let rest = self@.nodes.skip(i as int);
                assert(rest[0] == self@.nodes[i as int]);
                assert(self@.nodes[i as int] == self.nodes@[i as int].deep_view());
                assert(rest.drop_first() =~= self@.nodes.skip(i as int + 1));
            }
            if node_matches(&self.nodes[i], &query) {
                let ghost v1 = filtered;
                filtered.push(self.nodes[i].clone());
                proof {
                    lemma_push_deep_view(v1, filtered, filtered@.last());
                }
            }
            proof {
                assert(filtered.deep_view() + filter_nodes(
                    self@.nodes.skip(i as int + 1),
                    qv,
                ) =~= filter_nodes(self@.nodes, qv));
            }
            i = i + 1;
        }
        proof {
            assert(self@.nodes.skip(self.nodes.len() as int).len() == 0);
            assert(filtered.deep_view() =~= filter_nodes(self@.nodes, qv));
        }
        let total: u64 = filtered.len() as u64;
        let limit: u32 = match query.limit {
            Option::Some(l) => if l < 1000 {
                l
            } else {
                1000
            },
            Option::None => 50,
        };
        let offset_req: u32 = match query.offset {
            Option::Some(o) => o,
            Option::None => 0,
        };
        let start: usize = if (offset_req as usize) < filtered.len() {
            offset_req as usize
        } else {
            filtered.len()
        };
        let end: usize = if filtered.len() - start < limit as usize {
            filtered.len()
        } else {
            start + limit as usize
        };
        let mut page: Vec<ContextNode> = Vec::new();
        let mut j: usize = start;
        while j < end
            invariant
                start <= j <= end <= filtered.len(),
                page.deep_view() =~= filtered.deep_view().subrange(start as int, j as int),
            decreases end - j,
        {
            let ghost v1 = page;
            page.push(filtered[j].clone());
            proof {
                lemma_push_deep_view(v1, page, page@.last());
                assert(page.deep_view() =~= filtered.deep_view().subrange(
                    start as int,
                    j as int + 1,
                ));
            }
            j = j + 1;
        }
        let has_more = ((start + page.len()) as u64) < total;
        let res = NodeQueryResult { nodes: page, total, limit, offset: offset_req, has_more };
        proof {
            assert(res.deep_view().nodes =~= node_query_result_spec(self@.nodes, qv).nodes);
        }
        Ok(res)
    }

    /// Runs a proposal query: filters by status, then pages the hits.
    pub fn query_proposals(&self, query: ProposalQuery) -> (r: Result<Vec<Proposal>, StoreError>)
        ensures
            r matches Ok(v) && v.deep_view() == proposal_query_page(
                self@.proposals,
                query.deep_view(),
            ),
    {
        let ghost qv = query.deep_view();
        let mut filtered: Vec<Proposal> = Vec::new();
        let mut i: usize = 0;
        proof {
            assert(self@.proposals.skip(0) =~= self@.proposals);
        }
        while i < self.proposals.len()
            invariant
                i <= self.proposals.len(),
                qv == query.deep_view(),
                filter_proposals(self@.proposals, qv.status) == filtered.deep_view()
                    + filter_proposals(self@.proposals.skip(i as int), qv.status),
            decreases self.proposals.len() - i,
        {
            proof {
                let rest = self@.proposals.skip(i as int);
                assert(rest[0] == self@.proposals[i as int]);
                assert(self@.proposals[i as int] == self.proposals@[i as int].deep_view());
                assert(rest.drop_first() =~= self@.proposals.skip(i as int + 1));
            }
            let keep = match &query.status {
                Option::None => true,
                Option::Some(ss) => {
                    let mut hit = false;
                    let mut k: usize = 0;
                    while k < ss.len()
                        invariant
                            k <= ss.len(),
                            hit == (exists|m: int|
                                0 <= m < k && ss.deep_view()[m] == self.proposals@[i as int].deep_view().status),
                            i < self.proposals.len(),
                        decreases ss.len() - k,
                    {
                        proof {
                            assert(ss.deep_view()[k as int] == ss@[k as int].deep_view());
                        }
                        if ss[k] == self.proposals[i].status {
                            hit = true;
                        }
                        k = k + 1;
                    }
                    proof {
                        if hit {
                            assert(ss.deep_view().contains(
                                self.proposals@[i as int].deep_view().status,
                            ));
                        } else {
                            if ss.deep_view().contains(
                                self.proposals@[i as int].deep_view().status,
                            ) {
                                let m = choose|m: int|
                                    0 <= m < ss.deep_view().len() && ss.deep_view()[m]
                                        == self.proposals@[i as int].deep_view().status;
                                assert(false);
                            }
                        }
                    }
                    hit
                },
            };
            if keep {
                let ghost v1 = filtered;
                filtered.push(self.proposals[i].clone());
                proof {
                    lemma_push_deep_view(v1, filtered, filtered@.last());
                }
            }
            proof {
                assert(filtered.deep_view() + filter_proposals(
                    self@.proposals.skip(i as int + 1),
                    qv.status,
                ) =~= filter_proposals(self@.proposals, qv.status));
            }
            i = i + 1;
        }
        proof {
            assert(self@.proposals.skip(self.proposals.len() as int).len() == 0);
            assert(filtered.deep_view() =~= filter_proposals(self@.proposals, qv.status));
        }
        let limit: u32 = match query.limit {
            Option::Some(l) => l,
            Option::None => 50,
        };
        let offset_req: u32 = match query.offset {
            Option::Some(o) => o,
            Option::None => 0,
        };
        let start: usize = if (offset_req as usize) < filtered.len() {
            offset_req as usize
        } else {
            filtered.len()
        };
        let end: usize = if filtered.len() - start < limit as usize {
            filtered.len()
        } else {
            start + limit as usize
        };
        let mut page: Vec<Proposal> = Vec::new();
        let mut j: usize = start;
        while j < end
            invariant
                start <= j <= end <= filtered.len(),
                page.deep_view() =~= filtered.deep_view().subrange(start as int, j as int),
            decreases end - j,
        {
            let ghost v1 = page;
            page.push(filtered[j].clone());
            proof {
                lemma_push_deep_view(v1, page, page@.last());
                assert(page.deep_view() =~= filtered.deep_view().subrange(
                    start as int,
                    j as int + 1,
                ));
            }
            j = j + 1;
        }
        proof {
            assert(page.deep_view() =~= proposal_query_page(self@.proposals, qv));
        }
        Ok(page)
    }

    /// Every node currently accepted as truth, complete and in storage
    /// order.
    pub fn get_accepted_nodes(&self) -> (r: Result<Vec<ContextNode>, StoreError>)
        ensures
            r matches Ok(v) && v.deep_view() == filter_nodes(
                self@.nodes,
                (NodeQueryView {
                    node_types: None,
                    status: Some(seq![NodeStatus::Accepted]),
                    search: None,
                    tags: None,
                    namespace: None,
                    created_by: None,
                    modified_by: None,
                    limit: None,
                    offset: None,
                    sort_by: None,
                    sort_order: None,
                }),
            ),
    {
        let ghost q = NodeQueryView {
            node_types: None,
            status: Some(seq![NodeStatus::Accepted]),
            search: None,
            tags: None,
            namespace: None,
            created_by: None,
            modified_by: None,
            limit: None,
            offset: None,
            sort_by: None,
            sort_order: None,
        };
        let mut out: Vec<ContextNode> = Vec::new();
        let mut i: usize = 0;
        proof {
            assert(self@.nodes.skip(0) =~= self@.nodes);
        }
        while i < self.nodes.len()
            invariant
                i <= self.nodes.len(),
                q == (NodeQueryView {
                    node_types: None,
                    status: Some(seq![NodeStatus::Accepted]),
                    search: None,
                    tags: None,
                    namespace: None,
                    created_by: None,
                    modified_by: None,
                    limit: None,
                    offset: None,
                    sort_by: None,
                    sort_order: None,
                }),
                filter_nodes(self@.nodes, q) == out.deep_view() + filter_nodes(
                    self@.nodes.skip(i as int),
                    q,
                ),
            decreases self.nodes.len() - i,
        {
            proof {
                let rest = self@.nodes.skip(i as int);
                assert(rest[0] == self@.nodes[i as int]);
                assert(self@.nodes[i as int] == self.nodes@[i as int].deep_view());
                assert(rest.drop_first() =~= self@.nodes.skip(i as int + 1));
                assert(seq![NodeStatus::Accepted].contains(self@.nodes[i as int].status)
                    == (self@.nodes[i as int].status == NodeStatus::Accepted)) by {
                    if seq![NodeStatus::Accepted].contains(self@.nodes[i as int].status) {
                        let w = choose|w: int|
                            0 <= w < 1 && seq![NodeStatus::Accepted][w] == self@.nodes[
                                i as int
                            ].status;
                    }
                    if self@.nodes[i as int].status == NodeStatus::Accepted {
                        assert(seq![NodeStatus::Accepted][0] == self@.nodes[i as int].status);
                    }
                }
            }
            if matches!(self.nodes[i].status, NodeStatus::Accepted) {
                let ghost v1 = out;
                out.push(self.nodes[i].clone());
                proof {
                    lemma_push_deep_view(v1, out, out@.last());
                }
            }
            proof {
                assert(out.deep_view() + filter_nodes(
                    self@.nodes.skip(i as int + 1),
                    q,
                ) =~= filter_nodes(self@.nodes, q));
            }
            i = i + 1;
        }
        proof {
            assert(self@.nodes.skip(self.nodes.len() as int).len() == 0);
            assert(out.deep_view() =~= filter_nodes(self@.nodes, q));
        }
        Ok(out)
    }

    /// Every open proposal, complete and in storage order.
    pub fn get_open_proposals(&self) -> (r: Result<Vec<Proposal>, StoreError>)
        ensures
            r matches Ok(v) && v.deep_view() == filter_proposals(
                self@.proposals,
                Some(seq![ProposalStatus::Open]),
            ),
    {
        let ghost st = Some(seq![ProposalStatus::Open]);
        let mut out: Vec<Proposal> = Vec::new();
        let mut i: usize = 0;
        proof {
            assert(self@.proposals.skip(0) =~= self@.proposals);
        }
        while i < self.proposals.len()
            invariant
                i <= self.proposals.len(),
                st == Some(seq![ProposalStatus::Open]),
                filter_proposals(self@.proposals, st) == out.deep_view() + filter_proposals(
                    self@.proposals.skip(i as int),
                    st,
                ),
            decreases self.proposals.len() - i,
        {
            proof {
                let rest = self@.proposals.skip(i as int);
                assert(rest[0] == self@.proposals[i as int]);
                assert(self@.proposals[i as int] == self.proposals@[i as int].deep_view());
                assert(rest.drop_first() =~= self@.proposals.skip(i as int + 1));
                assert(seq![ProposalStatus::Open].contains(self@.proposals[i as int].status)
                    == (self@.proposals[i as int].status == ProposalStatus::Open)) by {
                    if seq![ProposalStatus::Open].contains(self@.proposals[i as int].status) {
                        let w = choose|w: int|
                            0 <= w < 1 && seq![ProposalStatus::Open][w] == self@.proposals[
                                i as int
                            ].status;
                    }
                    if self@.proposals[i as int].status == ProposalStatus::Open {
                        assert(seq![ProposalStatus::Open][0] == self@.proposals[i as int].status);
                    }
                }
            }
            if matches!(self.proposals[i].status, ProposalStatus::Open) {
                let ghost v1 = out;
                out.push(self.proposals[i].clone());
                proof {
                    lemma_push_deep_view(v1, out, out@.last());
                }
            }
            proof {
                assert(out.deep_view() + filter_proposals(
                    self@.proposals.skip(i as int + 1),
                    st,
                ) =~= filter_proposals(self@.proposals, st));
            }
            i = i + 1;
        }
        proof {
            assert(self@.proposals.skip(self.proposals.len() as int).len() == 0);
            assert(out.deep_view() =~= filter_proposals(self@.proposals, st));
        }
        Ok(out)
    }

    /// Runs an audit query: filters the log in append order, then pages.
    pub fn query_audit(
        &self,
        actor: Option<&str>,
        action: Option<&str>,
        resource_id: Option<&str>,
        from: Option<&str>,
        to: Option<&str>,
        limit: Option<u32>,
        offset: Option<u32>,
    ) -> (r: Result<Vec<AuditEvent>, StoreError>)
        ensures
            r matches Ok(v) && v.deep_view() == audit_query_page(
                self@.audit,
                actor.deep_view(),
                action.deep_view(),
                resource_id.deep_view(),
                from.deep_view(),
                to.deep_view(),
                limit,
                offset,
            ),
    {
        let ghost av = actor.deep_view();
        let ghost cv = action.deep_view();
        let ghost rv = resource_id.deep_view();
        let ghost fv = from.deep_view();
        let ghost tv = to.deep_view();
        let mut filtered: Vec<AuditEvent> = Vec::new();
        let mut i: usize = 0;
        proof {
            assert(self@.audit.skip(0) =~= self@.audit);
        }
        while i < self.audit_log.len()
            invariant
                i <= self.audit_log.len(),
                av == actor.deep_view(),
                cv == action.deep_view(),
                rv == resource_id.deep_view(),
                fv == from.deep_view(),
                tv == to.deep_view(),
                filter_audit(self@.audit, av, cv, rv, fv, tv) == filtered.deep_view()
                    + filter_audit(self@.audit.skip(i as int), av, cv, rv, fv, tv),
            decreases self.audit_log.len() - i,
        {
            proof {
                let rest = self@.audit.skip(i as int);
                assert(rest[0] == self@.audit[i as int]);
                assert(self@.audit[i as int] == self.audit_log@[i as int].deep_view());
                assert(rest.drop_first() =~= self@.audit.skip(i as int + 1));
            }
            let e = &self.audit_log[i];
            let mut keep = match actor {
                Option::Some(a) => str_eq(e.actor_id.as_str(), a),
                Option::None => true,
            };
            if keep {
                keep = match action {
                    Option::Some(a) => str_eq(e.action.as_str(), a),
                    Option::None => true,
                };
            }
            if keep {
                keep = match resource_id {
                    Option::Some(rid) => str_eq(e.resource_id.as_str(), rid),
                    Option::None => true,
                };
            }
            if keep {
                keep = match from {
                    Option::Some(f) => str_lex_le(f, e.timestamp.as_str()),
                    Option::None => true,
                };
            }
            if keep {
                keep = match to {
                    Option::Some(t) => str_lex_le(e.timestamp.as_str(), t),
                    Option::None => true,
                };
            }
            proof {
                assert(keep == audit_matches(self@.audit[i as int], av, cv, rv, fv, tv));
            }
            if keep {
                let ghost v1 = filtered;
                filtered.push(self.audit_log[i].clone());
                proof {
                    lemma_push_deep_view(v1, filtered, filtered@.last());
                }
            }
            proof {
                assert(filtered.deep_view() + filter_audit(
                    self@.audit.skip(i as int + 1),
                    av,
                    cv,
                    rv,
                    fv,
                    tv,
                ) =~= filter_audit(self@.audit, av, cv, rv, fv, tv));
            }
            i = i + 1;
        }
        proof {
            assert(self@.audit.skip(self.audit_log.len() as int).len() == 0);
            assert(filtered.deep_view() =~= filter_audit(self@.audit, av, cv, rv, fv, tv));
        }
        let lim: u32 = match limit {
            Option::Some(l) => l,
            Option::None => 100,
        };
        let off: u32 = match offset {
            Option::Some(o) => o,
            Option::None => 0,
        };
        let start: usize = if (off as usize) < filtered.len() {
            off as usize
        } else {
            filtered.len()
        };
        let end: usize = if filtered.len() - start < lim as usize {
            filtered.len()
        } else {
            start + lim as usize
        };
        let mut page: Vec<AuditEvent> = Vec::new();
        let mut j: usize = start;
        while j < end
            invariant
                start <= j <= end <= filtered.len(),
                page.deep_view() =~= filtered.deep_view().subrange(start as int, j as int),
            decreases end - j,
        {
            let ghost v1 = page;
            page.push(filtered[j].clone());
            proof {
                lemma_push_deep_view(v1, page, page@.last());
                assert(page.deep_view() =~= filtered.deep_view().subrange(
                    start as int,
                    j as int + 1,
                ));
            }
            j = j + 1;
        }
        proof {
            assert(page.deep_view() =~= audit_query_page(
                self@.audit,
                av,
                cv,
                rv,
                fv,
                tv,
                limit,
                offset,
            ));
        }
        Ok(page)
    }

    /// The optimistic-lock check: whether a node named by the proposal's
    /// snapshot has moved past the version the snapshot recorded.
    pub fn is_proposal_stale(&self, proposal_id: &str) -> (r: Result<bool, StoreError>)
        ensures
            match lookup_proposal(self@.proposals, proposal_id@) {
                None => r matches Err(e) && e.deep_view() matches StoreErrorView::NotFound(_),
                Some(p) => r matches Ok(b) && b == stale_spec(p, self@.nodes),
            },
    {
        let pi = match self.find_proposal_index(proposal_id) {
            Option::None => {
                let mut m = "proposal ".to_owned();
                m.append(proposal_id);
                return Err(StoreError::NotFound(m));
            },
            Option::Some(i) => i,
        };
        proof {
            lemma_first_idx(self@.proposals, |pv: ProposalView| pv.id == proposal_id@);
            assert(self@.proposals[pi as int] == self.proposals@[pi as int].deep_view());
        }
        let ghost pv = self@.proposals[pi as int];
        let bvs = match &self.proposals[pi].metadata.base_versions {
            Option::None => {
                return Ok(false);
            },
            Option::Some(b) => b,
        };
        let mut j: usize = 0;
        while j < bvs.len()
            invariant
                j <= bvs.len(),
                bvs.deep_view() == pv.metadata.base_versions->Some_0,
                pv == self@.proposals[pi as int],
                pv.metadata.base_versions is Some,
                0 <= pi < self@.proposals.len(),
                proposal_idx(self@.proposals, proposal_id@) == Some(pi as int),
                forall|m: int|
                    0 <= m < j ==> !(lookup_node(
                        self@.nodes,
                        (#[trigger] pv.metadata.base_versions->Some_0[m]).key,
                    ) matches Some(n) && n.metadata.version
                        > pv.metadata.base_versions->Some_0[m].version),
            decreases bvs.len() - j,
        {
            proof {
                assert(bvs.deep_view()[j as int] == bvs@[j as int].deep_view());
            }
            match self.find_node_index(&bvs[j].key) {
                Option::Some(ni) => {
                    proof {
                        lemma_first_idx(self@.nodes, |n: NodeView| n.key() == bvs@[j as int].key@);
                        assert(self@.nodes[ni as int] == self.nodes@[ni as int].deep_view());
                    }
                    if self.nodes[ni].metadata.version > bvs[j].version {
                        proof {
                            assert(lookup_node(
                                self@.nodes,
                                pv.metadata.base_versions->Some_0[j as int].key,
                            ) matches Some(n) && n.metadata.version
                                > pv.metadata.base_versions->Some_0[j as int].version);
                            assert(stale_spec(pv, self@.nodes));
                        }
                        return Ok(true);
                    }
                },
                Option::None => {},
            }
            j = j + 1;
        }
        proof {
            if stale_spec(pv, self@.nodes) {
                let m = choose|m: int|
                    0 <= m < pv.metadata.base_versions->Some_0.len() && (lookup_node(
                        self@.nodes,
                        (#[trigger] pv.metadata.base_versions->Some_0[m]).key,
                    ) matches Some(n) && n.metadata.version
                        > pv.metadata.base_versions->Some_0[m].version);
                assert(false);
            }
        }
        Ok(false)
    }

    /// Compares one proposal's touched nodes with every other open
    /// proposal's: overlapping proposals become conflicts and need
    /// resolution; the rest are mergeable.
    pub fn detect_conflicts(&self, proposal_id: &str) -> (r: Result<
        ConflictDetectionResult,
        StoreError,
    >)
        ensures
            match lookup_proposal(self@.proposals, proposal_id@) {
                None => r matches Err(e) && e.deep_view() matches StoreErrorView::NotFound(_),
                Some(p) => r matches Ok(res) && res.deep_view() == detect_conflicts_spec(
                    self@.proposals,
                    proposal_id@,
                    p,
                ),
            },
    {
        let pi = match self.find_proposal_index(proposal_id) {
            Option::None => {
                let mut m = "proposal ".to_owned();
                m.append(proposal_id);
                return Err(StoreError::NotFound(m));
            },
            Option::Some(i) => i,
        };
        proof {
            lemma_first_idx(self@.proposals, |pv: ProposalView| pv.id == proposal_id@);
            assert(self@.proposals[pi as int] == self.proposals@[pi as int].deep_view());
        }
        let tkeys = touched_keys_vec(&self.proposals[pi].operations);
        let ghost tkeysv = tkeys.deep_view();
        let ghost psv = self@.proposals;
        let mut conflicts: Vec<ProposalConflict> = Vec::new();
        let mut needs: Vec<String> = Vec::new();
        let mut i: usize = 0;
        proof {
            assert(psv.skip(0) =~= psv);
            assert(needs.deep_view() =~= Seq::<Seq<char>>::empty());
        }
        while i < self.proposals.len()
            invariant
                i <= self.proposals.len(),
                psv == self@.proposals,
                tkeysv == tkeys.deep_view(),
                conflicts_of(proposal_id@, tkeysv, open_others(psv, proposal_id@))
                    == conflicts.deep_view() + conflicts_of(
                    proposal_id@,
                    tkeysv,
                    open_others(psv.skip(i as int), proposal_id@),
                ),
                needs_from(tkeysv, open_others(psv, proposal_id@), Seq::empty()) == needs_from(
                    tkeysv,
                    open_others(psv.skip(i as int), proposal_id@),
                    needs.deep_view(),
                ),
            decreases self.proposals.len() - i,
        {
            proof {
                let rest = psv.skip(i as int);
                assert(rest[0] == psv[i as int]);
                assert(psv[i as int] == self.proposals@[i as int].deep_view());
                assert(rest.drop_first() =~= psv.skip(i as int + 1));
            }
            let q = &self.proposals[i];
            let is_other_open = matches!(q.status, ProposalStatus::Open) && !str_eq(
                q.id.as_str(),
                proposal_id,
            );
            if is_other_open {
                proof {
                    assert(open_others(psv.skip(i as int), proposal_id@) =~= seq![psv[i as int]]
                        + open_others(psv.skip(i as int + 1), proposal_id@));
                    let oo = open_others(psv.skip(i as int), proposal_id@);
                    assert(oo[0] == psv[i as int]);
                    assert(oo.drop_first() =~= open_others(psv.skip(i as int + 1), proposal_id@));
                }
                let sk = shared_keys_vec(&tkeys, &q.operations);
                if sk.len() > 0 {
                    let severity = if sk.len() > 1 {
                        ConflictSeverity::Critical
                    } else {
                        ConflictSeverity::Node
                    };
                    let mut pair: Vec<String> = Vec::new();
                    pair.push(proposal_id.to_owned());
                    pair.push(q.id.clone());
                    proof {
                        assert(pair.deep_view() =~= seq![proposal_id@, psv[i as int].id]);
                    }
                    let conflict = ProposalConflict {
                        proposals: pair,
                        conflicting_nodes: ids_of_keys(&sk),
                        conflicting_fields: Option::None,
                        severity,
                        auto_resolvable: false,
                    };
                    let ghost v1 = conflicts;
                    conflicts.push(conflict);
                    proof {
                        lemma_push_deep_view(v1, conflicts, conflicts@.last());
                        assert(conflicts.deep_view() =~= v1.deep_view() + conflict_for(
                            proposal_id@,
                            tkeysv,
                            psv[i as int],
                        ));
                    }
                    if !vec_contains_str(&needs, q.id.as_str()) {
                        let ghost n1 = needs;
                        needs.push(q.id.clone());
                        proof {
                            lemma_push_deep_view(n1, needs, needs@.last());
                        }
                    }
                } else {
                    proof {
                        assert(conflict_for(proposal_id@, tkeysv, psv[i as int]) =~= Seq::<
                            ProposalConflictView,
                        >::empty());
                    }
                }
            } else {
                proof {
                    assert(open_others(psv.skip(i as int), proposal_id@) =~= open_others(
                        psv.skip(i as int + 1),
                        proposal_id@,
                    ));
                }
            }
            proof {
                assert(conflicts.deep_view() + conflicts_of(
                    proposal_id@,
                    tkeysv,
                    open_others(psv.skip(i as int + 1), proposal_id@),
                ) =~= conflicts_of(proposal_id@, tkeysv, open_others(psv, proposal_id@)));
            }
            i = i + 1;
        }
        proof {
            assert(psv.skip(self.proposals.len() as int).len() == 0);
            assert(open_others(psv.skip(self.proposals.len() as int), proposal_id@) =~= Seq::<
                ProposalView,
            >::empty());
            assert(conflicts.deep_view() =~= conflicts_of(
                proposal_id@,
                tkeysv,
                open_others(psv, proposal_id@),
            ));
        }
        let ghost needsv = needs.deep_view();
        let mut mergeable: Vec<String> = Vec::new();
        let mut i2: usize = 0;
        proof {
            assert(psv.skip(0) =~= psv);
        }
        while i2 < self.proposals.len()
            invariant
                i2 <= self.proposals.len(),
                psv == self@.proposals,
                needsv == needs.deep_view(),
                mergeable_of(open_others(psv, proposal_id@), needsv) == mergeable.deep_view()
                    + mergeable_of(open_others(psv.skip(i2 as int), proposal_id@), needsv),
            decreases self.proposals.len() - i2,
        {
            proof {
                let rest = psv.skip(i2 as int);
                assert(rest[0] == psv[i2 as int]);
                assert(psv[i2 as int] == self.proposals@[i2 as int].deep_view());
                assert(rest.drop_first() =~= psv.skip(i2 as int + 1));
            }
            let q = &self.proposals[i2];
            let is_other_open = matches!(q.status, ProposalStatus::Open) && !str_eq(
                q.id.as_str(),
                proposal_id,
            );
            if is_other_open {
                proof {
                    assert(open_others(psv.skip(i2 as int), proposal_id@) =~= seq![psv[i2 as int]]
                        + open_others(psv.skip(i2 as int + 1), proposal_id@));
                    let oo = open_others(psv.skip(i2 as int), proposal_id@);
                    assert(oo[0] == psv[i2 as int]);
                    assert(oo.drop_first() =~= open_others(psv.skip(i2 as int + 1), proposal_id@));
                }
                if !vec_contains_str(&needs, q.id.as_str()) {
                    let ghost m1 = mergeable;
                    mergeable.push(q.id.clone());
                    proof {
                        lemma_push_deep_view(m1, mergeable, mergeable@.last());
                    }
                }
            } else {
                proof {
                    assert(open_others(psv.skip(i2 as int), proposal_id@) =~= open_others(
                        psv.skip(i2 as int + 1),
                        proposal_id@,
                    ));
                }
            }
            proof {
                assert(mergeable.deep_view() + mergeable_of(
                    open_others(psv.skip(i2 as int + 1), proposal_id@),
                    needsv,
                ) =~= mergeable_of(open_others(psv, proposal_id@), needsv));
            }
            i2 = i2 + 1;
        }
        proof {
            assert(open_others(psv.skip(self.proposals.len() as int), proposal_id@) =~= Seq::<
                ProposalView,
            >::empty());
            assert(mergeable.deep_view() =~= mergeable_of(
                open_others(psv, proposal_id@),
                needsv,
            ));
        }
        Ok(ConflictDetectionResult { conflicts, mergeable, needs_resolution: needs })
    }

    /// Attempts a field-level merge across the named proposals: each
    /// `(node, field)` a single proposal writes is auto-merged, agreeing
    /// writes merge, and divergent writes become conflicts.
    pub fn merge_proposals(&self, proposal_ids: &Vec<String>) -> (r: Result<
        MergeResult,
        StoreError,
    >)
        ensures
            match selected_proposals(self@.proposals, proposal_ids.deep_view()) {
                None => r matches Err(e) && e.deep_view() matches StoreErrorView::NotFound(_),
                Some(sel) => r matches Ok(res) && res.deep_view() == merge_result_spec(sel),
            },
    {
        let ghost idsv = proposal_ids.deep_view();
        let ghost psv = self@.proposals;
        let mut cs: Vec<Contribution> = Vec::new();
        let mut k: usize = 0;
        proof {
            assert(idsv.skip(0) =~= idsv);
        }
        while k < proposal_ids.len()
            invariant
                k <= proposal_ids.len(),
                psv == self@.proposals,
                idsv == proposal_ids.deep_view(),
                (selected_proposals(psv, idsv) is Some) == (selected_proposals(
                    psv,
                    idsv.skip(k as int),
                ) is Some),
                selected_proposals(psv, idsv) matches Some(sel) ==> (selected_proposals(
                    psv,
                    idsv.skip(k as int),
                ) matches Some(selrest) && props_contribs(sel) == cs.deep_view() + props_contribs(
                    selrest,
                )),
            decreases proposal_ids.len() - k,
        {
            proof {
                let rest = idsv.skip(k as int);
                assert(rest[0] == idsv[k as int]);
                assert(idsv[k as int] == proposal_ids@[k as int].deep_view());
                assert(rest.drop_first() =~= idsv.skip(k as int + 1));
            }
            match self.find_proposal_index(proposal_ids[k].as_str()) {
                Option::None => {
                    let mut m = "proposal ".to_owned();
                    m.append(proposal_ids[k].as_str());
                    proof {
                        assert(selected_proposals(psv, idsv.skip(k as int)) is None);
                    }
                    return Err(StoreError::NotFound(m));
                },
                Option::Some(pi) => {
                    proof {
                        lemma_first_idx(psv, |pv: ProposalView| pv.id == idsv[k as int]);
                        assert(psv[pi as int] == self.proposals@[pi as int].deep_view());
                    }
                    push_op_contribs(&mut cs, &self.proposals[pi].operations);
                    proof {
                        match selected_proposals(psv, idsv.skip(k as int)) {
                            Some(selrest) => {
                                let tail = selected_proposals(
                                    psv,
                                    idsv.skip(k as int + 1),
                                )->Some_0;
                                assert(selrest =~= seq![psv[pi as int]] + tail);
                                assert(selrest[0] == psv[pi as int]);
                                assert(selrest.drop_first() =~= tail);
                            },
                            None => {},
                        }
                    }
                },
            }
            k = k + 1;
        }
        proof {
            assert(idsv.skip(proposal_ids.len() as int).len() == 0);
        }
        let ghost sel = selected_proposals(psv, idsv)->Some_0;
        let ghost csv = cs.deep_view();
        proof {
            assert(props_contribs(sel) =~= csv);
        }

        let mut pairs: Vec<FieldKey> = Vec::new();
        let mut i: usize = 0;
        proof {
            assert(csv.skip(0) =~= csv);
            assert(pairs.deep_view() =~= Seq::<FieldKeyView>::empty());
        }
        while i < cs.len()
            invariant
                i <= cs.len(),
                csv == cs.deep_view(),
                pairs_from(csv, Seq::empty()) == pairs_from(
                    csv.skip(i as int),
                    pairs.deep_view(),
                ),
            decreases cs.len() - i,
        {
            proof {
                let rest = csv.skip(i as int);
                assert(rest[0] == csv[i as int]);
                assert(csv[i as int] == cs@[i as int].deep_view());
                assert(rest.drop_first() =~= csv.skip(i as int + 1));
            }
            if !contains_field_key(&pairs, cs[i].key.as_str(), cs[i].field.as_str()) {
                let ghost p1 = pairs;
                pairs.push(FieldKey { key: cs[i].key.clone(), field: cs[i].field.clone() });
                proof {
                    lemma_push_deep_view(p1, pairs, pairs@.last());
                }
            }
            i = i + 1;
        }
        proof {
            assert(csv.skip(cs.len() as int).len() == 0);
        }
        let ghost pairsv = pairs.deep_view();
        proof {
            assert(pairs_from(csv, Seq::empty()) == pairsv);
        }

        let mut auto_merged: Vec<FieldChange> = Vec::new();
        let mut merged: Vec<FieldChange> = Vec::new();
        let mut conflicts: Vec<MergeConflictField> = Vec::new();
        let mut g: usize = 0;
        proof {
            assert(pairsv.skip(0) =~= pairsv);
        }
        while g < pairs.len()
            invariant
                g <= pairs.len(),
                csv == cs.deep_view(),
                pairsv == pairs.deep_view(),
                auto_merged_of(csv, pairsv) == auto_merged.deep_view() + auto_merged_of(
                    csv,
                    pairsv.skip(g as int),
                ),
                merged_of(csv, pairsv) == merged.deep_view() + merged_of(
                    csv,
                    pairsv.skip(g as int),
                ),
                merge_conflicts_of(csv, pairsv) == conflicts.deep_view() + merge_conflicts_of(
                    csv,
                    pairsv.skip(g as int),
                ),
            decreases pairs.len() - g,
        {
            proof {
                let rest = pairsv.skip(g as int);
                assert(rest[0] == pairsv[g as int]);
                assert(pairsv[g as int] == pairs@[g as int].deep_view());
                assert(rest.drop_first() =~= pairsv.skip(g as int + 1));
            }
            let pair = &pairs[g];
            let vals = values_for_vec(&cs, pair);
            let nid = match key_to_node_id(pair.key.as_str()) {
                Option::Some(n) => n,
                Option::None => NodeId { id: pair.key.clone(), namespace: Option::None },
            };
            if vals.len() == 1 {
                let ghost a1 = auto_merged;
                auto_merged.push(
                    FieldChange {
                        node_id: nid,
                        field: pair.field.clone(),
                        old_value: Option::None,
                        new_value: vals[0].clone(),
                    },
                );
                proof {
                    lemma_push_deep_view(a1, auto_merged, auto_merged@.last());
                }
            } else if vals.len() >= 2 {
                match first_divergent(&vals) {
                    Option::None => {
                        let ghost m1 = merged;
                        merged.push(
                            FieldChange {
                                node_id: nid,
                                field: pair.field.clone(),
                                old_value: Option::None,
                                new_value: vals[0].clone(),
                            },
                        );
                        proof {
                            lemma_push_deep_view(m1, merged, merged@.last());
                        }
                    },
                    Option::Some(d) => {
                        proof {
                            let valsv = values_for(csv, pairsv[g as int]);
                            lemma_first_idx_is(
                                valsv,
                                |v: MergeValueView| v != valsv[0],
                                d as int,
                            );
                        }
                        let ghost c1 = conflicts;
                        conflicts.push(
                            MergeConflictField {
                                field: pair.field.clone(),
                                node_id: nid,
                                proposal1_value: vals[0].clone(),
                                proposal2_value: vals[d].clone(),
                            },
                        );
                        proof {
                            lemma_push_deep_view(c1, conflicts, conflicts@.last());
                        }
                    },
                }
            }
            proof {
                assert(auto_merged.deep_view() + auto_merged_of(
                    csv,
                    pairsv.skip(g as int + 1),
                ) =~= auto_merged_of(csv, pairsv));
                assert(merged.deep_view() + merged_of(csv, pairsv.skip(g as int + 1)) =~= merged_of(
                    csv,
                    pairsv,
                ));
                assert(conflicts.deep_view() + merge_conflicts_of(
                    csv,
                    pairsv.skip(g as int + 1),
                ) =~= merge_conflicts_of(csv, pairsv));
            }
            g = g + 1;
        }
        proof {
            assert(pairsv.skip(pairs.len() as int).len() == 0);
            assert(auto_merged.deep_view() =~= auto_merged_of(csv, pairsv));
            assert(merged.deep_view() =~= merged_of(csv, pairsv));
            assert(conflicts.deep_view() =~= merge_conflicts_of(csv, pairsv));
        }
        Ok(MergeResult { merged, conflicts, auto_merged })
    }

    /// Applies an accepted proposal now: as `apply_proposal_at`, with the
    /// current wall-clock time as the applied-at timestamp.
    pub fn apply_proposal(&mut self, proposal_id: &str, applied_by: &str) -> (r: Result<
        (),
        StoreError,
    >)
        requires
            store_wf(old(self)@),
        ensures
            store_wf(final(self)@),
            exists|now: Seq<char>|
                final(self)@ == apply_post(old(self)@, proposal_id@, applied_by@, now) && (match
                    apply_failure(old(self)@, proposal_id@, applied_by@, now) {
                    None => r is Ok,
                    Some(ApplyFailure::UnknownProposal) => r matches Err(e) && e.deep_view()
                        matches StoreErrorView::NotFound(_),
                    Some(ApplyFailure::NotAccepted) => r matches Err(e) && e.deep_view()
                        matches StoreErrorView::Invalid(_),
                    Some(ApplyFailure::RevisionOverflow) => r matches Err(e) && e.deep_view()
                        matches StoreErrorView::Internal(_),
                    Some(ApplyFailure::Op(ApplyError::MissingNode)) => r matches Err(e)
                        && e.deep_view() matches StoreErrorView::NotFound(_),
                    Some(ApplyFailure::Op(ApplyError::VersionOverflow)) => r matches Err(e)
                        && e.deep_view() matches StoreErrorView::Internal(_),
                }),
    {
        let now = crate::clock::now_rfc3339();
        let r = self.apply_proposal_at(proposal_id, applied_by, now.as_str());
        proof {
            assert(self@ == apply_post(old(self)@, proposal_id@, applied_by@, now@));
        }
        r
    }
}

} // verus!

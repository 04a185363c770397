//! Proposal, operation, review and comment types: the unit of proposed
//! change and everything appended to it on its way through governance.

use vstd::prelude::*;

use crate::node::{ContextNode, NodeId, NodeIdView, NodeStatus, NodeView, key_of};
use crate::support::{clone_opt_string, clone_opt_vec_deep, clone_opt_vec_string};

verus! {

broadcast use vstd::std_specs::vec::group_vec_axioms;

/// Lifecycle status of a proposal. `Rejected`, `Withdrawn` and `Applied` are
/// terminal.
#[derive(Debug, Clone, Copy, PartialEq, Eq, Structural)]
pub enum ProposalStatus {
    Open,
    Accepted,
    Rejected,
    Withdrawn,
    /// Terminal: the proposal has been written into accepted truth. Guards
    /// against double apply.
    Applied,
}

impl DeepView for ProposalStatus {
    type V = ProposalStatus;

    open spec fn deep_view(&self) -> ProposalStatus {
        *self
    }
}

/// The proposal status a lower-case name denotes, if any. The name
/// `applied` is deliberately not given a meaning here: only the apply step
/// may produce that status.
pub open spec fn proposal_status_of_name(t: Seq<char>) -> Option<ProposalStatus> {
    if t == "open"@ {
        Some(ProposalStatus::Open)
    } else if t == "accepted"@ {
        Some(ProposalStatus::Accepted)
    } else if t == "rejected"@ {
        Some(ProposalStatus::Rejected)
    } else if t == "withdrawn"@ {
        Some(ProposalStatus::Withdrawn)
    } else {
        None
    }
}

/// Bookkeeping carried by a proposal.
pub struct ProposalMetadata {
    pub created_at: String,
    pub created_by: String,
    pub modified_at: String,
    pub modified_by: String,
    pub rationale: Option<String>,
    pub required_approvers: Option<Vec<String>>,
    pub approved_by: Option<Vec<String>>,
    /// Optimistic-lock snapshot: the version of every referenced node as
    /// observed at proposal creation.
    pub base_versions: Option<Vec<BaseVersion>>,
}

/// One entry of the optimistic-lock snapshot.
pub struct BaseVersion {
    pub key: String,
    pub version: u32,
}

/// Mathematical view of a `BaseVersion`.
pub ghost struct BaseVersionView {
    pub key: Seq<char>,
    pub version: u32,
}

impl DeepView for BaseVersion {
    type V = BaseVersionView;

    open spec fn deep_view(&self) -> BaseVersionView {
        BaseVersionView { key: self.key.deep_view(), version: self.version }
    }
}

impl Clone for BaseVersion {
    /// The copy has the same view as the original.
    fn clone(&self) -> (r: Self)
        ensures
            r.deep_view() == self.deep_view(),
    {
        BaseVersion { key: self.key.clone(), version: self.version }
    }
}

/// Mathematical view of `ProposalMetadata`.
pub ghost struct ProposalMetadataView {
    pub created_at: Seq<char>,
    pub created_by: Seq<char>,
    pub modified_at: Seq<char>,
    pub modified_by: Seq<char>,
    pub rationale: Option<Seq<char>>,
    pub required_approvers: Option<Seq<Seq<char>>>,
    pub approved_by: Option<Seq<Seq<char>>>,
    pub base_versions: Option<Seq<BaseVersionView>>,
}

impl DeepView for ProposalMetadata {
    type V = ProposalMetadataView;

    open spec fn deep_view(&self) -> ProposalMetadataView {
        ProposalMetadataView {
            created_at: self.created_at.deep_view(),
            created_by: self.created_by.deep_view(),
            modified_at: self.modified_at.deep_view(),
            modified_by: self.modified_by.deep_view(),
            rationale: self.rationale.deep_view(),
            required_approvers: self.required_approvers.deep_view(),
            approved_by: self.approved_by.deep_view(),
            base_versions: self.base_versions.deep_view(),
        }
    }
}

impl Clone for ProposalMetadata {
    /// The copy has the same view as the original.
    fn clone(&self) -> (r: Self)
        ensures
            r.deep_view() == self.deep_view(),
    {
        proof {
            assert forall|a: BaseVersion, b: BaseVersion| cloned(a, b) implies a.deep_view()
                == b.deep_view() by {}
        }
        ProposalMetadata {
            created_at: self.created_at.clone(),
            created_by: self.created_by.clone(),
            modified_at: self.modified_at.clone(),
            modified_by: self.modified_by.clone(),
            rationale: clone_opt_string(&self.rationale),
            required_approvers: clone_opt_vec_string(&self.required_approvers),
            approved_by: clone_opt_vec_string(&self.approved_by),
            base_versions: clone_opt_vec_deep(&self.base_versions),
        }
    }
}

/// One field of the loosely-typed remainder of an update, kept as raw text.
pub struct ExtraField {
    pub name: String,
    pub value: String,
}

/// Mathematical view of an `ExtraField`.
pub ghost struct ExtraFieldView {
    pub name: Seq<char>,
    pub value: Seq<char>,
}

impl DeepView for ExtraField {
    type V = ExtraFieldView;

    open spec fn deep_view(&self) -> ExtraFieldView {
        ExtraFieldView { name: self.name.deep_view(), value: self.value.deep_view() }
    }
}

impl Clone for ExtraField {
    /// The copy has the same view as the original.
    fn clone(&self) -> (r: Self)
        ensures
            r.deep_view() == self.deep_view(),
    {
        ExtraField { name: self.name.clone(), value: self.value.clone() }
    }
}

/// The sparse changes an `Update` operation carries.
pub struct UpdateChanges {
    pub content: Option<String>,
    pub status: Option<NodeStatus>,
    pub extra: Option<Vec<ExtraField>>,
}

/// Mathematical view of `UpdateChanges`.
pub ghost struct UpdateChangesView {
    pub content: Option<Seq<char>>,
    pub status: Option<NodeStatus>,
    pub extra: Option<Seq<ExtraFieldView>>,
}

impl DeepView for UpdateChanges {
    type V = UpdateChangesView;

    open spec fn deep_view(&self) -> UpdateChangesView {
        UpdateChangesView {
            content: self.content.deep_view(),
            status: self.status.deep_view(),
            extra: self.extra.deep_view(),
        }
    }
}

impl Clone for UpdateChanges {
    /// The copy has the same view as the original.
    fn clone(&self) -> (r: Self)
        ensures
            r.deep_view() == self.deep_view(),
    {
        proof {
            assert forall|a: ExtraField, b: ExtraField| cloned(a, b) implies a.deep_view()
                == b.deep_view() by {}
        }
        UpdateChanges {
            content: clone_opt_string(&self.content),
            status: self.status,
            extra: clone_opt_vec_deep(&self.extra),
        }
    }
}

/// One step of a proposal: create, update, logically delete, or change the
/// status of a node. Steps are executed in ascending `order`.
pub enum Operation {
    Create { id: String, order: u32, node: ContextNode },
    Update { id: String, order: u32, node_id: NodeId, changes: UpdateChanges },
    Delete { id: String, order: u32, node_id: NodeId, reason: Option<String> },
    StatusChange {
        id: String,
        order: u32,
        node_id: NodeId,
        new_status: NodeStatus,
        old_status: NodeStatus,
        reason: Option<String>,
    },
}

/// Mathematical view of an `Operation`.
pub ghost enum OperationView {
    Create { id: Seq<char>, order: u32, node: NodeView },
    Update { id: Seq<char>, order: u32, node_id: NodeIdView, changes: UpdateChangesView },
    Delete { id: Seq<char>, order: u32, node_id: NodeIdView, reason: Option<Seq<char>> },
    StatusChange {
        id: Seq<char>,
        order: u32,
        node_id: NodeIdView,
        new_status: NodeStatus,
        old_status: NodeStatus,
        reason: Option<Seq<char>>,
    },
}

impl OperationView {
    /// The execution rank of this operation within its proposal.
    pub open spec fn order(self) -> u32 {
        match self {
            OperationView::Create { order, .. } => order,
            OperationView::Update { order, .. } => order,
            OperationView::Delete { order, .. } => order,
            OperationView::StatusChange { order, .. } => order,
        }
    }

    /// The canonical key of the node this operation touches.
    pub open spec fn touched_key(self) -> Seq<char> {
        match self {
            OperationView::Create { node, .. } => node.key(),
            OperationView::Update { node_id, .. } => key_of(node_id),
            OperationView::Delete { node_id, .. } => key_of(node_id),
            OperationView::StatusChange { node_id, .. } => key_of(node_id),
        }
    }
}

impl DeepView for Operation {
    type V = OperationView;

    open spec fn deep_view(&self) -> OperationView {
        match self {
            Operation::Create { id, order, node } => OperationView::Create {
                id: id.deep_view(),
                order: *order,
                node: node.deep_view(),
            },
            Operation::Update { id, order, node_id, changes } => OperationView::Update {
                id: id.deep_view(),
                order: *order,
                node_id: node_id.deep_view(),
                changes: changes.deep_view(),
            },
            Operation::Delete { id, order, node_id, reason } => OperationView::Delete {
                id: id.deep_view(),
                order: *order,
                node_id: node_id.deep_view(),
                reason: reason.deep_view(),
            },
            Operation::StatusChange { id, order, node_id, new_status, old_status, reason } => OperationView::StatusChange {
                id: id.deep_view(),
                order: *order,
                node_id: node_id.deep_view(),
                new_status: *new_status,
                old_status: *old_status,
                reason: reason.deep_view(),
            },
        }
    }
}

impl Operation {
    /// The execution rank of this operation.
    pub fn order(&self) -> (r: u32)
        ensures
            r == self.deep_view().order(),
    {
        match self {
            Operation::Create { order, .. } => *order,
            Operation::Update { order, .. } => *order,
            Operation::Delete { order, .. } => *order,
            Operation::StatusChange { order, .. } => *order,
        }
    }

    /// The canonical key of the node this operation touches.
    pub fn touched_key(&self) -> (r: String)
        ensures
            r@ == self.deep_view().touched_key(),
    {
        match self {
            Operation::Create { node, .. } => node.id.key(),
            Operation::Update { node_id, .. } => node_id.key(),
            Operation::Delete { node_id, .. } => node_id.key(),
            Operation::StatusChange { node_id, .. } => node_id.key(),
        }
    }
}

impl Clone for Operation {
    /// The copy has the same view as the original.
    fn clone(&self) -> (r: Self)
        ensures
            r.deep_view() == self.deep_view(),
    {
        match self {
            Operation::Create { id, order, node } => Operation::Create {
                id: id.clone(),
                order: *order,
                node: node.clone(),
            },
            Operation::Update { id, order, node_id, changes } => Operation::Update {
                id: id.clone(),
                order: *order,
                node_id: node_id.clone(),
                changes: changes.clone(),
            },
            Operation::Delete { id, order, node_id, reason } => Operation::Delete {
                id: id.clone(),
                order: *order,
                node_id: node_id.clone(),
                reason: clone_opt_string(reason),
            },
            Operation::StatusChange { id, order, node_id, new_status, old_status, reason } => Operation::StatusChange {
                id: id.clone(),
                order: *order,
                node_id: node_id.clone(),
                new_status: *new_status,
                old_status: *old_status,
                reason: clone_opt_string(reason),
            },
        }
    }
}

/// Metadata recorded when a proposal is applied; required for audit and for
/// idempotent apply.
pub struct AppliedMetadata {
    pub applied_at: String,
    pub applied_by: String,
    pub applied_from_review_id: Option<String>,
    pub applied_from_proposal_id: String,
    pub applied_to_revision_id: String,
    pub previous_revision_id: String,
}

/// Mathematical view of `AppliedMetadata`.
pub ghost struct AppliedMetadataView {
    pub applied_at: Seq<char>,
    pub applied_by: Seq<char>,
    pub applied_from_review_id: Option<Seq<char>>,
    pub applied_from_proposal_id: Seq<char>,
    pub applied_to_revision_id: Seq<char>,
    pub previous_revision_id: Seq<char>,
}

impl DeepView for AppliedMetadata {
    type V = AppliedMetadataView;

    open spec fn deep_view(&self) -> AppliedMetadataView {
        AppliedMetadataView {
            applied_at: self.applied_at.deep_view(),
            applied_by: self.applied_by.deep_view(),
            applied_from_review_id: self.applied_from_review_id.deep_view(),
            applied_from_proposal_id: self.applied_from_proposal_id.deep_view(),
            applied_to_revision_id: self.applied_to_revision_id.deep_view(),
            previous_revision_id: self.previous_revision_id.deep_view(),
        }
    }
}

impl Clone for AppliedMetadata {
    /// The copy has the same view as the original.
    fn clone(&self) -> (r: Self)
        ensures
            r.deep_view() == self.deep_view(),
    {
        AppliedMetadata {
            applied_at: self.applied_at.clone(),
            applied_by: self.applied_by.clone(),
            applied_from_review_id: clone_opt_string(&self.applied_from_review_id),
            applied_from_proposal_id: self.applied_from_proposal_id.clone(),
            applied_to_revision_id: self.applied_to_revision_id.clone(),
            previous_revision_id: self.previous_revision_id.clone(),
        }
    }
}

/// Status of a discussion comment.
#[derive(Debug, Clone, Copy, PartialEq, Eq, Structural)]
pub enum CommentStatus {
    Open,
    Resolved,
}

impl DeepView for CommentStatus {
    type V = CommentStatus;

    open spec fn deep_view(&self) -> CommentStatus {
        *self
    }
}

/// A character range a comment is anchored to.
#[derive(Debug, Clone, Copy, PartialEq, Eq, Structural)]
pub struct CommentRange {
    pub start: u32,
    pub end: u32,
}

impl DeepView for CommentRange {
    type V = CommentRange;

    open spec fn deep_view(&self) -> CommentRange {
        *self
    }
}

/// Where in a node a comment is anchored.
pub struct CommentAnchor {
    pub node_id: NodeId,
    pub field: Option<String>,
    pub range: Option<CommentRange>,
    pub quote: Option<String>,
}

/// Mathematical view of a `CommentAnchor`.
pub ghost struct CommentAnchorView {
    pub node_id: NodeIdView,
    pub field: Option<Seq<char>>,
    pub range: Option<CommentRange>,
    pub quote: Option<Seq<char>>,
}

impl DeepView for CommentAnchor {
    type V = CommentAnchorView;

    open spec fn deep_view(&self) -> CommentAnchorView {
        CommentAnchorView {
            node_id: self.node_id.deep_view(),
            field: self.field.deep_view(),
            range: self.range,
            quote: self.quote.deep_view(),
        }
    }
}

impl Clone for CommentAnchor {
    /// The copy has the same view as the original.
    fn clone(&self) -> (r: Self)
        ensures
            r.deep_view() == self.deep_view(),
    {
        CommentAnchor {
            node_id: self.node_id.clone(),
            field: clone_opt_string(&self.field),
            range: self.range,
            quote: clone_opt_string(&self.quote),
        }
    }
}

/// A discussion comment on a proposal; replies nest.
pub struct Comment {
    pub id: String,
    pub content: String,
    pub author: String,
    pub created_at: String,
    pub status: Option<CommentStatus>,
    pub resolved_at: Option<String>,
    pub resolved_by: Option<String>,
    pub operation_id: Option<String>,
    pub anchor: Option<CommentAnchor>,
    pub replies: Option<Vec<Comment>>,
}

/// Mathematical view of a `Comment`.
pub ghost struct CommentView {
    pub id: Seq<char>,
    pub content: Seq<char>,
    pub author: Seq<char>,
    pub created_at: Seq<char>,
    pub status: Option<CommentStatus>,
    pub resolved_at: Option<Seq<char>>,
    pub resolved_by: Option<Seq<char>>,
    pub operation_id: Option<Seq<char>>,
    pub anchor: Option<CommentAnchorView>,
    pub replies: Option<Seq<CommentView>>,
}

/// The view of a comment, with nested replies viewed recursively.
pub open spec fn comment_view(c: Comment) -> CommentView
    decreases c, 1int,
{
    CommentView {
        id: c.id.deep_view(),
        content: c.content.deep_view(),
        author: c.author.deep_view(),
        created_at: c.created_at.deep_view(),
        status: c.status,
        resolved_at: c.resolved_at.deep_view(),
        resolved_by: c.resolved_by.deep_view(),
        operation_id: c.operation_id.deep_view(),
        anchor: c.anchor.deep_view(),
        replies: match c.replies {
            Option::None => Option::None,
            Option::Some(v) => Option::Some(comments_view(v@)),
        },
    }
}

/// The views of a sequence of comments, in order.
pub open spec fn comments_view(s: Seq<Comment>) -> Seq<CommentView>
    decreases s, 0int,
{
    if s.len() == 0 {
        Seq::empty()
    } else {
        seq![comment_view(s[0])] + comments_view(s.drop_first())
    }
}

impl DeepView for Comment {
    type V = CommentView;

    open spec fn deep_view(&self) -> CommentView {
        comment_view(*self)
    }
}

/// `comments_view` maps `comment_view` over the sequence, index by index.
pub proof fn lemma_comments_view(s: Seq<Comment>)
    ensures
        comments_view(s).len() == s.len(),
        forall|i: int| 0 <= i < s.len() ==> comments_view(s)[i] == comment_view(s[i]),
    decreases s.len(),
{
    if s.len() > 0 {
        lemma_comments_view(s.drop_first());
    }
}

/// Copies a comment, replies included; the copy has the same view.
pub fn clone_comment(c: &Comment) -> (r: Comment)
    ensures
        r.deep_view() == c.deep_view(),
    decreases *c,
{
    let replies: Option<Vec<Comment>> = match &c.replies {
        Option::None => Option::None,
        Option::Some(v) => {
            let mut out: Vec<Comment> = Vec::new();
            let mut i: usize = 0;
            while i < v.len()
                invariant
                    i <= v.len(),
                    out.len() == i,
                    c.replies == Option::Some(*v),
                    forall|j: int| 0 <= j < i ==> comment_view(out@[j]) == comment_view(v@[j]),
                decreases v.len() - i,
            {
                proof {
                    assert(decreases_to!(*c => c.replies));
                    assert(decreases_to!(c.replies => c.replies->0));
                    assert(decreases_to!(c.replies->0 => (c.replies->0)@));
                    assert(decreases_to!((c.replies->0)@ => (c.replies->0)@[i as int]));
                    assert((c.replies->0)@[i as int] == v@[i as int]);
                }
                out.push(clone_comment(&v[i]));
                i = i + 1;
            }
            proof {
                lemma_comments_view(out@);
                lemma_comments_view(v@);
                assert(comments_view(out@) =~= comments_view(v@));
            }
            Option::Some(out)
        },
    };
    let r = Comment {
        id: c.id.clone(),
        content: c.content.clone(),
        author: c.author.clone(),
        created_at: c.created_at.clone(),
        status: c.status,
        resolved_at: clone_opt_string(&c.resolved_at),
        resolved_by: clone_opt_string(&c.resolved_by),
        operation_id: clone_opt_string(&c.operation_id),
        anchor: match &c.anchor {
            Option::None => Option::None,
            Option::Some(a) => Option::Some(a.clone()),
        },
        replies,
    };
    r
}

impl Clone for Comment {
    /// The copy has the same view as the original.
    fn clone(&self) -> (r: Self)
        ensures
            r.deep_view() == self.deep_view(),
    {
        clone_comment(self)
    }
}

/// A review's verdict on a proposal.
#[derive(Debug, Clone, Copy, PartialEq, Eq, Structural)]
pub enum ReviewAction {
    Accept,
    Reject,
    RequestChanges,
}

impl DeepView for ReviewAction {
    type V = ReviewAction;

    open spec fn deep_view(&self) -> ReviewAction {
        *self
    }
}

/// One review of a proposal. Reviews are appended and never mutated.
pub struct Review {
    pub id: String,
    pub proposal_id: String,
    pub reviewer: String,
    pub reviewer_role: Option<String>,
    pub reviewed_at: String,
    pub action: ReviewAction,
    pub comment: Option<String>,
    pub comments: Option<Vec<Comment>>,
    pub operation_ids: Option<Vec<String>>,
    pub is_approval: Option<bool>,
}

/// Mathematical view of a `Review`.
pub ghost struct ReviewView {
    pub id: Seq<char>,
    pub proposal_id: Seq<char>,
    pub reviewer: Seq<char>,
    pub reviewer_role: Option<Seq<char>>,
    pub reviewed_at: Seq<char>,
    pub action: ReviewAction,
    pub comment: Option<Seq<char>>,
    pub comments: Option<Seq<CommentView>>,
    pub operation_ids: Option<Seq<Seq<char>>>,
    pub is_approval: Option<bool>,
}

impl DeepView for Review {
    type V = ReviewView;

    open spec fn deep_view(&self) -> ReviewView {
        ReviewView {
            id: self.id.deep_view(),
            proposal_id: self.proposal_id.deep_view(),
            reviewer: self.reviewer.deep_view(),
            reviewer_role: self.reviewer_role.deep_view(),
            reviewed_at: self.reviewed_at.deep_view(),
            action: self.action,
            comment: self.comment.deep_view(),
            comments: self.comments.deep_view(),
            operation_ids: self.operation_ids.deep_view(),
            is_approval: self.is_approval,
        }
    }
}

impl Clone for Review {
    /// The copy has the same view as the original.
    fn clone(&self) -> (r: Self)
        ensures
            r.deep_view() == self.deep_view(),
    {
        proof {
            assert forall|a: Comment, b: Comment| cloned(a, b) implies a.deep_view()
                == b.deep_view() by {}
        }
        Review {
            id: self.id.clone(),
            proposal_id: self.proposal_id.clone(),
            reviewer: self.reviewer.clone(),
            reviewer_role: clone_opt_string(&self.reviewer_role),
            reviewed_at: self.reviewed_at.clone(),
            action: self.action,
            comment: clone_opt_string(&self.comment),
            comments: clone_opt_vec_deep(&self.comments),
            operation_ids: clone_opt_vec_string(&self.operation_ids),
            is_approval: self.is_approval,
        }
    }
}

/// A submitted, gated batch of operations.
pub struct Proposal {
    pub id: String,
    pub status: ProposalStatus,
    pub operations: Vec<Operation>,
    pub metadata: ProposalMetadata,
    pub comments: Option<Vec<Comment>>,
    pub relations: Option<Vec<String>>,
    /// Present exactly when the proposal has been applied.
    pub applied: Option<AppliedMetadata>,
}

/// Mathematical view of a `Proposal`.
pub ghost struct ProposalView {
    pub id: Seq<char>,
    pub status: ProposalStatus,
    pub operations: Seq<OperationView>,
    pub metadata: ProposalMetadataView,
    pub comments: Option<Seq<CommentView>>,
    pub relations: Option<Seq<Seq<char>>>,
    pub applied: Option<AppliedMetadataView>,
}

impl DeepView for Proposal {
    type V = ProposalView;

    open spec fn deep_view(&self) -> ProposalView {
        ProposalView {
            id: self.id.deep_view(),
            status: self.status,
            operations: self.operations.deep_view(),
            metadata: self.metadata.deep_view(),
            comments: self.comments.deep_view(),
            relations: self.relations.deep_view(),
            applied: self.applied.deep_view(),
        }
    }
}

impl Clone for Proposal {
    /// The copy has the same view as the original.
    fn clone(&self) -> (r: Self)
        ensures
            r.deep_view() == self.deep_view(),
    {
        proof {
            assert forall|a: Operation, b: Operation| cloned(a, b) implies a.deep_view()
                == b.deep_view() by {}
            assert forall|a: Comment, b: Comment| cloned(a, b) implies a.deep_view()
                == b.deep_view() by {}
        }
        let operations = {
            let cloned_ops = self.operations.clone();
            proof {
                assert forall|i: int|
                    0 <= i < self.operations.len() implies cloned_ops.deep_view()[i]
                    == self.operations.deep_view()[i] by {
                    assert(cloned(self.operations[i], cloned_ops[i]));
                }
                assert(cloned_ops.deep_view() =~= self.operations.deep_view());
            }
            cloned_ops
        };
        Proposal {
            id: self.id.clone(),
            status: self.status,
            operations,
            metadata: self.metadata.clone(),
            comments: clone_opt_vec_deep(&self.comments),
            relations: clone_opt_vec_string(&self.relations),
            applied: match &self.applied {
                Option::None => Option::None,
                Option::Some(a) => Option::Some(a.clone()),
            },
        }
    }
}

/// A sparse PATCH document for a proposal: each field optional, unknown
/// fields rejected at the boundary.
pub struct ProposalPatch {
    /// New status by name; the name `applied` is rejected.
    pub status: Option<String>,
    pub modified_at: Option<String>,
    pub modified_by: Option<String>,
    pub comments: Option<Vec<Comment>>,
}

/// Mathematical view of a `ProposalPatch`.
pub ghost struct ProposalPatchView {
    pub status: Option<Seq<char>>,
    pub modified_at: Option<Seq<char>>,
    pub modified_by: Option<Seq<char>>,
    pub comments: Option<Seq<CommentView>>,
}

impl DeepView for ProposalPatch {
    type V = ProposalPatchView;

    open spec fn deep_view(&self) -> ProposalPatchView {
        ProposalPatchView {
            status: self.status.deep_view(),
            modified_at: self.modified_at.deep_view(),
            modified_by: self.modified_by.deep_view(),
            comments: self.comments.deep_view(),
        }
    }
}

} // verus!

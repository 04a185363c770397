//! Core node types for the context graph: the truth-graph vertex, its
//! identity, metadata and typed relationships.
//!
//! Each type has a mathematical view (its `deep_view`), and a copy
//! constructor proved to preserve that view; contracts elsewhere speak of
//! these views.

use vstd::prelude::*;
use vstd::string::StringExecFns;

use crate::sensitivity::Sensitivity;
use crate::support::{clone_opt_string, clone_opt_vec_deep, clone_opt_vec_string};

verus! {

/// The closed set of node types.
#[derive(Debug, Clone, Copy, PartialEq, Eq, Hash, Structural)]
pub enum NodeType {
    Goal,
    Decision,
    Constraint,
    Task,
    Risk,
    Question,
    Context,
    Plan,
    Note,
}

impl DeepView for NodeType {
    type V = NodeType;

    open spec fn deep_view(&self) -> NodeType {
        *self
    }
}

/// The lower-case name of a node type.
pub open spec fn node_type_name(t: NodeType) -> Seq<char> {
    match t {
        NodeType::Goal => "goal"@,
        NodeType::Decision => "decision"@,
        NodeType::Constraint => "constraint"@,
        NodeType::Task => "task"@,
        NodeType::Risk => "risk"@,
        NodeType::Question => "question"@,
        NodeType::Context => "context"@,
        NodeType::Plan => "plan"@,
        NodeType::Note => "note"@,
    }
}

impl NodeType {
    /// The type's lower-case name.
    pub fn as_str(&self) -> (r: &'static str)
        ensures
            r@ == node_type_name(*self),
    {
        match self {
            NodeType::Goal => "goal",
            NodeType::Decision => "decision",
            NodeType::Constraint => "constraint",
            NodeType::Task => "task",
            NodeType::Risk => "risk",
            NodeType::Question => "question",
            NodeType::Context => "context",
            NodeType::Plan => "plan",
            NodeType::Note => "note",
        }
    }
}

/// A node's lifecycle status.
#[derive(Debug, Clone, Copy, PartialEq, Eq, Structural)]
pub enum NodeStatus {
    Accepted,
    Proposed,
    Rejected,
    Superseded,
}

impl DeepView for NodeStatus {
    type V = NodeStatus;

    open spec fn deep_view(&self) -> NodeStatus {
        *self
    }
}

/// State of a task node.
#[derive(Debug, Clone, Copy, PartialEq, Eq, Structural)]
pub enum TaskState {
    Open,
    InProgress,
    Blocked,
    Completed,
    Cancelled,
}

impl DeepView for TaskState {
    type V = TaskState;

    open spec fn deep_view(&self) -> TaskState {
        *self
    }
}

/// Severity of a risk node.
#[derive(Debug, Clone, Copy, PartialEq, Eq, Structural)]
pub enum RiskSeverity {
    Low,
    Medium,
    High,
    Critical,
}

impl DeepView for RiskSeverity {
    type V = RiskSeverity;

    open spec fn deep_view(&self) -> RiskSeverity {
        *self
    }
}

/// Likelihood of a risk node.
#[derive(Debug, Clone, Copy, PartialEq, Eq, Structural)]
pub enum RiskLikelihood {
    Unlikely,
    Possible,
    Likely,
    Certain,
}

impl DeepView for RiskLikelihood {
    type V = RiskLikelihood;

    open spec fn deep_view(&self) -> RiskLikelihood {
        *self
    }
}

/// A node's identity: a plain id plus an optional namespace.
pub struct NodeId {
    pub id: String,
    pub namespace: Option<String>,
}

/// Mathematical view of a `NodeId`.
pub ghost struct NodeIdView {
    pub id: Seq<char>,
    pub namespace: Option<Seq<char>>,
}

impl DeepView for NodeId {
    type V = NodeIdView;

    open spec fn deep_view(&self) -> NodeIdView {
        NodeIdView { id: self.id.deep_view(), namespace: self.namespace.deep_view() }
    }
}

/// The canonical map key of an identity: `"ns:id"` when namespaced, else the
/// bare id.
pub open spec fn key_of(id: NodeIdView) -> Seq<char> {
    match id.namespace {
        Option::None => id.id,
        Option::Some(ns) => ns + seq![':'] + id.id,
    }
}

impl NodeId {
    /// The canonical map key of this identity.
    pub fn key(&self) -> (r: String)
        ensures
            r@ == key_of(self.deep_view()),
    {
        match &self.namespace {
            Option::None => self.id.clone(),
            Option::Some(ns) => {
                let mut s = ns.clone();
                s.append(":");
                s.append(self.id.as_str());
                proof {
                    reveal_strlit(":");
                    assert(":"@ =~= seq![':']);
                }
                s
            },
        }
    }
}

impl Clone for NodeId {
    /// The copy has the same view as the original.
    fn clone(&self) -> (r: Self)
        ensures
            r.deep_view() == self.deep_view(),
    {
        NodeId { id: self.id.clone(), namespace: clone_opt_string(&self.namespace) }
    }
}

/// A character range within a source text.
pub struct TextRange {
    pub start: u32,
    pub end: u32,
    pub source: Option<String>,
}

/// Mathematical view of a `TextRange`.
pub ghost struct TextRangeView {
    pub start: u32,
    pub end: u32,
    pub source: Option<Seq<char>>,
}

impl DeepView for TextRange {
    type V = TextRangeView;

    open spec fn deep_view(&self) -> TextRangeView {
        TextRangeView {
            start: self.start,
            end: self.end,
            source: self.source.deep_view(),
        }
    }
}

impl Clone for TextRange {
    /// The copy has the same view as the original.
    fn clone(&self) -> (r: Self)
        ensures
            r.deep_view() == self.deep_view(),
    {
        TextRange { start: self.start, end: self.end, source: clone_opt_string(&self.source) }
    }
}

/// The closed set of typed edges between nodes.
#[derive(Debug, Clone, Copy, PartialEq, Eq, Structural)]
pub enum RelationshipType {
    ParentChild,
    DependsOn,
    References,
    Supersedes,
    RelatedTo,
    Implements,
    Blocks,
    Mitigates,
}

impl DeepView for RelationshipType {
    type V = RelationshipType;

    open spec fn deep_view(&self) -> RelationshipType {
        *self
    }
}

/// Optional metadata on a relationship edge.
pub struct RelationshipMetadata {
    pub created_at: Option<String>,
    pub created_by: Option<String>,
    pub description: Option<String>,
}

/// Mathematical view of `RelationshipMetadata`.
pub ghost struct RelationshipMetadataView {
    pub created_at: Option<Seq<char>>,
    pub created_by: Option<Seq<char>>,
    pub description: Option<Seq<char>>,
}

impl DeepView for RelationshipMetadata {
    type V = RelationshipMetadataView;

    open spec fn deep_view(&self) -> RelationshipMetadataView {
        RelationshipMetadataView {
            created_at: self.created_at.deep_view(),
            created_by: self.created_by.deep_view(),
            description: self.description.deep_view(),
        }
    }
}

impl Clone for RelationshipMetadata {
    /// The copy has the same view as the original.
    fn clone(&self) -> (r: Self)
        ensures
            r.deep_view() == self.deep_view(),
    {
        RelationshipMetadata {
            created_at: clone_opt_string(&self.created_at),
            created_by: clone_opt_string(&self.created_by),
            description: clone_opt_string(&self.description),
        }
    }
}

/// A typed outbound edge from one node to another.
pub struct NodeRelationship {
    pub relationship_type: RelationshipType,
    pub target: NodeId,
    pub reverse_type: Option<RelationshipType>,
    pub metadata: Option<RelationshipMetadata>,
}

/// Mathematical view of a `NodeRelationship`.
pub ghost struct NodeRelationshipView {
    pub relationship_type: RelationshipType,
    pub target: NodeIdView,
    pub reverse_type: Option<RelationshipType>,
    pub metadata: Option<RelationshipMetadataView>,
}

impl DeepView for NodeRelationship {
    type V = NodeRelationshipView;

    open spec fn deep_view(&self) -> NodeRelationshipView {
        NodeRelationshipView {
            relationship_type: self.relationship_type,
            target: self.target.deep_view(),
            reverse_type: self.reverse_type,
            metadata: self.metadata.deep_view(),
        }
    }
}

impl Clone for NodeRelationship {
    /// The copy has the same view as the original.
    fn clone(&self) -> (r: Self)
        ensures
            r.deep_view() == self.deep_view(),
    {
        NodeRelationship {
            relationship_type: self.relationship_type,
            target: self.target.clone(),
            reverse_type: self.reverse_type,
            metadata: match &self.metadata {
                Option::None => Option::None,
                Option::Some(m) => Option::Some(m.clone()),
            },
        }
    }
}

/// Bookkeeping carried by every node: provenance, versioning and
/// classification.
pub struct NodeMetadata {
    pub created_at: String,
    pub created_by: String,
    pub modified_at: String,
    pub modified_by: String,
    pub tags: Option<Vec<String>>,
    pub implemented_in_commit: Option<String>,
    pub referenced_in_commits: Option<Vec<String>>,
    /// Monotonic version counter, bumped once per successful operation.
    pub version: u32,
    /// Sensitivity classification (default: internal).
    pub sensitivity: Option<Sensitivity>,
    /// SHA-256 hash of the node content as of the last apply.
    pub content_hash: Option<String>,
    pub source_attribution: Option<String>,
    pub ip_classification: Option<String>,
    pub license: Option<String>,
}

/// Mathematical view of `NodeMetadata`.
pub ghost struct NodeMetadataView {
    pub created_at: Seq<char>,
    pub created_by: Seq<char>,
    pub modified_at: Seq<char>,
    pub modified_by: Seq<char>,
    pub tags: Option<Seq<Seq<char>>>,
    pub implemented_in_commit: Option<Seq<char>>,
    pub referenced_in_commits: Option<Seq<Seq<char>>>,
    pub version: u32,
    pub sensitivity: Option<Sensitivity>,
    pub content_hash: Option<Seq<char>>,
    pub source_attribution: Option<Seq<char>>,
    pub ip_classification: Option<Seq<char>>,
    pub license: Option<Seq<char>>,
}

impl DeepView for NodeMetadata {
    type V = NodeMetadataView;

    open spec fn deep_view(&self) -> NodeMetadataView {
        NodeMetadataView {
            created_at: self.created_at.deep_view(),
            created_by: self.created_by.deep_view(),
            modified_at: self.modified_at.deep_view(),
            modified_by: self.modified_by.deep_view(),
            tags: self.tags.deep_view(),
            implemented_in_commit: self.implemented_in_commit.deep_view(),
            referenced_in_commits: self.referenced_in_commits.deep_view(),
            version: self.version,
            sensitivity: self.sensitivity.deep_view(),
            content_hash: self.content_hash.deep_view(),
            source_attribution: self.source_attribution.deep_view(),
            ip_classification: self.ip_classification.deep_view(),
            license: self.license.deep_view(),
        }
    }
}

impl Clone for NodeMetadata {
    /// The copy has the same view as the original.
    fn clone(&self) -> (r: Self)
        ensures
            r.deep_view() == self.deep_view(),
    {
        NodeMetadata {
            created_at: self.created_at.clone(),
            created_by: self.created_by.clone(),
            modified_at: self.modified_at.clone(),
            modified_by: self.modified_by.clone(),
            tags: clone_opt_vec_string(&self.tags),
            implemented_in_commit: clone_opt_string(&self.implemented_in_commit),
            referenced_in_commits: clone_opt_vec_string(&self.referenced_in_commits),
            version: self.version,
            sensitivity: self.sensitivity,
            content_hash: clone_opt_string(&self.content_hash),
            source_attribution: clone_opt_string(&self.source_attribution),
            ip_classification: clone_opt_string(&self.ip_classification),
            license: clone_opt_string(&self.license),
        }
    }
}

/// A context node: one vertex of the truth graph. Type-specific fields are
/// optional and collapse onto this one shape.
pub struct ContextNode {
    pub id: NodeId,
    pub node_type: NodeType,
    pub status: NodeStatus,
    pub title: Option<String>,
    pub description: Option<String>,
    pub content: String,
    pub text_range: Option<TextRange>,
    pub metadata: NodeMetadata,
    pub relationships: Option<Vec<NodeRelationship>>,
    pub relations: Option<Vec<NodeId>>,
    pub referenced_by: Option<Vec<NodeId>>,
    pub source_files: Option<Vec<String>>,
    pub decision: Option<String>,
    pub rationale: Option<String>,
    pub alternatives: Option<Vec<String>>,
    pub decided_at: Option<String>,
    pub state: Option<TaskState>,
    pub assignee: Option<String>,
    pub due_date: Option<String>,
    pub dependencies: Option<Vec<NodeId>>,
    pub severity: Option<RiskSeverity>,
    pub likelihood: Option<RiskLikelihood>,
    pub mitigation: Option<String>,
    pub question: Option<String>,
    pub answer: Option<String>,
    pub answered_at: Option<String>,
    pub constraint: Option<String>,
    pub reason: Option<String>,
}

/// Mathematical view of a `ContextNode`.
pub ghost struct NodeView {
    pub id: NodeIdView,
    pub node_type: NodeType,
    pub status: NodeStatus,
    pub title: Option<Seq<char>>,
    pub description: Option<Seq<char>>,
    pub content: Seq<char>,
    pub text_range: Option<TextRangeView>,
    pub metadata: NodeMetadataView,
    pub relationships: Option<Seq<NodeRelationshipView>>,
    pub relations: Option<Seq<NodeIdView>>,
    pub referenced_by: Option<Seq<NodeIdView>>,
    pub source_files: Option<Seq<Seq<char>>>,
    pub decision: Option<Seq<char>>,
    pub rationale: Option<Seq<char>>,
    pub alternatives: Option<Seq<Seq<char>>>,
    pub decided_at: Option<Seq<char>>,
    pub state: Option<TaskState>,
    pub assignee: Option<Seq<char>>,
    pub due_date: Option<Seq<char>>,
    pub dependencies: Option<Seq<NodeIdView>>,
    pub severity: Option<RiskSeverity>,
    pub likelihood: Option<RiskLikelihood>,
    pub mitigation: Option<Seq<char>>,
    pub question: Option<Seq<char>>,
    pub answer: Option<Seq<char>>,
    pub answered_at: Option<Seq<char>>,
    pub constraint: Option<Seq<char>>,
    pub reason: Option<Seq<char>>,
}

impl NodeView {
    /// The canonical map key of this node.
    pub open spec fn key(self) -> Seq<char> {
        key_of(self.id)
    }
}

impl DeepView for ContextNode {
    type V = NodeView;

    open spec fn deep_view(&self) -> NodeView {
        NodeView {
            id: self.id.deep_view(),
            node_type: self.node_type,
            status: self.status,
            title: self.title.deep_view(),
            description: self.description.deep_view(),
            content: self.content.deep_view(),
            text_range: self.text_range.deep_view(),
            metadata: self.metadata.deep_view(),
            relationships: self.relationships.deep_view(),
            relations: self.relations.deep_view(),
            referenced_by: self.referenced_by.deep_view(),
            source_files: self.source_files.deep_view(),
            decision: self.decision.deep_view(),
            rationale: self.rationale.deep_view(),
            alternatives: self.alternatives.deep_view(),
            decided_at: self.decided_at.deep_view(),
            state: self.state.deep_view(),
            assignee: self.assignee.deep_view(),
            due_date: self.due_date.deep_view(),
            dependencies: self.dependencies.deep_view(),
            severity: self.severity.deep_view(),
            likelihood: self.likelihood.deep_view(),
            mitigation: self.mitigation.deep_view(),
            question: self.question.deep_view(),
            answer: self.answer.deep_view(),
            answered_at: self.answered_at.deep_view(),
            constraint: self.constraint.deep_view(),
            reason: self.reason.deep_view(),
        }
    }
}

impl Clone for ContextNode {
    /// The copy has the same view as the original.
    fn clone(&self) -> (r: Self)
        ensures
            r.deep_view() == self.deep_view(),
    {
        proof {
            assert forall|a: NodeRelationship, b: NodeRelationship| cloned(a, b) implies a.deep_view()
                == b.deep_view() by {}
            assert forall|a: NodeId, b: NodeId| cloned(a, b) implies a.deep_view() == b.deep_view()
            by {}
        }
        ContextNode {
            id: self.id.clone(),
            node_type: self.node_type,
            status: self.status,
            title: clone_opt_string(&self.title),
            description: clone_opt_string(&self.description),
            content: self.content.clone(),
            text_range: match &self.text_range {
                Option::None => Option::None,
                Option::Some(t) => Option::Some(t.clone()),
            },
            metadata: self.metadata.clone(),
            relationships: clone_opt_vec_deep(&self.relationships),
            relations: clone_opt_vec_deep(&self.relations),
            referenced_by: clone_opt_vec_deep(&self.referenced_by),
            source_files: clone_opt_vec_string(&self.source_files),
            decision: clone_opt_string(&self.decision),
            rationale: clone_opt_string(&self.rationale),
            alternatives: clone_opt_vec_string(&self.alternatives),
            decided_at: clone_opt_string(&self.decided_at),
            state: self.state,
            assignee: clone_opt_string(&self.assignee),
            due_date: clone_opt_string(&self.due_date),
            dependencies: clone_opt_vec_deep(&self.dependencies),
            severity: self.severity,
            likelihood: self.likelihood,
            mitigation: clone_opt_string(&self.mitigation),
            question: clone_opt_string(&self.question),
            answer: clone_opt_string(&self.answer),
            answered_at: clone_opt_string(&self.answered_at),
            constraint: clone_opt_string(&self.constraint),
            reason: clone_opt_string(&self.reason),
        }
    }
}

} // verus!

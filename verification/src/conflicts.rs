//! Conflict detection and field-level merge types.

use vstd::prelude::*;

use crate::node::{NodeId, NodeIdView, NodeStatus};
use crate::support::clone_vec_string;

verus! {

/// How severe a conflict between two proposals is.
#[derive(Debug, Clone, Copy, PartialEq, Eq, Structural)]
pub enum ConflictSeverity {
    Field,
    Node,
    Critical,
}

impl DeepView for ConflictSeverity {
    type V = ConflictSeverity;

    open spec fn deep_view(&self) -> ConflictSeverity {
        *self
    }
}

/// The fields of one node over which two proposals disagree.
pub struct NodeFieldConflicts {
    pub node_key: String,
    pub fields: Vec<String>,
}

/// Mathematical view of `NodeFieldConflicts`.
pub ghost struct NodeFieldConflictsView {
    pub node_key: Seq<char>,
    pub fields: Seq<Seq<char>>,
}

impl DeepView for NodeFieldConflicts {
    type V = NodeFieldConflictsView;

    open spec fn deep_view(&self) -> NodeFieldConflictsView {
        NodeFieldConflictsView {
            node_key: self.node_key.deep_view(),
            fields: self.fields.deep_view(),
        }
    }
}

impl Clone for NodeFieldConflicts {
    /// The copy has the same view as the original.
    fn clone(&self) -> (r: Self)
        ensures
            r.deep_view() == self.deep_view(),
    {
        NodeFieldConflicts {
            node_key: self.node_key.clone(),
            fields: clone_vec_string(&self.fields),
        }
    }
}

/// One conflict between two proposals: the pair of proposal ids and the
/// node keys both touch.
pub struct ProposalConflict {
    pub proposals: Vec<String>,
    pub conflicting_nodes: Vec<NodeId>,
    pub conflicting_fields: Option<Vec<NodeFieldConflicts>>,
    pub severity: ConflictSeverity,
    pub auto_resolvable: bool,
}

/// Mathematical view of a `ProposalConflict`.
pub ghost struct ProposalConflictView {
    pub proposals: Seq<Seq<char>>,
    pub conflicting_nodes: Seq<NodeIdView>,
    pub conflicting_fields: Option<Seq<NodeFieldConflictsView>>,
    pub severity: ConflictSeverity,
    pub auto_resolvable: bool,
}

impl DeepView for ProposalConflict {
    type V = ProposalConflictView;

    open spec fn deep_view(&self) -> ProposalConflictView {
        ProposalConflictView {
            proposals: self.proposals.deep_view(),
            conflicting_nodes: self.conflicting_nodes.deep_view(),
            conflicting_fields: self.conflicting_fields.deep_view(),
            severity: self.severity,
            auto_resolvable: self.auto_resolvable,
        }
    }
}

/// The result of conflict detection for one proposal against all other open
/// proposals.
pub struct ConflictDetectionResult {
    pub conflicts: Vec<ProposalConflict>,
    pub mergeable: Vec<String>,
    pub needs_resolution: Vec<String>,
}

/// Mathematical view of a `ConflictDetectionResult`.
pub ghost struct ConflictDetectionResultView {
    pub conflicts: Seq<ProposalConflictView>,
    pub mergeable: Seq<Seq<char>>,
    pub needs_resolution: Seq<Seq<char>>,
}

impl DeepView for ConflictDetectionResult {
    type V = ConflictDetectionResultView;

    open spec fn deep_view(&self) -> ConflictDetectionResultView {
        ConflictDetectionResultView {
            conflicts: self.conflicts.deep_view(),
            mergeable: self.mergeable.deep_view(),
            needs_resolution: self.needs_resolution.deep_view(),
        }
    }
}

/// A value proposed for a node field: free text for `content`, a status for
/// `status`.
#[derive(Debug)]
pub enum MergeValue {
    Text(String),
    Status(NodeStatus),
}

/// Mathematical view of a `MergeValue`.
pub ghost enum MergeValueView {
    Text(Seq<char>),
    Status(NodeStatus),
}

impl DeepView for MergeValue {
    type V = MergeValueView;

    open spec fn deep_view(&self) -> MergeValueView {
        match self {
            MergeValue::Text(s) => MergeValueView::Text(s.deep_view()),
            MergeValue::Status(st) => MergeValueView::Status(*st),
        }
    }
}

impl Clone for MergeValue {
    /// The copy has the same view as the original.
    fn clone(&self) -> (r: Self)
        ensures
            r.deep_view() == self.deep_view(),
    {
        match self {
            MergeValue::Text(s) => MergeValue::Text(s.clone()),
            MergeValue::Status(st) => MergeValue::Status(*st),
        }
    }
}

impl MergeValue {
    /// Whether two proposed values are the same value.
    pub fn same(&self, other: &MergeValue) -> (r: bool)
        ensures
            r == (self.deep_view() == other.deep_view()),
    {
        match (self, other) {
            (MergeValue::Text(a), MergeValue::Text(b)) => crate::text::str_eq(
                a.as_str(),
                b.as_str(),
            ),
            (MergeValue::Status(a), MergeValue::Status(b)) => a == b,
            _ => false,
        }
    }
}

/// A single field-level change proposed for a node.
pub struct FieldChange {
    pub node_id: NodeId,
    pub field: String,
    /// The previous value, when known.
    pub old_value: Option<MergeValue>,
    pub new_value: MergeValue,
}

/// Mathematical view of a `FieldChange`.
pub ghost struct FieldChangeView {
    pub node_id: NodeIdView,
    pub field: Seq<char>,
    pub old_value: Option<MergeValueView>,
    pub new_value: MergeValueView,
}

impl DeepView for FieldChange {
    type V = FieldChangeView;

    open spec fn deep_view(&self) -> FieldChangeView {
        FieldChangeView {
            node_id: self.node_id.deep_view(),
            field: self.field.deep_view(),
            old_value: self.old_value.deep_view(),
            new_value: self.new_value.deep_view(),
        }
    }
}

/// One field on which two proposals propose different values.
pub struct MergeConflictField {
    pub field: String,
    pub node_id: NodeId,
    pub proposal1_value: MergeValue,
    pub proposal2_value: MergeValue,
}

/// Mathematical view of a `MergeConflictField`.
pub ghost struct MergeConflictFieldView {
    pub field: Seq<char>,
    pub node_id: NodeIdView,
    pub proposal1_value: MergeValueView,
    pub proposal2_value: MergeValueView,
}

impl DeepView for MergeConflictField {
    type V = MergeConflictFieldView;

    open spec fn deep_view(&self) -> MergeConflictFieldView {
        MergeConflictFieldView {
            field: self.field.deep_view(),
            node_id: self.node_id.deep_view(),
            proposal1_value: self.proposal1_value.deep_view(),
            proposal2_value: self.proposal2_value.deep_view(),
        }
    }
}

/// The result of a field-level merge attempt across proposals.
pub struct MergeResult {
    pub merged: Vec<FieldChange>,
    pub conflicts: Vec<MergeConflictField>,
    pub auto_merged: Vec<FieldChange>,
}

/// Mathematical view of a `MergeResult`.
pub ghost struct MergeResultView {
    pub merged: Seq<FieldChangeView>,
    pub conflicts: Seq<MergeConflictFieldView>,
    pub auto_merged: Seq<FieldChangeView>,
}

impl DeepView for MergeResult {
    type V = MergeResultView;

    open spec fn deep_view(&self) -> MergeResultView {
        MergeResultView {
            merged: self.merged.deep_view(),
            conflicts: self.conflicts.deep_view(),
            auto_merged: self.auto_merged.deep_view(),
        }
    }
}

} // verus!

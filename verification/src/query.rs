//! Query shapes for nodes and proposals, and their paginated results.

use vstd::prelude::*;

use crate::node::{ContextNode, NodeStatus, NodeType, NodeView};
use crate::proposal::ProposalStatus;

verus! {

/// Sort direction for queries.
#[derive(Debug, Clone, Copy, PartialEq, Eq, Structural)]
pub enum SortOrder {
    Asc,
    Desc,
}

impl DeepView for SortOrder {
    type V = SortOrder;

    open spec fn deep_view(&self) -> SortOrder {
        *self
    }
}

/// A filter over the node graph. Every field is optional; an absent field
/// does not constrain.
pub struct NodeQuery {
    pub node_types: Option<Vec<NodeType>>,
    pub status: Option<Vec<NodeStatus>>,
    /// Case-insensitive substring over content, title and description.
    pub search: Option<String>,
    pub tags: Option<Vec<String>>,
    pub namespace: Option<String>,
    pub created_by: Option<String>,
    pub modified_by: Option<String>,
    pub limit: Option<u32>,
    pub offset: Option<u32>,
    pub sort_by: Option<String>,
    pub sort_order: Option<SortOrder>,
}

/// Mathematical view of a `NodeQuery`.
pub ghost struct NodeQueryView {
    pub node_types: Option<Seq<NodeType>>,
    pub status: Option<Seq<NodeStatus>>,
    pub search: Option<Seq<char>>,
    pub tags: Option<Seq<Seq<char>>>,
    pub namespace: Option<Seq<char>>,
    pub created_by: Option<Seq<char>>,
    pub modified_by: Option<Seq<char>>,
    pub limit: Option<u32>,
    pub offset: Option<u32>,
    pub sort_by: Option<Seq<char>>,
    pub sort_order: Option<SortOrder>,
}

impl DeepView for NodeQuery {
    type V = NodeQueryView;

    open spec fn deep_view(&self) -> NodeQueryView {
        NodeQueryView {
            node_types: self.node_types.deep_view(),
            status: self.status.deep_view(),
            search: self.search.deep_view(),
            tags: self.tags.deep_view(),
            namespace: self.namespace.deep_view(),
            created_by: self.created_by.deep_view(),
            modified_by: self.modified_by.deep_view(),
            limit: self.limit,
            offset: self.offset,
            sort_by: self.sort_by.deep_view(),
            sort_order: self.sort_order,
        }
    }
}

impl Default for NodeQuery {
    /// The unconstrained query.
    fn default() -> (r: Self)
        ensures
            r.deep_view() == (NodeQueryView {
                node_types: None,
                status: None,
                search: None,
                tags: None,
                namespace: None,
                created_by: None,
                modified_by: None,
                limit: None,
                offset: None,
                sort_by: None,
                sort_order: None,
            }),
    {
        NodeQuery {
            node_types: Option::None,
            status: Option::None,
            search: Option::None,
            tags: Option::None,
            namespace: Option::None,
            created_by: Option::None,
            modified_by: Option::None,
            limit: Option::None,
            offset: Option::None,
            sort_by: Option::None,
            sort_order: Option::None,
        }
    }
}

/// One page of node query results.
pub struct NodeQueryResult {
    pub nodes: Vec<ContextNode>,
    pub total: u64,
    pub limit: u32,
    pub offset: u32,
    pub has_more: bool,
}

/// Mathematical view of a `NodeQueryResult`.
pub ghost struct NodeQueryResultView {
    pub nodes: Seq<NodeView>,
    pub total: u64,
    pub limit: u32,
    pub offset: u32,
    pub has_more: bool,
}

impl DeepView for NodeQueryResult {
    type V = NodeQueryResultView;

    open spec fn deep_view(&self) -> NodeQueryResultView {
        NodeQueryResultView {
            nodes: self.nodes.deep_view(),
            total: self.total,
            limit: self.limit,
            offset: self.offset,
            has_more: self.has_more,
        }
    }
}

/// A filter over proposals.
pub struct ProposalQuery {
    pub status: Option<Vec<ProposalStatus>>,
    pub workspace_id: Option<String>,
    pub created_by: Option<String>,
    pub limit: Option<u32>,
    pub offset: Option<u32>,
}

/// Mathematical view of a `ProposalQuery`.
pub ghost struct ProposalQueryView {
    pub status: Option<Seq<ProposalStatus>>,
    pub workspace_id: Option<Seq<char>>,
    pub created_by: Option<Seq<char>>,
    pub limit: Option<u32>,
    pub offset: Option<u32>,
}

impl DeepView for ProposalQuery {
    type V = ProposalQueryView;

    open spec fn deep_view(&self) -> ProposalQueryView {
        ProposalQueryView {
            status: self.status.deep_view(),
            workspace_id: self.workspace_id.deep_view(),
            created_by: self.created_by.deep_view(),
            limit: self.limit,
            offset: self.offset,
        }
    }
}

impl Default for ProposalQuery {
    /// The unconstrained query.
    fn default() -> (r: Self)
        ensures
            r.deep_view() == (ProposalQueryView {
                status: None,
                workspace_id: None,
                created_by: None,
                limit: None,
                offset: None,
            }),
    {
        ProposalQuery {
            status: Option::None,
            workspace_id: Option::None,
            created_by: Option::None,
            limit: Option::None,
            offset: Option::None,
        }
    }
}

} // verus!

//! The server event published to live subscribers after each
//! state-changing request. The broadcast channel that fans these out is
//! transport plumbing and lives outside the library.

use vstd::prelude::*;

use crate::support::clone_opt_string;

verus! {

/// One event on the notification bus.
pub struct ServerEvent {
    /// `proposal_updated`, `review_submitted`, `config_changed` or
    /// `audit_event`.
    pub event_type: String,
    /// The workspace this event belongs to; reserved, not yet populated.
    pub workspace_id: Option<String>,
    /// The resource that changed.
    pub resource_id: String,
    /// Who triggered the change.
    pub actor_id: String,
    /// RFC 3339 timestamp.
    pub timestamp: String,
    /// Optional additional data, as raw JSON text.
    pub data: Option<String>,
}

/// Mathematical view of a `ServerEvent`.
pub ghost struct ServerEventView {
    pub event_type: Seq<char>,
    pub workspace_id: Option<Seq<char>>,
    pub resource_id: Seq<char>,
    pub actor_id: Seq<char>,
    pub timestamp: Seq<char>,
    pub data: Option<Seq<char>>,
}

impl DeepView for ServerEvent {
    type V = ServerEventView;

    open spec fn deep_view(&self) -> ServerEventView {
        ServerEventView {
            event_type: self.event_type.deep_view(),
            workspace_id: self.workspace_id.deep_view(),
            resource_id: self.resource_id.deep_view(),
            actor_id: self.actor_id.deep_view(),
            timestamp: self.timestamp.deep_view(),
            data: self.data.deep_view(),
        }
    }
}

impl Clone for ServerEvent {
    /// The copy has the same view as the original.
    fn clone(&self) -> (r: Self)
        ensures
            r.deep_view() == self.deep_view(),
    {
        ServerEvent {
            event_type: self.event_type.clone(),
            workspace_id: clone_opt_string(&self.workspace_id),
            resource_id: self.resource_id.clone(),
            actor_id: self.actor_id.clone(),
            timestamp: self.timestamp.clone(),
            data: clone_opt_string(&self.data),
        }
    }
}

/// Builds the event published after a state-changing request.
pub fn publishable_event(
    event_type: &str,
    resource_id: &str,
    actor: &crate::auth::ActorContext,
) -> (r: ServerEvent)
    ensures
        r.event_type@ == event_type@,
        r.resource_id@ == resource_id@,
        r.actor_id@ == actor.actor_id@,
        r.workspace_id is None,
        r.data is None,
{
    ServerEvent {
        event_type: event_type.to_owned(),
        workspace_id: Option::None,
        resource_id: resource_id.to_owned(),
        actor_id: actor.actor_id.clone(),
        timestamp: crate::clock::now_rfc3339(),
        data: Option::None,
    }
}

} // verus!

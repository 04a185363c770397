//! RBAC enforcement: the two gates every mutating request passes before it
//! reaches the store.

use vstd::prelude::*;
use vstd::string::StringExecFns;

use crate::auth::{ActorContext, ActorType, Role, roles_grant};

verus! {

/// The error returned when an RBAC check fails.
#[derive(Debug)]
pub struct Forbidden(pub String);

impl DeepView for Forbidden {
    type V = Seq<char>;

    open spec fn deep_view(&self) -> Seq<char> {
        self.0.deep_view()
    }
}

/// Requires the actor to hold at least the given role. Succeeds exactly
/// when some held role ranks at least as high.
pub fn require_role(actor: &ActorContext, role: Role) -> (r: Result<(), Forbidden>)
    ensures
        r is Ok <==> roles_grant(actor.deep_view().roles, role),
        r matches Err(f) ==> f.deep_view() == "insufficient role: "@ + actor.actor_id@,
{
    if actor.has_role(&role) {
        Ok(())
    } else {
        let mut msg = String::new();
        msg.append("insufficient role: ");
        msg.append(actor.actor_id.as_str());
        Err(Forbidden(msg))
    }
}

/// Rejects agents outright: agents may not review or apply.
pub fn reject_agent(actor: &ActorContext, action: &str) -> (r: Result<(), Forbidden>)
    ensures
        r is Ok <==> actor.actor_type != ActorType::Agent,
        r matches Err(f) ==> f.deep_view() == "agents cannot "@ + action@ + ": "@
            + actor.actor_id@,
{
    if actor.actor_type == ActorType::Agent {
        let mut msg = String::new();
        msg.append("agents cannot ");
        msg.append(action);
        msg.append(": ");
        msg.append(actor.actor_id.as_str());
        Err(Forbidden(msg))
    } else {
        Ok(())
    }
}

} // verus!

//! Role hierarchy and actor contexts.

use truthlayer::auth::{ActorContext, ActorType, Role};

#[test]
fn role_hierarchy() {
    assert!(Role::Admin.includes(&Role::Reader));
    assert!(Role::Admin.includes(&Role::Admin));
    assert!(Role::Reviewer.includes(&Role::Contributor));
    assert!(!Role::Reader.includes(&Role::Contributor));
}

#[test]
fn actor_has_role() {
    let actor = ActorContext {
        actor_id: "u1".to_string(),
        actor_type: ActorType::Human,
        roles: vec![Role::Reviewer],
    };
    assert!(actor.has_role(&Role::Reader));
    assert!(actor.has_role(&Role::Reviewer));
    assert!(!actor.has_role(&Role::Admin));
}

#[test]
fn dev_default_is_admin() {
    let actor = ActorContext::dev_default();
    assert!(actor.has_role(&Role::Admin));
    assert_eq!(actor.actor_type, ActorType::Human);
    assert_eq!(actor.actor_id, "dev-user");
}

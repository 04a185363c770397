//! Actor identity and roles. The library consumes a resolved actor context;
//! decoding the wire token that produces one is a transport concern and
//! stays outside.

use vstd::prelude::*;

use crate::support::clone_opt_string;

verus! {

/// Kind of caller: a person, an automated agent, or a system service.
#[derive(Debug, Clone, Copy, PartialEq, Eq, Structural)]
pub enum ActorType {
    Human,
    Agent,
    System,
}

impl DeepView for ActorType {
    type V = ActorType;

    open spec fn deep_view(&self) -> ActorType {
        *self
    }
}

/// The lower-case name of an actor type.
pub open spec fn actor_type_name(t: ActorType) -> Seq<char> {
    match t {
        ActorType::Human => "human"@,
        ActorType::Agent => "agent"@,
        ActorType::System => "system"@,
    }
}

/// The lower-case name of an actor type.
pub fn actor_type_str(t: ActorType) -> (r: &'static str)
    ensures
        r@ == actor_type_name(t),
{
    match t {
        ActorType::Human => "human",
        ActorType::Agent => "agent",
        ActorType::System => "system",
    }
}

/// A role in the RBAC model. Higher roles include lower ones.
#[derive(Debug, Clone, Copy, PartialEq, Eq, Structural)]
pub enum Role {
    Reader,
    Contributor,
    Reviewer,
    Applier,
    Admin,
}

impl DeepView for Role {
    type V = Role;

    open spec fn deep_view(&self) -> Role {
        *self
    }
}

/// Rank of a role in the hierarchy: `Admin` ranks highest, then
/// `Applier`, then the review role, then `Contributor`, then `Reader`.
pub open spec fn role_rank(r: Role) -> int {
    match r {
        Role::Reader => 0,
        Role::Contributor => 1,
        Role::Reviewer => 2,
        Role::Applier => 3,
        Role::Admin => 4,
    }
}

impl Role {
    /// Numeric rank of this role.
    pub fn rank(&self) -> (r: u8)
        ensures
            r as int == role_rank(*self),
    {
        match self {
            Role::Reader => 0,
            Role::Contributor => 1,
            Role::Reviewer => 2,
            Role::Applier => 3,
            Role::Admin => 4,
        }
    }

    /// Whether this role implicitly includes `other`.
    pub fn includes(&self, other: &Role) -> (r: bool)
        ensures
            r == (role_rank(*self) >= role_rank(*other)),
    {
        self.rank() >= other.rank()
    }
}

/// Whether a set of held roles grants `role`: some held role ranks at least
/// as high.
pub open spec fn roles_grant(roles: Seq<Role>, role: Role) -> bool {
    exists|i: int| 0 <= i < roles.len() && role_rank(#[trigger] roles[i]) >= role_rank(role)
}

/// The identity and roles of a caller, as resolved by the transport layer.
pub struct ActorContext {
    pub actor_id: String,
    pub actor_type: ActorType,
    pub roles: Vec<Role>,
}

/// Mathematical view of an `ActorContext`.
pub ghost struct ActorContextView {
    pub actor_id: Seq<char>,
    pub actor_type: ActorType,
    pub roles: Seq<Role>,
}

impl DeepView for ActorContext {
    type V = ActorContextView;

    open spec fn deep_view(&self) -> ActorContextView {
        ActorContextView {
            actor_id: self.actor_id.deep_view(),
            actor_type: self.actor_type,
            roles: self.roles.deep_view(),
        }
    }
}

impl Clone for ActorContext {
    /// The copy has the same view as the original.
    fn clone(&self) -> (r: Self)
        ensures
            r.deep_view() == self.deep_view(),
    {
        let roles = self.roles.clone();
        proof {
            assert(roles.deep_view() =~= self.roles.deep_view());
        }
        ActorContext { actor_id: self.actor_id.clone(), actor_type: self.actor_type, roles }
    }
}

impl ActorContext {
    /// Whether the actor holds the given role, or a higher one.
    pub fn has_role(&self, role: &Role) -> (r: bool)
        ensures
            r == roles_grant(self.deep_view().roles, *role),
    {
        let mut i: usize = 0;
        while i < self.roles.len()
            invariant
                i <= self.roles.len(),
                forall|j: int|
                    0 <= j < i ==> role_rank(#[trigger] self.roles.deep_view()[j]) < role_rank(
                        *role,
                    ),
            decreases self.roles.len() - i,
        {
            if self.roles[i].includes(role) {
                proof {
                    assert(role_rank(self.roles.deep_view()[i as int]) >= role_rank(*role));
                }
                return true;
            }
            proof {
                assert(self.roles.deep_view()[i as int] == self.roles@[i as int]);
            }
            i = i + 1;
        }
        false
    }

    /// The default admin actor used when authentication is disabled.
    pub fn dev_default() -> (r: Self)
        ensures
            r.deep_view().actor_id == "dev-user"@,
            r.deep_view().actor_type == ActorType::Human,
            r.deep_view().roles =~= seq![Role::Admin],
    {
        let mut roles: Vec<Role> = Vec::new();
        roles.push(Role::Admin);
        ActorContext { actor_id: "dev-user".to_owned(), actor_type: ActorType::Human, roles }
    }
}

/// The default actor type a token without one denotes.
pub fn default_actor_type() -> (r: ActorType)
    ensures
        r == ActorType::Human,
{
    ActorType::Human
}

/// The claims carried by a bearer token, already decoded.
pub struct Claims {
    /// Subject: the actor id.
    pub sub: String,
    pub actor_type: ActorType,
    pub roles: Vec<Role>,
    /// Expiration as a Unix timestamp; 0 means no expiration.
    pub exp: u64,
}

/// Authentication configuration: whether it is enforced, and the shared
/// secret when it is.
pub struct AuthConfig {
    /// When true, skip authentication and use the dev default actor.
    pub disabled: bool,
    /// Shared secret for token validation.
    pub secret: Option<String>,
}

impl Clone for AuthConfig {
    /// The copy equals the original.
    fn clone(&self) -> (r: Self)
        ensures
            r.disabled == self.disabled,
            r.secret == self.secret,
    {
        AuthConfig { disabled: self.disabled, secret: clone_opt_string(&self.secret) }
    }
}

} // verus!

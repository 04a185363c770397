//! A governed context store: a versioned graph of context nodes whose every
//! mutation travels as a proposal through review, policy gates, and an atomic
//! apply step that advances a revision counter and appends to an immutable
//! audit log.

pub mod audit;
pub mod auth;
pub mod clock;
pub mod config;
pub mod conflicts;
pub mod events;
pub mod mediator;
pub mod node;
pub mod policy;
pub mod proposal;
pub mod query;
pub mod rbac;
pub mod retention;
pub mod sensitivity;
pub mod store;
pub mod support;
pub mod text;

//! Verified core of a small user-resource HTTP service: route classification
//! and middleware ordering, bearer-token validation and role-based access
//! control, credential-exchange narrowing, selective response-log
//! suppression, and a partial-update command builder, together with a model
//! of the resource store that the request handlers are proved against.

pub mod auth;
pub mod claims;
pub mod config;
pub mod handlers;
pub mod ids;
pub mod pipeline;
pub mod policy;
pub mod store;
pub mod text;
pub mod token;
pub mod update;

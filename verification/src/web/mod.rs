//! Web layer decisions: access control, request classification and the
//! login outcome.

pub mod auth;
pub mod handlers;

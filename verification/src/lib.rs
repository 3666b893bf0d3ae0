//! Authorization and session core of a multi-tenant invoicing backend:
//! a catalog of organization scopes, an in-memory store of users, sessions
//! and organization memberships, and the access decision built on them.

pub mod access;
pub mod api;
pub mod clock;
pub mod config;
pub mod error;
pub mod hashing;
pub mod ident;
pub mod laws;
pub mod model;
pub mod org;
pub mod scope;
pub mod store;
pub mod table;
pub mod user;

//! An OAuth2-style authorization server core: credential hashing, a user
//! directory, a client registry, the authorization-grant state machine and
//! token introspection, all over an in-memory model of the datastore.
pub mod api;
pub mod auth;
pub mod config;
pub mod directory;
pub mod error;
pub mod grant;
pub mod hash;
pub mod model;
pub mod scope;

//! The request and response bodies of the HTTP endpoints, and the handlers that
//! turn them into operations on the datastore.
pub mod clients;
pub mod login;
pub mod register;

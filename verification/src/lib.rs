//! Requests and replies of a Subsonic server's jukebox and playlist API.
//!
//! The crate performs no I/O. Each remote operation is offered in two halves:
//! a function that builds the [`query::Request`] to send, and a function that
//! decodes the [`json::Json`] document the server answered with. The caller
//! carries the request to the server and the answer back.

pub mod decimal;
pub mod error;
pub mod json;
pub mod jukebox;
pub mod playlist;
pub mod query;
pub mod record;
pub mod song;

//! Client-side logic for managing the users of a hosted identity provider.
//!
//! The library decides and describes; it sends nothing and touches no file.
//! [`config`] is the credential store: application profiles by name, each
//! with the access token that was last fetched for it. [`token`] says how
//! long a cached token may be used and how a new one is asked for.
//! [`auth0_api`] is the client: it supplies the token from the store, builds
//! the requests that list, create and delete users, and lays out the work of
//! a bulk delete. [`user`] selects users by pattern, [`command`] settles what
//! a delete command names, and [`request`] is the shape of a request.
//! [`text`] and [`text_map`] are the substring search and the keyed store
//! that the others rest on.

pub mod auth0_api;
pub mod command;
pub mod config;
pub mod request;
pub mod text;
pub mod text_map;
pub mod token;
pub mod user;

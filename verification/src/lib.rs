//! A no-I/O state engine for a Matrix client.
//!
//! The engine ingests sync responses, given to it as plain data, and folds
//! them into an in-memory model of rooms, members, timelines and account
//! data. It performs no network or disk I/O itself: a host fetches the
//! responses, performs the cryptographic operations the engine asks for, and
//! delivers the broadcasts the engine emits.

pub mod ambiguity;
pub mod changes;
pub mod client;
pub mod error;
pub mod events;
pub mod kmap;
pub mod push;
pub mod required_states;
pub mod response;
pub mod room;
pub mod store;
pub mod timeline;
pub mod util;

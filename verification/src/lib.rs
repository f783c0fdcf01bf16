//! Client-side routing and encoding for a distributed compute/storage
//! cluster reached over HTTP. Callers name a logical resource; the
//! cluster redirects to the node currently serving it and advertises
//! the serving topology in response headers.
//!
//! The crate's parts:
//! - `text`: verified text utilities (decimal rendering, port
//!   parsing, slash trimming) that the wire format and URL logic
//!   rest on;
//! - `wire`: the tree-shaped wire value request bodies are built from;
//! - `builder`: the typed-value encoders and the query/append builders;
//! - `cache`: the per-resource topology cache;
//! - `client`: the routing client — a state machine that resolves a
//!   resource to an endpoint and follows redirects up to a bound;
//! - `model`: the specification-level model of a routed operation,
//!   with the proofs about whole redirect runs;
//! - `trusted`: the declarations and wrappers for the outside calls
//!   (URL parsing and rewriting, JSON header parsing, randomness)
//!   that the contracts rest on.
//!
//! The HTTP transport itself stays outside: it drives `begin_request`,
//! `next_target` and `handle_response` in a loop and only moves bytes.

pub mod builder;
pub mod cache;
pub mod client;
pub mod model;
pub mod text;
pub mod trusted;
pub mod wire;

pub use client::{Client, ClientError, RequestAttempt, ResponseDirective};

//! Coordination core for streamed, suspendable rendering: per-boundary
//! tracking of asynchronous reads, fragment registration and out-of-band
//! delivery, client-side resumption, a registry of server functions, and a
//! coalescing broadcast channel for live updates.

pub mod boundary;
pub mod broadcast;
pub mod declaration;
pub mod document;
pub mod dom;
pub mod form;
pub mod fragment;
pub mod reply;
pub mod server_fn;
pub mod stream;
pub mod suspense;
pub mod text;

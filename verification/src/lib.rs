//! An in-memory registry of messages with create/read/update/delete
//! operations keyed by a generated identifier, together with a bounded,
//! non-blocking broadcast of newly stored messages to live subscribers.
//!
//! The registry is the single source of truth for which messages exist and
//! what they currently say. A durable send to an upstream broker is expected
//! to precede every commit; the contracts here state exactly how each
//! operation changes the registry for every possible send outcome.

pub mod decode;
pub mod feed;
pub mod registry;
pub mod service;

pub use registry::Message;
pub use registry::Registry;
pub use registry::RegistryError;
pub use service::Service;

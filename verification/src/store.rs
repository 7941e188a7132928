//! The persistence interface (`Store`) and the bundled backends.
//!
//! The control plane never talks to a database directly; the host injects a
//! `Store`. The in-memory backend is the reference behaviour; the file-backed
//! one answers as it does and hands out the snapshot document that its file
//! is to hold.

pub mod types;
pub mod error;
pub mod document;
pub mod model;
pub mod expiry;
pub mod traits;
pub mod memory;
pub mod file;

pub use document::StoreDocument;
pub use error::StoreError;
pub use file::{FileStore, Format};
pub use memory::MemoryStore;
pub use traits::Store;



pub use types::{Network, NetworkId, Node, NodeId, PreAuthKey, PreAuthKeyId, User, UserId};

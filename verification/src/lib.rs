//! An embeddable Tailscale control server core: wire constants, key types,
//! the TS2021 responder handshake logic, the persistence interface with its
//! in-memory and file-backed stores, and the embedding API.

use vstd::prelude::*;

pub mod keys;
pub mod tailcfg;
pub mod handshake;
pub mod early_noise;
pub mod framed_io;
pub mod store;
pub mod server;
pub mod api;

verus! {

} // verus!

//! Wire-protocol constants and the server-emitted key-exchange messages.

use vstd::prelude::*;
use crate::keys::{ChallengePublicKey, MachinePublicKey};

verus! {

/// Minimum Tailscale client capability version accepted by this server
/// (113 corresponds to Tailscale v1.80). Clients below it are rejected.
pub const MIN_SUPPORTED_CAPABILITY_VERSION: u16 = 113;

/// HTTP route: Noise public key discovery.
pub const PATH_KEY: &'static str = "/key";

/// HTTP route: TS2021 Noise handshake upgrade.
pub const PATH_TS2021: &'static str = "/ts2021";

/// HTTP route: node registration (inside the Noise HTTP/2 tunnel).
pub const PATH_MACHINE_REGISTER: &'static str = "/machine/register";

/// HTTP route: long-poll network map stream (inside the Noise HTTP/2 tunnel).
pub const PATH_MACHINE_MAP: &'static str = "/machine/map";

/// `Upgrade` header token for the TS2021 handshake. "TS2021" is only the
/// informal protocol name and URL path; it never appears on the wire.
pub const UPGRADE_TS2021: &'static str = "tailscale-control-protocol";

/// EarlyNoise frame magic: the five bytes `\xff\xff\xffTS`.
pub const EARLY_NOISE_MAGIC: [u8; 5] = [0xFF, 0xFF, 0xFF, 0x54, 0x53];

/// Long-poll keepalive interval sent to connected clients, in seconds.
pub const KEEPALIVE_INTERVAL_SECS: u64 = 50;

/// The EarlyNoise magic as a sequence.
pub open spec fn early_noise_magic() -> Seq<u8> {
    seq![0xFFu8, 0xFFu8, 0xFFu8, 0x54u8, 0x53u8]
}

/// Response body of `GET /key`: the server's Noise static key, with the
/// deprecated pre-Noise key present but zeroed.
#[derive(Clone, Copy, Debug, PartialEq, Eq)]
pub struct OverTLSPublicKeyResponse {
    /// Deprecated pre-Noise control key, emitted as the zero key.
    pub legacy_public_key: MachinePublicKey,
    /// The server's current Noise static public key.
    pub public_key: MachinePublicKey,
}

impl OverTLSPublicKeyResponse {
    /// A response advertising `public_key`, with the legacy key zeroed.
    pub fn new(public_key: MachinePublicKey) -> (r: Self)
        ensures
            r.public_key == public_key,
            r.legacy_public_key.0@ == Seq::new(32, |i: int| 0u8),
    {
        OverTLSPublicKeyResponse { legacy_public_key: MachinePublicKey::zero(), public_key }
    }
}

/// The frame the server writes into the encrypted channel right after the
/// handshake: the per-handshake challenge key the node must prove against.
#[derive(Clone, Copy, Debug, PartialEq, Eq)]
pub struct EarlyNoise {
    pub node_key_challenge: ChallengePublicKey,
}

} // verus!

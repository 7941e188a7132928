//! The decisions of the HTTP edge: what `GET /key` advertises and how
//! `POST /ts2021` is answered before the connection is handed to the Noise
//! handshake.

use vstd::prelude::*;
use crate::handshake::NoiseError;
use crate::keys::{MachineKeyPair, MachinePrivateKey};
use crate::store::traits::{Store, StoreBackend};
use crate::tailcfg::{OverTLSPublicKeyResponse, UPGRADE_TS2021};

verus! {

/// Errors raised while binding/serving or driving a Noise connection.
#[derive(Debug)]
pub enum ServerError {
    /// Listener bind or accept failure.
    Io,
    /// Noise handshake failure on an upgraded connection.
    Noise(NoiseError),
    /// HTTP/2-over-Noise connection error, with its description.
    Http2(String),
}

/// Server state: the server's long-lived Noise static identity and its
/// persistence backend. The HTTP edge shares one state among its handlers.
pub struct ServerState {
    server_key: MachineKeyPair,
    store: StoreBackend,
}

impl ServerState {
    /// The server's key pair.
    pub closed spec fn key(&self) -> MachineKeyPair {
        self.server_key
    }

    /// The persistence backend.
    pub closed spec fn store_spec(&self) -> StoreBackend {
        self.store
    }

    /// Server state around the given Noise static key pair and backend.
    pub fn new(server_key: MachineKeyPair, store: StoreBackend) -> (s: Self)
        ensures
            s.key() == server_key,
            s.store_spec() == store,
    {
        ServerState { server_key, store }
    }

    /// The persistence backend: the one the state was made with.
    pub fn store(&self) -> (s: &Box<dyn Store>)
        ensures
            *s == self.store_spec().store,
    {
        &self.store.store
    }

    /// The persistence backend, to write to it; the state holds afterwards
    /// whatever was written through the reference.
    pub fn store_mut(&mut self) -> (s: &mut Box<dyn Store>)
        ensures
            *s == old(self).store_spec().store,
            final(self).store_spec().store == *final(s),
            final(self).key() == old(self).key(),
    {
        &mut self.store.store
    }

    /// The body of `GET /key`: the server's public key, the legacy key zeroed.
    pub fn key_response(&self) -> (r: OverTLSPublicKeyResponse)
        ensures
            r.public_key == self.key().public,
            r.legacy_public_key.0@ == Seq::new(32, |i: int| 0u8),
    {
        OverTLSPublicKeyResponse::new(self.server_key.public)
    }

    /// The private key the handshake responder runs with.
    pub fn server_private(&self) -> (k: MachinePrivateKey)
        ensures
            k == self.key().private,
    {
        self.server_key.private
    }
}

/// How a `POST /ts2021` request is answered.
pub enum UpgradeDecision {
    /// `101 Switching Protocols`; the handshake runs with this initiation.
    SwitchProtocols { initiation_b64: String },
    /// `500`: the `Upgrade` header is missing or empty.
    MissingUpgrade,
    /// `400`: the `X-Tailscale-Handshake` header is missing or not text.
    MissingHandshake,
}

/// Decides a `POST /ts2021` request from its `Upgrade` header (raw bytes) and
/// its `X-Tailscale-Handshake` header (as text, where it is text). Only the
/// presence of a non-empty `Upgrade` value is required, not its token.
pub fn ts2021_upgrade(upgrade: Option<&[u8]>, handshake: Option<&str>) -> (d: UpgradeDecision)
    ensures
        match d {
            UpgradeDecision::MissingUpgrade => !(upgrade matches Some(u) && u@.len() > 0),
            UpgradeDecision::MissingHandshake => (upgrade matches Some(u) && u@.len() > 0)
                && handshake is None,
            UpgradeDecision::SwitchProtocols { initiation_b64 } => (upgrade matches Some(u)
                && u@.len() > 0) && (handshake matches Some(h) && initiation_b64@ == h@),
        },
{
    let has_upgrade = match upgrade {
        Some(u) => u.len() > 0,
        None => false,
    };
    if !has_upgrade {
        return UpgradeDecision::MissingUpgrade;
    }
    match handshake {
        Some(h) => UpgradeDecision::SwitchProtocols { initiation_b64: h.to_owned() },
        None => UpgradeDecision::MissingHandshake,
    }
}

impl UpgradeDecision {
    /// The HTTP status code of the answer.
    pub fn status(&self) -> (code: u16)
        ensures
            code == match self {
                UpgradeDecision::SwitchProtocols { .. } => 101u16,
                UpgradeDecision::MissingUpgrade => 500u16,
                UpgradeDecision::MissingHandshake => 400u16,
            },
    {
        match self {
            UpgradeDecision::SwitchProtocols { .. } => 101,
            UpgradeDecision::MissingUpgrade => 500,
            UpgradeDecision::MissingHandshake => 400,
        }
    }

    /// The plain-text body of a refusal; empty when switching protocols.
    pub fn body(&self) -> (text: &'static str)
        ensures
            text@ == match self {
                UpgradeDecision::SwitchProtocols { .. } => ""@,
                UpgradeDecision::MissingUpgrade => "missing upgrade header"@,
                UpgradeDecision::MissingHandshake => "missing handshake header"@,
            },
    {
        match self {
            UpgradeDecision::SwitchProtocols { .. } => "",
            UpgradeDecision::MissingUpgrade => "missing upgrade header",
            UpgradeDecision::MissingHandshake => "missing handshake header",
        }
    }

    /// The `Upgrade` header value of the answer, when switching protocols.
    pub fn upgrade_token(&self) -> (token: Option<&'static str>)
        ensures
            match self {
                UpgradeDecision::SwitchProtocols { .. } => token == Some(UPGRADE_TS2021),
                _ => token is None,
            },
    {
        match self {
            UpgradeDecision::SwitchProtocols { .. } => Some(UPGRADE_TS2021),
            _ => None,
        }
    }
}

} // verus!

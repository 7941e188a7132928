//! The embedding API: tenant routing, control-plane events, and the builder
//! and handle of a control server.

use vstd::prelude::*;
use crate::keys::{machine_public_key_of, MachineKeyPair, MachinePublicKey};
use crate::server::{ServerError, ServerState};
use crate::store::memory::MemoryStore;
use crate::store::traits::{boxed_backend, Store, StoreBackend};
use crate::store::types::{NetworkId, NodeId};

verus! {

/// Control-plane events surfaced to the host application.
#[derive(Debug, Clone, Copy, PartialEq, Eq, Structural)]
pub enum Event {
    NodeOnline { network: NetworkId, node: NodeId },
    NodeOffline { network: NetworkId, node: NodeId },
    NodeRegistered { network: NetworkId, node: NodeId },
}

/// How incoming requests are mapped to a network. Several strategies may be
/// enabled at once; the first that matches wins.
#[derive(Debug, Clone, Copy, PartialEq, Eq, Structural)]
pub struct TenantRouting {
    pub subdomain: bool,
    pub path_prefix: bool,
    pub optional_mtls: bool,
}

impl TenantRouting {
    /// Subdomain tenancy (`tenant1.ctl.example.com`): works with all clients.
    pub fn subdomain() -> (r: Self)
        ensures
            r == (TenantRouting { subdomain: true, path_prefix: false, optional_mtls: false }),
    {
        TenantRouting { subdomain: true, path_prefix: false, optional_mtls: false }
    }

    /// Path-prefix tenancy (`/tenant1/key`): needs a patched client.
    pub fn path_prefix() -> (r: Self)
        ensures
            r == (TenantRouting { subdomain: false, path_prefix: true, optional_mtls: false }),
    {
        TenantRouting { subdomain: false, path_prefix: true, optional_mtls: false }
    }

    /// All three strategies enabled; the first match wins.
    pub fn all() -> (r: Self)
        ensures
            r == (TenantRouting { subdomain: true, path_prefix: true, optional_mtls: true }),
    {
        TenantRouting { subdomain: true, path_prefix: true, optional_mtls: true }
    }
}

impl Default for TenantRouting {
    /// No strategy enabled.
    fn default() -> (r: Self)
        ensures
            r == (TenantRouting { subdomain: false, path_prefix: false, optional_mtls: false }),
    {
        TenantRouting { subdomain: false, path_prefix: false, optional_mtls: false }
    }
}

/// Errors of building and serving a control server.
#[derive(Debug)]
pub enum ApiError {
    /// No persistence backend configured.
    MissingStore,
    /// The listener could not be bound on this address.
    Bind { addr: String },
    /// The control server stopped with an error.
    Serve(ServerError),
}

/// Default listen address when none is configured.
pub const DEFAULT_LISTEN: &'static str = "0.0.0.0:8080";

/// Builder for a `ControlServer`.
pub struct ControlServerBuilder {
    store: Option<StoreBackend>,
    listen: Option<String>,
    tenant_routing: TenantRouting,
    server_key: Option<MachineKeyPair>,
}

impl ControlServerBuilder {
    /// The configured persistence backend, if any.
    pub closed spec fn store_spec(&self) -> Option<StoreBackend> {
        self.store
    }

    /// The configured listen address, if any.
    pub closed spec fn listen_spec(&self) -> Option<Seq<char>> {
        match self.listen {
            Some(l) => Some(l@),
            None => None,
        }
    }

    /// The configured tenant routing.
    pub closed spec fn routing_spec(&self) -> TenantRouting {
        self.tenant_routing
    }

    /// The configured server key pair, if any.
    pub closed spec fn key_spec(&self) -> Option<MachineKeyPair> {
        self.server_key
    }

    /// A builder with nothing configured and no tenant routing strategy.
    pub fn new() -> (b: Self)
        ensures
            b.store_spec() is None,
            b.listen_spec() is None,
            b.routing_spec() == (TenantRouting { subdomain: false, path_prefix: false, optional_mtls: false }),
            b.key_spec() is None,
    {
        ControlServerBuilder {
            store: None,
            listen: None,
            tenant_routing: TenantRouting::default(),
            server_key: None,
        }
    }

    /// Injects the persistence backend.
    pub fn store<S: Store + 'static>(self, store: S) -> (b: Self)
        ensures
            b.store_spec() is Some,
            b.store_spec()->Some_0.store == boxed_backend(store),
            b.listen_spec() == self.listen_spec(),
            b.routing_spec() == self.routing_spec(),
            b.key_spec() == self.key_spec(),
    {
        ControlServerBuilder { store: Some(StoreBackend::new(store)), ..self }
    }

    /// Uses a fresh in-memory store as the backend.
    pub fn memory_store(self) -> (b: Self)
        ensures
            b.store_spec() is Some,
            exists|m: MemoryStore|
                #![trigger boxed_backend(m)]
                m.is_empty() && b.store_spec()->Some_0.store == boxed_backend(m),
            b.listen_spec() == self.listen_spec(),
            b.routing_spec() == self.routing_spec(),
            b.key_spec() == self.key_spec(),
    {
        let m = MemoryStore::new();
        let ghost fresh = m;
        let backend = StoreBackend::new(m);
        assert(fresh.is_empty() && backend.store == boxed_backend(fresh));
        ControlServerBuilder { store: Some(backend), ..self }
    }

    /// Sets the listen address.
    pub fn listen(self, addr: String) -> (b: Self)
        ensures
            b.listen_spec() == Some(addr@),
            b.store_spec() == self.store_spec(),
            b.routing_spec() == self.routing_spec(),
            b.key_spec() == self.key_spec(),
    {
        ControlServerBuilder { listen: Some(addr), ..self }
    }

    /// Sets the tenant routing strategies.
    pub fn tenant_routing(self, routing: TenantRouting) -> (b: Self)
        ensures
            b.routing_spec() == routing,
            b.store_spec() == self.store_spec(),
            b.listen_spec() == self.listen_spec(),
            b.key_spec() == self.key_spec(),
    {
        ControlServerBuilder { tenant_routing: routing, ..self }
    }

    /// Supplies the server's long-lived Noise static identity. If unset, a
    /// fresh random key pair is generated when the server is built.
    pub fn server_key(self, key: MachineKeyPair) -> (b: Self)
        ensures
            b.key_spec() == Some(key),
            b.store_spec() == self.store_spec(),
            b.listen_spec() == self.listen_spec(),
            b.routing_spec() == self.routing_spec(),
    {
        ControlServerBuilder { server_key: Some(key), ..self }
    }

    /// Builds the server: a store is required; the listen address defaults
    /// to `0.0.0.0:8080`.
    pub fn build(self) -> (r: Result<ControlServer, ApiError>)
        ensures
            match r {
                Err(e) => self.store_spec() is None && e is MissingStore,
                Ok(server) => self.store_spec() is Some && server.store_spec()
                    == self.store_spec()->Some_0 && server.listen_spec()
                    == (match self.listen_spec() {
                    Some(l) => l,
                    None => DEFAULT_LISTEN@,
                }) && (self.key_spec() matches Some(k) ==> server.key_spec() == k) && (self.key_spec() is None
                    ==> server.key_spec().public.0@ == machine_public_key_of(
                    server.key_spec().private.0@,
                )),
            },
    {
        let store = match self.store {
            Some(store) => store,
            None => return Err(ApiError::MissingStore),
        };
        let _tenant_routing = self.tenant_routing;
        let listen = match self.listen {
            Some(l) => l,
            None => DEFAULT_LISTEN.to_owned(),
        };
        let server_key = match self.server_key {
            Some(k) => k,
            None => MachineKeyPair::random(),
        };
        Ok(ControlServer { store, listen, server_key })
    }
}

impl Default for ControlServerBuilder {
    fn default() -> (b: Self)
        ensures
            b.store_spec() is None,
            b.listen_spec() is None,
            b.routing_spec() == (TenantRouting { subdomain: false, path_prefix: false, optional_mtls: false }),
            b.key_spec() is None,
    {
        ControlServerBuilder::new()
    }
}

/// An embeddable control server handle.
pub struct ControlServer {
    store: StoreBackend,
    listen: String,
    server_key: MachineKeyPair,
}

impl ControlServer {
    /// The persistence backend.
    pub closed spec fn store_spec(&self) -> StoreBackend {
        self.store
    }

    /// The listen address.
    pub closed spec fn listen_spec(&self) -> Seq<char> {
        self.listen@
    }

    /// The server's Noise static key pair.
    pub closed spec fn key_spec(&self) -> MachineKeyPair {
        self.server_key
    }

    /// A builder with nothing configured.
    pub fn builder() -> (b: ControlServerBuilder)
        ensures
            b.store_spec() is None,
            b.listen_spec() is None,
            b.routing_spec() == (TenantRouting { subdomain: false, path_prefix: false, optional_mtls: false }),
            b.key_spec() is None,
    {
        ControlServerBuilder::new()
    }

    /// The persistence backend: the one the server was built with.
    pub fn store(&self) -> (s: &Box<dyn Store>)
        ensures
            *s == self.store_spec().store,
    {
        &self.store.store
    }

    /// The persistence backend, to write to it: the server's own, which
    /// holds afterwards whatever was written through the reference.
    pub fn store_mut(&mut self) -> (s: &mut Box<dyn Store>)
        ensures
            *s == old(self).store_spec().store,
            final(self).store_spec().store == *final(s),
            final(self).listen_spec() == old(self).listen_spec(),
            final(self).key_spec() == old(self).key_spec(),
    {
        &mut self.store.store
    }

    /// The server's Noise static public key: what `GET /key` advertises.
    pub fn server_public_key(&self) -> (k: MachinePublicKey)
        ensures
            k == self.key_spec().public,
    {
        self.server_key.public
    }

    /// The configured listen address.
    pub fn listen_addr(&self) -> (a: &str)
        ensures
            a@ == self.listen_spec(),
    {
        self.listen.as_str()
    }

    /// The state the HTTP edge serves with: the server's key pair and its
    /// persistence backend, handed over.
    pub fn server_state(self) -> (s: ServerState)
        ensures
            s.key() == self.key_spec(),
            s.store_spec() == self.store_spec(),
    {
        ServerState::new(self.server_key, self.store)
    }
}

/// A call on a builder.
pub enum BuilderCall {
    Listen,
    TenantRouting,
    ServerKey,
    Store,
    MemoryStore,
}

/// What each builder method's contract says of the backend: `store` and
/// `memory_store` set one, the other methods keep what was set.
pub open spec fn backend_step(before: ControlServerBuilder, call: BuilderCall, after: ControlServerBuilder) -> bool {
    match call {
        BuilderCall::Store | BuilderCall::MemoryStore => after.store_spec() is Some,
        _ => after.store_spec() == before.store_spec(),
    }
}

/// A builder made by `new` and then any sequence of calls has a backend,
/// and so builds (rather than failing with `MissingStore`), exactly when
/// the sequence holds a `store` or a `memory_store` call.
pub proof fn lemma_build_needs_a_store_call(builders: Seq<ControlServerBuilder>, calls: Seq<BuilderCall>)
    requires
        builders.len() == calls.len() + 1,
        builders[0].store_spec() is None,
        forall|i: int| 0 <= i < calls.len() ==> #[trigger] backend_step(builders[i], calls[i], builders[i + 1]),
    ensures
        builders.last().store_spec() is Some <==> exists|i: int|
            0 <= i < calls.len() && (#[trigger] calls[i] is Store || calls[i] is MemoryStore),
    decreases calls.len(),
{
    if calls.len() > 0 {
        let n = calls.len() - 1;
        let init_b = builders.drop_last();
        let init_c = calls.drop_last();
        assert forall|i: int| 0 <= i < init_c.len() implies #[trigger] backend_step(
            init_b[i],
            init_c[i],
            init_b[i + 1],
        ) by {
            assert(backend_step(builders[i], calls[i], builders[i + 1]));
        }
        lemma_build_needs_a_store_call(init_b, init_c);
        assert(backend_step(builders[n], calls[n], builders[n + 1]));
        assert(init_b.last() == builders[n]);
        if !(calls[n] is Store || calls[n] is MemoryStore) {
            if exists|i: int| 0 <= i < calls.len() && (#[trigger] calls[i] is Store || calls[i] is MemoryStore) {
                let i = choose|i: int| 0 <= i < calls.len() && (#[trigger] calls[i] is Store || calls[i] is MemoryStore);
                assert(init_c[i] == calls[i]);
            }
        } else {
            assert(calls[n] is Store || calls[n] is MemoryStore);
        }
        if exists|i: int| 0 <= i < init_c.len() && (#[trigger] init_c[i] is Store || init_c[i] is MemoryStore) {
            let i = choose|i: int| 0 <= i < init_c.len() && (#[trigger] init_c[i] is Store || init_c[i] is MemoryStore);
            assert(calls[i] == init_c[i]);
        }
    }
}

} // verus!

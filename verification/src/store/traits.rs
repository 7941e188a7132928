use vstd::prelude::*;
use super::error::StoreError;
use super::memory::{node_views, preauth_key_views};
use super::model::{
    consumed, lookup, network_key, node_in, node_key, node_not, preauth_key_in, preauth_key_key,
    upserted, user_in, user_key,
};
use super::types::{
    Network, NetworkId, Node, NodeId, NodeView, PreAuthKey, PreAuthKeyId, PreAuthKeyView, User,
};

verus! {

/// What a store holds, as values: records in insertion order (looked up by
/// the first with a given id) and the text of each network's policy.
pub struct StoreContents {
    pub networks: Seq<Network>,
    pub users: Seq<User>,
    pub nodes: Seq<NodeView>,
    pub preauth_keys: Seq<PreAuthKeyView>,
    pub policies: Map<u64, Seq<char>>,
}

/// The durable persistence interface. The control plane owns a `Store`; the host
/// picks the backend or implements this trait itself. Every backend answers
/// over its contents as the in-memory one does; where a call fails
/// (`Err`), nothing is promised of it.
pub trait Store: Send + Sync + 'static {
    /// What the store holds.
    spec fn contents(&self) -> StoreContents;

    // --- Networks ---
    fn list_networks(&self) -> (r: Result<Vec<Network>, StoreError>)
        ensures
            r matches Ok(v) ==> v@ == self.contents().networks,
    ;

    fn upsert_network(&mut self, net: &Network) -> (r: Result<(), StoreError>)
        ensures
            r is Ok ==> final(self).contents() == (StoreContents {
                networks: upserted(old(self).contents().networks, *net, network_key()),
                ..old(self).contents()
            }),
    ;

    // --- Users ---
    fn list_users(&self, network: NetworkId) -> (r: Result<Vec<User>, StoreError>)
        ensures
            r matches Ok(v) ==> v@ == self.contents().users.filter(user_in(network)),
    ;

    fn upsert_user(&mut self, user: &User) -> (r: Result<(), StoreError>)
        ensures
            r is Ok ==> final(self).contents() == (StoreContents {
                users: upserted(old(self).contents().users, *user, user_key()),
                ..old(self).contents()
            }),
    ;

    // --- Nodes ---
    fn list_nodes(&self, network: NetworkId) -> (r: Result<Vec<Node>, StoreError>)
        ensures
            r matches Ok(v) ==> node_views(v@) == self.contents().nodes.filter(node_in(network)),
    ;

    fn get_node(&self, id: NodeId) -> (r: Result<Option<Node>, StoreError>)
        ensures
            r matches Ok(found) ==> match found {
                Some(n) => lookup(self.contents().nodes, node_key(), id.0) == Some(n@),
                None => lookup(self.contents().nodes, node_key(), id.0) is None,
            },
    ;

    fn upsert_node(&mut self, node: &Node) -> (r: Result<(), StoreError>)
        ensures
            r is Ok ==> final(self).contents() == (StoreContents {
                nodes: upserted(old(self).contents().nodes, node@, node_key()),
                ..old(self).contents()
            }),
    ;

    fn delete_node(&mut self, id: NodeId) -> (r: Result<(), StoreError>)
        ensures
            r is Ok ==> final(self).contents() == (StoreContents {
                nodes: old(self).contents().nodes.filter(node_not(id.0)),
                ..old(self).contents()
            }),
    ;

    // --- Pre-auth keys ---
    fn list_preauth_keys(&self, network: NetworkId) -> (r: Result<Vec<PreAuthKey>, StoreError>)
        ensures
            r matches Ok(v) ==> preauth_key_views(v@) == self.contents().preauth_keys.filter(
                preauth_key_in(network),
            ),
    ;

    fn upsert_preauth_key(&mut self, key: &PreAuthKey) -> (r: Result<(), StoreError>)
        ensures
            r is Ok ==> final(self).contents() == (StoreContents {
                preauth_keys: upserted(old(self).contents().preauth_keys, key@, preauth_key_key()),
                ..old(self).contents()
            }),
    ;

    /// Single-use consumption: `true` iff this call flipped an unused,
    /// non-reusable, unexpired key to used, at the time of the call.
    fn consume_preauth_key(&mut self, id: PreAuthKeyId) -> (r: Result<bool, StoreError>)
        ensures
            r matches Ok(b) ==> exists|now: u64| #[trigger]
                consumed(old(self).contents().preauth_keys, id.0, now) == (
                    final(self).contents().preauth_keys,
                    b,
                ) && final(self).contents() == (StoreContents {
                    preauth_keys: final(self).contents().preauth_keys,
                    ..old(self).contents()
                }),
    ;

    // --- Policy ---
    fn get_policy(&self, network: NetworkId) -> (r: Result<Option<String>, StoreError>)
        ensures
            r matches Ok(p) ==> match p {
                Some(text) => self.contents().policies.contains_key(network.0) && text@
                    == self.contents().policies[network.0],
                None => !self.contents().policies.contains_key(network.0),
            },
    ;

    fn set_policy(&mut self, network: NetworkId, policy: &str) -> (r: Result<(), StoreError>)
        ensures
            r is Ok ==> final(self).contents() == (StoreContents {
                policies: old(self).contents().policies.insert(network.0, policy@),
                ..old(self).contents()
            }),
    ;
}

/// A persistence backend as a server owns it. A trait object is only ever
/// compared through this wrapper, so that which backend a server holds can
/// be stated.
pub struct StoreBackend {
    pub store: Box<dyn Store>,
}

/// A store, boxed as a trait object.
pub open spec fn boxed_backend<S: Store + 'static>(store: S) -> Box<dyn Store> {
    Box::new(store)
}

impl StoreBackend {
    /// The backend holding `store`.
    pub fn new<S: Store + 'static>(store: S) -> (b: Self)
        ensures
            b.store == boxed_backend(store),
    {
        let boxed: Box<dyn Store> = Box::new(store);
        StoreBackend { store: boxed }
    }
}

} // verus!

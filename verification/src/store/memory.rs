//! The volatile in-process backend, the default for tests and ephemeral
//! deployments.

use vstd::prelude::*;
use std::collections::HashMap;
use super::document::StoreDocument;
use super::error::StoreError;
use super::expiry::{is_expired, seconds_since_epoch};
use super::model::{
    consumed, first_index, lemma_first_index, lemma_first_index_at, lookup, network_key, node_in,
    node_key, node_not, preauth_key_in, preauth_key_key, upserted, user_in, user_key,
};
use super::traits::{Store, StoreContents};
use super::types::{Network, NetworkId, Node, NodeId, NodeView, PreAuthKey, PreAuthKeyId, PreAuthKeyView, User};

verus! {

broadcast use vstd::std_specs::hash::group_hash_axioms;

/// The in-memory store: one document, read and written in place.
#[derive(Debug)]
pub struct MemoryStore {
    doc: StoreDocument,
}

fn find_network(v: &Vec<Network>, id: NetworkId) -> (r: Option<usize>)
    ensures
        match r {
            Some(i) => i < v@.len() && first_index(v@, network_key(), id.0) == i,
            None => first_index(v@, network_key(), id.0) == -1,
        },
{
    proof {
        lemma_first_index(v@, network_key(), id.0);
    }
    let mut i: usize = 0;
    while i < v.len()
        invariant
            i <= v@.len(),
            forall|j: int| 0 <= j < i ==> (network_key())(v@[j]) != id.0,
        decreases v@.len() - i,
    {
        if v[i].id == id {
            proof {
                lemma_first_index_at(v@, network_key(), id.0, i as int);
            }
            return Some(i);
        }
        i = i + 1;
    }
    None
}

fn find_user(v: &Vec<User>, id: super::types::UserId) -> (r: Option<usize>)
    ensures
        match r {
            Some(i) => i < v@.len() && first_index(v@, user_key(), id.0) == i,
            None => first_index(v@, user_key(), id.0) == -1,
        },
{
    proof {
        lemma_first_index(v@, user_key(), id.0);
    }
    let mut i: usize = 0;
    while i < v.len()
        invariant
            i <= v@.len(),
            forall|j: int| 0 <= j < i ==> (user_key())(v@[j]) != id.0,
        decreases v@.len() - i,
    {
        if v[i].id == id {
            proof {
                lemma_first_index_at(v@, user_key(), id.0, i as int);
            }
            return Some(i);
        }
        i = i + 1;
    }
    None
}

/// The nodes of a vector as values.
pub open spec fn node_views(v: Seq<Node>) -> Seq<NodeView> {
    v.map_values(|n: Node| n@)
}

/// The pre-auth keys of a vector as values.
pub open spec fn preauth_key_views(v: Seq<PreAuthKey>) -> Seq<PreAuthKeyView> {
    v.map_values(|k: PreAuthKey| k@)
}

fn find_node(v: &Vec<Node>, id: NodeId) -> (r: Option<usize>)
    ensures
        match r {
            Some(i) => i < v@.len() && first_index(node_views(v@), node_key(), id.0) == i,
            None => first_index(node_views(v@), node_key(), id.0) == -1,
        },
{
    let ghost s = node_views(v@);
    proof {
        lemma_first_index(s, node_key(), id.0);
    }
    let mut i: usize = 0;
    while i < v.len()
        invariant
            i <= v@.len(),
            s == node_views(v@),
            forall|j: int| 0 <= j < i ==> (node_key())(s[j]) != id.0,
        decreases v@.len() - i,
    {
        if v[i].id == id {
            proof {
                lemma_first_index_at(s, node_key(), id.0, i as int);
            }
            return Some(i);
        }
        i = i + 1;
    }
    None
}

fn find_preauth_key(v: &Vec<PreAuthKey>, id: PreAuthKeyId) -> (r: Option<usize>)
    ensures
        match r {
            Some(i) => i < v@.len() && first_index(preauth_key_views(v@), preauth_key_key(), id.0) == i,
            None => first_index(preauth_key_views(v@), preauth_key_key(), id.0) == -1,
        },
{
    let ghost s = preauth_key_views(v@);
    proof {
        lemma_first_index(s, preauth_key_key(), id.0);
    }
    let mut i: usize = 0;
    while i < v.len()
        invariant
            i <= v@.len(),
            s == preauth_key_views(v@),
            forall|j: int| 0 <= j < i ==> (preauth_key_key())(s[j]) != id.0,
        decreases v@.len() - i,
    {
        if v[i].id == id {
            proof {
                lemma_first_index_at(s, preauth_key_key(), id.0, i as int);
            }
            return Some(i);
        }
        i = i + 1;
    }
    None
}

impl MemoryStore {
    /// The networks, in insertion order.
    pub closed spec fn networks(&self) -> Seq<Network> {
        self.doc.networks@
    }

    /// The users, in insertion order.
    pub closed spec fn users(&self) -> Seq<User> {
        self.doc.users@
    }

    /// The nodes, in insertion order.
    pub closed spec fn nodes(&self) -> Seq<NodeView> {
        node_views(self.doc.nodes@)
    }

    /// The pre-auth keys, in insertion order.
    pub closed spec fn preauth_keys(&self) -> Seq<PreAuthKeyView> {
        preauth_key_views(self.doc.preauth_keys@)
    }

    /// The policy of each network that has one.
    pub closed spec fn policies(&self) -> Map<u64, String> {
        self.doc.policies@
    }

    /// Whether the store holds nothing: no record, no policy, version 1.
    pub open spec fn is_empty(&self) -> bool {
        &&& self.networks() == Seq::<Network>::empty()
        &&& self.users() == Seq::<User>::empty()
        &&& self.nodes() == Seq::<NodeView>::empty()
        &&& self.preauth_keys() == Seq::<PreAuthKeyView>::empty()
        &&& self.policies() == Map::<u64, String>::empty()
        &&& self.version() == 1
    }

    /// The text of each network's policy.
    pub open spec fn policy_texts(&self) -> Map<u64, Seq<char>> {
        self.policies().map_values(|p: String| p@)
    }

    /// The document's format version.
    pub closed spec fn version(&self) -> u32 {
        self.doc.version
    }

    /// An empty store, document version 1.
    pub fn new() -> (s: Self)
        ensures
            s.networks() == Seq::<Network>::empty(),
            s.users() == Seq::<User>::empty(),
            s.nodes() == Seq::<NodeView>::empty(),
            s.preauth_keys() == Seq::<PreAuthKeyView>::empty(),
            s.policies() == Map::<u64, String>::empty(),
            s.version() == 1,
    {
        let s = MemoryStore {
            doc: StoreDocument {
                version: 1,
                networks: Vec::new(),
                users: Vec::new(),
                nodes: Vec::new(),
                preauth_keys: Vec::new(),
                policies: HashMap::new(),
            },
        };
        assert(s.nodes() =~= Seq::<NodeView>::empty());
        assert(s.preauth_keys() =~= Seq::<PreAuthKeyView>::empty());
        s
    }
}

/// Whether a document holds exactly the given contents.
pub open spec fn document_holds(
    d: StoreDocument,
    version: u32,
    networks: Seq<Network>,
    users: Seq<User>,
    nodes: Seq<NodeView>,
    preauth_keys: Seq<PreAuthKeyView>,
    policies: Map<u64, String>,
) -> bool {
    &&& d.version == version
    &&& d.networks@ == networks
    &&& d.users@ == users
    &&& node_views(d.nodes@) == nodes
    &&& preauth_key_views(d.preauth_keys@) == preauth_keys
    &&& d.policies@ == policies
}

fn copy_networks(v: &Vec<Network>) -> (r: Vec<Network>)
    ensures
        r@ == v@,
{
    let mut out: Vec<Network> = Vec::new();
    let mut i: usize = 0;
    while i < v.len()
        invariant
            i <= v@.len(),
            out@ == v@.take(i as int),
        decreases v@.len() - i,
    {
        out.push(v[i].copy());
        i = i + 1;
        assert(out@ =~= v@.take(i as int));
    }
    assert(v@.take(v@.len() as int) =~= v@);
    out
}

fn copy_users(v: &Vec<User>) -> (r: Vec<User>)
    ensures
        r@ == v@,
{
    let mut out: Vec<User> = Vec::new();
    let mut i: usize = 0;
    while i < v.len()
        invariant
            i <= v@.len(),
            out@ == v@.take(i as int),
        decreases v@.len() - i,
    {
        out.push(v[i].copy());
        i = i + 1;
        assert(out@ =~= v@.take(i as int));
    }
    assert(v@.take(v@.len() as int) =~= v@);
    out
}

fn copy_nodes(v: &Vec<Node>) -> (r: Vec<Node>)
    ensures
        node_views(r@) == node_views(v@),
{
    let mut out: Vec<Node> = Vec::new();
    let mut i: usize = 0;
    while i < v.len()
        invariant
            i <= v@.len(),
            out@.len() == i,
            forall|j: int| 0 <= j < i ==> #[trigger] out@[j]@ == v@[j]@,
        decreases v@.len() - i,
    {
        out.push(v[i].copy());
        i = i + 1;
    }
    assert(node_views(out@) =~= node_views(v@));
    out
}

fn copy_preauth_keys(v: &Vec<PreAuthKey>) -> (r: Vec<PreAuthKey>)
    ensures
        preauth_key_views(r@) == preauth_key_views(v@),
{
    let mut out: Vec<PreAuthKey> = Vec::new();
    let mut i: usize = 0;
    while i < v.len()
        invariant
            i <= v@.len(),
            out@.len() == i,
            forall|j: int| 0 <= j < i ==> #[trigger] out@[j]@ == v@[j]@,
        decreases v@.len() - i,
    {
        out.push(v[i].copy());
        i = i + 1;
    }
    assert(preauth_key_views(out@) =~= preauth_key_views(v@));
    out
}

impl MemoryStore {
    /// Whether this store holds the records and policies of document `d`.
    pub open spec fn holds_contents(&self, d: StoreDocument) -> bool {
        document_holds(
            d,
            d.version,
            self.networks(),
            self.users(),
            self.nodes(),
            self.preauth_keys(),
            self.policies(),
        )
    }

    /// Whether this store holds exactly what document `d` holds.
    pub open spec fn holds_document(&self, d: StoreDocument) -> bool {
        document_holds(
            d,
            self.version(),
            self.networks(),
            self.users(),
            self.nodes(),
            self.preauth_keys(),
            self.policies(),
        )
    }

    /// The whole contents as a document.
    pub fn document(&self) -> (d: StoreDocument)
        ensures
            self.holds_document(d),
    {
        StoreDocument {
            version: self.doc.version,
            networks: copy_networks(&self.doc.networks),
            users: copy_users(&self.doc.users),
            nodes: copy_nodes(&self.doc.nodes),
            preauth_keys: copy_preauth_keys(&self.doc.preauth_keys),
            policies: self.doc.policies.clone(),
        }
    }

    /// A store holding exactly what a document holds.
    pub fn from_document(d: StoreDocument) -> (s: Self)
        ensures
            s.holds_document(d),
    {
        MemoryStore { doc: d }
    }
}

impl MemoryStore {
    /// Consumes a pre-auth key at time `now` (seconds since the Unix epoch):
    /// the key is marked used, and the answer is true, exactly when it
    /// exists, is unused, is not reusable and has not expired at `now`.
    pub fn consume_preauth_key_at(&mut self, id: PreAuthKeyId, now: u64) -> (r: Result<bool, StoreError>)
        ensures
            r matches Ok(b) && b == consumed(old(self).preauth_keys(), id.0, now).1,
            final(self).preauth_keys() == consumed(old(self).preauth_keys(), id.0, now).0,
            final(self).networks() == old(self).networks(),
            final(self).users() == old(self).users(),
            final(self).nodes() == old(self).nodes(),
            final(self).policies() == old(self).policies(),
            final(self).version() == old(self).version(),
    {
        let ghost before = self.doc.preauth_keys@;
        match find_preauth_key(&self.doc.preauth_keys, id) {
            None => Ok(false),
            Some(i) => {
                if self.doc.preauth_keys[i].used || self.doc.preauth_keys[i].reusable || is_expired(
                    &self.doc.preauth_keys[i].expires_at,
                    now,
                ) {
                    Ok(false)
                } else {
                    let mut k = self.doc.preauth_keys[i].copy();
                    k.used = true;
                    self.doc.preauth_keys.set(i, k);
                    assert(preauth_key_views(self.doc.preauth_keys@) =~= preauth_key_views(
                        before,
                    ).update(i as int, PreAuthKeyView { used: true, ..preauth_key_views(before)[i as int] }));
                    Ok(true)
                }
            },
        }
    }
}

impl Default for MemoryStore {
    fn default() -> (s: Self)
        ensures
            s.networks() == Seq::<Network>::empty(),
            s.users() == Seq::<User>::empty(),
            s.nodes() == Seq::<NodeView>::empty(),
            s.preauth_keys() == Seq::<PreAuthKeyView>::empty(),
            s.policies() == Map::<u64, String>::empty(),
            s.version() == 1,
    {
        MemoryStore::new()
    }
}

impl Store for MemoryStore {
    open spec fn contents(&self) -> StoreContents {
        StoreContents {
            networks: self.networks(),
            users: self.users(),
            nodes: self.nodes(),
            preauth_keys: self.preauth_keys(),
            policies: self.policy_texts(),
        }
    }

    fn list_networks(&self) -> (r: Result<Vec<Network>, StoreError>)
        ensures
            r matches Ok(v) && v@ == self.networks(),
    {
        let mut out: Vec<Network> = Vec::new();
        let mut i: usize = 0;
        while i < self.doc.networks.len()
            invariant
                i <= self.doc.networks@.len(),
                out@ == self.doc.networks@.take(i as int),
            decreases self.doc.networks@.len() - i,
        {
            out.push(self.doc.networks[i].copy());
            i = i + 1;
            assert(out@ =~= self.doc.networks@.take(i as int));
        }
        assert(self.doc.networks@.take(self.doc.networks@.len() as int) =~= self.doc.networks@);
        Ok(out)
    }

    fn upsert_network(&mut self, net: &Network) -> (r: Result<(), StoreError>)
        ensures
            r is Ok,
            final(self).networks() == upserted(old(self).networks(), *net, network_key()),
            final(self).users() == old(self).users(),
            final(self).nodes() == old(self).nodes(),
            final(self).preauth_keys() == old(self).preauth_keys(),
            final(self).policies() == old(self).policies(),
            final(self).version() == old(self).version(),
    {
        match find_network(&self.doc.networks, net.id) {
            Some(i) => {
                self.doc.networks.set(i, net.copy());
            },
            None => {
                self.doc.networks.push(net.copy());
            },
        }
        Ok(())
    }

    fn list_users(&self, network: NetworkId) -> (r: Result<Vec<User>, StoreError>)
        ensures
            r matches Ok(v) && v@ == self.users().filter(user_in(network)),
    {
        let ghost s = self.doc.users@;
        let mut out: Vec<User> = Vec::new();
        let mut i: usize = 0;
        while i < self.doc.users.len()
            invariant
                s == self.doc.users@,
                i <= s.len(),
                out@ == s.take(i as int).filter(user_in(network)),
            decreases s.len() - i,
        {
            proof {
                let t = s.take(i + 1);
                reveal_with_fuel(Seq::filter, 1);
                assert(t.drop_last() =~= s.take(i as int));
                assert(t.last() == s[i as int]);
                assert(t.filter(user_in(network)) == if (user_in(network))(s[i as int]) {
                    s.take(i as int).filter(user_in(network)).push(s[i as int])
                } else {
                    s.take(i as int).filter(user_in(network))
                });
            }
            if self.doc.users[i].network_id == network {
                out.push(self.doc.users[i].copy());
            }
            i = i + 1;
        }
        assert(s.take(s.len() as int) =~= s);
        Ok(out)
    }

    fn upsert_user(&mut self, user: &User) -> (r: Result<(), StoreError>)
        ensures
            r is Ok,
            final(self).users() == upserted(old(self).users(), *user, user_key()),
            final(self).networks() == old(self).networks(),
            final(self).nodes() == old(self).nodes(),
            final(self).preauth_keys() == old(self).preauth_keys(),
            final(self).policies() == old(self).policies(),
            final(self).version() == old(self).version(),
    {
        match find_user(&self.doc.users, user.id) {
            Some(i) => {
                self.doc.users.set(i, user.copy());
            },
            None => {
                self.doc.users.push(user.copy());
            },
        }
        Ok(())
    }

    fn list_nodes(&self, network: NetworkId) -> (r: Result<Vec<Node>, StoreError>)
        ensures
            r matches Ok(v) && node_views(v@) == self.nodes().filter(node_in(network)),
    {
        let ghost s = node_views(self.doc.nodes@);
        let mut out: Vec<Node> = Vec::new();
        let mut i: usize = 0;
        while i < self.doc.nodes.len()
            invariant
                s == node_views(self.doc.nodes@),
                i <= s.len(),
                node_views(out@) == s.take(i as int).filter(node_in(network)),
            decreases s.len() - i,
        {
            proof {
                let t = s.take(i + 1);
                reveal_with_fuel(Seq::filter, 1);
                assert(t.drop_last() =~= s.take(i as int));
                assert(t.last() == s[i as int]);
                assert(t.filter(node_in(network)) == if (node_in(network))(s[i as int]) {
                    s.take(i as int).filter(node_in(network)).push(s[i as int])
                } else {
                    s.take(i as int).filter(node_in(network))
                });
            }
            if self.doc.nodes[i].network_id == network {
                let ghost before = out@;
                let c = self.doc.nodes[i].copy();
                out.push(c);
                proof {
                    assert(node_views(out@) =~= node_views(before).push(c@));
                }
            }
            i = i + 1;
        }
        assert(s.take(s.len() as int) =~= s);
        Ok(out)
    }

    fn get_node(&self, id: NodeId) -> (r: Result<Option<Node>, StoreError>)
        ensures
            r matches Ok(found) && match found {
                Some(n) => lookup(self.nodes(), node_key(), id.0) == Some(n@),
                None => lookup(self.nodes(), node_key(), id.0) is None,
            },
    {
        match find_node(&self.doc.nodes, id) {
            Some(i) => Ok(Some(self.doc.nodes[i].copy())),
            None => Ok(None),
        }
    }

    fn upsert_node(&mut self, node: &Node) -> (r: Result<(), StoreError>)
        ensures
            r is Ok,
            final(self).nodes() == upserted(old(self).nodes(), node@, node_key()),
            final(self).networks() == old(self).networks(),
            final(self).users() == old(self).users(),
            final(self).preauth_keys() == old(self).preauth_keys(),
            final(self).policies() == old(self).policies(),
            final(self).version() == old(self).version(),
    {
        let ghost before = self.doc.nodes@;
        let c = node.copy();
        match find_node(&self.doc.nodes, node.id) {
            Some(i) => {
                self.doc.nodes.set(i, c);
                assert(node_views(self.doc.nodes@) =~= node_views(before).update(i as int, node@));
            },
            None => {
                self.doc.nodes.push(c);
                assert(node_views(self.doc.nodes@) =~= node_views(before).push(node@));
            },
        }
        Ok(())
    }

    fn delete_node(&mut self, id: NodeId) -> (r: Result<(), StoreError>)
        ensures
            r is Ok,
            final(self).nodes() == old(self).nodes().filter(node_not(id.0)),
            final(self).networks() == old(self).networks(),
            final(self).users() == old(self).users(),
            final(self).preauth_keys() == old(self).preauth_keys(),
            final(self).policies() == old(self).policies(),
            final(self).version() == old(self).version(),
    {
        let ghost s = node_views(self.doc.nodes@);
        let mut kept: Vec<Node> = Vec::new();
        let mut i: usize = 0;
        while i < self.doc.nodes.len()
            invariant
                s == node_views(self.doc.nodes@),
                i <= s.len(),
                node_views(kept@) == s.take(i as int).filter(node_not(id.0)),
            decreases s.len() - i,
        {
            proof {
                let t = s.take(i + 1);
                reveal_with_fuel(Seq::filter, 1);
                assert(t.drop_last() =~= s.take(i as int));
                assert(t.last() == s[i as int]);
                assert(t.filter(node_not(id.0)) == if (node_not(id.0))(s[i as int]) {
                    s.take(i as int).filter(node_not(id.0)).push(s[i as int])
                } else {
                    s.take(i as int).filter(node_not(id.0))
                });
            }
            if self.doc.nodes[i].id != id {
                let ghost before = kept@;
                let c = self.doc.nodes[i].copy();
                kept.push(c);
                proof {
                    assert(node_views(kept@) =~= node_views(before).push(c@));
                }
            }
            i = i + 1;
        }
        assert(s.take(s.len() as int) =~= s);
        self.doc.nodes = kept;
        Ok(())
    }

    fn list_preauth_keys(&self, network: NetworkId) -> (r: Result<Vec<PreAuthKey>, StoreError>)
        ensures
            r matches Ok(v) && preauth_key_views(v@) == self.preauth_keys().filter(
                preauth_key_in(network),
            ),
    {
        let ghost s = preauth_key_views(self.doc.preauth_keys@);
        let mut out: Vec<PreAuthKey> = Vec::new();
        let mut i: usize = 0;
        while i < self.doc.preauth_keys.len()
            invariant
                s == preauth_key_views(self.doc.preauth_keys@),
                i <= s.len(),
                preauth_key_views(out@) == s.take(i as int).filter(preauth_key_in(network)),
            decreases s.len() - i,
        {
            proof {
                let t = s.take(i + 1);
                reveal_with_fuel(Seq::filter, 1);
                assert(t.drop_last() =~= s.take(i as int));
                assert(t.last() == s[i as int]);
                assert(t.filter(preauth_key_in(network)) == if (preauth_key_in(network))(s[i as int]) {
                    s.take(i as int).filter(preauth_key_in(network)).push(s[i as int])
                } else {
                    s.take(i as int).filter(preauth_key_in(network))
                });
            }
            if self.doc.preauth_keys[i].network_id == network {
                let ghost before = out@;
                let c = self.doc.preauth_keys[i].copy();
                out.push(c);
                proof {
                    assert(preauth_key_views(out@) =~= preauth_key_views(before).push(c@));
                }
            }
            i = i + 1;
        }
        assert(s.take(s.len() as int) =~= s);
        Ok(out)
    }

    fn upsert_preauth_key(&mut self, key: &PreAuthKey) -> (r: Result<(), StoreError>)
        ensures
            r is Ok,
            final(self).preauth_keys() == upserted(old(self).preauth_keys(), key@, preauth_key_key()),
            final(self).networks() == old(self).networks(),
            final(self).users() == old(self).users(),
            final(self).nodes() == old(self).nodes(),
            final(self).policies() == old(self).policies(),
            final(self).version() == old(self).version(),
    {
        let ghost before = self.doc.preauth_keys@;
        let c = key.copy();
        match find_preauth_key(&self.doc.preauth_keys, key.id) {
            Some(i) => {
                self.doc.preauth_keys.set(i, c);
                assert(preauth_key_views(self.doc.preauth_keys@) =~= preauth_key_views(before).update(
                    i as int,
                    key@,
                ));
            },
            None => {
                self.doc.preauth_keys.push(c);
                assert(preauth_key_views(self.doc.preauth_keys@) =~= preauth_key_views(before).push(
                    key@,
                ));
            },
        }
        Ok(())
    }

    /// Consumes a pre-auth key at the time the clock reads. A clock that
    /// reads before the Unix epoch counts as the latest time, so that every
    /// key with an expiry is then refused.
    fn consume_preauth_key(&mut self, id: PreAuthKeyId) -> (r: Result<bool, StoreError>)
        ensures
            r is Ok,
            exists|now: u64| #[trigger] consumed(old(self).preauth_keys(), id.0, now) == (
                final(self).preauth_keys(),
                r->Ok_0,
            ),
            final(self).networks() == old(self).networks(),
            final(self).users() == old(self).users(),
            final(self).nodes() == old(self).nodes(),
            final(self).policies() == old(self).policies(),
            final(self).version() == old(self).version(),
    {
        let now = match seconds_since_epoch() {
            Some(t) => t,
            None => u64::MAX,
        };
        let r = self.consume_preauth_key_at(id, now);
        proof {
            assert(consumed(old(self).contents().preauth_keys, id.0, now) == (
                self.contents().preauth_keys,
                r->Ok_0,
            ));
            assert(self.contents() == (StoreContents {
                preauth_keys: self.contents().preauth_keys,
                ..old(self).contents()
            }));
        }
        r
    }

    fn get_policy(&self, network: NetworkId) -> (r: Result<Option<String>, StoreError>)
        ensures
            r matches Ok(p) && p == (if self.policies().contains_key(network.0) {
                Some(self.policies()[network.0])
            } else {
                None
            }),
            r matches Ok(p) && match p {
                Some(text) => self.policy_texts().contains_key(network.0) && text@
                    == self.policy_texts()[network.0],
                None => !self.policy_texts().contains_key(network.0),
            },
    {
        match self.doc.policies.get(&network.0) {
            Some(p) => Ok(Some(p.clone())),
            None => Ok(None),
        }
    }

    fn set_policy(&mut self, network: NetworkId, policy: &str) -> (r: Result<(), StoreError>)
        ensures
            r is Ok,
            final(self).policies().contains_key(network.0),
            final(self).policies()[network.0]@ == policy@,
            forall|k: u64| k != network.0 ==> #[trigger] final(self).policies().contains_key(k)
                == old(self).policies().contains_key(k) && (old(self).policies().contains_key(k)
                ==> final(self).policies()[k] == old(self).policies()[k]),
            final(self).policy_texts() == old(self).policy_texts().insert(network.0, policy@),
            final(self).networks() == old(self).networks(),
            final(self).users() == old(self).users(),
            final(self).nodes() == old(self).nodes(),
            final(self).preauth_keys() == old(self).preauth_keys(),
            final(self).version() == old(self).version(),
    {
        self.doc.policies.insert(network.0, policy.to_owned());
        assert(self.policy_texts() =~= old(self).policy_texts().insert(network.0, policy@));
        Ok(())
    }
}

/// What a store call's contract says of the policies: `Some((n, p))` for a
/// `set_policy(n, p)`, which sets network `n`'s policy to `p`, and `None`
/// for any other call, which leaves the policies as they were.
pub open spec fn policy_step(before: MemoryStore, write: Option<(u64, Seq<char>)>, after: MemoryStore) -> bool {
    match write {
        Some((n, p)) => after.policy_texts() == before.policy_texts().insert(n, p),
        None => after.policies() == before.policies(),
    }
}

/// The last policy written for network `n` in a sequence of calls, if any.
pub open spec fn last_policy(writes: Seq<Option<(u64, Seq<char>)>>, n: u64) -> Option<Seq<char>>
    decreases writes.len(),
{
    if writes.len() == 0 {
        None
    } else {
        match writes.last() {
            Some((m, p)) if m == n => Some(p),
            _ => last_policy(writes.drop_last(), n),
        }
    }
}

/// The last write wins, per network: after any sequence of store calls, a
/// network's policy is the last one `set_policy` wrote for it, and a network
/// for which none was written keeps the policy it had (or still has none).
pub proof fn lemma_policy_last_write_wins(
    stores: Seq<MemoryStore>,
    writes: Seq<Option<(u64, Seq<char>)>>,
    n: u64,
)
    requires
        stores.len() == writes.len() + 1,
        forall|i: int| 0 <= i < writes.len() ==> #[trigger] policy_step(stores[i], writes[i], stores[i + 1]),
    ensures
        match last_policy(writes, n) {
            Some(p) => stores.last().policy_texts().contains_key(n) && stores.last().policy_texts()[n] == p,
            None => stores.last().policy_texts().contains_key(n) == stores[0].policy_texts().contains_key(n)
                && (stores[0].policy_texts().contains_key(n) ==> stores.last().policy_texts()[n]
                == stores[0].policy_texts()[n]),
        },
    decreases writes.len(),
{
    if writes.len() > 0 {
        let k = writes.len() - 1;
        let init_s = stores.drop_last();
        let init_w = writes.drop_last();
        assert forall|i: int| 0 <= i < init_w.len() implies #[trigger] policy_step(
            init_s[i],
            init_w[i],
            init_s[i + 1],
        ) by {
            assert(policy_step(stores[i], writes[i], stores[i + 1]));
        }
        lemma_policy_last_write_wins(init_s, init_w, n);
        assert(policy_step(stores[k], writes[k], stores[k + 1]));
        assert(init_s.last() == stores[k]);
        assert(init_s[0] == stores[0]);
        match writes[k] {
            Some(_) => {},
            None => {
                assert(stores[k + 1].policy_texts() =~= stores[k].policy_texts());
            },
        }
    }
}

} // verus!

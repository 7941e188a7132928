//! Domain aggregates persisted through the store. Every aggregate but the
//! network itself carries the `network_id` of the network it belongs to.

use vstd::prelude::*;

verus! {

#[derive(Debug, Clone, Copy, PartialEq, Eq, Hash, Structural)]
pub struct NetworkId(pub u64);

#[derive(Debug, Clone, Copy, PartialEq, Eq, Hash, Structural)]
pub struct UserId(pub u64);

#[derive(Debug, Clone, Copy, PartialEq, Eq, Hash, Structural)]
pub struct NodeId(pub u64);

#[derive(Debug, Clone, Copy, PartialEq, Eq, Hash, Structural)]
pub struct PreAuthKeyId(pub u64);

/// A tailnet.
#[derive(Debug, Clone)]
pub struct Network {
    pub id: NetworkId,
    pub name: String,
    /// Routing key: canonical host and optional path prefix.
    pub server_host: String,
    pub ipv4_prefix: String,
    pub ipv6_prefix: String,
    pub noise_key_id: String,
    pub policy: Option<String>,
    pub created_at: String,
}

#[derive(Debug, Clone)]
pub struct User {
    pub id: UserId,
    pub network_id: NetworkId,
    pub login_name: String,
    pub display_name: String,
}

#[derive(Debug, Clone)]
pub struct Node {
    pub id: NodeId,
    pub network_id: NetworkId,
    pub user_id: UserId,
    pub machine_key: String,
    pub node_key: String,
    pub disco_key: String,
    pub ipv4: Option<String>,
    pub ipv6: Option<String>,
    pub tags: Vec<String>,
}

#[derive(Debug, Clone)]
pub struct PreAuthKey {
    pub id: PreAuthKeyId,
    pub network_id: NetworkId,
    pub prefix: String,
    pub secret_hash: String,
    pub reusable: bool,
    pub ephemeral: bool,
    pub used: bool,
    pub expires_at: Option<String>,
    pub tags: Vec<String>,
}

/// A node as a value: its tags as a sequence.
pub struct NodeView {
    pub id: NodeId,
    pub network_id: NetworkId,
    pub user_id: UserId,
    pub machine_key: String,
    pub node_key: String,
    pub disco_key: String,
    pub ipv4: Option<String>,
    pub ipv6: Option<String>,
    pub tags: Seq<String>,
}

/// A pre-auth key as a value: its tags as a sequence.
pub struct PreAuthKeyView {
    pub id: PreAuthKeyId,
    pub network_id: NetworkId,
    pub prefix: String,
    pub secret_hash: String,
    pub reusable: bool,
    pub ephemeral: bool,
    pub used: bool,
    pub expires_at: Option<String>,
    pub tags: Seq<String>,
}

impl View for Node {
    type V = NodeView;

    open spec fn view(&self) -> NodeView {
        NodeView {
            id: self.id,
            network_id: self.network_id,
            user_id: self.user_id,
            machine_key: self.machine_key,
            node_key: self.node_key,
            disco_key: self.disco_key,
            ipv4: self.ipv4,
            ipv6: self.ipv6,
            tags: self.tags@,
        }
    }
}

impl View for PreAuthKey {
    type V = PreAuthKeyView;

    open spec fn view(&self) -> PreAuthKeyView {
        PreAuthKeyView {
            id: self.id,
            network_id: self.network_id,
            prefix: self.prefix,
            secret_hash: self.secret_hash,
            reusable: self.reusable,
            ephemeral: self.ephemeral,
            used: self.used,
            expires_at: self.expires_at,
            tags: self.tags@,
        }
    }
}

fn copy_optional_string(s: &Option<String>) -> (r: Option<String>)
    ensures
        r == *s,
{
    match s {
        Some(v) => Some(v.clone()),
        None => None,
    }
}

fn copy_strings(v: &Vec<String>) -> (r: Vec<String>)
    ensures
        r@ == v@,
{
    let mut r: Vec<String> = Vec::new();
    let mut i: usize = 0;
    while i < v.len()
        invariant
            i <= v@.len(),
            r@ == v@.take(i as int),
        decreases v@.len() - i,
    {
        r.push(v[i].clone());
        i = i + 1;
        assert(r@ =~= v@.take(i as int));
    }
    assert(v@.take(v@.len() as int) =~= v@);
    r
}

impl Network {
    /// A copy with the same field values.
    pub fn copy(&self) -> (r: Network)
        ensures
            r == *self,
    {
        Network {
            id: self.id,
            name: self.name.clone(),
            server_host: self.server_host.clone(),
            ipv4_prefix: self.ipv4_prefix.clone(),
            ipv6_prefix: self.ipv6_prefix.clone(),
            noise_key_id: self.noise_key_id.clone(),
            policy: copy_optional_string(&self.policy),
            created_at: self.created_at.clone(),
        }
    }
}

impl User {
    /// A copy with the same field values.
    pub fn copy(&self) -> (r: User)
        ensures
            r == *self,
    {
        User {
            id: self.id,
            network_id: self.network_id,
            login_name: self.login_name.clone(),
            display_name: self.display_name.clone(),
        }
    }
}

impl Node {
    /// A copy with the same field values.
    pub fn copy(&self) -> (r: Node)
        ensures
            r@ == self@,
    {
        Node {
            id: self.id,
            network_id: self.network_id,
            user_id: self.user_id,
            machine_key: self.machine_key.clone(),
            node_key: self.node_key.clone(),
            disco_key: self.disco_key.clone(),
            ipv4: copy_optional_string(&self.ipv4),
            ipv6: copy_optional_string(&self.ipv6),
            tags: copy_strings(&self.tags),
        }
    }
}

impl PreAuthKey {
    /// A copy with the same field values.
    pub fn copy(&self) -> (r: PreAuthKey)
        ensures
            r@ == self@,
    {
        PreAuthKey {
            id: self.id,
            network_id: self.network_id,
            prefix: self.prefix.clone(),
            secret_hash: self.secret_hash.clone(),
            reusable: self.reusable,
            ephemeral: self.ephemeral,
            used: self.used,
            expires_at: copy_optional_string(&self.expires_at),
            tags: copy_strings(&self.tags),
        }
    }
}

} // verus!

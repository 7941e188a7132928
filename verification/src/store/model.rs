//! The mathematical model of the store: records kept in insertion order,
//! looked up by the first record whose id matches.

use vstd::prelude::*;
use super::expiry::expired;
use super::types::{Network, NetworkId, NodeView, PreAuthKeyView, User};

verus! {

/// The index of the first element of `s` whose key is `k`, or -1 if none is.
pub open spec fn first_index<A>(s: Seq<A>, key: spec_fn(A) -> u64, k: u64) -> int
    decreases s.len(),
{
    if s.len() == 0 {
        -1
    } else if key(s[0]) == k {
        0
    } else {
        let r = first_index(s.drop_first(), key, k);
        if r < 0 {
            -1
        } else {
            r + 1
        }
    }
}

/// `first_index` finds the first match, and -1 exactly when nothing matches.
pub proof fn lemma_first_index<A>(s: Seq<A>, key: spec_fn(A) -> u64, k: u64)
    ensures
        -1 <= first_index(s, key, k) < s.len(),
        first_index(s, key, k) == -1 <==> forall|j: int| 0 <= j < s.len() ==> key(s[j]) != k,
        first_index(s, key, k) >= 0 ==> key(s[first_index(s, key, k)]) == k,
        forall|j: int| 0 <= j < first_index(s, key, k) ==> key(s[j]) != k,
    decreases s.len(),
{
    if s.len() > 0 {
        lemma_first_index(s.drop_first(), key, k);
        if key(s[0]) != k {
            assert forall|j: int| 0 <= j < s.len() && first_index(s.drop_first(), key, k) == -1
                implies key(s[j]) != k by {
                if j > 0 {
                    assert(s[j] == s.drop_first()[j - 1]);
                }
            }
            assert forall|j: int| 0 < j < first_index(s, key, k) implies key(s[j]) != k by {
                assert(s[j] == s.drop_first()[j - 1]);
            }
        }
    }
}

/// A position is the first match when it matches and nothing before it does.
pub proof fn lemma_first_index_at<A>(s: Seq<A>, key: spec_fn(A) -> u64, k: u64, i: int)
    requires
        0 <= i < s.len(),
        key(s[i]) == k,
        forall|j: int| 0 <= j < i ==> key(s[j]) != k,
    ensures
        first_index(s, key, k) == i,
{
    lemma_first_index(s, key, k);
    let f = first_index(s, key, k);
    if f != i {
        if f < i {
            assert(key(s[f]) != k);
        } else {
            assert(key(s[i]) != k);
        }
    }
}

/// `s` with `v` stored: it replaces the first element with the same key, or
/// is appended if there is none.
pub open spec fn upserted<A>(s: Seq<A>, v: A, key: spec_fn(A) -> u64) -> Seq<A> {
    let i = first_index(s, key, key(v));
    if i >= 0 {
        s.update(i, v)
    } else {
        s.push(v)
    }
}

/// The element of `s` that a lookup by key `k` finds.
pub open spec fn lookup<A>(s: Seq<A>, key: spec_fn(A) -> u64, k: u64) -> Option<A> {
    let i = first_index(s, key, k);
    if i >= 0 {
        Some(s[i])
    } else {
        None
    }
}

/// After `v` is stored, a lookup by its key finds `v`.
pub proof fn lemma_upserted_then_lookup<A>(s: Seq<A>, v: A, key: spec_fn(A) -> u64)
    ensures
        lookup(upserted(s, v, key), key, key(v)) == Some(v),
{
    let k = key(v);
    lemma_first_index(s, key, k);
    let i = first_index(s, key, k);
    let t = upserted(s, v, key);
    if i >= 0 {
        assert forall|j: int| 0 <= j < i implies key(t[j]) != k by {
            assert(t[j] == s[j]);
        }
        lemma_first_index_at(t, key, k, i);
    } else {
        assert forall|j: int| 0 <= j < s.len() implies key(t[j]) != k by {
            assert(t[j] == s[j]);
        }
        lemma_first_index_at(t, key, k, s.len() as int);
    }
}

/// Storing `v` leaves a lookup by any other key unchanged.
pub proof fn lemma_upserted_other_lookup<A>(s: Seq<A>, v: A, key: spec_fn(A) -> u64, k: u64)
    requires
        k != key(v),
    ensures
        lookup(upserted(s, v, key), key, k) == lookup(s, key, k),
{
    let t = upserted(s, v, key);
    lemma_first_index(s, key, key(v));
    lemma_first_index(s, key, k);
    lemma_first_index(t, key, k);
    let i = first_index(s, key, k);
    let iv = first_index(s, key, key(v));
    assert forall|j: int| 0 <= j < s.len() implies key(t[j]) == k <==> key(s[j]) == k by {
        if j == iv {
        } else {
            assert(t[j] == s[j]);
        }
    }
    if i >= 0 {
        assert(t[i] == s[i]);
        lemma_first_index_at(t, key, k, i);
    } else {
        if iv < 0 {
            assert(key(t[s.len() as int]) == key(v));
        }
        assert forall|j: int| 0 <= j < t.len() implies key(t[j]) != k by {
            if j < s.len() {
            } else {
                assert(t[j] == v);
            }
        }
    }
}

/// Key functions and predicates of the records.
pub open spec fn network_key() -> spec_fn(Network) -> u64 {
    |n: Network| n.id.0
}

pub open spec fn user_key() -> spec_fn(User) -> u64 {
    |u: User| u.id.0
}

pub open spec fn node_key() -> spec_fn(NodeView) -> u64 {
    |n: NodeView| n.id.0
}

pub open spec fn preauth_key_key() -> spec_fn(PreAuthKeyView) -> u64 {
    |k: PreAuthKeyView| k.id.0
}

pub open spec fn user_in(network: NetworkId) -> spec_fn(User) -> bool {
    |u: User| u.network_id == network
}

pub open spec fn node_in(network: NetworkId) -> spec_fn(NodeView) -> bool {
    |n: NodeView| n.network_id == network
}

pub open spec fn preauth_key_in(network: NetworkId) -> spec_fn(PreAuthKeyView) -> bool {
    |k: PreAuthKeyView| k.network_id == network
}

pub open spec fn node_not(id: u64) -> spec_fn(NodeView) -> bool {
    |n: NodeView| n.id.0 != id
}

/// Consuming a pre-auth key at time `now`: the first key with the id is
/// marked used, and the answer is true, exactly when it exists, is unused,
/// is not reusable and has not expired at `now`.
pub open spec fn consumed(keys: Seq<PreAuthKeyView>, id: u64, now: u64) -> (Seq<PreAuthKeyView>, bool) {
    let i = first_index(keys, preauth_key_key(), id);
    if i < 0 || keys[i].used || keys[i].reusable || expired(key_expiry(keys[i]), now) {
        (keys, false)
    } else {
        (keys.update(i, PreAuthKeyView { used: true, ..keys[i] }), true)
    }
}

/// A key's expiry as text.
pub open spec fn key_expiry(k: PreAuthKeyView) -> Option<Seq<char>> {
    match k.expires_at {
        Some(t) => Some(t@),
        None => None,
    }
}

/// A pre-auth key is consumed at most once: once a consumption succeeded, a
/// later one with the same id is refused, whatever the time.
pub proof fn lemma_consumed_once(keys: Seq<PreAuthKeyView>, id: u64, now: u64, later: u64)
    ensures
        consumed(keys, id, now).1 ==> consumed(consumed(keys, id, now).0, id, later).1 == false,
        consumed(keys, id, now).1 ==> consumed(consumed(keys, id, now).0, id, later).0 == consumed(
            keys,
            id,
            now,
        ).0,
{
    lemma_first_index(keys, preauth_key_key(), id);
    let i = first_index(keys, preauth_key_key(), id);
    if i >= 0 && !keys[i].used && !keys[i].reusable && !expired(key_expiry(keys[i]), now) {
        let t = consumed(keys, id, now).0;
        assert forall|j: int| 0 <= j < i implies (preauth_key_key())(t[j]) != id by {
            assert(t[j] == keys[j]);
        }
        lemma_first_index_at(t, preauth_key_key(), id, i);
    }
}

/// An expired key is refused and left unused.
pub proof fn lemma_expired_not_consumed(keys: Seq<PreAuthKeyView>, id: u64, now: u64)
    requires
        lookup(keys, preauth_key_key(), id) matches Some(k) && expired(key_expiry(k), now),
    ensures
        consumed(keys, id, now) == (keys, false),
{
}

/// After the nodes with an id are removed, a lookup by that id finds nothing.
pub proof fn lemma_deleted_then_lookup(nodes: Seq<NodeView>, id: u64)
    ensures
        lookup(nodes.filter(node_not(id)), node_key(), id) is None,
{
    let f = nodes.filter(node_not(id));
    nodes.filter_lemma(node_not(id));
    lemma_first_index(f, node_key(), id);
    assert forall|j: int| 0 <= j < f.len() implies (node_key())(f[j]) != id by {
        assert((node_not(id))(f[j]));
    }
}

/// A lookup in `s` with `x` appended finds what it found in `s`, else `x`
/// if `x` has the key.
pub proof fn lemma_lookup_push<A>(s: Seq<A>, x: A, key: spec_fn(A) -> u64, k: u64)
    ensures
        lookup(s.push(x), key, k) == if lookup(s, key, k) is Some {
            lookup(s, key, k)
        } else if key(x) == k {
            Some(x)
        } else {
            None
        },
{
    let t = s.push(x);
    lemma_first_index(s, key, k);
    lemma_first_index(t, key, k);
    let i = first_index(s, key, k);
    if i >= 0 {
        assert forall|j: int| 0 <= j < i implies key(t[j]) != k by {
            assert(t[j] == s[j]);
        }
        assert(t[i] == s[i]);
        lemma_first_index_at(t, key, k, i);
    } else if key(x) == k {
        assert forall|j: int| 0 <= j < s.len() implies key(t[j]) != k by {
            assert(t[j] == s[j]);
        }
        lemma_first_index_at(t, key, k, s.len() as int);
    } else {
        assert forall|j: int| 0 <= j < t.len() implies key(t[j]) != k by {
            if j < s.len() {
                assert(t[j] == s[j]);
            }
        }
    }
}

/// Removing the nodes with one id leaves a lookup by any other id unchanged.
pub proof fn lemma_deleted_other_lookup(nodes: Seq<NodeView>, id: u64, k: u64)
    requires
        k != id,
    ensures
        lookup(nodes.filter(node_not(id)), node_key(), k) == lookup(nodes, node_key(), k),
    decreases nodes.len(),
{
    reveal_with_fuel(Seq::filter, 1);
    if nodes.len() > 0 {
        let init = nodes.drop_last();
        let last = nodes.last();
        lemma_deleted_other_lookup(init, id, k);
        assert(nodes =~= init.push(last));
        lemma_lookup_push(init, last, node_key(), k);
        if (node_not(id))(last) {
            lemma_lookup_push(init.filter(node_not(id)), last, node_key(), k);
        }
    } else {
        assert(nodes.filter(node_not(id)) =~= nodes);
    }
}

/// A change to the nodes: a node stored, or the nodes with an id removed.
pub enum NodeChange {
    Upsert(NodeView),
    Delete(u64),
}

/// The nodes after a sequence of changes, applied in order.
pub open spec fn nodes_after(nodes: Seq<NodeView>, changes: Seq<NodeChange>) -> Seq<NodeView>
    decreases changes.len(),
{
    if changes.len() == 0 {
        nodes
    } else {
        let before = nodes_after(nodes, changes.drop_last());
        match changes.last() {
            NodeChange::Upsert(n) => upserted(before, n, node_key()),
            NodeChange::Delete(id) => before.filter(node_not(id)),
        }
    }
}

/// What the last change that concerns id `k` left under `k`, if one does.
pub open spec fn last_node_write(changes: Seq<NodeChange>, k: u64) -> Option<Option<NodeView>>
    decreases changes.len(),
{
    if changes.len() == 0 {
        None
    } else {
        match changes.last() {
            NodeChange::Upsert(n) if n.id.0 == k => Some(Some(n)),
            NodeChange::Delete(id) if id == k => Some(None),
            _ => last_node_write(changes.drop_last(), k),
        }
    }
}

/// A lookup after any sequence of changes finds what the last change that
/// concerns its id left there (the node last stored, or nothing after a
/// removal), and what it found before where no change concerns that id.
pub proof fn lemma_node_lookup_after_changes(nodes: Seq<NodeView>, changes: Seq<NodeChange>, k: u64)
    ensures
        lookup(nodes_after(nodes, changes), node_key(), k) == match last_node_write(changes, k) {
            Some(r) => r,
            None => lookup(nodes, node_key(), k),
        },
    decreases changes.len(),
{
    if changes.len() > 0 {
        let before = nodes_after(nodes, changes.drop_last());
        lemma_node_lookup_after_changes(nodes, changes.drop_last(), k);
        match changes.last() {
            NodeChange::Upsert(n) => {
                if n.id.0 == k {
                    lemma_upserted_then_lookup(before, n, node_key());
                } else {
                    lemma_upserted_other_lookup(before, n, node_key(), k);
                }
            },
            NodeChange::Delete(id) => {
                if id == k {
                    lemma_deleted_then_lookup(before, id);
                } else {
                    lemma_deleted_other_lookup(before, id, k);
                }
            },
        }
    }
}

/// Replacing an element by one with the same key leaves every lookup's
/// position unchanged.
proof fn lemma_same_keys_same_index<A>(s: Seq<A>, t: Seq<A>, key: spec_fn(A) -> u64, k: u64)
    requires
        s.len() == t.len(),
        forall|j: int| 0 <= j < s.len() ==> key(#[trigger] t[j]) == key(s[j]),
    ensures
        first_index(t, key, k) == first_index(s, key, k),
{
    lemma_first_index(s, key, k);
    lemma_first_index(t, key, k);
    let i = first_index(s, key, k);
    if i >= 0 {
        assert(key(t[i]) == key(s[i]));
        assert forall|j: int| 0 <= j < i implies key(t[j]) != k by {
            assert(key(t[j]) == key(s[j]));
        }
        lemma_first_index_at(t, key, k, i);
    } else {
        assert forall|j: int| 0 <= j < t.len() implies key(t[j]) != k by {
            assert(key(t[j]) == key(s[j]));
        }
    }
}

/// Consuming a pre-auth key at `now` answers true exactly when a key with
/// the id is stored, is unused, is not reusable and has not expired at
/// `now`, whatever its other fields (ephemeral, prefix, tags). A consumed key
/// is then found used, with its other fields as they were, and a lookup of
/// any other id is unchanged; a refused consumption changes nothing.
pub proof fn lemma_consume_answers(keys: Seq<PreAuthKeyView>, id: u64, now: u64)
    ensures
        consumed(keys, id, now).1 <==> (lookup(keys, preauth_key_key(), id) matches Some(k) && !k.used
            && !k.reusable && !expired(key_expiry(k), now)),
        consumed(keys, id, now).1 ==> lookup(consumed(keys, id, now).0, preauth_key_key(), id) == Some(
            PreAuthKeyView { used: true, ..lookup(keys, preauth_key_key(), id)->Some_0 },
        ),
        forall|other: u64|
            other != id ==> #[trigger] lookup(consumed(keys, id, now).0, preauth_key_key(), other)
                == lookup(keys, preauth_key_key(), other),
        !consumed(keys, id, now).1 ==> consumed(keys, id, now).0 == keys,
{
    lemma_first_index(keys, preauth_key_key(), id);
    let i = first_index(keys, preauth_key_key(), id);
    let t = consumed(keys, id, now).0;
    if consumed(keys, id, now).1 {
        assert forall|j: int| 0 <= j < keys.len() implies (preauth_key_key())(#[trigger] t[j]) == (
        preauth_key_key())(keys[j]) by {}
        lemma_same_keys_same_index(keys, t, preauth_key_key(), id);
        assert forall|other: u64| other != id implies #[trigger] lookup(t, preauth_key_key(), other)
            == lookup(keys, preauth_key_key(), other) by {
            lemma_same_keys_same_index(keys, t, preauth_key_key(), other);
            lemma_first_index(keys, preauth_key_key(), other);
            let o = first_index(keys, preauth_key_key(), other);
            if o >= 0 {
                assert(o != i);
                assert(t[o] == keys[o]);
            }
        }
    }
}

/// A network's listing of nodes holds only nodes of that network, and every
/// stored node of that network, whatever its other fields.
pub proof fn lemma_node_listing(nodes: Seq<NodeView>, network: NetworkId)
    ensures
        forall|j: int| 0 <= j < nodes.filter(node_in(network)).len() ==> (#[trigger] nodes.filter(
            node_in(network),
        )[j]).network_id == network,
        forall|i: int| 0 <= i < nodes.len() && (#[trigger] nodes[i]).network_id == network ==> nodes.filter(
            node_in(network),
        ).contains(nodes[i]),
{
    #[allow(deprecated)]
    nodes.filter_lemma(node_in(network));
}

/// A network's listing of users holds only users of that network, and every
/// stored user of that network, whatever its other fields.
pub proof fn lemma_user_listing(users: Seq<User>, network: NetworkId)
    ensures
        forall|j: int| 0 <= j < users.filter(user_in(network)).len() ==> (#[trigger] users.filter(
            user_in(network),
        )[j]).network_id == network,
        forall|i: int| 0 <= i < users.len() && (#[trigger] users[i]).network_id == network ==> users.filter(
            user_in(network),
        ).contains(users[i]),
{
    #[allow(deprecated)]
    users.filter_lemma(user_in(network));
}

/// A network's listing of pre-auth keys holds only keys of that network, and
/// every stored key of that network, whatever its other fields.
pub proof fn lemma_preauth_key_listing(keys: Seq<PreAuthKeyView>, network: NetworkId)
    ensures
        forall|j: int| 0 <= j < keys.filter(preauth_key_in(network)).len() ==> (#[trigger] keys.filter(
            preauth_key_in(network),
        )[j]).network_id == network,
        forall|i: int| 0 <= i < keys.len() && (#[trigger] keys[i]).network_id == network ==> keys.filter(
            preauth_key_in(network),
        ).contains(keys[i]),
{
    #[allow(deprecated)]
    keys.filter_lemma(preauth_key_in(network));
}

} // verus!

use oxiscale::store::expiry::timestamp_to_seconds;
use oxiscale::store::file::SNAPSHOT_VERSION;
use oxiscale::store::{
    FileStore, Format, MemoryStore, Network, NetworkId, Node, NodeId, PreAuthKey, PreAuthKeyId,
    Store, StoreError, User, UserId,
};

fn network(id: u64, name: &str) -> Network {
    Network {
        id: NetworkId(id),
        name: name.to_owned(),
        server_host: "ctl.example.com".to_owned(),
        ipv4_prefix: "100.64.0.0/10".to_owned(),
        ipv6_prefix: "fd7a:115c:a1e0::/48".to_owned(),
        noise_key_id: "k1".to_owned(),
        policy: None,
        created_at: "2025-01-01T00:00:00Z".to_owned(),
    }
}

fn user(id: u64, network: u64, login: &str) -> User {
    User {
        id: UserId(id),
        network_id: NetworkId(network),
        login_name: login.to_owned(),
        display_name: login.to_uppercase(),
    }
}

fn node(id: u64, network: u64, key: &str) -> Node {
    Node {
        id: NodeId(id),
        network_id: NetworkId(network),
        user_id: UserId(1),
        machine_key: format!("mkey:{}", key),
        node_key: format!("nodekey:{}", key),
        disco_key: format!("discokey:{}", key),
        ipv4: Some("100.64.0.1".to_owned()),
        ipv6: None,
        tags: vec!["tag:sensor".to_owned()],
    }
}

fn preauth(id: u64, network: u64, reusable: bool) -> PreAuthKey {
    PreAuthKey {
        id: PreAuthKeyId(id),
        network_id: NetworkId(network),
        prefix: "abcdef012345".to_owned(),
        secret_hash: "$2b$hash".to_owned(),
        reusable,
        ephemeral: false,
        used: false,
        expires_at: None,
        tags: vec![],
    }
}

#[test]
fn upsert_then_get_returns_the_node_and_replaces_in_place() {
    let mut store = MemoryStore::new();
    store.upsert_node(&node(1, 7, "aa")).unwrap();
    store.upsert_node(&node(2, 7, "bb")).unwrap();
    store.upsert_node(&node(1, 7, "cc")).unwrap();
    let got = store.get_node(NodeId(1)).unwrap().unwrap();
    assert_eq!(got.machine_key, "mkey:cc");
    let listed = store.list_nodes(NetworkId(7)).unwrap();
    assert_eq!(listed.len(), 2);
    assert_eq!(listed[0].id, NodeId(1));
    assert_eq!(listed[1].id, NodeId(2));
    assert!(store.get_node(NodeId(3)).unwrap().is_none());
}

#[test]
fn delete_then_get_finds_nothing() {
    let mut store = MemoryStore::new();
    store.upsert_node(&node(1, 7, "aa")).unwrap();
    store.upsert_node(&node(2, 7, "bb")).unwrap();
    store.delete_node(NodeId(1)).unwrap();
    assert!(store.get_node(NodeId(1)).unwrap().is_none());
    assert_eq!(store.list_nodes(NetworkId(7)).unwrap().len(), 1);
    store.delete_node(NodeId(42)).unwrap();
    assert_eq!(store.list_nodes(NetworkId(7)).unwrap().len(), 1);
}

#[test]
fn listings_are_filtered_by_network_in_insertion_order() {
    let mut store = MemoryStore::new();
    store.upsert_user(&user(1, 1, "alice")).unwrap();
    store.upsert_user(&user(2, 2, "bob")).unwrap();
    store.upsert_user(&user(3, 1, "carol")).unwrap();
    let users = store.list_users(NetworkId(1)).unwrap();
    assert_eq!(users.iter().map(|u| u.login_name.as_str()).collect::<Vec<_>>(), vec!["alice", "carol"]);
    assert_eq!(store.list_users(NetworkId(9)).unwrap().len(), 0);

    store.upsert_network(&network(1, "one")).unwrap();
    store.upsert_network(&network(2, "two")).unwrap();
    store.upsert_network(&network(1, "uno")).unwrap();
    let nets = store.list_networks().unwrap();
    assert_eq!(nets.len(), 2);
    assert_eq!(nets[0].name, "uno");
    assert_eq!(nets[1].name, "two");

    store.upsert_preauth_key(&preauth(1, 1, false)).unwrap();
    store.upsert_preauth_key(&preauth(2, 2, false)).unwrap();
    assert_eq!(store.list_preauth_keys(NetworkId(2)).unwrap()[0].id, PreAuthKeyId(2));
}

#[test]
fn preauth_key_is_consumed_once() {
    let mut store = MemoryStore::new();
    store.upsert_preauth_key(&preauth(1, 1, false)).unwrap();
    assert!(store.consume_preauth_key(PreAuthKeyId(1)).unwrap());
    assert!(!store.consume_preauth_key(PreAuthKeyId(1)).unwrap());
    assert!(store.list_preauth_keys(NetworkId(1)).unwrap()[0].used);
}

#[test]
fn reusable_and_unknown_keys_are_not_consumed() {
    let mut store = MemoryStore::new();
    store.upsert_preauth_key(&preauth(1, 1, true)).unwrap();
    assert!(!store.consume_preauth_key(PreAuthKeyId(1)).unwrap());
    assert!(!store.list_preauth_keys(NetworkId(1)).unwrap()[0].used);
    assert!(!store.consume_preauth_key(PreAuthKeyId(5)).unwrap());
}

#[test]
fn policy_set_then_get() {
    let mut store = MemoryStore::new();
    assert_eq!(store.get_policy(NetworkId(1)).unwrap(), None);
    store.set_policy(NetworkId(1), "{\"acls\":[]}").unwrap();
    store.set_policy(NetworkId(2), "other").unwrap();
    assert_eq!(store.get_policy(NetworkId(1)).unwrap().as_deref(), Some("{\"acls\":[]}"));
    store.set_policy(NetworkId(1), "second").unwrap();
    assert_eq!(store.get_policy(NetworkId(1)).unwrap().as_deref(), Some("second"));
    assert_eq!(store.get_policy(NetworkId(2)).unwrap().as_deref(), Some("other"));
}

#[test]
fn format_follows_the_extension() {
    assert_eq!(Format::from_path("state.json"), Some(Format::Json));
    assert_eq!(Format::from_path("/var/lib/state.yaml"), Some(Format::Yaml));
    assert_eq!(Format::from_path("state.yml"), Some(Format::Yaml));
    assert_eq!(Format::from_path("dir/state.toml"), Some(Format::Toml));
    assert_eq!(Format::from_path("state.txt"), None);
    assert_eq!(Format::from_path("state"), None);
    assert_eq!(Format::from_path(".json"), None);
    assert_eq!(Format::from_path("state.JSON"), None);
    assert_eq!(Format::from_extension("yml"), Some(Format::Yaml));
    assert_eq!(Format::from_extension(""), None);
}

#[test]
fn file_store_rejects_an_unknown_extension() {
    match FileStore::open("state.ini") {
        Err(StoreError::Serde(msg)) => {
            assert_eq!(msg, "unsupported file extension; use .json, .yaml, .yml, or .toml")
        }
        _ => panic!("expected a serialization error"),
    }
    assert!(FileStore::open("state.toml").is_ok());
}

#[test]
fn file_store_answers_as_the_memory_store() {
    let mut store = FileStore::open("state.json").unwrap().with_format(Format::Yaml);
    assert!(store.upsert_node(&node(1, 1, "aa")).is_ok());
    assert_eq!(store.get_node(NodeId(1)).unwrap().unwrap().node_key, "nodekey:aa");
    assert!(store.upsert_preauth_key(&preauth(1, 1, false)).is_ok());
    assert!(matches!(store.consume_preauth_key(PreAuthKeyId(1)), Ok(true)));
    assert!(matches!(store.consume_preauth_key(PreAuthKeyId(1)), Ok(false)));
    assert!(store.set_policy(NetworkId(1), "p").is_ok());
    assert_eq!(store.get_policy(NetworkId(1)).unwrap().as_deref(), Some("p"));
    assert!(store.delete_node(NodeId(1)).is_ok());
    assert!(store.get_node(NodeId(1)).unwrap().is_none());
}

#[test]
fn file_store_snapshot_reloads_into_another_store() {
    let mut a = FileStore::open("state.toml").unwrap();
    a.upsert_network(&network(1, "one")).unwrap();
    a.upsert_user(&user(2, 1, "alice")).unwrap();
    a.upsert_node(&node(3, 1, "cc")).unwrap();
    a.upsert_preauth_key(&preauth(4, 1, true)).unwrap();
    a.set_policy(NetworkId(1), "acl").unwrap();
    let doc = a.flush();
    assert_eq!(doc.version, SNAPSHOT_VERSION);
    assert_eq!(doc.nodes.len(), 1);

    let mut b = FileStore::open("state.toml").unwrap();
    assert!(b.load(doc).is_ok());
    assert_eq!(b.list_networks().unwrap()[0].name, "one");
    assert_eq!(b.list_users(NetworkId(1)).unwrap()[0].login_name, "alice");
    assert_eq!(b.get_node(NodeId(3)).unwrap().unwrap().machine_key, "mkey:cc");
    assert!(b.list_preauth_keys(NetworkId(1)).unwrap()[0].reusable);
    assert_eq!(b.get_policy(NetworkId(1)).unwrap().as_deref(), Some("acl"));
}

#[test]
fn file_store_refuses_a_snapshot_of_another_version() {
    let mut a = FileStore::open("state.json").unwrap();
    a.upsert_network(&network(1, "one")).unwrap();
    let mut doc = a.flush();
    doc.version = 2;
    let mut b = FileStore::open("state.json").unwrap();
    match b.load(doc) {
        Err(StoreError::Serde(msg)) => assert_eq!(msg, "unsupported snapshot version"),
        _ => panic!("expected a serialization error"),
    }
    assert!(b.list_networks().unwrap().is_empty());
}

fn expiring(id: u64, expires_at: &str) -> PreAuthKey {
    let mut k = preauth(id, 1, false);
    k.expires_at = Some(expires_at.to_owned());
    k
}

#[test]
fn expired_keys_are_not_consumed() {
    let mut store = MemoryStore::new();
    // 2025-01-01T00:00:00Z is 1735689600 seconds after the epoch.
    store.upsert_preauth_key(&expiring(1, "2025-01-01T00:00:00Z")).unwrap();
    assert!(!store.consume_preauth_key_at(PreAuthKeyId(1), 1735689600).unwrap());
    assert!(!store.consume_preauth_key_at(PreAuthKeyId(1), 1735689601).unwrap());
    assert!(!store.list_preauth_keys(NetworkId(1)).unwrap()[0].used);
    assert!(store.consume_preauth_key_at(PreAuthKeyId(1), 1735689599).unwrap());
    assert!(store.list_preauth_keys(NetworkId(1)).unwrap()[0].used);
    assert!(!store.consume_preauth_key_at(PreAuthKeyId(1), 0).unwrap());
}

#[test]
fn keys_expired_by_the_clock_are_refused() {
    let mut store = MemoryStore::new();
    store.upsert_preauth_key(&expiring(1, "2001-09-09T01:46:40Z")).unwrap();
    store.upsert_preauth_key(&expiring(2, "9999-12-31T23:59:59Z")).unwrap();
    store.upsert_preauth_key(&expiring(3, "tomorrow")).unwrap();
    assert!(!store.consume_preauth_key(PreAuthKeyId(1)).unwrap());
    assert!(store.consume_preauth_key(PreAuthKeyId(2)).unwrap());
    assert!(!store.consume_preauth_key(PreAuthKeyId(3)).unwrap());
}

#[test]
fn timestamps_convert_to_epoch_seconds() {
    assert_eq!(timestamp_to_seconds("1970-01-01T00:00:00Z"), Some(0));
    assert_eq!(timestamp_to_seconds("2001-09-09T01:46:40Z"), Some(1_000_000_000));
    assert_eq!(timestamp_to_seconds("2025-01-01T00:00:00Z"), Some(1735689600));
    assert_eq!(timestamp_to_seconds("2024-02-29T12:30:15.250Z"), Some(1709209815));
    assert_eq!(timestamp_to_seconds("2023-02-29T00:00:00Z"), None);
    assert_eq!(timestamp_to_seconds("1969-12-31T23:59:59Z"), None);
    assert_eq!(timestamp_to_seconds("2025-01-01T00:00:00+01:00"), None);
    assert_eq!(timestamp_to_seconds("2025-01-01T00:00:00.Z"), None);
    assert_eq!(timestamp_to_seconds("2025-13-01T00:00:00Z"), None);
    assert_eq!(timestamp_to_seconds("2025-01-01 00:00:00Z"), None);
}

#[test]
fn copies_keep_every_field() {
    let n = node(3, 4, "dd");
    let c = n.copy();
    assert_eq!(c.id, n.id);
    assert_eq!(c.tags, n.tags);
    assert_eq!(c.ipv4, n.ipv4);
    let k = preauth(1, 2, true);
    assert_eq!(k.copy().reusable, true);
    let net = network(5, "five");
    assert_eq!(net.copy().created_at, net.created_at);
    let u = user(1, 1, "alice");
    assert_eq!(u.copy().display_name, "ALICE");
}

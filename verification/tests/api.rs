use oxiscale::api::{ApiError, ControlServer, ControlServerBuilder, Event, TenantRouting};
use oxiscale::framed_io::{FillStep, FramedIo, Polled};
use oxiscale::keys::MachineKeyPair;
use oxiscale::server::{ts2021_upgrade, ServerState, UpgradeDecision};
use oxiscale::store::traits::StoreBackend;
use oxiscale::store::{MemoryStore, NetworkId, NodeId, Store};

#[test]
fn tenant_routing_presets() {
    let s = TenantRouting::subdomain();
    assert!(s.subdomain && !s.path_prefix && !s.optional_mtls);
    let p = TenantRouting::path_prefix();
    assert!(!p.subdomain && p.path_prefix && !p.optional_mtls);
    let a = TenantRouting::all();
    assert!(a.subdomain && a.path_prefix && a.optional_mtls);
    assert_eq!(TenantRouting::default(), TenantRouting { subdomain: false, path_prefix: false, optional_mtls: false });
}

#[test]
fn build_without_store_is_refused() {
    assert!(matches!(ControlServerBuilder::new().build(), Err(ApiError::MissingStore)));
    assert!(matches!(ControlServer::builder().listen("x:1".to_owned()).build(), Err(ApiError::MissingStore)));
}

#[test]
fn build_uses_defaults_and_given_settings() {
    let server = ControlServerBuilder::new().memory_store().build().unwrap();
    assert_eq!(server.listen_addr(), "0.0.0.0:8080");

    let key = MachineKeyPair::random();
    let server = ControlServerBuilder::default()
        .store(MemoryStore::new())
        .listen("127.0.0.1:9000".to_owned())
        .tenant_routing(TenantRouting::all())
        .server_key(key)
        .build()
        .unwrap();
    assert_eq!(server.listen_addr(), "127.0.0.1:9000");
    assert_eq!(server.server_public_key(), key.public);
    let mut state = server.server_state();
    assert_eq!(state.key_response().public_key, key.public);
    state.store_mut().set_policy(NetworkId(9), "kept").unwrap();
    assert_eq!(state.store().get_policy(NetworkId(9)).unwrap().as_deref(), Some("kept"));
}

#[test]
fn control_server_store_is_usable() {
    let mut server = ControlServerBuilder::new().memory_store().build().unwrap();
    server.store_mut().set_policy(NetworkId(1), "p").unwrap();
    assert_eq!(server.store().get_policy(NetworkId(1)).unwrap().as_deref(), Some("p"));
}

#[test]
fn built_server_holds_the_given_store() {
    let mut given = MemoryStore::new();
    given.set_policy(NetworkId(7), "given").unwrap();
    let mut server = ControlServerBuilder::new().memory_store().store(given).build().unwrap();
    assert_eq!(server.store().get_policy(NetworkId(7)).unwrap().as_deref(), Some("given"));
    server.store_mut().set_policy(NetworkId(7), "changed").unwrap();
    assert_eq!(server.store().get_policy(NetworkId(7)).unwrap().as_deref(), Some("changed"));

    let fresh = ControlServerBuilder::new().store(MemoryStore::new()).memory_store().build().unwrap();
    assert!(fresh.store().list_networks().unwrap().is_empty());
    assert_eq!(fresh.store().get_node(NodeId(1)).unwrap().map(|n| n.id), None);
}

#[test]
fn events_compare_by_their_fields() {
    let a = Event::NodeOnline { network: NetworkId(1), node: NodeId(2) };
    assert_eq!(a, Event::NodeOnline { network: NetworkId(1), node: NodeId(2) });
    assert_ne!(a, Event::NodeOffline { network: NetworkId(1), node: NodeId(2) });
    assert_ne!(a, Event::NodeRegistered { network: NetworkId(1), node: NodeId(3) });
}

#[test]
fn get_key_advertises_the_server_public_key() {
    let key = MachineKeyPair::random();
    let mut state = ServerState::new(key, StoreBackend::new(MemoryStore::new()));
    state.store_mut().set_policy(NetworkId(3), "shared").unwrap();
    assert_eq!(state.store().get_policy(NetworkId(3)).unwrap().as_deref(), Some("shared"));
    let resp = state.key_response();
    assert_eq!(resp.public_key, key.public);
    assert_eq!(resp.legacy_public_key.0, [0u8; 32]);
    assert_eq!(state.server_private().0, key.private.0);
}

#[test]
fn ts2021_upgrade_requires_a_non_empty_upgrade_header_then_a_handshake() {
    let d = ts2021_upgrade(None, Some("abc"));
    assert!(matches!(d, UpgradeDecision::MissingUpgrade));
    assert_eq!(d.status(), 500);
    assert_eq!(d.body(), "missing upgrade header");
    let d = ts2021_upgrade(Some(b""), Some("abc"));
    assert!(matches!(d, UpgradeDecision::MissingUpgrade));
    let d = ts2021_upgrade(Some(b"anything"), None);
    assert!(matches!(d, UpgradeDecision::MissingHandshake));
    assert_eq!(d.status(), 400);
    assert_eq!(d.body(), "missing handshake header");
    let d = ts2021_upgrade(Some(b"tailscale-control-protocol"), Some("abc"));
    assert_eq!(d.status(), 101);
    assert_eq!(d.upgrade_token(), Some("tailscale-control-protocol"));
    match d {
        UpgradeDecision::SwitchProtocols { initiation_b64 } => assert_eq!(initiation_b64, "abc"),
        _ => panic!("expected an upgrade"),
    }
}

#[test]
fn framed_io_hands_out_chunks_in_order() {
    let mut io = FramedIo::new(17u32);
    assert!(!io.has_chunk());
    assert_eq!(io.buffered(), &[] as &[u8]);
    io.offer(vec![]);
    assert!(!io.has_chunk());
    io.offer(b"hello".to_vec());
    assert!(io.has_chunk());
    assert_eq!(io.read(2), b"he".to_vec());
    assert_eq!(io.buffered(), b"llo");
    io.consume(1);
    assert_eq!(io.read(10), b"lo".to_vec());
    assert!(!io.has_chunk());
    assert_eq!(io.read(10), Vec::<u8>::new());
    io.consume(0);
    *io.inner_mut() += 1;
    assert_eq!(*io.inner(), 18);
}

#[test]
fn fill_steps_follow_what_the_inner_stream_gave() {
    let mut io = FramedIo::new(0u8);
    assert_eq!(io.fill_next(), FillStep::PollInner);
    assert_eq!(io.on_polled(Polled::Pending), FillStep::Wait);
    assert_eq!(io.on_polled(Polled::Chunk(vec![])), FillStep::PollInner);
    assert_eq!(io.on_polled(Polled::Chunk(b"ab".to_vec())), FillStep::Buffered);
    assert_eq!(io.fill_next(), FillStep::Buffered);
    assert_eq!(io.read(5), b"ab".to_vec());
    assert_eq!(io.on_polled(Polled::Failed), FillStep::Fail);
    assert_eq!(io.on_polled(Polled::Ended), FillStep::EndOfStream);
}

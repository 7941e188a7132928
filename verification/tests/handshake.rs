use base64::Engine;
use bytes::BytesMut;
use oxiscale::early_noise::write_early_noise;
use oxiscale::handshake::{
    accept, parse_initiation, prologue_for, InitiationDefect, NoiseError, INIT_PAYLOAD_LEN,
    MESSAGE_TYPE_INITIATION, MESSAGE_TYPE_RESPONSE, RESPONSE_PAYLOAD_LEN,
};
use oxiscale::keys::{MachineKeyPair, MachinePrivateKey, MachinePublicKey};
use oxiscale::tailcfg::EARLY_NOISE_MAGIC;
use tokio_util::codec::{Decoder, Encoder};
use ts_capabilityversion::CapabilityVersion;
use ts_keys::ExportableKey;

fn prologue_string(capver: CapabilityVersion) -> String {
    format!("Tailscale Control Protocol v{}", u16::from(capver))
}

/// A client key pair of `ts_keys` and its bytes as the library holds them.
fn client_pair() -> (ts_keys::MachineKeyPair, MachinePublicKey) {
    let pair = ts_keys::MachineKeyPair::random();
    let public = MachinePublicKey::from_bytes(*pair.public.export().as_bytes());
    (pair, public)
}

fn ts_public(key: &MachinePublicKey) -> ts_keys::MachinePublicKey {
    ts_keys::MachinePublicKey::from_bytes(key.0)
}

fn encode_initiation(capver: u16, payload: &[u8]) -> String {
    let mut raw = vec![(capver >> 8) as u8, (capver & 0xff) as u8, 0x01, 0x00, 96];
    raw.extend_from_slice(payload);
    base64::engine::general_purpose::STANDARD.encode(raw)
}

#[test]
fn responder_completes_handshake_and_round_trips_encrypted_data() {
    let server = MachineKeyPair::random();
    let (client, client_public) = client_pair();
    let capver = CapabilityVersion::V113;
    let prologue = prologue_string(capver);

    let mut init = [0u8; ts_noise::ik::SentHandshake::INIT_SIZE];
    let sent = ts_noise::ik::SentHandshake::new(
        client.to_x25519_dalek(),
        ts_public(&server.public).to_x25519_dalek(),
        prologue.as_bytes(),
        &mut init,
    );
    let init_b64 = encode_initiation(u16::from(capver), &init);

    let accepted = accept(&server.private, &init_b64).expect("responder accepts handshake");
    assert_eq!(accepted.capability_version, 113);
    assert_eq!(accepted.peer_machine_key, client_public);
    assert_eq!(accepted.response.len(), 3 + 48);
    assert_eq!(&accepted.response[..3], &[0x02, 0x00, 48]);

    let mut resp = accepted.response[3..].to_vec();
    let client_session = match sent.try_finish(&mut resp, client.to_x25519_dalek()) {
        Ok(session) => session,
        Err(_) => panic!("initiator completes handshake"),
    };
    let mut server_codec = ts_control_noise::BiCodec::from(accepted.session);
    let mut client_codec = ts_control_noise::BiCodec::from(client_session);

    let mut wire = BytesMut::new();
    server_codec.encode(&b"hello-from-server"[..], &mut wire).unwrap();
    let greeting = client_codec.decode(&mut wire).unwrap().unwrap();
    assert_eq!(&greeting[..], b"hello-from-server");

    let mut wire = BytesMut::new();
    client_codec.encode(&b"hi-from-cli"[..], &mut wire).unwrap();
    let reply = server_codec.decode(&mut wire).unwrap().unwrap();
    assert_eq!(&reply[..], b"hi-from-cli");
}

#[test]
fn early_noise_frame_is_magic_then_be_len_then_json() {
    let server = MachineKeyPair::random();
    let (client, _) = client_pair();
    let capver = CapabilityVersion::V113;
    let (_handshake, init_b64) = ts_control_noise::Handshake::initialize(
        &prologue_string(capver),
        &client,
        &ts_public(&server.public),
        capver,
    );
    let accepted = accept(&server.private, &init_b64).unwrap();
    let challenge = ts_keys::ChallengePublicKey::from_bytes(accepted.node_key_challenge.0);
    let json = format!("{{\"NodeKeyChallenge\":\"{}\"}}", challenge);

    let mut frame = Vec::new();
    write_early_noise(&mut frame, json.as_bytes());
    assert_eq!(&frame[..5], &EARLY_NOISE_MAGIC, "EarlyNoise magic");
    let json_len = u32::from_be_bytes([frame[5], frame[6], frame[7], frame[8]]) as usize;
    assert_eq!(json_len, json.len());
    assert_eq!(&frame[9..], json.as_bytes());
    assert!(String::from_utf8(frame[9..].to_vec()).unwrap().contains("chalpub:"));
}

#[test]
fn capability_version_below_minimum_is_rejected() {
    let server = MachineKeyPair::random();
    let (client, _) = client_pair();
    let capver = CapabilityVersion::V112;
    let (_handshake, init_b64) = ts_control_noise::Handshake::initialize(
        &prologue_string(capver),
        &client,
        &ts_public(&server.public),
        capver,
    );
    let result = accept(&server.private, &init_b64);
    assert!(matches!(result, Err(NoiseError::UnsupportedVersion { got: 112, min: 113 })));
}

#[test]
fn garbage_initiation_is_rejected() {
    let server = MachineKeyPair::random();
    let result = accept(&server.private, "not-base64-at-all!!");
    assert!(matches!(result, Err(NoiseError::Base64(_))));
}

#[test]
fn initiation_under_another_server_key_fails_to_authenticate() {
    let server = MachineKeyPair::random();
    let other = MachineKeyPair::random();
    let (client, _) = client_pair();
    let capver = CapabilityVersion::V113;
    let (_handshake, init_b64) = ts_control_noise::Handshake::initialize(
        &prologue_string(capver),
        &client,
        &ts_public(&other.public),
        capver,
    );
    assert!(matches!(accept(&server.private, &init_b64), Err(NoiseError::HandshakeFailed)));
}

#[test]
fn initiation_with_padding_whitespace_is_trimmed() {
    let server = MachineKeyPair::random();
    let (client, client_public) = client_pair();
    let capver = CapabilityVersion::V113;
    let (_handshake, init_b64) = ts_control_noise::Handshake::initialize(
        &prologue_string(capver),
        &client,
        &ts_public(&server.public),
        capver,
    );
    let padded = format!("  {}\n", init_b64);
    let accepted = accept(&server.private, &padded).unwrap();
    assert_eq!(accepted.peer_machine_key, client_public);
}

#[test]
fn initiation_defects_are_reported_in_check_order() {
    let payload = [7u8; 96];
    let mut ok = vec![0x00, 0x71, 0x01, 0x00, 96];
    ok.extend_from_slice(&payload);
    let init = parse_initiation(&ok).unwrap();
    assert_eq!(init.capability_version, 113);
    assert_eq!(init.payload, payload.to_vec());

    assert!(matches!(
        parse_initiation(&ok[..100]),
        Err(NoiseError::BadInitiation(InitiationDefect::TooShort))
    ));
    let mut old = ok.clone();
    old[1] = 0x70;
    old[2] = 0x09;
    assert!(matches!(
        parse_initiation(&old),
        Err(NoiseError::UnsupportedVersion { got: 112, min: 113 })
    ));
    let mut wrong_type = ok.clone();
    wrong_type[2] = 0x02;
    assert!(matches!(
        parse_initiation(&wrong_type),
        Err(NoiseError::BadInitiation(InitiationDefect::NotInitiation))
    ));
    let mut wrong_len = ok.clone();
    wrong_len[4] = 95;
    assert!(matches!(
        parse_initiation(&wrong_len),
        Err(NoiseError::BadInitiation(InitiationDefect::UnexpectedPayloadLength))
    ));
    let mut longer = ok.clone();
    longer.push(0xaa);
    assert_eq!(parse_initiation(&longer).unwrap().payload, payload.to_vec());
    let mut high = ok.clone();
    high[0] = 0x01;
    high[1] = 0x00;
    assert_eq!(parse_initiation(&high).unwrap().capability_version, 256);

    assert_eq!(InitiationDefect::TooShort.message(), "initiation too short");
    assert_eq!(InitiationDefect::NotInitiation.message(), "not an initiation message");
    assert_eq!(
        InitiationDefect::UnexpectedPayloadLength.message(),
        "unexpected initiation payload length"
    );
}

#[test]
fn prologue_binds_the_capability_version_in_decimal() {
    assert_eq!(prologue_for(113), b"Tailscale Control Protocol v113".to_vec());
    assert_eq!(prologue_for(0), b"Tailscale Control Protocol v0".to_vec());
    assert_eq!(prologue_for(9), b"Tailscale Control Protocol v9".to_vec());
    assert_eq!(prologue_for(10), b"Tailscale Control Protocol v10".to_vec());
    assert_eq!(prologue_for(65535), b"Tailscale Control Protocol v65535".to_vec());
    assert_ne!(prologue_for(113), prologue_for(138));
}

#[test]
fn wire_sizes_match_the_noise_crates() {
    assert_eq!(INIT_PAYLOAD_LEN, ts_noise::ik::SentHandshake::INIT_SIZE);
    assert_eq!(RESPONSE_PAYLOAD_LEN, ts_noise::ik::ReceivedHandshake::RESP_SIZE);
    assert_eq!(INIT_PAYLOAD_LEN, ts_control_noise::Initiation::PAYLOAD_LEN);
    assert_eq!(MESSAGE_TYPE_INITIATION, ts_control_noise::MessageType::Initiation as u8);
    assert_eq!(MESSAGE_TYPE_RESPONSE, ts_control_noise::MessageType::Response as u8);
}

#[test]
fn private_key_bytes_round_trip_through_the_key_crate() {
    let pair = MachineKeyPair::random();
    let private = ts_keys::Export::<ts_keys::MachinePrivateKey>::from_bytes(pair.private.0).import();
    assert_eq!(*private.public_key().export().as_bytes(), pair.public.0);
    let same = MachinePrivateKey::from_bytes(pair.private.0);
    assert_eq!(same.0, pair.private.0);
}

#[test]
fn early_noise_frame_of_an_empty_body_is_the_header_alone() {
    let mut frame = vec![0xaa];
    write_early_noise(&mut frame, b"");
    assert_eq!(frame, vec![0xaa, 0xff, 0xff, 0xff, b'T', b'S', 0, 0, 0, 0]);
    let mut big = Vec::new();
    let body = vec![b'x'; 0x1_0203];
    write_early_noise(&mut big, &body);
    assert_eq!(&big[5..9], &[0x00, 0x01, 0x02, 0x03]);
    assert_eq!(big.len(), 9 + body.len());
}

#[test]
fn ts2021_upgrade_completes_handshake_and_emits_early_noise() {
    let server = MachineKeyPair::random();
    let (client, _) = client_pair();
    let capver = CapabilityVersion::V113;
    let prologue = prologue_string(capver);

    let mut init = [0u8; ts_noise::ik::SentHandshake::INIT_SIZE];
    let sent = ts_noise::ik::SentHandshake::new(
        client.to_x25519_dalek(),
        ts_public(&server.public).to_x25519_dalek(),
        prologue.as_bytes(),
        &mut init,
    );
    let init_b64 = encode_initiation(u16::from(capver), &init);

    let decision = oxiscale::server::ts2021_upgrade(Some(b"tailscale-control-protocol"), Some(&init_b64));
    assert_eq!(decision.status(), 101);
    let header_value = match decision {
        oxiscale::server::UpgradeDecision::SwitchProtocols { initiation_b64 } => initiation_b64,
        _ => panic!("expected an upgrade"),
    };

    let state = oxiscale::server::ServerState::new(
        server,
        oxiscale::store::traits::StoreBackend::new(oxiscale::store::MemoryStore::new()),
    );
    let accepted = accept(&state.server_private(), &header_value)
        .expect("initiator completes handshake against the server");
    let mut resp = accepted.response[3..].to_vec();
    let client_session = match sent.try_finish(&mut resp, client.to_x25519_dalek()) {
        Ok(session) => session,
        Err(_) => panic!("initiator completes handshake against the server"),
    };

    let challenge = ts_keys::ChallengePublicKey::from_bytes(accepted.node_key_challenge.0);
    let json = format!("{{\"NodeKeyChallenge\":\"{}\"}}", challenge);
    let mut frame = Vec::new();
    write_early_noise(&mut frame, json.as_bytes());

    let mut server_codec = ts_control_noise::BiCodec::from(accepted.session);
    let mut client_codec = ts_control_noise::BiCodec::from(client_session);
    let mut wire = BytesMut::new();
    server_codec.encode(&frame[..], &mut wire).unwrap();
    let plain = client_codec.decode(&mut wire).unwrap().unwrap();

    assert_eq!(&plain[..5], &EARLY_NOISE_MAGIC[..], "EarlyNoise magic");
    let json_len = u32::from_be_bytes([plain[5], plain[6], plain[7], plain[8]]) as usize;
    let body = String::from_utf8(plain[9..9 + json_len].to_vec()).unwrap();
    assert!(body.contains("\"NodeKeyChallenge\":\"chalpub:"), "challenge key uses the chalpub: codec");
}

#[test]
fn random_key_pair_public_half_derives_from_private_half() {
    let pair = MachineKeyPair::random();
    let secret = x25519_dalek::StaticSecret::from(pair.private.0);
    assert_eq!(x25519_dalek::PublicKey::from(&secret).to_bytes(), pair.public.0);
}

#[test]
fn early_noise_payload_parses_back_to_the_challenge() {
    let server = MachineKeyPair::random();
    let (client, _) = client_pair();
    let capver = CapabilityVersion::V113;
    let (_handshake, init_b64) = ts_control_noise::Handshake::initialize(
        &prologue_string(capver),
        &client,
        &ts_public(&server.public),
        capver,
    );
    let accepted = accept(&server.private, &init_b64).unwrap();
    let challenge = ts_keys::ChallengePublicKey::from_bytes(accepted.node_key_challenge.0);
    let mut fields = serde_json::Map::new();
    fields.insert("NodeKeyChallenge".to_owned(), serde_json::Value::String(challenge.to_string()));
    let payload = serde_json::to_vec(&serde_json::Value::Object(fields)).unwrap();

    let mut frame = Vec::new();
    write_early_noise(&mut frame, &payload);
    let json_len = u32::from_be_bytes([frame[5], frame[6], frame[7], frame[8]]) as usize;
    assert!(json_len <= 1024);
    let parsed: serde_json::Value = serde_json::from_slice(&frame[9..9 + json_len]).unwrap();
    let text = parsed["NodeKeyChallenge"].as_str().expect("challenge field");
    assert!(text.starts_with("chalpub:"), "challenge key uses the chalpub: codec");
    let back: ts_keys::ChallengePublicKey = text.parse().unwrap();
    assert_eq!(*back.export().as_bytes(), accepted.node_key_challenge.0);
}

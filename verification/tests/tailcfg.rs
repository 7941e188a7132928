use oxiscale::keys::{ChallengePublicKey, MachinePublicKey};
use oxiscale::tailcfg::{
    EarlyNoise, OverTLSPublicKeyResponse, EARLY_NOISE_MAGIC, KEEPALIVE_INTERVAL_SECS,
    MIN_SUPPORTED_CAPABILITY_VERSION, PATH_KEY, PATH_MACHINE_MAP, PATH_MACHINE_REGISTER,
    PATH_TS2021, UPGRADE_TS2021,
};

#[test]
fn min_supported_is_v1_80_baseline() {
    assert_eq!(MIN_SUPPORTED_CAPABILITY_VERSION, 113);
}

#[test]
fn early_noise_magic_is_the_five_byte_ts_marker() {
    assert_eq!(&EARLY_NOISE_MAGIC, b"\xff\xff\xffTS");
    assert_eq!(EARLY_NOISE_MAGIC.len(), 5);
}

#[test]
fn upgrade_token_is_the_wire_value_not_the_protocol_nickname() {
    assert_eq!(UPGRADE_TS2021, "tailscale-control-protocol");
    assert_ne!(UPGRADE_TS2021, "TS2021");
}

#[test]
fn routes_and_keepalive_match_the_protocol_reference() {
    assert_eq!(PATH_KEY, "/key");
    assert_eq!(PATH_TS2021, "/ts2021");
    assert_eq!(PATH_MACHINE_REGISTER, "/machine/register");
    assert_eq!(PATH_MACHINE_MAP, "/machine/map");
    assert_eq!(KEEPALIVE_INTERVAL_SECS, 50);
}

#[test]
fn over_tls_response_advertises_the_key_with_a_zero_legacy_key() {
    let pk = MachinePublicKey::from_bytes([0x11; 32]);
    let resp = OverTLSPublicKeyResponse::new(pk);
    assert_eq!(resp.public_key, pk);
    assert_eq!(resp.legacy_public_key, MachinePublicKey::from_bytes([0u8; 32]));
    assert_eq!(resp.legacy_public_key.0, [0u8; 32]);
}

#[test]
fn early_noise_carries_the_challenge_key() {
    let challenge = ChallengePublicKey::from_bytes([0x22; 32]);
    let en = EarlyNoise { node_key_challenge: challenge };
    assert_eq!(en.node_key_challenge.0, [0x22; 32]);
    assert_ne!(en.node_key_challenge, ChallengePublicKey::from_bytes([0x23; 32]));
}

//! The TS2021 Noise IK handshake, responder side.
//!
//! The client's initiation arrives base64-encoded in the `X-Tailscale-Handshake`
//! header as `[capver u16 BE][type u8][len u16 BE][96-byte Noise msg1]`. This
//! module decodes and checks it, runs the IK responder maths of `ts_noise`,
//! and produces the controlbase response frame `[0x02][len u16 BE][msg2]` that
//! the transport then writes on the hijacked connection.

use vstd::prelude::*;
use vstd::slice::{slice_subrange, slice_to_vec};
use crate::keys::{ChallengePublicKey, MachinePrivateKey, MachinePublicKey};
use crate::tailcfg::MIN_SUPPORTED_CAPABILITY_VERSION;

verus! {

#[verifier::external_type_specification]
#[verifier::external_body]
pub struct ExDecodeError(base64::DecodeError);

#[verifier::external_type_specification]
#[verifier::external_body]
pub struct ExReceivedHandshake(ts_noise::ik::ReceivedHandshake);

#[verifier::external_type_specification]
#[verifier::external_body]
pub struct ExSession(ts_noise::core::Session);

/// Length of the Noise IK initiation payload (`e`, encrypted `s` with its tag,
/// and the payload tag).
pub const INIT_PAYLOAD_LEN: usize = 96;

/// controlbase message header: 1-byte type + 2-byte BE length.
pub const CONTROLBASE_HEADER_LEN: usize = 3;

/// The initiation message (alone) is prefixed by a 2-byte capability version.
pub const CAPVER_PREFIX_LEN: usize = 2;

/// Length of the Noise IK response payload (`e` and the auth tag).
pub const RESPONSE_PAYLOAD_LEN: usize = 48;

/// controlbase message type of an initiation.
pub const MESSAGE_TYPE_INITIATION: u8 = 1;

/// controlbase message type of a response.
pub const MESSAGE_TYPE_RESPONSE: u8 = 2;

/// What is wrong with a malformed initiation message.
#[derive(Debug, Clone, Copy, PartialEq, Eq, Structural)]
pub enum InitiationDefect {
    /// Fewer bytes than capability version, header and payload need.
    TooShort,
    /// The header's message type is not an initiation.
    NotInitiation,
    /// The header's length is not the Noise IK initiation length.
    UnexpectedPayloadLength,
}

impl InitiationDefect {
    /// The human-readable description of the defect.
    pub fn message(&self) -> (text: &'static str)
        ensures
            text@ == match self {
                InitiationDefect::TooShort => "initiation too short"@,
                InitiationDefect::NotInitiation => "not an initiation message"@,
                InitiationDefect::UnexpectedPayloadLength => "unexpected initiation payload length"@,
            },
    {
        match self {
            InitiationDefect::TooShort => "initiation too short",
            InitiationDefect::NotInitiation => "not an initiation message",
            InitiationDefect::UnexpectedPayloadLength => "unexpected initiation payload length",
        }
    }
}

/// Errors raised while accepting a TS2021 Noise handshake (responder side).
#[derive(Debug)]
pub enum NoiseError {
    /// The `X-Tailscale-Handshake` value was not valid base64.
    Base64(base64::DecodeError),
    /// The initiation message was malformed.
    BadInitiation(InitiationDefect),
    /// The Noise IK handshake failed to authenticate.
    HandshakeFailed,
    /// The client advertised a capability version below the server's minimum.
    UnsupportedVersion { got: u16, min: u16 },
}

/// A well-formed initiation: the advertised capability version and the Noise msg1.
pub struct Initiation {
    pub capability_version: u16,
    pub payload: Vec<u8>,
}

/// A big-endian 16-bit number from its two bytes.
pub open spec fn be16(hi: u8, lo: u8) -> int {
    hi as int * 256 + lo as int
}

/// The outcome of checking a decoded initiation message: the capability
/// version and the 96-byte Noise payload, or the first check that fails, in
/// the order length, capability version, message type, declared length.
pub open spec fn initiation_outcome(raw: Seq<u8>) -> Result<(u16, Seq<u8>), NoiseError> {
    if raw.len() < 101 {
        Err(NoiseError::BadInitiation(InitiationDefect::TooShort))
    } else if be16(raw[0], raw[1]) < MIN_SUPPORTED_CAPABILITY_VERSION {
        Err(NoiseError::UnsupportedVersion {
            got: be16(raw[0], raw[1]) as u16,
            min: MIN_SUPPORTED_CAPABILITY_VERSION,
        })
    } else if raw[2] != MESSAGE_TYPE_INITIATION {
        Err(NoiseError::BadInitiation(InitiationDefect::NotInitiation))
    } else if be16(raw[3], raw[4]) != 96 {
        Err(NoiseError::BadInitiation(InitiationDefect::UnexpectedPayloadLength))
    } else {
        Ok((be16(raw[0], raw[1]) as u16, raw.subrange(5, 101)))
    }
}

/// The encoded initiation a client sends: capability version, header, payload.
pub open spec fn initiation_bytes(capability_version: u16, payload: Seq<u8>) -> Seq<u8> {
    seq![
        (capability_version / 256) as u8,
        (capability_version % 256) as u8,
        MESSAGE_TYPE_INITIATION,
        0u8,
        96u8,
    ] + payload
}

/// Checks a decoded initiation message and extracts its parts.
pub fn parse_initiation(raw: &[u8]) -> (r: Result<Initiation, NoiseError>)
    ensures
        match r {
            Ok(init) => initiation_outcome(raw@) == Ok::<(u16, Seq<u8>), NoiseError>(
                (init.capability_version, init.payload@),
            ),
            Err(e) => initiation_outcome(raw@) == Err::<(u16, Seq<u8>), NoiseError>(e),
        },
{
    if raw.len() < CAPVER_PREFIX_LEN + CONTROLBASE_HEADER_LEN + INIT_PAYLOAD_LEN {
        return Err(NoiseError::BadInitiation(InitiationDefect::TooShort));
    }
    let capability_version: u16 = (raw[0] as u16) * 256 + (raw[1] as u16);
    let min = MIN_SUPPORTED_CAPABILITY_VERSION;
    if capability_version < min {
        return Err(NoiseError::UnsupportedVersion { got: capability_version, min });
    }
    if raw[2] != MESSAGE_TYPE_INITIATION {
        return Err(NoiseError::BadInitiation(InitiationDefect::NotInitiation));
    }
    let body_len: u16 = (raw[3] as u16) * 256 + (raw[4] as u16);
    if body_len as usize != INIT_PAYLOAD_LEN {
        return Err(NoiseError::BadInitiation(InitiationDefect::UnexpectedPayloadLength));
    }
    let payload_start = CAPVER_PREFIX_LEN + CONTROLBASE_HEADER_LEN;
    let payload = slice_to_vec(slice_subrange(raw, payload_start, payload_start + INIT_PAYLOAD_LEN));
    Ok(Initiation { capability_version, payload })
}

/// Every initiation a client encodes with a supported capability version and a
/// 96-byte payload is accepted by the checks, which give both back unchanged;
/// one with an older capability version is refused with that version.
pub proof fn lemma_initiation_round_trip(capability_version: u16, payload: Seq<u8>)
    requires
        payload.len() == 96,
    ensures
        capability_version >= MIN_SUPPORTED_CAPABILITY_VERSION ==> initiation_outcome(
            initiation_bytes(capability_version, payload),
        ) == Ok::<(u16, Seq<u8>), NoiseError>((capability_version, payload)),
        capability_version < MIN_SUPPORTED_CAPABILITY_VERSION ==> initiation_outcome(
            initiation_bytes(capability_version, payload),
        ) == Err::<(u16, Seq<u8>), NoiseError>(
            NoiseError::UnsupportedVersion {
                got: capability_version,
                min: MIN_SUPPORTED_CAPABILITY_VERSION,
            },
        ),
{
    let raw = initiation_bytes(capability_version, payload);
    assert(raw.len() == 101);
    assert(raw[0] == (capability_version / 256) as u8);
    assert(raw[1] == (capability_version % 256) as u8);
    assert(be16(raw[0], raw[1]) == capability_version);
    assert(raw[2] == MESSAGE_TYPE_INITIATION);
    assert(be16(raw[3], raw[4]) == 96);
    assert(raw.subrange(5, 101) =~= payload);
}

/// Whatever the bytes, an initiation that passes the checks advertises at
/// least the minimum supported capability version and carries a 96-byte payload.
pub proof fn lemma_accepted_initiations_are_supported(raw: Seq<u8>)
    ensures
        initiation_outcome(raw) matches Ok((cv, payload)) ==> cv >= MIN_SUPPORTED_CAPABILITY_VERSION
            && payload.len() == INIT_PAYLOAD_LEN,
{
}

/// A complete initiation from a client older than the minimum is refused for
/// its version, whatever follows the version.
pub proof fn lemma_old_clients_are_refused(raw: Seq<u8>)
    requires
        raw.len() >= 101,
        be16(raw[0], raw[1]) < MIN_SUPPORTED_CAPABILITY_VERSION,
    ensures
        initiation_outcome(raw) == Err::<(u16, Seq<u8>), NoiseError>(
            NoiseError::UnsupportedVersion {
                got: be16(raw[0], raw[1]) as u16,
                min: MIN_SUPPORTED_CAPABILITY_VERSION,
            },
        ),
{
}

// ---------------------------------------------------------------------------
// The Noise prologue: "Tailscale Control Protocol v<capver>"

/// The ASCII decimal digits of `n`, most significant first, without leading zeros.
pub open spec fn decimal_digits(n: nat) -> Seq<u8>
    decreases n,
{
    if n < 10 {
        seq![(48 + n) as u8]
    } else {
        decimal_digits(n / 10).push((48 + n % 10) as u8)
    }
}

/// The number that a sequence of ASCII decimal digits denotes.
pub open spec fn decimal_value(s: Seq<u8>) -> int
    decreases s.len(),
{
    if s.len() == 0 {
        0
    } else {
        decimal_value(s.drop_last()) * 10 + (s.last() - 48)
    }
}

/// The ASCII bytes of `Tailscale Control Protocol v`.
pub open spec fn prologue_prefix() -> Seq<u8> {
    seq![
        84u8, 97, 105, 108, 115, 99, 97, 108, 101, 32,
        67, 111, 110, 116, 114, 111, 108, 32,
        80, 114, 111, 116, 111, 99, 111, 108, 32, 118,
    ]
}

/// The Noise prologue both peers mix in: it binds the capability version.
pub open spec fn prologue_spec(capability_version: u16) -> Seq<u8> {
    prologue_prefix() + decimal_digits(capability_version as nat)
}

/// The decimal digits of a number denote that number, and there is at least one.
pub proof fn lemma_decimal_digits_value(n: nat)
    ensures
        decimal_value(decimal_digits(n)) == n,
        decimal_digits(n).len() >= 1,
    decreases n,
{
    if n < 10 {
        let d = decimal_digits(n);
        assert(d.drop_last() =~= Seq::<u8>::empty());
        assert(d.last() == 48 + n);
        assert(decimal_value(d) == decimal_value(d.drop_last()) * 10 + (d.last() - 48));
    } else {
        lemma_decimal_digits_value(n / 10);
        let d = decimal_digits(n);
        assert(d.drop_last() =~= decimal_digits(n / 10));
        assert(d.last() == 48 + n % 10);
        assert(decimal_value(d) == decimal_value(d.drop_last()) * 10 + (d.last() - 48));
        assert(n == (n / 10) * 10 + n % 10);
    }
}

fn push_decimal(out: &mut Vec<u8>, n: u16)
    ensures
        final(out)@ == old(out)@ + decimal_digits(n as nat),
    decreases n,
{
    if n >= 10 {
        push_decimal(out, n / 10);
    }
    let digit: u8 = (48 + n % 10) as u8;
    let ghost before = out@;
    out.push(digit);
    proof {
        if n >= 10 {
            assert(decimal_digits(n as nat) == decimal_digits((n / 10) as nat).push(digit));
            assert(out@ =~= old(out)@ + decimal_digits(n as nat));
        } else {
            assert(decimal_digits(n as nat) =~= seq![digit]);
            assert(out@ =~= old(out)@ + decimal_digits(n as nat));
        }
    }
}

/// The Noise prologue for a capability version, as bytes.
pub fn prologue_for(capability_version: u16) -> (p: Vec<u8>)
    ensures
        p@ == prologue_spec(capability_version),
{
    let mut p: Vec<u8> = vec![
        84u8, 97, 105, 108, 115, 99, 97, 108, 101, 32,
        67, 111, 110, 116, 114, 111, 108, 32,
        80, 114, 111, 116, 111, 99, 111, 108, 32, 118,
    ];
    assert(p@ =~= prologue_prefix());
    push_decimal(&mut p, capability_version);
    p
}

/// Distinct capability versions give distinct prologues, so a peer that mixes
/// in another version derives another handshake hash.
pub proof fn lemma_prologue_injective(a: u16, b: u16)
    requires
        prologue_spec(a) == prologue_spec(b),
    ensures
        a == b,
{
    let n = prologue_prefix().len() as int;
    assert(prologue_spec(a).subrange(n, prologue_spec(a).len() as int) =~= decimal_digits(a as nat));
    assert(prologue_spec(b).subrange(n, prologue_spec(b).len() as int) =~= decimal_digits(b as nat));
    lemma_decimal_digits_value(a as nat);
    lemma_decimal_digits_value(b as nat);
}

// ---------------------------------------------------------------------------
// Calls into `base64`, `std` and `ts_noise`

/// What `str::trim` gives back for a string: it with leading and trailing
/// Unicode white space removed.
pub uninterp spec fn str_trimmed(s: Seq<char>) -> Seq<char>;

/// `str::trim`; its result is named by `str_trimmed`.
#[verifier::external_body]
fn trim(s: &str) -> (t: &str)
    ensures
        t@ == str_trimmed(s@),
{
    s.trim()
}

/// What the standard (padded) base64 engine decodes a string's UTF-8 bytes
/// to, or `None` where it reports an error.
pub uninterp spec fn base64_standard_decoded(input: Seq<char>) -> Option<Seq<u8>>;

/// `base64::Engine::decode` with `base64::engine::general_purpose::STANDARD`;
/// its result is named by `base64_standard_decoded`, an error by `None`.
#[verifier::external_body]
fn base64_decode(input: &str) -> (r: Result<Vec<u8>, base64::DecodeError>)
    ensures
        match r {
            Ok(bytes) => base64_standard_decoded(input@) == Some(bytes@),
            Err(_) => base64_standard_decoded(input@) is None,
        },
{
    base64::Engine::decode(&base64::engine::general_purpose::STANDARD, input)
}

/// The static public key of the initiator that `ts_noise`'s IK responder
/// recovers from an initiation payload under a prologue and the responder's
/// private key, or `None` where the initiation does not authenticate.
pub uninterp spec fn ik_initiator_static(
    payload: Seq<u8>,
    prologue: Seq<u8>,
    responder_private: Seq<u8>,
) -> Option<Seq<u8>>;

/// `ts_noise::ik::ReceivedHandshake::new`, run with the key pair of
/// `responder_private`; the initiator's static key it recovers is named by
/// `ik_initiator_static`.
#[verifier::external_body]
fn ik_receive(payload: &[u8], prologue: &[u8], responder_private: &MachinePrivateKey) -> (r: Option<
    (ts_noise::ik::ReceivedHandshake, [u8; 32]),
>)
    ensures
        match r {
            Some(received) => ik_initiator_static(payload@, prologue@, responder_private.0@)
                == Some(received.1@),
            None => ik_initiator_static(payload@, prologue@, responder_private.0@) is None,
        },
{
    let mut packet = payload.to_vec();
    let private = ts_keys::Export::<ts_keys::MachinePrivateKey>::from_bytes(responder_private.0);
    let pair = ts_keys::MachineKeyPair::from(private.import());
    let received = ts_noise::ik::ReceivedHandshake::new(&mut packet, prologue, &pair.to_x25519_dalek())?;
    let peer = received.peer_static_pub.to_bytes();
    Some((received, peer))
}

/// `ts_noise::ik::ReceivedHandshake::finish`: the 48-byte response message and
/// the transport session. Nothing more is stated: the responder's ephemeral
/// key in it is random.
#[verifier::external_body]
fn ik_finish(received: ts_noise::ik::ReceivedHandshake) -> (r: ([u8; 48], ts_noise::core::Session)) {
    let mut response = [0u8; 48];
    let session = received.finish(&mut response);
    (response, session)
}

// ---------------------------------------------------------------------------
// The responder

/// The controlbase header of the handshake response: type 0x02, length 48 (BE).
pub open spec fn response_header() -> Seq<u8> {
    seq![MESSAGE_TYPE_RESPONSE, 0u8, 48u8]
}

/// Frames a Noise response message as a controlbase `Response`.
pub fn response_frame(response: &[u8; 48]) -> (frame: Vec<u8>)
    ensures
        frame@ == response_header() + response@,
{
    let mut frame: Vec<u8> = vec![MESSAGE_TYPE_RESPONSE, 0u8, 48u8];
    let mut i: usize = 0;
    while i < 48
        invariant
            i <= 48,
            frame@ == response_header() + response@.take(i as int),
        decreases 48 - i,
    {
        frame.push(response[i]);
        i = i + 1;
        assert(frame@ =~= response_header() + response@.take(i as int));
    }
    assert(response@.take(48) =~= response@);
    frame
}

/// The outcome of a successful responder handshake.
pub struct Accepted {
    /// The controlbase response frame to write on the connection.
    pub response: Vec<u8>,
    /// The transport session keys for the encrypted channel.
    pub session: ts_noise::core::Session,
    /// Capability version the client advertised in the initiation.
    pub capability_version: u16,
    /// The client's long-lived machine (Noise static) public key.
    pub peer_machine_key: MachinePublicKey,
    /// Server-generated per-handshake challenge public key for the EarlyNoise frame.
    pub node_key_challenge: ChallengePublicKey,
}

/// What `accept` answers for a server key and the header value of an
/// initiation: the decoding error, the first check that fails, a failed
/// authentication, or the accepted handshake (with the response frame, the
/// client's key as the IK maths found it, and a challenge key that the
/// challenge-key generator returned).
pub open spec fn accept_answer(
    server_private: MachinePrivateKey,
    initiation_b64: Seq<char>,
    r: Result<Accepted, NoiseError>,
) -> bool {
    let decoded = base64_standard_decoded(str_trimmed(initiation_b64));
    match r {
        Err(NoiseError::Base64(_)) => decoded is None,
        Err(NoiseError::HandshakeFailed) => decoded matches Some(raw) && initiation_outcome(raw) matches Ok(
            (cv, payload),
        ) && ik_initiator_static(payload, prologue_spec(cv), server_private.0@) is None,
        Err(e) => decoded matches Some(raw) && initiation_outcome(raw) == Err::<(u16, Seq<u8>), NoiseError>(e),
        Ok(accepted) => decoded matches Some(raw) && initiation_outcome(raw) matches Ok((cv, payload))
            && accepted.capability_version == cv && ik_initiator_static(
            payload,
            prologue_spec(cv),
            server_private.0@,
        ) == Some(accepted.peer_machine_key.0@) && accepted.response@.len() == 51
            && accepted.response@.take(3) == response_header() && call_ensures(
            ChallengePublicKey::random,
            (),
            accepted.node_key_challenge,
        ),
    }
}

/// The challenge key of an accepted handshake is not chosen by the
/// handshake: it is a key that the challenge-key generator
/// (`ChallengePublicKey::random`) returned, drawn for this handshake.
pub proof fn lemma_accepted_challenge_is_generated(
    server_private: MachinePrivateKey,
    initiation_b64: Seq<char>,
    accepted: Accepted,
)
    requires
        accept_answer(server_private, initiation_b64, Ok(accepted)),
    ensures
        call_ensures(ChallengePublicKey::random, (), accepted.node_key_challenge),
{
}

/// Accepts a TS2021 Noise IK handshake as the responder.
///
/// `initiation_b64` is the value of the client's `X-Tailscale-Handshake`
/// header. The initiation is decoded, checked, and authenticated under the
/// prologue that binds its capability version; on success the response frame,
/// the session, the client's machine key and a fresh challenge key come back.
pub fn accept(server_private: &MachinePrivateKey, initiation_b64: &str) -> (r: Result<
    Accepted,
    NoiseError,
>)
    ensures
        accept_answer(*server_private, initiation_b64@, r),
{
    let trimmed = trim(initiation_b64);
    let raw = match base64_decode(trimmed) {
        Ok(raw) => raw,
        Err(e) => return Err(NoiseError::Base64(e)),
    };
    let initiation = match parse_initiation(raw.as_slice()) {
        Ok(initiation) => initiation,
        Err(e) => return Err(e),
    };
    let capability_version = initiation.capability_version;
    let prologue = prologue_for(capability_version);
    let (received, peer) = match ik_receive(initiation.payload.as_slice(), prologue.as_slice(), server_private) {
        Some(found) => found,
        None => return Err(NoiseError::HandshakeFailed),
    };
    let (response, session) = ik_finish(received);
    let frame = response_frame(&response);
    assert(frame@.take(3) =~= response_header());
    let node_key_challenge = ChallengePublicKey::random();
    Ok(Accepted {
        response: frame,
        session,
        capability_version,
        peer_machine_key: MachinePublicKey(peer),
        node_key_challenge,
    })
}

} // verus!

//! Curve25519 key types of the control protocol, held as raw bytes.
//!
//! The key material itself (generation, Diffie-Hellman) comes from `ts_keys`;
//! the library keeps each key as its 32 bytes so that contracts can speak of it.

use vstd::prelude::*;
#[allow(unused_imports)]
use ts_keys::ExportableKey;

verus! {

/// A machine's long-lived public key (the Noise static identity, text prefix `mkey`).
#[derive(Clone, Copy, Debug)]
pub struct MachinePublicKey(pub [u8; 32]);

/// A machine's private key. Its bytes never leave the process.
#[derive(Clone, Copy)]
pub struct MachinePrivateKey(pub [u8; 32]);

/// A machine key pair.
#[derive(Clone, Copy)]
pub struct MachineKeyPair {
    pub public: MachinePublicKey,
    pub private: MachinePrivateKey,
}

/// The public half of a per-handshake challenge key (text prefix `chalpub`).
#[derive(Clone, Copy, Debug)]
pub struct ChallengePublicKey(pub [u8; 32]);

/// Whether two 32-byte keys are the same bytes.
fn bytes32_eq(a: &[u8; 32], b: &[u8; 32]) -> (r: bool)
    ensures
        r == (a@ == b@),
{
    let mut i: usize = 0;
    while i < 32
        invariant
            i <= 32,
            forall|j: int| 0 <= j < i ==> a@[j] == b@[j],
        decreases 32 - i,
    {
        if a[i] != b[i] {
            return false;
        }
        i = i + 1;
    }
    assert(a@ =~= b@);
    true
}

impl PartialEq for MachinePublicKey {
    fn eq(&self, other: &Self) -> (r: bool) {
        bytes32_eq(&self.0, &other.0)
    }
}

impl vstd::std_specs::cmp::PartialEqSpecImpl for MachinePublicKey {
    open spec fn obeys_eq_spec() -> bool {
        true
    }

    open spec fn eq_spec(&self, other: &Self) -> bool {
        self.0@ == other.0@
    }
}

impl Eq for MachinePublicKey {}

impl PartialEq for ChallengePublicKey {
    fn eq(&self, other: &Self) -> (r: bool) {
        bytes32_eq(&self.0, &other.0)
    }
}

impl vstd::std_specs::cmp::PartialEqSpecImpl for ChallengePublicKey {
    open spec fn obeys_eq_spec() -> bool {
        true
    }

    open spec fn eq_spec(&self, other: &Self) -> bool {
        self.0@ == other.0@
    }
}

impl Eq for ChallengePublicKey {}

/// Errors of the key text codecs.
#[derive(Debug, Clone, Copy, PartialEq, Eq, Structural)]
pub enum KeyError {
    InvalidEncoding,
}

impl MachinePublicKey {
    /// The key with the given raw bytes.
    pub fn from_bytes(bytes: [u8; 32]) -> (k: Self)
        ensures
            k.0 == bytes,
    {
        MachinePublicKey(bytes)
    }

    /// The all-zero key, emitted where a key is deprecated but must be present.
    pub fn zero() -> (k: Self)
        ensures
            k.0@ == Seq::new(32, |i: int| 0u8),
    {
        let k = MachinePublicKey([0u8; 32]);
        assert(k.0@ =~= Seq::new(32, |i: int| 0u8));
        k
    }
}

impl MachinePrivateKey {
    /// The key with the given raw bytes.
    pub fn from_bytes(bytes: [u8; 32]) -> (k: Self)
        ensures
            k.0 == bytes,
    {
        MachinePrivateKey(bytes)
    }
}

impl ChallengePublicKey {
    /// The key with the given raw bytes.
    pub fn from_bytes(bytes: [u8; 32]) -> (k: Self)
        ensures
            k.0 == bytes,
    {
        ChallengePublicKey(bytes)
    }
}

/// What `ts_keys::MachinePrivateKey::public_key` gives for a private key's
/// bytes: the bytes of its X25519 public key.
pub uninterp spec fn machine_public_key_of(private: Seq<u8>) -> Seq<u8>;

impl MachineKeyPair {
    /// A fresh random key pair, from `ts_keys::MachineKeyPair::random`, which
    /// draws a random private key and derives the public key from it with
    /// `MachinePrivateKey::public_key`.
    ///
    /// Nothing more is stated of the result: the private key is random.
    #[verifier::external_body]
    pub fn random() -> (pair: Self)
        ensures
            pair.public.0@ == machine_public_key_of(pair.private.0@),
    {
        let pair = ts_keys::MachineKeyPair::random();
        MachineKeyPair {
            public: MachinePublicKey(*pair.public.export().as_bytes()),
            private: MachinePrivateKey(*pair.private.export().as_bytes()),
        }
    }
}

impl ChallengePublicKey {
    /// A fresh challenge public key whose private half is discarded, from
    /// `ts_keys::ChallengePublicKey::random`.
    ///
    /// Nothing is stated of the result: it is random.
    #[verifier::external_body]
    pub fn random() -> (key: Self) {
        ChallengePublicKey(*ts_keys::ChallengePublicKey::random().export().as_bytes())
    }
}

} // verus!

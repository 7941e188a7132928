use vstd::prelude::*;
use std::collections::HashMap;
use super::types::{Network, Node, PreAuthKey, User};

verus! {

/// The whole persisted state: the envelope of a file snapshot and the
/// contents of the in-memory store. Policies are keyed by network id.
#[derive(Debug, Clone)]
pub struct StoreDocument {
    pub version: u32,
    pub networks: Vec<Network>,
    pub users: Vec<User>,
    pub nodes: Vec<Node>,
    pub preauth_keys: Vec<PreAuthKey>,
    pub policies: HashMap<u64, String>,
}

} // verus!

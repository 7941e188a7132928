use vstd::prelude::*;

verus! {

/// Errors of the persistence interface.
#[derive(Debug)]
pub enum StoreError {
    /// The backend does not implement the operation.
    NotImplemented,
    /// The backend's storage failed.
    Io,
    /// A snapshot could not be encoded or decoded, or its format is unsupported.
    Serde(String),
}

} // verus!

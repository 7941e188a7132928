//! The file-backed store: an in-memory copy plus a snapshot file whose
//! format follows the file's extension. Every change is made in memory and
//! answered as the in-memory store answers it; `flush` gives the whole
//! document that the snapshot file is to hold, and `load` takes in the
//! document read from it. Encoding the document in the file's format and
//! writing it (to a temporary file renamed over the snapshot, so the path
//! never holds a partial snapshot) is the host's side.

use vstd::prelude::*;
use super::document::StoreDocument;
use super::error::StoreError;
use super::memory::MemoryStore;
use super::model::{consumed, upserted, network_key, node_key, preauth_key_key, user_key, node_not};
use super::traits::{Store, StoreContents};
use super::types::{Network, NetworkId, Node, NodeId, PreAuthKey, PreAuthKeyId, User};
#[allow(unused_imports)]
use super::memory::{node_views, preauth_key_views};
#[allow(unused_imports)]
use super::model::{lookup, node_in, preauth_key_in, user_in};

verus! {

/// Snapshot file format.
#[derive(Debug, Clone, Copy, PartialEq, Eq, Structural)]
pub enum Format {
    Json,
    Yaml,
    Toml,
}

/// The format that a file extension selects: `json`, `yaml` or `yml`, `toml`.
pub open spec fn format_for_extension(ext: Seq<char>) -> Option<Format> {
    if ext == "json"@ {
        Some(Format::Json)
    } else if ext == "yaml"@ || ext == "yml"@ {
        Some(Format::Yaml)
    } else if ext == "toml"@ {
        Some(Format::Toml)
    } else {
        None
    }
}

/// What `std::path::Path::extension` gives for a path on the platform the
/// crate is built for (whose separators delimit the file name): the part of
/// its file name after the last `.`, or `None` where the file name has no
/// such part.
pub uninterp spec fn path_extension(path: Seq<char>) -> Option<Seq<char>>;

/// `std::path::Path::extension` on a path given as text; its result is named
/// by `path_extension`.
#[verifier::external_body]
fn extension_of(path: &str) -> (r: Option<String>)
    ensures
        match r {
            Some(ext) => path_extension(path@) == Some(ext@),
            None => path_extension(path@) is None,
        },
{
    match std::path::Path::new(path).extension() {
        Some(ext) => ext.to_str().map(str::to_owned),
        None => None,
    }
}

impl Format {
    /// The format a file extension selects.
    pub fn from_extension(ext: &str) -> (r: Option<Format>)
        ensures
            r == format_for_extension(ext@),
    {
        let ext = ext.to_owned();
        if ext == "json".to_owned() {
            Some(Format::Json)
        } else if ext == "yaml".to_owned() || ext == "yml".to_owned() {
            Some(Format::Yaml)
        } else if ext == "toml".to_owned() {
            Some(Format::Toml)
        } else {
            None
        }
    }

    /// The format a path's extension selects.
    pub fn from_path(path: &str) -> (r: Option<Format>)
        ensures
            r == match path_extension(path@) {
                Some(ext) => format_for_extension(ext),
                None => None,
            },
    {
        match extension_of(path) {
            Some(ext) => Format::from_extension(ext.as_str()),
            None => None,
        }
    }
}

/// The error text of a path whose extension selects no format.
pub open spec fn unsupported_extension_message() -> Seq<char> {
    "unsupported file extension; use .json, .yaml, .yml, or .toml"@
}

/// File-backed store: whole-document snapshots of an in-memory copy.
pub struct FileStore {
    path: String,
    format: Format,
    memory: MemoryStore,
}

impl FileStore {
    /// The snapshot file's path.
    pub closed spec fn path(&self) -> Seq<char> {
        self.path@
    }

    /// The snapshot format.
    pub closed spec fn format(&self) -> Format {
        self.format
    }

    /// The in-memory copy.
    pub closed spec fn memory(&self) -> MemoryStore {
        self.memory
    }

    /// A store for the snapshot at `path`, whose extension must select a format.
    pub fn open(path: &str) -> (r: Result<Self, StoreError>)
        ensures
            match r {
                Ok(store) => Format::from_path_spec(path@) == Some(store.format()) && store.path()
                    == path@ && store.memory().networks().len() == 0 && store.memory().users().len()
                    == 0 && store.memory().nodes().len() == 0 && store.memory().preauth_keys().len()
                    == 0 && store.memory().policies() == Map::<u64, String>::empty()
                    && store.memory().version() == 1,
                Err(e) => Format::from_path_spec(path@) is None && (e matches StoreError::Serde(msg)
                    && msg@ == unsupported_extension_message()),
            },
    {
        let format = match Format::from_path(path) {
            Some(format) => format,
            None => {
                return Err(
                    StoreError::Serde(
                        "unsupported file extension; use .json, .yaml, .yml, or .toml".to_owned(),
                    ),
                );
            },
        };
        let memory = MemoryStore::new();
        Ok(FileStore { path: path.to_owned(), format, memory })
    }

    /// The same store with another snapshot format.
    pub fn with_format(self, format: Format) -> (r: Self)
        ensures
            r.format() == format,
            r.path() == self.path(),
            r.memory() == self.memory(),
    {
        FileStore { format, ..self }
    }

    /// Takes in a snapshot read from the file: memory then holds exactly
    /// what the document holds. A document of another version than
    /// `SNAPSHOT_VERSION` is refused and memory is left as it was.
    pub fn load(&mut self, doc: StoreDocument) -> (r: Result<(), StoreError>)
        ensures
            doc.version == SNAPSHOT_VERSION <==> r is Ok,
            r is Ok ==> final(self).memory().holds_document(doc),
            r matches Err(e) ==> final(self).memory() == old(self).memory() && (e matches StoreError::Serde(
                msg,
            ) && msg@ == unsupported_version_message()),
            final(self).path() == old(self).path(),
            final(self).format() == old(self).format(),
    {
        if doc.version != SNAPSHOT_VERSION {
            return Err(StoreError::Serde("unsupported snapshot version".to_owned()));
        }
        self.memory = MemoryStore::from_document(doc);
        Ok(())
    }

    /// The snapshot a flush writes: the whole in-memory contents, in the
    /// envelope of `SNAPSHOT_VERSION`, to be written to `path()` in
    /// `format()`.
    pub fn flush(&self) -> (doc: StoreDocument)
        ensures
            self.memory().holds_contents(doc),
            doc.version == SNAPSHOT_VERSION,
    {
        let doc = self.memory.document();
        StoreDocument { version: SNAPSHOT_VERSION, ..doc }
    }
}

/// The snapshot version this store writes and reads.
pub const SNAPSHOT_VERSION: u32 = 1;

/// The error text of a snapshot of another version.
pub open spec fn unsupported_version_message() -> Seq<char> {
    "unsupported snapshot version"@
}

/// What is persisted survives a reload: the snapshot a flush gives is one
/// that `load` takes, and a store loaded from it holds the same contents as
/// the store that was flushed.
pub proof fn lemma_flush_then_load(a: FileStore, doc: StoreDocument, b: FileStore)
    requires
        a.memory().holds_contents(doc),
        doc.version == SNAPSHOT_VERSION,
        b.memory().holds_document(doc),
    ensures
        doc.version == SNAPSHOT_VERSION,
        b.memory().networks() == a.memory().networks(),
        b.memory().users() == a.memory().users(),
        b.memory().nodes() == a.memory().nodes(),
        b.memory().preauth_keys() == a.memory().preauth_keys(),
        b.memory().policies() == a.memory().policies(),
        b.memory().version() == SNAPSHOT_VERSION,
{
}

impl Format {
    /// The format a path's extension selects, as a value.
    pub open spec fn from_path_spec(path: Seq<char>) -> Option<Format> {
        match path_extension(path) {
            Some(ext) => format_for_extension(ext),
            None => None,
        }
    }
}

impl Store for FileStore {
    open spec fn contents(&self) -> StoreContents {
        self.memory().contents()
    }

    fn list_networks(&self) -> (r: Result<Vec<Network>, StoreError>)
        ensures
            r matches Ok(v) && v@ == self.memory().networks(),
    {
        self.memory.list_networks()
    }

    fn upsert_network(&mut self, net: &Network) -> (r: Result<(), StoreError>)
        ensures
            r is Ok,
            final(self).memory().networks() == upserted(old(self).memory().networks(), *net, network_key()),
            final(self).memory().users() == old(self).memory().users(),
            final(self).memory().nodes() == old(self).memory().nodes(),
            final(self).memory().preauth_keys() == old(self).memory().preauth_keys(),
            final(self).memory().policies() == old(self).memory().policies(),
            final(self).path() == old(self).path(),
            final(self).format() == old(self).format(),
            final(self).memory().version() == old(self).memory().version(),
    {
        self.memory.upsert_network(net)
    }

    fn list_users(&self, network: NetworkId) -> (r: Result<Vec<User>, StoreError>)
        ensures
            r matches Ok(v) && v@ == self.memory().users().filter(user_in(network)),
    {
        self.memory.list_users(network)
    }

    fn upsert_user(&mut self, user: &User) -> (r: Result<(), StoreError>)
        ensures
            r is Ok,
            final(self).memory().users() == upserted(old(self).memory().users(), *user, user_key()),
            final(self).memory().networks() == old(self).memory().networks(),
            final(self).memory().nodes() == old(self).memory().nodes(),
            final(self).memory().preauth_keys() == old(self).memory().preauth_keys(),
            final(self).memory().policies() == old(self).memory().policies(),
            final(self).path() == old(self).path(),
            final(self).format() == old(self).format(),
            final(self).memory().version() == old(self).memory().version(),
    {
        self.memory.upsert_user(user)
    }

    fn list_nodes(&self, network: NetworkId) -> (r: Result<Vec<Node>, StoreError>)
        ensures
            r matches Ok(v) && node_views(v@) == self.memory().nodes().filter(node_in(network)),
    {
        self.memory.list_nodes(network)
    }

    fn get_node(&self, id: NodeId) -> (r: Result<Option<Node>, StoreError>)
        ensures
            r matches Ok(found) && match found {
                Some(n) => lookup(self.memory().nodes(), node_key(), id.0) == Some(n@),
                None => lookup(self.memory().nodes(), node_key(), id.0) is None,
            },
    {
        self.memory.get_node(id)
    }

    fn upsert_node(&mut self, node: &Node) -> (r: Result<(), StoreError>)
        ensures
            r is Ok,
            final(self).memory().nodes() == upserted(old(self).memory().nodes(), node@, node_key()),
            final(self).memory().networks() == old(self).memory().networks(),
            final(self).memory().users() == old(self).memory().users(),
            final(self).memory().preauth_keys() == old(self).memory().preauth_keys(),
            final(self).memory().policies() == old(self).memory().policies(),
            final(self).path() == old(self).path(),
            final(self).format() == old(self).format(),
            final(self).memory().version() == old(self).memory().version(),
    {
        self.memory.upsert_node(node)
    }

    fn delete_node(&mut self, id: NodeId) -> (r: Result<(), StoreError>)
        ensures
            r is Ok,
            final(self).memory().nodes() == old(self).memory().nodes().filter(node_not(id.0)),
            final(self).memory().networks() == old(self).memory().networks(),
            final(self).memory().users() == old(self).memory().users(),
            final(self).memory().preauth_keys() == old(self).memory().preauth_keys(),
            final(self).memory().policies() == old(self).memory().policies(),
            final(self).path() == old(self).path(),
            final(self).format() == old(self).format(),
            final(self).memory().version() == old(self).memory().version(),
    {
        self.memory.delete_node(id)
    }

    fn list_preauth_keys(&self, network: NetworkId) -> (r: Result<Vec<PreAuthKey>, StoreError>)
        ensures
            r matches Ok(v) && preauth_key_views(v@) == self.memory().preauth_keys().filter(
                preauth_key_in(network),
            ),
    {
        self.memory.list_preauth_keys(network)
    }

    fn upsert_preauth_key(&mut self, key: &PreAuthKey) -> (r: Result<(), StoreError>)
        ensures
            r is Ok,
            final(self).memory().preauth_keys() == upserted(
                old(self).memory().preauth_keys(),
                key@,
                preauth_key_key(),
            ),
            final(self).memory().networks() == old(self).memory().networks(),
            final(self).memory().users() == old(self).memory().users(),
            final(self).memory().nodes() == old(self).memory().nodes(),
            final(self).memory().policies() == old(self).memory().policies(),
            final(self).path() == old(self).path(),
            final(self).format() == old(self).format(),
            final(self).memory().version() == old(self).memory().version(),
    {
        self.memory.upsert_preauth_key(key)
    }

    fn consume_preauth_key(&mut self, id: PreAuthKeyId) -> (r: Result<bool, StoreError>)
        ensures
            r is Ok,
            exists|now: u64| #[trigger] consumed(old(self).memory().preauth_keys(), id.0, now) == (
                final(self).memory().preauth_keys(),
                r->Ok_0,
            ),
            final(self).memory().networks() == old(self).memory().networks(),
            final(self).memory().users() == old(self).memory().users(),
            final(self).memory().nodes() == old(self).memory().nodes(),
            final(self).memory().policies() == old(self).memory().policies(),
            final(self).path() == old(self).path(),
            final(self).format() == old(self).format(),
            final(self).memory().version() == old(self).memory().version(),
    {
        let r = self.memory.consume_preauth_key(id);
        proof {
            let now = choose|now: u64| #[trigger]
                consumed(old(self).memory.preauth_keys(), id.0, now) == (
                    self.memory.preauth_keys(),
                    r->Ok_0,
                );
            assert(consumed(old(self).memory().preauth_keys(), id.0, now) == (
                self.memory().preauth_keys(),
                r->Ok_0,
            ));
            assert(consumed(old(self).contents().preauth_keys, id.0, now) == (
                self.contents().preauth_keys,
                r->Ok_0,
            ));
            assert(self.contents() == (StoreContents {
                preauth_keys: self.contents().preauth_keys,
                ..old(self).contents()
            }));
        }
        r
    }

    fn get_policy(&self, network: NetworkId) -> (r: Result<Option<String>, StoreError>)
        ensures
            r matches Ok(p) && p == (if self.memory().policies().contains_key(network.0) {
                Some(self.memory().policies()[network.0])
            } else {
                None
            }),
    {
        self.memory.get_policy(network)
    }

    fn set_policy(&mut self, network: NetworkId, policy: &str) -> (r: Result<(), StoreError>)
        ensures
            r is Ok,
            final(self).memory().policies().contains_key(network.0),
            final(self).memory().policies()[network.0]@ == policy@,
            forall|k: u64| k != network.0 ==> #[trigger] final(self).memory().policies().contains_key(k)
                == old(self).memory().policies().contains_key(k) && (old(self).memory().policies().contains_key(k)
                ==> final(self).memory().policies()[k] == old(self).memory().policies()[k]),
            final(self).memory().policy_texts() == old(self).memory().policy_texts().insert(
                network.0,
                policy@,
            ),
            final(self).memory().networks() == old(self).memory().networks(),
            final(self).memory().users() == old(self).memory().users(),
            final(self).memory().nodes() == old(self).memory().nodes(),
            final(self).memory().preauth_keys() == old(self).memory().preauth_keys(),
            final(self).path() == old(self).path(),
            final(self).format() == old(self).format(),
            final(self).memory().version() == old(self).memory().version(),
    {
        self.memory.set_policy(network, policy)
    }
}

} // verus!

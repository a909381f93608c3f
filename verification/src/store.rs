//! The content-addressed store: files are kept under their content hash, and
//! an index maps dependency coordinates to the hash of their jar.

use vstd::prelude::*;
use crate::digest::{content_hash, content_hash_of};
use crate::strmap::{StringMap, map_get};

verus! {

/// The store's index: coordinates (`group:artifact:version`) to content hash.
pub struct StoreIndex {
    pub entries: StringMap,
}

impl View for StoreIndex {
    type V = Map<Seq<char>, Seq<char>>;

    open spec fn view(&self) -> Map<Seq<char>, Seq<char>> {
        self.entries@
    }
}

impl StoreIndex {
    /// An empty index, as a missing or unreadable index file reads.
    pub fn new() -> (r: StoreIndex)
        ensures
            r@ == Map::<Seq<char>, Seq<char>>::empty(),
    {
        StoreIndex { entries: StringMap::new() }
    }
}

/// The store: its root directory and its index.
pub struct SporaStore {
    /// The directory that holds the stored files, named by their hash.
    pub root: String,
    /// The index of stored jars by coordinates.
    pub index: StoreIndex,
}

impl SporaStore {
    /// A store rooted at `root` with the index `index`.
    pub fn with_index(root: String, index: StoreIndex) -> (r: SporaStore)
        ensures
            r.root == root,
            r.index@ == index@,
    {
        SporaStore { root, index }
    }

    /// The name under which content is stored: its lowercase hex SHA-256.
    pub fn store_file(&self, content: &[u8]) -> (r: String)
        ensures
            r@ == content_hash_of(content@),
            r@.len() == 64,
    {
        content_hash(content)
    }

    /// Stores content for `coords_str`: returns its hash and records it in
    /// the index under `coords_str`, replacing any earlier entry.
    pub fn store_with_coords(&mut self, content: &[u8], coords_str: &str) -> (r: String)
        ensures
            r@ == content_hash_of(content@),
            r@.len() == 64,
            final(self).index@ == old(self).index@.insert(coords_str@, r@),
            final(self).root == old(self).root,
    {
        let hash = self.store_file(content);
        self.index.entries.insert(coords_str.to_owned(), hash.clone());
        hash
    }

    /// The hash recorded for `coords_str`, if any.
    pub fn lookup(&self, coords_str: &str) -> (r: Option<String>)
        ensures
            match r {
                Some(h) => map_get(self.index@, coords_str@) == Some(h@),
                None => map_get(self.index@, coords_str@) is None,
            },
    {
        self.index.entries.get(coords_str)
    }
}

/// After content is stored for some coordinates, looking those coordinates up
/// gives its hash, and looking up any other coordinates gives what it gave
/// before.
pub proof fn law_lookup_after_store(
    index: Map<Seq<char>, Seq<char>>,
    coords: Seq<char>,
    content: Seq<u8>,
    other: Seq<char>,
)
    ensures
        map_get(index.insert(coords, content_hash_of(content)), coords) == Some(
            content_hash_of(content),
        ),
        other != coords ==> map_get(index.insert(coords, content_hash_of(content)), other)
            == map_get(index, other),
{
}

} // verus!

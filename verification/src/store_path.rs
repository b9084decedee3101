//! Store paths, and the names derived from them.

use vstd::prelude::*;

use crate::protocol::{StoreDir, StoreDirView};
use crate::text;

verus! {

/// The last component of a store path: a hash and a human-readable name.
#[derive(Debug)]
pub struct StoreBasename {
    pub hash: String,
    pub name: String,
}

/// The contents of a [`StoreBasename`].
#[verifier::ext_equal]
pub struct StoreBasenameView {
    pub hash: Seq<char>,
    pub name: Seq<char>,
}

impl View for StoreBasename {
    type V = StoreBasenameView;

    open spec fn view(&self) -> StoreBasenameView {
        StoreBasenameView { hash: self.hash@, name: self.name@ }
    }
}

impl StoreBasenameView {
    /// The written form, `<hash>-<name>`.
    pub open spec fn text(self) -> Seq<char> {
        self.hash + "-"@ + self.name
    }
}

impl Clone for StoreBasename {
    fn clone(&self) -> (copy: Self)
        ensures
            copy@ == self@,
    {
        StoreBasename { hash: self.hash.clone(), name: self.name.clone() }
    }
}

impl StoreBasename {
    /// Returns the written form, `<hash>-<name>`.
    pub fn to_text(&self) -> (text: String)
        ensures
            text@ == self@.text(),
    {
        text::concat3(self.hash.as_str(), "-", self.name.as_str())
    }
}

/// The path of an object in a Nix store.
#[derive(Debug)]
pub struct StorePath {
    pub store_dir: StoreDir,
    pub basename: StoreBasename,
}

/// The contents of a [`StorePath`].
#[verifier::ext_equal]
pub struct StorePathView {
    pub store_dir: StoreDirView,
    pub basename: StoreBasenameView,
}

impl View for StorePath {
    type V = StorePathView;

    open spec fn view(&self) -> StorePathView {
        StorePathView { store_dir: self.store_dir@, basename: self.basename@ }
    }
}

impl StorePathView {
    /// The written form, `<store dir>/<hash>-<name>`.
    pub open spec fn text(self) -> Seq<char> {
        self.store_dir.text() + "/"@ + self.basename.text()
    }

    /// The hash that identifies the path.
    pub open spec fn hash(self) -> Seq<char> {
        self.basename.hash
    }
}

impl Clone for StorePath {
    fn clone(&self) -> (copy: Self)
        ensures
            copy@ == self@,
    {
        StorePath { store_dir: self.store_dir.clone(), basename: self.basename.clone() }
    }
}

impl StorePath {
    /// Returns the written form, `<store dir>/<hash>-<name>`.
    pub fn to_text(&self) -> (text: String)
        ensures
            text@ == self@.text(),
    {
        let dir: String = self.store_dir.to_text();
        let basename: String = self.basename.to_text();
        text::concat3(dir.as_str(), "/", basename.as_str())
    }
}

/// The contents of a sequence of store paths.
pub open spec fn path_views(paths: Seq<StorePath>) -> Seq<StorePathView> {
    paths.map_values(|path: StorePath| path@)
}

/// The name under which a cache serves the NARInfo of a store path.
#[derive(Debug)]
pub struct NarInfoFileName {
    pub store_hash: String,
}

/// The written form of the NARInfo file name of a store hash.
pub open spec fn narinfo_filename_text(store_hash: Seq<char>) -> Seq<char> {
    store_hash + ".narinfo"@
}

impl NarInfoFileName {
    /// The NARInfo file name of the given store path.
    pub fn of(path: &StorePath) -> (name: Self)
        ensures
            name.store_hash@ == path@.hash(),
    {
        NarInfoFileName { store_hash: path.basename.hash.clone() }
    }

    /// Returns the written form, `<hash>.narinfo`.
    pub fn to_text(&self) -> (text: String)
        ensures
            text@ == narinfo_filename_text(self.store_hash@),
    {
        text::concat2(self.store_hash.as_str(), ".narinfo")
    }
}

/// How the file that a NARInfo describes is compressed.
#[derive(Clone, Copy, Debug, PartialEq, Eq, Structural)]
pub enum CompressionAlgorithm {
    Uncompressed,
    Xz,
}

/// What a cache stores about a store path next to its NAR.
#[derive(Debug)]
pub struct NarInfo {
    pub store_path: StorePath,
    pub compression: CompressionAlgorithm,
    pub file_hash: Vec<u8>,
    pub file_size: u64,
    pub nar_hash: Vec<u8>,
    pub nar_size: u64,
    pub references: Vec<StoreBasename>,
    pub deriver: Option<StoreBasename>,
    pub signatures: Vec<String>,
    pub content_address: Option<String>,
}

/// The contents of a sequence of basenames.
pub open spec fn basename_views(names: Seq<StoreBasename>) -> Seq<StoreBasenameView> {
    names.map_values(|name: StoreBasename| name@)
}

/// The contents of a sequence of texts.
pub open spec fn text_views(texts: Seq<String>) -> Seq<Seq<char>> {
    texts.map_values(|text: String| text@)
}

/// The written form of a store path is that of its store directory, a slash, its
/// hash, a dash, and its name, each of them in full.
pub proof fn law_store_path_is_written_in_full(path: StorePath)
    ensures
        path@.text() == path.store_dir@.text() + seq!['/'] + path.basename.hash@ + seq!['-']
            + path.basename.name@,
        path.basename@.text() == path.basename.hash@ + seq!['-'] + path.basename.name@,
        path@.hash() == path.basename.hash@,
{
    reveal_strlit("/");
    reveal_strlit("-");
    assert("/"@ =~= seq!['/']);
    assert("-"@ =~= seq!['-']);
    assert(path@.text() =~= path.store_dir@.text() + seq!['/'] + path.basename.hash@ + seq!['-']
        + path.basename.name@);
}

/// Two store paths in the same store directory, whose hashes are of the same
/// length, have the same written form only if they have the same hash and name.
pub proof fn law_store_paths_are_told_apart(a: StorePathView, b: StorePathView)
    requires
        a.store_dir == b.store_dir,
        a.basename.hash.len() == b.basename.hash.len(),
        a.text() == b.text(),
    ensures
        a == b,
{
    reveal_strlit("/");
    reveal_strlit("-");
    let dir = a.store_dir.text();
    let n = a.basename.hash.len() as int;
    let start = dir.len() as int + 1;
    assert(a.text().subrange(start, start + n) =~= a.basename.hash);
    assert(b.text().subrange(start, start + n) =~= b.basename.hash);
    assert(a.text().skip(start + n + 1) =~= a.basename.name);
    assert(b.text().skip(start + n + 1) =~= b.basename.name);
}

/// The name of a NARInfo is the whole hash of the store path, with the extension
/// `narinfo`; so the NARInfos of two store paths have the same name only if the
/// store paths have the same hash.
pub proof fn law_narinfo_is_named_by_the_hash(a: Seq<char>, b: Seq<char>)
    ensures
        narinfo_filename_text(a) == a + seq!['.', 'n', 'a', 'r', 'i', 'n', 'f', 'o'],
        narinfo_filename_text(a) == narinfo_filename_text(b) ==> a == b,
{
    reveal_strlit(".narinfo");
    assert(".narinfo"@ =~= seq!['.', 'n', 'a', 'r', 'i', 'n', 'f', 'o']);
    assert(narinfo_filename_text(a).take(narinfo_filename_text(a).len() - 8) =~= a);
    assert(narinfo_filename_text(b).take(narinfo_filename_text(b).len() - 8) =~= b);
}

/// What is known of a list is what its items hold, each at its own place.
pub proof fn law_lists_are_what_they_hold(
    texts: Seq<String>,
    paths: Seq<StorePath>,
    names: Seq<StoreBasename>,
)
    ensures
        text_views(texts).len() == texts.len(),
        forall|i: int| 0 <= i < texts.len() ==> #[trigger] text_views(texts)[i] == texts[i]@,
        path_views(paths).len() == paths.len(),
        forall|i: int| 0 <= i < paths.len() ==> #[trigger] path_views(paths)[i] == paths[i]@,
        basename_views(names).len() == names.len(),
        forall|i: int|
            0 <= i < names.len() ==> (#[trigger] basename_views(names)[i]).hash == names[i].hash@
                && basename_views(names)[i].name == names[i].name@,
{
}

} // verus!

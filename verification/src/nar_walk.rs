//! Walking a directory tree in the order in which a NAR holds it.

use vstd::prelude::*;

use crate::bytes_order;
use crate::io_error::{IoError, IoErrorKind};
use crate::text;

verus! {

/// What the file system says about a file.
#[derive(Clone, Copy, Debug, PartialEq, Eq, Structural)]
pub struct Metadata {
    pub is_dir: bool,
    pub is_symlink: bool,
    pub is_file: bool,
    /// The permission bits.
    pub mode: u32,
    /// The number of bytes of the file.
    pub len: u64,
}

/// What a NAR holds of a file.
#[derive(Clone, Copy, Debug, PartialEq, Eq, Structural)]
pub enum Node {
    /// Its entries.
    Directory,
    /// Its target.
    Symlink,
    /// Its contents, and whether its owner can execute it.
    File { executable: bool, len: u64 },
}

/// What a NAR holds of a file, if it can hold it.
pub open spec fn node_of(metadata: Metadata) -> Option<Node> {
    if metadata.is_dir {
        Some(Node::Directory)
    } else if metadata.is_symlink {
        Some(Node::Symlink)
    } else if metadata.is_file {
        Some(Node::File { executable: metadata.mode & 0o100 != 0, len: metadata.len })
    } else {
        None
    }
}

/// Decides what a NAR holds of the file at the given path.
pub fn classify(metadata: Metadata, path: &str) -> (node: Result<Node, IoError>)
    ensures
        match node {
            Ok(node) => node_of(metadata) == Some(node),
            Err(error) => node_of(metadata) is None && error.kind == IoErrorKind::InvalidData
                && error.message@ == "unsupported file type at "@ + path@,
        },
        node is Ok <==> metadata.is_dir || metadata.is_symlink || metadata.is_file,
{
    if metadata.is_dir {
        Ok(Node::Directory)
    } else if metadata.is_symlink {
        Ok(Node::Symlink)
    } else if metadata.is_file {
        Ok(Node::File { executable: metadata.mode & 0o100 != 0, len: metadata.len })
    } else {
        Err(
            IoError {
                kind: IoErrorKind::InvalidData,
                message: text::concat2("unsupported file type at ", path),
            },
        )
    }
}

/// Whether a path already ends where the name of an entry can follow.
pub open spec fn takes_name(dir: Seq<u8>) -> bool {
    dir.len() == 0 || dir.last() == 47
}

/// The path of an entry of a directory. A slash stands between the two, and a
/// name that starts with one is a path of its own.
pub open spec fn entry_path(dir: Seq<u8>, name: Seq<u8>) -> Seq<u8> {
    if name.len() > 0 && name[0] == 47 {
        name
    } else if takes_name(dir) {
        dir + name
    } else {
        dir.push(47) + name
    }
}

/// Returns the path of an entry of a directory.
fn join(dir: &Vec<u8>, name: &Vec<u8>) -> (path: Vec<u8>)
    ensures
        path@ == entry_path(dir@, name@),
{
    let mut path: Vec<u8> = vstd::slice::slice_to_vec(dir.as_slice());
    let mut name: Vec<u8> = vstd::slice::slice_to_vec(name.as_slice());
    if name.len() > 0 && name[0] == 47 {
        return name;
    }
    if path.len() > 0 && path[path.len() - 1] != 47 {
        path.push(47);
    }
    path.append(&mut name);
    path
}

/// A directory whose entries are being walked.
struct OpenDirectory {
    path: Vec<u8>,
    names: Vec<Vec<u8>>,
    /// The number of entries that were walked to.
    num_walked: usize,
}

/// The contents of an open directory.
#[verifier::ext_equal]
pub struct OpenDirectoryView {
    pub path: Seq<u8>,
    /// The names of the entries that are still to be walked to.
    pub names: Seq<Seq<u8>>,
}

impl OpenDirectory {
    spec fn view(&self) -> OpenDirectoryView {
        OpenDirectoryView {
            path: self.path@,
            names: bytes_order::contents(self.names@).skip(self.num_walked as int),
        }
    }

    spec fn wf(self) -> bool {
        self.num_walked <= self.names@.len()
    }
}

/// A walk through a directory tree.
pub struct NarWalk {
    path: Vec<u8>,
    dirs: Vec<OpenDirectory>,
}

/// The contents of a [`NarWalk`].
#[verifier::ext_equal]
pub struct NarWalkView {
    /// The path of the file that was walked to.
    pub path: Seq<u8>,
    /// The directories that are being walked, from the outermost to the
    /// innermost.
    pub dirs: Seq<OpenDirectoryView>,
}

impl NarWalkView {
    /// The walk once it has come to the next entry of the innermost directory,
    /// or back to the directory if there is none.
    pub open spec fn advanced(self) -> Self {
        let dir = self.dirs.last();
        if dir.names.len() == 0 {
            NarWalkView { path: dir.path, dirs: self.dirs.drop_last() }
        } else {
            NarWalkView {
                path: entry_path(dir.path, dir.names[0]),
                dirs: self.dirs.drop_last().push(
                    OpenDirectoryView { path: dir.path, names: dir.names.drop_first() },
                ),
            }
        }
    }

    /// The walk once it has entered the directory that it had come to, with
    /// entries of the given names.
    pub open spec fn entered(self, names: Seq<Seq<u8>>) -> Self {
        NarWalkView {
            path: self.path,
            dirs: self.dirs.push(OpenDirectoryView { path: self.path, names }),
        }
    }
}

impl NarWalk {
    /// The contents.
    pub closed spec fn view(&self) -> NarWalkView {
        NarWalkView {
            path: self.path@,
            dirs: self.dirs@.map_values(|dir: OpenDirectory| dir@),
        }
    }

    #[verifier::type_invariant]
    spec fn wf(self) -> bool {
        forall|i: int| 0 <= i < self.dirs@.len() ==> (#[trigger] self.dirs@[i]).wf()
    }

    /// Starts a walk at the given path.
    pub fn new(path: Vec<u8>) -> (walk: Self)
        ensures
            walk@ == (NarWalkView { path: path@, dirs: seq![] }),
    {
        let walk = NarWalk { path, dirs: Vec::new() };
        assert(walk@ =~= (NarWalkView { path: path@, dirs: seq![] }));
        walk
    }

    /// Returns the path of the file that was walked to.
    pub fn path(&self) -> (path: &Vec<u8>)
        ensures
            path@ == self@.path,
    {
        &self.path
    }

    /// Enters the directory that was walked to, given the names of its entries.
    /// They are walked to in lexicographic order.
    pub fn enter(self, names: Vec<Vec<u8>>) -> (walk: Self)
        ensures
            walk@ == self@.entered(walk@.dirs.last().names),
            bytes_order::lex_sorted(walk@.dirs.last().names),
            walk@.path == self@.path,
            walk@.dirs.len() == self@.dirs.len() + 1,
            walk@.dirs.last().path == self@.path,
            walk@.dirs.last().names.len() == names@.len(),
            walk@.dirs.last().names.to_multiset() == bytes_order::contents(names@).to_multiset(),
    {
        proof {
            use_type_invariant(&self);
        }
        let ghost before = self@;
        let path: Vec<u8> = self.path;
        let mut dirs: Vec<OpenDirectory> = self.dirs;
        let dir_path: Vec<u8> = vstd::slice::slice_to_vec(path.as_slice());
        let names: Vec<Vec<u8>> = bytes_order::sort(names);
        let ghost sorted = bytes_order::contents(names@);
        dirs.push(OpenDirectory { path: dir_path, names, num_walked: 0 });
        let walk = NarWalk { path, dirs };
        assert(sorted.skip(0) =~= sorted);
        assert(walk@.dirs.last().names =~= sorted);
        assert(walk@ =~= before.entered(sorted));
        walk
    }

    /// Walks to the next entry of the innermost directory, and returns its name.
    /// If there is none, the directory is done, and the walk is back at it.
    pub fn advance(self) -> (res: (Self, Option<Vec<u8>>))
        requires
            self@.dirs.len() > 0,
        ensures
            res.0@ == self@.advanced(),
            match res.1 {
                Some(name) => {
                    &&& self@.dirs.last().names.len() > 0
                    &&& name@ == self@.dirs.last().names[0]
                    &&& res.0@.dirs.len() == self@.dirs.len()
                    &&& res.0@.dirs.last().path == self@.dirs.last().path
                    &&& res.0@.dirs.last().names == self@.dirs.last().names.drop_first()
                },
                None => {
                    &&& self@.dirs.last().names.len() == 0
                    &&& res.0@.path == self@.dirs.last().path
                    &&& res.0@.dirs == self@.dirs.drop_last()
                },
            },
    {
        proof {
            use_type_invariant(&self);
        }
        let ghost before = self@;
        let mut dirs: Vec<OpenDirectory> = self.dirs;
        let ghost all = dirs@;
        assert(before.dirs.last() == all.last()@);
        match dirs.pop() {
            Some(mut dir) => {
                assert(dir == all.last());
                assert(dir.wf());
                let ghost walked = dir@;
                if dir.num_walked < dir.names.len() {
                    let name: Vec<u8> = vstd::slice::slice_to_vec(
                        dir.names[dir.num_walked].as_slice(),
                    );
                    let path: Vec<u8> = join(&dir.path, &name);
                    dir.num_walked = dir.num_walked + 1;
                    assert(walked.names[0] == name@);
                    assert(dir@.names =~= walked.names.drop_first());
                    dirs.push(dir);
                    let walk = NarWalk { path, dirs };
                    assert(walk@ =~= before.advanced());
                    (walk, Some(name))
                } else {
                    let walk = NarWalk { path: dir.path, dirs };
                    assert(walk@ =~= before.advanced());
                    (walk, None)
                }
            },
            None => {
                assert(false);
                (NarWalk { path: self.path, dirs }, None)
            },
        }
    }
}

/// A directory tree. The entries of a directory are in the order in which they
/// are walked to.
pub enum Tree {
    Leaf,
    Directory(Seq<(Seq<u8>, Tree)>),
}

/// The names of entries.
pub open spec fn entry_names(entries: Seq<(Seq<u8>, Tree)>) -> Seq<Seq<u8>> {
    entries.map_values(|entry: (Seq<u8>, Tree)| entry.0)
}

/// The paths of all files of a tree at the given path: that of a directory, and
/// then those of the files below each of its entries.
pub open spec fn tree_paths(path: Seq<u8>, tree: Tree) -> Seq<Seq<u8>>
    decreases tree,
{
    match tree {
        Tree::Leaf => seq![path],
        Tree::Directory(entries) => seq![path] + entry_paths(path, entries),
    }
}

/// The paths of all files below the given entries of a directory.
pub open spec fn entry_paths(dir: Seq<u8>, entries: Seq<(Seq<u8>, Tree)>) -> Seq<Seq<u8>>
    decreases entries,
{
    if entries.len() == 0 {
        seq![]
    } else {
        tree_paths(entry_path(dir, entries[0].0), entries[0].1) + entry_paths(
            dir,
            entries.drop_first(),
        )
    }
}

/// The paths that a walk comes to when it has come to a tree, and where it is
/// when the tree is done.
pub open spec fn walked(walk: NarWalkView, tree: Tree) -> (Seq<Seq<u8>>, NarWalkView)
    decreases tree,
{
    match tree {
        Tree::Leaf => (seq![walk.path], walk),
        Tree::Directory(entries) => {
            let (paths, end) = walked_entries(walk.entered(entry_names(entries)), entries);
            (seq![walk.path] + paths, end)
        },
    }
}

/// The paths that a walk comes to when it advances through the innermost
/// directory, which has the given entries, and where it is in the end.
pub open spec fn walked_entries(walk: NarWalkView, entries: Seq<(Seq<u8>, Tree)>) -> (
    Seq<Seq<u8>>,
    NarWalkView,
)
    decreases entries,
{
    if entries.len() == 0 {
        (seq![], walk.advanced())
    } else {
        let (paths, after) = walked(walk.advanced(), entries[0].1);
        let (more, end) = walked_entries(after, entries.drop_first());
        (paths + more, end)
    }
}

/// A walk comes to each file of a tree once, to a directory before its entries,
/// and to the entries in their order. When the tree is done the walk is where it
/// was before, so that what is around the tree is walked as if it were a leaf.
pub proof fn law_walk_comes_to_every_file(walk: NarWalkView, tree: Tree)
    ensures
        walked(walk, tree) == (tree_paths(walk.path, tree), walk),
    decreases tree,
{
    if let Tree::Directory(entries) = tree {
        let inside = walk.entered(entry_names(entries));
        assert(inside.dirs.drop_last() =~= walk.dirs);
        lemma_walked_entries(inside, entries);
    }
}

proof fn lemma_walked_entries(walk: NarWalkView, entries: Seq<(Seq<u8>, Tree)>)
    requires
        walk.dirs.len() > 0,
        walk.dirs.last().names == entry_names(entries),
    ensures
        walked_entries(walk, entries) == (
            entry_paths(walk.dirs.last().path, entries),
            NarWalkView { path: walk.dirs.last().path, dirs: walk.dirs.drop_last() },
        ),
    decreases entries,
{
    if entries.len() > 0 {
        let next = walk.advanced();
        law_walk_comes_to_every_file(next, entries[0].1);
        assert(entry_names(entries).drop_first() =~= entry_names(entries.drop_first()));
        assert(next.dirs.drop_last() =~= walk.dirs.drop_last());
        lemma_walked_entries(next, entries.drop_first());
    }
}

/// A regular file is packed as executable exactly if the bit of its mode that
/// lets its owner execute it is set, the seventh from the right, and with the
/// number of bytes that it has. No other bit of the mode matters, and none at all
/// for a directory or a symbolic link.
pub proof fn law_owner_execute_bit_decides(metadata: Metadata, mode: u32)
    ensures
        metadata.is_file && !metadata.is_dir && !metadata.is_symlink ==> {
            &&& node_of(metadata) matches Some(Node::File { executable, len })
            &&& len == metadata.len
            &&& executable <==> (metadata.mode / 64) % 2 == 1
        },
        metadata.is_dir || metadata.is_symlink || (metadata.mode / 64) % 2 == (mode / 64) % 2
            ==> node_of(Metadata { mode, ..metadata }) == node_of(metadata),
        metadata.is_dir ==> node_of(metadata) == Some(Node::Directory),
        metadata.is_symlink && !metadata.is_dir ==> node_of(metadata) == Some(Node::Symlink),
        node_of(metadata) is None <==> !metadata.is_dir && !metadata.is_symlink
            && !metadata.is_file,
{
    let own = metadata.mode;
    assert(own & 0o100 != 0 <==> (own / 64) % 2 == 1) by (bit_vector);
    assert(mode & 0o100 != 0 <==> (mode / 64) % 2 == 1) by (bit_vector);
}

/// The path of an entry is that of its directory, then a slash unless the
/// directory's path ends in one or is empty, and then its name. The path of an
/// entry whose name starts with a slash is its name.
pub proof fn law_entry_path_ends_in_the_name(dir: Seq<u8>, name: Seq<u8>)
    ensures
        name.is_suffix_of(entry_path(dir, name)),
        name.len() > 0 && name[0] == 0x2f ==> entry_path(dir, name).len() == name.len(),
        !(name.len() > 0 && name[0] == 0x2f) ==> {
            let path = entry_path(dir, name);
            &&& dir.is_prefix_of(path)
            &&& dir.len() == 0 || dir[dir.len() - 1] == 0x2f ==> path.len() == dir.len()
                + name.len()
            &&& dir.len() > 0 && dir[dir.len() - 1] != 0x2f ==> path.len() == dir.len() + 1
                + name.len() && path[dir.len() as int] == 0x2f
        },
{
    let path = entry_path(dir, name);
    assert(path.subrange(path.len() - name.len(), path.len() as int) =~= name);
    if !(name.len() > 0 && name[0] == 0x2f) {
        assert(path.subrange(0, dir.len() as int) =~= dir);
    }
}

/// Whether a path is that of a tree at the given path, or of a file below it.
pub open spec fn is_path_in(path: Seq<u8>, tree: Tree, file: Seq<u8>) -> bool
    decreases tree,
{
    file == path || match tree {
        Tree::Leaf => false,
        Tree::Directory(entries) => exists|i: int|
            0 <= i < entries.len() && is_path_in(
                entry_path(path, entries[i].0),
                #[trigger] entries[i].1,
                file,
            ),
    }
}

/// A walk through a tree comes to the path of each of its files, and to no
/// others, and to a directory before what is in it.
pub proof fn law_walk_comes_to_each_path(walk: NarWalkView, tree: Tree, file: Seq<u8>)
    ensures
        walked(walk, tree).0.contains(file) <==> is_path_in(walk.path, tree, file),
        walked(walk, tree).0[0] == walk.path,
{
    law_walk_comes_to_every_file(walk, tree);
    lemma_tree_paths(walk.path, tree, file);
}

proof fn lemma_tree_paths(path: Seq<u8>, tree: Tree, file: Seq<u8>)
    ensures
        tree_paths(path, tree).contains(file) <==> is_path_in(path, tree, file),
        tree_paths(path, tree).len() > 0,
        tree_paths(path, tree)[0] == path,
    decreases tree,
{
    let paths = tree_paths(path, tree);
    assert(paths[0] == path);
    if let Tree::Directory(entries) = tree {
        lemma_entry_paths(path, entries, file);
        let below = entry_paths(path, entries);
        if below.contains(file) {
            let k = choose|k: int| 0 <= k < below.len() && below[k] == file;
            assert(paths[k + 1] == file);
        }
        if paths.contains(file) {
            let k = choose|k: int| 0 <= k < paths.len() && paths[k] == file;
            if k > 0 {
                assert(below[k - 1] == file);
            }
        }
    }
}

proof fn lemma_entry_paths(dir: Seq<u8>, entries: Seq<(Seq<u8>, Tree)>, file: Seq<u8>)
    ensures
        entry_paths(dir, entries).contains(file) <==> exists|i: int|
            0 <= i < entries.len() && is_path_in(
                entry_path(dir, entries[i].0),
                #[trigger] entries[i].1,
                file,
            ),
    decreases entries,
{
    if entries.len() > 0 {
        let first = tree_paths(entry_path(dir, entries[0].0), entries[0].1);
        let rest = entries.drop_first();
        lemma_tree_paths(entry_path(dir, entries[0].0), entries[0].1, file);
        lemma_entry_paths(dir, rest, file);
        let more = entry_paths(dir, rest);
        let all = entry_paths(dir, entries);
        if first.contains(file) {
            let k = choose|k: int| 0 <= k < first.len() && first[k] == file;
            assert(all[k] == file);
            assert(is_path_in(entry_path(dir, entries[0].0), entries[0].1, file));
        }
        if more.contains(file) {
            let k = choose|k: int| 0 <= k < more.len() && more[k] == file;
            assert(all[first.len() + k] == file);
            let i = choose|i: int|
                0 <= i < rest.len() && is_path_in(
                    entry_path(dir, rest[i].0),
                    #[trigger] rest[i].1,
                    file,
                );
            assert(entries[i + 1] == rest[i]);
            assert(is_path_in(entry_path(dir, entries[i + 1].0), entries[i + 1].1, file));
        }
        if all.contains(file) {
            let k = choose|k: int| 0 <= k < all.len() && all[k] == file;
            if k < first.len() {
                assert(first[k] == file);
            } else {
                assert(more[k - first.len()] == file);
            }
        }
        if exists|i: int|
            0 <= i < entries.len() && is_path_in(
                entry_path(dir, entries[i].0),
                #[trigger] entries[i].1,
                file,
            ) {
            let i = choose|i: int|
                0 <= i < entries.len() && is_path_in(
                    entry_path(dir, entries[i].0),
                    #[trigger] entries[i].1,
                    file,
                );
            if i > 0 {
                assert(rest[i - 1] == entries[i]);
                assert(is_path_in(entry_path(dir, rest[i - 1].0), rest[i - 1].1, file));
            }
        }
    }
}

} // verus!

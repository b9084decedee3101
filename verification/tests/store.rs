use std::collections::BTreeMap;

use cache_action::io_error::IoErrorKind;
use cache_action::nar_walk::{classify, Metadata, NarWalk, Node};
use cache_action::nix_cli::NixCli;
use cache_action::nix_store::{
    basename, content_address, describe_quoted_error, on_signature_parsed, path_to_c,
    signature_text, References, Signatures, StoreClosure,
};
use cache_action::protocol::StoreDir;
use cache_action::small_list::{BasenameList, PartNumbers, TextList};
use cache_action::store_path::{CompressionAlgorithm, StoreBasename, StorePath};

#[test]
fn paths_end_with_their_only_nul() {
    let bytes = path_to_c(&path("a", "foo"));
    assert_eq!(bytes, b"/nix/store/a-foo\0");
    assert_eq!(bytes.iter().filter(|byte| **byte == 0).count(), 1);
}

#[test]
fn basenames_of_store_paths() {
    let name = basename("a".to_owned(), "foo".to_owned(), Ok(())).unwrap();
    assert_eq!(name.to_text(), "a-foo");
    assert_eq!(
        basename("a".to_owned(), "f\"o".to_owned(), Err("bad".to_owned())).unwrap_err(),
        "couldn't parse \"f\\\"o\" into a store name: bad"
    );
}

#[test]
fn parse_errors_are_described() {
    assert_eq!(
        describe_quoted_error("'x'", "a thing", "bad"),
        "couldn't parse 'x' into a thing: bad"
    );
}

#[test]
fn content_addresses_of_store_paths() {
    assert!(content_address(None).unwrap().is_none());
    assert_eq!(
        content_address(Some(("ca".to_owned(), Ok(())))).unwrap().unwrap(),
        "ca"
    );
    assert_eq!(
        content_address(Some(("c\n".to_owned(), Err("bad".to_owned())))).unwrap_err(),
        "couldn't parse \"c\\n\" into a CA: bad"
    );
}

#[test]
fn signatures_of_store_paths() {
    assert_eq!(signature_text(b"key:sig").unwrap(), "key:sig");
    assert_eq!(
        signature_text(b"key\xff").unwrap_err(),
        "signature is not valid UTF-8: \"key\u{fffd}\""
    );
    assert_eq!(on_signature_parsed("sig".to_owned(), Ok(())).unwrap(), "sig");
    assert_eq!(
        on_signature_parsed("sig".to_owned(), Err("bad".to_owned())).unwrap_err(),
        "couldn't parse \"sig\" into signature: bad"
    );
    let mut signatures = Signatures::new();
    for signature in ["one", "two", "three"] {
        signatures.on_signature(Ok(signature.to_owned())).unwrap();
    }
    assert_eq!(
        signatures.on_signature(Err("bad".to_owned())).unwrap_err(),
        "bad"
    );
    assert_eq!(signatures.finish(), ["one", "two", "three"]);
}

#[test]
fn references_of_store_paths() {
    let mut references = References::new();
    for hash in ["a", "b", "c"] {
        references.on_reference(Ok(store_basename(hash, "foo"))).unwrap();
    }
    assert_eq!(
        references.on_reference(Err("bad".to_owned())).unwrap_err(),
        "bad"
    );
    let names = references.finish();
    assert_eq!(names.len(), 3);
    assert_eq!(names[2].to_text(), "c-foo");
}

#[test]
fn closures_of_store_paths() {
    let of = StorePath {
        store_dir: StoreDir::Other("/store".to_owned()),
        basename: store_basename("a", "foo"),
    };
    let mut closure = StoreClosure::new();
    closure.on_path(&of, Ok(store_basename("b", "bar")));
    closure.on_path(&of, Ok(store_basename("a", "foo")));
    let paths = closure.finish().unwrap();
    assert_eq!(paths.len(), 2);
    assert_eq!(paths[0].to_text(), "/store/b-bar");
    assert_eq!(paths[1].to_text(), "/store/a-foo");
}

#[test]
fn first_error_of_a_closure_wins() {
    let mut closure = StoreClosure::new();
    closure.on_path(&path("a", "foo"), Ok(store_basename("b", "bar")));
    closure.on_path(&path("a", "foo"), Err("first".to_owned()));
    closure.on_path(&path("a", "foo"), Ok(store_basename("c", "baz")));
    closure.on_path(&path("a", "foo"), Err("second".to_owned()));
    assert_eq!(closure.finish().unwrap_err(), "first");
}

#[test]
fn files_are_classified() {
    let metadata = Metadata {
        is_dir: false,
        is_symlink: false,
        is_file: true,
        mode: 0o644,
        len: 9,
    };
    assert_eq!(
        classify(metadata, "/x").unwrap(),
        Node::File { executable: false, len: 9 }
    );
    assert_eq!(
        classify(Metadata { mode: 0o100755, ..metadata }, "/x").unwrap(),
        Node::File { executable: true, len: 9 }
    );
    assert_eq!(
        classify(Metadata { mode: 0o677, ..metadata }, "/x").unwrap(),
        Node::File { executable: false, len: 9 }
    );
    assert_eq!(
        classify(Metadata { is_symlink: true, is_file: false, ..metadata }, "/x").unwrap(),
        Node::Symlink
    );
    assert_eq!(
        classify(Metadata { is_dir: true, is_file: false, ..metadata }, "/x").unwrap(),
        Node::Directory
    );
    let error = classify(Metadata { is_file: false, ..metadata }, "/x").unwrap_err();
    assert_eq!(error.message, "unsupported file type at /x");
    assert_eq!(error.kind, IoErrorKind::InvalidData);
}

fn visit(
    mut walk: NarWalk,
    tree: &BTreeMap<&str, Vec<&str>>,
    visited: &mut Vec<String>,
) -> NarWalk {
    let here = String::from_utf8(walk.path().clone()).unwrap();
    visited.push(here.clone());
    if let Some(names) = tree.get(here.as_str()) {
        walk = walk.enter(names.iter().map(|name| name.as_bytes().to_vec()).collect());
        loop {
            let (next, entry) = walk.advance();
            walk = next;
            match entry {
                Some(name) => {
                    assert!(walk.path().ends_with(&name));
                    walk = visit(walk, tree, visited);
                },
                None => break,
            }
        }
    }
    assert_eq!(walk.path(), here.as_bytes());
    walk
}

#[test]
fn walk_comes_to_every_file() {
    let tree = BTreeMap::from([
        ("/r", vec!["z", "b", "a"]),
        ("/r/b", vec!["2", "10", "1"]),
        ("/r/b/2", vec![]),
        ("/r/z", vec!["x"]),
    ]);
    let mut visited = Vec::new();
    visit(NarWalk::new(b"/r".to_vec()), &tree, &mut visited);
    assert_eq!(
        visited,
        ["/r", "/r/a", "/r/b", "/r/b/1", "/r/b/10", "/r/b/2", "/r/z", "/r/z/x"]
    );
}

#[test]
fn slash_stands_once_between_directory_and_entry() {
    for (dir, name, expected) in
        [("x", "a", "x/a"), ("x/", "a", "x/a"), ("/", "a", "/a"), ("", "a", "a")]
    {
        let walk = NarWalk::new(dir.as_bytes().to_vec());
        let (walk, entry) = walk.enter(vec![name.as_bytes().to_vec()]).advance();
        assert_eq!(entry.unwrap(), name.as_bytes());
        assert_eq!(walk.path(), expected.as_bytes());
        let (walk, entry) = walk.advance();
        assert!(entry.is_none());
        assert_eq!(walk.path(), dir.as_bytes());
    }
}

#[test]
fn stand_in_knows_every_path() {
    let path = path("a", "foo");
    let narinfo = NixCli.get_narinfo(&path);
    assert_eq!(narinfo.store_path.to_text(), "/nix/store/a-foo");
    assert_eq!(narinfo.compression, CompressionAlgorithm::Uncompressed);
    assert_eq!((narinfo.file_size, narinfo.nar_size), (42, 42));
    assert_eq!(narinfo.file_hash, [0; 32]);
    assert_eq!(narinfo.nar_hash, [0; 32]);
    assert!(narinfo.references.is_empty() && narinfo.signatures.is_empty());
    assert!(narinfo.deriver.is_none() && narinfo.content_address.is_none());
    let (nar, hash) = NixCli.pack_nar(&path);
    assert_eq!(nar, [42]);
    assert_eq!(hash, [0; 32]);
    let closure = NixCli.store_closure(&path);
    assert_eq!(closure.len(), 1);
    assert_eq!(closure[0].to_text(), "/nix/store/a-foo");
}

#[test]
fn short_lists_can_grow() {
    let mut texts = TextList::new();
    let mut names = BasenameList::new();
    let mut numbers = PartNumbers::new();
    for i in 0..20u16 {
        texts.push(i.to_string());
        names.push(store_basename(&i.to_string(), "foo"));
        numbers.push(i);
    }
    assert_eq!(texts.to_vec()[19], "19");
    assert_eq!(texts.as_slice().len(), 20);
    assert_eq!(names.into_vec()[7].to_text(), "7-foo");
    assert_eq!(numbers.into_vec(), (0..20).collect::<Vec<u16>>());
}

fn store_basename(hash: &str, name: &str) -> StoreBasename {
    StoreBasename { hash: hash.to_owned(), name: name.to_owned() }
}

fn path(hash: &str, name: &str) -> StorePath {
    StorePath { store_dir: StoreDir::NixStore, basename: store_basename(hash, name) }
}

//! What is made of the answers of the Nix store, and of its files.

use vstd::prelude::*;
use vstd::utf8::*;

use crate::small_list;
use crate::small_list::{BasenameList, TextList};
use crate::store_path;
use crate::store_path::{StoreBasename, StorePath, StorePathView};
use crate::text;

verus! {

/// The bytes with which the store is asked about a path: its written form, with
/// a `NUL` byte at the end.
pub open spec fn c_path(path: StorePathView) -> Seq<u8> {
    encode_utf8(path.text()).push(0)
}

/// Returns the bytes with which the store is asked about a path.
pub fn path_to_c(path: &StorePath) -> (bytes: Vec<u8>)
    ensures
        bytes@ == c_path(path@),
{
    let text: String = path.to_text();
    let mut bytes: Vec<u8> = vstd::slice::slice_to_vec(text.as_str().as_bytes());
    bytes.push(0);
    bytes
}

/// The only `NUL` byte of those with which the store is asked about a path is
/// the last one.
pub proof fn law_c_path_has_no_interior_nul(path: StorePathView)
    requires
        path.store_dir.wf(),
        !path.basename.hash.contains('\0'),
        !path.basename.name.contains('\0'),
    ensures
        forall|i: int| 0 <= i < c_path(path).len() - 1 ==> c_path(path)[i] != 0,
        c_path(path).last() == 0,
{
    let chars = path.text();
    reveal_strlit("/nix/store");
    reveal_strlit("/");
    reveal_strlit("-");
    assert(!path.store_dir.text().contains('\0'));
    assert(!chars.contains('\0')) by {
        if chars.contains('\0') {
            let i = choose|i: int| 0 <= i < chars.len() && chars[i] == '\0';
            let dir = path.store_dir.text();
            let hash = path.basename.hash;
            let name = path.basename.name;
            if i < dir.len() {
                assert(dir[i] == '\0');
            } else if i == dir.len() {
                assert(chars[i] == '/');
            } else if i < dir.len() + 1 + hash.len() {
                assert(hash[i - dir.len() - 1] == '\0');
            } else if i == dir.len() + 1 + hash.len() {
                assert(chars[i] == '-');
            } else {
                assert(name[i - dir.len() - 2 - hash.len()] == '\0');
            }
        }
    }
    text::lemma_encode_ascii(chars, 0);
    assert(0u8 as char == '\0');
    assert forall|i: int| 0 <= i < c_path(path).len() - 1 implies c_path(path)[i] != 0 by {
        assert(c_path(path)[i] == encode_utf8(chars)[i]);
        if c_path(path)[i] == 0 {
            assert(encode_utf8(chars).contains(0));
        }
    }
}

/// The text that `{:?}` makes of a text.
pub uninterp spec fn debug_text(s: Seq<char>) -> Seq<char>;

/// `{:?}`, on a text, puts it in double quotes and writes some characters as
/// escape sequences. What it gives is a function of the text, which
/// [`debug_text`] names.
#[verifier::external_body]
fn format_debug(s: &str) -> (text: String)
    ensures
        text@ == debug_text(s@),
{
    format!("{:?}", s)
}

/// What is said about a text that could not be parsed, given how it is quoted.
pub open spec fn quoted_error_text(
    quoted: Seq<char>,
    what: Seq<char>,
    error: Seq<char>,
) -> Seq<char> {
    "couldn't parse "@ + quoted + " into "@ + what + ": "@ + error
}

/// Returns what is said about a text that could not be parsed, given how it is
/// quoted.
pub fn describe_quoted_error(quoted: &str, what: &str, error: &str) -> (text: String)
    ensures
        text@ == quoted_error_text(quoted@, what@, error@),
{
    let mut text: String = text::concat3("couldn't parse ", quoted, " into ");
    text.append(what);
    text.append(": ");
    text.append(error);
    text
}

/// What is said about a text that could not be parsed.
pub open spec fn parse_error_text(
    s: Seq<char>,
    what: Seq<char>,
    error: Seq<char>,
) -> Seq<char> {
    quoted_error_text(debug_text(s), what, error)
}

/// Returns what is said about a text that could not be parsed.
fn describe_parse_error(s: &str, what: &str, error: &str) -> (text: String)
    ensures
        text@ == parse_error_text(s@, what@, error@),
{
    describe_quoted_error(format_debug(s).as_str(), what, error)
}

/// Takes the hash and the name of a store path, with whether the name could be
/// parsed, and returns the basename of the path.
pub fn basename(hash: String, name: String, parsed: Result<(), String>) -> (basename: Result<
    StoreBasename,
    String,
>)
    ensures
        match parsed {
            Ok(()) => basename == Ok::<StoreBasename, String>(StoreBasename { hash, name }),
            Err(error) => basename matches Err(text) && text@ == parse_error_text(
                name@,
                "a store name"@,
                error@,
            ),
        },
{
    match parsed {
        Ok(()) => Ok(StoreBasename { hash, name }),
        Err(error) => Err(describe_parse_error(name.as_str(), "a store name", error.as_str())),
    }
}

/// Takes the content address of a store path, if it has one, with whether it
/// could be parsed.
pub fn content_address(ca: Option<(String, Result<(), String>)>) -> (address: Result<
    Option<String>,
    String,
>)
    ensures
        match ca {
            None => address == Ok::<Option<String>, String>(None),
            Some((ca, Ok(()))) => address == Ok::<Option<String>, String>(Some(ca)),
            Some((ca, Err(error))) => address matches Err(text) && text@ == parse_error_text(
                ca@,
                "a CA"@,
                error@,
            ),
        },
{
    match ca {
        None => Ok(None),
        Some((ca, Ok(()))) => Ok(Some(ca)),
        Some((ca, Err(error))) => Err(describe_parse_error(ca.as_str(), "a CA", error.as_str())),
    }
}

/// Returns the text of a signature, if it has one.
pub fn signature_text(bytes: &[u8]) -> (signature: Result<String, String>)
    ensures
        match signature {
            Ok(signature) => valid_utf8(bytes@) && signature@ == decode_utf8(bytes@),
            Err(error) => !valid_utf8(bytes@) && error@ == "signature is not valid UTF-8: "@
                + debug_text(text::lossy(bytes@)),
        },
{
    match text::from_utf8(bytes) {
        Ok(signature) => Ok(signature),
        Err(_) => Err(
            text::concat2(
                "signature is not valid UTF-8: ",
                format_debug(text::from_utf8_lossy(bytes).as_str()).as_str(),
            ),
        ),
    }
}

/// Takes the text of a signature, with whether it could be parsed.
pub fn on_signature_parsed(signature: String, parsed: Result<(), String>) -> (res: Result<
    String,
    String,
>)
    ensures
        match parsed {
            Ok(()) => res == Ok::<String, String>(signature),
            Err(error) => res matches Err(text) && text@ == parse_error_text(
                signature@,
                "signature"@,
                error@,
            ),
        },
{
    match parsed {
        Ok(()) => Ok(signature),
        Err(error) => Err(
            describe_parse_error(signature.as_str(), "signature", error.as_str()),
        ),
    }
}

/// All of the items, or the first error.
pub open spec fn collected<T>(items: Seq<Result<T, String>>) -> Result<Seq<T>, String>
    decreases items.len(),
{
    if items.len() == 0 {
        Ok(seq![])
    } else {
        collected_with(collected(items.drop_last()), items.last())
    }
}

/// What was collected, and one more item.
pub open spec fn collected_with<T>(
    before: Result<Seq<T>, String>,
    item: Result<T, String>,
) -> Result<Seq<T>, String> {
    match (before, item) {
        (Ok(items), Ok(item)) => Ok(items.push(item)),
        (Ok(_), Err(error)) => Err(error),
        (Err(error), _) => Err(error),
    }
}

/// The store paths of a closure, as far as they could be found out.
pub struct StoreClosure {
    paths: Result<Vec<StorePath>, String>,
}

/// The store path of a closure with the given basename.
pub open spec fn closure_path(
    of: StorePathView,
    basename: store_path::StoreBasenameView,
) -> StorePathView {
    StorePathView { store_dir: of.store_dir, basename }
}

impl StoreClosure {
    /// The paths, or the first error.
    pub closed spec fn view(&self) -> Result<Seq<StorePathView>, String> {
        match self.paths {
            Ok(paths) => Ok(store_path::path_views(paths@)),
            Err(error) => Err(error),
        }
    }

    /// The closure before any of its paths is known.
    pub fn new() -> (closure: Self)
        ensures
            closure@ == Ok::<Seq<StorePathView>, String>(seq![]),
    {
        let paths: Vec<StorePath> = Vec::new();
        assert(store_path::path_views(paths@) =~= seq![]);
        StoreClosure { paths: Ok(paths) }
    }

    /// Takes the basename of the next path of the closure of the given one, or
    /// why it could not be found out. Once there was an error, it stays.
    pub fn on_path(&mut self, of: &StorePath, basename: Result<StoreBasename, String>)
        ensures
            final(self)@ == collected_with(
                old(self)@,
                match basename {
                    Ok(basename) => Ok::<StorePathView, String>(closure_path(of@, basename@)),
                    Err(error) => Err::<StorePathView, String>(error),
                },
            ),
    {
        let ghost before = self@;
        match &mut self.paths {
            Ok(paths) => match basename {
                Ok(basename) => {
                    let ghost views = store_path::path_views(paths@);
                    paths.push(StorePath { store_dir: of.store_dir.clone(), basename });
                    assert(store_path::path_views(paths@) =~= views.push(
                        closure_path(of@, basename@),
                    ));
                },
                Err(error) => {
                    self.paths = Err(error);
                },
            },
            Err(_) => {},
        }
    }

    /// Returns the paths, or the first error.
    pub fn finish(self) -> (paths: Result<Vec<StorePath>, String>)
        ensures
            match paths {
                Ok(paths) => self@ == Ok::<Seq<StorePathView>, String>(
                    store_path::path_views(paths@),
                ),
                Err(error) => self@ == Err::<Seq<StorePathView>, String>(error),
            },
    {
        self.paths
    }
}

/// Collects the references of a store path, up to the first that could not be
/// found out.
pub struct References {
    names: BasenameList,
}

impl References {
    /// The references that were collected.
    pub closed spec fn view(&self) -> Seq<StoreBasename> {
        self.names@
    }

    /// The references before any of them is known.
    pub fn new() -> (references: Self)
        ensures
            references@ == Seq::<StoreBasename>::empty(),
    {
        References { names: BasenameList::new() }
    }

    /// Takes the next reference, or why it could not be found out, with which
    /// collecting them ends.
    pub fn on_reference(&mut self, name: Result<StoreBasename, String>) -> (next: Result<
        (),
        String,
    >)
        requires
            old(self)@.len() < small_list::MAX_LIST_LEN,
        ensures
            collected_with(Ok::<Seq<StoreBasename>, String>(old(self)@), name) == match next {
                Ok(()) => Ok::<Seq<StoreBasename>, String>(final(self)@),
                Err(error) => Err::<Seq<StoreBasename>, String>(error),
            },
            next is Err ==> final(self)@ == old(self)@,
    {
        match name {
            Ok(name) => {
                self.names.push(name);
                Ok(())
            },
            Err(error) => Err(error),
        }
    }

    /// Returns the references.
    pub fn finish(self) -> (names: Vec<StoreBasename>)
        ensures
            names@ == self@,
    {
        self.names.into_vec()
    }
}

/// Collects the signatures of a store path, up to the first that is none.
pub struct Signatures {
    signatures: TextList,
}

impl Signatures {
    /// The signatures that were collected.
    pub closed spec fn view(&self) -> Seq<Seq<char>> {
        self.signatures@
    }

    /// The signatures before any of them is known.
    pub fn new() -> (signatures: Self)
        ensures
            signatures@ == Seq::<Seq<char>>::empty(),
    {
        Signatures { signatures: TextList::new() }
    }

    /// Takes the next signature, or why it is none, with which collecting them
    /// ends.
    pub fn on_signature(&mut self, signature: Result<String, String>) -> (next: Result<(), String>)
        requires
            old(self)@.len() < small_list::MAX_LIST_LEN,
        ensures
            match signature {
                Ok(signature) => next is Ok && final(self)@ == old(self)@.push(signature@),
                Err(error) => next == Err::<(), String>(error) && final(self)@ == old(self)@,
            },
    {
        match signature {
            Ok(signature) => {
                self.signatures.push(signature);
                Ok(())
            },
            Err(error) => Err(error),
        }
    }

    /// Returns the signatures.
    pub fn finish(&self) -> (signatures: Vec<String>)
        ensures
            store_path::text_views(signatures@) == self@,
    {
        self.signatures.to_vec()
    }
}

/// Collecting items one by one gives all of them, or the first error.
pub proof fn law_first_error_wins<T>(items: Seq<Result<T, String>>)
    ensures
        match collected(items) {
            Ok(all) => all.len() == items.len() && forall|i: int|
                0 <= i < items.len() ==> #[trigger] items[i] == Ok::<T, String>(all[i]),
            Err(error) => exists|i: int|
                0 <= i < items.len() && #[trigger] items[i] == Err::<T, String>(error) && forall|
                    j: int,
                |
                    0 <= j < i ==> (#[trigger] items[j]) is Ok,
        },
    decreases items.len(),
{
    if items.len() > 0 {
        let front = items.drop_last();
        law_first_error_wins(front);
        match collected(front) {
            Ok(all) => {
                assert forall|j: int| 0 <= j < front.len() implies (#[trigger] items[j]) is Ok by {
                    assert(items[j] == front[j]);
                }
                if let Ok(item) = items.last() {
                    let longer = all.push(item);
                    assert forall|i: int| 0 <= i < items.len() implies #[trigger] items[i] == Ok::<
                        T,
                        String,
                    >(longer[i]) by {
                        if i < front.len() {
                            assert(items[i] == front[i]);
                        }
                    }
                } else {
                    assert(items[items.len() - 1] is Err);
                }
            },
            Err(error) => {
                let i = choose|i: int|
                    0 <= i < front.len() && #[trigger] front[i] == Err::<T, String>(error)
                        && forall|j: int| 0 <= j < i ==> (#[trigger] front[j]) is Ok;
                assert(items[i] == front[i]);
                assert forall|j: int| 0 <= j < i implies (#[trigger] items[j]) is Ok by {
                    assert(items[j] == front[j]);
                }
            },
        }
    }
}

/// The store is asked about the whole written form of a path, in UTF-8; so it is
/// asked the same about two paths only if they have the same written form.
pub proof fn law_store_is_asked_about_the_path(a: StorePathView, b: StorePathView)
    ensures
        c_path(a).drop_last() == encode_utf8(a.text()),
        c_path(a) == c_path(b) ==> a.text() == b.text(),
{
    assert(c_path(a).drop_last() =~= encode_utf8(a.text()));
    assert(c_path(b).drop_last() =~= encode_utf8(b.text()));
    if c_path(a) == c_path(b) {
        text::lemma_encode_injective(a.text(), b.text());
    }
}

/// A path of the closure of a store path is in the same store directory, and has
/// the hash and the name that the store gave.
pub proof fn law_closure_stays_in_the_store(of: StorePathView, basename: StoreBasename)
    ensures
        closure_path(of, basename@).store_dir == of.store_dir,
        closure_path(of, basename@).basename.hash == basename.hash@,
        closure_path(of, basename@).basename.name == basename.name@,
{
}

/// What is said about a text that could not be parsed names the text, in quotes,
/// what it was parsed as, and the whole error.
pub proof fn law_parse_errors_are_told_in_full(
    s: Seq<char>,
    quoted: Seq<char>,
    what: Seq<char>,
    error: Seq<char>,
)
    ensures
        quoted_error_text(quoted, what, error) == "couldn't parse "@ + quoted + " into "@ + what
            + ": "@ + error,
        parse_error_text(s, what, error) == "couldn't parse "@ + debug_text(s) + " into "@ + what
            + ": "@ + error,
{
}

} // verus!

//! Running the daemon.

use std::path::PathBuf;

use vstd::prelude::*;

use crate::any_cache::AnyCacheKind;
use crate::small_list::TextList;
use crate::store_path::NarInfoFileName;
use crate::sub60_cache::Sub60CacheConnectError;
use crate::{readiness, small_list, store_path, text, url_text};

verus! {

/// The URLs of the caches whose store paths are not pushed.
pub struct UpstreamCaches {
    urls: TextList,
}

impl View for UpstreamCaches {
    type V = Seq<Seq<char>>;

    closed spec fn view(&self) -> Seq<Seq<char>> {
        self.urls@
    }
}

/// The cache at `cache.sub60.dev` that the daemon pushes to.
pub struct Sub60CacheRunArgs {
    pub user: String,
    pub cache: String,
    pub auth_token: String,
}

/// What the daemon is run with.
pub struct RunArgs {
    pub socket: PathBuf,
    pub ready_fd: Option<i32>,
    pub upstream_caches: UpstreamCaches,
    pub sub60_cache_args: Sub60CacheRunArgs,
    pub cache: AnyCacheKind,
}

/// The position of the first comma of a text, or its length if it has none.
pub open spec fn first_comma(s: Seq<char>) -> nat
    decreases s.len(),
{
    if s.len() == 0 || s[0] == ',' {
        0
    } else {
        1 + first_comma(s.drop_first())
    }
}

/// What stands between the commas of a text, without what is empty.
pub open spec fn list_items(s: Seq<char>) -> Seq<Seq<char>>
    decreases s.len(),
{
    let n = first_comma(s) as int;
    let item = s.take(n);
    let rest = if n < s.len() {
        list_items(s.skip(n + 1))
    } else {
        seq![]
    };
    if item.len() == 0 {
        rest
    } else {
        seq![item] + rest
    }
}

/// The URLs that texts stand for, or the error about the first that stands for
/// none.
pub open spec fn all_parsed(items: Seq<Seq<char>>) -> Result<Seq<Seq<char>>, Seq<char>>
    decreases items.len(),
{
    if items.len() == 0 {
        Ok(seq![])
    } else {
        match url_text::url_parsed(items[0]) {
            Ok(url) => prepended(seq![url], all_parsed(items.drop_first())),
            Err(error) => Err(error),
        }
    }
}

/// The URLs, with others before them.
pub open spec fn prepended(
    urls: Seq<Seq<char>>,
    more: Result<Seq<Seq<char>>, Seq<char>>,
) -> Result<Seq<Seq<char>>, Seq<char>> {
    match more {
        Ok(more) => Ok(urls + more),
        Err(error) => Err(error),
    }
}

proof fn lemma_first_comma(s: Seq<char>)
    ensures
        first_comma(s) <= s.len(),
        first_comma(s) < s.len() ==> s[first_comma(s) as int] == ',',
        forall|i: int| 0 <= i < first_comma(s) ==> s[i] != ',',
    decreases s.len(),
{
    if s.len() > 0 && s[0] != ',' {
        let rest = s.drop_first();
        lemma_first_comma(rest);
        assert forall|i: int| 0 <= i < first_comma(s) implies s[i] != ',' by {
            if i > 0 {
                assert(s[i] == rest[i - 1]);
            }
        }
    }
}

/// The position of the first comma is the only one with these properties.
proof fn lemma_first_comma_unique(s: Seq<char>, n: int)
    requires
        0 <= n <= s.len(),
        n < s.len() ==> s[n] == ',',
        forall|i: int| 0 <= i < n ==> s[i] != ',',
    ensures
        first_comma(s) == n,
{
    lemma_first_comma(s);
}

/// Returns what stands between the commas of a text, without what is empty.
pub fn split_list(value: &str) -> (items: Vec<String>)
    ensures
        store_path::text_views(items@) == list_items(value@),
        items@.len() <= value@.len(),
{
    let len: usize = value.unicode_len();
    let mut items: Vec<String> = Vec::new();
    let mut start: usize = 0;
    let ghost wanted = list_items(value@);
    assert(value@.skip(0) =~= value@);
    assert(store_path::text_views(items@) + wanted =~= wanted);
    loop
        invariant
            start <= len == value@.len(),
            items@.len() <= start,
            wanted == list_items(value@),
            store_path::text_views(items@) + list_items(value@.skip(start as int)) == wanted,
        decreases len - start,
    {
        let mut end: usize = start;
        while end < len && value.get_char(end) != ','
            invariant
                start <= end <= len == value@.len(),
                forall|i: int| start <= i < end ==> value@[i] != ',',
            ensures
                start <= end <= len,
                end < len ==> value@[end as int] == ',',
                forall|i: int| start <= i < end ==> value@[i] != ',',
            decreases len - end,
        {
            end = end + 1;
        }
        let ghost rest = value@.skip(start as int);
        let ghost item = value@.subrange(start as int, end as int);
        let ghost before = store_path::text_views(items@);
        let ghost more = if end < len {
            list_items(value@.skip(end + 1))
        } else {
            seq![]
        };
        proof {
            assert forall|i: int| 0 <= i < end - start implies rest[i] != ',' by {
                assert(rest[i] == value@[start + i]);
            }
            lemma_first_comma_unique(rest, end - start);
            assert(rest.take(end - start) =~= item);
            if end < len {
                assert(rest.skip(end - start + 1) =~= value@.skip(end + 1));
            }
        }
        if end > start {
            items.push(value.substring_char(start, end).to_owned());
            assert(store_path::text_views(items@) =~= before.push(item));
            assert(before + (seq![item] + more) =~= store_path::text_views(items@) + more);
        }
        if end == len {
            assert(store_path::text_views(items@) + more =~= store_path::text_views(items@));
            return items;
        }
        start = end + 1;
    }
}

/// What comes of the first items, and then of the others, is what comes of all.
proof fn lemma_all_parsed_prefix(items: Seq<Seq<char>>, n: int)
    requires
        0 <= n <= items.len(),
    ensures
        all_parsed(items) == match all_parsed(items.take(n)) {
            Ok(urls) => prepended(urls, all_parsed(items.skip(n))),
            Err(error) => Err(error),
        },
    decreases n,
{
    if n == 0 {
        assert(items.take(0) =~= seq![]);
        assert(items.skip(0) =~= items);
        if let Ok(urls) = all_parsed(items) {
            assert(Seq::<Seq<char>>::empty() + urls =~= urls);
        }
    } else {
        let rest = items.drop_first();
        lemma_all_parsed_prefix(rest, n - 1);
        assert(items.take(n).drop_first() =~= rest.take(n - 1));
        assert(items.skip(n) =~= rest.skip(n - 1));
        if let Ok(url) = url_text::url_parsed(items[0]) {
            if let (Ok(urls), Ok(more)) = (
                all_parsed(rest.take(n - 1)),
                all_parsed(items.skip(n)),
            ) {
                assert(seq![url] + (urls + more) =~= (seq![url] + urls) + more);
            }
        }
    }
}

/// Parses a list of URLs of caches, separated by commas.
pub fn parse_upstream_caches(value: &str) -> (caches: Result<UpstreamCaches, String>)
    requires
        value@.len() < small_list::MAX_LIST_LEN,
    ensures
        match caches {
            Ok(caches) => all_parsed(list_items(value@)) == Ok::<Seq<Seq<char>>, Seq<char>>(
                caches@,
            ),
            Err(error) => all_parsed(list_items(value@)) == Err::<Seq<Seq<char>>, Seq<char>>(
                error@,
            ),
        },
{
    let items: Vec<String> = split_list(value);
    let ghost texts = store_path::text_views(items@);
    let mut urls: TextList = TextList::new();
    assert(texts.take(0) =~= seq![]);
    for i in 0..items.len()
        invariant
            texts == store_path::text_views(items@),
            texts == list_items(value@),
            items@.len() <= value@.len() < small_list::MAX_LIST_LEN,
            urls@.len() == i,
            all_parsed(texts.take(i as int)) == Ok::<Seq<Seq<char>>, Seq<char>>(urls@),
    {
        let ghost before = urls@;
        proof {
            let longer = texts.take(i + 1);
            lemma_all_parsed_prefix(longer, i as int);
            assert(longer.take(i as int) =~= texts.take(i as int));
            assert(longer.skip(i as int) =~= seq![texts[i as int]]);
            assert(longer.skip(i as int).drop_first() =~= seq![]);
            reveal_with_fuel(all_parsed, 2);
            lemma_all_parsed_prefix(texts, i + 1);
        }
        match url_text::parse(items[i].as_str()) {
            Ok(url) => {
                urls.push(url);
                assert(before + (seq![url@] + Seq::<Seq<char>>::empty()) =~= urls@);
            },
            Err(error) => {
                return Err(error);
            },
        }
    }
    assert(texts.take(texts.len() as int) =~= texts);
    Ok(UpstreamCaches { urls })
}

/// The URLs that come of adding a path segment to each of the given ones, or
/// `None` if one of them cannot have it.
pub open spec fn all_pushed(urls: Seq<Seq<char>>, segment: Seq<char>) -> Option<Seq<Seq<char>>>
    decreases urls.len(),
{
    if urls.len() == 0 {
        Some(seq![])
    } else {
        match (all_pushed(urls.drop_last(), segment), url_text::pushed(urls.last(), segment)) {
            (Some(longer), Some(last)) => Some(longer.push(last)),
            _ => None,
        }
    }
}

/// If one of the first URLs cannot have the segment, there is no result.
proof fn lemma_all_pushed_none(urls: Seq<Seq<char>>, segment: Seq<char>, n: int)
    requires
        0 <= n <= urls.len(),
        all_pushed(urls.take(n), segment) is None,
    ensures
        all_pushed(urls, segment) is None,
    decreases urls.len(),
{
    if n == urls.len() {
        assert(urls.take(n) =~= urls);
    } else {
        assert(urls.drop_last().take(n) =~= urls.take(n));
        lemma_all_pushed_none(urls.drop_last(), segment, n);
    }
}

impl UpstreamCaches {
    /// Returns the URLs of the caches.
    pub fn to_vec(&self) -> (urls: Vec<String>)
        ensures
            store_path::text_views(urls@) == self@,
    {
        self.urls.to_vec()
    }

    /// Returns the URLs under which the caches have a NARInfo, if they have it,
    /// or `None` if the URL of one of them cannot have path segments, or is too
    /// long.
    pub fn narinfo_urls(&self, name: &NarInfoFileName) -> (urls: Option<Vec<String>>)
        ensures
            ({
                let wanted = all_pushed(
                    self@,
                    store_path::narinfo_filename_text(name.store_hash@),
                );
                match urls {
                    Some(urls) => wanted == Some(store_path::text_views(urls@)),
                    None => wanted is None,
                }
            }),
            urls matches Some(urls) ==> urls@.len() == self@.len() && forall|i: int|
                0 <= i < urls@.len() ==> url_text::pushed(
                    self@[i],
                    store_path::narinfo_filename_text(name.store_hash@),
                ) == Some((#[trigger] urls@[i])@),
            (forall|i: int|
                0 <= i < self@.len() ==> url_text::web_url(#[trigger] self@[i]) && url_text::fits(
                    self@[i],
                    store_path::narinfo_filename_text(name.store_hash@),
                )) ==> urls is Some,
    {
        let segment: String = name.to_text();
        let all: &[String] = self.urls.as_slice();
        let ghost caches = self@;
        let mut urls: Vec<String> = Vec::new();
        assert(store_path::text_views(urls@) =~= seq![]);
        for i in 0..all.len()
            invariant
                store_path::text_views(all@) == self@,
                caches == self@,
                segment@ == store_path::narinfo_filename_text(name.store_hash@),
                all_pushed(caches.take(i as int), segment@) == Some(store_path::text_views(urls@)),
        {
            let ghost before = urls@;
            assert(caches.take(i + 1).drop_last() =~= caches.take(i as int));
            match url_text::push(all[i].as_str(), segment.as_str()) {
                Some(url) => {
                    urls.push(url);
                    assert(store_path::text_views(urls@) =~= store_path::text_views(before).push(
                        url@,
                    ));
                },
                None => {
                    proof {
                        lemma_all_pushed_none(caches, segment@, i + 1);
                        assert(caches[i as int] == all@[i as int]@);
                    }
                    return None;
                },
            }
        }
        assert(caches.take(caches.len() as int) =~= caches);
        proof {
            law_each_upstream_cache_is_asked(caches, segment@);
            let texts = store_path::text_views(urls@);
            assert(texts.len() == urls@.len());
            assert forall|i: int| 0 <= i < urls@.len() implies url_text::pushed(
                caches[i],
                segment@,
            ) == Some((#[trigger] urls@[i])@) by {
                assert(texts[i] == urls@[i]@);
            }
        }
        Some(urls)
    }
}

/// Why the daemon could not be started.
#[derive(Debug)]
pub enum StartError {
    BindSocket(String),
    ConnectToCache(Sub60CacheConnectError),
    OpenNixStore(String),
}

impl StartError {
    /// The written form.
    pub open spec fn text(self) -> Seq<char> {
        match self {
            StartError::BindSocket(error) => "Couldn't bind to Unix domain socket: "@ + error@,
            StartError::ConnectToCache(error) => error.text(),
            StartError::OpenNixStore(error) => "Couldn't open Nix store: "@ + error@,
        }
    }

    /// Returns the written form.
    pub fn to_text(&self) -> (text: String)
        ensures
            text@ == self.text(),
    {
        match self {
            StartError::BindSocket(error) => text::concat2(
                "Couldn't bind to Unix domain socket: ",
                error.as_str(),
            ),
            StartError::ConnectToCache(error) => error.to_text(),
            StartError::OpenNixStore(error) => text::concat2(
                "Couldn't open Nix store: ",
                error.as_str(),
            ),
        }
    }
}

/// What is done to start the daemon, in this order.
#[derive(Clone, Copy, Debug, PartialEq, Eq, Structural)]
pub enum Start {
    BindSocket,
    OpenNixStore,
    ConnectToCache,
}

impl Start {
    /// What is done next, if anything is.
    pub open spec fn next(self) -> Option<Start> {
        match self {
            Start::BindSocket => Some(Start::OpenNixStore),
            Start::OpenNixStore => Some(Start::ConnectToCache),
            Start::ConnectToCache => None,
        }
    }

    /// What is wrong if this fails.
    pub open spec fn error(self, error: String) -> StartError {
        match self {
            Start::BindSocket => StartError::BindSocket(error),
            Start::OpenNixStore => StartError::OpenNixStore(error),
            Start::ConnectToCache => StartError::ConnectToCache(
                Sub60CacheConnectError::BuildHttpClient(error),
            ),
        }
    }

    /// Takes whether this was done, and decides what is done next, if anything
    /// is.
    pub fn on_done(self, done: Result<(), String>) -> (next: Result<Option<Start>, StartError>)
        ensures
            next == match done {
                Ok(()) => Ok::<Option<Start>, StartError>(self.next()),
                Err(error) => Err::<Option<Start>, StartError>(self.error(error)),
            },
    {
        match (self, done) {
            (Start::BindSocket, Ok(())) => Ok(Some(Start::OpenNixStore)),
            (Start::OpenNixStore, Ok(())) => Ok(Some(Start::ConnectToCache)),
            (Start::ConnectToCache, Ok(())) => Ok(None),
            (Start::BindSocket, Err(error)) => Err(StartError::BindSocket(error)),
            (Start::OpenNixStore, Err(error)) => Err(StartError::OpenNixStore(error)),
            (Start::ConnectToCache, Err(error)) => Err(
                StartError::ConnectToCache(Sub60CacheConnectError::BuildHttpClient(error)),
            ),
        }
    }
}

/// What the daemon does once it has started, or could not.
pub struct Started {
    /// What is written to the file descriptor that was given for it, one byte
    /// string after the other.
    pub writes: Vec<Vec<u8>>,
    /// What is said on the standard error.
    pub said: Option<String>,
    /// Whether the daemon goes on.
    pub goes_on: bool,
}

/// Takes whether the daemon has started. A process that waits for it on a file
/// descriptor is told, and otherwise an error is said.
pub fn on_started(ready_fd: Option<i32>, started: &Result<(), StartError>) -> (next: Started)
    ensures
        next.goes_on == started is Ok,
        match ready_fd {
            Some(_) => {
                &&& next.said is None
                &&& readiness::written(next.writes@) == readiness::signal_bytes(
                    match started {
                        Ok(()) => None,
                        Err(error) => Some(error.text()),
                    },
                )
            },
            None => {
                &&& next.writes@.len() == 0
                &&& match started {
                    Ok(()) => next.said is None,
                    Err(error) => next.said matches Some(said) && said@ == error.text(),
                }
            },
        },
{
    let goes_on: bool = started.is_ok();
    let error: Option<String> = match started {
        Ok(()) => None,
        Err(error) => Some(error.to_text()),
    };
    match (ready_fd, error) {
        (Some(_), Some(error)) => Started {
            writes: readiness::signal(Some(error.as_str())),
            said: None,
            goes_on,
        },
        (Some(_), None) => Started { writes: readiness::signal(None), said: None, goes_on },
        (None, error) => Started { writes: Vec::new(), said: error, goes_on },
    }
}

/// Returns what is said if the file descriptor cannot be written to.
pub fn describe_write_error(ready_fd: i32, error: &str) -> (said: String)
    ensures
        said@ == "Couldn't write to file descriptor "@ + text::signed_decimal_text(ready_fd as int)
            + ": "@ + error@,
{
    let mut said: String = text::concat3(
        "Couldn't write to file descriptor ",
        text::signed_decimal(ready_fd).as_str(),
        ": ",
    );
    said.append(error);
    said
}

/// Each upstream cache is asked, at its own URL with one more path segment: there
/// are as many URLs as caches, and the one at each place is that of the cache at
/// the same place. There are none only if one of the caches cannot have the
/// segment.
pub proof fn law_each_upstream_cache_is_asked(urls: Seq<Seq<char>>, segment: Seq<char>)
    ensures
        match all_pushed(urls, segment) {
            Some(asked) => asked.len() == urls.len() && forall|i: int|
                0 <= i < urls.len() ==> url_text::pushed(urls[i], segment) == Some(
                    #[trigger] asked[i],
                ),
            None => exists|i: int|
                0 <= i < urls.len() && url_text::pushed(#[trigger] urls[i], segment) is None,
        },
    decreases urls.len(),
{
    if urls.len() > 0 {
        let front = urls.drop_last();
        law_each_upstream_cache_is_asked(front, segment);
        match all_pushed(front, segment) {
            Some(asked) => {
                if all_pushed(urls, segment) is None {
                    assert(url_text::pushed(urls[urls.len() - 1], segment) is None);
                } else {
                    let all = all_pushed(urls, segment)->0;
                    assert forall|i: int| 0 <= i < urls.len() implies url_text::pushed(
                        urls[i],
                        segment,
                    ) == Some(#[trigger] all[i]) by {
                        if i < front.len() {
                            assert(all[i] == asked[i]);
                            assert(front[i] == urls[i]);
                        }
                    }
                }
            },
            None => {
                let i = choose|i: int|
                    0 <= i < front.len() && url_text::pushed(#[trigger] front[i], segment) is None;
                assert(url_text::pushed(urls[i], segment) is None);
            },
        }
    }
}

/// Each item of a list of upstream caches stands for the URL at the same place,
/// or the first that stands for none is what is wrong with the list.
pub proof fn law_each_upstream_cache_is_parsed(items: Seq<Seq<char>>)
    ensures
        match all_parsed(items) {
            Ok(urls) => urls.len() == items.len() && forall|i: int|
                0 <= i < items.len() ==> url_text::url_parsed(items[i]) == Ok::<
                    Seq<char>,
                    Seq<char>,
                >(#[trigger] urls[i]),
            Err(error) => exists|i: int|
                0 <= i < items.len() && url_text::url_parsed(#[trigger] items[i]) == Err::<
                    Seq<char>,
                    Seq<char>,
                >(error) && forall|j: int|
                    0 <= j < i ==> url_text::url_parsed(#[trigger] items[j]) is Ok,
        },
    decreases items.len(),
{
    if items.len() > 0 {
        let rest = items.drop_first();
        law_each_upstream_cache_is_parsed(rest);
        match (url_text::url_parsed(items[0]), all_parsed(rest)) {
            (Ok(url), Ok(more)) => {
                let urls = seq![url] + more;
                assert forall|i: int| 0 <= i < items.len() implies url_text::url_parsed(items[i])
                    == Ok::<Seq<char>, Seq<char>>(#[trigger] urls[i]) by {
                    if i > 0 {
                        assert(urls[i] == more[i - 1]);
                        assert(rest[i - 1] == items[i]);
                    }
                }
            },
            (Ok(_), Err(error)) => {
                let i = choose|i: int|
                    0 <= i < rest.len() && url_text::url_parsed(#[trigger] rest[i]) == Err::<
                        Seq<char>,
                        Seq<char>,
                    >(error) && forall|j: int|
                        0 <= j < i ==> url_text::url_parsed(#[trigger] rest[j]) is Ok;
                assert(items[i + 1] == rest[i]);
                assert forall|j: int| 0 <= j < i + 1 implies url_text::url_parsed(
                    #[trigger] items[j],
                ) is Ok by {
                    if j > 0 {
                        assert(rest[j - 1] == items[j]);
                    }
                }
            },
            _ => {
                assert(url_text::url_parsed(items[0]) is Err);
            },
        }
    }
}

/// The text in which the given items are separated by commas.
pub open spec fn comma_separated(items: Seq<Seq<char>>) -> Seq<char>
    decreases items.len(),
{
    if items.len() == 0 {
        seq![]
    } else if items.len() == 1 {
        items[0]
    } else {
        items[0] + seq![','] + comma_separated(items.drop_first())
    }
}

/// Of a text in which items are separated by commas the items come back, in their
/// order, without those that are empty.
pub proof fn law_list_holds_what_is_between_commas(items: Seq<Seq<char>>)
    requires
        forall|i: int| 0 <= i < items.len() ==> !(#[trigger] items[i]).contains(','),
    ensures
        list_items(comma_separated(items)) == items.filter(|item: Seq<char>| item.len() > 0),
    decreases items.len(),
{
    reveal_with_fuel(Seq::filter, 3);
    let nonempty = |item: Seq<char>| item.len() > 0;
    let s = comma_separated(items);
    if items.len() == 0 {
        lemma_first_comma_unique(s, 0);
        assert(list_items(s) =~= seq![]);
    } else {
        let item = items[0];
        let rest = items.drop_first();
        let n = item.len() as int;
        assert forall|i: int| 0 <= i < n implies s[i] != ',' by {
            assert(s[i] == item[i]);
            assert(item.contains(item[i]));
        }
        lemma_first_comma_unique(s, n);
        assert(s.take(n) =~= item);
        assert(items =~= seq![item] + rest);
        Seq::filter_distributes_over_add(seq![item], rest, nonempty);
        assert(seq![item].drop_last() =~= seq![]);
        assert(n > 0 ==> seq![item].filter(nonempty) =~= seq![item]);
        assert(n == 0 ==> seq![item].filter(nonempty) =~= seq![]);
        if items.len() == 1 {
            assert(rest =~= seq![]);
            assert(list_items(s) =~= items.filter(nonempty));
        } else {
            assert forall|i: int| 0 <= i < rest.len() implies !(#[trigger] rest[i]).contains(
                ',',
            ) by {
                assert(rest[i] == items[i + 1]);
            }
            law_list_holds_what_is_between_commas(rest);
            assert(s.skip(n + 1) =~= comma_separated(rest));
            assert(list_items(s) =~= items.filter(nonempty));
        }
    }
}

/// The socket is bound first, then the Nix store is opened, and the cache is
/// connected to last; what went wrong is told about the thing that did.
pub proof fn law_daemon_starts_in_order(error: String)
    ensures
        Start::BindSocket.next() == Some(Start::OpenNixStore),
        Start::OpenNixStore.next() == Some(Start::ConnectToCache),
        Start::ConnectToCache.next() is None,
        Start::BindSocket.error(error).text() == "Couldn't bind to Unix domain socket: "@ + error@,
        Start::OpenNixStore.error(error).text() == "Couldn't open Nix store: "@ + error@,
        Start::ConnectToCache.error(error).text() == "couldn't build HTTP client: "@ + error@,
{
}

} // verus!

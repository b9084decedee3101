//! URLs as texts. What the `url` crate computes on them goes from text to text.

use vstd::prelude::*;
use vstd::utf8::*;

verus! {

/// The URLs and path segments that are put together hold no more bytes than
/// this. The `url` crate panics where a URL that it changes outgrows 32 bits.
pub const MAX_URL_BYTES: usize = 0x0fff_ffff;

/// The normal form of the URL that a text stands for, or the text of the error
/// with which `url::Url::parse` turns it down.
pub uninterp spec fn url_parsed(text: Seq<char>) -> Result<Seq<char>, Seq<char>>;

/// The URL with one more path segment, or `None` if the text is no URL, or the
/// URL cannot have path segments.
pub uninterp spec fn url_with_segment(url: Seq<char>, segment: Seq<char>) -> Option<Seq<char>>;

/// The URL with one more pair in its query, or `None` if the text is no URL.
pub uninterp spec fn url_with_query_pair(
    url: Seq<char>,
    name: Seq<char>,
    value: Seq<char>,
) -> Option<Seq<char>>;

/// Whether a text is the normal form of a URL with the scheme `https`.
pub open spec fn web_url(url: Seq<char>) -> bool {
    &&& url_parsed(url) == Ok::<Seq<char>, Seq<char>>(url)
    &&& "https://"@.is_prefix_of(url)
}

/// Whether two texts that are put together to a URL are short enough.
pub open spec fn fits(url: Seq<char>, part: Seq<char>) -> bool {
    encode_utf8(url).len() + encode_utf8(part).len() <= MAX_URL_BYTES
}

/// The URL with one more path segment, or `None` if it has none or is too long.
pub open spec fn pushed(url: Seq<char>, segment: Seq<char>) -> Option<Seq<char>> {
    if fits(url, segment) {
        url_with_segment(url, segment)
    } else {
        None
    }
}

/// The URL with each of the given path segments added in turn.
pub open spec fn pushed_all(url: Seq<char>, segments: Seq<Seq<char>>) -> Option<Seq<char>>
    decreases segments.len(),
{
    if segments.len() == 0 {
        Some(url)
    } else {
        match pushed(url, segments[0]) {
            Some(url) => pushed_all(url, segments.drop_first()),
            None => None,
        }
    }
}

/// `url::Url::parse` parses an absolute URL. What it returns is a function of
/// the text, which [`url_parsed`] names: the URL in its normal form, or the
/// text of the error. Parsing the normal form of an `https` URL gives the same
/// URL. Of the URL of the default cache server the normal form is stated.
#[verifier::external_body]
fn url_parse(text: &str) -> (parsed: Result<String, String>)
    ensures
        match parsed {
            Ok(url) => url_parsed(text@) == Ok::<Seq<char>, Seq<char>>(url@),
            Err(error) => url_parsed(text@) == Err::<Seq<char>, Seq<char>>(error@),
        },
        parsed is Ok && "https://"@.is_prefix_of(parsed->Ok_0@) ==> url_parsed(parsed->Ok_0@)
            == Ok::<Seq<char>, Seq<char>>(parsed->Ok_0@),
        text@ == "https://cache.sub60.dev"@ ==> parsed is Ok && parsed->Ok_0@
            == "https://cache.sub60.dev/"@,
{
    match url::Url::parse(text) {
        Ok(url) => Ok(url.to_string()),
        Err(error) => Err(error.to_string()),
    }
}

/// `url::PathSegmentsMut::push` appends a segment, percent-encoded, to the path
/// of a URL. Which URL results is a function of the URL and of the segment,
/// which [`url_with_segment`] names. An `https` URL always has a path to append
/// to, and stays an `https` URL; it grows by at most a slash and the segment,
/// of which each byte becomes at most three.
#[verifier::external_body]
fn url_push(url: &str, segment: &str) -> (longer: Option<String>)
    requires
        fits(url@, segment@),
    ensures
        match longer {
            Some(text) => url_with_segment(url@, segment@) == Some(text@),
            None => url_with_segment(url@, segment@) is None,
        },
        web_url(url@) ==> longer is Some && web_url(longer->0@) && encode_utf8(longer->0@).len()
            <= encode_utf8(url@).len() + 1 + 3 * encode_utf8(segment@).len(),
{
    let mut parsed = url::Url::parse(url).ok()?;
    parsed.path_segments_mut().ok()?.push(segment);
    Some(parsed.to_string())
}

/// `form_urlencoded::Serializer::append_pair`, on the query of a URL, appends a
/// name and a value. Which URL results is a function of the three texts, which
/// [`url_with_query_pair`] names. An `https` URL always has a query to append
/// to.
#[verifier::external_body]
fn url_append_pair(url: &str, name: &str, value: &str) -> (longer: Option<String>)
    requires
        encode_utf8(url@).len() + encode_utf8(name@).len() + encode_utf8(value@).len()
            <= MAX_URL_BYTES,
    ensures
        match longer {
            Some(text) => url_with_query_pair(url@, name@, value@) == Some(text@),
            None => url_with_query_pair(url@, name@, value@) is None,
        },
        web_url(url@) ==> longer is Some,
{
    let mut parsed = url::Url::parse(url).ok()?;
    parsed.query_pairs_mut().append_pair(name, value);
    Some(parsed.to_string())
}

/// Parses an absolute URL.
pub fn parse(text: &str) -> (parsed: Result<String, String>)
    ensures
        match parsed {
            Ok(url) => url_parsed(text@) == Ok::<Seq<char>, Seq<char>>(url@),
            Err(error) => url_parsed(text@) == Err::<Seq<char>, Seq<char>>(error@),
        },
        parsed is Ok && "https://"@.is_prefix_of(parsed->Ok_0@) ==> web_url(parsed->Ok_0@),
        text@ == "https://cache.sub60.dev"@ ==> parsed is Ok && parsed->Ok_0@
            == "https://cache.sub60.dev/"@,
{
    url_parse(text)
}

/// Returns the URL with one more path segment, or `None` if the URL cannot have
/// path segments, or is too long.
pub fn push(url: &str, segment: &str) -> (longer: Option<String>)
    ensures
        match longer {
            Some(text) => pushed(url@, segment@) == Some(text@),
            None => pushed(url@, segment@) is None,
        },
        web_url(url@) && fits(url@, segment@) ==> longer is Some && web_url(longer->0@)
            && encode_utf8(longer->0@).len() <= encode_utf8(url@).len() + 1 + 3 * encode_utf8(
            segment@,
        ).len(),
{
    let url_len: usize = url.as_bytes().len();
    let segment_len: usize = segment.as_bytes().len();
    if url_len > MAX_URL_BYTES || segment_len > MAX_URL_BYTES - url_len {
        return None;
    }
    url_push(url, segment)
}

/// Returns the URL with one more pair in its query, or `None` if the text is no
/// URL, or is too long.
pub fn append_query_pair(url: &str, name: &str, value: &str) -> (longer: Option<String>)
    ensures
        match longer {
            Some(text) => with_query_pair(url@, name@, value@) == Some(text@),
            None => with_query_pair(url@, name@, value@) is None,
        },
        web_url(url@) && fits(url@, name@ + value@) ==> longer is Some,
{
    let url_len: usize = url.as_bytes().len();
    let name_len: usize = name.as_bytes().len();
    let value_len: usize = value.as_bytes().len();
    proof {
        crate::text::lemma_encode_concat(name@, value@);
    }
    if url_len > MAX_URL_BYTES || name_len > MAX_URL_BYTES - url_len || value_len > MAX_URL_BYTES
        - url_len - name_len {
        return None;
    }
    url_append_pair(url, name, value)
}

/// The URL with one more pair in its query, or `None` if the text is no URL, or
/// is too long.
pub open spec fn with_query_pair(
    url: Seq<char>,
    name: Seq<char>,
    value: Seq<char>,
) -> Option<Seq<char>> {
    if fits(url, name + value) {
        url_with_query_pair(url, name, value)
    } else {
        None
    }
}

/// A URL gets path segments one at a time: without any it is as it was, and with
/// more of them it gets the last after the others. One segment is added as the
/// `url` crate adds it, unless the two have more than 268435455 bytes.
pub proof fn law_segments_are_added_in_order(
    url: Seq<char>,
    segments: Seq<Seq<char>>,
    last: Seq<char>,
)
    ensures
        pushed_all(url, seq![]) == Some(url),
        pushed_all(url, segments.push(last)) == match pushed_all(url, segments) {
            Some(longer) => pushed(longer, last),
            None => None,
        },
        pushed(url, last) == if encode_utf8(url).len() + encode_utf8(last).len() <= 268435455 {
            url_with_segment(url, last)
        } else {
            None
        },
    decreases segments.len(),
{
    let all = segments.push(last);
    if segments.len() == 0 {
        assert(all.drop_first() =~= seq![]);
        reveal_with_fuel(pushed_all, 2);
    } else {
        assert(all.drop_first() =~= segments.drop_first().push(last));
        if let Some(longer) = pushed(url, segments[0]) {
            law_segments_are_added_in_order(longer, segments.drop_first(), last);
        }
    }
}

/// A pair is added to the query of a URL as the `url` crate adds it, unless the
/// three have more than 268435455 bytes.
pub proof fn law_query_pair_is_added(url: Seq<char>, name: Seq<char>, value: Seq<char>)
    ensures
        with_query_pair(url, name, value) == if encode_utf8(url).len() + encode_utf8(name).len()
            + encode_utf8(value).len() <= 268435455 {
            url_with_query_pair(url, name, value)
        } else {
            None
        },
{
    crate::text::lemma_encode_concat(name, value);
}

} // verus!

//! What is said about an HTTP request and the reply to it.

use vstd::prelude::*;

use crate::text;

verus! {

/// The methods of the requests that are sent to caches.
#[derive(Clone, Copy, Debug, PartialEq, Eq, Structural)]
pub enum Method {
    Head,
    Post,
    Put,
}

impl Method {
    /// The written form.
    pub open spec fn text(self) -> Seq<char> {
        match self {
            Method::Head => "HEAD"@,
            Method::Post => "POST"@,
            Method::Put => "PUT"@,
        }
    }

    /// Returns the written form.
    pub fn as_str(&self) -> (text: &'static str)
        ensures
            text@ == self.text(),
    {
        match self {
            Method::Head => "HEAD",
            Method::Post => "POST",
            Method::Put => "PUT",
        }
    }
}

/// A request to a cache. Its body, if it has one, is up to the sender.
#[derive(Debug)]
pub struct HttpRequest {
    pub method: Method,
    pub url: String,
}

/// Whether a number can be the status of a reply.
pub open spec fn valid_status(status: u16) -> bool {
    100 <= status <= 999
}

/// Whether a status says that the request was successful.
pub open spec fn success(status: u16) -> bool {
    200 <= status <= 299
}

/// Returns whether a status says that the request was successful.
pub fn is_success(status: u16) -> (res: bool)
    ensures
        res == success(status),
{
    200 <= status && status <= 299
}

/// Whether the file that a `HEAD` request asks for is there, as far as the
/// status of the reply says so.
pub open spec fn presence(status: u16) -> Option<bool> {
    if status == 200 {
        Some(true)
    } else if status == 404 {
        Some(false)
    } else {
        None
    }
}

/// Returns whether the file that a `HEAD` request asks for is there, as far as
/// the status of the reply says so.
pub fn is_present(status: u16) -> (present: Option<bool>)
    ensures
        present == presence(status),
{
    if status == 200 {
        Some(true)
    } else if status == 404 {
        Some(false)
    } else {
        None
    }
}

/// Whether a byte can stand in the value of a header.
pub open spec fn header_byte(b: u8) -> bool {
    b >= 32 && b != 127 || b == 9
}

/// Whether a byte of the value of a header is a character.
pub open spec fn visible_byte(b: u8) -> bool {
    32 <= b < 127 || b == 9
}

/// The text of a byte string, each byte of which stands for a character.
pub open spec fn ascii_text(bytes: Seq<u8>) -> Seq<char> {
    bytes.map_values(|b: u8| b as char)
}

/// `http::HeaderValue::to_str` accepts exactly the header values all of whose
/// bytes are visible ASCII characters, spaces or tabs, and hands them back as a
/// text. Of a header value it says with its error that it is no such text.
#[verifier::external_body]
fn header_to_str(bytes: &[u8]) -> (converted: Result<String, String>)
    ensures
        match converted {
            Ok(text) => (forall|i: int| 0 <= i < bytes@.len() ==> visible_byte(bytes@[i]))
                && text@ == ascii_text(bytes@),
            Err(_) => exists|i: int| 0 <= i < bytes@.len() && !visible_byte(bytes@[i]),
        },
        converted is Err && (forall|i: int| 0 <= i < bytes@.len() ==> header_byte(bytes@[i]))
            ==> converted->Err_0@ == "failed to convert header to a str"@,
        converted is Err && (exists|i: int| 0 <= i < bytes@.len() && !header_byte(bytes@[i]))
            ==> converted->Err_0@ == "failed to parse header value"@,
{
    match http::HeaderValue::from_bytes(bytes) {
        Ok(value) => match value.to_str() {
            Ok(text) => Ok(text.to_owned()),
            Err(error) => Err(error.to_string()),
        },
        Err(error) => Err(error.to_string()),
    }
}

/// The text of the value of a header, or the text of the error if it has none.
pub open spec fn header_text(bytes: Seq<u8>) -> Result<Seq<char>, Seq<char>> {
    if forall|i: int| 0 <= i < bytes.len() ==> visible_byte(bytes[i]) {
        Ok(ascii_text(bytes))
    } else if forall|i: int| 0 <= i < bytes.len() ==> header_byte(bytes[i]) {
        Err("failed to convert header to a str"@)
    } else {
        Err("failed to parse header value"@)
    }
}

/// Returns the text of the value of a header, or the text of the error if it
/// has none.
pub fn read_header(bytes: &[u8]) -> (text: Result<String, String>)
    ensures
        match text {
            Ok(text) => header_text(bytes@) == Ok::<Seq<char>, Seq<char>>(text@),
            Err(error) => header_text(bytes@) == Err::<Seq<char>, Seq<char>>(error@),
        },
{
    header_to_str(bytes)
}

/// The written form of a status, with the reason phrase, or `None` if the
/// number is no status.
pub uninterp spec fn status_text(status: u16) -> Option<Seq<char>>;

/// `http::StatusCode::from_u16` accepts the numbers from 100 to 999. The
/// written form of a status is a function of the number, which [`status_text`]
/// names.
#[verifier::external_body]
pub(crate) fn status_to_text(status: u16) -> (written: Option<String>)
    ensures
        match written {
            Some(phrase) => status_text(status) == Some(phrase@),
            None => status_text(status) is None,
        },
        written is Some <==> valid_status(status),
{
    http::StatusCode::from_u16(status).ok().map(|status| status.to_string())
}

/// The written form of an unexpected reply to a request, given that of its
/// status.
pub open spec fn reply_text(method: Method, url: Seq<char>, status: Seq<char>) -> Seq<char> {
    "unexpected response from "@ + method.text() + " "@ + url + ": "@ + status
}

/// Returns the written form of an unexpected reply to a request, given that of
/// its status.
pub fn describe_reply(method: Method, url: &str, status: &str) -> (text: String)
    ensures
        text@ == reply_text(method, url@, status@),
{
    let mut text: String = text::concat3("unexpected response from ", method.as_str(), " ");
    text.append(url);
    text.append(": ");
    text.append(status);
    text
}

/// The written form of a reply, followed by its body, if it has one.
pub open spec fn text_with_body(text: Seq<char>, body: Seq<char>) -> Seq<char> {
    if body.len() == 0 {
        text
    } else {
        text + ": "@ + body
    }
}

/// Returns the written form of a reply, followed by its body, if it has one.
pub fn append_body(text: String, body: &str) -> (longer: String)
    ensures
        longer@ == text_with_body(text@, body@),
{
    let mut text: String = text;
    if !body.is_empty() {
        text.append(": ");
        text.append(body);
    }
    text
}

/// The written form of an unexpected reply to a request.
pub open spec fn unexpected_text(
    method: Method,
    url: Seq<char>,
    status: u16,
) -> Seq<char> {
    reply_text(method, url, status_text(status)->0)
}

/// Returns the written form of an unexpected reply to a request.
pub fn describe_unexpected(method: Method, url: &str, status: u16) -> (text: String)
    requires
        valid_status(status),
    ensures
        text@ == unexpected_text(method, url@, status),
{
    let phrase: String = match status_to_text(status) {
        Some(phrase) => phrase,
        None => String::new(),
    };
    describe_reply(method, url, phrase.as_str())
}

/// The statuses from 200 to 299 are those of success, and no others; 200 says that
/// a file is there, 404 that it is not, and no other status says either.
pub proof fn law_statuses(status: u16)
    ensures
        success(status) <==> status / 100 == 2,
        valid_status(status) <==> 1 <= status / 100 <= 9,
        presence(status) == Some(true) <==> status == 200,
        presence(status) == Some(false) <==> status == 404,
        presence(status) == Some(true) ==> success(status),
        presence(status) == Some(false) ==> !success(status),
{
}

/// The value of a header is a text exactly if each of its bytes is a tab or from
/// the space to the tilde, and the text has a character for each byte, with the
/// code that the byte has.
pub proof fn law_header_is_read_byte_by_byte(bytes: Seq<u8>)
    ensures
        header_text(bytes) is Ok <==> forall|i: int|
            0 <= i < bytes.len() ==> #[trigger] bytes[i] == 0x9 || 0x20 <= bytes[i] <= 0x7e,
        header_text(bytes) matches Ok(text) ==> text.len() == bytes.len() && forall|i: int|
            0 <= i < bytes.len() ==> #[trigger] text[i] as u32 == bytes[i],
{
    if forall|i: int| 0 <= i < bytes.len() ==> visible_byte(bytes[i]) {
        assert forall|i: int| 0 <= i < bytes.len() implies #[trigger] bytes[i] == 0x9 || 0x20
            <= bytes[i] <= 0x7e by {
            assert(visible_byte(bytes[i]));
        }
    } else {
        let i = choose|i: int| 0 <= i < bytes.len() && !visible_byte(bytes[i]);
        assert(!(bytes[i] == 0x9 || 0x20 <= bytes[i] <= 0x7e));
    }
}

/// What is said about a reply names the method, the URL and the status, in this
/// order, and ends in the body if the reply has one.
pub proof fn law_reply_is_told_in_full(
    method: Method,
    url: Seq<char>,
    status: Seq<char>,
    body: Seq<char>,
    code: u16,
)
    ensures
        unexpected_text(method, url, code) == reply_text(method, url, status_text(code)->0),
        ({
            let name = match method {
                Method::Head => "HEAD"@,
                Method::Post => "POST"@,
                Method::Put => "PUT"@,
            };
            let told = "unexpected response from "@ + name + " "@ + url + ": "@ + status;
            &&& reply_text(method, url, status) == told
            &&& text_with_body(told, seq![]) == told
            &&& body.len() > 0 ==> text_with_body(told, body) == told + ": "@ + body
        }),
{
}

} // verus!

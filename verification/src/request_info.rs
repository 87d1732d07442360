//! The endpoint that tells a client what the server saw of its request.

use crate::method::Method;
use crate::path::text_of;
use crate::request::{Header, HttpRequest, Version};
use crate::response::{Response, OK};
use crate::route::RouteInfo;
use crate::RequestHandler;
use vstd::prelude::*;
use vstd::string::{StrSliceExecFns, StringSliceAdditionalSpecFns};
use vstd::utf8::*;

verus! {

/// What the endpoint reports of a request.
#[derive(Debug)]
pub struct RequestInfoResponse {
    pub connection_id: u64,
    pub request_id: u64,
    pub method: String,
    pub version: String,
    pub request_uri_path: String,
    /// One entry for each header name, in the order of the names, with the
    /// text of the last value that the request has for the name.
    pub http_headers: Vec<(String, String)>,
}

/// The name of a protocol version.
pub open spec fn version_label(version: Version) -> Seq<char> {
    match version {
        Version::Http09 => "HTTP/0.9"@,
        Version::Http10 => "HTTP/1.0"@,
        Version::Http11 => "HTTP/1.1"@,
        Version::Http2 => "HTTP/2.0"@,
        Version::Http3 => "HTTP/3.0"@,
        Version::Unknown => "[Unknown]"@,
    }
}

/// A byte that shows in a header value: printable ASCII, or a tab.
pub open spec fn visible(byte: u8) -> bool {
    32 <= byte < 127 || byte == 9
}

/// The text of a header value: its bytes as characters where all of them are
/// visible, and `[Unknown]` otherwise.
pub open spec fn value_text(value: Seq<u8>) -> Seq<char> {
    if forall|i: int| 0 <= i < value.len() ==> visible(#[trigger] value[i]) {
        Seq::new(value.len(), |i: int| value[i] as char)
    } else {
        "[Unknown]"@
    }
}

/// The header lines as a map from names to the texts of their values. Where
/// a name occurs more than once, its last line counts.
pub open spec fn header_texts(headers: Seq<Header>) -> Map<Seq<char>, Seq<char>>
    decreases headers.len(),
{
    if headers.len() == 0 {
        Map::empty()
    } else {
        header_texts(headers.drop_last()).insert(
            headers.last().name@,
            value_text(headers.last().value@),
        )
    }
}

/// `left` and `right` agree on their first `at` bytes, and there `left`
/// ends while `right` goes on, or has the smaller byte.
pub open spec fn parts_at(left: Seq<u8>, right: Seq<u8>, at: int) -> bool {
    &&& 0 <= at <= left.len()
    &&& at < right.len()
    &&& forall|i: int| 0 <= i < at ==> left[i] == right[i]
    &&& (at == left.len() || left[at] < right[at])
}

/// `left` comes before `right` in the order of byte strings.
pub open spec fn precedes(left: Seq<u8>, right: Seq<u8>) -> bool {
    exists|at: int| parts_at(left, right, at)
}

/// The entries list the map: in the order of their names, one entry for
/// each name of the map, with the text that the map has for it.
pub open spec fn lists(entries: Seq<(String, String)>, texts: Map<Seq<char>, Seq<char>>) -> bool {
    &&& forall|i: int, j: int|
        0 <= i < j < entries.len() ==> precedes(
            encode_utf8((#[trigger] entries[i]).0@),
            encode_utf8((#[trigger] entries[j]).0@),
        )
    &&& forall|i: int|
        0 <= i < entries.len() ==> texts.contains_key((#[trigger] entries[i]).0@)
            && texts[entries[i].0@] == entries[i].1@
    &&& forall|name: Seq<char>|
        texts.contains_key(name) ==> exists|i: int|
            0 <= i < entries.len() && (#[trigger] entries[i]).0@ == name
}

/// The report says of the request what the endpoint is to say.
pub open spec fn describes(info: RequestInfoResponse, request: HttpRequest) -> bool {
    &&& info.connection_id == request.connection_id
    &&& info.request_id == request.request_id
    &&& info.method@ == request.method@
    &&& info.version@ == version_label(request.version)
    &&& info.request_uri_path@ == request.uri_path@
    &&& lists(info.http_headers@, header_texts(request.headers@))
}

/// The name of a protocol version.
pub fn version_name(version: Version) -> (name: &'static str)
    ensures
        name@ == version_label(version),
{
    match version {
        Version::Http09 => "HTTP/0.9",
        Version::Http10 => "HTTP/1.0",
        Version::Http11 => "HTTP/1.1",
        Version::Http2 => "HTTP/2.0",
        Version::Http3 => "HTTP/3.0",
        Version::Unknown => "[Unknown]",
    }
}

/// Bytes that are all visible are the UTF-8 encoding of themselves as
/// characters.
proof fn visible_is_text(value: Seq<u8>)
    requires
        forall|i: int| 0 <= i < value.len() ==> visible(#[trigger] value[i]),
    ensures
        valid_utf8(value),
        decode_utf8(value) == Seq::new(value.len(), |i: int| value[i] as char),
{
    let text = Seq::new(value.len(), |i: int| value[i] as char);
    assert forall|i: int| 0 <= i < text.len() implies '\0' <= #[trigger] text[i] <= '\u{7f}' by {
        assert(visible(value[i]));
    }
    is_ascii_chars_encode_utf8(text);
    assert(encode_utf8(text) =~= value) by {
        assert forall|i: int| 0 <= i < value.len() implies encode_utf8(text)[i] == value[i] by {
            assert(visible(value[i]));
            assert(text[i] as u8 == encode_utf8(text)[i]);
        }
    }
    encode_utf8_valid_utf8(text);
    encode_utf8_decode_utf8(text);
}

/// The text of a header value.
pub fn header_text(value: &[u8]) -> (text: String)
    ensures
        text@ == value_text(value@),
{
    let mut at: usize = 0;
    while at < value.len()
        invariant
            at <= value.len(),
            forall|i: int| 0 <= i < at ==> visible(#[trigger] value@[i]),
        decreases value.len() - at,
    {
        let byte = value[at];
        if !(32 <= byte && byte < 127 || byte == 9) {
            assert(!visible(value@[at as int]));
            return "[Unknown]".to_owned();
        }
        at += 1;
    }
    proof {
        visible_is_text(value@);
    }
    let mut bytes: Vec<u8> = Vec::new();
    bytes.extend_from_slice(value);
    assert(bytes@ =~= value@);
    match text_of(bytes) {
        Some(text) => text,
        None => "[Unknown]".to_owned(),
    }
}

/// Where one byte string stands in the order, seen from another.
enum Place {
    Before,
    Same,
    After,
}

/// Where `left` stands, seen from `right`.
fn place_of(left: &[u8], right: &[u8]) -> (place: Place)
    ensures
        match place {
            Place::Before => precedes(left@, right@),
            Place::Same => left@ == right@,
            Place::After => precedes(right@, left@),
        },
{
    let mut at: usize = 0;
    while at < left.len() && at < right.len()
        invariant
            at <= left.len(),
            at <= right.len(),
            forall|i: int| 0 <= i < at ==> left@[i] == right@[i],
        decreases left.len() - at,
    {
        if left[at] < right[at] {
            assert(parts_at(left@, right@, at as int));
            return Place::Before;
        }
        if left[at] > right[at] {
            assert(parts_at(right@, left@, at as int));
            return Place::After;
        }
        at += 1;
    }
    if left.len() < right.len() {
        assert(parts_at(left@, right@, at as int));
        Place::Before
    } else if left.len() > right.len() {
        assert(parts_at(right@, left@, at as int));
        Place::After
    } else {
        assert(left@ =~= right@);
        Place::Same
    }
}

/// What comes before something that comes before a third comes before the
/// third.
proof fn precedes_chains(first: Seq<u8>, second: Seq<u8>, third: Seq<u8>)
    requires
        precedes(first, second),
        precedes(second, third),
    ensures
        precedes(first, third),
{
    let low = choose|at: int| parts_at(first, second, at);
    let high = choose|at: int| parts_at(second, third, at);
    let at = if low <= high {
        low
    } else {
        high
    };
    assert(parts_at(first, third, at));
}

/// Nothing comes before itself.
proof fn precedes_another(first: Seq<u8>, second: Seq<u8>)
    requires
        precedes(first, second),
    ensures
        first != second,
{
}

/// Texts with different encodings are different, and the other way round.
proof fn names_by_bytes(left: Seq<char>, right: Seq<char>)
    ensures
        left == right <==> encode_utf8(left) == encode_utf8(right),
{
    encode_utf8_decode_utf8(left);
    encode_utf8_decode_utf8(right);
}

/// Where the entry for `name` is, or is to go.
fn slot(entries: &Vec<(String, String)>, name: &str) -> (found: (usize, bool))
    ensures
        found.0 <= entries@.len(),
        forall|i: int|
            0 <= i < found.0 ==> precedes(
                encode_utf8((#[trigger] entries@[i]).0@),
                encode_utf8(name@),
            ),
        found.1 ==> found.0 < entries@.len() && entries@[found.0 as int].0@ == name@,
        !found.1 ==> found.0 == entries@.len() || precedes(
            encode_utf8(name@),
            encode_utf8(entries@[found.0 as int].0@),
        ),
{
    let mut at: usize = 0;
    while at < entries.len()
        invariant
            at <= entries@.len(),
            forall|i: int|
                0 <= i < at ==> precedes(
                    encode_utf8((#[trigger] entries@[i]).0@),
                    encode_utf8(name@),
                ),
        decreases entries@.len() - at,
    {
        match place_of(entries[at].0.as_str().as_bytes(), name.as_bytes()) {
            Place::Before => {
                at += 1;
            },
            Place::Same => {
                proof {
                    names_by_bytes(entries@[at as int].0@, name@);
                }
                return (at, true);
            },
            Place::After => {
                return (at, false);
            },
        }
    }
    (at, false)
}

/// Enters a header's text under its name, in place of what the name had.
fn enter(
    entries: &mut Vec<(String, String)>,
    name: String,
    text: String,
    Ghost(texts): Ghost<Map<Seq<char>, Seq<char>>>,
)
    requires
        lists(old(entries)@, texts),
    ensures
        lists(final(entries)@, texts.insert(name@, text@)),
{
    let (at, found) = slot(entries, name.as_str());
    let ghost before = entries@;
    let ghost key = name@;
    let ghost value = text@;
    if found {
        entries.remove(at);
    }
    entries.insert(at, (name, text));
    proof {
        let after = entries@;
        let entered = texts.insert(key, value);
        let shift: int = if found {
            0
        } else {
            1
        };
        assert(after.len() == before.len() + shift);
        assert(after[at as int].0@ == key && after[at as int].1@ == value);
        assert forall|i: int| 0 <= i < at implies #[trigger] after[i] == before[i] by {}
        assert forall|i: int| at < i < after.len() implies #[trigger] after[i] == before[i - shift] by {}
        // Every other entry has another name than the one entered.
        assert forall|i: int|
            0 <= i < before.len() && (found ==> i != at) implies (#[trigger] before[i]).0@ != key by {
            let other = encode_utf8(before[i].0@);
            let this = encode_utf8(key);
            if i < at {
                precedes_another(other, this);
            } else if found {
                assert(precedes(encode_utf8(before[at as int].0@), other));
                precedes_another(encode_utf8(before[at as int].0@), other);
            } else {
                if i > at {
                    assert(precedes(encode_utf8(before[at as int].0@), other));
                    precedes_chains(this, encode_utf8(before[at as int].0@), other);
                }
                precedes_another(this, other);
            }
        }
        assert forall|i: int, j: int| 0 <= i < j < after.len() implies precedes(
            encode_utf8((#[trigger] after[i]).0@),
            encode_utf8((#[trigger] after[j]).0@),
        ) by {
            if found {
                let left = if i == at { before[at as int] } else { after[i] };
                let right = if j == at { before[at as int] } else { after[j] };
                assert(left == before[i] && right == before[j]);
            } else if j < at {
                assert(after[i] == before[i] && after[j] == before[j]);
            } else if j == at {
                assert(after[i] == before[i]);
            } else if i < at {
                assert(after[i] == before[i] && after[j] == before[j - 1]);
            } else if i == at {
                assert(after[j] == before[j - 1]);
                if j - 1 > at {
                    assert(precedes(
                        encode_utf8(before[at as int].0@),
                        encode_utf8(before[j - 1].0@),
                    ));
                    precedes_chains(
                        encode_utf8(key),
                        encode_utf8(before[at as int].0@),
                        encode_utf8(before[j - 1].0@),
                    );
                }
            } else {
                assert(after[i] == before[i - 1] && after[j] == before[j - 1]);
            }
        }
        assert forall|i: int| 0 <= i < after.len() implies entered.contains_key(
            (#[trigger] after[i]).0@,
        ) && entered[after[i].0@] == after[i].1@ by {
            if i < at {
                assert(after[i] == before[i]);
            } else if i > at {
                assert(after[i] == before[i - shift]);
            }
        }
        assert forall|other: Seq<char>| entered.contains_key(other) implies exists|i: int|
            0 <= i < after.len() && (#[trigger] after[i]).0@ == other by {
            if other == key {
                assert(after[at as int].0@ == other);
            } else {
                let i = choose|i: int| 0 <= i < before.len() && (#[trigger] before[i]).0@ == other;
                if i < at {
                    assert(after[i].0@ == other);
                } else {
                    assert(after[i + shift] == before[i]);
                    assert(after[i + shift].0@ == other);
                }
            }
        }
    }
}

/// The header lines as a list: see [`lists`] and [`header_texts`].
pub fn header_list(headers: &Vec<Header>) -> (entries: Vec<(String, String)>)
    ensures
        lists(entries@, header_texts(headers@)),
{
    let mut entries: Vec<(String, String)> = Vec::new();
    let mut at: usize = 0;
    while at < headers.len()
        invariant
            at <= headers@.len(),
            lists(entries@, header_texts(headers@.take(at as int))),
        decreases headers@.len() - at,
    {
        let header = &headers[at];
        let text = header_text(header.value.as_slice());
        proof {
            assert(headers@.take(at + 1).drop_last() =~= headers@.take(at as int));
        }
        enter(
            &mut entries,
            header.name.clone(),
            text,
            Ghost(header_texts(headers@.take(at as int))),
        );
        at += 1;
    }
    proof {
        assert(headers@.take(at as int) =~= headers@);
    }
    entries
}

/// The endpoint that answers a request with what the server saw of it.
#[derive(Debug)]
pub struct RequestInfoHandler {}

impl RequestInfoHandler {
    pub fn new() -> (handler: RequestInfoHandler)
        ensures
            handler == (RequestInfoHandler {}),
    {
        RequestInfoHandler {}
    }
}

impl RequestHandler for RequestInfoHandler {
    type Body = RequestInfoResponse;

    /// Answers with the report on the request, with status 200.
    fn handle(&self, request: &HttpRequest) -> (response: Response<RequestInfoResponse>)
        ensures
            response.status == OK,
            response.body matches Some(info) && describes(info, *request),
    {
        let info = RequestInfoResponse {
            connection_id: request.connection_id,
            request_id: request.request_id,
            method: request.method.as_str().to_owned(),
            version: version_name(request.version).to_owned(),
            request_uri_path: request.uri_path.clone(),
            http_headers: header_list(&request.headers),
        };
        Response::ok(info)
    }
}

/// The routes of this endpoint: `GET` on `request_info`.
pub fn create_routes() -> (routes: Vec<RouteInfo<RequestInfoHandler>>)
    ensures
        routes@.len() == 1,
        routes@[0].method@ == "GET"@,
        routes@[0].path_suffix@ == encode_utf8("request_info"@),
        routes@[0].handler == (RequestInfoHandler {}),
{
    let mut routes: Vec<RouteInfo<RequestInfoHandler>> = Vec::new();
    routes.push(
        RouteInfo {
            method: Method::get(),
            path_suffix: "request_info".as_bytes_vec(),
            handler: RequestInfoHandler::new(),
        },
    );
    routes
}

} // verus!

//! HTTP headers: which of them pass through the proxy. The maps of headers are
//! those of the `http` crate.

use crate::format::to_lowercase;
use crate::json;
use crate::text;
use crate::text::{concat, contains_part, same_text};
use vstd::prelude::*;

verus! {

/// `http::HeaderMap`, taken as an opaque type.
#[verifier::external_type_specification]
#[verifier::external_body]
#[verifier::reject_recursive_types(T)]
pub struct ExHeaderMap<T>(http::HeaderMap<T>);

/// `http::HeaderName`, taken as an opaque type.
#[verifier::external_type_specification]
#[verifier::external_body]
pub struct ExHeaderName(http::HeaderName);

/// `http::HeaderValue`, taken as an opaque type.
#[verifier::external_type_specification]
#[verifier::external_body]
pub struct ExHeaderValue(http::HeaderValue);

/// The values in a map of headers: under each name one or more, in their order.
pub uninterp spec fn header_values(headers: http::HeaderMap<http::HeaderValue>) -> Map<
    Seq<char>,
    Seq<Seq<u8>>,
>;

/// The text of a header's name, as `http::HeaderName::as_str` gives it.
pub uninterp spec fn name_text(name: http::HeaderName) -> Seq<char>;

/// The bytes of a header's value.
pub uninterp spec fn value_bytes(value: http::HeaderValue) -> Seq<u8>;

/// A map of headers with at most so many names takes one more, whatever the
/// names are. Whether a map with more names does depends on how they are hashed.
pub const MAX_HEADER_NAMES: u16 = 6553;

/// Headers one by one, as names and values.
pub open spec fn header_list(list: Seq<(http::HeaderName, http::HeaderValue)>) -> Seq<
    (Seq<char>, Seq<u8>),
> {
    list.map_values(
        |header: (http::HeaderName, http::HeaderValue)|
            (name_text(header.0), value_bytes(header.1)),
    )
}

/// The values of headers that come one by one, under their names.
pub open spec fn grouped(list: Seq<(Seq<char>, Seq<u8>)>) -> Map<Seq<char>, Seq<Seq<u8>>>
    decreases list.len(),
{
    if list.len() == 0 {
        Map::empty()
    } else {
        let before = grouped(list.drop_last());
        let (name, value) = list.last();
        if before.dom().contains(name) {
            before.insert(name, before[name].push(value))
        } else {
            before.insert(name, seq![value])
        }
    }
}

pub open spec fn no_headers() -> Map<Seq<char>, Seq<Seq<u8>>> {
    Map::empty()
}

/// Calls `http::HeaderMap::new`: a map without headers.
#[verifier::external_body]
fn new_headers() -> (r: http::HeaderMap<http::HeaderValue>)
    ensures
        header_values(r) == no_headers(),
{
    http::HeaderMap::new()
}

/// Calls `http::HeaderMap::iter`, which yields a name once for each of its
/// values, and gives each of these values in its order.
#[verifier::external_body]
fn list_headers(headers: &http::HeaderMap<http::HeaderValue>) -> (r: Vec<
    (http::HeaderName, http::HeaderValue),
>)
    ensures
        grouped(header_list(r@)) == header_values(*headers),
{
    headers.iter().map(|(name, value)| (name.clone(), value.clone())).collect()
}

/// Calls `http::HeaderName::as_str`, which gives an ASCII text in lower case.
#[verifier::external_body]
fn header_name(name: &http::HeaderName) -> (r: &str)
    ensures
        r@ == name_text(*name),
        crate::format::is_ascii_text(r@),
        r@.map_values(|c: char| crate::format::ascii_lower(c)) == r@,
{
    name.as_str()
}

/// Calls `http::HeaderMap::try_insert`, which puts a value in place of all those
/// under its name. It refuses where the map is full. One with at most
/// `MAX_HEADER_NAMES` names never is. What a refusal leaves of the map is not
/// said.
#[verifier::external_body]
fn insert_header(
    headers: &mut http::HeaderMap<http::HeaderValue>,
    name: http::HeaderName,
    value: http::HeaderValue,
) -> (r: bool)
    ensures
        r ==> header_values(*final(headers)) == header_values(*old(headers)).insert(
            name_text(name),
            seq![value_bytes(value)],
        ),
        !r ==> header_values(*old(headers)).dom().len() > MAX_HEADER_NAMES,
{
    headers.try_insert(name, value).is_ok()
}

/// Calls `http::HeaderMap::keys_len`, which counts the names in a map.
#[verifier::external_body]
fn count_names(headers: &http::HeaderMap<http::HeaderValue>) -> (r: usize)
    ensures
        r == header_values(*headers).dom().len(),
{
    headers.keys_len()
}

/// The name `http::header::AUTHORIZATION`.
#[verifier::external_body]
fn authorization() -> (r: http::HeaderName)
    ensures
        name_text(r) == "authorization"@,
{
    http::header::AUTHORIZATION
}

/// The name `http::header::CONTENT_TYPE`.
#[verifier::external_body]
fn content_type() -> (r: http::HeaderName)
    ensures
        name_text(r) == "content-type"@,
{
    http::header::CONTENT_TYPE
}

/// A byte that may stand in the value of a header.
pub open spec fn is_value_byte(b: u8) -> bool {
    (b >= 32 && b != 127) || b == 9
}

/// An ASCII byte that can be shown, or a tab.
pub open spec fn is_visible_byte(b: u8) -> bool {
    (32 <= b < 127) || b == 9
}

pub open spec fn is_value_text(s: Seq<char>) -> bool {
    forall|i: int|
        0 <= i < vstd::utf8::encode_utf8(s).len() ==> is_value_byte(
            #[trigger] vstd::utf8::encode_utf8(s)[i],
        )
}

/// Calls `http::HeaderValue::from_str`, which takes a text without control
/// characters other than tabs.
#[verifier::external_body]
fn header_value(s: &str) -> (r: Option<http::HeaderValue>)
    ensures
        match r {
            Some(value) => is_value_text(s@) && value_bytes(value) == vstd::utf8::encode_utf8(s@),
            None => !is_value_text(s@),
        },
{
    http::HeaderValue::from_str(s).ok()
}

/// Calls `http::HeaderValue::from_static`, which panics on a text that holds
/// anything but visible ASCII characters.
#[verifier::external_body]
fn static_header_value(s: &'static str) -> (r: http::HeaderValue)
    requires
        forall|i: int| 0 <= i < s@.len() ==> ' ' <= #[trigger] s@[i] <= '~',
    ensures
        value_bytes(r) == vstd::utf8::encode_utf8(s@),
{
    http::HeaderValue::from_static(s)
}

/// Calls `http::HeaderMap::get`, which gives the first value under a name.
#[verifier::external_body]
fn first_header(
    headers: &http::HeaderMap<http::HeaderValue>,
    name: http::HeaderName,
) -> (r: Option<&http::HeaderValue>)
    ensures
        match r {
            Some(value) => header_values(*headers).dom().contains(name_text(name))
                && header_values(*headers)[name_text(name)].len() > 0
                && header_values(*headers)[name_text(name)][0] == value_bytes(*value),
            None => !header_values(*headers).dom().contains(name_text(name)),
        },
{
    headers.get(name)
}

/// Calls `http::HeaderValue::to_str`, which gives the text of a value that holds
/// visible ASCII characters only.
#[verifier::external_body]
fn header_text(value: &http::HeaderValue) -> (r: Option<&str>)
    ensures
        match r {
            Some(s) => vstd::utf8::encode_utf8(s@) == value_bytes(*value) && is_visible(
                value_bytes(*value),
            ),
            None => !is_visible(value_bytes(*value)),
        },
{
    value.to_str().ok()
}

pub open spec fn is_visible(bytes: Seq<u8>) -> bool {
    forall|i: int| 0 <= i < bytes.len() ==> is_visible_byte(#[trigger] bytes[i])
}

/// The headers of a request that hold for one connection only.
pub open spec fn hop_by_hop_request(name: Seq<char>) -> bool {
    ||| name == "host"@
    ||| name == "connection"@
    ||| name == "content-length"@
    ||| name == "transfer-encoding"@
    ||| name == "keep-alive"@
    ||| name == "proxy-authorization"@
    ||| name == "te"@
    ||| name == "trailer"@
    ||| name == "upgrade"@
}

/// The headers of a response that hold for one connection only, or for a body
/// that the proxy has read.
pub open spec fn hop_by_hop_response(name: Seq<char>) -> bool {
    ||| name == "content-length"@
    ||| name == "content-encoding"@
    ||| name == "transfer-encoding"@
    ||| name == "connection"@
    ||| name == "keep-alive"@
}

fn is_hop_by_hop_request(name: &str) -> (r: bool)
    ensures
        r == hop_by_hop_request(name@),
{
    same_text(name, "host") || same_text(name, "connection") || same_text(name, "content-length")
        || same_text(name, "transfer-encoding") || same_text(name, "keep-alive") || same_text(
        name,
        "proxy-authorization",
    ) || same_text(name, "te") || same_text(name, "trailer") || same_text(name, "upgrade")
}

fn is_hop_by_hop_response(name: &str) -> (r: bool)
    ensures
        r == hop_by_hop_response(name@),
{
    same_text(name, "content-length") || same_text(name, "content-encoding") || same_text(
        name,
        "transfer-encoding",
    ) || same_text(name, "connection") || same_text(name, "keep-alive")
}

/// Headers that have a property. Of several values under one name, the last one
/// is kept.
pub open spec fn kept_headers(
    headers: Map<Seq<char>, Seq<Seq<u8>>>,
    kept: spec_fn(Seq<char>) -> bool,
) -> Map<Seq<char>, Seq<Seq<u8>>> {
    Map::new(
        |name: Seq<char>| headers.dom().contains(name) && kept(name),
        |name: Seq<char>| seq![headers[name].last()],
    )
}

/// The request headers that are forwarded. The client's key is left out where a
/// configured one takes its place.
pub open spec fn forwarded_headers(
    headers: Map<Seq<char>, Seq<Seq<u8>>>,
    has_config_api_key: bool,
) -> Map<Seq<char>, Seq<Seq<u8>>> {
    kept_headers(
        headers,
        |name: Seq<char>|
            !hop_by_hop_request(name) && !(has_config_api_key && name == "authorization"@),
    )
}

/// The response headers that are passed on.
pub open spec fn passed_headers(headers: Map<Seq<char>, Seq<Seq<u8>>>) -> Map<
    Seq<char>,
    Seq<Seq<u8>>,
> {
    kept_headers(headers, |name: Seq<char>| !hop_by_hop_response(name))
}

proof fn lemma_grouped_finite(list: Seq<(Seq<char>, Seq<u8>)>)
    ensures
        grouped(list).dom().finite(),
    decreases list.len(),
{
    if list.len() > 0 {
        lemma_grouped_finite(list.drop_last());
    }
}

proof fn lemma_grouped_prefix(list: Seq<(Seq<char>, Seq<u8>)>, i: int)
    requires
        0 <= i <= list.len(),
    ensures
        grouped(list.take(i)).dom().subset_of(grouped(list).dom()),
    decreases list.len(),
{
    if i < list.len() {
        lemma_grouped_prefix(list.drop_last(), i);
        assert(list.drop_last().take(i) =~= list.take(i));
    } else {
        assert(list.take(i) =~= list);
    }
}

proof fn lemma_kept_len(
    list: Seq<(Seq<char>, Seq<u8>)>,
    kept: spec_fn(Seq<char>) -> bool,
    i: int,
)
    requires
        0 <= i <= list.len(),
    ensures
        kept_headers(grouped(list.take(i)), kept).dom().len() <= grouped(list).dom().len(),
{
    lemma_grouped_finite(list);
    lemma_grouped_prefix(list, i);
    vstd::set_lib::lemma_len_subset(
        kept_headers(grouped(list.take(i)), kept).dom(),
        grouped(list).dom(),
    );
}

proof fn lemma_kept_step(
    list: Seq<(Seq<char>, Seq<u8>)>,
    kept: spec_fn(Seq<char>) -> bool,
    i: int,
)
    requires
        0 <= i < list.len(),
    ensures
        kept_headers(grouped(list.take(i + 1)), kept) == if kept(list[i].0) {
            kept_headers(grouped(list.take(i)), kept).insert(list[i].0, seq![list[i].1])
        } else {
            kept_headers(grouped(list.take(i)), kept)
        },
{
    assert(list.take(i + 1).drop_last() =~= list.take(i));
    let before = kept_headers(grouped(list.take(i)), kept);
    let after = kept_headers(grouped(list.take(i + 1)), kept);
    if kept(list[i].0) {
        assert(after =~= before.insert(list[i].0, seq![list[i].1]));
    } else {
        assert(after =~= before);
    }
}

/// Whether a map of headers has few enough names to be copied, whatever they
/// are.
pub open spec fn has_few_names(headers: http::HeaderMap<http::HeaderValue>) -> bool {
    header_values(headers).dom().len() <= MAX_HEADER_NAMES
}

/// Whether a map of headers has few enough names to be copied, whatever they
/// are.
pub fn names_fit(headers: &http::HeaderMap<http::HeaderValue>) -> (r: bool)
    ensures
        r == has_few_names(*headers),
{
    count_names(headers) <= MAX_HEADER_NAMES as usize
}

/// The request headers that are forwarded. `None` where there are more than the
/// map of headers takes.
pub fn try_forward_headers(
    req_headers: &http::HeaderMap<http::HeaderValue>,
    has_config_api_key: bool,
) -> (r: Option<http::HeaderMap<http::HeaderValue>>)
    ensures
        r matches Some(headers) ==> header_values(headers) == forwarded_headers(
            header_values(*req_headers),
            has_config_api_key,
        ) && header_values(headers).dom().len() <= header_values(*req_headers).dom().len(),
        r is None ==> !has_few_names(*req_headers),
{
    let mut headers = new_headers();
    let list = list_headers(req_headers);
    let ghost all = list@;
    let ghost views = header_list(all);
    let ghost kept = |name: Seq<char>|
        !hop_by_hop_request(name) && !(has_config_api_key && name == "authorization"@);
    proof {
        assert(views.take(0) =~= Seq::empty());
        assert(header_values(headers) =~= kept_headers(grouped(views.take(0)), kept));
    }
    for header in it: list
        invariant
            it.seq() == all,
            views == header_list(all),
            grouped(views) == header_values(*req_headers),
            kept == (|name: Seq<char>|
                !hop_by_hop_request(name) && !(has_config_api_key && name == "authorization"@)),
            header_values(headers) == kept_headers(grouped(views.take(it.index() as int)), kept),
    {
        proof {
            lemma_kept_step(views, kept, it.index() as int);
            lemma_kept_len(views, kept, it.index() as int);
        }
        let (name, value) = header;
        assert(views[it.index() as int] == (name_text(name), value_bytes(value)));
        let lower = to_lowercase(header_name(&name));
        let dropped = is_hop_by_hop_request(lower.as_str()) || (has_config_api_key && same_text(
            lower.as_str(),
            "authorization",
        ));
        if !dropped {
            let inserted = insert_header(&mut headers, name, value);
            if !inserted {
                return None;
            }
        }
    }
    proof {
        lemma_kept_len(views, kept, views.len() as int);
        assert(views.take(views.len() as int) =~= views);
    }
    Some(headers)
}

/// The request headers that are forwarded.
pub fn build_forward_headers(
    req_headers: &http::HeaderMap<http::HeaderValue>,
    has_config_api_key: bool,
) -> (r: http::HeaderMap<http::HeaderValue>)
    requires
        has_few_names(*req_headers),
    ensures
        header_values(r) == forwarded_headers(header_values(*req_headers), has_config_api_key),
        has_few_names(r),
{
    match try_forward_headers(req_headers, has_config_api_key) {
        Some(headers) => headers,
        None => new_headers(),
    }
}

/// The response headers that are passed on. `None` where there are more than the
/// map of headers takes.
pub fn try_pass_headers(resp_headers: &http::HeaderMap<http::HeaderValue>) -> (r: Option<
    http::HeaderMap<http::HeaderValue>,
>)
    ensures
        r matches Some(headers) ==> header_values(headers) == passed_headers(
            header_values(*resp_headers),
        ) && header_values(headers).dom().len() <= header_values(*resp_headers).dom().len(),
        r is None ==> !has_few_names(*resp_headers),
{
    let mut headers = new_headers();
    let list = list_headers(resp_headers);
    let ghost all = list@;
    let ghost views = header_list(all);
    let ghost kept = |name: Seq<char>| !hop_by_hop_response(name);
    proof {
        assert(views.take(0) =~= Seq::empty());
        assert(header_values(headers) =~= kept_headers(grouped(views.take(0)), kept));
    }
    for header in it: list
        invariant
            it.seq() == all,
            views == header_list(all),
            grouped(views) == header_values(*resp_headers),
            kept == (|name: Seq<char>| !hop_by_hop_response(name)),
            header_values(headers) == kept_headers(grouped(views.take(it.index() as int)), kept),
    {
        proof {
            lemma_kept_step(views, kept, it.index() as int);
            lemma_kept_len(views, kept, it.index() as int);
        }
        let (name, value) = header;
        assert(views[it.index() as int] == (name_text(name), value_bytes(value)));
        let lower = to_lowercase(header_name(&name));
        if !is_hop_by_hop_response(lower.as_str()) {
            let inserted = insert_header(&mut headers, name, value);
            if !inserted {
                return None;
            }
        }
    }
    proof {
        lemma_kept_len(views, kept, views.len() as int);
        assert(views.take(views.len() as int) =~= views);
    }
    Some(headers)
}

/// The response headers that are passed on.
pub fn strip_response_hop_by_hop(resp_headers: &http::HeaderMap<http::HeaderValue>) -> (r:
    http::HeaderMap<http::HeaderValue>)
    requires
        has_few_names(*resp_headers),
    ensures
        header_values(r) == passed_headers(header_values(*resp_headers)),
        has_few_names(r),
{
    match try_pass_headers(resp_headers) {
        Some(headers) => headers,
        None => new_headers(),
    }
}

/// The value of the header that carries a key. A key that no header can carry is
/// left out.
pub open spec fn bearer(api_key: Seq<char>) -> Seq<u8> {
    if is_value_text("Bearer "@ + api_key) {
        vstd::utf8::encode_utf8("Bearer "@ + api_key)
    } else {
        vstd::utf8::encode_utf8("Bearer"@)
    }
}

/// Headers with the configured key, where there is one, in place of the client's.
pub open spec fn with_key(
    headers: Map<Seq<char>, Seq<Seq<u8>>>,
    api_key: Option<Seq<char>>,
) -> Map<Seq<char>, Seq<Seq<u8>>> {
    match api_key {
        Some(key) => headers.insert("authorization"@, seq![bearer(key)]),
        None => headers,
    }
}

/// Puts the configured key, where there is one, in place of the client's. `None`
/// where the map of headers takes no more.
pub fn inject_api_key(
    headers: http::HeaderMap<http::HeaderValue>,
    api_key: Option<&str>,
) -> (r: Option<http::HeaderMap<http::HeaderValue>>)
    ensures
        r matches Some(with) ==> header_values(with) == with_key(
            header_values(headers),
            json::text_of(api_key),
        ),
        r is None ==> api_key is Some && !has_few_names(headers),
{
    match api_key {
        Some(key) => {
            let value = match header_value(concat("Bearer ", key).as_str()) {
                Some(value) => value,
                None => {
                    proof {
                        reveal_strlit("Bearer");
                    }
                    static_header_value("Bearer")
                },
            };
            let mut headers = headers;
            if insert_header(&mut headers, authorization(), value) {
                Some(headers)
            } else {
                None
            }
        },
        None => Some(headers),
    }
}

/// The headers that go to the upstream: those of the request that are forwarded,
/// with the configured key. `None` where there are more than the map of headers
/// takes.
///
/// `has_route_key` says whether the route has a key of its own, apart from that
/// of the model.
pub fn prepare_request_headers(
    req_headers: &http::HeaderMap<http::HeaderValue>,
    has_route_key: bool,
    api_key: Option<&str>,
) -> (r: Option<http::HeaderMap<http::HeaderValue>>)
    ensures
        r matches Some(headers) ==> header_values(headers) == with_key(
            forwarded_headers(header_values(*req_headers), has_route_key),
            json::text_of(api_key),
        ),
        r is None ==> !has_few_names(*req_headers),
{
    match try_forward_headers(req_headers, has_route_key) {
        Some(headers) => inject_api_key(headers, api_key),
        None => None,
    }
}

/// The headers that go to the client, for a stream or for a body that comes at
/// once. `None` where there are more than the map of headers takes.
pub fn prepare_response_headers(
    resp_headers: &http::HeaderMap<http::HeaderValue>,
    is_stream: bool,
) -> (r: Option<http::HeaderMap<http::HeaderValue>>)
    ensures
        r matches Some(headers) ==> header_values(headers) == if is_stream {
            stream_headers(header_values(*resp_headers))
        } else {
            passed_headers(header_values(*resp_headers))
        },
        r is None ==> !has_few_names(*resp_headers),
{
    match try_pass_headers(resp_headers) {
        Some(headers) => if is_stream {
            announce_stream(headers)
        } else {
            Some(headers)
        },
        None => None,
    }
}

/// Whether the headers of a response announce an event stream.
pub open spec fn announces_stream(headers: Map<Seq<char>, Seq<Seq<u8>>>) -> bool {
    headers.dom().contains("content-type"@) && {
        let value = headers["content-type"@][0];
        is_visible(value) && text::has_part(
            vstd::utf8::decode_utf8(value),
            "text/event-stream"@,
        )
    }
}

/// Whether the headers of a response announce an event stream.
pub fn is_event_stream(headers: &http::HeaderMap<http::HeaderValue>) -> (r: bool)
    ensures
        r == announces_stream(header_values(*headers)),
{
    match first_header(headers, content_type()) {
        Some(value) => match header_text(value) {
            Some(s) => {
                proof {
                    vstd::utf8::encode_utf8_decode_utf8(s@);
                }
                contains_part(s, "text/event-stream")
            },
            None => false,
        },
        None => false,
    }
}

/// Headers with the content type of event streams, where there is none.
pub open spec fn with_stream_type(headers: Map<Seq<char>, Seq<Seq<u8>>>) -> Map<
    Seq<char>,
    Seq<Seq<u8>>,
> {
    if headers.dom().contains("content-type"@) {
        headers
    } else {
        headers.insert(
            "content-type"@,
            seq![vstd::utf8::encode_utf8("text/event-stream"@)],
        )
    }
}

/// The headers of a streaming response: those that are passed on, and the
/// content type of event streams where there is none.
pub open spec fn stream_headers(headers: Map<Seq<char>, Seq<Seq<u8>>>) -> Map<
    Seq<char>,
    Seq<Seq<u8>>,
> {
    with_stream_type(passed_headers(headers))
}

/// Puts in the content type of event streams, where there is none. `None` where
/// the map of headers takes no more.
fn announce_stream(headers: http::HeaderMap<http::HeaderValue>) -> (r: Option<
    http::HeaderMap<http::HeaderValue>,
>)
    ensures
        r matches Some(with) ==> header_values(with) == with_stream_type(header_values(headers)),
        r is None ==> !has_few_names(headers),
{
    if first_header(&headers, content_type()).is_some() {
        return Some(headers);
    }
    proof {
        reveal_strlit("text/event-stream");
    }
    let mut headers = headers;
    let value = static_header_value("text/event-stream");
    if insert_header(&mut headers, content_type(), value) {
        Some(headers)
    } else {
        None
    }
}

/// No header that holds for one connection only is forwarded to the upstream.
pub proof fn lemma_no_hop_by_hop_forwarded(
    headers: Map<Seq<char>, Seq<Seq<u8>>>,
    has_config_api_key: bool,
    name: Seq<char>,
)
    requires
        hop_by_hop_request(name),
    ensures
        !forwarded_headers(headers, has_config_api_key).dom().contains(name),
{
}

/// Without a configured key, the client's key is forwarded as it came.
pub proof fn lemma_client_key_forwarded(headers: Map<Seq<char>, Seq<Seq<u8>>>)
    requires
        headers.dom().contains("authorization"@),
    ensures
        forwarded_headers(headers, false).dom().contains("authorization"@),
        forwarded_headers(headers, false)["authorization"@] == seq![
            headers["authorization"@].last(),
        ],
{
    lemma_authorization_passes();
}

/// With a configured key, nothing of the client's key is forwarded.
pub proof fn lemma_client_key_dropped(headers: Map<Seq<char>, Seq<Seq<u8>>>)
    ensures
        !forwarded_headers(headers, true).dom().contains("authorization"@),
{
}

proof fn lemma_authorization_passes()
    ensures
        !hop_by_hop_request("authorization"@),
{
    reveal_strlit("authorization");
    reveal_strlit("host");
    reveal_strlit("connection");
    reveal_strlit("content-length");
    reveal_strlit("transfer-encoding");
    reveal_strlit("keep-alive");
    reveal_strlit("proxy-authorization");
    reveal_strlit("te");
    reveal_strlit("trailer");
    reveal_strlit("upgrade");
    assert("authorization"@.len() == 13);
    assert("host"@.len() == 4 && "connection"@.len() == 10 && "content-length"@.len() == 14);
    assert("transfer-encoding"@.len() == 17 && "keep-alive"@.len() == 10);
    assert("proxy-authorization"@.len() == 19 && "te"@.len() == 2 && "trailer"@.len() == 7);
    assert("upgrade"@.len() == 7);
}

/// Every other header of a request is forwarded with its last value, and
/// nothing else is.
pub proof fn lemma_other_headers_forwarded(
    headers: Map<Seq<char>, Seq<Seq<u8>>>,
    has_config_api_key: bool,
    name: Seq<char>,
)
    requires
        !hop_by_hop_request(name),
        name != "authorization"@,
    ensures
        forwarded_headers(headers, has_config_api_key).dom().contains(name)
            == headers.dom().contains(name),
        headers.dom().contains(name) ==> forwarded_headers(headers, has_config_api_key)[name]
            == seq![headers[name].last()],
{
}

/// A configured key is the only one that reaches the upstream, whatever the
/// client sent.
pub proof fn lemma_configured_key_sent(
    headers: Map<Seq<char>, Seq<Seq<u8>>>,
    has_config_api_key: bool,
    key: Seq<char>,
)
    ensures
        forwarded_headers(headers, has_config_api_key).insert(
            "authorization"@,
            seq![bearer(key)],
        )["authorization"@] == seq![bearer(key)],
        forwarded_headers(headers, has_config_api_key).insert("authorization"@, seq![bearer(key)])
            == forwarded_headers(headers, true).insert("authorization"@, seq![bearer(key)]),
{
    assert(forwarded_headers(headers, has_config_api_key).insert(
        "authorization"@,
        seq![bearer(key)],
    ) =~= forwarded_headers(headers, true).insert("authorization"@, seq![bearer(key)]));
}

/// What is forwarded of a request, header by header: the last value of each, but
/// for those that hold for one connection, and for the client's key where there is
/// a configured one.
pub proof fn lemma_forwarded(
    headers: Map<Seq<char>, Seq<Seq<u8>>>,
    has_config_api_key: bool,
    name: Seq<char>,
)
    ensures
        ({
            let forwarded = forwarded_headers(headers, has_config_api_key);
            let of_connection = name == "host"@ || name == "connection"@ || name
                == "content-length"@ || name == "transfer-encoding"@ || name == "keep-alive"@
                || name == "proxy-authorization"@ || name == "te"@ || name == "trailer"@ || name
                == "upgrade"@;
            &&& forwarded.dom().contains(name) <==> headers.dom().contains(name) && !of_connection
                && !(has_config_api_key && name == "authorization"@)
            &&& forwarded.dom().contains(name) ==> forwarded[name] == seq![headers[name].last()]
        }),
{
}

/// What is passed on of a response, header by header: the last value of each, but
/// for those that hold for one connection or one encoding. A stream is announced
/// where the upstream does not say what it sends.
pub proof fn lemma_passed(headers: Map<Seq<char>, Seq<Seq<u8>>>, name: Seq<char>)
    ensures
        ({
            let passed = passed_headers(headers);
            let streamed = stream_headers(headers);
            let of_connection = name == "content-length"@ || name == "content-encoding"@ || name
                == "transfer-encoding"@ || name == "connection"@ || name == "keep-alive"@;
            let announced = name == "content-type"@ && !headers.dom().contains(name);
            &&& passed.dom().contains(name) <==> headers.dom().contains(name) && !of_connection
            &&& passed.dom().contains(name) ==> passed[name] == seq![headers[name].last()]
            &&& streamed.dom().contains(name) <==> passed.dom().contains(name) || announced
            &&& passed.dom().contains(name) ==> streamed[name] == passed[name]
            &&& announced ==> streamed[name] == seq![
                vstd::utf8::encode_utf8("text/event-stream"@),
            ]
        }),
{
    reveal_strlit("content-type");
    reveal_strlit("content-length");
    reveal_strlit("content-encoding");
    reveal_strlit("transfer-encoding");
    reveal_strlit("connection");
    reveal_strlit("keep-alive");
    assert("content-type"@.len() == 12);
    assert("content-length"@.len() == 14 && "content-encoding"@.len() == 16);
    assert("transfer-encoding"@.len() == 17 && "connection"@.len() == 10);
    assert("keep-alive"@.len() == 10);
}

/// A configured key is sent as a bearer token and changes no other header; without
/// one no header changes.
pub proof fn lemma_with_key(
    headers: Map<Seq<char>, Seq<Seq<u8>>>,
    key: Seq<char>,
    name: Seq<char>,
)
    ensures
        with_key(headers, None) == headers,
        name != "authorization"@ ==> {
            &&& with_key(headers, Some(key)).dom().contains(name) <==> headers.dom().contains(name)
            &&& headers.dom().contains(name) ==> with_key(headers, Some(key))[name]
                == headers[name]
        },
        with_key(headers, Some(key)).dom().contains("authorization"@),
        with_key(headers, Some(key))["authorization"@].len() == 1,
        is_value_text(seq!['B', 'e', 'a', 'r', 'e', 'r', ' '] + key) ==> with_key(
            headers,
            Some(key),
        )["authorization"@][0] == vstd::utf8::encode_utf8(
            seq!['B', 'e', 'a', 'r', 'e', 'r', ' '] + key,
        ),
{
    reveal_strlit("Bearer ");
    assert("Bearer "@ =~= seq!['B', 'e', 'a', 'r', 'e', 'r', ' ']);
}

/// A response is a stream exactly where the first value of its content type is
/// readable and speaks of an event stream somewhere.
pub proof fn lemma_announces(headers: Map<Seq<char>, Seq<Seq<u8>>>)
    ensures
        announces_stream(headers) <==> headers.dom().contains("content-type"@) && is_visible(
            headers["content-type"@][0],
        ) && exists|i: int|
            #[trigger] text::has_part_at(
                vstd::utf8::decode_utf8(headers["content-type"@][0]),
                "text/event-stream"@,
                i,
            ),
{
}

/// How many names of headers a map of headers takes.
pub proof fn lemma_few_names(headers: http::HeaderMap<http::HeaderValue>)
    ensures
        has_few_names(headers) <==> header_values(headers).dom().len() <= 6553,
{
}

} // verus!

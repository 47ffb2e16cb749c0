//! What the conversions share: identifiers, the clock, server-sent events, and
//! the rewriting of model names.

use crate::json;
use crate::json::{parse_json, print_json, Json, JsonView, Parsed};
use crate::text;
use crate::text::{concat, same_text, strip_prefix, trim};
use vstd::prelude::*;
use vstd::slice::slice_to_vec;

verus! {

pub open spec fn is_lower_hex(c: char) -> bool {
    '0' <= c <= '9' || 'a' <= c <= 'f'
}

/// The hyphenated form of a random UUID: groups of 8, 4, 4, 4 and 12 lower-case
/// hexadecimal digits, of which the first of the third group is the version.
pub open spec fn is_uuid_text(s: Seq<char>) -> bool {
    &&& s.len() == 36
    &&& s[14] == '4'
    &&& forall|i: int|
        0 <= i < 36 ==> if i == 8 || i == 13 || i == 18 || i == 23 {
            #[trigger] s[i] == '-'
        } else {
            is_lower_hex(s[i])
        }
}

/// Calls `uuid::Uuid::new_v4` and prints the result: a random UUID in its
/// hyphenated form.
#[verifier::external_body]
fn random_uuid_text() -> (r: String)
    ensures
        is_uuid_text(r@),
{
    uuid::Uuid::new_v4().to_string()
}

/// An identifier that `make_id` may give for a prefix.
pub open spec fn is_id_for(prefix: Seq<char>, id: Seq<char>) -> bool {
    &&& id.len() == prefix.len() + 25
    &&& text::has_prefix(id, prefix + "_"@)
    &&& id[prefix.len() as int + 13] == '4'
    &&& forall|i: int| prefix.len() < i < id.len() ==> is_lower_hex(#[trigger] id[i])
}

/// Generates an identifier: a prefix, an underscore, and the first 24 hexadecimal
/// digits of a random UUID, of which the thirteenth is its version.
pub fn make_id(prefix: &str) -> (r: String)
    ensures
        is_id_for(prefix@, r@),
{
    let uuid = random_uuid_text();
    let u = uuid.as_str();
    let mut r = concat(prefix, "_");
    proof {
        reveal_strlit("_");
    }
    r.append(u.substring_char(0, 8));
    r.append(u.substring_char(9, 13));
    r.append(u.substring_char(14, 18));
    r.append(u.substring_char(19, 23));
    r.append(u.substring_char(24, 28));
    assert(r@.take((prefix@ + "_"@).len() as int) =~= prefix@ + "_"@);
    r
}

/// `std::time::SystemTime`, taken as an opaque type.
#[verifier::external_type_specification]
#[verifier::external_body]
pub struct ExSystemTime(std::time::SystemTime);

/// Calls `std::time::SystemTime::now`: the time on the system's clock, of which
/// nothing is promised.
#[verifier::external_body]
fn system_time() -> std::time::SystemTime {
    std::time::SystemTime::now()
}

/// The time from the Unix epoch to another time, as
/// `std::time::SystemTime::duration_since` gives it.
pub uninterp spec fn time_since_epoch(time: std::time::SystemTime) -> Option<std::time::Duration>;

/// The whole seconds of a duration, as `std::time::Duration::as_secs` gives
/// them.
pub uninterp spec fn seconds_in(duration: std::time::Duration) -> u64;

/// Calls `std::time::SystemTime::duration_since` with the Unix epoch: `None`
/// where the time is before the epoch.
#[verifier::external_body]
fn since_epoch(time: std::time::SystemTime) -> (r: Option<std::time::Duration>)
    ensures
        r == time_since_epoch(time),
{
    time.duration_since(std::time::UNIX_EPOCH).ok()
}

/// Calls `std::time::Duration::as_secs`: the whole seconds of a duration.
#[verifier::external_body]
fn whole_seconds(duration: std::time::Duration) -> (r: u64)
    ensures
        r == seconds_in(duration),
{
    duration.as_secs()
}

/// The Unix timestamp of a time in seconds; 0 for a time before the epoch.
pub open spec fn timestamp(time: std::time::SystemTime) -> u64 {
    match time_since_epoch(time) {
        Some(duration) => seconds_in(duration),
        None => 0,
    }
}

/// Whether a number of seconds is a reading of the clock.
pub open spec fn is_clock_reading(seconds: u64) -> bool {
    exists|time: std::time::SystemTime| seconds == #[trigger] timestamp(time)
}

/// The current Unix timestamp in seconds; 0 where the clock is before the epoch.
pub fn now_secs() -> (r: u64)
    ensures
        is_clock_reading(r),
{
    let time = system_time();
    match since_epoch(time) {
        Some(duration) => {
            assert(timestamp(time) == seconds_in(duration));
            whole_seconds(duration)
        },
        None => {
            assert(timestamp(time) == 0);
            0
        },
    }
}

/// The text of an event that carries a JSON value.
pub open spec fn data_event(v: JsonView) -> Seq<char> {
    "data: "@ + json::json_text(v) + "\n\n"@
}

/// A text between "data: " and a blank line is what the line carries.
proof fn lemma_event_payload(s: Seq<char>)
    requires
        json::is_compact(s),
    ensures
        payload("data: "@ + s + "\n\n"@) == Some(s),
{
    reveal_strlit("data: ");
    reveal_strlit("\n\n");
    let line = "data: "@ + s + "\n\n"@;
    let data = s + "\n\n"@;
    assert(line.take("data: "@.len() as int) =~= "data: "@);
    assert(line.skip("data: "@.len() as int) =~= data);
    assert(data[0] == s[0]);
    assert(text::without_leading_space(data) == data);
    let shorter = data.drop_last();
    assert(data.last() == '\n' && shorter.last() == '\n');
    assert(shorter.drop_last() =~= s);
    assert(text::without_trailing_space(s) == s);
    assert(text::without_trailing_space(shorter) == s);
    assert(text::without_trailing_space(data) == s);
}

/// Formats a JSON value as a `data:` line of an event stream. Reading the line
/// gives the value back, unless it nests too deep to parse.
pub fn sse_line(data: &Json) -> (r: String)
    ensures
        r@ == data_event(data@),
        json::nested_within(data@, json::MAX_NESTING as nat) ==> value_in(r@) == Some(data@),
{
    let printed = print_json(data);
    proof {
        lemma_event_payload(printed@);
    }
    let mut r = concat("data: ", printed.as_str());
    r.append("\n\n");
    r
}

/// An event of an event stream.
pub enum SseEvent {
    /// A line that carries a JSON value.
    Data(Json),
    /// The line that ends a stream of the OpenAI protocols.
    Done,
}

pub enum SseEventView {
    Data(JsonView),
    Done,
}

impl View for SseEvent {
    type V = SseEventView;

    open spec fn view(&self) -> SseEventView {
        match *self {
            SseEvent::Data(j) => SseEventView::Data(j@),
            SseEvent::Done => SseEventView::Done,
        }
    }
}

pub open spec fn event_views(events: Seq<SseEvent>) -> Seq<SseEventView> {
    events.map_values(|e: SseEvent| e@)
}

/// Adds an event that carries a JSON value.
pub fn emit(events: &mut Vec<SseEvent>, value: Json)
    ensures
        event_views(final(events)@) == event_views(old(events)@).push(SseEventView::Data(value@)),
{
    let ghost before = events@;
    events.push(SseEvent::Data(value));
    assert(event_views(events@) =~= event_views(before).push(SseEventView::Data(value@)));
}

/// Adds the event that ends a stream.
pub fn emit_done(events: &mut Vec<SseEvent>)
    ensures
        event_views(final(events)@) == event_views(old(events)@).push(SseEventView::Done),
{
    let ghost before = events@;
    events.push(SseEvent::Done);
    assert(event_views(events@) =~= event_views(before).push(SseEventView::Done));
}

pub open spec fn event_text(e: SseEventView) -> Seq<char> {
    match e {
        SseEventView::Data(v) => data_event(v),
        SseEventView::Done => "data: [DONE]\n\n"@,
    }
}

/// The text of events in their order.
pub open spec fn stream_text(events: Seq<SseEventView>) -> Seq<char> {
    events.flat_map(|e: SseEventView| event_text(e))
}

/// What is sent for some events: their text, or nothing where there are none.
pub open spec fn sent(events: Seq<SseEventView>) -> Option<Seq<char>> {
    if events.len() == 0 {
        None
    } else {
        Some(stream_text(events))
    }
}

/// Prints events; `None` where there are none.
pub fn print_events(events: &Vec<SseEvent>) -> (r: Option<String>)
    ensures
        json::string_of(r) == sent(event_views(events@)),
{
    if events.len() == 0 {
        return None;
    }
    let mut out = String::new();
    let ghost views = event_views(events@);
    proof {
        assert(views.take(0) =~= Seq::empty());
        assert(stream_text(views.take(0)) =~= Seq::empty());
    }
    for i in 0..events.len()
        invariant
            views == event_views(events@),
            out@ == stream_text(views.take(i as int)),
    {
        proof {
            views.lemma_flat_map_take_append(|e: SseEventView| event_text(e), i as int);
        }
        match &events[i] {
            SseEvent::Data(j) => out.append(sse_line(j).as_str()),
            SseEvent::Done => out.append("data: [DONE]\n\n"),
        }
    }
    assert(views.take(views.len() as int) =~= views);
    Some(out)
}

/// An object with its `model` entry set; any other value stays as it is.
pub open spec fn with_model(v: JsonView, model: Seq<char>) -> JsonView {
    json::with_entry(v, "model"@, JsonView::String(model))
}

/// Sets the `model` entry of an object.
pub fn set_model(value: Json, model: &str) -> (r: Json)
    ensures
        r@ == with_model(value@, model@),
{
    value.with_entry("model", Json::string(model))
}

/// An object with its `model` entry set nests no deeper than before.
pub proof fn lemma_nested_with_model(v: JsonView, model: Seq<char>)
    requires
        json::nested_within(v, json::MAX_NESTING as nat),
    ensures
        json::nested_within(with_model(v, model), json::MAX_NESTING as nat),
{
    json::lemma_nested_with_entry(
        v,
        "model"@,
        JsonView::String(model),
        json::MAX_NESTING as nat,
    );
}

/// A response body with the name of the model that the client asked for. Only a
/// body that is a JSON object with a `model` entry changes.
pub open spec fn with_client_model(body: Seq<u8>, client_model: Option<Seq<char>>) -> Seq<u8> {
    match (client_model, json::json_parse(body)) {
        (Some(model), Parsed::Value(v)) => if v.field("model"@) is Some {
            vstd::utf8::encode_utf8(json::json_text(with_model(v, model)))
        } else {
            body
        },
        _ => body,
    }
}

/// Rewrites the `model` field in a JSON response body (non-streaming).
///
/// If the body is not valid JSON or has no `model` field, returns the original
/// bytes. Otherwise the returned body names the client's model.
pub fn rewrite_model_in_response(body: &[u8], client_model: Option<&str>) -> (r: Vec<u8>)
    ensures
        r@ == with_client_model(body@, json::text_of(client_model)),
        json::json_parse(body@) matches Parsed::Value(v) && v.field("model"@) is Some
            && client_model is Some ==> model_in(r@) == json::text_of(client_model),
{
    match client_model {
        Some(model) => match parse_json(body) {
            Ok(value) => if value.get("model").is_some() {
                proof {
                    lemma_nested_with_model(value@, model@);
                }
                print_json(&set_model(value, model)).as_str().as_bytes_vec()
            } else {
                slice_to_vec(body)
            },
            Err(_) => slice_to_vec(body),
        },
        None => slice_to_vec(body),
    }
}

/// The `model` entry of a JSON text, where it is a string.
pub open spec fn model_in(body: Seq<u8>) -> Option<Seq<char>> {
    match json::json_parse(body) {
        Parsed::Value(v) => match v.field("model"@) {
            Some(model) => model.as_str(),
            None => None,
        },
        Parsed::Fault(_) => None,
    }
}

/// Extracts the `model` field from a JSON body (if present).
pub fn extract_model_from_json(body: &[u8]) -> (r: Option<String>)
    ensures
        json::string_of(r) == model_in(body@),
{
    match parse_json(body) {
        Ok(value) => match value.get("model") {
            Some(Json::String(s)) => Some(s.clone()),
            _ => None,
        },
        Err(_) => None,
    }
}

/// The value that a line of an event stream carries once it names the model that
/// the client asked for. Only a line that carries a JSON object with a `model`
/// entry changes.
pub open spec fn renamed_value(
    line: Seq<char>,
    client_model: Option<Seq<char>>,
) -> Option<JsonView> {
    let event = text::trimmed(line);
    let data = event.skip("data: "@.len() as int);
    if text::has_prefix(event, "data: "@) && data != "[DONE]"@ {
        match (client_model, json::json_parse(vstd::utf8::encode_utf8(data))) {
            (Some(model), Parsed::Value(v)) => if v.field("model"@) is Some {
                Some(with_model(v, model))
            } else {
                None
            },
            _ => None,
        }
    } else {
        None
    }
}

/// A line of an event stream with the name of the model that the client asked
/// for.
pub open spec fn line_with_client_model(
    line: Seq<char>,
    client_model: Option<Seq<char>>,
) -> Seq<char> {
    match renamed_value(line, client_model) {
        Some(v) => data_event(v),
        None => line,
    }
}

/// Processes a passthrough SSE line, optionally rewriting the `model` field.
///
/// For `data: {...}` lines containing a `model` field, rewrites it to
/// `client_model`. For `data: [DONE]` lines, passes through unchanged.
/// Non-`data:` lines (comments, event lines) are passed through unchanged.
/// A line that was rewritten carries the rewritten value.
pub fn passthrough_sse_line(line: &str, client_model: Option<&str>) -> (r: Option<String>)
    ensures
        json::string_of(r) == Some(line_with_client_model(line@, json::text_of(client_model))),
        renamed_value(line@, json::text_of(client_model)) is Some ==> value_in(r->0@)
            == renamed_value(line@, json::text_of(client_model)),
{
    match strip_prefix(trim(line), "data: ") {
        Some(data) => if same_text(data, "[DONE]") {
            Some(line.to_string())
        } else {
            match client_model {
                Some(model) => match parse_json(data.as_bytes()) {
                    Ok(value) => if value.get("model").is_some() {
                        proof {
                            lemma_nested_with_model(value@, model@);
                        }
                        Some(sse_line(&set_model(value, model)))
                    } else {
                        Some(line.to_string())
                    },
                    Err(_) => Some(line.to_string()),
                },
                None => Some(line.to_string()),
            }
        },
        None => Some(line.to_string()),
    }
}

/// The data that a line of an event stream carries.
pub open spec fn payload(line: Seq<char>) -> Option<Seq<char>> {
    if text::has_prefix(line, "data: "@) {
        Some(text::trimmed(line.skip("data: "@.len() as int)))
    } else {
        None
    }
}

/// The JSON value that a line of an event stream carries.
pub open spec fn value_in(line: Seq<char>) -> Option<JsonView> {
    match payload(line) {
        Some(data) => match json::json_parse(vstd::utf8::encode_utf8(data)) {
            Parsed::Value(v) => Some(v),
            Parsed::Fault(_) => None,
        },
        None => None,
    }
}

/// The JSON value that a line of an event stream carries.
pub fn read_value(line: &str) -> (r: Option<Json>)
    ensures
        json::value_of(r) == value_in(line@),
{
    match line_payload(line) {
        Some(data) => match parse_json(data.as_bytes()) {
            Ok(value) => Some(value),
            Err(_) => None,
        },
        None => None,
    }
}

/// The chunk of a stream that a line carries: a JSON value, the end of the
/// stream, or nothing.
pub enum ChunkView {
    Value(JsonView),
    End,
    Nothing,
}

pub open spec fn chunk_in(line: Seq<char>) -> ChunkView {
    match payload(line) {
        Some(data) => if data == "[DONE]"@ {
            ChunkView::End
        } else {
            match json::json_parse(vstd::utf8::encode_utf8(data)) {
                Parsed::Value(v) => ChunkView::Value(v),
                Parsed::Fault(_) => ChunkView::Nothing,
            }
        },
        None => ChunkView::Nothing,
    }
}

/// The chunk of a stream that a line carries.
pub enum Chunk {
    Value(Json),
    End,
    Nothing,
}

impl View for Chunk {
    type V = ChunkView;

    open spec fn view(&self) -> ChunkView {
        match *self {
            Chunk::Value(j) => ChunkView::Value(j@),
            Chunk::End => ChunkView::End,
            Chunk::Nothing => ChunkView::Nothing,
        }
    }
}

/// Whether a line ends a stream.
pub fn is_end_line(line: &str) -> (r: bool)
    ensures
        r == (chunk_in(line@) is End),
{
    match line_payload(line) {
        Some(data) => same_text(data, "[DONE]"),
        None => false,
    }
}

pub fn read_chunk(line: &str) -> (r: Chunk)
    ensures
        r@ == chunk_in(line@),
{
    match line_payload(line) {
        Some(data) => if same_text(data, "[DONE]") {
            Chunk::End
        } else {
            match parse_json(data.as_bytes()) {
                Ok(value) => Chunk::Value(value),
                Err(_) => Chunk::Nothing,
            }
        },
        None => Chunk::Nothing,
    }
}

/// The data that a line of an event stream carries.
pub fn line_payload<'a>(line: &'a str) -> (r: Option<&'a str>)
    ensures
        json::text_of(r) == payload(line@),
{
    match strip_prefix(line, "data: ") {
        Some(data) => Some(trim(data)),
        None => None,
    }
}

/// What events are: each stands for its own, one by one.
pub proof fn lemma_event_views(events: Seq<SseEvent>, v: Json)
    ensures
        SseEvent::Data(v)@ == SseEventView::Data(v@),
        SseEvent::Done@ == SseEventView::Done,
        event_views(events).len() == events.len(),
        forall|i: int| 0 <= i < events.len() ==> #[trigger] event_views(events)[i] == events[i]@,
{
}

} // verus!

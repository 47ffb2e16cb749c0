//! What becomes of the bytes of a request and a response: which conversion they go
//! through, and when they stay as they are.

use crate::format::Protocol;
use crate::json;
use crate::json::{JsonView, Parsed};
use crate::plan_laws;
use crate::text;
use crate::transform;
use crate::transform::chat_anthropic;
use crate::transform::common;
use crate::transform::responses_anthropic;
use crate::transform::responses_chat;
use crate::transform::FreshView;
use vstd::prelude::*;

verus! {

/// Every request is converted from its own protocol to the other one.
pub proof fn lemma_request_conversion(body: JsonView)
    ensures
        transform::converted_request(Protocol::Responses, Protocol::Chat, body)
            == JsonView::Object(responses_chat::chat_request(body)),
        transform::converted_request(Protocol::Chat, Protocol::Responses, body)
            == JsonView::Object(responses_chat::responses_request(body)),
        transform::converted_request(Protocol::Responses, Protocol::Anthropic, body)
            == JsonView::Object(responses_anthropic::anthropic_request(body)),
        transform::converted_request(Protocol::Anthropic, Protocol::Responses, body)
            == JsonView::Object(responses_anthropic::responses_request(body)),
        transform::converted_request(Protocol::Chat, Protocol::Anthropic, body)
            == JsonView::Object(chat_anthropic::anthropic_request(body)),
        transform::converted_request(Protocol::Anthropic, Protocol::Chat, body)
            == JsonView::Object(chat_anthropic::chat_request(body)),
{
}

/// Every response is converted from its own protocol to the other one, under the
/// name by which the client calls the model.
pub proof fn lemma_response_conversion(
    body: JsonView,
    client_model: Option<Seq<char>>,
    fresh: FreshView,
)
    ensures
        transform::converted_response(
            Protocol::Chat,
            Protocol::Responses,
            body,
            client_model,
            fresh,
        ) == responses_chat::responses_response(
            body,
            client_model,
            fresh.msg_id,
            fresh.resp_id,
            fresh.created,
        ),
        transform::converted_response(
            Protocol::Responses,
            Protocol::Chat,
            body,
            client_model,
            fresh,
        ) == responses_chat::chat_response(body, client_model, fresh.chat_id, fresh.created),
        transform::converted_response(
            Protocol::Anthropic,
            Protocol::Responses,
            body,
            client_model,
            fresh,
        ) == Some(
            responses_anthropic::responses_response(
                body,
                client_model,
                fresh.msg_id,
                fresh.resp_id,
                fresh.created,
            ),
        ),
        transform::converted_response(
            Protocol::Responses,
            Protocol::Anthropic,
            body,
            client_model,
            fresh,
        ) == Some(responses_anthropic::anthropic_response(body, client_model, fresh.msg_id)),
        transform::converted_response(
            Protocol::Anthropic,
            Protocol::Chat,
            body,
            client_model,
            fresh,
        ) == Some(chat_anthropic::chat_response(body, client_model, fresh.chat_id, fresh.created)),
        transform::converted_response(
            Protocol::Chat,
            Protocol::Anthropic,
            body,
            client_model,
            fresh,
        ) == chat_anthropic::anthropic_response(body, client_model, fresh.msg_id),
{
}

/// A request in the upstream's protocol goes as it came; one in another is read,
/// converted and written, or refused with what is wrong with it.
pub proof fn lemma_request_outcome(from: Protocol, to: Protocol, body: Seq<u8>)
    ensures
        from == to ==> transform::request_outcome(from, to, body) == Ok::<Seq<u8>, Seq<char>>(
            body,
        ),
        from != to ==> match json::json_parse(body) {
            Parsed::Value(v) => transform::request_outcome(from, to, body) == Ok::<
                Seq<u8>,
                Seq<char>,
            >(
                vstd::utf8::encode_utf8(
                    json::json_text(transform::converted_request(from, to, v)),
                ),
            ),
            Parsed::Fault(message) => transform::request_outcome(from, to, body) == Err::<
                Seq<u8>,
                Seq<char>,
            >("failed to parse request body as JSON: "@ + message),
        },
{
}

/// A response in another protocol than the client's is read, converted and
/// written, or refused with what is wrong with it.
pub proof fn lemma_response_outcome(
    from: Protocol,
    to: Protocol,
    body: Seq<u8>,
    client_model: Option<Seq<char>>,
    fresh: FreshView,
)
    requires
        from != to,
    ensures
        ({
            let outcome = transform::response_outcome(from, to, body, client_model, fresh);
            match json::json_parse(body) {
                Parsed::Value(v) => match transform::converted_response(
                    from,
                    to,
                    v,
                    client_model,
                    fresh,
                ) {
                    Some(converted) => outcome == Ok::<Seq<u8>, Seq<char>>(
                        vstd::utf8::encode_utf8(json::json_text(converted)),
                    ),
                    None => outcome == Err::<Seq<u8>, Seq<char>>(
                        "response conversion "@ + from.spec_name() + "→"@ + to.spec_name()
                            + " produced None"@,
                    ),
                },
                Parsed::Fault(message) => outcome == Err::<Seq<u8>, Seq<char>>(
                    "failed to parse response body: "@ + message,
                ),
            }
        }),
{
}

/// A response that is not converted changes at most in its model: where it names
/// one and the client calls it otherwise, it names the client's, and keeps all
/// else.
pub proof fn lemma_response_renamed(
    protocol: Protocol,
    body: Seq<u8>,
    v: JsonView,
    model: Seq<char>,
    fresh: FreshView,
)
    ensures
        ({
            let outcome = transform::response_outcome(
                protocol,
                protocol,
                body,
                Some(model),
                fresh,
            );
            &&& json::json_parse(body) == Parsed::Value(v) && v.field("model"@) is Some
                ==> exists|renamed: JsonView|
                outcome == Ok::<Seq<u8>, Seq<char>>(
                    vstd::utf8::encode_utf8(json::json_text(renamed)),
                ) && #[trigger] plan_laws::is_renamed(renamed, v, model)
            &&& json::json_parse(body) == Parsed::Value(v) && v.field("model"@) is None
                ==> outcome == Ok::<Seq<u8>, Seq<char>>(body)
            &&& json::json_parse(body) is Fault ==> outcome == Ok::<Seq<u8>, Seq<char>>(body)
            &&& transform::response_outcome(protocol, protocol, body, None, fresh) == Ok::<
                Seq<u8>,
                Seq<char>,
            >(body)
        }),
{
    if json::json_parse(body) == Parsed::Value(v) && v.field("model"@) is Some {
        let renamed = common::with_model(v, model);
        assert(plan_laws::is_renamed(renamed, v, model));
    }
}

/// A line of a stream that is not converted changes at most in its model: a value
/// that names one names the client's, and keeps all else; every other line stays.
pub proof fn lemma_line_renamed(line: Seq<char>, v: JsonView, model: Seq<char>)
    ensures
        ({
            let event = text::trimmed(line);
            let data = event.skip(6);
            let brings = text::has_prefix(event, "data: "@) && data != "[DONE]"@
                && json::json_parse(vstd::utf8::encode_utf8(data)) == Parsed::Value(v);
            let passed = common::line_with_client_model(line, Some(model));
            &&& brings && v.field("model"@) is Some ==> exists|renamed: JsonView|
                passed == "data: "@ + json::json_text(renamed) + "\n\n"@ && #[trigger]
                    plan_laws::is_renamed(renamed, v, model)
            &&& brings && v.field("model"@) is None ==> passed == line
            &&& data == "[DONE]"@ ==> passed == line
            &&& !text::has_prefix(event, "data: "@) ==> passed == line
            &&& json::json_parse(vstd::utf8::encode_utf8(data)) is Fault ==> passed == line
            &&& common::line_with_client_model(line, None) == line
        }),
{
    reveal_strlit("data: ");
    let renamed = common::with_model(v, model);
    if v.field("model"@) is Some {
        assert(plan_laws::is_renamed(renamed, v, model));
    }
}

} // verus!

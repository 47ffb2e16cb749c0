//! Protocol format detection and conversion dispatch.
//!
//! Three supported protocol formats:
//! - `Responses` — OpenAI Responses API (`/v1/responses`)
//! - `Chat` — OpenAI Chat Completions (`/v1/chat/completions`)
//! - `Anthropic` — Anthropic Messages (`/v1/messages`)

use crate::text;
use crate::text::{ends_with, same_text};
use vstd::prelude::*;

verus! {

/// The LLM API protocol formats.
#[derive(Debug, Clone, Copy, PartialEq, Eq, Hash, Structural)]
pub enum Protocol {
    /// OpenAI Responses API (`POST /v1/responses`).
    Responses,
    /// OpenAI Chat Completions (`POST /v1/chat/completions`).
    Chat,
    /// Anthropic Messages (`POST /v1/messages`).
    Anthropic,
}

/// What `str::to_lowercase` makes of a text.
pub uninterp spec fn lowercase(s: Seq<char>) -> Seq<char>;

pub open spec fn is_ascii_text(s: Seq<char>) -> bool {
    forall|i: int| 0 <= i < s.len() ==> (#[trigger] s[i] as u32) < 128
}

/// An ASCII letter in lower case; any other ASCII character stays as it is.
pub open spec fn ascii_lower(c: char) -> char {
    if 'A' <= c <= 'Z' {
        (c as u32 + 32) as char
    } else {
        c
    }
}

/// Calls `str::to_lowercase`, which follows Unicode. On ASCII text it changes
/// the letters A to Z to a to z and nothing else.
#[verifier::external_body]
pub(crate) fn to_lowercase(s: &str) -> (r: String)
    ensures
        r@ == lowercase(s@),
        is_ascii_text(s@) ==> r@ == s@.map_values(|c: char| ascii_lower(c)),
{
    s.to_lowercase()
}

/// The protocol that a name in lower case stands for.
pub open spec fn named_protocol(name: Seq<char>) -> Option<Protocol> {
    if name == "responses"@ || name == "response"@ {
        Some(Protocol::Responses)
    } else if name == "chat"@ || name == "chat_completions"@ || name == "chat-completions"@ {
        Some(Protocol::Chat)
    } else if name == "anthropic"@ || name == "messages"@ {
        Some(Protocol::Anthropic)
    } else {
        None
    }
}

/// The protocol whose API a path ends in.
pub open spec fn protocol_of_path(path: Seq<char>) -> Option<Protocol> {
    if text::has_suffix(path, "/responses"@) {
        Some(Protocol::Responses)
    } else if text::has_suffix(path, "/chat/completions"@) {
        Some(Protocol::Chat)
    } else if text::has_suffix(path, "/messages"@) {
        Some(Protocol::Anthropic)
    } else {
        None
    }
}

impl Protocol {
    pub open spec fn spec_name(self) -> Seq<char> {
        match self {
            Protocol::Responses => "responses"@,
            Protocol::Chat => "chat"@,
            Protocol::Anthropic => "anthropic"@,
        }
    }

    pub open spec fn spec_api_path(self) -> Seq<char> {
        match self {
            Protocol::Responses => "/v1/responses"@,
            Protocol::Chat => "/v1/chat/completions"@,
            Protocol::Anthropic => "/v1/messages"@,
        }
    }

    /// The name of this protocol.
    pub fn name(&self) -> (r: &'static str)
        ensures
            r@ == self.spec_name(),
    {
        match self {
            Protocol::Responses => "responses",
            Protocol::Chat => "chat",
            Protocol::Anthropic => "anthropic",
        }
    }

    /// The protocol that a name in lower case stands for.
    pub fn parse_lowercase(name: &str) -> (r: Option<Protocol>)
        ensures
            r == named_protocol(name@),
    {
        if same_text(name, "responses") || same_text(name, "response") {
            Some(Protocol::Responses)
        } else if same_text(name, "chat") || same_text(name, "chat_completions") || same_text(
            name,
            "chat-completions",
        ) {
            Some(Protocol::Chat)
        } else if same_text(name, "anthropic") || same_text(name, "messages") {
            Some(Protocol::Anthropic)
        } else {
            None
        }
    }

    /// Parses a protocol from a string, in any case.
    pub fn parse_from_str(s: &str) -> (r: Option<Protocol>)
        ensures
            r == named_protocol(lowercase(s@)),
            is_ascii_text(s@) ==> r == named_protocol(s@.map_values(|c: char| ascii_lower(c))),
    {
        Protocol::parse_lowercase(to_lowercase(s).as_str())
    }

    /// The standard URL path for this protocol format.
    ///
    /// - Responses → `/v1/responses`
    /// - Chat → `/v1/chat/completions`
    /// - Anthropic → `/v1/messages`
    pub fn api_path(&self) -> (r: &'static str)
        ensures
            r@ == self.spec_api_path(),
    {
        match self {
            Protocol::Responses => "/v1/responses",
            Protocol::Chat => "/v1/chat/completions",
            Protocol::Anthropic => "/v1/messages",
        }
    }

    /// Detects the inbound protocol from the request URL path.
    ///
    /// Returns `None` if the path doesn't match any known API path.
    pub fn from_path(path: &str) -> (r: Option<Protocol>)
        ensures
            r == protocol_of_path(path@),
    {
        if ends_with(path, "/responses") {
            Some(Protocol::Responses)
        } else if ends_with(path, "/chat/completions") {
            Some(Protocol::Chat)
        } else if ends_with(path, "/messages") {
            Some(Protocol::Anthropic)
        } else {
            None
        }
    }
}

/// A flexible list of upstream-supported formats, ordered by preference.
///
/// The order matters: when conversion is needed, the first format is selected.
#[derive(Debug)]
pub struct UpstreamFormats(pub Vec<Protocol>);

impl Clone for UpstreamFormats {
    fn clone(&self) -> (r: UpstreamFormats)
        ensures
            r.0@ == self.0@,
    {
        let formats = self.0.clone();
        assert(formats@ =~= self.0@);
        UpstreamFormats(formats)
    }
}

impl Default for UpstreamFormats {
    fn default() -> (r: UpstreamFormats)
        ensures
            r.0@.len() == 0,
    {
        UpstreamFormats(Vec::new())
    }
}

/// Whether a list of formats accepts a protocol. An empty one accepts all.
pub open spec fn accepts(formats: Seq<Protocol>, inbound: Protocol) -> bool {
    formats.len() == 0 || formats.contains(inbound)
}

/// The format in which a request goes to the upstream.
pub open spec fn target(formats: Seq<Protocol>, inbound: Protocol) -> Protocol {
    if accepts(formats, inbound) {
        inbound
    } else {
        formats[0]
    }
}

impl UpstreamFormats {
    /// Empty (no formats declared) — means "accept anything, passthrough".
    pub fn is_empty(&self) -> (r: bool)
        ensures
            r == (self.0@.len() == 0),
    {
        self.0.len() == 0
    }

    /// Checks if the inbound protocol is directly supported by the upstream.
    pub fn supports(&self, inbound: Protocol) -> (r: bool)
        ensures
            r == accepts(self.0@, inbound),
    {
        if self.0.len() == 0 {
            return true;
        }
        for i in 0..self.0.len()
            invariant
                forall|j: int| 0 <= j < i ==> self.0@[j] != inbound,
        {
            if self.0[i] == inbound {
                return true;
            }
        }
        false
    }

    /// Selects the target format for forwarding to the upstream.
    ///
    /// - If `inbound` is in the list (or list is empty) → return `inbound` (passthrough).
    /// - Otherwise → return the first format in the list (convert to it).
    pub fn select_target(&self, inbound: Protocol) -> (r: Protocol)
        ensures
            r == target(self.0@, inbound),
    {
        if self.supports(inbound) {
            inbound
        } else {
            self.0[0]
        }
    }
}

/// The conversion that a request needs.
pub open spec fn direction(formats: Seq<Protocol>, inbound: Protocol) -> Option<
    (Protocol, Protocol),
> {
    if target(formats, inbound) == inbound {
        None
    } else {
        Some((inbound, target(formats, inbound)))
    }
}

/// Decides whether a conversion is needed, and if so, in which direction.
///
/// Returns `None` if passthrough (no conversion).
/// Returns `Some((from, to))` if conversion is needed.
pub fn conversion_direction(inbound: Protocol, upstream_formats: &UpstreamFormats) -> (r: Option<
    (Protocol, Protocol),
>)
    ensures
        r == direction(upstream_formats.0@, inbound),
{
    let selected = upstream_formats.select_target(inbound);
    if selected == inbound {
        None
    } else {
        Some((inbound, selected))
    }
}

/// The selected target is a format that the upstream accepts.
pub proof fn lemma_target_accepted(formats: Seq<Protocol>, inbound: Protocol)
    ensures
        accepts(formats, target(formats, inbound)),
{
}

/// No conversion is needed exactly where the upstream accepts the inbound
/// protocol. A conversion starts from the inbound protocol and ends in the
/// format that the upstream prefers.
pub proof fn lemma_conversion_needed(formats: Seq<Protocol>, inbound: Protocol)
    ensures
        direction(formats, inbound) is None <==> accepts(formats, inbound),
        direction(formats, inbound) matches Some((from, to)) ==> from == inbound && to
            == formats[0] && from != to,
{
    if !accepts(formats, inbound) {
        assert(formats.contains(formats[0]));
    }
}

/// The path of a protocol's API, under any prefix, is detected as that
/// protocol.
pub proof fn lemma_api_path_detected(prefix: Seq<char>, protocol: Protocol)
    ensures
        protocol_of_path(prefix + protocol.spec_api_path()) == Some(protocol),
{
    let path = prefix + protocol.spec_api_path();
    reveal_strlit("/v1/responses");
    reveal_strlit("/v1/chat/completions");
    reveal_strlit("/v1/messages");
    reveal_strlit("/responses");
    reveal_strlit("/chat/completions");
    reveal_strlit("/messages");
    match protocol {
        Protocol::Responses => {
            assert(path.skip(path.len() - 10) =~= "/responses"@);
        },
        Protocol::Chat => {
            assert(path.skip(path.len() - 10)[8] != "/responses"@[8]);
            assert(path.skip(path.len() - 17) =~= "/chat/completions"@);
        },
        Protocol::Anthropic => {
            assert(path.skip(path.len() - 10)[7] != "/responses"@[7]);
            if path.len() >= 17 {
                assert(path.skip(path.len() - 17)[15] != "/chat/completions"@[15]);
            }
            assert(path.skip(path.len() - 9) =~= "/messages"@);
        },
    }
}

/// A protocol's name, in any mixture of upper and lower case, stands for it.
pub proof fn lemma_name_parsed(protocol: Protocol, s: Seq<char>)
    requires
        is_ascii_text(s),
        s.map_values(|c: char| ascii_lower(c)) == protocol.spec_name(),
    ensures
        named_protocol(s.map_values(|c: char| ascii_lower(c))) == Some(protocol),
{
    reveal_strlit("responses");
    reveal_strlit("response");
    reveal_strlit("chat");
    reveal_strlit("chat_completions");
    reveal_strlit("chat-completions");
    reveal_strlit("anthropic");
    let name = s.map_values(|c: char| ascii_lower(c));
    assert("responses"@.len() == 9 && "response"@.len() == 8 && "chat"@.len() == 4);
    assert("chat_completions"@.len() == 16 && "chat-completions"@.len() == 16);
    assert("anthropic"@.len() == 9 && "anthropic"@[0] == 'a' && "responses"@[0] == 'r');
    match protocol {
        Protocol::Responses => {},
        Protocol::Chat => {
            assert(name.len() == 4);
        },
        Protocol::Anthropic => {
            assert(name[0] == 'a');
        },
    }
}

/// The names that stand for a protocol, and no others do.
pub proof fn lemma_names(name: Seq<char>)
    ensures
        named_protocol(name) == Some(Protocol::Responses) <==> name == "responses"@ || name
            == "response"@,
        named_protocol(name) == Some(Protocol::Chat) <==> name == "chat"@ || name
            == "chat_completions"@ || name == "chat-completions"@,
        named_protocol(name) == Some(Protocol::Anthropic) <==> name == "anthropic"@ || name
            == "messages"@,
{
    reveal_strlit("responses");
    reveal_strlit("response");
    reveal_strlit("chat");
    reveal_strlit("chat_completions");
    reveal_strlit("chat-completions");
    reveal_strlit("anthropic");
    reveal_strlit("messages");
    assert("responses"@[0] == 'r' && "response"@[0] == 'r');
    assert("chat"@[0] == 'c' && "chat_completions"@[0] == 'c' && "chat-completions"@[0] == 'c');
    assert("anthropic"@[0] == 'a' && "messages"@[0] == 'm');
}

/// A path is for a protocol exactly where it ends in the name of the protocol's
/// resource.
pub proof fn lemma_paths(path: Seq<char>)
    ensures
        protocol_of_path(path) == Some(Protocol::Responses) <==> text::has_suffix(
            path,
            "/responses"@,
        ),
        protocol_of_path(path) == Some(Protocol::Chat) <==> text::has_suffix(
            path,
            "/chat/completions"@,
        ),
        protocol_of_path(path) == Some(Protocol::Anthropic) <==> text::has_suffix(
            path,
            "/messages"@,
        ),
{
    reveal_strlit("/responses");
    reveal_strlit("/chat/completions");
    reveal_strlit("/messages");
    if text::has_suffix(path, "/responses"@) {
        assert(path.skip(path.len() - 10)[8] == path[path.len() - 2]);
        assert(path.skip(path.len() - 10)[7] == path[path.len() - 3]);
    }
    if text::has_suffix(path, "/chat/completions"@) {
        assert(path.skip(path.len() - 17)[15] == path[path.len() - 2]);
        assert(path.skip(path.len() - 17)[14] == path[path.len() - 3]);
    }
    if text::has_suffix(path, "/messages"@) {
        assert(path.skip(path.len() - 9)[7] == path[path.len() - 2]);
        assert(path.skip(path.len() - 9)[6] == path[path.len() - 3]);
    }
}

/// A request stays in its protocol where the upstream takes anything or takes that
/// one; otherwise it goes in the first that the upstream takes.
pub proof fn lemma_target(formats: Seq<Protocol>, inbound: Protocol)
    ensures
        formats.len() == 0 ==> target(formats, inbound) == inbound,
        formats.contains(inbound) ==> target(formats, inbound) == inbound,
        formats.len() > 0 && !formats.contains(inbound) ==> target(formats, inbound)
            == formats[0],
{
}

/// The name of each protocol, and the path under which an upstream offers it.
pub proof fn lemma_protocols()
    ensures
        Protocol::Responses.spec_name() == "responses"@,
        Protocol::Chat.spec_name() == "chat"@,
        Protocol::Anthropic.spec_name() == "anthropic"@,
        Protocol::Responses.spec_api_path() == "/v1/responses"@,
        Protocol::Chat.spec_api_path() == "/v1/chat/completions"@,
        Protocol::Anthropic.spec_api_path() == "/v1/messages"@,
{
}

} // verus!

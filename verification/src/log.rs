//! What logging needs to know: the filter for a level, and the model of a
//! request.

use crate::json;
use crate::text::{concat, find_char};
use crate::transform::common;
use crate::transform::common::extract_model_from_json;
use vstd::prelude::*;

verus! {

/// The filter that a configured level stands for. A filter stands for itself; a
/// bare level holds for this crate only, and dependencies stay at `warn`.
pub open spec fn scoped(level: Seq<char>) -> Seq<char> {
    if level.contains(',') || level.contains('=') {
        level
    } else {
        "warn,llm_proxy="@ + level
    }
}

/// Scopes a bare level string to the llm_proxy crate.
///
/// "debug" → "warn,llm_proxy=debug"
/// "warn,llm_proxy=debug" → passed through as-is (already scoped)
pub fn scope_level(level: &str) -> (r: String)
    ensures
        r@ == scoped(level@),
{
    let len: usize = level.unicode_len();
    let comma: usize = find_char(level, ',');
    let equals: usize = find_char(level, '=');
    proof {
        if comma < len {
            assert(level@[comma as int] == ',');
        }
        if equals < len {
            assert(level@[equals as int] == '=');
        }
    }
    if comma < len || equals < len {
        level.to_string()
    } else {
        concat("warn,llm_proxy=", level)
    }
}

/// A scoped level stays as it is when it is scoped again.
pub proof fn lemma_scoped_stable(level: Seq<char>)
    ensures
        scoped(scoped(level)) == scoped(level),
{
    reveal_strlit("warn,llm_proxy=");
    let prefixed = "warn,llm_proxy="@ + level;
    assert(prefixed[4] == ',');
}

/// The model that a request names. An empty body names none.
pub open spec fn requested_model(body: Seq<u8>) -> Option<Seq<char>> {
    if body.len() == 0 {
        None
    } else {
        common::model_in(body)
    }
}

/// Best-effort extraction of the `model` field from a request body.
///
/// Works with OpenAI chat completions format and Anthropic Messages format
/// (`{"model": "glm-latest", ...}`).
/// Returns `None` on any parse error.
pub fn extract_model(body: &[u8]) -> (r: Option<String>)
    ensures
        json::string_of(r) == requested_model(body@),
{
    if body.len() == 0 {
        return None;
    }
    extract_model_from_json(body)
}

/// A bare level holds for this crate, and the others stay at `warn`; a filter stays
/// as it is.
pub proof fn lemma_scoped(level: Seq<char>)
    ensures
        level.contains(',') || level.contains('=') ==> scoped(level) == level,
        !level.contains(',') && !level.contains('=') ==> scoped(level) == "warn,llm_proxy="@
            + level,
{
}

} // verus!

//! Client side of the AI feature: which models may be asked for, where the
//! relay listens, and how its failures are reported to the UI.
//!
//! The client never holds a provider key; it only knows the relay URL. The
//! network exchange itself is done by the shell.

use vstd::prelude::*;
use vstd::string::*;
use crate::browser::opt_view;
use crate::text::{chars_of, str_eq, string_of, trim_end_all, trim_end_chars};

verus! {

/// One turn of a conversation.
#[derive(Debug, Clone)]
pub struct ChatMessage {
    pub role: String,
    pub content: String,
}

/// Models the client is allowed to request (they must match the relay's routing).
pub open spec fn spec_allowed_models() -> Seq<Seq<char>> {
    seq!["gemini-2.5-flash"@, "gemini-2.5-flash-lite"@, "qwen/qwen3-32b"@]
}

/// Models the client is allowed to request (must match the relay's routing).
pub fn allowed_models() -> (r: Vec<&'static str>)
    ensures
        r@.len() == 3,
        r@.map_values(|m: &str| m@) == spec_allowed_models(),
{
    let r: Vec<&'static str> = vec!["gemini-2.5-flash", "gemini-2.5-flash-lite", "qwen/qwen3-32b"];
    assert(r@.map_values(|m: &str| m@) =~= spec_allowed_models());
    r
}

/// The texts of a sequence of strings.
pub open spec fn string_views(v: Seq<String>) -> Seq<Seq<char>> {
    v.map_values(|m: String| m@)
}

/// The model list offered to the frontend.
pub fn ai_models() -> (r: Vec<String>)
    ensures
        string_views(r@) == spec_allowed_models(),
{
    let models = allowed_models();
    let mut out: Vec<String> = Vec::new();
    let mut k: usize = 0;
    while k < models.len()
        invariant
            k <= models@.len(),
            models@.map_values(|m: &str| m@) == spec_allowed_models(),
            out@.len() == k,
            string_views(out@) == spec_allowed_models().subrange(0, k as int),
        decreases models@.len() - k,
    {
        assert(models@.map_values(|m: &str| m@)[k as int] == models@[k as int]@);
        let ghost before = out@;
        out.push(String::from_str(models[k]));
        assert forall|j: int| 0 <= j < k + 1 implies #[trigger] string_views(out@)[j]
            == spec_allowed_models().subrange(0, k + 1)[j] by {
            if j < k {
                assert(out@[j] == before[j]);
                assert(string_views(before)[j] == spec_allowed_models().subrange(0, k as int)[j]);
            }
        }
        assert(string_views(out@) =~= spec_allowed_models().subrange(0, k + 1));
        k = k + 1;
    }
    assert(spec_allowed_models().subrange(0, models@.len() as int) =~= spec_allowed_models());
    out
}

/// The error text for a model the relay does not route.
pub open spec fn spec_model_refusal(model: Seq<char>) -> Seq<char> {
    "model \""@ + model + "\" is not allowed"@
}

/// Accept only the allowed models; any other one is refused with a message
/// naming it.
pub fn check_model(model: &str) -> (r: Result<(), String>)
    ensures
        r is Ok <==> spec_allowed_models().contains(model@),
        r matches Err(e) ==> e@ == spec_model_refusal(model@),
{
    let models = allowed_models();
    let mut k: usize = 0;
    while k < models.len()
        invariant
            k <= models@.len(),
            models@.map_values(|m: &str| m@) == spec_allowed_models(),
            forall|j: int| 0 <= j < k ==> spec_allowed_models()[j] != model@,
        decreases models@.len() - k,
    {
        assert(models@.map_values(|m: &str| m@)[k as int] == models@[k as int]@);
        if str_eq(models[k], model) {
            assert(spec_allowed_models()[k as int] == model@);
            return Ok(());
        }
        k = k + 1;
    }
    let mut msg = String::from_str("model \"");
    msg.append(model);
    msg.append("\" is not allowed");
    Err(msg)
}

/// The relay used when none is configured.
pub open spec fn default_relay() -> Seq<char> {
    "http://de1.wildex.xyz:25573"@
}

/// The relay base URL: the configured one (the `ASBAR_AI_URL` environment
/// variable, read by the shell) or the default relay.
pub fn relay_url(configured: Option<String>) -> (r: String)
    ensures
        r@ == (match configured {
            Some(u) => u@,
            None => default_relay(),
        }),
{
    match configured {
        Some(u) => u,
        None => String::from_str("http://de1.wildex.xyz:25573"),
    }
}

/// The chat endpoint of a relay: trailing slashes of the base URL are
/// dropped before `/v1/chat` is appended.
pub open spec fn spec_chat_url(relay: Seq<char>) -> Seq<char> {
    trim_end_all(relay, "/"@) + "/v1/chat"@
}

/// The chat endpoint of the relay at `relay`.
pub fn chat_url(relay: &str) -> (r: String)
    ensures
        r@ == spec_chat_url(relay@),
{
    let v = chars_of(relay);
    let slash = chars_of("/");
    proof {
        reveal_strlit("/");
    }
    let end = trim_end_chars(&v, v.len(), &slash);
    assert(v@.subrange(0, v@.len() as int) =~= v@);
    let mut url = string_of(&v, 0, end);
    url.append("/v1/chat");
    url
}

/// The string found under `key` in the JSON object `text`, when `text` parses
/// as JSON, is an object, and holds a string there (`serde_json` parsing).
pub uninterp spec fn json_str_field(text: Seq<char>, key: Seq<char>) -> Option<Seq<char>>;

/// `serde_json::from_str::<serde_json::Value>`, then `Value::get(key)` and
/// `Value::as_str`: the string stored under `key`, if the text is a JSON
/// object with a string there. The result depends on the text and the key alone.
#[verifier::external_body]
fn json_string_field(text: &str, key: &str) -> (r: Option<String>)
    ensures
        opt_view(r) == json_str_field(text@, key@),
{
    let value: serde_json::Value = match serde_json::from_str(text) {
        Ok(v) => v,
        Err(_) => return None,
    };
    match value.get(key) {
        Some(field) => match field.as_str() {
            Some(s) => Some(s.to_string()),
            None => None,
        },
        None => None,
    }
}

/// The message shown for a failed relay call: the relay's `error` field when
/// its body carries one, else the raw body.
pub open spec fn spec_relay_error(status: Seq<char>, body: Seq<char>, error_field: Option<
    Seq<char>,
>) -> Seq<char> {
    let msg = match error_field {
        Some(e) => e,
        None => body,
    };
    "AI server error ("@ + status + "): "@ + msg
}

/// The message for a failed relay call, given the `error` field extracted
/// from its body (if any). `status` is the HTTP status as displayed, e.g.
/// `429 Too Many Requests`.
pub fn relay_error_message(status: &str, body: &str, error_field: Option<String>) -> (r: String)
    ensures
        r@ == spec_relay_error(status@, body@, opt_view(error_field)),
{
    let mut msg = String::from_str("AI server error (");
    msg.append(status);
    msg.append("): ");
    match error_field {
        Some(e) => msg.append(e.as_str()),
        None => msg.append(body),
    }
    msg
}

/// The message for a failed relay call: relay errors come back as JSON with
/// an `error` string or as plain text; both are surfaced to the UI.
pub fn relay_error(status: &str, body: &str) -> (r: String)
    ensures
        r@ == spec_relay_error(status@, body@, json_str_field(body@, "error"@)),
{
    let field = json_string_field(body, "error");
    relay_error_message(status, body, field)
}

/// Trailing slashes on the relay URL make no difference to the endpoint.
pub proof fn law_chat_url_ignores_trailing_slash(relay: Seq<char>)
    ensures
        spec_chat_url(relay + "/"@) == spec_chat_url(relay),
{
    reveal_strlit("/");
    let s = relay + "/"@;
    assert(s.subrange(s.len() - 1, s.len() as int) =~= "/"@);
    assert(s.subrange(0, s.len() - 1) =~= relay);
}

} // verus!

//! The JSON that the agent writes and recognises.
//!
//! Strings are escaped, and text is tested for being JSON, by `serde_json`.
//! What is built around them, the envelope and the requests, is put together
//! here piece by piece, so that every byte of a payload is accounted for.

use vstd::prelude::*;
use vstd::string::StringExecFns;

verus! {

/// The JSON string literal for `s`, quotes included, as
/// `serde_json::to_string` writes it.
pub uninterp spec fn json_string(s: Seq<char>) -> Seq<char>;

/// Whether `text` is one JSON value and nothing else, as judged by
/// `serde_json::from_str` reading a `serde_json::Value`.
pub uninterp spec fn is_json(text: Seq<char>) -> bool;

/// Calls `serde_json::to_string` on a string. The call writes the string as a
/// JSON string literal and has no way to fail for a string; the contract
/// gives what it wrote the name `json_string` and claims no more.
#[verifier::external_body]
fn quote(s: &str) -> (out: String)
    ensures
        out@ == json_string(s@),
{
    match serde_json::to_string(s) {
        Ok(quoted) => quoted,
        Err(_) => String::new(),
    }
}

/// Calls `serde_json::from_str` for a `serde_json::Value` and reports whether
/// it succeeded. The verdict depends on the text alone; the contract gives it
/// the name `is_json` and claims no more.
#[verifier::external_body]
pub(crate) fn parses(text: &str) -> (ok: bool)
    ensures
        ok == is_json(text@),
{
    serde_json::from_str::<serde_json::Value>(text).is_ok()
}

/// Writes `s` behind `out` as a JSON string literal.
pub fn push_json_string(out: &mut String, s: &str)
    ensures
        final(out)@ == old(out)@ + json_string(s@),
{
    let quoted = quote(s);
    out.append(quoted.as_str());
}

/// The members that follow the response text in the envelope of a balance
/// report.
pub const REPORT_STATS: &'static str =
    "\"time_taken\":0.5,\"tokens_per_second\":50.0,\"total_tokens_generated\":100";

/// The members that follow the response text in the envelope of an apology.
pub const APOLOGY_STATS: &'static str =
    "\"time_taken\":0.1,\"tokens_per_second\":10.0,\"total_tokens_generated\":20";

/// The members that follow the response text in the envelope of a model's
/// plain reply.
pub const REPLY_STATS: &'static str =
    "\"time_taken\":0.3,\"tokens_per_second\":30.0,\"total_tokens_generated\":50";

/// The envelope: a JSON object whose `response` member is `response`, followed
/// by the members `stats`.
pub open spec fn envelope_text(response: Seq<char>, stats: Seq<char>) -> Seq<char> {
    "{\"response\":"@ + json_string(response) + ","@ + stats + "}"@
}

/// `response` in its envelope.
pub fn envelope(response: &str, stats: &str) -> (out: String)
    ensures
        out@ == envelope_text(response@, stats@),
{
    let mut out = String::from_str("{\"response\":");
    push_json_string(&mut out, response);
    out.append(",");
    out.append(stats);
    out.append("}");
    out
}

/// A request to the blockchain proxy: a JSON object with the members
/// `action` and `address`.
pub open spec fn proxy_request_text(action: Seq<char>, address: Seq<char>) -> Seq<char> {
    "{\"action\":"@ + json_string(action) + ",\"address\":"@ + json_string(address) + "}"@
}

/// The request that asks the blockchain proxy to do `action` for `address`.
pub fn proxy_request(action: &str, address: &str) -> (out: String)
    ensures
        out@ == proxy_request_text(action@, address@),
{
    let mut out = String::from_str("{\"action\":");
    push_json_string(&mut out, action);
    out.append(",\"address\":");
    push_json_string(&mut out, address);
    out.append("}");
    out
}

} // verus!

//! The calls this library makes into outside crates: serde_json and regex,
//! whose results are given a name here so that the library's own logic can be
//! stated over them; tokio's channels; chrono's clock; uuid's generator.
use vstd::prelude::*;
use crate::logger::SSEEvent;
use crate::query::{mentions_url, URL_PATTERN};
use base64::Engine;

verus! {

#[verifier::external_type_specification]
#[verifier::external_body]
#[verifier::reject_recursive_types(T)]
pub struct ExBroadcastSender<T>(tokio::sync::broadcast::Sender<T>);

#[verifier::external_type_specification]
#[verifier::external_body]
#[verifier::reject_recursive_types(T)]
pub struct ExBroadcastReceiver<T>(tokio::sync::broadcast::Receiver<T>);

#[verifier::external_type_specification]
#[verifier::external_body]
#[verifier::reject_recursive_types(T)]
pub struct ExOneshotSender<T>(tokio::sync::oneshot::Sender<T>);

#[verifier::external_type_specification]
#[verifier::external_body]
#[verifier::reject_recursive_types(T)]
pub struct ExOneshotReceiver<T>(tokio::sync::oneshot::Receiver<T>);

#[verifier::external_type_specification]
#[verifier::external_body]
pub struct ExOneshotRecvError(tokio::sync::oneshot::error::RecvError);

/// Relies on `tokio::sync::broadcast::channel`, which panics when the capacity
/// is zero or above `usize::MAX / 2`.
#[verifier::external_body]
pub fn event_channel(capacity: usize) -> (r: (
    tokio::sync::broadcast::Sender<SSEEvent>,
    tokio::sync::broadcast::Receiver<SSEEvent>,
))
    requires
        0 < capacity <= usize::MAX / 2,
{
    tokio::sync::broadcast::channel(capacity)
}

/// Relies on `broadcast::Sender::subscribe`: a receiver of the events sent after the call.
#[verifier::external_body]
pub fn subscribe_events(bus: &tokio::sync::broadcast::Sender<SSEEvent>) -> (r:
    tokio::sync::broadcast::Receiver<SSEEvent>) {
    bus.subscribe()
}

/// Relies on `broadcast::Sender::receiver_count`; the count changes as other
/// tasks subscribe and leave.
#[verifier::external_body]
pub fn count_receivers(bus: &tokio::sync::broadcast::Sender<SSEEvent>) -> (r: usize) {
    bus.receiver_count()
}

/// Relies on `tokio::sync::oneshot::channel`: a single-use slot for one answer.
#[verifier::external_body]
pub fn answer_slot() -> (r: (tokio::sync::oneshot::Sender<String>, tokio::sync::oneshot::Receiver<String>)) {
    tokio::sync::oneshot::channel()
}

/// Relies on `chrono::Utc::now` and `DateTime::timestamp_millis`: the time now,
/// in milliseconds since the Unix epoch.
#[verifier::external_body]
pub fn now_millis() -> (r: i64) {
    chrono::Utc::now().timestamp_millis()
}

/// Relies on `uuid::Uuid::new_v4` and its hyphenated `to_string`: a random id
/// of 36 characters.
#[verifier::external_body]
pub fn fresh_request_id() -> (r: String)
    ensures
        r@.len() == 36,
{
    uuid::Uuid::new_v4().to_string()
}

/// The string that `serde_json` reads under `key` when it parses `text` as a
/// JSON value: `None` when `text` is not JSON, is not an object, has no such
/// member, or the member is not a string.
pub uninterp spec fn json_string_member(text: Seq<char>, key: Seq<char>) -> Option<Seq<char>>;

/// Relies on `serde_json::from_str::<Value>`, `Value::get` and `Value::as_str`:
/// parses `text` and reads the string member `key` of the result.
#[verifier::external_body]
pub fn json_str_member(text: &str, key: &str) -> (r: Option<String>)
    ensures
        r.deep_view() == json_string_member(text@, key@),
{
    let v: serde_json::Value = serde_json::from_str(text).ok()?;
    v.get(key).and_then(|a| a.as_str()).map(|a| a.to_string())
}

/// The text of the first capture group of the leftmost match of the regular
/// expression `pattern` in `text`; `None` when the pattern does not compile,
/// nothing matches, or the group took no part in the match.
pub uninterp spec fn regex_first_group(pattern: Seq<char>, text: Seq<char>) -> Option<Seq<char>>;

/// Relies on `regex::Regex::new`, `Regex::captures` and `Captures::get`.
#[verifier::external_body]
pub fn regex_capture(pattern: &str, text: &str) -> (r: Option<String>)
    ensures
        r.deep_view() == regex_first_group(pattern@, text@),
{
    let re = regex::Regex::new(pattern).ok()?;
    re.captures(text)?.get(1).map(|m| m.as_str().to_string())
}

/// Whether the regular expression `pattern` compiles and matches somewhere in `text`.
pub uninterp spec fn regex_matches(pattern: Seq<char>, text: Seq<char>) -> bool;

/// Relies on `regex::Regex::new` and `Regex::is_match`. For the URL pattern
/// `https?://[^\s]+`, where `\s` is Unicode white space, a match is `http://`
/// or `https://` followed by a character that is not white space.
#[verifier::external_body]
pub fn regex_is_match(pattern: &str, text: &str) -> (r: bool)
    ensures
        r == regex_matches(pattern@, text@),
        pattern@ == URL_PATTERN@ ==> (r <==> mentions_url(text@)),
{
    match regex::Regex::new(pattern) {
        Ok(re) => re.is_match(text),
        Err(_) => false,
    }
}

/// The standard base64 encoding of `bytes`, with padding.
pub uninterp spec fn base64_standard(bytes: Seq<u8>) -> Seq<char>;

/// Relies on `base64::engine::general_purpose::STANDARD.encode`.
#[verifier::external_body]
pub fn base64_encode(bytes: &[u8]) -> (r: String)
    ensures
        r@ == base64_standard(bytes@),
        bytes@.len() == 0 ==> r@.len() == 0,
{
    base64::engine::general_purpose::STANDARD.encode(bytes)
}

/// `s` percent-encoded for a URL query: every byte but ASCII letters, digits,
/// `-`, `.`, `_` and `~` written as `%XX`.
pub uninterp spec fn percent_encoded(s: Seq<char>) -> Seq<char>;

/// Relies on `urlencoding::encode`.
#[verifier::external_body]
pub fn url_encode(s: &str) -> (r: String)
    ensures
        r@ == percent_encoded(s@),
{
    urlencoding::encode(s).into_owned()
}

/// The host that `url::Url::parse` finds in `s`: `None` when `s` does not
/// parse as a URL, `Some(None)` when it parses but has no host.
pub uninterp spec fn parsed_url_host(s: Seq<char>) -> Option<Option<Seq<char>>>;

/// Relies on `url::Url::parse` and `Url::host_str`; a parse error comes back
/// as its message.
#[verifier::external_body]
pub fn url_host(s: &str) -> (r: Result<Option<String>, String>)
    ensures
        r is Ok <==> parsed_url_host(s@) is Some,
        r is Ok ==> r->Ok_0.deep_view() == parsed_url_host(s@)->0,
{
    match url::Url::parse(s) {
        Ok(u) => Ok(u.host_str().map(|h| h.to_string())),
        Err(e) => Err(e.to_string()),
    }
}

} // verus!

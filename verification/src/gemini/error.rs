//! Google RPC errors expressed in the Responses error vocabulary. Native error
//! details remain available separately; classification never matches message text.

use vstd::prelude::*;
use vstd::string::{StrSliceExecFns, StringExecFns};
use crate::exchange::{decimal_json, decimal_value};
use crate::text::{join3, less, precedes, same, split_once, strip_suffix, ahead, parted};
use crate::tree::{json_views, trees, Json, Number, NumberView, Tree};

verus! {

broadcast use json_views;

/// A native error as a Responses error.
pub struct ResponseError {
    pub error: Json,
    pub retryable: bool,
}

/// The type and code of an error, and whether a retry may succeed.
pub struct Class {
    pub kind: &'static str,
    pub code: &'static str,
    pub retryable: bool,
}

/// Whether a status tells of a passing server fault.
pub open spec fn passing(status: Seq<char>) -> bool {
    status == "UNAVAILABLE"@ || status == "INTERNAL"@ || status == "DEADLINE_EXCEEDED"@ || status
        == "ABORTED"@ || status == "CANCELLED"@ || status == "UNKNOWN"@
}

/// Whether a status refuses the request itself.
pub open spec fn refused(status: Seq<char>) -> bool {
    status == "INVALID_ARGUMENT"@ || status == "NOT_FOUND"@ || status == "FAILED_PRECONDITION"@
        || status == "OUT_OF_RANGE"@ || status == "UNIMPLEMENTED"@ || status == "ALREADY_EXISTS"@
}

/// The class by HTTP status.
pub open spec fn http_class(http: Option<u16>) -> (Seq<char>, Seq<char>, bool) {
    match http {
        Some(n) => if n == 429 {
            ("rate_limit_error"@, "rate_limit_exceeded"@, true)
        } else if 400 <= n <= 499 {
            ("invalid_request_error"@, "invalid_prompt"@, false)
        } else {
            ("server_error"@, "server_error"@, true)
        },
        None => ("server_error"@, "server_error"@, true),
    }
}

/// The class of an error: by its RPC status where that is known, else by HTTP
/// status.
pub open spec fn class_of(status: Option<Seq<char>>, http: Option<u16>) -> (
    Seq<char>,
    Seq<char>,
    bool,
) {
    match status {
        Some(s) => if s == "RESOURCE_EXHAUSTED"@ {
            ("rate_limit_error"@, "rate_limit_exceeded"@, true)
        } else if passing(s) {
            ("server_error"@, "server_error"@, true)
        } else if s == "UNAUTHENTICATED"@ {
            ("authentication_error"@, "invalid_prompt"@, false)
        } else if s == "PERMISSION_DENIED"@ {
            ("permission_error"@, "invalid_prompt"@, false)
        } else if refused(s) {
            ("invalid_request_error"@, "invalid_prompt"@, false)
        } else {
            http_class(http)
        },
        None => http_class(http),
    }
}

fn classify_http(http: Option<u16>) -> (r: Class)
    ensures
        (r.kind@, r.code@, r.retryable) == http_class(http),
{
    match http {
        Some(n) => {
            if n == 429 {
                Class { kind: "rate_limit_error", code: "rate_limit_exceeded", retryable: true }
            } else if 400 <= n && n <= 499 {
                Class { kind: "invalid_request_error", code: "invalid_prompt", retryable: false }
            } else {
                Class { kind: "server_error", code: "server_error", retryable: true }
            }
        },
        None => Class { kind: "server_error", code: "server_error", retryable: true },
    }
}

fn classify(status: Option<&str>, http: Option<u16>) -> (r: Class)
    ensures
        (r.kind@, r.code@, r.retryable) == class_of(status.deep_view(), http),
{
    match status {
        Some(s) => {
            if same(s, "RESOURCE_EXHAUSTED") {
                Class { kind: "rate_limit_error", code: "rate_limit_exceeded", retryable: true }
            } else if same(s, "UNAVAILABLE") || same(s, "INTERNAL") || same(s, "DEADLINE_EXCEEDED")
                || same(s, "ABORTED") || same(s, "CANCELLED") || same(s, "UNKNOWN") {
                Class { kind: "server_error", code: "server_error", retryable: true }
            } else if same(s, "UNAUTHENTICATED") {
                Class { kind: "authentication_error", code: "invalid_prompt", retryable: false }
            } else if same(s, "PERMISSION_DENIED") {
                Class { kind: "permission_error", code: "invalid_prompt", retryable: false }
            } else if same(s, "INVALID_ARGUMENT") || same(s, "NOT_FOUND") || same(
                s,
                "FAILED_PRECONDITION",
            ) || same(s, "OUT_OF_RANGE") || same(s, "UNIMPLEMENTED") || same(s, "ALREADY_EXISTS") {
                Class { kind: "invalid_request_error", code: "invalid_prompt", retryable: false }
            } else {
                classify_http(http)
            }
        },
        None => classify_http(http),
    }
}

/// The first retry information at or after `from`.
pub open spec fn retry_info(details: Seq<Tree>, from: int) -> Option<Tree>
    decreases details.len() - from,
{
    if from < 0 || from >= details.len() {
        None
    } else if details[from].at("@type"@) == Tree::Text(
        "type.googleapis.com/google.rpc.RetryInfo"@,
    ) {
        Some(details[from])
    } else {
        retry_info(details, from + 1)
    }
}

/// Whether the decimal rendering of a number lies between zero and a day of
/// seconds.
pub open spec fn within_a_day(number: Seq<char>) -> bool {
    let whole = match parted(number, '.') {
        Some((front, _)) => front,
        None => number,
    };
    if "-"@.is_prefix_of(number) {
        number == "-0"@
    } else {
        whole.len() < 5 || (whole.len() == 5 && precedes(whole, "86400"@)) || number == "86400"@
    }
}

/// The retry delay that an error names, in seconds.
pub open spec fn retry_seconds(native: Tree) -> Option<Seq<char>> {
    match native.at("error"@).at("details"@).items() {
        Some(details) => match retry_info(details, 0) {
            Some(info) => match info.at("retryDelay"@).text() {
                Some(delay) => match ahead(delay, "s"@) {
                    Some(number) => match decimal_value(number) {
                        Tree::Number(NumberView::Float(shown)) => if within_a_day(shown) {
                            Some(shown)
                        } else {
                            None
                        },
                        _ => None,
                    },
                    None => None,
                },
                None => None,
            },
            None => None,
        },
        None => None,
    }
}

fn is_within_a_day(number: &str) -> (r: bool)
    ensures
        r == within_a_day(number@),
{
    if crate::text::starts_with(number, "-") {
        return same(number, "-0");
    }
    let whole: &str = match split_once(number, '.') {
        Some((front, _)) => front,
        None => number,
    };
    let length: usize = whole.unicode_len();
    length < 5 || (length == 5 && less(whole, "86400")) || same(number, "86400")
}

fn find_retry_info(details: &Vec<Json>) -> (r: Option<&Json>)
    ensures
        r.deep_view() == retry_info(trees(details@), 0),
{
    let mut i: usize = 0;
    while i < details.len()
        invariant
            i <= details.len(),
            retry_info(trees(details@), 0) == retry_info(trees(details@), i as int),
        decreases details.len() - i,
    {
        if details[i].at("@type").is("type.googleapis.com/google.rpc.RetryInfo") {
            return Some(&details[i]);
        }
        i += 1;
    }
    None
}

fn find_retry_seconds(native: &Json) -> (r: Option<String>)
    ensures
        r.deep_view() == retry_seconds(native@),
{
    let details = match native.at("error").at("details").as_array() {
        Some(details) => details,
        None => return None,
    };
    let info = match find_retry_info(details) {
        Some(info) => info,
        None => return None,
    };
    let delay = match info.at("retryDelay").as_str() {
        Some(delay) => delay,
        None => return None,
    };
    let number = match strip_suffix(delay, "s") {
        Some(number) => number,
        None => return None,
    };
    match decimal_json(number) {
        Json::Number(Number::Float(shown)) => if is_within_a_day(shown.as_str()) {
            Some(shown)
        } else {
            None
        },
        _ => None,
    }
}

/// The HTTP status of an error: the one given, else the one that it names.
pub open spec fn http_status_of(native: Tree, given: Option<u16>) -> Option<u16> {
    match given {
        Some(n) => Some(n),
        None => match native.at("error"@).at("code"@).natural() {
            Some(n) => if n <= u16::MAX {
                Some(n as u16)
            } else {
                None
            },
            None => None,
        },
    }
}

/// The message of an error.
pub open spec fn message_of(native: Tree, code: Seq<char>) -> Seq<char> {
    let message = match native.at("error"@).at("message"@).text() {
        Some(text) => text,
        None => "Gemini request failed"@,
    };
    match retry_seconds(native) {
        Some(seconds) => if code == "rate_limit_exceeded"@ {
            message + (" Please try again in "@ + seconds + "s."@)
        } else {
            message
        },
        None => message,
    }
}

/// An optional text as JSON.
pub open spec fn text_or_null(s: Option<Seq<char>>) -> Tree {
    match s {
        Some(text) => Tree::Text(text),
        None => Tree::Null,
    }
}

/// A native error as a Responses error: its tree, and whether a retry may succeed.
pub open spec fn native_error(native: Tree, given: Option<u16>) -> (Tree, bool) {
    let status = native.at("error"@).at("status"@).text();
    let http = http_status_of(native, given);
    let (kind, code, retryable) = class_of(status, http);
    (
        Tree::Object(Seq::empty()).with("type"@, Tree::Text(kind)).with(
            "code"@,
            Tree::Text(code),
        ).with("message"@, Tree::Text(message_of(native, code))).with("param"@, Tree::Null).with(
            "gemini_status"@,
            text_or_null(status),
        ).with(
            "gemini_http_status"@,
            match http {
                Some(n) => Tree::Number(NumberView::Unsigned(n as u64)),
                None => Tree::Null,
            },
        ),
        retryable,
    )
}

pub(crate) fn optional_text(s: Option<&str>) -> (r: Json)
    ensures
        r@ == text_or_null(s.deep_view()),
{
    match s {
        Some(text) => Json::text(text),
        None => Json::Null,
    }
}

impl ResponseError {
    /// The Responses error of a native error.
    pub fn from_native(native: &Json, http_status: Option<u16>) -> (r: ResponseError)
        ensures
            (r.error@, r.retryable) == native_error(native@, http_status),
    {
        let error = native.at("error");
        let status = error.at("status").as_str();
        let http: Option<u16> = match http_status {
            Some(n) => Some(n),
            None => match error.at("code").as_u64() {
                Some(n) => if n <= u16::MAX as u64 {
                    Some(n as u16)
                } else {
                    None
                },
                None => None,
            },
        };
        let class = classify(status, http);
        let mut message = match error.at("message").as_str() {
            Some(text) => text.to_string(),
            None => "Gemini request failed".to_string(),
        };
        match find_retry_seconds(native) {
            Some(seconds) => {
                if same(class.code, "rate_limit_exceeded") {
                    // Codex's Responses SSE reader takes its delay from this wording.
                    let hint = join3(" Please try again in ", seconds.as_str(), "s.");
                    message.append(hint.as_str());
                }
            },
            None => {},
        }
        let shown = match http {
            Some(n) => Json::natural(n as u64),
            None => Json::Null,
        };
        let error = Json::object().with("type", Json::text(class.kind)).with(
            "code",
            Json::text(class.code),
        ).with("message", Json::String(message)).with("param", Json::Null).with(
            "gemini_status",
            optional_text(status),
        ).with("gemini_http_status", shown);
        ResponseError { error, retryable: class.retryable }
    }
}

} // verus!

//! Answers that the proxy gives by itself.

use vstd::prelude::*;
use crate::gemini::parts::empty_object;
use crate::tree::{json_views, Json, Tree};

verus! {

broadcast use json_views;

/// A refusal by the proxy: its status and its message.
#[derive(Debug)]
pub struct Refusal {
    pub status: u16,
    pub message: String,
}

/// The view of a refusal.
pub ghost struct Refused {
    pub status: u16,
    pub message: Seq<char>,
}

impl DeepView for Refusal {
    type V = Refused;

    open spec fn deep_view(&self) -> Refused {
        Refused { status: self.status, message: self.message@ }
    }
}

/// A refusal.
pub open spec fn refused(status: u16, message: Seq<char>) -> Refused {
    Refused { status, message }
}

/// A refusal with a message.
pub(crate) fn refuse(status: u16, message: &str) -> (r: Refusal)
    ensures
        r.deep_view() == refused(status, message@),
{
    Refusal { status, message: message.to_string() }
}

/// The body of an error of the proxy.
pub open spec fn error_tree(message: Seq<char>) -> Tree {
    empty_object().with(
        "error"@,
        empty_object().with("message"@, Tree::Text(message)).with(
            "type"@,
            Tree::Text("proxy_error"@),
        ),
    )
}

/// The body of an error of the proxy.
pub fn error_body(message: &str) -> (r: Json)
    ensures
        r@ == error_tree(message@),
{
    Json::object().with(
        "error",
        Json::object().with("message", Json::text(message)).with("type", Json::text("proxy_error")),
    )
}

/// The body of an error that clients retry, with the proxy's own code.
pub open spec fn server_error_tree(message: Seq<char>, proxy_code: Seq<char>) -> Tree {
    empty_object().with(
        "error"@,
        empty_object().with("type"@, Tree::Text("server_error"@)).with(
            "code"@,
            Tree::Text("server_error"@),
        ).with("message"@, Tree::Text(message)).with("proxy_code"@, Tree::Text(proxy_code)),
    )
}

/// The body of the answer where the time for recovery ran out.
pub fn timeout_body() -> (r: Json)
    ensures
        r@ == server_error_tree(
            "hey-proxy internal recovery time budget exhausted before a response could be forwarded; retry the request."@,
            "proxy_recovery_timeout"@,
        ),
{
    Json::object().with(
        "error",
        Json::object().with("type", Json::text("server_error")).with(
            "code",
            Json::text("server_error"),
        ).with(
            "message",
            Json::text(
                "hey-proxy internal recovery time budget exhausted before a response could be forwarded; retry the request.",
            ),
        ).with("proxy_code", Json::text("proxy_recovery_timeout")),
    )
}

/// The body of the answer where a request must come over HTTP.
pub open spec fn upgrade_tree() -> Tree {
    empty_object().with(
        "error"@,
        empty_object().with("type"@, Tree::Text("invalid_request_error"@)).with(
            "code"@,
            Tree::Text("websocket_not_supported"@),
        ).with(
            "message"@,
            Tree::Text("Configured model fallbacks require HTTP/SSE Responses requests"@),
        ),
    )
}

/// The body of the answer where a request must come over HTTP.
pub fn upgrade_body() -> (r: Json)
    ensures
        r@ == upgrade_tree(),
{
    Json::object().with(
        "error",
        Json::object().with("type", Json::text("invalid_request_error")).with(
            "code",
            Json::text("websocket_not_supported"),
        ).with(
            "message",
            Json::text("Configured model fallbacks require HTTP/SSE Responses requests"),
        ),
    )
}

/// The body of a failure on the way to Gemini.
pub open spec fn transport_tree(message: Seq<char>, proxy_code: Seq<char>) -> Tree {
    empty_object().with(
        "error"@,
        empty_object().with("type"@, Tree::Text("server_error"@)).with(
            "code"@,
            Tree::Text("server_error"@),
        ).with("message"@, Tree::Text(message)).with("param"@, Tree::Null).with(
            "proxy_code"@,
            Tree::Text(proxy_code),
        ),
    )
}

/// The body of a failure on the way to Gemini.
pub fn transport_body(message: &str, proxy_code: &str) -> (r: Json)
    ensures
        r@ == transport_tree(message@, proxy_code@),
{
    Json::object().with(
        "error",
        Json::object().with("type", Json::text("server_error")).with(
            "code",
            Json::text("server_error"),
        ).with("message", Json::text(message)).with("param", Json::Null).with(
            "proxy_code",
            Json::text(proxy_code),
        ),
    )
}

} // verus!

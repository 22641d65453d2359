//! A Responses request that Gemini answers: what is accepted, and what becomes of each
//! reply.

use vstd::prelude::*;
use crate::answers::{refuse, refused, Refusal, Refused};
use crate::config::Config;
use crate::exchange::{parse, parsed};
use crate::gemini::error::{native_error, ResponseError};
use crate::gemini::parts::empty_object;
use crate::gemini::provider::{Auth, ProviderConfig};
use crate::gemini::replay::ReasoningCodec;
use crate::gemini::request::{converted, convert_request, Converted, ConvertedRequest};
use crate::gemini::response::{convert_response_at, converted_response};
use crate::text::{same, trim_end, trimmed_end};
use crate::tree::{json_views, Json, Tree};

verus! {

broadcast use json_views;

/// What is known of a request for Gemini beside its body.
pub struct Arrival<'a> {
    pub post: bool,
    pub path: &'a str,
    pub has_query: bool,
}

/// What a request for Gemini is converted to, or why it is refused.
pub open spec fn arrived(
    post: bool,
    path: Seq<char>,
    has_query: bool,
    provider: Option<ProviderConfig>,
    request: Tree,
    key: Seq<u8>,
) -> Result<Converted, Refused> {
    if !post || trimmed_end(path, '/') != "/v1/responses"@ || has_query {
        Err(
            refused(400, "Gemini routes require POST /v1/responses without query parameters"@),
        )
    } else {
        match provider {
            None => Err(
                refused(400, "Configure gemini before using a gemini/model_name override"@),
            ),
            Some(provider) => match converted(
                request,
                provider.upstream_url@,
                provider.thinking,
                key,
            ) {
                Ok(conversion) => Ok(conversion),
                Err(message) => Err(refused(400, message)),
            },
        }
    }
}

/// Converts a request for Gemini.
pub fn arrive(arrival: &Arrival<'_>, config: &Config, request: &Json, codec: &ReasoningCodec) -> (r:
    Result<ConvertedRequest, Refusal>)
    ensures
        match r {
            Ok(done) => arrived(
                arrival.post,
                arrival.path@,
                arrival.has_query,
                config.gemini,
                request@,
                codec.key@,
            ) == Ok::<Converted, Refused>(done.deep_view()),
            Err(refusal) => arrived(
                arrival.post,
                arrival.path@,
                arrival.has_query,
                config.gemini,
                request@,
                codec.key@,
            ) == Err::<Converted, Refused>(refusal.deep_view()),
        },
{
    if !arrival.post || !same(trim_end(arrival.path, '/'), "/v1/responses") || arrival.has_query {
        return Err(
            refuse(400, "Gemini routes require POST /v1/responses without query parameters"),
        );
    }
    let provider = match &config.gemini {
        Some(provider) => provider,
        None => return Err(
            refuse(400, "Configure gemini before using a gemini/model_name override"),
        ),
    };
    match convert_request(request, provider, codec) {
        Ok(done) => Ok(done),
        Err(error) => Err(Refusal { status: 400, message: error.message }),
    }
}

/// Where the provider's credential comes from.
pub enum Credential {
    /// Google's own library finds it.
    Default,
    /// A source gives a bearer token.
    Bearer(String),
    /// A source gives an API key.
    Key(String),
}

/// The view of where a credential comes from.
pub ghost enum CredentialView {
    Default,
    Bearer(Seq<char>),
    Key(Seq<char>),
}

impl DeepView for Credential {
    type V = CredentialView;

    open spec fn deep_view(&self) -> CredentialView {
        match *self {
            Credential::Default => CredentialView::Default,
            Credential::Bearer(source) => CredentialView::Bearer(source@),
            Credential::Key(source) => CredentialView::Key(source@),
        }
    }
}

/// Where the provider's credential comes from.
pub open spec fn credential_of(config: ProviderConfig) -> CredentialView {
    let own = match config.api_key {
        Some(key) => key@,
        None => ""@,
    };
    match config.auth {
        Auth::Adc => CredentialView::Default,
        Auth::GcloudAdc => CredentialView::Bearer(
            "sh://gcloud auth application-default print-access-token"@,
        ),
        Auth::ApiKey => CredentialView::Key(own),
        Auth::Bearer => CredentialView::Bearer(own),
    }
}

/// Where the provider's credential comes from.
pub fn credential(config: &ProviderConfig) -> (r: Credential)
    ensures
        r.deep_view() == credential_of(*config),
{
    let own = match &config.api_key {
        Some(key) => key.clone(),
        None => "".to_string(),
    };
    match config.auth {
        Auth::Adc => Credential::Default,
        Auth::GcloudAdc => Credential::Bearer(
            "sh://gcloud auth application-default print-access-token".to_string(),
        ),
        Auth::ApiKey => Credential::Key(own),
        Auth::Bearer => Credential::Bearer(own),
    }
}

/// How much is read of an error.
pub const MAX_ERROR: usize = 1048576;

/// Whether a chunk still fits.
pub fn fits(held: usize, chunk: usize, limit: usize) -> (r: bool)
    requires
        held <= limit,
    ensures
        r == (held + chunk <= limit),
{
    chunk <= limit - held
}

/// A native error as the client gets it.
pub struct NativeFailure {
    pub code: String,
    pub retryable: bool,
    pub body: Json,
}

/// What a native error holds.
pub open spec fn native_value(bytes: Seq<u8>) -> Tree {
    match parsed(bytes) {
        Ok(value) => value,
        Err(_) => Tree::Null,
    }
}

/// The code of a native error, for the record.
pub open spec fn native_code(native: Tree) -> Seq<char> {
    match native.at("error"@).at("status"@).text() {
        Some(code) => code,
        None => "gemini_http_error"@,
    }
}

/// A native error as the client gets it, given what it holds.
pub fn explain_failure(native: &Json, status: u16) -> (r: NativeFailure)
    ensures
        r.code@ == native_code(native@),
        r.retryable == native_error(native@, Some(status)).1,
        r.body@ == empty_object().with("error"@, native_error(native@, Some(status)).0).with(
            "gemini"@,
            native@,
        ),
{
    let code = match native.at("error").at("status").as_str() {
        Some(code) => code.to_string(),
        None => "gemini_http_error".to_string(),
    };
    let normalized = ResponseError::from_native(native, Some(status));
    NativeFailure {
        code,
        retryable: normalized.retryable,
        body: Json::object().with("error", normalized.error).with("gemini", native.copy()),
    }
}

/// Reads a native error.
pub fn read_failure(bytes: &[u8], status: u16) -> (r: NativeFailure)
    ensures
        r.code@ == native_code(native_value(bytes@)),
        r.retryable == native_error(native_value(bytes@), Some(status)).1,
        r.body@ == empty_object().with(
            "error"@,
            native_error(native_value(bytes@), Some(status)).0,
        ).with("gemini"@, native_value(bytes@)),
{
    let native = match parse(bytes) {
        Ok(value) => value,
        Err(_) => Json::Null,
    };
    explain_failure(&native, status)
}

/// A reply that could not be used: what the client is told, and the proxy's own code.
#[derive(Debug)]
pub struct BadReply {
    pub message: String,
    pub proxy_code: &'static str,
}

/// The response that a native reply is converted to, or what the client is told and the
/// proxy's own code.
pub open spec fn reply_read(
    bytes: Seq<u8>,
    request: Converted,
    key: Seq<u8>,
    id: Seq<char>,
    created_at: u64,
    nonce: Seq<u8>,
) -> Result<Tree, (Seq<char>, Seq<char>)> {
    match parsed(bytes) {
        Err(_) => Err(
            ("Invalid Gemini JSON response; retry the request"@, "gemini_response_read_failed"@),
        ),
        Ok(native) => match converted_response(native, request, key, id, created_at, nonce) {
            Ok(response) => Ok(response),
            Err(message) => Err((message, "gemini_conversion_error"@)),
        },
    }
}

/// The view of a reply.
pub open spec fn reply_view(r: Result<Json, BadReply>) -> Result<Tree, (Seq<char>, Seq<char>)> {
    match r {
        Ok(value) => Ok(value@),
        Err(bad) => Err((bad.message@, bad.proxy_code@)),
    }
}

/// Converts a native reply, at a given time and with a given nonce.
pub fn read_reply_at(
    bytes: &[u8],
    request: &ConvertedRequest,
    codec: &ReasoningCodec,
    id: &str,
    created_at: u64,
    nonce: &[u8; 12],
) -> (r: Result<Json, BadReply>)
    ensures
        reply_view(r) == reply_read(
            bytes@,
            request.deep_view(),
            codec.key@,
            id@,
            created_at,
            nonce@,
        ),
{
    let native = match parse(bytes) {
        Ok(value) => value,
        Err(_) => return Err(
            BadReply {
                message: "Invalid Gemini JSON response; retry the request".to_string(),
                proxy_code: "gemini_response_read_failed",
            },
        ),
    };
    match convert_response_at(&native, request, codec, id, created_at, nonce) {
        Ok(response) => Ok(response),
        Err(error) => Err(
            BadReply { message: error.message, proxy_code: "gemini_conversion_error" },
        ),
    }
}

/// Converts a native reply.
pub fn read_reply(bytes: &[u8], request: &ConvertedRequest, codec: &ReasoningCodec, id: &str) -> (r: Result<
    Json,
    BadReply,
>)
    ensures
        exists|created_at: u64, nonce: Seq<u8>|
            nonce.len() == 12 && reply_view(r) == #[trigger] reply_read(
                bytes@,
                request.deep_view(),
                codec.key@,
                id@,
                created_at,
                nonce,
            ),
{
    let created_at = crate::outside::now_seconds();
    let nonce = crate::outside::fresh_nonce();
    let r = read_reply_at(bytes, request, codec, id, created_at, &nonce);
    proof {
        assert(nonce@.len() == 12);
    }
    r
}

} // verus!

//! The configuration of the Gemini provider.

use vstd::prelude::*;
use crate::config::{is_plain_url, plain_url};
use crate::credentials::{source_check, validate_source};
use crate::error::{both, ensure, ensured, outcome, Error};
use crate::outside::{parse_url, url_parsed};
use crate::text::{
    after, alphanumeric, chars_of, is_alphanumeric, join5, strip_prefix, trim_end, trimmed_end,
};

verus! {

/// How the provider authenticates.
#[derive(Clone, Copy, Debug, PartialEq, Eq, Structural)]
pub enum Auth {
    ApiKey,
    Bearer,
    Adc,
    GcloudAdc,
}

/// How the provider is told to think.
#[derive(Clone, Copy, Debug, PartialEq, Eq, Structural)]
pub enum Thinking {
    Auto,
    Budget,
    Level,
}

/// How the provider is reached.
#[derive(Clone)]
pub struct ProviderConfig {
    pub upstream_url: String,
    pub auth: Auth,
    pub api_key: Option<String>,
    /// Unknown models default to budgets; select levels if the model requires them.
    pub thinking: Thinking,
    pub credential_cache_seconds: u64,
}

/// How long credentials are kept unless configured otherwise.
pub fn default_cache_seconds() -> (r: u64)
    ensures
        r == 2400,
{
    2400
}

/// Where the provider is reached unless configured otherwise.
pub fn default_url() -> (r: String)
    ensures
        r@ == "https://generativelanguage.googleapis.com/v1beta"@,
{
    "https://generativelanguage.googleapis.com/v1beta".to_string()
}

impl Default for Auth {
    fn default() -> (r: Auth)
        ensures
            r == Auth::ApiKey,
    {
        Auth::ApiKey
    }
}

impl Default for Thinking {
    fn default() -> (r: Thinking)
        ensures
            r == Thinking::Auto,
    {
        Thinking::Auto
    }
}

/// The model's name without the prefix under which the API lists it.
pub open spec fn bare_model(model: Seq<char>) -> Seq<char> {
    match after(model, "models/"@) {
        Some(rest) => rest,
        None => model,
    }
}

/// A character that may stand in a model's name.
pub open spec fn model_char(c: char) -> bool {
    alphanumeric(c) || c == '-' || c == '_' || c == '.'
}

/// A name that can stand in the path of an endpoint.
pub open spec fn model_name(model: Seq<char>) -> bool {
    model.len() > 0 && forall|i: int| 0 <= i < model.len() ==> model_char(#[trigger] model[i])
}

/// The endpoint that generates content with a model.
pub open spec fn endpoint_of(url: Seq<char>, model: Seq<char>, stream: bool) -> Result<
    Seq<char>,
    Seq<char>,
> {
    let model = bare_model(model);
    if model_name(model) {
        Ok(
            trimmed_end(url, '/') + "/models/"@ + model + ":"@ + (if stream {
                "streamGenerateContent?alt=sse"@
            } else {
                "generateContent"@
            }),
        )
    } else {
        Err("Invalid Gemini model name"@)
    }
}

fn is_model_name(model: &str) -> (r: bool)
    ensures
        r == model_name(model@),
{
    let chars = chars_of(model);
    if chars.len() == 0 {
        return false;
    }
    let mut i: usize = 0;
    while i < chars.len()
        invariant
            i <= chars.len(),
            chars@ == model@,
            forall|k: int| 0 <= k < i ==> model_char(#[trigger] model@[k]),
        decreases chars.len() - i,
    {
        let c = chars[i];
        if !(is_alphanumeric(c) || c == '-' || c == '_' || c == '.') {
            assert(!model_char(model@[i as int]));
            return false;
        }
        i += 1;
    }
    true
}

impl ProviderConfig {
    /// The endpoint that generates content with a model, streaming or not.
    pub fn endpoint(&self, model: &str, stream: bool) -> (r: Result<String, Error>)
        ensures
            outcome(r) == endpoint_of(self.upstream_url@, model@, stream),
    {
        let model = match strip_prefix(model, "models/") {
            Some(rest) => rest,
            None => model,
        };
        if !is_model_name(model) {
            return Err(Error::new("Invalid Gemini model name"));
        }
        let method = if stream {
            "streamGenerateContent?alt=sse"
        } else {
            "generateContent"
        };
        Ok(join5(trim_end(self.upstream_url.as_str(), '/'), "/models/", model, ":", method))
    }
}

/// The check of a provider's configuration.
pub open spec fn provider_check(config: ProviderConfig) -> Result<(), Seq<char>> {
    match url_parsed(config.upstream_url@) {
        Err(message) => Err(message),
        Ok(url) => both(
            ensured(
                plain_url(url),
                "gemini.upstream_url must be an HTTP(S) API root without credentials, query or fragment"@,
            ),
            both(
                ensured(
                    1 <= config.credential_cache_seconds <= 86400,
                    "credential_cache_seconds must be 1..86400"@,
                ),
                if config.auth == Auth::Adc || config.auth == Auth::GcloudAdc {
                    ensured(
                        config.api_key is None,
                        "gcloud_adc obtains its own credentials; omit gemini.api_key"@,
                    )
                } else {
                    ensured(
                        source_check(
                            match config.api_key {
                                Some(key) => key@,
                                None => ""@,
                            },
                        ) is Ok,
                        "gemini.api_key must contain a valid API key or OAuth access token"@,
                    )
                },
            ),
        ),
    }
}

impl ProviderConfig {
    /// Checks the configuration.
    pub fn validate(&self) -> (r: Result<(), Error>)
        ensures
            outcome(r) == provider_check(*self),
    {
        let url = parse_url(self.upstream_url.as_str())?;
        ensure(
            is_plain_url(&url),
            "gemini.upstream_url must be an HTTP(S) API root without credentials, query or fragment",
        )?;
        ensure(
            1 <= self.credential_cache_seconds && self.credential_cache_seconds <= 86400,
            "credential_cache_seconds must be 1..86400",
        )?;
        if self.auth == Auth::Adc || self.auth == Auth::GcloudAdc {
            ensure(
                self.api_key.is_none(),
                "gcloud_adc obtains its own credentials; omit gemini.api_key",
            )
        } else {
            let key = match &self.api_key {
                Some(key) => key.as_str(),
                None => "",
            };
            ensure(
                validate_source(key).is_ok(),
                "gemini.api_key must contain a valid API key or OAuth access token",
            )
        }
    }
}

} // verus!

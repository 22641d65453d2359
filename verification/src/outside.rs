//! Cryptography, encodings and schemas, as other crates compute them.

use vstd::prelude::*;
use crate::error::{failure, outcome, success, Error};
use crate::exchange::{contents, settled, to_value};
use crate::tree::{Json, Tree};
use aes_gcm_siv::aead::{Aead, Payload};
use aes_gcm_siv::{Aes256GcmSiv, KeyInit, Nonce};
use base64::engine::general_purpose::{STANDARD, URL_SAFE_NO_PAD};
use base64::Engine;
use rand::TryRngCore;
use vstd::utf8::{encode_utf8, valid_utf8};
use sha2::{Digest, Sha256};

verus! {

/// The bytes that standard base64 text encodes, or the message of the refusal.
pub uninterp spec fn standard_decoded(text: Seq<char>) -> Result<Seq<u8>, Seq<char>>;

/// The bytes that unpadded URL-safe base64 text encodes, or the message of the
/// refusal.
pub uninterp spec fn url_safe_decoded(text: Seq<char>) -> Result<Seq<u8>, Seq<char>>;

/// The unpadded URL-safe base64 text of bytes.
pub uninterp spec fn url_safe_encoded(bytes: Seq<u8>) -> Seq<char>;

/// The SHA-256 digest of bytes.
pub uninterp spec fn sha256(bytes: Seq<u8>) -> Seq<u8>;

/// AES-256-GCM-SIV encryption under a key and a nonce, with associated data.
pub uninterp spec fn sealed(
    key: Seq<u8>,
    nonce: Seq<u8>,
    associated: Seq<u8>,
    message: Seq<u8>,
) -> Option<Seq<u8>>;

/// AES-256-GCM-SIV decryption under a key and a nonce, with associated data.
pub uninterp spec fn unsealed(
    key: Seq<u8>,
    nonce: Seq<u8>,
    associated: Seq<u8>,
    message: Seq<u8>,
) -> Option<Seq<u8>>;

/// Whether a strict validator can be built from a JSON schema.
pub uninterp spec fn schema_builds(schema: Tree) -> bool;

/// Whether a value satisfies a JSON schema from which a strict validator can be
/// built.
pub uninterp spec fn schema_accepts(schema: Tree, instance: Tree) -> bool;

/// The standard engine's `decode`: the bytes, or the error's message.
#[verifier::external_body]
pub(crate) fn decode_standard(text: &str) -> (r: Result<Vec<u8>, Error>)
    ensures
        match r {
            Ok(bytes) => standard_decoded(text@) == success(bytes@),
            Err(error) => standard_decoded(text@) == failure::<Seq<u8>>(error.message@),
        },
{
    STANDARD.decode(text).map_err(|error| Error { message: error.to_string() })
}

/// The URL-safe engine's `decode`: the bytes, or the error's message.
#[verifier::external_body]
pub(crate) fn decode_url_safe(text: &str) -> (r: Result<Vec<u8>, Error>)
    ensures
        match r {
            Ok(bytes) => url_safe_decoded(text@) == success(bytes@),
            Err(error) => url_safe_decoded(text@) == failure::<Seq<u8>>(error.message@),
        },
{
    URL_SAFE_NO_PAD.decode(text).map_err(|error| Error { message: error.to_string() })
}

/// The URL-safe engine's `encode`: text from which its `decode` gives back the
/// bytes.
#[verifier::external_body]
pub(crate) fn encode_url_safe(bytes: &[u8]) -> (r: String)
    ensures
        r@ == url_safe_encoded(bytes@),
        url_safe_decoded(r@) == success(bytes@),
{
    URL_SAFE_NO_PAD.encode(bytes)
}

/// `Sha256::digest`: the 32 bytes of the digest.
#[verifier::external_body]
pub(crate) fn digest(bytes: &[u8]) -> (r: [u8; 32])
    ensures
        r@ == sha256(bytes@),
{
    Sha256::digest(bytes).into()
}

/// `Aes256GcmSiv`'s `encrypt`: a ciphertext with its tag, which `decrypt` under the
/// same key, nonce and associated data turns back into the message; nothing where
/// the message or the associated data is too long for the cipher. The ciphertext is
/// as long as the message and the tag of 16 bytes.
#[verifier::external_body]
pub(crate) fn encrypt(key: &[u8; 32], nonce: &[u8; 12], associated: &[u8], message: &[u8]) -> (r:
    Option<Vec<u8>>)
    ensures
        match r {
            Some(bytes) => sealed(key@, nonce@, associated@, message@) == Some(bytes@) && bytes@.len()
                == message@.len() + 16 && unsealed(key@, nonce@, associated@, bytes@) == Some(
                message@,
            ),
            None => sealed(key@, nonce@, associated@, message@) is None && (message@.len()
                > 0x1000000000 || associated@.len() > 0x1000000000),
        },
{
    let cipher = Aes256GcmSiv::new(key.into());
    cipher.encrypt(Nonce::from_slice(nonce), Payload { msg: message, aad: associated }).ok()
}

/// `Aes256GcmSiv`'s `decrypt`: the message, where the tag fits it. The message is as long as
/// the ciphertext without its tag of 16 bytes. That no ciphertext but one from `encrypt` has a
/// tag that fits rests on the strength of the cipher; nothing is claimed of it.
#[verifier::external_body]
pub(crate) fn decrypt(key: &[u8; 32], nonce: &[u8; 12], associated: &[u8], message: &[u8]) -> (r:
    Option<Vec<u8>>)
    ensures
        match r {
            Some(bytes) => unsealed(key@, nonce@, associated@, message@) == Some(bytes@)
                && bytes@.len() + 16 == message@.len(),
            None => unsealed(key@, nonce@, associated@, message@) is None,
        },
{
    let cipher = Aes256GcmSiv::new(key.into());
    cipher.decrypt(Nonce::from_slice(nonce), Payload { msg: message, aad: associated }).ok()
}

/// What `url::Url` holds of a URL.
pub struct UrlParts {
    pub scheme: String,
    pub host: Option<String>,
    pub username: String,
    pub password: Option<String>,
    pub path: String,
    pub query: Option<String>,
    pub fragment: Option<String>,
}

/// The view of a URL.
pub ghost struct UrlView {
    pub scheme: Seq<char>,
    pub host: Option<Seq<char>>,
    pub username: Seq<char>,
    pub password: Option<Seq<char>>,
    pub path: Seq<char>,
    pub query: Option<Seq<char>>,
    pub fragment: Option<Seq<char>>,
}

impl DeepView for UrlParts {
    type V = UrlView;

    open spec fn deep_view(&self) -> UrlView {
        UrlView {
            scheme: self.scheme@,
            host: self.host.deep_view(),
            username: self.username@,
            password: self.password.deep_view(),
            path: self.path@,
            query: self.query.deep_view(),
            fragment: self.fragment.deep_view(),
        }
    }
}

/// What `url::Url::parse` reads from a text, or its error's message.
pub uninterp spec fn url_parsed(text: Seq<char>) -> Result<UrlView, Seq<char>>;

/// `reqwest::Url::parse`, which is `url::Url::parse`: the parts of the URL, or the
/// error's message.
#[verifier::external_body]
pub(crate) fn parse_url(text: &str) -> (r: Result<UrlParts, Error>)
    ensures
        outcome(r) == url_parsed(text@),
{
    match reqwest::Url::parse(text) {
        Ok(url) => Ok(UrlParts {
            scheme: url.scheme().to_string(),
            host: url.host_str().map(str::to_string),
            username: url.username().to_string(),
            password: url.password().map(str::to_string),
            path: url.path().to_string(),
            query: url.query().map(str::to_string),
            fragment: url.fragment().map(str::to_string),
        }),
        Err(error) => Err(Error { message: error.to_string() }),
    }
}

/// The boundary that `multer::parse_boundary` finds in a content type, or its error's message.
pub uninterp spec fn boundary_named(content_type: Seq<char>) -> Result<Seq<char>, Seq<char>>;

/// `multer::parse_boundary`: the boundary that the content type of a form names, or the
/// error's message.
#[verifier::external_body]
pub(crate) fn read_boundary(content_type: &str) -> (r: Result<String, Error>)
    ensures
        outcome(r) == boundary_named(content_type@),
{
    multer::parse_boundary(content_type).map_err(|error| Error { message: error.to_string() })
}

/// A byte that may stand in an HTTP header value.
pub open spec fn header_byte(b: u8) -> bool {
    (b >= 32 && b != 127) || b == 9
}

/// A text that can be an HTTP header value.
pub open spec fn header_text(text: Seq<char>) -> bool {
    forall|i: int|
        0 <= i < encode_utf8(text).len() ==> header_byte(#[trigger] encode_utf8(text)[i])
}

/// `HeaderValue::from_str`: whether it takes the text, which it does where no byte is a
/// control character other than a tab.
#[verifier::external_body]
pub(crate) fn is_header_text(text: &str) -> (r: bool)
    ensures
        r == header_text(text@),
{
    reqwest::header::HeaderValue::from_str(text).is_ok()
}

/// `rand::rngs::OsRng`'s `try_fill_bytes`: 32 random bytes, where the system has them.
#[verifier::external_body]
pub(crate) fn secret_bytes() -> (r: Option<[u8; 32]>)
{
    let mut bytes = [0u8; 32];
    rand::rngs::OsRng.try_fill_bytes(&mut bytes).ok().map(|_| bytes)
}

/// `rand::random`: twelve random bytes.
#[verifier::external_body]
pub(crate) fn fresh_nonce() -> (r: [u8; 12])
{
    rand::random()
}

/// `rand::random`: sixteen random bytes.
#[verifier::external_body]
pub(crate) fn fresh_id() -> (r: [u8; 16])
{
    rand::random()
}

/// `std::time::SystemTime::now`: the seconds since the Unix epoch.
#[verifier::external_body]
pub(crate) fn now_seconds() -> (r: u64)
{
    std::time::SystemTime::now().duration_since(std::time::UNIX_EPOCH).unwrap_or_default().as_secs()
}

/// `jsonschema`'s `build`, with formats validated and unknown formats refused:
/// whether it gives a validator.
#[verifier::external_body]
fn build_schema(schema: &serde_json::Value) -> (r: bool)
    ensures
        r == schema_builds(contents(*schema)),
{
    jsonschema::options()
        .should_validate_formats(true)
        .should_ignore_unknown_formats(false)
        .build(schema)
        .is_ok()
}

/// `jsonschema`'s `is_valid`, on the validator that `build` gives.
#[verifier::external_body]
fn apply_schema(schema: &serde_json::Value, instance: &serde_json::Value) -> (r: bool)
    ensures
        r == schema_accepts(contents(*schema), contents(*instance)),
{
    jsonschema::options()
        .should_validate_formats(true)
        .should_ignore_unknown_formats(false)
        .build(schema)
        .is_ok_and(|validator| validator.is_valid(instance))
}

/// Whether a strict validator can be built from a schema.
pub(crate) fn schema_is_usable(schema: &Json) -> (r: bool)
    ensures
        r == schema_builds(settled(schema@)),
{
    build_schema(&to_value(schema))
}

/// Whether a value satisfies a schema.
pub(crate) fn schema_admits(schema: &Json, instance: &Json) -> (r: bool)
    ensures
        r == schema_accepts(settled(schema@), settled(instance@)),
{
    apply_schema(&to_value(schema), &to_value(instance))
}

/// The text that percent-encoded text stands for; malformed UTF-8 is replaced.
pub uninterp spec fn percent_decoded(text: Seq<char>) -> Seq<char>;

/// `percent_decode_str` and its `decode_utf8_lossy`.
#[verifier::external_body]
pub(crate) fn percent_decode(text: &str) -> (r: String)
    ensures
        r@ == percent_decoded(text@),
{
    percent_encoding::percent_decode_str(text).decode_utf8_lossy().into_owned()
}

/// An uppercase hexadecimal digit.
pub open spec fn upper_digit(n: u8) -> char {
    if n < 10 {
        (48 + n) as u8 as char
    } else {
        (55 + n) as u8 as char
    }
}

/// Bytes with each that is no ASCII letter or digit as a percent sign and two digits.
pub open spec fn percent_encoded(bytes: Seq<u8>) -> Seq<char>
    decreases bytes.len(),
{
    if bytes.len() == 0 {
        Seq::empty()
    } else {
        let last = bytes.last();
        let front = percent_encoded(bytes.drop_last());
        if (48 <= last <= 57) || (65 <= last <= 90) || (97 <= last <= 122) {
            front.push(last as char)
        } else {
            front.push('%').push(upper_digit(last / 16)).push(upper_digit(last % 16))
        }
    }
}

/// `utf8_percent_encode` with `NON_ALPHANUMERIC`: every byte that is no ASCII letter or
/// digit becomes a percent sign and two uppercase hexadecimal digits.
#[verifier::external_body]
pub(crate) fn percent_encode(text: &str) -> (r: String)
    ensures
        r@ == percent_encoded(encode_utf8(text@)),
{
    percent_encoding::utf8_percent_encode(text, percent_encoding::NON_ALPHANUMERIC).to_string()
}

/// The pairs of a form-encoded query.
pub uninterp spec fn form_parsed(query: Seq<char>) -> Seq<(Seq<char>, Seq<char>)>;

/// The form encoding of pairs.
pub uninterp spec fn form_written(pairs: Seq<(Seq<char>, Seq<char>)>) -> Seq<char>;

/// The views of pairs.
pub open spec fn pair_views(pairs: Seq<(String, String)>) -> Seq<(Seq<char>, Seq<char>)> {
    Seq::new(pairs.len(), |i: int| (pairs[i].0@, pairs[i].1@))
}

/// `form_urlencoded::parse`: the pairs of a query, in order.
#[verifier::external_body]
pub(crate) fn parse_form(query: &str) -> (r: Vec<(String, String)>)
    ensures
        pair_views(r@) == form_parsed(query@),
{
    url::form_urlencoded::parse(query.as_bytes()).into_owned().collect()
}

/// `form_urlencoded::Serializer`: the encoding of pairs, in order.
#[verifier::external_body]
pub(crate) fn write_form(pairs: &Vec<(String, String)>) -> (r: String)
    ensures
        r@ == form_written(pair_views(pairs@)),
{
    url::form_urlencoded::Serializer::new(String::new()).extend_pairs(pairs).finish()
}

/// The seconds since the Unix epoch that an HTTP date names.
pub uninterp spec fn http_date(text: Seq<char>) -> Option<u64>;

/// `httpdate::parse_http_date`, which takes no date before the epoch.
#[verifier::external_body]
pub(crate) fn read_http_date(text: &str) -> (r: Option<u64>)
    ensures
        r == http_date(text@),
{
    let when = httpdate::parse_http_date(text).ok()?;
    when.duration_since(std::time::UNIX_EPOCH).ok().map(|since| since.as_secs())
}

/// `rand::random_range`: a number up to and with the bound.
#[verifier::external_body]
pub(crate) fn random_up_to(bound: u64) -> (r: u64)
    ensures
        r <= bound,
{
    rand::random_range(0..=bound)
}

/// `std::time::SystemTime::now`: the milliseconds since the Unix epoch.
#[verifier::external_body]
pub(crate) fn clock_ms() -> (r: u64)
{
    std::time::SystemTime::now().duration_since(std::time::UNIX_EPOCH).unwrap_or_default().as_millis() as u64
}

/// `std::time::SystemTime::now`: the nanoseconds since the Unix epoch.
#[verifier::external_body]
pub(crate) fn clock_ns() -> (r: u128)
{
    std::time::SystemTime::now().duration_since(std::time::UNIX_EPOCH).unwrap_or_default().as_nanos()
}

/// A moment on a clock that never goes back.
#[verifier::external_type_specification]
#[verifier::external_body]
pub struct ExInstant(std::time::Instant);

/// `std::time::Instant::elapsed`, in milliseconds.
#[verifier::external_body]
pub(crate) fn elapsed_ms(moment: &std::time::Instant) -> (r: u64)
{
    moment.elapsed().as_millis() as u64
}

/// `std::time::Instant::now`.
#[verifier::external_body]
pub(crate) fn this_moment() -> (r: std::time::Instant)
{
    std::time::Instant::now()
}

/// The text that bytes stand for, with malformed UTF-8 replaced.
pub uninterp spec fn lossy_text(bytes: Seq<u8>) -> Seq<char>;

/// `String::from_utf8_lossy`: text that is valid UTF-8 comes back as it is.
#[verifier::external_body]
pub(crate) fn read_lossy(bytes: &[u8]) -> (r: String)
    ensures
        r@ == lossy_text(bytes@),
        valid_utf8(bytes@) ==> encode_utf8(r@) == bytes@,
{
    String::from_utf8_lossy(bytes).into_owned()
}

/// A path with another extension.
pub uninterp spec fn extension_replaced(path: Seq<char>, extension: Seq<char>) -> Seq<char>;

/// `std::path::Path::with_extension`, on a path that is text. It panics on an extension
/// that holds a separator of paths.
#[verifier::external_body]
pub(crate) fn replace_extension(path: &str, extension: &str) -> (r: String)
    requires
        !extension@.contains('/'),
        !extension@.contains('\\'),
    ensures
        r@ == extension_replaced(path@, extension@),
{
    std::path::Path::new(path).with_extension(extension).to_string_lossy().into_owned()
}

} // verus!

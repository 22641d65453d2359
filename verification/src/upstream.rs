//! What the proxy makes of an upstream: headers, refusals, and failures to reach it.

use vstd::prelude::*;
use vstd::string::StringExecFns;
use vstd::utf8::encode_utf8;
use crate::capacity::{
    is_lasting_code, lasting_code, read_text, tells_capacity, capacity_message, text_at,
};
use crate::config::IpVersion;
use crate::exchange::{parse, parsed, to_text, written};
use crate::fallback::{body_value, read_body};
use crate::outside::{lossy_text, parse_url, read_lossy, url_parsed};
use crate::text::{
    after, contains, join2, join3, join5, lowered, occurs, pieces, same, split, starts_with,
    strip_prefix, texts, to_lower, trim, trim_end, trimmed, trimmed_end, white_end, is_white,
    chars_of, text_of,
};
use crate::tree::{json_views, Json, Tree};

verus! {

broadcast use json_views;

// ---- refusals -------------------------------------------------------------------------

/// Whether an upstream refuses for want of capacity, by its status and the start of its
/// body.
pub open spec fn refuses_capacity(status: u16, value: Tree, text: Seq<char>) -> bool {
    let error = value.at("error"@);
    if lasting_code(text_at(error, "code"@)) || lasting_code(text_at(error, "type"@)) {
        false
    } else {
        status == 429 || status == 503 || status == 529 || (status == 500 && tells_capacity(text))
    }
}

/// Whether an upstream refuses for want of capacity, given what its body holds.
pub fn is_capacity_refusal(status: u16, value: &Json, text: &str) -> (r: bool)
    ensures
        r == refuses_capacity(status, value@, text@),
{
    let error = value.at("error");
    if is_lasting_code(read_text(error, "code")) || is_lasting_code(read_text(error, "type")) {
        return false;
    }
    status == 429 || status == 503 || status == 529 || (status == 500 && capacity_message(text))
}

/// Whether an upstream refuses for want of capacity.
pub fn capacity_error(status: u16, prefix: &[u8]) -> (r: bool)
    ensures
        r == refuses_capacity(status, body_value(prefix@), lossy_text(prefix@)),
{
    let text = read_lossy(prefix);
    is_capacity_refusal(status, &read_body(prefix), text.as_str())
}

/// Whether an upstream rejects the address that a request comes from.
pub open spec fn rejects_address(status: u16, value: Tree, text: Seq<char>) -> bool {
    (status == 401 || status == 403) && (value.at("error"@).at("code"@) == Tree::Text(
        "ip_not_authorized"@,
    ) || occurs("ip is not authorized"@, lowered(text)))
}

/// Whether an upstream rejects the address that a request comes from, given what its body
/// holds.
pub fn is_address_rejection(status: u16, value: &Json, text: &str) -> (r: bool)
    ensures
        r == rejects_address(status, value@, text@),
{
    if status != 401 && status != 403 {
        return false;
    }
    let low = to_lower(text);
    value.at("error").at("code").is("ip_not_authorized") || contains(
        low.as_str(),
        "ip is not authorized",
    )
}

/// True when the upstream rejected the request because this machine's address is not
/// allowlisted.
pub fn ip_not_authorized(status: u16, prefix: &[u8]) -> (r: bool)
    ensures
        r == rejects_address(status, body_value(prefix@), lossy_text(prefix@)),
{
    let text = read_lossy(prefix);
    is_address_rejection(status, &read_body(prefix), text.as_str())
}

/// A text without white characters at its end.
pub open spec fn end_trimmed(s: Seq<char>) -> Seq<char> {
    s.subrange(0, white_end(s, 0, s.len() as int))
}

fn trim_white_end(s: &str) -> (r: String)
    ensures
        r@ == end_trimmed(s@),
{
    let chars = chars_of(s);
    let mut end: usize = chars.len();
    while 0 < end && is_white(chars[end - 1])
        invariant
            end <= chars.len(),
            chars@ == s@,
            white_end(s@, 0, s@.len() as int) == white_end(s@, 0, end as int),
        decreases end,
    {
        end -= 1;
    }
    text_of(&chars, 0, end)
}

/// The address family of a connection.
pub open spec fn family_name(ipv6: bool) -> Seq<char> {
    if ipv6 {
        "IPv6"@
    } else {
        "IPv4"@
    }
}

/// What the user can do about a rejected address.
pub open spec fn address_hint(ipv6: bool, version: IpVersion) -> Seq<char> {
    if ipv6 && version == IpVersion::Auto {
        " Allow that address, or set \"ip_version\": \"ipv4\" in the hey-proxy config to use your IPv4 address instead."@
    } else {
        " Allow that address on the upstream project."@
    }
}

/// The address as it is shown.
pub open spec fn shown_address(address: Option<Seq<char>>) -> Seq<char> {
    match address {
        Some(address) => address,
        None => "an unknown address (public IP lookup failed)"@,
    }
}

/// An error body with the facts of a rejected address in its message.
pub open spec fn annotated(
    value: Tree,
    ipv6: bool,
    version: IpVersion,
    address: Option<Seq<char>>,
) -> Option<Tree> {
    match value.at("error"@).at("message"@).text() {
        None => None,
        Some(text) => Some(
            value.with(
                "error"@,
                value.at("error"@).with(
                    "message"@,
                    Tree::Text(
                        end_trimmed(text) + " hey-proxy: this request reached the upstream over "@
                            + family_name(ipv6) + " from "@ + (shown_address(address) + "."@
                            + address_hint(ipv6, version)),
                    ),
                ),
            ),
        ),
    }
}

/// Adds the facts of a rejected address to the message of an error body, where it has one.
pub fn annotate(value: &Json, ipv6: bool, version: IpVersion, address: Option<&str>) -> (r: Option<
    Json,
>)
    ensures
        r.deep_view() == annotated(value@, ipv6, version, address.deep_view()),
{
    let error = value.at("error");
    let text = match error.at("message").as_str() {
        Some(text) => text,
        None => return None,
    };
    let shown = match address {
        Some(address) => address,
        None => "an unknown address (public IP lookup failed)",
    };
    let hint = if ipv6 && version == IpVersion::Auto {
        " Allow that address, or set \"ip_version\": \"ipv4\" in the hey-proxy config to use your IPv4 address instead."
    } else {
        " Allow that address on the upstream project."
    };
    let family = if ipv6 {
        "IPv6"
    } else {
        "IPv4"
    };
    let front = trim_white_end(text);
    let tail = join3(shown, ".", hint);
    let message = join5(
        front.as_str(),
        " hey-proxy: this request reached the upstream over ",
        family,
        " from ",
        tail.as_str(),
    );
    let inner = error.copy().with("message", Json::String(message));
    Some(value.copy().with("error", inner))
}

/// The body of a rejection with the facts of the address in its message, byte for byte as it
/// was where it has no such message.
pub open spec fn annotated_body(
    body: Seq<u8>,
    ipv6: bool,
    version: IpVersion,
    address: Option<Seq<char>>,
) -> Seq<u8> {
    match parsed(body) {
        Ok(value) => match annotated(value, ipv6, version, address) {
            Some(told) => encode_utf8(written(told)),
            None => body,
        },
        Err(_) => body,
    }
}

/// Adds the facts of a rejected address to the body of a rejection.
pub fn annotate_body(body: Vec<u8>, ipv6: bool, version: IpVersion, address: Option<&str>) -> (r: Vec<
    u8,
>)
    ensures
        r@ == annotated_body(body@, ipv6, version, address.deep_view()),
{
    match parse(body.as_slice()) {
        Ok(value) => match annotate(&value, ipv6, version, address) {
            Some(told) => to_text(&told).as_str().as_bytes_vec(),
            None => body,
        },
        Err(_) => body,
    }
}

/// Which statuses are worth a look at the start of the body.
pub fn inspects_error(fallback_attempt: bool, status: u16) -> (r: bool)
    ensures
        r == (!fallback_attempt && (status == 401 || status == 403 || status == 429 || status == 500
            || status == 503 || status == 529)),
{
    !fallback_attempt && (status == 401 || status == 403 || status == 429 || status == 500 || status
        == 503 || status == 529)
}

// ---- failures to reach an upstream -----------------------------------------------------

/// What is known of a request that could not be sent.
pub struct SendFailure<'a> {
    pub timeout: bool,
    pub connect: bool,
    /// The innermost cause.
    pub cause: &'a str,
}

/// A short cause of a failed request.
pub open spec fn cause_of(timeout: bool, connect: bool, cause: Seq<char>) -> Seq<char> {
    let low = lowered(cause);
    if timeout {
        "connection timed out"@
    } else if occurs("dns"@, low) || occurs("lookup"@, low) || occurs("resolve"@, low) {
        "DNS lookup failed: "@ + cause
    } else if occurs("certificate"@, low) || occurs("tls"@, low) || occurs("ssl"@, low) {
        "TLS handshake failed: "@ + cause
    } else if connect {
        "connection failed: "@ + cause
    } else {
        cause
    }
}

/// A short, human-readable cause of a failed request.
pub fn describe_send_error(failure: &SendFailure<'_>) -> (r: String)
    ensures
        r@ == cause_of(failure.timeout, failure.connect, failure.cause@),
{
    let low = to_lower(failure.cause);
    let low = low.as_str();
    if failure.timeout {
        "connection timed out".to_string()
    } else if contains(low, "dns") || contains(low, "lookup") || contains(low, "resolve") {
        join2("DNS lookup failed: ", failure.cause)
    } else if contains(low, "certificate") || contains(low, "tls") || contains(low, "ssl") {
        join2("TLS handshake failed: ", failure.cause)
    } else if failure.connect {
        join2("connection failed: ", failure.cause)
    } else {
        failure.cause.to_string()
    }
}

/// What a failed connection tells, given whether unrelated sites answer.
pub open spec fn verdict_on(host: Seq<char>, online: Option<bool>) -> Seq<char> {
    match online {
        Some(true) => "your internet connection works, so "@ + host
            + " appears to be down or unreachable"@,
        Some(false) => "your internet connection appears to be down (no unrelated site could be reached either)"@,
        None => "connectivity probes are disabled, so the cause could not be narrowed down"@,
    }
}

/// Explains a failed connection: the transport's cause, and whether this machine is offline
/// or only the upstream is unreachable.
pub fn explain_unreachable(host: &str, cause: &str, online: Option<bool>) -> (r: String)
    ensures
        r@ == "Could not reach upstream "@ + host@ + " ("@ + cause@ + ("): "@ + verdict_on(
            host@,
            online,
        )),
{
    let verdict = match online {
        Some(true) => join3(
            "your internet connection works, so ",
            host,
            " appears to be down or unreachable",
        ),
        Some(false) => "your internet connection appears to be down (no unrelated site could be reached either)".to_string(),
        None => "connectivity probes are disabled, so the cause could not be narrowed down".to_string(),
    };
    let tail = join2("): ", verdict.as_str());
    join5("Could not reach upstream ", host, " (", cause, tail.as_str())
}

/// The host of an upstream, to be told where it cannot be reached: that of its URL, or the
/// whole text where it has none.
pub fn unreachable_host(url: &str) -> (r: String)
    ensures
        r@ == (match url_parsed(url@) {
            Ok(parts) => match parts.host {
                Some(host) => host,
                None => url@,
            },
            Err(_) => url@,
        }),
{
    match parse_url(url) {
        Ok(parts) => match parts.host {
            Some(host) => host,
            None => url.to_string(),
        },
        Err(_) => url.to_string(),
    }
}

/// The URL of a place at an upstream.
pub fn upstream_url(root: &str, place: &str) -> (r: String)
    ensures
        r@ == trimmed_end(root@, '/') + place@,
{
    join2(trim_end(root, '/'), place)
}

/// The path of a place, without its query.
pub fn place_path(place: &str) -> (r: String)
    ensures
        r@ == pieces(place@, '?', 0)[0],
{
    let parts = split(place, '?');
    proof {
        assert(texts(parts@).len() == parts.len());
        assert(texts(parts@)[0] == parts@[0]@);
    }
    parts[0].clone()
}

// ---- headers ---------------------------------------------------------------------------

/// The names in a list between commas, without white characters around them.
pub open spec fn listed_names(list: Seq<char>) -> Seq<Seq<char>> {
    pieces(list, ',', 0).map_values(|s: Seq<char>| trimmed(s))
}

/// The header names that a Connection header nominates for removal.
pub fn nominated(value: &str) -> (r: Vec<String>)
    ensures
        texts(r@) == listed_names(value@),
{
    let parts = split(value, ',');
    let ghost whole = listed_names(value@);
    let mut out: Vec<String> = Vec::new();
    let mut i: usize = 0;
    proof {
        assert(texts(parts@).len() == parts.len());
        assert(texts(out@) =~= whole.subrange(0, 0));
    }
    while i < parts.len()
        invariant
            i <= parts.len(),
            whole == texts(parts@).map_values(|s: Seq<char>| trimmed(s)),
            texts(out@) == whole.subrange(0, i as int),
        decreases parts.len() - i,
    {
        let ghost before = texts(out@);
        let name = trim(parts[i].as_str());
        out.push(name);
        proof {
            assert(texts(out@) =~= before.push(name@));
            assert(whole.subrange(0, i + 1) =~= whole.subrange(0, i as int).push(
                whole[i as int],
            ));
        }
        i += 1;
    }
    proof {
        assert(whole.subrange(0, i as int) =~= whole);
    }
    out
}

/// A header that concerns one connection only.
pub open spec fn hop_header(name: Seq<char>) -> bool {
    name == "connection"@ || name == "keep-alive"@ || name == "proxy-authenticate"@ || name
        == "proxy-authorization"@ || name == "te"@ || name == "trailer"@ || name
        == "transfer-encoding"@ || name == "upgrade"@
}

/// Whether a header, named in lowercase, concerns one connection only.
pub fn is_hop_header(name: &str) -> (r: bool)
    ensures
        r == hop_header(name@),
{
    same(name, "connection") || same(name, "keep-alive") || same(name, "proxy-authenticate")
        || same(name, "proxy-authorization") || same(name, "te") || same(name, "trailer") || same(
        name,
        "transfer-encoding",
    ) || same(name, "upgrade")
}

/// A header of the client that an upstream must not see.
pub open spec fn client_header(name: Seq<char>) -> bool {
    name == "host"@ || name == "content-length"@ || name == "authorization"@ || name == "x-api-key"@
        || name == "api-key"@ || name == "cookie"@ || name == "openai-organization"@ || name
        == "openai-project"@
}

/// Whether an upstream must not see a header of the client, named in lowercase.
pub fn is_client_header(name: &str) -> (r: bool)
    ensures
        r == client_header(name@),
{
    same(name, "host") || same(name, "content-length") || same(name, "authorization") || same(
        name,
        "x-api-key",
    ) || same(name, "api-key") || same(name, "cookie") || same(name, "openai-organization") || same(
        name,
        "openai-project",
    )
}

/// Whether the native upstream must not see a header of the client, named in lowercase.
pub fn is_native_client_header(name: &str) -> (r: bool)
    ensures
        r == (client_header(name@) || name@ == "x-goog-api-key"@),
{
    is_client_header(name) || same(name, "x-goog-api-key")
}

/// The WebSocket protocols from `from` on that carry no key, behind those kept; `any` says
/// whether one was kept.
pub open spec fn keyless(names: Seq<Seq<char>>, from: int, any: bool, out: Seq<char>) -> Seq<char>
    decreases names.len() - from,
{
    if from < 0 || from >= names.len() {
        out
    } else if "openai-insecure-api-key."@.is_prefix_of(names[from]) {
        keyless(names, from + 1, any, out)
    } else {
        keyless(
            names,
            from + 1,
            true,
            if any {
                out + ", "@ + names[from]
            } else {
                out + names[from]
            },
        )
    }
}

/// The WebSocket protocols that a client offers, without those that carry a key.
pub fn filter_protocols(protocols: &str) -> (r: String)
    ensures
        r@ == keyless(listed_names(protocols@), 0, false, Seq::empty()),
{
    let names = nominated(protocols);
    let mut out = String::new();
    let mut any = false;
    let mut i: usize = 0;
    while i < names.len()
        invariant
            i <= names.len(),
            keyless(texts(names@), 0, false, Seq::empty()) == keyless(
                texts(names@),
                i as int,
                any,
                out@,
            ),
        decreases names.len() - i,
    {
        if !starts_with(names[i].as_str(), "openai-insecure-api-key.") {
            if any {
                out.append(", ");
            }
            out.append(names[i].as_str());
            any = true;
        }
        i += 1;
    }
    out
}

// ---- access ----------------------------------------------------------------------------

/// The access key among cookies from `from` on.
pub open spec fn cookie_key(cookies: Seq<Seq<char>>, from: int) -> Option<Seq<char>>
    decreases cookies.len() - from,
{
    if from < 0 || from >= cookies.len() {
        None
    } else {
        match after(trimmed(cookies[from]), "hey_proxy_access="@) {
            Some(key) => Some(key),
            None => cookie_key(cookies, from + 1),
        }
    }
}

/// The access key that a request carries: as a bearer token, else in a cookie.
pub open spec fn access_key(authorization: Option<Seq<char>>, cookie: Option<Seq<char>>) -> Option<
    Seq<char>,
> {
    let bearer = match authorization {
        Some(value) => after(value, "Bearer "@),
        None => None,
    };
    match bearer {
        Some(token) => Some(token),
        None => match cookie {
            Some(value) => cookie_key(pieces(value, ';', 0), 0),
            None => None,
        },
    }
}

/// The access key that a request carries.
pub fn token(authorization: Option<&str>, cookie: Option<&str>) -> (r: Option<String>)
    ensures
        r.deep_view() == access_key(authorization.deep_view(), cookie.deep_view()),
{
    match authorization {
        Some(value) => match strip_prefix(value, "Bearer ") {
            Some(token) => return Some(token.to_string()),
            None => {},
        },
        None => {},
    }
    let cookies = match cookie {
        Some(value) => split(value, ';'),
        None => return None,
    };
    let mut i: usize = 0;
    while i < cookies.len()
        invariant
            i <= cookies.len(),
            cookie_key(texts(cookies@), 0) == cookie_key(texts(cookies@), i as int),
            access_key(authorization.deep_view(), cookie.deep_view()) == cookie_key(
                texts(cookies@),
                0,
            ),
        decreases cookies.len() - i,
    {
        let one = trim(cookies[i].as_str());
        match strip_prefix(one.as_str(), "hey_proxy_access=") {
            Some(key) => return Some(key.to_string()),
            None => {},
        }
        i += 1;
    }
    None
}

/// What a host does with a request.
#[derive(Clone, Copy, Debug, PartialEq, Eq, Structural)]
pub enum Gate {
    /// Lets it through.
    Open,
    /// Shows the login page of the overview.
    OverviewLogin,
    /// Shows the login page of the logs.
    LogsLogin,
    /// Refuses it.
    Refuse,
    /// Refuses it, and records that.
    RefuseAndRecord,
}

/// What a host does with a request, given whether its key was accepted.
pub open spec fn gated(host_mode: bool, path: Seq<char>, accepted: bool) -> Gate {
    if !host_mode || path == "/logs/login"@ || accepted {
        Gate::Open
    } else if path == "/"@ {
        Gate::OverviewLogin
    } else if path == "/logs"@ {
        Gate::LogsLogin
    } else if "/overview"@.is_prefix_of(path) || "/logs"@.is_prefix_of(path) {
        Gate::Refuse
    } else {
        Gate::RefuseAndRecord
    }
}

/// Decides what a host does with a request, given whether its key was accepted.
pub fn gate(host_mode: bool, path: &str, accepted: bool) -> (r: Gate)
    ensures
        r == gated(host_mode, path@, accepted),
{
    if !host_mode || same(path, "/logs/login") || accepted {
        Gate::Open
    } else if same(path, "/") {
        Gate::OverviewLogin
    } else if same(path, "/logs") {
        Gate::LogsLogin
    } else if starts_with(path, "/overview") || starts_with(path, "/logs") {
        Gate::Refuse
    } else {
        Gate::RefuseAndRecord
    }
}

} // verus!

//! What becomes of a request on its way to an upstream, and what a client is told of it.

use vstd::prelude::*;
use crate::answers::{error_tree, server_error_tree, transport_tree, upgrade_tree};
use crate::capacity::body_bytes;
use crate::config::IpVersion;
use crate::delivery::{head_of, Course, Stage, Step};
use crate::fallback::body_value;
use crate::gemini::error::native_error;
use crate::gemini::parts::empty_object;
use crate::gemini::provider::{Auth, ProviderConfig};
use crate::gemini::sending::{HopView, SendingView};
use crate::gemini::service::{arrived, credential_of, native_value, CredentialView};
use crate::members::member_laws;
use crate::outside::lossy_text;
use crate::retrying::{capacity_words, passing_error, statuses_without_capacity};
use crate::text::{lowered, occurs, trimmed_end};
use crate::tree::Tree;
use crate::upstream::{annotated, cause_of, end_trimmed};

verus! {

// ---- a request to the main upstream ---------------------------------------------------------

/// A reply is looked into before it goes on where its status is one of refused access, of too
/// many requests or of a failing service. Any other reply that is no stream is delivered.
pub proof fn replies_are_looked_into(course: Course, status: u16, sse: bool)
    requires
        !course.fallback_attempt,
    ensures
        ({
            let looked = status == 401 || status == 403 || status == 429 || status == 500 || status
                == 503 || status == 529;
            let (after, step) = course.responded(status, sse);
            &&& looked ==> step == Step::Read && after.stage == Stage::Inspecting && after.status
                == status
            &&& !looked && !(sse && course.timed && 200 <= status <= 299) ==> step == Step::Deliver
        }),
{
    let begun = Course { status, sse, prefix: Seq::empty(), complete: false, ..course };
    statuses_without_capacity(status, body_value(begun.prefix), lossy_text(begun.prefix));
}

/// An error whose body was read is tried again where it is one of capacity: its status is that of
/// too many requests or of an overloaded service, or it says so, and nothing in it lasts. The body
/// is read to its end or to its first 65536 bytes.
pub proof fn refusals_are_tried_again(course: Course, bytes: Seq<u8>)
    requires
        course.stage == Stage::Inspecting,
        course.status < 200 || course.status > 299,
    ensures
        ({
            let error = body_value(course.prefix).at("error"@);
            let refused = passing_error(error) && (course.status == 429 || course.status == 503
                || course.status == 529 || (course.status == 500 && capacity_words(
                lossy_text(course.prefix),
            )));
            &&& refused ==> course.ended().1 == Step::RetryRefused
            &&& !refused ==> course.ended().1 == Step::Deliver
            &&& course.prefix.len() + bytes.len() < 65536 ==> course.read(bytes).1 == Step::Read
                && course.read(bytes).0.prefix == course.prefix + bytes
            &&& course.prefix.len() + bytes.len() >= 65536 ==> course.read(bytes).1 != Step::Read
        }),
{
    let whole = Course { complete: true, ..course };
    statuses_without_capacity(course.status, body_value(course.prefix), lossy_text(course.prefix));
}

/// A request that did not reach the upstream is tried again where time is left for it; otherwise
/// the client is told why, or another model is tried. A granted attempt is sent; one that is not
/// granted ends as it stands.
pub proof fn failures_to_reach_are_told(course: Course, unreached: bool, timeout: bool)
    ensures
        course.timed && unreached ==> course.unsent(unreached, timeout).1 == Step::RetryUnreached,
        !(course.timed && unreached) && !course.fallback_attempt ==> course.unsent(
            unreached,
            timeout,
        ).1 == Step::Diagnose,
        !(course.timed && unreached) && course.fallback_attempt ==> course.unsent(
            unreached,
            timeout,
        ).1 == (Step::TransportFailed { eligible: unreached || timeout }),
        course.retried(true).1 == Step::Send,
        course.retried(true).0.stage == Stage::Sending,
        course.stage == (Stage::Unsent { unreached, timeout }) && !course.fallback_attempt
            ==> course.retried(false).1 == Step::Diagnose,
        course.stage == Stage::OpenedRefused ==> course.retried(false).1 == Step::Deliver,
{
}

/// A failed reply that was read whole and tells of a lack of capacity is delivered as a server
/// error, in the words for it; any other reply is delivered as it came.
pub proof fn heads_are_delivered(course: Course)
    ensures
        ({
            let (status, bytes, changed) = head_of(course);
            let failed = course.status < 200 || course.status > 299;
            &&& !course.complete || !failed ==> status == course.status && bytes == course.prefix
                && !changed
            &&& course.complete && failed && body_bytes(course.prefix) is None ==> status
                == course.status && bytes == course.prefix && !changed
            &&& course.complete && failed && body_bytes(course.prefix) is Some ==> status == 500
                && bytes == body_bytes(course.prefix)->Some_0 && changed
        }),
{
}

// ---- a request to the native API ------------------------------------------------------------

/// A native request is repeated only where it did not reach the service, or where the service
/// says that another attempt may succeed; the client is then told what was owed where no attempt
/// is left, and otherwise at once.
pub proof fn native_failures_are_told(sending: SendingView, bytes: Seq<u8>, unreached: bool)
    ensures
        ({
            let native = native_value(bytes);
            let again = native_error(native, Some(sending.status)).1;
            let (after, hop) = sending.read(bytes);
            let (lost, step) = sending.unsent(unreached, false);
            &&& again ==> hop == (HopView::Retry { asked: true }) && after.owed is Some
            &&& !again ==> hop is Tell
            &&& again ==> after.owed->Some_0.status == sending.status && after.owed->Some_0.body.at(
                "error"@,
            ) == native_error(native, Some(sending.status)).0 && after.owed->Some_0.body.at(
                "gemini"@,
            ) == native
            &&& !again ==> hop->Tell_0.status == sending.status && hop->Tell_0.body.at("error"@)
                == native_error(native, Some(sending.status)).0
            &&& after.owed is Some && again ==> after.retried(false).1 == HopView::Tell(
                after.owed->Some_0,
            )
            &&& after.retried(true).1 == HopView::Send
            &&& !sending.fallback_attempt && unreached ==> step == (HopView::Retry {
                asked: false,
            })
            &&& !sending.fallback_attempt && !unreached ==> step is Tell && step->Tell_0.status
                == 502
            &&& sending.fallback_attempt ==> step is Tell && step->Tell_0.eligible == unreached
            &&& lost.code == "gemini_connect_failed"@
            &&& native.at("error"@).at("status"@) matches Tree::Text(code) ==> after.code == code
        }),
{
    broadcast use member_laws;

    assert("error"@ != "gemini"@) by {
        reveal_strlit("error");
        reveal_strlit("gemini");
        assert("error"@.len() == 5);
        assert("gemini"@.len() == 6);
    }
}

/// The native API is asked with the credentials that are configured: those of the machine, a
/// token that a command prints, or the key or token that is given.
pub proof fn credentials_are_those_configured(config: ProviderConfig)
    ensures
        config.auth == Auth::Adc ==> credential_of(config) == CredentialView::Default,
        config.auth == Auth::GcloudAdc ==> credential_of(config) == CredentialView::Bearer(
            "sh://gcloud auth application-default print-access-token"@,
        ),
        config.auth == Auth::ApiKey && config.api_key is Some ==> credential_of(config)
            == CredentialView::Key(config.api_key->Some_0@),
        config.auth == Auth::Bearer && config.api_key is Some ==> credential_of(config)
            == CredentialView::Bearer(config.api_key->Some_0@),
{
}

/// A request for the native API comes by POST to the Responses path, without a query, to a proxy
/// that has the provider; any other is refused as a bad request.
pub proof fn native_requests_arrive_one_way(
    post: bool,
    path: Seq<char>,
    has_query: bool,
    provider: Option<ProviderConfig>,
    request: Tree,
    key: Seq<u8>,
)
    ensures
        arrived(post, path, has_query, provider, request, key) is Ok ==> post && trimmed_end(
            path,
            '/',
        ) == "/v1/responses"@ && !has_query && provider is Some,
        arrived(post, path, has_query, provider, request, key) matches Err(refusal)
            ==> refusal.status == 400,
{
}

// ---- what a client is told ------------------------------------------------------------------

/// The errors of the proxy itself tell their message, and what kind of error they are.
pub proof fn own_errors_are_told(message: Seq<char>, code: Seq<char>)
    ensures
        error_tree(message).at("error"@).at("message"@) == Tree::Text(message),
        error_tree(message).at("error"@).at("type"@) == Tree::Text("proxy_error"@),
        server_error_tree(message, code).at("error"@).at("message"@) == Tree::Text(message),
        server_error_tree(message, code).at("error"@).at("type"@) == Tree::Text("server_error"@),
        server_error_tree(message, code).at("error"@).at("code"@) == Tree::Text("server_error"@),
        server_error_tree(message, code).at("error"@).at("proxy_code"@) == Tree::Text(code),
        transport_tree(message, code).at("error"@).at("message"@) == Tree::Text(message),
        transport_tree(message, code).at("error"@).at("type"@) == Tree::Text("server_error"@),
        transport_tree(message, code).at("error"@).at("code"@) == Tree::Text("server_error"@),
        transport_tree(message, code).at("error"@).at("proxy_code"@) == Tree::Text(code),
        upgrade_tree().at("error"@).at("type"@) == Tree::Text("invalid_request_error"@),
        upgrade_tree().at("error"@).at("code"@) == Tree::Text("websocket_not_supported"@),
{
    broadcast use member_laws;

    error_names_differ();
    let a = empty_object().with("type"@, Tree::Text("server_error"@));
    let b = a.with("code"@, Tree::Text("server_error"@));
    let c = b.with("message"@, Tree::Text(message));
    let d = c.with("param"@, Tree::Null);
    assert(b.at("type"@) == Tree::Text("server_error"@));
    assert(c.at("type"@) == Tree::Text("server_error"@));
    assert(c.at("code"@) == Tree::Text("server_error"@));
    assert(c.at("message"@) == Tree::Text(message));
    assert(d.at("type"@) == Tree::Text("server_error"@));
    assert(d.at("code"@) == Tree::Text("server_error"@));
    assert(d.at("message"@) == Tree::Text(message));
    let e = empty_object().with("message"@, Tree::Text(message));
    assert(e.at("message"@) == Tree::Text(message));
    let f = empty_object().with("type"@, Tree::Text("invalid_request_error"@));
    let g = f.with("code"@, Tree::Text("websocket_not_supported"@));
    assert(g.at("type"@) == Tree::Text("invalid_request_error"@));
}

proof fn error_names_differ()
    ensures
        "type"@ != "code"@,
        "type"@ != "message"@,
        "type"@ != "param"@,
        "type"@ != "proxy_code"@,
        "code"@ != "message"@,
        "code"@ != "param"@,
        "code"@ != "proxy_code"@,
        "message"@ != "param"@,
        "message"@ != "proxy_code"@,
        "param"@ != "proxy_code"@,
{
    reveal_strlit("type");
    reveal_strlit("code");
    reveal_strlit("message");
    reveal_strlit("param");
    reveal_strlit("proxy_code");
    assert("type"@.len() == 4);
    assert("code"@.len() == 4);
    assert("message"@.len() == 7);
    assert("param"@.len() == 5);
    assert("proxy_code"@.len() == 10);
    assert("type"@[0] == 't');
    assert("code"@[0] == 'c');
}

/// A rejected address is told behind the upstream's own message, with the address and the kind of
/// connection; the rest of the reply stays as it is.
pub proof fn addresses_are_told(
    value: Tree,
    ipv6: bool,
    version: IpVersion,
    address: Seq<char>,
    message: Seq<char>,
)
    requires
        value is Object,
        value.at("error"@).at("message"@) == Tree::Text(message),
    ensures
        ({
            let done = annotated(value, ipv6, version, Some(address))->Some_0;
            let told = done.at("error"@).at("message"@);
            let family = if ipv6 {
                "IPv6"@
            } else {
                "IPv4"@
            };
            &&& annotated(value, ipv6, version, Some(address)) is Some
            &&& told is Text
            &&& (end_trimmed(message) + " hey-proxy: this request reached the upstream over "@
                + family + " from "@ + address).is_prefix_of(told->Text_0)
            &&& forall|name: Seq<char>|
                name != "error"@ ==> #[trigger] done.at(name) == value.at(name)
            &&& forall|name: Seq<char>|
                name != "message"@ ==> #[trigger] done.at("error"@).at(name) == value.at(
                    "error"@,
                ).at(name)
        }),
{
    broadcast use member_laws;

    let done = annotated(value, ipv6, version, Some(address))->Some_0;
    let told = done.at("error"@).at("message"@)->Text_0;
    let family = if ipv6 {
        "IPv6"@
    } else {
        "IPv4"@
    };
    let front = end_trimmed(message) + " hey-proxy: this request reached the upstream over "@
        + family + " from "@ + address;
    assert(told.subrange(0, front.len() as int) =~= front);
}

/// Why an upstream could not be reached is told by what failed: the time, the name, the handshake
/// or the connection.
pub proof fn causes_are_told(connect: bool, cause: Seq<char>)
    ensures
        cause_of(true, connect, cause) == "connection timed out"@,
        occurs("dns"@, lowered(cause)) || occurs("lookup"@, lowered(cause)) || occurs(
            "resolve"@,
            lowered(cause),
        ) ==> cause_of(false, connect, cause) == "DNS lookup failed: "@ + cause,
        cause.is_suffix_of(cause_of(false, connect, cause)),
{
    let told = cause_of(false, connect, cause);
    assert(told.subrange(told.len() - cause.len(), told.len() as int) =~= cause);
}

} // verus!

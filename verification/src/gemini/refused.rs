//! What a client learns of an error of the native API.

use vstd::prelude::*;
use crate::exchange::decimal_value;
use crate::gemini::conversation::list_of;
use crate::gemini::error::{
    class_of, message_of, native_error, retry_info, retry_seconds, text_or_null,
};
use crate::members::member_laws;
use crate::text::{ahead, parted, place_is_inside};
use crate::tree::{NumberView, Tree};

verus! {

proof fn error_names_differ()
    ensures
        "type"@ != "code"@,
        "type"@ != "message"@,
        "type"@ != "param"@,
        "type"@ != "gemini_status"@,
        "type"@ != "gemini_http_status"@,
        "code"@ != "message"@,
        "code"@ != "param"@,
        "code"@ != "gemini_status"@,
        "code"@ != "gemini_http_status"@,
        "message"@ != "param"@,
        "message"@ != "gemini_status"@,
        "message"@ != "gemini_http_status"@,
        "param"@ != "gemini_status"@,
        "param"@ != "gemini_http_status"@,
        "gemini_status"@ != "gemini_http_status"@,
{
    reveal_strlit("type");
    reveal_strlit("code");
    reveal_strlit("message");
    reveal_strlit("param");
    reveal_strlit("gemini_status");
    reveal_strlit("gemini_http_status");
    assert("type"@.len() == 4);
    assert("code"@.len() == 4);
    assert("message"@.len() == 7);
    assert("param"@.len() == 5);
    assert("gemini_status"@.len() == 13);
    assert("gemini_http_status"@.len() == 18);
    assert("type"@[0] == 't');
    assert("code"@[0] == 'c');
}

proof fn members_are_told(native: Tree, given: Option<u16>)
    ensures
        ({
            let status = native.at("error"@).at("status"@);
            let http = crate::gemini::error::http_status_of(native, given);
            let (kind, code, retryable) = class_of(status.text(), http);
            let (error, again) = native_error(native, given);
            &&& again == retryable
            &&& error.at("type"@) == Tree::Text(kind)
            &&& error.at("code"@) == Tree::Text(code)
            &&& error.at("message"@) == Tree::Text(message_of(native, code))
            &&& error.at("gemini_status"@) == text_or_null(status.text())
            &&& error.at("gemini_http_status"@) == (match http {
                Some(n) => Tree::Number(NumberView::Unsigned(n as u64)),
                None => Tree::Null,
            })
        }),
{
    broadcast use member_laws;

    error_names_differ();
    let status = native.at("error"@).at("status"@).text();
    let http = crate::gemini::error::http_status_of(native, given);
    let (kind, code, retryable) = class_of(status, http);
    let a = Tree::Object(Seq::empty()).with("type"@, Tree::Text(kind));
    let b = a.with("code"@, Tree::Text(code));
    let c = b.with("message"@, Tree::Text(message_of(native, code)));
    let d = c.with("param"@, Tree::Null);
    let e = d.with("gemini_status"@, text_or_null(status));
    assert(c.at("type"@) == Tree::Text(kind));
    assert(c.at("code"@) == Tree::Text(code));
    assert(e.at("type"@) == Tree::Text(kind));
    assert(e.at("code"@) == Tree::Text(code));
    assert(e.at("message"@) == Tree::Text(message_of(native, code)));
}

proof fn statuses_differ()
    ensures
        "RESOURCE_EXHAUSTED"@ != "UNAVAILABLE"@,
        "RESOURCE_EXHAUSTED"@ != "INTERNAL"@,
        "RESOURCE_EXHAUSTED"@ != "DEADLINE_EXCEEDED"@,
        "RESOURCE_EXHAUSTED"@ != "ABORTED"@,
        "RESOURCE_EXHAUSTED"@ != "CANCELLED"@,
        "RESOURCE_EXHAUSTED"@ != "UNKNOWN"@,
        "RESOURCE_EXHAUSTED"@ != "UNAUTHENTICATED"@,
        "RESOURCE_EXHAUSTED"@ != "PERMISSION_DENIED"@,
        "RESOURCE_EXHAUSTED"@ != "INVALID_ARGUMENT"@,
        "RESOURCE_EXHAUSTED"@ != "NOT_FOUND"@,
        "RESOURCE_EXHAUSTED"@ != "FAILED_PRECONDITION"@,
        "RESOURCE_EXHAUSTED"@ != "OUT_OF_RANGE"@,
        "RESOURCE_EXHAUSTED"@ != "UNIMPLEMENTED"@,
        "RESOURCE_EXHAUSTED"@ != "ALREADY_EXISTS"@,
        "UNAUTHENTICATED"@ != "UNAVAILABLE"@,
        "UNAUTHENTICATED"@ != "INTERNAL"@,
        "UNAUTHENTICATED"@ != "DEADLINE_EXCEEDED"@,
        "UNAUTHENTICATED"@ != "ABORTED"@,
        "UNAUTHENTICATED"@ != "CANCELLED"@,
        "UNAUTHENTICATED"@ != "UNKNOWN"@,
        "PERMISSION_DENIED"@ != "UNAVAILABLE"@,
        "PERMISSION_DENIED"@ != "INTERNAL"@,
        "PERMISSION_DENIED"@ != "DEADLINE_EXCEEDED"@,
        "PERMISSION_DENIED"@ != "ABORTED"@,
        "PERMISSION_DENIED"@ != "CANCELLED"@,
        "PERMISSION_DENIED"@ != "UNKNOWN"@,
        "INVALID_ARGUMENT"@ != "UNAVAILABLE"@,
        "INVALID_ARGUMENT"@ != "INTERNAL"@,
        "INVALID_ARGUMENT"@ != "DEADLINE_EXCEEDED"@,
        "INVALID_ARGUMENT"@ != "ABORTED"@,
        "INVALID_ARGUMENT"@ != "CANCELLED"@,
        "INVALID_ARGUMENT"@ != "UNKNOWN"@,
        "NOT_FOUND"@ != "UNAVAILABLE"@,
        "NOT_FOUND"@ != "INTERNAL"@,
        "NOT_FOUND"@ != "DEADLINE_EXCEEDED"@,
        "NOT_FOUND"@ != "ABORTED"@,
        "NOT_FOUND"@ != "CANCELLED"@,
        "NOT_FOUND"@ != "UNKNOWN"@,
        "FAILED_PRECONDITION"@ != "UNAVAILABLE"@,
        "FAILED_PRECONDITION"@ != "INTERNAL"@,
        "FAILED_PRECONDITION"@ != "DEADLINE_EXCEEDED"@,
        "FAILED_PRECONDITION"@ != "ABORTED"@,
        "FAILED_PRECONDITION"@ != "CANCELLED"@,
        "FAILED_PRECONDITION"@ != "UNKNOWN"@,
        "OUT_OF_RANGE"@ != "UNAVAILABLE"@,
        "OUT_OF_RANGE"@ != "INTERNAL"@,
        "OUT_OF_RANGE"@ != "DEADLINE_EXCEEDED"@,
        "OUT_OF_RANGE"@ != "ABORTED"@,
        "OUT_OF_RANGE"@ != "CANCELLED"@,
        "OUT_OF_RANGE"@ != "UNKNOWN"@,
        "UNIMPLEMENTED"@ != "UNAVAILABLE"@,
        "UNIMPLEMENTED"@ != "INTERNAL"@,
        "UNIMPLEMENTED"@ != "DEADLINE_EXCEEDED"@,
        "UNIMPLEMENTED"@ != "ABORTED"@,
        "UNIMPLEMENTED"@ != "CANCELLED"@,
        "UNIMPLEMENTED"@ != "UNKNOWN"@,
        "ALREADY_EXISTS"@ != "UNAVAILABLE"@,
        "ALREADY_EXISTS"@ != "INTERNAL"@,
        "ALREADY_EXISTS"@ != "DEADLINE_EXCEEDED"@,
        "ALREADY_EXISTS"@ != "ABORTED"@,
        "ALREADY_EXISTS"@ != "CANCELLED"@,
        "ALREADY_EXISTS"@ != "UNKNOWN"@,
        "UNAUTHENTICATED"@ != "INVALID_ARGUMENT"@,
        "UNAUTHENTICATED"@ != "NOT_FOUND"@,
        "UNAUTHENTICATED"@ != "FAILED_PRECONDITION"@,
        "UNAUTHENTICATED"@ != "OUT_OF_RANGE"@,
        "UNAUTHENTICATED"@ != "UNIMPLEMENTED"@,
        "UNAUTHENTICATED"@ != "ALREADY_EXISTS"@,
        "PERMISSION_DENIED"@ != "INVALID_ARGUMENT"@,
        "PERMISSION_DENIED"@ != "NOT_FOUND"@,
        "PERMISSION_DENIED"@ != "FAILED_PRECONDITION"@,
        "PERMISSION_DENIED"@ != "OUT_OF_RANGE"@,
        "PERMISSION_DENIED"@ != "UNIMPLEMENTED"@,
        "PERMISSION_DENIED"@ != "ALREADY_EXISTS"@,
        "UNAUTHENTICATED"@ != "PERMISSION_DENIED"@,
{
    reveal_strlit("RESOURCE_EXHAUSTED");
    reveal_strlit("UNAVAILABLE");
    reveal_strlit("INTERNAL");
    reveal_strlit("DEADLINE_EXCEEDED");
    reveal_strlit("ABORTED");
    reveal_strlit("CANCELLED");
    reveal_strlit("UNKNOWN");
    reveal_strlit("UNAUTHENTICATED");
    reveal_strlit("PERMISSION_DENIED");
    reveal_strlit("INVALID_ARGUMENT");
    reveal_strlit("NOT_FOUND");
    reveal_strlit("FAILED_PRECONDITION");
    reveal_strlit("OUT_OF_RANGE");
    reveal_strlit("UNIMPLEMENTED");
    reveal_strlit("ALREADY_EXISTS");
    assert("RESOURCE_EXHAUSTED"@.len() == 18);
    assert("UNAVAILABLE"@.len() == 11);
    assert("INTERNAL"@.len() == 8);
    assert("DEADLINE_EXCEEDED"@.len() == 17);
    assert("ABORTED"@.len() == 7);
    assert("CANCELLED"@.len() == 9);
    assert("UNKNOWN"@.len() == 7);
    assert("UNAUTHENTICATED"@.len() == 15);
    assert("PERMISSION_DENIED"@.len() == 17);
    assert("INVALID_ARGUMENT"@.len() == 16);
    assert("NOT_FOUND"@.len() == 9);
    assert("FAILED_PRECONDITION"@.len() == 19);
    assert("OUT_OF_RANGE"@.len() == 12);
    assert("UNIMPLEMENTED"@.len() == 13);
    assert("ALREADY_EXISTS"@.len() == 14);
    assert("DEADLINE_EXCEEDED"@[0] == 'D');
    assert("PERMISSION_DENIED"@[0] == 'P');
    assert("ABORTED"@[0] == 'A');
    assert("UNKNOWN"@[0] == 'U');
    assert("CANCELLED"@[0] == 'C');
    assert("NOT_FOUND"@[0] == 'N');
}

/// A native error is told by its status: an exhausted quota as a limit of rate, a failing or
/// missing service as a server error, both of which may be tried again; refused access and a
/// refused request as errors that another attempt does not mend.
pub proof fn statuses_are_told(native: Tree, given: Option<u16>)
    ensures
        ({
            let status = native.at("error"@).at("status"@);
            let (error, again) = native_error(native, given);
            &&& status is Text ==> error.at("gemini_status"@) == status
            &&& status == Tree::Text("RESOURCE_EXHAUSTED"@) ==> error.at("type"@) == Tree::Text(
                "rate_limit_error"@,
            ) && error.at("code"@) == Tree::Text("rate_limit_exceeded"@) && again
            &&& status == Tree::Text("UNAVAILABLE"@) || status == Tree::Text("INTERNAL"@) || status
                == Tree::Text("DEADLINE_EXCEEDED"@) || status == Tree::Text("ABORTED"@) || status
                == Tree::Text("CANCELLED"@) || status == Tree::Text("UNKNOWN"@) ==> error.at(
                "type"@,
            ) == Tree::Text("server_error"@) && error.at("code"@) == Tree::Text("server_error"@)
                && again
            &&& status == Tree::Text("UNAUTHENTICATED"@) ==> error.at("type"@) == Tree::Text(
                "authentication_error"@,
            ) && error.at("code"@) == Tree::Text("invalid_prompt"@) && !again
            &&& status == Tree::Text("PERMISSION_DENIED"@) ==> error.at("type"@) == Tree::Text(
                "permission_error"@,
            ) && error.at("code"@) == Tree::Text("invalid_prompt"@) && !again
            &&& status == Tree::Text("INVALID_ARGUMENT"@) || status == Tree::Text("NOT_FOUND"@)
                || status == Tree::Text("FAILED_PRECONDITION"@) || status == Tree::Text(
                "OUT_OF_RANGE"@,
            ) || status == Tree::Text("UNIMPLEMENTED"@) || status == Tree::Text("ALREADY_EXISTS"@)
                ==> error.at("type"@) == Tree::Text("invalid_request_error"@) && error.at("code"@)
                == Tree::Text("invalid_prompt"@) && !again
        }),
{
    members_are_told(native, given);
    statuses_differ();
}

/// A native error without a status is told by that of the HTTP reply, or by the one that it names
/// itself: too many requests are a limit of rate, another error of the client is a refused
/// request, and anything else a server error.
pub proof fn http_statuses_are_told(native: Tree, given: Option<u16>)
    requires
        !(native.at("error"@).at("status"@) is Text),
    ensures
        ({
            let (error, again) = native_error(native, given);
            let named = native.at("error"@).at("code"@).natural();
            let http = if given is Some {
                given
            } else if named is Some && named->Some_0 <= 65535 {
                Some(named->Some_0 as u16)
            } else {
                None
            };
            &&& error.at("gemini_status"@) is Null
            &&& http is Some ==> error.at("gemini_http_status"@).natural() == Some(
                http->Some_0 as u64,
            )
            &&& http is None ==> error.at("gemini_http_status"@) is Null
            &&& http == Some(429u16) ==> error.at("type"@) == Tree::Text("rate_limit_error"@)
                && error.at("code"@) == Tree::Text("rate_limit_exceeded"@) && again
            &&& (http matches Some(n) && 400 <= n <= 499 && n != 429) ==> error.at("type"@)
                == Tree::Text("invalid_request_error"@) && error.at("code"@) == Tree::Text(
                "invalid_prompt"@,
            ) && !again
            &&& (http matches Some(n) ==> n < 400 || n > 499) ==> error.at("type"@) == Tree::Text(
                "server_error"@,
            ) && error.at("code"@) == Tree::Text("server_error"@) && again
        }),
{
    members_are_told(native, given);
}

/// A native error keeps its message. One of a limit of rate also tells when to try again, where
/// the service says so and it is within a day.
pub proof fn messages_are_kept(native: Tree, given: Option<u16>)
    ensures
        ({
            let (error, again) = native_error(native, given);
            let own = native.at("error"@).at("message"@);
            &&& error.at("message"@) is Text
            &&& own matches Tree::Text(text) ==> text.is_prefix_of(error.at("message"@)->Text_0)
            &&& (own matches Tree::Text(text) && (error.at("code"@) != Tree::Text(
                "rate_limit_exceeded"@,
            ) || list_of(native.at("error"@).at("details"@)).len() == 0)) ==> error.at("message"@)
                == own
            &&& (own matches Tree::Text(text) && error.at("code"@) == Tree::Text(
                "rate_limit_exceeded"@,
            ) && (retry_seconds(native) matches Some(_))) ==> error.at("message"@) == Tree::Text(
                own->Text_0 + (" Please try again in "@ + retry_seconds(native)->Some_0 + "s."@),
            )
        }),
{
    members_are_told(native, given);
    if let Tree::Text(text) = native.at("error"@).at("message"@) {
        let told = native_error(native, given).0.at("message"@)->Text_0;
        assert(told.subrange(0, text.len() as int) =~= text);
    }
}

proof fn first_info_is_found(details: Seq<Tree>, from: int, k: int)
    requires
        0 <= from <= k < details.len(),
        details[k].at("@type"@) == Tree::Text("type.googleapis.com/google.rpc.RetryInfo"@),
        forall|i: int|
            from <= i < k ==> (#[trigger] details[i]).at("@type"@) != Tree::Text(
                "type.googleapis.com/google.rpc.RetryInfo"@,
            ),
    ensures
        retry_info(details, from) == Some(details[k]),
    decreases k - from,
{
    if from < k {
        first_info_is_found(details, from + 1, k);
    }
}

/// The delay that a native error names in its first retry detail is the one that is told: a
/// number of seconds that is not over a day.
pub proof fn delays_are_read(native: Tree, k: int, number: Seq<char>, shown: Seq<char>)
    requires
        ({
            let details = list_of(native.at("error"@).at("details"@));
            &&& 0 <= k < details.len()
            &&& details[k].at("@type"@) == Tree::Text("type.googleapis.com/google.rpc.RetryInfo"@)
            &&& details[k].at("retryDelay"@) == Tree::Text(number + "s"@)
            &&& forall|i: int|
                0 <= i < k ==> (#[trigger] details[i]).at("@type"@) != Tree::Text(
                    "type.googleapis.com/google.rpc.RetryInfo"@,
                )
        }),
        decimal_value(number) == Tree::Number(NumberView::Float(shown)),
        !("-"@.is_prefix_of(shown)),
        parted(shown, '.') is Some,
    ensures
        parted(shown, '.')->Some_0.0.len() < 5 ==> retry_seconds(native) == Some(shown),
        parted(shown, '.')->Some_0.0.len() > 5 ==> retry_seconds(native) is None,
{
    let details = list_of(native.at("error"@).at("details"@));
    first_info_is_found(details, 0, k);
    let delay = number + "s"@;
    reveal_strlit("s");
    assert("s"@.len() == 1);
    assert(delay.subrange(number.len() as int, delay.len() as int) =~= "s"@);
    assert(delay.subrange(0, number.len() as int) =~= number);
    assert(ahead(delay, "s"@) == Some(number));
    reveal_strlit("86400");
    place_is_inside(shown, '.', 0);
}

} // verus!

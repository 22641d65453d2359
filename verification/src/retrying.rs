//! Which failures are worth another attempt, how they are told to the client, and how long the
//! next attempt waits.

use vstd::prelude::*;
use crate::capacity::{
    capacity_code, lacks_capacity, lasting, lasting_code, refuses, tells_capacity, text_at, told,
    translated, translated_body, translated_event, translated_message, Prelude,
};
use crate::config::Retry;
use crate::gemini::response::number;
use crate::members::{member_laws, set_keeps_others, set_then_get};
use crate::outside::http_date;
use crate::recovery::{asked_wait, bound_of, decided, doubled, wait_of, Budget, Verdict};
use crate::text::{lowered, number_value, occurs};
use crate::tree::Tree;
use crate::upstream::{refuses_capacity, rejects_address};

verus! {

/// A code of a failure that another attempt does not mend.
pub open spec fn lasting_word(code: Tree) -> bool {
    code == Tree::Text("cyber_policy"@)
            || code == Tree::Text("misalignment_policy_violation"@)
            || code == Tree::Text("bio_policy"@)
            || code == Tree::Text("content_policy_violation"@)
            || code == Tree::Text("safety_violation"@)
            || code == Tree::Text("content_filter"@)
            || code == Tree::Text("insufficient_quota"@)
            || code == Tree::Text("invalid_prompt"@)
            || code == Tree::Text("billing_hard_limit_reached"@)
            || code == Tree::Text("billing_not_active"@)
            || code == Tree::Text("invalid_api_key"@)
            || code == Tree::Text("credit_balance_exhausted"@)
            || code == Tree::Text("organization_spend_limit_exceeded"@)
            || code == Tree::Text("project_spend_limit_exceeded"@)
}

/// An error that another attempt may mend.
pub open spec fn passing_error(error: Tree) -> bool {
    !lasting_word(error.at("code"@)) && !lasting_word(error.at("type"@))
}

/// A message that tells of a model without capacity.
pub open spec fn capacity_words(message: Seq<char>) -> bool {
    occurs("overloaded"@, lowered(message)) || occurs("out of capacity"@, lowered(message))
        || occurs("at capacity"@, lowered(message)) || occurs(
        "capacity_exceeded"@,
        lowered(message),
    )
}

/// An error that tells that a model has no capacity.
pub open spec fn tells_no_capacity(error: Tree) -> bool {
    let code = error.at("code"@);
    let kind = error.at("type"@);
    code == Tree::Text("server_is_overloaded"@) || code == Tree::Text("capacity_exceeded"@) || kind
        == Tree::Text("server_is_overloaded"@) || kind == Tree::Text("capacity_exceeded"@) || (
    error.at("message"@) matches Tree::Text(message) && capacity_words(message))
}

/// An error that says itself that it stands for a lack of capacity.
pub open spec fn told_already(error: Tree) -> bool {
    error.at("code"@) == Tree::Text("server_error"@) && (error.at("message"@) matches Tree::Text(
        message,
    ) && "Upstream model is at capacity; hey-proxy translated"@.is_prefix_of(message))
}

proof fn nothing_is_no_word()
    ensures
        !lasting_code(""@),
        !capacity_code(""@),
        !tells_capacity(""@),
        !("Upstream model is at capacity; hey-proxy translated"@.is_prefix_of(""@)),
        "server_error"@ != ""@,
{
    reveal_strlit("");
    reveal_strlit("cyber_policy");
    reveal_strlit("misalignment_policy_violation");
    reveal_strlit("bio_policy");
    reveal_strlit("content_policy_violation");
    reveal_strlit("safety_violation");
    reveal_strlit("content_filter");
    reveal_strlit("insufficient_quota");
    reveal_strlit("invalid_prompt");
    reveal_strlit("billing_hard_limit_reached");
    reveal_strlit("billing_not_active");
    reveal_strlit("invalid_api_key");
    reveal_strlit("credit_balance_exhausted");
    reveal_strlit("organization_spend_limit_exceeded");
    reveal_strlit("project_spend_limit_exceeded");
    reveal_strlit("server_is_overloaded");
    reveal_strlit("capacity_exceeded");
    reveal_strlit("server_error");
    assert("cyber_policy"@.len() == 12);
    assert("misalignment_policy_violation"@.len() == 29);
    assert("bio_policy"@.len() == 10);
    assert("content_policy_violation"@.len() == 24);
    assert("safety_violation"@.len() == 16);
    assert("content_filter"@.len() == 14);
    assert("insufficient_quota"@.len() == 18);
    assert("invalid_prompt"@.len() == 14);
    assert("billing_hard_limit_reached"@.len() == 26);
    assert("billing_not_active"@.len() == 18);
    assert("invalid_api_key"@.len() == 15);
    assert("credit_balance_exhausted"@.len() == 24);
    assert("organization_spend_limit_exceeded"@.len() == 33);
    assert("project_spend_limit_exceeded"@.len() == 28);
    assert("server_is_overloaded"@.len() == 20);
    assert("capacity_exceeded"@.len() == 17);
    assert("server_error"@.len() == 12);
    assert("cyber_policy"@[0] == 'c');
    assert("server_error"@[0] == 's');
    assert("content_policy_violation"@[1] == 'o');
    assert("credit_balance_exhausted"@[1] == 'r');
    assert("content_filter"@[0] == 'c');
    assert("invalid_prompt"@[0] == 'i');
    assert("insufficient_quota"@[0] == 'i');
    assert("billing_not_active"@[0] == 'b');
    reveal_strlit("overloaded");
    reveal_strlit("out of capacity");
    reveal_strlit("at capacity");
    reveal_strlit("Upstream model is at capacity; hey-proxy translated");
    assert(lowered(""@).len() == 0);
}

proof fn words_agree(error: Tree)
    ensures
        lasting(error) == !passing_error(error),
        lacks_capacity(error) == (passing_error(error) && !told_already(error)
            && tells_no_capacity(error)),
{
    nothing_is_no_word();
    let code = error.at("code"@);
    let kind = error.at("type"@);
    assert(lasting_code(text_at(error, "code"@)) == lasting_word(code));
    assert(lasting_code(text_at(error, "type"@)) == lasting_word(kind));
}

proof fn error_names_differ()
    ensures
        "code"@ != "type"@,
        "code"@ != "message"@,
        "code"@ != "upstream_code"@,
        "type"@ != "message"@,
        "type"@ != "upstream_code"@,
        "message"@ != "upstream_code"@,
{
    reveal_strlit("code");
    reveal_strlit("type");
    reveal_strlit("message");
    reveal_strlit("upstream_code");
    assert("code"@.len() == 4);
    assert("type"@.len() == 4);
    assert("message"@.len() == 7);
    assert("upstream_code"@.len() == 13);
    assert("code"@[0] == 'c');
    assert("type"@[0] == 't');
}

/// An error is told in other words exactly where it tells of a model without capacity, of nothing
/// lasting, and was not told so before. The client then sees a server error, which it tries
/// again; the code and the message of the upstream stand in it, and all else stays.
pub proof fn lack_of_capacity_is_retryable(error: Tree)
    requires
        error is Object,
    ensures
        translated(error) is Some <==> passing_error(error) && !told_already(error)
            && tells_no_capacity(error),
        translated(error) matches Some(done) ==> {
            &&& done.at("code"@) == Tree::Text("server_error"@)
            &&& done.at("type"@) == Tree::Text("server_error"@)
            &&& error.has("code"@) ==> done.at("upstream_code"@) == error.at("code"@)
            &&& done.at("message"@) is Text
            &&& "Upstream model is at capacity; hey-proxy translated"@.is_prefix_of(
                done.at("message"@)->Text_0,
            )
            &&& error.at("message"@) matches Tree::Text(message) ==> message.is_suffix_of(
                done.at("message"@)->Text_0,
            )
            &&& forall|name: Seq<char>|
                name != "code"@ && name != "type"@ && name != "message"@ && name
                    != "upstream_code"@ ==> #[trigger] done.at(name) == error.at(name)
        },
{
    broadcast use member_laws;

    words_agree(error);
    error_names_differ();
    if let Some(done) = translated(error) {
        let noted = match error.get("code"@) {
            Some(code) => error.with("upstream_code"@, code),
            None => error,
        };
        assert(noted is Object);
        let server = Tree::Text("server_error"@);
        let coded = noted.with("code"@, server);
        let typed = coded.with("type"@, server);
        let text = translated_message(text_at(error, "message"@));
        assert(done == typed.with("message"@, Tree::Text(text)));
        assert(typed.at("code"@) == server);
        assert(done.at("code"@) == server);
        assert(done.at("type"@) == server);
        if error.has("code"@) {
            assert(noted.at("upstream_code"@) == error.at("code"@));
            assert(coded.at("upstream_code"@) == error.at("code"@));
            assert(typed.at("upstream_code"@) == error.at("code"@));
        }
        reveal_strlit("Upstream model is at capacity; hey-proxy translated");
        reveal_strlit(
            "Upstream model is at capacity; hey-proxy translated this capacity failure to a retryable server error. Original upstream message: ",
        );
        let mark = "Upstream model is at capacity; hey-proxy translated"@;
        assert(text.subrange(0, mark.len() as int) =~= mark);
        if let Tree::Text(message) = error.at("message"@) {
            if message.len() > 0 {
                assert(text.subrange(text.len() - message.len(), text.len() as int) =~= message);
            } else {
                assert(text.subrange(text.len() - message.len(), text.len() as int) =~= message);
            }
        }
        assert forall|name: Seq<char>|
            name != "code"@ && name != "type"@ && name != "message"@ && name
                != "upstream_code"@ implies #[trigger] done.at(name) == error.at(name) by {
            assert(noted.at(name) == error.at(name));
            assert(coded.at(name) == noted.at(name));
            assert(typed.at(name) == coded.at(name));
        }
    }
}

/// The event of a failed response, and an error event, are told in other words where their error
/// is; an error event then has the status of a server error. Other events stay as they are, and so
/// does what else an event holds.
pub proof fn events_are_told_in_other_words(value: Tree)
    requires
        value is Object,
    ensures
        value.at("type"@) != Tree::Text("response.failed"@) && value.at("type"@) != Tree::Text(
            "error"@,
        ) ==> translated_event(value) is None,
        value.at("type"@) == Tree::Text("response.failed"@) && value.at("response"@) is Object
            ==> (match translated(value.at("response"@).at("error"@)) {
            Some(error) => translated_event(value) matches Some(done) && done.at("response"@).at(
                "error"@,
            ) == error && done.at("type"@) == value.at("type"@),
            None => translated_event(value) is None,
        }),
        value.at("type"@) == Tree::Text("error"@) ==> (match translated(value.at("error"@)) {
            Some(error) => translated_event(value) matches Some(done) && done.at("error"@) == error
                && done.at("status"@).natural() == Some(500u64) && done.at("type"@) == value.at(
                "type"@,
            ) && (value.has("status_code"@) ==> done.at("status_code"@).natural() == Some(500u64)),
            None => translated_event(value) is None,
        }),
{
    broadcast use member_laws;

    assert("response.failed"@ != "error"@ && "type"@ != "response"@ && "type"@ != "error"@
        && "type"@ != "status"@ && "type"@ != "status_code"@ && "error"@ != "status"@ && "error"@
        != "status_code"@ && "status"@ != "status_code"@) by {
        reveal_strlit("response.failed");
        reveal_strlit("error");
        reveal_strlit("type");
        reveal_strlit("response");
        reveal_strlit("status");
        reveal_strlit("status_code");
        assert("response.failed"@.len() == 15);
        assert("error"@.len() == 5);
        assert("type"@.len() == 4);
        assert("response"@.len() == 8);
        assert("status"@.len() == 6);
        assert("status_code"@.len() == 11);
    }
    if value.at("type"@) == Tree::Text("error"@) {
        if let Some(error) = translated(value.at("error"@)) {
            let one = value.with("error"@, error);
            let two = one.with("status"@, number(500));
            assert(one is Object);
            set_then_get(value, "error"@, error);
            set_keeps_others(value, "error"@, error, "status_code"@);
            set_keeps_others(one, "status"@, number(500), "status_code"@);
            assert(two.at("error"@) == error);
            assert(two.at("type"@) == value.at("type"@));
            assert(two.at("status"@) == number(500));
            assert(two.has("status_code"@) == value.has("status_code"@));
        }
    }
}

/// The body of a failed reply is told in other words where its error is.
pub proof fn bodies_are_told_in_other_words(value: Tree)
    requires
        value is Object,
    ensures
        match translated(value.at("error"@)) {
            Some(error) => translated_body(value) matches Some(done) && done.at("error"@) == error,
            None => translated_body(value) is None,
        },
{
    broadcast use member_laws;

}

/// A stream has not started while it only reports that a response was created or is in progress.
/// It was refused where it fails for want of capacity or at a limit of rate, with nothing lasting
/// and no output. Anything else is a start.
pub proof fn starts_of_streams(value: Tree)
    ensures
        ({
            let kind = value.at("type"@);
            let inner = value.at("response"@);
            let limited = value.at("error"@).at("code"@) == Tree::Text("rate_limit_exceeded"@)
                || inner.at("error"@).at("code"@) == Tree::Text("rate_limit_exceeded"@);
            let lasts = !passing_error(value.at("error"@)) || !passing_error(inner.at("error"@));
            let produced = (inner.at("output"@) matches Tree::Array(list) && list.len() > 0) || (
            inner.at("usage"@).at("output_tokens"@).natural() matches Some(n) && n > 0);
            &&& lasts || produced ==> told(value) == Prelude::Started
            &&& !lasts && !produced ==> (told(value) == Prelude::Refused <==> translated_event(
                value,
            ) is Some || ((kind == Tree::Text("error"@) || kind == Tree::Text("response.failed"@))
                && limited))
            &&& told(value) == Prelude::Waiting ==> kind == Tree::Text("response.created"@) || kind
                == Tree::Text("response.in_progress"@)
            &&& !lasts && !produced && (kind == Tree::Text("response.created"@) || kind
                == Tree::Text("response.in_progress"@)) ==> told(value) == Prelude::Waiting
        }),
{
    words_agree(value.at("error"@));
    words_agree(value.at("response"@).at("error"@));
    reveal_strlit("error");
    reveal_strlit("response.failed");
    reveal_strlit("response.created");
    reveal_strlit("response.in_progress");
    assert("error"@.len() == 5);
    assert("response.failed"@.len() == 15);
    assert("response.created"@.len() == 16);
    assert("response.in_progress"@.len() == 20);
}

/// A failed reply is one of capacity exactly where it tells of nothing lasting and its status is
/// that of too many requests or of an overloaded service, or it says so itself.
pub proof fn statuses_without_capacity(status: u16, value: Tree, text: Seq<char>)
    ensures
        refuses_capacity(status, value, text) <==> passing_error(value.at("error"@)) && (status
            == 429 || status == 503 || status == 529 || (status == 500 && capacity_words(text))),
{
    words_agree(value.at("error"@));
}

/// A reply rejects the address of the client exactly where it refuses access and says so.
pub proof fn rejected_addresses(status: u16, value: Tree, text: Seq<char>)
    ensures
        rejects_address(status, value, text) <==> (status == 401 || status == 403) && (value.at(
            "error"@,
        ).at("code"@) == Tree::Text("ip_not_authorized"@) || occurs(
            "ip is not authorized"@,
            lowered(text),
        )),
{
}

// ---- how long to wait -----------------------------------------------------------------------

/// The bound on a wait starts at the initial delay, doubles with every attempt, for twenty of
/// them, and never exceeds the longest delay.
pub proof fn bounds_double(retry: Retry, attempt: nat)
    ensures
        bound_of(retry, 0) == (if retry.initial_delay_ms < retry.max_delay_ms {
            retry.initial_delay_ms as nat
        } else {
            retry.max_delay_ms as nat
        }),
        attempt < 20 ==> bound_of(retry, attempt + 1) == (if 2 * bound_of(retry, attempt)
            < retry.max_delay_ms {
            2 * bound_of(retry, attempt)
        } else {
            retry.max_delay_ms as nat
        }),
        attempt >= 20 ==> bound_of(retry, attempt + 1) == bound_of(retry, attempt),
{
    reveal_with_fuel(doubled, 2);
    let first = retry.initial_delay_ms as nat;
    assert(first * 1 == first);
    if attempt < 20 {
        let factor = doubled(attempt);
        assert(doubled(attempt + 1) == 2 * factor);
        assert(first * (2 * factor) == 2 * (first * factor)) by (nonlinear_arith);
    }
}

/// A wait is half the bound and what was drawn of the other half, in milliseconds; where the
/// upstream asks for more it is that, and it is never more than the longest delay.
pub proof fn waits_are_these(retry: Retry, attempt: nat, draw: nat, asked: nat)
    requires
        draw <= bound_of(retry, attempt) - bound_of(retry, attempt) / 2,
    ensures
        ({
            let own = (bound_of(retry, attempt) / 2 + draw) * 1_000_000;
            let longest = retry.max_delay_ms * 1_000_000;
            let wait = wait_of(retry, attempt, draw, asked);
            &&& asked <= own ==> wait == own
            &&& own <= asked <= longest ==> wait == asked
            &&& asked >= longest ==> wait == longest
        }),
{
}

/// An upstream asks for a wait by a number of seconds, or by a date, which is seen from now; a
/// date in the past asks for none, and so does any other text.
pub proof fn wishes_are_read(text: Seq<char>, now_ns: nat)
    ensures
        asked_wait(None, now_ns) == 0,
        number_value(text) matches Some(seconds) ==> asked_wait(Some(text), now_ns) == seconds
            * 1_000_000_000,
        number_value(text) is None ==> (http_date(text) matches Some(seconds) ==> (seconds
            * 1_000_000_000 >= now_ns ==> asked_wait(Some(text), now_ns) + now_ns == seconds
            * 1_000_000_000) && (seconds * 1_000_000_000 < now_ns ==> asked_wait(
            Some(text),
            now_ns,
        ) == 0)),
        number_value(text) is None && http_date(text) is None ==> asked_wait(Some(text), now_ns)
            == 0,
{
}

/// A request is tried again while its number of retries lasts, after the wait that is due. Where
/// time bounds recovery, the number does not matter: it is tried again while time is left, and
/// never sooner than after ten milliseconds. A fallback attempt, and one without retries, ends.
pub proof fn retries_are_counted(budget: Budget, delay: nat, left: nat)
    requires
        delay <= u64::MAX,
    ensures
        budget.disabled || budget.max_retries == 0 ==> decided(budget, delay, left)
            == Verdict::Stop,
        !budget.disabled && budget.max_retries > 0 && !budget.timed && budget.retries
            >= budget.max_retries ==> decided(budget, delay, left) == Verdict::Stop,
        !budget.disabled && !budget.timed && budget.retries < budget.max_retries ==> decided(
            budget,
            delay,
            left,
        ) == Verdict::Wait(delay as u128),
        !budget.disabled && budget.timed && budget.max_retries > 0 && delay >= 10_000_000 && delay
            < left ==> decided(budget, delay, left) == Verdict::Wait(delay as u128),
        !budget.disabled && budget.timed && budget.max_retries > 0 && delay < 10_000_000 && left
            > 10_000_000 ==> decided(budget, delay, left) == Verdict::Wait(10_000_000u128),
        !budget.disabled && budget.timed && budget.max_retries > 0 && (delay >= left || left
            <= 10_000_000) ==> decided(budget, delay, left) == Verdict::RunOut,
{
}

} // verus!

//! When a request is tried on another model, and when it stays with the one that it has.

use vstd::prelude::*;
use crate::attempts::{attempt_after, head_judged, Judgement, Looking};
use crate::exchange::parsed;
use crate::fallback::{
    blocker, body_value, lasting, lasting_code, local_tools, outputs, passes, targets_of, told,
    Opening, Prelude, Rules,
};
use crate::gemini::conversation::list_of;
use crate::sse::{data_name, data_value};
use crate::table::find;
use crate::text::{after, lowered, occurs};
use crate::tree::Tree;

verus! {

/// A value that tells of no output: none is listed in it or in the response that it carries, and
/// none is counted.
pub open spec fn silent(value: Tree) -> bool {
    &&& list_of(value.at("output"@)).len() == 0
    &&& list_of(value.at("response"@).at("output"@)).len() == 0
    &&& value.at("usage"@).at("output_tokens"@).natural() is None || value.at("usage"@).at(
        "output_tokens"@,
    ).natural() == Some(0u64)
    &&& value.at("response"@).at("usage"@).at("output_tokens"@).natural() is None || value.at(
        "response"@,
    ).at("usage"@).at("output_tokens"@).natural() == Some(0u64)
}

/// A text that names a failure which trying again does not mend: of the account, of the request
/// or of its safety.
pub open spec fn final_word(code: Tree) -> bool {
    code matches Tree::Text(code) && (occurs("security"@, lowered(code)) || occurs(
        "safety"@,
        lowered(code),
    ) || code == "insufficient_quota"@
        || code == "invalid_prompt"@
        || code == "invalid_request_error"@
        || code == "billing_hard_limit_reached"@
        || code == "billing_not_active"@
        || code == "invalid_api_key"@
        || code == "authentication_error"@
        || code == "permission_error"@
        || code == "credit_balance_exhausted"@
        || code == "organization_spend_limit_exceeded"@
        || code == "project_spend_limit_exceeded"@
        || code == "context_length_exceeded"@
        || code == "content_policy_violation"@
        || code == "cyber_policy"@
        || code == "bio_policy"@
        || code == "misalignment_policy_violation"@
        || code == "content_filter"@
        || code == "UNAUTHENTICATED"@
        || code == "PERMISSION_DENIED"@
        || code == "INVALID_ARGUMENT"@
        || code == "NOT_FOUND"@
        || code == "FAILED_PRECONDITION"@
        || code == "OUT_OF_RANGE"@
        || code == "UNIMPLEMENTED"@
        || code == "ALREADY_EXISTS"@)
}

/// An error none of whose codes names a failure that trying again does not mend.
pub open spec fn mendable(error: Tree) -> bool {
    !final_word(error.at("code"@)) && !final_word(error.at("type"@)) && !final_word(
        error.at("gemini_status"@),
    )
}

proof fn words_are_final(error: Tree)
    ensures
        lasting(error) == !mendable(error),
{
    assert(forall|code: Seq<char>|
        #![trigger lasting_code(code)]
        lasting_code(code) == final_word(Tree::Text(code)));
}

proof fn silence_is_no_output(value: Tree)
    ensures
        outputs(value) == !silent(value),
{
}

/// A failed reply that tells of no output and of no lasting error passes exactly where its status
/// is that of a timeout, of too many requests, or of a server that fails, is down or is
/// overloaded.
pub proof fn statuses_that_pass(status: u16, value: Tree)
    requires
        silent(value),
        mendable(value.at("error"@)),
        mendable(value.at("response"@).at("error"@)),
    ensures
        passes(status, value) <==> (status == 408 || status == 429 || status == 500 || status
            == 502 || status == 503 || status == 504 || status == 529),
{
    words_are_final(value.at("error"@));
    words_are_final(value.at("response"@).at("error"@));
    silence_is_no_output(value);
}

/// A reply that tells of output, or of an error that trying again does not mend, never passes.
pub proof fn final_errors_stay(status: u16, value: Tree)
    requires
        !silent(value) || !mendable(value.at("error"@)) || !mendable(
            value.at("response"@).at("error"@),
        ),
    ensures
        !passes(status, value),
{
    words_are_final(value.at("error"@));
    words_are_final(value.at("response"@).at("error"@));
    silence_is_no_output(value);
}

/// The body of a reply without output and without a lasting error, or one that is no JSON.
pub open spec fn harmless_body(body: Seq<u8>) -> bool {
    match parsed(body) {
        Ok(value) => silent(value) && mendable(value.at("error"@)) && mendable(
            value.at("response"@).at("error"@),
        ),
        Err(_) => true,
    }
}

proof fn nothing_is_silent()
    ensures
        silent(Tree::Null),
        mendable(Tree::Null.at("error"@)),
        mendable(Tree::Null.at("response"@).at("error"@)),
{
    let null = Tree::Null;
    assert(null.at("output"@) is Null);
    assert(null.at("response"@) is Null);
    assert(null.at("usage"@) is Null);
    assert(null.at("output_tokens"@) is Null);
    assert(null.at("error"@) is Null);
    assert(null.at("code"@) is Null);
    assert(null.at("type"@) is Null);
    assert(null.at("gemini_status"@) is Null);
}

/// A reply of an upstream with a status that may pass is read to its end, and switches to the
/// next model where it holds neither output nor a lasting error. A reply with another status that
/// is no success goes to the client as it is.
pub proof fn failed_replies_switch(looking: Looking)
    requires
        looking.status < 200 || looking.status > 299,
    ensures
        ({
            let status = looking.status;
            let passing = status == 408 || status == 429 || status == 500 || status == 502
                || status == 503 || status == 504 || status == 529;
            &&& passing ==> head_judged(false, false, true, status) == Judgement::More
            &&& !passing ==> head_judged(false, false, true, status) == Judgement::Pass
            &&& passing && harmless_body(looking.bytes) ==> looking.end() == Judgement::Switch(
                "http_transient"@,
            )
            &&& !passing || !harmless_body(looking.bytes) ==> looking.end() == Judgement::Pass
        }),
{
    nothing_is_silent();
    let value = body_value(looking.bytes);
    if harmless_body(looking.bytes) {
        statuses_that_pass(looking.status, value);
    } else {
        final_errors_stay(looking.status, value);
    }
}

/// A connection that failed before the upstream could have acted switches; a reply that cannot be
/// read, or that is none of an upstream, goes to the client, and a success is read further.
pub proof fn heads_are_judged(status: u16, upstream: bool, unreached: bool)
    ensures
        head_judged(true, unreached, upstream, status) == Judgement::Pass,
        head_judged(false, true, upstream, status) == Judgement::Switch("connection_error"@),
        head_judged(false, false, false, status) == Judgement::Pass,
        200 <= status <= 299 ==> head_judged(false, false, true, status) == Judgement::More,
{
}

/// A successful stream that ends before it has told anything switches; a successful answer that
/// is no stream goes to the client, unless it is a refusal.
pub proof fn ends_are_judged(looking: Looking)
    requires
        200 <= looking.status <= 299,
    ensures
        looking.sse ==> looking.end() == Judgement::Switch("pre_output_eof"@),
        !looking.sse && parsed(looking.bytes) is Err ==> looking.end() == Judgement::Pass,
        !looking.sse && (parsed(looking.bytes) matches Ok(value) && told(
            value,
            looking.opening.gemini,
        ) == Prelude::Refused) ==> looking.end() == Judgement::Switch("json_refusal"@),
        !looking.sse && (parsed(looking.bytes) matches Ok(value) && told(
            value,
            looking.opening.gemini,
        ) != Prelude::Refused) ==> looking.end() == Judgement::Pass,
{
}

/// A reply is looked at for at most this many bytes; from there on it goes to the client.
pub proof fn looks_are_bounded(looking: Looking, chunk: Seq<u8>)
    requires
        looking.size + chunk.len() >= 262144,
        looking.opening.decision != Prelude::Refused,
        !(looking.sse && 200 <= looking.status <= 299),
    ensures
        looking.chunk(chunk).1 == Judgement::Pass,
        looking.chunk(chunk).0.bytes == looking.bytes + chunk,
{
}

// ---- what an event tells --------------------------------------------------------------------

/// The error that an event carries: that of its response, where it has one.
pub open spec fn error_of(value: Tree) -> Tree {
    if value.at("response"@).has("error"@) {
        value.at("response"@).at("error"@)
    } else {
        value.at("error"@)
    }
}

/// A model refuses where it reports, before any output, that it is overloaded, out of capacity,
/// limited or failing, and nothing lasting beside it. Nothing else is a refusal.
pub proof fn refusals_are_these(value: Tree, gemini: bool)
    ensures
        ({
            let error = error_of(value);
            let code = error.at("code"@);
            let status = error.at("gemini_status"@);
            let kind = value.at("type"@);
            told(value, gemini) == Prelude::Refused <==> {
                &&& silent(value)
                &&& !(error is Null)
                &&& mendable(error)
                &&& kind == Tree::Text("response.failed"@) || kind == Tree::Text("error"@)
                    || !value.has("type"@)
                &&& !gemini ==> code == Tree::Text("server_error"@) || code == Tree::Text(
                    "server_is_overloaded"@,
                ) || code == Tree::Text("capacity_exceeded"@) || code == Tree::Text(
                    "rate_limit_exceeded"@,
                ) || code == Tree::Text("request_timeout"@)
                &&& gemini ==> status == Tree::Text("RESOURCE_EXHAUSTED"@) || status == Tree::Text(
                    "UNAVAILABLE"@,
                ) || status == Tree::Text("INTERNAL"@) || status == Tree::Text(
                    "DEADLINE_EXCEEDED"@,
                ) || status == Tree::Text("ABORTED"@) || status == Tree::Text("UNKNOWN"@)
            }
        }),
{
    words_are_final(error_of(value));
    silence_is_no_output(value);
}

/// An event leaves the choice of the model open only where it reports that a response was created
/// or is in progress, with no output and no error. Every other event that is no refusal commits.
pub proof fn openings_wait(value: Tree, gemini: bool)
    ensures
        told(value, gemini) == Prelude::Waiting <==> {
            &&& silent(value)
            &&& error_of(value) is Null
            &&& value.at("type"@) == Tree::Text("response.created"@) || value.at("type"@)
                == Tree::Text("response.in_progress"@)
        },
{
    silence_is_no_output(value);
}

proof fn plain_bytes_gather(opening: Opening, bytes: Seq<u8>, from: int, to: int)
    requires
        0 <= from <= to <= bytes.len(),
        opening.decision == Prelude::Waiting,
        opening.total + (to - from) < 262144,
        forall|i: int| from <= i < to ==> bytes[i] != 10,
    ensures
        opening.bytes(bytes, from) == (Opening {
            line: opening.line + bytes.subrange(from, to),
            total: (opening.total + (to - from)) as nat,
            ..opening
        }).bytes(bytes, to),
    decreases to - from,
{
    if from < to {
        let next = opening.byte(bytes[from]);
        plain_bytes_gather(next, bytes, from + 1, to);
        assert(next.line + bytes.subrange(from + 1, to) =~= opening.line + bytes.subrange(
            from,
            to,
        ));
    } else {
        assert(opening.line + bytes.subrange(from, to) =~= opening.line);
    }
}

/// The bytes of an event with one line of data.
pub open spec fn event_bytes(data: Seq<u8>) -> Seq<u8> {
    seq![100u8, 97u8, 116u8, 97u8, 58u8, 32u8] + data + seq![10u8, 10u8]
}

/// A stream's event is judged by its data once its blank line has come, and not before.
pub proof fn events_are_judged_at_their_end(opening: Opening, data: Seq<u8>)
    requires
        opening.line.len() == 0,
        opening.data.len() == 0,
        opening.decision == Prelude::Waiting,
        data.len() > 0,
        data.last() != 13,
        forall|i: int| 0 <= i < data.len() ==> data[i] != 10,
        opening.total + event_bytes(data).len() < 262144,
    ensures
        opening.bytes(event_bytes(data), 0).decision == match parsed(data) {
            Ok(value) => told(value, opening.gemini),
            Err(_) => Prelude::Committed,
        },
{
    let bytes = event_bytes(data);
    let n = (6 + data.len()) as int;
    let name = seq![100u8, 97u8, 116u8, 97u8, 58u8, 32u8];
    assert forall|i: int| 0 <= i < n implies bytes[i] != 10 by {
        if i < 6 {
            assert(bytes[i] == name[i]);
        } else {
            assert(bytes[i] == data[i - 6]);
        }
    }
    plain_bytes_gather(opening, bytes, 0, n);
    let line = opening.line + bytes.subrange(0, n);
    assert(line =~= name + data);
    let one = Opening { line, total: (opening.total + n) as nat, ..opening };
    assert(bytes[n] == 10 && bytes[n + 1] == 10);
    assert(line.last() == data.last());
    assert(data_name() =~= seq![100u8, 97u8, 116u8, 97u8, 58u8]);
    assert(data_name().is_prefix_of(line)) by {
        assert(data_name() =~= line.subrange(0, 5));
    }
    let value = line.subrange(5, line.len() as int);
    assert(value[0] == 32);
    assert(value.subrange(1, value.len() as int) =~= data);
    assert(data_value(line) == Some(data));
    let two = one.byte(10u8);
    assert(two.data == data);
    assert(two.line.len() == 0);
    let three = two.byte(10u8);
    assert(two.bytes(bytes, n + 1) == three.bytes(bytes, n + 2));
    assert(three.bytes(bytes, n + 2) == three);
}

// ---- what may be replayed -------------------------------------------------------------------

/// A tool that runs with the client: a function, a custom tool, or a namespace of such.
proof fn local_lists(list: Seq<Tree>, from: int, k: int)
    requires
        0 <= from <= k < list.len(),
        local_tools(list, from),
    ensures
        ({
            let kind = list[k].at("type"@);
            &&& kind == Tree::Text("function"@) || kind == Tree::Text("custom"@) || kind
                == Tree::Text("namespace"@)
            &&& kind == Tree::Text("namespace"@) ==> list[k].at("tools"@) is Array
                && local_tools(list_of(list[k].at("tools"@)), 0)
        }),
    decreases k - from,
{
    assert("function"@ != "namespace"@ && "custom"@ != "namespace"@) by {
        reveal_strlit("function");
        reveal_strlit("namespace");
        reveal_strlit("custom");
        assert("function"@.len() == 8);
        assert("namespace"@.len() == 9);
        assert("custom"@.len() == 6);
    }
    if from < k {
        local_lists(list, from + 1, k);
    }
}

proof fn plain_tools_are_local(list: Seq<Tree>, from: int)
    requires
        0 <= from,
        forall|k: int|
            from <= k < list.len() ==> ((#[trigger] list[k]).at("type"@) == Tree::Text(
                "function"@,
            ) || list[k].at("type"@) == Tree::Text("custom"@)),
    ensures
        local_tools(list, from),
    decreases list.len() - from,
{
    if from < list.len() {
        plain_tools_are_local(list, from + 1);
    }
}

/// A request that continues a conversation of the server, runs in the background or has a tool
/// that the server runs is not replayed on another model; the reason tells which it is.
pub proof fn stateful_requests_are_not_replayed(request: Tree, k: int)
    ensures
        !(request.at("previous_response_id"@) is Null) || !(request.at("conversation"@) is Null)
            ==> blocker(request) == Some("server_side_conversation"@),
        request.at("previous_response_id"@) is Null && request.at("conversation"@) is Null
            && request.at("background"@) == Tree::Bool(true) ==> blocker(request) == Some(
            "background_request"@,
        ),
        0 <= k < list_of(request.at("tools"@)).len() && ({
            let kind = list_of(request.at("tools"@))[k].at("type"@);
            kind != Tree::Text("function"@) && kind != Tree::Text("custom"@) && kind
                != Tree::Text("namespace"@)
        }) ==> blocker(request) is Some,
        0 <= k < list_of(request.at("tools"@)).len() && ({
            let kind = list_of(request.at("tools"@))[k].at("type"@);
            kind != Tree::Text("function"@) && kind != Tree::Text("custom"@) && kind
                != Tree::Text("namespace"@)
        }) && request.at("previous_response_id"@) is Null && request.at("conversation"@) is Null
            && request.at("background"@) != Tree::Bool(true) ==> blocker(request) == Some(
            "hosted_tools"@,
        ),
{
    let list = list_of(request.at("tools"@));
    if 0 <= k < list.len() && local_tools(list, 0) {
        local_lists(list, 0, k);
    }
}

/// A request of its own, whose tools all run with the client, may be replayed.
pub proof fn plain_requests_are_replayed(request: Tree)
    requires
        request.at("previous_response_id"@) is Null,
        request.at("conversation"@) is Null,
        request.at("background"@) != Tree::Bool(true),
        forall|k: int|
            0 <= k < list_of(request.at("tools"@)).len() ==> ((#[trigger] list_of(
                request.at("tools"@),
            )[k]).at("type"@) == Tree::Text("function"@) || list_of(request.at("tools"@))[k].at(
                "type"@,
            ) == Tree::Text("custom"@)),
    ensures
        blocker(request) is None,
{
    plain_tools_are_local(list_of(request.at("tools"@)), 0);
}

/// The rules of a model are those under its own name; whether the name has its `openai/` prefix
/// does not matter.
pub proof fn rules_are_found_by_name(rules: Rules, model: Seq<char>, list: Seq<Seq<char>>)
    requires
        after(model, "openai/"@) is None,
    ensures
        find(rules, model) == Some(list) ==> targets_of(rules, model) == list && targets_of(
            rules,
            "openai/"@ + model,
        ) == list,
        find(rules, model) is None && find(rules, "openai/"@ + model) == Some(list)
            ==> targets_of(rules, model) == list && targets_of(rules, "openai/"@ + model) == list,
        find(rules, model) is None && find(rules, "openai/"@ + model) is None ==> targets_of(
            rules,
            model,
        ).len() == 0,
{
    let long = "openai/"@ + model;
    let n = "openai/"@.len() as int;
    assert(long.subrange(0, n) =~= "openai/"@);
    assert(long.subrange(n, long.len() as int) =~= model);
    assert("openai/"@.is_prefix_of(long));
    assert(after(long, "openai/"@) == Some(model));
}

/// Models are tried one after the other: a reply that calls for another model leads to the next,
/// until there is none; any other reply ends the row.
pub proof fn models_are_tried_in_order(index: nat, count: nat)
    ensures
        attempt_after(index, count, false) is None,
        index + 1 < count ==> attempt_after(index, count, true) == Some((index + 1) as nat),
        index + 1 >= count ==> attempt_after(index, count, true) is None,
{
}

} // verus!

//! How requests are read, prepared and followed.

use vstd::prelude::*;
use vstd::utf8::{encode_utf8, valid_utf8};
use crate::exchange::parsed;
use crate::config::{alias_from, AliasView, Mode};
use crate::logs::lifecycle::{end_details, start_details, Ending, TrackedBody};
use crate::logs::model::body_model;
use crate::logs::websocket::{others, request_of, response_of, terminal, Action, Tracking};
use crate::members::member_laws;
use crate::preparation::{for_gemini, model_prepared, prepared};
use crate::routing::{rewritten_body, RuleBook};
use crate::sse::{data_name, data_value, done_mark, found, scanned, Found, Scan};
use crate::switching::event_bytes;
use crate::tree::Tree;

verus! {

// ---- events ---------------------------------------------------------------------------------

proof fn plain_bytes_gather(
    state: Found,
    bytes: Seq<u8>,
    from: int,
    to: int,
    late: Seq<char>,
    long: Seq<char>,
)
    requires
        0 <= from <= to <= bytes.len(),
        state.fault is None,
        !state.scan.after_cr,
        state.scan.frame + (to - from) <= 16777216,
        forall|i: int| from <= i < to ==> bytes[i] != 10 && bytes[i] != 13,
    ensures
        state.bytes(bytes, from, late, long) == (Found {
            scan: Scan {
                line: state.scan.line + bytes.subrange(from, to),
                frame: (state.scan.frame + (to - from)) as nat,
                ..state.scan
            },
            ..state
        }).bytes(bytes, to, late, long),
    decreases to - from,
{
    if from < to {
        let next = state.byte(bytes[from], late, long);
        plain_bytes_gather(next, bytes, from + 1, to, late, long);
        assert(next.scan.line + bytes.subrange(from + 1, to) =~= state.scan.line + bytes.subrange(
            from,
            to,
        ));
    } else {
        assert(state.scan.line + bytes.subrange(from, to) =~= state.scan.line);
    }
}

/// An event of a stream is read from its data once its blank line has come: its value is the one
/// event that is found, and the reader is ready for the next. Data that is no JSON is refused, and
/// the mark of the end is no event.
#[verifier::rlimit(40)]
pub proof fn events_are_read(scan: Scan, data: Seq<u8>, late: Seq<char>, long: Seq<char>)
    requires
        scan.line.len() == 0,
        scan.data.len() == 0,
        !scan.after_cr,
        !scan.done,
        data.len() > 0,
        forall|i: int| 0 <= i < data.len() ==> data[i] != 10 && data[i] != 13,
        valid_utf8(seq![100u8, 97u8, 116u8, 97u8, 58u8, 32u8] + data),
        scan.frame + event_bytes(data).len() <= 16777216,
    ensures
        ({
            let read = scanned(scan, event_bytes(data), false, late, long);
            let mark = seq![91u8, 68u8, 79u8, 78u8, 69u8, 93u8];
            &&& data != mark ==> (parsed(data) matches Ok(value) ==> read.events == seq![value]
                && read.fault is None && read.scan.data.len() == 0 && !read.scan.done)
            &&& data != mark && parsed(data) is Err ==> read.fault is Some && read.events.len() == 0
            &&& data == mark ==> read.scan.done && read.events.len() == 0 && read.fault is None
        }),
{
    let bytes = event_bytes(data);
    let n = (6 + data.len()) as int;
    let name = seq![100u8, 97u8, 116u8, 97u8, 58u8, 32u8];
    assert forall|i: int| 0 <= i < n implies bytes[i] != 10 && bytes[i] != 13 by {
        if i < 6 {
            assert(bytes[i] == name[i]);
        } else {
            assert(bytes[i] == data[i - 6]);
        }
    }
    let start = found(scan, Seq::empty());
    plain_bytes_gather(start, bytes, 0, n, late, long);
    let line = scan.line + bytes.subrange(0, n);
    assert(line =~= name + data);
    let one = Found {
        scan: Scan { line, frame: (scan.frame + n) as nat, ..scan },
        ..start
    };
    assert(bytes[n] == 10 && bytes[n + 1] == 10);
    assert(data_name() =~= seq![100u8, 97u8, 116u8, 97u8, 58u8]);
    assert(data_name().is_prefix_of(line)) by {
        assert(data_name() =~= line.subrange(0, 5));
    }
    let value = line.subrange(5, line.len() as int);
    assert(value[0] == 32);
    assert(value.subrange(1, value.len() as int) =~= data);
    assert(data_value(line) == Some(data));
    let two = one.byte(10u8, late, long);
    assert(two.scan.data =~= data.push(10u8)) by {
        assert(scan.data + data =~= data);
    }
    assert(two.scan.line.len() == 0);
    assert(two.scan.data.drop_last() =~= data);
    let three = two.byte(10u8, late, long);
    assert(done_mark() =~= seq![91u8, 68u8, 79u8, 78u8, 69u8, 93u8]);
    assert(one.bytes(bytes, n, late, long) == two.bytes(bytes, n + 1, late, long));
    assert(two.bytes(bytes, n + 1, late, long) == three.bytes(bytes, n + 2, late, long));
    assert(three.bytes(bytes, n + 2, late, long) == three);
    if let Ok(value) = parsed(data) {
        assert(Seq::<Tree>::empty().push(value) =~= seq![value]);
    }
}

// ---- preparation ----------------------------------------------------------------------------

/// A request that names a model is recorded with the model that it asked for, the one that it goes
/// to, and the key that it goes under; its body is the rewritten one.
pub proof fn routes_are_recorded(rules: RuleBook, path: Seq<char>, body: Seq<u8>)
    requires
        prepared(rules, path, body) is Ok,
    ensures
        ({
            let done = prepared(rules, path, body)->Ok_0;
            let (changed, key) = rewritten_body(rules, path, body)->Ok_0;
            &&& done.body == changed
            &&& parsed(changed) matches Ok(value) ==> done.value == value
            &&& done.value.has("model"@) ==> (done.route matches Some(route) && route.requested
                == body_model(body) && route.routed == body_model(changed) && route.project == key)
            &&& !done.value.has("model"@) && !done.value.at("session"@).has("model"@)
                ==> done.route is None
        }),
{
}

/// A request goes to the native provider where it ends with a model of that provider, unless this
/// proxy only relays.
pub proof fn native_models_go_to_their_provider(mode: Mode, value: Tree, model: Seq<char>)
    requires
        value.at("model"@) == Tree::Text(model),
    ensures
        for_gemini(mode, value) <==> mode != Mode::Client && "gemini/"@.is_prefix_of(model),
{
}

/// The model field of a form is rewritten as the model of a body is.
pub proof fn form_models_are_rewritten(rules: RuleBook, path: Seq<char>, bytes: Seq<u8>, alias: AliasView)
    requires
        valid_utf8(bytes),
    ensures
        ({
            let model = vstd::utf8::decode_utf8(bytes);
            let found = alias_from(rules.aliases, model, path, 0);
            let done = model_prepared(rules, path, bytes);
            &&& done is Ok
            &&& found is None ==> done->Ok_0.bytes == bytes && !done->Ok_0.changed
            &&& found == Some(alias) ==> (alias.to matches Some(to) ==> done->Ok_0.bytes
                == encode_utf8(to) && done->Ok_0.changed)
            &&& found == Some(alias) && alias.to is None ==> done->Ok_0.bytes == bytes
            &&& done->Ok_0.route matches Some(route) && route.requested == Some(model)
            &&& found == Some(alias) ==> (alias.api_key matches Some(key)
                ==> done->Ok_0.route->Some_0.project == key)
            &&& found is None ==> done->Ok_0.route->Some_0.project == rules.default
        }),
{
}

// ---- what a request comes to ----------------------------------------------------------------

/// A request that was delivered has succeeded, one that broke off has failed, and one whose client
/// went away was cancelled; the record says who ended it.
pub proof fn endings_are_named(sse: bool, completed: bool)
    ensures
        (Ending::Delivered { sse }).outcome_of() == "succeeded"@,
        (Ending::Delivered { sse: true }).source_of() == "stream_end"@,
        (Ending::Delivered { sse: false }).source_of() == "http"@,
        (Ending::Delivered { sse }).code_of() is None,
        Ending::Interrupted.outcome_of() == "failed"@,
        Ending::Interrupted.source_of() == "transport"@,
        Ending::Interrupted.code_of() == Some("upstream_stream_error"@),
        Ending::Disconnected.outcome_of() == "cancelled"@,
        Ending::Disconnected.source_of() == "client_disconnect"@,
        Ending::Disconnected.code_of() == Some("client_disconnected"@),
        (Ending::Told { completed: true }).outcome_of() == "succeeded"@,
        (Ending::Told { completed: false }).outcome_of() == "failed"@,
        (Ending::Told { completed }).source_of() == "responses_event"@,
{
}

/// The bytes of a body are counted; the first are noticed, and the body has been delivered at its
/// end or once its length is reached.
pub proof fn bodies_are_counted(body: TrackedBody, bytes: nat, at_end: bool)
    requires
        !body.guard.done,
        body.guard.bytes + bytes <= u64::MAX,
    ensures
        ({
            let (after, told) = body.passed(bytes, at_end);
            let all = body.guard.bytes + bytes;
            let over = at_end || (body.expected_length matches Some(length) && all >= length);
            &&& after.guard.bytes == all
            &&& told.first_byte == (body.guard.bytes == 0 && bytes > 0)
            &&& over <==> told.ending is Some
            &&& over ==> told.ending == Some(Ending::Delivered { sse: body.is_sse })
        }),
{
}

/// What is recorded of an attempt: its phase and time, and then its number, its outcome, its
/// status, its error and how long it took.
pub proof fn attempts_are_recorded(
    phase: Seq<char>,
    now: u64,
    attempt: u32,
    outcome: Seq<char>,
    status: u16,
    code: Seq<char>,
    elapsed: u64,
)
    ensures
        start_details(phase, now).at("phase"@) == Tree::Text(phase),
        start_details(phase, now).at("started_ms"@).natural() == Some(now),
        ({
            let told = end_details(attempt, outcome, Some(status), Some(code), elapsed);
            &&& told.at("attempt"@).natural() == Some(attempt as u64)
            &&& told.at("outcome"@) == Tree::Text(outcome)
            &&& told.at("status"@).natural() == Some(status as u64)
            &&& told.at("error_code"@) == Tree::Text(code)
            &&& told.at("duration_ms"@).natural() == Some(elapsed)
        }),
{
    broadcast use member_laws;

    reveal_strlit("phase");
    reveal_strlit("started_ms");
    reveal_strlit("attempt");
    reveal_strlit("outcome");
    reveal_strlit("status");
    reveal_strlit("error_code");
    reveal_strlit("duration_ms");
    assert("phase"@.len() == 5);
    assert("started_ms"@.len() == 10);
    assert("attempt"@.len() == 7);
    assert("outcome"@.len() == 7);
    assert("status"@.len() == 6);
    assert("error_code"@.len() == 10);
    assert("duration_ms"@.len() == 11);
    assert("started_ms"@[0] == 's');
    assert("error_code"@[0] == 'e');
    assert("attempt"@[0] == 'a');
    assert("outcome"@[0] == 'o');
}

// ---- several requests on one connection -----------------------------------------------------

/// A response that begins is that of the oldest request that has none; what follows under its id
/// is told of that request.
pub proof fn responses_follow_requests(tracking: Tracking, value: Tree, response: Seq<char>)
    requires
        value.at("type"@) == Tree::Text("response.created"@),
        value.at("response"@).at("id"@) == Tree::Text(response),
        request_of(tracking.responses, response, 0) is None,
        tracking.pending.len() > 0,
    ensures
        ({
            let (after, actions) = tracking.observed(value);
            let first = tracking.pending[0];
            &&& after.responses == tracking.responses.push((response, first))
            &&& after.pending == tracking.pending.subrange(1, tracking.pending.len() as int)
            &&& after.open == tracking.open
            &&& actions.contains(Action::Observe(first))
        }),
{
    let known = tracking.assigned(value);
    let first = tracking.pending[0];
    assert(value.at("response"@).get("id"@) == Some(Tree::Text(response)));
    assert(response_of(value) == Some(response));
    last_is_found(tracking.responses, response, first, 0);
    assert(known.request(value) == Some(first));
    reveal_strlit("response.created");
    reveal_strlit("response.completed");
    reveal_strlit("response.failed");
    reveal_strlit("response.incomplete");
    reveal_strlit("error");
    assert("response.created"@.len() == 16);
    assert("response.completed"@.len() == 18);
    assert("response.failed"@.len() == 15);
    assert("response.incomplete"@.len() == 19);
    assert("error"@.len() == 5);
    reveal_strlit("response.output_item.added");
    reveal_strlit(".delta");
    assert(!(".delta"@.is_suffix_of("response.created"@))) by {
        assert("response.created"@.subrange(10, 16)[0] == "response.created"@[10]);
        assert(".delta"@[0] == '.');
    }
    assert("response.created"@.len() != "response.output_item.added"@.len());
    let actions = tracking.observed(value).1;
    assert(actions.last() == Action::Observe(first));
    assert(actions[actions.len() - 1] == Action::Observe(first));
}

proof fn last_is_found(responses: Seq<(Seq<char>, u64)>, id: Seq<char>, request: u64, from: int)
    requires
        0 <= from <= responses.len(),
        request_of(responses, id, from) is None,
    ensures
        request_of(responses.push((id, request)), id, from) == Some(request),
    decreases responses.len() - from,
{
    if from < responses.len() {
        last_is_found(responses, id, request, from + 1);
    }
}

proof fn the_rest_stays(list: Seq<u64>, id: u64, from: int, kept: Seq<u64>)
    requires
        0 <= from,
        !kept.contains(id),
    ensures
        !others(list, id, from, kept).contains(id),
        forall|other: u64|
            #![trigger kept.contains(other)]
            kept.contains(other) ==> others(list, id, from, kept).contains(other),
        forall|k: int|
            from <= k < list.len() && list[k] != id ==> others(list, id, from, kept).contains(
                #[trigger] list[k],
            ),
    decreases list.len() - from,
{
    if from < list.len() {
        if list[from] == id {
            the_rest_stays(list, id, from + 1, kept);
        } else {
            let next = kept.push(list[from]);
            assert(!next.contains(id));
            assert(next[kept.len() as int] == list[from]);
            assert forall|other: u64|
                #![trigger kept.contains(other)]
                kept.contains(other) implies next.contains(other) by {
                let k = choose|k: int| 0 <= k < kept.len() && kept[k] == other;
                assert(next[k] == other);
            }
            the_rest_stays(list, id, from + 1, next);
            assert(next.contains(list[from]));
        }
    }
}

/// A terminal event ends its request, as completed or not, and leaves the others open.
pub proof fn responses_end_their_requests(tracking: Tracking, value: Tree, id: u64, other: int)
    requires
        value.at("type"@) == Tree::Text("response.completed"@) || value.at("type"@) == Tree::Text(
            "response.failed"@,
        ) || value.at("type"@) == Tree::Text("response.incomplete"@),
        tracking.assigned(value) == tracking,
        tracking.request(value) == Some(id),
        tracking.open.contains(id),
    ensures
        ({
            let (after, actions) = tracking.observed(value);
            &&& actions.len() > 0
            &&& actions.last() == Action::Finish(
                id,
                value.at("type"@) == Tree::Text("response.completed"@),
            )
            &&& !after.open.contains(id)
            &&& 0 <= other < tracking.open.len() && tracking.open[other] != id
                ==> after.open.contains(tracking.open[other])
        }),
{
    the_rest_stays(tracking.open, id, 0, Seq::empty());
}

} // verus!

//! Native stream chunks as typed Responses events. Transport framing and JSON decoding
//! are separate, so the same stream can also serve WebSockets.

use vstd::prelude::*;
use vstd::string::StringExecFns;
use crate::error::{outcome, Error};
use crate::gemini::conversation::{extend, list_of};
use crate::gemini::error::{native_error, ResponseError};
use crate::gemini::flow::{
    assembled, blank_text, first_of, item_event, joined, joins, last_of, members_of, merged_but,
    message_place, stamped, summary_place, Flow, Run,
};
use crate::gemini::partial::{next, Calls, PartialCalls};
use crate::gemini::parts::empty_object;
use crate::gemini::replay::{carrier, copy_all, ReasoningCodec};
use crate::gemini::request::{Converted, ConvertedRequest};
use crate::gemini::response::{
    answer_carrier, candidate_of, check_signature, check_thought, convert_response_at,
    converted_response, convertible,
    is_signature, is_thought, items_of, judged, make_item_name, make_summary_text, merged, number,
    output_items, settled_items, summary_text, unmerged_response, usage_json, usage_or_null,
};
use crate::gemini::truncation::{broke_off, broken_off_streams_end_failed, ends_failed};
use crate::gemini::validate::{response, response_check};
use crate::members::{member_laws, set_keeps_others, set_then_at};
use crate::outside::{fresh_nonce, now_seconds};
use crate::table::entries;
use crate::text::{join2, same, starts_with};
use crate::tree::{json_views, trees, Json, Tree};

verus! {

broadcast use json_views;

/// An incremental conversion of native chunks to Responses events.
pub struct ResponseStream {
    pub request: ConvertedRequest,
    pub id: String,
    pub rest: Json,
    pub candidate: Json,
    pub content: Json,
    pub parts: Vec<Json>,
    pub spent: bool,
    pub sequence: u64,
    pub started: bool,
    pub ended: bool,
    pub active: Option<usize>,
    pub done_items: Vec<usize>,
    pub partial_calls: PartialCalls,
    pub summary_open: bool,
    pub summary: String,
    pub deferred: Vec<Json>,
    pub wire_sequence: u64,
}

/// The places of finished items.
pub open spec fn places(done: Seq<usize>) -> Seq<nat> {
    Seq::new(done.len(), |i: int| done[i] as nat)
}

impl View for ResponseStream {
    type V = Flow;

    open spec fn view(&self) -> Flow {
        Flow {
            request: self.request.deep_view(),
            id: self.id@,
            rest: self.rest@,
            candidate: self.candidate@,
            content: self.content@,
            parts: trees(self.parts@),
            spent: self.spent,
            sequence: self.sequence,
            started: self.started,
            ended: self.ended,
            active: match self.active {
                Some(index) => Some(index as nat),
                None => None,
            },
            done: places(self.done_items@),
            calls: self.partial_calls@,
            summary_open: self.summary_open,
            summary: self.summary@,
            deferred: trees(self.deferred@),
            wire: self.wire_sequence,
        }
    }
}

/// A state with events and no fault.
pub open spec fn run(flow: Flow, events: Seq<Tree>) -> Run {
    Run { flow, events, fault: None }
}

/// Whether a result tells of the fault of a run.
pub open spec fn told(r: Result<(), Error>, fault: Option<Seq<char>>) -> bool {
    match r {
        Ok(_) => fault is None,
        Err(error) => fault == Some(error.message@),
    }
}

fn step(n: u64) -> (r: u64)
    ensures
        r == next(n),
{
    if n == u64::MAX {
        0
    } else {
        n + 1
    }
}

fn make_message_place(id: &str, index: usize) -> (r: Json)
    ensures
        r@ == message_place(id@, index as nat),
{
    Json::object().with("output_index", Json::natural(index as u64)).with(
        "item_id",
        Json::String(make_item_name("msg_", id, index)),
    ).with("content_index", Json::natural(0))
}

fn make_summary_place(id: &str) -> (r: Json)
    ensures
        r@ == summary_place(id@),
{
    Json::object().with("output_index", Json::natural(0)).with(
        "item_id",
        Json::String(join2("rs_", id)),
    ).with("summary_index", Json::natural(0))
}

fn make_blank_text() -> (r: Json)
    ensures
        r@ == blank_text(),
{
    Json::object().with("type", Json::text("output_text")).with("text", Json::text("")).with(
        "annotations",
        Json::Array(Vec::new()),
    )
}

fn make_item_event(index: usize, item: Json) -> (r: Json)
    ensures
        r@ == item_event(index as nat, item@),
{
    Json::object().with("output_index", Json::natural(index as u64)).with("item", item)
}

pub(crate) fn first_item(value: &Json) -> (r: &Json)
    ensures
        r@ == first_of(list_of(value@)),
{
    match value.as_array() {
        Some(items) => if items.len() > 0 {
            &items[0]
        } else {
            &Json::Null
        },
        None => &Json::Null,
    }
}

fn last_item(items: &Vec<Json>) -> (r: &Json)
    ensures
        r@ == last_of(trees(items@)),
{
    if items.len() > 0 {
        &items[items.len() - 1]
    } else {
        &Json::Null
    }
}

fn merge_but(object: &mut Json, value: &Json, but: &str)
    ensures
        final(object)@ == merged_but(old(object)@, members_of(value@), 0, but@),
{
    let fields = match value.as_object() {
        Some(fields) => fields,
        None => return,
    };
    let ghost whole = merged_but(object@, members_of(value@), 0, but@);
    let mut i: usize = 0;
    while i < fields.len()
        invariant
            i <= fields.len(),
            members_of(value@) == entries(fields@),
            whole == merged_but(old(object)@, members_of(value@), 0, but@),
            whole == merged_but(object@, members_of(value@), i as int, but@),
        decreases fields.len() - i,
    {
        if !same(fields[i].0.as_str(), but) {
            object.set(fields[i].0.as_str(), fields[i].1.copy());
        }
        i += 1;
    }
}

fn join_text(last: &Json, part: &Json, text: &str) -> (r: Json)
    ensures
        r@ == joined(last@, part@, text@),
{
    let mut out = last.copy();
    match last.at("text").as_str() {
        Some(previous) => out.set("text", Json::String(join2(previous, text))),
        None => {},
    }
    merge_but(&mut out, part, "text");
    out
}

impl ResponseStream {
    /// The slots that streamed arguments allocate stay within their bound.
    pub open spec fn wf(&self) -> bool {
        self.partial_calls.wf()
    }

    /// A stream that has accepted nothing yet.
    pub fn new(request: ConvertedRequest, id: &str) -> (r: ResponseStream)
        ensures
            r.wf(),
            r@ == fresh(request.deep_view(), id@),
    {
        let r = ResponseStream {
            request,
            id: id.to_string(),
            rest: Json::object(),
            candidate: Json::object().with("index", Json::natural(0)),
            content: Json::object().with("role", Json::text("model")),
            parts: Vec::new(),
            spent: false,
            sequence: 0,
            started: false,
            ended: false,
            active: None,
            done_items: Vec::new(),
            partial_calls: PartialCalls::new(),
            summary_open: false,
            summary: String::new(),
            deferred: Vec::new(),
            wire_sequence: 0,
        };
        proof {
            assert(places(r.done_items@) =~= Seq::<nat>::empty());
        }
        r
    }

    fn emit(&mut self, events: &mut Vec<Json>, kind: &str, event: Json)
        ensures
            run(final(self)@, trees(final(events)@)) == run(old(self)@, trees(old(events)@)).emitted(
                kind@,
                event@,
            ),
            final(self).wf() == old(self).wf(),
    {
        let stamp = self.sequence;
        events.push(
            event.with("type", Json::text(kind)).with("sequence_number", Json::natural(stamp)),
        );
        self.sequence = step(stamp);
    }

    fn items(&self) -> (r: Result<Vec<Json>, Error>)
        ensures
            outcome(r) == self@.items(),
    {
        output_items(&self.parts, &self.request.tools, self.id.as_str())
    }

    fn finish_item(&mut self, index: usize)
        ensures
            final(self)@ == (Flow { done: old(self)@.done.push(index as nat), ..old(self)@ }),
            final(self).wf() == old(self).wf(),
    {
        self.done_items.push(index);
        proof {
            assert(places(self.done_items@) =~= old(self)@.done.push(index as nat));
        }
    }

    fn close_active(&mut self, events: &mut Vec<Json>) -> (r: Result<(), Error>)
        ensures
            ({
                let spec = run(old(self)@, trees(old(events)@)).closed();
                &&& final(self)@ == spec.flow
                &&& trees(final(events)@) == spec.events
                &&& told(r, spec.fault)
            }),
            final(self).wf() == old(self).wf(),
    {
        let index: usize = match self.active {
            Some(index) => index,
            None => return Ok(()),
        };
        self.active = None;
        let items = self.items()?;
        if index == 0 || index > items.len() {
            return Err(Error::new("Invalid active stream item"));
        }
        let part = first_item(items[index - 1].at("content"));
        let place = make_message_place(self.id.as_str(), index);
        self.emit(
            events,
            "response.output_text.done",
            place.copy().with("text", part.at("text").copy()),
        );
        self.emit(events, "response.content_part.done", place.with("part", part.copy()));
        self.finish_item(index);
        Ok(())
    }

    fn take_thought(&mut self, events: &mut Vec<Json>, text: &str)
        ensures
            run(final(self)@, trees(final(events)@)) == run(old(self)@, trees(old(events)@)).thought(
                text@,
            ),
            final(self).wf() == old(self).wf(),
    {
        let place = make_summary_place(self.id.as_str());
        if !self.summary_open {
            self.summary_open = true;
            let part = Json::object().with("type", Json::text("summary_text")).with(
                "text",
                Json::text(""),
            );
            self.emit(
                events,
                "response.reasoning_summary_part.added",
                place.copy().with("part", part),
            );
        }
        self.summary.append(text);
        self.emit(
            events,
            "response.reasoning_summary_text.delta",
            place.with("delta", Json::text(text)),
        );
    }

    fn open_message(&mut self, events: &mut Vec<Json>) -> (r: Result<(), Error>)
        ensures
            ({
                let spec = run(old(self)@, trees(old(events)@)).opened();
                &&& final(self)@ == spec.flow
                &&& trees(final(events)@) == spec.events
                &&& told(r, spec.fault)
            }),
            final(self).wf() == old(self).wf(),
    {
        let items = self.items()?;
        let index: usize = items.len();
        let item = last_item(&items).copy().with("status", Json::text("in_progress")).with(
            "content",
            Json::Array(Vec::new()),
        );
        self.active = Some(index);
        self.emit(events, "response.output_item.added", make_item_event(index, item));
        let place = make_message_place(self.id.as_str(), index);
        self.emit(events, "response.content_part.added", place.with("part", make_blank_text()));
        Ok(())
    }

    fn take_text(&mut self, events: &mut Vec<Json>, text: &str)
        ensures
            run(final(self)@, trees(final(events)@)) == run(old(self)@, trees(old(events)@)).text(
                text@,
            ),
            final(self).wf() == old(self).wf(),
    {
        let index: usize = match self.active {
            Some(index) => index,
            None => 0,
        };
        let place = make_message_place(self.id.as_str(), index);
        self.emit(events, "response.output_text.delta", place.with("delta", Json::text(text)));
    }

    fn argue(
        &mut self,
        events: &mut Vec<Json>,
        item: &Json,
        index: usize,
        kind: &str,
        field: &str,
        event: &str,
    )
        ensures
            run(final(self)@, trees(final(events)@)) == run(old(self)@, trees(old(events)@)).argued(
                item@,
                index as nat,
                kind@,
                field@,
                event@,
            ),
            final(self).wf() == old(self).wf(),
    {
        if item.at("type").is(kind) {
            let body = Json::object().with("output_index", Json::natural(index as u64)).with(
                "item_id",
                item.at("id").copy(),
            ).with("delta", item.at(field).copy());
            self.emit(events, event, body);
        }
    }

    fn take_whole(&mut self, events: &mut Vec<Json>) -> (r: Result<(), Error>)
        ensures
            ({
                let spec = run(old(self)@, trees(old(events)@)).whole();
                &&& final(self)@ == spec.flow
                &&& trees(final(events)@) == spec.events
                &&& told(r, spec.fault)
            }),
            final(self).wf() == old(self).wf(),
    {
        let items = self.items()?;
        let index: usize = items.len();
        let item = last_item(&items);
        let mut initial = item.copy().with("status", Json::text("in_progress"));
        if item.at("type").is("function_call") {
            initial.set("arguments", Json::text(""));
        } else if item.at("type").is("custom_tool_call") {
            initial.set("input", Json::text(""));
        }
        self.emit(events, "response.output_item.added", make_item_event(index, initial));
        self.argue(
            events,
            item,
            index,
            "function_call",
            "arguments",
            "response.function_call_arguments.delta",
        );
        self.argue(
            events,
            item,
            index,
            "custom_tool_call",
            "input",
            "response.custom_tool_call_input.delta",
        );
        self.finish_item(index);
        Ok(())
    }

    fn joins(&self, part: &Json) -> (r: bool)
        ensures
            r == joins(self@.parts, part@),
    {
        if !part.at("text").is_string() || self.parts.len() == 0 {
            return false;
        }
        let last = &self.parts[self.parts.len() - 1];
        last.has("text") && check_thought(last) == check_thought(part) && !last.has(
            "thoughtSignature",
        )
    }

    fn replace_last(&mut self, part: Json)
        requires
            old(self).parts.len() > 0,
        ensures
            final(self)@ == (Flow {
                parts: old(self)@.parts.update(old(self)@.parts.len() - 1, part@),
                ..old(self)@
            }),
            final(self).wf() == old(self).wf(),
    {
        let at: usize = self.parts.len() - 1;
        self.parts.set(at, part);
        proof {
            assert(trees(self.parts@) =~= old(self)@.parts.update(at as int, part@));
        }
    }

    fn store(&mut self, part: &Json, merge: bool) -> (r: Result<(), Error>)
        requires
            merge == joins(old(self)@.parts, part@),
        ensures
            forall|events: Seq<Tree>|
                #![trigger run(old(self)@, events)]
                ({
                    let spec = run(old(self)@, events).stored(part@, merge);
                    &&& final(self)@ == spec.flow
                    &&& events == spec.events
                    &&& told(r, spec.fault)
                }),
            final(self).wf() == old(self).wf(),
    {
        if check_signature(part) {
            if self.parts.len() == 0 {
                return Err(Error::new("Detached signature has no preceding part"));
            }
            let last = &self.parts[self.parts.len() - 1];
            if last.has("thoughtSignature") {
                return Err(Error::new("Conflicting Gemini signatures"));
            }
            let signed = last.copy().with("thoughtSignature", part.at("thoughtSignature").copy());
            self.replace_last(signed);
        } else if merge {
            let text = match part.at("text").as_str() {
                Some(text) => text,
                None => "",
            };
            let longer = join_text(&self.parts[self.parts.len() - 1], part, text);
            self.replace_last(longer);
        } else {
            self.parts.push(part.copy());
        }
        Ok(())
    }

    fn announce(&mut self, events: &mut Vec<Json>, part: &Json, merge: bool) -> (r: Result<
        (),
        Error,
    >)
        ensures
            ({
                let spec = run(old(self)@, trees(old(events)@)).announced(part@, merge);
                &&& final(self)@ == spec.flow
                &&& trees(final(events)@) == spec.events
                &&& told(r, spec.fault)
            }),
            final(self).wf() == old(self).wf(),
    {
        match part.at("text").as_str() {
            Some(text) => {
                if check_thought(part) {
                    self.take_thought(events, text);
                } else if !text.is_empty() {
                    if !merge || self.active.is_none() {
                        self.open_message(events)?;
                    }
                    self.take_text(events, text);
                }
                Ok(())
            },
            None => {
                if check_thought(part) || check_signature(part) {
                    Ok(())
                } else {
                    self.take_whole(events)
                }
            },
        }
    }

    fn take_part(&mut self, events: &mut Vec<Json>, part: &Json) -> (r: Result<(), Error>)
        ensures
            ({
                let spec = run(old(self)@, trees(old(events)@)).part(part@);
                &&& final(self)@ == spec.flow
                &&& trees(final(events)@) == spec.events
                &&& told(r, spec.fault)
            }),
            final(self).wf() == old(self).wf(),
    {
        let merge = self.joins(part);
        if !check_thought(part) && !merge && !check_signature(part) {
            self.close_active(events)?;
        }
        let ghost ready = run(self@, trees(events@));
        self.store(part, merge)?;
        self.announce(events, part, merge)
    }
}

/// A stream that has accepted nothing yet.
pub open spec fn fresh(request: crate::gemini::request::Converted, id: Seq<char>) -> Flow {
    Flow {
        request,
        id,
        rest: empty_object(),
        candidate: empty_object().with("index"@, number(0)),
        content: empty_object().with("role"@, Tree::Text("model"@)),
        parts: Seq::empty(),
        spent: false,
        sequence: 0,
        started: false,
        ended: false,
        active: None,
        done: Seq::empty(),
        calls: Calls {
            active: Seq::empty(),
            queue: Seq::empty(),
            serial: 0,
            slots: 0,
            trace: Seq::empty(),
        },
        summary_open: false,
        summary: Seq::empty(),
        deferred: Seq::empty(),
        wire: 0,
    }
}

// ---- feeding chunks -----------------------------------------------------------

/// Events numbered as they are sent, from `from` on.
pub open spec fn numbered(events: Seq<Tree>, from: int, wire: u64, out: Seq<Tree>) -> (
    Seq<Tree>,
    u64,
)
    decreases events.len() - from,
{
    if from < 0 || from >= events.len() {
        (out, wire)
    } else {
        numbered(
            events,
            from + 1,
            next(wire),
            out.push(events[from].with("sequence_number"@, number(wire))),
        )
    }
}

/// Whether an event stays live while structured output is held back: reasoning and
/// lifecycle.
pub open spec fn live(event: Tree) -> bool {
    match event.at("type"@) {
        Tree::Text(kind) => kind == "response.created"@ || kind == "response.in_progress"@
            || "response.reasoning_"@.is_prefix_of(kind) || (kind == "response.output_item.added"@
            && event.at("output_index"@) == number(0)),
        _ => false,
    }
}

/// The live events from `from` on, and those that are held back.
pub open spec fn sifted(events: Seq<Tree>, from: int, sent: Seq<Tree>, held: Seq<Tree>) -> (
    Seq<Tree>,
    Seq<Tree>,
)
    decreases events.len() - from,
{
    if from < 0 || from >= events.len() {
        (sent, held)
    } else if live(events[from]) {
        sifted(events, from + 1, sent.push(events[from]), held)
    } else {
        sifted(events, from + 1, sent, held.push(events[from]))
    }
}

impl Flow {
    /// Events as they are sent: numbered anew where structured output was held back.
    pub open spec fn sent(self, events: Seq<Tree>) -> (Flow, Seq<Tree>) {
        if self.request.output_schema is Some {
            let (out, wire) = numbered(events, 0, self.wire, Seq::empty());
            (Flow { wire, ..self }, out)
        } else {
            (self, events)
        }
    }

    /// The native response with the fragments of streamed calls, where there were any.
    pub open spec fn traced(self) -> Tree {
        if self.calls.trace.len() > 0 {
            self.native().with("streamFunctionCallParts"@, Tree::Array(self.calls.trace))
        } else {
            self.native()
        }
    }

    /// A terminal failure. It never completes executable output, and native data
    /// already accepted is kept for diagnostics.
    #[verifier::opaque]
    pub open spec fn broken(self, code: Seq<char>, message: Seq<char>) -> (Flow, Tree) {
        let native = self.traced();
        let response = empty_object().with("id"@, Tree::Text("resp_"@ + self.id)).with(
            "object"@,
            Tree::Text("response"@),
        ).with("model"@, Tree::Text(self.request.response_model)).with(
            "status"@,
            Tree::Text("failed"@),
        ).with("output"@, Tree::Array(Seq::empty())).with("usage"@, usage_or_null(native)).with(
            "gemini"@,
            native,
        ).with(
            "error"@,
            empty_object().with("type"@, Tree::Text("server_error"@)).with(
                "code"@,
                Tree::Text(code),
            ).with("message"@, Tree::Text(message)).with("param"@, Tree::Null),
        );
        let ended = run(
            Flow {
                ended: true,
                deferred: Seq::empty(),
                spent: true,
                calls: Calls { trace: Seq::empty(), ..self.calls },
                ..self
            },
            Seq::empty(),
        ).emitted("response.failed"@, empty_object().with("response"@, response));
        let (flow, events) = ended.flow.sent(ended.events);
        (flow, events[0])
    }

    /// A chunk that is no error.
    #[verifier::opaque]
    pub open spec fn taken(self, chunk: Tree) -> Run {
        let start = run(self, Seq::empty());
        match response_check(chunk) {
            Err(message) => start.failed(message),
            Ok(_) => {
                let begun = start.begun();
                let candidates = list_of(chunk.at("candidates"@));
                let held = if candidates.len() > 0 {
                    begun.candidate(candidates[0])
                } else {
                    begun
                };
                if held.fault is Some {
                    held
                } else {
                    Run {
                        flow: Flow {
                            rest: merged_but(
                                held.flow.rest,
                                members_of(chunk),
                                0,
                                "candidates"@,
                            ),
                            ..held.flow
                        },
                        ..held
                    }
                }
            },
        }
    }

    /// The state after a chunk, and the events to send.
    pub open spec fn fed(self, chunk: Tree) -> (Flow, Result<Seq<Tree>, Seq<char>>) {
        if self.ended {
            (self, Err("Gemini event arrived after stream completion"@))
        } else if chunk.has("error"@) {
            let (flow, event) = Flow {
                rest: self.rest.with("error"@, chunk.at("error"@)),
                ..self
            }.broken("server_error"@, "Gemini request failed"@);
            (
                flow,
                Ok(
                    seq![
                        event.with(
                            "response"@,
                            event.at("response"@).with("error"@, native_error(chunk, None).0),
                        ),
                    ],
                ),
            )
        } else {
            let done = self.taken(chunk);
            match done.fault {
                Some(message) => (Flow { ended: true, ..done.flow }, Err(message)),
                None => if self.request.output_schema is None {
                    (done.flow, Ok(done.events))
                } else {
                    let (sent, held) = sifted(done.events, 0, Seq::empty(), done.flow.deferred);
                    let (flow, events) = Flow { deferred: held, ..done.flow }.sent(sent);
                    (flow, Ok(events))
                },
            }
        }
    }
}

fn is_live(event: &Json) -> (r: bool)
    ensures
        r == live(event@),
{
    match event.at("type").as_str() {
        Some(kind) => same(kind, "response.created") || same(kind, "response.in_progress")
            || starts_with(kind, "response.reasoning_") || (same(
            kind,
            "response.output_item.added",
        ) && is_zero(event.at("output_index"))),
        None => false,
    }
}

fn is_zero(value: &Json) -> (r: bool)
    ensures
        r == (value@ == number(0)),
{
    matches!(value.as_u64(), Some(0))
}

impl ResponseStream {
    fn wire_events(&mut self, events: Vec<Json>) -> (r: Vec<Json>)
        ensures
            (final(self)@, trees(r@)) == old(self)@.sent(trees(events@)),
            final(self).wf() == old(self).wf(),
    {
        if self.request.output_schema.is_none() {
            return events;
        }
        let mut wire: u64 = self.wire_sequence;
        let mut out: Vec<Json> = Vec::new();
        let mut i: usize = 0;
        while i < events.len()
            invariant
                i <= events.len(),
                numbered(trees(events@), 0, old(self).wire_sequence, Seq::empty()) == numbered(
                    trees(events@),
                    i as int,
                    wire,
                    trees(out@),
                ),
            decreases events.len() - i,
        {
            out.push(events[i].copy().with("sequence_number", Json::natural(wire)));
            wire = step(wire);
            i += 1;
        }
        self.wire_sequence = wire;
        out
    }

    fn sift(&mut self, events: Vec<Json>) -> (r: Vec<Json>)
        ensures
            ({
                let (sent, held) = sifted(
                    trees(events@),
                    0,
                    Seq::empty(),
                    old(self)@.deferred,
                );
                &&& trees(r@) == sent
                &&& final(self)@ == (Flow { deferred: held, ..old(self)@ })
            }),
            final(self).wf() == old(self).wf(),
    {
        let mut sent: Vec<Json> = Vec::new();
        let mut i: usize = 0;
        while i < events.len()
            invariant
                i <= events.len(),
                self@ == (Flow { deferred: trees(self.deferred@), ..old(self)@ }),
                self.wf() == old(self).wf(),
                sifted(trees(events@), 0, Seq::empty(), old(self)@.deferred) == sifted(
                    trees(events@),
                    i as int,
                    trees(sent@),
                    trees(self.deferred@),
                ),
            decreases events.len() - i,
        {
            if is_live(&events[i]) {
                sent.push(events[i].copy());
            } else {
                self.deferred.push(events[i].copy());
            }
            i += 1;
        }
        sent
    }

    fn native(&self) -> (r: Json)
        ensures
            r@ == self@.native(),
    {
        if self.spent {
            return Json::Null;
        }
        let content = self.content.copy().with("parts", Json::Array(copy_all(&self.parts)));
        let candidate = self.candidate.copy().with("content", content);
        let mut candidates: Vec<Json> = Vec::new();
        let ghost shown = candidate@;
        candidates.push(candidate);
        proof {
            assert(trees(candidates@) =~= seq![shown]);
        }
        self.rest.copy().with("candidates", Json::Array(candidates))
    }

    fn traced(&self) -> (r: Json)
        ensures
            r@ == self@.traced(),
    {
        let native = self.native();
        if self.partial_calls.trace.len() > 0 {
            native.with(
                "streamFunctionCallParts",
                Json::Array(copy_all(&self.partial_calls.trace)),
            )
        } else {
            native
        }
    }

    /// Ends the stream with a transport or parser failure.
    pub fn fail(&mut self, code: &str, message: &str) -> (r: Json)
        requires
            old(self).wf(),
        ensures
            (final(self)@, r@) == old(self)@.broken(code@, message@),
            final(self).wf(),
    {
        proof {
            reveal(Flow::broken);
        }
        let native = self.traced();
        let error = Json::object().with("type", Json::text("server_error")).with(
            "code",
            Json::text(code),
        ).with("message", Json::text(message)).with("param", Json::Null);
        let response = Json::object().with("id", Json::String(join2("resp_", self.id.as_str()))).with(
            "object",
            Json::text("response"),
        ).with("model", Json::text(self.request.response_model.as_str())).with(
            "status",
            Json::text("failed"),
        ).with("output", Json::Array(Vec::new())).with("usage", usage_json(&native)).with(
            "gemini",
            native,
        ).with("error", error);
        self.ended = true;
        self.deferred = Vec::new();
        self.spent = true;
        self.partial_calls.trace = Vec::new();
        let mut events: Vec<Json> = Vec::new();
        proof {
            assert(trees(events@) =~= Seq::<Tree>::empty());
        }
        self.emit(&mut events, "response.failed", Json::object().with("response", response));
        let ghost flow = self@;
        let ghost listed = trees(events@);
        let sent = self.wire_events(events);
        proof {
            assert(listed.len() == 1);
            reveal_with_fuel(numbered, 3);
            assert(trees(sent@).len() == 1);
        }
        sent[0].copy()
    }

    /// Whether the stream has ended.
    pub fn is_finished(&self) -> (r: bool)
        ensures
            r == self@.ended,
    {
        self.ended
    }

    fn begin(&mut self, events: &mut Vec<Json>)
        ensures
            run(final(self)@, trees(final(events)@)) == run(
                old(self)@,
                trees(old(events)@),
            ).begun(),
            final(self).wf() == old(self).wf(),
    {
        if self.started {
            return;
        }
        self.started = true;
        let response = Json::object().with("id", Json::String(join2("resp_", self.id.as_str()))).with(
            "object",
            Json::text("response"),
        ).with("model", Json::text(self.request.response_model.as_str())).with(
            "status",
            Json::text("in_progress"),
        ).with("output", Json::Array(Vec::new())).with("usage", Json::Null);
        let event = Json::object().with("response", response);
        self.emit(events, "response.created", event.copy());
        self.emit(events, "response.in_progress", event);
        let item = Json::object().with("id", Json::String(join2("rs_", self.id.as_str()))).with(
            "type",
            Json::text("reasoning"),
        ).with("summary", Json::Array(Vec::new()));
        self.emit(events, "response.output_item.added", make_item_event(0, item));
    }

    fn assemble(&mut self, parts: &Vec<Json>) -> (r: Result<Vec<Json>, Error>)
        requires
            old(self).wf(),
        ensures
            ({
                let (calls, ready) = assembled(
                    old(self)@.calls,
                    trees(parts@),
                    0,
                    Seq::empty(),
                );
                &&& final(self)@ == (Flow { calls, ..old(self)@ })
                &&& outcome(r) == ready
            }),
            final(self).wf(),
    {
        let ghost whole = assembled(self@.calls, trees(parts@), 0, Seq::empty());
        let mut out: Vec<Json> = Vec::new();
        let mut i: usize = 0;
        while i < parts.len()
            invariant
                i <= parts.len(),
                self.wf(),
                self@ == (Flow { calls: self@.calls, ..old(self)@ }),
                whole == assembled(old(self)@.calls, trees(parts@), 0, Seq::empty()),
                whole == assembled(self@.calls, trees(parts@), i as int, trees(out@)),
            decreases parts.len() - i,
        {
            let more = self.partial_calls.part(&parts[i])?;
            extend(&mut out, more);
            i += 1;
        }
        Ok(out)
    }

    fn take_parts(&mut self, events: &mut Vec<Json>, parts: &Vec<Json>) -> (r: Result<(), Error>)
        ensures
            ({
                let spec = run(old(self)@, trees(old(events)@)).parts(trees(parts@), 0);
                &&& final(self)@ == spec.flow
                &&& trees(final(events)@) == spec.events
                &&& told(r, spec.fault)
            }),
            final(self).wf() == old(self).wf(),
    {
        let ghost whole = run(self@, trees(events@)).parts(trees(parts@), 0);
        let mut i: usize = 0;
        while i < parts.len()
            invariant
                i <= parts.len(),
                self.wf() == old(self).wf(),
                whole == run(old(self)@, trees(old(events)@)).parts(trees(parts@), 0),
                whole == run(self@, trees(events@)).parts(trees(parts@), i as int),
            decreases parts.len() - i,
        {
            self.take_part(events, &parts[i])?;
            i += 1;
        }
        Ok(())
    }

    fn take_candidate(&mut self, events: &mut Vec<Json>, candidate: &Json) -> (r: Result<
        (),
        Error,
    >)
        requires
            old(self).wf(),
        ensures
            ({
                let spec = run(old(self)@, trees(old(events)@)).candidate(candidate@);
                &&& final(self)@ == spec.flow
                &&& trees(final(events)@) == spec.events
                &&& told(r, spec.fault)
            }),
            final(self).wf(),
    {
        match candidate.at("content").at("parts").as_array() {
            Some(parts) => {
                let ready = self.assemble(parts)?;
                self.take_parts(events, &ready)?;
            },
            None => {},
        }
        merge_but(&mut self.content, candidate.at("content"), "parts");
        merge_but(&mut self.candidate, candidate, "content");
        Ok(())
    }

    fn take_chunk(&mut self, events: &mut Vec<Json>, chunk: &Json) -> (r: Result<(), Error>)
        requires
            old(self).wf(),
            trees(old(events)@) == Seq::<Tree>::empty(),
        ensures
            ({
                let spec = old(self)@.taken(chunk@);
                &&& final(self)@ == spec.flow
                &&& trees(final(events)@) == spec.events
                &&& told(r, spec.fault)
            }),
            final(self).wf(),
    {
        proof {
            reveal(Flow::taken);
        }
        response(chunk)?;
        self.begin(events);
        match chunk.at("candidates").as_array() {
            Some(candidates) => if candidates.len() > 0 {
                self.take_candidate(events, &candidates[0])?;
            },
            None => {},
        }
        merge_but(&mut self.rest, chunk, "candidates");
        Ok(())
    }

    /// Takes a native chunk, and gives the events to send.
    pub fn feed(&mut self, chunk: &Json) -> (r: Result<Vec<Json>, Error>)
        requires
            old(self).wf(),
        ensures
            (final(self)@, outcome(r)) == old(self)@.fed(chunk@),
            final(self).wf(),
    {
        if self.ended {
            return Err(Error::new("Gemini event arrived after stream completion"));
        }
        let strict = self.request.output_schema.is_some();
        let mut events: Vec<Json> = Vec::new();
        if chunk.has("error") {
            let error = ResponseError::from_native(chunk, None).error;
            self.rest.set("error", chunk.at("error").copy());
            let mut event = self.fail("server_error", "Gemini request failed");
            let response = event.at("response").copy().with("error", error);
            event.set("response", response);
            let ghost shown = event@;
            events.push(event);
            proof {
                assert(trees(events@) =~= seq![shown]);
            }
            return Ok(events);
        }
        match self.take_chunk(&mut events, chunk) {
            Err(error) => {
                self.ended = true;
                Err(error)
            },
            Ok(_) => {
                if !strict {
                    return Ok(events);
                }
                let sent = self.sift(events);
                Ok(self.wire_events(sent))
            },
        }
    }
}

// ---- the end -------------------------------------------------------------------

/// A number put in its place among ascending numbers.
pub open spec fn inserted(sorted: Seq<nat>, n: nat) -> Seq<nat>
    decreases sorted.len(),
{
    if sorted.len() == 0 || sorted.last() <= n {
        sorted.push(n)
    } else {
        inserted(sorted.drop_last(), n).push(sorted.last())
    }
}

/// The first `count` numbers in ascending order.
pub open spec fn ascending(list: Seq<nat>, count: nat) -> Seq<nat>
    decreases count,
{
    if count == 0 || count > list.len() {
        Seq::empty()
    } else {
        inserted(ascending(list, (count - 1) as nat), list[count - 1])
    }
}

fn insert(sorted: &mut Vec<usize>, n: usize)
    ensures
        places(final(sorted)@) == inserted(places(old(sorted)@), n as nat),
    decreases old(sorted).len(),
{
    let ghost before = places(sorted@);
    if sorted.len() == 0 || sorted[sorted.len() - 1] <= n {
        sorted.push(n);
        proof {
            assert(places(sorted@) =~= before.push(n as nat));
        }
        return;
    }
    match sorted.pop() {
        Some(last) => {
            proof {
                assert(places(sorted@) =~= before.drop_last());
            }
            insert(sorted, n);
            let ghost inner = places(sorted@);
            sorted.push(last);
            proof {
                assert(places(sorted@) =~= inner.push(last as nat));
            }
        },
        None => {},
    }
}

fn sort(list: &Vec<usize>) -> (r: Vec<usize>)
    ensures
        places(r@) == ascending(places(list@), list@.len()),
{
    let mut out: Vec<usize> = Vec::new();
    let mut i: usize = 0;
    proof {
        assert(places(out@) =~= Seq::<nat>::empty());
    }
    while i < list.len()
        invariant
            i <= list.len(),
            places(out@) == ascending(places(list@), i as nat),
        decreases list.len() - i,
    {
        insert(&mut out, list[i]);
        i += 1;
    }
    out
}

impl Run {
    /// Announces that an item is done. A call is done only in a completed response.
    pub open spec fn ended_item(self, response: Tree, index: nat) -> Run {
        let output = list_of(response.at("output"@));
        if index >= output.len() {
            self.failed("Invalid completed stream item"@)
        } else {
            let item = output[index as int];
            let place = empty_object().with("output_index"@, number(index as u64)).with(
                "item_id"@,
                item.at("id"@),
            );
            if item.at("type"@) == Tree::Text("function_call"@) {
                if response.at("status"@) == Tree::Text("completed"@) {
                    self.emitted(
                        "response.function_call_arguments.done"@,
                        place.with("arguments"@, item.at("arguments"@)),
                    ).emitted("response.output_item.done"@, item_event(index, item))
                } else {
                    self
                }
            } else if item.at("type"@) == Tree::Text("custom_tool_call"@) {
                if response.at("status"@) == Tree::Text("completed"@) {
                    self.emitted(
                        "response.custom_tool_call_input.done"@,
                        place.with("input"@, item.at("input"@)),
                    ).emitted("response.output_item.done"@, item_event(index, item))
                } else {
                    self
                }
            } else {
                self.emitted("response.output_item.done"@, item_event(index, item))
            }
        }
    }

    /// Announces that the items from `from` on are done.
    pub open spec fn ended_items(self, response: Tree, done: Seq<nat>, from: int) -> Run
        decreases done.len() - from,
    {
        if from < 0 || from >= done.len() {
            self
        } else {
            let one = self.ended_item(response, done[from]);
            if one.fault is Some {
                one
            } else {
                one.ended_items(response, done, from + 1)
            }
        }
    }

    /// Announces that the reasoning summary is done.
    pub open spec fn ended_summary(self) -> Run {
        if self.flow.summary_open {
            let place = summary_place(self.flow.id);
            self.emitted(
                "response.reasoning_summary_text.done"@,
                place.with("text"@, Tree::Text(self.flow.summary)),
            ).emitted(
                "response.reasoning_summary_part.done"@,
                place.with("part"@, summary_text(self.flow.summary)),
            )
        } else {
            self
        }
    }
}

/// The type of the last event, by status.
pub open spec fn terminal_kind(status: Tree) -> Seq<char> {
    if status == Tree::Text("completed"@) {
        "response.completed"@
    } else if status == Tree::Text("incomplete"@) {
        "response.incomplete"@
    } else {
        "response.failed"@
    }
}

/// A response with its streamed summary as one part.
pub open spec fn summarized(response: Tree, flow: Flow) -> Tree {
    let output = list_of(response.at("output"@));
    if flow.summary_open && output.len() > 0 {
        response.with(
            "output"@,
            Tree::Array(
                output.update(
                    0,
                    output[0].with("summary"@, Tree::Array(seq![summary_text(flow.summary)])),
                ),
            ),
        )
    } else {
        response
    }
}

impl Flow {
    /// The last events of a response that did not fail. The carrier is finished before
    /// the outputs that belong to it, so that native signed parts are available when
    /// the next request is converted.
    pub open spec fn concluded(self, converted: Tree) -> Run {
        let closed = run(self, Seq::empty()).closed();
        if closed.fault is Some {
            closed
        } else {
            let released = if self.request.output_schema is Some {
                Run {
                    events: closed.flow.deferred + closed.events,
                    flow: Flow { deferred: Seq::empty(), ..closed.flow },
                    ..closed
                }
            } else {
                closed
            };
            let response = summarized(converted, released.flow);
            let carried = released.ended_summary().emitted(
                "response.output_item.done"@,
                item_event(0, first_of(list_of(response.at("output"@)))),
            );
            let done = carried.flow.done;
            let listed = Run {
                flow: Flow { done: Seq::empty(), ..carried.flow },
                ..carried
            }.ended_items(response, ascending(done, done.len()), 0);
            if listed.fault is Some {
                listed
            } else {
                listed.emitted(
                    terminal_kind(response.at("status"@)),
                    empty_object().with("response"@, response),
                )
            }
        }
    }

    /// The state once the transport has ended, with the fragments of streamed calls in the
    /// native response where there were any.
    pub open spec fn gathered(self) -> Flow {
        let ended = Flow { ended: true, ..self };
        if self.calls.trace.len() > 0 {
            Flow {
                rest: ended.rest.with(
                    "streamFunctionCallParts"@,
                    Tree::Array(self.calls.trace),
                ),
                ..ended
            }
        } else {
            ended
        }
    }

    /// Whether the end of the transport seals a turn: one that can be.
    pub open spec fn sealing(self) -> bool {
        !self.ended && self.calls.active.len() == 0 && !self.gathered().native().has("error"@)
            && convertible(self.gathered().native(), self.request, self.id)
    }

    /// The state after the end of the transport, and the last events to send.
    pub open spec fn finished(self, key: Seq<u8>, created_at: u64, nonce: Seq<u8>) -> (
        Flow,
        Result<Seq<Tree>, Seq<char>>,
    ) {
        if self.ended {
            (self, Err("Gemini stream already completed"@))
        } else {
            let ended = Flow { ended: true, ..self };
            if self.calls.active.len() > 0 {
                (ended, Err("Gemini stream ended with incomplete function arguments"@))
            } else {
                let full = self.gathered();
                match converted_response(
                    full.native(),
                    full.request,
                    key,
                    full.id,
                    created_at,
                    nonce,
                ) {
                    Err(message) => (full, Err(message)),
                    Ok(response) => if response.at("status"@) == Tree::Text("failed"@) {
                        // A failed attempt must not leave an unfinished turn or an
                        // executable partial call behind.
                        let last = run(
                            Flow { deferred: Seq::empty(), ..full },
                            Seq::empty(),
                        ).emitted("response.failed"@, empty_object().with("response"@, response));
                        let (flow, events) = last.flow.sent(last.events);
                        (flow, Ok(events))
                    } else {
                        let last = full.concluded(response);
                        match last.fault {
                            Some(message) => (last.flow, Err(message)),
                            None => {
                                let (flow, events) = last.flow.sent(last.events);
                                (flow, Ok(events))
                            },
                        }
                    },
                }
            }
        }
    }
}

fn summarize_response(response: Json, open: bool, summary: &str, Ghost(flow): Ghost<Flow>) -> (r: Json)
    requires
        flow.summary_open == open,
        flow.summary == summary@,
    ensures
        r@ == summarized(response@, flow),
{
    if !open {
        return response;
    }
    let mut output: Vec<Json> = match response.at("output").as_array() {
        Some(items) => copy_all(items),
        None => Vec::new(),
    };
    if output.len() == 0 {
        return response;
    }
    let mut list: Vec<Json> = Vec::new();
    list.push(make_summary_text(summary));
    proof {
        assert(trees(list@) =~= seq![summary_text(summary@)]);
    }
    let ghost before = trees(output@);
    let first = output[0].copy().with("summary", Json::Array(list));
    output.set(0, first);
    proof {
        assert(trees(output@) =~= before.update(0, first@));
    }
    response.with("output", Json::Array(output))
}

impl ResponseStream {
    fn end_item(&mut self, events: &mut Vec<Json>, response: &Json, index: usize) -> (r: Result<
        (),
        Error,
    >)
        ensures
            ({
                let spec = run(old(self)@, trees(old(events)@)).ended_item(
                    response@,
                    index as nat,
                );
                &&& final(self)@ == spec.flow
                &&& trees(final(events)@) == spec.events
                &&& told(r, spec.fault)
            }),
            final(self).wf() == old(self).wf(),
    {
        let output = match response.at("output").as_array() {
            Some(output) => output,
            None => return Err(Error::new("Invalid completed stream item")),
        };
        if index >= output.len() {
            return Err(Error::new("Invalid completed stream item"));
        }
        let item = &output[index];
        let completed = response.at("status").is("completed");
        let place = Json::object().with("output_index", Json::natural(index as u64)).with(
            "item_id",
            item.at("id").copy(),
        );
        if item.at("type").is("function_call") {
            if !completed {
                return Ok(());
            }
            self.emit(
                events,
                "response.function_call_arguments.done",
                place.with("arguments", item.at("arguments").copy()),
            );
        } else if item.at("type").is("custom_tool_call") {
            if !completed {
                return Ok(());
            }
            self.emit(
                events,
                "response.custom_tool_call_input.done",
                place.with("input", item.at("input").copy()),
            );
        }
        self.emit(events, "response.output_item.done", make_item_event(index, item.copy()));
        Ok(())
    }

    fn end_items(&mut self, events: &mut Vec<Json>, response: &Json, done: &Vec<usize>) -> (r: Result<
        (),
        Error,
    >)
        ensures
            ({
                let spec = run(old(self)@, trees(old(events)@)).ended_items(
                    response@,
                    places(done@),
                    0,
                );
                &&& final(self)@ == spec.flow
                &&& trees(final(events)@) == spec.events
                &&& told(r, spec.fault)
            }),
            final(self).wf() == old(self).wf(),
    {
        let ghost whole = run(self@, trees(events@)).ended_items(response@, places(done@), 0);
        let mut i: usize = 0;
        while i < done.len()
            invariant
                i <= done.len(),
                self.wf() == old(self).wf(),
                whole == run(old(self)@, trees(old(events)@)).ended_items(
                    response@,
                    places(done@),
                    0,
                ),
                whole == run(self@, trees(events@)).ended_items(
                    response@,
                    places(done@),
                    i as int,
                ),
            decreases done.len() - i,
        {
            self.end_item(events, response, done[i])?;
            i += 1;
        }
        Ok(())
    }

    fn end_summary(&mut self, events: &mut Vec<Json>)
        ensures
            run(final(self)@, trees(final(events)@)) == run(
                old(self)@,
                trees(old(events)@),
            ).ended_summary(),
            final(self).wf() == old(self).wf(),
    {
        if !self.summary_open {
            return;
        }
        let place = make_summary_place(self.id.as_str());
        let text = Json::text(self.summary.as_str());
        let part = make_summary_text(self.summary.as_str());
        self.emit(
            events,
            "response.reasoning_summary_text.done",
            place.copy().with("text", text),
        );
        self.emit(events, "response.reasoning_summary_part.done", place.with("part", part));
    }

    fn conclude(&mut self, converted: Json) -> (r: Result<Vec<Json>, Error>)
        ensures
            ({
                let spec = old(self)@.concluded(converted@);
                &&& final(self)@ == spec.flow
                &&& outcome(r) == match spec.fault {
                    Some(message) => Err::<Seq<Tree>, Seq<char>>(message),
                    None => Ok(spec.events),
                }
            }),
            final(self).wf() == old(self).wf(),
    {
        let mut closing: Vec<Json> = Vec::new();
        proof {
            assert(trees(closing@) =~= Seq::<Tree>::empty());
        }
        self.close_active(&mut closing)?;
        let mut events: Vec<Json> = Vec::new();
        if self.request.output_schema.is_some() {
            std::mem::swap(&mut events, &mut self.deferred);
            extend(&mut events, closing);
        } else {
            events = closing;
        }
        let ghost released = run(self@, trees(events@));
        let response = summarize_response(
            converted,
            self.summary_open,
            self.summary.as_str(),
            Ghost(released.flow),
        );
        self.end_summary(&mut events);
        let first = first_item(response.at("output")).copy();
        self.emit(&mut events, "response.output_item.done", make_item_event(0, first));
        let ghost carried = self@;
        let done = sort(&self.done_items);
        self.done_items = Vec::new();
        proof {
            assert(places(self.done_items@) =~= Seq::<nat>::empty());
        }
        self.end_items(&mut events, &response, &done)?;
        let kind = if response.at("status").is("completed") {
            "response.completed"
        } else if response.at("status").is("incomplete") {
            "response.incomplete"
        } else {
            "response.failed"
        };
        self.emit(&mut events, kind, Json::object().with("response", response));
        Ok(events)
    }

    /// Ends the stream at a given time, sealing its turn under a given nonce.
    pub fn finish_at(&mut self, codec: &ReasoningCodec, created_at: u64, nonce: &[u8; 12]) -> (r: Result<
        Vec<Json>,
        Error,
    >)
        requires
            old(self).wf(),
        ensures
            (final(self)@, outcome(r)) == old(self)@.finished(codec.key@, created_at, nonce@),
            final(self).wf(),
            old(self)@.sealing() ==> answer_carrier(
                old(self)@.gathered().native(),
                old(self)@.request,
                codec.key@,
                old(self)@.id,
                nonce@,
            ) is Ok,
            broke_off(old(self)@) ==> ends_failed(outcome(r)),
    {
        proof {
            if broke_off(self@) {
                broken_off_streams_end_failed(self@, codec.key@, created_at, nonce@);
            }
        }
        if self.ended {
            return Err(Error::new("Gemini stream already completed"));
        }
        self.ended = true;
        if self.partial_calls.pending() {
            return Err(Error::new("Gemini stream ended with incomplete function arguments"));
        }
        if self.partial_calls.trace.len() > 0 {
            let trace = copy_all(&self.partial_calls.trace);
            self.rest.set("streamFunctionCallParts", Json::Array(trace));
        }
        let native = self.native();
        let response = convert_response_at(
            &native,
            &self.request,
            codec,
            self.id.as_str(),
            created_at,
            nonce,
        )?;
        if response.at("status").is("failed") {
            self.deferred = Vec::new();
            let mut events: Vec<Json> = Vec::new();
            proof {
                assert(trees(events@) =~= Seq::<Tree>::empty());
            }
            self.emit(&mut events, "response.failed", Json::object().with("response", response));
            return Ok(self.wire_events(events));
        }
        let events = self.conclude(response)?;
        Ok(self.wire_events(events))
    }

    /// Ends the stream at the end of the transport: usage can arrive in a last chunk
    /// behind the finish reason. Whatever the time and the nonce, the result is the one
    /// that they give.
    pub fn finish(&mut self, codec: &ReasoningCodec) -> (r: Result<Vec<Json>, Error>)
        requires
            old(self).wf(),
        ensures
            exists|created_at: u64, nonce: Seq<u8>|
                nonce.len() == 12 && (final(self)@, outcome(r)) == #[trigger] old(self)@.finished(
                    codec.key@,
                    created_at,
                    nonce,
                ) && (old(self)@.sealing() ==> answer_carrier(
                    old(self)@.gathered().native(),
                    old(self)@.request,
                    codec.key@,
                    old(self)@.id,
                    nonce,
                ) is Ok),
            broke_off(old(self)@) ==> ends_failed(outcome(r)),
            final(self).wf(),
    {
        let created_at = now_seconds();
        let nonce = fresh_nonce();
        self.finish_at(codec, created_at, &nonce)
    }
}

// ---- laws --------------------------------------------------------------------------------------------

/// A stream that ended stays ended: it takes nothing more, and what it refuses does not
/// change it.
pub proof fn ended_streams_stay_ended(flow: Flow, chunk: Tree, key: Seq<u8>, created_at: u64, nonce: Seq<u8>)
    requires
        flow.ended,
    ensures
        flow.fed(chunk).0 == flow,
        flow.fed(chunk).1 is Err,
        flow.finished(key, created_at, nonce).0 == flow,
        flow.finished(key, created_at, nonce).1 is Err,
{
}

/// A chunk that is refused ends the stream: no later chunk can complete what it broke.
pub proof fn refused_chunks_end_the_stream(flow: Flow, chunk: Tree)
    requires
        flow.fed(chunk).1 is Err,
    ensures
        flow.fed(chunk).0.ended,
{
}

/// Unfinished function arguments are never completed by the end of the transport.
pub proof fn unfinished_calls_are_refused(flow: Flow, key: Seq<u8>, created_at: u64, nonce: Seq<u8>)
    requires
        flow.calls.active.len() > 0,
    ensures
        flow.finished(key, created_at, nonce).1 is Err,
        flow.finished(key, created_at, nonce).0.ended,
{
}

/// A call is announced as done only where the response is completed: a response that broke
/// off never makes a client run a tool.
pub proof fn unfinished_responses_run_no_tools(turn: Run, response: Tree, index: nat)
    requires
        response.at("status"@) != Tree::Text("completed"@),
        index < list_of(response.at("output"@)).len(),
        ({
            let kind = list_of(response.at("output"@))[index as int].at("type"@);
            kind == Tree::Text("function_call"@) || kind == Tree::Text("custom_tool_call"@)
        }),
    ensures
        turn.ended_item(response, index) == turn,
{
}

proof fn words_differ()
    ensures
        "type"@ != "sequence_number"@,
        "type"@ != "response"@,
        "response"@ != "sequence_number"@,
{
    reveal_strlit("type");
    reveal_strlit("sequence_number");
    reveal_strlit("response");
    assert("type"@.len() == 4);
    assert("sequence_number"@.len() == 15);
    assert("response"@.len() == 8);
}

/// Events that are sent with new numbers keep everything else, and the numbers count up.
pub proof fn numbers_count_up(events: Seq<Tree>, from: int, wire: u64, out: Seq<Tree>, name: Seq<char>)
    requires
        0 <= from <= events.len(),
        forall|i: int| from <= i < events.len() ==> (#[trigger] events[i]) is Object,
        name != "sequence_number"@,
        wire + (events.len() - from) <= u64::MAX,
    ensures
        ({
            let sent = numbered(events, from, wire, out).0;
            &&& sent.len() == out.len() + (events.len() - from)
            &&& forall|i: int| 0 <= i < out.len() ==> #[trigger] sent[i] == out[i]
            &&& forall|i: int|
                out.len() <= i < sent.len() ==> (#[trigger] sent[i]).at(name) == events[from + (i
                    - out.len())].at(name) && sent[i].at("sequence_number"@) == number(
                    (wire + (i - out.len())) as u64,
                )
        }),
    decreases events.len() - from,
{
    if from < events.len() {
        let event = events[from].with("sequence_number"@, number(wire));
        set_then_at(events[from], "sequence_number"@, number(wire));
        set_keeps_others(events[from], "sequence_number"@, number(wire), name);
        numbers_count_up(events, from + 1, next(wire), out.push(event), name);
        let sent = numbered(events, from, wire, out).0;
        assert forall|i: int| 0 <= i < out.len() implies #[trigger] sent[i] == out[i] by {
            assert(out.push(event)[i] == out[i]);
        }
        assert(sent[out.len() as int] == out.push(event)[out.len() as int]);
    }
}

proof fn numbered_keeps(events: Seq<Tree>, from: int, wire: u64, out: Seq<Tree>, name: Seq<char>)
    requires
        0 <= from <= events.len(),
        name != "sequence_number"@,
    ensures
        ({
            let sent = numbered(events, from, wire, out).0;
            &&& sent.len() == out.len() + (events.len() - from)
            &&& forall|i: int| 0 <= i < out.len() ==> #[trigger] sent[i] == out[i]
            &&& forall|i: int|
                out.len() <= i < sent.len() ==> (#[trigger] sent[i]).at(name) == events[from + (i
                    - out.len())].at(name)
        }),
    decreases events.len() - from,
{
    if from < events.len() {
        let event = events[from].with("sequence_number"@, number(wire));
        set_keeps_others(events[from], "sequence_number"@, number(wire), name);
        numbered_keeps(events, from + 1, next(wire), out.push(event), name);
        let sent = numbered(events, from, wire, out).0;
        assert forall|i: int| 0 <= i < out.len() implies #[trigger] sent[i] == out[i] by {
            assert(out.push(event)[i] == out[i]);
        }
        assert(sent[out.len() as int] == out.push(event)[out.len() as int]);
    }
}

proof fn sent_keeps(flow: Flow, events: Seq<Tree>, name: Seq<char>)
    requires
        events.len() > 0,
        name != "sequence_number"@,
    ensures
        flow.sent(events).1.len() == events.len(),
        flow.sent(events).1.last().at(name) == events.last().at(name),
{
    numbered_keeps(events, 0, flow.wire, Seq::empty(), name);
}

proof fn items_keep_the_end(turn: Run, response: Tree, done: Seq<nat>, from: int)
    requires
        0 <= from,
    ensures
        turn.ended_items(response, done, from).flow.ended == turn.flow.ended,
    decreases done.len() - from,
{
    if from < done.len() {
        let one = turn.ended_item(response, done[from]);
        assert(one.flow.ended == turn.flow.ended);
        if one.fault is None {
            items_keep_the_end(one, response, done, from + 1);
        }
    }
}

proof fn conclusions_keep_the_end(flow: Flow, response: Tree)
    ensures
        flow.concluded(response).flow.ended == flow.ended,
{
    let closed = run(flow, Seq::empty()).closed();
    assert(closed.flow.ended == flow.ended);
    if closed.fault is None {
        let released = if flow.request.output_schema is Some {
            Run {
                events: closed.flow.deferred + closed.events,
                flow: Flow { deferred: Seq::empty(), ..closed.flow },
                ..closed
            }
        } else {
            closed
        };
        let told = summarized(response, released.flow);
        let carried = released.ended_summary().emitted(
            "response.output_item.done"@,
            item_event(0, first_of(list_of(told.at("output"@)))),
        );
        assert(carried.flow.ended == flow.ended);
        let done = carried.flow.done;
        items_keep_the_end(
            Run { flow: Flow { done: Seq::empty(), ..carried.flow }, ..carried },
            told,
            ascending(done, done.len()),
            0,
        );
    }
}

/// The last event of a stream carries the response that the gathered native reply is
/// converted to, with the streamed summary as one part, under the type of its status. A
/// response that failed comes alone: nothing of an unfinished turn is announced as done.
pub proof fn the_last_event_carries_the_response(
    flow: Flow,
    key: Seq<u8>,
    created_at: u64,
    nonce: Seq<u8>,
    response: Tree,
)
    requires
        !flow.ended,
        flow.calls.active.len() == 0,
        converted_response(
            flow.gathered().native(),
            flow.request,
            key,
            flow.id,
            created_at,
            nonce,
        ) == Ok::<Tree, Seq<char>>(response),
    ensures
        flow.finished(key, created_at, nonce).0.ended,
        response.at("status"@) == Tree::Text("failed"@) ==> ({
            let done = flow.finished(key, created_at, nonce).1;
            &&& done is Ok
            &&& done->Ok_0.len() == 1
            &&& done->Ok_0[0].at("type"@) == Tree::Text("response.failed"@)
            &&& done->Ok_0[0].at("response"@) == response
        }),
        response.at("status"@) != Tree::Text("failed"@) ==> (flow.finished(
            key,
            created_at,
            nonce,
        ).1 matches Ok(events) ==> {
            let told = summarized(response, flow);
            &&& events.len() > 0
            &&& events.last().at("type"@) == Tree::Text(terminal_kind(told.at("status"@)))
            &&& events.last().at("response"@) == told
        }),
{
    broadcast use member_laws;

    words_differ();
    let full = flow.gathered();
    if response.at("status"@) == Tree::Text("failed"@) {
        let last = run(Flow { deferred: Seq::empty(), ..full }, Seq::empty()).emitted(
            "response.failed"@,
            empty_object().with("response"@, response),
        );
        assert(last.events.last() == stamped(
            empty_object().with("response"@, response),
            "response.failed"@,
            full.sequence,
        ));
        sent_keeps(last.flow, last.events, "type"@);
        sent_keeps(last.flow, last.events, "response"@);
    } else {
        let last = full.concluded(response);
        conclusions_keep_the_end(full, response);
        if last.fault is None {
            let told = summarized(response, flow);
            assert(last.events.len() > 0);
            let event = last.events.last();
            assert(event.at("type"@) == Tree::Text(terminal_kind(told.at("status"@))));
            assert(event.at("response"@) == told);
            sent_keeps(last.flow, last.events, "type"@);
            sent_keeps(last.flow, last.events, "response"@);
        }
    }
}

/// The type of an event that a chunk of a stream can lead to.
pub open spec fn opening_kind(kind: Seq<char>) -> bool {
    kind == "response.created"@ || kind == "response.in_progress"@ || kind == "response.output_item.added"@ || kind == "response.output_text.done"@ || kind == "response.content_part.done"@ || kind == "response.reasoning_summary_part.added"@ || kind == "response.reasoning_summary_text.delta"@ || kind == "response.content_part.added"@ || kind == "response.output_text.delta"@ || kind == "response.function_call_arguments.delta"@ || kind == "response.custom_tool_call_input.delta"@
}

/// The type of an event that declares an item, a call or the response finished.
pub open spec fn closing_kind(kind: Seq<char>) -> bool {
    kind == "response.output_item.done"@ || kind == "response.function_call_arguments.done"@ || kind == "response.custom_tool_call_input.done"@ || kind == "response.completed"@ || kind == "response.incomplete"@
}

/// Whether an event declares an item, a call or the response finished.
pub open spec fn closing(event: Tree) -> bool {
    event.at("type"@) matches Tree::Text(kind) && closing_kind(kind)
}

/// Whether none of some events declares anything finished.
pub open spec fn none_closing(events: Seq<Tree>) -> bool {
    forall|i: int| 0 <= i < events.len() ==> !closing(#[trigger] events[i])
}

proof fn opening_kinds_close_nothing(kind: Seq<char>)
    requires
        opening_kind(kind),
    ensures
        !closing_kind(kind),
{
    reveal_strlit("response.created");
    reveal_strlit("response.in_progress");
    reveal_strlit("response.output_item.added");
    reveal_strlit("response.output_text.done");
    reveal_strlit("response.content_part.done");
    reveal_strlit("response.reasoning_summary_part.added");
    reveal_strlit("response.reasoning_summary_text.delta");
    reveal_strlit("response.content_part.added");
    reveal_strlit("response.output_text.delta");
    reveal_strlit("response.function_call_arguments.delta");
    reveal_strlit("response.custom_tool_call_input.delta");
    reveal_strlit("response.output_item.done");
    reveal_strlit("response.function_call_arguments.done");
    reveal_strlit("response.custom_tool_call_input.done");
    reveal_strlit("response.completed");
    reveal_strlit("response.incomplete");
    assert("response.created"@.len() == 16);
    assert("response.in_progress"@.len() == 20);
    assert("response.output_item.added"@.len() == 26);
    assert("response.output_text.done"@.len() == 25);
    assert("response.content_part.done"@.len() == 26);
    assert("response.reasoning_summary_part.added"@.len() == 37);
    assert("response.reasoning_summary_text.delta"@.len() == 37);
    assert("response.content_part.added"@.len() == 27);
    assert("response.output_text.delta"@.len() == 26);
    assert("response.function_call_arguments.delta"@.len() == 38);
    assert("response.custom_tool_call_input.delta"@.len() == 37);
    assert("response.output_item.done"@.len() == 25);
    assert("response.function_call_arguments.done"@.len() == 37);
    assert("response.custom_tool_call_input.done"@.len() == 36);
    assert("response.completed"@.len() == 18);
    assert("response.incomplete"@.len() == 19);
    assert("response.output_text.done"@[16] != "response.output_item.done"@[16]);
    assert("response.reasoning_summary_part.added"@[9] != "response.function_call_arguments.done"@[9]);
    assert("response.reasoning_summary_text.delta"@[9] != "response.function_call_arguments.done"@[9]);
    assert("response.custom_tool_call_input.delta"@[9] != "response.function_call_arguments.done"@[9]);
}

proof fn emitted_closes_nothing(run: Run, kind: Seq<char>, event: Tree)
    requires
        none_closing(run.events),
        opening_kind(kind),
        event is Object,
    ensures
        none_closing(run.emitted(kind, event).events),
{
    broadcast use member_laws;

    words_differ();
    opening_kinds_close_nothing(kind);
    let told = stamped(event, kind, run.flow.sequence);
    assert(event.with("type"@, Tree::Text(kind)) is Object);
    assert(told.at("type"@) == Tree::Text(kind));
    let after = run.emitted(kind, event).events;
    assert forall|i: int| 0 <= i < after.len() implies !closing(#[trigger] after[i]) by {
        if i < run.events.len() {
            assert(after[i] == run.events[i]);
        }
    }
}

proof fn closed_closes_nothing(run: Run)
    requires
        none_closing(run.events),
    ensures
        none_closing(run.closed().events),
{
    broadcast use member_laws;

    match run.flow.active {
        None => {},
        Some(index) => {
            let idle = Run { flow: Flow { active: None, ..run.flow }, ..run };
            match run.flow.items() {
                Err(_) => {},
                Ok(items) => if !(index == 0 || index > items.len()) {
                    let part = first_of(list_of(items[index - 1].at("content"@)));
                    let place = message_place(run.flow.id, index);
                    emitted_closes_nothing(
                        idle,
                        "response.output_text.done"@,
                        place.with("text"@, part.at("text"@)),
                    );
                    emitted_closes_nothing(
                        idle.emitted(
                            "response.output_text.done"@,
                            place.with("text"@, part.at("text"@)),
                        ),
                        "response.content_part.done"@,
                        place.with("part"@, part),
                    );
                },
            }
        },
    }
}

proof fn thought_closes_nothing(run: Run, text: Seq<char>)
    requires
        none_closing(run.events),
    ensures
        none_closing(run.thought(text).events),
{
    broadcast use member_laws;

    let place = summary_place(run.flow.id);
    let part = empty_object().with("type"@, Tree::Text("summary_text"@)).with(
        "text"@,
        Tree::Text(""@),
    );
    let begun = Run { flow: Flow { summary_open: true, ..run.flow }, ..run };
    let open = if run.flow.summary_open {
        run
    } else {
        begun.emitted("response.reasoning_summary_part.added"@, place.with("part"@, part))
    };
    if !run.flow.summary_open {
        emitted_closes_nothing(
            begun,
            "response.reasoning_summary_part.added"@,
            place.with("part"@, part),
        );
    }
    emitted_closes_nothing(
        Run { flow: Flow { summary: open.flow.summary + text, ..open.flow }, ..open },
        "response.reasoning_summary_text.delta"@,
        place.with("delta"@, Tree::Text(text)),
    );
}

proof fn announced_closes_nothing(run: Run, part: Tree, merge: bool)
    requires
        none_closing(run.events),
    ensures
        none_closing(run.announced(part, merge).events),
{
    broadcast use member_laws;

    match part.at("text"@) {
        Tree::Text(text) => if is_thought(part) {
            thought_closes_nothing(run, text);
        } else if text.len() > 0 {
            let open = if !merge || run.flow.active is None {
                opened_closes_nothing(run);
                run.opened()
            } else {
                run
            };
            if open.fault is None || !(!merge || run.flow.active is None) {
                let index = match open.flow.active {
                    Some(index) => index,
                    None => 0,
                };
                emitted_closes_nothing(
                    open,
                    "response.output_text.delta"@,
                    message_place(open.flow.id, index).with("delta"@, Tree::Text(text)),
                );
            }
        },
        _ => if !(is_thought(part) || is_signature(part)) {
            whole_closes_nothing(run);
        },
    }
}

proof fn opened_closes_nothing(run: Run)
    requires
        none_closing(run.events),
    ensures
        none_closing(run.opened().events),
{
    broadcast use member_laws;

    match run.flow.items() {
        Err(_) => {},
        Ok(items) => {
            let index = items.len();
            let item = last_of(items).with("status"@, Tree::Text("in_progress"@)).with(
                "content"@,
                Tree::Array(Seq::empty()),
            );
            let active = Run { flow: Flow { active: Some(index), ..run.flow }, ..run };
            emitted_closes_nothing(active, "response.output_item.added"@, item_event(index, item));
            emitted_closes_nothing(
                active.emitted("response.output_item.added"@, item_event(index, item)),
                "response.content_part.added"@,
                message_place(run.flow.id, index).with("part"@, blank_text()),
            );
        },
    }
}

proof fn argued_closes_nothing(
    run: Run,
    item: Tree,
    index: nat,
    kind: Seq<char>,
    field: Seq<char>,
    event: Seq<char>,
)
    requires
        none_closing(run.events),
        opening_kind(event),
    ensures
        none_closing(run.argued(item, index, kind, field, event).events),
{
    broadcast use member_laws;

    emitted_closes_nothing(
        run,
        event,
        empty_object().with("output_index"@, number(index as u64)).with(
            "item_id"@,
            item.at("id"@),
        ).with("delta"@, item.at(field)),
    );
}

proof fn whole_closes_nothing(run: Run)
    requires
        none_closing(run.events),
    ensures
        none_closing(run.whole().events),
{
    broadcast use member_laws;

    match run.flow.items() {
        Err(_) => {},
        Ok(items) => {
            let index = items.len();
            let item = last_of(items);
            let begun = item.with("status"@, Tree::Text("in_progress"@));
            let initial = if item.at("type"@) == Tree::Text("function_call"@) {
                begun.with("arguments"@, Tree::Text(""@))
            } else if item.at("type"@) == Tree::Text("custom_tool_call"@) {
                begun.with("input"@, Tree::Text(""@))
            } else {
                begun
            };
            let added = run.emitted("response.output_item.added"@, item_event(index, initial));
            emitted_closes_nothing(run, "response.output_item.added"@, item_event(index, initial));
            argued_closes_nothing(
                added,
                item,
                index,
                "function_call"@,
                "arguments"@,
                "response.function_call_arguments.delta"@,
            );
            argued_closes_nothing(
                added.argued(
                    item,
                    index,
                    "function_call"@,
                    "arguments"@,
                    "response.function_call_arguments.delta"@,
                ),
                item,
                index,
                "custom_tool_call"@,
                "input"@,
                "response.custom_tool_call_input.delta"@,
            );
        },
    }
}

proof fn parts_close_nothing(run: Run, parts: Seq<Tree>, from: int)
    requires
        none_closing(run.events),
    ensures
        none_closing(run.parts(parts, from).events),
    decreases parts.len() - from,
{
    if 0 <= from < parts.len() {
        let part = parts[from];
        let merge = joins(run.flow.parts, part);
        closed_closes_nothing(run);
        let ready = if !is_thought(part) && !merge && !is_signature(part) {
            run.closed()
        } else {
            run
        };
        if ready.fault is None {
            let stored = ready.stored(part, merge);
            assert(stored.events == ready.events);
            if stored.fault is None {
                announced_closes_nothing(stored, part, merge);
            }
        }
        let one = run.part(part);
        assert(none_closing(one.events));
        if one.fault is None {
            parts_close_nothing(one, parts, from + 1);
        }
    }
}

proof fn begun_closes_nothing(run: Run)
    requires
        none_closing(run.events),
    ensures
        none_closing(run.begun().events),
{
    broadcast use member_laws;

    if !run.flow.started {
        let response = empty_object().with("id"@, Tree::Text("resp_"@ + run.flow.id)).with(
            "object"@,
            Tree::Text("response"@),
        ).with("model"@, Tree::Text(run.flow.request.response_model)).with(
            "status"@,
            Tree::Text("in_progress"@),
        ).with("output"@, Tree::Array(Seq::empty())).with("usage"@, Tree::Null);
        let event = empty_object().with("response"@, response);
        let item = item_event(
            0,
            empty_object().with("id"@, Tree::Text("rs_"@ + run.flow.id)).with(
                "type"@,
                Tree::Text("reasoning"@),
            ).with("summary"@, Tree::Array(Seq::empty())),
        );
        let started = Run { flow: Flow { started: true, ..run.flow }, ..run };
        emitted_closes_nothing(started, "response.created"@, event);
        let created = started.emitted("response.created"@, event);
        emitted_closes_nothing(created, "response.in_progress"@, event);
        let going = created.emitted("response.in_progress"@, event);
        emitted_closes_nothing(going, "response.output_item.added"@, item);
    }
}

proof fn sifted_closes_nothing(events: Seq<Tree>, from: int, sent: Seq<Tree>, held: Seq<Tree>)
    requires
        none_closing(events),
        none_closing(sent),
    ensures
        none_closing(sifted(events, from, sent, held).0),
    decreases events.len() - from,
{
    if 0 <= from < events.len() {
        if live(events[from]) {
            let more = sent.push(events[from]);
            assert forall|i: int| 0 <= i < more.len() implies !closing(#[trigger] more[i]) by {
                if i < sent.len() {
                    assert(more[i] == sent[i]);
                }
            }
            sifted_closes_nothing(events, from + 1, more, held);
        } else {
            sifted_closes_nothing(events, from + 1, sent, held.push(events[from]));
        }
    }
}

/// No chunk declares an item, a call or the response finished, even where a whole call has
/// arrived: that is left to the end of the stream.
pub proof fn chunks_finish_nothing(flow: Flow, chunk: Tree)
    requires
        !chunk.has("error"@),
    ensures
        flow.fed(chunk).1 matches Ok(events) ==> none_closing(events),
{
    reveal(Flow::taken);
    words_differ();
    if !flow.ended && response_check(chunk) is Ok {
        let start = run(flow, Seq::empty());
        begun_closes_nothing(start);
        let begun = start.begun();
        let candidates = list_of(chunk.at("candidates"@));
        if candidates.len() > 0 {
            match candidates[0].at("content"@).at("parts"@).items() {
                None => {},
                Some(parts) => {
                    let (calls, ready) = assembled(begun.flow.calls, parts, 0, Seq::empty());
                    if ready is Ok {
                        parts_close_nothing(
                            Run { flow: Flow { calls, ..begun.flow }, ..begun },
                            ready->Ok_0,
                            0,
                        );
                    }
                },
            }
        }
        let done = flow.taken(chunk);
        assert(none_closing(done.events));
        if done.fault is None && flow.request.output_schema is Some {
            sifted_closes_nothing(done.events, 0, Seq::empty(), done.flow.deferred);
            let (sent, held) = sifted(done.events, 0, Seq::empty(), done.flow.deferred);
            let after = Flow { deferred: held, ..done.flow };
            numbered_keeps(sent, 0, after.wire, Seq::empty(), "type"@);
            let told = after.sent(sent).1;
            assert forall|i: int| 0 <= i < told.len() implies !closing(#[trigger] told[i]) by {
                if after.request.output_schema is Some {
                    assert(told[i].at("type"@) == sent[i].at("type"@));
                }
                assert(!closing(sent[i]));
            }
        }
    }
}

/// Whether two states hold the same native response beside its content.
pub open spec fn steady(a: Flow, b: Flow) -> bool {
    a.rest == b.rest && a.candidate == b.candidate && a.spent == b.spent && a.ended == b.ended
        && a.request == b.request && a.id == b.id
}

pub(crate) proof fn parts_are_steady(turn: Run, parts: Seq<Tree>, from: int)
    ensures
        steady(turn.parts(parts, from).flow, turn.flow),
    decreases parts.len() - from,
{
    if 0 <= from < parts.len() {
        let part = parts[from];
        let merge = joins(turn.flow.parts, part);
        assert(steady(turn.closed().flow, turn.flow));
        let ready = if !is_thought(part) && !merge && !is_signature(part) {
            turn.closed()
        } else {
            turn
        };
        let stored = ready.stored(part, merge);
        assert(steady(stored.flow, turn.flow));
        assert(steady(stored.opened().flow, turn.flow));
        assert(steady(stored.whole().flow, turn.flow));
        assert(part.at("text"@) matches Tree::Text(text) ==> steady(
            stored.thought(text).flow,
            turn.flow,
        ));
        assert(steady(stored.announced(part, merge).flow, turn.flow));
        let one = turn.part(part);
        assert(steady(one.flow, turn.flow));
        if one.fault is None {
            parts_are_steady(one, parts, from + 1);
        }
    }
}

/// Whether members hold none of a name.
pub open spec fn lacks(fields: Seq<(Seq<char>, Tree)>, key: Seq<char>) -> bool {
    forall|i: int| 0 <= i < fields.len() ==> (#[trigger] fields[i]).0 != key
}

proof fn merging_lacks(
    object: Tree,
    fields: Seq<(Seq<char>, Tree)>,
    from: int,
    but: Seq<char>,
    key: Seq<char>,
)
    requires
        object is Object,
        lacks(fields, key),
    ensures
        merged_but(object, fields, from, but) is Object,
        merged_but(object, fields, from, but).at(key) == object.at(key),
    decreases fields.len() - from,
{
    if 0 <= from < fields.len() {
        assert(fields[from].0 != key);
        if fields[from].0 == but {
            merging_lacks(object, fields, from + 1, but, key);
        } else {
            set_then_at(object, fields[from].0, fields[from].1);
            set_keeps_others(object, fields[from].0, fields[from].1, key);
            merging_lacks(
                object.with(fields[from].0, fields[from].1),
                fields,
                from + 1,
                but,
                key,
            );
        }
    }
}

proof fn merging_keeps_objects(
    object: Tree,
    fields: Seq<(Seq<char>, Tree)>,
    from: int,
    but: Seq<char>,
)
    requires
        object is Object,
    ensures
        merged_but(object, fields, from, but) is Object,
    decreases fields.len() - from,
{
    if 0 <= from < fields.len() {
        if fields[from].0 == but {
            merging_keeps_objects(object, fields, from + 1, but);
        } else {
            merging_keeps_objects(
                object.with(fields[from].0, fields[from].1),
                fields,
                from + 1,
                but,
            );
        }
    }
}

/// Whether a chunk tells neither of an error nor of why the model stopped.
pub open spec fn goes_on(chunk: Tree) -> bool {
    !chunk.has("error"@) && lacks(members_of(candidate_of(chunk)), "finishReason"@)
}

/// Whether a stream has not been told why the model stopped.
pub open spec fn unstopped(flow: Flow) -> bool {
    !flow.spent && !flow.ended && flow.rest is Object && flow.candidate is Object
        && flow.candidate.at("finishReason"@) == Tree::Null
}

proof fn feeding_goes_on(flow: Flow, chunk: Tree)
    requires
        unstopped(flow),
        goes_on(chunk),
        flow.fed(chunk).1 is Ok,
    ensures
        unstopped(flow.fed(chunk).0),
        flow.fed(chunk).0.request == flow.request,
        flow.fed(chunk).0.id == flow.id,
{
    reveal(Flow::taken);
    let begun = run(flow, Seq::empty()).begun();
    assert(steady(begun.flow, flow));
    let candidates = list_of(chunk.at("candidates"@));
    if candidates.len() > 0 {
        let candidate = candidates[0];
        match candidate.at("content"@).at("parts"@).items() {
            None => {},
            Some(parts) => {
                let (calls, ready) = assembled(begun.flow.calls, parts, 0, Seq::empty());
                if ready is Ok {
                    parts_are_steady(
                        Run { flow: Flow { calls, ..begun.flow }, ..begun },
                        ready->Ok_0,
                        0,
                    );
                }
            },
        }
        merging_lacks(
            flow.candidate,
            members_of(candidate),
            0,
            "content"@,
            "finishReason"@,
        );
    }
    merging_keeps_objects(flow.rest, members_of(chunk), 0, "candidates"@);
}

/// The state after the first `count` chunks and the events sent for them; nothing where one of
/// them is refused.
pub open spec fn streamed(flow: Flow, chunks: Seq<Tree>, count: int) -> Option<(Flow, Seq<Tree>)>
    decreases count,
{
    if count <= 0 {
        Some((flow, Seq::empty()))
    } else {
        match streamed(flow, chunks, count - 1) {
            None => None,
            Some((before, events)) => match before.fed(chunks[count - 1]) {
                (after, Ok(more)) => Some((after, events + more)),
                (_, Err(_)) => None,
            },
        }
    }
}

pub(crate) proof fn streaming_goes_on(flow: Flow, chunks: Seq<Tree>, count: int)
    requires
        unstopped(flow),
        0 <= count <= chunks.len(),
        forall|i: int| 0 <= i < count ==> goes_on(#[trigger] chunks[i]),
        streamed(flow, chunks, count) is Some,
    ensures
        unstopped(streamed(flow, chunks, count)->Some_0.0),
        streamed(flow, chunks, count)->Some_0.0.request == flow.request,
        streamed(flow, chunks, count)->Some_0.0.id == flow.id,
        none_closing(streamed(flow, chunks, count)->Some_0.1),
    decreases count,
{
    if count > 0 {
        streaming_goes_on(flow, chunks, count - 1);
        let (before, events) = streamed(flow, chunks, count - 1)->Some_0;
        assert(goes_on(chunks[count - 1]));
        feeding_goes_on(before, chunks[count - 1]);
        chunks_finish_nothing(before, chunks[count - 1]);
        let more = before.fed(chunks[count - 1]).1->Ok_0;
        let all = events + more;
        assert forall|i: int| 0 <= i < all.len() implies !closing(#[trigger] all[i]) by {
            if i < events.len() {
                assert(all[i] == events[i]);
            } else {
                assert(all[i] == more[i - events.len()]);
            }
        }
    }
}

pub(crate) proof fn merged_lacks(object: Tree, fields: Seq<(Seq<char>, Tree)>, from: int, key: Seq<char>)
    requires
        lacks(fields, key),
    ensures
        merged(object, fields, from).at(key) == object.at(key),
    decreases fields.len() - from,
{
    if 0 <= from < fields.len() {
        assert(fields[from].0 != key);
        set_keeps_others(object, fields[from].0, fields[from].1, key);
        merged_lacks(object.with(fields[from].0, fields[from].1), fields, from + 1, key);
    }
}

proof fn names_differ()
    ensures
        "content"@ != "finishReason"@,
        "candidates"@ != "streamFunctionCallParts"@,
        "status"@ != "model"@,
        "status"@ != "output"@,
        "status"@ != "usage"@,
        "status"@ != "error"@,
        "status"@ != "incomplete_details"@,
        "status"@ != "parallel_tool_calls"@,
        "status"@ != "store"@,
        "status"@ != "gemini"@,
{
    reveal_strlit("content");
    reveal_strlit("finishReason");
    reveal_strlit("candidates");
    reveal_strlit("streamFunctionCallParts");
    reveal_strlit("status");
    reveal_strlit("model");
    reveal_strlit("output");
    reveal_strlit("usage");
    reveal_strlit("error");
    reveal_strlit("incomplete_details");
    reveal_strlit("parallel_tool_calls");
    reveal_strlit("store");
    reveal_strlit("gemini");
    assert("content"@.len() == 7);
    assert("finishReason"@.len() == 12);
    assert("candidates"@.len() == 10);
    assert("streamFunctionCallParts"@.len() == 23);
    assert("status"@.len() == 6);
    assert("model"@.len() == 5);
    assert("output"@[0] == 'o');
    assert("status"@[0] == 's');
    assert("usage"@.len() == 5);
    assert("error"@.len() == 5);
    assert("incomplete_details"@.len() == 18);
    assert("parallel_tool_calls"@.len() == 19);
    assert("store"@.len() == 5);
    assert("gemini"@[0] == 'g');
}

pub(crate) proof fn unstopped_streams_end_failed(
    flow: Flow,
    key: Seq<u8>,
    created_at: u64,
    nonce: Seq<u8>,
)
    requires
        unstopped(flow),
        flow.calls.active.len() == 0,
        lacks(flow.request.response_fields, "status"@),
    ensures
        ({
            let (after, last) = flow.finished(key, created_at, nonce);
            &&& after.ended
            &&& last is Ok == converted_response(
                flow.gathered().native(),
                flow.request,
                key,
                flow.id,
                created_at,
                nonce,
            ) is Ok
            &&& last matches Ok(last) ==> last.len() == 1 && last[0].at("type"@) == Tree::Text(
                "response.failed"@,
            )
        }),
{
    broadcast use member_laws;

    names_differ();
    let request = flow.request;
    let full = flow.gathered();
    let native = full.native();
    let whole = full.candidate.with("content"@, full.content.with("parts"@, Tree::Array(full.parts)));
    assert(full.rest is Object);
    assert(native.at("candidates"@) == Tree::Array(seq![whole]));
    assert(candidate_of(native) == whole);
    assert(whole.at("finishReason"@) == Tree::Null);
    match converted_response(native, request, key, flow.id, created_at, nonce) {
        Err(_) => {},
        Ok(response) => {
            assert(response.at("status"@) == Tree::Text("failed"@)) by {
                if response_check(native) is Ok && !native.has("error"@) {
                    let parts = list_of(candidate_of(native).at("content"@).at("parts"@));
                    let ended = judged(native, parts, request.output_schema);
                    assert("failed"@ != "completed"@) by {
                        reveal_strlit("failed");
                        reveal_strlit("completed");
                        assert("failed"@.len() == 6);
                        assert("completed"@.len() == 9);
                    }
                    assert(ended.0 == "failed"@);
                    let items = settled_items(
                        items_of(parts, request.tools, flow.id)->Ok_0,
                        ended.0,
                    );
                    let carried = carrier(
                        key,
                        nonce,
                        request.model,
                        Tree::Array(parts),
                        Tree::Array(items),
                    )->Ok_0;
                    let base = unmerged_response(
                        native,
                        request,
                        flow.id,
                        created_at,
                        parts,
                        items,
                        ended,
                        carried,
                    );
                    assert(base.at("status"@) == Tree::Text("failed"@));
                    merged_lacks(base, request.response_fields, 0, "status"@);
                }
            }
            the_last_event_carries_the_response(flow, key, created_at, nonce, response);
        },
    }
}

} // verus!

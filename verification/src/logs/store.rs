//! The recent requests, and how what happens to a request changes its record.

use vstd::prelude::*;
use vstd::utf8::encode_utf8;
use crate::config::{alias_from, alias_views, AliasView, Config};
use crate::exchange::{parse, parsed};
use crate::gemini::error::{optional_text, text_or_null};
use crate::gemini::parts::empty_object;
use crate::gemini::partial::next;
use crate::gemini::response::number;
use crate::logs::entry::{
    blank_entry, count_or_null, cut_text, cut_to, opt_str, optional_count, Entry, EntryView,
};
use crate::outside::{fresh_id, this_moment};
use crate::routing::{effort_of, requested_effort};
use crate::table::{find, get_entry};
use crate::text::{decimal, ends_with, hex, hex_text, join3, number_text, same, trim_end, trimmed_end};
use crate::tree::{json_views, Json, Tree};

verus! {

broadcast use json_views;

/// How many requests are remembered.
pub const RECENT_LIMIT: usize = 500;

/// A change of a record, to be kept.
pub struct Event {
    pub entry: Entry,
    pub kind: String,
    pub details: Json,
}

/// The view of a change.
pub ghost struct EventView {
    pub entry: EntryView,
    pub kind: Seq<char>,
    pub details: Tree,
}

impl DeepView for Event {
    type V = EventView;

    open spec fn deep_view(&self) -> EventView {
        EventView { entry: self.entry.deep_view(), kind: self.kind@, details: self.details@ }
    }
}

/// The views of events.
pub open spec fn event_views(events: Seq<Event>) -> Seq<EventView> {
    Seq::new(events.len(), |i: int| events[i].deep_view())
}

/// The recent requests.
pub struct Store {
    pub next_id: u64,
    pub entries: Vec<Entry>,
    pub order: Vec<u64>,
    pub session_id: String,
    pub mode: String,
}

/// The view of the recent requests.
pub ghost struct History {
    pub next_id: u64,
    pub entries: Seq<EntryView>,
    pub order: Seq<u64>,
    pub session_id: Seq<char>,
    pub mode: Seq<char>,
}

/// The views of records.
pub open spec fn entry_views(entries: Seq<Entry>) -> Seq<EntryView> {
    Seq::new(entries.len(), |i: int| entries[i].deep_view())
}

impl View for Store {
    type V = History;

    open spec fn view(&self) -> History {
        History {
            next_id: self.next_id,
            entries: entry_views(self.entries@),
            order: self.order@,
            session_id: self.session_id@,
            mode: self.mode@,
        }
    }
}

/// The place of a record at or after `from`.
pub open spec fn place_of(entries: Seq<EntryView>, id: u64, from: int) -> Option<int>
    decreases entries.len() - from,
{
    if from < 0 || from >= entries.len() {
        None
    } else if entries[from].id == id {
        Some(from)
    } else {
        place_of(entries, id, from + 1)
    }
}

// ---- what a change leaves ------------------------------------------------------------------

/// A text as it is kept: at most 256 characters of a long one.
pub open spec fn short_text(text: Option<Seq<char>>) -> Option<Seq<char>> {
    match text {
        Some(text) => Some(
            if encode_utf8(text).len() > 256 {
                cut_to(text, 256)
            } else {
                text
            },
        ),
        None => None,
    }
}

fn shorten(text: &mut Option<String>)
    ensures
        final(text).deep_view() == short_text(old(text).deep_view()),
{
    let short = match &*text {
        Some(own) => if own.as_str().as_bytes().len() > 256 {
            Some(cut_text(own.as_str(), 256))
        } else {
            Some(own.clone())
        },
        None => None,
    };
    *text = short;
}

impl EntryView {
    /// The record as it is kept.
    pub open spec fn settled(self, now: u64) -> EntryView {
        EntryView {
            requested_model: short_text(self.requested_model),
            routed_model: short_text(self.routed_model),
            requested_reasoning: short_text(self.requested_reasoning),
            routed_reasoning: short_text(self.routed_reasoning),
            route_rule: short_text(self.route_rule),
            project: short_text(self.project),
            upstream_request_id: short_text(self.upstream_request_id),
            response_id: short_text(self.response_id),
            error_code: short_text(self.error_code),
            updated_ms: now,
            ..self
        }
    }
}

fn settle_entry(entry: &mut Entry, now: u64)
    ensures
        final(entry).deep_view() == old(entry).deep_view().settled(now),
{
    shorten(&mut entry.requested_model);
    shorten(&mut entry.routed_model);
    shorten(&mut entry.requested_reasoning);
    shorten(&mut entry.routed_reasoning);
    shorten(&mut entry.route_rule);
    shorten(&mut entry.project);
    shorten(&mut entry.upstream_request_id);
    shorten(&mut entry.response_id);
    shorten(&mut entry.error_code);
    entry.updated_ms = now;
}

/// What is kept of a change beside the record.
pub open spec fn event_details(entry: EntryView, kind: Seq<char>, details: Tree) -> Tree {
    if kind == "attempt_started"@ {
        details.with("attempt"@, number(entry.attempts as u64))
    } else if kind == "usage"@ {
        empty_object().with("input_tokens"@, count_or_null(entry.input_tokens)).with(
            "output_tokens"@,
            count_or_null(entry.output_tokens),
        ).with("cached_input_tokens"@, count_or_null(entry.cached_input_tokens)).with(
            "cache_write_tokens"@,
            count_or_null(entry.cache_write_tokens),
        ).with("reasoning_tokens"@, count_or_null(entry.reasoning_tokens))
    } else if kind == "routed"@ {
        empty_object().with("requested_model"@, text_or_null(entry.requested_model)).with(
            "routed_model"@,
            text_or_null(entry.routed_model),
        ).with("project"@, text_or_null(entry.project))
    } else if kind == "finished"@ {
        details.with("state"@, Tree::Text(entry.state)).with(
            "error_code"@,
            text_or_null(entry.error_code),
        ).with("source"@, text_or_null(entry.outcome_source))
    } else if kind == "response_event"@ {
        details.with("error_code"@, text_or_null(entry.error_code))
    } else {
        details
    }
}

fn make_details(entry: &Entry, kind: &str, details: Json) -> (r: Json)
    ensures
        r@ == event_details(entry.deep_view(), kind@, details@),
{
    if same(kind, "attempt_started") {
        details.with("attempt", Json::natural(entry.attempts as u64))
    } else if same(kind, "usage") {
        Json::object().with("input_tokens", optional_count(entry.input_tokens)).with(
            "output_tokens",
            optional_count(entry.output_tokens),
        ).with("cached_input_tokens", optional_count(entry.cached_input_tokens)).with(
            "cache_write_tokens",
            optional_count(entry.cache_write_tokens),
        ).with("reasoning_tokens", optional_count(entry.reasoning_tokens))
    } else if same(kind, "routed") {
        Json::object().with(
            "requested_model",
            optional_text(opt_str(&entry.requested_model)),
        ).with("routed_model", optional_text(opt_str(&entry.routed_model))).with(
            "project",
            optional_text(opt_str(&entry.project)),
        )
    } else if same(kind, "finished") {
        details.with("state", Json::text(entry.state.as_str())).with(
            "error_code",
            optional_text(opt_str(&entry.error_code)),
        ).with("source", optional_text(opt_str(&entry.outcome_source)))
    } else if same(kind, "response_event") {
        details.with("error_code", optional_text(opt_str(&entry.error_code)))
    } else {
        details
    }
}

impl History {
    /// The history with a record changed: records of finished requests that fell out of
    /// the recent ones are dropped.
    pub open spec fn revised(
        self,
        id: u64,
        change: spec_fn(EntryView) -> Option<EntryView>,
        kind: Seq<char>,
        details: Tree,
        now: u64,
    ) -> (History, Option<EventView>) {
        match place_of(self.entries, id, 0) {
            None => (self, None),
            Some(place) => match change(self.entries[place]) {
                None => (self, None),
                Some(changed) => {
                    let entry = changed.settled(now);
                    let event = EventView {
                        entry,
                        kind,
                        details: event_details(entry, kind, details),
                    };
                    let old = if self.next_id > RECENT_LIMIT {
                        self.next_id - RECENT_LIMIT
                    } else {
                        0
                    };
                    (
                        History {
                            entries: if entry.ended_ms is Some && id <= old {
                                self.entries.remove(place)
                            } else {
                                self.entries.update(place, entry)
                            },
                            ..self
                        },
                        Some(event),
                    )
                },
            },
        }
    }
}

// ---- changes ---------------------------------------------------------------------------------

/// The value of the first of two members that exists.
pub open spec fn either(value: Tree, first: Seq<char>, second: Seq<char>) -> Tree {
    match value.get(first) {
        Some(found) => found,
        None => value.at(second),
    }
}

fn read_either<'a>(value: &'a Json, first: &str, second: &str) -> (r: &'a Json)
    ensures
        r@ == either(value@, first@, second@),
{
    match value.get(first) {
        Some(found) => found,
        None => value.at(second),
    }
}

/// A count, or the one before it.
pub open spec fn newer(count: Option<u64>, old: Option<u64>) -> Option<u64> {
    if count is Some {
        count
    } else {
        old
    }
}

fn take_newer(count: Option<u64>, old: Option<u64>) -> (r: Option<u64>)
    ensures
        r == newer(count, old),
{
    if count.is_some() {
        count
    } else {
        old
    }
}

/// The usage that a value reports, where it does.
pub open spec fn reported_usage(value: Tree) -> Tree {
    match value.get("usage"@) {
        Some(usage) => usage,
        None => value.at("response"@).at("usage"@),
    }
}

/// The reasoning tokens that a usage reports.
pub open spec fn reasoning_count(usage: Tree) -> Option<u64> {
    match usage.at("output_tokens_details"@).get("reasoning_tokens"@) {
        Some(count) => count.natural(),
        None => usage.at("completion_tokens_details"@).at("reasoning_tokens"@).natural(),
    }
}

/// A record with the usage that a value reports. A later report replaces an earlier one.
pub open spec fn with_usage(entry: EntryView, value: Tree) -> Option<EntryView> {
    let usage = reported_usage(value);
    let input = either(usage, "input_tokens"@, "prompt_tokens"@).natural();
    let output = either(usage, "output_tokens"@, "completion_tokens"@).natural();
    if input is None && output is None {
        None
    } else {
        let details = either(usage, "input_tokens_details"@, "prompt_tokens_details"@);
        let cached = details.at("cached_tokens"@).natural();
        let writes = details.at("cache_write_tokens"@).natural();
        let after = EntryView {
            input_tokens: newer(input, entry.input_tokens),
            cached_input_tokens: if input is Some {
                newer(cached, entry.cached_input_tokens)
            } else {
                entry.cached_input_tokens
            },
            cache_write_tokens: if input is Some {
                newer(writes, entry.cache_write_tokens)
            } else {
                entry.cache_write_tokens
            },
            output_tokens: newer(output, entry.output_tokens),
            reasoning_tokens: newer(reasoning_count(usage), entry.reasoning_tokens),
            ..entry
        };
        if after.input_tokens == entry.input_tokens && after.output_tokens == entry.output_tokens
            && after.cached_input_tokens == entry.cached_input_tokens && after.cache_write_tokens
            == entry.cache_write_tokens && after.reasoning_tokens == entry.reasoning_tokens {
            None
        } else {
            Some(after)
        }
    }
}

fn same_count(a: Option<u64>, b: Option<u64>) -> (r: bool)
    ensures
        r == (a == b),
{
    match (a, b) {
        (Some(a), Some(b)) => a == b,
        (None, None) => true,
        _ => false,
    }
}

fn take_usage(entry: &mut Entry, value: &Json) -> (r: bool)
    ensures
        match with_usage(old(entry).deep_view(), value@) {
            Some(after) => r && final(entry).deep_view() == after,
            None => !r && final(entry).deep_view() == old(entry).deep_view(),
        },
{
    let usage = match value.get("usage") {
        Some(usage) => usage,
        None => value.at("response").at("usage"),
    };
    let input = read_either(usage, "input_tokens", "prompt_tokens").as_u64();
    let output = read_either(usage, "output_tokens", "completion_tokens").as_u64();
    if input.is_none() && output.is_none() {
        return false;
    }
    let details = read_either(usage, "input_tokens_details", "prompt_tokens_details");
    let cached = details.at("cached_tokens").as_u64();
    let writes = details.at("cache_write_tokens").as_u64();
    let reasoning = match usage.at("output_tokens_details").get("reasoning_tokens") {
        Some(count) => count.as_u64(),
        None => usage.at("completion_tokens_details").at("reasoning_tokens").as_u64(),
    };
    let new_input = take_newer(input, entry.input_tokens);
    let new_cached = if input.is_some() {
        take_newer(cached, entry.cached_input_tokens)
    } else {
        entry.cached_input_tokens
    };
    let new_writes = if input.is_some() {
        take_newer(writes, entry.cache_write_tokens)
    } else {
        entry.cache_write_tokens
    };
    let new_output = take_newer(output, entry.output_tokens);
    let new_reasoning = take_newer(reasoning, entry.reasoning_tokens);
    if same_count(new_input, entry.input_tokens) && same_count(new_output, entry.output_tokens)
        && same_count(new_cached, entry.cached_input_tokens) && same_count(
        new_writes,
        entry.cache_write_tokens,
    ) && same_count(new_reasoning, entry.reasoning_tokens) {
        return false;
    }
    entry.input_tokens = new_input;
    entry.cached_input_tokens = new_cached;
    entry.cache_write_tokens = new_writes;
    entry.output_tokens = new_output;
    entry.reasoning_tokens = new_reasoning;
    true
}

/// What a response tells of itself.
pub open spec fn tells_error(value: Tree) -> bool {
    !(value.at("error"@) is Null) || !(value.at("response"@).at("error"@) is Null)
}

/// The status that a response tells.
pub open spec fn told_status(value: Tree) -> Tree {
    match value.get("status"@) {
        Some(status) => status,
        None => value.at("response"@).at("status"@),
    }
}

/// Whether a value tells something of how a response ends.
pub open spec fn notable(value: Tree) -> bool {
    let kind = value.at("type"@);
    let status = told_status(value);
    kind == Tree::Text("response.created"@) || kind == Tree::Text("response.completed"@) || kind
        == Tree::Text("response.failed"@) || kind == Tree::Text("response.incomplete"@) || kind
        == Tree::Text("error"@) || kind == Tree::Text("proxy.stream.done"@) || tells_error(value)
        || status == Tree::Text("completed"@) || status == Tree::Text("failed"@) || status
        == Tree::Text("incomplete"@)
}

/// The code of an error that a response tells.
pub open spec fn told_code(value: Tree) -> Option<Seq<char>> {
    let inner = value.at("response"@);
    let code = match inner.at("error"@).get("code"@) {
        Some(code) => code,
        None => match value.at("error"@).get("code"@) {
            Some(code) => code,
            None => match inner.at("incomplete_details"@).get("reason"@) {
                Some(reason) => reason,
                None => value.at("incomplete_details"@).at("reason"@),
            },
        },
    };
    match code.text() {
        Some(code) => Some(cut_to(code, 128)),
        None => None,
    }
}

/// The id that a response tells.
pub open spec fn told_id(value: Tree) -> Option<Seq<char>> {
    let id = match value.at("response"@).get("id"@) {
        Some(id) => id,
        None => value.at("id"@),
    };
    match id.text() {
        Some(id) => Some(cut_to(id, 128)),
        None => None,
    }
}

/// Whether a value tells of success.
pub open spec fn tells_success(value: Tree) -> bool {
    let kind = value.at("type"@);
    kind == Tree::Text("response.completed"@) || kind == Tree::Text("proxy.stream.done"@)
        || told_status(value) == Tree::Text("completed"@)
}

/// Whether a value tells of failure.
pub open spec fn tells_failure(value: Tree) -> bool {
    let kind = value.at("type"@);
    kind == Tree::Text("response.failed"@) || kind == Tree::Text("response.incomplete"@) || kind
        == Tree::Text("error"@) || tells_error(value) || told_status(value) == Tree::Text(
        "failed"@,
    ) || told_status(value) == Tree::Text("incomplete"@)
}

/// A record with what a value tells of the response. A failure outlasts a success.
pub open spec fn with_response(entry: EntryView, value: Tree) -> EntryView {
    let named = EntryView {
        response_id: match told_id(value) {
            Some(id) => Some(id),
            None => entry.response_id,
        },
        ..entry
    };
    let done = if tells_success(value) && named.terminal != Some("failed"@) {
        EntryView { terminal: Some("succeeded"@), ..named }
    } else {
        named
    };
    if tells_failure(value) {
        EntryView { terminal: Some("failed"@), error_code: told_code(value), ..done }
    } else {
        done
    }
}

fn read_error_told(value: &Json) -> (r: bool)
    ensures
        r == tells_error(value@),
{
    !value.at("error").is_null() || !value.at("response").at("error").is_null()
}

fn read_told_status<'a>(value: &'a Json) -> (r: &'a Json)
    ensures
        r@ == told_status(value@),
{
    match value.get("status") {
        Some(status) => status,
        None => value.at("response").at("status"),
    }
}

fn is_notable(value: &Json) -> (r: bool)
    ensures
        r == notable(value@),
{
    let kind = value.at("type");
    let status = read_told_status(value);
    kind.is("response.created") || kind.is("response.completed") || kind.is("response.failed")
        || kind.is("response.incomplete") || kind.is("error") || kind.is("proxy.stream.done")
        || read_error_told(value) || status.is("completed") || status.is("failed") || status.is(
        "incomplete",
    )
}

fn read_told_code(value: &Json) -> (r: Option<String>)
    ensures
        r.deep_view() == told_code(value@),
{
    let inner = value.at("response");
    let code = match inner.at("error").get("code") {
        Some(code) => code,
        None => match value.at("error").get("code") {
            Some(code) => code,
            None => match inner.at("incomplete_details").get("reason") {
                Some(reason) => reason,
                None => value.at("incomplete_details").at("reason"),
            },
        },
    };
    match code.as_str() {
        Some(code) => Some(cut_text(code, 128)),
        None => None,
    }
}

fn read_told_id(value: &Json) -> (r: Option<String>)
    ensures
        r.deep_view() == told_id(value@),
{
    let id = match value.at("response").get("id") {
        Some(id) => id,
        None => value.at("id"),
    };
    match id.as_str() {
        Some(id) => Some(cut_text(id, 128)),
        None => None,
    }
}

fn is_text(text: &Option<String>, expected: &str) -> (r: bool)
    ensures
        r == (text.deep_view() == Some(expected@)),
{
    match text {
        Some(text) => same(text.as_str(), expected),
        None => false,
    }
}

fn take_response(entry: &mut Entry, value: &Json)
    ensures
        final(entry).deep_view() == with_response(old(entry).deep_view(), value@),
{
    match read_told_id(value) {
        Some(id) => {
            entry.response_id = Some(id);
        },
        None => {},
    }
    let kind = value.at("type");
    let status = read_told_status(value);
    if (kind.is("response.completed") || kind.is("proxy.stream.done") || status.is("completed"))
        && !is_text(&entry.terminal, "failed") {
        entry.terminal = Some("succeeded".to_string());
    }
    if kind.is("response.failed") || kind.is("response.incomplete") || kind.is("error")
        || read_error_told(value) || status.is("failed") || status.is("incomplete") {
        entry.terminal = Some("failed".to_string());
        entry.error_code = read_told_code(value);
    }
}

/// Whether a stream of Responses ended without a terminal event.
pub open spec fn ends_unfinished(entry: EntryView, source: Seq<char>) -> bool {
    source == "stream_end"@ && entry.streaming && "/responses"@.is_suffix_of(
        trimmed_end(entry.path, '/'),
    ) && entry.terminal is None
}

/// Whether a client closed the stream of a response that had completed. Clients may close
/// after the terminal event, without waiting for the end of the body.
pub open spec fn closed_when_done(entry: EntryView, source: Seq<char>) -> bool {
    source == "client_disconnect"@ && entry.streaming && entry.terminal == Some("succeeded"@) && (
    entry.status matches Some(status) ==> status < 400)
}

/// A record of a request that is over. The first ending stands.
pub open spec fn with_ending(
    entry: EntryView,
    outcome: Seq<char>,
    source: Seq<char>,
    code: Option<Seq<char>>,
    bytes: u64,
    now: u64,
    elapsed: u64,
) -> Option<EntryView> {
    if entry.ended_ms is Some {
        None
    } else {
        let unfinished = ends_unfinished(entry, source);
        let done = closed_when_done(entry, source);
        Some(
            EntryView {
                state: if entry.terminal == Some("failed"@) || unfinished || (outcome
                    == "succeeded"@ && (entry.status matches Some(status) && status >= 400)) {
                    "failed"@
                } else if done {
                    "succeeded"@
                } else {
                    outcome
                },
                outcome_source: Some(
                    if done {
                        "responses_event"@
                    } else {
                        source
                    },
                ),
                error_code: if unfinished {
                    Some("stream_missing_completed"@)
                } else if !done && entry.error_code is None && code is Some {
                    Some(cut_to(code->Some_0, 128))
                } else {
                    entry.error_code
                },
                ended_ms: Some(now),
                total_duration_ms: Some(elapsed),
                response_bytes: bytes,
                ..entry
            },
        )
    }
}

fn end_entry(
    entry: &mut Entry,
    outcome: &str,
    source: &str,
    code: Option<&str>,
    bytes: u64,
    now: u64,
    elapsed: u64,
) -> (r: bool)
    ensures
        match with_ending(
            old(entry).deep_view(),
            outcome@,
            source@,
            code.deep_view(),
            bytes,
            now,
            elapsed,
        ) {
            Some(after) => r && final(entry).deep_view() == after,
            None => !r && final(entry).deep_view() == old(entry).deep_view(),
        },
{
    if entry.ended_ms.is_some() {
        return false;
    }
    let unfinished = same(source, "stream_end") && entry.streaming && ends_with(
        trim_end(entry.path.as_str(), '/'),
        "/responses",
    ) && entry.terminal.is_none();
    let fine = match entry.status {
        Some(status) => status < 400,
        None => true,
    };
    let done = same(source, "client_disconnect") && entry.streaming && is_text(
        &entry.terminal,
        "succeeded",
    ) && fine;
    let refused = match entry.status {
        Some(status) => status >= 400,
        None => false,
    };
    entry.state = if is_text(&entry.terminal, "failed") || unfinished || (same(
        outcome,
        "succeeded",
    ) && refused) {
        "failed".to_string()
    } else if done {
        "succeeded".to_string()
    } else {
        outcome.to_string()
    };
    entry.outcome_source = if done {
        Some("responses_event".to_string())
    } else {
        Some(source.to_string())
    };
    if unfinished {
        entry.error_code = Some("stream_missing_completed".to_string());
    } else if !done && entry.error_code.is_none() {
        match code {
            Some(code) => {
                entry.error_code = Some(cut_text(code, 128));
            },
            None => {},
        }
    }
    entry.ended_ms = Some(now);
    entry.total_duration_ms = Some(elapsed);
    entry.response_bytes = bytes;
    true
}

/// A change that a part of the proxy makes to a record.
pub enum Change {
    /// Something happened; the record stays as it is.
    Note,
    /// The models and the key that the request was routed to.
    Route { requested: Option<String>, routed: Option<String>, project: String },
    /// The effort that was asked for and is used, and the rule that decided.
    Decision { requested: Option<String>, routed: Option<String>, rule: String },
    /// This many retries.
    Retries(u32),
    /// The headers of the response, after this long.
    Headers { status: u16, elapsed: u64 },
    /// The first byte of the response, after this long.
    FirstByte(u64),
    /// The first output of the model, after this long.
    FirstOutput(u64),
    /// Another attempt.
    Attempt,
    /// The reminder was added.
    Guidance,
    Transport(String),
    RequestBytes(u64),
    UpstreamId(Option<String>),
    Streaming(bool),
    ErrorCode(String),
    /// A provider took the request.
    Provider { model: String, project: String, streaming: bool },
    /// The model and the effort that were asked for before other models were tried.
    Requested { model: String, effort: Option<String> },
}

/// What a change leaves of a record.
pub open spec fn changed(entry: EntryView, change: Change) -> Option<EntryView> {
    match change {
        Change::Note => Some(entry),
        Change::Route { requested, routed, project } => Some(
            EntryView {
                requested_model: requested.deep_view(),
                routed_model: routed.deep_view(),
                project: Some(project@),
                ..entry
            },
        ),
        Change::Decision { requested, routed, rule } => Some(
            EntryView {
                requested_reasoning: requested.deep_view(),
                routed_reasoning: routed.deep_view(),
                route_rule: Some(rule@),
                ..entry
            },
        ),
        Change::Retries(count) => if entry.retries == count {
            None
        } else {
            Some(EntryView { retries: count, ..entry })
        },
        Change::Headers { status, elapsed } => Some(
            EntryView {
                status: Some(status),
                duration_ms: match entry.duration_ms {
                    Some(duration) => Some(duration),
                    None => Some(elapsed),
                },
                state: if entry.ended_ms is Some {
                    entry.state
                } else {
                    "streaming"@
                },
                ..entry
            },
        ),
        Change::FirstByte(elapsed) => if entry.first_byte_ms is Some {
            None
        } else {
            Some(EntryView { first_byte_ms: Some(elapsed), ..entry })
        },
        Change::FirstOutput(elapsed) => if entry.first_output_ms is Some {
            None
        } else {
            Some(EntryView { first_output_ms: Some(elapsed), ..entry })
        },
        Change::Attempt => Some(
            EntryView {
                attempts: if entry.attempts == u32::MAX {
                    u32::MAX
                } else {
                    (entry.attempts + 1) as u32
                },
                ..entry
            },
        ),
        Change::Guidance => Some(EntryView { security_guidance: true, ..entry }),
        Change::Transport(transport) => Some(EntryView { transport: transport@, ..entry }),
        Change::RequestBytes(bytes) => Some(EntryView { request_bytes: bytes, ..entry }),
        Change::UpstreamId(id) => Some(
            EntryView { upstream_request_id: id.deep_view(), ..entry },
        ),
        Change::Streaming(streaming) => Some(EntryView { streaming, ..entry }),
        Change::ErrorCode(code) => Some(EntryView { error_code: Some(code@), ..entry }),
        Change::Provider { model, project, streaming } => Some(
            EntryView {
                routed_model: Some(model@),
                project: Some(project@),
                streaming,
                ..entry
            },
        ),
        Change::Requested { model, effort } => Some(
            EntryView {
                requested_model: Some(model@),
                requested_reasoning: effort.deep_view(),
                ..entry
            },
        ),
    }
}

fn apply_change(entry: &mut Entry, change: Change) -> (r: bool)
    ensures
        match changed(old(entry).deep_view(), change) {
            Some(after) => r && final(entry).deep_view() == after,
            None => !r && final(entry).deep_view() == old(entry).deep_view(),
        },
{
    match change {
        Change::Note => {},
        Change::Route { requested, routed, project } => {
            entry.requested_model = requested;
            entry.routed_model = routed;
            entry.project = Some(project);
        },
        Change::Decision { requested, routed, rule } => {
            entry.requested_reasoning = requested;
            entry.routed_reasoning = routed;
            entry.route_rule = Some(rule);
        },
        Change::Retries(count) => {
            if entry.retries == count {
                return false;
            }
            entry.retries = count;
        },
        Change::Headers { status, elapsed } => {
            entry.status = Some(status);
            if entry.duration_ms.is_none() {
                entry.duration_ms = Some(elapsed);
            }
            if entry.ended_ms.is_none() {
                entry.state = "streaming".to_string();
            }
        },
        Change::FirstByte(elapsed) => {
            if entry.first_byte_ms.is_some() {
                return false;
            }
            entry.first_byte_ms = Some(elapsed);
        },
        Change::FirstOutput(elapsed) => {
            if entry.first_output_ms.is_some() {
                return false;
            }
            entry.first_output_ms = Some(elapsed);
        },
        Change::Attempt => {
            if entry.attempts < u32::MAX {
                entry.attempts = entry.attempts + 1;
            }
        },
        Change::Guidance => {
            entry.security_guidance = true;
        },
        Change::Transport(transport) => {
            entry.transport = transport;
        },
        Change::RequestBytes(bytes) => {
            entry.request_bytes = bytes;
        },
        Change::UpstreamId(id) => {
            entry.upstream_request_id = id;
        },
        Change::Streaming(streaming) => {
            entry.streaming = streaming;
        },
        Change::ErrorCode(code) => {
            entry.error_code = Some(code);
        },
        Change::Provider { model, project, streaming } => {
            entry.routed_model = Some(model);
            entry.project = Some(project);
            entry.streaming = streaming;
        },
        Change::Requested { model, effort } => {
            entry.requested_model = Some(model);
            entry.requested_reasoning = effort;
        },
    }
    true
}

// ---- routing evidence ------------------------------------------------------------------------

/// The part of a request that names its model.
pub open spec fn envelope_of(value: Tree) -> Tree {
    if value.at("model"@) is Text {
        value
    } else if value.at("response"@).has("model"@) {
        value.at("response"@)
    } else if value.at("session"@).has("model"@) {
        value.at("session"@)
    } else {
        value
    }
}

/// An effort as it is kept.
pub open spec fn kept_effort(effort: Option<Seq<char>>) -> Option<Seq<char>> {
    match effort {
        Some(effort) => Some(cut_to(effort, 256)),
        None => None,
    }
}

/// What the rules decide about a request: the effort asked for, the effort used, and the
/// rule.
pub open spec fn decision_of(aliases: Seq<AliasView>, path: Seq<char>, value: Tree) -> (
    Option<Seq<char>>,
    Option<Seq<char>>,
    Seq<char>,
) {
    let envelope = envelope_of(value);
    let effort = effort_of(path, envelope);
    let alias = match envelope.at("model"@).text() {
        Some(model) => alias_from(aliases, model, path, 0),
        None => None,
    };
    let rule = match alias {
        Some(alias) => if effort matches Some(effort) && find(
            alias.reasoning_routes,
            effort,
        ) is Some {
            "reasoning"@
        } else {
            "alias"@
        },
        None => if envelope.has("model"@) {
            "passthrough"@
        } else {
            "inherited"@
        },
    };
    let place = trimmed_end(path, '/');
    let used = if "/responses"@.is_suffix_of(place) || "/chat/completions"@.is_suffix_of(place) {
        match alias {
            Some(AliasView { reasoning: Some(set), .. }) => Some(set),
            _ => effort,
        }
    } else {
        effort
    };
    (kept_effort(effort), kept_effort(used), rule)
}

fn keep_effort(effort: Option<&str>) -> (r: Option<String>)
    ensures
        r.deep_view() == kept_effort(effort.deep_view()),
{
    match effort {
        Some(effort) => Some(cut_text(effort, 256)),
        None => None,
    }
}

/// What the rules decide about a request. Only routing inputs are kept, never a body.
pub fn decide_routing(config: &Config, path: &str, value: &Json) -> (r: (
    Option<String>,
    Option<String>,
    &'static str,
))
    ensures
        (r.0.deep_view(), r.1.deep_view(), r.2@) == decision_of(
            alias_views(config.aliases@),
            path@,
            value@,
        ),
{
    let envelope = if value.at("model").is_string() {
        value
    } else if value.at("response").has("model") {
        value.at("response")
    } else if value.at("session").has("model") {
        value.at("session")
    } else {
        value
    };
    let effort = requested_effort(path, envelope);
    let alias = match envelope.at("model").as_str() {
        Some(model) => config.alias_for(model, path),
        None => None,
    };
    let rule = match alias {
        Some(alias) => {
            let routed = match effort {
                Some(effort) => get_entry(&alias.reasoning_routes, effort).is_some(),
                None => false,
            };
            if routed {
                "reasoning"
            } else {
                "alias"
            }
        },
        None => if envelope.has("model") {
            "passthrough"
        } else {
            "inherited"
        },
    };
    let place = trim_end(path, '/');
    let used = if ends_with(place, "/responses") || ends_with(place, "/chat/completions") {
        match alias {
            Some(alias) => match &alias.reasoning {
                Some(set) => Some(set.as_str()),
                None => effort,
            },
            None => effort,
        }
    } else {
        effort
    };
    (keep_effort(effort), keep_effort(used), rule)
}

// ---- the store -------------------------------------------------------------------------------

impl History {
    /// The history with a new request.
    pub open spec fn begun(
        self,
        method: Seq<char>,
        path: Seq<char>,
        transport: Seq<char>,
        now: u64,
        started: Option<std::time::Instant>,
    ) -> (History, EventView) {
        let id = next(self.next_id);
        let full = self.order.len() == RECENT_LIMIT;
        let entries = if full && (place_of(self.entries, self.order[0], 0) matches Some(place)
            && self.entries[place].ended_ms is Some) {
            self.entries.remove(place_of(self.entries, self.order[0], 0)->Some_0)
        } else {
            self.entries
        };
        let order = if full {
            self.order.subrange(1, self.order.len() as int)
        } else {
            self.order
        };
        let entry = EntryView {
            id,
            request_id: self.session_id + "-"@ + decimal(id as nat),
            session_id: self.session_id,
            timestamp_ms: now,
            updated_ms: now,
            method,
            path: cut_to(path, 2048),
            transport,
            mode: self.mode,
            state: "pending"@,
            started,
            ..blank_entry()
        };
        (
            History {
                next_id: id,
                entries: entries.push(entry),
                order: order.push(id),
                ..self
            },
            EventView {
                entry,
                kind: "received"@,
                details: event_details(entry, "received"@, empty_object()),
            },
        )
    }

    /// The recent records from the `count` oldest on, newest first.
    pub open spec fn recent(self, count: nat) -> Seq<EntryView>
        decreases count,
    {
        if count == 0 || count > self.order.len() {
            Seq::empty()
        } else {
            let rest = self.recent((count - 1) as nat);
            match place_of(self.entries, self.order[count - 1], 0) {
                Some(place) => seq![self.entries[place]] + rest,
                None => rest,
            }
        }
    }
}

fn find_place(entries: &Vec<Entry>, id: u64) -> (r: Option<usize>)
    ensures
        match r {
            Some(place) => place_of(entry_views(entries@), id, 0) == Some(place as int) && place
                < entries.len(),
            None => place_of(entry_views(entries@), id, 0) is None,
        },
{
    let mut i: usize = 0;
    while i < entries.len()
        invariant
            i <= entries.len(),
            place_of(entry_views(entries@), id, 0) == place_of(
                entry_views(entries@),
                id,
                i as int,
            ),
        decreases entries.len() - i,
    {
        if entries[i].id == id {
            return Some(i);
        }
        i += 1;
    }
    None
}

/// A store without requests.
pub open spec fn fresh(session_id: Seq<char>, mode: Seq<char>) -> History {
    History { next_id: 0, entries: Seq::empty(), order: Seq::empty(), session_id, mode }
}

impl Store {
    /// A store for a session.
    pub fn new_at(session_id: String, mode: &str) -> (r: Store)
        ensures
            r@ == fresh(session_id@, mode@),
    {
        let r = Store {
            next_id: 0,
            entries: Vec::new(),
            order: Vec::new(),
            session_id,
            mode: mode.to_string(),
        };
        proof {
            assert(entry_views(r.entries@) =~= Seq::empty());
        }
        r
    }

    /// A store for a session with a fresh id.
    pub fn new(mode: &str) -> (r: Store)
        ensures
            exists|bytes: Seq<u8>| bytes.len() == 16 && r@ == fresh(#[trigger] hex(bytes), mode@),
    {
        let bytes = fresh_id();
        proof {
            assert(bytes@.len() == 16);
        }
        Store::new_at(hex_text(&bytes), mode)
    }

    /// Remembers a new request at a given time; the oldest finished one is forgotten where
    /// there are too many.
    pub fn begin_at(
        &mut self,
        method: &str,
        path: &str,
        transport: &str,
        now: u64,
        started: Option<std::time::Instant>,
    ) -> (r: (u64, Event))
        ensures
            ({
                let (after, event) = old(self)@.begun(method@, path@, transport@, now, started);
                &&& final(self)@ == after
                &&& r.0 == after.next_id
                &&& r.1.deep_view() == event
            }),
    {
        let id: u64 = if self.next_id == u64::MAX {
            0
        } else {
            self.next_id + 1
        };
        self.next_id = id;
        if self.order.len() == RECENT_LIMIT {
            let oldest = self.order.remove(0);
            proof {
                assert(self.order@ =~= old(self).order@.subrange(
                    1,
                    old(self).order@.len() as int,
                ));
            }
            match find_place(&self.entries, oldest) {
                Some(place) => if self.entries[place].is_final() {
                    let ghost before = entry_views(self.entries@);
                    let _ = self.entries.remove(place);
                    proof {
                        assert(entry_views(self.entries@) =~= before.remove(place as int));
                    }
                },
                None => {},
            }
        }
        let shown = number_text(id);
        let mut entry = Entry::default();
        entry.id = id;
        entry.request_id = join3(self.session_id.as_str(), "-", shown.as_str());
        entry.session_id = self.session_id.clone();
        entry.timestamp_ms = now;
        entry.updated_ms = now;
        entry.method = method.to_string();
        entry.path = cut_text(path, 2048);
        entry.transport = transport.to_string();
        entry.mode = self.mode.clone();
        entry.state = "pending".to_string();
        entry.started = started;
        let details = make_details(&entry, "received", Json::object());
        let event = Event { entry: entry.copy(), kind: "received".to_string(), details };
        let ghost before = entry_views(self.entries@);
        let ghost made = entry.deep_view();
        self.entries.push(entry);
        self.order.push(id);
        proof {
            assert(entry_views(self.entries@) =~= before.push(made));
        }
        (id, event)
    }

    /// Remembers a new request that arrives now. Whatever the time, the store is the one
    /// that it gives.
    pub fn begin(&mut self, method: &str, path: &str, transport: &str) -> (r: (u64, Event))
        ensures
            exists|now: u64, started: Option<std::time::Instant>|
                ({
                    let (after, event) = #[trigger] old(self)@.begun(
                        method@,
                        path@,
                        transport@,
                        now,
                        started,
                    );
                    &&& final(self)@ == after
                    &&& r.0 == after.next_id
                    &&& r.1.deep_view() == event
                }),
    {
        let now = crate::logs::entry::now_ms();
        let started = Some(this_moment());
        self.begin_at(method, path, transport, now, started)
    }

    /// The recent records, newest first.
    pub fn recent(&self) -> (r: Vec<Entry>)
        ensures
            entry_views(r@) == self@.recent(self.order@.len()),
    {
        let mut out: Vec<Entry> = Vec::new();
        let ghost whole = self@.recent(self.order@.len());
        let mut i: usize = self.order.len();
        proof {
            assert(entry_views(out@) =~= Seq::<EntryView>::empty());
            assert(Seq::<EntryView>::empty() + whole =~= whole);
        }
        while i > 0
            invariant
                i <= self.order.len(),
                whole == entry_views(out@) + self@.recent(i as nat),
            decreases i,
        {
            let ghost before = entry_views(out@);
            match find_place(&self.entries, self.order[i - 1]) {
                Some(place) => {
                    let entry = self.entries[place].copy();
                    let ghost made = entry.deep_view();
                    out.push(entry);
                    proof {
                        assert(entry_views(out@) =~= before.push(made));
                        let rest = self@.recent((i - 1) as nat);
                        assert(before + (seq![made] + rest) =~= before.push(made) + rest);
                    }
                },
                None => {},
            }
            i -= 1;
        }
        proof {
            assert(entry_views(out@) + Seq::<EntryView>::empty() =~= entry_views(out@));
        }
        out
    }

    fn settle(&mut self, place: usize, kind: &str, details: Json, now: u64, Ghost(prior): Ghost<
        History,
    >) -> (r: Event)
        requires
            place < old(self).entries.len(),
            old(self)@ == (History {
                entries: prior.entries.update(
                    place as int,
                    old(self).entries@[place as int].deep_view(),
                ),
                ..prior
            }),
            place < prior.entries.len(),
        ensures
            ({
                let entry = old(self).entries@[place as int].deep_view().settled(now);
                let old_id = if prior.next_id > RECENT_LIMIT {
                    prior.next_id - RECENT_LIMIT
                } else {
                    0
                };
                &&& r.deep_view() == (EventView {
                    entry,
                    kind: kind@,
                    details: event_details(entry, kind@, details@),
                })
                &&& final(self)@ == (History {
                    entries: if entry.ended_ms is Some && entry.id <= old_id {
                        prior.entries.remove(place as int)
                    } else {
                        prior.entries.update(place as int, entry)
                    },
                    ..prior
                })
            }),
    {
        let mut entry = self.entries[place].copy();
        settle_entry(&mut entry, now);
        let details = make_details(&entry, kind, details);
        let kept: u64 = if self.next_id > RECENT_LIMIT as u64 {
            self.next_id - RECENT_LIMIT as u64
        } else {
            0
        };
        let ghost before = entry_views(self.entries@);
        if entry.is_final() && entry.id <= kept {
            let _ = self.entries.remove(place);
            proof {
                assert(before == prior.entries.update(place as int, before[place as int]));
                assert(entry_views(self.entries@) =~= before.remove(place as int));
                assert(before.remove(place as int) =~= prior.entries.remove(place as int));
            }
        } else {
            let stored = entry.copy();
            let ghost made = stored.deep_view();
            self.entries.set(place, stored);
            proof {
                assert(before == prior.entries.update(place as int, before[place as int]));
                assert(entry_views(self.entries@) =~= before.update(place as int, made));
                assert(before.update(place as int, made) =~= prior.entries.update(
                    place as int,
                    made,
                ));
            }
        }
        Event { entry, kind: kind.to_string(), details }
    }

    /// Records a change of a request, and gives what is to be kept of it.
    pub fn update(&mut self, id: u64, kind: &str, details: Json, change: Change, now: u64) -> (r: Option<
        Event,
    >)
        ensures
            (final(self)@, r.deep_view()) == old(self)@.revised(
                id,
                |entry: EntryView| changed(entry, change),
                kind@,
                details@,
                now,
            ),
    {
        let ghost prior = self@;
        let ghost rule = |entry: EntryView| changed(entry, change);
        match find_place(&self.entries, id) {
            None => None,
            Some(place) => {
                proof {
                    placed_has_id(self@.entries, id, 0);
                }
                let mut entry = self.entries[place].copy();
                if !apply_change(&mut entry, change) {
                    return None;
                }
                let ghost made = entry.deep_view();
                proof {
                    assert(rule(prior.entries[place as int]) == Some(made));
                    changes_keep_id(prior.entries[place as int], change);
                }
                self.entries.set(place, entry);
                proof {
                    assert(self@.entries =~= prior.entries.update(place as int, made));
                }
                Some(self.settle(place, kind, details, now, Ghost(prior)))
            },
        }
    }

    /// Records the models and the key that a request was routed to.
    pub fn route(
        &mut self,
        id: u64,
        requested: Option<String>,
        routed: Option<String>,
        project: &str,
        now: u64,
    ) -> (r: Option<Event>)
        ensures
            (final(self)@, r.deep_view()) == old(self)@.revised(
                id,
                |entry: EntryView|
                    with_route(entry, requested.deep_view(), routed.deep_view(), project@),
                "routed"@,
                empty_object(),
                now,
            ),
    {
        let change = Change::Route { requested, routed, project: project.to_string() };
        proof {
            let one = |entry: EntryView| changed(entry, change);
            let two = |entry: EntryView|
                with_route(entry, requested.deep_view(), routed.deep_view(), project@);
            assert(one =~= two);
        }
        self.update(id, "routed", Json::object(), change, now)
    }

    /// Records how often a request was retried.
    pub fn retries(&mut self, id: u64, count: u32, now: u64) -> (r: Option<Event>)
        ensures
            (final(self)@, r.deep_view()) == old(self)@.revised(
                id,
                |entry: EntryView| changed(entry, Change::Retries(count)),
                "retry"@,
                empty_object().with("retry"@, number(count as u64)),
                now,
            ),
    {
        let details = Json::object().with("retry", Json::natural(count as u64));
        self.update(id, "retry", details, Change::Retries(count), now)
    }

    /// Records the status of a response. Its completion is recorded separately.
    pub fn finish(&mut self, id: u64, status: u16, elapsed: u64, now: u64) -> (r: Option<Event>)
        ensures
            (final(self)@, r.deep_view()) == old(self)@.revised(
                id,
                |entry: EntryView| changed(entry, Change::Headers { status, elapsed }),
                "headers"@,
                empty_object().with("status"@, number(status as u64)),
                now,
            ),
    {
        let details = Json::object().with("status", Json::natural(status as u64));
        self.update(id, "headers", details, Change::Headers { status, elapsed }, now)
    }

    /// Records the first byte of a response.
    pub fn first_byte(&mut self, id: u64, elapsed: u64, now: u64) -> (r: Option<Event>)
        ensures
            (final(self)@, r.deep_view()) == old(self)@.revised(
                id,
                |entry: EntryView| changed(entry, Change::FirstByte(elapsed)),
                "first_byte"@,
                empty_object(),
                now,
            ),
    {
        self.update(id, "first_byte", Json::object(), Change::FirstByte(elapsed), now)
    }

    /// Records the first output of the model.
    pub fn first_output(&mut self, id: u64, elapsed: u64, now: u64) -> (r: Option<Event>)
        ensures
            (final(self)@, r.deep_view()) == old(self)@.revised(
                id,
                |entry: EntryView| changed(entry, Change::FirstOutput(elapsed)),
                "first_output"@,
                empty_object(),
                now,
            ),
    {
        self.update(id, "first_output", Json::object(), Change::FirstOutput(elapsed), now)
    }

    /// The record of a request that is remembered.
    pub fn entry(&self, id: u64) -> (r: Option<&Entry>)
        ensures
            r.deep_view() == (match place_of(self@.entries, id, 0) {
                Some(place) => Some(self@.entries[place]),
                None => None,
            }),
    {
        match find_place(&self.entries, id) {
            Some(place) => Some(&self.entries[place]),
            None => None,
        }
    }

    /// Records the usage that a value reports.
    pub fn usage(&mut self, id: u64, value: &Json, now: u64) -> (r: Option<Event>)
        ensures
            (final(self)@, r.deep_view()) == old(self)@.revised(
                id,
                |entry: EntryView| with_usage(entry, value@),
                "usage"@,
                empty_object(),
                now,
            ),
    {
        let ghost prior = self@;
        let ghost rule = |entry: EntryView| with_usage(entry, value@);
        match find_place(&self.entries, id) {
            None => None,
            Some(place) => {
                proof {
                    placed_has_id(self@.entries, id, 0);
                }
                let mut entry = self.entries[place].copy();
                if !take_usage(&mut entry, value) {
                    proof {
                        assert(rule(prior.entries[place as int]) is None);
                    }
                    return None;
                }
                let ghost made = entry.deep_view();
                proof {
                    assert(rule(prior.entries[place as int]) == Some(made));
                }
                self.entries.set(place, entry);
                proof {
                    assert(self@.entries =~= prior.entries.update(place as int, made));
                }
                Some(self.settle(place, "usage", Json::object(), now, Ghost(prior)))
            },
        }
    }

    /// Records how a request ended. HTTP headers are recorded separately.
    pub fn complete(
        &mut self,
        id: u64,
        outcome: &str,
        source: &str,
        code: Option<&str>,
        bytes: u64,
        now: u64,
        elapsed: u64,
    ) -> (r: Option<Event>)
        ensures
            (final(self)@, r.deep_view()) == old(self)@.revised(
                id,
                |entry: EntryView|
                    with_ending(
                        entry,
                        outcome@,
                        source@,
                        code.deep_view(),
                        bytes,
                        now,
                        elapsed,
                    ),
                "finished"@,
                empty_object().with("source"@, Tree::Text(source@)),
                now,
            ),
    {
        let ghost prior = self@;
        let ghost rule = |entry: EntryView|
            with_ending(entry, outcome@, source@, code.deep_view(), bytes, now, elapsed);
        match find_place(&self.entries, id) {
            None => None,
            Some(place) => {
                proof {
                    placed_has_id(self@.entries, id, 0);
                }
                let mut entry = self.entries[place].copy();
                if !end_entry(&mut entry, outcome, source, code, bytes, now, elapsed) {
                    proof {
                        assert(rule(prior.entries[place as int]) is None);
                    }
                    return None;
                }
                let ghost made = entry.deep_view();
                proof {
                    assert(rule(prior.entries[place as int]) == Some(made));
                }
                self.entries.set(place, entry);
                proof {
                    assert(self@.entries =~= prior.entries.update(place as int, made));
                }
                let details = Json::object().with("source", Json::text(source));
                Some(self.settle(place, "finished", details, now, Ghost(prior)))
            },
        }
    }

    /// Records what a value tells of how a response ends, where it tells anything.
    pub fn note_response(&mut self, id: u64, value: &Json, now: u64) -> (r: Option<Event>)
        ensures
            (final(self)@, r.deep_view()) == old(self)@.revised(
                id,
                |entry: EntryView|
                    if notable(value@) {
                        Some(with_response(entry, value@))
                    } else {
                        None
                    },
                "response_event"@,
                empty_object().with(
                    "type"@,
                    Tree::Text(crate::capacity::text_at(value@, "type"@)),
                ),
                now,
            ),
    {
        let ghost prior = self@;
        let ghost rule = |entry: EntryView|
            if notable(value@) {
                Some(with_response(entry, value@))
            } else {
                None
            };
        if !is_notable(value) {
            proof {
                match place_of(prior.entries, id, 0) {
                    Some(place) => {
                        assert(rule(prior.entries[place]) is None);
                    },
                    None => {},
                }
            }
            return None;
        }
        match find_place(&self.entries, id) {
            None => None,
            Some(place) => {
                proof {
                    placed_has_id(self@.entries, id, 0);
                }
                let mut entry = self.entries[place].copy();
                take_response(&mut entry, value);
                let ghost made = entry.deep_view();
                proof {
                    assert(rule(prior.entries[place as int]) == Some(made));
                }
                self.entries.set(place, entry);
                proof {
                    assert(self@.entries =~= prior.entries.update(place as int, made));
                }
                let details = Json::object().with(
                    "type",
                    Json::text(crate::capacity::read_text(value, "type")),
                );
                Some(self.settle(place, "response_event", details, now, Ghost(prior)))
            },
        }
    }

    /// Records the usage that a value reports, and what it tells of how a response ends.
    pub fn observe(&mut self, id: u64, value: &Json, now: u64) -> (r: (
        Option<Event>,
        Option<Event>,
    ))
        ensures
            ({
                let (middle, usage) = old(self)@.revised(
                    id,
                    |entry: EntryView| with_usage(entry, value@),
                    "usage"@,
                    empty_object(),
                    now,
                );
                let (end, told) = middle.revised(
                    id,
                    |entry: EntryView|
                        if notable(value@) {
                            Some(with_response(entry, value@))
                        } else {
                            None
                        },
                    "response_event"@,
                    empty_object().with(
                        "type"@,
                        Tree::Text(crate::capacity::text_at(value@, "type"@)),
                    ),
                    now,
                );
                &&& final(self)@ == end
                &&& r.0.deep_view() == usage
                &&& r.1.deep_view() == told
            }),
    {
        let usage = self.usage(id, value, now);
        let told = self.note_response(id, value, now);
        (usage, told)
    }

    /// Records what the rules decide about the body of a request, where it is JSON.
    pub fn routing_decision(&mut self, id: u64, config: &Config, path: &str, body: &[u8], now: u64) -> (r:
        Option<Event>)
        ensures
            match parsed(body@) {
                Err(_) => r is None && final(self)@ == old(self)@,
                Ok(value) => {
                    let (requested, routed, rule) = decision_of(
                        alias_views(config.aliases@),
                        path@,
                        value,
                    );
                    (final(self)@, r.deep_view()) == old(self)@.revised(
                        id,
                        |entry: EntryView| with_decision(entry, requested, routed, rule),
                        "routing_decision"@,
                        empty_object().with(
                            "requested_reasoning"@,
                            text_or_null(requested),
                        ).with("routed_reasoning"@, text_or_null(routed)).with(
                            "route_rule"@,
                            Tree::Text(rule),
                        ),
                        now,
                    )
                },
            },
    {
        let value = match parse(body) {
            Ok(value) => value,
            Err(_) => return None,
        };
        let (requested, routed, rule) = decide_routing(config, path, &value);
        let details = Json::object().with(
            "requested_reasoning",
            optional_text(opt_str(&requested)),
        ).with("routed_reasoning", optional_text(opt_str(&routed))).with(
            "route_rule",
            Json::text(rule),
        );
        let change = Change::Decision { requested, routed, rule: rule.to_string() };
        let ghost prior = self@;
        proof {
            let one = |entry: EntryView| changed(entry, change);
            let two = |entry: EntryView|
                with_decision(entry, requested.deep_view(), routed.deep_view(), rule@);
            assert(one =~= two);
        }
        self.update(id, "routing_decision", details, change, now)
    }
}

/// A record with where the request was routed.
pub open spec fn with_route(
    entry: EntryView,
    requested: Option<Seq<char>>,
    routed: Option<Seq<char>>,
    project: Seq<char>,
) -> Option<EntryView> {
    Some(
        EntryView {
            requested_model: requested,
            routed_model: routed,
            project: Some(project),
            ..entry
        },
    )
}

/// A record with what the rules decided.
pub open spec fn with_decision(
    entry: EntryView,
    requested: Option<Seq<char>>,
    routed: Option<Seq<char>>,
    rule: Seq<char>,
) -> Option<EntryView> {
    Some(
        EntryView {
            requested_reasoning: requested,
            routed_reasoning: routed,
            route_rule: Some(rule),
            ..entry
        },
    )
}

proof fn placed_has_id(entries: Seq<EntryView>, id: u64, from: int)
    requires
        0 <= from,
    ensures
        place_of(entries, id, from) matches Some(place) ==> from <= place < entries.len()
            && entries[place].id == id,
    decreases entries.len() - from,
{
    if from < entries.len() {
        placed_has_id(entries, id, from + 1);
    }
}

proof fn changes_keep_id(entry: EntryView, change: Change)
    ensures
        changed(entry, change) matches Some(after) ==> after.id == entry.id,
{
}

// ---- laws --------------------------------------------------------------------------------------

/// The first ending of a request stands: no later one changes its record.
pub proof fn first_ending_stands(
    entry: EntryView,
    outcome: Seq<char>,
    source: Seq<char>,
    code: Option<Seq<char>>,
    bytes: u64,
    now: u64,
    elapsed: u64,
)
    requires
        entry.ended_ms is Some,
    ensures
        with_ending(entry, outcome, source, code, bytes, now, elapsed) is None,
{
}

/// A failure that a response told outlasts a success, and decides how the request ended.
pub proof fn told_failure_decides(
    entry: EntryView,
    first: Tree,
    later: Tree,
    source: Seq<char>,
    bytes: u64,
    now: u64,
    elapsed: u64,
)
    requires
        entry.ended_ms is None,
        tells_failure(first),
    ensures
        ({
            let after = with_response(with_response(entry, first), later);
            &&& after.terminal == Some("failed"@)
            &&& with_ending(after, "succeeded"@, source, None, bytes, now, elapsed)->Some_0.state
                == "failed"@
        }),
{
}

/// The remembered requests never grow past their limit.
pub proof fn history_stays_bounded(
    history: History,
    method: Seq<char>,
    path: Seq<char>,
    transport: Seq<char>,
    now: u64,
    started: Option<std::time::Instant>,
)
    requires
        history.order.len() <= RECENT_LIMIT,
    ensures
        history.begun(method, path, transport, now, started).0.order.len() <= RECENT_LIMIT,
        history.begun(method, path, transport, now, started).0.order.last() == history.begun(
            method,
            path,
            transport,
            now,
            started,
        ).0.next_id,
{
}

/// No content is recorded: values that report the same usage, the same ending, the same id
/// and the same code leave the same record, whatever else they hold.
pub proof fn content_is_not_recorded(entry: EntryView, one: Tree, two: Tree)
    requires
        reported_usage(one) == reported_usage(two),
        told_code(one) == told_code(two),
        told_id(one) == told_id(two),
        tells_success(one) == tells_success(two),
        tells_failure(one) == tells_failure(two),
        tells_error(one) == tells_error(two),
    ensures
        with_usage(entry, one) == with_usage(entry, two),
        with_response(entry, one) == with_response(entry, two),
{
}

} // verus!

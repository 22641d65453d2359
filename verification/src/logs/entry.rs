//! The record of a request.

use vstd::prelude::*;
use crate::gemini::error::{optional_text, text_or_null};
use crate::gemini::parts::empty_object;
use crate::gemini::response::number;
use crate::outside::{clock_ms, elapsed_ms};
use crate::text::{chars_of, text_of};
use crate::tree::{json_views, Json, Tree};

verus! {

broadcast use json_views;

/// The time of day, in milliseconds since the Unix epoch.
pub fn now_ms() -> (r: u64)
{
    clock_ms()
}

/// The record of a request.
pub struct Entry {
    pub id: u64,
    pub request_id: String,
    pub session_id: String,
    pub timestamp_ms: u64,
    pub updated_ms: u64,
    pub ended_ms: Option<u64>,
    pub method: String,
    pub path: String,
    pub transport: String,
    pub mode: String,
    pub requested_model: Option<String>,
    pub routed_model: Option<String>,
    pub requested_reasoning: Option<String>,
    pub routed_reasoning: Option<String>,
    pub route_rule: Option<String>,
    pub project: Option<String>,
    pub status: Option<u16>,
    pub state: String,
    pub outcome_source: Option<String>,
    pub error_code: Option<String>,
    pub upstream_request_id: Option<String>,
    pub response_id: Option<String>,
    pub retries: u32,
    pub attempts: u32,
    pub input_tokens: Option<u64>,
    pub output_tokens: Option<u64>,
    pub cached_input_tokens: Option<u64>,
    pub cache_write_tokens: Option<u64>,
    pub reasoning_tokens: Option<u64>,
    pub duration_ms: Option<u64>,
    pub total_duration_ms: Option<u64>,
    pub first_byte_ms: Option<u64>,
    pub first_output_ms: Option<u64>,
    pub request_bytes: u64,
    pub response_bytes: u64,
    pub streaming: bool,
    pub security_guidance: bool,
    /// When the request arrived, on a clock that never goes back.
    pub started: Option<std::time::Instant>,
    /// How the response ended, as its events tell.
    pub terminal: Option<String>,
}

/// The view of a record.
pub ghost struct EntryView {
    pub id: u64,
    pub request_id: Seq<char>,
    pub session_id: Seq<char>,
    pub timestamp_ms: u64,
    pub updated_ms: u64,
    pub ended_ms: Option<u64>,
    pub method: Seq<char>,
    pub path: Seq<char>,
    pub transport: Seq<char>,
    pub mode: Seq<char>,
    pub requested_model: Option<Seq<char>>,
    pub routed_model: Option<Seq<char>>,
    pub requested_reasoning: Option<Seq<char>>,
    pub routed_reasoning: Option<Seq<char>>,
    pub route_rule: Option<Seq<char>>,
    pub project: Option<Seq<char>>,
    pub status: Option<u16>,
    pub state: Seq<char>,
    pub outcome_source: Option<Seq<char>>,
    pub error_code: Option<Seq<char>>,
    pub upstream_request_id: Option<Seq<char>>,
    pub response_id: Option<Seq<char>>,
    pub retries: u32,
    pub attempts: u32,
    pub input_tokens: Option<u64>,
    pub output_tokens: Option<u64>,
    pub cached_input_tokens: Option<u64>,
    pub cache_write_tokens: Option<u64>,
    pub reasoning_tokens: Option<u64>,
    pub duration_ms: Option<u64>,
    pub total_duration_ms: Option<u64>,
    pub first_byte_ms: Option<u64>,
    pub first_output_ms: Option<u64>,
    pub request_bytes: u64,
    pub response_bytes: u64,
    pub streaming: bool,
    pub security_guidance: bool,
    pub started: Option<std::time::Instant>,
    pub terminal: Option<Seq<char>>,
}

impl DeepView for Entry {
    type V = EntryView;

    open spec fn deep_view(&self) -> EntryView {
        EntryView {
            id: self.id,
            request_id: self.request_id@,
            session_id: self.session_id@,
            timestamp_ms: self.timestamp_ms,
            updated_ms: self.updated_ms,
            ended_ms: self.ended_ms,
            method: self.method@,
            path: self.path@,
            transport: self.transport@,
            mode: self.mode@,
            requested_model: self.requested_model.deep_view(),
            routed_model: self.routed_model.deep_view(),
            requested_reasoning: self.requested_reasoning.deep_view(),
            routed_reasoning: self.routed_reasoning.deep_view(),
            route_rule: self.route_rule.deep_view(),
            project: self.project.deep_view(),
            status: self.status,
            state: self.state@,
            outcome_source: self.outcome_source.deep_view(),
            error_code: self.error_code.deep_view(),
            upstream_request_id: self.upstream_request_id.deep_view(),
            response_id: self.response_id.deep_view(),
            retries: self.retries,
            attempts: self.attempts,
            input_tokens: self.input_tokens,
            output_tokens: self.output_tokens,
            cached_input_tokens: self.cached_input_tokens,
            cache_write_tokens: self.cache_write_tokens,
            reasoning_tokens: self.reasoning_tokens,
            duration_ms: self.duration_ms,
            total_duration_ms: self.total_duration_ms,
            first_byte_ms: self.first_byte_ms,
            first_output_ms: self.first_output_ms,
            request_bytes: self.request_bytes,
            response_bytes: self.response_bytes,
            streaming: self.streaming,
            security_guidance: self.security_guidance,
            started: self.started,
            terminal: self.terminal.deep_view(),
        }
    }
}

/// A record with nothing in it.
pub open spec fn blank_entry() -> EntryView {
    EntryView {
        id: 0,
        request_id: Seq::empty(),
        session_id: Seq::empty(),
        timestamp_ms: 0,
        updated_ms: 0,
        ended_ms: None,
        method: Seq::empty(),
        path: Seq::empty(),
        transport: Seq::empty(),
        mode: Seq::empty(),
        requested_model: None,
        routed_model: None,
        requested_reasoning: None,
        routed_reasoning: None,
        route_rule: None,
        project: None,
        status: None,
        state: Seq::empty(),
        outcome_source: None,
        error_code: None,
        upstream_request_id: None,
        response_id: None,
        retries: 0,
        attempts: 0,
        input_tokens: None,
        output_tokens: None,
        cached_input_tokens: None,
        cache_write_tokens: None,
        reasoning_tokens: None,
        duration_ms: None,
        total_duration_ms: None,
        first_byte_ms: None,
        first_output_ms: None,
        request_bytes: 0,
        response_bytes: 0,
        streaming: false,
        security_guidance: false,
        started: None,
        terminal: None,
    }
}

/// A copy of a text that may be missing.
pub(crate) fn copy_text(text: &Option<String>) -> (r: Option<String>)
    ensures
        r.deep_view() == text.deep_view(),
{
    match text {
        Some(text) => Some(text.clone()),
        None => None,
    }
}

/// A text that may be missing.
pub(crate) fn opt_str(text: &Option<String>) -> (r: Option<&str>)
    ensures
        r.deep_view() == text.deep_view(),
{
    match text {
        Some(text) => Some(text.as_str()),
        None => None,
    }
}

/// A count that may be missing, as JSON.
pub open spec fn count_or_null(count: Option<u64>) -> Tree {
    match count {
        Some(n) => number(n),
        None => Tree::Null,
    }
}

pub(crate) fn optional_count(count: Option<u64>) -> (r: Json)
    ensures
        r@ == count_or_null(count),
{
    match count {
        Some(n) => Json::natural(n),
        None => Json::Null,
    }
}

/// A status that may be missing, as JSON.
pub open spec fn status_or_null(status: Option<u16>) -> Tree {
    match status {
        Some(n) => number(n as u64),
        None => Tree::Null,
    }
}

pub(crate) fn optional_status(status: Option<u16>) -> (r: Json)
    ensures
        r@ == status_or_null(status),
{
    match status {
        Some(n) => Json::natural(n as u64),
        None => Json::Null,
    }
}

/// The first characters of a text.
pub open spec fn cut_to(text: Seq<char>, count: nat) -> Seq<char> {
    if text.len() <= count {
        text
    } else {
        text.subrange(0, count as int)
    }
}

/// The first characters of a text.
pub(crate) fn cut_text(text: &str, count: usize) -> (r: String)
    ensures
        r@ == cut_to(text@, count as nat),
{
    let chars = chars_of(text);
    if chars.len() <= count {
        text.to_string()
    } else {
        text_of(&chars, 0, count)
    }
}

impl Default for Entry {
    fn default() -> (r: Entry)
        ensures
            r.deep_view() == blank_entry(),
    {
        Entry {
            id: 0,
            request_id: String::new(),
            session_id: String::new(),
            timestamp_ms: 0,
            updated_ms: 0,
            ended_ms: None,
            method: String::new(),
            path: String::new(),
            transport: String::new(),
            mode: String::new(),
            requested_model: None,
            routed_model: None,
            requested_reasoning: None,
            routed_reasoning: None,
            route_rule: None,
            project: None,
            status: None,
            state: String::new(),
            outcome_source: None,
            error_code: None,
            upstream_request_id: None,
            response_id: None,
            retries: 0,
            attempts: 0,
            input_tokens: None,
            output_tokens: None,
            cached_input_tokens: None,
            cache_write_tokens: None,
            reasoning_tokens: None,
            duration_ms: None,
            total_duration_ms: None,
            first_byte_ms: None,
            first_output_ms: None,
            request_bytes: 0,
            response_bytes: 0,
            streaming: false,
            security_guidance: false,
            started: None,
            terminal: None,
        }
    }
}

impl EntryView {
    pub open spec fn members_1(self, base: Tree) -> Tree {
        base.with(
            "id"@,
            number(self.id),
        ).with(
            "request_id"@,
            Tree::Text(self.request_id),
        ).with(
            "session_id"@,
            Tree::Text(self.session_id),
        ).with(
            "timestamp_ms"@,
            number(self.timestamp_ms),
        ).with(
            "updated_ms"@,
            number(self.updated_ms),
        ).with(
            "ended_ms"@,
            count_or_null(self.ended_ms),
        ).with(
            "method"@,
            Tree::Text(self.method),
        ).with(
            "path"@,
            Tree::Text(self.path),
        ).with(
            "transport"@,
            Tree::Text(self.transport),
        ).with(
            "mode"@,
            Tree::Text(self.mode),
        )
    }

    pub open spec fn members_2(self, base: Tree) -> Tree {
        base.with(
            "requested_model"@,
            text_or_null(self.requested_model),
        ).with(
            "routed_model"@,
            text_or_null(self.routed_model),
        ).with(
            "requested_reasoning"@,
            text_or_null(self.requested_reasoning),
        ).with(
            "routed_reasoning"@,
            text_or_null(self.routed_reasoning),
        ).with(
            "route_rule"@,
            text_or_null(self.route_rule),
        ).with(
            "project"@,
            text_or_null(self.project),
        ).with(
            "status"@,
            status_or_null(self.status),
        ).with(
            "state"@,
            Tree::Text(self.state),
        ).with(
            "outcome_source"@,
            text_or_null(self.outcome_source),
        ).with(
            "error_code"@,
            text_or_null(self.error_code),
        )
    }

    pub open spec fn members_3(self, base: Tree) -> Tree {
        base.with(
            "upstream_request_id"@,
            text_or_null(self.upstream_request_id),
        ).with(
            "response_id"@,
            text_or_null(self.response_id),
        ).with(
            "retries"@,
            number(self.retries as u64),
        ).with(
            "attempts"@,
            number(self.attempts as u64),
        ).with(
            "input_tokens"@,
            count_or_null(self.input_tokens),
        ).with(
            "output_tokens"@,
            count_or_null(self.output_tokens),
        ).with(
            "cached_input_tokens"@,
            count_or_null(self.cached_input_tokens),
        ).with(
            "cache_write_tokens"@,
            count_or_null(self.cache_write_tokens),
        ).with(
            "reasoning_tokens"@,
            count_or_null(self.reasoning_tokens),
        ).with(
            "duration_ms"@,
            count_or_null(self.duration_ms),
        )
    }

    pub open spec fn members_4(self, base: Tree) -> Tree {
        base.with(
            "total_duration_ms"@,
            count_or_null(self.total_duration_ms),
        ).with(
            "first_byte_ms"@,
            count_or_null(self.first_byte_ms),
        ).with(
            "first_output_ms"@,
            count_or_null(self.first_output_ms),
        ).with(
            "request_bytes"@,
            number(self.request_bytes),
        ).with(
            "response_bytes"@,
            number(self.response_bytes),
        ).with(
            "streaming"@,
            Tree::Bool(self.streaming),
        ).with(
            "security_guidance"@,
            Tree::Bool(self.security_guidance),
        )
    }

    /// The record as JSON.
    pub open spec fn tree(self) -> Tree {
        self.members_4(self.members_3(self.members_2(self.members_1(empty_object()))))
    }
}

impl Entry {
    /// A copy of the record.
    pub fn copy(&self) -> (r: Entry)
        ensures
            r.deep_view() == self.deep_view(),
    {
        Entry {
            id: self.id,
            request_id: self.request_id.clone(),
            session_id: self.session_id.clone(),
            timestamp_ms: self.timestamp_ms,
            updated_ms: self.updated_ms,
            ended_ms: self.ended_ms,
            method: self.method.clone(),
            path: self.path.clone(),
            transport: self.transport.clone(),
            mode: self.mode.clone(),
            requested_model: copy_text(&self.requested_model),
            routed_model: copy_text(&self.routed_model),
            requested_reasoning: copy_text(&self.requested_reasoning),
            routed_reasoning: copy_text(&self.routed_reasoning),
            route_rule: copy_text(&self.route_rule),
            project: copy_text(&self.project),
            status: self.status,
            state: self.state.clone(),
            outcome_source: copy_text(&self.outcome_source),
            error_code: copy_text(&self.error_code),
            upstream_request_id: copy_text(&self.upstream_request_id),
            response_id: copy_text(&self.response_id),
            retries: self.retries,
            attempts: self.attempts,
            input_tokens: self.input_tokens,
            output_tokens: self.output_tokens,
            cached_input_tokens: self.cached_input_tokens,
            cache_write_tokens: self.cache_write_tokens,
            reasoning_tokens: self.reasoning_tokens,
            duration_ms: self.duration_ms,
            total_duration_ms: self.total_duration_ms,
            first_byte_ms: self.first_byte_ms,
            first_output_ms: self.first_output_ms,
            request_bytes: self.request_bytes,
            response_bytes: self.response_bytes,
            streaming: self.streaming,
            security_guidance: self.security_guidance,
            started: self.started,
            terminal: copy_text(&self.terminal),
        }
    }

    fn add_members_1(&self, base: Json) -> (r: Json)
        ensures
            r@ == self.deep_view().members_1(base@),
    {
        base.with(
            "id",
            Json::natural(self.id),
        ).with(
            "request_id",
            Json::text(self.request_id.as_str()),
        ).with(
            "session_id",
            Json::text(self.session_id.as_str()),
        ).with(
            "timestamp_ms",
            Json::natural(self.timestamp_ms),
        ).with(
            "updated_ms",
            Json::natural(self.updated_ms),
        ).with(
            "ended_ms",
            optional_count(self.ended_ms),
        ).with(
            "method",
            Json::text(self.method.as_str()),
        ).with(
            "path",
            Json::text(self.path.as_str()),
        ).with(
            "transport",
            Json::text(self.transport.as_str()),
        ).with(
            "mode",
            Json::text(self.mode.as_str()),
        )
    }

    fn add_members_2(&self, base: Json) -> (r: Json)
        ensures
            r@ == self.deep_view().members_2(base@),
    {
        base.with(
            "requested_model",
            optional_text(opt_str(&self.requested_model)),
        ).with(
            "routed_model",
            optional_text(opt_str(&self.routed_model)),
        ).with(
            "requested_reasoning",
            optional_text(opt_str(&self.requested_reasoning)),
        ).with(
            "routed_reasoning",
            optional_text(opt_str(&self.routed_reasoning)),
        ).with(
            "route_rule",
            optional_text(opt_str(&self.route_rule)),
        ).with(
            "project",
            optional_text(opt_str(&self.project)),
        ).with(
            "status",
            optional_status(self.status),
        ).with(
            "state",
            Json::text(self.state.as_str()),
        ).with(
            "outcome_source",
            optional_text(opt_str(&self.outcome_source)),
        ).with(
            "error_code",
            optional_text(opt_str(&self.error_code)),
        )
    }

    fn add_members_3(&self, base: Json) -> (r: Json)
        ensures
            r@ == self.deep_view().members_3(base@),
    {
        base.with(
            "upstream_request_id",
            optional_text(opt_str(&self.upstream_request_id)),
        ).with(
            "response_id",
            optional_text(opt_str(&self.response_id)),
        ).with(
            "retries",
            Json::natural(self.retries as u64),
        ).with(
            "attempts",
            Json::natural(self.attempts as u64),
        ).with(
            "input_tokens",
            optional_count(self.input_tokens),
        ).with(
            "output_tokens",
            optional_count(self.output_tokens),
        ).with(
            "cached_input_tokens",
            optional_count(self.cached_input_tokens),
        ).with(
            "cache_write_tokens",
            optional_count(self.cache_write_tokens),
        ).with(
            "reasoning_tokens",
            optional_count(self.reasoning_tokens),
        ).with(
            "duration_ms",
            optional_count(self.duration_ms),
        )
    }

    fn add_members_4(&self, base: Json) -> (r: Json)
        ensures
            r@ == self.deep_view().members_4(base@),
    {
        base.with(
            "total_duration_ms",
            optional_count(self.total_duration_ms),
        ).with(
            "first_byte_ms",
            optional_count(self.first_byte_ms),
        ).with(
            "first_output_ms",
            optional_count(self.first_output_ms),
        ).with(
            "request_bytes",
            Json::natural(self.request_bytes),
        ).with(
            "response_bytes",
            Json::natural(self.response_bytes),
        ).with(
            "streaming",
            Json::Bool(self.streaming),
        ).with(
            "security_guidance",
            Json::Bool(self.security_guidance),
        )
    }

    /// The record as JSON.
    pub fn to_json(&self) -> (r: Json)
        ensures
            r@ == self.deep_view().tree(),
    {
        let base = Json::object();
        let base = self.add_members_1(base);
        let base = self.add_members_2(base);
        let base = self.add_members_3(base);
        let base = self.add_members_4(base);
        base
    }

    /// Whether the request is over.
    pub fn is_final(&self) -> (r: bool)
        ensures
            r == (self.ended_ms is Some),
    {
        self.ended_ms.is_some()
    }

    /// How long the request has taken, given the time of day and the time since it arrived
    /// where that is known.
    pub fn elapsed_at(&self, now: u64, since_start: Option<u64>) -> (r: u64)
        ensures
            r == match since_start {
                Some(elapsed) => elapsed as int,
                None => if now >= self.timestamp_ms {
                    now - self.timestamp_ms
                } else {
                    0
                },
            },
    {
        match since_start {
            Some(elapsed) => elapsed,
            None => if now >= self.timestamp_ms {
                now - self.timestamp_ms
            } else {
                0
            },
        }
    }

    /// How long the request has taken, in milliseconds, by the clock that never goes back
    /// where its start is known, else by the time of day.
    pub fn elapsed(&self) -> (r: u64)
        ensures
            self.started is None ==> exists|now: u64|
                r == #[trigger] since(now, self.timestamp_ms),
    {
        let since_start: Option<u64> = match self.started {
            Some(started) => Some(elapsed_ms(&started)),
            None => None,
        };
        let now = clock_ms();
        let r = self.elapsed_at(now, since_start);
        proof {
            assert(self.started is None ==> r == since(now, self.timestamp_ms));
        }
        r
    }
}

/// The time from one moment to another, none where it has not come.
pub open spec fn since(now: u64, then: u64) -> int {
    if now >= then {
        now - then
    } else {
        0
    }
}

} // verus!

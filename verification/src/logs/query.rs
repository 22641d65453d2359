//! Questions about the recorded requests, and answers to them.

use vstd::prelude::*;
use vstd::string::StringExecFns;
use vstd::utf8::encode_utf8;
use crate::error::{outcome, Error};
use crate::exchange::{parse, parsed, to_text, written};
use crate::logs::entry::now_ms;
use crate::ordering::{precedes_irreflexive, precedes_transitive};
use crate::text::{
    chars_of, decimal, decimal_digits, decimals_read_back, digit, join3, number_read, parse_number,
    parted, place_of, precedes, push_char, same, split_once, white_start, is_white,
};
use crate::tree::{json_views, trees, Json, NumberView, Tree};

verus! {

broadcast use json_views;

/// A question about the recorded requests.
pub struct Query {
    pub start: Option<u64>,
    pub end: Option<u64>,
    pub model: Option<String>,
    pub model_field: Option<String>,
    pub format: Option<String>,
    pub project: Option<String>,
    pub path: Option<String>,
    pub state: Option<String>,
    pub transport: Option<String>,
    pub q: Option<String>,
    pub group: Option<String>,
    pub include_clients: bool,
    pub limit: Option<usize>,
    pub cursor: Option<String>,
}

/// A parameter of a statement.
#[derive(Clone)]
pub enum Param {
    Integer(i64),
    Text(String),
}

/// The view of a parameter.
pub ghost enum ParamView {
    Integer(i64),
    Text(Seq<char>),
}

/// The views of parameters.
pub open spec fn param_views(params: Seq<Param>) -> Seq<ParamView> {
    Seq::new(
        params.len(),
        |i: int|
            match params[i] {
                Param::Integer(n) => ParamView::Integer(n),
                Param::Text(s) => ParamView::Text(s@),
            },
    )
}

/// A question as a condition with its parameters.
#[derive(Clone)]
pub struct Filter {
    pub sql: String,
    pub params: Vec<Param>,
    pub start: u64,
    pub end: u64,
    pub group: String,
    pub limit: usize,
    pub cursor: Option<(u64, String)>,
}

/// The view of a condition.
pub ghost struct Condition {
    pub sql: Seq<char>,
    pub params: Seq<ParamView>,
    pub start: u64,
    pub end: u64,
    pub group: Seq<char>,
    pub limit: usize,
    pub cursor: Option<(u64, Seq<char>)>,
}

impl DeepView for Filter {
    type V = Condition;

    open spec fn deep_view(&self) -> Condition {
        Condition {
            sql: self.sql@,
            params: param_views(self.params@),
            start: self.start,
            end: self.end,
            group: self.group@,
            limit: self.limit,
            cursor: match self.cursor {
                Some((time, id)) => Some((time, id@)),
                None => None,
            },
        }
    }
}

/// A text, or another where there is none.
pub open spec fn text_or(text: Option<String>, other: Seq<char>) -> Seq<char> {
    match text {
        Some(text) => text@,
        None => other,
    }
}

fn read_or<'a>(text: &'a Option<String>, other: &'a str) -> (r: &'a str)
    ensures
        r@ == text_or(*text, other@),
{
    match text {
        Some(text) => text.as_str(),
        None => other,
    }
}

/// A column by which a report can be grouped.
pub open spec fn grouping(group: Seq<char>) -> bool {
    group == "requested_model"@ || group == "routed_model"@ || group == "project"@ || group
        == "path"@ || group == "state"@ || group == "transport"@
}

fn is_grouping(group: &str) -> (r: bool)
    ensures
        r == grouping(group@),
{
    same(group, "requested_model") || same(group, "routed_model") || same(group, "project") || same(
        group,
        "path",
    ) || same(group, "state") || same(group, "transport")
}

/// A condition under construction.
pub ghost struct Draft {
    pub sql: Seq<char>,
    pub params: Seq<ParamView>,
}

/// A condition with a column that must have a value, where one is given.
pub open spec fn narrowed(draft: Draft, column: Seq<char>, value: Option<String>) -> Result<
    Draft,
    Seq<char>,
> {
    match value {
        None => Ok(draft),
        Some(value) => if value@.len() == 0 {
            Ok(draft)
        } else if encode_utf8(value@).len() > 2048 {
            Err("Filter value is too long"@)
        } else {
            Ok(
                Draft {
                    sql: draft.sql + (" AND "@ + column + " = ?"@),
                    params: draft.params.push(ParamView::Text(value@)),
                },
            )
        },
    }
}

/// The condition of a search.
pub open spec fn search_sql() -> Seq<char> {
    " AND instr(lower(coalesce(requested_model,'')||' '||coalesce(routed_model,'')||' '||coalesce(project,'')||' '||path||' '||request_id||' '||coalesce(error_code,'')),lower(?)) > 0"@
}

/// A condition with a search, where one is asked for.
pub open spec fn searched(draft: Draft, search: Option<String>) -> Result<Draft, Seq<char>> {
    match search {
        None => Ok(draft),
        Some(text) => if text@.len() == 0 {
            Ok(draft)
        } else if encode_utf8(text@).len() > 256 {
            Err("Search is limited to 256 characters"@)
        } else {
            Ok(
                Draft {
                    sql: draft.sql + search_sql(),
                    params: draft.params.push(ParamView::Text(text@)),
                },
            )
        },
    }
}

/// A character of a request id.
pub open spec fn id_char(c: char) -> bool {
    ('0' <= c && c <= '9') || ('a' <= c && c <= 'f') || ('A' <= c && c <= 'F') || c == '-'
}

/// Whether every character from `from` on may stand in a request id.
pub open spec fn id_chars(s: Seq<char>, from: int) -> bool
    decreases s.len() - from,
{
    from < 0 || from >= s.len() || (id_char(s[from]) && id_chars(s, from + 1))
}

fn are_id_chars(s: &str) -> (r: bool)
    ensures
        r == id_chars(s@, 0),
{
    let chars = chars_of(s);
    let mut i: usize = 0;
    while i < chars.len()
        invariant
            i <= chars.len(),
            chars@ == s@,
            id_chars(s@, 0) == id_chars(s@, i as int),
        decreases chars.len() - i,
    {
        let c = chars[i];
        if !(('0' <= c && c <= '9') || ('a' <= c && c <= 'f') || ('A' <= c && c <= 'F') || c
            == '-') {
            return false;
        }
        i += 1;
    }
    true
}

/// The record behind which a page begins, as a cursor names it.
pub open spec fn cursor_read(cursor: Seq<char>) -> Result<(u64, Seq<char>), Seq<char>> {
    match parted(cursor, ':') {
        None => Err("Invalid request cursor"@),
        Some((time, id)) => match number_read(time) {
            Err(message) => Err(message),
            Ok(time) => if time > i64::MAX || encode_utf8(id).len() > 100 || !id_chars(id, 0) {
                Err("Invalid request cursor"@)
            } else {
                Ok((time as u64, id))
            },
        },
    }
}

/// Where a page begins.
pub open spec fn cursor_of(cursor: Option<String>) -> Result<Option<(u64, Seq<char>)>, Seq<char>> {
    match cursor {
        None => Ok(None),
        Some(cursor) => match cursor_read(cursor@) {
            Err(message) => Err(message),
            Ok(place) => Ok(Some(place)),
        },
    }
}

fn read_cursor(cursor: &Option<String>) -> (r: Result<Option<(u64, String)>, Error>)
    ensures
        match r {
            Ok(Some((time, id))) => cursor_of(*cursor) == Ok::<
                Option<(u64, Seq<char>)>,
                Seq<char>,
            >(Some((time, id@))),
            Ok(None) => cursor_of(*cursor) == Ok::<Option<(u64, Seq<char>)>, Seq<char>>(None),
            Err(error) => cursor_of(*cursor) == Err::<Option<(u64, Seq<char>)>, Seq<char>>(
                error.message@,
            ),
        },
{
    let cursor = match cursor {
        Some(cursor) => cursor,
        None => return Ok(None),
    };
    let (time, id) = match split_once(cursor.as_str(), ':') {
        Some(parts) => parts,
        None => return Err(Error::new("Invalid request cursor")),
    };
    let time = parse_number(time)?;
    if time > i64::MAX as u64 || id.as_bytes().len() > 100 || !are_id_chars(id) {
        return Err(Error::new("Invalid request cursor"));
    }
    Ok(Some((time, id.to_string())))
}

/// The time that a question spans.
pub open spec fn span_of(query: Query, now: u64) -> (u64, u64) {
    let end = match query.end {
        Some(end) => end,
        None => now,
    };
    let start = match query.start {
        Some(start) => start,
        None => if end >= 86_400_000 {
            (end - 86_400_000) as u64
        } else {
            0
        },
    };
    (start, end)
}

/// The limit on the answers to a question.
pub open spec fn limit_of(query: Query) -> usize {
    match query.limit {
        Some(limit) => limit,
        None => 100,
    }
}

/// The condition that a question starts from.
pub open spec fn first_draft(query: Query, now: u64) -> Draft {
    let (start, end) = span_of(query, now);
    Draft {
        sql: if query.include_clients {
            "timestamp_ms >= ? AND timestamp_ms < ?"@
        } else {
            "timestamp_ms >= ? AND timestamp_ms < ?"@ + " AND mode != 'client'"@
        },
        params: seq![ParamView::Integer(start as i64), ParamView::Integer(end as i64)],
    }
}

/// The condition of a question.
pub open spec fn drafted(query: Query, now: u64) -> Result<Draft, Seq<char>> {
    match narrowed(
        first_draft(query, now),
        text_or(query.model_field, "requested_model"@),
        query.model,
    ) {
        Err(message) => Err(message),
        Ok(draft) => match narrowed(draft, "project"@, query.project) {
            Err(message) => Err(message),
            Ok(draft) => match narrowed(draft, "path"@, query.path) {
                Err(message) => Err(message),
                Ok(draft) => match narrowed(draft, "state"@, query.state) {
                    Err(message) => Err(message),
                    Ok(draft) => match narrowed(draft, "transport"@, query.transport) {
                        Err(message) => Err(message),
                        Ok(draft) => searched(draft, query.q),
                    },
                },
            },
        },
    }
}

/// The condition of a question asked at a given time, or why it is refused.
pub open spec fn condition_of(query: Query, now: u64) -> Result<Condition, Seq<char>> {
    let (start, end) = span_of(query, now);
    let group = text_or(query.group, "requested_model"@);
    let limit = limit_of(query);
    let field = text_or(query.model_field, "requested_model"@);
    if start >= end || end > i64::MAX {
        Err("start and end must be valid increasing Unix milliseconds"@)
    } else if !grouping(group) {
        Err("Invalid report grouping"@)
    } else if limit < 1 || limit > 500 {
        Err("limit must be between 1 and 500"@)
    } else if field != "requested_model"@ && field != "routed_model"@ {
        Err("Invalid model field"@)
    } else if query.format matches Some(format) && format@ != "csv"@ && format@ != "jsonl"@ {
        Err("Export format must be csv or jsonl"@)
    } else {
        match drafted(query, now) {
            Err(message) => Err(message),
            Ok(draft) => match cursor_of(query.cursor) {
                Err(message) => Err(message),
                Ok(cursor) => Ok(
                    Condition {
                        sql: draft.sql,
                        params: draft.params,
                        start,
                        end,
                        group,
                        limit,
                        cursor,
                    },
                ),
            },
        }
    }
}

fn narrow(sql: &mut String, params: &mut Vec<Param>, column: &str, value: &Option<String>) -> (r: Result<
    (),
    Error,
>)
    ensures
        match narrowed(
            Draft { sql: old(sql)@, params: param_views(old(params)@) },
            column@,
            *value,
        ) {
            Ok(draft) => r is Ok && final(sql)@ == draft.sql && param_views(final(params)@)
                == draft.params,
            Err(message) => r is Err && r->Err_0.message@ == message,
        },
{
    let value = match value {
        Some(value) => value,
        None => return Ok(()),
    };
    if value.as_str().is_empty() {
        return Ok(());
    }
    if value.as_str().as_bytes().len() > 2048 {
        return Err(Error::new("Filter value is too long"));
    }
    let clause = join3(" AND ", column, " = ?");
    sql.append(clause.as_str());
    add_text(params, value.clone());
    Ok(())
}

fn add_text(params: &mut Vec<Param>, text: String)
    ensures
        param_views(final(params)@) == param_views(old(params)@).push(ParamView::Text(text@)),
{
    params.push(Param::Text(text));
    proof {
        assert(param_views(params@) =~= param_views(old(params)@).push(ParamView::Text(text@)));
    }
}

fn search(sql: &mut String, params: &mut Vec<Param>, text: &Option<String>) -> (r: Result<
    (),
    Error,
>)
    ensures
        match searched(Draft { sql: old(sql)@, params: param_views(old(params)@) }, *text) {
            Ok(draft) => r is Ok && final(sql)@ == draft.sql && param_views(final(params)@)
                == draft.params,
            Err(message) => r is Err && r->Err_0.message@ == message,
        },
{
    let text = match text {
        Some(text) => text,
        None => return Ok(()),
    };
    if text.as_str().is_empty() {
        return Ok(());
    }
    if text.as_str().as_bytes().len() > 256 {
        return Err(Error::new("Search is limited to 256 characters"));
    }
    sql.append(
        " AND instr(lower(coalesce(requested_model,'')||' '||coalesce(routed_model,'')||' '||coalesce(project,'')||' '||path||' '||request_id||' '||coalesce(error_code,'')),lower(?)) > 0",
    );
    add_text(params, text.clone());
    Ok(())
}

impl Query {
    /// The condition of the question, asked at a given time.
    pub fn filter_at(&self, now: u64) -> (r: Result<Filter, Error>)
        ensures
            outcome(r) == condition_of(*self, now),
    {
        let end: u64 = match self.end {
            Some(end) => end,
            None => now,
        };
        let start: u64 = match self.start {
            Some(start) => start,
            None => if end >= 86_400_000 {
                end - 86_400_000
            } else {
                0
            },
        };
        if start >= end || end > i64::MAX as u64 {
            return Err(Error::new("start and end must be valid increasing Unix milliseconds"));
        }
        let group = read_or(&self.group, "requested_model");
        if !is_grouping(group) {
            return Err(Error::new("Invalid report grouping"));
        }
        let limit: usize = match self.limit {
            Some(limit) => limit,
            None => 100,
        };
        if limit < 1 || limit > 500 {
            return Err(Error::new("limit must be between 1 and 500"));
        }
        let field = read_or(&self.model_field, "requested_model");
        if !same(field, "requested_model") && !same(field, "routed_model") {
            return Err(Error::new("Invalid model field"));
        }
        match &self.format {
            Some(format) => if !same(format.as_str(), "csv") && !same(format.as_str(), "jsonl") {
                return Err(Error::new("Export format must be csv or jsonl"));
            },
            None => {},
        }
        let mut sql = "timestamp_ms >= ? AND timestamp_ms < ?".to_string();
        let mut params: Vec<Param> = Vec::new();
        params.push(Param::Integer(start as i64));
        params.push(Param::Integer(end as i64));
        if !self.include_clients {
            sql.append(" AND mode != 'client'");
        }
        proof {
            assert(param_views(params@) =~= first_draft(*self, now).params);
        }
        narrow(&mut sql, &mut params, field, &self.model)?;
        narrow(&mut sql, &mut params, "project", &self.project)?;
        narrow(&mut sql, &mut params, "path", &self.path)?;
        narrow(&mut sql, &mut params, "state", &self.state)?;
        narrow(&mut sql, &mut params, "transport", &self.transport)?;
        search(&mut sql, &mut params, &self.q)?;
        let cursor = read_cursor(&self.cursor)?;
        Ok(Filter { sql, params, start, end, group: group.to_string(), limit, cursor })
    }

    /// The condition of the question, asked now. Whatever the time, the condition is the
    /// one that it gives.
    pub fn filter(&self) -> (r: Result<Filter, Error>)
        ensures
            exists|now: u64| outcome(r) == #[trigger] condition_of(*self, now),
    {
        let now = now_ms();
        self.filter_at(now)
    }
}

// ---- reports ------------------------------------------------------------------------------

/// The width of the buckets of a report: about sixty of them.
pub fn bucket_width(start: u64, end: u64) -> (r: u64)
    requires
        start <= end,
    ensures
        r == (if (end - start + 59) / 60 > 1 {
            (end - start + 59) / 60
        } else {
            1
        }),
{
    let span: u64 = end - start;
    let whole: u64 = span / 60;
    let width: u64 = if span % 60 == 0 {
        whole
    } else {
        whole + 1
    };
    if width > 1 {
        width
    } else {
        1
    }
}

/// The time before a report, as long as the report's.
pub fn previous_span(start: u64, end: u64) -> (r: (u64, u64))
    requires
        start <= end,
    ensures
        r.1 == start,
        r.0 == (if start >= end - start {
            start - (end - start)
        } else {
            0
        }),
{
    let span: u64 = end - start;
    if start >= span {
        (start - span, start)
    } else {
        (0, start)
    }
}

/// The cursor that names a record.
pub open spec fn cursor_to(record: Tree) -> Seq<char> {
    (match record.at("timestamp_ms"@) {
        Tree::Number(NumberView::Unsigned(n)) => decimal(n as nat),
        other => written(other),
    }) + ":"@ + (match record.at("request_id"@).text() {
        Some(id) => id,
        None => ""@,
    })
}

/// A page of a history: its records, and where the next one begins if there is one.
pub open spec fn paged(records: Seq<Tree>, limit: nat) -> (Seq<Tree>, Option<Seq<char>>) {
    if records.len() > limit {
        let page = records.subrange(0, limit as int);
        (
            page,
            if limit == 0 {
                None
            } else {
                Some(cursor_to(page.last()))
            },
        )
    } else {
        (records, None)
    }
}

/// Cuts records to a page; one record more than the page holds tells that there is another.
pub fn page(records: Vec<Json>, limit: usize) -> (r: (Vec<Json>, Option<String>))
    ensures
        (trees(r.0@), r.1.deep_view()) == paged(trees(records@), limit as nat),
{
    let mut records = records;
    if records.len() <= limit {
        return (records, None);
    }
    let ghost before = trees(records@);
    records.truncate(limit);
    proof {
        assert(trees(records@) =~= before.subrange(0, limit as int));
    }
    if limit == 0 {
        return (records, None);
    }
    let last = &records[limit - 1];
    let time = to_text(last.at("timestamp_ms"));
    let id = match last.at("request_id").as_str() {
        Some(id) => id,
        None => "",
    };
    let cursor = join3(time.as_str(), ":", id);
    (records, Some(cursor))
}

// ---- exports ------------------------------------------------------------------------------

/// A character with which a cell would be taken for a formula.
pub open spec fn formula_char(c: char) -> bool {
    c == '=' || c == '+' || c == '-' || c == '@' || c == '\t' || c == '\r' || c == '\n'
}

/// Whether a text would be taken for a formula.
pub open spec fn formula(text: Seq<char>) -> bool {
    let start = white_start(text, 0);
    start < text.len() && formula_char(text[start])
}

/// A text with its quotation marks doubled, from `from` on.
pub open spec fn quoted_from(text: Seq<char>, from: int, out: Seq<char>) -> Seq<char>
    decreases text.len() - from,
{
    if from < 0 || from >= text.len() {
        out
    } else if text[from] == '"' {
        quoted_from(text, from + 1, out.push('"').push('"'))
    } else {
        quoted_from(text, from + 1, out.push(text[from]))
    }
}

/// A value as a cell. A text that would be taken for a formula is marked as text.
pub open spec fn cell_of(value: Tree) -> Seq<char> {
    let text = match value {
        Tree::Null => Seq::empty(),
        Tree::Text(text) => if formula(text) {
            "'"@ + text
        } else {
            text
        },
        _ => written(value),
    };
    "\""@ + quoted_from(text, 0, Seq::empty()) + "\""@
}

fn is_formula(text: &str) -> (r: bool)
    ensures
        r == formula(text@),
{
    let chars = chars_of(text);
    let mut start: usize = 0;
    while start < chars.len() && is_white(chars[start])
        invariant
            start <= chars.len(),
            chars@ == text@,
            white_start(text@, 0) == white_start(text@, start as int),
        decreases chars.len() - start,
    {
        start += 1;
    }
    if start >= chars.len() {
        return false;
    }
    let c = chars[start];
    c == '=' || c == '+' || c == '-' || c == '@' || c == '\t' || c == '\r' || c == '\n'
}

fn quote(text: &str) -> (r: String)
    ensures
        r@ == quoted_from(text@, 0, Seq::empty()),
{
    let chars = chars_of(text);
    let mut out = String::new();
    let mut i: usize = 0;
    while i < chars.len()
        invariant
            i <= chars.len(),
            chars@ == text@,
            quoted_from(text@, 0, Seq::empty()) == quoted_from(text@, i as int, out@),
        decreases chars.len() - i,
    {
        if chars[i] == '"' {
            push_char(&mut out, '"');
            push_char(&mut out, '"');
        } else {
            push_char(&mut out, chars[i]);
        }
        i += 1;
    }
    out
}

/// A value as a cell of a table of comma-separated values.
pub fn csv_cell(value: &Json) -> (r: String)
    ensures
        r@ == cell_of(value@),
{
    let text = match value {
        Json::Null => String::new(),
        Json::String(text) => if is_formula(text.as_str()) {
            crate::text::join2("'", text.as_str())
        } else {
            text.clone()
        },
        other => to_text(other),
    };
    let inner = quote(text.as_str());
    join3("\"", inner.as_str(), "\"")
}

/// The columns of an export.
pub open spec fn columns() -> Seq<Seq<char>> {
    seq![
        "request_id"@, "session_id"@, "timestamp_ms"@, "ended_ms"@, "method"@, "path"@,
        "transport"@, "mode"@, "requested_model"@, "routed_model"@, "project"@, "state"@,
        "status"@, "error_code"@, "security_guidance"@, "retries"@, "attempts"@, "duration_ms"@,
        "total_duration_ms"@, "first_byte_ms"@, "first_output_ms"@, "input_tokens"@,
        "output_tokens"@, "cached_input_tokens"@, "cache_write_tokens"@, "reasoning_tokens"@,
        "estimated_cost_usd"@, "price_model"@, "price_version"@, "request_bytes"@,
        "response_bytes"@,
    ]
}

/// The views of names.
pub open spec fn name_views(names: Seq<&'static str>) -> Seq<Seq<char>> {
    Seq::new(names.len(), |i: int| names[i]@)
}

/// The columns of an export.
pub fn export_columns() -> (r: Vec<&'static str>)
    ensures
        name_views(r@) == columns(),
{
    let r: Vec<&'static str> = vec![
        "request_id", "session_id", "timestamp_ms", "ended_ms", "method", "path", "transport",
        "mode", "requested_model", "routed_model", "project", "state", "status", "error_code",
        "security_guidance", "retries", "attempts", "duration_ms", "total_duration_ms",
        "first_byte_ms", "first_output_ms", "input_tokens", "output_tokens",
        "cached_input_tokens", "cache_write_tokens", "reasoning_tokens", "estimated_cost_usd",
        "price_model", "price_version", "request_bytes", "response_bytes",
    ];
    proof {
        assert(name_views(r@) =~= columns());
    }
    r
}

/// The names from `from` on between commas, behind what was written.
pub open spec fn header_from(names: Seq<Seq<char>>, from: int, out: Seq<char>) -> Seq<char>
    decreases names.len() - from,
{
    if from < 0 || from >= names.len() {
        out
    } else {
        header_from(
            names,
            from + 1,
            if from == 0 {
                out + names[from]
            } else {
                out + ","@ + names[from]
            },
        )
    }
}

/// The cells of a record from `from` on between commas, behind what was written.
pub open spec fn cells_from(record: Tree, names: Seq<Seq<char>>, from: int, out: Seq<char>) -> Seq<
    char,
>
    decreases names.len() - from,
{
    if from < 0 || from >= names.len() {
        out
    } else {
        cells_from(
            record,
            names,
            from + 1,
            if from == 0 {
                out + cell_of(record.at(names[from]))
            } else {
                out + ","@ + cell_of(record.at(names[from]))
            },
        )
    }
}

/// The line of a record in a table.
pub fn csv_line(record: &Json) -> (r: String)
    ensures
        r@ == cells_from(record@, columns(), 0, Seq::empty()),
{
    let names = export_columns();
    let mut out = String::new();
    let mut i: usize = 0;
    while i < names.len()
        invariant
            i <= names.len(),
            name_views(names@) == columns(),
            cells_from(record@, columns(), 0, Seq::empty()) == cells_from(
                record@,
                columns(),
                i as int,
                out@,
            ),
        decreases names.len() - i,
    {
        proof {
            assert(columns()[i as int] == names@[i as int]@);
            assert(columns().len() == names@.len());
        }
        if i > 0 {
            out.append(",");
        }
        let cell = csv_cell(record.at(names[i]));
        out.append(cell.as_str());
        i += 1;
    }
    proof {
        assert(columns().len() == names@.len());
    }
    out
}

/// How many records an export may hold.
pub const MAX_EXPORTED: usize = 50000;

/// How large an export may be.
pub const MAX_EXPORT: usize = 33554432;

/// An export under way. It is complete before it is sent: there are no partial downloads.
pub struct Export {
    pub csv: bool,
    pub count: usize,
    pub output: String,
}

/// The view of an export.
pub ghost struct Exporting {
    pub csv: bool,
    pub count: usize,
    pub output: Seq<char>,
}

impl View for Export {
    type V = Exporting;

    open spec fn view(&self) -> Exporting {
        Exporting { csv: self.csv, count: self.count, output: self.output@ }
    }
}

/// An export with a record added, or why it cannot be.
pub open spec fn exported(state: Exporting, record: Seq<char>) -> Result<Exporting, Seq<char>> {
    if state.count >= MAX_EXPORTED {
        Err("Export exceeds 50,000 requests; narrow the time range or filters"@)
    } else {
        let line = if state.csv {
            match parsed(encode_utf8(record)) {
                Err(message) => Err(message),
                Ok(value) => Ok(cells_from(value, columns(), 0, Seq::empty()) + "\r\n"@),
            }
        } else {
            Ok(record + "\n"@)
        };
        match line {
            Err(message) => Err(message),
            Ok(line) => if encode_utf8(state.output + line).len() > MAX_EXPORT {
                Err("Export exceeds 32 MiB; narrow the time range or filters"@)
            } else {
                Ok(
                    Exporting {
                        count: (state.count + 1) as usize,
                        output: state.output + line,
                        ..state
                    },
                )
            },
        }
    }
}

impl Export {
    /// An export without records.
    pub fn new(csv: bool) -> (r: Export)
        ensures
            r@ == (Exporting {
                csv,
                count: 0,
                output: if csv {
                    header_from(columns(), 0, Seq::empty()) + "\r\n"@
                } else {
                    Seq::empty()
                },
            }),
    {
        let mut output = String::new();
        if csv {
            let names = export_columns();
            let mut i: usize = 0;
            proof {
                assert(columns().len() == names@.len());
            }
            while i < names.len()
                invariant
                    i <= names.len(),
                    name_views(names@) == columns(),
                    columns().len() == names@.len(),
                    header_from(columns(), 0, Seq::empty()) == header_from(
                        columns(),
                        i as int,
                        output@,
                    ),
                decreases names.len() - i,
            {
                proof {
                    assert(columns()[i as int] == names@[i as int]@);
                }
                if i > 0 {
                    output.append(",");
                }
                output.append(names[i]);
                i += 1;
            }
            output.append("\r\n");
        }
        Export { csv, count: 0, output }
    }

    /// Adds a record, written as JSON.
    pub fn add_record(&mut self, record: &str) -> (r: Result<(), Error>)
        ensures
            match exported(old(self)@, record@) {
                Ok(after) => r is Ok && final(self)@ == after,
                Err(message) => r is Err && r->Err_0.message@ == message,
            },
    {
        if self.count >= MAX_EXPORTED {
            return Err(
                Error::new("Export exceeds 50,000 requests; narrow the time range or filters"),
            );
        }
        let ghost before = self.output@;
        if self.csv {
            let value = parse(record.as_bytes())?;
            let line = csv_line(&value);
            self.output.append(line.as_str());
            self.output.append("\r\n");
            proof {
                assert(self.output@ =~= before + (line@ + "\r\n"@));
            }
        } else {
            self.output.append(record);
            self.output.append("\n");
            proof {
                assert(self.output@ =~= before + (record@ + "\n"@));
            }
        }
        self.count = self.count + 1;
        if self.output.as_str().as_bytes().len() > MAX_EXPORT {
            return Err(Error::new("Export exceeds 32 MiB; narrow the time range or filters"));
        }
        Ok(())
    }
}

// ---- laws ----------------------------------------------------------------------------------------

proof fn first_place(s: Seq<char>, c: char, from: int, at: int)
    requires
        0 <= from <= at < s.len(),
        s[at] == c,
        forall|i: int| from <= i < at ==> #[trigger] s[i] != c,
    ensures
        place_of(s, c, from) == Some(at),
    decreases at - from,
{
    if from < at {
        assert(s[from] != c);
        first_place(s, c, from + 1, at);
    }
}

/// When a record was made and under which id: what pages are ordered by.
pub open spec fn record_key(record: Tree) -> (u64, Seq<char>) {
    (
        match record.at("timestamp_ms"@).natural() {
            Some(time) => time,
            None => 0,
        },
        match record.at("request_id"@).text() {
            Some(id) => id,
            None => ""@,
        },
    )
}

/// Whether a record is one as they are stored: with a time and an id.
pub open spec fn stored_record(record: Tree) -> bool {
    &&& record.at("timestamp_ms"@).natural() is Some
    &&& record.at("request_id"@).text() is Some
    &&& record_key(record).0 <= i64::MAX
    &&& encode_utf8(record_key(record).1).len() <= 100
    &&& id_chars(record_key(record).1, 0)
}

/// The cursor of a record that is stored reads as that record's place.
pub proof fn cursors_read_back(record: Tree)
    requires
        stored_record(record),
    ensures
        cursor_read(cursor_to(record)) == Ok::<(u64, Seq<char>), Seq<char>>(record_key(record)),
{
    let (time, id) = record_key(record);
    let shown = decimal(time as nat);
    let cursor = cursor_to(record);
    reveal_strlit(":");
    decimal_digits(time as nat);
    decimals_read_back(time as nat);
    assert(cursor == shown + ":"@ + id);
    let at = shown.len() as int;
    assert(cursor[at] == ':');
    assert forall|i: int| 0 <= i < at implies #[trigger] cursor[i] != ':' by {
        assert(digit(shown[i]));
    }
    first_place(cursor, ':', 0, at);
    assert(cursor.subrange(0, at) =~= shown);
    assert(cursor.subrange(at + 1, cursor.len() as int) =~= id);
}

/// Whether a place comes before another in a history: the newer first.
pub open spec fn newer(a: (u64, Seq<char>), b: (u64, Seq<char>)) -> bool {
    a.0 > b.0 || (a.0 == b.0 && precedes(b.1, a.1))
}

/// Whether records stand from the newest to the oldest.
pub open spec fn newest_first(records: Seq<Tree>) -> bool {
    forall|i: int, j: int|
        0 <= i < j < records.len() ==> newer(
            record_key(#[trigger] records[i]),
            record_key(#[trigger] records[j]),
        )
}

/// Whether a record is older than a place.
pub open spec fn behind(place: (u64, Seq<char>)) -> spec_fn(Tree) -> bool {
    |record: Tree| newer(place, record_key(record))
}

/// What the statement of a page finds among the records that match, newest first: those older
/// than the cursor, no more than one beyond the page.
pub open spec fn selected(
    records: Seq<Tree>,
    cursor: Option<(u64, Seq<char>)>,
    limit: nat,
) -> Seq<Tree> {
    let left = match cursor {
        None => records,
        Some(place) => records.filter(behind(place)),
    };
    if left.len() > limit + 1 {
        left.take((limit + 1) as int)
    } else {
        left
    }
}

/// The records on all pages from a cursor on, each page asked for by the cursor of the one
/// before it, at most `count` of them.
pub open spec fn read_on(
    records: Seq<Tree>,
    cursor: Option<(u64, Seq<char>)>,
    limit: nat,
    count: nat,
) -> Seq<Tree>
    decreases count,
{
    if count == 0 {
        Seq::empty()
    } else {
        let (shown, next) = paged(selected(records, cursor, limit), limit);
        match next {
            None => shown,
            Some(text) => match cursor_read(text) {
                Err(_) => shown,
                Ok(place) => shown + read_on(records, Some(place), limit, (count - 1) as nat),
            },
        }
    }
}

proof fn all_are_kept(records: Seq<Tree>, keep: spec_fn(Tree) -> bool)
    requires
        forall|i: int| 0 <= i < records.len() ==> keep(#[trigger] records[i]),
    ensures
        records.filter(keep) == records,
    decreases records.len(),
{
    reveal(Seq::filter);
    if records.len() > 0 {
        assert(keep(records[records.len() - 1]));
        all_are_kept(records.drop_last(), keep);
        assert(records.drop_last().push(records.last()) =~= records);
    } else {
        assert(records.filter(keep) =~= records);
    }
}

proof fn none_are_kept(records: Seq<Tree>, keep: spec_fn(Tree) -> bool)
    requires
        forall|i: int| 0 <= i < records.len() ==> !keep(#[trigger] records[i]),
    ensures
        records.filter(keep) == Seq::<Tree>::empty(),
    decreases records.len(),
{
    reveal(Seq::filter);
    if records.len() > 0 {
        assert(!keep(records[records.len() - 1]));
        none_are_kept(records.drop_last(), keep);
    }
}

proof fn older_ones_follow(records: Seq<Tree>, at: int)
    requires
        newest_first(records),
        0 <= at < records.len(),
    ensures
        records.filter(behind(record_key(records[at]))) == records.skip(at + 1),
{
    let place = record_key(records[at]);
    let keep = behind(place);
    let front = records.take(at + 1);
    let rest = records.skip(at + 1);
    assert forall|i: int| 0 <= i < front.len() implies !keep(#[trigger] front[i]) by {
        assert(front[i] == records[i]);
        precedes_irreflexive(place.1);
        if i < at && keep(front[i]) {
            assert(newer(record_key(records[i]), place));
            precedes_transitive(place.1, record_key(records[i]).1, place.1);
        }
    }
    assert forall|i: int| 0 <= i < rest.len() implies keep(#[trigger] rest[i]) by {
        assert(rest[i] == records[at + 1 + i]);
    }
    none_are_kept(front, keep);
    all_are_kept(rest, keep);
    assert(front + rest =~= records);
    Seq::filter_distributes_over_add(front, rest, keep);
    assert(Seq::<Tree>::empty() + rest =~= rest);
}

proof fn pages_from(records: Seq<Tree>, at: int, limit: nat, count: nat)
    requires
        newest_first(records),
        forall|i: int| 0 <= i < records.len() ==> stored_record(#[trigger] records[i]),
        0 <= at <= records.len(),
        limit > 0,
        count > records.len() - at,
    ensures
        read_on(
            records,
            if at == 0 {
                None
            } else {
                Some(record_key(records[at - 1]))
            },
            limit,
            count,
        ) == records.skip(at),
    decreases count,
{
    let cursor = if at == 0 {
        None
    } else {
        Some(record_key(records[at - 1]))
    };
    let left = records.skip(at);
    if at == 0 {
        assert(left =~= records);
    } else {
        older_ones_follow(records, at - 1);
    }
    let found = selected(records, cursor, limit);
    let (shown, next) = paged(found, limit);
    if left.len() > limit {
        assert(shown =~= left.take(limit as int));
        let last = records[at + limit - 1];
        assert(shown.last() == last);
        assert(stored_record(last));
        cursors_read_back(last);
        pages_from(records, at + limit, limit, (count - 1) as nat);
        assert(left.take(limit as int) + records.skip(at + limit) =~= left);
    } else {
        assert(found =~= left);
    }
}

/// Pages that are read one after the other, each with the cursor of the one before it, hold
/// every matching record once, from the newest to the oldest.
pub proof fn pages_hold_each_record_once(records: Seq<Tree>, limit: nat)
    requires
        newest_first(records),
        forall|i: int| 0 <= i < records.len() ==> stored_record(#[trigger] records[i]),
        limit > 0,
    ensures
        read_on(records, None, limit, records.len() + 1) == records,
{
    pages_from(records, 0, limit, records.len() + 1);
    assert(records.skip(0) =~= records);
}

/// A page holds no more than its limit, and one that another follows holds exactly that many.
pub proof fn pages_are_full(records: Seq<Tree>, limit: nat)
    requires
        limit > 0,
    ensures
        paged(records, limit).0.len() <= limit,
        paged(records, limit).1 is Some == (records.len() > limit),
        paged(records, limit).1 is Some ==> paged(records, limit).0.len() == limit,
{
}

proof fn quoting_starts(text: Seq<char>, from: int, out: Seq<char>)
    requires
        0 <= from,
    ensures
        out.len() <= quoted_from(text, from, out).len(),
        quoted_from(text, from, out).subrange(0, out.len() as int) == out,
    decreases text.len() - from,
{
    if from < text.len() {
        let next = if text[from] == '"' {
            out.push('"').push('"')
        } else {
            out.push(text[from])
        };
        quoting_starts(text, from + 1, next);
        let whole = quoted_from(text, from + 1, next);
        assert(whole.subrange(0, out.len() as int) =~= whole.subrange(0, next.len() as int).subrange(
            0,
            out.len() as int,
        ));
        assert(next.subrange(0, out.len() as int) =~= out);
    } else {
        assert(out.subrange(0, out.len() as int) =~= out);
    }
}

/// A text that would be taken for a formula never begins a cell: an apostrophe stands
/// between it and the quotation mark.
pub proof fn formulas_are_marked(text: Seq<char>)
    requires
        formula(text),
    ensures
        cell_of(Tree::Text(text)).len() > 2,
        cell_of(Tree::Text(text))[0] == '"',
        cell_of(Tree::Text(text))[1] == '\'',
{
    reveal_strlit("\"");
    reveal_strlit("'");
    let marked = "'"@ + text;
    assert(marked[0] == '\'');
    quoting_starts(marked, 1, Seq::<char>::empty().push('\''));
    let inner = quoted_from(marked, 1, Seq::<char>::empty().push('\''));
    assert(inner.subrange(0, 1)[0] == '\'');
    assert(quoted_from(marked, 0, Seq::empty()) == inner);
}

} // verus!

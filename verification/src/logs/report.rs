//! Reports on the recorded requests: the statements that are put to the database, and what
//! is made of its answers.

use vstd::prelude::*;
use vstd::string::StringExecFns;
use vstd::utf8::encode_utf8;
use crate::error::{ensure, ensured, outcome, Error};
use crate::exchange::{parse, parsed};
use crate::gemini::error::{optional_text, text_or_null};
use crate::gemini::parts::empty_object;
use crate::gemini::response::number;
use crate::logs::entry::opt_str;
use crate::logs::query::{bucket_width, page, paged, param_views, previous_span, Filter, Param, ParamView};
use crate::text::{decimal, join2, join3, join4, join5, number_text};
use crate::tree::{json_views, trees, Json, Tree};

verus! {

broadcast use json_views;

// ---- statements ----------------------------------------------------------------------------------

/// What is counted of requests.
pub open spec fn aggregates() -> Seq<char> {
    "count(*) AS requests, sum(state='succeeded') AS succeeded,sum(state='failed') AS failed, sum(state='cancelled') AS cancelled,sum(state='interrupted') AS interrupted, sum(ended_ms IS NULL) AS active,sum(status>=400) AS http_errors, sum(input_tokens) AS input_tokens,sum(output_tokens) AS output_tokens, sum(cached_input_tokens) AS cached_input_tokens,sum(cache_write_tokens) AS cache_write_tokens, sum(reasoning_tokens) AS reasoning_tokens, sum(input_tokens IS NOT NULL OR output_tokens IS NOT NULL) AS usage_reported, sum(cost_nano_usd IS NOT NULL) AS priced_requests,sum(cost_nano_usd)/1000000000.0 AS estimated_cost_usd, sum(retries) AS retries,sum(retries>0) AS retried_requests, avg(duration_ms) AS avg_headers_ms,avg(total_duration_ms) AS avg_duration_ms, avg(first_byte_ms) AS avg_first_byte_ms,avg(first_output_ms) AS avg_first_output_ms, sum(request_bytes) AS request_bytes,sum(response_bytes) AS response_bytes"@
}

fn aggregate_text() -> (r: &'static str)
    ensures
        r@ == aggregates(),
{
    "count(*) AS requests, sum(state='succeeded') AS succeeded,sum(state='failed') AS failed, sum(state='cancelled') AS cancelled,sum(state='interrupted') AS interrupted, sum(ended_ms IS NULL) AS active,sum(status>=400) AS http_errors, sum(input_tokens) AS input_tokens,sum(output_tokens) AS output_tokens, sum(cached_input_tokens) AS cached_input_tokens,sum(cache_write_tokens) AS cache_write_tokens, sum(reasoning_tokens) AS reasoning_tokens, sum(input_tokens IS NOT NULL OR output_tokens IS NOT NULL) AS usage_reported, sum(cost_nano_usd IS NOT NULL) AS priced_requests,sum(cost_nano_usd)/1000000000.0 AS estimated_cost_usd, sum(retries) AS retries,sum(retries>0) AS retried_requests, avg(duration_ms) AS avg_headers_ms,avg(total_duration_ms) AS avg_duration_ms, avg(first_byte_ms) AS avg_first_byte_ms,avg(first_output_ms) AS avg_first_output_ms, sum(request_bytes) AS request_bytes,sum(response_bytes) AS response_bytes"
}

/// The statement of a summary.
pub open spec fn summary_sql(condition: Seq<char>) -> Seq<char> {
    "SELECT "@ + aggregates() + " FROM requests WHERE "@ + condition
}

/// The statement of a summary.
pub fn summary_statement(condition: &str) -> (r: String)
    ensures
        r@ == summary_sql(condition@),
{
    join4("SELECT ", aggregate_text(), " FROM requests WHERE ", condition)
}

/// The statement of the percentiles of a column.
pub open spec fn percentile_sql(column: Seq<char>, condition: Seq<char>) -> Seq<char> {
    "WITH ranked AS (SELECT "@ + column + " AS value,row_number() OVER(ORDER BY "@ + column
        + ") AS rank,count(*) OVER() AS n FROM requests WHERE "@ + condition + " AND "@ + column
        + " IS NOT NULL) SELECT max(CASE WHEN rank=(n*50+99)/100 THEN value END) AS p50, max(CASE WHEN rank=(n*95+99)/100 THEN value END) AS p95, max(CASE WHEN rank=(n*99+99)/100 THEN value END) AS p99 FROM ranked"@
}

/// The statement of the percentiles of a column.
pub fn percentile_statement(column: &str, condition: &str) -> (r: String)
    ensures
        r@ == percentile_sql(column@, condition@),
{
    let mut sql = join5(
        "WITH ranked AS (SELECT ",
        column,
        " AS value,row_number() OVER(ORDER BY ",
        column,
        ") AS rank,count(*) OVER() AS n FROM requests WHERE ",
    );
    sql.append(condition);
    sql.append(" AND ");
    sql.append(column);
    sql.append(
        " IS NOT NULL) SELECT max(CASE WHEN rank=(n*50+99)/100 THEN value END) AS p50, max(CASE WHEN rank=(n*95+99)/100 THEN value END) AS p95, max(CASE WHEN rank=(n*99+99)/100 THEN value END) AS p99 FROM ranked",
    );
    sql
}

/// The statement of a series of buckets.
pub open spec fn series_sql(start: u64, width: u64, condition: Seq<char>) -> Seq<char> {
    "SELECT (timestamp_ms-"@ + decimal(start as nat) + ")/"@ + decimal(width as nat)
        + " AS bucket,"@ + aggregates() + " FROM requests WHERE "@ + condition
        + " GROUP BY bucket ORDER BY bucket"@
}

/// The statement of a series of buckets.
pub fn series_statement(start: u64, width: u64, condition: &str) -> (r: String)
    ensures
        r@ == series_sql(start, width, condition@),
{
    let from = number_text(start);
    let wide = number_text(width);
    let mut sql = join5(
        "SELECT (timestamp_ms-",
        from.as_str(),
        ")/",
        wide.as_str(),
        " AS bucket,",
    );
    sql.append(aggregate_text());
    sql.append(" FROM requests WHERE ");
    sql.append(condition);
    sql.append(" GROUP BY bucket ORDER BY bucket");
    sql
}

/// The statement of the groups of requests.
pub open spec fn groups_sql(group: Seq<char>, condition: Seq<char>) -> Seq<char> {
    "SELECT coalesce("@ + group + ",'(unknown)') AS name,"@ + aggregates()
        + " FROM requests WHERE "@ + condition + " GROUP BY "@ + group
        + " ORDER BY requests DESC,name LIMIT 101"@
}

/// The statement of the groups of requests.
pub fn groups_statement(group: &str, condition: &str) -> (r: String)
    ensures
        r@ == groups_sql(group@, condition@),
{
    let mut sql = join5(
        "SELECT coalesce(",
        group,
        ",'(unknown)') AS name,",
        aggregate_text(),
        " FROM requests WHERE ",
    );
    sql.append(condition);
    sql.append(" GROUP BY ");
    sql.append(group);
    sql.append(" ORDER BY requests DESC,name LIMIT 101");
    sql
}

/// The statement of the errors of requests.
pub open spec fn errors_sql(condition: Seq<char>) -> Seq<char> {
    "SELECT coalesce(error_code,'http_'||status,'unknown') AS error_code,count(*) AS requests FROM requests WHERE "@ + condition
        + " AND state IN ('failed','cancelled','interrupted') GROUP BY 1 ORDER BY requests DESC LIMIT 25"@
}

/// The statement of the errors of requests.
pub fn errors_statement(condition: &str) -> (r: String)
    ensures
        r@ == errors_sql(condition@),
{
    join3(
        "SELECT coalesce(error_code,'http_'||status,'unknown') AS error_code,count(*) AS requests FROM requests WHERE ",
        condition,
        " AND state IN ('failed','cancelled','interrupted') GROUP BY 1 ORDER BY requests DESC LIMIT 25",
    )
}

/// The statement of the slowest requests.
pub open spec fn slowest_sql(condition: Seq<char>) -> Seq<char> {
    "SELECT record FROM requests WHERE "@ + condition
        + " AND total_duration_ms IS NOT NULL ORDER BY total_duration_ms DESC,request_id LIMIT 10"@
}

/// The statement of the slowest requests.
pub fn slowest_statement(condition: &str) -> (r: String)
    ensures
        r@ == slowest_sql(condition@),
{
    join3(
        "SELECT record FROM requests WHERE ",
        condition,
        " AND total_duration_ms IS NOT NULL ORDER BY total_duration_ms DESC,request_id LIMIT 10",
    )
}

/// The statement of the most expensive requests.
pub open spec fn expensive_sql(condition: Seq<char>) -> Seq<char> {
    "SELECT record FROM requests WHERE "@ + condition
        + " AND cost_nano_usd IS NOT NULL ORDER BY cost_nano_usd DESC,request_id LIMIT 10"@
}

/// The statement of the most expensive requests.
pub fn expensive_statement(condition: &str) -> (r: String)
    ensures
        r@ == expensive_sql(condition@),
{
    join3(
        "SELECT record FROM requests WHERE ",
        condition,
        " AND cost_nano_usd IS NOT NULL ORDER BY cost_nano_usd DESC,request_id LIMIT 10",
    )
}

/// The statement of the number of requests.
pub open spec fn count_sql(condition: Seq<char>) -> Seq<char> {
    "SELECT count(*) AS count FROM requests WHERE "@ + condition
}

/// The statement of the number of requests.
pub fn count_statement(condition: &str) -> (r: String)
    ensures
        r@ == count_sql(condition@),
{
    join2("SELECT count(*) AS count FROM requests WHERE ", condition)
}

/// The statement of an export.
pub open spec fn export_sql(condition: Seq<char>) -> Seq<char> {
    "SELECT record FROM requests WHERE "@ + condition
        + " ORDER BY timestamp_ms DESC,request_id DESC LIMIT 50001"@
}

/// The statement of an export.
pub fn export_statement(condition: &str) -> (r: String)
    ensures
        r@ == export_sql(condition@),
{
    join3(
        "SELECT record FROM requests WHERE ",
        condition,
        " ORDER BY timestamp_ms DESC,request_id DESC LIMIT 50001",
    )
}

/// The parameters for the time before a report.
pub open spec fn earlier_params(params: Seq<ParamView>, start: u64, end: u64) -> Seq<ParamView> {
    let before = if start >= end - start {
        (start - (end - start)) as u64
    } else {
        0
    };
    params.update(0, ParamView::Integer(before as i64)).update(
        1,
        ParamView::Integer(start as i64),
    )
}

fn copy_param(param: &Param) -> (r: Param)
    ensures
        param_views(seq![r]) == param_views(seq![*param]),
{
    let r = match param {
        Param::Integer(n) => Param::Integer(*n),
        Param::Text(s) => Param::Text(s.clone()),
    };
    proof {
        assert(param_views(seq![r]) =~= param_views(seq![*param]));
    }
    r
}

fn copy_params(params: &Vec<Param>) -> (r: Vec<Param>)
    ensures
        param_views(r@) == param_views(params@),
{
    let mut out: Vec<Param> = Vec::new();
    let mut i: usize = 0;
    while i < params.len()
        invariant
            i == out.len() <= params.len(),
            forall|k: int| 0 <= k < i ==> #[trigger] param_views(out@)[k] == param_views(params@)[k],
        decreases params.len() - i,
    {
        let one = copy_param(&params[i]);
        let ghost before = param_views(out@);
        proof {
            assert(param_views(seq![one])[0] == param_views(seq![params@[i as int]])[0]);
        }
        out.push(one);
        proof {
            assert forall|k: int| 0 <= k < i + 1 implies #[trigger] param_views(out@)[k]
                == param_views(params@)[k] by {
                if k < i {
                    assert(param_views(out@)[k] == before[k]);
                }
            }
        }
        i += 1;
    }
    proof {
        assert(param_views(out@) =~= param_views(params@));
    }
    out
}

/// The parameters for the time before a report, which is as long as the report's.
pub fn previous_params(filter: &Filter) -> (r: Vec<Param>)
    requires
        filter.start <= filter.end,
        filter.params@.len() >= 2,
    ensures
        param_views(r@) == earlier_params(param_views(filter.params@), filter.start, filter.end),
{
    let (start, end) = previous_span(filter.start, filter.end);
    let mut params = copy_params(&filter.params);
    let ghost before = param_views(params@);
    proof {
        assert(before.len() == params@.len());
    }
    params.set(0, Param::Integer(start as i64));
    params.set(1, Param::Integer(end as i64));
    proof {
        assert(param_views(params@) =~= before.update(0, ParamView::Integer(start as i64)).update(
            1,
            ParamView::Integer(end as i64),
        ));
    }
    params
}

/// The statement of a page of the history, and its parameters.
pub open spec fn page_sql(condition: Seq<char>, cursor: bool, limit: usize) -> Seq<char> {
    "SELECT record FROM requests WHERE "@ + (if cursor {
        condition + " AND (timestamp_ms < ? OR (timestamp_ms = ? AND request_id < ?))"@
    } else {
        condition
    }) + " ORDER BY timestamp_ms DESC,request_id DESC LIMIT "@ + decimal((limit + 1) as nat)
}

/// The parameters of a page of the history.
pub open spec fn page_params(params: Seq<ParamView>, cursor: Option<(u64, Seq<char>)>) -> Seq<
    ParamView,
> {
    match cursor {
        Some((time, id)) => params + seq![
            ParamView::Integer(time as i64),
            ParamView::Integer(time as i64),
            ParamView::Text(id),
        ],
        None => params,
    }
}

/// The statement of a page of the history, with its parameters. One record more than the
/// page holds is asked for.
pub fn history_statement(filter: &Filter) -> (r: (String, Vec<Param>))
    requires
        filter.limit < usize::MAX,
    ensures
        r.0@ == page_sql(filter.sql@, filter.cursor is Some, filter.limit),
        param_views(r.1@) == page_params(
            param_views(filter.params@),
            filter.deep_view().cursor,
        ),
{
    let mut params = copy_params(&filter.params);
    let ghost before = param_views(params@);
    let mut condition = filter.sql.clone();
    match &filter.cursor {
        Some((time, id)) => {
            condition.append(" AND (timestamp_ms < ? OR (timestamp_ms = ? AND request_id < ?))");
            params.push(Param::Integer(*time as i64));
            params.push(Param::Integer(*time as i64));
            params.push(Param::Text(id.clone()));
            proof {
                assert(param_views(params@) =~= before + seq![
                    ParamView::Integer(*time as i64),
                    ParamView::Integer(*time as i64),
                    ParamView::Text(id@),
                ]);
            }
        },
        None => {},
    }
    let limit = number_text(filter.limit as u64 + 1);
    let sql = join4(
        "SELECT record FROM requests WHERE ",
        condition.as_str(),
        " ORDER BY timestamp_ms DESC,request_id DESC LIMIT ",
        limit.as_str(),
    );
    (sql, params)
}

// ---- answers ---------------------------------------------------------------------------------------

/// A record as it is answered.
pub open spec fn record_read(text: Seq<char>) -> Result<Tree, Seq<char>> {
    match parsed(encode_utf8(text)) {
        Ok(record) => Ok(record.with("machine"@, Tree::Text("local"@))),
        Err(message) => Err(message),
    }
}

/// Reads a record.
pub fn read_record(text: &str) -> (r: Result<Json, Error>)
    ensures
        outcome(r) == record_read(text@),
{
    let record = parse(text.as_bytes())?;
    Ok(record.with("machine", Json::text("local")))
}

/// A summary with the percentiles of its columns.
pub open spec fn summarised(totals: Tree, percentiles: Seq<Tree>) -> Tree {
    totals.with("duration_ms"@, percentiles[0]).with("total_duration_ms"@, percentiles[1]).with(
        "first_byte_ms"@,
        percentiles[2],
    ).with("first_output_ms"@, percentiles[3])
}

/// A summary with the percentiles of its columns, in the order of the columns.
pub fn summary(totals: Json, percentiles: &Vec<Json>) -> (r: Json)
    requires
        percentiles@.len() == 4,
    ensures
        r@ == summarised(totals@, trees(percentiles@)),
{
    totals.with("duration_ms", percentiles[0].copy()).with(
        "total_duration_ms",
        percentiles[1].copy(),
    ).with("first_byte_ms", percentiles[2].copy()).with("first_output_ms", percentiles[3].copy())
}

/// What the database answered for a report.
pub struct Answers {
    pub totals: Json,
    pub previous: Json,
    pub series: Vec<Json>,
    pub groups: Vec<Json>,
    pub errors: Vec<Json>,
    pub slowest: Vec<Json>,
    pub expensive: Vec<Json>,
    pub storage: Json,
    pub query_ms: u64,
    pub snapshot_ms: u64,
}

/// The groups that are shown.
pub open spec fn shown_groups(groups: Seq<Tree>) -> Seq<Tree> {
    if groups.len() > 100 {
        groups.subrange(0, 100)
    } else {
        groups
    }
}

/// A report.
pub open spec fn report_tree(start: u64, end: u64, group: Seq<char>, answers: Answers) -> Tree {
    let groups = trees(answers.groups@);
    let width = if (end - start + 59) / 60 > 1 {
        ((end - start + 59) / 60) as u64
    } else {
        1
    };
    empty_object().with("start"@, number(start)).with("end"@, number(end)).with(
        "bucket_ms"@,
        number(width),
    ).with("summary"@, answers.totals@).with("previous"@, answers.previous@).with(
        "series"@,
        Tree::Array(trees(answers.series@)),
    ).with("groups"@, Tree::Array(shown_groups(groups))).with(
        "groups_truncated"@,
        Tree::Bool(groups.len() > 100),
    ).with("group"@, Tree::Text(group)).with("errors"@, Tree::Array(trees(answers.errors@))).with(
        "slowest"@,
        Tree::Array(trees(answers.slowest@)),
    ).with("most_expensive"@, Tree::Array(trees(answers.expensive@))).with(
        "storage"@,
        answers.storage@,
    ).with("query_ms"@, number(answers.query_ms)).with("snapshot_ms"@, number(answers.snapshot_ms))
}

/// A report from the answers of the database.
pub fn report(filter: &Filter, answers: Answers) -> (r: Json)
    requires
        filter.start <= filter.end,
    ensures
        r@ == report_tree(filter.start, filter.end, filter.group@, answers),
{
    let width = bucket_width(filter.start, filter.end);
    let mut groups = answers.groups;
    let more = groups.len() > 100;
    let ghost all = trees(groups@);
    if more {
        groups.truncate(100);
        proof {
            assert(trees(groups@) =~= all.subrange(0, 100));
        }
    }
    Json::object().with("start", Json::natural(filter.start)).with(
        "end",
        Json::natural(filter.end),
    ).with("bucket_ms", Json::natural(width)).with("summary", answers.totals).with(
        "previous",
        answers.previous,
    ).with("series", Json::Array(answers.series)).with("groups", Json::Array(groups)).with(
        "groups_truncated",
        Json::Bool(more),
    ).with("group", Json::text(filter.group.as_str())).with(
        "errors",
        Json::Array(answers.errors),
    ).with("slowest", Json::Array(answers.slowest)).with(
        "most_expensive",
        Json::Array(answers.expensive),
    ).with("storage", answers.storage).with("query_ms", Json::natural(answers.query_ms)).with(
        "snapshot_ms",
        Json::natural(answers.snapshot_ms),
    )
}

/// A page of the history.
pub open spec fn history_tree(
    start: u64,
    end: u64,
    limit: usize,
    records: Seq<Tree>,
    total: Tree,
    snapshot_ms: u64,
) -> Tree {
    let (shown, cursor) = paged(records, limit as nat);
    empty_object().with("entries"@, Tree::Array(shown)).with(
        "next_cursor"@,
        text_or_null(cursor),
    ).with("total"@, total).with("start"@, number(start)).with("end"@, number(end)).with(
        "limit"@,
        number(limit as u64),
    ).with("snapshot_ms"@, number(snapshot_ms))
}

/// A page of the history from the records that were found.
pub fn history(filter: &Filter, records: Vec<Json>, total: Json, snapshot_ms: u64) -> (r: Json)
    ensures
        r@ == history_tree(
            filter.start,
            filter.end,
            filter.limit,
            trees(records@),
            total@,
            snapshot_ms,
        ),
{
    let (shown, cursor) = page(records, filter.limit);
    Json::object().with("entries", Json::Array(shown)).with(
        "next_cursor",
        optional_text(opt_str(&cursor)),
    ).with("total", total).with("start", Json::natural(filter.start)).with(
        "end",
        Json::natural(filter.end),
    ).with("limit", Json::natural(filter.limit as u64)).with(
        "snapshot_ms",
        Json::natural(snapshot_ms),
    )
}

/// Checks the id of a request that is asked for.
pub fn check_id(request_id: &str) -> (r: Result<(), Error>)
    ensures
        outcome(r) == ensured(
            encode_utf8(request_id@).len() <= 100,
            "Invalid request ID"@,
        ),
{
    ensure(request_id.as_bytes().len() <= 100, "Invalid request ID")
}

/// How many events of a request are shown.
pub const EVENT_LIMIT: usize = 2000;

/// The events from `from` on with their details read.
pub open spec fn events_read(events: Seq<Tree>, from: int, done: Seq<Tree>) -> Result<
    Seq<Tree>,
    Seq<char>,
>
    decreases events.len() - from,
{
    if from < 0 || from >= events.len() {
        Ok(done)
    } else {
        match parsed(
            encode_utf8(
                match events[from].at("details"@).text() {
                    Some(text) => text,
                    None => ""@,
                },
            ),
        ) {
            Err(message) => Err(message),
            Ok(details) => events_read(
                events,
                from + 1,
                done.push(events[from].with("details"@, details)),
            ),
        }
    }
}

/// A request with its events.
pub open spec fn detail_tree(request: Tree, events: Seq<Tree>) -> Result<Tree, Seq<char>> {
    let shown = if events.len() > EVENT_LIMIT {
        events.subrange(0, EVENT_LIMIT as int)
    } else {
        events
    };
    match events_read(shown, 0, Seq::empty()) {
        Err(message) => Err(message),
        Ok(read) => Ok(
            empty_object().with("request"@, request).with("events"@, Tree::Array(read)).with(
                "events_truncated"@,
                Tree::Bool(events.len() > EVENT_LIMIT),
            ),
        ),
    }
}

/// A request with its events, whose details are read.
pub fn detail(request: Json, events: Vec<Json>) -> (r: Result<Json, Error>)
    ensures
        outcome(r) == detail_tree(request@, trees(events@)),
{
    let mut kept = events;
    let ghost all = trees(kept@);
    let more = kept.len() > EVENT_LIMIT;
    if more {
        kept.truncate(EVENT_LIMIT);
        proof {
            assert(trees(kept@) =~= all.subrange(0, EVENT_LIMIT as int));
        }
    }
    let ghost shown = trees(kept@);
    let ghost whole = detail_tree(request@, all);
    let mut done: Vec<Json> = Vec::new();
    let mut i: usize = 0;
    while i < kept.len()
        invariant
            i <= kept.len(),
            all == trees(events@),
            more == (all.len() > EVENT_LIMIT),
            shown == trees(kept@),
            whole == detail_tree(request@, all),
            whole == (match events_read(shown, i as int, trees(done@)) {
                Err(message) => Err::<Tree, Seq<char>>(message),
                Ok(read) => Ok::<Tree, Seq<char>>(
                    empty_object().with("request"@, request@).with(
                        "events"@,
                        Tree::Array(read),
                    ).with("events_truncated"@, Tree::Bool(more)),
                ),
            }),
        decreases kept.len() - i,
    {
        let text = match kept[i].at("details").as_str() {
            Some(text) => text,
            None => "",
        };
        let details = parse(text.as_bytes())?;
        done.push(kept[i].copy().with("details", details));
        i += 1;
    }
    Ok(
        Json::object().with("request", request).with("events", Json::Array(done)).with(
            "events_truncated",
            Json::Bool(more),
        ),
    )
}

/// What was recorded in a span, as the dashboard reads it.
pub open spec fn window_tree(found: Seq<Tree>, earliest: Tree, snapshot_ms: u64) -> Tree {
    let shown = if found.len() > 50000 {
        found.subrange(0, 50000)
    } else {
        found
    };
    empty_object().with("entries"@, Tree::Array(shown)).with(
        "coverage"@,
        empty_object().with("source"@, Tree::Text("sqlite"@)).with(
            "truncated"@,
            Tree::Bool(found.len() > 50000),
        ).with("limit"@, number(50000)).with("earliest_ms"@, earliest).with(
            "snapshot_ms"@,
            number(snapshot_ms),
        ),
    )
}

/// What was recorded in a span, no more than the limit.
pub fn window(found: Vec<Json>, earliest: Json, snapshot_ms: u64) -> (r: Json)
    ensures
        r@ == window_tree(trees(found@), earliest@, snapshot_ms),
{
    let mut found = found;
    let more = found.len() > 50000;
    let ghost all = trees(found@);
    if more {
        found.truncate(50000);
        proof {
            assert(trees(found@) =~= all.subrange(0, 50000));
        }
    }
    let coverage = Json::object().with("source", Json::text("sqlite")).with(
        "truncated",
        Json::Bool(more),
    ).with("limit", Json::natural(50000)).with("earliest_ms", earliest).with(
        "snapshot_ms",
        Json::natural(snapshot_ms),
    );
    Json::object().with("entries", Json::Array(found)).with("coverage", coverage)
}

} // verus!

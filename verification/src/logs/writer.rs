//! The writer of the record: what is queued, what is written, and how it fares.

use vstd::prelude::*;
use vstd::utf8::encode_utf8;
use crate::error::{outcome, Error};
use crate::exchange::{parse, parsed, to_text, written};
use crate::gemini::error::{optional_text, text_or_null};
use crate::gemini::parts::empty_object;
use crate::gemini::response::number;
use crate::logs::entry::{opt_str, Entry, EntryView};
use crate::logs::pricing::{built_in, price, priced, Cost, Price};
use crate::logs::store::{event_views, Event, EventView};
use crate::text::{decimal, join2, join3, number_text, same};
use crate::tree::{json_views, Json, Number, Tree};

verus! {

broadcast use json_views;

/// A number as the database holds it.
pub open spec fn held(value: u64) -> i64 {
    if value > i64::MAX {
        i64::MAX
    } else {
        value as i64
    }
}

/// A number as the database holds it: at most the largest signed one.
pub fn integer(value: u64) -> (r: i64)
    ensures
        r == held(value),
{
    if value > i64::MAX as u64 {
        i64::MAX
    } else {
        value as i64
    }
}

/// A signed number as text.
pub open spec fn signed_text(n: i64) -> Seq<char> {
    if n < 0 {
        "-"@ + decimal((-n) as nat)
    } else {
        decimal(n as nat)
    }
}

fn show_signed(n: i64) -> (r: String)
    ensures
        r@ == signed_text(n),
{
    if n == i64::MIN {
        let digits = number_text(9223372036854775808);
        join2("-", digits.as_str())
    } else if n < 0 {
        let digits = number_text((0 - n) as u64);
        join2("-", digits.as_str())
    } else {
        number_text(n as u64)
    }
}

/// Whether this version can use a database with a schema.
pub fn check_schema(version: i64) -> (r: Result<(), Error>)
    ensures
        outcome(r) == (if version > 1 {
            Err::<(), Seq<char>>(
                "Logging database schema "@ + signed_text(version)
                    + " is newer than this executable supports"@,
            )
        } else {
            Ok::<(), Seq<char>>(())
        }),
{
    if version > 1 {
        let shown = show_signed(version);
        return Err(
            Error {
                message: join3(
                    "Logging database schema ",
                    shown.as_str(),
                    " is newer than this executable supports",
                ),
            },
        );
    }
    Ok(())
}

// ---- the queue -------------------------------------------------------------------------------

/// How the writer fares.
pub struct Health {
    pub enqueued: u64,
    pub committed: u64,
    pub pending: usize,
    pub dropped: u64,
    pub write_errors: u64,
    pub last_commit_ms: u64,
    pub last_drop_ms: u64,
    pub commit_duration_us: u64,
    pub last_error: Option<String>,
}

/// The view of how the writer fares.
pub ghost struct Condition {
    pub enqueued: u64,
    pub committed: u64,
    pub pending: usize,
    pub dropped: u64,
    pub write_errors: u64,
    pub last_commit_ms: u64,
    pub last_drop_ms: u64,
    pub commit_duration_us: u64,
    pub last_error: Option<Seq<char>>,
}

impl View for Health {
    type V = Condition;

    open spec fn view(&self) -> Condition {
        Condition {
            enqueued: self.enqueued,
            committed: self.committed,
            pending: self.pending,
            dropped: self.dropped,
            write_errors: self.write_errors,
            last_commit_ms: self.last_commit_ms,
            last_drop_ms: self.last_drop_ms,
            commit_duration_us: self.commit_duration_us,
            last_error: self.last_error.deep_view(),
        }
    }
}

/// A count with others added; a counter that is full stays full.
pub open spec fn grown(count: u64, more: nat) -> u64 {
    if count + more > u64::MAX {
        u64::MAX
    } else {
        (count + more) as u64
    }
}

fn grow(count: u64, more: u64) -> (r: u64)
    ensures
        r == grown(count, more as nat),
{
    if more > u64::MAX - count {
        u64::MAX
    } else {
        count + more
    }
}

impl Condition {
    /// An event was handed to the queue, which took it or was full.
    pub open spec fn offered(self, taken: bool, now: u64) -> Condition {
        if taken {
            Condition {
                pending: if self.pending == usize::MAX {
                    usize::MAX
                } else {
                    (self.pending + 1) as usize
                },
                enqueued: grown(self.enqueued, 1),
                ..self
            }
        } else {
            Condition { dropped: grown(self.dropped, 1), last_drop_ms: now, ..self }
        }
    }

    /// A batch was written.
    pub open spec fn wrote(self, count: usize, now: u64, took_us: u64) -> Condition {
        Condition {
            pending: if self.pending >= count {
                (self.pending - count) as usize
            } else {
                0
            },
            committed: grown(self.committed, count as nat),
            last_commit_ms: now,
            commit_duration_us: took_us,
            last_error: None,
            ..self
        }
    }

    /// A batch could not be written.
    pub open spec fn failed(self, message: Seq<char>) -> Condition {
        Condition {
            write_errors: grown(self.write_errors, 1),
            last_error: Some(message),
            ..self
        }
    }

    /// How the writer fares, in a word.
    pub open spec fn status(self, capacity: usize) -> Seq<char> {
        if self.last_error is Some {
            "error"@
        } else if self.dropped > 0 {
            "gaps"@
        } else if self.pending > capacity / 2 {
            "lagging"@
        } else {
            "healthy"@
        }
    }

    /// How long events have been waiting.
    pub open spec fn lag(self, started_ms: u64, now: u64) -> u64 {
        let since = if self.last_commit_ms > started_ms {
            self.last_commit_ms
        } else {
            started_ms
        };
        if self.pending > 0 && now > since {
            (now - since) as u64
        } else {
            0
        }
    }

    /// The report on the writer.
    pub open spec fn report(self, capacity: usize, started_ms: u64, now: u64) -> Tree {
        empty_object().with("enabled"@, Tree::Bool(true)).with(
            "storage"@,
            Tree::Text("sqlite"@),
        ).with("journal_mode"@, Tree::Text("WAL"@)).with("synchronous"@, Tree::Text("FULL"@)).with(
            "queue_capacity"@,
            number(capacity as u64),
        ).with("pending_events"@, number(self.pending as u64)).with(
            "enqueued_events"@,
            number(self.enqueued),
        ).with("committed_events"@, number(self.committed)).with(
            "dropped_events"@,
            number(self.dropped),
        ).with("last_drop_ms"@, number(self.last_drop_ms)).with(
            "write_errors"@,
            number(self.write_errors),
        ).with("last_error"@, text_or_null(self.last_error)).with(
            "last_commit_ms"@,
            number(self.last_commit_ms),
        ).with("commit_duration_us"@, number(self.commit_duration_us)).with(
            "lag_ms"@,
            number(self.lag(started_ms, now)),
        ).with("retention"@, Tree::Text("all"@)).with("status"@, Tree::Text(self.status(capacity)))
    }
}

impl Health {
    /// A writer that has not written yet; so many events were lost before.
    pub fn new(dropped: u64) -> (r: Health)
        ensures
            r@ == (Condition {
                enqueued: 0,
                committed: 0,
                pending: 0,
                dropped,
                write_errors: 0,
                last_commit_ms: 0,
                last_drop_ms: 0,
                commit_duration_us: 0,
                last_error: None,
            }),
    {
        Health {
            enqueued: 0,
            committed: 0,
            pending: 0,
            dropped,
            write_errors: 0,
            last_commit_ms: 0,
            last_drop_ms: 0,
            commit_duration_us: 0,
            last_error: None,
        }
    }

    /// Counts an event that was handed to the queue: whether to wake the writer, which is
    /// for the first event or a full batch, not for every one.
    pub fn offer(&mut self, taken: bool, batch_size: usize, now: u64) -> (r: bool)
        ensures
            final(self)@ == old(self)@.offered(taken, now),
            r == (taken && (final(self)@.pending == 1 || (batch_size > 0 && final(self)@.pending
                % batch_size == 0))),
    {
        if taken {
            if self.pending < usize::MAX {
                self.pending = self.pending + 1;
            }
            self.enqueued = grow(self.enqueued, 1);
            self.pending == 1 || (batch_size > 0 && self.pending % batch_size == 0)
        } else {
            self.dropped = grow(self.dropped, 1);
            self.last_drop_ms = now;
            false
        }
    }

    /// A batch was written.
    pub fn wrote(&mut self, count: usize, now: u64, took_us: u64)
        ensures
            final(self)@ == old(self)@.wrote(count, now, took_us),
    {
        self.pending = if self.pending >= count {
            self.pending - count
        } else {
            0
        };
        self.committed = grow(self.committed, count as u64);
        self.last_commit_ms = now;
        self.commit_duration_us = took_us;
        self.last_error = None;
    }

    /// A batch could not be written.
    pub fn failed(&mut self, message: &str)
        ensures
            final(self)@ == old(self)@.failed(message@),
    {
        self.write_errors = grow(self.write_errors, 1);
        self.last_error = Some(message.to_string());
    }

    /// The report on the writer.
    pub fn report(&self, capacity: usize, started_ms: u64, now: u64) -> (r: Json)
        ensures
            r@ == self@.report(capacity, started_ms, now),
    {
        let since: u64 = if self.last_commit_ms > started_ms {
            self.last_commit_ms
        } else {
            started_ms
        };
        let lag: u64 = if self.pending > 0 && now > since {
            now - since
        } else {
            0
        };
        let status = if self.last_error.is_some() {
            "error"
        } else if self.dropped > 0 {
            "gaps"
        } else if self.pending > capacity / 2 {
            "lagging"
        } else {
            "healthy"
        };
        Json::object().with("enabled", Json::Bool(true)).with("storage", Json::text("sqlite")).with(
            "journal_mode",
            Json::text("WAL"),
        ).with("synchronous", Json::text("FULL")).with(
            "queue_capacity",
            Json::natural(capacity as u64),
        ).with("pending_events", Json::natural(self.pending as u64)).with(
            "enqueued_events",
            Json::natural(self.enqueued),
        ).with("committed_events", Json::natural(self.committed)).with(
            "dropped_events",
            Json::natural(self.dropped),
        ).with("last_drop_ms", Json::natural(self.last_drop_ms)).with(
            "write_errors",
            Json::natural(self.write_errors),
        ).with("last_error", optional_text(opt_str(&self.last_error))).with(
            "last_commit_ms",
            Json::natural(self.last_commit_ms),
        ).with("commit_duration_us", Json::natural(self.commit_duration_us)).with(
            "lag_ms",
            Json::natural(lag),
        ).with("retention", Json::text("all")).with("status", Json::text(status))
    }
}

/// The report where nothing is written.
pub open spec fn disabled_tree() -> Tree {
    empty_object().with("enabled"@, Tree::Bool(false)).with("storage"@, Tree::Text("memory"@)).with(
        "status"@,
        Tree::Text("disabled"@),
    )
}

/// The report where nothing is written.
pub fn disabled_report() -> (r: Json)
    ensures
        r@ == disabled_tree(),
{
    Json::object().with("enabled", Json::Bool(false)).with("storage", Json::text("memory")).with(
        "status",
        Json::text("disabled"),
    )
}

// ---- the loop of the writer ------------------------------------------------------------------

/// What the writer knows before it acts.
#[derive(Clone, Copy, Debug, PartialEq, Eq, Structural)]
pub struct Desk {
    /// How many events it holds, and how many make a batch.
    pub held: usize,
    pub batch_size: usize,
    /// Nobody can send any more.
    pub disconnected: bool,
    /// Somebody waits until everything is written.
    pub flushing: bool,
    /// Events were lost since the last time they were recorded.
    pub new_drops: bool,
    /// The time for a batch that is not full has come.
    pub due: bool,
}

/// What the writer does.
#[derive(Clone, Copy, Debug, PartialEq, Eq, Structural)]
pub enum Act {
    /// It waits for events.
    Wait,
    /// It writes what it holds.
    Write,
    /// There is nothing to write: it answers those who wait, and goes on or stops.
    Answer,
}

/// Whether the writer takes another event before it acts.
pub fn wants_more(desk: &Desk) -> (r: bool)
    ensures
        r == (desk.held < desk.batch_size && !desk.disconnected && !desk.flushing),
{
    desk.held < desk.batch_size && !desk.disconnected && !desk.flushing
}

/// What the writer does with what it holds once no more events are waiting.
pub fn next_act(desk: &Desk) -> (r: Act)
    ensures
        r == (if !desk.disconnected && !desk.flushing && desk.held < desk.batch_size
            && !desk.new_drops && (desk.held == 0 || !desk.due) {
            Act::Wait
        } else if desk.held > 0 || desk.new_drops {
            Act::Write
        } else {
            Act::Answer
        }),
{
    if !desk.disconnected && !desk.flushing && desk.held < desk.batch_size && !desk.new_drops && (
    desk.held == 0 || !desk.due) {
        Act::Wait
    } else if desk.held > 0 || desk.new_drops {
        Act::Write
    } else {
        Act::Answer
    }
}

/// How long a writer that is to stop keeps trying, in milliseconds.
pub const PATIENCE_MS: u64 = 5000;

/// Whether the writer gives up on a batch that cannot be written: only where it is to stop,
/// after it has tried for a while.
pub fn gives_up(stopping: bool, failing_for: u64) -> (r: bool)
    ensures
        r == (stopping && failing_for > PATIENCE_MS),
{
    stopping && failing_for > PATIENCE_MS
}

// ---- what is written -------------------------------------------------------------------------

/// Whether an event at or after `from` is about a request.
pub open spec fn told_later(batch: Seq<EventView>, request: Seq<char>, from: int) -> bool
    decreases batch.len() - from,
{
    0 <= from < batch.len() && (batch[from].entry.request_id == request || told_later(
        batch,
        request,
        from + 1,
    ))
}

/// The places, from `from` on, of the last events about their requests.
pub open spec fn last_places(batch: Seq<EventView>, from: int) -> Seq<int>
    decreases batch.len() - from,
{
    if from < 0 || from >= batch.len() {
        Seq::empty()
    } else if told_later(batch, batch[from].entry.request_id, from + 1) {
        last_places(batch, from + 1)
    } else {
        seq![from] + last_places(batch, from + 1)
    }
}

/// Places as numbers.
pub open spec fn place_views(places: Seq<usize>) -> Seq<int> {
    Seq::new(places.len(), |i: int| places[i] as int)
}

fn is_told_later(batch: &Vec<Event>, request: &str, from: usize) -> (r: bool)
    requires
        from <= batch.len(),
    ensures
        r == told_later(event_views(batch@), request@, from as int),
{
    let mut i: usize = from;
    while i < batch.len()
        invariant
            from <= i <= batch.len(),
            told_later(event_views(batch@), request@, from as int) == told_later(
                event_views(batch@),
                request@,
                i as int,
            ),
        decreases batch.len() - i,
    {
        if same(batch[i].entry.request_id.as_str(), request) {
            return true;
        }
        i += 1;
    }
    false
}

/// The places of the last events about their requests: only the last snapshot of a request
/// is needed.
pub fn latest(batch: &Vec<Event>) -> (r: Vec<usize>)
    ensures
        place_views(r@) == last_places(event_views(batch@), 0),
{
    let mut places: Vec<usize> = Vec::new();
    let ghost whole = last_places(event_views(batch@), 0);
    let mut i: usize = 0;
    proof {
        assert(place_views(places@) =~= Seq::<int>::empty());
        assert(Seq::<int>::empty() + whole =~= whole);
    }
    while i < batch.len()
        invariant
            i <= batch.len(),
            whole == place_views(places@) + last_places(event_views(batch@), i as int),
        decreases batch.len() - i,
    {
        if !is_told_later(batch, batch[i].entry.request_id.as_str(), i + 1) {
            let ghost before = place_views(places@);
            let ghost rest = last_places(event_views(batch@), i + 1);
            places.push(i);
            proof {
                assert(place_views(places@) =~= before.push(i as int));
                assert(before + (seq![i as int] + rest) =~= before.push(i as int) + rest);
            }
        }
        i += 1;
    }
    proof {
        assert(place_views(places@) + Seq::<int>::empty() =~= place_views(places@));
    }
    places
}

/// A cost in nanodollars, as dollars.
pub open spec fn dollars(nanos: Option<i64>) -> Tree {
    match nanos {
        None => Tree::Null,
        Some(n) => match parsed(encode_utf8(signed_text(n) + "e-9"@)) {
            Ok(value) => value,
            Err(_) => Tree::Null,
        },
    }
}

fn show_dollars(nanos: Option<i64>) -> (r: Json)
    ensures
        r@ == dollars(nanos),
{
    match nanos {
        None => Json::Null,
        Some(n) => {
            let digits = show_signed(n);
            let text = join2(digits.as_str(), "e-9");
            match parse(text.as_str().as_bytes()) {
                Ok(value) => value,
                Err(_) => Json::Null,
            }
        },
    }
}

/// A signed number that may be missing, as JSON.
pub open spec fn signed_or_null(n: Option<i64>) -> Tree {
    match n {
        None => Tree::Null,
        Some(n) => Tree::Number(crate::exchange::signed(n)),
    }
}

fn optional_signed(n: Option<i64>) -> (r: Json)
    ensures
        r@ == signed_or_null(n),
{
    match n {
        None => Json::Null,
        Some(n) => if n < 0 {
            Json::Number(Number::Negative(n))
        } else {
            Json::natural(n as u64)
        },
    }
}

/// The record of a request with its price.
pub open spec fn record_of(entry: EntryView, cost: Cost) -> Tree {
    entry.tree().with("price_model"@, text_or_null(cost.model)).with(
        "price_version"@,
        Tree::Text(cost.version),
    ).with("cost_nano_usd"@, signed_or_null(cost.nanos)).with(
        "estimated_cost_usd"@,
        dollars(cost.nanos),
    )
}

/// The record of a request with its price.
pub fn record(entry: &Entry, price: &Price) -> (r: Json)
    ensures
        r@ == record_of(entry.deep_view(), price.deep_view()),
{
    entry.to_json().with("price_model", optional_text(opt_str(&price.price_model))).with(
        "price_version",
        Json::text(price.price_version.as_str()),
    ).with("cost_nano_usd", optional_signed(price.cost_nano_usd)).with(
        "estimated_cost_usd",
        show_dollars(price.cost_nano_usd),
    )
}

/// A value of a row.
#[derive(Clone)]
pub enum Cell {
    Null,
    Integer(i64),
    Text(String),
}

/// The view of a value of a row.
pub ghost enum CellView {
    Null,
    Integer(i64),
    Text(Seq<char>),
}

/// The views of a row.
pub open spec fn cell_views(row: Seq<Cell>) -> Seq<CellView> {
    Seq::new(row.len(), |i: int| cell_view(row[i]))
}

/// The view of a value.
pub open spec fn cell_view(cell: Cell) -> CellView {
    match cell {
        Cell::Null => CellView::Null,
        Cell::Integer(n) => CellView::Integer(n),
        Cell::Text(s) => CellView::Text(s@),
    }
}

/// A count that may be missing, as a value.
pub open spec fn count_cell(count: Option<u64>) -> CellView {
    match count {
        Some(n) => CellView::Integer(held(n)),
        None => CellView::Null,
    }
}

/// A text that may be missing, as a value.
pub open spec fn text_cell(text: Option<Seq<char>>) -> CellView {
    match text {
        Some(text) => CellView::Text(text),
        None => CellView::Null,
    }
}

fn make_count(count: Option<u64>) -> (r: Cell)
    ensures
        cell_view(r) == count_cell(count),
{
    match count {
        Some(n) => Cell::Integer(integer(n)),
        None => Cell::Null,
    }
}

fn make_text(text: &Option<String>) -> (r: Cell)
    ensures
        cell_view(r) == text_cell(text.deep_view()),
{
    match text {
        Some(text) => Cell::Text(text.clone()),
        None => Cell::Null,
    }
}

/// A part of the row of a request.
pub open spec fn row_part_1(entry: EntryView) -> Seq<CellView> {
    seq![
        CellView::Text(entry.request_id),
        CellView::Text(entry.session_id),
        CellView::Integer(held(entry.timestamp_ms)),
        CellView::Integer(held(entry.updated_ms)),
        count_cell(entry.ended_ms),
        text_cell(entry.requested_model),
        text_cell(entry.routed_model),
        text_cell(entry.project),
    ]
}

fn make_part_1(entry: &Entry) -> (r: Vec<Cell>)
    ensures
        cell_views(r@) == row_part_1(entry.deep_view()),
{
    let part: Vec<Cell> = vec![
        Cell::Text(entry.request_id.clone()),
        Cell::Text(entry.session_id.clone()),
        Cell::Integer(integer(entry.timestamp_ms)),
        Cell::Integer(integer(entry.updated_ms)),
        make_count(entry.ended_ms),
        make_text(&entry.requested_model),
        make_text(&entry.routed_model),
        make_text(&entry.project),
    ];
    proof {
        assert(cell_views(part@) =~= row_part_1(entry.deep_view()));
    }
    part
}

/// A part of the row of a request.
pub open spec fn row_part_2(entry: EntryView) -> Seq<CellView> {
    seq![
        CellView::Text(entry.path),
        CellView::Text(entry.method),
        CellView::Text(entry.transport),
        CellView::Text(entry.mode),
        CellView::Text(entry.state),
        match entry.status {
            Some(status) => CellView::Integer(status as i64),
            None => CellView::Null,
        },
        CellView::Integer(entry.retries as i64),
        count_cell(entry.input_tokens),
    ]
}

fn make_part_2(entry: &Entry) -> (r: Vec<Cell>)
    ensures
        cell_views(r@) == row_part_2(entry.deep_view()),
{
    let part: Vec<Cell> = vec![
        Cell::Text(entry.path.clone()),
        Cell::Text(entry.method.clone()),
        Cell::Text(entry.transport.clone()),
        Cell::Text(entry.mode.clone()),
        Cell::Text(entry.state.clone()),
        match entry.status {
            Some(status) => Cell::Integer(status as i64),
            None => Cell::Null,
        },
        Cell::Integer(entry.retries as i64),
        make_count(entry.input_tokens),
    ];
    proof {
        assert(cell_views(part@) =~= row_part_2(entry.deep_view()));
    }
    part
}

/// A part of the row of a request.
pub open spec fn row_part_3(entry: EntryView) -> Seq<CellView> {
    seq![
        count_cell(entry.output_tokens),
        count_cell(entry.cached_input_tokens),
        count_cell(entry.cache_write_tokens),
        count_cell(entry.reasoning_tokens),
        count_cell(entry.duration_ms),
        count_cell(entry.total_duration_ms),
        count_cell(entry.first_byte_ms),
        count_cell(entry.first_output_ms),
    ]
}

fn make_part_3(entry: &Entry) -> (r: Vec<Cell>)
    ensures
        cell_views(r@) == row_part_3(entry.deep_view()),
{
    let part: Vec<Cell> = vec![
        make_count(entry.output_tokens),
        make_count(entry.cached_input_tokens),
        make_count(entry.cache_write_tokens),
        make_count(entry.reasoning_tokens),
        make_count(entry.duration_ms),
        make_count(entry.total_duration_ms),
        make_count(entry.first_byte_ms),
        make_count(entry.first_output_ms),
    ];
    proof {
        assert(cell_views(part@) =~= row_part_3(entry.deep_view()));
    }
    part
}

/// A part of the row of a request.
pub open spec fn row_part_4(entry: EntryView, cost: Cost) -> Seq<CellView> {
    seq![
        CellView::Integer(held(entry.request_bytes)),
        CellView::Integer(held(entry.response_bytes)),
        text_cell(entry.error_code),
        match cost.nanos {
            Some(n) => CellView::Integer(n),
            None => CellView::Null,
        },
        CellView::Text(cost.version),
        text_cell(cost.model),
        CellView::Text(written(record_of(entry, cost))),
    ]
}

fn make_part_4(entry: &Entry, cost: &Price) -> (r: Vec<Cell>)
    ensures
        cell_views(r@) == row_part_4(entry.deep_view(), cost.deep_view()),
{
    let text = to_text(&record(entry, cost));
    let part: Vec<Cell> = vec![
        Cell::Integer(integer(entry.request_bytes)),
        Cell::Integer(integer(entry.response_bytes)),
        make_text(&entry.error_code),
        match cost.cost_nano_usd {
            Some(n) => Cell::Integer(n),
            None => Cell::Null,
        },
        Cell::Text(cost.price_version.clone()),
        make_text(&cost.price_model),
        Cell::Text(text),
    ];
    proof {
        assert(cell_views(part@) =~= row_part_4(entry.deep_view(), cost.deep_view()));
    }
    part
}

/// The row of a request.
pub open spec fn row_of(entry: EntryView, cost: Cost) -> Seq<CellView> {
    row_part_1(entry) + row_part_2(entry) + row_part_3(entry) + row_part_4(entry, cost)
}

/// The row of a request, priced by the built-in prices.
pub fn request_row(entry: &Entry) -> (r: Vec<Cell>)
    ensures
        cell_views(r@) == row_of(
            entry.deep_view(),
            priced(built_in(), entry.deep_view()),
        ),
{
    let cost = price(entry);
    let mut row = make_part_1(entry);
    let mut part = make_part_2(entry);
    let ghost one = cell_views(row@);
    let ghost two = cell_views(part@);
    row.append(&mut part);
    assert(cell_views(row@) =~= one + two);
    let mut part = make_part_3(entry);
    let ghost three = cell_views(part@);
    row.append(&mut part);
    assert(cell_views(row@) =~= one + two + three);
    let mut part = make_part_4(entry, &cost);
    let ghost four = cell_views(part@);
    row.append(&mut part);
    assert(cell_views(row@) =~= one + two + three + four);
    row
}

/// The row of an event.
pub open spec fn event_row_of(event: EventView, timestamp_ms: u64) -> Seq<CellView> {
    seq![
        CellView::Text(event.entry.request_id),
        CellView::Integer(held(timestamp_ms)),
        CellView::Text(event.kind),
        CellView::Text(written(event.details)),
    ]
}

/// The row of an event.
pub fn event_row(event: &Event, timestamp_ms: u64) -> (r: Vec<Cell>)
    ensures
        cell_views(r@) == event_row_of(event.deep_view(), timestamp_ms),
{
    let mut row: Vec<Cell> = Vec::new();
    row.push(Cell::Text(event.entry.request_id.clone()));
    row.push(Cell::Integer(integer(timestamp_ms)));
    row.push(Cell::Text(event.kind.clone()));
    row.push(Cell::Text(to_text(&event.details)));
    proof {
        assert(cell_views(row@) =~= event_row_of(event.deep_view(), timestamp_ms));
    }
    row
}

// ---- laws ------------------------------------------------------------------------------------

proof fn places_rise(batch: Seq<EventView>, from: int)
    requires
        0 <= from,
    ensures
        forall|k: int|
            0 <= k < last_places(batch, from).len() ==> from <= #[trigger] last_places(
                batch,
                from,
            )[k] < batch.len(),
    decreases batch.len() - from,
{
    if from < batch.len() {
        places_rise(batch, from + 1);
        let rest = last_places(batch, from + 1);
        assert forall|k: int| 0 <= k < last_places(batch, from).len() implies from
            <= #[trigger] last_places(batch, from)[k] < batch.len() by {
            if told_later(batch, batch[from].entry.request_id, from + 1) {
                assert(last_places(batch, from)[k] == rest[k]);
            } else if k > 0 {
                assert(last_places(batch, from)[k] == rest[k - 1]);
            }
        }
    }
}

proof fn later_place(batch: Seq<EventView>, request: Seq<char>, from: int, at: int)
    requires
        0 <= from <= at < batch.len(),
        batch[at].entry.request_id == request,
    ensures
        told_later(batch, request, from),
    decreases at - from,
{
    if from < at {
        later_place(batch, request, from + 1, at);
    }
}

/// Each snapshot that is written is the last one of its request in the batch.
pub proof fn last_snapshots_are_written(batch: Seq<EventView>, from: int, k: int, later: int)
    requires
        0 <= from,
        0 <= k < last_places(batch, from).len(),
        last_places(batch, from)[k] < later < batch.len(),
    ensures
        batch[later].entry.request_id != batch[last_places(batch, from)[k]].entry.request_id,
    decreases batch.len() - from,
{
    places_rise(batch, from);
    if told_later(batch, batch[from].entry.request_id, from + 1) {
        last_snapshots_are_written(batch, from + 1, k, later);
    } else if k > 0 {
        assert(last_places(batch, from)[k] == last_places(batch, from + 1)[k - 1]);
        last_snapshots_are_written(batch, from + 1, k - 1, later);
    } else if batch[later].entry.request_id == batch[from].entry.request_id {
        later_place(batch, batch[from].entry.request_id, from + 1, later);
    }
}

} // verus!

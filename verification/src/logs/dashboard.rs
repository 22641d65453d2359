//! What the dashboard shows: the requests of this machine and of others.

use vstd::prelude::*;
use crate::config::{host_name, Config, SshHost};
use crate::error::{ensure, ensured, outcome, Error};
use crate::gemini::parts::empty_object;
use crate::gemini::response::number;
use crate::logs::entry::{Entry, EntryView};
use crate::logs::store::{entry_views, RECENT_LIMIT};
use crate::ordering::{arrangement_is_unique, arranges, comes_before, key_views, sort_places};
use crate::overview::{mode_name, mode_text};
use crate::settings::{routing_config, routing_tree};
use crate::table::{entries, find, put, put_entry, put_keeps_others, put_then_find};
use crate::tree::{json_views, trees, Json, Tree};

verus! {

broadcast use json_views;

/// How many requests the dashboard shows of a machine.
pub const SHOWN_LIMIT: usize = 50000;

/// The spans that the dashboard offers, in minutes.
pub open spec fn offered_span(minutes: Option<u64>) -> bool {
    match minutes {
        None => true,
        Some(minutes) => minutes == 15 || minutes == 60 || minutes == 1440,
    }
}

/// Checks the span that is asked for.
pub fn check_minutes(minutes: Option<u64>) -> (r: Result<(), Error>)
    ensures
        outcome(r) == ensured(offered_span(minutes), "minutes must be 15, 60, or 1440"@),
{
    let offered = match minutes {
        None => true,
        Some(minutes) => minutes == 15 || minutes == 60 || minutes == 1440,
    };
    ensure(offered, "minutes must be 15, 60, or 1440")
}

/// The span of time that ends now: from the first millisecond to the one after the last.
pub open spec fn span_ending(now: u64, minutes: u64) -> (u64, u64) {
    let end = if now == u64::MAX {
        u64::MAX
    } else {
        (now + 1) as u64
    };
    let length = minutes * 60000;
    (
        if end >= length {
            (end - length) as u64
        } else {
            0
        },
        end,
    )
}

/// The span of time that ends now.
pub fn time_span(now: u64, minutes: u64) -> (r: (u64, u64))
    requires
        minutes <= 1440,
    ensures
        r == span_ending(now, minutes),
{
    let end: u64 = if now == u64::MAX {
        u64::MAX
    } else {
        now + 1
    };
    let length: u64 = minutes * 60000;
    if end >= length {
        (end - length, end)
    } else {
        (0, end)
    }
}

/// How long what was read from the database is shown again, in milliseconds.
pub const WINDOW_AGE_MS: u64 = 5000;

/// Whether a span that was read so long ago is shown again.
pub fn window_is_fresh(held: Option<u64>, asked: u64, age_ms: u64) -> (r: bool)
    ensures
        r == (held == Some(asked) && age_ms < WINDOW_AGE_MS),
{
    match held {
        Some(minutes) => minutes == asked && age_ms < WINDOW_AGE_MS,
        None => false,
    }
}

// ---- requests of this machine --------------------------------------------------------------------

/// A request as the dashboard shows it.
pub open spec fn shown_entry(entry: Tree, mode: Seq<char>) -> Tree {
    entry.with("machine"@, Tree::Text("local"@)).with("mode"@, Tree::Text(mode))
}

/// Requests as the dashboard shows them.
pub open spec fn shown_entries(live: Seq<EntryView>, mode: Seq<char>) -> Seq<Tree> {
    Seq::new(live.len(), |i: int| shown_entry(live[i].tree(), mode))
}

/// The recent requests as the dashboard shows them.
pub fn show_recent(recent: &Vec<Entry>, config: &Config) -> (r: Vec<Json>)
    ensures
        trees(r@) == shown_entries(entry_views(recent@), mode_name(config.mode)),
{
    let mode = mode_text(config.mode);
    let ghost whole = shown_entries(entry_views(recent@), mode@);
    let mut out: Vec<Json> = Vec::new();
    let mut i: usize = 0;
    while i < recent.len()
        invariant
            i <= recent.len(),
            whole == shown_entries(entry_views(recent@), mode@),
            trees(out@) == whole.subrange(0, i as int),
        decreases recent.len() - i,
    {
        let shown = recent[i].to_json().with("machine", Json::text("local")).with(
            "mode",
            Json::text(mode),
        );
        out.push(shown);
        proof {
            assert(whole.subrange(0, i + 1) =~= whole.subrange(0, i as int).push(whole[i as int]));
        }
        i += 1;
    }
    proof {
        assert(trees(out@) =~= whole);
    }
    out
}

/// What the recent requests cover.
pub open spec fn memory_coverage(count: nat) -> Tree {
    empty_object().with("source"@, Tree::Text("memory"@)).with(
        "limit"@,
        number(RECENT_LIMIT as u64),
    ).with("truncated"@, Tree::Bool(count >= RECENT_LIMIT))
}

/// What the recent requests cover.
pub fn cover_memory(count: usize) -> (r: Json)
    ensures
        r@ == memory_coverage(count as nat),
{
    Json::object().with("source", Json::text("memory")).with(
        "limit",
        Json::natural(RECENT_LIMIT as u64),
    ).with("truncated", Json::Bool(count >= RECENT_LIMIT))
}

/// The id of a request.
pub open spec fn id_of(entry: Tree) -> Seq<char> {
    match entry.at("request_id"@).text() {
        Some(id) => id,
        None => ""@,
    }
}

/// The time of a request.
pub open spec fn time_of(entry: Tree) -> u64 {
    match entry.at("timestamp_ms"@).natural() {
        Some(time) => time,
        None => 0,
    }
}

fn read_id<'a>(entry: &'a Json) -> (r: &'a str)
    ensures
        r@ == id_of(entry@),
{
    match entry.at("request_id").as_str() {
        Some(id) => id,
        None => "",
    }
}

fn read_time(entry: &Json) -> (r: u64)
    ensures
        r == time_of(entry@),
{
    match entry.at("timestamp_ms").as_u64() {
        Some(time) => time,
        None => 0,
    }
}

/// Requests by id: the later of two with the same id stands.
pub open spec fn by_id(list: Seq<Tree>, from: int, table: Seq<(Seq<char>, Tree)>) -> Seq<
    (Seq<char>, Tree),
>
    decreases list.len() - from,
{
    if from < 0 || from >= list.len() {
        table
    } else {
        by_id(list, from + 1, put(table, id_of(list[from]), list[from]))
    }
}

/// The requests of a table, as requests of this machine.
pub open spec fn as_local(table: Seq<(Seq<char>, Tree)>) -> Seq<Tree> {
    Seq::new(table.len(), |i: int| table[i].1.with("machine"@, Tree::Text("local"@)))
}

/// The requests that were recorded with the recent ones in their place: what is in memory
/// is newer than what was recorded.
pub open spec fn overlaid(recorded: Seq<Tree>, live: Seq<Tree>) -> Seq<Tree> {
    as_local(by_id(live, 0, by_id(recorded, 0, Seq::empty())))
}

fn collect_by_id(list: &Vec<Json>, table: &mut Vec<(String, Json)>)
    ensures
        entries(final(table)@) == by_id(trees(list@), 0, entries(old(table)@)),
{
    let ghost whole = by_id(trees(list@), 0, entries(old(table)@));
    let mut i: usize = 0;
    while i < list.len()
        invariant
            i <= list.len(),
            whole == by_id(trees(list@), i as int, entries(table@)),
        decreases list.len() - i,
    {
        let entry = list[i].copy();
        put_entry(table, read_id(&list[i]), entry);
        i += 1;
    }
}

/// Lays the recent requests over those that were recorded.
pub fn overlay(recorded: &Json, live: &Vec<Json>) -> (r: Vec<Json>)
    ensures
        trees(r@) == overlaid(
            match recorded@ {
                Tree::Array(items) => items,
                _ => Seq::empty(),
            },
            trees(live@),
        ),
{
    let mut table: Vec<(String, Json)> = Vec::new();
    proof {
        assert(entries(table@) =~= Seq::empty());
    }
    match recorded.as_array() {
        Some(items) => {
            collect_by_id(items, &mut table);
        },
        None => {},
    }
    collect_by_id(live, &mut table);
    let ghost whole = as_local(entries(table@));
    let mut out: Vec<Json> = Vec::new();
    let mut i: usize = 0;
    while i < table.len()
        invariant
            i <= table.len(),
            whole == as_local(entries(table@)),
            trees(out@) == whole.subrange(0, i as int),
        decreases table.len() - i,
    {
        out.push(table[i].1.copy().with("machine", Json::text("local")));
        proof {
            assert(whole.subrange(0, i + 1) =~= whole.subrange(0, i as int).push(whole[i as int]));
        }
        i += 1;
    }
    proof {
        assert(trees(out@) =~= whole);
    }
    out
}

/// Whether a request falls into a span.
pub open spec fn falls_into(entry: Tree, start: u64, end: u64) -> bool {
    entry.at("timestamp_ms"@).natural() matches Some(time) && start <= time && time < end
}

/// The requests from `from` on that fall into a span.
pub open spec fn spanned(list: Seq<Tree>, start: u64, end: u64, from: int, kept: Seq<Tree>) -> Seq<
    Tree,
>
    decreases list.len() - from,
{
    if from < 0 || from >= list.len() {
        kept
    } else {
        spanned(
            list,
            start,
            end,
            from + 1,
            if falls_into(list[from], start, end) {
                kept.push(list[from])
            } else {
                kept
            },
        )
    }
}

/// The keys by which requests are sorted.
pub open spec fn sort_keys(list: Seq<Tree>) -> Seq<(u64, Seq<char>)> {
    Seq::new(list.len(), |i: int| (time_of(list[i]), id_of(list[i])))
}

/// Requests in the order of places.
pub open spec fn placed(list: Seq<Tree>, places: Seq<usize>) -> Seq<Tree> {
    Seq::new(places.len(), |i: int| list[places[i] as int])
}

/// Requests, the newest first.
pub open spec fn newest_first(list: Seq<Tree>) -> Seq<Tree> {
    placed(list, choose|places: Seq<usize>| arranges(sort_keys(list), places))
}

/// What is shown of requests in a span, and whether there are more.
pub open spec fn windowed(list: Seq<Tree>, start: u64, end: u64) -> (Seq<Tree>, bool) {
    let all = newest_first(spanned(list, start, end, 0, Seq::empty()));
    if all.len() > SHOWN_LIMIT {
        (all.subrange(0, SHOWN_LIMIT as int), true)
    } else {
        (all, false)
    }
}

fn keep_spanned(list: &Vec<Json>, start: u64, end: u64) -> (r: Vec<Json>)
    ensures
        trees(r@) == spanned(trees(list@), start, end, 0, Seq::empty()),
{
    let mut kept: Vec<Json> = Vec::new();
    let mut i: usize = 0;
    while i < list.len()
        invariant
            i <= list.len(),
            spanned(trees(list@), start, end, 0, Seq::empty()) == spanned(
                trees(list@),
                start,
                end,
                i as int,
                trees(kept@),
            ),
        decreases list.len() - i,
    {
        let inside = match list[i].at("timestamp_ms").as_u64() {
            Some(time) => start <= time && time < end,
            None => false,
        };
        if inside {
            kept.push(list[i].copy());
        }
        i += 1;
    }
    kept
}

fn read_keys(list: &Vec<Json>) -> (r: Vec<(u64, String)>)
    ensures
        key_views(r@) == sort_keys(trees(list@)),
{
    let mut keys: Vec<(u64, String)> = Vec::new();
    let ghost whole = sort_keys(trees(list@));
    let mut i: usize = 0;
    while i < list.len()
        invariant
            i <= list.len(),
            whole == sort_keys(trees(list@)),
            key_views(keys@) == whole.subrange(0, i as int),
        decreases list.len() - i,
    {
        let ghost before = key_views(keys@);
        keys.push((read_time(&list[i]), read_id(&list[i]).to_string()));
        proof {
            assert(key_views(keys@) =~= before.push(whole[i as int]));
            assert(whole.subrange(0, i + 1) =~= before.push(whole[i as int]));
        }
        i += 1;
    }
    proof {
        assert(key_views(keys@) =~= whole);
    }
    keys
}

/// Sorts requests, the newest first.
pub fn sort_newest(list: &Vec<Json>) -> (r: Vec<Json>)
    ensures
        trees(r@) == newest_first(trees(list@)),
        forall|i: int, j: int|
            0 <= i < j < r@.len() ==> time_of(#[trigger] trees(r@)[i]) >= time_of(
                #[trigger] trees(r@)[j],
            ),
        forall|i: int|
            0 <= i < r@.len() ==> trees(list@).contains(#[trigger] trees(r@)[i]),
{
    let keys = read_keys(list);
    let places = sort_places(&keys);
    let ghost chosen = choose|places: Seq<usize>| arranges(sort_keys(trees(list@)), places);
    proof {
        assert(arranges(sort_keys(trees(list@)), places@));
        arrangement_is_unique(sort_keys(trees(list@)), places@, chosen);
    }
    let ghost whole = placed(trees(list@), places@);
    let mut out: Vec<Json> = Vec::new();
    let mut i: usize = 0;
    while i < places.len()
        invariant
            i <= places.len(),
            arranges(sort_keys(trees(list@)), places@),
            whole == placed(trees(list@), places@),
            trees(out@) == whole.subrange(0, i as int),
        decreases places.len() - i,
    {
        proof {
            assert(0 <= places@[i as int] < sort_keys(trees(list@)).len());
        }
        out.push(list[places[i]].copy());
        proof {
            assert(whole.subrange(0, i + 1) =~= whole.subrange(0, i as int).push(whole[i as int]));
        }
        i += 1;
    }
    proof {
        assert(trees(out@) =~= whole);
        let shown = sort_keys(trees(list@));
        assert forall|i: int, j: int| 0 <= i < j < out@.len() implies time_of(
            #[trigger] trees(out@)[i],
        ) >= time_of(#[trigger] trees(out@)[j]) by {
            assert(comes_before(shown, places@[i] as int, places@[j] as int));
        }
        assert forall|i: int| 0 <= i < out@.len() implies trees(list@).contains(
            #[trigger] trees(out@)[i],
        ) by {
            assert(trees(out@)[i] == trees(list@)[places@[i] as int]);
        }
    }
    out
}

/// The requests that fall into a span, the newest first and no more than the limit, and
/// whether there are more.
pub fn window(list: &Vec<Json>, start: u64, end: u64) -> (r: (Vec<Json>, bool))
    ensures
        (trees(r.0@), r.1) == windowed(trees(list@), start, end),
        r.0@.len() <= SHOWN_LIMIT,
        forall|i: int| 0 <= i < r.0@.len() ==> falls_into(#[trigger] trees(r.0@)[i], start, end),
        forall|i: int, j: int|
            0 <= i < j < r.0@.len() ==> time_of(#[trigger] trees(r.0@)[i]) >= time_of(
                #[trigger] trees(r.0@)[j],
            ),
{
    let kept = keep_spanned(list, start, end);
    proof {
        spans_keep_inside(trees(list@), start, end, 0, Seq::empty());
    }
    let mut sorted = sort_newest(&kept);
    if sorted.len() > SHOWN_LIMIT {
        let ghost all = trees(sorted@);
        sorted.truncate(SHOWN_LIMIT);
        proof {
            assert(trees(sorted@) =~= all.subrange(0, SHOWN_LIMIT as int));
        }
        (sorted, true)
    } else {
        (sorted, false)
    }
}

/// What the dashboard shows of this machine: the requests and what they cover.
pub open spec fn local_view(
    recent: Seq<EntryView>,
    mode: Seq<char>,
    recorded: Option<Tree>,
    minutes: Option<u64>,
    now: u64,
) -> (Seq<Tree>, Tree) {
    let live = shown_entries(recent, mode);
    let (list, coverage) = match (minutes, recorded) {
        (Some(_), Some(recorded)) => (
            overlaid(
                match recorded.at("entries"@) {
                    Tree::Array(items) => items,
                    _ => Seq::empty(),
                },
                live,
            ),
            recorded.at("coverage"@),
        ),
        _ => (live, memory_coverage(recent.len())),
    };
    match minutes {
        Some(minutes) => {
            let (start, end) = span_ending(now, minutes);
            let (shown, more) = windowed(list, start, end);
            (
                shown,
                if more {
                    coverage.with("truncated"@, Tree::Bool(true))
                } else {
                    coverage
                },
            )
        },
        None => (list, coverage),
    }
}

/// What the dashboard shows of this machine, given what was read from the database for the
/// span where there is one.
pub fn view_local(
    recent: &Vec<Entry>,
    config: &Config,
    recorded: Option<&Json>,
    minutes: Option<u64>,
    now: u64,
) -> (r: (Vec<Json>, Json))
    requires
        offered_span(minutes),
    ensures
        (trees(r.0@), r.1@) == local_view(
            entry_views(recent@),
            mode_name(config.mode),
            match recorded {
                Some(value) => Some(value@),
                None => None,
            },
            minutes,
            now,
        ),
{
    let live = show_recent(recent, config);
    let mut coverage = cover_memory(recent.len());
    let mut list = live;
    match (minutes, recorded) {
        (Some(_), Some(recorded)) => {
            coverage = recorded.at("coverage").copy();
            list = overlay(recorded.at("entries"), &list);
        },
        _ => {},
    }
    match minutes {
        Some(minutes) => {
            let (start, end) = time_span(now, minutes);
            let (shown, more) = window(&list, start, end);
            if more {
                coverage.set("truncated", Json::Bool(true));
            }
            (shown, coverage)
        },
        None => (list, coverage),
    }
}

// ---- machines --------------------------------------------------------------------------------------

/// This machine as the dashboard shows it.
pub open spec fn local_machine_tree(config: Config, coverage: Tree) -> Tree {
    empty_object().with("name"@, Tree::Text("local"@)).with("status"@, Tree::Text("live"@)).with(
        "mode"@,
        Tree::Text(mode_name(config.mode)),
    ).with("routing"@, routing_tree(config)).with("coverage"@, coverage)
}

/// This machine as the dashboard shows it.
pub fn local_machine(config: &Config, coverage: Json) -> (r: Json)
    ensures
        r@ == local_machine_tree(*config, coverage@),
{
    Json::object().with("name", Json::text("local")).with("status", Json::text("live")).with(
        "mode",
        Json::text(mode_text(config.mode)),
    ).with("routing", routing_config(config)).with("coverage", coverage)
}

/// A member of a reply, or null.
pub open spec fn member(reply: Option<Tree>, key: Seq<char>) -> Tree {
    match reply {
        Some(value) => value.at(key),
        None => Tree::Null,
    }
}

/// Whether a machine answered.
pub open spec fn answered(reply: Option<Tree>) -> bool {
    member(reply, "entries"@) is Array
}

/// Another machine as the dashboard shows it.
pub open spec fn remote_machine_tree(host: Seq<char>, reply: Option<Tree>) -> Tree {
    empty_object().with("name"@, Tree::Text(host)).with(
        "status"@,
        Tree::Text(
            if answered(reply) {
                "live"@
            } else {
                "unavailable"@
            },
        ),
    ).with("mode"@, member(reply, "mode"@)).with("routing"@, member(reply, "routing"@)).with(
        "coverage"@,
        member(reply, "coverage"@),
    )
}

/// The requests of another machine as the dashboard shows them.
pub open spec fn remote_entries(host: Seq<char>, reply: Option<Tree>) -> Seq<Tree> {
    match member(reply, "entries"@) {
        Tree::Array(items) => Seq::new(
            items.len(),
            |i: int|
                items[i].with("machine"@, Tree::Text(host)).with("mode"@, member(reply, "mode"@)),
        ),
        _ => Seq::empty(),
    }
}

fn read_member<'a>(reply: &'a Option<Json>, key: &str) -> (r: &'a Json)
    ensures
        r@ == member(reply.deep_view(), key@),
{
    match reply {
        Some(value) => value.at(key),
        None => &Json::Null,
    }
}

/// Another machine and its requests, from its reply or none.
pub fn view_remote(host: &str, reply: &Option<Json>) -> (r: (Json, Vec<Json>))
    ensures
        r.0@ == remote_machine_tree(host@, reply.deep_view()),
        trees(r.1@) == remote_entries(host@, reply.deep_view()),
{
    let mode = read_member(reply, "mode");
    let list = read_member(reply, "entries");
    let status = if list.is_array() {
        "live"
    } else {
        "unavailable"
    };
    let machine = Json::object().with("name", Json::text(host)).with(
        "status",
        Json::text(status),
    ).with("mode", mode.copy()).with("routing", read_member(reply, "routing").copy()).with(
        "coverage",
        read_member(reply, "coverage").copy(),
    );
    let mut out: Vec<Json> = Vec::new();
    match list.as_array() {
        Some(items) => {
            let ghost whole = remote_entries(host@, reply.deep_view());
            let mut i: usize = 0;
            while i < items.len()
                invariant
                    i <= items.len(),
                    mode@ == member(reply.deep_view(), "mode"@),
                    list@ == Tree::Array(trees(items@)),
                    list@ == member(reply.deep_view(), "entries"@),
                    whole == remote_entries(host@, reply.deep_view()),
                    trees(out@) == whole.subrange(0, i as int),
                decreases items.len() - i,
            {
                out.push(
                    items[i].copy().with("machine", Json::text(host)).with("mode", mode.copy()),
                );
                proof {
                    assert(whole.subrange(0, i + 1) =~= whole.subrange(0, i as int).push(
                        whole[i as int],
                    ));
                }
                i += 1;
            }
            proof {
                assert(trees(out@) =~= whole);
            }
        },
        None => {},
    }
    (machine, out)
}

/// The machine of a name among those that were asked, from `from` on.
pub open spec fn machine_named(machines: Seq<Tree>, host: Seq<char>, from: int) -> Tree
    decreases machines.len() - from,
{
    if from < 0 || from >= machines.len() {
        empty_object().with("name"@, Tree::Text(host)).with("status"@, Tree::Text("connecting"@))
    } else if machines[from].at("name"@) == Tree::Text(host) {
        machines[from]
    } else {
        machine_named(machines, host, from + 1)
    }
}

/// The names of SSH hosts.
pub open spec fn host_names(hosts: Seq<SshHost>) -> Seq<Seq<char>> {
    Seq::new(hosts.len(), |i: int| host_name(hosts[i]))
}

/// The machines of hosts, as far as they were asked.
pub open spec fn machines_shown(hosts: Seq<Seq<char>>, machines: Seq<Tree>) -> Seq<Tree> {
    Seq::new(hosts.len(), |i: int| machine_named(machines, hosts[i], 0))
}

/// Whether a request belongs to one of the hosts from `from` on.
pub open spec fn of_hosts(entry: Tree, hosts: Seq<Seq<char>>, from: int) -> bool
    decreases hosts.len() - from,
{
    0 <= from < hosts.len() && (entry.at("machine"@) == Tree::Text(hosts[from]) || of_hosts(
        entry,
        hosts,
        from + 1,
    ))
}

/// The requests from `from` on that belong to a host that is still configured.
pub open spec fn entries_shown(list: Seq<Tree>, hosts: Seq<Seq<char>>, from: int, kept: Seq<Tree>) -> Seq<
    Tree,
>
    decreases list.len() - from,
{
    if from < 0 || from >= list.len() {
        kept
    } else {
        entries_shown(
            list,
            hosts,
            from + 1,
            if of_hosts(list[from], hosts, 0) {
                kept.push(list[from])
            } else {
                kept
            },
        )
    }
}

fn find_machine(machines: &Vec<Json>, host: &str) -> (r: Json)
    ensures
        r@ == machine_named(trees(machines@), host@, 0),
{
    let mut i: usize = 0;
    while i < machines.len()
        invariant
            i <= machines.len(),
            machine_named(trees(machines@), host@, 0) == machine_named(
                trees(machines@),
                host@,
                i as int,
            ),
        decreases machines.len() - i,
    {
        if machines[i].at("name").is(host) {
            return machines[i].copy();
        }
        i += 1;
    }
    Json::object().with("name", Json::text(host)).with("status", Json::text("connecting"))
}

/// The machines of the configured hosts, as far as they were asked.
pub fn show_machines(hosts: &Vec<SshHost>, machines: &Vec<Json>) -> (r: Vec<Json>)
    ensures
        trees(r@) == machines_shown(host_names(hosts@), trees(machines@)),
{
    let mut out: Vec<Json> = Vec::new();
    let ghost whole = machines_shown(host_names(hosts@), trees(machines@));
    let mut i: usize = 0;
    while i < hosts.len()
        invariant
            i <= hosts.len(),
            whole == machines_shown(host_names(hosts@), trees(machines@)),
            trees(out@) == whole.subrange(0, i as int),
        decreases hosts.len() - i,
    {
        out.push(find_machine(machines, hosts[i].host()));
        proof {
            assert(whole.subrange(0, i + 1) =~= whole.subrange(0, i as int).push(whole[i as int]));
        }
        i += 1;
    }
    proof {
        assert(trees(out@) =~= whole);
    }
    out
}

fn belongs(entry: &Json, hosts: &Vec<SshHost>) -> (r: bool)
    ensures
        r == of_hosts(entry@, host_names(hosts@), 0),
{
    let mut i: usize = 0;
    while i < hosts.len()
        invariant
            i <= hosts.len(),
            of_hosts(entry@, host_names(hosts@), 0) == of_hosts(
                entry@,
                host_names(hosts@),
                i as int,
            ),
        decreases hosts.len() - i,
    {
        if entry.at("machine").is(hosts[i].host()) {
            return true;
        }
        i += 1;
    }
    false
}

/// The requests of the hosts that are still configured.
pub fn show_entries(list: &Vec<Json>, hosts: &Vec<SshHost>) -> (r: Vec<Json>)
    ensures
        trees(r@) == entries_shown(trees(list@), host_names(hosts@), 0, Seq::empty()),
{
    let mut kept: Vec<Json> = Vec::new();
    let mut i: usize = 0;
    while i < list.len()
        invariant
            i <= list.len(),
            entries_shown(trees(list@), host_names(hosts@), 0, Seq::empty()) == entries_shown(
                trees(list@),
                host_names(hosts@),
                i as int,
                trees(kept@),
            ),
        decreases list.len() - i,
    {
        if belongs(&list[i], hosts) {
            kept.push(list[i].copy());
        }
        i += 1;
    }
    kept
}

/// How long the replies of other machines are shown before they are asked again, in
/// milliseconds.
pub const REMOTE_AGE_MS: u64 = 10000;

/// Whether to ask the other machines: not while they are being asked, and not too often.
pub fn asks_remotes(fetching: bool, age_ms: Option<u64>) -> (r: bool)
    ensures
        r == (!fetching && (match age_ms {
            Some(age) => age >= REMOTE_AGE_MS,
            None => true,
        })),
{
    !fetching && (match age_ms {
        Some(age) => age >= REMOTE_AGE_MS,
        None => true,
    })
}

/// The page of the dashboard.
pub open spec fn page_tree(list: Seq<Tree>, machines: Seq<Tree>, logging: Tree) -> Tree {
    empty_object().with("entries"@, Tree::Array(list)).with(
        "machines"@,
        Tree::Array(machines),
    ).with("limit"@, number(RECENT_LIMIT as u64)).with("logging"@, logging)
}

/// The page of the dashboard.
pub fn page(list: Vec<Json>, machines: Vec<Json>, logging: Json) -> (r: Json)
    ensures
        r@ == page_tree(trees(list@), trees(machines@), logging@),
{
    Json::object().with("entries", Json::Array(list)).with(
        "machines",
        Json::Array(machines),
    ).with("limit", Json::natural(RECENT_LIMIT as u64)).with("logging", logging)
}

// ---- laws --------------------------------------------------------------------------------------------

proof fn spans_keep_inside(list: Seq<Tree>, start: u64, end: u64, from: int, kept: Seq<Tree>)
    requires
        forall|i: int| 0 <= i < kept.len() ==> falls_into(#[trigger] kept[i], start, end),
        0 <= from,
    ensures
        forall|i: int|
            0 <= i < spanned(list, start, end, from, kept).len() ==> falls_into(
                #[trigger] spanned(list, start, end, from, kept)[i],
                start,
                end,
            ),
    decreases list.len() - from,
{
    if from < list.len() {
        let next = if falls_into(list[from], start, end) {
            kept.push(list[from])
        } else {
            kept
        };
        assert forall|i: int| 0 <= i < next.len() implies falls_into(#[trigger] next[i], start, end) by {
            if i < kept.len() {
                assert(next[i] == kept[i]);
            }
        }
        spans_keep_inside(list, start, end, from + 1, next);
        assert(spanned(list, start, end, from, kept) == spanned(list, start, end, from + 1, next));
    }
}

proof fn found_stays(list: Seq<Tree>, from: int, table: Seq<(Seq<char>, Tree)>, id: Seq<char>)
    requires
        0 <= from,
        forall|k: int| from <= k < list.len() ==> id_of(#[trigger] list[k]) != id,
    ensures
        find(by_id(list, from, table), id) == find(table, id),
    decreases list.len() - from,
{
    if from < list.len() {
        put_keeps_others(table, id_of(list[from]), list[from], id);
        found_stays(list, from + 1, put(table, id_of(list[from]), list[from]), id);
    }
}

proof fn last_is_found(list: Seq<Tree>, from: int, table: Seq<(Seq<char>, Tree)>, i: int)
    requires
        0 <= from <= i < list.len(),
        forall|k: int| i < k < list.len() ==> id_of(#[trigger] list[k]) != id_of(list[i]),
    ensures
        find(by_id(list, from, table), id_of(list[i])) == Some(list[i]),
    decreases list.len() - from,
{
    let next = put(table, id_of(list[from]), list[from]);
    if from < i {
        last_is_found(list, from + 1, next, i);
    } else {
        put_then_find(table, id_of(list[from]), list[from]);
        found_stays(list, from + 1, next, id_of(list[i]));
    }
}

/// What is in memory stands before what was recorded, and what was recorded of a request
/// that is no longer in memory stays.
pub proof fn memory_overlays_the_record(recorded: Seq<Tree>, live: Seq<Tree>, i: int, id: Seq<char>)
    requires
        0 <= i < live.len(),
        forall|k: int| i < k < live.len() ==> id_of(#[trigger] live[k]) != id_of(live[i]),
        forall|k: int| 0 <= k < live.len() ==> id_of(#[trigger] live[k]) != id,
    ensures
        ({
            let table = by_id(recorded, 0, Seq::empty());
            &&& find(by_id(live, 0, table), id_of(live[i])) == Some(live[i])
            &&& find(by_id(live, 0, table), id) == find(table, id)
        }),
{
    let table = by_id(recorded, 0, Seq::empty());
    last_is_found(live, 0, table, i);
    found_stays(live, 0, table, id);
}

} // verus!

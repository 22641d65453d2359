//! What is seen of a response, put on record.

use vstd::prelude::*;
use crate::gemini::parts::empty_object;
use crate::logs::entry::EntryView;
use crate::logs::store::{
    changed, event_views, notable, with_response, with_usage, Change, Event, EventView, History,
    Store,
};
use crate::logs::usage::{sight_of, sights, Seen, Sight};
use crate::tree::{json_views, Json, Tree};

verus! {

broadcast use json_views;

/// Events with another, where there is one.
pub open spec fn with_event(events: Seq<EventView>, event: Option<EventView>) -> Seq<EventView> {
    match event {
        Some(event) => events.push(event),
        None => events,
    }
}

fn add_event(events: &mut Vec<Event>, event: Option<Event>)
    ensures
        event_views(final(events)@) == with_event(event_views(old(events)@), event.deep_view()),
{
    match event {
        Some(event) => {
            let ghost before = event_views(events@);
            let ghost made = event.deep_view();
            events.push(event);
            proof {
                assert(event_views(events@) =~= before.push(made));
            }
        },
        None => {},
    }
}

impl History {
    /// The history with what a value tells: its usage, and how the response ends.
    pub open spec fn observed(self, id: u64, value: Tree, now: u64, events: Seq<EventView>) -> (
        History,
        Seq<EventView>,
    ) {
        let (middle, usage) = self.revised(
            id,
            |entry: EntryView| with_usage(entry, value),
            "usage"@,
            empty_object(),
            now,
        );
        let (end, told) = middle.revised(
            id,
            |entry: EntryView|
                if notable(value) {
                    Some(with_response(entry, value))
                } else {
                    None
                },
            "response_event"@,
            empty_object().with("type"@, Tree::Text(crate::capacity::text_at(value, "type"@))),
            now,
        );
        (end, with_event(with_event(events, usage), told))
    }

    /// The history with something that was seen.
    pub open spec fn noted(self, id: u64, sight: Sight, elapsed: u64, now: u64, events: Seq<EventView>) -> (
        History,
        Seq<EventView>,
    ) {
        match sight {
            Sight::Done => self.observed(
                id,
                empty_object().with("type"@, Tree::Text("proxy.stream.done"@)),
                now,
                events,
            ),
            Sight::Value(value, first) => if first {
                let (begun, event) = self.revised(
                    id,
                    |entry: EntryView| changed(entry, Change::FirstOutput(elapsed)),
                    "first_output"@,
                    empty_object(),
                    now,
                );
                begun.observed(id, value, now, with_event(events, event))
            } else {
                self.observed(id, value, now, events)
            },
        }
    }

    /// The history with what was seen from `from` on.
    pub open spec fn noted_all(
        self,
        id: u64,
        seen: Seq<Sight>,
        from: int,
        elapsed: u64,
        now: u64,
        events: Seq<EventView>,
    ) -> (History, Seq<EventView>)
        decreases seen.len() - from,
    {
        if from < 0 || from >= seen.len() {
            (self, events)
        } else {
            let (next, more) = self.noted(id, seen[from], elapsed, now, events);
            next.noted_all(id, seen, from + 1, elapsed, now, more)
        }
    }
}

fn observe(store: &mut Store, id: u64, value: &Json, now: u64, events: &mut Vec<Event>)
    ensures
        (final(store)@, event_views(final(events)@)) == old(store)@.observed(
            id,
            value@,
            now,
            event_views(old(events)@),
        ),
{
    let (usage, told) = store.observe(id, value, now);
    add_event(events, usage);
    add_event(events, told);
}

/// Puts on record what was seen of a response, and gives what is to be kept of it.
pub fn note(store: &mut Store, id: u64, seen: &Vec<Seen>, elapsed: u64, now: u64) -> (r: Vec<Event>)
    ensures
        (final(store)@, event_views(r@)) == old(store)@.noted_all(
            id,
            sights(seen@),
            0,
            elapsed,
            now,
            Seq::empty(),
        ),
{
    let ghost whole = store@.noted_all(id, sights(seen@), 0, elapsed, now, Seq::empty());
    let mut events: Vec<Event> = Vec::new();
    let mut i: usize = 0;
    proof {
        assert(event_views(events@) =~= Seq::empty());
    }
    while i < seen.len()
        invariant
            i <= seen.len(),
            whole == old(store)@.noted_all(id, sights(seen@), 0, elapsed, now, Seq::empty()),
            whole == store@.noted_all(
                id,
                sights(seen@),
                i as int,
                elapsed,
                now,
                event_views(events@),
            ),
        decreases seen.len() - i,
    {
        proof {
            assert(sights(seen@)[i as int] == sight_of(seen@[i as int]));
        }
        match &seen[i] {
            Seen::Done => {
                let value = Json::object().with("type", Json::text("proxy.stream.done"));
                observe(store, id, &value, now, &mut events);
            },
            Seen::Value(value, first) => {
                if *first {
                    let event = store.first_output(id, elapsed, now);
                    add_event(&mut events, event);
                }
                observe(store, id, value, now, &mut events);
            },
        }
        i += 1;
    }
    events
}

} // verus!

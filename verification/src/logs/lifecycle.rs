//! How a request ends, whichever part of the proxy notices first.

use vstd::prelude::*;
use crate::gemini::error::{optional_text, text_or_null};
use crate::gemini::parts::empty_object;
use crate::gemini::response::number;
use crate::logs::entry::{optional_status, status_or_null, EntryView};
use crate::logs::store::{changed, Change, Event, Store};
use crate::tree::{json_views, Json, Tree};

verus! {

broadcast use json_views;

/// An ending of a request.
#[derive(Clone, Copy, Debug, PartialEq, Eq, Structural)]
pub enum Ending {
    /// The body was delivered, as a stream of events or not.
    Delivered { sse: bool },
    /// The upstream broke off.
    Interrupted,
    /// The client went away.
    Disconnected,
    /// An event of the response told it.
    Told { completed: bool },
}

impl Ending {
    /// Whether the request succeeded, failed or was cancelled.
    pub open spec fn outcome_of(self) -> Seq<char> {
        match self {
            Ending::Delivered { .. } => "succeeded"@,
            Ending::Interrupted => "failed"@,
            Ending::Disconnected => "cancelled"@,
            Ending::Told { completed } => if completed {
                "succeeded"@
            } else {
                "failed"@
            },
        }
    }

    /// What noticed the ending.
    pub open spec fn source_of(self) -> Seq<char> {
        match self {
            Ending::Delivered { sse } => if sse {
                "stream_end"@
            } else {
                "http"@
            },
            Ending::Interrupted => "transport"@,
            Ending::Disconnected => "client_disconnect"@,
            Ending::Told { .. } => "responses_event"@,
        }
    }

    /// The code of the error, where the ending has one of its own.
    pub open spec fn code_of(self) -> Option<Seq<char>> {
        match self {
            Ending::Interrupted => Some("upstream_stream_error"@),
            Ending::Disconnected => Some("client_disconnected"@),
            _ => None,
        }
    }

    pub fn outcome(&self) -> (r: &'static str)
        ensures
            r@ == self.outcome_of(),
    {
        match self {
            Ending::Delivered { .. } => "succeeded",
            Ending::Interrupted => "failed",
            Ending::Disconnected => "cancelled",
            Ending::Told { completed } => if *completed {
                "succeeded"
            } else {
                "failed"
            },
        }
    }

    pub fn source(&self) -> (r: &'static str)
        ensures
            r@ == self.source_of(),
    {
        match self {
            Ending::Delivered { sse } => if *sse {
                "stream_end"
            } else {
                "http"
            },
            Ending::Interrupted => "transport",
            Ending::Disconnected => "client_disconnect",
            Ending::Told { .. } => "responses_event",
        }
    }

    pub fn code(&self) -> (r: Option<&'static str>)
        ensures
            r.deep_view() == self.code_of(),
    {
        match self {
            Ending::Interrupted => Some("upstream_stream_error"),
            Ending::Disconnected => Some("client_disconnected"),
            _ => None,
        }
    }
}

/// Watches over a request until it ends.
#[derive(Clone, Copy, Debug, PartialEq, Eq, Structural)]
pub struct RequestGuard {
    pub id: u64,
    pub bytes: u64,
    pub done: bool,
}

/// A count with more added, up to the largest number.
pub open spec fn counted(bytes: u64, more: nat) -> u64 {
    if bytes + more > u64::MAX {
        u64::MAX
    } else {
        (bytes + more) as u64
    }
}

impl RequestGuard {
    /// Watches over a request.
    pub fn new(id: u64) -> (r: RequestGuard)
        ensures
            r == (RequestGuard { id, bytes: 0, done: false }),
    {
        RequestGuard { id, bytes: 0, done: false }
    }

    /// The request that is watched over.
    pub fn id(&self) -> (r: u64)
        ensures
            r == self.id,
    {
        self.id
    }

    /// The request ended: whether this is the ending to record, which the first is.
    pub fn finish(&mut self) -> (r: bool)
        ensures
            r == !old(self).done,
            *final(self) == (RequestGuard { done: true, ..*old(self) }),
    {
        let first = !self.done;
        self.done = true;
        first
    }

    /// More of the response passed: whether these are its first bytes.
    pub fn add_bytes(&mut self, bytes: usize) -> (r: bool)
        ensures
            r == (old(self).bytes == 0 && bytes > 0),
            *final(self) == (RequestGuard {
                bytes: counted(old(self).bytes, bytes as nat),
                ..*old(self)
            }),
    {
        let first = self.bytes == 0 && bytes > 0;
        let more: u64 = bytes as u64;
        self.bytes = if more > u64::MAX - self.bytes {
            u64::MAX
        } else {
            self.bytes + more
        };
        first
    }
}

/// The body of a response on its way to the client.
#[derive(Clone, Copy, Debug, PartialEq, Eq, Structural)]
pub struct TrackedBody {
    pub guard: RequestGuard,
    pub expected_length: Option<u64>,
    pub is_sse: bool,
}

/// What a frame of a body means for the record.
#[derive(Clone, Copy, Debug, PartialEq, Eq, Structural)]
pub struct Progress {
    /// The first bytes passed.
    pub first_byte: bool,
    /// The request ended.
    pub ending: Option<Ending>,
}

impl TrackedBody {
    /// The body with its request ended, and the ending where it is the first.
    pub open spec fn ended(self, ending: Ending) -> (TrackedBody, Option<Ending>) {
        (
            TrackedBody { guard: RequestGuard { done: true, ..self.guard }, ..self },
            if self.guard.done {
                None
            } else {
                Some(ending)
            },
        )
    }

    /// The body after a frame with so many bytes.
    pub open spec fn passed(self, bytes: nat, at_end: bool) -> (TrackedBody, Progress) {
        let more = TrackedBody {
            guard: RequestGuard { bytes: counted(self.guard.bytes, bytes), ..self.guard },
            ..self
        };
        let first_byte = self.guard.bytes == 0 && bytes > 0;
        if at_end || (self.expected_length matches Some(length) && more.guard.bytes >= length) {
            let (after, ending) = more.ended(Ending::Delivered { sse: self.is_sse });
            (after, Progress { first_byte, ending })
        } else {
            (more, Progress { first_byte, ending: None })
        }
    }

    fn close(&mut self, ending: Ending) -> (r: Option<Ending>)
        ensures
            (*final(self), r) == old(self).ended(ending),
    {
        if self.guard.finish() {
            Some(ending)
        } else {
            None
        }
    }

    /// A body of a response, which may have ended already.
    pub fn wrap(guard: RequestGuard, expected_length: Option<u64>, is_sse: bool, at_end: bool) -> (r: (
        TrackedBody,
        Option<Ending>,
    ))
        ensures
            ({
                let body = TrackedBody { guard, expected_length, is_sse };
                r == if at_end {
                    body.ended(Ending::Delivered { sse: is_sse })
                } else {
                    (body, None)
                }
            }),
    {
        let mut body = TrackedBody { guard, expected_length, is_sse };
        if at_end {
            let ending = body.close(Ending::Delivered { sse: is_sse });
            (body, ending)
        } else {
            (body, None)
        }
    }

    /// A frame passed, with this many bytes of data; the body ended with it, or not.
    pub fn frame(&mut self, bytes: usize, at_end: bool) -> (r: Progress)
        ensures
            (*final(self), r) == old(self).passed(bytes as nat, at_end),
    {
        let first_byte = self.guard.add_bytes(bytes);
        let whole = match self.expected_length {
            Some(length) => self.guard.bytes >= length,
            None => false,
        };
        if at_end || whole {
            let ending = self.close(Ending::Delivered { sse: self.is_sse });
            Progress { first_byte, ending }
        } else {
            Progress { first_byte, ending: None }
        }
    }

    /// The body ended.
    pub fn end(&mut self) -> (r: Option<Ending>)
        ensures
            (*final(self), r) == old(self).ended(Ending::Delivered { sse: old(self).is_sse }),
    {
        let sse = self.is_sse;
        self.close(Ending::Delivered { sse })
    }

    /// The upstream broke off.
    pub fn broken(&mut self) -> (r: Option<Ending>)
        ensures
            (*final(self), r) == old(self).ended(Ending::Interrupted),
    {
        self.close(Ending::Interrupted)
    }

    /// Nobody reads the body any more.
    pub fn dropped(&mut self) -> (r: Option<Ending>)
        ensures
            (*final(self), r) == old(self).ended(Ending::Disconnected),
    {
        self.close(Ending::Disconnected)
    }
}

// ---- attempts --------------------------------------------------------------------------------

/// An attempt on an upstream.
#[derive(Clone, Copy, Debug, PartialEq, Eq, Structural)]
pub struct Attempt {
    pub id: u64,
    pub number: u32,
    pub finished: bool,
}

/// The details of a new attempt.
pub open spec fn start_details(phase: Seq<char>, now: u64) -> Tree {
    empty_object().with("phase"@, Tree::Text(phase)).with("started_ms"@, number(now))
}

/// The details of an attempt that is over.
pub open spec fn end_details(
    attempt: u32,
    outcome: Seq<char>,
    status: Option<u16>,
    code: Option<Seq<char>>,
    elapsed: u64,
) -> Tree {
    empty_object().with("attempt"@, number(attempt as u64)).with(
        "outcome"@,
        Tree::Text(outcome),
    ).with("status"@, status_or_null(status)).with("error_code"@, text_or_null(code)).with(
        "duration_ms"@,
        number(elapsed),
    )
}

impl Attempt {
    /// Records a new attempt, and numbers it.
    pub fn new(store: &mut Store, id: u64, phase: &str, now: u64) -> (r: (Attempt, Option<Event>))
        ensures
            ({
                let (after, event) = old(store)@.revised(
                    id,
                    |entry: EntryView| changed(entry, Change::Attempt),
                    "attempt_started"@,
                    start_details(phase@, now),
                    now,
                );
                &&& final(store)@ == after
                &&& r.1.deep_view() == event
                &&& r.0 == (Attempt {
                    id,
                    number: match event {
                        Some(event) => event.entry.attempts,
                        None => 0,
                    },
                    finished: false,
                })
            }),
    {
        let details = Json::object().with("phase", Json::text(phase)).with(
            "started_ms",
            Json::natural(now),
        );
        let event = store.update(id, "attempt_started", details, Change::Attempt, now);
        let number: u32 = match &event {
            Some(event) => event.entry.attempts,
            None => 0,
        };
        (Attempt { id, number, finished: false }, event)
    }

    /// Records how the attempt ended, once.
    pub fn finish(
        &mut self,
        store: &mut Store,
        outcome: &str,
        status: Option<u16>,
        code: Option<&str>,
        elapsed: u64,
        now: u64,
    ) -> (r: Option<Event>)
        ensures
            *final(self) == (Attempt { finished: true, ..*old(self) }),
            if old(self).finished {
                final(store)@ == old(store)@ && r is None
            } else {
                (final(store)@, r.deep_view()) == old(store)@.revised(
                    old(self).id,
                    |entry: EntryView| changed(entry, Change::Note),
                    "attempt_finished"@,
                    end_details(old(self).number, outcome@, status, code.deep_view(), elapsed),
                    now,
                )
            },
    {
        if self.finished {
            return None;
        }
        self.finished = true;
        let details = Json::object().with("attempt", Json::natural(self.number as u64)).with(
            "outcome",
            Json::text(outcome),
        ).with("status", optional_status(status)).with("error_code", optional_text(code)).with(
            "duration_ms",
            Json::natural(elapsed),
        );
        store.update(self.id, "attempt_finished", details, Change::Note, now)
    }
}

// ---- laws ------------------------------------------------------------------------------------

/// A request ends once: whatever happens to its body after an ending, no other is recorded.
pub proof fn requests_end_once(body: TrackedBody, first: Ending, bytes: nat, at_end: bool, later: Ending)
    ensures
        ({
            let after = body.ended(first).0;
            &&& after.passed(bytes, at_end).1.ending is None
            &&& after.passed(bytes, at_end).0.guard.done
            &&& after.ended(later).1 is None
        }),
{
}

} // verus!

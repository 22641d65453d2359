//! One request to an upstream, from the first attempt to the response that is passed on.

use vstd::prelude::*;
use crate::attempts::succeeds;
use crate::capacity::{
    body_bytes, http, lasting_code, passed_frame, prelude_sse, stream_told, text_at, Passing,
    Prelude, Sse,
};
use crate::config::Mode;
use crate::fallback::body_value;
use crate::logs::entry::{cut_text, cut_to};
use crate::logs::usage::{sights, Observer, Seen, Sight, UsageReader};
use crate::outside::lossy_text;
use crate::text::{contains, occurs};
use crate::upstream::{capacity_error, inspects_error, ip_not_authorized, refuses_capacity, rejects_address};

verus! {

/// How much of an error is looked at.
pub const ERROR_PREFIX: usize = 65536;

/// Where a request stands.
#[derive(Clone, Copy, Debug, PartialEq, Eq, Structural)]
pub enum Stage {
    /// It is being sent.
    Sending,
    /// It could not be sent: whether the upstream is known not to have got it, and whether
    /// the time ran out.
    Unsent { unreached: bool, timeout: bool },
    /// The start of an error is being read.
    Inspecting,
    /// The upstream refused it for want of capacity.
    Refused,
    /// The start of a stream is being read.
    Opening,
    /// The stream began with a refusal.
    OpenedRefused,
    /// It is over.
    Over,
}

/// A request on its way.
pub struct Delivery {
    /// Another model is tried where this one fails.
    pub fallback_attempt: bool,
    /// Elapsed time bounds recovery.
    pub timed: bool,
    pub stage: Stage,
    pub status: u16,
    pub sse: bool,
    /// What was read of the response.
    pub prefix: Vec<u8>,
    /// Whether that is all of it.
    pub complete: bool,
}

/// The view of a request on its way.
pub ghost struct Course {
    pub fallback_attempt: bool,
    pub timed: bool,
    pub stage: Stage,
    pub status: u16,
    pub sse: bool,
    pub prefix: Seq<u8>,
    pub complete: bool,
}

impl View for Delivery {
    type V = Course;

    open spec fn view(&self) -> Course {
        Course {
            fallback_attempt: self.fallback_attempt,
            timed: self.timed,
            stage: self.stage,
            status: self.status,
            sse: self.sse,
            prefix: self.prefix@,
            complete: self.complete,
        }
    }
}

/// What is done next.
#[derive(Clone, Copy, Debug, PartialEq, Eq, Structural)]
pub enum Step {
    /// The request is sent.
    Send,
    /// More of the response is read.
    Read,
    /// Another attempt is asked for: the upstream was not reached.
    RetryUnreached,
    /// Another attempt is asked for: the upstream refused.
    RetryRefused,
    /// The client is told why the upstream cannot be reached.
    Diagnose,
    /// The client is told that the request failed before a response; another model may be
    /// tried, or not.
    TransportFailed { eligible: bool },
    /// The client is told that an error could not be read.
    ErrorUnreadable,
    /// The client is told that the stream broke off before output. Without an explicit
    /// refusal that is ambiguous, so the request is never repeated.
    Interrupted,
    /// The client is told that the time for recovery ran out.
    TimedOut,
    /// The response is passed on.
    Deliver,
}

impl Course {
    /// Over, with a last step.
    pub open spec fn over(self, step: Step) -> (Course, Step) {
        (Course { stage: Stage::Over, ..self }, step)
    }

    /// A look at the start of a stream.
    pub open spec fn look(self) -> (Course, Step) {
        match stream_told(self.prefix, self.complete) {
            Prelude::Refused => (
                Course { stage: Stage::OpenedRefused, ..self },
                Step::RetryRefused,
            ),
            Prelude::Started => self.over(Step::Deliver),
            Prelude::Waiting => if self.complete {
                self.over(Step::Deliver)
            } else {
                (Course { stage: Stage::Opening, ..self }, Step::Read)
            },
        }
    }

    /// On, once no refusal stands in the way.
    pub open spec fn accepted(self) -> (Course, Step) {
        if succeeds(self.status) && self.sse && self.timed {
            self.look()
        } else {
            self.over(Step::Deliver)
        }
    }

    /// On, once as much of an error was read as is looked at.
    pub open spec fn inspected(self) -> (Course, Step) {
        if refuses_capacity(self.status, body_value(self.prefix), lossy_text(self.prefix)) {
            (Course { stage: Stage::Refused, ..self }, Step::RetryRefused)
        } else {
            self.accepted()
        }
    }

    /// The request could not be sent.
    pub open spec fn unsent(self, unreached: bool, timeout: bool) -> (Course, Step) {
        let failed = Course { stage: Stage::Unsent { unreached, timeout }, ..self };
        if self.timed && unreached {
            (failed, Step::RetryUnreached)
        } else {
            failed.given_up(unreached, timeout)
        }
    }

    /// The request could not be sent, and no other attempt is made.
    pub open spec fn given_up(self, unreached: bool, timeout: bool) -> (Course, Step) {
        if self.fallback_attempt {
            self.over(Step::TransportFailed { eligible: unreached || timeout })
        } else {
            self.over(Step::Diagnose)
        }
    }

    /// A response began.
    pub open spec fn responded(self, status: u16, sse: bool) -> (Course, Step) {
        let begun = Course { status, sse, prefix: Seq::empty(), complete: false, ..self };
        if !self.fallback_attempt && (status == 401 || status == 403 || status == 429 || status
            == 500 || status == 503 || status == 529) {
            (Course { stage: Stage::Inspecting, ..begun }, Step::Read)
        } else {
            begun.inspected()
        }
    }

    /// More of the response arrived.
    pub open spec fn read(self, bytes: Seq<u8>) -> (Course, Step) {
        let more = Course { prefix: self.prefix + bytes, ..self };
        match self.stage {
            Stage::Inspecting => if more.prefix.len() < ERROR_PREFIX {
                (more, Step::Read)
            } else {
                more.inspected()
            },
            Stage::Opening => more.look(),
            _ => more.over(Step::Deliver),
        }
    }

    /// The response ended.
    pub open spec fn ended(self) -> (Course, Step) {
        let whole = Course { complete: true, ..self };
        match self.stage {
            Stage::Inspecting => whole.inspected(),
            Stage::Opening => whole.look(),
            _ => whole.over(Step::Deliver),
        }
    }

    /// The response broke off.
    pub open spec fn broken(self) -> (Course, Step) {
        match self.stage {
            Stage::Opening => self.over(Step::Interrupted),
            _ => self.over(Step::ErrorUnreadable),
        }
    }

    /// Another attempt was granted, or not.
    pub open spec fn retried(self, granted: bool) -> (Course, Step) {
        if granted {
            (Course { stage: Stage::Sending, ..self }, Step::Send)
        } else {
            match self.stage {
                Stage::Unsent { unreached, timeout } => self.given_up(unreached, timeout),
                Stage::Refused => self.accepted(),
                _ => self.over(Step::Deliver),
            }
        }
    }
}

impl Delivery {
    /// A request before its first attempt.
    pub fn new(fallback_attempt: bool, timed: bool) -> (r: Delivery)
        ensures
            r@ == (Course {
                fallback_attempt,
                timed,
                stage: Stage::Sending,
                status: 0,
                sse: false,
                prefix: Seq::empty(),
                complete: false,
            }),
    {
        Delivery {
            fallback_attempt,
            timed,
            stage: Stage::Sending,
            status: 0,
            sse: false,
            prefix: Vec::new(),
            complete: false,
        }
    }

    fn end(&mut self, step: Step) -> (r: Step)
        ensures
            (final(self)@, r) == old(self)@.over(step),
    {
        self.stage = Stage::Over;
        step
    }

    fn look(&mut self) -> (r: Step)
        ensures
            (final(self)@, r) == old(self)@.look(),
    {
        match prelude_sse(&self.prefix, self.complete) {
            Prelude::Refused => {
                self.stage = Stage::OpenedRefused;
                Step::RetryRefused
            },
            Prelude::Started => self.end(Step::Deliver),
            Prelude::Waiting => if self.complete {
                self.end(Step::Deliver)
            } else {
                self.stage = Stage::Opening;
                Step::Read
            },
        }
    }

    fn accept(&mut self) -> (r: Step)
        ensures
            (final(self)@, r) == old(self)@.accepted(),
    {
        if 200 <= self.status && self.status < 300 && self.sse && self.timed {
            self.look()
        } else {
            self.end(Step::Deliver)
        }
    }

    fn inspect(&mut self) -> (r: Step)
        ensures
            (final(self)@, r) == old(self)@.inspected(),
    {
        if capacity_error(self.status, self.prefix.as_slice()) {
            self.stage = Stage::Refused;
            Step::RetryRefused
        } else {
            self.accept()
        }
    }

    fn give_up(&mut self, unreached: bool, timeout: bool) -> (r: Step)
        ensures
            (final(self)@, r) == old(self)@.given_up(unreached, timeout),
    {
        if self.fallback_attempt {
            self.end(Step::TransportFailed { eligible: unreached || timeout })
        } else {
            self.end(Step::Diagnose)
        }
    }

    /// The time for recovery ran out.
    pub fn run_out(&mut self) -> (r: Step)
        ensures
            (final(self)@, r) == old(self)@.over(Step::TimedOut),
    {
        self.end(Step::TimedOut)
    }

    /// The request could not be sent.
    pub fn unsent(&mut self, unreached: bool, timeout: bool) -> (r: Step)
        ensures
            (final(self)@, r) == old(self)@.unsent(unreached, timeout),
    {
        self.stage = Stage::Unsent { unreached, timeout };
        if self.timed && unreached {
            Step::RetryUnreached
        } else {
            self.give_up(unreached, timeout)
        }
    }

    /// A response began.
    pub fn responded(&mut self, status: u16, sse: bool) -> (r: Step)
        ensures
            (final(self)@, r) == old(self)@.responded(status, sse),
    {
        self.status = status;
        self.sse = sse;
        self.prefix = Vec::new();
        self.complete = false;
        if inspects_error(self.fallback_attempt, status) {
            self.stage = Stage::Inspecting;
            Step::Read
        } else {
            self.inspect()
        }
    }

    /// More of the response arrived.
    pub fn read(&mut self, bytes: &[u8]) -> (r: Step)
        ensures
            (final(self)@, r) == old(self)@.read(bytes@),
    {
        self.prefix.extend_from_slice(bytes);
        proof {
            assert(self.prefix@ =~= old(self)@.prefix + bytes@);
        }
        match self.stage {
            Stage::Inspecting => if self.prefix.len() < ERROR_PREFIX {
                Step::Read
            } else {
                self.inspect()
            },
            Stage::Opening => self.look(),
            _ => self.end(Step::Deliver),
        }
    }

    /// The response ended.
    pub fn ended(&mut self) -> (r: Step)
        ensures
            (final(self)@, r) == old(self)@.ended(),
    {
        self.complete = true;
        match self.stage {
            Stage::Inspecting => self.inspect(),
            Stage::Opening => self.look(),
            _ => self.end(Step::Deliver),
        }
    }

    /// The response broke off.
    pub fn broken(&mut self) -> (r: Step)
        ensures
            (final(self)@, r) == old(self)@.broken(),
    {
        match self.stage {
            Stage::Opening => self.end(Step::Interrupted),
            _ => self.end(Step::ErrorUnreadable),
        }
    }

    /// Another attempt was granted, or not.
    pub fn retried(&mut self, granted: bool) -> (r: Step)
        ensures
            (final(self)@, r) == old(self)@.retried(granted),
    {
        if granted {
            self.stage = Stage::Sending;
            return Step::Send;
        }
        match self.stage {
            Stage::Unsent { unreached, timeout } => self.give_up(unreached, timeout),
            Stage::Refused => self.accept(),
            _ => self.end(Step::Deliver),
        }
    }
}

/// The code under which a request that was not answered goes on record.
pub fn failure_code(unreached: bool) -> (r: &'static str)
    ensures
        r@ == (if unreached {
            "connect_failed"@
        } else {
            "transport_error"@
        }),
{
    if unreached {
        "connect_failed"
    } else {
        "transport_error"
    }
}

/// The longest name of a response that goes on record.
pub const MAX_UPSTREAM_ID: usize = 128;

/// The upstream's own name for a response, as it goes on record.
pub fn upstream_id(header: Option<&str>) -> (r: Option<String>)
    ensures
        r.deep_view() == (match header.deep_view() {
            Some(text) => Some(cut_to(text, MAX_UPSTREAM_ID as nat)),
            None => None,
        }),
{
    match header {
        Some(text) => Some(cut_text(text, MAX_UPSTREAM_ID)),
        None => None,
    }
}

// ---- the response that is passed on ----------------------------------------------------------------

/// The start of a response that is passed on.
pub struct Head {
    pub status: u16,
    pub prefix: Vec<u8>,
    /// A lack of capacity was made an error that clients retry.
    pub translated: bool,
    /// The upstream rejected this machine's address.
    pub rejected: bool,
}

/// The status and the start of the body that are passed on, and whether they were
/// translated.
pub open spec fn head_of(course: Course) -> (u16, Seq<u8>, bool) {
    if course.complete && !succeeds(course.status) {
        match body_bytes(course.prefix) {
            Some(bytes) => (500, bytes, true),
            None => (course.status, course.prefix, false),
        }
    } else {
        (course.status, course.prefix, false)
    }
}

impl Delivery {
    /// The start of the response that is passed on.
    pub fn head(&self, mode: Mode) -> (r: Head)
        ensures
            (r.status, r.prefix@, r.translated) == head_of(self@),
            r.rejected == (mode != Mode::Client && rejects_address(
                r.status,
                body_value(r.prefix@),
                lossy_text(r.prefix@),
            )),
    {
        let mut status = self.status;
        let mut translated = false;
        let mut prefix: Vec<u8> = Vec::new();
        prefix.extend_from_slice(self.prefix.as_slice());
        proof {
            assert(prefix@ =~= self.prefix@);
        }
        if self.complete && !(200 <= self.status && self.status < 300) {
            match http(self.prefix.as_slice()) {
                Some(bytes) => {
                    status = 500;
                    prefix = bytes;
                    translated = true;
                },
                None => {},
            }
        }
        let rejected = mode != Mode::Client && ip_not_authorized(status, prefix.as_slice());
        Head { status, prefix, translated, rejected }
    }
}

/// A response on its way to the client. Original chunks are passed on without waiting for
/// its end.
pub struct Outlet {
    pub usage: Option<UsageReader>,
    pub sse: Option<Sse>,
}

/// Whether a response of a content type is a stream of events.
pub open spec fn event_stream(content_type: Seq<char>) -> bool {
    occurs("text/event-stream"@, content_type)
}

/// Whether a response of a content type is a stream of events.
pub fn is_event_stream(content_type: &str) -> (r: bool)
    ensures
        r == event_stream(content_type@),
{
    contains(content_type, "text/event-stream")
}

/// What is passed on of bytes.
pub open spec fn let_through(sse: Option<Passing>, bytes: Seq<u8>) -> (Option<Passing>, Seq<u8>) {
    match sse {
        Some(state) => {
            let (after, out) = state.bytes(bytes, 0, Seq::empty());
            (Some(after), out)
        },
        None => (None, bytes),
    }
}

/// What is seen of bytes.
pub open spec fn looked_at(usage: Option<Observer>, bytes: Seq<u8>) -> (Option<Observer>, Seq<Sight>) {
    match usage {
        Some(state) => {
            let (after, seen) = state.fed(bytes);
            (Some(after), seen)
        },
        None => (None, Seq::empty()),
    }
}

/// The view of a filter, where there is one.
pub open spec fn passing_of(sse: Option<Sse>) -> Option<Passing> {
    match sse {
        Some(sse) => Some(sse@),
        None => None,
    }
}

/// The view of an observer, where there is one.
pub open spec fn observer_of(usage: Option<UsageReader>) -> Option<Observer> {
    match usage {
        Some(usage) => Some(usage@),
        None => None,
    }
}

impl Outlet {
    /// A response of a content type. Attempts on one model after the other are observed
    /// once one of them is passed on.
    pub fn new(fallback_attempt: bool, content_type: &str) -> (r: Outlet)
        ensures
            observer_of(r.usage) == (if !fallback_attempt && (occurs("json"@, content_type@)
                || event_stream(content_type@)) {
                Some(
                    Observer {
                        sse: event_stream(content_type@),
                        buffer: Seq::empty(),
                        event: Seq::empty(),
                        overflow: false,
                        first_output: false,
                        line_nonempty: false,
                    },
                )
            } else {
                None
            }),
            passing_of(r.sse) == (if event_stream(content_type@) {
                Some(
                    Passing { buffer: Seq::empty(), overflow: false, line_nonempty: false },
                )
            } else {
                None
            }),
    {
        let stream = is_event_stream(content_type);
        let usage = if !fallback_attempt && (contains(content_type, "json") || stream) {
            Some(UsageReader::new(stream))
        } else {
            None
        };
        let sse = if stream {
            Some(Sse::new())
        } else {
            None
        };
        Outlet { usage, sse }
    }

    /// Takes a chunk: the bytes to pass on, and what was seen.
    pub fn feed(&mut self, bytes: &[u8]) -> (r: (Vec<u8>, Vec<Seen>))
        ensures
            (passing_of(final(self).sse), r.0@) == let_through(passing_of(old(self).sse), bytes@),
            (observer_of(final(self).usage), sights(r.1@)) == looked_at(
                observer_of(old(self).usage),
                bytes@,
            ),
    {
        let seen = match &mut self.usage {
            Some(usage) => usage.feed(bytes),
            None => {
                let none: Vec<Seen> = Vec::new();
                proof {
                    assert(sights(none@) =~= Seq::empty());
                }
                none
            },
        };
        let out = match &mut self.sse {
            Some(sse) => sse.feed(bytes),
            None => {
                let mut out: Vec<u8> = Vec::new();
                out.extend_from_slice(bytes);
                proof {
                    assert(out@ =~= bytes@);
                }
                out
            },
        };
        (out, seen)
    }

    /// The response ended: the bytes still to pass on, and what was seen.
    pub fn finish(&mut self) -> (r: (Vec<u8>, Vec<Seen>))
        ensures
            r.0@ == (match passing_of(old(self).sse) {
                Some(state) => passed_frame(state.buffer),
                None => Seq::empty(),
            }),
            sights(r.1@) == (match observer_of(old(self).usage) {
                Some(state) => state.ended().1,
                None => Seq::empty(),
            }),
            passing_of(final(self).sse) == (match passing_of(old(self).sse) {
                Some(state) => Some(Passing { buffer: Seq::empty(), ..state }),
                None => None,
            }),
            observer_of(final(self).usage) == (match observer_of(old(self).usage) {
                Some(state) => Some(state.ended().0),
                None => None,
            }),
    {
        let out = self.flush();
        let seen = match &mut self.usage {
            Some(usage) => usage.finish(),
            None => {
                let none: Vec<Seen> = Vec::new();
                proof {
                    assert(sights(none@) =~= Seq::empty());
                }
                none
            },
        };
        (out, seen)
    }

    /// The response broke off: the bytes still to pass on.
    pub fn flush(&mut self) -> (r: Vec<u8>)
        ensures
            r@ == (match passing_of(old(self).sse) {
                Some(state) => passed_frame(state.buffer),
                None => Seq::empty(),
            }),
            passing_of(final(self).sse) == (match passing_of(old(self).sse) {
                Some(state) => Some(Passing { buffer: Seq::empty(), ..state }),
                None => None,
            }),
            final(self).usage == old(self).usage,
    {
        match &mut self.sse {
            Some(sse) => sse.finish(),
            None => {
                let none: Vec<u8> = Vec::new();
                none
            },
        }
    }
}

// ---- laws --------------------------------------------------------------------------------------------

/// A request is only ever repeated after an upstream that was not reached or an explicit
/// refusal: whatever arrives, the only step toward another attempt is to ask for it, and it
/// is asked for only then.
pub proof fn only_refusals_are_repeated(course: Course, bytes: Seq<u8>)
    requires
        course.stage == Stage::Opening,
    ensures
        course.read(bytes).1 == Step::RetryRefused ==> stream_told(
            course.prefix + bytes,
            course.complete,
        ) == Prelude::Refused,
        course.ended().1 == Step::RetryRefused ==> stream_told(course.prefix, true)
            == Prelude::Refused,
        course.broken().1 == Step::Interrupted,
        course.read(bytes).1 != Step::Send && course.ended().1 != Step::Send,
{
}

/// Output is never thrown away: once a stream has started it is passed on.
pub proof fn started_streams_are_delivered(course: Course, bytes: Seq<u8>)
    requires
        course.stage == Stage::Opening,
        stream_told(course.prefix + bytes, course.complete) == Prelude::Started,
    ensures
        course.read(bytes).1 == Step::Deliver,
{
}

/// A fallback attempt neither retries an upstream that was not reached nor looks into
/// errors: the next model is tried instead.
pub proof fn fallback_attempts_do_not_linger(course: Course, unreached: bool, timeout: bool, status: u16, sse: bool)
    requires
        course.fallback_attempt,
        !course.timed,
    ensures
        course.unsent(unreached, timeout).1 == (Step::TransportFailed {
            eligible: unreached || timeout,
        }),
        course.responded(status, sse).1 == Step::Deliver || course.responded(status, sse).1
            == Step::RetryRefused,
        course.responded(status, sse).0.retried(false).1 == Step::Deliver || course.responded(
            status,
            sse,
        ).1 == Step::Deliver,
{
}

/// An error that lasts, such as an exhausted quota, is passed on at once: the request is not
/// repeated for it.
pub proof fn lasting_errors_are_not_repeated(course: Course)
    requires
        !succeeds(course.status),
        ({
            let error = body_value(course.prefix).at("error"@);
            lasting_code(text_at(error, "code"@)) || lasting_code(text_at(error, "type"@))
        }),
    ensures
        course.inspected().1 == Step::Deliver,
{
}

} // verus!

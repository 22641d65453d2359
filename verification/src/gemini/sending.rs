//! The course of a request to Gemini until it is accepted: when it is repeated, and what the
//! client is told where it is not.

use vstd::prelude::*;
use crate::answers::{transport_body, transport_tree};
use crate::attempts::succeeds;
use crate::gemini::error::native_error;
use crate::gemini::parts::empty_object;
use crate::gemini::service::{native_code, native_value, read_failure};
use crate::tree::{json_views, Json, Tree};

verus! {

broadcast use json_views;

/// What the client is told.
pub struct Answer {
    pub status: u16,
    pub body: Json,
    /// Whether another model may be tried instead.
    pub eligible: bool,
    /// Whether Gemini said so; the wait that it asks for is then passed on.
    pub native: bool,
}

/// The view of what the client is told.
pub ghost struct AnswerView {
    pub status: u16,
    pub body: Tree,
    pub eligible: bool,
    pub native: bool,
}

impl DeepView for Answer {
    type V = AnswerView;

    open spec fn deep_view(&self) -> AnswerView {
        AnswerView {
            status: self.status,
            body: self.body@,
            eligible: self.eligible,
            native: self.native,
        }
    }
}

/// What is done next.
pub enum Hop {
    /// Credentials are resolved and the request is sent.
    Send,
    /// The error is read.
    Read,
    /// Another attempt is asked for, after the wait that Gemini asks for, if it does.
    Retry { asked: bool },
    /// The reply is converted.
    Accept,
    /// The client is told.
    Tell(Answer),
    /// The client is told that the time for recovery ran out.
    TimedOut,
}

/// The view of what is done next.
pub ghost enum HopView {
    Send,
    Read,
    Retry { asked: bool },
    Accept,
    Tell(AnswerView),
    TimedOut,
}

impl DeepView for Hop {
    type V = HopView;

    open spec fn deep_view(&self) -> HopView {
        match *self {
            Hop::Send => HopView::Send,
            Hop::Read => HopView::Read,
            Hop::Retry { asked } => HopView::Retry { asked },
            Hop::Accept => HopView::Accept,
            Hop::Tell(answer) => HopView::Tell(answer.deep_view()),
            Hop::TimedOut => HopView::TimedOut,
        }
    }
}

/// A failure on the way to Gemini.
pub open spec fn lost(message: Seq<char>, code: Seq<char>, eligible: bool) -> AnswerView {
    AnswerView { status: 502, body: transport_tree(message, code), eligible, native: false }
}

/// An error of Gemini as the client gets it.
pub open spec fn native_answer(status: u16, native: Tree) -> AnswerView {
    AnswerView {
        status,
        body: empty_object().with("error"@, native_error(native, Some(status)).0).with(
            "gemini"@,
            native,
        ),
        eligible: false,
        native: true,
    }
}

fn tell_lost(message: &str, code: &str, eligible: bool) -> (r: Answer)
    ensures
        r.deep_view() == lost(message@, code@, eligible),
{
    Answer { status: 502, body: transport_body(message, code), eligible, native: false }
}

/// A request to Gemini on its way.
pub struct Sending {
    pub fallback_attempt: bool,
    /// The status of the last reply.
    pub status: u16,
    /// What is told where no further attempt is granted.
    pub owed: Option<Answer>,
    /// The code of the last failure, for the record.
    pub code: String,
}

/// The view of a request on its way.
pub ghost struct SendingView {
    pub fallback_attempt: bool,
    pub status: u16,
    pub owed: Option<AnswerView>,
    pub code: Seq<char>,
}

impl View for Sending {
    type V = SendingView;

    open spec fn view(&self) -> SendingView {
        SendingView {
            fallback_attempt: self.fallback_attempt,
            status: self.status,
            owed: self.owed.deep_view(),
            code: self.code@,
        }
    }
}

impl SendingView {
    /// A request that did not reach Gemini: known not to have, or after too long a wait.
    /// Only what is known not to have arrived is repeated, and not where another model can
    /// be tried.
    pub open spec fn unsent(self, unreached: bool, timeout: bool) -> (SendingView, HopView) {
        let code = "gemini_connect_failed"@;
        if self.fallback_attempt {
            (
                SendingView { code, ..self },
                HopView::Tell(
                    lost("Could not reach Gemini upstream"@, code, unreached || timeout),
                ),
            )
        } else {
            let answer = lost("Could not reach Gemini upstream; retry the request"@, code, false);
            if unreached {
                (
                    SendingView { code, owed: Some(answer), ..self },
                    HopView::Retry { asked: false },
                )
            } else {
                (SendingView { code, ..self }, HopView::Tell(answer))
            }
        }
    }

    /// An error of Gemini.
    pub open spec fn read(self, bytes: Seq<u8>) -> (SendingView, HopView) {
        let native = native_value(bytes);
        let answer = native_answer(self.status, native);
        let code = native_code(native);
        if native_error(native, Some(self.status)).1 {
            (SendingView { code, owed: Some(answer), ..self }, HopView::Retry { asked: true })
        } else {
            (SendingView { code, ..self }, HopView::Tell(answer))
        }
    }

    /// Another attempt was granted, or what is owed is told.
    pub open spec fn retried(self, granted: bool) -> (SendingView, HopView) {
        match self.owed {
            Some(answer) => if granted {
                (SendingView { owed: None, ..self }, HopView::Send)
            } else {
                (SendingView { owed: None, ..self }, HopView::Tell(answer))
            },
            None => (self, HopView::Send),
        }
    }
}

impl Sending {
    /// A request that is to be sent.
    pub fn new(fallback_attempt: bool) -> (r: Sending)
        ensures
            r@ == (SendingView { fallback_attempt, status: 0, owed: None, code: ""@ }),
    {
        Sending { fallback_attempt, status: 0, owed: None, code: "".to_string() }
    }

    /// No credential could be had.
    pub fn locked(&mut self, message: &str) -> (r: Hop)
        ensures
            final(self)@ == (SendingView { code: "gemini_credential_error"@, ..old(self)@ }),
            r.deep_view() == HopView::Tell(lost(message@, "gemini_credential_error"@, false)),
    {
        self.code = "gemini_credential_error".to_string();
        Hop::Tell(tell_lost(message, "gemini_credential_error", false))
    }

    /// The time for recovery ran out before a reply.
    pub fn run_out(&mut self) -> (r: Hop)
        ensures
            final(self)@ == (SendingView { code: "proxy_recovery_timeout"@, ..old(self)@ }),
            r.deep_view() == HopView::TimedOut,
    {
        self.code = "proxy_recovery_timeout".to_string();
        Hop::TimedOut
    }

    /// The request did not reach Gemini.
    pub fn unsent(&mut self, unreached: bool, timeout: bool) -> (r: Hop)
        ensures
            (final(self)@, r.deep_view()) == old(self)@.unsent(unreached, timeout),
    {
        self.code = "gemini_connect_failed".to_string();
        if self.fallback_attempt {
            return Hop::Tell(
                tell_lost(
                    "Could not reach Gemini upstream",
                    "gemini_connect_failed",
                    unreached || timeout,
                ),
            );
        }
        let answer = tell_lost(
            "Could not reach Gemini upstream; retry the request",
            "gemini_connect_failed",
            false,
        );
        if unreached {
            self.owed = Some(answer);
            Hop::Retry { asked: false }
        } else {
            Hop::Tell(answer)
        }
    }

    /// Gemini replied: an error is read, and anything else accepted.
    pub fn responded(&mut self, status: u16) -> (r: Hop)
        ensures
            final(self)@ == (SendingView { status, ..old(self)@ }),
            r.deep_view() == (if succeeds(status) {
                HopView::Accept
            } else {
                HopView::Read
            }),
    {
        self.status = status;
        if 200 <= status && status < 300 {
            Hop::Accept
        } else {
            Hop::Read
        }
    }

    /// An error could not be read, or not in time.
    pub fn unread(&mut self) -> (r: Hop)
        ensures
            final(self)@ == (SendingView { code: "gemini_error_read_failed"@, ..old(self)@ }),
            r.deep_view() == HopView::Tell(
                lost(
                    "Could not read Gemini error; retry the request"@,
                    "gemini_error_read_failed"@,
                    false,
                ),
            ),
    {
        self.code = "gemini_error_read_failed".to_string();
        Hop::Tell(
            tell_lost(
                "Could not read Gemini error; retry the request",
                "gemini_error_read_failed",
                false,
            ),
        )
    }

    /// An error was read.
    pub fn read(&mut self, bytes: &[u8]) -> (r: Hop)
        ensures
            (final(self)@, r.deep_view()) == old(self)@.read(bytes@),
    {
        let failure = read_failure(bytes, self.status);
        let answer = Answer {
            status: self.status,
            body: failure.body,
            eligible: false,
            native: true,
        };
        self.code = failure.code;
        if failure.retryable {
            self.owed = Some(answer);
            Hop::Retry { asked: true }
        } else {
            Hop::Tell(answer)
        }
    }

    /// Another attempt was granted, or not.
    pub fn retried(&mut self, granted: bool) -> (r: Hop)
        ensures
            (final(self)@, r.deep_view()) == old(self)@.retried(granted),
    {
        match self.owed.take() {
            Some(answer) => if granted {
                Hop::Send
            } else {
                Hop::Tell(answer)
            },
            None => Hop::Send,
        }
    }
}

/// A request that may have arrived is never repeated unless Gemini says that it can be.
pub proof fn repeats_are_safe(sending: SendingView, unreached: bool, timeout: bool, bytes: Seq<u8>)
    ensures
        sending.unsent(unreached, timeout).1 is Retry ==> unreached && !sending.fallback_attempt,
        sending.read(bytes).1 is Retry ==> native_error(
            native_value(bytes),
            Some(sending.status),
        ).1,
{
}

} // verus!

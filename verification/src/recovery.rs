//! When and how long to wait before a request is tried again.

use vstd::prelude::*;
use crate::config::{Mode, Retry};
use crate::fallback::{Fallbacks, Rules};
use crate::outside::{clock_ns, http_date, random_up_to, read_http_date};
use crate::table::entries;
use crate::text::{contains, lowered, number_value, occurs, read_number, to_lower};

verus! {

/// The smaller of two numbers.
pub open spec fn least(a: nat, b: nat) -> nat {
    if a < b {
        a
    } else {
        b
    }
}

/// The greater of two numbers.
pub open spec fn greatest(a: nat, b: nat) -> nat {
    if a < b {
        b
    } else {
        a
    }
}

/// Twice one, `n` times over.
pub open spec fn doubled(n: nat) -> nat
    decreases n,
{
    if n == 0 {
        1
    } else {
        2 * doubled((n - 1) as nat)
    }
}

/// The bound on the wait before an attempt, in milliseconds: it doubles with each one, up
/// to the cap.
pub open spec fn bound_of(retry: Retry, attempt: nat) -> nat {
    least(
        (retry.initial_delay_ms * doubled(least(attempt, 20))) as nat,
        retry.max_delay_ms as nat,
    )
}

/// The nanoseconds in so many milliseconds.
pub open spec fn in_nanoseconds(milliseconds: nat) -> nat {
    milliseconds * 1_000_000
}

/// The wait before an attempt, in nanoseconds: half the bound and a draw of the other
/// half, or as long as the upstream asks, but never more than the cap.
pub open spec fn wait_of(retry: Retry, attempt: nat, draw: nat, asked: nat) -> nat {
    least(
        greatest(in_nanoseconds(bound_of(retry, attempt) / 2 + draw), asked),
        in_nanoseconds(retry.max_delay_ms as nat),
    )
}

proof fn doubled_grows(n: nat)
    requires
        n <= 20,
    ensures
        1 <= doubled(n) <= 1_048_576,
    decreases n,
{
    reveal_with_fuel(doubled, 21);
}

fn double(n: u32) -> (r: u64)
    requires
        n <= 20,
    ensures
        r == doubled(n as nat),
{
    let mut r: u64 = 1;
    let mut i: u32 = 0;
    while i < n
        invariant
            i <= n <= 20,
            r == doubled(i as nat),
        decreases n - i,
    {
        proof {
            doubled_grows(i as nat);
        }
        r = r * 2;
        i += 1;
    }
    r
}

/// The bound on the wait before an attempt, in milliseconds.
pub fn delay_bound(retry: &Retry, attempt: u32) -> (r: u64)
    ensures
        r == bound_of(*retry, attempt as nat),
{
    let factor = double(
        if attempt < 20 {
            attempt
        } else {
            20
        },
    );
    proof {
        doubled_grows(least(attempt as nat, 20));
        assert(retry.initial_delay_ms * factor <= u64::MAX * 1_048_576) by (nonlinear_arith)
            requires
                retry.initial_delay_ms <= u64::MAX,
                factor <= 1_048_576,
        ;
    }
    let exponential: u128 = retry.initial_delay_ms as u128 * factor as u128;
    if exponential < retry.max_delay_ms as u128 {
        exponential as u64
    } else {
        retry.max_delay_ms
    }
}

/// The wait before an attempt, in nanoseconds, for a given draw of jitter in milliseconds
/// and a given wish of the upstream in nanoseconds. Equal jitter keeps some backoff even if
/// the draw is zero.
pub fn delay_with(retry: &Retry, attempt: u32, draw: u64, asked: u128) -> (r: u128)
    requires
        draw <= bound_of(*retry, attempt as nat) - bound_of(*retry, attempt as nat) / 2,
    ensures
        r == wait_of(*retry, attempt as nat, draw as nat, asked as nat),
{
    let bound = delay_bound(retry, attempt);
    let jittered: u128 = (bound / 2 + draw) as u128 * 1_000_000;
    let cap: u128 = retry.max_delay_ms as u128 * 1_000_000;
    let wished: u128 = if jittered < asked {
        asked
    } else {
        jittered
    };
    if wished < cap {
        wished
    } else {
        cap
    }
}

/// How long an upstream asks to wait, in nanoseconds: a number of seconds, or a date, which
/// is seen from so many nanoseconds after the Unix epoch.
pub open spec fn asked_wait(header: Option<Seq<char>>, now_ns: nat) -> nat {
    match header {
        None => 0,
        Some(text) => match number_value(text) {
            Some(seconds) => seconds * 1_000_000_000,
            None => match http_date(text) {
                Some(seconds) => if seconds * 1_000_000_000 > now_ns {
                    (seconds * 1_000_000_000 - now_ns) as nat
                } else {
                    0
                },
                None => 0,
            },
        },
    }
}

/// How long an upstream asks to wait, in nanoseconds, at a given time.
pub fn read_asked_wait(header: Option<&str>, now_ns: u128) -> (r: u128)
    ensures
        r == asked_wait(header.deep_view(), now_ns as nat),
{
    let text = match header {
        Some(text) => text,
        None => return 0,
    };
    match read_number(text) {
        Some(seconds) => seconds as u128 * 1_000_000_000,
        None => match read_http_date(text) {
            Some(seconds) => if seconds as u128 * 1_000_000_000 > now_ns {
                seconds as u128 * 1_000_000_000 - now_ns
            } else {
                0
            },
            None => 0,
        },
    }
}

/// The wait before an attempt, in nanoseconds, with jitter drawn now. Whatever is drawn,
/// the wait lies between half the bound and the cap, and is the bound at most where the
/// upstream asks for nothing.
pub fn retry_delay(retry: &Retry, attempt: u32, retry_after: Option<&str>) -> (r: u128)
    ensures
        exists|draw: nat, now_ns: nat|
            draw <= bound_of(*retry, attempt as nat) - bound_of(*retry, attempt as nat) / 2 && r
                == #[trigger] wait_of(
                *retry,
                attempt as nat,
                draw,
                #[trigger] asked_wait(retry_after.deep_view(), now_ns),
            ),
        r <= in_nanoseconds(retry.max_delay_ms as nat),
        r >= in_nanoseconds(bound_of(*retry, attempt as nat) / 2),
        retry_after is None ==> r <= in_nanoseconds(bound_of(*retry, attempt as nat)),
{
    let bound = delay_bound(retry, attempt);
    let draw = random_up_to(bound - bound / 2);
    let now = clock_ns();
    let asked = read_asked_wait(retry_after, now);
    delay_with(retry, attempt, draw, asked)
}

/// What becomes of a request that failed.
#[derive(Clone, Copy, Debug, PartialEq, Eq, Structural)]
pub enum Verdict {
    /// No further attempt.
    Stop,
    /// No further attempt, once the time that is left has passed.
    RunOut,
    /// Another attempt after this many nanoseconds.
    Wait(u128),
}

/// What a request may still spend on recovery.
pub struct Budget {
    /// Fallback attempts do not retry by themselves.
    pub disabled: bool,
    pub max_retries: u32,
    /// Whether elapsed time decides rather than the number of attempts.
    pub timed: bool,
    pub retries: u32,
}

/// What becomes of a request that failed, given what it may still spend, the wait before another
/// attempt and the time that is left, both in nanoseconds.
pub open spec fn decided(budget: Budget, delay: nat, left: nat) -> Verdict {
    if budget.disabled || budget.max_retries == 0 || (!budget.timed && budget.retries
        >= budget.max_retries) {
        Verdict::Stop
    } else if budget.timed {
        if greatest(delay, in_nanoseconds(10)) >= left {
            Verdict::RunOut
        } else {
            Verdict::Wait(greatest(delay, in_nanoseconds(10)) as u128)
        }
    } else {
        Verdict::Wait(delay as u128)
    }
}

impl Budget {
    /// The budget of a request.
    pub fn new(retry: &Retry, fallback_attempt: bool) -> (r: Budget)
        ensures
            r.disabled == fallback_attempt,
            r.max_retries == retry.max_retries,
            r.timed == (!fallback_attempt && retry.max_retries > 0 && retry.recovery_timeout_ms
                > 0),
            r.retries == 0,
    {
        Budget {
            disabled: fallback_attempt,
            max_retries: retry.max_retries,
            timed: !fallback_attempt && retry.max_retries > 0 && retry.recovery_timeout_ms > 0,
            retries: 0,
        }
    }

    /// Decides on another attempt after `delay`, with `left` until the deadline where there
    /// is one, both in nanoseconds, and counts it. A configuration without delay must not
    /// create a tight loop against an unavailable service.
    pub fn decide(&mut self, delay: u128, left: u128) -> (r: Verdict)
        ensures
            r == decided(*old(self), delay as nat, left as nat),
            final(self).disabled == old(self).disabled,
            final(self).max_retries == old(self).max_retries,
            final(self).timed == old(self).timed,
            final(self).retries == (if r is Wait && old(self).retries < u32::MAX {
                old(self).retries + 1
            } else {
                old(self).retries as int
            }),
    {
        if self.disabled || self.max_retries == 0 || (!self.timed && self.retries
            >= self.max_retries) {
            return Verdict::Stop;
        }
        let mut wait: u128 = delay;
        if self.timed {
            if wait < 10_000_000 {
                wait = 10_000_000;
            }
            if wait >= left {
                return Verdict::RunOut;
            }
        }
        if self.retries < u32::MAX {
            self.retries = self.retries + 1;
        }
        Verdict::Wait(wait)
    }
}

/// Whether one of the rules from `from` on has targets.
pub open spec fn any_target(rules: Rules, from: int) -> bool
    decreases rules.len() - from,
{
    0 <= from < rules.len() && (rules[from].1.len() > 0 || any_target(rules, from + 1))
}

/// Whether fallback rules have any target.
pub fn has_targets(fallbacks: &Fallbacks) -> (r: bool)
    ensures
        r == any_target(entries(fallbacks@), 0),
{
    let mut i: usize = 0;
    while i < fallbacks.len()
        invariant
            i <= fallbacks.len(),
            any_target(entries(fallbacks@), 0) == any_target(entries(fallbacks@), i as int),
        decreases fallbacks.len() - i,
    {
        if fallbacks[i].1.len() > 0 {
            return true;
        }
        i += 1;
    }
    false
}

/// Whether a model may take as long as it likes to answer: where a host waits for it, or
/// where a failure would switch models.
pub fn unbounded_model_wait(mode: Mode, fallbacks: &Fallbacks) -> (r: bool)
    ensures
        r == (mode == Mode::Client || any_target(entries(fallbacks@), 0)),
{
    mode == Mode::Client || has_targets(fallbacks)
}

/// Whether a failed connection is known not to have reached the upstream. Repeating the
/// request is then safe; a timeout is ambiguous. A certificate that is refused stays
/// refused.
pub fn connection_failure(is_connect: bool, causes: &str) -> (r: bool)
    ensures
        r == (is_connect && !occurs("certificate"@, lowered(causes@))),
{
    if !is_connect {
        return false;
    }
    let low = to_lower(causes);
    !contains(low.as_str(), "certificate")
}

/// The wait never exceeds the cap, nor falls below half the bound.
pub proof fn waits_are_bounded(retry: Retry, attempt: nat, draw: nat, asked: nat)
    requires
        draw <= bound_of(retry, attempt) - bound_of(retry, attempt) / 2,
    ensures
        in_nanoseconds(bound_of(retry, attempt) / 2) <= wait_of(retry, attempt, draw, asked)
            <= in_nanoseconds(retry.max_delay_ms as nat),
        asked == 0 ==> wait_of(retry, attempt, draw, asked) <= in_nanoseconds(
            bound_of(retry, attempt),
        ),
        asked <= in_nanoseconds(retry.max_delay_ms as nat) ==> wait_of(
            retry,
            attempt,
            draw,
            asked,
        ) >= asked,
{
}

} // verus!

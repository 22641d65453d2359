//! Attempts on one model after the other: which models, and when to go on to the next.

use vstd::prelude::*;
use vstd::utf8::encode_utf8;
use crate::answers::{refuse, refused, Refusal, Refused};
use crate::config::{Config, Mode};
use crate::error::{outcome, Error};
use crate::exchange::{parse, parsed};
use crate::fallback::{
    blocker, body_value, event_told, is_transient_status, passes, passing_status, prelude_event, replay_blocker,
    targets, targets_of, transient_http, Opening, Prelude, Rules, SsePrelude, MAX_ATTEMPTS, MAX_PRELUDE,
};
use crate::outside::{digest, sha256};
use crate::recovery::{any_target, has_targets};
use crate::routing::{
    rewrite, rewrite_value, rewritten, rewritten_body, rules_of, RuleBook,
};
use crate::table::{entries, put_keeps_others, put_then_find};
use crate::text::{
    ends_with, hex, hex_text, join2, lowered, pieces, same, split, texts, to_lower, trim, trim_end,
    trimmed, trimmed_end,
};
use crate::tree::{json_views, Json, NumberView, Tree};

verus! {

broadcast use json_views;

// ---- whether several models are tried --------------------------------------------------

/// The kind of content that a content type names.
pub open spec fn content_kind(content_type: Seq<char>) -> Seq<char> {
    lowered(trimmed(pieces(content_type, ';', 0)[0]))
}

/// The kind of content that a content type names, in lowercase and without parameters.
pub fn media_kind(content_type: &str) -> (r: String)
    ensures
        r@ == content_kind(content_type@),
{
    let parts = split(content_type, ';');
    let ghost shown = texts(parts@);
    assert(shown[0] == parts@[0]@);
    let kind = trim(parts[0].as_str());
    to_lower(kind.as_str())
}

/// Whether a kind of content is JSON.
pub open spec fn json_kind(kind: Seq<char>) -> bool {
    kind == "application/json"@ || "+json"@.is_suffix_of(kind)
}

/// Whether a kind of content is JSON.
pub fn is_json_kind(kind: &str) -> (r: bool)
    ensures
        r == json_kind(kind@),
{
    same(kind, "application/json") || ends_with(kind, "+json")
}

/// What is known of a request before its body is read.
pub struct Arrival<'a> {
    pub path: &'a str,
    pub post: bool,
    pub websocket: bool,
    /// Whether the body is encoded other than as it is.
    pub encoded: bool,
    pub content_type: Option<&'a str>,
}

/// How a request is forwarded.
#[derive(Clone, Copy, Debug, PartialEq, Eq, Structural)]
pub enum Forwarding {
    /// To one model.
    Direct,
    /// Not over this protocol: the client is told to use HTTP.
    UpgradeRequired,
    /// To one model after the other, as the rules say.
    Planned,
}

/// Whether several models may be tried.
pub open spec fn switches(mode: Mode, rules: Rules) -> bool {
    mode != Mode::Client && any_target(rules, 0)
}

/// How a request is forwarded. The model of a WebSocket may arrive only after the upgrade,
/// so that the refusal applies to the endpoint.
pub fn forwarding(config: &Config, arrival: &Arrival<'_>) -> (r: Forwarding)
    ensures
        r == ({
            let place = trimmed_end(arrival.path@, '/');
            let several = switches(config.mode, entries(config.fallbacks@));
            if several && place == "/v1/responses"@ && arrival.websocket {
                Forwarding::UpgradeRequired
            } else if several && arrival.post && (place == "/v1/responses"@ || place
                == "/v1/chat/completions"@) && !arrival.encoded && (arrival.content_type matches Some(
                kind,
            ) && json_kind(content_kind(kind@))) {
                Forwarding::Planned
            } else {
                Forwarding::Direct
            }
        }),
{
    let place = trim_end(arrival.path, '/');
    let several = config.mode != Mode::Client && has_targets(&config.fallbacks);
    if several && same(place, "/v1/responses") && arrival.websocket {
        return Forwarding::UpgradeRequired;
    }
    let json = match arrival.content_type {
        Some(kind) => {
            let kind = media_kind(kind);
            is_json_kind(kind.as_str())
        },
        None => false,
    };
    if several && arrival.post && (same(place, "/v1/responses") || same(
        place,
        "/v1/chat/completions",
    )) && !arrival.encoded && json {
        Forwarding::Planned
    } else {
        Forwarding::Direct
    }
}

// ---- which models are tried -------------------------------------------------------------

/// A model to try: the name that it is asked for under, and the name after the rules.
#[derive(Debug)]
pub struct Candidate {
    pub requested: String,
    pub actual: String,
}

/// The view of a candidate.
pub ghost struct Choice {
    pub requested: Seq<char>,
    pub actual: Seq<char>,
}

impl DeepView for Candidate {
    type V = Choice;

    open spec fn deep_view(&self) -> Choice {
        Choice { requested: self.requested@, actual: self.actual@ }
    }
}

/// The views of candidates.
pub open spec fn choices(list: Seq<Candidate>) -> Seq<Choice> {
    Seq::new(list.len(), |i: int| list[i].deep_view())
}

/// What a plan is made from.
pub ghost struct Course {
    pub rules: RuleBook,
    pub fallbacks: Rules,
    pub path: Seq<char>,
    pub original: Tree,
    pub changed: Tree,
}

/// The model and the key that a candidate ends up with.
pub open spec fn resolved(course: Course, requested: Seq<char>, first: bool) -> Result<
    (Option<Seq<char>>, Seq<char>),
    Seq<char>,
> {
    let payload = (if first {
        course.original
    } else {
        course.changed
    }).with("model"@, Tree::Text(requested));
    match rewritten(course.rules, course.path, payload) {
        Err(message) => Err(message),
        Ok((Some(value), key)) => Ok((value.at("model"@).text(), key)),
        Ok((None, key)) => Ok((payload.at("model"@).text(), key)),
    }
}

/// Names put on a stack so that the first is taken first.
pub open spec fn stacked(pending: Seq<Seq<char>>, list: Seq<Seq<char>>) -> Seq<Seq<char>> {
    pending + list.reverse()
}

/// The candidates that the pending names lead to, behind those found.
pub open spec fn planned(
    course: Course,
    pending: Seq<Seq<char>>,
    seen: Seq<(Seq<char>, Seq<char>)>,
    found: Seq<Choice>,
) -> Result<Seq<Choice>, Seq<char>>
    decreases MAX_ATTEMPTS - found.len(), pending.len(),
{
    if pending.len() == 0 || found.len() >= MAX_ATTEMPTS {
        Ok(found)
    } else {
        let requested = pending.last();
        let rest = pending.drop_last();
        match resolved(course, requested, found.len() == 0) {
            Err(message) => Err(message),
            Ok((None, _)) => Ok(found),
            Ok((Some(actual), key)) => if seen.contains((actual, key)) {
                planned(course, rest, seen, found)
            } else {
                planned(
                    course,
                    stacked(rest, targets_of(course.fallbacks, actual)),
                    seen.push((actual, key)),
                    found.push(Choice { requested, actual }),
                )
            },
        }
    }
}

/// The candidates for a request.
pub open spec fn plan_of(course: Course) -> Result<Seq<Choice>, Seq<char>> {
    match course.original.at("model"@).text() {
        None => Ok(Seq::empty()),
        Some(model) => planned(course, seq![model], Seq::empty(), Seq::empty()),
    }
}

/// The views of names.
pub open spec fn names(list: Seq<String>) -> Seq<Seq<char>> {
    Seq::new(list.len(), |i: int| list[i]@)
}

/// The views of models with their keys.
pub open spec fn seen_views(seen: Seq<(String, String)>) -> Seq<(Seq<char>, Seq<char>)> {
    Seq::new(seen.len(), |i: int| (seen[i].0@, seen[i].1@))
}

fn is_seen(seen: &Vec<(String, String)>, actual: &str, key: &str) -> (r: bool)
    ensures
        r == seen_views(seen@).contains((actual@, key@)),
{
    let mut i: usize = 0;
    while i < seen.len()
        invariant
            i <= seen.len(),
            forall|k: int| 0 <= k < i ==> #[trigger] seen_views(seen@)[k] != (actual@, key@),
        decreases seen.len() - i,
    {
        if same(seen[i].0.as_str(), actual) && same(seen[i].1.as_str(), key) {
            assert(seen_views(seen@)[i as int] == (actual@, key@));
            return true;
        }
        assert(seen_views(seen@)[i as int] != (actual@, key@));
        i += 1;
    }
    false
}

fn stack(pending: &mut Vec<String>, list: &[String])
    ensures
        names(final(pending)@) == stacked(names(old(pending)@), list.deep_view()),
{
    let ghost before = names(pending@);
    let ghost turned = list.deep_view().reverse();
    let mut i: usize = list.len();
    proof {
        assert(before + turned.subrange(0, 0) =~= before);
    }
    while i > 0
        invariant
            i <= list.len(),
            turned == list.deep_view().reverse(),
            names(pending@) == before + turned.subrange(0, list.len() - i),
        decreases i,
    {
        let ghost prior = names(pending@);
        pending.push(list[i - 1].clone());
        proof {
            assert(names(pending@) =~= prior.push(list@[i - 1]@));
            assert(before + turned.subrange(0, list.len() - i + 1) =~= (before + turned.subrange(
                0,
                list.len() - i,
            )).push(turned[list.len() - i]));
            assert(turned[list.len() - i] == list@[i - 1]@);
        }
        i -= 1;
    }
    proof {
        assert(turned.subrange(0, list.len() as int) =~= turned);
    }
}

fn resolve(
    config: &Config,
    path: &str,
    original: &Json,
    changed: &Json,
    requested: &str,
    first: bool,
) -> (r: Result<(Option<String>, String), Error>)
    ensures
        outcome(r) == resolved(
            Course {
                rules: rules_of(*config),
                fallbacks: entries(config.fallbacks@),
                path: path@,
                original: original@,
                changed: changed@,
            },
            requested@,
            first,
        ),
{
    let base = if first {
        original
    } else {
        changed
    };
    let payload = base.copy().with("model", Json::text(requested));
    let named = match payload.at("model").as_str() {
        Some(model) => Some(model.to_string()),
        None => None,
    };
    let done = rewrite_value(config, path, payload)?;
    match done.value {
        Some(value) => {
            let actual = match value.at("model").as_str() {
                Some(model) => Some(model.to_string()),
                None => None,
            };
            Ok((actual, done.project))
        },
        None => Ok((named, done.project)),
    }
}

/// Resolves each candidate through the overwrite rules, and only then looks up fallback
/// rules. A model that is met twice under one key is tried once, which also bounds circles
/// that aliases close.
pub fn plan(config: &Config, path: &str, original: &Json, changed: &Json) -> (r: Result<
    Vec<Candidate>,
    Error,
>)
    ensures
        match r {
            Ok(list) => plan_of(
                Course {
                    rules: rules_of(*config),
                    fallbacks: entries(config.fallbacks@),
                    path: path@,
                    original: original@,
                    changed: changed@,
                },
            ) == Ok::<Seq<Choice>, Seq<char>>(choices(list@)),
            Err(error) => plan_of(
                Course {
                    rules: rules_of(*config),
                    fallbacks: entries(config.fallbacks@),
                    path: path@,
                    original: original@,
                    changed: changed@,
                },
            ) == Err::<Seq<Choice>, Seq<char>>(error.message@),
        },
{
    let ghost course = Course {
        rules: rules_of(*config),
        fallbacks: entries(config.fallbacks@),
        path: path@,
        original: original@,
        changed: changed@,
    };
    let mut candidates: Vec<Candidate> = Vec::new();
    let mut pending: Vec<String> = Vec::new();
    let mut seen: Vec<(String, String)> = Vec::new();
    proof {
        assert(choices(candidates@) =~= Seq::<Choice>::empty());
        assert(seen_views(seen@) =~= Seq::empty());
    }
    match original.at("model").as_str() {
        Some(model) => pending.push(model.to_string()),
        None => return Ok(candidates),
    }
    proof {
        assert(names(pending@) =~= seq![original@.at("model"@)->Text_0]);
    }
    while pending.len() > 0 && candidates.len() < MAX_ATTEMPTS
        invariant
            candidates.len() <= MAX_ATTEMPTS,
            course == (Course {
                rules: rules_of(*config),
                fallbacks: entries(config.fallbacks@),
                path: path@,
                original: original@,
                changed: changed@,
            }),
            plan_of(course) == planned(
                course,
                names(pending@),
                seen_views(seen@),
                choices(candidates@),
            ),
        decreases MAX_ATTEMPTS - candidates.len(), pending.len(),
    {
        let ghost all = names(pending@);
        let ghost met = seen_views(seen@);
        let ghost listed = choices(candidates@);
        let requested = match pending.pop() {
            Some(requested) => requested,
            None => return Ok(candidates),
        };
        proof {
            assert(names(pending@) =~= all.drop_last());
            assert(requested@ == all.last());
        }
        let (actual, key) = resolve(
            config,
            path,
            original,
            changed,
            requested.as_str(),
            candidates.len() == 0,
        )?;
        let actual = match actual {
            Some(actual) => actual,
            None => return Ok(candidates),
        };
        if !is_seen(&seen, actual.as_str(), key.as_str()) {
            let list = targets(&config.fallbacks, actual.as_str());
            stack(&mut pending, list);
            let ghost named = (actual@, key@);
            let ghost choice = Choice { requested: requested@, actual: actual@ };
            seen.push((actual.clone(), key));
            candidates.push(Candidate { requested, actual });
            proof {
                assert(seen_views(seen@) =~= met.push(named));
                assert(choices(candidates@) =~= listed.push(choice));
            }
        }
    }
    Ok(candidates)
}

/// What becomes of a request body for which several models may be tried.
pub enum Planned {
    /// It goes to its one model.
    Direct,
    /// It goes to its one model, since it cannot be repeated on another, for this reason.
    Skipped(&'static str),
    /// It goes to one candidate after the other: as it arrived, and as the rules change it.
    Each(Json, Json, Vec<Candidate>),
}

/// The view of what becomes of a request body.
pub ghost enum PlannedView {
    Direct,
    Skipped(Seq<char>),
    Each(Tree, Tree, Seq<Choice>),
}

impl DeepView for Planned {
    type V = PlannedView;

    open spec fn deep_view(&self) -> PlannedView {
        match *self {
            Planned::Direct => PlannedView::Direct,
            Planned::Skipped(reason) => PlannedView::Skipped(reason@),
            Planned::Each(value, changed, list) => PlannedView::Each(
                value@,
                changed@,
                choices(list@),
            ),
        }
    }
}

/// What becomes of a request body that is read, and of its form after the rules: several
/// models are tried where the plan has several and nothing speaks against a repetition.
pub open spec fn plan_for(course: Course) -> Result<PlannedView, Refused> {
    match plan_of(course) {
        Err(message) => Err(refused(400, message)),
        Ok(list) => if list.len() < 2 {
            Ok(PlannedView::Direct)
        } else {
            match blocker(course.original) {
                Some(reason) => Ok(PlannedView::Skipped(reason)),
                None => Ok(PlannedView::Each(course.original, course.changed, list)),
            }
        },
    }
}

/// What becomes of a request body: it is read, changed by the rules, and planned.
pub open spec fn body_plan(rules: RuleBook, fallbacks: Rules, path: Seq<char>, body: Seq<u8>) -> Result<
    PlannedView,
    Refused,
> {
    match parsed(body) {
        Err(_) => Err(refused(400, "Request body must be valid JSON"@)),
        Ok(original) => match rewritten_body(rules, path, body) {
            Err(message) => Err(refused(400, message)),
            Ok((bytes, _)) => match parsed(bytes) {
                Err(message) => Err(refused(400, message)),
                Ok(changed) => plan_for(Course { rules, fallbacks, path, original, changed }),
            },
        },
    }
}

/// Plans for the body of a request.
pub fn plan_body(config: &Config, path: &str, body: &Vec<u8>) -> (r: Result<Planned, Refusal>)
    ensures
        match r {
            Ok(plan) => body_plan(rules_of(*config), entries(config.fallbacks@), path@, body@)
                == Ok::<PlannedView, Refused>(plan.deep_view()),
            Err(refusal) => body_plan(rules_of(*config), entries(config.fallbacks@), path@, body@)
                == Err::<PlannedView, Refused>(refusal.deep_view()),
        },
{
    let value = match parse(body.as_slice()) {
        Ok(value) => value,
        Err(_) => return Err(refuse(400, "Request body must be valid JSON")),
    };
    let changed = match rewrite(config, path, body.clone()) {
        Ok((bytes, _)) => match parse(bytes.as_slice()) {
            Ok(changed) => changed,
            Err(error) => return Err(refuse(400, error.message.as_str())),
        },
        Err(error) => return Err(refuse(400, error.message.as_str())),
    };
    let candidates = match plan(config, path, &value, &changed) {
        Ok(candidates) => candidates,
        Err(error) => return Err(refuse(400, error.message.as_str())),
    };
    if candidates.len() < 2 {
        return Ok(Planned::Direct);
    }
    match replay_blocker(&value) {
        Some(reason) => Ok(Planned::Skipped(reason)),
        None => Ok(Planned::Each(value, changed, candidates)),
    }
}

/// The idempotency key of an attempt on another model. Keys are scoped to a deployment: a
/// different body under the same key can otherwise return the failed primary's response.
pub fn attempt_key(key: &[u8], model: &str) -> (r: String)
    ensures
        r@ == "hey-proxy-fallback-"@ + hex(sha256(key@.push(0u8) + encode_utf8(model@))),
{
    let mut bytes: Vec<u8> = Vec::new();
    bytes.extend_from_slice(key);
    bytes.push(0);
    bytes.extend_from_slice(model.as_bytes());
    proof {
        assert(bytes@ =~= key@.push(0u8) + encode_utf8(model@));
    }
    let hash = digest(bytes.as_slice());
    let shown = hex_text(&hash);
    join2("hey-proxy-fallback-", shown.as_str())
}

/// The idempotency key that an attempt carries instead of the client's, where it needs one: an
/// attempt on another model than the first does, where the client sent a key.
pub fn own_key(index: usize, key: Option<&[u8]>, candidate: &Candidate) -> (r: Option<String>)
    ensures
        r.deep_view() == (match key {
            Some(key) if index > 0 => Some(
                "hey-proxy-fallback-"@ + hex(
                    sha256(key@.push(0u8) + encode_utf8(candidate.actual@)),
                ),
            ),
            _ => None,
        }),
{
    match key {
        Some(key) => if index > 0 {
            Some(attempt_key(key, candidate.actual.as_str()))
        } else {
            None
        },
        None => None,
    }
}

/// The body of an attempt: the first is the request as it came; the others are the rewritten
/// request with the model that is tried.
pub open spec fn attempted(value: Tree, changed: Tree, requested: Seq<char>, index: nat) -> Tree {
    if index == 0 {
        value
    } else {
        changed.with("model"@, Tree::Text(requested))
    }
}

/// The body of an attempt.
pub fn attempt_payload(value: &Json, changed: &Json, candidate: &Candidate, index: usize) -> (r: Json)
    ensures
        r@ == attempted(value@, changed@, candidate.requested@, index as nat),
{
    if index == 0 {
        value.copy()
    } else {
        changed.copy().with("model", Json::text(candidate.requested.as_str()))
    }
}

/// The attempt that follows one, where there is one.
pub open spec fn attempt_after(index: nat, count: nat, switched: bool) -> Option<nat> {
    if switched && index + 1 < count {
        Some(index + 1)
    } else {
        None
    }
}

/// The attempt that follows one: the next, where this one's reply calls for another model and
/// there is one.
pub fn next_attempt(index: usize, count: usize, switched: bool) -> (r: Option<usize>)
    ensures
        r == (match attempt_after(index as nat, count as nat, switched) {
            Some(next) => Some(next as usize),
            None => None,
        }),
        r is Some ==> r->Some_0 == index + 1,
{
    if switched && index < count && index < count - 1 {
        Some(index + 1)
    } else {
        None
    }
}

/// What is recorded of an attempt before it is made.
pub open spec fn attempt_told(actual: Seq<char>, index: nat) -> Tree {
    Tree::Object(Seq::empty()).with("model"@, Tree::Text(actual)).with(
        "attempt"@,
        Tree::Number(NumberView::Unsigned((index + 1) as u64)),
    )
}

/// What is recorded of an attempt before it is made.
pub fn tell_attempt(candidate: &Candidate, index: usize) -> (r: Json)
    requires
        index < usize::MAX,
    ensures
        r@ == attempt_told(candidate.actual@, index as nat),
{
    Json::object().with("model", Json::text(candidate.actual.as_str())).with(
        "attempt",
        Json::natural(index as u64 + 1),
    )
}

/// What is recorded of an attempt after it.
pub fn tell_result(candidate: &Candidate, index: usize, reason: Option<&str>, status: u16) -> (r: Json)
    requires
        index < usize::MAX,
    ensures
        r@ == attempt_told(candidate.actual@, index as nat).with(
            "reason"@,
            match reason {
                Some(reason) => Tree::Text(reason@),
                None => Tree::Null,
            },
        ).with("status"@, Tree::Number(NumberView::Unsigned(status as u64))),
{
    let told = match reason {
        Some(reason) => Json::text(reason),
        None => Json::Null,
    };
    tell_attempt(candidate, index).with("reason", told).with(
        "status",
        Json::natural(status as u64),
    )
}

// ---- when to go on ------------------------------------------------------------------------

/// A status that tells of success.
pub open spec fn succeeds(status: u16) -> bool {
    200 <= status <= 299
}

/// What is known of a response before its body is read.
pub struct Reply {
    /// Whether the body is encoded other than as it is.
    pub encoded: bool,
    /// Whether the connection failed before the upstream could have acted.
    pub unreached: bool,
    /// Whether the response came from an upstream at all.
    pub upstream: bool,
    pub status: u16,
}

/// What becomes of an attempt.
#[derive(Clone, Copy, Debug)]
pub enum Look {
    /// More of the response is needed.
    More,
    /// The response goes to the client.
    Pass,
    /// The next model is tried, for this reason.
    Switch(&'static str),
}

/// The view of what becomes of an attempt.
pub ghost enum Judgement {
    More,
    Pass,
    Switch(Seq<char>),
}

impl View for Look {
    type V = Judgement;

    open spec fn view(&self) -> Judgement {
        match *self {
            Look::More => Judgement::More,
            Look::Pass => Judgement::Pass,
            Look::Switch(reason) => Judgement::Switch(reason@),
        }
    }
}

/// What a response's head tells: that it goes to the client, that another model is tried, or
/// that its body has to be read.
pub open spec fn head_judged(
    encoded: bool,
    unreached: bool,
    upstream: bool,
    status: u16,
) -> Judgement {
    if encoded {
        Judgement::Pass
    } else if unreached {
        Judgement::Switch("connection_error"@)
    } else if !upstream || (!succeeds(status) && !passing_status(status)) {
        Judgement::Pass
    } else {
        Judgement::More
    }
}

/// Judges a response by its head. Unreadable error bytes are never taken for a transient
/// failure, nor is a local failure taken for one of the upstream.
pub fn judge_head(reply: &Reply) -> (r: Look)
    ensures
        r@ == head_judged(reply.encoded, reply.unreached, reply.upstream, reply.status),
{
    if reply.encoded {
        return Look::Pass;
    }
    if reply.unreached {
        return Look::Switch("connection_error");
    }
    let success = 200 <= reply.status && reply.status <= 299;
    if !reply.upstream || (!success && !is_transient_status(reply.status)) {
        return Look::Pass;
    }
    Look::More
}

/// The inspection of the start of a response's body.
pub struct Inspection {
    pub sse: bool,
    pub status: u16,
    pub size: usize,
    pub prelude: SsePrelude,
    pub bytes: Vec<u8>,
}

/// The view of an inspection.
pub ghost struct Looking {
    pub sse: bool,
    pub status: u16,
    pub size: usize,
    pub opening: Opening,
    pub bytes: Seq<u8>,
}

impl View for Inspection {
    type V = Looking;

    open spec fn view(&self) -> Looking {
        Looking {
            sse: self.sse,
            status: self.status,
            size: self.size,
            opening: self.prelude@,
            bytes: self.bytes@,
        }
    }
}

impl Looking {
    /// The inspection after a chunk, and what becomes of the attempt.
    pub open spec fn chunk(self, chunk: Seq<u8>) -> (Looking, Judgement) {
        let size = if self.size + chunk.len() > usize::MAX {
            usize::MAX
        } else {
            (self.size + chunk.len()) as usize
        };
        let watched = self.sse && succeeds(self.status);
        let opening = if watched {
            self.opening.bytes(chunk, 0)
        } else {
            self.opening
        };
        let next = Looking { size, opening, bytes: self.bytes + chunk, ..self };
        (
            next,
            if watched && opening.decision == Prelude::Committed {
                Judgement::Pass
            } else if watched && opening.decision == Prelude::Refused {
                Judgement::Switch("stream_refusal"@)
            } else if size >= MAX_PRELUDE {
                Judgement::Pass
            } else {
                Judgement::More
            },
        )
    }

    /// What becomes of the attempt at the end of the body.
    pub open spec fn end(self) -> Judgement {
        if !succeeds(self.status) {
            if passes(self.status, body_value(self.bytes)) {
                Judgement::Switch("http_transient"@)
            } else {
                Judgement::Pass
            }
        } else if self.sse {
            Judgement::Switch("pre_output_eof"@)
        } else if event_told(self.bytes, self.opening.gemini) == Prelude::Refused {
            Judgement::Switch("json_refusal"@)
        } else {
            Judgement::Pass
        }
    }
}

impl Inspection {
    /// While there is no decision, the bytes stay within their bound.
    pub open spec fn wf(&self) -> bool {
        self.prelude.wf()
    }

    pub fn new(sse: bool, status: u16, gemini: bool) -> (r: Inspection)
        ensures
            r.wf(),
            r@ == (Looking {
                sse,
                status,
                size: 0,
                opening: Opening {
                    line: Seq::empty(),
                    data: Seq::empty(),
                    total: 0,
                    gemini,
                    decision: Prelude::Waiting,
                },
                bytes: Seq::empty(),
            }),
    {
        Inspection { sse, status, size: 0, prelude: SsePrelude::new(gemini), bytes: Vec::new() }
    }

    /// Takes a chunk of the body.
    pub fn chunk(&mut self, chunk: &[u8]) -> (r: Look)
        requires
            old(self).wf(),
        ensures
            (final(self)@, r@) == old(self)@.chunk(chunk@),
            final(self).wf(),
    {
        self.size = if chunk.len() > usize::MAX - self.size {
            usize::MAX
        } else {
            self.size + chunk.len()
        };
        let watched = self.sse && 200 <= self.status && self.status <= 299;
        let mut decision = Prelude::Waiting;
        if watched {
            decision = self.prelude.feed(chunk);
        }
        let ghost before = self.bytes@;
        self.bytes.extend_from_slice(chunk);
        proof {
            assert(self.bytes@ =~= before + chunk@);
        }
        if decision == Prelude::Committed {
            return Look::Pass;
        }
        if decision == Prelude::Refused {
            return Look::Switch("stream_refusal");
        }
        if self.size >= MAX_PRELUDE {
            return Look::Pass;
        }
        Look::More
    }

    /// The body broke off. No output has been committed, and the failure reaches the
    /// client if this is the last candidate.
    pub fn broken(&self) -> (r: Look)
        ensures
            r@ == Judgement::Switch("pre_output_disconnect"@),
    {
        Look::Switch("pre_output_disconnect")
    }

    /// The body ended.
    pub fn end(&self) -> (r: Look)
        ensures
            r@ == self@.end(),
    {
        if !(200 <= self.status && self.status <= 299) {
            if transient_http(self.status, self.bytes.as_slice()) {
                return Look::Switch("http_transient");
            }
            return Look::Pass;
        }
        if self.sse {
            return Look::Switch("pre_output_eof");
        }
        if prelude_event(self.bytes.as_slice(), self.prelude.gemini) == Prelude::Refused {
            return Look::Switch("json_refusal");
        }
        Look::Pass
    }
}

// ---- laws ------------------------------------------------------------------------------------

proof fn plan_is_bounded_from(
    course: Course,
    pending: Seq<Seq<char>>,
    seen: Seq<(Seq<char>, Seq<char>)>,
    found: Seq<Choice>,
)
    requires
        found.len() <= MAX_ATTEMPTS,
    ensures
        planned(course, pending, seen, found) matches Ok(list) ==> list.len() <= MAX_ATTEMPTS
            && found.is_prefix_of(list),
    decreases MAX_ATTEMPTS - found.len(), pending.len(),
{
    if pending.len() > 0 && found.len() < MAX_ATTEMPTS {
        let requested = pending.last();
        let rest = pending.drop_last();
        match resolved(course, requested, found.len() == 0) {
            Ok((Some(actual), key)) => if seen.contains((actual, key)) {
                plan_is_bounded_from(course, rest, seen, found);
            } else {
                let longer = found.push(Choice { requested, actual });
                plan_is_bounded_from(
                    course,
                    stacked(rest, targets_of(course.fallbacks, actual)),
                    seen.push((actual, key)),
                    longer,
                );
                match planned(
                    course,
                    stacked(rest, targets_of(course.fallbacks, actual)),
                    seen.push((actual, key)),
                    longer,
                ) {
                    Ok(list) => {
                        assert(longer =~= list.subrange(0, longer.len() as int));
                        assert(found =~= list.subrange(0, found.len() as int)) by {
                            assert forall|i: int| 0 <= i < found.len() implies found[i] == list[i] by {
                                assert(longer[i] == list.subrange(0, longer.len() as int)[i]);
                            }
                        }
                    },
                    Err(_) => {},
                }
            },
            _ => {
                assert(found =~= found.subrange(0, found.len() as int));
            },
        }
    } else {
        assert(found =~= found.subrange(0, found.len() as int));
    }
}

/// A plan never tries more than sixteen models, whatever circles the rules close.
pub proof fn plans_are_bounded(course: Course)
    ensures
        plan_of(course) matches Ok(list) ==> list.len() <= MAX_ATTEMPTS,
{
    match course.original.at("model"@).text() {
        Some(model) => plan_is_bounded_from(course, seq![model], Seq::empty(), Seq::empty()),
        None => {},
    }
}

/// The model that was asked for comes first, as the overwrite rules make it; where there is
/// no fallback for what they make of it, it is the only one.
pub proof fn the_asked_model_comes_first(
    course: Course,
    model: Seq<char>,
    actual: Seq<char>,
    key: Seq<char>,
)
    requires
        course.original.at("model"@).text() == Some(model),
        resolved(course, model, true) == Ok::<(Option<Seq<char>>, Seq<char>), Seq<char>>(
            (Some(actual), key),
        ),
    ensures
        plan_of(course) matches Ok(list) ==> list.len() > 0 && list[0] == (Choice {
            requested: model,
            actual,
        }),
        targets_of(course.fallbacks, actual).len() == 0 ==> plan_of(course) == Ok::<
            Seq<Choice>,
            Seq<char>,
        >(seq![Choice { requested: model, actual }]),
{
    reveal_with_fuel(planned, 2);
    let first = seq![Choice { requested: model, actual }];
    let none = Seq::<Choice>::empty();
    let unseen = Seq::<(Seq<char>, Seq<char>)>::empty();
    let pending = seq![model];
    assert(pending.last() == model);
    assert(!unseen.contains((actual, key)));
    assert(none.push(Choice { requested: model, actual }) =~= first);
    let next = stacked(pending.drop_last(), targets_of(course.fallbacks, actual));
    plan_is_bounded_from(course, next, unseen.push((actual, key)), first);
    match plan_of(course) {
        Ok(list) => {
            assert(first =~= list.subrange(0, 1));
            assert(first[0] == list.subrange(0, 1)[0]);
        },
        Err(_) => {},
    }
}

/// Fallbacks are looked up for the model that the overwrite rules lead to, and tried in
/// their order: the first of them comes second, as the rules make it in turn.
pub proof fn fallbacks_follow_the_actual_model(
    course: Course,
    model: Seq<char>,
    actual: Seq<char>,
    key: Seq<char>,
    next: Seq<char>,
    next_key: Seq<char>,
)
    requires
        course.original.at("model"@).text() == Some(model),
        resolved(course, model, true) == Ok::<(Option<Seq<char>>, Seq<char>), Seq<char>>(
            (Some(actual), key),
        ),
        targets_of(course.fallbacks, actual).len() > 0,
        resolved(course, targets_of(course.fallbacks, actual)[0], false) == Ok::<
            (Option<Seq<char>>, Seq<char>),
            Seq<char>,
        >((Some(next), next_key)),
        (next, next_key) != (actual, key),
    ensures
        plan_of(course) matches Ok(list) ==> list.len() > 1 && list[1] == (Choice {
            requested: targets_of(course.fallbacks, actual)[0],
            actual: next,
        }),
{
    reveal_with_fuel(planned, 3);
    let targets = targets_of(course.fallbacks, actual);
    let first = Choice { requested: model, actual };
    let second = Choice { requested: targets[0], actual: next };
    let unseen = Seq::<(Seq<char>, Seq<char>)>::empty();
    let pending = seq![model];
    assert(pending.last() == model);
    assert(!unseen.contains((actual, key)));
    let stack = stacked(pending.drop_last(), targets);
    assert(stack.last() == targets[0]);
    let seen = unseen.push((actual, key));
    assert(!seen.contains((next, next_key)));
    let found = Seq::<Choice>::empty().push(first).push(second);
    plan_is_bounded_from(
        course,
        stacked(stack.drop_last(), targets_of(course.fallbacks, next)),
        seen.push((next, next_key)),
        found,
    );
    match plan_of(course) {
        Ok(list) => {
            assert(found =~= list.subrange(0, 2));
            assert(found[1] == list.subrange(0, 2)[1]);
        },
        Err(_) => {},
    }
}

/// An attempt on another model differs from the rewritten request in its model alone.
pub proof fn attempts_keep_the_request(
    value: Tree,
    changed: Tree,
    requested: Seq<char>,
    index: nat,
    key: Seq<char>,
)
    requires
        changed is Object,
        index > 0,
        key != "model"@,
    ensures
        attempted(value, changed, requested, index).at(key) == changed.at(key),
        attempted(value, changed, requested, index).at("model"@) == Tree::Text(requested),
        attempted(value, changed, requested, 0) == value,
{
    let fields = changed->Object_0;
    put_then_find(fields, "model"@, Tree::Text(requested));
    put_keeps_others(fields, "model"@, Tree::Text(requested), key);
}

} // verus!

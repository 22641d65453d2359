//! Capacity failures, translated to errors that clients retry.

use vstd::prelude::*;
use vstd::string::{StrSliceExecFns, StringExecFns, StringSliceAdditionalSpecFns};
use vstd::utf8::{decode_utf8, encode_utf8, encode_utf8_decode_utf8, valid_utf8};
use crate::exchange::{parse, parsed, to_text, written};
use crate::fallback::{with_data, without_return};
use crate::gemini::parts::empty_object;
use crate::gemini::response::number;
use crate::guidance::{is_security_block, security_code};
use crate::sse::{data_name, data_value, is_data, part, read_data, CR, LF};
use crate::table::{put_keeps_others, put_then_find};
use crate::text::{contains, join2, lowered, occurs, read_utf8, same, starts_with, to_lower};
use crate::tree::{json_views, Json, Tree};

verus! {

broadcast use json_views;

/// How much of an event is kept for inspection.
pub const LIMIT: usize = 1048576;

/// What the start of a response tells: nothing yet, that output has begun, or that the
/// model refused for want of capacity.
#[derive(Clone, Copy, Debug, PartialEq, Eq, Structural)]
pub enum Prelude {
    Waiting,
    Started,
    Refused,
}

// ---- classifying errors ------------------------------------------------------------

/// A code that tells of a lasting failure.
pub open spec fn lasting_code(code: Seq<char>) -> bool {
    security_code(code) || code == "insufficient_quota"@ || code == "invalid_prompt"@ || code == "billing_hard_limit_reached"@ || code == "billing_not_active"@ || code == "invalid_api_key"@ || code == "credit_balance_exhausted"@ || code == "organization_spend_limit_exceeded"@ || code == "project_spend_limit_exceeded"@
}

/// Whether a code tells of a lasting failure.
pub(crate) fn is_lasting_code(code: &str) -> (r: bool)
    ensures
        r == lasting_code(code@),
{
    is_security_block(code) || same(code, "insufficient_quota") || same(code, "invalid_prompt") || same(code, "billing_hard_limit_reached") || same(code, "billing_not_active") || same(code, "invalid_api_key") || same(code, "credit_balance_exhausted") || same(code, "organization_spend_limit_exceeded") || same(code, "project_spend_limit_exceeded")
}

/// A member's text, or none.
pub open spec fn text_at(value: Tree, key: Seq<char>) -> Seq<char> {
    match value.at(key).text() {
        Some(text) => text,
        None => ""@,
    }
}

/// A member's text, or none.
pub(crate) fn read_text<'a>(value: &'a Json, key: &str) -> (r: &'a str)
    ensures
        r@ == text_at(value@, key@),
{
    match value.at(key).as_str() {
        Some(text) => text,
        None => "",
    }
}

/// Whether an error is lasting.
pub open spec fn lasting(error: Tree) -> bool {
    lasting_code(text_at(error, "code"@)) || lasting_code(text_at(error, "type"@))
}

pub(crate) fn permanent(error: &Json) -> (r: bool)
    ensures
        r == lasting(error@),
{
    is_lasting_code(read_text(error, "code")) || is_lasting_code(read_text(error, "type"))
}

/// A message that tells of a lack of capacity.
pub open spec fn tells_capacity(message: Seq<char>) -> bool {
    let low = lowered(message);
    occurs("overloaded"@, low) || occurs("out of capacity"@, low) || occurs("at capacity"@, low)
        || occurs("capacity_exceeded"@, low)
}

/// Whether a message tells of a lack of capacity.
pub fn capacity_message(message: &str) -> (r: bool)
    ensures
        r == tells_capacity(message@),
{
    let low = to_lower(message);
    let low = low.as_str();
    contains(low, "overloaded") || contains(low, "out of capacity") || contains(low, "at capacity")
        || contains(low, "capacity_exceeded")
}

/// A code that tells of a lack of capacity.
pub open spec fn capacity_code(code: Seq<char>) -> bool {
    code == "server_is_overloaded"@ || code == "capacity_exceeded"@
}

/// Whether an error was translated before.
pub open spec fn translated_before(error: Tree) -> bool {
    text_at(error, "code"@) == "server_error"@
        && "Upstream model is at capacity; hey-proxy translated"@.is_prefix_of(
        text_at(error, "message"@),
    )
}

/// Whether an error tells of a lack of capacity.
pub open spec fn lacks_capacity(error: Tree) -> bool {
    !lasting(error) && !translated_before(error) && (capacity_code(text_at(error, "code"@))
        || capacity_code(text_at(error, "type"@)) || tells_capacity(text_at(error, "message"@)))
}

fn is_capacity_code(code: &str) -> (r: bool)
    ensures
        r == capacity_code(code@),
{
    same(code, "server_is_overloaded") || same(code, "capacity_exceeded")
}

fn is_capacity(error: &Json) -> (r: bool)
    ensures
        r == lacks_capacity(error@),
{
    let message = read_text(error, "message");
    if permanent(error) || (same(read_text(error, "code"), "server_error") && starts_with(
        message,
        "Upstream model is at capacity; hey-proxy translated",
    )) {
        return false;
    }
    is_capacity_code(read_text(error, "code")) || is_capacity_code(read_text(error, "type"))
        || capacity_message(message)
}

// ---- translating errors --------------------------------------------------------------

/// The message of a translated error.
pub open spec fn translated_message(original: Seq<char>) -> Seq<char> {
    "Upstream model is at capacity; hey-proxy translated this capacity failure to a retryable server error. Original upstream message: "@
        + (if original.len() == 0 {
        "(none provided)"@
    } else {
        original
    })
}

/// A capacity error as a server error that keeps its cause.
pub open spec fn translated(error: Tree) -> Option<Tree> {
    if !(error is Object) || !lacks_capacity(error) {
        None
    } else {
        let noted = match error.get("code"@) {
            Some(code) => error.with("upstream_code"@, code),
            None => error,
        };
        Some(
            noted.with("code"@, Tree::Text("server_error"@)).with(
                "type"@,
                Tree::Text("server_error"@),
            ).with("message"@, Tree::Text(translated_message(text_at(error, "message"@)))),
        )
    }
}

fn rewrite_error(error: &Json) -> (r: Option<Json>)
    ensures
        r.deep_view() == translated(error@),
{
    if !error.is_object() || !is_capacity(error) {
        return None;
    }
    let original = read_text(error, "message");
    let told = if original.is_empty() {
        "(none provided)"
    } else {
        original
    };
    let message = join2(
        "Upstream model is at capacity; hey-proxy translated this capacity failure to a retryable server error. Original upstream message: ",
        told,
    );
    let mut noted = error.copy();
    match error.get("code") {
        Some(code) => noted.set("upstream_code", code.copy()),
        None => {},
    }
    Some(
        noted.with("code", Json::text("server_error")).with(
            "type",
            Json::text("server_error"),
        ).with("message", Json::String(message)),
    )
}

/// An event whose error lacks capacity, translated.
pub open spec fn translated_event(value: Tree) -> Option<Tree> {
    if value.at("type"@) == Tree::Text("response.failed"@) {
        match translated(value.at("response"@).at("error"@)) {
            Some(error) => Some(
                value.with("response"@, value.at("response"@).with("error"@, error)),
            ),
            None => None,
        }
    } else if value.at("type"@) == Tree::Text("error"@) {
        match translated(value.at("error"@)) {
            Some(error) => {
                let failed = value.with("error"@, error).with("status"@, number(500));
                Some(
                    if failed.has("status_code"@) {
                        failed.with("status_code"@, number(500))
                    } else {
                        failed
                    },
                )
            },
            None => None,
        }
    } else {
        None
    }
}

/// Translates an event whose error lacks capacity; ordinary model output is no such
/// event.
pub fn translate_event(value: &Json) -> (r: Option<Json>)
    ensures
        r.deep_view() == translated_event(value@),
{
    if value.at("type").is("response.failed") {
        let response = value.at("response");
        match rewrite_error(response.at("error")) {
            Some(error) => Some(
                value.copy().with("response", response.copy().with("error", error)),
            ),
            None => None,
        }
    } else if value.at("type").is("error") {
        match rewrite_error(value.at("error")) {
            Some(error) => {
                let mut failed = value.copy().with("error", error).with(
                    "status",
                    Json::natural(500),
                );
                if failed.has("status_code") {
                    failed.set("status_code", Json::natural(500));
                }
                Some(failed)
            },
            None => None,
        }
    } else {
        None
    }
}

/// The bytes of an event, translated.
pub open spec fn event_bytes(data: Seq<u8>) -> Option<Seq<u8>> {
    match parsed(data) {
        Err(_) => None,
        Ok(value) => match translated_event(value) {
            None => None,
            Some(changed) => Some(encode_utf8(written(changed))),
        },
    }
}

/// Translates the data of an event. Only error envelopes are changed; ordinary model
/// output remains untouched.
pub fn event(bytes: &[u8]) -> (r: Option<Vec<u8>>)
    ensures
        match r {
            Some(out) => event_bytes(bytes@) == Some(out@),
            None => event_bytes(bytes@) is None,
        },
{
    match parse(bytes) {
        Err(_) => None,
        Ok(value) => match translate_event(&value) {
            None => None,
            Some(changed) => Some(to_text(&changed).as_str().as_bytes_vec()),
        },
    }
}

/// A body whose error lacks capacity, translated.
pub open spec fn translated_body(value: Tree) -> Option<Tree> {
    match translated(value.at("error"@)) {
        Some(error) => Some(value.with("error"@, error)),
        None => None,
    }
}

/// Translates a body whose error lacks capacity.
pub fn translate_body(value: &Json) -> (r: Option<Json>)
    ensures
        r.deep_view() == translated_body(value@),
{
    match rewrite_error(value.at("error")) {
        Some(error) => Some(value.copy().with("error", error)),
        None => None,
    }
}

/// The value of a body: JSON, or text that tells of a lack of capacity.
pub open spec fn error_body(bytes: Seq<u8>) -> Option<Tree> {
    match parsed(bytes) {
        Ok(value) => Some(value),
        Err(_) => if valid_utf8(bytes) && tells_capacity(decode_utf8(bytes)) {
            Some(
                empty_object().with(
                    "error"@,
                    empty_object().with("message"@, Tree::Text(decode_utf8(bytes))),
                ),
            )
        } else {
            None
        },
    }
}

fn read_error_body(bytes: &[u8]) -> (r: Option<Json>)
    ensures
        r.deep_view() == error_body(bytes@),
{
    match parse(bytes) {
        Ok(value) => Some(value),
        Err(_) => match read_utf8(bytes) {
            Ok(message) => {
                proof {
                    encode_utf8_decode_utf8(message@);
                    assert(decode_utf8(bytes@) == message@);
                }
                if capacity_message(message) {
                    Some(
                        Json::object().with(
                            "error",
                            Json::object().with("message", Json::text(message)),
                        ),
                    )
                } else {
                    None
                }
            },
            Err(_) => None,
        },
    }
}

/// The bytes of an error body, translated.
pub open spec fn body_bytes(bytes: Seq<u8>) -> Option<Seq<u8>> {
    match error_body(bytes) {
        None => None,
        Some(value) => match translated_body(value) {
            None => None,
            Some(changed) => Some(encode_utf8(written(changed))),
        },
    }
}

/// Translates an error body.
pub fn http(bytes: &[u8]) -> (r: Option<Vec<u8>>)
    ensures
        match r {
            Some(out) => body_bytes(bytes@) == Some(out@),
            None => body_bytes(bytes@) is None,
        },
{
    match read_error_body(bytes) {
        None => None,
        Some(value) => match translate_body(&value) {
            None => None,
            Some(changed) => Some(to_text(&changed).as_str().as_bytes_vec()),
        },
    }
}

// ---- the start of a response -----------------------------------------------------------

/// Whether an event is a definitive refusal.
pub open spec fn refuses(value: Tree) -> bool {
    translated_event(value) is Some || ((value.at("type"@) == Tree::Text("error"@) || value.at(
        "type"@,
    ) == Tree::Text("response.failed"@)) && (value.at("error"@).at("code"@) == Tree::Text(
        "rate_limit_exceeded"@,
    ) || value.at("response"@).at("error"@).at("code"@) == Tree::Text("rate_limit_exceeded"@)))
}

/// What an event at the start of a response tells. Only a definitive capacity refusal
/// before output is safe to replay.
pub open spec fn told(value: Tree) -> Prelude {
    if lasting(value.at("error"@)) || lasting(value.at("response"@).at("error"@)) {
        Prelude::Started
    } else if (value.at("response"@).at("output"@).items() matches Some(list) && list.len() > 0) || (
    value.at("response"@).at("usage"@).at("output_tokens"@).natural() matches Some(n) && n > 0) {
        Prelude::Started
    } else if refuses(value) {
        Prelude::Refused
    } else if value.at("type"@) == Tree::Text("response.created"@) || value.at("type"@)
        == Tree::Text("response.in_progress"@) {
        Prelude::Waiting
    } else {
        Prelude::Started
    }
}

/// What an event at the start of a response tells.
pub fn judge_event(value: &Json) -> (r: Prelude)
    ensures
        r == told(value@),
{
    let response = value.at("response");
    if permanent(value.at("error")) || permanent(response.at("error")) {
        return Prelude::Started;
    }
    match response.at("output").as_array() {
        Some(list) => if list.len() > 0 {
            return Prelude::Started;
        },
        None => {},
    }
    match response.at("usage").at("output_tokens").as_u64() {
        Some(n) => if n > 0 {
            return Prelude::Started;
        },
        None => {},
    }
    let kind = value.at("type");
    if translate_event(value).is_some() || ((kind.is("error") || kind.is("response.failed")) && (
    value.at("error").at("code").is("rate_limit_exceeded") || response.at("error").at("code").is(
        "rate_limit_exceeded",
    ))) {
        return Prelude::Refused;
    }
    if kind.is("response.created") || kind.is("response.in_progress") {
        Prelude::Waiting
    } else {
        Prelude::Started
    }
}

/// What the data of an event tells.
pub open spec fn event_told(data: Seq<u8>) -> Prelude {
    match parsed(data) {
        Ok(value) => told(value),
        Err(_) => Prelude::Started,
    }
}

/// What the data of an event tells. Lifecycle events are held back, so that rejected
/// response ids never reach the client.
pub fn prelude_event(bytes: &[u8]) -> (r: Prelude)
    ensures
        r == event_told(bytes@),
{
    match parse(bytes) {
        Ok(value) => judge_event(&value),
        Err(_) => Prelude::Started,
    }
}

// ---- lines -------------------------------------------------------------------------------

/// The place behind the line that starts at `from`.
pub open spec fn line_stop(bytes: Seq<u8>, from: int) -> int
    decreases bytes.len() - from,
{
    if from < 0 || from >= bytes.len() {
        from
    } else if bytes[from] == LF {
        from + 1
    } else {
        line_stop(bytes, from + 1)
    }
}

pub(crate) proof fn line_advances(bytes: Seq<u8>, from: int)
    requires
        0 <= from <= bytes.len(),
    ensures
        from <= line_stop(bytes, from) <= bytes.len(),
        from < bytes.len() ==> from < line_stop(bytes, from),
    decreases bytes.len() - from,
{
    if from < bytes.len() {
        line_advances(bytes, from + 1);
    }
}

pub(crate) fn find_stop(bytes: &Vec<u8>, from: usize) -> (stop: usize)
    requires
        from <= bytes.len(),
    ensures
        stop == line_stop(bytes@, from as int),
        from <= stop <= bytes.len(),
        from < bytes.len() ==> from < stop,
{
    let mut i: usize = from;
    while i < bytes.len()
        invariant
            from <= i <= bytes.len(),
            line_stop(bytes@, from as int) == line_stop(bytes@, i as int),
        decreases bytes.len() - i,
    {
        if bytes[i] == LF {
            return i + 1;
        }
        i += 1;
    }
    i
}

/// A line without its line feed.
pub open spec fn without_feed(line: Seq<u8>) -> Seq<u8> {
    if line.len() > 0 && line.last() == LF {
        line.drop_last()
    } else {
        line
    }
}

/// A line without its ending.
pub open spec fn bare_line(line: Seq<u8>) -> Seq<u8> {
    without_return(without_feed(line))
}

pub(crate) fn strip_line(line: &Vec<u8>) -> (r: Vec<u8>)
    ensures
        r@ == bare_line(line@),
{
    let mut end: usize = line.len();
    if end > 0 && line[end - 1] == LF {
        end = end - 1;
        proof {
            assert(line@.subrange(0, end as int) =~= line@.drop_last());
        }
    } else {
        proof {
            assert(line@.subrange(0, end as int) =~= line@);
        }
    }
    proof {
        assert(line@.subrange(0, end as int) == without_feed(line@));
    }
    if end > 0 && line[end - 1] == CR {
        end = end - 1;
    }
    let r = part(line, 0, end);
    proof {
        assert(r@ =~= bare_line(line@));
    }
    r
}

/// What the lines from `from` on tell.
pub open spec fn lines_told(bytes: Seq<u8>, from: int, complete: bool, data: Seq<u8>) -> Prelude
    decreases bytes.len() - from,
    via lines_told_decreases
{
    if from < 0 || from >= bytes.len() {
        if !complete {
            Prelude::Waiting
        } else if data.len() == 0 {
            Prelude::Started
        } else {
            event_told(data)
        }
    } else {
        let stop = line_stop(bytes, from);
        let line = bytes.subrange(from, stop);
        if line.last() != LF && !complete {
            Prelude::Waiting
        } else if bare_line(line).len() == 0 {
            if data.len() > 0 && event_told(data) != Prelude::Waiting {
                event_told(data)
            } else {
                lines_told(bytes, stop, complete, Seq::empty())
            }
        } else {
            lines_told(
                bytes,
                stop,
                complete,
                match data_value(bare_line(line)) {
                    Some(value) => with_data(data, value),
                    None => data,
                },
            )
        }
    }
}

#[via_fn]
proof fn lines_told_decreases(bytes: Seq<u8>, from: int, complete: bool, data: Seq<u8>) {
    if 0 <= from < bytes.len() {
        line_advances(bytes, from);
    }
}

/// What the start of an event stream tells.
pub open spec fn stream_told(bytes: Seq<u8>, complete: bool) -> Prelude {
    if bytes.len() >= LIMIT {
        Prelude::Started
    } else {
        lines_told(bytes, 0, complete, Seq::empty())
    }
}

fn add_data(data: &mut Vec<u8>, value: &Vec<u8>)
    ensures
        final(data)@ == with_data(old(data)@, value@),
{
    if data.len() > 0 {
        data.push(LF);
    }
    data.extend_from_slice(value.as_slice());
    proof {
        assert(data@ =~= with_data(old(data)@, value@));
    }
}

/// What the start of an event stream tells; `complete` says that no more will come.
pub fn prelude_sse(bytes: &Vec<u8>, complete: bool) -> (r: Prelude)
    ensures
        r == stream_told(bytes@, complete),
{
    if bytes.len() >= LIMIT {
        return Prelude::Started;
    }
    let mut data: Vec<u8> = Vec::new();
    let mut i: usize = 0;
    while i < bytes.len()
        invariant
            i <= bytes.len() < LIMIT,
            stream_told(bytes@, complete) == lines_told(bytes@, i as int, complete, data@),
        decreases bytes.len() - i,
    {
        let stop = find_stop(bytes, i);
        let line = part(bytes, i, stop);
        if line[line.len() - 1] != LF && !complete {
            return Prelude::Waiting;
        }
        let bare = strip_line(&line);
        if bare.len() == 0 {
            if data.len() > 0 {
                let result = prelude_event(data.as_slice());
                if result != Prelude::Waiting {
                    return result;
                }
            }
            data = Vec::new();
        } else {
            match read_data(&bare) {
                Some(value) => add_data(&mut data, &value),
                None => {},
            }
        }
        i = stop;
    }
    if !complete {
        Prelude::Waiting
    } else if data.len() == 0 {
        Prelude::Started
    } else {
        prelude_event(data.as_slice())
    }
}

// ---- translating a stream ------------------------------------------------------------------

/// The data of a frame, from the lines from `from` on.
pub open spec fn frame_data(frame: Seq<u8>, from: int, data: Seq<u8>) -> Seq<u8>
    decreases frame.len() - from,
    via frame_data_decreases
{
    if from < 0 || from >= frame.len() {
        data
    } else {
        let stop = line_stop(frame, from);
        frame_data(
            frame,
            stop,
            match data_value(bare_line(frame.subrange(from, stop))) {
                Some(value) => with_data(data, value),
                None => data,
            },
        )
    }
}

#[via_fn]
proof fn frame_data_decreases(frame: Seq<u8>, from: int, data: Seq<u8>) {
    if 0 <= from < frame.len() {
        line_advances(frame, from);
    }
}

/// The ending of a line.
pub open spec fn line_ending(line: Seq<u8>) -> Seq<u8> {
    if line.len() >= 2 && line.last() == LF && line[line.len() - 2] == CR {
        seq![CR, LF]
    } else if line.len() >= 1 && line.last() == LF {
        seq![LF]
    } else {
        Seq::empty()
    }
}

/// `data: ` in bytes.
pub open spec fn data_start() -> Seq<u8> {
    data_name().push(32u8)
}

/// A frame with its data lines replaced by one, from the lines from `from` on.
pub open spec fn frame_with(
    frame: Seq<u8>,
    from: int,
    data: Seq<u8>,
    inserted: bool,
    out: Seq<u8>,
) -> Seq<u8>
    decreases frame.len() - from,
    via frame_with_decreases
{
    if from < 0 || from >= frame.len() {
        out
    } else {
        let stop = line_stop(frame, from);
        let line = frame.subrange(from, stop);
        if data_name().is_prefix_of(line) {
            if inserted {
                frame_with(frame, stop, data, true, out)
            } else {
                frame_with(
                    frame,
                    stop,
                    data,
                    true,
                    out + data_start() + data + line_ending(line),
                )
            }
        } else {
            frame_with(frame, stop, data, inserted, out + line)
        }
    }
}

#[via_fn]
proof fn frame_with_decreases(
    frame: Seq<u8>,
    from: int,
    data: Seq<u8>,
    inserted: bool,
    out: Seq<u8>,
) {
    if 0 <= from < frame.len() {
        line_advances(frame, from);
    }
}

/// A frame as it is passed on: translated where its event lacks capacity.
pub open spec fn passed_frame(frame: Seq<u8>) -> Seq<u8> {
    match event_bytes(frame_data(frame, 0, Seq::empty())) {
        None => frame,
        Some(data) => frame_with(frame, 0, data, false, Seq::empty()),
    }
}

/// Whether a frame is translated.
pub open spec fn frame_changes(frame: Seq<u8>) -> bool {
    event_bytes(frame_data(frame, 0, Seq::empty())) is Some
}

/// A translation of an event stream. One event is held back at a time, untouched bytes
/// are passed on as they are, and memory is bounded: oversized events pass unchanged
/// until the blank line that ends them.
pub struct Sse {
    pub buffer: Vec<u8>,
    pub overflow: bool,
    pub line_nonempty: bool,
}

/// The view of a translation.
pub ghost struct Passing {
    pub buffer: Seq<u8>,
    pub overflow: bool,
    pub line_nonempty: bool,
}

impl View for Sse {
    type V = Passing;

    open spec fn view(&self) -> Passing {
        Passing {
            buffer: self.buffer@,
            overflow: self.overflow,
            line_nonempty: self.line_nonempty,
        }
    }
}

impl Passing {
    /// The state after a byte, and the bytes passed on.
    pub open spec fn byte(self, byte: u8) -> (Passing, Seq<u8>) {
        let held = if self.overflow {
            self.buffer
        } else {
            self.buffer.push(byte)
        };
        let passed = if self.overflow {
            seq![byte]
        } else {
            Seq::empty()
        };
        let (buffer, out, overflow) = if byte == LF && !self.line_nonempty {
            if self.overflow {
                (held, passed, false)
            } else {
                (Seq::empty(), passed_frame(held), false)
            }
        } else {
            (held, passed, self.overflow)
        };
        let line_nonempty = if byte == LF {
            false
        } else {
            self.line_nonempty || byte != CR
        };
        if buffer.len() >= LIMIT {
            (Passing { buffer: Seq::empty(), overflow: true, line_nonempty }, out + buffer)
        } else {
            (Passing { buffer, overflow, line_nonempty }, out)
        }
    }

    /// The state after the bytes from `from` on, and the bytes passed on.
    pub open spec fn bytes(self, bytes: Seq<u8>, from: int, out: Seq<u8>) -> (Passing, Seq<u8>)
        decreases bytes.len() - from,
    {
        if from < 0 || from >= bytes.len() {
            (self, out)
        } else {
            let (next, more) = self.byte(bytes[from]);
            next.bytes(bytes, from + 1, out + more)
        }
    }
}

fn collect_data(frame: &Vec<u8>) -> (r: Vec<u8>)
    ensures
        r@ == frame_data(frame@, 0, Seq::empty()),
{
    let mut data: Vec<u8> = Vec::new();
    let mut i: usize = 0;
    while i < frame.len()
        invariant
            i <= frame.len(),
            frame_data(frame@, 0, Seq::empty()) == frame_data(frame@, i as int, data@),
        decreases frame.len() - i,
    {
        let stop = find_stop(frame, i);
        let line = part(frame, i, stop);
        let bare = strip_line(&line);
        match read_data(&bare) {
            Some(value) => add_data(&mut data, &value),
            None => {},
        }
        i = stop;
    }
    data
}

fn add_ending(out: &mut Vec<u8>, line: &Vec<u8>)
    ensures
        final(out)@ == old(out)@ + line_ending(line@),
{
    let n: usize = line.len();
    if n >= 2 && line[n - 1] == LF && line[n - 2] == CR {
        out.push(CR);
        out.push(LF);
        proof {
            assert(out@ =~= old(out)@ + seq![CR, LF]);
        }
    } else if n >= 1 && line[n - 1] == LF {
        out.push(LF);
        proof {
            assert(out@ =~= old(out)@ + seq![LF]);
        }
    } else {
        proof {
            assert(out@ =~= old(out)@ + Seq::<u8>::empty());
        }
    }
}

fn add_data_line(out: &mut Vec<u8>, data: &Vec<u8>, line: &Vec<u8>)
    ensures
        final(out)@ == old(out)@ + data_start() + data@ + line_ending(line@),
{
    out.push(100);
    out.push(97);
    out.push(116);
    out.push(97);
    out.push(58);
    out.push(32);
    proof {
        assert(out@ =~= old(out)@ + data_start());
    }
    out.extend_from_slice(data.as_slice());
    proof {
        assert(out@ =~= old(out)@ + data_start() + data@);
    }
    add_ending(out, line);
}

fn replace_data(frame: &Vec<u8>, data: &Vec<u8>) -> (r: Vec<u8>)
    ensures
        r@ == frame_with(frame@, 0, data@, false, Seq::empty()),
{
    let mut out: Vec<u8> = Vec::new();
    let mut inserted = false;
    let mut i: usize = 0;
    while i < frame.len()
        invariant
            i <= frame.len(),
            frame_with(frame@, 0, data@, false, Seq::empty()) == frame_with(
                frame@,
                i as int,
                data@,
                inserted,
                out@,
            ),
        decreases frame.len() - i,
    {
        let stop = find_stop(frame, i);
        let line = part(frame, i, stop);
        if is_data(&line) {
            if !inserted {
                add_data_line(&mut out, data, &line);
                inserted = true;
            }
        } else {
            let ghost before = out@;
            out.extend_from_slice(line.as_slice());
            proof {
                assert(out@ =~= before + line@);
            }
        }
        i = stop;
    }
    out
}

fn pass_frame(frame: Vec<u8>) -> (r: Vec<u8>)
    ensures
        r@ == passed_frame(frame@),
{
    let data = collect_data(&frame);
    match event(data.as_slice()) {
        None => frame,
        Some(rewritten) => replace_data(&frame, &rewritten),
    }
}

fn append_bytes(out: &mut Vec<u8>, more: &Vec<u8>)
    ensures
        final(out)@ == old(out)@ + more@,
{
    out.extend_from_slice(more.as_slice());
    proof {
        assert(out@ =~= old(out)@ + more@);
    }
}

impl Sse {
    pub fn new() -> (r: Sse)
        ensures
            r@ == (Passing { buffer: Seq::empty(), overflow: false, line_nonempty: false }),
    {
        Sse { buffer: Vec::new(), overflow: false, line_nonempty: false }
    }

    fn take(&mut self, byte: u8) -> (out: Vec<u8>)
        ensures
            (final(self)@, out@) == old(self)@.byte(byte),
    {
        let mut out: Vec<u8> = Vec::new();
        if self.overflow {
            out.push(byte);
            proof {
                assert(out@ =~= seq![byte]);
            }
        } else {
            self.buffer.push(byte);
        }
        if byte == LF {
            if !self.line_nonempty {
                if !self.overflow {
                    let frame = self.take_buffer();
                    out = pass_frame(frame);
                }
                self.overflow = false;
            }
            self.line_nonempty = false;
        } else if byte != CR {
            self.line_nonempty = true;
        }
        if self.buffer.len() >= LIMIT {
            let held = self.take_buffer();
            append_bytes(&mut out, &held);
            self.overflow = true;
        }
        out
    }

    fn take_buffer(&mut self) -> (r: Vec<u8>)
        ensures
            r@ == old(self).buffer@,
            final(self)@ == (Passing { buffer: Seq::empty(), ..old(self)@ }),
    {
        let mut held: Vec<u8> = Vec::new();
        std::mem::swap(&mut held, &mut self.buffer);
        held
    }

    /// Takes a chunk, and gives the bytes to pass on.
    pub fn feed(&mut self, bytes: &[u8]) -> (out: Vec<u8>)
        ensures
            (final(self)@, out@) == old(self)@.bytes(bytes@, 0, Seq::empty()),
    {
        let ghost whole = self@.bytes(bytes@, 0, Seq::empty());
        let mut out: Vec<u8> = Vec::new();
        let mut i: usize = 0;
        while i < bytes.len()
            invariant
                i <= bytes.len(),
                whole == old(self)@.bytes(bytes@, 0, Seq::empty()),
                whole == self@.bytes(bytes@, i as int, out@),
            decreases bytes.len() - i,
        {
            let more = self.take(bytes[i]);
            append_bytes(&mut out, &more);
            i += 1;
        }
        out
    }

    /// Ends the stream, and gives the bytes still held back.
    pub fn finish(&mut self) -> (out: Vec<u8>)
        ensures
            out@ == passed_frame(old(self)@.buffer),
            final(self)@ == (Passing { buffer: Seq::empty(), ..old(self)@ }),
    {
        let frame = self.take_buffer();
        pass_frame(frame)
    }
}

// ---- laws --------------------------------------------------------------------------------

proof fn bytes_extend(state: Passing, bytes: Seq<u8>, from: int, out: Seq<u8>)
    requires
        0 <= from,
    ensures
        state.bytes(bytes, from, out).0 == state.bytes(bytes, from, Seq::empty()).0,
        state.bytes(bytes, from, out).1 == out + state.bytes(bytes, from, Seq::empty()).1,
    decreases bytes.len() - from,
{
    if from < bytes.len() {
        let (next, more) = state.byte(bytes[from]);
        bytes_extend(next, bytes, from + 1, out + more);
        bytes_extend(next, bytes, from + 1, Seq::<u8>::empty() + more);
        assert(Seq::<u8>::empty() + more =~= more);
        let tail = next.bytes(bytes, from + 1, Seq::empty()).1;
        assert((out + more) + tail =~= out + (more + tail));
    } else {
        assert(out + Seq::<u8>::empty() =~= out);
    }
}

proof fn bytes_shift(state: Passing, first: Seq<u8>, second: Seq<u8>, from: int, out: Seq<u8>)
    requires
        0 <= from <= second.len(),
    ensures
        state.bytes(first + second, first.len() + from, out) == state.bytes(second, from, out),
    decreases second.len() - from,
{
    if from < second.len() {
        assert((first + second)[first.len() + from] == second[from]);
        let (next, more) = state.byte(second[from]);
        bytes_shift(next, first, second, from + 1, out + more);
    }
}

proof fn bytes_split(state: Passing, first: Seq<u8>, second: Seq<u8>, from: int, out: Seq<u8>)
    requires
        0 <= from <= first.len(),
    ensures
        state.bytes(first + second, from, out) == ({
            let (middle, early) = state.bytes(first, from, out);
            middle.bytes(second, 0, early)
        }),
    decreases first.len() - from,
{
    if from < first.len() {
        assert((first + second)[from] == first[from]);
        let (next, more) = state.byte(first[from]);
        bytes_split(next, first, second, from + 1, out + more);
    } else {
        bytes_shift(state, first, second, 0, out);
    }
}

/// How a stream is cut into chunks does not matter: two chunks in a row leave the state
/// of one, and pass on the same bytes.
pub proof fn chunking_does_not_matter(state: Passing, first: Seq<u8>, second: Seq<u8>)
    ensures
        state.bytes(first + second, 0, Seq::empty()) == ({
            let (middle, early) = state.bytes(first, 0, Seq::empty());
            let (end, late) = middle.bytes(second, 0, Seq::empty());
            (end, early + late)
        }),
{
    bytes_split(state, first, second, 0, Seq::empty());
    let (middle, early) = state.bytes(first, 0, Seq::empty());
    bytes_extend(middle, second, 0, early);
}

impl Passing {
    /// Whether one of the events that end in the bytes from `from` on is translated.
    pub open spec fn translates(self, bytes: Seq<u8>, from: int) -> bool
        decreases bytes.len() - from,
    {
        0 <= from < bytes.len() && ((bytes[from] == LF && !self.line_nonempty && !self.overflow
            && frame_changes(self.buffer.push(bytes[from]))) || self.byte(bytes[from]).0.translates(
            bytes,
            from + 1,
        ))
    }
}

proof fn untouched_from(state: Passing, bytes: Seq<u8>, from: int)
    requires
        0 <= from <= bytes.len(),
        !state.translates(bytes, from),
        state.overflow ==> state.buffer.len() == 0,
    ensures
        ({
            let (end, out) = state.bytes(bytes, from, Seq::empty());
            out + end.buffer == state.buffer + bytes.subrange(from, bytes.len() as int)
        }),
    decreases bytes.len() - from,
{
    if from < bytes.len() {
        let byte = bytes[from];
        let (next, more) = state.byte(byte);
        assert(more + next.buffer =~= state.buffer.push(byte));
        assert(next.overflow ==> next.buffer.len() == 0);
        untouched_from(next, bytes, from + 1);
        bytes_extend(next, bytes, from + 1, Seq::<u8>::empty() + more);
        assert(Seq::<u8>::empty() + more =~= more);
        let (end, out) = next.bytes(bytes, from + 1, Seq::empty());
        let rest = bytes.subrange(from + 1, bytes.len() as int);
        assert(bytes.subrange(from, bytes.len() as int) =~= seq![byte] + rest);
        assert(state.buffer + (seq![byte] + rest) =~= state.buffer.push(byte) + rest);
        assert((more + out) + end.buffer =~= more + (out + end.buffer));
        assert(more + (next.buffer + rest) =~= (more + next.buffer) + rest);
    } else {
        assert(Seq::<u8>::empty() + state.buffer =~= state.buffer + bytes.subrange(
            from,
            bytes.len() as int,
        ));
    }
}

/// A stream in which no event lacks capacity passes byte for byte: what was passed on
/// and what is held back are what was held back before and what arrived.
pub proof fn other_events_are_untouched(state: Passing, bytes: Seq<u8>)
    requires
        !state.translates(bytes, 0),
        state.overflow ==> state.buffer.len() == 0,
    ensures
        ({
            let (end, out) = state.bytes(bytes, 0, Seq::empty());
            out + end.buffer == state.buffer + bytes
        }),
{
    untouched_from(state, bytes, 0);
    assert(bytes.subrange(0, bytes.len() as int) =~= bytes);
}

/// A translated error is not translated again.
pub proof fn translation_is_idempotent(error: Tree)
    requires
        translated(error) is Some,
    ensures
        translated(translated(error)->Some_0) is None,
{
    let noted = match error.get("code"@) {
        Some(code) => error.with("upstream_code"@, code),
        None => error,
    };
    let server = Tree::Text("server_error"@);
    let coded = noted.with("code"@, server);
    let typed = coded.with("type"@, server);
    let message = translated_message(text_at(error, "message"@));
    let done = typed.with("message"@, Tree::Text(message));
    reveal_strlit("code");
    reveal_strlit("type");
    reveal_strlit("message");
    assert("code"@[0] != "type"@[0]);
    assert("code"@.len() != "message"@.len());
    put_then_find(noted->Object_0, "code"@, server);
    put_keeps_others(coded->Object_0, "type"@, server, "code"@);
    put_keeps_others(typed->Object_0, "message"@, Tree::Text(message), "code"@);
    put_then_find(typed->Object_0, "message"@, Tree::Text(message));
    assert(done.at("code"@) == server);
    assert(done.at("message"@) == Tree::Text(message));
    reveal_strlit("Upstream model is at capacity; hey-proxy translated");
    reveal_strlit(
        "Upstream model is at capacity; hey-proxy translated this capacity failure to a retryable server error. Original upstream message: ",
    );
    let mark = "Upstream model is at capacity; hey-proxy translated"@;
    assert(message.subrange(0, mark.len() as int) =~= mark);
    assert(translated_before(done));
}

/// A lasting error is never translated, whatever its message says.
pub proof fn lasting_errors_are_kept(error: Tree)
    requires
        lasting(error),
    ensures
        translated(error) is None,
{
}

} // verus!

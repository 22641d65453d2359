//! The observation of responses on their way: usage, and the first output.

use vstd::prelude::*;
use crate::capacity::{line_stop, bare_line, strip_line, find_stop};
use crate::exchange::{parse, parsed};
use crate::fallback::with_data;
use crate::gemini::conversation::list_of;
use crate::sse::{data_value, done_mark, is_done_mark, part, read_data, CR, LF};
use crate::text::{ends_with, same};
use crate::tree::{json_views, Json, Tree};

verus! {

broadcast use json_views;

/// How much of a response is kept for observation.
pub const MAX_OBSERVED: usize = 8388608;

/// What was seen in a response.
pub enum Seen {
    /// The end of the stream.
    Done,
    /// A value, and whether it is the first output of the model.
    Value(Json, bool),
}

/// The view of what was seen.
pub ghost enum Sight {
    Done,
    Value(Tree, bool),
}

/// The view of one thing that was seen.
pub open spec fn sight_of(seen: Seen) -> Sight {
    match seen {
        Seen::Done => Sight::Done,
        Seen::Value(value, first) => Sight::Value(value@, first),
    }
}

/// The views of what was seen.
pub open spec fn sights(seen: Seq<Seen>) -> Seq<Sight> {
    Seq::new(seen.len(), |i: int| sight_of(seen[i]))
}

/// An observer of a response. Original chunks are forwarded without waiting; oversized
/// payloads and events remain opaque.
pub struct UsageReader {
    pub sse: bool,
    pub buffer: Vec<u8>,
    pub event: Vec<u8>,
    pub overflow: bool,
    pub first_output: bool,
    pub line_nonempty: bool,
}

/// The view of an observer.
pub ghost struct Observer {
    pub sse: bool,
    pub buffer: Seq<u8>,
    pub event: Seq<u8>,
    pub overflow: bool,
    pub first_output: bool,
    pub line_nonempty: bool,
}

impl View for UsageReader {
    type V = Observer;

    open spec fn view(&self) -> Observer {
        Observer {
            sse: self.sse,
            buffer: self.buffer@,
            event: self.event@,
            overflow: self.overflow,
            first_output: self.first_output,
            line_nonempty: self.line_nonempty,
        }
    }
}

/// An ASCII white byte.
pub open spec fn white_byte(b: u8) -> bool {
    b == 32 || b == 9 || b == 10 || b == 12 || b == 13
}

fn is_white_byte(b: u8) -> (r: bool)
    ensures
        r == white_byte(b),
{
    b == 32 || b == 9 || b == 10 || b == 12 || b == 13
}

/// Where the white bytes at the start end.
pub open spec fn bytes_start(bytes: Seq<u8>, from: int) -> int
    decreases bytes.len() - from,
{
    if 0 <= from < bytes.len() && white_byte(bytes[from]) {
        bytes_start(bytes, from + 1)
    } else {
        from
    }
}

/// Where the white bytes at the end begin, looking back from `to`.
pub open spec fn bytes_end(bytes: Seq<u8>, from: int, to: int) -> int
    decreases to,
{
    if from < to <= bytes.len() && 0 < to && white_byte(bytes[to - 1]) {
        bytes_end(bytes, from, to - 1)
    } else {
        to
    }
}

/// Bytes without white bytes at either end.
pub open spec fn bytes_trimmed(bytes: Seq<u8>) -> Seq<u8> {
    let start = bytes_start(bytes, 0);
    bytes.subrange(start, bytes_end(bytes, start, bytes.len() as int))
}

fn trim_bytes(bytes: &Vec<u8>) -> (r: Vec<u8>)
    ensures
        r@ == bytes_trimmed(bytes@),
{
    let mut start: usize = 0;
    while start < bytes.len() && is_white_byte(bytes[start])
        invariant
            start <= bytes.len(),
            bytes_start(bytes@, 0) == bytes_start(bytes@, start as int),
        decreases bytes.len() - start,
    {
        start += 1;
    }
    let mut end: usize = bytes.len();
    while start < end && is_white_byte(bytes[end - 1])
        invariant
            start <= end <= bytes.len(),
            bytes_end(bytes@, start as int, bytes@.len() as int) == bytes_end(
                bytes@,
                start as int,
                end as int,
            ),
        decreases end,
    {
        end -= 1;
    }
    part(bytes, start, end)
}

/// Whether a value is output of the model.
pub open spec fn is_output(value: Tree) -> bool {
    (value.at("type"@).text() matches Some(kind) && (".delta"@.is_suffix_of(kind) || kind
        == "response.output_item.added"@)) || list_of(value.at("choices"@)).len() > 0
}

fn check_output(value: &Json) -> (r: bool)
    ensures
        r == is_output(value@),
{
    match value.at("type").as_str() {
        Some(kind) => if ends_with(kind, ".delta") || same(kind, "response.output_item.added") {
            return true;
        },
        None => {},
    }
    match value.at("choices").as_array() {
        Some(items) => items.len() > 0,
        None => false,
    }
}

/// The observer after a payload, and what was seen.
pub open spec fn payload_seen(state: Observer, bytes: Seq<u8>, seen: Seq<Sight>) -> (
    Observer,
    Seq<Sight>,
) {
    if bytes_trimmed(bytes) == done_mark() {
        (state, seen.push(Sight::Done))
    } else {
        match parsed(bytes) {
            Err(_) => (state, seen),
            Ok(value) => {
                let first = !state.first_output && is_output(value);
                (
                    Observer { first_output: state.first_output || first, ..state },
                    seen.push(Sight::Value(value, first)),
                )
            },
        }
    }
}

/// Whether bytes hold anything but line endings.
pub open spec fn holds_text(bytes: Seq<u8>, from: int) -> bool
    decreases bytes.len() - from,
{
    0 <= from < bytes.len() && ((bytes[from] != CR && bytes[from] != LF) || holds_text(
        bytes,
        from + 1,
    ))
}

fn check_text(bytes: &Vec<u8>) -> (r: bool)
    ensures
        r == holds_text(bytes@, 0),
{
    let mut i: usize = 0;
    while i < bytes.len()
        invariant
            i <= bytes.len(),
            holds_text(bytes@, 0) == holds_text(bytes@, i as int),
        decreases bytes.len() - i,
    {
        if bytes[i] != CR && bytes[i] != LF {
            return true;
        }
        i += 1;
    }
    false
}

/// The observer with a piece of a response taken in.
pub open spec fn taken(state: Observer, piece: Seq<u8>) -> Observer {
    let state = Observer {
        line_nonempty: state.line_nonempty || holds_text(piece, 0),
        ..state
    };
    if state.overflow {
        state
    } else if state.buffer.len() + state.event.len() + piece.len() > MAX_OBSERVED {
        Observer { buffer: Seq::empty(), event: Seq::empty(), overflow: true, ..state }
    } else {
        Observer { buffer: state.buffer + piece, ..state }
    }
}

/// The observer at the end of a line of an event stream, and what was seen.
pub open spec fn line_ended(state: Observer, seen: Seq<Sight>) -> (Observer, Seq<Sight>) {
    let line = bare_line(state.buffer);
    let rest = Observer { buffer: Seq::empty(), line_nonempty: false, ..state };
    if !state.line_nonempty {
        let (after, seen) = if rest.overflow {
            (rest, seen)
        } else {
            payload_seen(Observer { event: Seq::empty(), ..rest }, rest.event, seen)
        };
        (Observer { overflow: false, ..after }, seen)
    } else if rest.overflow {
        (rest, seen)
    } else {
        match data_value(line) {
            Some(value) => (Observer { event: with_data(rest.event, value), ..rest }, seen),
            None => (rest, seen),
        }
    }
}

/// The observer after the lines of a chunk from `from` on.
pub open spec fn lines_seen(state: Observer, bytes: Seq<u8>, from: int, seen: Seq<Sight>) -> (
    Observer,
    Seq<Sight>,
)
    decreases bytes.len() - from,
    via lines_seen_decreases
{
    if from < 0 || from >= bytes.len() {
        (state, seen)
    } else {
        let stop = line_stop(bytes, from);
        let piece = bytes.subrange(from, stop);
        let after = taken(state, piece);
        if piece.last() == LF {
            let (next, more) = line_ended(after, seen);
            lines_seen(next, bytes, stop, more)
        } else {
            lines_seen(after, bytes, stop, seen)
        }
    }
}

#[via_fn]
proof fn lines_seen_decreases(state: Observer, bytes: Seq<u8>, from: int, seen: Seq<Sight>) {
    if 0 <= from < bytes.len() {
        crate::capacity::line_advances(bytes, from);
    }
}

/// Whether what was received may be a whole JSON object.
pub open spec fn looks_whole(bytes: Seq<u8>) -> bool {
    let end = bytes_end(bytes, 0, bytes.len() as int);
    end > 0 && bytes[end - 1] == 125
}

fn check_whole(bytes: &Vec<u8>) -> (r: bool)
    ensures
        r == looks_whole(bytes@),
{
    let mut end: usize = bytes.len();
    while 0 < end && is_white_byte(bytes[end - 1])
        invariant
            end <= bytes.len(),
            bytes_end(bytes@, 0, bytes@.len() as int) == bytes_end(bytes@, 0, end as int),
        decreases end,
    {
        end -= 1;
    }
    end > 0 && bytes[end - 1] == 125
}

impl Observer {
    /// The observer after a chunk, and what was seen.
    pub open spec fn fed(self, bytes: Seq<u8>) -> (Observer, Seq<Sight>) {
        if self.sse {
            lines_seen(self, bytes, 0, Seq::empty())
        } else {
            let after = if bytes.len() == 0 {
                self
            } else {
                taken(self, bytes)
            };
            if !after.overflow && looks_whole(after.buffer) {
                payload_seen(after, after.buffer, Seq::empty())
            } else {
                (after, Seq::empty())
            }
        }
    }

    /// The observer at the end of a response, and what was seen.
    pub open spec fn ended(self) -> (Observer, Seq<Sight>) {
        if self.overflow {
            (self, Seq::empty())
        } else if self.sse {
            let event = match data_value(self.buffer) {
                Some(value) => with_data(self.event, value),
                None => self.event,
            };
            payload_seen(Observer { event: Seq::empty(), ..self }, event, Seq::empty())
        } else {
            payload_seen(
                Observer { buffer: Seq::empty(), ..self },
                self.buffer,
                Seq::empty(),
            )
        }
    }
}

fn add_sight(seen: &mut Vec<Seen>, sight: Seen)
    ensures
        sights(final(seen)@) == sights(old(seen)@).push(sight_of(sight)),
{
    let ghost shown = sight_of(sight);
    seen.push(sight);
    proof {
        assert(sights(seen@) =~= sights(old(seen)@).push(shown));
    }
}

fn append(out: &mut Vec<u8>, more: &[u8])
    ensures
        final(out)@ == old(out)@ + more@,
{
    out.extend_from_slice(more);
    proof {
        assert(out@ =~= old(out)@ + more@);
    }
}

fn join_data(event: &mut Vec<u8>, value: &Vec<u8>)
    ensures
        final(event)@ == with_data(old(event)@, value@),
{
    if event.len() > 0 {
        event.push(LF);
    }
    event.extend_from_slice(value.as_slice());
    proof {
        assert(event@ =~= with_data(old(event)@, value@));
    }
}

fn take_bytes(bytes: &mut Vec<u8>) -> (r: Vec<u8>)
    ensures
        r@ == old(bytes)@,
        final(bytes)@ == Seq::<u8>::empty(),
{
    let mut out: Vec<u8> = Vec::new();
    std::mem::swap(&mut out, bytes);
    out
}

impl UsageReader {
    pub fn new(sse: bool) -> (r: UsageReader)
        ensures
            r@ == (Observer {
                sse,
                buffer: Seq::empty(),
                event: Seq::empty(),
                overflow: false,
                first_output: false,
                line_nonempty: false,
            }),
    {
        UsageReader {
            sse,
            buffer: Vec::new(),
            event: Vec::new(),
            overflow: false,
            first_output: false,
            line_nonempty: false,
        }
    }

    fn see(&mut self, bytes: &Vec<u8>, seen: &mut Vec<Seen>)
        ensures
            (final(self)@, sights(final(seen)@)) == payload_seen(
                old(self)@,
                bytes@,
                sights(old(seen)@),
            ),
    {
        let bare = trim_bytes(bytes);
        if is_done_mark(&bare) {
            add_sight(seen, Seen::Done);
            return;
        }
        match parse(bytes.as_slice()) {
            Err(_) => {},
            Ok(value) => {
                let first = !self.first_output && check_output(&value);
                if first {
                    self.first_output = true;
                }
                add_sight(seen, Seen::Value(value, first));
            },
        }
    }

    fn take(&mut self, piece: &Vec<u8>)
        ensures
            final(self)@ == taken(old(self)@, piece@),
    {
        if check_text(piece) {
            self.line_nonempty = true;
        }
        if self.overflow {
            return;
        }
        let kept: u128 = self.buffer.len() as u128 + self.event.len() as u128
            + piece.len() as u128;
        if kept > MAX_OBSERVED as u128 {
            self.buffer = Vec::new();
            self.event = Vec::new();
            self.overflow = true;
        } else {
            append(&mut self.buffer, piece.as_slice());
        }
    }

    fn end_line(&mut self, seen: &mut Vec<Seen>)
        ensures
            (final(self)@, sights(final(seen)@)) == line_ended(old(self)@, sights(old(seen)@)),
    {
        let buffer = take_bytes(&mut self.buffer);
        let line = strip_line(&buffer);
        let blank = !self.line_nonempty;
        self.line_nonempty = false;
        if blank {
            if !self.overflow {
                let event = take_bytes(&mut self.event);
                self.see(&event, seen);
            }
            self.overflow = false;
        } else if !self.overflow {
            match read_data(&line) {
                Some(value) => join_data(&mut self.event, &value),
                None => {},
            }
        }
    }

    /// Takes a chunk, and gives what was seen.
    pub fn feed(&mut self, bytes: &[u8]) -> (seen: Vec<Seen>)
        ensures
            (final(self)@, sights(seen@)) == old(self)@.fed(bytes@),
    {
        let mut seen: Vec<Seen> = Vec::new();
        proof {
            assert(sights(seen@) =~= Seq::<Sight>::empty());
        }
        let chunk = vstd::slice::slice_to_vec(bytes);
        if !self.sse {
            if chunk.len() > 0 {
                self.take(&chunk);
            }
            if !self.overflow && check_whole(&self.buffer) {
                let whole = take_bytes(&mut self.buffer);
                self.see(&whole, &mut seen);
                self.buffer = whole;
            }
            return seen;
        }
        let ghost whole = lines_seen(self@, chunk@, 0, Seq::empty());
        let mut i: usize = 0;
        while i < chunk.len()
            invariant
                i <= chunk.len(),
                whole == lines_seen(old(self)@, chunk@, 0, Seq::empty()),
                whole == lines_seen(self@, chunk@, i as int, sights(seen@)),
            decreases chunk.len() - i,
        {
            let stop = find_stop(&chunk, i);
            let piece = part(&chunk, i, stop);
            self.take(&piece);
            if piece[piece.len() - 1] == LF {
                self.end_line(&mut seen);
            }
            i = stop;
        }
        seen
    }

    /// Ends the response, and gives what was seen.
    pub fn finish(&mut self) -> (seen: Vec<Seen>)
        ensures
            (final(self)@, sights(seen@)) == old(self)@.ended(),
    {
        let mut seen: Vec<Seen> = Vec::new();
        proof {
            assert(sights(seen@) =~= Seq::<Sight>::empty());
        }
        if self.overflow {
            return seen;
        }
        if self.sse {
            match read_data(&self.buffer) {
                Some(value) => join_data(&mut self.event, &value),
                None => {},
            }
            let event = take_bytes(&mut self.event);
            self.see(&event, &mut seen);
        } else {
            let whole = take_bytes(&mut self.buffer);
            self.see(&whole, &mut seen);
        }
        seen
    }
}

// ---- laws ------------------------------------------------------------------------------------

/// The observer after the bytes from `from` on, one after the other.
spec fn bytes_seen(state: Observer, bytes: Seq<u8>, from: int, seen: Seq<Sight>) -> (
    Observer,
    Seq<Sight>,
)
    decreases bytes.len() - from,
{
    if from < 0 || from >= bytes.len() {
        (state, seen)
    } else {
        let after = taken(state, seq![bytes[from]]);
        if bytes[from] == LF {
            let (next, more) = line_ended(after, seen);
            bytes_seen(next, bytes, from + 1, more)
        } else {
            bytes_seen(after, bytes, from + 1, seen)
        }
    }
}

proof fn text_joins(first: Seq<u8>, second: Seq<u8>, from: int)
    requires
        0 <= from <= first.len(),
    ensures
        holds_text(first + second, from) == (holds_text(first, from) || holds_text(second, 0)),
    decreases first.len() - from,
{
    if from < first.len() {
        text_joins(first, second, from + 1);
    } else {
        text_shifts(first, second, 0);
    }
}

proof fn text_shifts(first: Seq<u8>, second: Seq<u8>, from: int)
    requires
        0 <= from <= second.len(),
    ensures
        holds_text(first + second, first.len() + from) == holds_text(second, from),
    decreases second.len() - from,
{
    if from < second.len() {
        text_shifts(first, second, from + 1);
    }
}

proof fn taken_joins(state: Observer, first: Seq<u8>, second: Seq<u8>)
    ensures
        taken(taken(state, first), second) == taken(state, first + second),
{
    text_joins(first, second, 0);
    assert(state.buffer + first + second =~= state.buffer + (first + second));
}

proof fn line_by_bytes(state: Observer, bytes: Seq<u8>, from: int, seen: Seq<Sight>)
    requires
        0 <= from < bytes.len(),
    ensures
        ({
            let stop = line_stop(bytes, from);
            let piece = bytes.subrange(from, stop);
            let after = taken(state, piece);
            bytes_seen(state, bytes, from, seen) == (if piece.last() == LF {
                let (next, more) = line_ended(after, seen);
                bytes_seen(next, bytes, stop, more)
            } else {
                bytes_seen(after, bytes, stop, seen)
            })
        }),
    decreases bytes.len() - from,
{
    let stop = line_stop(bytes, from);
    let piece = bytes.subrange(from, stop);
    let head = seq![bytes[from]];
    crate::capacity::line_advances(bytes, from);
    if bytes[from] == LF || from + 1 == bytes.len() {
        assert(stop == from + 1) by {
            reveal_with_fuel(line_stop, 2);
        }
        assert(piece =~= head);
    } else {
        crate::capacity::line_advances(bytes, from + 1);
        let rest = bytes.subrange(from + 1, stop);
        assert(piece =~= head + rest);
        taken_joins(state, head, rest);
        line_by_bytes(taken(state, head), bytes, from + 1, seen);
        assert(piece.last() == rest.last());
    }
}

proof fn lines_by_bytes(state: Observer, bytes: Seq<u8>, from: int, seen: Seq<Sight>)
    requires
        0 <= from <= bytes.len(),
    ensures
        lines_seen(state, bytes, from, seen) == bytes_seen(state, bytes, from, seen),
    decreases bytes.len() - from,
{
    if from < bytes.len() {
        let stop = line_stop(bytes, from);
        let piece = bytes.subrange(from, stop);
        let after = taken(state, piece);
        crate::capacity::line_advances(bytes, from);
        line_by_bytes(state, bytes, from, seen);
        if piece.last() == LF {
            let (next, more) = line_ended(after, seen);
            lines_by_bytes(next, bytes, stop, more);
        } else {
            lines_by_bytes(after, bytes, stop, seen);
        }
    }
}

proof fn bytes_split(state: Observer, first: Seq<u8>, second: Seq<u8>, from: int, seen: Seq<Sight>)
    requires
        0 <= from <= first.len(),
    ensures
        ({
            let (middle, more) = bytes_seen(state, first, from, seen);
            bytes_seen(state, first + second, from, seen) == bytes_seen(middle, second, 0, more)
        }),
    decreases first.len() - from,
{
    if from < first.len() {
        let after = taken(state, seq![first[from]]);
        if first[from] == LF {
            let (next, more) = line_ended(after, seen);
            bytes_split(next, first, second, from + 1, more);
        } else {
            bytes_split(after, first, second, from + 1, seen);
        }
    } else {
        bytes_shift(state, first, second, 0, seen);
    }
}

proof fn bytes_shift(state: Observer, first: Seq<u8>, second: Seq<u8>, from: int, seen: Seq<Sight>)
    requires
        0 <= from <= second.len(),
    ensures
        bytes_seen(state, first + second, first.len() + from, seen) == bytes_seen(
            state,
            second,
            from,
            seen,
        ),
    decreases second.len() - from,
{
    if from < second.len() {
        let after = taken(state, seq![second[from]]);
        if second[from] == LF {
            let (next, more) = line_ended(after, seen);
            bytes_shift(next, first, second, from + 1, more);
        } else {
            bytes_shift(after, first, second, from + 1, seen);
        }
    }
}

proof fn line_adds(state: Observer, seen: Seq<Sight>)
    ensures
        ({
            let (one, more) = line_ended(state, seen);
            let (other, only) = line_ended(state, Seq::empty());
            one == other && more == seen + only
        }),
{
    let (_, more) = line_ended(state, seen);
    let (_, only) = line_ended(state, Seq::empty());
    assert(more =~= seen + only);
}

proof fn bytes_add(state: Observer, bytes: Seq<u8>, from: int, seen: Seq<Sight>)
    requires
        0 <= from,
    ensures
        ({
            let (one, more) = bytes_seen(state, bytes, from, seen);
            let (other, only) = bytes_seen(state, bytes, from, Seq::empty());
            one == other && more == seen + only
        }),
    decreases bytes.len() - from,
{
    if from < bytes.len() {
        let after = taken(state, seq![bytes[from]]);
        if bytes[from] == LF {
            let (next, more) = line_ended(after, seen);
            let (_, only) = line_ended(after, Seq::empty());
            line_adds(after, seen);
            bytes_add(next, bytes, from + 1, more);
            bytes_add(next, bytes, from + 1, only);
            let (_, rest) = bytes_seen(next, bytes, from + 1, Seq::empty());
            assert(seen + only + rest =~= seen + (only + rest));
        } else {
            bytes_add(after, bytes, from + 1, seen);
        }
    } else {
        assert(seen =~= seen + Seq::<Sight>::empty());
    }
}

/// However an event stream is cut into chunks, the same is seen in it, and the reader is
/// left in the same state.
pub proof fn chunking_does_not_matter(state: Observer, first: Seq<u8>, second: Seq<u8>)
    requires
        state.sse,
    ensures
        ({
            let (middle, before) = state.fed(first);
            let (after, behind) = middle.fed(second);
            state.fed(first + second) == (after, before + behind)
        }),
{
    let none = Seq::<Sight>::empty();
    lines_by_bytes(state, first, 0, none);
    lines_by_bytes(state, first + second, 0, none);
    let (middle, before) = bytes_seen(state, first, 0, none);
    kind_stays(state, first, 0, none);
    lines_by_bytes(middle, second, 0, none);
    bytes_split(state, first, second, 0, none);
    bytes_add(middle, second, 0, before);
}

proof fn kind_stays(state: Observer, bytes: Seq<u8>, from: int, seen: Seq<Sight>)
    requires
        0 <= from,
    ensures
        bytes_seen(state, bytes, from, seen).0.sse == state.sse,
    decreases bytes.len() - from,
{
    if from < bytes.len() {
        let after = taken(state, seq![bytes[from]]);
        if bytes[from] == LF {
            let (next, more) = line_ended(after, seen);
            kind_stays(next, bytes, from + 1, more);
        } else {
            kind_stays(after, bytes, from + 1, seen);
        }
    }
}

} // verus!

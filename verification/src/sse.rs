//! Bounded framing of server-sent events across arbitrary byte and UTF-8 boundaries.

use vstd::prelude::*;
use vstd::utf8::valid_utf8;
use crate::error::{outcome, Error};
use crate::exchange::{parse, parsed};
use crate::text::{read_utf8, utf8_fault};
use crate::tree::{json_views, trees, Json, Tree};

verus! {

broadcast use json_views;

/// How long a frame may be.
pub const MAX_FRAME: usize = 16777216;

pub const LF: u8 = 10;

pub const CR: u8 = 13;

/// `data:` in bytes.
pub open spec fn data_name() -> Seq<u8> {
    seq![100u8, 97, 116, 97, 58]
}

/// `[DONE]` in bytes.
pub open spec fn done_mark() -> Seq<u8> {
    seq![91u8, 68, 79, 78, 69, 93]
}

/// The value of a data line: what follows the colon and at most one space.
pub open spec fn data_value(line: Seq<u8>) -> Option<Seq<u8>> {
    if data_name().is_prefix_of(line) {
        let value = line.subrange(5, line.len() as int);
        Some(
            if value.len() > 0 && value[0] == 32 {
                value.subrange(1, value.len() as int)
            } else {
                value
            },
        )
    } else {
        None
    }
}

/// Some of the bytes.
pub(crate) fn part(bytes: &Vec<u8>, from: usize, to: usize) -> (r: Vec<u8>)
    requires
        from <= to <= bytes.len(),
    ensures
        r@ == bytes@.subrange(from as int, to as int),
{
    vstd::slice::slice_to_vec(vstd::slice::slice_subrange(bytes.as_slice(), from, to))
}

/// Whether a line is a data line.
pub(crate) fn is_data(line: &Vec<u8>) -> (r: bool)
    ensures
        r == data_name().is_prefix_of(line@),
{
    if line.len() < 5 {
        return false;
    }
    let r = line[0] == 100 && line[1] == 97 && line[2] == 116 && line[3] == 97 && line[4] == 58;
    proof {
        if r {
            assert(line@.subrange(0, 5) =~= data_name());
        } else {
            assert(line@.subrange(0, 5)[0] == line@[0]);
            assert(line@.subrange(0, 5)[1] == line@[1]);
            assert(line@.subrange(0, 5)[2] == line@[2]);
            assert(line@.subrange(0, 5)[3] == line@[3]);
            assert(line@.subrange(0, 5)[4] == line@[4]);
        }
    }
    r
}

/// The value of a data line.
pub(crate) fn read_data(line: &Vec<u8>) -> (r: Option<Vec<u8>>)
    ensures
        match r {
            Some(value) => data_value(line@) == Some(value@),
            None => data_value(line@) is None,
        },
{
    if !is_data(line) {
        return None;
    }
    let from: usize = if line.len() > 5 && line[5] == 32 {
        6
    } else {
        5
    };
    let value = part(line, from, line.len());
    proof {
        assert(value@ =~= data_value(line@)->Some_0);
    }
    Some(value)
}

// ---- the machine -----------------------------------------------------------------

/// A scan of server-sent events.
pub ghost struct Scan {
    pub line: Seq<u8>,
    pub data: Seq<u8>,
    pub frame: nat,
    pub after_cr: bool,
    pub done: bool,
}

/// A scan with the events found on the way to it, and the fault that stopped it.
pub ghost struct Found {
    pub scan: Scan,
    pub events: Seq<Tree>,
    pub fault: Option<Seq<char>>,
}

/// A scan at the start of a stream.
pub open spec fn start() -> Scan {
    Scan { line: Seq::empty(), data: Seq::empty(), frame: 0, after_cr: false, done: false }
}

impl Found {
    /// The end of an event. Nothing may follow the end mark.
    pub open spec fn dispatched(self, late: Seq<char>) -> Found {
        let scan = Scan { frame: 0, ..self.scan };
        if scan.data.len() <= 1 {
            Found { scan: Scan { data: Seq::empty(), ..scan }, ..self }
        } else {
            let data = scan.data.drop_last();
            if data == done_mark() {
                Found { scan: Scan { data: Seq::empty(), done: true, ..scan }, ..self }
            } else if scan.done {
                Found { scan: Scan { data, ..scan }, fault: Some(late), ..self }
            } else {
                match parsed(data) {
                    Err(message) => Found {
                        scan: Scan { data, ..scan },
                        fault: Some(message),
                        ..self
                    },
                    Ok(event) => Found {
                        scan: Scan { data: Seq::empty(), ..scan },
                        events: self.events.push(event),
                        ..self
                    },
                }
            }
        }
    }

    /// The end of a line. Ignored fields are validated too.
    pub open spec fn line_ended(self, late: Seq<char>) -> Found {
        if self.scan.line.len() == 0 {
            self.dispatched(late)
        } else if !valid_utf8(self.scan.line) {
            Found { fault: Some(utf8_fault(self.scan.line)), ..self }
        } else {
            Found {
                scan: Scan {
                    line: Seq::empty(),
                    data: match data_value(self.scan.line) {
                        Some(value) => (self.scan.data + value).push(LF),
                        None => self.scan.data,
                    },
                    ..self.scan
                },
                ..self
            }
        }
    }

    /// One byte. LF, CRLF and CR all end a line.
    pub open spec fn byte(self, byte: u8, late: Seq<char>, long: Seq<char>) -> Found {
        if self.scan.after_cr && byte == LF {
            Found { scan: Scan { after_cr: false, ..self.scan }, ..self }
        } else {
            let seen = Scan { after_cr: byte == CR, ..self.scan };
            let scan = Scan { frame: seen.frame + 1, ..seen };
            if scan.frame > MAX_FRAME {
                Found { scan: seen, fault: Some(long), ..self }
            } else if byte == LF || byte == CR {
                Found { scan, ..self }.line_ended(late)
            } else {
                Found { scan: Scan { line: scan.line.push(byte), ..scan }, ..self }
            }
        }
    }

    /// The bytes from `from` on, up to a fault.
    pub open spec fn bytes(self, bytes: Seq<u8>, from: int, late: Seq<char>, long: Seq<char>) -> Found
        decreases bytes.len() - from,
    {
        if self.fault is Some || from < 0 || from >= bytes.len() {
            self
        } else {
            self.byte(bytes[from], late, long).bytes(bytes, from + 1, late, long)
        }
    }

    /// The end of the stream.
    pub open spec fn ended(self, late: Seq<char>) -> Found {
        if self.fault is Some {
            self
        } else {
            let last = if self.scan.line.len() > 0 {
                self.line_ended(late)
            } else {
                self
            };
            if last.fault is Some {
                last
            } else {
                last.dispatched(late)
            }
        }
    }
}

/// What a chunk adds to a scan; `late` and `long` tell of data behind the end mark and
/// of a frame that is too long.
pub open spec fn scanned(scan: Scan, bytes: Seq<u8>, eof: bool, late: Seq<char>, long: Seq<char>) -> Found {
    let read = Found { scan, events: Seq::empty(), fault: None }.bytes(bytes, 0, late, long);
    if eof {
        read.ended(late)
    } else {
        read
    }
}

/// The scanner behind the decoders.
pub struct Scanner {
    pub line: Vec<u8>,
    pub data: Vec<u8>,
    pub frame_bytes: usize,
    pub after_cr: bool,
    pub done: bool,
}

impl View for Scanner {
    type V = Scan;

    open spec fn view(&self) -> Scan {
        Scan {
            line: self.line@,
            data: self.data@,
            frame: self.frame_bytes as nat,
            after_cr: self.after_cr,
            done: self.done,
        }
    }
}

/// A scan with events and no fault.
pub open spec fn found(scan: Scan, events: Seq<Tree>) -> Found {
    Found { scan, events, fault: None }
}

/// Whether a result tells of a fault.
pub open spec fn reported(r: Result<(), Error>, fault: Option<Seq<char>>) -> bool {
    match r {
        Ok(_) => fault is None,
        Err(error) => fault == Some(error.message@),
    }
}

/// Whether data is the end mark.
pub(crate) fn is_done_mark(data: &Vec<u8>) -> (r: bool)
    ensures
        r == (data@ == done_mark()),
{
    if data.len() != 6 {
        return false;
    }
    let r = data[0] == 91 && data[1] == 68 && data[2] == 79 && data[3] == 78 && data[4] == 69
        && data[5] == 93;
    proof {
        if r {
            assert(data@ =~= done_mark());
        }
    }
    r
}

impl Scanner {
    /// The frame is within its bound.
    pub open spec fn wf(&self) -> bool {
        self.frame_bytes <= MAX_FRAME
    }

    pub fn new() -> (r: Scanner)
        ensures
            r.wf(),
            r@ == start(),
    {
        Scanner {
            line: Vec::new(),
            data: Vec::new(),
            frame_bytes: 0,
            after_cr: false,
            done: false,
        }
    }

    fn dispatch(&mut self, events: &mut Vec<Json>, late: &str) -> (r: Result<(), Error>)
        ensures
            ({
                let spec = found(old(self)@, trees(old(events)@)).dispatched(late@);
                &&& final(self)@ == spec.scan
                &&& trees(final(events)@) == spec.events
                &&& reported(r, spec.fault)
            }),
            final(self).wf(),
    {
        self.frame_bytes = 0;
        if self.data.len() <= 1 {
            self.data = Vec::new();
            return Ok(());
        }
        let _ = self.data.pop();
        proof {
            assert(self.data@ =~= old(self).data@.drop_last());
        }
        if is_done_mark(&self.data) {
            self.done = true;
        } else if self.done {
            return Err(Error::new(late));
        } else {
            let event = parse(self.data.as_slice())?;
            events.push(event);
        }
        self.data = Vec::new();
        Ok(())
    }

    fn end_line(&mut self, events: &mut Vec<Json>, late: &str) -> (r: Result<(), Error>)
        requires
            old(self).wf(),
        ensures
            ({
                let spec = found(old(self)@, trees(old(events)@)).line_ended(late@);
                &&& final(self)@ == spec.scan
                &&& trees(final(events)@) == spec.events
                &&& reported(r, spec.fault)
            }),
            final(self).wf(),
    {
        if self.line.len() == 0 {
            return self.dispatch(events, late);
        }
        match read_utf8(self.line.as_slice()) {
            Ok(_) => {},
            Err(error) => return Err(error),
        }
        match read_data(&self.line) {
            Some(value) => {
                self.data.extend_from_slice(value.as_slice());
                self.data.push(LF);
                proof {
                    assert(self.data@ =~= (old(self).data@ + value@).push(LF));
                }
            },
            None => {},
        }
        self.line = Vec::new();
        Ok(())
    }

    fn take(&mut self, events: &mut Vec<Json>, byte: u8, late: &str, long: &str) -> (r: Result<
        (),
        Error,
    >)
        requires
            old(self).wf(),
        ensures
            ({
                let spec = found(old(self)@, trees(old(events)@)).byte(byte, late@, long@);
                &&& final(self)@ == spec.scan
                &&& trees(final(events)@) == spec.events
                &&& reported(r, spec.fault)
            }),
            final(self).wf(),
    {
        if self.after_cr && byte == LF {
            self.after_cr = false;
            return Ok(());
        }
        self.after_cr = byte == CR;
        if self.frame_bytes >= MAX_FRAME {
            return Err(Error::new(long));
        }
        self.frame_bytes = self.frame_bytes + 1;
        if byte == LF || byte == CR {
            self.end_line(events, late)
        } else {
            self.line.push(byte);
            Ok(())
        }
    }

    fn finish(&mut self, events: &mut Vec<Json>, late: &str) -> (r: Result<(), Error>)
        requires
            old(self).wf(),
        ensures
            ({
                let spec = found(old(self)@, trees(old(events)@)).ended(late@);
                &&& final(self)@ == spec.scan
                &&& trees(final(events)@) == spec.events
                &&& reported(r, spec.fault)
            }),
            final(self).wf(),
    {
        if self.line.len() > 0 {
            self.end_line(events, late)?;
        }
        self.dispatch(events, late)
    }

    /// Takes a chunk, and gives the events that it completes.
    pub fn feed(&mut self, bytes: &[u8], eof: bool, late: &str, long: &str) -> (r: Result<
        Vec<Json>,
        Error,
    >)
        requires
            old(self).wf(),
        ensures
            ({
                let spec = scanned(old(self)@, bytes@, eof, late@, long@);
                &&& final(self)@ == spec.scan
                &&& outcome(r) == match spec.fault {
                    Some(message) => Err::<Seq<Tree>, Seq<char>>(message),
                    None => Ok(spec.events),
                }
            }),
            final(self).wf(),
    {
        let mut events: Vec<Json> = Vec::new();
        proof {
            assert(trees(events@) =~= Seq::<Tree>::empty());
        }
        let ghost whole = found(self@, Seq::empty()).bytes(bytes@, 0, late@, long@);
        let mut i: usize = 0;
        while i < bytes.len()
            invariant
                i <= bytes.len(),
                self.wf(),
                whole == found(old(self)@, Seq::empty()).bytes(bytes@, 0, late@, long@),
                whole == found(self@, trees(events@)).bytes(bytes@, i as int, late@, long@),
            decreases bytes.len() - i,
        {
            let ghost before = found(self@, trees(events@));
            match self.take(&mut events, bytes[i], late, long) {
                Ok(_) => {},
                Err(error) => {
                    proof {
                        let stopped = before.byte(bytes@[i as int], late@, long@);
                        assert(whole == stopped.bytes(bytes@, i + 1, late@, long@));
                        assert(stopped.fault is Some);
                        assert(whole == stopped);
                    }
                    return Err(error);
                },
            }
            i += 1;
        }
        if eof {
            self.finish(&mut events, late)?;
        }
        Ok(events)
    }
}

/// A decoder of a Responses event stream.
pub struct SseDecoder {
    pub scanner: Scanner,
}

impl SseDecoder {
    /// The frame is within its bound.
    pub open spec fn wf(&self) -> bool {
        self.scanner.wf()
    }

    pub fn new() -> (r: SseDecoder)
        ensures
            r.wf(),
            r.scanner@ == start(),
    {
        SseDecoder { scanner: Scanner::new() }
    }

    /// Takes a chunk, and gives the events that it completes.
    pub fn feed(&mut self, bytes: &[u8], eof: bool) -> (r: Result<Vec<Json>, Error>)
        requires
            old(self).wf(),
        ensures
            ({
                let spec = decoded(old(self).scanner@, bytes@, eof);
                &&& final(self).scanner@ == spec.scan
                &&& outcome(r) == match spec.fault {
                    Some(message) => Err::<Seq<Tree>, Seq<char>>(message),
                    None => Ok(spec.events),
                }
            }),
            final(self).wf(),
    {
        self.scanner.feed(bytes, eof, "SSE data arrived after [DONE]", "SSE frame exceeds 16 MiB")
    }
}

/// What a chunk of a Responses event stream adds to a scan.
pub open spec fn decoded(scan: Scan, bytes: Seq<u8>, eof: bool) -> Found {
    scanned(scan, bytes, eof, "SSE data arrived after [DONE]"@, "SSE frame exceeds 16 MiB"@)
}

/// A decoder of a native Gemini event stream.
pub struct NativeSse {
    pub scanner: Scanner,
}

impl NativeSse {
    /// The frame is within its bound.
    pub open spec fn wf(&self) -> bool {
        self.scanner.wf()
    }

    pub fn new() -> (r: NativeSse)
        ensures
            r.wf(),
            r.scanner@ == start(),
    {
        NativeSse { scanner: Scanner::new() }
    }

    /// Takes a chunk, and gives the chunks of the response that it completes.
    pub fn feed(&mut self, bytes: &[u8], eof: bool) -> (r: Result<Vec<Json>, Error>)
        requires
            old(self).wf(),
        ensures
            ({
                let spec = native_decoded(old(self).scanner@, bytes@, eof);
                &&& final(self).scanner@ == spec.scan
                &&& outcome(r) == match spec.fault {
                    Some(message) => Err::<Seq<Tree>, Seq<char>>(message),
                    None => Ok(spec.events),
                }
            }),
            final(self).wf(),
    {
        self.scanner.feed(
            bytes,
            eof,
            "Gemini data arrived after [DONE]",
            "Gemini SSE frame exceeds 16 MiB",
        )
    }
}

/// What a chunk of a native event stream adds to a scan.
pub open spec fn native_decoded(scan: Scan, bytes: Seq<u8>, eof: bool) -> Found {
    scanned(
        scan,
        bytes,
        eof,
        "Gemini data arrived after [DONE]"@,
        "Gemini SSE frame exceeds 16 MiB"@,
    )
}

// ---- laws ----------------------------------------------------------------------------

/// A scan with earlier events put in front.
pub open spec fn behind(earlier: Seq<Tree>, f: Found) -> Found {
    Found { events: earlier + f.events, ..f }
}

proof fn byte_behind(earlier: Seq<Tree>, f: Found, byte: u8, late: Seq<char>, long: Seq<char>)
    ensures
        behind(earlier, f).byte(byte, late, long) == behind(earlier, f.byte(byte, late, long)),
{
    let a = behind(earlier, f).byte(byte, late, long);
    let b = behind(earlier, f.byte(byte, late, long));
    assert(a.events =~= b.events);
}

proof fn bytes_behind(
    earlier: Seq<Tree>,
    f: Found,
    bytes: Seq<u8>,
    from: int,
    late: Seq<char>,
    long: Seq<char>,
)
    requires
        0 <= from,
    ensures
        behind(earlier, f).bytes(bytes, from, late, long) == behind(
            earlier,
            f.bytes(bytes, from, late, long),
        ),
    decreases bytes.len() - from,
{
    if f.fault is None && from < bytes.len() {
        byte_behind(earlier, f, bytes[from], late, long);
        bytes_behind(earlier, f.byte(bytes[from], late, long), bytes, from + 1, late, long);
    }
}

proof fn ended_behind(earlier: Seq<Tree>, f: Found, late: Seq<char>)
    ensures
        behind(earlier, f).ended(late) == behind(earlier, f.ended(late)),
{
    let a = behind(earlier, f).ended(late);
    let b = behind(earlier, f.ended(late));
    assert(a.events =~= b.events);
}

proof fn bytes_split(
    f: Found,
    first: Seq<u8>,
    second: Seq<u8>,
    from: int,
    late: Seq<char>,
    long: Seq<char>,
)
    requires
        0 <= from <= first.len(),
    ensures
        f.bytes(first + second, from, late, long) == f.bytes(first, from, late, long).bytes(
            second,
            0,
            late,
            long,
        ),
    decreases first.len() - from,
{
    let whole = first + second;
    if from < first.len() {
        if f.fault is None {
            assert(whole[from] == first[from]);
            bytes_split(f.byte(first[from], late, long), first, second, from + 1, late, long);
        }
    } else {
        bytes_shift(f, first, second, 0, late, long);
    }
}

proof fn bytes_shift(
    f: Found,
    first: Seq<u8>,
    second: Seq<u8>,
    from: int,
    late: Seq<char>,
    long: Seq<char>,
)
    requires
        0 <= from <= second.len(),
    ensures
        f.bytes(first + second, first.len() + from, late, long) == f.bytes(
            second,
            from,
            late,
            long,
        ),
    decreases second.len() - from,
{
    if from < second.len() && f.fault is None {
        assert((first + second)[first.len() + from] == second[from]);
        bytes_shift(f.byte(second[from], late, long), first, second, from + 1, late, long);
    }
}

/// How a stream is cut into chunks does not matter: two chunks in a row give the events,
/// the state and the fault of one.
pub proof fn chunking_does_not_matter(
    scan: Scan,
    first: Seq<u8>,
    second: Seq<u8>,
    eof: bool,
    late: Seq<char>,
    long: Seq<char>,
)
    ensures
        scanned(scan, first + second, eof, late, long) == ({
            let one = scanned(scan, first, false, late, long);
            if one.fault is Some {
                one
            } else {
                behind(one.events, scanned(one.scan, second, eof, late, long))
            }
        }),
{
    let f = found(scan, Seq::empty());
    bytes_split(f, first, second, 0, late, long);
    let one = f.bytes(first, 0, late, long);
    if one.fault is None {
        let fresh = found(one.scan, Seq::empty());
        assert(behind(one.events, fresh).events =~= one.events);
        assert(behind(one.events, fresh) == one);
        bytes_behind(one.events, fresh, second, 0, late, long);
        ended_behind(one.events, fresh.bytes(second, 0, late, long), late);
    }
}

proof fn byte_keeps_done(f: Found, byte: u8, late: Seq<char>, long: Seq<char>)
    requires
        f.scan.done,
    ensures
        f.byte(byte, late, long).scan.done,
        f.byte(byte, late, long).events == f.events,
{
}

proof fn bytes_keep_done(f: Found, bytes: Seq<u8>, from: int, late: Seq<char>, long: Seq<char>)
    requires
        f.scan.done,
        0 <= from,
    ensures
        f.bytes(bytes, from, late, long).scan.done,
        f.bytes(bytes, from, late, long).events == f.events,
    decreases bytes.len() - from,
{
    if f.fault is None && from < bytes.len() {
        byte_keeps_done(f, bytes[from], late, long);
        bytes_keep_done(f.byte(bytes[from], late, long), bytes, from + 1, late, long);
    }
}

/// Behind the end mark there are no more events, whatever arrives.
pub proof fn nothing_follows_the_end(
    scan: Scan,
    bytes: Seq<u8>,
    eof: bool,
    late: Seq<char>,
    long: Seq<char>,
)
    requires
        scan.done,
    ensures
        scanned(scan, bytes, eof, late, long).events == Seq::<Tree>::empty(),
        scanned(scan, bytes, eof, late, long).scan.done,
{
    bytes_keep_done(found(scan, Seq::empty()), bytes, 0, late, long);
}

} // verus!

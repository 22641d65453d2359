//! Text: comparison, concatenation and the parts of the standard library's
//! string handling that the proxy relies on.

use vstd::prelude::*;
use vstd::string::{StringExecFns, StringSliceAdditionalSpecFns};
use vstd::utf8::{
    decode_utf8_split, encode_utf8, encode_utf8_decode_utf8, encode_utf8_first_scalar, encode_utf8_valid_utf8,
    is_char_boundary, pop_first_scalar, valid_utf8,
};
use crate::error::Error;

verus! {

/// The order of strings: by code point, a proper prefix first.
pub open spec fn precedes(a: Seq<char>, b: Seq<char>) -> bool {
    exists|i: int|
        0 <= i <= a.len() && i < b.len() && a.subrange(0, i) == #[trigger] b.subrange(0, i) && (i
            == a.len() || a[i] < b[i])
}

/// `str`'s `<`: strings are ordered lexicographically by byte values, which is
/// the order by code points.
#[verifier::external_body]
pub(crate) fn less(a: &str, b: &str) -> (earlier: bool)
    ensures
        earlier == precedes(a@, b@),
{
    a < b
}

/// Two pieces in a row.
pub(crate) fn join2(a: &str, b: &str) -> (joined: String)
    ensures
        joined@ == a@ + b@,
{
    let mut joined = a.to_string();
    joined.append(b);
    joined
}

/// Three pieces in a row.
pub(crate) fn join3(a: &str, b: &str, c: &str) -> (joined: String)
    ensures
        joined@ == a@ + b@ + c@,
{
    let mut joined = join2(a, b);
    joined.append(c);
    joined
}

/// Four pieces in a row.
pub(crate) fn join4(a: &str, b: &str, c: &str, d: &str) -> (joined: String)
    ensures
        joined@ == a@ + b@ + c@ + d@,
{
    let mut joined = join3(a, b, c);
    joined.append(d);
    joined
}

/// Five pieces in a row.
pub(crate) fn join5(a: &str, b: &str, c: &str, d: &str, e: &str) -> (joined: String)
    ensures
        joined@ == a@ + b@ + c@ + d@ + e@,
{
    let mut joined = join4(a, b, c, d);
    joined.append(e);
    joined
}

/// What follows `prefix` in a text that begins with it.
pub open spec fn after(s: Seq<char>, prefix: Seq<char>) -> Option<Seq<char>> {
    if prefix.is_prefix_of(s) {
        Some(s.subrange(prefix.len() as int, s.len() as int))
    } else {
        None
    }
}

/// What precedes `suffix` in a text that ends with it.
pub open spec fn ahead(s: Seq<char>, suffix: Seq<char>) -> Option<Seq<char>> {
    if suffix.is_suffix_of(s) {
        Some(s.subrange(0, s.len() - suffix.len()))
    } else {
        None
    }
}

/// The first place of `c` at or after `from`.
pub open spec fn place_of(s: Seq<char>, c: char, from: int) -> Option<int>
    decreases s.len() - from,
{
    if from < 0 || from >= s.len() {
        None
    } else if s[from] == c {
        Some(from)
    } else {
        place_of(s, c, from + 1)
    }
}

/// The text before and after the first `c`.
pub open spec fn parted(s: Seq<char>, c: char) -> Option<(Seq<char>, Seq<char>)> {
    match place_of(s, c, 0) {
        Some(i) => Some((s.subrange(0, i), s.subrange(i + 1, s.len() as int))),
        None => None,
    }
}

/// The text without the `c`s at its end.
pub open spec fn trimmed_end(s: Seq<char>, c: char) -> Seq<char>
    decreases s.len(),
{
    if s.len() > 0 && s.last() == c {
        trimmed_end(s.drop_last(), c)
    } else {
        s
    }
}

/// The decimal digits of a natural number.
pub open spec fn decimal(n: nat) -> Seq<char>
    decreases n,
{
    if n < 10 {
        seq![(48 + n) as u8 as char]
    } else {
        decimal(n / 10).push((48 + n % 10) as u8 as char)
    }
}

/// `String::push`: appends one character.
#[verifier::external_body]
pub(crate) fn push_char(s: &mut String, c: char)
    ensures
        final(s)@ == old(s)@.push(c),
{
    s.push(c)
}

/// An ASCII letter or digit.
pub open spec fn alphanumeric(c: char) -> bool {
    ('0' <= c && c <= '9') || ('a' <= c && c <= 'z') || ('A' <= c && c <= 'Z')
}

pub(crate) fn is_alphanumeric(c: char) -> (r: bool)
    ensures
        r == alphanumeric(c),
{
    ('0' <= c && c <= '9') || ('a' <= c && c <= 'z') || ('A' <= c && c <= 'Z')
}

/// The lowercase hexadecimal digit of a number below sixteen.
pub open spec fn hex_digit(n: u8) -> char {
    if n < 10 {
        (48 + n) as u8 as char
    } else {
        (87 + n) as u8 as char
    }
}

/// Two lowercase hexadecimal digits for each byte.
pub open spec fn hex(bytes: Seq<u8>) -> Seq<char>
    decreases bytes.len(),
{
    if bytes.len() == 0 {
        Seq::empty()
    } else {
        hex(bytes.drop_last()).push(hex_digit(bytes.last() / 16)).push(
            hex_digit(bytes.last() % 16),
        )
    }
}

fn hex_char(n: u8) -> (c: char)
    requires
        n < 16,
    ensures
        c == hex_digit(n),
{
    if n < 10 {
        (48 + n) as char
    } else {
        (87 + n) as char
    }
}

/// Writes bytes in hexadecimal.
pub(crate) fn hex_text(bytes: &[u8]) -> (r: String)
    ensures
        r@ == hex(bytes@),
{
    let mut out = String::new();
    let mut i: usize = 0;
    proof {
        assert(bytes@.subrange(0, 0).len() == 0);
        assert(out@ == hex(bytes@.subrange(0, 0)));
    }
    while i < bytes.len()
        invariant
            i <= bytes.len(),
            out@ == hex(bytes@.subrange(0, i as int)),
        decreases bytes.len() - i,
    {
        push_char(&mut out, hex_char(bytes[i] / 16));
        push_char(&mut out, hex_char(bytes[i] % 16));
        proof {
            assert(bytes@.subrange(0, i + 1).drop_last() =~= bytes@.subrange(0, i as int));
            assert(bytes@.subrange(0, i + 1).last() == bytes@[i as int]);
        }
        i += 1;
    }
    proof {
        assert(bytes@.subrange(0, i as int) =~= bytes@);
    }
    out
}

/// The characters of a text.
pub(crate) fn chars_of(s: &str) -> (r: Vec<char>)
    ensures
        r@ == s@,
{
    let mut out: Vec<char> = Vec::new();
    for c in it: s.chars()
        invariant
            it.seq() == s@,
            out@ == s@.subrange(0, it.index() as int),
    {
        proof {
            assert(s@.subrange(0, it.index() + 1) =~= s@.subrange(0, it.index() as int).push(c));
        }
        out.push(c);
    }
    proof {
        assert(s@.subrange(0, s@.len() as int) =~= s@);
    }
    out
}

/// Whether some bytes stand in others from `at` on.
fn stand_at(bytes: &[u8], at: usize, these: &[u8]) -> (r: bool)
    requires
        at + these.len() <= bytes.len(),
    ensures
        r == (bytes@.subrange(at as int, at + these@.len()) == these@),
{
    let mut i: usize = 0;
    while i < these.len()
        invariant
            i <= these.len(),
            at + these.len() <= bytes.len(),
            forall|k: int| 0 <= k < i ==> bytes@[at + k] == #[trigger] these@[k],
        decreases these.len() - i,
    {
        if bytes[at + i] != these[i] {
            assert(bytes@.subrange(at as int, at + these@.len())[i as int] != these@[i as int]);
            return false;
        }
        i += 1;
    }
    assert(bytes@.subrange(at as int, at + these@.len()) =~= these@);
    true
}

/// Whether two texts hold the same characters.
pub(crate) fn same(a: &str, b: &str) -> (equal: bool)
    ensures
        equal == (a@ == b@),
{
    let x = a.as_bytes();
    let y = b.as_bytes();
    proof {
        encode_utf8_decode_utf8(a@);
        encode_utf8_decode_utf8(b@);
        assert(x@.subrange(0, x@.len() as int) =~= x@);
    }
    x.len() == y.len() && stand_at(x, 0, y)
}

proof fn encodings_join(a: Seq<char>, b: Seq<char>)
    ensures
        encode_utf8(a + b) == encode_utf8(a) + encode_utf8(b),
        is_char_boundary(encode_utf8(a + b), encode_utf8(a).len() as int),
    decreases a.len(),
{
    encode_utf8_valid_utf8(a + b);
    if a.len() == 0 {
        assert(a + b =~= b);
        assert(encode_utf8(a) + encode_utf8(b) =~= encode_utf8(b));
    } else {
        let bytes = encode_utf8(a + b);
        let rest = a.drop_first();
        assert((a + b).drop_first() =~= rest + b);
        encodings_join(rest, b);
        encode_utf8_first_scalar(a + b);
        assert(pop_first_scalar(bytes) =~= encode_utf8(rest + b));
        assert(bytes =~= encode_utf8(a) + encode_utf8(b));
    }
}

/// Whether a text begins with a prefix.
pub(crate) fn starts_with(s: &str, prefix: &str) -> (r: bool)
    ensures
        r == prefix@.is_prefix_of(s@),
{
    let x = s.as_bytes();
    let y = prefix.as_bytes();
    let r = y.len() <= x.len() && s.is_char_boundary(y.len()) && stand_at(x, 0, y);
    proof {
        if r {
            encode_utf8_valid_utf8(s@);
            decode_utf8_split(x@, y@.len() as int);
            encode_utf8_decode_utf8(s@);
            encode_utf8_decode_utf8(prefix@);
            assert(prefix@ =~= s@.subrange(0, prefix@.len() as int));
        } else if prefix@.is_prefix_of(s@) {
            let back = s@.subrange(prefix@.len() as int, s@.len() as int);
            assert(s@ =~= prefix@ + back);
            encodings_join(prefix@, back);
            assert(x@.subrange(0, y@.len() as int) =~= y@);
        }
    }
    r
}

/// Whether a text ends with a suffix.
pub(crate) fn ends_with(s: &str, suffix: &str) -> (r: bool)
    ensures
        r == suffix@.is_suffix_of(s@),
{
    let x = s.as_bytes();
    let y = suffix.as_bytes();
    let r = y.len() <= x.len() && s.is_char_boundary(x.len() - y.len()) && stand_at(
        x,
        x.len() - y.len(),
        y,
    );
    proof {
        let at = x@.len() - y@.len();
        if r {
            encode_utf8_valid_utf8(s@);
            decode_utf8_split(x@, at);
            encode_utf8_decode_utf8(s@);
            encode_utf8_decode_utf8(suffix@);
            assert(x@.subrange(at, x@.len() as int) =~= y@);
            assert(suffix@ =~= s@.subrange(s@.len() - suffix@.len(), s@.len() as int));
        } else if suffix@.is_suffix_of(s@) {
            let front = s@.subrange(0, s@.len() - suffix@.len());
            assert(s@ =~= front + suffix@);
            encodings_join(front, suffix@);
            assert(x@.subrange(at, x@.len() as int) =~= y@);
        }
    }
    r
}

/// Parts a text into two, the second of which begins after so many bytes.
fn part_at<'a>(s: &'a str, bytes: usize, Ghost(front): Ghost<Seq<char>>, Ghost(back): Ghost<
    Seq<char>,
>) -> (r: (&'a str, &'a str))
    requires
        s@ == front + back,
        bytes == encode_utf8(front).len(),
    ensures
        r.0@ == front,
        r.1@ == back,
{
    proof {
        encodings_join(front, back);
    }
    let (first, second) = s.split_at(bytes);
    proof {
        assert(encode_utf8(first@) =~= encode_utf8(front));
        assert(encode_utf8(second@) =~= encode_utf8(back));
        encode_utf8_decode_utf8(first@);
        encode_utf8_decode_utf8(front);
        encode_utf8_decode_utf8(second@);
        encode_utf8_decode_utf8(back);
    }
    (first, second)
}

/// The rest of a text that begins with a prefix.
pub(crate) fn strip_prefix<'a>(s: &'a str, prefix: &str) -> (rest: Option<&'a str>)
    ensures
        rest.deep_view() == after(s@, prefix@),
{
    if !starts_with(s, prefix) {
        return None;
    }
    let ghost back = s@.subrange(prefix@.len() as int, s@.len() as int);
    assert(s@ =~= prefix@ + back);
    let bytes: usize = prefix.as_bytes().len();
    let (_, rest) = part_at(s, bytes, Ghost(prefix@), Ghost(back));
    Some(rest)
}

/// The front of a text that ends with a suffix.
pub(crate) fn strip_suffix<'a>(s: &'a str, suffix: &str) -> (rest: Option<&'a str>)
    ensures
        rest.deep_view() == ahead(s@, suffix@),
{
    if !ends_with(s, suffix) {
        return None;
    }
    let ghost front = s@.subrange(0, s@.len() - suffix@.len());
    proof {
        assert(s@ =~= front + suffix@);
        encodings_join(front, suffix@);
    }
    let bytes: usize = s.as_bytes().len() - suffix.as_bytes().len();
    let (rest, _) = part_at(s, bytes, Ghost(front), Ghost(suffix@));
    Some(rest)
}

/// The text of one character.
fn one_char(c: char) -> (r: String)
    ensures
        r@ == seq![c],
{
    let mut out = String::new();
    push_char(&mut out, c);
    assert(out@ =~= seq![c]);
    out
}

/// The text before and after the first place of a character.
pub(crate) fn split_once<'a>(s: &'a str, c: char) -> (r: Option<(&'a str, &'a str)>)
    ensures
        r.deep_view() == parted(s@, c),
{
    let chars = chars_of(s);
    let mut i: usize = 0;
    while i < chars.len()
        invariant
            i <= chars.len(),
            chars@ == s@,
            place_of(s@, c, 0) == place_of(s@, c, i as int),
        decreases chars.len() - i,
    {
        if chars[i] == c {
            let front = text_of(&chars, 0, i);
            let one = one_char(c);
            let ghost back = s@.subrange(i + 1, s@.len() as int);
            assert(s@ =~= front@ + (one@ + back));
            let bytes: usize = front.as_str().as_bytes().len();
            let width: usize = one.as_str().as_bytes().len();
            let (first, rest) = part_at(s, bytes, Ghost(front@), Ghost(one@ + back));
            let (_, second) = part_at(rest, width, Ghost(one@), Ghost(back));
            return Some((first, second));
        }
        i += 1;
    }
    None
}

/// The text without a character at its end.
pub(crate) fn trim_end<'a>(s: &'a str, c: char) -> (r: &'a str)
    ensures
        r@ == trimmed_end(s@, c),
{
    let one = one_char(c);
    let mut rest = s;
    loop
        invariant
            one@ == seq![c],
            trimmed_end(rest@, c) == trimmed_end(s@, c),
        decreases rest@.len(),
    {
        match strip_suffix(rest, one.as_str()) {
            Some(front) => {
                proof {
                    assert(one@.is_suffix_of(rest@));
                    assert(rest@.subrange(rest@.len() - 1, rest@.len() as int)[0] == one@[0]);
                    assert(front@ =~= rest@.drop_last());
                }
                rest = front;
            },
            None => {
                proof {
                    if rest@.len() > 0 && rest@.last() == c {
                        assert(rest@.subrange(rest@.len() - 1, rest@.len() as int) =~= one@);
                        assert(one@.is_suffix_of(rest@));
                    }
                }
                return rest;
            },
        }
    }
}

/// Writes a number in decimal.
pub(crate) fn number_text(n: u64) -> (r: String)
    ensures
        r@ == decimal(n as nat),
    decreases n,
{
    if n < 10 {
        let mut out = String::new();
        push_char(&mut out, (48 + n as u8) as char);
        assert(out@ =~= decimal(n as nat));
        out
    } else {
        let mut out = number_text(n / 10);
        push_char(&mut out, (48 + (n % 10) as u8) as char);
        out
    }
}

/// The text made of some of the characters.
pub(crate) fn text_of(chars: &Vec<char>, from: usize, to: usize) -> (r: String)
    requires
        from <= to <= chars.len(),
    ensures
        r@ == chars@.subrange(from as int, to as int),
{
    let mut out = String::new();
    let mut i: usize = from;
    proof {
        assert(chars@.subrange(from as int, from as int) =~= Seq::<char>::empty());
    }
    while i < to
        invariant
            from <= i <= to <= chars.len(),
            out@ == chars@.subrange(from as int, i as int),
        decreases to - i,
    {
        push_char(&mut out, chars[i]);
        proof {
            assert(chars@.subrange(from as int, i + 1) =~= chars@.subrange(
                from as int,
                i as int,
            ).push(chars@[i as int]));
        }
        i += 1;
    }
    out
}

/// An ASCII digit.
pub open spec fn digit(c: char) -> bool {
    '0' <= c && c <= '9'
}

/// The message with which `std::str::from_utf8` refuses bytes that are not UTF-8.
pub uninterp spec fn utf8_fault(bytes: Seq<u8>) -> Seq<char>;

/// `std::str::from_utf8`: succeeds on valid UTF-8 with the text that the bytes encode,
/// and tells where other bytes go wrong.
#[verifier::external_body]
pub(crate) fn read_utf8(bytes: &[u8]) -> (r: Result<&str, Error>)
    ensures
        match r {
            Ok(text) => valid_utf8(bytes@) && text.spec_bytes() == bytes@,
            Err(error) => !valid_utf8(bytes@) && error.message@ == utf8_fault(bytes@),
        },
{
    std::str::from_utf8(bytes).map_err(|error| Error { message: error.to_string() })
}

/// The lowercase of an ASCII letter; any other character as it is.
pub open spec fn lower(c: char) -> char {
    if 'A' <= c && c <= 'Z' {
        ((c as u8) + 32) as u8 as char
    } else {
        c
    }
}

/// A text with its ASCII letters in lowercase.
pub open spec fn lowered(s: Seq<char>) -> Seq<char> {
    s.map_values(|c: char| lower(c))
}

/// Whether one text occurs in another.
pub open spec fn occurs(needle: Seq<char>, hay: Seq<char>) -> bool {
    exists|i: int|
        0 <= i && i + needle.len() <= hay.len() && #[trigger] hay.subrange(i, i + needle.len())
            == needle
}

fn lower_char(c: char) -> (r: char)
    ensures
        r == lower(c),
{
    if 'A' <= c && c <= 'Z' {
        ((c as u8) + 32) as char
    } else {
        c
    }
}

/// Puts the ASCII letters of a text in lowercase.
pub(crate) fn to_lower(s: &str) -> (r: String)
    ensures
        r@ == lowered(s@),
{
    let chars = chars_of(s);
    let mut out = String::new();
    let mut i: usize = 0;
    while i < chars.len()
        invariant
            i <= chars.len(),
            chars@ == s@,
            out@ == lowered(s@).subrange(0, i as int),
        decreases chars.len() - i,
    {
        push_char(&mut out, lower_char(chars[i]));
        proof {
            assert(lowered(s@).subrange(0, i + 1) =~= lowered(s@).subrange(0, i as int).push(
                lower(s@[i as int]),
            ));
        }
        i += 1;
    }
    proof {
        assert(lowered(s@).subrange(0, i as int) =~= lowered(s@));
    }
    out
}

/// Whether one text occurs in another.
pub(crate) fn contains(hay: &str, needle: &str) -> (r: bool)
    ensures
        r == occurs(needle@, hay@),
{
    let h = chars_of(hay);
    let n = chars_of(needle);
    if n.len() > h.len() {
        return false;
    }
    let mut i: usize = 0;
    while i <= h.len() - n.len()
        invariant
            n.len() <= h.len(),
            i <= h.len() - n.len() + 1,
            h@ == hay@,
            n@ == needle@,
            forall|k: int|
                0 <= k < i ==> #[trigger] hay@.subrange(k, k + needle@.len()) != needle@,
        decreases h.len() - n.len() + 1 - i,
    {
        let mut j: usize = 0;
        while j < n.len() && h[i + j] == n[j]
            invariant
                i + n.len() <= h.len(),
                j <= n.len(),
                h@ == hay@,
                n@ == needle@,
                forall|k: int| 0 <= k < j ==> hay@[i + k] == #[trigger] needle@[k],
            decreases n.len() - j,
        {
            j += 1;
        }
        if j == n.len() {
            proof {
                assert(hay@.subrange(i as int, i + needle@.len()) =~= needle@);
            }
            return true;
        }
        proof {
            assert(hay@.subrange(i as int, i + needle@.len())[j as int] == hay@[i + j]);
            assert(hay@.subrange(i as int, i + needle@.len()) != needle@);
        }
        if i == h.len() - n.len() {
            return false;
        }
        i += 1;
    }
    false
}

/// A character of the Unicode property White_Space.
pub open spec fn white(c: char) -> bool {
    let n = c as u32;
    (9 <= n <= 13) || n == 32 || n == 0x85 || n == 0xa0 || n == 0x1680 || (0x2000 <= n <= 0x200a)
        || n == 0x2028 || n == 0x2029 || n == 0x202f || n == 0x205f || n == 0x3000
}

/// A control character.
pub open spec fn control(c: char) -> bool {
    let n = c as u32;
    n <= 31 || (127 <= n <= 159)
}

pub(crate) fn is_white(c: char) -> (r: bool)
    ensures
        r == white(c),
{
    let n: u32 = c as u32;
    (9 <= n && n <= 13) || n == 32 || n == 0x85 || n == 0xa0 || n == 0x1680 || (0x2000 <= n && n
        <= 0x200a) || n == 0x2028 || n == 0x2029 || n == 0x202f || n == 0x205f || n == 0x3000
}

pub(crate) fn is_control(c: char) -> (r: bool)
    ensures
        r == control(c),
{
    let n: u32 = c as u32;
    n <= 31 || (127 <= n && n <= 159)
}

/// How many white characters a text has at its start, from `from` on.
pub open spec fn white_start(s: Seq<char>, from: int) -> int
    decreases s.len() - from,
{
    if 0 <= from < s.len() && white(s[from]) {
        white_start(s, from + 1)
    } else {
        from
    }
}

/// Where the white characters at the end of a text begin, looking back from `to`.
pub open spec fn white_end(s: Seq<char>, from: int, to: int) -> int
    decreases to,
{
    if from < to <= s.len() && 0 < to && white(s[to - 1]) {
        white_end(s, from, to - 1)
    } else {
        to
    }
}

/// A text without white characters at either end.
pub open spec fn trimmed(s: Seq<char>) -> Seq<char> {
    let start = white_start(s, 0);
    s.subrange(start, white_end(s, start, s.len() as int))
}

/// Takes the white characters off both ends of a text.
pub(crate) fn trim(s: &str) -> (r: String)
    ensures
        r@ == trimmed(s@),
{
    let chars = chars_of(s);
    let mut start: usize = 0;
    while start < chars.len() && is_white(chars[start])
        invariant
            start <= chars.len(),
            chars@ == s@,
            white_start(s@, 0) == white_start(s@, start as int),
        decreases chars.len() - start,
    {
        start += 1;
    }
    let mut end: usize = chars.len();
    while start < end && is_white(chars[end - 1])
        invariant
            start <= end <= chars.len(),
            chars@ == s@,
            white_end(s@, start as int, s@.len() as int) == white_end(
                s@,
                start as int,
                end as int,
            ),
        decreases end,
    {
        end -= 1;
    }
    text_of(&chars, start, end)
}

/// Whether a text holds nothing but white characters.
pub open spec fn blank(s: Seq<char>) -> bool {
    forall|i: int| 0 <= i < s.len() ==> white(#[trigger] s[i])
}

/// Whether a text holds nothing but white characters.
pub(crate) fn is_blank(s: &str) -> (r: bool)
    ensures
        r == blank(s@),
{
    let chars = chars_of(s);
    let mut i: usize = 0;
    while i < chars.len()
        invariant
            i <= chars.len(),
            chars@ == s@,
            forall|k: int| 0 <= k < i ==> white(#[trigger] s@[k]),
        decreases chars.len() - i,
    {
        if !is_white(chars[i]) {
            assert(!white(s@[i as int]));
            return false;
        }
        i += 1;
    }
    true
}

/// Whether a text holds a character.
pub(crate) fn has_char(s: &str, c: char) -> (r: bool)
    ensures
        r == s@.contains(c),
{
    let chars = chars_of(s);
    let mut i: usize = 0;
    while i < chars.len()
        invariant
            i <= chars.len(),
            chars@ == s@,
            forall|k: int| 0 <= k < i ==> #[trigger] s@[k] != c,
        decreases chars.len() - i,
    {
        if chars[i] == c {
            assert(s@[i as int] == c);
            return true;
        }
        i += 1;
    }
    false
}

/// Whether a text holds a control character.
pub open spec fn controls(s: Seq<char>) -> bool {
    exists|i: int| 0 <= i < s.len() && control(#[trigger] s[i])
}

/// Whether a text holds a control character.
pub(crate) fn has_control(s: &str) -> (r: bool)
    ensures
        r == controls(s@),
{
    let chars = chars_of(s);
    let mut i: usize = 0;
    while i < chars.len()
        invariant
            i <= chars.len(),
            chars@ == s@,
            forall|k: int| 0 <= k < i ==> !control(#[trigger] s@[k]),
        decreases chars.len() - i,
    {
        if is_control(chars[i]) {
            assert(control(s@[i as int]));
            return true;
        }
        i += 1;
    }
    false
}

/// The pieces of a text between the places of a character, from `from` on.
pub open spec fn pieces(s: Seq<char>, c: char, from: int) -> Seq<Seq<char>>
    decreases s.len() - from,
    via pieces_decreases
{
    if from < 0 || from > s.len() {
        Seq::empty()
    } else {
        match place_of(s, c, from) {
            None => seq![s.subrange(from, s.len() as int)],
            Some(i) => seq![s.subrange(from, i)] + pieces(s, c, i + 1),
        }
    }
}

#[via_fn]
proof fn pieces_decreases(s: Seq<char>, c: char, from: int) {
    if 0 <= from <= s.len() {
        place_is_inside(s, c, from);
    }
}

pub(crate) proof fn place_is_inside(s: Seq<char>, c: char, from: int)
    requires
        0 <= from <= s.len(),
    ensures
        place_of(s, c, from) matches Some(i) ==> from <= i < s.len() && s[i] == c,
    decreases s.len() - from,
{
    if from < s.len() && s[from] != c {
        place_is_inside(s, c, from + 1);
    }
}

/// The views of texts.
pub open spec fn texts(list: Seq<String>) -> Seq<Seq<char>> {
    Seq::new(list.len(), |i: int| list[i]@)
}

/// Cuts a text at every place of a character.
pub(crate) fn split(s: &str, c: char) -> (r: Vec<String>)
    ensures
        texts(r@) == pieces(s@, c, 0),
        r.len() > 0,
{
    let chars = chars_of(s);
    let mut out: Vec<String> = Vec::new();
    let mut from: usize = 0;
    let mut i: usize = 0;
    proof {
        assert(texts(out@) =~= Seq::<Seq<char>>::empty());
        assert(Seq::<Seq<char>>::empty() + pieces(s@, c, 0) =~= pieces(s@, c, 0));
    }
    while i < chars.len()
        invariant
            from <= i <= chars.len(),
            chars@ == s@,
            place_of(s@, c, from as int) == place_of(s@, c, i as int),
            pieces(s@, c, 0) == texts(out@) + pieces(s@, c, from as int),
        decreases chars.len() - i,
    {
        if chars[i] == c {
            let ghost before = texts(out@);
            let piece = text_of(&chars, from, i);
            out.push(piece);
            proof {
                assert(place_of(s@, c, from as int) == Some(i as int));
                assert(texts(out@) =~= before.push(piece@));
                assert(before + (seq![piece@] + pieces(s@, c, i + 1)) =~= before.push(piece@)
                    + pieces(s@, c, i + 1));
            }
            from = i + 1;
        }
        i += 1;
    }
    let ghost before = texts(out@);
    let piece = text_of(&chars, from, chars.len());
    out.push(piece);
    proof {
        assert(place_of(s@, c, from as int) is None);
        assert(texts(out@) =~= before.push(piece@));
        assert(before + seq![piece@] =~= before.push(piece@));
    }
    out
}

/// The number that the digits from `from` on denote, if a machine number can hold it and
/// there are no other characters.
pub open spec fn digits_value(s: Seq<char>, from: int, number: nat) -> Option<nat>
    decreases s.len() - from,
{
    if from < 0 || from >= s.len() {
        Some(number)
    } else if !digit(s[from]) {
        None
    } else {
        let next = number * 10 + (s[from] as u32 - 48) as nat;
        if next > u64::MAX {
            None
        } else {
            digits_value(s, from + 1, next)
        }
    }
}

/// The number that a decimal text denotes: digits behind an optional plus sign.
pub open spec fn number_value(s: Seq<char>) -> Option<nat> {
    let start: int = if s.len() > 0 && s[0] == '+' {
        1
    } else {
        0
    };
    if start >= s.len() {
        None
    } else {
        digits_value(s, start, 0)
    }
}

/// Reads a decimal number.
pub(crate) fn read_number(s: &str) -> (r: Option<u64>)
    ensures
        match r {
            Some(n) => number_value(s@) == Some(n as nat),
            None => number_value(s@) is None,
        },
{
    let chars = chars_of(s);
    let start: usize = if chars.len() > 0 && chars[0] == '+' {
        1
    } else {
        0
    };
    if start >= chars.len() {
        return None;
    }
    let mut number: u64 = 0;
    let mut i: usize = start;
    while i < chars.len()
        invariant
            start <= i <= chars.len(),
            start < chars.len(),
            chars@ == s@,
            start == (if s@.len() > 0 && s@[0] == '+' {
                1int
            } else {
                0int
            }),
            digits_value(s@, start as int, 0) == digits_value(s@, i as int, number as nat),
        decreases chars.len() - i,
    {
        let c = chars[i];
        if !('0' <= c && c <= '9') {
            return None;
        }
        let value: u64 = (c as u32 - 48) as u64;
        if number > (u64::MAX - value) / 10 {
            proof {
                assert(number * 10 + value > u64::MAX);
            }
            return None;
        }
        number = number * 10 + value;
        i += 1;
    }
    Some(number)
}

/// The number that the digits from `from` on denote, or what is wrong with the first that
/// is.
pub open spec fn digits_read(s: Seq<char>, from: int, number: nat) -> Result<nat, Seq<char>>
    decreases s.len() - from,
{
    if from < 0 || from >= s.len() {
        Ok(number)
    } else if !digit(s[from]) {
        Err("invalid digit found in string"@)
    } else {
        let next = number * 10 + (s[from] as u32 - 48) as nat;
        if next > u64::MAX {
            Err("number too large to fit in target type"@)
        } else {
            digits_read(s, from + 1, next)
        }
    }
}

/// The number that a decimal text denotes, or what is wrong with the text.
pub open spec fn number_read(s: Seq<char>) -> Result<nat, Seq<char>> {
    if s.len() == 0 {
        Err("cannot parse integer from empty string"@)
    } else if s.len() == 1 && s[0] == '+' {
        Err("invalid digit found in string"@)
    } else {
        digits_read(
            s,
            if s[0] == '+' {
                1
            } else {
                0
            },
            0,
        )
    }
}

/// Reads a decimal number, or tells what is wrong with the text.
pub(crate) fn parse_number(s: &str) -> (r: Result<u64, Error>)
    ensures
        match r {
            Ok(n) => number_read(s@) == Ok::<nat, Seq<char>>(n as nat),
            Err(error) => number_read(s@) == Err::<nat, Seq<char>>(error.message@),
        },
{
    let chars = chars_of(s);
    if chars.len() == 0 {
        return Err(Error::new("cannot parse integer from empty string"));
    }
    if chars.len() == 1 && chars[0] == '+' {
        return Err(Error::new("invalid digit found in string"));
    }
    let start: usize = if chars[0] == '+' {
        1
    } else {
        0
    };
    let mut number: u64 = 0;
    let mut i: usize = start;
    while i < chars.len()
        invariant
            start <= i <= chars.len(),
            chars@ == s@,
            s@.len() > 0,
            number_read(s@) == digits_read(s@, start as int, 0),
            digits_read(s@, start as int, 0) == digits_read(s@, i as int, number as nat),
        decreases chars.len() - i,
    {
        let c = chars[i];
        if !('0' <= c && c <= '9') {
            return Err(Error::new("invalid digit found in string"));
        }
        let value: u64 = (c as u32 - 48) as u64;
        if number > (u64::MAX - value) / 10 {
            proof {
                assert(number * 10 + value > u64::MAX);
            }
            return Err(Error::new("number too large to fit in target type"));
        }
        number = number * 10 + value;
        i += 1;
    }
    Ok(number)
}

pub(crate) proof fn decimal_digits(n: nat)
    ensures
        decimal(n).len() > 0,
        forall|i: int| 0 <= i < decimal(n).len() ==> digit(#[trigger] decimal(n)[i]),
    decreases n,
{
    if n >= 10 {
        decimal_digits(n / 10);
        let front = decimal(n / 10);
        assert forall|i: int| 0 <= i < decimal(n).len() implies digit(#[trigger] decimal(n)[i]) by {
            if i < front.len() {
                assert(decimal(n)[i] == front[i]);
            }
        }
    }
}

proof fn decimal_is_read(n: nat, rest: Seq<char>)
    requires
        n <= u64::MAX,
    ensures
        digits_read(decimal(n) + rest, 0, 0) == digits_read(
            decimal(n) + rest,
            decimal(n).len() as int,
            n,
        ),
    decreases n,
{
    decimal_digits(n);
    if n >= 10 {
        let front = decimal(n / 10);
        let last = (48 + n % 10) as u8 as char;
        let longer = seq![last] + rest;
        decimal_is_read(n / 10, longer);
        assert(front + longer =~= decimal(n) + rest);
        assert((decimal(n) + rest)[front.len() as int] == last);
    } else {
        assert((decimal(n) + rest)[0] == (48 + n) as u8 as char);
    }
}

/// The decimal digits of a number read as the number.
pub proof fn decimals_read_back(n: nat)
    requires
        n <= u64::MAX,
    ensures
        number_read(decimal(n)) == Ok::<nat, Seq<char>>(n),
{
    decimal_digits(n);
    decimal_is_read(n, Seq::empty());
    assert(decimal(n) + Seq::<char>::empty() =~= decimal(n));
    assert(digit(decimal(n)[0]));
}

} // verus!

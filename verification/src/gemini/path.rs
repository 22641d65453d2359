//! The JSON paths of streamed function arguments, and what they address.

use vstd::prelude::*;
use vstd::string::StringExecFns;
use crate::error::{outcome, Error};
use crate::table::{entries, place_from, put};
use crate::text::{chars_of, digit, less, push_char, same, text_of};
use crate::tree::{json_views, trees, Json, Tree};

verus! {

broadcast use json_views;

/// One step of a path.
pub enum Segment {
    Key(String),
    Index(usize),
}

/// The view of a step.
pub ghost enum Step {
    Key(Seq<char>),
    Index(nat),
}

impl DeepView for Segment {
    type V = Step;

    open spec fn deep_view(&self) -> Step {
        match *self {
            Segment::Key(key) => Step::Key(key@),
            Segment::Index(index) => Step::Index(index as nat),
        }
    }
}

/// The views of steps.
pub open spec fn steps(segments: Seq<Segment>) -> Seq<Step> {
    Seq::new(segments.len(), |i: int| segments[i].deep_view())
}

pub broadcast proof fn steps_push(segments: Seq<Segment>, segment: Segment)
    ensures
        #[trigger] steps(segments.push(segment)) == steps(segments).push(segment.deep_view()),
{
    assert(steps(segments.push(segment)) =~= steps(segments).push(segment.deep_view()));
}

pub broadcast proof fn steps_view(segments: Vec<Segment>)
    ensures
        #[trigger] segments.deep_view() == steps(segments@),
{
    assert(segments.deep_view() =~= steps(segments@));
}

/// Where a plain key that starts at `from` ends.
pub open spec fn key_end(s: Seq<char>, from: int) -> int
    decreases s.len() - from,
{
    if 0 <= from < s.len() && s[from] != '.' && s[from] != '[' {
        key_end(s, from + 1)
    } else {
        from
    }
}

/// Where a run of digits that starts at `from` ends.
pub open spec fn digits_end(s: Seq<char>, from: int) -> int
    decreases s.len() - from,
{
    if 0 <= from < s.len() && digit(s[from]) {
        digits_end(s, from + 1)
    } else {
        from
    }
}

/// The number that the digits from `from` up to `to` denote, if a machine index can
/// hold it.
pub open spec fn number_from(s: Seq<char>, from: int, to: int, number: nat) -> Option<nat>
    decreases to - from,
{
    if from >= to {
        Some(number)
    } else {
        let next = number * 10 + (s[from] as u32 - 48) as nat;
        if next > usize::MAX {
            None
        } else {
            number_from(s, from + 1, to, next)
        }
    }
}

/// A quoted key from `from` on: the key and the place behind its closing quote, or
/// why there is none.
pub open spec fn quoted(s: Seq<char>, from: int, quote: char, key: Seq<char>) -> Result<
    (Seq<char>, int),
    Seq<char>,
>
    decreases s.len() - from,
{
    if from < 0 || from >= s.len() {
        Err("Invalid quoted function JSON path"@)
    } else if s[from] == quote {
        Ok((key, from + 1))
    } else if s[from] == '\\' {
        if from + 1 < s.len() {
            quoted(s, from + 2, quote, key.push(s[from + 1]))
        } else {
            Err("Incomplete escaped path key"@)
        }
    } else {
        quoted(s, from + 1, quote, key.push(s[from]))
    }
}

/// The step that starts at `from`, and the place behind it.
pub open spec fn step_at(s: Seq<char>, from: int) -> Result<(Step, int), Seq<char>> {
    if s[from] == '.' {
        let end = key_end(s, from + 1);
        if end == from + 1 {
            Err("Empty function JSON path key"@)
        } else {
            Ok((Step::Key(s.subrange(from + 1, end)), end))
        }
    } else if s[from] == '[' {
        if from + 1 < s.len() && (s[from + 1] == '\'' || s[from + 1] == '"') {
            match quoted(s, from + 2, s[from + 1], Seq::empty()) {
                Err(message) => Err(message),
                Ok((key, end)) => if end < s.len() && s[end] == ']' {
                    Ok((Step::Key(key), end + 1))
                } else {
                    Err("Invalid quoted function JSON path"@)
                },
            }
        } else {
            let end = digits_end(s, from + 1);
            if end < s.len() && s[end] == ']' {
                if end == from + 1 {
                    Err("cannot parse integer from empty string"@)
                } else {
                    match number_from(s, from + 1, end, 0) {
                        None => Err("number too large to fit in target type"@),
                        Some(index) => if index > 65535 {
                            Err("Function argument array index exceeds 65535"@)
                        } else {
                            Ok((Step::Index(index), end + 1))
                        },
                    }
                }
            } else {
                Err("Invalid array function JSON path"@)
            }
        }
    } else {
        Err("Invalid function JSON path"@)
    }
}

/// The steps from `from` on, behind those that were read.
pub open spec fn steps_from(s: Seq<char>, from: int, read: Seq<Step>) -> Result<
    Seq<Step>,
    Seq<char>,
>
    decreases s.len() - from,
    via steps_from_decreases
{
    if from < 0 || from >= s.len() {
        if read.len() == 0 {
            Err("Function partialArgs must address a field, not the root"@)
        } else {
            Ok(read)
        }
    } else {
        match step_at(s, from) {
            Err(message) => Err(message),
            Ok((step, end)) => if read.len() + 1 > 128 {
                Err("Function JSON path nesting exceeds 128"@)
            } else {
                steps_from(s, end, read.push(step))
            },
        }
    }
}

#[via_fn]
proof fn steps_from_decreases(s: Seq<char>, from: int, read: Seq<Step>) {
    if 0 <= from < s.len() {
        step_ends(s, from);
    }
}

proof fn key_ends(s: Seq<char>, from: int)
    requires
        0 <= from <= s.len(),
    ensures
        from <= key_end(s, from) <= s.len(),
    decreases s.len() - from,
{
    if from < s.len() {
        key_ends(s, from + 1);
    }
}

proof fn quoted_ends(s: Seq<char>, from: int, quote: char, key: Seq<char>)
    requires
        0 <= from,
    ensures
        quoted(s, from, quote, key) matches Ok((_, end)) ==> from < end <= s.len(),
    decreases s.len() - from,
{
    if from < s.len() && s[from] != quote {
        if s[from] == '\\' {
            if from + 1 < s.len() {
                quoted_ends(s, from + 2, quote, key.push(s[from + 1]));
            }
        } else {
            quoted_ends(s, from + 1, quote, key.push(s[from]));
        }
    }
}

proof fn digits_ends(s: Seq<char>, from: int)
    requires
        0 <= from <= s.len(),
    ensures
        from <= digits_end(s, from) <= s.len(),
    decreases s.len() - from,
{
    if from < s.len() {
        digits_ends(s, from + 1);
    }
}

proof fn step_ends(s: Seq<char>, from: int)
    requires
        0 <= from < s.len(),
    ensures
        step_at(s, from) matches Ok((_, end)) ==> from < end <= s.len(),
{
    key_ends(s, from + 1);
    digits_ends(s, from + 1);
    if from + 1 < s.len() {
        quoted_ends(s, from + 2, s[from + 1], Seq::empty());
    }
}

/// The steps of a path.
pub open spec fn path_steps(path: Seq<char>) -> Result<Seq<Step>, Seq<char>> {
    if path.len() > 0 && path[0] == '$' {
        steps_from(path, 1, Seq::empty())
    } else {
        Err("Function JSON path must start with $"@)
    }
}

fn read_quoted(chars: &Vec<char>, from: usize, quote: char) -> (r: Result<(String, usize), Error>)
    requires
        from <= chars.len(),
    ensures
        match r {
            Ok((key, end)) => quoted(chars@, from as int, quote, Seq::empty()) == Ok::<
                (Seq<char>, int),
                Seq<char>,
            >((key@, end as int)) && from < end <= chars.len(),
            Err(error) => quoted(chars@, from as int, quote, Seq::empty()) == Err::<
                (Seq<char>, int),
                Seq<char>,
            >(error.message@),
        },
{
    let mut key = String::new();
    let mut i: usize = from;
    while i < chars.len()
        invariant
            from <= i <= chars.len(),
            quoted(chars@, from as int, quote, Seq::empty()) == quoted(
                chars@,
                i as int,
                quote,
                key@,
            ),
        decreases chars.len() - i,
    {
        let c = chars[i];
        if c == quote {
            return Ok((key, i + 1));
        }
        if c == '\\' {
            if i + 1 < chars.len() {
                push_char(&mut key, chars[i + 1]);
                i += 2;
            } else {
                return Err(Error::new("Incomplete escaped path key"));
            }
        } else {
            push_char(&mut key, c);
            i += 1;
        }
    }
    Err(Error::new("Invalid quoted function JSON path"))
}

fn read_number(chars: &Vec<char>, from: usize, to: usize) -> (r: Option<usize>)
    requires
        from <= to <= chars.len(),
        forall|i: int| from <= i < to ==> digit(#[trigger] chars@[i]),
    ensures
        match r {
            Some(n) => number_from(chars@, from as int, to as int, 0) == Some(n as nat),
            None => number_from(chars@, from as int, to as int, 0) is None,
        },
{
    let mut number: usize = 0;
    let mut i: usize = from;
    while i < to
        invariant
            from <= i <= to <= chars.len(),
            forall|k: int| from <= k < to ==> digit(#[trigger] chars@[k]),
            number_from(chars@, from as int, to as int, 0) == number_from(
                chars@,
                i as int,
                to as int,
                number as nat,
            ),
        decreases to - i,
    {
        assert(digit(chars@[i as int]));
        let value: usize = (chars[i] as u32 - 48) as usize;
        if number > (usize::MAX - value) / 10 {
            proof {
                assert(number * 10 + value > usize::MAX);
            }
            return None;
        }
        number = number * 10 + value;
        i += 1;
    }
    Some(number)
}

fn read_digits(chars: &Vec<char>, from: usize) -> (end: usize)
    requires
        from <= chars.len(),
    ensures
        end == digits_end(chars@, from as int),
        from <= end <= chars.len(),
        forall|k: int| from <= k < end ==> digit(#[trigger] chars@[k]),
{
    let mut end: usize = from;
    while end < chars.len() && '0' <= chars[end] && chars[end] <= '9'
        invariant
            from <= end <= chars.len(),
            digits_end(chars@, from as int) == digits_end(chars@, end as int),
            forall|k: int| from <= k < end ==> digit(#[trigger] chars@[k]),
        decreases chars.len() - end,
    {
        end += 1;
    }
    end
}

fn read_step(chars: &Vec<char>, from: usize) -> (r: Result<(Segment, usize), Error>)
    requires
        from < chars.len(),
    ensures
        match r {
            Ok((segment, end)) => step_at(chars@, from as int) == Ok::<(Step, int), Seq<char>>(
                (segment.deep_view(), end as int),
            ) && from < end <= chars.len(),
            Err(error) => step_at(chars@, from as int) == Err::<(Step, int), Seq<char>>(
                error.message@,
            ),
        },
{
    let c = chars[from];
    if c == '.' {
        let mut end: usize = from + 1;
        while end < chars.len() && chars[end] != '.' && chars[end] != '['
            invariant
                from < end <= chars.len(),
                key_end(chars@, from + 1) == key_end(chars@, end as int),
            decreases chars.len() - end,
        {
            end += 1;
        }
        if end == from + 1 {
            return Err(Error::new("Empty function JSON path key"));
        }
        Ok((Segment::Key(text_of(chars, from + 1, end)), end))
    } else if c == '[' {
        if from + 1 < chars.len() && (chars[from + 1] == '\'' || chars[from + 1] == '"') {
            let (key, end) = read_quoted(chars, from + 2, chars[from + 1])?;
            if end < chars.len() && chars[end] == ']' {
                Ok((Segment::Key(key), end + 1))
            } else {
                Err(Error::new("Invalid quoted function JSON path"))
            }
        } else {
            let end = read_digits(chars, from + 1);
            if end < chars.len() && chars[end] == ']' {
                if end == from + 1 {
                    return Err(Error::new("cannot parse integer from empty string"));
                }
                match read_number(chars, from + 1, end) {
                    None => Err(Error::new("number too large to fit in target type")),
                    Some(index) => if index > 65535 {
                        Err(Error::new("Function argument array index exceeds 65535"))
                    } else {
                        Ok((Segment::Index(index), end + 1))
                    },
                }
            } else {
                Err(Error::new("Invalid array function JSON path"))
            }
        }
    } else {
        Err(Error::new("Invalid function JSON path"))
    }
}

/// Reads a path.
pub fn parse_path(path: &str) -> (r: Result<Vec<Segment>, Error>)
    ensures
        outcome(r) == path_steps(path@),
{
    broadcast use {steps_push, steps_view};

    let chars = chars_of(path);
    if chars.len() == 0 || chars[0] != '$' {
        return Err(Error::new("Function JSON path must start with $"));
    }
    let mut segments: Vec<Segment> = Vec::new();
    let mut i: usize = 1;
    proof {
        assert(steps(segments@) =~= Seq::<Step>::empty());
    }
    while i < chars.len()
        invariant
            1 <= i <= chars.len(),
            path_steps(path@) == steps_from(chars@, i as int, steps(segments@)),
        decreases chars.len() - i,
    {
        broadcast use {steps_push, steps_view};

        let (segment, end) = read_step(&chars, i)?;
        if segments.len() >= 128 {
            return Err(Error::new("Function JSON path nesting exceeds 128"));
        }
        segments.push(segment);
        i = end;
    }
    if segments.len() == 0 {
        return Err(Error::new("Function partialArgs must address a field, not the root"));
    }
    Ok(segments)
}

/// How many array slots streamed arguments may allocate.
pub const MAX_SLOTS: usize = 262144;

/// What setting a value leaves: the target, the slots allocated in all, and whether
/// it was refused.
pub ghost struct Placed {
    pub target: Tree,
    pub slots: nat,
    pub result: Result<(), Seq<char>>,
}

/// The items followed by nulls up to a length.
pub open spec fn padded(items: Seq<Tree>, length: nat) -> Seq<Tree> {
    if items.len() >= length {
        items
    } else {
        items + Seq::new((length - items.len()) as nat, |i: int| Tree::Null)
    }
}

/// The value where a member of that name stands, or belongs.
pub open spec fn member_slot(fields: Seq<(Seq<char>, Tree)>, key: Seq<char>) -> Tree {
    let at = place_from(fields, key, 0);
    if at < fields.len() && fields[at].0 == key {
        fields[at].1
    } else {
        Tree::Null
    }
}

/// Sets a value at a path below a target. Missing objects and arrays are made on the
/// way, text is appended to text, and nothing that is complete is overwritten.
pub open spec fn placed(target: Tree, path: Seq<Step>, from: int, value: Tree, slots: nat) -> Placed
    decreases path.len() - from,
{
    if from < 0 || from >= path.len() {
        match (target, value) {
            (Tree::Text(previous), Tree::Text(fragment)) => Placed {
                target: Tree::Text(previous + fragment),
                slots,
                result: Ok(()),
            },
            (Tree::Null, _) => Placed { target: value, slots, result: Ok(()) },
            _ => Placed {
                target,
                slots,
                result: Err("Streaming function argument overwrites a completed value"@),
            },
        }
    } else {
        match path[from] {
            Step::Key(key) => {
                let fields = match target {
                    Tree::Null => Some(Seq::empty()),
                    Tree::Object(fields) => Some(fields),
                    _ => None,
                };
                match fields {
                    None => Placed {
                        target,
                        slots,
                        result: Err("Function path expects an object"@),
                    },
                    Some(fields) => {
                        let inner = placed(
                            member_slot(fields, key),
                            path,
                            from + 1,
                            value,
                            slots,
                        );
                        Placed {
                            target: Tree::Object(put(fields, key, inner.target)),
                            slots: inner.slots,
                            result: inner.result,
                        }
                    },
                }
            },
            Step::Index(index) => {
                let items = match target {
                    Tree::Null => Some(Seq::empty()),
                    Tree::Array(items) => Some(items),
                    _ => None,
                };
                match items {
                    None => Placed {
                        target,
                        slots,
                        result: Err("Function path expects an array"@),
                    },
                    Some(items) => if items.len() <= index && index + 1 - items.len() > MAX_SLOTS
                        - slots {
                        Placed {
                            target: Tree::Array(items),
                            slots,
                            result: Err(
                                "Streaming function arrays exceed 262144 allocated slots"@,
                            ),
                        }
                    } else {
                        let wide = padded(items, index + 1);
                        let inner = placed(
                            wide[index as int],
                            path,
                            from + 1,
                            value,
                            (slots + wide.len() - items.len()) as nat,
                        );
                        Placed {
                            target: Tree::Array(wide.update(index as int, inner.target)),
                            slots: inner.slots,
                            result: inner.result,
                        }
                    },
                }
            },
        }
    }
}

fn pad(items: &mut Vec<Json>, last: usize)
    ensures
        trees(final(items)@) == padded(trees(old(items)@), (last + 1) as nat),
        final(items).len() > last,
{
    let ghost before = trees(items@);
    proof {
        assert(before + Seq::new(0, |i: int| Tree::Null) =~= before);
    }
    while items.len() <= last
        invariant
            before.len() == old(items)@.len(),
            old(items)@.len() <= items.len(),
            items.len() <= last + 1 || items.len() == old(items)@.len(),
            trees(items@) == before + Seq::new(
                (items.len() - before.len()) as nat,
                |i: int| Tree::Null,
            ),
        decreases last + 1 - items.len(),
    {
        items.push(Json::Null);
        proof {
            let n = (items.len() - before.len()) as nat;
            assert(before + Seq::new(n, |i: int| Tree::Null) =~= (before + Seq::new(
                (n - 1) as nat,
                |i: int| Tree::Null,
            )).push(Tree::Null));
        }
    }
}

/// Finds the member named `key`, making it null where there is none.
fn slot(fields: &mut Vec<(String, Json)>, key: &str) -> (at: usize)
    ensures
        at < final(fields).len(),
        at == place_from(entries(old(fields)@), key@, 0),
        entries(final(fields)@) == put(
            entries(old(fields)@),
            key@,
            member_slot(entries(old(fields)@), key@),
        ),
        final(fields)@[at as int].0@ == key@,
        final(fields)@[at as int].1@ == member_slot(entries(old(fields)@), key@),
        forall|v: Tree|
            #![trigger put(entries(old(fields)@), key@, v)]
            put(entries(old(fields)@), key@, v) == entries(final(fields)@).update(
                at as int,
                (key@, v),
            ),
{
    let ghost before = entries(fields@);
    let mut i: usize = 0;
    while i < fields.len() && less(fields[i].0.as_str(), key)
        invariant
            i <= fields.len(),
            fields@ == old(fields)@,
            before == entries(fields@),
            place_from(before, key@, 0) == place_from(before, key@, i as int),
        decreases fields.len() - i,
    {
        i += 1;
    }
    if i < fields.len() && same(fields[i].0.as_str(), key) {
        proof {
            assert(entries(fields@) =~= before.update(i as int, before[i as int]));
            assert forall|v: Tree|
                #![trigger put(before, key@, v)]
                put(before, key@, v) == entries(fields@).update(i as int, (key@, v)) by {
                assert(before.update(i as int, (key@, v)) =~= entries(fields@).update(
                    i as int,
                    (key@, v),
                ));
            }
        }
    } else {
        fields.insert(i, (key.to_string(), Json::Null));
        proof {
            assert(entries(fields@) =~= before.insert(i as int, (key@, Tree::Null)));
            assert forall|v: Tree|
                #![trigger put(before, key@, v)]
                put(before, key@, v) == entries(fields@).update(i as int, (key@, v)) by {
                assert(before.insert(i as int, (key@, v)) =~= entries(fields@).update(
                    i as int,
                    (key@, v),
                ));
            }
        }
    }
    i
}

/// Sets a value at the steps of a path from `from` on.
pub fn set_path(
    target: &mut Json,
    path: &Vec<Segment>,
    from: usize,
    value: Json,
    slots: &mut usize,
) -> (r: Result<(), Error>)
    requires
        from <= path.len(),
        *old(slots) <= MAX_SLOTS,
    ensures
        ({
            let spec = placed(
                old(target)@,
                steps(path@),
                from as int,
                value@,
                *old(slots) as nat,
            );
            &&& final(target)@ == spec.target
            &&& *final(slots) as nat == spec.slots
            &&& outcome(r) == spec.result
        }),
        *final(slots) <= MAX_SLOTS,
    decreases path.len() - from,
{
    if from == path.len() {
        if target.is_null() {
            *target = value;
            return Ok(());
        }
        match target {
            Json::String(previous) => {
                match &value {
                    Json::String(fragment) => {
                        previous.append(fragment.as_str());
                        Ok(())
                    },
                    _ => Err(
                        Error::new("Streaming function argument overwrites a completed value"),
                    ),
                }
            },
            _ => Err(Error::new("Streaming function argument overwrites a completed value")),
        }
    } else {
        match &path[from] {
            Segment::Key(key) => {
                if target.is_null() {
                    *target = Json::object();
                }
                match target {
                    Json::Object(fields) => {
                        let at = slot(fields, key.as_str());
                        let ghost wide = entries(fields@);
                        let result = set_path(&mut fields[at].1, path, from + 1, value, slots);
                        proof {
                            assert(entries(fields@) =~= wide.update(
                                at as int,
                                (key@, fields@[at as int].1@),
                            ));
                        }
                        result
                    },
                    _ => Err(Error::new("Function path expects an object")),
                }
            },
            Segment::Index(index) => {
                let index: usize = *index;
                if target.is_null() {
                    *target = Json::Array(Vec::new());
                }
                match target {
                    Json::Array(items) => {
                        let ghost narrow = trees(items@);
                        if items.len() <= index {
                            if index - items.len() >= MAX_SLOTS - *slots {
                                return Err(
                                    Error::new(
                                        "Streaming function arrays exceed 262144 allocated slots",
                                    ),
                                );
                            }
                            *slots = *slots + (index - items.len()) + 1;
                            pad(items, index);
                        }
                        let ghost wide = trees(items@);
                        proof {
                            assert(wide == padded(narrow, (index + 1) as nat));
                        }
                        let result = set_path(&mut items[index], path, from + 1, value, slots);
                        proof {
                            assert(trees(items@) =~= wide.update(
                                index as int,
                                items@[index as int]@,
                            ));
                        }
                        result
                    },
                    _ => Err(Error::new("Function path expects an array")),
                }
            },
        }
    }
}

} // verus!

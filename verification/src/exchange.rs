//! The exchange with `serde_json`: reading JSON text into values and writing
//! values as JSON text.

use vstd::prelude::*;
use vstd::utf8::encode_utf8;
use crate::error::{failure, outcome, success, Error};
use crate::table::{entries, put, put_adds_one};
use crate::text::decimal;
use crate::tree::{json_views, trees, Json, Number, NumberView, Tree};
use serde_json::Value;

verus! {

broadcast use json_views;

/// `serde_json`'s value.
#[verifier::external_type_specification]
#[verifier::external_body]
pub struct ExValue(serde_json::Value);

/// What a `serde_json` value holds.
pub uninterp spec fn contents(value: serde_json::Value) -> Tree;

/// What `serde_json::from_slice` reads from JSON text, or its error's message.
pub uninterp spec fn parsed(text: Seq<u8>) -> Result<Tree, Seq<char>>;

/// What `serde_json::to_string` writes.
pub uninterp spec fn rendered(value: Tree) -> Seq<char>;

/// What `serde_json::to_string_pretty` writes.
pub uninterp spec fn laid_out(value: Tree) -> Seq<char>;

/// The `serde_json` number made from decimal text.
pub uninterp spec fn decimal_value(text: Seq<char>) -> Tree;

/// One level of a `serde_json` value.
pub enum Node<'a> {
    Null,
    Bool(bool),
    Number(Number),
    Text(&'a str),
    Array(Vec<&'a serde_json::Value>),
    Object(Vec<(&'a str, &'a serde_json::Value)>),
}

/// One level of a value to be handed to `serde_json`.
pub enum Branch {
    Null,
    Bool(bool),
    Unsigned(u64),
    Negative(i64),
    Text(String),
    Array(Vec<serde_json::Value>),
    Object(Vec<(String, serde_json::Value)>),
}

/// The entries put one after the other into an empty object: the first `n`.
pub open spec fn collected(fields: Seq<(Seq<char>, Tree)>, n: nat) -> Seq<(Seq<char>, Tree)>
    decreases n,
{
    if n == 0 || n > fields.len() {
        Seq::empty()
    } else {
        put(collected(fields, (n - 1) as nat), fields[n - 1].0, fields[n - 1].1)
    }
}

/// The tree of a level that was read.
pub open spec fn node_tree(node: Node<'_>) -> Tree {
    match node {
        Node::Null => Tree::Null,
        Node::Bool(b) => Tree::Bool(b),
        Node::Number(n) => Tree::Number(n@),
        Node::Text(s) => Tree::Text(s@),
        Node::Array(items) => Tree::Array(Seq::new(items@.len(), |i: int| contents(*items@[i]))),
        Node::Object(fields) => Tree::Object(
            Seq::new(fields@.len(), |i: int| (fields@[i].0@, contents(*fields@[i].1))),
        ),
    }
}

/// The tree of a level to be handed over.
pub open spec fn branch_tree(branch: Branch) -> Tree {
    match branch {
        Branch::Null => Tree::Null,
        Branch::Bool(b) => Tree::Bool(b),
        Branch::Unsigned(n) => Tree::Number(NumberView::Unsigned(n)),
        Branch::Negative(n) => Tree::Number(signed(n)),
        Branch::Text(s) => Tree::Text(s@),
        Branch::Array(items) => Tree::Array(Seq::new(items@.len(), |i: int| contents(items@[i]))),
        Branch::Object(fields) => Tree::Object(
            collected(
                Seq::new(fields@.len(), |i: int| (fields@[i].0@, contents(fields@[i].1))),
                fields@.len(),
            ),
        ),
    }
}

/// A signed integer as `serde_json` holds it.
pub open spec fn signed(n: i64) -> NumberView {
    if n < 0 {
        NumberView::Negative(n)
    } else {
        NumberView::Unsigned(n as u64)
    }
}

/// The member name that `serde_json` keeps for JSON text inside a value: an object that starts
/// with it reads as the value that the member's text holds.
pub open spec fn raw_member() -> Seq<char> {
    "$serde_json::private::RawValue"@
}

/// Whether the text of a tree reads back as the tree: containers nest at most `depth` deep, and
/// no object has the member that `serde_json` keeps for itself.
pub open spec fn readable(tree: Tree, depth: nat) -> bool
    decreases tree,
{
    match tree {
        Tree::Array(items) => depth > 0 && forall|i: int|
            0 <= i < items.len() ==> readable(#[trigger] items[i], (depth - 1) as nat),
        Tree::Object(fields) => depth > 0 && forall|i: int|
            0 <= i < fields.len() ==> (#[trigger] fields[i]).0 != raw_member() && readable(
                fields[i].1,
                (depth - 1) as nat,
            ),
        _ => true,
    }
}

/// `serde_json::from_slice` into a `Value`: the value that the text denotes, or
/// the message of the error where the text is not JSON.
#[verifier::external_body]
fn read_value(text: &[u8]) -> (r: Result<serde_json::Value, String>)
    ensures
        match r {
            Ok(value) => parsed(text@) == success(contents(value)),
            Err(message) => parsed(text@) == failure::<Tree>(message@),
        },
{
    serde_json::from_slice(text).map_err(|error| error.to_string())
}

/// `serde_json::to_string` of a `Value`, which cannot fail on one: the text is a
/// function of what the value holds. Text that nests at most 127 containers, and in which no
/// object has the member name that stands for raw JSON text, reads back as the value it was
/// written from; a float does so because `serde_json` is built to read floats exactly. A
/// natural number is written in decimal digits.
#[verifier::external_body]
fn write_value(value: &serde_json::Value) -> (r: String)
    ensures
        r@ == rendered(contents(*value)),
        readable(contents(*value), 127) ==> parsed(encode_utf8(r@)) == success(contents(*value)),
        contents(*value) matches Tree::Number(NumberView::Unsigned(n)) ==> r@ == decimal(n as nat),
{
    serde_json::to_string(value).unwrap_or_default()
}

/// `serde_json::to_string_pretty` of a `Value`, which cannot fail on one: the text is a
/// function of what the value holds.
#[verifier::external_body]
fn lay_out_value(value: &serde_json::Value) -> (r: String)
    ensures
        r@ == laid_out(contents(*value)),
{
    serde_json::to_string_pretty(value).unwrap_or_default()
}

/// The variants of `serde_json::Value`, one level deep: an array's items and an
/// object's members in the order in which `serde_json` walks them. A float is
/// rendered by the standard library.
#[verifier::external_body]
fn open_value<'a>(value: &'a serde_json::Value) -> (node: Node<'a>)
    ensures
        node_tree(node) == contents(*value),
{
    match value {
        Value::Null => Node::Null,
        Value::Bool(b) => Node::Bool(*b),
        Value::Number(n) => Node::Number(match (n.as_u64(), n.as_i64()) {
            (Some(u), _) => Number::Unsigned(u),
            (None, Some(i)) => Number::Negative(i),
            (None, None) => Number::Float(n.as_f64().unwrap_or_default().to_string()),
        }),
        Value::String(s) => Node::Text(s),
        Value::Array(items) => Node::Array(items.iter().collect()),
        Value::Object(map) => Node::Object(map.iter().map(|(k, v)| (k.as_str(), v)).collect()),
    }
}

/// The variants of `serde_json::Value` built from one level: an object's members
/// are inserted one after the other into its map, which keeps them in the order of
/// their names.
#[verifier::external_body]
fn close_value(branch: Branch) -> (value: serde_json::Value)
    ensures
        contents(value) == branch_tree(branch),
{
    match branch {
        Branch::Null => serde_json::Value::Null,
        Branch::Bool(b) => serde_json::Value::Bool(b),
        Branch::Unsigned(n) => serde_json::Value::from(n),
        Branch::Negative(n) => serde_json::Value::from(n),
        Branch::Text(s) => serde_json::Value::String(s),
        Branch::Array(items) => serde_json::Value::Array(items),
        Branch::Object(fields) => serde_json::Value::Object(fields.into_iter().collect()),
    }
}

/// `serde_json::Number::from_f64` of the machine number that the standard library
/// reads from the text; null where there is none.
#[verifier::external_body]
fn float_value(text: &str) -> (value: serde_json::Value)
    ensures
        contents(value) == decimal_value(text@),
        contents(value) is Number || contents(value) is Null,
{
    text.parse().ok().and_then(serde_json::Number::from_f64).into()
}

/// A tree as `serde_json` holds it: members in order and under one name each,
/// integers by sign, floats as the nearest machine number.
pub open spec fn settled(tree: Tree) -> Tree
    decreases tree,
{
    match tree {
        Tree::Number(NumberView::Negative(n)) => Tree::Number(signed(n)),
        Tree::Number(NumberView::Float(s)) => decimal_value(s),
        Tree::Array(items) => Tree::Array(
            Seq::new(
                items.len(),
                |i: int|
                    if 0 <= i < items.len() {
                        settled(items[i])
                    } else {
                        Tree::Null
                    },
            ),
        ),
        Tree::Object(fields) => Tree::Object(settled_fields(fields, fields.len())),
        _ => tree,
    }
}

/// The first `n` members, settled and put one after the other into an empty object.
pub open spec fn settled_fields(fields: Seq<(Seq<char>, Tree)>, n: nat) -> Seq<(Seq<char>, Tree)>
    decreases fields, n,
{
    if n == 0 || n > fields.len() {
        Seq::empty()
    } else {
        put(settled_fields(fields, (n - 1) as nat), fields[n - 1].0, settled(fields[n - 1].1))
    }
}

proof fn collected_settled(
    fields: Seq<(Seq<char>, Tree)>,
    done: Seq<(Seq<char>, Tree)>,
    n: nat,
)
    requires
        n <= fields.len(),
        done.len() == fields.len(),
        forall|i: int|
            0 <= i < fields.len() ==> #[trigger] done[i] == (fields[i].0, settled(fields[i].1)),
    ensures
        collected(done, n) == settled_fields(fields, n),
    decreases n,
{
    if n > 0 {
        collected_settled(fields, done, (n - 1) as nat);
        assert(done[n - 1] == (fields[n - 1].0, settled(fields[n - 1].1)));
    }
}

proof fn collected_readable(fields: Seq<(Seq<char>, Tree)>, n: nat, depth: nat)
    requires
        n <= fields.len(),
        forall|i: int|
            0 <= i < fields.len() ==> (#[trigger] fields[i]).0 != raw_member() && readable(
                fields[i].1,
                depth,
            ),
    ensures
        forall|i: int|
            0 <= i < collected(fields, n).len() ==> (#[trigger] collected(fields, n)[i]).0
                != raw_member() && readable(collected(fields, n)[i].1, depth),
    decreases n,
{
    if n > 0 {
        collected_readable(fields, (n - 1) as nat, depth);
        put_adds_one(collected(fields, (n - 1) as nat), fields[n - 1].0, fields[n - 1].1);
    }
}

/// The JSON text of a tree.
pub open spec fn written(tree: Tree) -> Seq<char> {
    rendered(settled(tree))
}

fn from_value(value: &serde_json::Value) -> (json: Json)
    ensures
        json@ == contents(*value),
    decreases contents(*value),
{
    match open_value(value) {
        Node::Null => Json::Null,
        Node::Bool(b) => Json::Bool(b),
        Node::Number(n) => Json::Number(n),
        Node::Text(s) => Json::String(s.to_string()),
        Node::Array(items) => {
            let ghost whole = contents(*value)->Array_0;
            let mut out: Vec<Json> = Vec::new();
            let mut i: usize = 0;
            while i < items.len()
                invariant
                    i <= items.len(),
                    contents(*value) == Tree::Array(whole),
                    whole == Seq::new(items@.len(), |k: int| contents(*items@[k])),
                    trees(out@) == whole.subrange(0, i as int),
                decreases items.len() - i,
            {
                assert(decreases_to!(contents(*value) => contents(*value)->Array_0));
                assert(decreases_to!(whole => whole[i as int]));
                out.push(from_value(items[i]));
                proof {
                    assert(whole.subrange(0, i + 1) =~= whole.subrange(0, i as int).push(
                        whole[i as int],
                    ));
                }
                i += 1;
            }
            proof {
                assert(whole.subrange(0, i as int) =~= whole);
            }
            Json::Array(out)
        },
        Node::Object(fields) => {
            let ghost whole = contents(*value)->Object_0;
            let mut out: Vec<(String, Json)> = Vec::new();
            let mut i: usize = 0;
            while i < fields.len()
                invariant
                    i <= fields.len(),
                    contents(*value) == Tree::Object(whole),
                    whole == Seq::new(
                        fields@.len(),
                        |k: int| (fields@[k].0@, contents(*fields@[k].1)),
                    ),
                    entries(out@) == whole.subrange(0, i as int),
                decreases fields.len() - i,
            {
                assert(decreases_to!(contents(*value) => contents(*value)->Object_0));
                assert(decreases_to!(whole => whole[i as int]));
                assert(decreases_to!(whole[i as int] => whole[i as int].1));
                out.push((fields[i].0.to_string(), from_value(fields[i].1)));
                proof {
                    assert(whole.subrange(0, i + 1) =~= whole.subrange(0, i as int).push(
                        whole[i as int],
                    ));
                }
                i += 1;
            }
            proof {
                assert(whole.subrange(0, i as int) =~= whole);
            }
            Json::Object(out)
        },
    }
}

/// The `serde_json` value of a JSON value.
pub(crate) fn to_value(json: &Json) -> (value: serde_json::Value)
    ensures
        contents(value) == settled(json@),
        forall|depth: nat| readable(json@, depth) ==> #[trigger] readable(contents(value), depth),
    decreases json,
{
    match json {
        Json::Null => close_value(Branch::Null),
        Json::Bool(b) => close_value(Branch::Bool(*b)),
        Json::Number(Number::Unsigned(n)) => close_value(Branch::Unsigned(*n)),
        Json::Number(Number::Negative(n)) => close_value(Branch::Negative(*n)),
        Json::Number(Number::Float(s)) => float_value(s.as_str()),
        Json::String(s) => close_value(Branch::Text(s.clone())),
        Json::Array(items) => {
            let ghost whole = settled(json@)->Array_0;
            let mut out: Vec<serde_json::Value> = Vec::new();
            let mut i: usize = 0;
            while i < items.len()
                invariant
                    *json == Json::Array(*items),
                    whole == settled(json@)->Array_0,
                    i == out.len() <= items.len(),
                    forall|k: int| 0 <= k < i ==> contents(#[trigger] out@[k]) == whole[k],
                    forall|k: int, depth: nat|
                        0 <= k < i && readable(items@[k]@, depth) ==> #[trigger] readable(
                            contents(out@[k]),
                            depth,
                        ),
                decreases items.len() - i,
            {
                assert(decreases_to!(*json => json->Array_0));
                assert(decreases_to!(*items => items[i as int]));
                out.push(to_value(&items[i]));
                i += 1;
            }
            let ghost branch = Branch::Array(out);
            proof {
                assert(branch_tree(branch)->Array_0 =~= whole);
                assert forall|depth: nat| readable(json@, depth) implies #[trigger] readable(
                    branch_tree(branch),
                    depth,
                ) by {
                    let own = json@->Array_0;
                    assert forall|k: int| 0 <= k < whole.len() implies readable(
                        #[trigger] whole[k],
                        (depth - 1) as nat,
                    ) by {
                        assert(readable(own[k], (depth - 1) as nat));
                        assert(readable(contents(out@[k]), (depth - 1) as nat));
                    }
                }
            }
            close_value(Branch::Array(out))
        },
        Json::Object(fields) => {
            let mut out: Vec<(String, serde_json::Value)> = Vec::new();
            let mut i: usize = 0;
            while i < fields.len()
                invariant
                    *json == Json::Object(*fields),
                    i == out.len() <= fields.len(),
                    forall|k: int|
                        0 <= k < i ==> (#[trigger] out@[k]).0@ == fields@[k].0@ && contents(out@[k].1)
                            == settled(fields@[k].1@),
                    forall|k: int, depth: nat|
                        0 <= k < i && readable(fields@[k].1@, depth) ==> #[trigger] readable(
                            contents(out@[k].1),
                            depth,
                        ),
                decreases fields.len() - i,
            {
                assert(decreases_to!(*json => json->Object_0));
                assert(decreases_to!(*fields => fields[i as int]));
                out.push((fields[i].0.clone(), to_value(&fields[i].1)));
                i += 1;
            }
            proof {
                let own = entries(fields@);
                let a = Seq::new(out@.len(), |i: int| (out@[i].0@, contents(out@[i].1)));
                assert(json@ == Tree::Object(own));
                collected_settled(own, a, own.len());
                assert forall|depth: nat| readable(json@, depth) implies #[trigger] readable(
                    Tree::Object(collected(a, a.len())),
                    depth,
                ) by {
                    assert forall|k: int| 0 <= k < a.len() implies (#[trigger] a[k]).0
                        != raw_member() && readable(a[k].1, (depth - 1) as nat) by {
                        assert(own[k].0 != raw_member());
                        assert(readable(fields@[k].1@, (depth - 1) as nat));
                        assert(readable(contents(out@[k].1), (depth - 1) as nat));
                    }
                    collected_readable(a, a.len(), (depth - 1) as nat);
                }
            }
            close_value(Branch::Object(out))
        },
    }
}

/// Reads JSON text.
pub fn parse(text: &[u8]) -> (r: Result<Json, Error>)
    ensures
        outcome(r) == parsed(text@),
{
    match read_value(text) {
        Ok(value) => Ok(from_value(&value)),
        Err(message) => Err(Error { message }),
    }
}

/// The number that decimal text denotes, or null.
pub(crate) fn decimal_json(text: &str) -> (json: Json)
    ensures
        json@ == decimal_value(text@),
{
    from_value(&float_value(text))
}

/// Writes a value as JSON text.
pub fn to_text(json: &Json) -> (text: String)
    ensures
        text@ == written(json@),
        readable(json@, 127) ==> parsed(encode_utf8(text@)) == success(settled(json@)),
        json@ matches Tree::Number(NumberView::Unsigned(n)) ==> text@ == decimal(n as nat),
{
    let value = to_value(json);
    write_value(&value)
}

/// Writes a value as JSON text on several lines.
pub fn to_lines(json: &Json) -> (text: String)
    ensures
        text@ == laid_out(settled(json@)),
{
    lay_out_value(&to_value(json))
}

} // verus!

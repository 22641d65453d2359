//! JSON values: the representation, its mathematical view, and the laws of
//! members by name.

use vstd::prelude::*;
use crate::table::{cut, entries, find, put};

verus! {

/// A JSON number. A number that is not an integer is held by its shortest
/// decimal rendering.
#[derive(Debug)]
pub enum Number {
    Unsigned(u64),
    Negative(i64),
    Float(String),
}

/// The view of a number.
pub ghost enum NumberView {
    Unsigned(u64),
    Negative(i64),
    Float(Seq<char>),
}

/// A JSON value. The members of an object stand in the order of their names.
#[derive(Debug)]
pub enum Json {
    Null,
    Bool(bool),
    Number(Number),
    String(String),
    Array(Vec<Json>),
    Object(Vec<(String, Json)>),
}

/// The view of a JSON value.
pub ghost enum Tree {
    Null,
    Bool(bool),
    Number(NumberView),
    Text(Seq<char>),
    Array(Seq<Tree>),
    Object(Seq<(Seq<char>, Tree)>),
}

impl View for Number {
    type V = NumberView;

    open spec fn view(&self) -> NumberView {
        match *self {
            Number::Unsigned(n) => NumberView::Unsigned(n),
            Number::Negative(n) => NumberView::Negative(n),
            Number::Float(s) => NumberView::Float(s@),
        }
    }
}

/// The tree that a JSON value stands for.
pub open spec fn tree(json: Json) -> Tree
    decreases json,
{
    match json {
        Json::Null => Tree::Null,
        Json::Bool(b) => Tree::Bool(b),
        Json::Number(n) => Tree::Number(n@),
        Json::String(s) => Tree::Text(s@),
        Json::Array(items) => Tree::Array(
            Seq::new(
                items@.len(),
                |i: int|
                    if 0 <= i < items@.len() {
                        tree(items@[i])
                    } else {
                        Tree::Null
                    },
            ),
        ),
        Json::Object(fields) => Tree::Object(
            Seq::new(
                fields@.len(),
                |i: int|
                    if 0 <= i < fields@.len() {
                        (fields@[i].0@, tree(fields@[i].1))
                    } else {
                        (Seq::empty(), Tree::Null)
                    },
            ),
        ),
    }
}

impl View for Json {
    type V = Tree;

    open spec fn view(&self) -> Tree {
        tree(*self)
    }
}

impl DeepView for Json {
    type V = Tree;

    open spec fn deep_view(&self) -> Tree {
        tree(*self)
    }
}

/// The views of a sequence of values.
pub open spec fn trees(items: Seq<Json>) -> Seq<Tree> {
    Seq::new(items.len(), |i: int| items[i]@)
}

pub broadcast proof fn array_view(items: Vec<Json>)
    ensures
        #[trigger] tree(Json::Array(items)) == Tree::Array(trees(items@)),
{
    assert(tree(Json::Array(items))->Array_0 =~= trees(items@));
}

pub broadcast proof fn object_view(fields: Vec<(String, Json)>)
    ensures
        #[trigger] tree(Json::Object(fields)) == Tree::Object(entries(fields@)),
{
    assert(tree(Json::Object(fields))->Object_0 =~= entries(fields@));
}

pub broadcast proof fn trees_push(items: Seq<Json>, item: Json)
    ensures
        #[trigger] trees(items.push(item)) == trees(items).push(item@),
{
    assert(trees(items.push(item)) =~= trees(items).push(item@));
}

pub broadcast proof fn trees_empty(items: Seq<Json>)
    requires
        items.len() == 0,
    ensures
        #[trigger] trees(items) == Seq::<Tree>::empty(),
{
    assert(trees(items) =~= Seq::<Tree>::empty());
}

pub broadcast proof fn members_push(fields: Seq<(String, Json)>, field: (String, Json))
    ensures
        #[trigger] entries(fields.push(field)) == entries(fields).push((field.0@, field.1@)),
{
    assert(entries(fields.push(field)) =~= entries(fields).push((field.0@, field.1@)));
}

pub broadcast proof fn members_empty(fields: Seq<(String, Json)>)
    requires
        fields.len() == 0,
    ensures
        #[trigger] entries(fields) == Seq::<(Seq<char>, Tree)>::empty(),
{
    assert(entries(fields) =~= Seq::<(Seq<char>, Tree)>::empty());
}

pub broadcast proof fn vec_view(items: Vec<Json>)
    ensures
        #[trigger] items.deep_view() == trees(items@),
{
    assert(items.deep_view() =~= trees(items@));
}

pub broadcast proof fn table_view(fields: Vec<(String, Json)>)
    ensures
        #[trigger] fields.deep_view() == entries(fields@),
{
    assert(fields.deep_view() =~= entries(fields@));
}

pub broadcast group json_views {
    vec_view,
    table_view,
    array_view,
    object_view,
    trees_push,
    trees_empty,
    members_push,
    members_empty,
}


impl Tree {
    /// The member named `key`, of an object that has one.
    pub open spec fn get(self, key: Seq<char>) -> Option<Tree> {
        match self {
            Tree::Object(fields) => find(fields, key),
            _ => None,
        }
    }

    /// The member named `key`, or null.
    pub open spec fn at(self, key: Seq<char>) -> Tree {
        match self.get(key) {
            Some(value) => value,
            None => Tree::Null,
        }
    }

    pub open spec fn has(self, key: Seq<char>) -> bool {
        self.get(key) is Some
    }

    pub open spec fn text(self) -> Option<Seq<char>> {
        match self {
            Tree::Text(s) => Some(s),
            _ => None,
        }
    }

    pub open spec fn flag(self) -> Option<bool> {
        match self {
            Tree::Bool(b) => Some(b),
            _ => None,
        }
    }

    pub open spec fn natural(self) -> Option<u64> {
        match self {
            Tree::Number(NumberView::Unsigned(n)) => Some(n),
            _ => None,
        }
    }

    pub open spec fn integer(self) -> Option<int> {
        match self {
            Tree::Number(NumberView::Unsigned(n)) => if n <= i64::MAX {
                Some(n as int)
            } else {
                None
            },
            Tree::Number(NumberView::Negative(n)) => Some(n as int),
            _ => None,
        }
    }

    pub open spec fn items(self) -> Option<Seq<Tree>> {
        match self {
            Tree::Array(items) => Some(items),
            _ => None,
        }
    }

    pub open spec fn fields(self) -> Option<Seq<(Seq<char>, Tree)>> {
        match self {
            Tree::Object(fields) => Some(fields),
            _ => None,
        }
    }

    /// The object with the member named `key` set to `value`; null counts as
    /// the empty object, and any other value stays as it is.
    pub open spec fn with(self, key: Seq<char>, value: Tree) -> Tree {
        match self {
            Tree::Object(fields) => Tree::Object(put(fields, key, value)),
            Tree::Null => Tree::Object(put(Seq::empty(), key, value)),
            _ => self,
        }
    }

    /// The object without the member named `key`.
    pub open spec fn without(self, key: Seq<char>) -> Tree {
        match self {
            Tree::Object(fields) => Tree::Object(cut(fields, key)),
            _ => self,
        }
    }

    /// Equality of values: numbers by value, so that zero equals minus zero.
    pub open spec fn equals(self, other: Tree) -> bool
        decreases self, 1nat, 0nat,
    {
        match (self, other) {
            (Tree::Null, Tree::Null) => true,
            (Tree::Bool(a), Tree::Bool(b)) => a == b,
            (Tree::Number(a), Tree::Number(b)) => number_equals(a, b),
            (Tree::Text(a), Tree::Text(b)) => a == b,
            (Tree::Array(a), Tree::Array(b)) => a.len() == b.len() && (forall|i: int|
                0 <= i < a.len() ==> (#[trigger] a[i]).equals(b[i])),
            (Tree::Object(a), Tree::Object(b)) => a.len() == b.len() && (forall|i: int|
                0 <= i < a.len() ==> (#[trigger] a[i]).0 == b[i].0 && a[i].1.equals(b[i].1)),
            _ => false,
        }
    }
}

/// The rendering of a zero, of either sign.
pub open spec fn zero_text(s: Seq<char>) -> bool {
    s == "0"@ || s == "-0"@
}

/// Equality of numbers.
pub open spec fn number_equals(a: NumberView, b: NumberView) -> bool {
    match (a, b) {
        (NumberView::Unsigned(x), NumberView::Unsigned(y)) => x == y,
        (NumberView::Negative(x), NumberView::Negative(y)) => x == y,
        (NumberView::Float(x), NumberView::Float(y)) => x == y || (zero_text(x) && zero_text(y)),
        _ => false,
    }
}

} // verus!

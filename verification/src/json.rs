//! Operations on JSON values.

use vstd::prelude::*;
use crate::table::{cut_entry, entries, get_entry, put_entry};
use crate::text::same;
use crate::tree::{json_views, number_equals, trees, Json, Number, NumberView, Tree};

verus! {

broadcast use json_views;

impl Number {
    pub fn copy(&self) -> (r: Number)
        ensures
            r@ == self@,
    {
        match self {
            Number::Unsigned(n) => Number::Unsigned(*n),
            Number::Negative(n) => Number::Negative(*n),
            Number::Float(s) => Number::Float(s.clone()),
        }
    }

    pub fn equals(&self, other: &Number) -> (r: bool)
        ensures
            r == number_equals(self@, other@),
    {
        match (self, other) {
            (Number::Unsigned(a), Number::Unsigned(b)) => *a == *b,
            (Number::Negative(a), Number::Negative(b)) => *a == *b,
            (Number::Float(a), Number::Float(b)) => same(a, b) || ((same(a, "0") || same(a, "-0"))
                && (same(b, "0") || same(b, "-0"))),
            _ => false,
        }
    }
}

impl Json {
    /// The empty object.
    pub fn object() -> (r: Json)
        ensures
            r@ == Tree::Object(Seq::empty()),
    {
        Json::Object(Vec::new())
    }

    /// A string.
    pub fn text(s: &str) -> (r: Json)
        ensures
            r@ == Tree::Text(s@),
    {
        Json::String(s.to_string())
    }

    /// A natural number.
    pub fn natural(n: u64) -> (r: Json)
        ensures
            r@ == Tree::Number(NumberView::Unsigned(n)),
    {
        Json::Number(Number::Unsigned(n))
    }

    pub fn is_null(&self) -> (r: bool)
        ensures
            r == (self@ is Null),
    {
        matches!(self, Json::Null)
    }

    pub fn is_object(&self) -> (r: bool)
        ensures
            r == (self@ is Object),
    {
        matches!(self, Json::Object(_))
    }

    pub fn is_array(&self) -> (r: bool)
        ensures
            r == (self@ is Array),
    {
        matches!(self, Json::Array(_))
    }

    pub fn is_string(&self) -> (r: bool)
        ensures
            r == (self@ is Text),
    {
        matches!(self, Json::String(_))
    }

    pub fn is_number(&self) -> (r: bool)
        ensures
            r == (self@ is Number),
    {
        matches!(self, Json::Number(_))
    }

    /// The member named `key`, of an object that has one.
    pub fn get(&self, key: &str) -> (r: Option<&Json>)
        ensures
            match r {
                Some(value) => self@.get(key@) == Some(value@),
                None => self@.get(key@) is None,
            },
    {
        match self {
            Json::Object(fields) => get_entry(fields, key),
            _ => None,
        }
    }

    /// The member named `key`, or null.
    pub fn at(&self, key: &str) -> (r: &Json)
        ensures
            r@ == self@.at(key@),
    {
        match self.get(key) {
            Some(value) => value,
            None => &Json::Null,
        }
    }

    pub fn has(&self, key: &str) -> (r: bool)
        ensures
            r == self@.has(key@),
    {
        self.get(key).is_some()
    }

    pub fn as_str(&self) -> (r: Option<&str>)
        ensures
            match r {
                Some(s) => self@.text() == Some(s@),
                None => self@.text() is None,
            },
    {
        match self {
            Json::String(s) => Some(s.as_str()),
            _ => None,
        }
    }

    pub fn as_bool(&self) -> (r: Option<bool>)
        ensures
            r == self@.flag(),
    {
        match self {
            Json::Bool(b) => Some(*b),
            _ => None,
        }
    }

    pub fn as_u64(&self) -> (r: Option<u64>)
        ensures
            r == self@.natural(),
    {
        match self {
            Json::Number(Number::Unsigned(n)) => Some(*n),
            _ => None,
        }
    }

    pub fn as_i64(&self) -> (r: Option<i64>)
        ensures
            match r {
                Some(n) => self@.integer() == Some(n as int),
                None => self@.integer() is None,
            },
    {
        match self {
            Json::Number(Number::Unsigned(n)) => if *n <= i64::MAX as u64 {
                Some(*n as i64)
            } else {
                None
            },
            Json::Number(Number::Negative(n)) => Some(*n),
            _ => None,
        }
    }

    pub fn as_array(&self) -> (r: Option<&Vec<Json>>)
        ensures
            match r {
                Some(items) => self@ == Tree::Array(trees(items@)),
                None => !(self@ is Array),
            },
    {
        match self {
            Json::Array(items) => Some(items),
            _ => None,
        }
    }

    pub fn as_object(&self) -> (r: Option<&Vec<(String, Json)>>)
        ensures
            match r {
                Some(fields) => self@ == Tree::Object(entries(fields@)),
                None => !(self@ is Object),
            },
    {
        match self {
            Json::Object(fields) => Some(fields),
            _ => None,
        }
    }

    /// Whether the value is the string `s`.
    pub fn is(&self, s: &str) -> (r: bool)
        ensures
            r == (self@ == Tree::Text(s@)),
    {
        match self {
            Json::String(own) => same(own.as_str(), s),
            _ => false,
        }
    }

    /// A copy of the value.
    pub fn copy(&self) -> (r: Json)
        ensures
            r@ == self@,
        decreases self,
    {
        match self {
            Json::Null => Json::Null,
            Json::Bool(b) => Json::Bool(*b),
            Json::Number(n) => Json::Number(n.copy()),
            Json::String(s) => Json::String(s.clone()),
            Json::Array(items) => {
                let mut out: Vec<Json> = Vec::new();
                let mut i: usize = 0;
                while i < items.len()
                    invariant
                        *self == Json::Array(*items),
                        i <= items.len(),
                        trees(out@) == trees(items@).subrange(0, i as int),
                    decreases items.len() - i,
                {
                    assert(decreases_to!(*self => self->Array_0));
                    assert(decreases_to!(*items => items[i as int]));
                    out.push(items[i].copy());
                    proof {
                        assert(trees(items@).subrange(0, i + 1) =~= trees(items@).subrange(
                            0,
                            i as int,
                        ).push(items@[i as int]@));
                    }
                    i += 1;
                }
                proof {
                    assert(trees(items@).subrange(0, i as int) =~= trees(items@));
                }
                Json::Array(out)
            },
            Json::Object(fields) => {
                let mut out: Vec<(String, Json)> = Vec::new();
                let mut i: usize = 0;
                while i < fields.len()
                    invariant
                        *self == Json::Object(*fields),
                        i <= fields.len(),
                        entries(out@) == entries(fields@).subrange(0, i as int),
                    decreases fields.len() - i,
                {
                    assert(decreases_to!(*self => self->Object_0));
                    assert(decreases_to!(*fields => fields[i as int]));
                    out.push((fields[i].0.clone(), fields[i].1.copy()));
                    proof {
                        assert(entries(fields@).subrange(0, i + 1) =~= entries(fields@).subrange(
                            0,
                            i as int,
                        ).push((fields@[i as int].0@, fields@[i as int].1@)));
                    }
                    i += 1;
                }
                proof {
                    assert(entries(fields@).subrange(0, i as int) =~= entries(fields@));
                }
                Json::Object(out)
            },
        }
    }

    /// Whether two values are equal.
    pub fn equals(&self, other: &Json) -> (r: bool)
        ensures
            r == self@.equals(other@),
        decreases self,
    {
        match (self, other) {
            (Json::Null, Json::Null) => true,
            (Json::Bool(a), Json::Bool(b)) => *a == *b,
            (Json::Number(a), Json::Number(b)) => a.equals(b),
            (Json::String(a), Json::String(b)) => same(a.as_str(), b.as_str()),
            (Json::Array(a), Json::Array(b)) => {
                if a.len() != b.len() {
                    return false;
                }
                let mut i: usize = 0;
                while i < a.len()
                    invariant
                        *self == Json::Array(*a),
                        *other == Json::Array(*b),
                        a.len() == b.len(),
                        i <= a.len(),
                        forall|j: int|
                            0 <= j < i ==> (#[trigger] trees(a@)[j]).equals(trees(b@)[j]),
                    decreases a.len() - i,
                {
                    assert(decreases_to!(*self => self->Array_0));
                    assert(decreases_to!(*a => a[i as int]));
                    if !a[i].equals(&b[i]) {
                        proof {
                            assert(!trees(a@)[i as int].equals(trees(b@)[i as int]));
                        }
                        return false;
                    }
                    i += 1;
                }
                true
            },
            (Json::Object(a), Json::Object(b)) => {
                if a.len() != b.len() {
                    return false;
                }
                let mut i: usize = 0;
                while i < a.len()
                    invariant
                        *self == Json::Object(*a),
                        *other == Json::Object(*b),
                        a.len() == b.len(),
                        i <= a.len(),
                        forall|j: int|
                            0 <= j < i ==> (#[trigger] entries(a@)[j]).0 == entries(b@)[j].0
                                && entries(a@)[j].1.equals(entries(b@)[j].1),
                    decreases a.len() - i,
                {
                    assert(decreases_to!(*self => self->Object_0));
                    assert(decreases_to!(*a => a[i as int]));
                    if !same(a[i].0.as_str(), b[i].0.as_str()) || !a[i].1.equals(&b[i].1) {
                        proof {
                            assert(entries(a@)[i as int].0 != entries(b@)[i as int].0 || !entries(
                                a@,
                            )[i as int].1.equals(entries(b@)[i as int].1));
                        }
                        return false;
                    }
                    i += 1;
                }
                true
            },
            _ => false,
        }
    }

    /// Sets the member named `key` of an object; null becomes an object, and
    /// any other value stays as it is.
    pub fn set(&mut self, key: &str, value: Json)
        ensures
            final(self)@ == old(self)@.with(key@, value@),
    {
        if self.is_null() {
            *self = Json::object();
        }
        match self {
            Json::Object(fields) => {
                put_entry(fields, key, value);
            },
            _ => {},
        }
    }

    /// The object with the member named `key` set to `value`.
    pub fn with(self, key: &str, value: Json) -> (r: Json)
        ensures
            r@ == self@.with(key@, value@),
    {
        let mut out = self;
        out.set(key, value);
        out
    }

    /// Takes the member named `key` out of an object.
    pub fn remove(&mut self, key: &str) -> (r: Option<Json>)
        ensures
            final(self)@ == old(self)@.without(key@),
            match r {
                Some(value) => old(self)@.get(key@) == Some(value@),
                None => old(self)@.get(key@) is None,
            },
    {
        match self {
            Json::Object(fields) => cut_entry(fields, key),
            _ => None,
        }
    }
}

} // verus!

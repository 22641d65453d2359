//! What stands under a name once a member was set.

use vstd::prelude::*;
use crate::table::{put_keeps_others, put_then_find};
use crate::tree::Tree;

verus! {

/// A member that was set is what is found under its name.
pub broadcast proof fn set_then_at(object: Tree, key: Seq<char>, value: Tree)
    requires
        object is Object || object is Null,
    ensures
        (#[trigger] object.with(key, value)).at(key) == value,
        object.with(key, value) is Object,
{
    match object {
        Tree::Object(fields) => {
            put_then_find(fields, key, value);
        },
        _ => {
            put_then_find(Seq::<(Seq<char>, Tree)>::empty(), key, value);
        },
    }
}

/// Setting a member leaves every other as it was.
pub broadcast proof fn set_keeps_others(object: Tree, key: Seq<char>, value: Tree, other: Seq<char>)
    requires
        other != key,
    ensures
        #[trigger] object.with(key, value).at(other) == object.at(other),
        object.with(key, value).get(other) == object.get(other),
{
    match object {
        Tree::Object(fields) => {
            put_keeps_others(fields, key, value, other);
        },
        Tree::Null => {
            put_keeps_others(Seq::<(Seq<char>, Tree)>::empty(), key, value, other);
        },
        _ => {},
    }
}

/// A member that was set in an object is there.
pub proof fn set_then_get(object: Tree, key: Seq<char>, value: Tree)
    requires
        object is Object,
    ensures
        object.with(key, value) is Object,
        object.with(key, value).get(key) == Some(value),
        object.with(key, value).at(key) == value,
{
    put_then_find(object->Object_0, key, value);
}

pub broadcast group member_laws {
    set_then_at,
    set_keeps_others,
}

} // verus!

//! Sets of names, kept in order.

use vstd::prelude::*;
use crate::text::{less, precedes, same, texts};

verus! {

/// The first place at or after `from` whose name does not precede `name`.
pub open spec fn name_place(names: Seq<Seq<char>>, name: Seq<char>, from: int) -> int
    decreases names.len() - from,
{
    if 0 <= from < names.len() && precedes(names[from], name) {
        name_place(names, name, from + 1)
    } else {
        from
    }
}

/// The names with one more, in its place unless it is there.
pub open spec fn including(names: Seq<Seq<char>>, name: Seq<char>) -> Seq<Seq<char>> {
    let at = name_place(names, name, 0);
    if at < names.len() && names[at] == name {
        names
    } else {
        names.insert(at, name)
    }
}

/// Adds a name, unless it is there.
pub(crate) fn add_name(names: &mut Vec<String>, name: &str)
    ensures
        texts(final(names)@) == including(texts(old(names)@), name@),
{
    let ghost before = texts(names@);
    let mut i: usize = 0;
    while i < names.len() && less(names[i].as_str(), name)
        invariant
            i <= names.len(),
            names@ == old(names)@,
            name_place(texts(names@), name@, 0) == name_place(texts(names@), name@, i as int),
        decreases names.len() - i,
    {
        i += 1;
    }
    if i < names.len() && same(names[i].as_str(), name) {
        return;
    }
    names.insert(i, name.to_string());
    proof {
        assert(texts(names@) =~= before.insert(i as int, name@));
    }
}

proof fn place_passes(names: Seq<Seq<char>>, name: Seq<char>, from: int)
    requires
        0 <= from <= names.len(),
    ensures
        from <= name_place(names, name, from) <= names.len(),
    decreases names.len() - from,
{
    if from < names.len() && precedes(names[from], name) {
        place_passes(names, name, from + 1);
    }
}

/// A name that was added is there, and so is every name that was there before.
pub proof fn added_names_stay(names: Seq<Seq<char>>, name: Seq<char>, other: Seq<char>)
    ensures
        including(names, name).contains(name),
        names.contains(other) ==> including(names, name).contains(other),
{
    let at = name_place(names, name, 0);
    let after = including(names, name);
    place_passes(names, name, 0);
    if at < names.len() && names[at] == name {
    } else {
        assert(after[at] == name);
        if names.contains(other) {
            let i = choose|i: int| 0 <= i < names.len() && names[i] == other;
            assert(after[if i < at { i } else { i + 1 }] == other);
        }
    }
}

} // verus!

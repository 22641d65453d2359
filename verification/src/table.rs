//! Tables: entries by name, kept in the order of their names.

use vstd::prelude::*;
use crate::ordering::{precedes_irreflexive, precedes_is_total, precedes_transitive};
use crate::text::{less, precedes, same};

verus! {

/// The views of a sequence of entries.
pub open spec fn entries<V: DeepView>(fields: Seq<(String, V)>) -> Seq<(Seq<char>, V::V)> {
    Seq::new(fields.len(), |i: int| (fields[i].0@, fields[i].1.deep_view()))
}

/// The value of the first entry named `key` at or after `from`.
pub open spec fn find_from<V>(fields: Seq<(Seq<char>, V)>, key: Seq<char>, from: int) -> Option<V>
    decreases fields.len() - from,
{
    if from < 0 || from >= fields.len() {
        None
    } else if fields[from].0 == key {
        Some(fields[from].1)
    } else {
        find_from(fields, key, from + 1)
    }
}

/// The value of the entry named `key`.
pub open spec fn find<V>(fields: Seq<(Seq<char>, V)>, key: Seq<char>) -> Option<V> {
    find_from(fields, key, 0)
}

/// The first place at or after `from` whose name does not precede `key`.
pub open spec fn place_from<V>(fields: Seq<(Seq<char>, V)>, key: Seq<char>, from: int) -> int
    decreases fields.len() - from,
{
    if 0 <= from < fields.len() && precedes(fields[from].0, key) {
        place_from(fields, key, from + 1)
    } else {
        from
    }
}

/// The entries with the one named `key` set to `value`.
pub open spec fn put<V>(fields: Seq<(Seq<char>, V)>, key: Seq<char>, value: V) -> Seq<
    (Seq<char>, V),
> {
    let at = place_from(fields, key, 0);
    if at < fields.len() && fields[at].0 == key {
        fields.update(at, (key, value))
    } else {
        fields.insert(at, (key, value))
    }
}

/// The entries without the one named `key`, from `from` on.
pub open spec fn cut_from<V>(fields: Seq<(Seq<char>, V)>, key: Seq<char>, from: int) -> Seq<
    (Seq<char>, V),
>
    decreases fields.len() - from,
{
    if from < 0 || from >= fields.len() {
        fields
    } else if fields[from].0 == key {
        fields.remove(from)
    } else {
        cut_from(fields, key, from + 1)
    }
}

/// The entries without the one named `key`.
pub open spec fn cut<V>(fields: Seq<(Seq<char>, V)>, key: Seq<char>) -> Seq<(Seq<char>, V)> {
    cut_from(fields, key, 0)
}

/// The names stand in strictly increasing order.
pub open spec fn ordered<V>(fields: Seq<(Seq<char>, V)>) -> bool {
    forall|i: int, j: int| 0 <= i < j < fields.len() ==> precedes(fields[i].0, fields[j].0)
}

/// The value of the entry named `key`.
pub(crate) fn get_entry<'a, V: DeepView>(fields: &'a Vec<(String, V)>, key: &str) -> (r: Option<&'a V>)
    ensures
        match r {
            Some(value) => find(entries(fields@), key@) == Some(value.deep_view()),
            None => find(entries(fields@), key@) is None,
        },
{
    let mut i: usize = 0;
    while i < fields.len()
        invariant
            i <= fields.len(),
            find(entries(fields@), key@) == find_from(entries(fields@), key@, i as int),
        decreases fields.len() - i,
    {
        if same(fields[i].0.as_str(), key) {
            return Some(&fields[i].1);
        }
        i += 1;
    }
    None
}

/// Sets the entry named `key`.
pub(crate) fn put_entry<V: DeepView>(fields: &mut Vec<(String, V)>, key: &str, value: V)
    ensures
        entries(final(fields)@) == put(entries(old(fields)@), key@, value.deep_view()),
{
    let ghost before = entries(fields@);
    let mut i: usize = 0;
    while i < fields.len() && less(fields[i].0.as_str(), key)
        invariant
            i <= fields.len(),
            fields@ == old(fields)@,
            place_from(entries(fields@), key@, 0) == place_from(entries(fields@), key@, i as int),
        decreases fields.len() - i,
    {
        i += 1;
    }
    if i < fields.len() && same(fields[i].0.as_str(), key) {
        fields[i].1 = value;
        proof {
            assert(entries(fields@) =~= put(before, key@, value.deep_view()));
        }
    } else {
        fields.insert(i, (key.to_string(), value));
        proof {
            assert(entries(fields@) =~= put(before, key@, value.deep_view()));
        }
    }
}

/// Takes out the entry named `key`.
pub(crate) fn cut_entry<V: DeepView>(fields: &mut Vec<(String, V)>, key: &str) -> (r: Option<V>)
    ensures
        entries(final(fields)@) == cut(entries(old(fields)@), key@),
        match r {
            Some(value) => find(entries(old(fields)@), key@) == Some(value.deep_view()),
            None => find(entries(old(fields)@), key@) is None,
        },
{
    let ghost before = entries(fields@);
    let mut i: usize = 0;
    while i < fields.len()
        invariant
            i <= fields.len(),
            fields@ == old(fields)@,
            before == entries(fields@),
            find(before, key@) == find_from(before, key@, i as int),
            cut(before, key@) == cut_from(before, key@, i as int),
        decreases fields.len() - i,
    {
        if same(fields[i].0.as_str(), key) {
            let (_, value) = fields.remove(i);
            proof {
                assert(entries(fields@) =~= before.remove(i as int));
            }
            return Some(value);
        }
        i += 1;
    }
    None
}

proof fn find_skips<V>(fields: Seq<(Seq<char>, V)>, key: Seq<char>, from: int, to: int)
    requires
        0 <= from <= to <= fields.len(),
        forall|i: int| from <= i < to ==> fields[i].0 != key,
    ensures
        find_from(fields, key, from) == find_from(fields, key, to),
    decreases to - from,
{
    if from < to {
        find_skips(fields, key, from + 1, to);
    }
}

proof fn place_passes<V>(fields: Seq<(Seq<char>, V)>, key: Seq<char>, from: int)
    requires
        0 <= from <= fields.len(),
    ensures
        from <= place_from(fields, key, from) <= fields.len(),
        forall|i: int|
            from <= i < place_from(fields, key, from) ==> precedes(#[trigger] fields[i].0, key),
        place_from(fields, key, from) < fields.len() ==> !precedes(
            fields[place_from(fields, key, from)].0,
            key,
        ),
    decreases fields.len() - from,
{
    if from < fields.len() && precedes(fields[from].0, key) {
        place_passes(fields, key, from + 1);
    }
}

/// What was put under a name is what is found under it.
pub proof fn put_then_find<V>(fields: Seq<(Seq<char>, V)>, key: Seq<char>, value: V)
    ensures
        find(put(fields, key, value), key) == Some(value),
{
    let at = place_from(fields, key, 0);
    place_passes(fields, key, 0);
    precedes_irreflexive(key);
    find_skips(put(fields, key, value), key, 0, at);
}

proof fn find_shifts<V>(fields: Seq<(Seq<char>, V)>, at: int, entry: (Seq<char>, V), key: Seq<char>, from: int)
    requires
        0 <= from <= at <= fields.len(),
        entry.0 != key,
    ensures
        find_from(fields.insert(at, entry), key, from) == find_from(fields, key, from),
    decreases fields.len() - from,
{
    if from < at {
        find_shifts(fields, at, entry, key, from + 1);
    } else {
        find_shifted(fields, at, entry, key, from);
    }
}

proof fn find_shifted<V>(fields: Seq<(Seq<char>, V)>, at: int, entry: (Seq<char>, V), key: Seq<char>, from: int)
    requires
        0 <= at <= from <= fields.len(),
    ensures
        find_from(fields.insert(at, entry), key, from + 1) == find_from(fields, key, from),
    decreases fields.len() - from,
{
    if from < fields.len() {
        find_shifted(fields, at, entry, key, from + 1);
    }
}

proof fn find_updated<V>(fields: Seq<(Seq<char>, V)>, at: int, entry: (Seq<char>, V), key: Seq<char>, from: int)
    requires
        0 <= from <= fields.len(),
        0 <= at < fields.len(),
        entry.0 != key,
        fields[at].0 == entry.0,
    ensures
        find_from(fields.update(at, entry), key, from) == find_from(fields, key, from),
    decreases fields.len() - from,
{
    if from < fields.len() {
        find_updated(fields, at, entry, key, from + 1);
    }
}

/// Putting under one name leaves every other name as it was.
pub proof fn put_keeps_others<V>(
    fields: Seq<(Seq<char>, V)>,
    key: Seq<char>,
    value: V,
    other: Seq<char>,
)
    requires
        other != key,
    ensures
        find(put(fields, key, value), other) == find(fields, other),
{
    let at = place_from(fields, key, 0);
    place_passes(fields, key, 0);
    if at < fields.len() && fields[at].0 == key {
        find_updated(fields, at, (key, value), other, 0);
    } else {
        find_shifts(fields, at, (key, value), other, 0);
    }
}

/// Putting keeps the names in order, each of them once.
pub proof fn put_keeps_order<V>(fields: Seq<(Seq<char>, V)>, key: Seq<char>, value: V)
    requires
        ordered(fields),
    ensures
        ordered(put(fields, key, value)),
{
    let at = place_from(fields, key, 0);
    let after = put(fields, key, value);
    place_passes(fields, key, 0);
    if !(at < fields.len() && fields[at].0 == key) {
        assert forall|i: int, j: int| 0 <= i < j < after.len() implies precedes(
            after[i].0,
            after[j].0,
        ) by {
            if i == at {
                precedes_is_total(fields[at].0, key);
                if j > at + 1 {
                    precedes_transitive(key, fields[at].0, fields[j - 1].0);
                }
            }
        }
    }
}

/// Setting an entry brings in no entry but the one that was set.
pub(crate) proof fn put_adds_one<V>(fields: Seq<(Seq<char>, V)>, key: Seq<char>, value: V)
    ensures
        forall|i: int|
            0 <= i < put(fields, key, value).len() ==> (#[trigger] put(fields, key, value)[i]) == (
                key,
                value,
            ) || fields.contains(put(fields, key, value)[i]),
{
    let at = place_from(fields, key, 0);
    place_passes(fields, key, 0);
    let after = put(fields, key, value);
    assert forall|i: int| 0 <= i < after.len() implies (#[trigger] after[i]) == (key, value)
        || fields.contains(after[i]) by {
        if i < at {
            assert(after[i] == fields[i]);
        } else if after.len() == fields.len() && i > at {
            assert(after[i] == fields[i]);
        } else if i > at {
            assert(after[i] == fields[i - 1]);
        }
    }
}

proof fn cut_somewhere<V>(fields: Seq<(Seq<char>, V)>, key: Seq<char>, from: int)
    requires
        0 <= from,
    ensures
        find_from(fields, key, from) is None ==> cut_from(fields, key, from) == fields,
        find_from(fields, key, from) is Some ==> exists|at: int|
            from <= at < fields.len() && #[trigger] fields[at].0 == key && cut_from(
                fields,
                key,
                from,
            ) == fields.remove(at),
    decreases fields.len() - from,
{
    if from < fields.len() {
        if fields[from].0 != key {
            cut_somewhere(fields, key, from + 1);
        }
    }
}

/// Cutting an entry leaves every other as it was.
pub proof fn cut_keeps_others<V>(fields: Seq<(Seq<char>, V)>, key: Seq<char>, other: Seq<char>)
    requires
        other != key,
    ensures
        find(cut(fields, key), other) == find(fields, other),
{
    cut_somewhere(fields, key, 0);
    if find(fields, key) is Some {
        let at = choose|at: int|
            0 <= at < fields.len() && #[trigger] fields[at].0 == key && cut(fields, key)
                == fields.remove(at);
        let after = fields.remove(at);
        assert(after.insert(at, fields[at]) =~= fields);
        find_shifts(after, at, fields[at], other, 0);
    }
}

/// Taking an entry out keeps the others in order, and nothing is left under its name.
pub proof fn cut_keeps_order<V>(fields: Seq<(Seq<char>, V)>, key: Seq<char>)
    requires
        ordered(fields),
    ensures
        ordered(cut(fields, key)),
        find(cut(fields, key), key) is None,
{
    cut_somewhere(fields, key, 0);
    if find(fields, key) is Some {
        let at = choose|at: int|
            0 <= at < fields.len() && #[trigger] fields[at].0 == key && cut(fields, key)
                == fields.remove(at);
        let after = fields.remove(at);
        assert forall|i: int| 0 <= i < after.len() implies after[i].0 != key by {
            precedes_irreflexive(key);
            if i < at {
                assert(precedes(fields[i].0, fields[at].0));
            } else {
                assert(precedes(fields[at].0, fields[i + 1].0));
            }
        }
        find_skips(after, key, 0, after.len() as int);
    }
}

} // verus!

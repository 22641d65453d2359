//! How the arguments of a call are put together from the pieces in which they arrive.

use vstd::prelude::*;
use crate::gemini::partial::{argument_value, Calls};
use crate::gemini::path::{key_end, member_slot, padded, path_steps, placed, step_at, steps_from, Step};
use crate::table::{put, put_keeps_others, put_then_find};
use crate::tree::Tree;

verus! {

/// What stands at a path from `from` on.
pub open spec fn standing_at(tree: Tree, path: Seq<Step>, from: int) -> Tree
    decreases path.len() - from,
{
    if from < 0 || from >= path.len() {
        tree
    } else {
        match path[from] {
            Step::Key(key) => standing_at(tree.at(key), path, from + 1),
            Step::Index(index) => match tree {
                Tree::Array(items) => if index < items.len() {
                    standing_at(items[index as int], path, from + 1)
                } else {
                    Tree::Null
                },
                _ => Tree::Null,
            },
        }
    }
}

/// A piece stands at its path: as it came, or behind the text that stood there before.
pub open spec fn stands(found: Tree, value: Tree) -> bool {
    found == value || (value matches Tree::Text(piece) && found matches Tree::Text(all)
        && piece.is_suffix_of(all))
}

/// A piece of the arguments that is taken stands at its path afterwards; where nothing was there,
/// it stands there alone.
pub proof fn pieces_stand_at_their_path(target: Tree, path: Seq<Step>, from: int, value: Tree, slots: nat)
    requires
        0 <= from,
        placed(target, path, from, value, slots).result is Ok,
    ensures
        stands(standing_at(placed(target, path, from, value, slots).target, path, from), value),
        target is Null ==> standing_at(
            placed(target, path, from, value, slots).target,
            path,
            from,
        ) == value,
    decreases path.len() - from,
{
    if from >= path.len() {
        if let (Tree::Text(previous), Tree::Text(fragment)) = (target, value) {
            let all = previous + fragment;
            assert(all.subrange(previous.len() as int, all.len() as int) =~= fragment);
        }
    } else {
        match path[from] {
            Step::Key(key) => {
                let fields = match target {
                    Tree::Object(fields) => fields,
                    _ => Seq::empty(),
                };
                let slot = member_slot(fields, key);
                pieces_stand_at_their_path(slot, path, from + 1, value, slots);
                let inner = placed(slot, path, from + 1, value, slots);
                put_then_find(fields, key, inner.target);
                if target is Null {
                    assert(slot is Null);
                }
            },
            Step::Index(index) => {
                let items = match target {
                    Tree::Array(items) => items,
                    _ => Seq::empty(),
                };
                let wide = padded(items, index + 1);
                let more = (slots + wide.len() - items.len()) as nat;
                assert(index < wide.len());
                pieces_stand_at_their_path(wide[index as int], path, from + 1, value, more);
                let inner = placed(wide[index as int], path, from + 1, value, more);
                assert(wide.update(index as int, inner.target)[index as int] == inner.target);
                if target is Null {
                    assert(wide[index as int] is Null);
                }
            },
        }
    }
}

/// A piece changes nothing beside its path: the other members of an object, and the other items of
/// a list, stay as they were.
pub proof fn pieces_change_nothing_else(target: Tree, path: Seq<Step>, value: Tree, slots: nat, other: Seq<char>, i: int)
    requires
        path.len() > 0,
        placed(target, path, 0, value, slots).result is Ok,
    ensures
        path[0] matches Step::Key(key) ==> other != key ==> placed(
            target,
            path,
            0,
            value,
            slots,
        ).target.at(other) == target.at(other),
        path[0] matches Step::Index(index) ==> (target matches Tree::Array(items) ==> 0 <= i
            < items.len() && i != index ==> (placed(
            target,
            path,
            0,
            value,
            slots,
        ).target matches Tree::Array(after) && i < after.len() && after[i] == items[i])),
{
    match path[0] {
        Step::Key(key) => {
            let fields = match target {
                Tree::Object(fields) => fields,
                _ => Seq::empty(),
            };
            let inner = placed(member_slot(fields, key), path, 1, value, slots);
            if other != key {
                put_keeps_others(fields, key, inner.target, other);
                if target is Null {
                    assert(crate::table::find(fields, other) is None);
                }
            }
        },
        Step::Index(index) => {},
    }
}

/// A text that is continued stands whole: the piece follows what was there.
pub proof fn texts_are_continued(previous: Seq<char>, piece: Seq<char>, path: Seq<Step>, slots: nat)
    ensures
        placed(Tree::Text(previous), path, path.len() as int, Tree::Text(piece), slots).target
            == Tree::Text(previous + piece),
        placed(
            Tree::Text(previous),
            path,
            path.len() as int,
            Tree::Text(piece),
            slots,
        ).result is Ok,
        placed(
            Tree::Bool(true),
            path,
            path.len() as int,
            Tree::Text(piece),
            slots,
        ).result is Err,
{
}

/// A piece holds a text, a number, a truth or nothing, each under its own name.
pub proof fn pieces_hold_their_value(arg: Tree)
    ensures
        arg.at("stringValue"@) is Text ==> argument_value(arg) == Ok::<Tree, Seq<char>>(
            arg.at("stringValue"@),
        ),
        arg.at("stringValue"@) is Null && arg.at("numberValue"@) is Number ==> argument_value(arg)
            == Ok::<Tree, Seq<char>>(arg.at("numberValue"@)),
        arg.at("stringValue"@) is Null && arg.at("numberValue"@) is Null && arg.at(
            "boolValue"@,
        ) is Bool ==> argument_value(arg) == Ok::<Tree, Seq<char>>(arg.at("boolValue"@)),
        arg.at("stringValue"@) is Null && arg.at("numberValue"@) is Null && arg.at(
            "boolValue"@,
        ) is Null && arg.has("nullValue"@) ==> argument_value(arg) == Ok::<Tree, Seq<char>>(
            Tree::Null,
        ),
        arg.at("stringValue"@) is Null && arg.at("numberValue"@) is Null && arg.at(
            "boolValue"@,
        ) is Null && !arg.has("nullValue"@) ==> argument_value(arg) is Err,
{
}

proof fn keys_end(s: Seq<char>, from: int)
    requires
        0 <= from <= s.len(),
        forall|i: int| from <= i < s.len() ==> s[i] != '.' && s[i] != '[',
    ensures
        key_end(s, from) == s.len(),
    decreases s.len() - from,
{
    if from < s.len() {
        keys_end(s, from + 1);
    }
}

/// The path of a member is its name behind the root.
pub proof fn members_have_paths(name: Seq<char>)
    requires
        name.len() > 0,
        !name.contains('.'),
        !name.contains('['),
    ensures
        path_steps(seq!['$', '.'] + name) == Ok::<Seq<Step>, Seq<char>>(seq![Step::Key(name)]),
{
    let path = seq!['$', '.'] + name;
    assert forall|i: int| 2 <= i < path.len() implies path[i] != '.' && path[i] != '[' by {
        assert(path[i] == name[i - 2]);
        assert(name.contains(name[i - 2]));
    }
    keys_end(path, 2);
    assert(path.subrange(2, path.len() as int) =~= name);
    assert(step_at(path, 1) == Ok::<(Step, int), Seq<char>>(
        (Step::Key(name), path.len() as int),
    ));
    let one = Seq::<Step>::empty().push(Step::Key(name));
    assert(one =~= seq![Step::Key(name)]);
    assert(steps_from(path, path.len() as int, one) == Ok::<Seq<Step>, Seq<char>>(one));
    assert(steps_from(path, 1, Seq::empty()) == steps_from(path, path.len() as int, one));
}

/// A part that is no call, and a call that came whole, pass as they are where no call is still
/// being put together.
pub proof fn whole_parts_pass(calls: Calls, part: Tree)
    requires
        calls.queue.len() == 0,
        !part.has("functionCall"@) || (part.at("functionCall"@).has("name"@) && !part.at(
            "functionCall"@,
        ).has("partialArgs"@) && part.at("functionCall"@).at("willContinue"@) != Tree::Bool(true)),
    ensures
        calls.taken(part).1 == Ok::<Seq<Tree>, Seq<char>>(seq![part]),
        calls.taken(part).0.queue.len() == 0,
        calls.taken(part).0.active == calls.active,
{
    let queue = calls.queue.push((None::<u64>, Some(part)));
    reveal_with_fuel(crate::gemini::partial::ready, 3);
    assert(queue.len() == 1);
    assert(Seq::<Tree>::empty().push(part) =~= seq![part]);
}

} // verus!

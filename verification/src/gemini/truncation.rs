//! Streams that break off: what was gathered of them can always be converted.

use vstd::prelude::*;
use crate::exchange::{settled, settled_fields};
use crate::gemini::conversation::list_of;
use crate::gemini::flow::{assembled, joined, joins, members_of, merged_but, Flow, Run};
use crate::gemini::partial::{
    argument_set, call_with, filled, next, ready, slot_of, started_call, Calls,
};
use crate::gemini::parts::empty_object;
use crate::gemini::replay::sealable;
use crate::gemini::request::Converted;
use crate::gemini::response::{
    answer_carrier, answer_items, answer_parts, call_item, candidate_of, converted_response,
    hidden, is_signature, is_thought, items_from, items_of, number, part_item,
};
use crate::gemini::stream::{
    fresh, goes_on, lacks, none_closing, parts_are_steady, run, streamed, streaming_goes_on,
    unstopped, unstopped_streams_end_failed,
};
use crate::gemini::tools::ToolView;
use crate::gemini::turns::{as_held, found_somewhere, listed_ones_are_held, settled_member};
use crate::gemini::validate::{
    call_check, candidate_check, content_check, part_check, parts_check, payload_count,
    response_check, string_field, usage_check,
};
use crate::members::{member_laws, set_keeps_others, set_then_get};
use crate::ordering::precedes_irreflexive;
use crate::table::{find, find_from, ordered, put_keeps_order, put_keeps_others, put_then_find};
use crate::tree::Tree;

verus! {

// ---- values as they are held --------------------------------------------------------------------

proof fn settling_orders(fields: Seq<(Seq<char>, Tree)>, n: nat)
    requires
        n <= fields.len(),
    ensures
        ordered(settled_fields(fields, n)),
    decreases n,
{
    if n > 0 {
        settling_orders(fields, (n - 1) as nat);
        put_keeps_order(
            settled_fields(fields, (n - 1) as nat),
            fields[n - 1].0,
            settled(fields[n - 1].1),
        );
    }
}

proof fn found_in_order(fields: Seq<(Seq<char>, Tree)>, at: int, from: int)
    requires
        ordered(fields),
        0 <= from <= at < fields.len(),
    ensures
        find_from(fields, fields[at].0, from) == Some(fields[at].1),
    decreases at - from,
{
    if from < at {
        precedes_irreflexive(fields[at].0);
        found_in_order(fields, at, from + 1);
    }
}

/// The members of an object that is as it is held stand in order, and each is held so itself.
pub proof fn held_objects_are_orderly(fields: Seq<(Seq<char>, Tree)>)
    requires
        as_held(Tree::Object(fields)),
    ensures
        ordered(fields),
        forall|i: int| 0 <= i < fields.len() ==> as_held((#[trigger] fields[i]).1),
{
    settling_orders(fields, fields.len());
    assert forall|i: int| 0 <= i < fields.len() implies as_held((#[trigger] fields[i]).1) by {
        settled_member(fields, fields.len(), i);
        found_in_order(fields, i, 0);
    }
}

proof fn members_are_held(value: Tree, key: Seq<char>)
    requires
        as_held(value),
    ensures
        as_held(value.at(key)),
        value matches Tree::Object(fields) ==> ordered(fields),
{
    if let Tree::Object(fields) = value {
        held_objects_are_orderly(fields);
        if find(fields, key) is Some {
            let at = found_somewhere(fields, key, 0);
            assert(as_held(fields[at].1));
        }
    }
}

/// Merging an object whose members stand in order sets each of them but one.
pub proof fn merging_sets(
    object: Tree,
    fields: Seq<(Seq<char>, Tree)>,
    from: int,
    but: Seq<char>,
    key: Seq<char>,
)
    requires
        0 <= from,
        object is Object,
        ordered(fields),
    ensures
        merged_but(object, fields, from, but) is Object,
        merged_but(object, fields, from, but).get(key) == (if key != but && find_from(
            fields,
            key,
            from,
        ) is Some {
            find_from(fields, key, from)
        } else {
            object.get(key)
        }),
    decreases fields.len() - from,
{
    if from < fields.len() {
        let (name, value) = fields[from];
        if name == but {
            merging_sets(object, fields, from + 1, but, key);
        } else {
            merging_sets(object.with(name, value), fields, from + 1, but, key);
            put_then_find(object->Object_0, name, value);
            if key == name {
                if find_from(fields, key, from + 1) is Some {
                    let at = found_somewhere(fields, key, from + 1);
                    precedes_irreflexive(key);
                }
            } else {
                put_keeps_others(object->Object_0, name, value, key);
            }
        }
    }
}

// ---- parts --------------------------------------------------------------------------------------

/// Whether a part passes the checks of a native response.
pub open spec fn sound(part: Tree) -> bool {
    part_check(part) is Ok
}

/// Whether a part is sound and its members stand in order.
pub open spec fn orderly(part: Tree) -> bool {
    sound(part) && (part matches Tree::Object(fields) && ordered(fields))
}

/// Whether a part is an orderly call with arguments.
pub open spec fn argued(part: Tree) -> bool {
    orderly(part) && part.has("functionCall"@) && part.at("functionCall"@).at("args"@) is Object
}

proof fn names_differ()
    ensures
        "functionCall"@ != "text"@,
        "functionCall"@ != "thought"@,
        "functionCall"@ != "thoughtSignature"@,
        "functionCall"@ != "functionResponse"@,
        "functionCall"@ != "inlineData"@,
        "functionCall"@ != "fileData"@,
        "functionCall"@ != "executableCode"@,
        "functionCall"@ != "codeExecutionResult"@,
        "thoughtSignature"@ != "text"@,
        "thoughtSignature"@ != "thought"@,
        "thoughtSignature"@ != "functionResponse"@,
        "thoughtSignature"@ != "inlineData"@,
        "thoughtSignature"@ != "fileData"@,
        "thoughtSignature"@ != "executableCode"@,
        "thoughtSignature"@ != "codeExecutionResult"@,
        "text"@ != "thought"@,
        "text"@ != "functionResponse"@,
        "text"@ != "inlineData"@,
        "text"@ != "fileData"@,
        "text"@ != "executableCode"@,
        "text"@ != "codeExecutionResult"@,
{
    reveal_strlit("functionCall");
    reveal_strlit("text");
    reveal_strlit("thought");
    reveal_strlit("thoughtSignature");
    reveal_strlit("functionResponse");
    reveal_strlit("inlineData");
    reveal_strlit("fileData");
    reveal_strlit("executableCode");
    reveal_strlit("codeExecutionResult");
    assert("functionCall"@.len() == 12);
    assert("text"@.len() == 4);
    assert("thought"@.len() == 7);
    assert("thoughtSignature"@.len() == 16);
    assert("thoughtSignature"@[0] == 't');
    assert("functionResponse"@.len() == 16);
    assert("functionResponse"@[0] == 'f');
    assert("inlineData"@.len() == 10);
    assert("fileData"@.len() == 8);
    assert("executableCode"@.len() == 14);
    assert("codeExecutionResult"@.len() == 19);
}

proof fn call_names_differ()
    ensures
        "args"@ != "name"@,
        "args"@ != "id"@,
        "args"@ != "willContinue"@,
        "args"@ != "partialArgs"@,
        "name"@ != "id"@,
        "name"@ != "willContinue"@,
        "name"@ != "partialArgs"@,
        "id"@ != "willContinue"@,
        "id"@ != "partialArgs"@,
{
    reveal_strlit("args");
    reveal_strlit("name");
    reveal_strlit("id");
    reveal_strlit("willContinue");
    reveal_strlit("partialArgs");
    assert("args"@.len() == 4);
    assert("args"@[0] == 'a');
    assert("name"@.len() == 4);
    assert("name"@[0] == 'n');
    assert("id"@.len() == 2);
    assert("willContinue"@.len() == 12);
    assert("partialArgs"@.len() == 11);
}

proof fn signing_keeps_sound(part: Tree, signature: Tree)
    requires
        sound(part),
        signature is Text,
    ensures
        sound(part.with("thoughtSignature"@, signature)),
        orderly(part) ==> orderly(part.with("thoughtSignature"@, signature)),
{
    let signed = part.with("thoughtSignature"@, signature);
    names_differ();
    set_then_get(part, "thoughtSignature"@, signature);
    set_keeps_others(part, "thoughtSignature"@, signature, "text"@);
    set_keeps_others(part, "thoughtSignature"@, signature, "thought"@);
    set_keeps_others(part, "thoughtSignature"@, signature, "functionCall"@);
    set_keeps_others(part, "thoughtSignature"@, signature, "functionResponse"@);
    set_keeps_others(part, "thoughtSignature"@, signature, "inlineData"@);
    set_keeps_others(part, "thoughtSignature"@, signature, "fileData"@);
    set_keeps_others(part, "thoughtSignature"@, signature, "executableCode"@);
    set_keeps_others(part, "thoughtSignature"@, signature, "codeExecutionResult"@);
    assert(payload_count(signed) == payload_count(part));
    if orderly(part) {
        put_keeps_order(part->Object_0, "thoughtSignature"@, signature);
    }
}

proof fn calling_keeps_orderly(part: Tree, call: Tree)
    requires
        orderly(part),
        part.has("functionCall"@),
        call_check(call) is Ok,
    ensures
        orderly(part.with("functionCall"@, call)),
        part.with("functionCall"@, call).get("functionCall"@) == Some(call),
{
    let changed = part.with("functionCall"@, call);
    names_differ();
    set_then_get(part, "functionCall"@, call);
    set_keeps_others(part, "functionCall"@, call, "text"@);
    set_keeps_others(part, "functionCall"@, call, "thought"@);
    set_keeps_others(part, "functionCall"@, call, "thoughtSignature"@);
    set_keeps_others(part, "functionCall"@, call, "functionResponse"@);
    set_keeps_others(part, "functionCall"@, call, "inlineData"@);
    set_keeps_others(part, "functionCall"@, call, "fileData"@);
    set_keeps_others(part, "functionCall"@, call, "executableCode"@);
    set_keeps_others(part, "functionCall"@, call, "codeExecutionResult"@);
    assert(payload_count(changed) == payload_count(part));
    put_keeps_order(part->Object_0, "functionCall"@, call);
}

proof fn arguments_keep_calls(call: Tree, args: Tree)
    requires
        call_check(call) is Ok,
        args is Object,
    ensures
        call_check(call.with("args"@, args)) is Ok,
        call.with("args"@, args).at("args"@) == args,
{
    call_names_differ();
    set_then_get(call, "args"@, args);
    set_keeps_others(call, "args"@, args, "name"@);
    set_keeps_others(call, "args"@, args, "id"@);
    set_keeps_others(call, "args"@, args, "willContinue"@);
    set_keeps_others(call, "args"@, args, "partialArgs"@);
}

proof fn started_calls_are_argued(part: Tree, call: Tree, name: Tree)
    requires
        orderly(part),
        part.get("functionCall"@) == Some(call),
        call.get("name"@) == Some(name),
    ensures
        argued(started_call(part, name, call.get("id"@))),
{
    let none = Tree::Object(Seq::empty());
    let empty = Tree::Object(Seq::empty());
    let named = none.with("name"@, name);
    let plain = named.with("args"@, empty);
    call_names_differ();
    set_then_get(none, "name"@, name);
    set_keeps_others(none, "name"@, name, "id"@);
    set_keeps_others(none, "name"@, name, "willContinue"@);
    set_keeps_others(none, "name"@, name, "partialArgs"@);
    set_keeps_others(none, "name"@, name, "args"@);
    assert(call_check(named) is Ok);
    arguments_keep_calls(named, empty);
    let started = match call.get("id"@) {
        Some(id) => plain.with("id"@, id),
        None => plain,
    };
    if let Some(id) = call.get("id"@) {
        set_then_get(plain, "id"@, id);
        set_keeps_others(plain, "id"@, id, "name"@);
        set_keeps_others(plain, "id"@, id, "args"@);
        set_keeps_others(plain, "id"@, id, "willContinue"@);
        set_keeps_others(plain, "id"@, id, "partialArgs"@);
    }
    assert(call_check(started) is Ok);
    assert(started.at("args"@) == empty);
    calling_keeps_orderly(part, started);
}

proof fn filling_keeps_objects(args: Tree, list: Seq<Tree>, from: int, slots: nat, continuing: bool)
    requires
        args is Object,
    ensures
        filled(args, list, from, slots, continuing).args is Object,
    decreases list.len() - from,
{
    if 0 <= from < list.len() {
        let step = argument_set(args, list[from], slots);
        assert(step.target is Object);
        if step.result is Ok {
            filling_keeps_objects(
                step.target,
                list,
                from + 1,
                step.slots,
                continuing || list[from].at("willContinue"@) == Tree::Bool(true),
            );
        }
    }
}

// ---- calls that are streaming --------------------------------------------------------------------

/// Whether every one of some parts is orderly.
pub open spec fn all_orderly(parts: Seq<Tree>) -> bool {
    forall|i: int| 0 <= i < parts.len() ==> orderly(#[trigger] parts[i])
}

/// Whether the calls that are streaming have arguments, and the parts that wait are orderly.
pub open spec fn calls_in_order(calls: Calls) -> bool {
    &&& forall|i: int| 0 <= i < calls.active.len() ==> argued((#[trigger] calls.active[i]).1)
    &&& forall|i: int|
        0 <= i < calls.queue.len() ==> ((#[trigger] calls.queue[i]).1 matches Some(part)
            ==> orderly(part))
}

proof fn ready_parts_are_orderly(
    queue: Seq<(Option<u64>, Option<Tree>)>,
    from: int,
    parts: Seq<Tree>,
)
    requires
        0 <= from,
        forall|i: int|
            0 <= i < queue.len() ==> ((#[trigger] queue[i]).1 matches Some(part) ==> orderly(
                part,
            )),
        all_orderly(parts),
    ensures
        all_orderly(ready(queue, from, parts).1),
        forall|i: int|
            0 <= i < ready(queue, from, parts).0.len() ==> ((#[trigger] ready(
                queue,
                from,
                parts,
            ).0[i]).1 matches Some(part) ==> orderly(part)),
    decreases queue.len() - from,
{
    if from < queue.len() {
        match queue[from].1 {
            Some(part) => {
                assert(orderly(part));
                let more = parts.push(part);
                assert forall|i: int| 0 <= i < more.len() implies orderly(#[trigger] more[i]) by {
                    if i < parts.len() {
                        assert(more[i] == parts[i]);
                    }
                }
                ready_parts_are_orderly(queue, from + 1, more);
            },
            None => {
                let rest = queue.subrange(from, queue.len() as int);
                assert forall|i: int| 0 <= i < rest.len() implies ((#[trigger] rest[i]).1 matches Some(
                    part,
                ) ==> orderly(part)) by {
                    assert(rest[i] == queue[from + i]);
                }
            },
        }
    }
}

proof fn draining_keeps_order(calls: Calls)
    requires
        calls_in_order(calls),
    ensures
        calls_in_order(calls.drained().0),
        all_orderly(calls.drained().1->Ok_0),
{
    ready_parts_are_orderly(calls.queue, 0, Seq::empty());
}

proof fn queueing_keeps_order(calls: Calls, at: int, entry: (Option<u64>, Option<Tree>))
    requires
        calls_in_order(calls),
        entry.1 matches Some(part) ==> orderly(part),
        0 <= at <= calls.queue.len(),
    ensures
        at == calls.queue.len() ==> calls_in_order(
            Calls { queue: calls.queue.push(entry), ..calls },
        ),
        at < calls.queue.len() ==> calls_in_order(
            Calls { queue: calls.queue.update(at, entry), ..calls },
        ),
{
    if at == calls.queue.len() {
        let queue = calls.queue.push(entry);
        assert forall|i: int| 0 <= i < queue.len() implies ((#[trigger] queue[i]).1 matches Some(
            part,
        ) ==> orderly(part)) by {
            if i < at {
                assert(queue[i] == calls.queue[i]);
            }
        }
    } else {
        let queue = calls.queue.update(at, entry);
        assert forall|i: int| 0 <= i < queue.len() implies ((#[trigger] queue[i]).1 matches Some(
            part,
        ) ==> orderly(part)) by {
            if i != at {
                assert(queue[i] == calls.queue[i]);
            }
        }
    }
}

proof fn updating_keeps_order(calls: Calls, at: int, part: Tree)
    requires
        calls_in_order(calls),
        argued(part),
        0 <= at < calls.active.len(),
    ensures
        calls_in_order(
            Calls { active: calls.active.update(at, (calls.active[at].0, part)), ..calls },
        ),
{
    let active = calls.active.update(at, (calls.active[at].0, part));
    assert forall|i: int| 0 <= i < active.len() implies argued((#[trigger] active[i]).1) by {
        if i != at {
            assert(active[i] == calls.active[i]);
        }
    }
}

proof fn slots_are_queued(queue: Seq<(Option<u64>, Option<Tree>)>, serial: u64, from: int)
    requires
        0 <= from,
    ensures
        slot_of(queue, serial, from) matches Some(at) ==> from <= at < queue.len(),
    decreases queue.len() - from,
{
    if from < queue.len() && queue[from].0 != Some(serial) {
        slots_are_queued(queue, serial, from + 1);
    }
}

proof fn completing_keeps_order(calls: Calls, at: int)
    requires
        calls_in_order(calls),
        0 <= at < calls.active.len(),
        calls.completed(at).1 is Ok,
    ensures
        calls_in_order(calls.completed(at).0),
        all_orderly(calls.completed(at).1->Ok_0),
{
    let (serial, part) = calls.active[at];
    assert(argued(calls.active[at].1));
    let active = calls.active.remove(at);
    assert forall|i: int| 0 <= i < active.len() implies argued((#[trigger] active[i]).1) by {
        if i < at {
            assert(active[i] == calls.active[i]);
        } else {
            assert(active[i] == calls.active[i + 1]);
        }
    }
    let rest = Calls { active, ..calls };
    slots_are_queued(calls.queue, serial, 0);
    let slot = slot_of(calls.queue, serial, 0)->Some_0;
    queueing_keeps_order(rest, slot, (calls.queue[slot].0, Some(part)));
    draining_keeps_order(
        Calls { queue: rest.queue.update(slot, (calls.queue[slot].0, Some(part))), ..rest },
    );
}

proof fn named_calls_are_active(active: Seq<(u64, Tree)>, id: Tree, from: int)
    requires
        0 <= from,
    ensures
        call_with(active, id, from) matches Some(at) ==> from <= at < active.len(),
    decreases active.len() - from,
{
    if from < active.len() {
        named_calls_are_active(active, id, from + 1);
    }
}

proof fn continuing_keeps_order(calls: Calls, at: int, part: Tree, call: Tree)
    requires
        calls_in_order(calls),
        0 <= at < calls.active.len(),
        orderly(part),
        calls.continued(at, part, call).1 is Ok,
    ensures
        calls_in_order(calls.continued(at, part, call).0),
        all_orderly(calls.continued(at, part, call).1->Ok_0),
{
    let (serial, target) = calls.active[at];
    assert(argued(calls.active[at].1));
    names_differ();
    let signed = match part.get("thoughtSignature"@) {
        Some(signature) => target.with("thoughtSignature"@, signature),
        None => target,
    };
    if let Some(signature) = part.get("thoughtSignature"@) {
        signing_keeps_sound(target, signature);
        set_keeps_others(target, "thoughtSignature"@, signature, "functionCall"@);
    }
    assert(argued(signed));
    let continuing = call.at("willContinue"@) == Tree::Bool(true);
    let own = signed.at("functionCall"@);
    match call.get("partialArgs"@) {
        None => {
            updating_keeps_order(calls, at, signed);
            let state = Calls { active: calls.active.update(at, (serial, signed)), ..calls };
            if continuing {
                draining_keeps_order(state);
            } else {
                completing_keeps_order(state, at);
            }
        },
        Some(list) => {
            let list = list.items()->Some_0;
            let fill = filled(own.at("args"@), list, 0, calls.slots, continuing);
            filling_keeps_objects(own.at("args"@), list, 0, calls.slots, continuing);
            arguments_keep_calls(own, fill.args);
            calling_keeps_orderly(signed, own.with("args"@, fill.args));
            let grown = signed.with("functionCall"@, own.with("args"@, fill.args));
            updating_keeps_order(calls, at, grown);
            let state = Calls {
                active: calls.active.update(at, (serial, grown)),
                slots: fill.slots,
                ..calls
            };
            assert(calls_in_order(state));
            if fill.result->Ok_0 {
                draining_keeps_order(state);
            } else {
                completing_keeps_order(state, at);
            }
        },
    }
}

proof fn taking_keeps_order(calls: Calls, part: Tree)
    requires
        calls_in_order(calls),
        orderly(part),
        calls.taken(part).1 is Ok,
    ensures
        calls_in_order(calls.taken(part).0),
        all_orderly(calls.taken(part).1->Ok_0),
{
    queueing_keeps_order(calls, calls.queue.len() as int, (None, Some(part)));
    draining_keeps_order(Calls { queue: calls.queue.push((None, Some(part))), ..calls });
    if let Some(call) = part.get("functionCall"@) {
        let more = call.at("willContinue"@) == Tree::Bool(true);
        let partial = call.has("partialArgs"@) || more;
        let terminal = !call.has("name"@) && !call.has("args"@) && !call.has("partialArgs"@)
            && !more;
        if partial || terminal {
            let traced = Calls { trace: calls.trace.push(part), ..calls };
            assert(calls_in_order(traced));
            let open = traced.begun(part, call)->Ok_0;
            if let Some(name) = call.get("name"@) {
                let serial = next(traced.serial);
                let started = started_call(part, name, call.get("id"@));
                started_calls_are_argued(part, call, name);
                let active = traced.active.push((serial, started));
                assert forall|i: int| 0 <= i < active.len() implies argued(
                    (#[trigger] active[i]).1,
                ) by {
                    if i < traced.active.len() {
                        assert(active[i] == traced.active[i]);
                    }
                }
                let joined = Calls { active, ..traced };
                queueing_keeps_order(joined, joined.queue.len() as int, (Some(serial), None));
                assert(open == Calls {
                    queue: joined.queue.push((Some(serial), None)),
                    serial,
                    ..joined
                });
                assert(calls_in_order(open));
            }
            if let Some(id) = call.get("id"@) {
                named_calls_are_active(open.active, id, 0);
            }
            let at = open.addressed(call)->Ok_0;
            continuing_keeps_order(open, at, part, call);
        }
    }
}

proof fn assembling_keeps_order(calls: Calls, parts: Seq<Tree>, from: int, out: Seq<Tree>)
    requires
        calls_in_order(calls),
        all_orderly(parts),
        all_orderly(out),
        assembled(calls, parts, from, out).1 is Ok,
    ensures
        calls_in_order(assembled(calls, parts, from, out).0),
        all_orderly(assembled(calls, parts, from, out).1->Ok_0),
    decreases parts.len() - from,
{
    if 0 <= from < parts.len() {
        assert(orderly(parts[from]));
        let (after, ready) = calls.taken(parts[from]);
        taking_keeps_order(calls, parts[from]);
        let more = ready->Ok_0;
        let all = out + more;
        assert forall|i: int| 0 <= i < all.len() implies orderly(#[trigger] all[i]) by {
            if i < out.len() {
                assert(all[i] == out[i]);
            } else {
                assert(all[i] == more[i - out.len()]);
            }
        }
        assembling_keeps_order(after, parts, from + 1, all);
    }
}

// ---- visible output -----------------------------------------------------------------------------

/// Whether a part gives an item, or none: nothing speaks against its call, if it is one.
pub open spec fn shows(part: Tree, tools: Seq<(Seq<char>, ToolView)>, id: Seq<char>) -> bool {
    hidden(part) || (part.get("functionCall"@) matches Some(call) ==> call_item(
        call,
        tools,
        id,
        0,
    ) is Ok)
}

proof fn shown_parts_give_items(
    parts: Seq<Tree>,
    from: int,
    tools: Seq<(Seq<char>, ToolView)>,
    id: Seq<char>,
    items: Seq<Tree>,
)
    requires
        0 <= from,
        forall|i: int| 0 <= i < parts.len() ==> shows(#[trigger] parts[i], tools, id),
    ensures
        items_from(parts, from, tools, id, items) is Ok,
    decreases parts.len() - from,
{
    if from < parts.len() {
        assert(shows(parts[from], tools, id));
        if hidden(parts[from]) {
            shown_parts_give_items(parts, from + 1, tools, id, items);
        } else {
            let item = part_item(parts[from], tools, id, items.len() + 1);
            assert(item is Ok);
            shown_parts_give_items(parts, from + 1, tools, id, items.push(item->Ok_0));
        }
    }
}

proof fn given_items_show(
    parts: Seq<Tree>,
    from: int,
    tools: Seq<(Seq<char>, ToolView)>,
    id: Seq<char>,
    items: Seq<Tree>,
    at: int,
)
    requires
        0 <= from <= at < parts.len(),
        items_from(parts, from, tools, id, items) is Ok,
    ensures
        shows(parts[at], tools, id),
    decreases parts.len() - from,
{
    if hidden(parts[from]) {
        if from < at {
            given_items_show(parts, from + 1, tools, id, items, at);
        }
    } else {
        let item = part_item(parts[from], tools, id, items.len() + 1)->Ok_0;
        if from < at {
            given_items_show(parts, from + 1, tools, id, items.push(item), at);
        }
    }
}

/// Whether the parts that a stream has taken in are sound, and each gives its item.
pub open spec fn parts_in_order(flow: Flow) -> bool {
    forall|i: int|
        0 <= i < flow.parts.len() ==> sound(#[trigger] flow.parts[i]) && shows(
            flow.parts[i],
            flow.request.tools,
            flow.id,
        )
}

proof fn joining_keeps_sound(last: Tree, part: Tree, text: Seq<char>)
    requires
        sound(last),
        last.has("text"@),
        orderly(part),
        part.at("text"@) == Tree::Text(text),
    ensures
        sound(joined(last, part, text)),
        joined(last, part, text).get("functionCall"@) is None,
{
    names_differ();
    let fields = part->Object_0;
    let longer = match last.at("text"@) {
        Tree::Text(previous) => last.with("text"@, Tree::Text(previous + text)),
        _ => last,
    };
    let previous = last.at("text"@)->Text_0;
    let whole = Tree::Text(previous + text);
    assert(last.at("text"@) is Text);
    set_then_get(last, "text"@, whole);
    set_keeps_others(last, "text"@, whole, "thought"@);
    set_keeps_others(last, "text"@, whole, "thoughtSignature"@);
    set_keeps_others(last, "text"@, whole, "functionCall"@);
    set_keeps_others(last, "text"@, whole, "functionResponse"@);
    set_keeps_others(last, "text"@, whole, "inlineData"@);
    set_keeps_others(last, "text"@, whole, "fileData"@);
    set_keeps_others(last, "text"@, whole, "executableCode"@);
    set_keeps_others(last, "text"@, whole, "codeExecutionResult"@);
    merging_sets(longer, fields, 0, "text"@, "text"@);
    merging_sets(longer, fields, 0, "text"@, "thought"@);
    merging_sets(longer, fields, 0, "text"@, "thoughtSignature"@);
    merging_sets(longer, fields, 0, "text"@, "functionCall"@);
    merging_sets(longer, fields, 0, "text"@, "functionResponse"@);
    merging_sets(longer, fields, 0, "text"@, "inlineData"@);
    merging_sets(longer, fields, 0, "text"@, "fileData"@);
    merging_sets(longer, fields, 0, "text"@, "executableCode"@);
    merging_sets(longer, fields, 0, "text"@, "codeExecutionResult"@);
    assert(part.has("text"@));
    assert(payload_count(joined(last, part, text)) == 1);
}

proof fn storing_keeps_order(turn: Run, part: Tree)
    requires
        parts_in_order(turn.flow),
        orderly(part),
        turn.stored(part, joins(turn.flow.parts, part)).fault is None,
        turn.fault is None,
    ensures
        ({
            let merge = joins(turn.flow.parts, part);
            let after = turn.stored(part, merge).flow;
            &&& after.calls == turn.flow.calls
            &&& after.request == turn.flow.request
            &&& after.id == turn.flow.id
            &&& is_signature(part) || merge ==> parts_in_order(after)
            &&& !is_signature(part) && !merge ==> after.parts == turn.flow.parts.push(part)
        }),
{
    let parts = turn.flow.parts;
    let merge = joins(parts, part);
    let after = turn.stored(part, merge).flow;
    names_differ();
    if is_signature(part) {
        let last = parts.last();
        let signature = part.at("thoughtSignature"@);
        assert(sound(parts[parts.len() - 1]));
        signing_keeps_sound(last, signature);
        set_keeps_others(last, "thoughtSignature"@, signature, "text"@);
        set_keeps_others(last, "thoughtSignature"@, signature, "thought"@);
        set_keeps_others(last, "thoughtSignature"@, signature, "functionCall"@);
        assert forall|i: int| 0 <= i < after.parts.len() implies sound(
            #[trigger] after.parts[i],
        ) && shows(after.parts[i], after.request.tools, after.id) by {
            assert(sound(parts[i]) && shows(parts[i], after.request.tools, after.id));
        }
    } else if merge {
        let last = parts.last();
        let text = part.at("text"@)->Text_0;
        assert(sound(parts[parts.len() - 1]));
        joining_keeps_sound(last, part, text);
        assert forall|i: int| 0 <= i < after.parts.len() implies sound(
            #[trigger] after.parts[i],
        ) && shows(after.parts[i], after.request.tools, after.id) by {
            assert(sound(parts[i]) && shows(parts[i], after.request.tools, after.id));
        }
    }
}

/// Whether two states differ in neither their parts nor their calls.
pub open spec fn same_parts(a: Flow, b: Flow) -> bool {
    a.parts == b.parts && a.calls == b.calls && a.request == b.request && a.id == b.id && a.content
        == b.content
}

proof fn announcing_keeps_parts(turn: Run, part: Tree, merge: bool)
    ensures
        same_parts(turn.announced(part, merge).flow, turn.flow),
        turn.announced(part, merge).fault is None && turn.fault is None && !is_thought(part)
            && !is_signature(part) && !(part.at("text"@) is Text) ==> turn.flow.items() is Ok,
{
    assert(same_parts(turn.opened().flow, turn.flow));
    assert(same_parts(turn.whole().flow, turn.flow));
    if let Tree::Text(text) = part.at("text"@) {
        assert(same_parts(turn.thought(text).flow, turn.flow));
        assert(same_parts(turn.opened().text(text).flow, turn.flow));
    }
}

proof fn parts_keep_order(turn: Run, part: Tree)
    requires
        parts_in_order(turn.flow),
        orderly(part),
        turn.fault is None,
        turn.part(part).fault is None,
    ensures
        parts_in_order(turn.part(part).flow),
        turn.part(part).flow.calls == turn.flow.calls,
        turn.part(part).flow.content == turn.flow.content,
        turn.part(part).flow.request == turn.flow.request,
        turn.part(part).flow.id == turn.flow.id,
{
    let merge = joins(turn.flow.parts, part);
    let ready = if !is_thought(part) && !merge && !is_signature(part) {
        turn.closed()
    } else {
        turn
    };
    assert(same_parts(turn.closed().flow, turn.flow));
    assert(same_parts(ready.flow, turn.flow));
    assert(parts_in_order(ready.flow));
    storing_keeps_order(ready, part);
    let stored = ready.stored(part, merge);
    announcing_keeps_parts(stored, part, merge);
    let after = stored.flow;
    if !is_signature(part) && !merge {
        let parts = ready.flow.parts;
        let tools = after.request.tools;
        assert(shows(part, tools, after.id)) by {
            if part.has("functionCall"@) && !is_thought(part) {
                names_differ();
                assert(!(part.at("text"@) is Text));
                given_items_show(
                    after.parts,
                    0,
                    tools,
                    after.id,
                    Seq::empty(),
                    parts.len() as int,
                );
            }
        }
        assert forall|i: int| 0 <= i < after.parts.len() implies sound(
            #[trigger] after.parts[i],
        ) && shows(after.parts[i], tools, after.id) by {
            if i < parts.len() {
                assert(sound(parts[i]) && shows(parts[i], tools, after.id));
            }
        }
    }
}

proof fn all_parts_keep_order(turn: Run, parts: Seq<Tree>, from: int)
    requires
        parts_in_order(turn.flow),
        all_orderly(parts),
        turn.fault is None,
        turn.parts(parts, from).fault is None,
    ensures
        parts_in_order(turn.parts(parts, from).flow),
        turn.parts(parts, from).flow.calls == turn.flow.calls,
        turn.parts(parts, from).flow.content == turn.flow.content,
        turn.parts(parts, from).flow.request == turn.flow.request,
        turn.parts(parts, from).flow.id == turn.flow.id,
    decreases parts.len() - from,
{
    if 0 <= from < parts.len() {
        assert(orderly(parts[from]));
        parts_keep_order(turn, parts[from]);
        all_parts_keep_order(turn.part(parts[from]), parts, from + 1);
    }
}

// ---- the native response ------------------------------------------------------------------------

/// Whether the feedback on the prompt passes the checks of a native response.
pub open spec fn feedback_sound(value: Tree) -> bool {
    value.get("promptFeedback"@) matches Some(feedback) ==> feedback is Object && string_field(
        feedback,
        "blockReason"@,
    ) is Ok
}

/// Whether what a stream has taken in can be converted, whenever it ends, and tells neither of
/// an error nor of why the model stopped.
pub open spec fn in_order(flow: Flow) -> bool {
    &&& !flow.spent
    &&& flow.rest is Object
    &&& usage_check(flow.rest) is Ok
    &&& feedback_sound(flow.rest)
    &&& flow.rest.get("error"@) is None
    &&& flow.candidate is Object
    &&& flow.candidate.get("index"@) matches Some(index) ==> index.natural() == Some(0u64)
    &&& flow.candidate.get("finishReason"@) is None
    &&& flow.content is Object
    &&& flow.content.at("role"@) == Tree::Text("model"@)
    &&& parts_in_order(flow)
    &&& calls_in_order(flow.calls)
}

proof fn response_names_differ()
    ensures
        "usageMetadata"@ != "candidates"@,
        "promptFeedback"@ != "candidates"@,
        "error"@ != "candidates"@,
        "usageMetadata"@ != "streamFunctionCallParts"@,
        "promptFeedback"@ != "streamFunctionCallParts"@,
        "error"@ != "streamFunctionCallParts"@,
        "index"@ != "content"@,
        "finishReason"@ != "content"@,
        "finishReason"@ != "index"@,
        "role"@ != "parts"@,
{
    reveal_strlit("usageMetadata");
    reveal_strlit("promptFeedback");
    reveal_strlit("error");
    reveal_strlit("candidates");
    reveal_strlit("streamFunctionCallParts");
    reveal_strlit("index");
    reveal_strlit("content");
    reveal_strlit("finishReason");
    reveal_strlit("role");
    reveal_strlit("parts");
    assert("usageMetadata"@.len() == 13);
    assert("promptFeedback"@.len() == 14);
    assert("error"@.len() == 5);
    assert("candidates"@.len() == 10);
    assert("streamFunctionCallParts"@.len() == 23);
    assert("index"@.len() == 5);
    assert("content"@.len() == 7);
    assert("finishReason"@.len() == 12);
    assert("role"@.len() == 4);
    assert("parts"@.len() == 5);
}

proof fn lacked_names_are_not_found(fields: Seq<(Seq<char>, Tree)>, key: Seq<char>, from: int)
    requires
        0 <= from,
        lacks(fields, key),
    ensures
        find_from(fields, key, from) is None,
    decreases fields.len() - from,
{
    if from < fields.len() {
        assert(fields[from].0 != key);
        lacked_names_are_not_found(fields, key, from + 1);
    }
}

proof fn checked_parts_are_sound(parts: Seq<Tree>, from: int, at: int)
    requires
        0 <= from <= at < parts.len(),
        parts_check(parts, from) is Ok,
    ensures
        sound(parts[at]),
    decreases parts.len() - from,
{
    if from < at {
        checked_parts_are_sound(parts, from + 1, at);
    }
}

proof fn sound_parts_pass(parts: Seq<Tree>, from: int)
    requires
        0 <= from,
        forall|i: int| 0 <= i < parts.len() ==> sound(#[trigger] parts[i]),
    ensures
        parts_check(parts, from) is Ok,
    decreases parts.len() - from,
{
    if from < parts.len() {
        assert(sound(parts[from]));
        sound_parts_pass(parts, from + 1);
    }
}

proof fn candidates_keep_order(turn: Run, candidate: Tree)
    requires
        in_order(turn.flow),
        turn.fault is None,
        as_held(candidate),
        candidate_check(candidate) is Ok,
        lacks(members_of(candidate), "finishReason"@),
        turn.candidate(candidate).fault is None,
    ensures
        in_order(turn.candidate(candidate).flow),
{
    let content = candidate.at("content"@);
    let fields = members_of(candidate);
    let held = match content.at("parts"@).items() {
        None => turn,
        Some(parts) => {
            let (calls, ready) = assembled(turn.flow.calls, parts, 0, Seq::empty());
            let run = Run { flow: Flow { calls, ..turn.flow }, ..turn };
            match ready {
                Err(message) => run.failed(message),
                Ok(ready) => run.parts(ready, 0),
            }
        },
    };
    members_are_held(candidate, "content"@);
    members_are_held(content, "parts"@);
    if let Some(parts) = content.at("parts"@).items() {
        let (calls, ready) = assembled(turn.flow.calls, parts, 0, Seq::empty());
        assert forall|i: int| 0 <= i < parts.len() implies orderly(#[trigger] parts[i]) by {
            checked_parts_are_sound(parts, 0, i);
            listed_ones_are_held(parts, i);
            members_are_held(parts[i], "text"@);
        }
        assembling_keeps_order(turn.flow.calls, parts, 0, Seq::empty());
        let run = Run { flow: Flow { calls, ..turn.flow }, ..turn };
        assert(parts_in_order(run.flow));
        all_parts_keep_order(run, ready->Ok_0, 0);
        parts_are_steady(run, ready->Ok_0, 0);
    }
    response_names_differ();
    merging_sets(held.flow.candidate, fields, 0, "content"@, "index"@);
    merging_sets(held.flow.candidate, fields, 0, "content"@, "finishReason"@);
    lacked_names_are_not_found(fields, "finishReason"@, 0);
    merging_sets(held.flow.content, members_of(content), 0, "parts"@, "role"@);
    let after = turn.candidate(candidate).flow;
    assert(parts_in_order(after)) by {
        assert forall|i: int| 0 <= i < after.parts.len() implies sound(
            #[trigger] after.parts[i],
        ) && shows(after.parts[i], after.request.tools, after.id) by {
            assert(sound(held.flow.parts[i]));
        }
    }
}

proof fn chunks_keep_order(flow: Flow, chunk: Tree)
    requires
        in_order(flow),
        !flow.ended,
        goes_on(chunk),
        as_held(chunk),
        flow.fed(chunk).1 is Ok,
    ensures
        in_order(flow.fed(chunk).0),
{
    reveal(Flow::taken);
    let begun = run(flow, Seq::empty()).begun();
    assert(in_order(begun.flow)) by {
        assert(begun.flow.parts == flow.parts);
        assert(begun.flow.calls == flow.calls);
    }
    let candidates = list_of(chunk.at("candidates"@));
    members_are_held(chunk, "candidates"@);
    if candidates.len() > 0 {
        listed_ones_are_held(candidates, 0);
        assert(candidate_of(chunk) == candidates[0]);
        candidates_keep_order(begun, candidates[0]);
    }
    let held = if candidates.len() > 0 {
        begun.candidate(candidates[0])
    } else {
        begun
    };
    response_names_differ();
    let fields = members_of(chunk);
    merging_sets(held.flow.rest, fields, 0, "candidates"@, "usageMetadata"@);
    merging_sets(held.flow.rest, fields, 0, "candidates"@, "promptFeedback"@);
    merging_sets(held.flow.rest, fields, 0, "candidates"@, "error"@);
    let after = flow.fed(chunk).0;
    assert(after.parts == held.flow.parts);
    assert(after.calls == held.flow.calls);
    assert(parts_in_order(after)) by {
        assert forall|i: int| 0 <= i < after.parts.len() implies sound(
            #[trigger] after.parts[i],
        ) && shows(after.parts[i], after.request.tools, after.id) by {
            assert(sound(held.flow.parts[i]));
        }
    }
}

proof fn streams_keep_order(flow: Flow, chunks: Seq<Tree>, count: int)
    requires
        in_order(flow),
        unstopped(flow),
        0 <= count <= chunks.len(),
        forall|i: int|
            0 <= i < count ==> goes_on(#[trigger] chunks[i]) && as_held(chunks[i]),
        streamed(flow, chunks, count) is Some,
    ensures
        in_order(streamed(flow, chunks, count)->Some_0.0),
    decreases count,
{
    if count > 0 {
        streams_keep_order(flow, chunks, count - 1);
        streaming_goes_on(flow, chunks, count - 1);
        let before = streamed(flow, chunks, count - 1)->Some_0.0;
        assert(goes_on(chunks[count - 1]));
        chunks_keep_order(before, chunks[count - 1]);
    }
}

proof fn gathered_responses_pass(flow: Flow)
    requires
        in_order(flow),
    ensures
        ({
            let native = flow.gathered().native();
            &&& response_check(native) is Ok
            &&& !native.has("error"@)
            &&& answer_parts(native) == flow.parts
            &&& items_of(answer_parts(native), flow.request.tools, flow.id) is Ok
        }),
{
    let full = flow.gathered();
    let native = full.native();
    let trace = Tree::Array(flow.calls.trace);
    let content = full.content.with("parts"@, Tree::Array(full.parts));
    let candidate = full.candidate.with("content"@, content);
    let list = Tree::Array(seq![candidate]);
    response_names_differ();
    set_keeps_others(flow.rest, "streamFunctionCallParts"@, trace, "usageMetadata"@);
    set_keeps_others(flow.rest, "streamFunctionCallParts"@, trace, "promptFeedback"@);
    set_keeps_others(flow.rest, "streamFunctionCallParts"@, trace, "error"@);
    set_keeps_others(full.rest, "candidates"@, list, "usageMetadata"@);
    set_keeps_others(full.rest, "candidates"@, list, "promptFeedback"@);
    set_keeps_others(full.rest, "candidates"@, list, "error"@);
    set_then_get(full.rest, "candidates"@, list);
    set_then_get(full.candidate, "content"@, content);
    set_keeps_others(full.candidate, "content"@, content, "index"@);
    set_keeps_others(full.candidate, "content"@, content, "finishReason"@);
    set_then_get(full.content, "parts"@, Tree::Array(full.parts));
    set_keeps_others(full.content, "parts"@, Tree::Array(full.parts), "role"@);
    assert(native.at("candidates"@) == list);
    assert(candidate_of(native) == candidate);
    assert forall|i: int| 0 <= i < flow.parts.len() implies shows(
        #[trigger] flow.parts[i],
        flow.request.tools,
        flow.id,
    ) by {
        assert(sound(flow.parts[i]));
    }
    sound_parts_pass(flow.parts, 0);
    assert(content_check(content, false) is Ok);
    assert(candidate_check(candidate) is Ok);
    shown_parts_give_items(flow.parts, 0, flow.request.tools, flow.id, Seq::empty());
}

/// Whether a stream broke off before the model said why it stopped: no call is still
/// streaming, and what was gathered can be sealed.
pub open spec fn broke_off(flow: Flow) -> bool {
    in_order(flow) && unstopped(flow) && lacks(flow.request.response_fields, "status"@)
        && flow.sealing()
}

/// Whether a stream ends with one event, a failure.
pub open spec fn ends_failed(last: Result<Seq<Tree>, Seq<char>>) -> bool {
    last matches Ok(events) && events.len() == 1 && events[0].at("type"@) == Tree::Text(
        "response.failed"@,
    )
}

proof fn orderly_streams_end_failed(flow: Flow, key: Seq<u8>, created_at: u64, nonce: Seq<u8>)
    requires
        in_order(flow),
        unstopped(flow),
        lacks(flow.request.response_fields, "status"@),
    ensures
        ({
            let (after, last) = flow.finished(key, created_at, nonce);
            &&& after.ended
            &&& last is Ok == (flow.calls.active.len() == 0 && answer_carrier(
                flow.gathered().native(),
                flow.request,
                key,
                flow.id,
                nonce,
            ) is Ok)
            &&& last is Ok ==> ends_failed(last)
            &&& flow.sealing() == (flow.calls.active.len() == 0 && sealable(
                flow.request.model,
                Tree::Array(flow.parts),
                Tree::Array(answer_items(flow.gathered().native(), flow.request, flow.id)),
            ))
        }),
{
    gathered_responses_pass(flow);
    if flow.calls.active.len() == 0 {
        unstopped_streams_end_failed(flow, key, created_at, nonce);
        assert(converted_response(
            flow.gathered().native(),
            flow.request,
            key,
            flow.id,
            created_at,
            nonce,
        ) is Ok == answer_carrier(
            flow.gathered().native(),
            flow.request,
            key,
            flow.id,
            nonce,
        ) is Ok);
    }
}

pub(crate) proof fn broken_off_streams_end_failed(
    flow: Flow,
    key: Seq<u8>,
    created_at: u64,
    nonce: Seq<u8>,
)
    requires
        broke_off(flow),
    ensures
        answer_carrier(flow.gathered().native(), flow.request, key, flow.id, nonce) is Ok
            ==> ends_failed(flow.finished(key, created_at, nonce).1),
{
    orderly_streams_end_failed(flow, key, created_at, nonce);
}

/// A stream that breaks off before the model says why it stopped never declares an item, a
/// call or the response finished, even where a whole call had arrived. Where no call is still
/// streaming, it ends with one event, a failure, unless what was gathered is too long for the
/// cipher. Whatever it ends with, every later chunk and every later end is refused.
pub proof fn truncated_streams_fail(
    request: Converted,
    id: Seq<char>,
    chunks: Seq<Tree>,
    flow: Flow,
    events: Seq<Tree>,
    key: Seq<u8>,
    created_at: u64,
    nonce: Seq<u8>,
)
    requires
        streamed(fresh(request, id), chunks, chunks.len() as int) == Some((flow, events)),
        forall|i: int|
            0 <= i < chunks.len() ==> goes_on(#[trigger] chunks[i]) && as_held(chunks[i]),
        lacks(request.response_fields, "status"@),
    ensures
        none_closing(events),
        broke_off(flow) == (flow.calls.active.len() == 0 && sealable(
            request.model,
            Tree::Array(flow.parts),
            Tree::Array(answer_items(flow.gathered().native(), request, id)),
        )),
        ({
            let (after, last) = flow.finished(key, created_at, nonce);
            &&& after.ended
            &&& last is Ok == (flow.calls.active.len() == 0 && answer_carrier(
                flow.gathered().native(),
                request,
                key,
                id,
                nonce,
            ) is Ok)
            &&& last is Ok ==> ends_failed(last)
            &&& forall|chunk: Tree| (#[trigger] after.fed(chunk)).1 is Err
            &&& forall|key: Seq<u8>, created_at: u64, nonce: Seq<u8>|
                (#[trigger] after.finished(key, created_at, nonce)).1 is Err
        }),
{
    broadcast use member_laws;

    let start = fresh(request, id);
    response_names_differ();
    set_then_get(empty_object(), "index"@, number(0));
    set_keeps_others(empty_object(), "index"@, number(0), "finishReason"@);
    assert(in_order(start));
    assert(unstopped(start));
    streaming_goes_on(start, chunks, chunks.len() as int);
    streams_keep_order(start, chunks, chunks.len() as int);
    assert(flow.request == request && flow.id == id);
    orderly_streams_end_failed(flow, key, created_at, nonce);
    let (after, last) = flow.finished(key, created_at, nonce);
    assert(after.ended);
}

} // verus!

//! A model's turn on its way to the client and back.

use vstd::prelude::*;
use vstd::utf8::encode_utf8;
use crate::exchange::{parsed, readable, settled, settled_fields, written};
use crate::gemini::conversation::{
    field_check, field_matches, item_check, neutral, neutral_member, neutral_part, same_value, turn,
    Talk,
};
use crate::gemini::items::{
    calls_behind, calls_in, kept_turns_are_replayed, kind_of, replayed_turns_are_authentic,
    talk_from,
};
use crate::gemini::parts::{empty_object, string_of};
use crate::gemini::provider::Thinking;
use crate::gemini::replay::opened;
use crate::gemini::request::{
    configured, conversation, converted, declared, member_added, members_added, plain_body,
    Converted,
};
use crate::gemini::response::{
    answer_carrier, answer_items, answer_parts, answer_turn, call_args, call_id_of, call_item,
    converted_response, hidden, item_name, items_from, items_of, judged, message_item, opens_again,
    part_item, reasoning_item, settled_items, shown_content, summary_from, unmerged_response,
};
use crate::gemini::stream::{lacks, merged_lacks};
use crate::gemini::tools::ToolView;
use crate::members::{member_laws, set_keeps_others};
use crate::ordering::precedes_irreflexive;
use crate::table::{
    cut_keeps_others, find, find_from, ordered, place_from, put, put_adds_one, put_keeps_order,
    put_keeps_others, put_then_find,
};
use crate::text::precedes;
use crate::tree::Tree;

verus! {

// ---- equality -------------------------------------------------------------------------------

/// Every value equals itself.
pub proof fn values_equal_themselves(value: Tree)
    ensures
        value.equals(value),
    decreases value,
{
    match value {
        Tree::Array(items) => {
            assert forall|i: int| 0 <= i < items.len() implies (#[trigger] items[i]).equals(
                items[i],
            ) by {
                assert(decreases_to!(value => value->Array_0));
                assert(decreases_to!(items => items[i]));
                values_equal_themselves(items[i]);
            }
        },
        Tree::Object(fields) => {
            assert forall|i: int| 0 <= i < fields.len() implies (#[trigger] fields[i]).1.equals(
                fields[i].1,
            ) by {
                assert(decreases_to!(value => value->Object_0));
                assert(decreases_to!(fields => fields[i]));
                assert(decreases_to!(fields[i] => fields[i].1));
                values_equal_themselves(fields[i].1);
            }
        },
        _ => {},
    }
}

proof fn same_as_itself(value: Option<Tree>)
    ensures
        same_value(value, value),
{
    if let Some(value) = value {
        values_equal_themselves(value);
    }
}

proof fn field_passes(item: Tree, field: Seq<char>)
    ensures
        field_check(item, item, field) is Ok,
{
    same_as_itself(item.get(field));
    same_as_itself(neutral_member(item.get(field)));
}

/// An item that is sent back as it was passes the check against the sealed one.
pub proof fn unaltered_items_pass(item: Tree)
    ensures
        item_check(item, item) is Ok,
{
    field_passes(item, "type"@);
    field_passes(item, "role"@);
    field_passes(item, "content"@);
    field_passes(item, "call_id"@);
    field_passes(item, "name"@);
    field_passes(item, "namespace"@);
    field_passes(item, "arguments"@);
    field_passes(item, "input"@);
}

// ---- what is sealed -------------------------------------------------------------------------

pub(crate) proof fn settled_member(fields: Seq<(Seq<char>, Tree)>, n: nat, at: int)
    requires
        ordered(fields),
        n <= fields.len(),
        0 <= at < n,
    ensures
        find(settled_fields(fields, n), fields[at].0) == Some(settled(fields[at].1)),
    decreases n,
{
    let before = settled_fields(fields, (n - 1) as nat);
    let (key, value) = fields[n - 1];
    if at == n - 1 {
        put_then_find(before, key, settled(value));
    } else {
        settled_member(fields, (n - 1) as nat, at);
        precedes_irreflexive(key);
        put_keeps_others(before, key, settled(value), fields[at].0);
    }
}

pub(crate) proof fn found_somewhere(fields: Seq<(Seq<char>, Tree)>, key: Seq<char>, from: int) -> (at: int)
    requires
        0 <= from,
        find_from(fields, key, from) is Some,
    ensures
        from <= at < fields.len(),
        fields[at].0 == key,
        find_from(fields, key, from) == Some(fields[at].1),
    decreases fields.len() - from,
{
    if fields[from].0 == key {
        from
    } else {
        found_somewhere(fields, key, from + 1)
    }
}

proof fn settled_turn(parts: Seq<Tree>, items: Seq<Tree>)
    ensures
        ({
            let turn = Tree::Object(Seq::empty()).with("parts"@, Tree::Array(parts)).with(
                "items"@,
                Tree::Array(items),
            );
            &&& settled(turn).at("parts"@) == settled(Tree::Array(parts))
            &&& settled(turn).at("items"@) == settled(Tree::Array(items))
        }),
{
    let none = Seq::<(Seq<char>, Tree)>::empty();
    let one = put(none, "parts"@, Tree::Array(parts));
    let fields = put(one, "items"@, Tree::Array(items));
    assert("parts"@ != "items"@) by {
        reveal_strlit("parts");
        reveal_strlit("items");
        assert("parts"@[0] == 'p');
        assert("items"@[0] == 'i');
    }
    put_keeps_order(none, "parts"@, Tree::Array(parts));
    put_keeps_order(one, "items"@, Tree::Array(items));
    put_then_find(none, "parts"@, Tree::Array(parts));
    put_then_find(one, "items"@, Tree::Array(items));
    put_keeps_others(one, "items"@, Tree::Array(items), "parts"@);
    let a = found_somewhere(fields, "parts"@, 0);
    let b = found_somewhere(fields, "items"@, 0);
    settled_member(fields, fields.len(), a);
    settled_member(fields, fields.len(), b);
}

/// Whether a value is as `serde_json` holds it.
pub open spec fn as_held(value: Tree) -> bool {
    settled(value) == value
}

/// Whether a value is an object with its members in order and each of them as it is held.
pub open spec fn neat(value: Tree) -> bool {
    value matches Tree::Object(fields) && ordered(fields) && forall|i: int|
        0 <= i < fields.len() ==> as_held((#[trigger] fields[i]).1)
}

proof fn place_at_end(fields: Seq<(Seq<char>, Tree)>, key: Seq<char>, from: int)
    requires
        0 <= from <= fields.len(),
        forall|i: int| 0 <= i < fields.len() ==> precedes((#[trigger] fields[i]).0, key),
    ensures
        place_from(fields, key, from) == fields.len(),
    decreases fields.len() - from,
{
    if from < fields.len() {
        assert(precedes(fields[from].0, key));
        place_at_end(fields, key, from + 1);
    }
}

proof fn members_settle(fields: Seq<(Seq<char>, Tree)>, n: nat)
    requires
        neat(Tree::Object(fields)),
        n <= fields.len(),
    ensures
        settled_fields(fields, n) == fields.take(n as int),
    decreases n,
{
    if n > 0 {
        members_settle(fields, (n - 1) as nat);
        let front = fields.take(n - 1);
        let (key, value) = fields[n - 1];
        assert(as_held(fields[n - 1].1));
        assert forall|i: int| 0 <= i < front.len() implies precedes((#[trigger] front[i]).0, key) by {
            assert(front[i] == fields[i]);
        }
        place_at_end(front, key, 0);
        assert(front.insert(front.len() as int, (key, value)) =~= fields.take(n as int));
    } else {
        assert(fields.take(0) =~= Seq::empty());
    }
}

proof fn neat_objects_are_held(value: Tree)
    requires
        neat(value),
    ensures
        as_held(value),
{
    let fields = value->Object_0;
    members_settle(fields, fields.len());
    assert(fields.take(fields.len() as int) =~= fields);
}

proof fn setting_keeps_neat(object: Tree, key: Seq<char>, value: Tree)
    requires
        neat(object),
        as_held(value),
    ensures
        neat(object.with(key, value)),
{
    let fields = object->Object_0;
    put_keeps_order(fields, key, value);
    put_adds_one(fields, key, value);
    let after = put(fields, key, value);
    assert forall|i: int| 0 <= i < after.len() implies as_held((#[trigger] after[i]).1) by {
        if after[i] != (key, value) {
            assert(fields.contains(after[i]));
            let k = choose|k: int| 0 <= k < fields.len() && fields[k] == after[i];
            assert(as_held(fields[k].1));
        }
    }
}

proof fn lists_are_held(items: Seq<Tree>)
    requires
        forall|i: int| 0 <= i < items.len() ==> as_held(#[trigger] items[i]),
    ensures
        as_held(Tree::Array(items)),
{
    let after = settled(Tree::Array(items))->Array_0;
    assert forall|i: int| 0 <= i < items.len() implies #[trigger] after[i] == items[i] by {
        assert(as_held(items[i]));
    }
    assert(after =~= items);
}

pub(crate) proof fn listed_ones_are_held(items: Seq<Tree>, i: int)
    requires
        as_held(Tree::Array(items)),
        0 <= i < items.len(),
    ensures
        as_held(items[i]),
{
    assert(settled(Tree::Array(items))->Array_0[i] == settled(items[i]));
}

proof fn messages_are_neat(part: Tree, id: Seq<char>, index: nat)
    requires
        as_held(part),
    ensures
        neat(message_item(part, id, index)),
{
    let none = empty_object();
    let shown = shown_content(part);
    assert(neat(shown)) by {
        match part.at("text"@).text() {
            Some(text) => {
                let one = none.with("type"@, Tree::Text("output_text"@));
                let two = one.with("text"@, Tree::Text(text));
                setting_keeps_neat(none, "type"@, Tree::Text("output_text"@));
                setting_keeps_neat(one, "text"@, Tree::Text(text));
                lists_are_held(Seq::empty());
                setting_keeps_neat(two, "annotations"@, Tree::Array(Seq::empty()));
            },
            None => {
                let one = none.with("type"@, Tree::Text("gemini_part"@));
                setting_keeps_neat(none, "type"@, Tree::Text("gemini_part"@));
                setting_keeps_neat(one, "part"@, part);
            },
        }
    }
    neat_objects_are_held(shown);
    lists_are_held(seq![shown]);
    let name = Tree::Text(item_name("msg_"@, id, index));
    let one = none.with("id"@, name);
    let two = one.with("type"@, Tree::Text("message"@));
    let three = two.with("role"@, Tree::Text("assistant"@));
    let four = three.with("status"@, Tree::Text("completed"@));
    setting_keeps_neat(none, "id"@, name);
    setting_keeps_neat(one, "type"@, Tree::Text("message"@));
    setting_keeps_neat(two, "role"@, Tree::Text("assistant"@));
    setting_keeps_neat(three, "status"@, Tree::Text("completed"@));
    setting_keeps_neat(four, "content"@, Tree::Array(seq![shown]));
}

proof fn calls_are_neat(
    call: Tree,
    tools: Seq<(Seq<char>, ToolView)>,
    id: Seq<char>,
    index: nat,
)
    requires
        call_item(call, tools, id, index) is Ok,
    ensures
        neat(call_item(call, tools, id, index)->Ok_0),
{
    let tool = find(tools, call.at("name"@).text()->Some_0)->Some_0;
    let none = empty_object();
    let name = Tree::Text(item_name("fc_"@, id, index));
    let kind = Tree::Text(
        if tool.custom {
            "custom_tool_call"@
        } else {
            "function_call"@
        },
    );
    let call_id = Tree::Text(call_id_of(call, id, index));
    let one = none.with("id"@, name);
    let two = one.with("type"@, kind);
    let three = two.with("status"@, Tree::Text("completed"@));
    let four = three.with("call_id"@, call_id);
    let five = four.with("name"@, Tree::Text(tool.name));
    setting_keeps_neat(none, "id"@, name);
    setting_keeps_neat(one, "type"@, kind);
    setting_keeps_neat(two, "status"@, Tree::Text("completed"@));
    setting_keeps_neat(three, "call_id"@, call_id);
    setting_keeps_neat(four, "name"@, Tree::Text(tool.name));
    let placed = match tool.namespace {
        Some(namespace) => five.with("namespace"@, Tree::Text(namespace)),
        None => five,
    };
    if let Some(namespace) = tool.namespace {
        setting_keeps_neat(five, "namespace"@, Tree::Text(namespace));
    }
    if tool.custom {
        let input = call_args(call).at("input"@).text()->Some_0;
        setting_keeps_neat(placed, "input"@, Tree::Text(input));
    } else {
        setting_keeps_neat(placed, "arguments"@, Tree::Text(written(call_args(call))));
    }
}

/// Whether every one of some items is neat.
pub open spec fn all_neat(items: Seq<Tree>) -> bool {
    forall|i: int| 0 <= i < items.len() ==> neat(#[trigger] items[i])
}

proof fn items_are_neat(
    parts: Seq<Tree>,
    from: int,
    tools: Seq<(Seq<char>, ToolView)>,
    id: Seq<char>,
    items: Seq<Tree>,
)
    requires
        0 <= from,
        as_held(Tree::Array(parts)),
        all_neat(items),
        items_from(parts, from, tools, id, items) is Ok,
    ensures
        all_neat(items_from(parts, from, tools, id, items)->Ok_0),
    decreases parts.len() - from,
{
    if from < parts.len() {
        let part = parts[from];
        if hidden(part) {
            items_are_neat(parts, from + 1, tools, id, items);
        } else {
            let index = items.len() + 1;
            let item = part_item(part, tools, id, index)->Ok_0;
            listed_ones_are_held(parts, from);
            match part.get("functionCall"@) {
                Some(call) => calls_are_neat(call, tools, id, index),
                None => messages_are_neat(part, id, index),
            }
            let more = items.push(item);
            assert forall|i: int| 0 <= i < more.len() implies neat(#[trigger] more[i]) by {
                if i < items.len() {
                    assert(more[i] == items[i]);
                }
            }
            items_are_neat(parts, from + 1, tools, id, more);
        }
    }
}

proof fn ended_items_are_held(items: Seq<Tree>, status: Seq<char>)
    requires
        all_neat(items),
    ensures
        as_held(Tree::Array(settled_items(items, status))),
{
    let ended = settled_items(items, status);
    assert forall|i: int| 0 <= i < ended.len() implies as_held(#[trigger] ended[i]) by {
        assert(neat(items[i]));
        setting_keeps_neat(items[i], "status"@, Tree::Text("incomplete"@));
        neat_objects_are_held(ended[i]);
    }
    lists_are_held(ended);
}

// ---- calls ----------------------------------------------------------------------------------

/// How many of some items are calls.
pub open spec fn calls_among(items: Seq<Tree>) -> nat
    decreases items.len(),
{
    if items.len() == 0 {
        0
    } else {
        calls_among(items.drop_last()) + (if items.last().at("call_id"@).text() is Some {
            1nat
        } else {
            0nat
        })
    }
}

proof fn messages_are_no_calls(part: Tree, id: Seq<char>, index: nat)
    ensures
        message_item(part, id, index).at("call_id"@) == Tree::Null,
{
    broadcast use member_laws;

    reveal_strlit("call_id");
    reveal_strlit("id");
    reveal_strlit("type");
    reveal_strlit("role");
    reveal_strlit("status");
    reveal_strlit("content");
    assert("call_id"@.len() == 7);
    assert("id"@.len() == 2);
    assert("type"@.len() == 4);
    assert("role"@.len() == 4);
    assert("status"@.len() == 6);
    assert("content"@[1] == 'o');
    assert("call_id"@[1] == 'a');
}

proof fn calls_are_counted(
    parts: Seq<Tree>,
    from: int,
    tools: Seq<(Seq<char>, ToolView)>,
    id: Seq<char>,
    items: Seq<Tree>,
    calls: Seq<Tree>,
)
    requires
        0 <= from,
        items_from(parts, from, tools, id, items) is Ok,
        calls_among(items) <= calls.len(),
    ensures
        calls_among(items_from(parts, from, tools, id, items)->Ok_0) <= calls_in(
            parts,
            from,
            calls,
        ).len(),
    decreases parts.len() - from,
{
    if from < parts.len() {
        let part = parts[from];
        let more = match part.get("functionCall"@) {
            Some(call) => calls.push(call),
            None => calls,
        };
        if hidden(part) {
            calls_are_counted(parts, from + 1, tools, id, items, more);
        } else {
            let item = part_item(part, tools, id, items.len() + 1)->Ok_0;
            assert(items.push(item).drop_last() =~= items);
            if part.get("functionCall"@) is None {
                messages_are_no_calls(part, id, items.len() + 1);
            }
            calls_are_counted(parts, from + 1, tools, id, items.push(item), more);
        }
    }
}

proof fn ended_calls_are_counted(items: Seq<Tree>, status: Seq<char>)
    ensures
        calls_among(settled_items(items, status)) == calls_among(items),
    decreases items.len(),
{
    let ended = settled_items(items, status);
    if items.len() > 0 {
        reveal_strlit("call_id");
        reveal_strlit("status");
        assert("call_id"@.len() == 7);
        assert("status"@.len() == 6);
        set_keeps_others(items.last(), "status"@, Tree::Text("incomplete"@), "call_id"@);
        assert(ended.drop_last() =~= settled_items(items.drop_last(), status));
        ended_calls_are_counted(items.drop_last(), status);
    } else {
        assert(ended =~= items);
    }
}

/// Whether the first `count` calls among parts have names.
pub open spec fn calls_are_named(parts: Seq<Tree>, count: nat) -> bool {
    forall|k: int|
        0 <= k < count ==> string_of(
            #[trigger] calls_in(parts, 0, Seq::empty())[k],
            "name"@,
        ) is Ok
}

proof fn calls_stand_behind(first: Tree, items: Seq<Tree>, count: int)
    requires
        0 <= count <= items.len(),
    ensures
        calls_behind(seq![first] + items, 0, count) == calls_among(items.take(count)),
    decreases count,
{
    if count > 0 {
        calls_stand_behind(first, items, count - 1);
        assert(items.take(count).drop_last() =~= items.take(count - 1));
        assert((seq![first] + items)[count] == items[count - 1]);
    }
}

// ---- laws -----------------------------------------------------------------------------------

pub(crate) proof fn reasoning_shape(id: Seq<char>, summary: Seq<Tree>, carried: Seq<char>)
    ensures
        kind_of(reasoning_item(id, summary, carried)) == "reasoning"@,
        string_of(reasoning_item(id, summary, carried), "encrypted_content"@) == Ok::<
            Seq<char>,
            Seq<char>,
        >(carried),
{
    broadcast use member_laws;

    reveal_strlit("type");
    reveal_strlit("summary");
    reveal_strlit("encrypted_content");
    assert("type"@.len() == 4);
    assert("summary"@.len() == 7);
    assert("encrypted_content"@.len() == 17);
}

pub(crate) proof fn output_stays(native: Tree, request: Converted, key: Seq<u8>, id: Seq<char>, created_at: u64, nonce: Seq<u8>, response: Tree)
    requires
        converted_response(native, request, key, id, created_at, nonce) == Ok::<Tree, Seq<char>>(
            response,
        ),
        !native.has("error"@),
        lacks(request.response_fields, "output"@),
    ensures
        answer_carrier(native, request, key, id, nonce) is Ok,
        response.at("output"@) == Tree::Array(
            seq![
                reasoning_item(
                    id,
                    summary_from(answer_parts(native), 0, Seq::empty()),
                    answer_carrier(native, request, key, id, nonce)->Ok_0,
                ),
            ] + answer_items(native, request, id),
        ),
        items_of(answer_parts(native), request.tools, id) is Ok,
{
    broadcast use member_laws;

    let parts = answer_parts(native);
    let items = answer_items(native, request, id);
    let ended = judged(native, parts, request.output_schema);
    let carried = answer_carrier(native, request, key, id, nonce)->Ok_0;
    let base = unmerged_response(native, request, id, created_at, parts, items, ended, carried);
    reveal_strlit("output");
    reveal_strlit("usage");
    reveal_strlit("error");
    reveal_strlit("incomplete_details");
    reveal_strlit("parallel_tool_calls");
    reveal_strlit("store");
    reveal_strlit("gemini");
    assert("output"@.len() == 6);
    assert("output"@[0] == 'o');
    assert("usage"@.len() == 5);
    assert("error"@.len() == 5);
    assert("incomplete_details"@.len() == 18);
    assert("parallel_tool_calls"@.len() == 19);
    assert("store"@.len() == 5);
    assert("gemini"@[0] == 'g');
    merged_lacks(base, request.response_fields, 0, "output"@);
}

pub(crate) proof fn sealed_turns_keep_all(native: Tree, request: Converted, id: Seq<char>)
    requires
        as_held(Tree::Array(answer_parts(native))),
        items_of(answer_parts(native), request.tools, id) is Ok,
    ensures
        settled(answer_turn(native, request, id)).at("items"@) == Tree::Array(
            answer_items(native, request, id),
        ),
        settled(answer_turn(native, request, id)).at("parts"@) == Tree::Array(
            answer_parts(native),
        ),
{
    let items = items_of(answer_parts(native), request.tools, id)->Ok_0;
    items_are_neat(answer_parts(native), 0, request.tools, id, Seq::empty());
    ended_items_are_held(items, judged(native, answer_parts(native), request.output_schema).0);
    settled_turn(answer_parts(native), answer_items(native, request, id));
}

/// An answer whose output a client sends back is replayed, wherever the conversation stands,
/// with the very native parts that the model gave, signatures included, in a turn of their
/// own.
pub proof fn answers_are_replayed(
    native: Tree,
    request: Converted,
    key: Seq<u8>,
    id: Seq<char>,
    created_at: u64,
    nonce: Seq<u8>,
    response: Tree,
    talk: Talk,
)
    requires
        converted_response(native, request, key, id, created_at, nonce) == Ok::<Tree, Seq<char>>(
            response,
        ),
        !native.has("error"@),
        lacks(request.response_fields, "output"@),
        calls_are_named(
            answer_parts(native),
            calls_among(answer_items(native, request, id)),
        ),
        readable(answer_turn(native, request, id), 127),
        as_held(Tree::Array(answer_parts(native))),
        opens_again(native, request, key, id, nonce),
    ensures
        response.at("output"@) is Array,
        ({
            let done = talk_from(
                response.at("output"@).items()->Some_0,
                0,
                talk,
                key,
                request.model,
            );
            &&& done is Ok
            &&& done->Ok_0.contents == talk.contents.push(turn("model"@, answer_parts(native)))
            &&& done->Ok_0.system == talk.system
        }),
{
    let parts = answer_parts(native);
    let items = answer_items(native, request, id);
    output_stays(native, request, key, id, created_at, nonce, response);
    let carried = answer_carrier(native, request, key, id, nonce)->Ok_0;
    let first = reasoning_item(id, summary_from(parts, 0, Seq::empty()), carried);
    let output = seq![first] + items;
    reasoning_shape(id, summary_from(parts, 0, Seq::empty()), carried);
    sealed_turns_keep_all(native, request, id);
    let sealed = settled(answer_turn(native, request, id));
    assert(output[0] == first);
    assert forall|k: int| 0 <= k < items.len() implies item_check(
        #[trigger] items[k],
        output[1 + k],
    ) is Ok by {
        assert(output[1 + k] == items[k]);
        unaltered_items_pass(items[k]);
    }
    calls_are_counted(parts, 0, request.tools, id, Seq::empty(), Seq::empty());
    ended_calls_are_counted(
        items_of(parts, request.tools, id)->Ok_0,
        judged(native, parts, request.output_schema).0,
    );
    calls_stand_behind(first, items, items.len() as int);
    assert(items.take(items.len() as int) =~= items);
    kept_turns_are_replayed(talk, output, 0, key, request.model, carried, sealed, items, parts);
    let (next, passed) = talk.replayed(output, 0, key, request.model)->Ok_0;
    assert(talk_from(output, 1 + passed as int, next, key, request.model) == Ok::<Talk, Seq<char>>(
        next,
    ));
}

proof fn extensions_keep_contents(body: Tree, fields: Seq<(Seq<char>, Tree)>, from: int)
    requires
        members_added(body, fields, from) is Ok,
    ensures
        members_added(body, fields, from)->Ok_0.at("contents"@) == body.at("contents"@),
    decreases fields.len() - from,
{
    broadcast use member_laws;

    reveal_strlit("contents");
    reveal_strlit("tools");
    reveal_strlit("generationConfig");
    assert("contents"@.len() == 8);
    assert("tools"@.len() == 5);
    assert("generationConfig"@.len() == 16);
    if 0 <= from < fields.len() {
        let next = member_added(body, fields[from].0, fields[from].1)->Ok_0;
        assert(next.at("contents"@) == body.at("contents"@));
        extensions_keep_contents(next, fields, from + 1);
    }
}

/// The native body of a request holds its conversation, and nothing that extends the body
/// changes it.
pub proof fn bodies_hold_the_conversation(
    request: Tree,
    url: Seq<char>,
    thinking: Thinking,
    key: Seq<u8>,
    done: Converted,
)
    requires
        converted(request, url, thinking, key) == Ok::<Converted, Seq<char>>(done),
    ensures
        conversation(request, key, done.model) is Ok,
        done.body.at("contents"@) == Tree::Array(
            conversation(request, key, done.model)->Ok_0.contents,
        ),
{
    broadcast use member_laws;

    reveal_strlit("contents");
    reveal_strlit("generationConfig");
    reveal_strlit("systemInstruction");
    reveal_strlit("tools");
    reveal_strlit("toolConfig");
    assert("contents"@.len() == 8);
    assert("generationConfig"@.len() == 16);
    assert("systemInstruction"@.len() == 17);
    assert("tools"@.len() == 5);
    assert("toolConfig"@.len() == 10);
    let talk = conversation(request, key, done.model)->Ok_0;
    let tools = declared(request)->Ok_0;
    let (settings, choice, schema) = configured(
        request,
        thinking,
        done.model,
        tools.names,
        tools.tools.len() > 0,
    )->Ok_0;
    let plain = plain_body(talk.contents, settings, talk.system, tools.declarations);
    assert(plain.at("contents"@) == Tree::Array(talk.contents));
    let chosen = match choice {
        Some(choice) => plain.with("toolConfig"@, choice),
        None => plain,
    };
    assert(chosen.at("contents"@) == Tree::Array(talk.contents));
    if let Some(native) = request.at("gemini"@).get("native_request"@) {
        extensions_keep_contents(chosen, native->Object_0, 0);
    }
}

/// A turn of which a client drops or alters an item is refused.
pub proof fn altered_turns_are_refused(
    talk: Talk,
    items: Seq<Tree>,
    at: int,
    key: Seq<u8>,
    model: Seq<char>,
    carrier: Seq<char>,
    sealed: Tree,
    expected: Seq<Tree>,
    k: int,
)
    requires
        0 <= at < items.len(),
        kind_of(items[at]) == "reasoning"@,
        string_of(items[at], "encrypted_content"@) == Ok::<Seq<char>, Seq<char>>(carrier),
        opened(key, model, carrier) == Ok::<Tree, Seq<char>>(sealed),
        sealed.at("items"@) == Tree::Array(expected),
        0 <= k < expected.len(),
        at + 1 + k >= items.len() || item_check(expected[k], items[at + 1 + k]) is Err,
    ensures
        talk.replayed(items, at, key, model) is Err,
        talk_from(items, at, talk, key, model) is Err,
{
    if let Ok((after, passed)) = talk.replayed(items, at, key, model) {
        replayed_turns_are_authentic(talk, items, at, key, model, after, passed);
        assert(item_check(expected[k], items[at + 1 + k]) is Ok);
    }
}

/// An item of which a member differs from the sealed one does not pass: its type, role, call,
/// name, namespace or input, its content up to what clients rename, or its arguments up to how
/// their JSON is written.
pub proof fn altered_members_are_noticed(expected: Tree, actual: Tree, field: Seq<char>)
    requires
        field == "type"@ || field == "role"@ || field == "content"@ || field == "call_id"@ || field
            == "name"@ || field == "namespace"@ || field == "arguments"@ || field == "input"@,
        !field_matches(field, expected.get(field), actual.get(field)),
    ensures
        item_check(expected, actual) is Err,
{
    assert(field_check(expected, actual, field) is Err);
}

proof fn equal_members(
    a: Seq<(Seq<char>, Tree)>,
    b: Seq<(Seq<char>, Tree)>,
    key: Seq<char>,
    from: int,
)
    requires
        0 <= from,
        Tree::Object(a).equals(Tree::Object(b)),
    ensures
        same_value(find_from(a, key, from), find_from(b, key, from)),
    decreases a.len() - from,
{
    if from < a.len() {
        assert(a[from].0 == b[from].0 && a[from].1.equals(b[from].1));
        equal_members(a, b, key, from + 1);
    }
}

proof fn neutral_keeps_member(part: Tree, name: Seq<char>)
    requires
        name != "annotations"@,
        name != "type"@,
    ensures
        neutral_part(part).get(name) == part.get(name),
{
    if let Tree::Object(fields) = part {
        cut_keeps_others(fields, "annotations"@, name);
        let bare = if part.at("annotations"@) == Tree::Array(Seq::empty()) {
            part.without("annotations"@)
        } else {
            part
        };
        put_keeps_others(bare->Object_0, "type"@, Tree::Text("text"@), name);
    }
}

/// A message whose content has another part more or less does not pass, nor one of whose
/// parts has another text, or anything else but its annotations and its kind.
pub proof fn altered_content_is_noticed(
    expected: Tree,
    actual: Tree,
    sealed: Seq<Tree>,
    sent: Seq<Tree>,
    i: int,
    name: Seq<char>,
)
    requires
        expected.get("content"@) == Some(Tree::Array(sealed)),
        actual.get("content"@) == Some(Tree::Array(sent)),
        name != "annotations"@,
        name != "type"@,
        sealed.len() != sent.len() || (0 <= i < sealed.len() && !same_value(
            sealed[i].get(name),
            sent[i].get(name),
        )),
    ensures
        item_check(expected, actual) is Err,
{
    let a = neutral(Tree::Array(sealed));
    let b = neutral(Tree::Array(sent));
    if a.equals(b) {
        assert(a->Array_0[i].equals(b->Array_0[i]));
        neutral_keeps_member(sealed[i], name);
        neutral_keeps_member(sent[i], name);
        match (neutral_part(sealed[i]), neutral_part(sent[i])) {
            (Tree::Object(x), Tree::Object(y)) => equal_members(x, y, name, 0),
            _ => {},
        }
    }
    altered_members_are_noticed(expected, actual, "content"@);
}

/// A call whose arguments read as another value than the sealed ones, or not at all, does not
/// pass.
pub proof fn altered_arguments_are_noticed(
    expected: Tree,
    actual: Tree,
    sealed: Seq<char>,
    sent: Seq<char>,
    value: Tree,
)
    requires
        expected.get("arguments"@) == Some(Tree::Text(sealed)),
        actual.get("arguments"@) == Some(Tree::Text(sent)),
        parsed(encode_utf8(sealed)) == Ok::<Tree, Seq<char>>(value),
        match parsed(encode_utf8(sent)) {
            Ok(other) => !value.equals(other),
            Err(_) => true,
        },
    ensures
        item_check(expected, actual) is Err,
{
    values_equal_themselves(value);
    assert("arguments"@ != "content"@) by {
        reveal_strlit("arguments");
        reveal_strlit("content");
        assert("arguments"@.len() == 9);
        assert("content"@.len() == 7);
    }
    altered_members_are_noticed(expected, actual, "arguments"@);
}

/// A carrier of another provider is refused, whatever the key and the model.
pub proof fn foreign_carriers_are_refused(key: Seq<u8>, model: Seq<char>, carrier: Seq<char>)
    requires
        !"hey_gemini_v1."@.is_prefix_of(carrier),
    ensures
        opened(key, model, carrier) == Err::<Tree, Seq<char>>(
            "Reasoning belongs to another provider or codec; cannot discard it"@,
        ),
{
}

} // verus!

//! What a Responses request keeps of the chat request that it is made from.

use vstd::prelude::*;
use crate::chat::request::{
    call_of, calls_from, chat_converted, content_of, file_from, format_set, furnished, initial_body,
    limited, message_items, messages_from, parameter_set, parameters_set, part_of, parts_from,
    reasoning_from, reasoning_of, reasoning_options, reasoning_set, shared_parameter, spoken_parts,
    text_kind, tool_of, tools_from, tools_set, typed_text, unset, visible_of, ConvertedView,
};
use crate::gemini::conversation::list_of;
use crate::gemini::parts::empty_object;
use crate::members::{member_laws, set_keeps_others, set_then_get};
use crate::table::find_from;
use crate::tree::Tree;

verus! {

// ---- what is told ---------------------------------------------------------------------------

/// An object in which no member occurs twice.
pub open spec fn plain_members(object: Tree) -> bool {
    object is Object && forall|i: int, j: int|
        0 <= i < j < object->Object_0.len() ==> (#[trigger] object->Object_0[i]).0 != (
        #[trigger] object->Object_0[j]).0
}

/// A content part says what the chat part says.
pub open spec fn part_told(part: Tree, told: Tree, assistant: bool) -> bool {
    let kind = part.at("type"@);
    let file = part.at("file"@);
    &&& kind == Tree::Text("text"@) || kind == Tree::Text("image_url"@) || kind == Tree::Text(
        "file"@,
    ) || kind == Tree::Text("refusal"@)
    &&& kind == Tree::Text("text"@) ==> told.at("text"@) == part.at("text"@) && told.at("type"@)
        == Tree::Text(
        if assistant {
            "output_text"@
        } else {
            "input_text"@
        },
    )
    &&& kind == Tree::Text("image_url"@) ==> !assistant && told.at("type"@) == Tree::Text(
        "input_image"@,
    ) && told.at("image_url"@) == part.at("image_url"@).at("url"@) && told.at("detail"@)
        == part.at("image_url"@).at("detail"@)
    &&& kind == Tree::Text("file"@) ==> !assistant && told.at("type"@) == Tree::Text("input_file"@)
    &&& kind == Tree::Text("file"@) && plain_members(file) ==> told.at("file_id"@) == file.at(
        "file_id"@,
    ) && told.at("file_data"@) == file.at("file_data"@) && told.at("filename"@) == file.at(
        "filename"@,
    )
    &&& kind == Tree::Text("refusal"@) ==> assistant && told.at("type"@) == Tree::Text("refusal"@)
        && told.at("refusal"@) == part.at("refusal"@)
}

/// Content parts say what chat content says.
pub open spec fn content_told(content: Tree, told: Seq<Tree>, assistant: bool) -> bool {
    match content {
        Tree::Text(text) => told.len() == 1 && told[0].at("text"@) == content && told[0].at(
            "type"@,
        ) == Tree::Text(
            if assistant {
                "output_text"@
            } else {
                "input_text"@
            },
        ),
        Tree::Array(parts) => told.len() == parts.len() && forall|i: int|
            0 <= i < parts.len() ==> #[trigger] part_told(parts[i], told[i], assistant),
        _ => told.len() == 0,
    }
}

/// A function call is that of a chat tool call.
pub open spec fn call_told(call: Tree, told: Tree) -> bool {
    &&& told.at("type"@) == Tree::Text("function_call"@)
    &&& told.at("call_id"@) == call.at("id"@)
    &&& told.at("name"@) == call.at("function"@).at("name"@)
    &&& told.at("arguments"@) == call.at("function"@).at("arguments"@)
}

/// Items say what an assistant message shows: its content with its refusal, and then its calls,
/// one for one.
pub open spec fn shown_told(message: Tree, told: Seq<Tree>) -> bool {
    let calls = list_of(message.at("tool_calls"@));
    let said = told.len() - calls.len();
    let refusal = message.at("refusal"@);
    let parts = list_of(told[0].at("content"@));
    &&& said == 0 || said == 1
    &&& said == 0 ==> refusal is Null && content_told(message.at("content"@), Seq::empty(), true)
    &&& said == 1 ==> told[0].at("type"@) == Tree::Text("message"@) && told[0].at("role"@)
        == Tree::Text("assistant"@)
    &&& said == 1 && refusal is Null ==> content_told(message.at("content"@), parts, true)
    &&& said == 1 && !(refusal is Null) ==> parts.len() > 0 && parts.last().at("type"@)
        == Tree::Text("refusal"@) && parts.last().at("refusal"@) == refusal && content_told(
        message.at("content"@),
        parts.drop_last(),
        true,
    )
    &&& forall|k: int|
        0 <= k < calls.len() ==> #[trigger] call_told(calls[k], told[said + k])
}

/// Items say what a chat message says.
pub open spec fn message_told(message: Tree, told: Seq<Tree>) -> bool {
    let role = message.at("role"@);
    let content = message.at("content"@);
    &&& role == Tree::Text("tool"@) ==> told.len() == 1 && told[0].at("type"@) == Tree::Text(
        "function_call_output"@,
    ) && told[0].at("call_id"@) == message.at("tool_call_id"@)
    &&& role == Tree::Text("tool"@) && content is Text ==> told[0].at("output"@) == content
    &&& role == Tree::Text("tool"@) && !(content is Text) ==> content_told(
        content,
        list_of(told[0].at("output"@)),
        false,
    )
    &&& role == Tree::Text("user"@) || role == Tree::Text("system"@) || role == Tree::Text(
        "developer"@,
    ) ==> told.len() == 1 && told[0].at("role"@) == role && content_told(
        content,
        list_of(told[0].at("content"@)),
        false,
    )
    &&& role == Tree::Text("assistant"@) && message.at("reasoning_details"@) is Null
        ==> shown_told(message, told)
}

// ---- content --------------------------------------------------------------------------------

proof fn part_names_differ()
    ensures
        "type"@ != "text"@,
        "type"@ != "image_url"@,
        "type"@ != "detail"@,
        "image_url"@ != "detail"@,
        "type"@ != "refusal"@,
        "type"@ != "file_id"@,
        "type"@ != "file_data"@,
        "type"@ != "filename"@,
        "text"@ != "image_url"@,
        "text"@ != "file"@,
        "text"@ != "refusal"@,
        "image_url"@ != "file"@,
        "image_url"@ != "refusal"@,
        "file"@ != "refusal"@,
{
    reveal_strlit("type");
    reveal_strlit("text");
    reveal_strlit("image_url");
    reveal_strlit("detail");
    reveal_strlit("refusal");
    reveal_strlit("file_id");
    reveal_strlit("file_data");
    reveal_strlit("filename");
    reveal_strlit("file");
    assert("type"@.len() == 4);
    assert("text"@.len() == 4);
    assert("image_url"@.len() == 9);
    assert("detail"@.len() == 6);
    assert("refusal"@.len() == 7);
    assert("file_id"@.len() == 7);
    assert("file_data"@.len() == 9);
    assert("filename"@.len() == 8);
    assert("file"@.len() == 4);
    assert("type"@[0] == 't');
    assert("type"@[1] == 'y');
    assert("text"@[0] == 't');
    assert("text"@[1] == 'e');
    assert("file"@[0] == 'f');
    assert("image_url"@[0] == 'i');
    assert("file_data"@[0] == 'f');
    assert("refusal"@[0] == 'r');
    assert("file_id"@[0] == 'f');
}

pub(crate) proof fn none_behind(fields: Seq<(Seq<char>, Tree)>, name: Seq<char>, k: int, from: int)
    requires
        plain_members(Tree::Object(fields)),
        0 <= k < from <= fields.len(),
        k < fields.len(),
        fields[k].0 == name,
    ensures
        find_from(fields, name, from) is None,
    decreases fields.len() - from,
{
    let object = Tree::Object(fields);
    if from < fields.len() {
        assert(object->Object_0[k].0 != object->Object_0[from].0);
        none_behind(fields, name, k, from + 1);
    }
}

proof fn files_carry(fields: Seq<(Seq<char>, Tree)>, from: int, item: Tree, name: Seq<char>)
    requires
        0 <= from,
        item is Object,
        file_from(fields, from, item) is Ok,
    ensures
        name == "type"@ ==> file_from(fields, from, item)->Ok_0.at(name) == item.at(name),
        plain_members(Tree::Object(fields)) && name != "type"@ ==> file_from(
            fields,
            from,
            item,
        )->Ok_0.at(name) == match find_from(fields, name, from) {
            Some(value) => value,
            None => item.at(name),
        },
    decreases fields.len() - from,
{
    broadcast use member_laws;

    part_names_differ();
    if from < fields.len() {
        let (key, value) = fields[from];
        let next = item.with(key, value);
        assert(next is Object && next.at(key) == value);
        if key != name {
            assert(next.at(name) == item.at(name));
        } else if plain_members(Tree::Object(fields)) {
            none_behind(fields, name, from, from + 1);
        }
        files_carry(fields, from + 1, next, name);
    }
}

proof fn one_part_is_told(part: Tree, assistant: bool)
    requires
        part_of(part, assistant) is Ok,
    ensures
        part_told(part, part_of(part, assistant)->Ok_0, assistant),
{
    broadcast use member_laws;

    part_names_differ();
    let told = part_of(part, assistant)->Ok_0;
    let kind = part.at("type"@)->Text_0;
    let none = empty_object();
    if kind == "text"@ {
    } else if kind == "image_url"@ {
        let plain = none.with("type"@, Tree::Text("input_image"@)).with(
            "image_url"@,
            part.at("image_url"@).at("url"@),
        );
        assert(plain.at("type"@) == Tree::Text("input_image"@));
        assert(plain.at("detail"@) is Null);
    } else if kind == "file"@ {
        let item = none.with("type"@, Tree::Text("input_file"@));
        let fields = part.at("file"@)->Object_0;
        files_carry(fields, 0, item, "type"@);
        files_carry(fields, 0, item, "file_id"@);
        files_carry(fields, 0, item, "file_data"@);
        files_carry(fields, 0, item, "filename"@);
        assert(none.at("file_id"@) is Null && none.at("file_data"@) is Null && none.at(
            "filename"@,
        ) is Null);
    } else {
    }
}

proof fn parts_are_told(parts: Seq<Tree>, from: int, assistant: bool, out: Seq<Tree>)
    requires
        0 <= from <= parts.len(),
        from == out.len(),
        forall|i: int| 0 <= i < from ==> #[trigger] part_told(parts[i], out[i], assistant),
        parts_from(parts, from, assistant, out) is Ok,
    ensures
        content_told(Tree::Array(parts), parts_from(parts, from, assistant, out)->Ok_0, assistant),
    decreases parts.len() - from,
{
    if from < parts.len() {
        one_part_is_told(parts[from], assistant);
        let told = part_of(parts[from], assistant)->Ok_0;
        let next = out.push(told);
        assert forall|i: int| 0 <= i < from + 1 implies #[trigger] part_told(
            parts[i],
            next[i],
            assistant,
        ) by {
            if i < from {
                assert(part_told(parts[i], out[i], assistant));
            }
        }
        parts_are_told(parts, from + 1, assistant, next);
    }
}

proof fn contents_are_told(content: Tree, assistant: bool)
    requires
        content_of(content, assistant) is Ok,
    ensures
        content_told(content, content_of(content, assistant)->Ok_0, assistant),
{
    broadcast use member_laws;

    part_names_differ();
    match content {
        Tree::Array(parts) => {
            parts_are_told(parts, 0, assistant, Seq::empty());
        },
        Tree::Text(text) => {
            let told = typed_text(text_kind(assistant), text);
            assert(told.at("type"@) == Tree::Text(text_kind(assistant)));
            assert(told.at("text"@) == content);
        },
        _ => {},
    }
}

// ---- messages -------------------------------------------------------------------------------

proof fn item_names_differ()
    ensures
        "type"@ != "call_id"@,
        "type"@ != "name"@,
        "type"@ != "arguments"@,
        "type"@ != "output"@,
        "type"@ != "role"@,
        "type"@ != "content"@,
        "call_id"@ != "name"@,
        "call_id"@ != "arguments"@,
        "call_id"@ != "output"@,
        "name"@ != "arguments"@,
        "role"@ != "content"@,
        "type"@ != "refusal"@,
        "tool"@ != "assistant"@,
        "user"@ != "assistant"@,
        "system"@ != "assistant"@,
        "developer"@ != "assistant"@,
        "tool"@ != "user"@,
        "tool"@ != "system"@,
        "tool"@ != "developer"@,
{
    reveal_strlit("type");
    reveal_strlit("call_id");
    reveal_strlit("name");
    reveal_strlit("arguments");
    reveal_strlit("output");
    reveal_strlit("role");
    reveal_strlit("content");
    reveal_strlit("refusal");
    reveal_strlit("tool");
    reveal_strlit("assistant");
    reveal_strlit("user");
    reveal_strlit("system");
    reveal_strlit("developer");
    assert("type"@.len() == 4);
    assert("call_id"@.len() == 7);
    assert("name"@.len() == 4);
    assert("arguments"@.len() == 9);
    assert("output"@.len() == 6);
    assert("role"@.len() == 4);
    assert("content"@.len() == 7);
    assert("refusal"@.len() == 7);
    assert("tool"@.len() == 4);
    assert("assistant"@.len() == 9);
    assert("user"@.len() == 4);
    assert("system"@.len() == 6);
    assert("developer"@.len() == 9);
    assert("type"@[0] == 't');
    assert("type"@[1] == 'y');
    assert("name"@[0] == 'n');
    assert("role"@[0] == 'r');
    assert("tool"@[0] == 't');
    assert("tool"@[1] == 'o');
    assert("user"@[0] == 'u');
    assert("call_id"@[0] == 'c');
    assert("call_id"@[1] == 'a');
    assert("content"@[0] == 'c');
    assert("content"@[1] == 'o');
    assert("refusal"@[0] == 'r');
    assert("arguments"@[0] == 'a');
    assert("arguments"@[1] == 'r');
    assert("assistant"@[0] == 'a');
    assert("assistant"@[1] == 's');
    assert("developer"@[0] == 'd');
    assert("output"@[0] == 'o');
    assert("system"@[0] == 's');
}

proof fn one_call_is_told(call: Tree)
    requires
        call_of(call) is Ok,
    ensures
        call_told(call, call_of(call)->Ok_0),
{
    broadcast use member_laws;

    item_names_differ();
    let one = empty_object().with("type"@, Tree::Text("function_call"@));
    let two = one.with("call_id"@, call.at("id"@));
    let three = two.with("name"@, call.at("function"@).at("name"@));
    assert(two.at("type"@) == Tree::Text("function_call"@));
    assert(three.at("call_id"@) == call.at("id"@));
}

proof fn calls_are_told(calls: Seq<Tree>, from: int, said: Seq<Tree>, out: Seq<Tree>)
    requires
        0 <= from <= calls.len(),
        out.len() == said.len() + from,
        out.subrange(0, said.len() as int) == said,
        forall|k: int|
            0 <= k < from ==> #[trigger] call_told(calls[k], out[said.len() + k]),
        calls_from(calls, from, out) is Ok,
    ensures
        ({
            let told = calls_from(calls, from, out)->Ok_0;
            &&& told.len() == said.len() + calls.len()
            &&& told.subrange(0, said.len() as int) == said
            &&& forall|k: int|
                0 <= k < calls.len() ==> #[trigger] call_told(calls[k], told[said.len() + k])
        }),
    decreases calls.len() - from,
{
    if from < calls.len() {
        one_call_is_told(calls[from]);
        let next = out.push(call_of(calls[from])->Ok_0);
        assert(next.subrange(0, said.len() as int) =~= said) by {
            assert(forall|i: int|
                0 <= i < said.len() ==> out.subrange(0, said.len() as int)[i] == out[i]);
        }
        assert forall|k: int| 0 <= k < from + 1 implies #[trigger] call_told(
            calls[k],
            next[said.len() + k],
        ) by {
            if k < from {
                assert(call_told(calls[k], out[said.len() + k]));
            }
        }
        calls_are_told(calls, from + 1, said, next);
    }
}

proof fn what_is_shown_is_told(message: Tree)
    requires
        visible_of(message) is Ok,
    ensures
        shown_told(message, visible_of(message)->Ok_0),
{
    broadcast use member_laws;

    item_names_differ();
    let told = visible_of(message)->Ok_0;
    let spoken = content_of(message.at("content"@), true)->Ok_0;
    let parts = spoken_parts(message)->Ok_0;
    contents_are_told(message.at("content"@), true);
    let one = empty_object().with("type"@, Tree::Text("message"@));
    let two = one.with("role"@, Tree::Text("assistant"@));
    let item = two.with("content"@, Tree::Array(parts));
    assert(two.at("type"@) == Tree::Text("message"@));
    assert(item.at("type"@) == Tree::Text("message"@));
    assert(item.at("role"@) == Tree::Text("assistant"@));
    assert(list_of(item.at("content"@)) == parts);
    let said = if parts.len() > 0 {
        seq![item]
    } else {
        Seq::empty()
    };
    let calls = list_of(message.at("tool_calls"@));
    if message.at("tool_calls"@) is Null {
        assert(told == said);
    } else {
        assert(said.subrange(0, said.len() as int) =~= said);
        calls_are_told(calls, 0, said, said);
        if said.len() > 0 {
            assert(told[0] == told.subrange(0, said.len() as int)[0]);
        }
    }
    if message.at("refusal"@) is Null {
        assert(parts == spoken);
        if parts.len() == 0 {
            assert(parts =~= Seq::empty());
        }
    } else {
        assert(parts.drop_last() =~= spoken);
    }
}

proof fn one_message_is_told(message: Tree, model: Seq<char>, key: Seq<u8>)
    requires
        message_items(message, model, key) is Ok,
    ensures
        message_told(message, message_items(message, model, key)->Ok_0),
{
    broadcast use member_laws;

    item_names_differ();
    let role = message.at("role"@)->Text_0;
    let told = message_items(message, model, key)->Ok_0;
    if role == "assistant"@ {
        if message.at("reasoning_details"@) is Null {
            what_is_shown_is_told(message);
        }
    } else if role == "tool"@ {
        let one = empty_object().with("type"@, Tree::Text("function_call_output"@));
        let two = one.with("call_id"@, message.at("tool_call_id"@));
        assert(two.at("type"@) == Tree::Text("function_call_output"@));
        assert(told[0].at("type"@) == Tree::Text("function_call_output"@));
        assert(told[0].at("call_id"@) == message.at("tool_call_id"@));
        if !(message.at("content"@) is Text) {
            contents_are_told(message.at("content"@), false);
        }
    } else {
        contents_are_told(message.at("content"@), false);
        let one = empty_object().with("role"@, message.at("role"@));
        assert(told[0].at("role"@) == message.at("role"@));
    }
}

/// The items of each message, one list for each.
pub open spec fn told_in_turn(messages: Seq<Tree>, told: Seq<Seq<Tree>>) -> bool {
    told.len() == messages.len() && forall|i: int|
        0 <= i < messages.len() ==> #[trigger] message_told(messages[i], told[i])
}

proof fn messages_stand_in_order(
    messages: Seq<Tree>,
    from: int,
    model: Seq<char>,
    key: Seq<u8>,
    items: Seq<Tree>,
) -> (told: Seq<Seq<Tree>>)
    requires
        0 <= from <= messages.len(),
        messages_from(messages, from, model, key, items) is Ok,
    ensures
        told_in_turn(messages.skip(from), told),
        messages_from(messages, from, model, key, items)->Ok_0 == items + told.flatten(),
    decreases messages.len() - from,
{
    if from == messages.len() {
        let told = Seq::<Seq<Tree>>::empty();
        assert(items + told.flatten() =~= items);
        told
    } else {
        one_message_is_told(messages[from], model, key);
        let more = message_items(messages[from], model, key)->Ok_0;
        let rest = messages_stand_in_order(messages, from + 1, model, key, items + more);
        let told = seq![more] + rest;
        assert(told.drop_first() =~= rest);
        assert(told.flatten() == more + rest.flatten());
        assert(items + more + rest.flatten() =~= items + (more + rest.flatten()));
        let here = messages.skip(from);
        let after = messages.skip(from + 1);
        assert forall|i: int| 0 <= i < here.len() implies #[trigger] message_told(
            here[i],
            told[i],
        ) by {
            if i > 0 {
                assert(message_told(after[i - 1], rest[i - 1]));
            }
        }
        told
    }
}

// ---- the body -------------------------------------------------------------------------------

proof fn body_names_differ()
    ensures
        "model"@ != "stream"@,
        "model"@ != "temperature"@,
        "model"@ != "top_p"@,
        "model"@ != "parallel_tool_calls"@,
        "model"@ != "metadata"@,
        "model"@ != "store"@,
        "model"@ != "user"@,
        "model"@ != "service_tier"@,
        "model"@ != "safety_identifier"@,
        "model"@ != "prompt_cache_key"@,
        "model"@ != "prompt_cache_retention"@,
        "model"@ != "gemini"@,
        "input"@ != "stream"@,
        "input"@ != "temperature"@,
        "input"@ != "top_p"@,
        "input"@ != "parallel_tool_calls"@,
        "input"@ != "metadata"@,
        "input"@ != "store"@,
        "input"@ != "user"@,
        "input"@ != "service_tier"@,
        "input"@ != "safety_identifier"@,
        "input"@ != "prompt_cache_key"@,
        "input"@ != "prompt_cache_retention"@,
        "input"@ != "gemini"@,
        "include"@ != "stream"@,
        "include"@ != "temperature"@,
        "include"@ != "top_p"@,
        "include"@ != "parallel_tool_calls"@,
        "include"@ != "metadata"@,
        "include"@ != "store"@,
        "include"@ != "user"@,
        "include"@ != "service_tier"@,
        "include"@ != "safety_identifier"@,
        "include"@ != "prompt_cache_key"@,
        "include"@ != "prompt_cache_retention"@,
        "include"@ != "gemini"@,
        "max_output_tokens"@ != "stream"@,
        "max_output_tokens"@ != "temperature"@,
        "max_output_tokens"@ != "top_p"@,
        "max_output_tokens"@ != "parallel_tool_calls"@,
        "max_output_tokens"@ != "metadata"@,
        "max_output_tokens"@ != "store"@,
        "max_output_tokens"@ != "user"@,
        "max_output_tokens"@ != "service_tier"@,
        "max_output_tokens"@ != "safety_identifier"@,
        "max_output_tokens"@ != "prompt_cache_key"@,
        "max_output_tokens"@ != "prompt_cache_retention"@,
        "max_output_tokens"@ != "gemini"@,
        "reasoning"@ != "stream"@,
        "reasoning"@ != "temperature"@,
        "reasoning"@ != "top_p"@,
        "reasoning"@ != "parallel_tool_calls"@,
        "reasoning"@ != "metadata"@,
        "reasoning"@ != "store"@,
        "reasoning"@ != "user"@,
        "reasoning"@ != "service_tier"@,
        "reasoning"@ != "safety_identifier"@,
        "reasoning"@ != "prompt_cache_key"@,
        "reasoning"@ != "prompt_cache_retention"@,
        "reasoning"@ != "gemini"@,
        "text"@ != "stream"@,
        "text"@ != "temperature"@,
        "text"@ != "top_p"@,
        "text"@ != "parallel_tool_calls"@,
        "text"@ != "metadata"@,
        "text"@ != "store"@,
        "text"@ != "user"@,
        "text"@ != "service_tier"@,
        "text"@ != "safety_identifier"@,
        "text"@ != "prompt_cache_key"@,
        "text"@ != "prompt_cache_retention"@,
        "text"@ != "gemini"@,
        "tools"@ != "stream"@,
        "tools"@ != "temperature"@,
        "tools"@ != "top_p"@,
        "tools"@ != "parallel_tool_calls"@,
        "tools"@ != "metadata"@,
        "tools"@ != "store"@,
        "tools"@ != "user"@,
        "tools"@ != "service_tier"@,
        "tools"@ != "safety_identifier"@,
        "tools"@ != "prompt_cache_key"@,
        "tools"@ != "prompt_cache_retention"@,
        "tools"@ != "gemini"@,
        "tool_choice"@ != "stream"@,
        "tool_choice"@ != "temperature"@,
        "tool_choice"@ != "top_p"@,
        "tool_choice"@ != "parallel_tool_calls"@,
        "tool_choice"@ != "metadata"@,
        "tool_choice"@ != "store"@,
        "tool_choice"@ != "user"@,
        "tool_choice"@ != "service_tier"@,
        "tool_choice"@ != "safety_identifier"@,
        "tool_choice"@ != "prompt_cache_key"@,
        "tool_choice"@ != "prompt_cache_retention"@,
        "tool_choice"@ != "gemini"@,
        "model"@ != "input"@,
        "model"@ != "include"@,
        "model"@ != "max_output_tokens"@,
        "model"@ != "reasoning"@,
        "model"@ != "text"@,
        "model"@ != "tools"@,
        "model"@ != "tool_choice"@,
        "input"@ != "include"@,
        "input"@ != "max_output_tokens"@,
        "input"@ != "reasoning"@,
        "input"@ != "text"@,
        "input"@ != "tools"@,
        "input"@ != "tool_choice"@,
        "include"@ != "max_output_tokens"@,
        "include"@ != "reasoning"@,
        "include"@ != "text"@,
        "include"@ != "tools"@,
        "include"@ != "tool_choice"@,
        "max_output_tokens"@ != "reasoning"@,
        "max_output_tokens"@ != "text"@,
        "max_output_tokens"@ != "tools"@,
        "max_output_tokens"@ != "tool_choice"@,
        "reasoning"@ != "text"@,
        "reasoning"@ != "tools"@,
        "reasoning"@ != "tool_choice"@,
        "text"@ != "tools"@,
        "text"@ != "tool_choice"@,
        "tools"@ != "tool_choice"@,
{
    reveal_strlit("model");
    reveal_strlit("input");
    reveal_strlit("include");
    reveal_strlit("store");
    reveal_strlit("max_output_tokens");
    reveal_strlit("reasoning");
    reveal_strlit("text");
    reveal_strlit("tools");
    reveal_strlit("tool_choice");
    reveal_strlit("stream");
    reveal_strlit("temperature");
    reveal_strlit("top_p");
    reveal_strlit("parallel_tool_calls");
    reveal_strlit("metadata");
    reveal_strlit("user");
    reveal_strlit("service_tier");
    reveal_strlit("safety_identifier");
    reveal_strlit("prompt_cache_key");
    reveal_strlit("prompt_cache_retention");
    reveal_strlit("gemini");
    assert("model"@.len() == 5);
    assert("input"@.len() == 5);
    assert("include"@.len() == 7);
    assert("store"@.len() == 5);
    assert("max_output_tokens"@.len() == 17);
    assert("reasoning"@.len() == 9);
    assert("text"@.len() == 4);
    assert("tools"@.len() == 5);
    assert("tool_choice"@.len() == 11);
    assert("stream"@.len() == 6);
    assert("temperature"@.len() == 11);
    assert("top_p"@.len() == 5);
    assert("parallel_tool_calls"@.len() == 19);
    assert("metadata"@.len() == 8);
    assert("user"@.len() == 4);
    assert("service_tier"@.len() == 12);
    assert("safety_identifier"@.len() == 17);
    assert("prompt_cache_key"@.len() == 16);
    assert("prompt_cache_retention"@.len() == 22);
    assert("gemini"@.len() == 6);
    assert("model"@[0] == 'm');
    assert("input"@[0] == 'i');
    assert("store"@[0] == 's');
    assert("tools"@[0] == 't');
    assert("tools"@[2] == 'o');
    assert("top_p"@[0] == 't');
    assert("top_p"@[2] == 'p');
    assert("max_output_tokens"@[0] == 'm');
    assert("safety_identifier"@[0] == 's');
    assert("text"@[0] == 't');
    assert("user"@[0] == 'u');
    assert("tool_choice"@[1] == 'o');
    assert("temperature"@[1] == 'e');
    assert("stream"@[0] == 's');
    assert("gemini"@[0] == 'g');
}

proof fn parameters_keep(body: Tree, fields: Seq<(Seq<char>, Tree)>, from: int, name: Seq<char>)
    requires
        0 <= from,
        !shared_parameter(name),
        parameters_set(body, fields, from) is Ok,
        body is Object,
    ensures
        parameters_set(body, fields, from)->Ok_0 is Object,
        parameters_set(body, fields, from)->Ok_0.at(name) == body.at(name),
    decreases fields.len() - from,
{
    if from < fields.len() {
        let (key, value) = fields[from];
        set_then_get(body, key, value);
        if key != name {
            set_keeps_others(body, key, value, name);
        }
        parameters_keep(parameter_set(body, key, value)->Ok_0, fields, from + 1, name);
    }
}

proof fn parameters_carry(body: Tree, fields: Seq<(Seq<char>, Tree)>, from: int, name: Seq<char>)
    requires
        0 <= from,
        shared_parameter(name),
        plain_members(Tree::Object(fields)),
        parameters_set(body, fields, from) is Ok,
        body is Object,
    ensures
        ({
            let after = parameters_set(body, fields, from)->Ok_0;
            match find_from(fields, name, from) {
                Some(value) => if value is Null {
                    after.at(name) == body.at(name)
                } else {
                    after.at(name) == value
                },
                None => after.at(name) == body.at(name),
            }
        }),
    decreases fields.len() - from,
{
    if from < fields.len() {
        let (key, value) = fields[from];
        set_then_get(body, key, value);
        if key != name {
            set_keeps_others(body, key, value, name);
        } else {
            none_behind(fields, name, from, from + 1);
            assert(!crate::chat::request::own_parameter(name)) by {
                shared_are_not_own(name);
            }
        }
        parameters_carry(parameter_set(body, key, value)->Ok_0, fields, from + 1, name);
    }
}

proof fn shared_are_not_own(name: Seq<char>)
    requires
        shared_parameter(name),
    ensures
        !crate::chat::request::own_parameter(name),
{
    reveal_strlit("stream");
    reveal_strlit("temperature");
    reveal_strlit("top_p");
    reveal_strlit("parallel_tool_calls");
    reveal_strlit("metadata");
    reveal_strlit("store");
    reveal_strlit("user");
    reveal_strlit("service_tier");
    reveal_strlit("safety_identifier");
    reveal_strlit("prompt_cache_key");
    reveal_strlit("prompt_cache_retention");
    reveal_strlit("gemini");
    reveal_strlit("model");
    reveal_strlit("messages");
    reveal_strlit("stream_options");
    reveal_strlit("reasoning_effort");
    reveal_strlit("reasoning");
    reveal_strlit("include_reasoning");
    reveal_strlit("max_tokens");
    reveal_strlit("max_completion_tokens");
    reveal_strlit("response_format");
    reveal_strlit("tools");
    reveal_strlit("tool_choice");
    assert("stream"@.len() == 6);
    assert("temperature"@.len() == 11);
    assert("top_p"@.len() == 5);
    assert("parallel_tool_calls"@.len() == 19);
    assert("metadata"@.len() == 8);
    assert("store"@.len() == 5);
    assert("user"@.len() == 4);
    assert("service_tier"@.len() == 12);
    assert("safety_identifier"@.len() == 17);
    assert("prompt_cache_key"@.len() == 16);
    assert("prompt_cache_retention"@.len() == 22);
    assert("gemini"@.len() == 6);
    assert("model"@.len() == 5);
    assert("messages"@.len() == 8);
    assert("stream_options"@.len() == 14);
    assert("reasoning_effort"@.len() == 16);
    assert("reasoning"@.len() == 9);
    assert("include_reasoning"@.len() == 17);
    assert("max_tokens"@.len() == 10);
    assert("max_completion_tokens"@.len() == 21);
    assert("response_format"@.len() == 15);
    assert("tools"@.len() == 5);
    assert("tool_choice"@.len() == 11);
    assert("stream"@[0] == 's');
    assert("gemini"@[0] == 'g');
    assert("temperature"@[1] == 'e');
    assert("tool_choice"@[1] == 'o');
    assert("top_p"@[0] == 't');
    assert("top_p"@[2] == 'p');
    assert("store"@[0] == 's');
    assert("model"@[0] == 'm');
    assert("tools"@[0] == 't');
    assert("tools"@[2] == 'o');
    assert("metadata"@[2] == 't');
    assert("messages"@[2] == 's');
    assert("safety_identifier"@[0] == 's');
    assert("include_reasoning"@[0] == 'i');
    assert("prompt_cache_key"@[0] == 'p');
    assert("reasoning_effort"@[0] == 'r');
}

proof fn furnishing_keeps(body: Tree, input: Tree, reasoning: Tree, name: Seq<char>)
    requires
        body is Object,
        name != "reasoning"@,
        name != "text"@,
        name != "tools"@,
        name != "tool_choice"@,
        furnished(body, input, reasoning) is Ok,
    ensures
        furnished(body, input, reasoning)->Ok_0.at(name) == body.at(name),
{
    broadcast use member_laws;

    let thinking = if unset(reasoning) {
        body
    } else {
        body.with("reasoning"@, reasoning)
    };
    assert(thinking.at(name) == body.at(name));
    let shaped = format_set(thinking, input)->Ok_0;
    assert(shaped.at(name) == thinking.at(name));
    let equipped = tools_set(shaped, input)->Ok_0;
    assert(equipped.at(name) == shaped.at(name));
}

/// The stages of a conversion: the items, the body with its parameters, and the settings of its
/// reasoning.
proof fn bodies_are_built(input: Tree, model: Seq<char>, key: Seq<u8>, done: ConvertedView) -> (r: (
    Seq<Tree>,
    Tree,
    Tree,
))
    requires
        chat_converted(input, model, key) == Ok::<ConvertedView, Seq<char>>(done),
    ensures
        messages_from(list_of(input.at("messages"@)), 0, model, key, Seq::empty()) == Ok::<
            Seq<Tree>,
            Seq<char>,
        >(r.0),
        parameters_set(initial_body(input.at("model"@), r.0), input->Object_0, 0) == Ok::<
            Tree,
            Seq<char>,
        >(r.1),
        input is Object,
        limited(r.1, input) is Ok,
        reasoning_of(input) == Ok::<(Tree, bool), Seq<char>>((r.2, done.exclude_reasoning)),
        furnished(limited(r.1, input)->Ok_0, input, r.2) == Ok::<Tree, Seq<char>>(done.body),
        done.body.at("input"@) == Tree::Array(r.0),
        done.body.at("model"@) == input.at("model"@),
        done.body.at("include"@) == Tree::Array(
            seq![Tree::Text("reasoning.encrypted_content"@)],
        ),
        initial_body(input.at("model"@), r.0).at("store"@) == Tree::Bool(false),
        r.1 is Object,
        limited(r.1, input)->Ok_0 is Object,
{
    broadcast use member_laws;

    body_names_differ();
    let items = messages_from(list_of(input.at("messages"@)), 0, model, key, Seq::empty())->Ok_0;
    let first = initial_body(input.at("model"@), items);
    let one = empty_object().with("model"@, input.at("model"@));
    let two = one.with("input"@, Tree::Array(items));
    let three = two.with(
        "include"@,
        Tree::Array(seq![Tree::Text("reasoning.encrypted_content"@)]),
    );
    assert(two.at("model"@) == input.at("model"@));
    assert(three.at("model"@) == input.at("model"@));
    assert(three.at("input"@) == Tree::Array(items));
    assert(first.at("model"@) == input.at("model"@));
    assert(first.at("input"@) == Tree::Array(items));
    assert(first.at("include"@) == three.at("include"@));
    let fields = input->Object_0;
    parameters_keep(first, fields, 0, "model"@);
    parameters_keep(first, fields, 0, "input"@);
    parameters_keep(first, fields, 0, "include"@);
    let body = parameters_set(first, fields, 0)->Ok_0;
    let bounded = limited(body, input)->Ok_0;
    assert(bounded.at("model"@) == body.at("model"@));
    assert(bounded.at("input"@) == body.at("input"@));
    assert(bounded.at("include"@) == body.at("include"@));
    let reasoning = reasoning_of(input)->Ok_0.0;
    furnishing_keeps(bounded, input, reasoning, "model"@);
    furnishing_keeps(bounded, input, reasoning, "input"@);
    furnishing_keeps(bounded, input, reasoning, "include"@);
    (items, body, reasoning)
}

/// Every message of a chat request becomes the items that say what it says, behind the items of
/// the messages before it and before those of the messages after it. A tool message with a text
/// becomes the output of the call that it answers, with that very text; the tool calls of an
/// assistant message become function calls, one for one.
pub proof fn messages_are_told(input: Tree, model: Seq<char>, key: Seq<u8>, done: ConvertedView)
    requires
        chat_converted(input, model, key) == Ok::<ConvertedView, Seq<char>>(done),
    ensures
        exists|told: Seq<Seq<Tree>>| #[trigger]
            told_in_turn(list_of(input.at("messages"@)), told) && done.body.at("input"@)
                == Tree::Array(told.flatten()),
        done.body.at("model"@) == input.at("model"@),
        done.body.at("include"@) == Tree::Array(
            seq![Tree::Text("reasoning.encrypted_content"@)],
        ),
{
    let built = bodies_are_built(input, model, key, done);
    let messages = list_of(input.at("messages"@));
    let told = messages_stand_in_order(messages, 0, model, key, Seq::empty());
    assert(messages.skip(0) =~= messages);
    assert(Seq::<Tree>::empty() + told.flatten() =~= told.flatten());
    assert(told_in_turn(messages, told));
}

proof fn earlier_items_stay(
    messages: Seq<Tree>,
    from: int,
    model: Seq<char>,
    key: Seq<u8>,
    items: Seq<Tree>,
)
    requires
        0 <= from,
        messages_from(messages, from, model, key, items) is Ok,
    ensures
        ({
            let out = messages_from(messages, from, model, key, items)->Ok_0;
            &&& out.len() >= items.len()
            &&& forall|i: int| 0 <= i < items.len() ==> out[i] == items[i]
        }),
    decreases messages.len() - from,
{
    if from < messages.len() {
        let more = message_items(messages[from], model, key)->Ok_0;
        earlier_items_stay(messages, from + 1, model, key, items + more);
        let out = messages_from(messages, from, model, key, items)->Ok_0;
        assert forall|i: int| 0 <= i < items.len() implies out[i] == items[i] by {
            assert((items + more)[i] == items[i]);
        }
    }
}

proof fn texts_part(
    one: Seq<Tree>,
    two: Seq<Tree>,
    from: int,
    at: int,
    model: Seq<char>,
    key: Seq<u8>,
    items: Seq<Tree>,
)
    requires
        0 <= from <= at < one.len(),
        at < two.len(),
        forall|k: int| 0 <= k < at ==> one[k] == two[k],
        one[at].at("role"@) == two[at].at("role"@),
        one[at].at("role"@) != Tree::Text("assistant"@),
        one[at].at("content"@) is Text,
        two[at].at("content"@) is Text,
        one[at].at("content"@) != two[at].at("content"@),
        messages_from(one, from, model, key, items) is Ok,
        messages_from(two, from, model, key, items) is Ok,
    ensures
        messages_from(one, from, model, key, items) != messages_from(two, from, model, key, items),
    decreases at - from,
{
    let more = message_items(one[from], model, key)->Ok_0;
    let other = message_items(two[from], model, key)->Ok_0;
    if from < at {
        texts_part(one, two, from + 1, at, model, key, items + more);
    } else {
        one_message_is_told(one[at], model, key);
        one_message_is_told(two[at], model, key);
        earlier_items_stay(one, from + 1, model, key, items + more);
        earlier_items_stay(two, from + 1, model, key, items + other);
        let n = items.len() as int;
        assert((items + more)[n] == more[0]);
        assert((items + other)[n] == other[0]);
        assert(more[0] != other[0]);
    }
}

/// Two chat requests that agree up to a message of a tool, a user or an instructor, and differ in
/// the text of that message, become different requests.
pub proof fn texts_make_a_difference(
    one: Tree,
    two: Tree,
    at: int,
    model: Seq<char>,
    key: Seq<u8>,
    first: ConvertedView,
    second: ConvertedView,
)
    requires
        chat_converted(one, model, key) == Ok::<ConvertedView, Seq<char>>(first),
        chat_converted(two, model, key) == Ok::<ConvertedView, Seq<char>>(second),
        0 <= at < list_of(one.at("messages"@)).len(),
        at < list_of(two.at("messages"@)).len(),
        forall|k: int|
            0 <= k < at ==> list_of(one.at("messages"@))[k] == list_of(two.at("messages"@))[k],
        ({
            let here = list_of(one.at("messages"@))[at];
            let there = list_of(two.at("messages"@))[at];
            &&& here.at("role"@) == there.at("role"@)
            &&& here.at("role"@) != Tree::Text("assistant"@)
            &&& here.at("content"@) is Text
            &&& there.at("content"@) is Text
            &&& here.at("content"@) != there.at("content"@)
        }),
    ensures
        first.body != second.body,
{
    let here = bodies_are_built(one, model, key, first);
    let there = bodies_are_built(two, model, key, second);
    texts_part(
        list_of(one.at("messages"@)),
        list_of(two.at("messages"@)),
        0,
        at,
        model,
        key,
        Seq::empty(),
    );
    assert(here.0 != there.0);
}

// ---- parameters -----------------------------------------------------------------------------

/// The settings that both forms have are taken over as they are, nothing is stored unless that is
/// asked for, and whether a stream and its usage are wanted is what the request says.
pub proof fn parameters_are_kept(
    input: Tree,
    model: Seq<char>,
    key: Seq<u8>,
    done: ConvertedView,
    name: Seq<char>,
)
    requires
        chat_converted(input, model, key) == Ok::<ConvertedView, Seq<char>>(done),
        plain_members(input),
        name == "stream"@
            || name == "temperature"@
            || name == "top_p"@
            || name == "parallel_tool_calls"@
            || name == "metadata"@
            || name == "store"@
            || name == "user"@
            || name == "service_tier"@
            || name == "safety_identifier"@
            || name == "prompt_cache_key"@
            || name == "prompt_cache_retention"@
            || name == "gemini"@,
    ensures
        !(input.at(name) is Null) ==> done.body.at(name) == input.at(name),
        name == "store"@ && input.at(name) is Null ==> done.body.at(name) == Tree::Bool(false),
        name != "store"@ && input.at(name) is Null ==> done.body.at(name) is Null,
        input.at("stream"@) == Tree::Bool(true) <==> done.stream,
        input.at("stream_options"@).at("include_usage"@) == Tree::Bool(true)
            <==> done.usage_wanted,
{
    broadcast use member_laws;

    body_names_differ();
    let built = bodies_are_built(input, model, key, done);
    let first = initial_body(input.at("model"@), built.0);
    parameters_carry(first, input->Object_0, 0, name);
    let bounded = limited(built.1, input)->Ok_0;
    assert(bounded.at(name) == built.1.at(name));
    furnishing_keeps(bounded, input, built.2, name);
    if name != "store"@ {
        let one = empty_object().with("model"@, input.at("model"@));
        let two = one.with("input"@, Tree::Array(built.0));
        let three = two.with(
            "include"@,
            Tree::Array(seq![Tree::Text("reasoning.encrypted_content"@)]),
        );
        assert(empty_object().at(name) is Null);
        assert(one.at(name) is Null);
        assert(two.at(name) is Null);
        assert(three.at(name) is Null);
        assert(first.at(name) is Null);
    }
}

/// The limit on tokens is the one that the request sets, whichever of its two names it has.
pub proof fn limits_are_kept(input: Tree, model: Seq<char>, key: Seq<u8>, done: ConvertedView)
    requires
        chat_converted(input, model, key) == Ok::<ConvertedView, Seq<char>>(done),
    ensures
        ({
            let later = input.at("max_completion_tokens"@);
            let older = input.at("max_tokens"@);
            let told = done.body.at("max_output_tokens"@);
            &&& !(later is Null) ==> told == later
            &&& later is Null ==> told == older
        }),
{
    broadcast use member_laws;

    body_names_differ();
    let built = bodies_are_built(input, model, key, done);
    let first = initial_body(input.at("model"@), built.0);
    parameters_keep(first, input->Object_0, 0, "max_output_tokens"@);
    let one = empty_object().with("model"@, input.at("model"@));
    let two = one.with("input"@, Tree::Array(built.0));
    let three = two.with(
        "include"@,
        Tree::Array(seq![Tree::Text("reasoning.encrypted_content"@)]),
    );
    assert(one.at("max_output_tokens"@) is Null);
    assert(two.at("max_output_tokens"@) is Null);
    assert(three.at("max_output_tokens"@) is Null);
    assert(first.at("max_output_tokens"@) is Null);
    let bounded = limited(built.1, input)->Ok_0;
    furnishing_keeps(bounded, input, built.2, "max_output_tokens"@);
}

proof fn tools_are_taken(tools: Seq<Tree>, from: int, out: Seq<Tree>)
    requires
        0 <= from <= tools.len(),
        out.len() == from,
        forall|i: int| 0 <= i < from ==> #[trigger] tool_told(tools[i], out[i]),
        tools_from(tools, from, out) is Ok,
    ensures
        ({
            let told = tools_from(tools, from, out)->Ok_0;
            &&& told.len() == tools.len()
            &&& forall|i: int| 0 <= i < tools.len() ==> #[trigger] tool_told(tools[i], told[i])
        }),
    decreases tools.len() - from,
{
    if from < tools.len() {
        let told = tool_of(tools[from])->Ok_0;
        one_tool_is_told(tools[from]);
        let next = out.push(told);
        assert forall|i: int| 0 <= i < from + 1 implies #[trigger] tool_told(
            tools[i],
            next[i],
        ) by {
            if i < from {
                assert(tool_told(tools[i], out[i]));
            }
        }
        tools_are_taken(tools, from + 1, next);
    }
}

/// A function tool is that of a chat tool: it has all its members, and is strict only where the
/// chat tool says so.
pub open spec fn tool_told(tool: Tree, told: Tree) -> bool {
    let function = tool.at("function"@);
    &&& told.at("type"@) == Tree::Text("function"@)
    &&& told.at("strict"@) == (if function.has("strict"@) {
        function.at("strict"@)
    } else {
        Tree::Bool(false)
    })
    &&& forall|name: Seq<char>|
        name != "type"@ && name != "strict"@ ==> #[trigger] told.at(name) == function.at(name)
}

proof fn one_tool_is_told(tool: Tree)
    requires
        tool_of(tool) is Ok,
    ensures
        tool_told(tool, tool_of(tool)->Ok_0),
{
    assert("type"@ != "strict"@) by {
        reveal_strlit("type");
        reveal_strlit("strict");
        assert("type"@.len() == 4);
        assert("strict"@.len() == 6);
    }
    let function = tool.at("function"@);
    let typed = function.with("type"@, Tree::Text("function"@));
    set_then_get(function, "type"@, Tree::Text("function"@));
    set_keeps_others(function, "type"@, Tree::Text("function"@), "strict"@);
    let told = tool_of(tool)->Ok_0;
    set_then_get(typed, "strict"@, Tree::Bool(false));
    set_keeps_others(typed, "strict"@, Tree::Bool(false), "type"@);
    assert forall|name: Seq<char>| name != "type"@ && name != "strict"@ implies #[trigger] told.at(
        name,
    ) == function.at(name) by {
        set_keeps_others(function, "type"@, Tree::Text("function"@), name);
        set_keeps_others(typed, "strict"@, Tree::Bool(false), name);
    }
}

/// The tools of a chat request are taken over one for one, with their names, descriptions and
/// parameters; the choice among them is kept.
pub proof fn tools_are_kept(input: Tree, model: Seq<char>, key: Seq<u8>, done: ConvertedView)
    requires
        chat_converted(input, model, key) == Ok::<ConvertedView, Seq<char>>(done),
    ensures
        ({
            let tools = list_of(input.at("tools"@));
            let told = list_of(done.body.at("tools"@));
            let choice = input.at("tool_choice"@);
            let chosen = done.body.at("tool_choice"@);
            &&& told.len() == tools.len()
            &&& forall|i: int| 0 <= i < tools.len() ==> #[trigger] tool_told(tools[i], told[i])
            &&& choice is Null || choice is Text ==> chosen == choice
            &&& !(choice is Null) && !(choice is Text) ==> choice.at("type"@) == Tree::Text(
                "function"@,
            ) && chosen.at("type"@) == Tree::Text("function"@) && chosen.at("name"@) == choice.at(
                "function"@,
            ).at("name"@)
        }),
{
    broadcast use member_laws;

    body_names_differ();
    item_names_differ();
    let built = bodies_are_built(input, model, key, done);
    unset_members_stay_unset(input, model, key, done, "tools"@);
    unset_members_stay_unset(input, model, key, done, "tool_choice"@);
    let bounded = limited(built.1, input)->Ok_0;
    let thinking = if unset(built.2) {
        bounded
    } else {
        bounded.with("reasoning"@, built.2)
    };
    let shaped = format_set(thinking, input)->Ok_0;
    let equipped = tools_set(shaped, input)->Ok_0;
    assert(shaped.at("tools"@) == bounded.at("tools"@));
    assert(equipped.at("tool_choice"@) == bounded.at("tool_choice"@));
    assert(done.body.at("tools"@) == equipped.at("tools"@));
    if !(input.at("tools"@) is Null) {
        tools_are_taken(list_of(input.at("tools"@)), 0, Seq::empty());
    }
}

proof fn unset_members_stay_unset(
    input: Tree,
    model: Seq<char>,
    key: Seq<u8>,
    done: ConvertedView,
    name: Seq<char>,
)
    requires
        chat_converted(input, model, key) == Ok::<ConvertedView, Seq<char>>(done),
        name == "reasoning"@ || name == "text"@ || name == "tools"@ || name == "tool_choice"@,
    ensures
        ({
            let items = messages_from(
                list_of(input.at("messages"@)),
                0,
                model,
                key,
                Seq::empty(),
            )->Ok_0;
            let body = parameters_set(
                initial_body(input.at("model"@), items),
                input->Object_0,
                0,
            )->Ok_0;
            limited(body, input)->Ok_0.at(name) is Null
        }),
{
    broadcast use member_laws;

    body_names_differ();
    let built = bodies_are_built(input, model, key, done);
    let first = initial_body(input.at("model"@), built.0);
    parameters_keep(first, input->Object_0, 0, name);
    let one = empty_object().with("model"@, input.at("model"@));
    let two = one.with("input"@, Tree::Array(built.0));
    let three = two.with(
        "include"@,
        Tree::Array(seq![Tree::Text("reasoning.encrypted_content"@)]),
    );
    assert(one.at(name) is Null);
    assert(two.at(name) is Null);
    assert(three.at(name) is Null);
    assert(first.at(name) is Null);
}

/// The format of the answer is the one that is asked for; a schema comes with its name and all
/// that describes it.
pub proof fn formats_are_kept(input: Tree, model: Seq<char>, key: Seq<u8>, done: ConvertedView)
    requires
        chat_converted(input, model, key) == Ok::<ConvertedView, Seq<char>>(done),
    ensures
        ({
            let asked = input.at("response_format"@);
            let told = done.body.at("text"@).at("format"@);
            let kind = asked.at("type"@);
            &&& asked is Null ==> done.body.at("text"@) is Null
            &&& !(asked is Null) ==> kind == Tree::Text("text"@) || kind == Tree::Text(
                "json_object"@,
            ) || kind == Tree::Text("json_schema"@)
            &&& kind == Tree::Text("text"@) || kind == Tree::Text("json_object"@) ==> told == asked
            &&& kind == Tree::Text("json_schema"@) ==> told.at("type"@) == Tree::Text(
                "json_schema"@,
            ) && (forall|name: Seq<char>|
                name != "type"@ ==> #[trigger] told.at(name) == asked.at("json_schema"@).at(name))
        }),
{
    broadcast use member_laws;

    body_names_differ();
    assert("text"@ != "json_schema"@ && "json_object"@ != "json_schema"@) by {
        reveal_strlit("text");
        reveal_strlit("json_schema");
        reveal_strlit("json_object");
        assert("text"@.len() == 4);
        assert("json_schema"@.len() == 11);
        assert("json_object"@.len() == 11);
        assert("json_schema"@[5] == 's');
        assert("json_object"@[5] == 'o');
    }
    let built = bodies_are_built(input, model, key, done);
    unset_members_stay_unset(input, model, key, done, "text"@);
    let bounded = limited(built.1, input)->Ok_0;
    let thinking = if unset(built.2) {
        bounded
    } else {
        bounded.with("reasoning"@, built.2)
    };
    assert(thinking.at("text"@) is Null);
    let shaped = format_set(thinking, input)->Ok_0;
    let equipped = tools_set(shaped, input)->Ok_0;
    assert(equipped.at("text"@) == shaped.at("text"@));
    assert(done.body.at("text"@) == equipped.at("text"@));
}

// ---- reasoning ------------------------------------------------------------------------------

proof fn reasoning_names_differ()
    ensures
        "effort"@ != "summary"@,
        "effort"@ != "enabled"@,
        "effort"@ != "exclude"@,
        "summary"@ != "enabled"@,
        "summary"@ != "exclude"@,
        "enabled"@ != "exclude"@,
        "medium"@ != "none"@,
{
    reveal_strlit("effort");
    reveal_strlit("summary");
    reveal_strlit("enabled");
    reveal_strlit("exclude");
    reveal_strlit("medium");
    reveal_strlit("none");
    assert("effort"@.len() == 6);
    assert("summary"@.len() == 7);
    assert("enabled"@.len() == 7);
    assert("exclude"@.len() == 7);
    assert("medium"@.len() == 6);
    assert("none"@.len() == 4);
    assert("effort"@[0] == 'e');
    assert("medium"@[0] == 'm');
    assert("summary"@[0] == 's');
    assert("enabled"@[0] == 'e');
    assert("enabled"@[1] == 'n');
    assert("exclude"@[0] == 'e');
    assert("exclude"@[1] == 'x');
}

#[verifier::rlimit(30)]
proof fn options_carry(fields: Seq<(Seq<char>, Tree)>, from: int, settings: Tree, exclude: bool)
    requires
        0 <= from,
        plain_members(Tree::Object(fields)),
        settings is Object,
        reasoning_from(fields, from, settings, exclude) is Ok,
    ensures
        ({
            let (after, out) = reasoning_from(fields, from, settings, exclude)->Ok_0;
            let effort = find_from(fields, "effort"@, from);
            let enabled = find_from(fields, "enabled"@, from);
            &&& after is Object
            &&& after.get("summary"@) == match find_from(fields, "summary"@, from) {
                Some(value) => Some(value),
                None => settings.get("summary"@),
            }
            &&& out == match find_from(fields, "exclude"@, from) {
                Some(value) => value == Tree::Bool(true),
                None => exclude,
            }
            &&& enabled is None && effort is None ==> after.get("effort"@) == settings.get(
                "effort"@,
            )
            &&& enabled is None && effort is Some ==> after.get("effort"@) == effort
            &&& enabled is Some && effort is None ==> after.get("effort"@) == Some(
                Tree::Text(
                    if enabled == Some(Tree::Bool(true)) {
                        "medium"@
                    } else {
                        "none"@
                    },
                ),
            )
        }),
    decreases fields.len() - from,
{
    reasoning_names_differ();
    if from < fields.len() {
        let (key, value) = fields[from];
        let (next, left) = reasoning_set(settings, exclude, key, value)->Ok_0;
        none_behind(fields, key, from, from + 1);
        set_then_get(settings, key, value);
        let effort = Tree::Text(
            if value == Tree::Bool(true) {
                "medium"@
            } else {
                "none"@
            },
        );
        set_then_get(settings, "effort"@, effort);
        set_keeps_others(settings, "effort"@, effort, "summary"@);
        if key != "summary"@ {
            set_keeps_others(settings, key, value, "summary"@);
        }
        if key != "effort"@ {
            set_keeps_others(settings, key, value, "effort"@);
        }
        options_carry(fields, from + 1, next, left);
    }
}

/// The reasoning that is asked for is the one that the request names: its effort, which one
/// member sets or switches on and off, and its summary, which is asked for wherever reasoning is
/// wanted. Reasoning is left out of the answer where the request says so.
#[verifier::rlimit(30)]
pub proof fn reasoning_is_kept(input: Tree, model: Seq<char>, key: Seq<u8>, done: ConvertedView)
    requires
        chat_converted(input, model, key) == Ok::<ConvertedView, Seq<char>>(done),
        input.at("reasoning"@) is Null || plain_members(input.at("reasoning"@)),
    ensures
        ({
            let named = input.at("reasoning_effort"@);
            let options = input.at("reasoning"@);
            let told = done.body.at("reasoning"@);
            &&& !(named is Null) ==> told.at("effort"@) == named
            &&& named is Null && options.has("effort"@) && !options.has("enabled"@) ==> told.at(
                "effort"@,
            ) == options.at("effort"@)
            &&& named is Null && !options.has("effort"@) && options.at("enabled"@) == Tree::Bool(
                true,
            ) ==> told.at("effort"@) == Tree::Text("medium"@)
            &&& named is Null && !options.has("effort"@) && options.at("enabled"@) == Tree::Bool(
                false,
            ) ==> told.at("effort"@) == Tree::Text("none"@)
            &&& named is Null && !options.has("effort"@) && !options.has("enabled"@) ==> told.at(
                "effort"@,
            ) is Null
            &&& options.has("summary"@) ==> told.at("summary"@) == options.at("summary"@)
            &&& !options.has("summary"@) && told.at("effort"@) == Tree::Text("none"@) ==> told.at(
                "summary"@,
            ) is Null
            &&& !options.has("summary"@) && told.at("effort"@) != Tree::Text("none"@)
                && !done.exclude_reasoning && (input.at("include_reasoning"@) == Tree::Bool(true)
                || options is Object || !(named is Null)) ==> told.at("summary"@) == Tree::Text(
                "auto"@,
            )
            &&& options.has("exclude"@) ==> done.exclude_reasoning == (options.at("exclude"@)
                == Tree::Bool(true))
            &&& !options.has("exclude"@) ==> done.exclude_reasoning == (input.at(
                "include_reasoning"@,
            ) == Tree::Bool(false))
        }),
{
    broadcast use member_laws;

    body_names_differ();
    reasoning_names_differ();
    let built = bodies_are_built(input, model, key, done);
    unset_members_stay_unset(input, model, key, done, "reasoning"@);
    let bounded = limited(built.1, input)->Ok_0;
    let thinking = if unset(built.2) {
        bounded
    } else {
        bounded.with("reasoning"@, built.2)
    };
    let shaped = format_set(thinking, input)->Ok_0;
    let equipped = tools_set(shaped, input)->Ok_0;
    assert(shaped.at("reasoning"@) == thinking.at("reasoning"@));
    assert(equipped.at("reasoning"@) == shaped.at("reasoning"@));
    assert(done.body.at("reasoning"@) == equipped.at("reasoning"@));
    let (settings, exclude) = reasoning_options(input)->Ok_0;
    let options = input.at("reasoning"@);
    if options is Object {
        options_carry(
            options->Object_0,
            0,
            empty_object(),
            input.at("include_reasoning"@) == Tree::Bool(false),
        );
    }
    assert(empty_object().get("effort"@) is None && empty_object().get("summary"@) is None);
    let named = input.at("reasoning_effort"@);
    let set = if named is Null {
        settings
    } else {
        settings.with("effort"@, named)
    };
    assert(settings is Object);
    set_then_get(settings, "effort"@, named);
    set_keeps_others(settings, "effort"@, named, "summary"@);
    set_then_get(set, "summary"@, Tree::Text("auto"@));
    set_keeps_others(set, "summary"@, Tree::Text("auto"@), "effort"@);
    if unset(built.2) {
        assert(built.2.get("effort"@) is None && built.2.get("summary"@) is None);
    }
    assert(done.body.at("reasoning"@).at("effort"@) == built.2.at("effort"@));
    assert(done.body.at("reasoning"@).at("summary"@) == built.2.at("summary"@));
}

// ---- refusals -------------------------------------------------------------------------------

proof fn parameters_are_checked(body: Tree, fields: Seq<(Seq<char>, Tree)>, from: int, k: int)
    requires
        0 <= from <= k < fields.len(),
        parameters_set(body, fields, from) is Ok,
    ensures
        exists|other: Tree| (#[trigger] parameter_set(other, fields[k].0, fields[k].1)) is Ok,
    decreases k - from,
{
    if from < k {
        let next = parameter_set(body, fields[from].0, fields[from].1)->Ok_0;
        parameters_are_checked(next, fields, from + 1, k);
    } else {
        assert(parameter_set(body, fields[k].0, fields[k].1) is Ok);
    }
}

/// What has no equivalent is refused, and nothing else among the settings: a chat request that is
/// converted asks for one answer, without penalties, log probabilities or stop sequences, and has
/// no setting that is not known.
pub proof fn unknown_parameters_are_refused(
    input: Tree,
    model: Seq<char>,
    key: Seq<u8>,
    done: ConvertedView,
    k: int,
)
    requires
        chat_converted(input, model, key) == Ok::<ConvertedView, Seq<char>>(done),
        0 <= k < input->Object_0.len(),
    ensures
        ({
            let (name, value) = input->Object_0[k];
            ||| value is Null
            ||| name == "n"@ && value.natural() == Some(1u64)
            ||| (name == "frequency_penalty"@ || name == "presence_penalty"@)
                && crate::chat::request::zero(value)
            ||| name == "logprobs"@ && value == Tree::Bool(false)
            ||| name == "stop"@ && value == Tree::Array(Seq::empty())
            ||| name == "stream"@
            || name == "temperature"@
            || name == "top_p"@
            || name == "parallel_tool_calls"@
            || name == "metadata"@
            || name == "store"@
            || name == "user"@
            || name == "service_tier"@
            || name == "safety_identifier"@
            || name == "prompt_cache_key"@
            || name == "prompt_cache_retention"@
            || name == "gemini"@
            ||| name == "model"@
            || name == "messages"@
            || name == "stream_options"@
            || name == "reasoning_effort"@
            || name == "reasoning"@
            || name == "include_reasoning"@
            || name == "max_tokens"@
            || name == "max_completion_tokens"@
            || name == "response_format"@
            || name == "tools"@
            || name == "tool_choice"@
        }),
{
    let built = bodies_are_built(input, model, key, done);
    let first = initial_body(input.at("model"@), built.0);
    parameters_are_checked(first, input->Object_0, 0, k);
}

} // verus!

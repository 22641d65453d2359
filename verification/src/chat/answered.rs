//! What a chat completion keeps of the response that it is made from.

use vstd::prelude::*;
use crate::chat::response::{
    any_function_call, chat_call, completion_of, details_of, filled_text, gathered_message,
    told_reasoning, Gathering,
};
use crate::gemini::conversation::list_of;
use crate::gemini::parts::empty_object;
use crate::gemini::response::number;
use crate::members::{member_laws, set_keeps_others};
use crate::tree::Tree;

verus! {

// ---- what a response says -------------------------------------------------------------------

/// The function calls among output items from `from` on, in order.
pub open spec fn calls_made(output: Seq<Tree>, from: int) -> Seq<Tree>
    decreases output.len() - from,
{
    if from < 0 || from >= output.len() {
        Seq::empty()
    } else if output[from].at("type"@) == Tree::Text("function_call"@) {
        seq![output[from]] + calls_made(output, from + 1)
    } else {
        calls_made(output, from + 1)
    }
}

/// What a content part says: its text.
pub open spec fn part_said(part: Tree) -> Seq<char> {
    match part.at("text"@) {
        Tree::Text(text) => if part.at("type"@) == Tree::Text("refusal"@) {
            Seq::empty()
        } else {
            text
        },
        _ => Seq::empty(),
    }
}

/// What a content part refuses.
pub open spec fn part_refused(part: Tree) -> Seq<char> {
    match part.at("refusal"@) {
        Tree::Text(text) => if part.at("type"@) == Tree::Text("refusal"@) {
            text
        } else {
            Seq::empty()
        },
        _ => Seq::empty(),
    }
}

/// What content parts from `from` on say, or refuse.
pub open spec fn parts_said(parts: Seq<Tree>, from: int, refusal: bool) -> Seq<char>
    decreases parts.len() - from,
{
    if from < 0 || from >= parts.len() {
        Seq::empty()
    } else {
        (if refusal {
            part_refused(parts[from])
        } else {
            part_said(parts[from])
        }) + parts_said(parts, from + 1, refusal)
    }
}

/// What the messages among output items from `from` on say, or refuse.
pub open spec fn output_said(output: Seq<Tree>, from: int, refusal: bool) -> Seq<char>
    decreases output.len() - from,
{
    if from < 0 || from >= output.len() {
        Seq::empty()
    } else {
        (if output[from].at("type"@) == Tree::Text("message"@) {
            parts_said(list_of(output[from].at("content"@)), 0, refusal)
        } else {
            Seq::empty()
        }) + output_said(output, from + 1, refusal)
    }
}

/// The opaque data of the reasoning items from `from` on, in order.
pub open spec fn data_carried(output: Seq<Tree>, from: int) -> Seq<Tree>
    decreases output.len() - from,
{
    if from < 0 || from >= output.len() {
        Seq::empty()
    } else if output[from].at("type"@) == Tree::Text("reasoning"@) && output[from].at(
        "encrypted_content"@,
    ) is Text {
        seq![output[from].at("encrypted_content"@)] + data_carried(output, from + 1)
    } else {
        data_carried(output, from + 1)
    }
}

/// The opaque data among reasoning details from `from` on, in order.
pub open spec fn data_told(details: Seq<Tree>, from: int) -> Seq<Tree>
    decreases details.len() - from,
{
    if from < 0 || from >= details.len() {
        Seq::empty()
    } else if details[from].at("type"@) == Tree::Text("reasoning.encrypted"@) {
        seq![details[from].at("data"@)] + data_told(details, from + 1)
    } else {
        data_told(details, from + 1)
    }
}

// ---- the message ----------------------------------------------------------------------------

proof fn kinds_differ()
    ensures
        "message"@ != "function_call"@,
        "message"@ != "reasoning"@,
        "function_call"@ != "reasoning"@,
        "output_text"@ != "refusal"@,
        "input_text"@ != "refusal"@,
        "reasoning.summary"@ != "reasoning.encrypted"@,
        "reasoning.text"@ != "reasoning.encrypted"@,
        "reasoning.summary"@ != "reasoning.text"@,
{
    reveal_strlit("message");
    reveal_strlit("function_call");
    reveal_strlit("reasoning");
    reveal_strlit("output_text");
    reveal_strlit("input_text");
    reveal_strlit("refusal");
    reveal_strlit("reasoning.summary");
    reveal_strlit("reasoning.encrypted");
    reveal_strlit("reasoning.text");
    assert("message"@.len() == 7);
    assert("function_call"@.len() == 13);
    assert("reasoning"@.len() == 9);
    assert("output_text"@.len() == 11);
    assert("input_text"@.len() == 10);
    assert("refusal"@.len() == 7);
    assert("reasoning.summary"@.len() == 17);
    assert("reasoning.encrypted"@.len() == 19);
    assert("reasoning.text"@.len() == 14);
    assert("message"@[0] == 'm');
    assert("refusal"@[0] == 'r');
}

proof fn parts_are_gathered(all: Gathering, parts: Seq<Tree>, from: int)
    requires
        0 <= from,
        all.parts(parts, from) is Ok,
    ensures
        ({
            let after = all.parts(parts, from)->Ok_0;
            &&& after.text == all.text + parts_said(parts, from, false)
            &&& after.refusal == all.refusal + parts_said(parts, from, true)
            &&& after.calls == all.calls
            &&& after.details == all.details
        }),
    decreases parts.len() - from,
{
    kinds_differ();
    if from < parts.len() {
        let next = all.part(parts[from])->Ok_0;
        parts_are_gathered(next, parts, from + 1);
        assert(next.text == all.text + part_said(parts[from])) by {
            assert(all.text + Seq::<char>::empty() =~= all.text);
        }
        assert(next.refusal == all.refusal + part_refused(parts[from])) by {
            assert(all.refusal + Seq::<char>::empty() =~= all.refusal);
        }
        assert(all.text + part_said(parts[from]) + parts_said(parts, from + 1, false) =~= all.text
            + (part_said(parts[from]) + parts_said(parts, from + 1, false)));
        assert(all.refusal + part_refused(parts[from]) + parts_said(parts, from + 1, true)
            =~= all.refusal + (part_refused(parts[from]) + parts_said(parts, from + 1, true)));
    } else {
        assert(all.text + Seq::<char>::empty() =~= all.text);
        assert(all.refusal + Seq::<char>::empty() =~= all.refusal);
    }
}

proof fn data_joins(one: Seq<Tree>, two: Seq<Tree>, from: int)
    requires
        0 <= from,
    ensures
        from <= one.len() ==> data_told(one + two, from) == data_told(one, from) + data_told(two, 0),
        from >= one.len() ==> data_told(one + two, from) == data_told(two, from - one.len()),
    decreases one.len() + two.len() - from,
{
    let all = one + two;
    if from < one.len() {
        data_joins(one, two, from + 1);
        assert(all[from] == one[from]);
        if one[from].at("type"@) == Tree::Text("reasoning.encrypted"@) {
            assert(seq![one[from].at("data"@)] + (data_told(one, from + 1) + data_told(two, 0))
                =~= seq![one[from].at("data"@)] + data_told(one, from + 1) + data_told(two, 0));
        }
    } else {
        if from < all.len() {
            data_joins(one, two, from + 1);
            assert(all[from] == two[from - one.len()]);
        }
        if from == one.len() {
            assert(data_told(one, from) + data_told(two, 0) =~= data_told(two, 0));
        }
    }
}

proof fn details_carry(item: Tree, index: u64)
    ensures
        data_told(details_of(item, index), 0) == (if item.at("encrypted_content"@) is Text {
            seq![item.at("encrypted_content"@)]
        } else {
            Seq::empty()
        }),
{
    broadcast use member_laws;

    kinds_differ();
    assert("type"@ != "summary"@ && "type"@ != "id"@ && "type"@ != "format"@ && "type"@
        != "index"@ && "type"@ != "text"@ && "type"@ != "signature"@ && "type"@ != "data"@
        && "data"@ != "id"@ && "data"@ != "format"@ && "data"@ != "index"@) by {
        reveal_strlit("type");
        reveal_strlit("summary");
        reveal_strlit("id");
        reveal_strlit("format");
        reveal_strlit("index");
        reveal_strlit("text");
        reveal_strlit("signature");
        reveal_strlit("data");
        assert("type"@.len() == 4);
        assert("summary"@.len() == 7);
        assert("id"@.len() == 2);
        assert("format"@.len() == 6);
        assert("index"@.len() == 5);
        assert("text"@.len() == 4);
        assert("signature"@.len() == 9);
        assert("data"@.len() == 4);
        assert("type"@[0] == 't');
        assert("type"@[1] == 'y');
        assert("text"@[0] == 't');
        assert("text"@[1] == 'e');
        assert("data"@[0] == 'd');
    }
    let details = details_of(item, index);
    reveal_with_fuel(data_told, 5);
    let summed = crate::chat::response::summary_detail(item, index);
    let told = crate::chat::response::text_detail(item, index);
    let opaque = crate::chat::response::opaque_detail(item, index);
    assert(summed.at("type"@) == Tree::Text("reasoning.summary"@));
    assert(told.at("type"@) == Tree::Text("reasoning.text"@));
    assert(opaque.at("type"@) == Tree::Text("reasoning.encrypted"@));
    assert(opaque.at("data"@) == item.at("encrypted_content"@));
    assert(details.len() <= 3);
    let none = Seq::<Tree>::empty();
    assert(seq![opaque.at("data"@)] + none =~= seq![opaque.at("data"@)]);
    assert(forall|i: int|
        0 <= i < details.len() ==> details[i] == summed || details[i] == told || details[i]
            == opaque);
}

proof fn items_are_gathered(all: Gathering, output: Seq<Tree>, from: int, excluded: bool)
    requires
        0 <= from,
        all.items(output, from, excluded) is Ok,
    ensures
        ({
            let after = all.items(output, from, excluded)->Ok_0;
            let made = calls_made(output, from);
            &&& after.text == all.text + output_said(output, from, false)
            &&& after.refusal == all.refusal + output_said(output, from, true)
            &&& after.calls == all.calls + made.map_values(|item: Tree| chat_call(item))
            &&& excluded ==> after.details == all.details
            &&& !excluded ==> data_told(after.details, 0) == data_told(all.details, 0)
                + data_carried(output, from)
        }),
    decreases output.len() - from,
{
    kinds_differ();
    if from < output.len() {
        let item = output[from];
        let next = all.item(item, from, excluded)->Ok_0;
        items_are_gathered(next, output, from + 1, excluded);
        let rest = calls_made(output, from + 1);
        let shape = |item: Tree| chat_call(item);
        if item.at("type"@) == Tree::Text("message"@) {
            parts_are_gathered(all, item.at("content"@).items()->Some_0, 0);
        } else {
            assert(next.text + output_said(output, from + 1, false) =~= all.text + (
            Seq::<char>::empty() + output_said(output, from + 1, false)));
            assert(next.refusal + output_said(output, from + 1, true) =~= all.refusal + (
            Seq::<char>::empty() + output_said(output, from + 1, true)));
        }
        let said = parts_said(list_of(item.at("content"@)), 0, false);
        let refused = parts_said(list_of(item.at("content"@)), 0, true);
        assert(all.text + said + output_said(output, from + 1, false) =~= all.text + (said
            + output_said(output, from + 1, false)));
        assert(all.refusal + refused + output_said(output, from + 1, true) =~= all.refusal + (
        refused + output_said(output, from + 1, true)));
        if item.at("type"@) == Tree::Text("function_call"@) {
            assert(calls_made(output, from).map_values(shape) =~= seq![chat_call(item)]
                + rest.map_values(shape));
            assert(next.calls + rest.map_values(shape) =~= all.calls + (seq![chat_call(item)]
                + rest.map_values(shape)));
        }
        if item.at("type"@) == Tree::Text("reasoning"@) && !excluded {
            details_carry(item, from as u64);
            data_joins(all.details, details_of(item, from as u64), 0);
            assert(data_told(all.details, 0) + seq![item.at("encrypted_content"@)] + data_carried(
                output,
                from + 1,
            ) =~= data_told(all.details, 0) + (seq![item.at("encrypted_content"@)] + data_carried(
                output,
                from + 1,
            )));
            assert(data_told(all.details, 0) + Seq::<Tree>::empty() =~= data_told(all.details, 0));
        }
    } else {
        assert(all.text + Seq::<char>::empty() =~= all.text);
        assert(all.refusal + Seq::<char>::empty() =~= all.refusal);
        assert(all.calls + Seq::<Tree>::empty().map_values(|item: Tree| chat_call(item))
            =~= all.calls);
        assert(data_told(all.details, 0) + Seq::<Tree>::empty() =~= data_told(all.details, 0));
    }
}

proof fn message_names_differ()
    ensures
        "role"@ != "content"@,
        "role"@ != "refusal"@,
        "role"@ != "tool_calls"@,
        "role"@ != "annotations"@,
        "role"@ != "reasoning"@,
        "role"@ != "reasoning_details"@,
        "content"@ != "refusal"@,
        "content"@ != "tool_calls"@,
        "content"@ != "annotations"@,
        "content"@ != "reasoning"@,
        "content"@ != "reasoning_details"@,
        "refusal"@ != "tool_calls"@,
        "refusal"@ != "annotations"@,
        "refusal"@ != "reasoning"@,
        "refusal"@ != "reasoning_details"@,
        "tool_calls"@ != "annotations"@,
        "tool_calls"@ != "reasoning"@,
        "tool_calls"@ != "reasoning_details"@,
        "annotations"@ != "reasoning"@,
        "annotations"@ != "reasoning_details"@,
        "reasoning"@ != "reasoning_details"@,
{
    reveal_strlit("role");
    reveal_strlit("content");
    reveal_strlit("refusal");
    reveal_strlit("tool_calls");
    reveal_strlit("annotations");
    reveal_strlit("reasoning");
    reveal_strlit("reasoning_details");
    assert("role"@.len() == 4);
    assert("content"@.len() == 7);
    assert("refusal"@.len() == 7);
    assert("tool_calls"@.len() == 10);
    assert("annotations"@.len() == 11);
    assert("reasoning"@.len() == 9);
    assert("reasoning_details"@.len() == 17);
    assert("content"@[0] == 'c');
    assert("refusal"@[0] == 'r');
}

proof fn messages_hold(all: Gathering)
    ensures
        ({
            let message = gathered_message(all);
            &&& message.at("role"@) == Tree::Text("assistant"@)
            &&& message.at("content"@) == filled_text(all.text)
            &&& message.at("refusal"@) == filled_text(all.refusal)
            &&& list_of(message.at("tool_calls"@)) == all.calls
            &&& list_of(message.at("reasoning_details"@)) == all.details
            &&& all.details.len() == 0 ==> !message.has("reasoning"@)
        }),
{
    broadcast use member_laws;

    message_names_differ();
    let none = empty_object();
    let one = none.with("role"@, Tree::Text("assistant"@));
    let two = one.with("content"@, filled_text(all.text));
    let plain = two.with("refusal"@, filled_text(all.refusal));
    assert(none.get("tool_calls"@) is None && none.get("reasoning_details"@) is None && none.get(
        "reasoning"@,
    ) is None);
    assert(plain.at("role"@) == Tree::Text("assistant"@));
    assert(plain.at("content"@) == filled_text(all.text));
    assert(plain.at("refusal"@) == filled_text(all.refusal));
    set_keeps_others(none, "role"@, Tree::Text("assistant"@), "reasoning"@);
    set_keeps_others(one, "content"@, filled_text(all.text), "reasoning"@);
    set_keeps_others(two, "refusal"@, filled_text(all.refusal), "reasoning"@);
    assert(plain.at("tool_calls"@) is Null);
    assert(plain.at("reasoning_details"@) is Null);
    let calls = Tree::Array(all.calls);
    let notes = Tree::Array(all.annotations);
    let called = if all.calls.len() > 0 {
        plain.with("tool_calls"@, calls)
    } else {
        plain
    };
    set_keeps_others(plain, "tool_calls"@, calls, "reasoning"@);
    assert(list_of(called.at("tool_calls"@)) =~= all.calls);
    let noted = if all.annotations.len() > 0 {
        called.with("annotations"@, notes)
    } else {
        called
    };
    set_keeps_others(called, "annotations"@, notes, "reasoning"@);
    assert(noted.at("tool_calls"@) == called.at("tool_calls"@));
    assert(noted.at("content"@) == filled_text(all.text));
    assert(noted.at("refusal"@) == filled_text(all.refusal));
    assert(noted.at("role"@) == Tree::Text("assistant"@));
    assert(noted.at("reasoning_details"@) is Null);
    if all.details.len() > 0 {
        let reasoning = told_reasoning(all.details, 0, Seq::empty());
        let told = if reasoning.len() > 0 {
            noted.with("reasoning"@, Tree::Text(reasoning))
        } else {
            noted
        };
        assert(told.at("tool_calls"@) == called.at("tool_calls"@));
        assert(told.at("content"@) == filled_text(all.text));
        assert(told.at("refusal"@) == filled_text(all.refusal));
        assert(told.at("role"@) == Tree::Text("assistant"@));
    } else {
        assert(list_of(noted.at("reasoning_details"@)) =~= all.details);
    }
}

// ---- the completion -------------------------------------------------------------------------

proof fn completion_names_differ()
    ensures
        "id"@ != "object"@,
        "id"@ != "created"@,
        "id"@ != "model"@,
        "id"@ != "choices"@,
        "id"@ != "usage"@,
        "object"@ != "created"@,
        "object"@ != "model"@,
        "object"@ != "choices"@,
        "object"@ != "usage"@,
        "created"@ != "model"@,
        "created"@ != "choices"@,
        "created"@ != "usage"@,
        "model"@ != "choices"@,
        "model"@ != "usage"@,
        "choices"@ != "usage"@,
        "index"@ != "message"@,
        "index"@ != "finish_reason"@,
        "message"@ != "finish_reason"@,
        "message"@ != "logprobs"@,
        "finish_reason"@ != "logprobs"@,
        "id"@ != "type"@,
        "id"@ != "function"@,
        "type"@ != "function"@,
        "name"@ != "arguments"@,
{
    reveal_strlit("id");
    reveal_strlit("object");
    reveal_strlit("created");
    reveal_strlit("model");
    reveal_strlit("choices");
    reveal_strlit("usage");
    reveal_strlit("index");
    reveal_strlit("message");
    reveal_strlit("finish_reason");
    reveal_strlit("logprobs");
    reveal_strlit("type");
    reveal_strlit("function");
    reveal_strlit("name");
    reveal_strlit("arguments");
    assert("id"@.len() == 2);
    assert("object"@.len() == 6);
    assert("created"@.len() == 7);
    assert("model"@.len() == 5);
    assert("choices"@.len() == 7);
    assert("usage"@.len() == 5);
    assert("index"@.len() == 5);
    assert("message"@.len() == 7);
    assert("finish_reason"@.len() == 13);
    assert("logprobs"@.len() == 8);
    assert("type"@.len() == 4);
    assert("function"@.len() == 8);
    assert("name"@.len() == 4);
    assert("arguments"@.len() == 9);
    assert("created"@[0] == 'c');
    assert("created"@[1] == 'r');
    assert("choices"@[0] == 'c');
    assert("choices"@[1] == 'h');
    assert("message"@[0] == 'm');
    assert("model"@[0] == 'm');
    assert("usage"@[0] == 'u');
    assert("index"@[0] == 'i');
    assert("logprobs"@[0] == 'l');
    assert("function"@[0] == 'f');
    assert("type"@[0] == 't');
    assert("name"@[0] == 'n');
}

/// The only choice of a completion.
pub open spec fn only_choice(done: Tree) -> Tree {
    list_of(done.at("choices"@))[0]
}

proof fn completions_hold(value: Tree, model: Seq<char>, excluded: bool, done: Tree)
    requires
        completion_of(value, model, excluded) == Ok::<Tree, Seq<char>>(done),
    ensures
        list_of(done.at("choices"@)).len() == 1,
        done.at("model"@) == Tree::Text(model),
        done.at("created"@) == value.at("created_at"@),
        done.at("id"@) == Tree::Text("chatcmpl-"@ + value.at("id"@)->Text_0),
        done.at("usage"@) == crate::chat::response::chat_usage(value.at("usage"@)),
        only_choice(done).at("message"@) == crate::chat::response::message_of(
            value.at("output"@).items()->Some_0,
            excluded,
        )->Ok_0,
        only_choice(done).at("finish_reason"@) == Tree::Text(
            crate::chat::response::finish_of(value)->Ok_0,
        ),
{
    broadcast use member_laws;

    completion_names_differ();
    let message = crate::chat::response::message_of(
        value.at("output"@).items()->Some_0,
        excluded,
    )->Ok_0;
    let finish = crate::chat::response::finish_of(value)->Ok_0;
    let choice = empty_object().with("index"@, number(0)).with("message"@, message).with(
        "finish_reason"@,
        Tree::Text(finish),
    ).with("logprobs"@, Tree::Null);
    assert(choice.at("message"@) == message);
    assert(choice.at("finish_reason"@) == Tree::Text(finish));
    assert(done.at("choices"@) == Tree::Array(seq![choice]));
    assert(done.at("id"@) == Tree::Text("chatcmpl-"@ + value.at("id"@)->Text_0));
    assert(done.at("created"@) == value.at("created_at"@));
    assert(done.at("model"@) == Tree::Text(model));
}

/// The calls of a response are the tool calls of the completion, one for one and in order: each
/// under the id by which its output is told, with its own name and its own arguments.
pub proof fn calls_are_told(value: Tree, model: Seq<char>, excluded: bool, done: Tree)
    requires
        completion_of(value, model, excluded) == Ok::<Tree, Seq<char>>(done),
    ensures
        ({
            let made = calls_made(list_of(value.at("output"@)), 0);
            let told = list_of(only_choice(done).at("message"@).at("tool_calls"@));
            &&& told.len() == made.len()
            &&& forall|k: int|
                0 <= k < made.len() ==> ({
                    let call = #[trigger] told[k];
                    &&& call.at("id"@) == made[k].at("call_id"@)
                    &&& call.at("type"@) == Tree::Text("function"@)
                    &&& call.at("function"@).at("name"@) == made[k].at("name"@)
                    &&& call.at("function"@).at("arguments"@) == made[k].at("arguments"@)
                })
        }),
{
    broadcast use member_laws;

    completions_hold(value, model, excluded, done);
    completion_names_differ();
    let none = Gathering {
        text: Seq::empty(),
        refusal: Seq::empty(),
        calls: Seq::empty(),
        details: Seq::empty(),
        annotations: Seq::empty(),
    };
    let output = list_of(value.at("output"@));
    let all = none.items(output, 0, excluded)->Ok_0;
    items_are_gathered(none, output, 0, excluded);
    messages_hold(all);
    let made = calls_made(output, 0);
    let told = list_of(only_choice(done).at("message"@).at("tool_calls"@));
    assert(told =~= made.map_values(|item: Tree| chat_call(item)));
    assert forall|k: int| 0 <= k < made.len() implies ({
        let call = #[trigger] told[k];
        &&& call.at("id"@) == made[k].at("call_id"@)
        &&& call.at("type"@) == Tree::Text("function"@)
        &&& call.at("function"@).at("name"@) == made[k].at("name"@)
        &&& call.at("function"@).at("arguments"@) == made[k].at("arguments"@)
    }) by {
        assert(told[k] == chat_call(made[k]));
        let named = empty_object().with("name"@, made[k].at("name"@));
        let inner = named.with("arguments"@, made[k].at("arguments"@));
        assert(inner.at("name"@) == made[k].at("name"@));
        assert(inner.at("arguments"@) == made[k].at("arguments"@));
    }
}

/// What the messages of a response say and refuse is the content and the refusal of the
/// completion, whole and in order; a message that says nothing has no content.
pub proof fn texts_are_told(value: Tree, model: Seq<char>, excluded: bool, done: Tree)
    requires
        completion_of(value, model, excluded) == Ok::<Tree, Seq<char>>(done),
    ensures
        ({
            let output = list_of(value.at("output"@));
            let message = only_choice(done).at("message"@);
            let said = output_said(output, 0, false);
            let refused = output_said(output, 0, true);
            &&& message.at("role"@) == Tree::Text("assistant"@)
            &&& said.len() > 0 ==> message.at("content"@) == Tree::Text(said)
            &&& said.len() == 0 ==> message.at("content"@) is Null
            &&& refused.len() > 0 ==> message.at("refusal"@) == Tree::Text(refused)
            &&& refused.len() == 0 ==> message.at("refusal"@) is Null
        }),
{
    completions_hold(value, model, excluded, done);
    let none = Gathering {
        text: Seq::empty(),
        refusal: Seq::empty(),
        calls: Seq::empty(),
        details: Seq::empty(),
        annotations: Seq::empty(),
    };
    let output = list_of(value.at("output"@));
    let all = none.items(output, 0, excluded)->Ok_0;
    items_are_gathered(none, output, 0, excluded);
    messages_hold(all);
    assert(Seq::<char>::empty() + output_said(output, 0, false) =~= output_said(output, 0, false));
    assert(Seq::<char>::empty() + output_said(output, 0, true) =~= output_said(output, 0, true));
}

/// The opaque data of every reasoning item is told, in order, so that the client can send it
/// back; where reasoning is excluded, nothing is told of it.
pub proof fn reasoning_is_told(value: Tree, model: Seq<char>, excluded: bool, done: Tree)
    requires
        completion_of(value, model, excluded) == Ok::<Tree, Seq<char>>(done),
    ensures
        ({
            let output = list_of(value.at("output"@));
            let message = only_choice(done).at("message"@);
            let details = list_of(message.at("reasoning_details"@));
            &&& !excluded ==> data_told(details, 0) == data_carried(output, 0)
            &&& excluded ==> details.len() == 0 && !message.has("reasoning"@)
        }),
{
    completions_hold(value, model, excluded, done);
    let none = Gathering {
        text: Seq::empty(),
        refusal: Seq::empty(),
        calls: Seq::empty(),
        details: Seq::empty(),
        annotations: Seq::empty(),
    };
    let output = list_of(value.at("output"@));
    let all = none.items(output, 0, excluded)->Ok_0;
    items_are_gathered(none, output, 0, excluded);
    messages_hold(all);
    assert(data_told(none.details, 0) =~= Seq::empty());
    assert(data_told(none.details, 0) + data_carried(output, 0) =~= data_carried(output, 0));
}

pub(crate) proof fn calls_are_seen(output: Seq<Tree>, from: int)
    requires
        0 <= from,
    ensures
        any_function_call(output, from) == (calls_made(output, from).len() > 0),
    decreases output.len() - from,
{
    if from < output.len() {
        calls_are_seen(output, from + 1);
    }
}

/// A completion finishes for the reason for which the response ended: with the calls that it
/// makes, with the end of the text, at the limit of tokens, or at the filter. Any other response
/// gives no completion.
pub proof fn finishes_are_told(value: Tree, model: Seq<char>, excluded: bool, done: Tree)
    requires
        completion_of(value, model, excluded) == Ok::<Tree, Seq<char>>(done),
    ensures
        ({
            let status = value.at("status"@);
            let reason = value.at("incomplete_details"@).at("reason"@);
            let told = only_choice(done).at("finish_reason"@);
            let made = calls_made(list_of(value.at("output"@)), 0);
            &&& status == Tree::Text("completed"@) || status == Tree::Text("incomplete"@)
            &&& status == Tree::Text("completed"@) && made.len() > 0 ==> told == Tree::Text(
                "tool_calls"@,
            )
            &&& status == Tree::Text("completed"@) && made.len() == 0 ==> told == Tree::Text(
                "stop"@,
            )
            &&& status == Tree::Text("incomplete"@) && reason == Tree::Text("max_output_tokens"@)
                ==> told == Tree::Text("length"@)
            &&& status == Tree::Text("incomplete"@) && reason != Tree::Text("max_output_tokens"@)
                ==> reason == Tree::Text("content_filter"@) && told == Tree::Text(
                "content_filter"@,
            )
        }),
{
    completions_hold(value, model, excluded, done);
    calls_are_seen(list_of(value.at("output"@)), 0);
    assert("completed"@ != "incomplete"@ && "max_output_tokens"@ != "content_filter"@) by {
        reveal_strlit("completed");
        reveal_strlit("incomplete");
        reveal_strlit("max_output_tokens");
        reveal_strlit("content_filter");
        assert("completed"@.len() == 9);
        assert("incomplete"@.len() == 10);
        assert("max_output_tokens"@.len() == 17);
        assert("content_filter"@.len() == 14);
    }
}

/// A completion stands under the id of the response, at its time and under the name of the model
/// that was asked for, and counts its tokens: those of the prompt, those of the answer, and all.
pub proof fn counts_are_told(value: Tree, model: Seq<char>, excluded: bool, done: Tree)
    requires
        completion_of(value, model, excluded) == Ok::<Tree, Seq<char>>(done),
    ensures
        done.at("model"@) == Tree::Text(model),
        done.at("created"@) == value.at("created_at"@),
        done.at("id"@) == Tree::Text("chatcmpl-"@ + value.at("id"@)->Text_0),
        value.at("usage"@) is Null ==> done.at("usage"@) is Null,
        !(value.at("usage"@) is Null) ==> ({
            let told = done.at("usage"@);
            let usage = value.at("usage"@);
            &&& told.at("prompt_tokens"@) == usage.at("input_tokens"@)
            &&& told.at("completion_tokens"@) == usage.at("output_tokens"@)
            &&& told.at("total_tokens"@) == usage.at("total_tokens"@)
            &&& told.at("prompt_tokens_details"@) == usage.at("input_tokens_details"@)
            &&& told.at("completion_tokens_details"@) == usage.at("output_tokens_details"@)
        }),
{
    broadcast use member_laws;

    completions_hold(value, model, excluded, done);
    reveal_strlit("prompt_tokens");
    reveal_strlit("completion_tokens");
    reveal_strlit("total_tokens");
    reveal_strlit("prompt_tokens_details");
    reveal_strlit("completion_tokens_details");
    assert("prompt_tokens"@.len() == 13);
    assert("completion_tokens"@.len() == 17);
    assert("total_tokens"@.len() == 12);
    assert("prompt_tokens_details"@.len() == 21);
    assert("completion_tokens_details"@.len() == 25);
}

} // verus!

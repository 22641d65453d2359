//! What a chat stream tells of the events of a response.

use vstd::prelude::*;
use crate::chat::answered::{calls_are_seen, calls_made};
use crate::chat::response::{chat_usage, finish_of};
use crate::chat::stream::{grown, number_at, one, place_of, relay, told_detail, Chat, Relay};
use crate::gemini::conversation::list_of;
use crate::gemini::parts::empty_object;
use crate::gemini::response::number;
use crate::members::{member_laws, set_then_at};
use crate::tree::Tree;

verus! {

/// What a chunk tells: the delta of its only choice.
pub open spec fn delta_told(chunk: Tree) -> Tree {
    list_of(chunk.at("choices"@))[0].at("delta"@)
}

/// Why the stream is over, where a chunk tells it.
pub open spec fn finish_told(chunk: Tree) -> Tree {
    list_of(chunk.at("choices"@))[0].at("finish_reason"@)
}

/// A chunk of a chat stream: in its name, at its time and of its model.
pub open spec fn chunk_of(chat: Chat, chunk: Tree) -> bool {
    &&& chunk.at("id"@) == Tree::Text(chat.id)
    &&& chunk.at("object"@) == Tree::Text("chat.completion.chunk"@)
    &&& chunk.at("created"@).natural() == Some(chat.created)
    &&& chunk.at("model"@) == Tree::Text(chat.model)
    &&& list_of(chunk.at("choices"@)).len() == 1
}

proof fn chunk_names_differ()
    ensures
        "id"@ != "object"@,
        "id"@ != "created"@,
        "id"@ != "model"@,
        "id"@ != "choices"@,
        "id"@ != "usage"@,
        "object"@ != "created"@,
        "object"@ != "model"@,
        "object"@ != "choices"@,
        "object"@ != "usage"@,
        "created"@ != "model"@,
        "created"@ != "choices"@,
        "created"@ != "usage"@,
        "model"@ != "choices"@,
        "model"@ != "usage"@,
        "choices"@ != "usage"@,
{
    reveal_strlit("id");
    reveal_strlit("object");
    reveal_strlit("created");
    reveal_strlit("model");
    reveal_strlit("choices");
    reveal_strlit("usage");
    assert("id"@.len() == 2);
    assert("object"@.len() == 6);
    assert("created"@.len() == 7);
    assert("model"@.len() == 5);
    assert("choices"@.len() == 7);
    assert("usage"@.len() == 5);
    assert("created"@[1] == 'r');
    assert("choices"@[1] == 'h');
    assert("model"@[0] == 'm');
    assert("usage"@[0] == 'u');
}

proof fn choice_names_differ()
    ensures
        "index"@ != "delta"@,
        "index"@ != "finish_reason"@,
        "index"@ != "logprobs"@,
        "delta"@ != "finish_reason"@,
        "delta"@ != "logprobs"@,
        "finish_reason"@ != "logprobs"@,
{
    reveal_strlit("index");
    reveal_strlit("delta");
    reveal_strlit("finish_reason");
    reveal_strlit("logprobs");
    assert("index"@.len() == 5);
    assert("delta"@.len() == 5);
    assert("finish_reason"@.len() == 13);
    assert("logprobs"@.len() == 8);
    assert("index"@[0] == 'i');
    assert("delta"@[0] == 'd');
}

proof fn event_names_differ()
    ensures
        "response.output_item.added"@ != "response.output_item.done"@,
        "response.output_item.added"@ != "response.output_text.delta"@,
        "response.output_item.added"@ != "response.refusal.delta"@,
        "response.output_item.added"@ != "response.reasoning_summary_text.delta"@,
        "response.output_item.added"@ != "response.reasoning_text.delta"@,
        "response.output_item.added"@ != "response.function_call_arguments.delta"@,
        "response.output_item.added"@ != "response.completed"@,
        "response.output_item.added"@ != "response.incomplete"@,
        "response.output_item.added"@ != "error"@,
        "response.output_item.added"@ != "response.failed"@,
        "response.output_item.done"@ != "response.output_text.delta"@,
        "response.output_item.done"@ != "response.refusal.delta"@,
        "response.output_item.done"@ != "response.reasoning_summary_text.delta"@,
        "response.output_item.done"@ != "response.reasoning_text.delta"@,
        "response.output_item.done"@ != "response.function_call_arguments.delta"@,
        "response.output_item.done"@ != "response.completed"@,
        "response.output_item.done"@ != "response.incomplete"@,
        "response.output_item.done"@ != "error"@,
        "response.output_item.done"@ != "response.failed"@,
        "response.output_text.delta"@ != "response.refusal.delta"@,
        "response.output_text.delta"@ != "response.reasoning_summary_text.delta"@,
        "response.output_text.delta"@ != "response.reasoning_text.delta"@,
        "response.output_text.delta"@ != "response.function_call_arguments.delta"@,
        "response.output_text.delta"@ != "response.completed"@,
        "response.output_text.delta"@ != "response.incomplete"@,
        "response.output_text.delta"@ != "error"@,
        "response.output_text.delta"@ != "response.failed"@,
        "response.refusal.delta"@ != "response.reasoning_summary_text.delta"@,
        "response.refusal.delta"@ != "response.reasoning_text.delta"@,
        "response.refusal.delta"@ != "response.function_call_arguments.delta"@,
        "response.refusal.delta"@ != "response.completed"@,
        "response.refusal.delta"@ != "response.incomplete"@,
        "response.refusal.delta"@ != "error"@,
        "response.refusal.delta"@ != "response.failed"@,
        "response.reasoning_summary_text.delta"@ != "response.reasoning_text.delta"@,
        "response.reasoning_summary_text.delta"@ != "response.function_call_arguments.delta"@,
        "response.reasoning_summary_text.delta"@ != "response.completed"@,
        "response.reasoning_summary_text.delta"@ != "response.incomplete"@,
        "response.reasoning_summary_text.delta"@ != "error"@,
        "response.reasoning_summary_text.delta"@ != "response.failed"@,
        "response.reasoning_text.delta"@ != "response.function_call_arguments.delta"@,
        "response.reasoning_text.delta"@ != "response.completed"@,
        "response.reasoning_text.delta"@ != "response.incomplete"@,
        "response.reasoning_text.delta"@ != "error"@,
        "response.reasoning_text.delta"@ != "response.failed"@,
        "response.function_call_arguments.delta"@ != "response.completed"@,
        "response.function_call_arguments.delta"@ != "response.incomplete"@,
        "response.function_call_arguments.delta"@ != "error"@,
        "response.function_call_arguments.delta"@ != "response.failed"@,
        "response.completed"@ != "response.incomplete"@,
        "response.completed"@ != "error"@,
        "response.completed"@ != "response.failed"@,
        "response.incomplete"@ != "error"@,
        "response.incomplete"@ != "response.failed"@,
        "error"@ != "response.failed"@,
{
    reveal_strlit("response.output_item.added");
    reveal_strlit("response.output_item.done");
    reveal_strlit("response.output_text.delta");
    reveal_strlit("response.refusal.delta");
    reveal_strlit("response.reasoning_summary_text.delta");
    reveal_strlit("response.reasoning_text.delta");
    reveal_strlit("response.function_call_arguments.delta");
    reveal_strlit("response.completed");
    reveal_strlit("response.incomplete");
    reveal_strlit("error");
    reveal_strlit("response.failed");
    assert("response.output_item.added"@.len() == 26);
    assert("response.output_item.done"@.len() == 25);
    assert("response.output_text.delta"@.len() == 26);
    assert("response.refusal.delta"@.len() == 22);
    assert("response.reasoning_summary_text.delta"@.len() == 37);
    assert("response.reasoning_text.delta"@.len() == 29);
    assert("response.function_call_arguments.delta"@.len() == 38);
    assert("response.completed"@.len() == 18);
    assert("response.incomplete"@.len() == 19);
    assert("error"@.len() == 5);
    assert("response.failed"@.len() == 15);
    assert("response.output_item.added"@[16] == 'i');
    assert("response.output_text.delta"@[16] == 't');
}

proof fn chunks_hold(chat: Chat, delta: Tree, finish: Tree)
    ensures
        chunk_of(chat, chat.chunk(delta, finish)),
        delta_told(chat.chunk(delta, finish)) == delta,
        finish_told(chat.chunk(delta, finish)) == finish,
        chat.chunk(delta, finish) is Object,
{
    broadcast use member_laws;

    chunk_names_differ();
    choice_names_differ();
    let choice = empty_object().with("index"@, number(0)).with("delta"@, delta).with(
        "finish_reason"@,
        finish,
    ).with("logprobs"@, Tree::Null);
    assert(choice.at("delta"@) == delta);
    assert(choice.at("finish_reason"@) == finish);
    let a = empty_object().with("id"@, Tree::Text(chat.id));
    let b = a.with("object"@, Tree::Text("chat.completion.chunk"@));
    let c = b.with("created"@, number(chat.created));
    let d = c.with("model"@, Tree::Text(chat.model));
    let e = d.with("choices"@, one(choice));
    assert(c.at("id"@) == Tree::Text(chat.id));
    assert(c.at("object"@) == Tree::Text("chat.completion.chunk"@));
    assert(e.at("id"@) == Tree::Text(chat.id));
    assert(e.at("object"@) == Tree::Text("chat.completion.chunk"@));
    assert(e.at("created"@) == number(chat.created));
    assert(e.at("model"@) == Tree::Text(chat.model));
    assert(e.at("choices"@) == one(choice));
    assert(chat.chunk(delta, finish).at("choices"@) == one(choice));
}

proof fn sending_holds(turn: Relay, bytes: nat, delta: Tree)
    requires
        turn.sent(bytes, delta).fault is None,
    ensures
        ({
            let after = turn.sent(bytes, delta);
            &&& after.chunks.len() == turn.chunks.len() + 1
            &&& after.chunks.drop_last() == turn.chunks
            &&& chunk_of(turn.chat, after.chunks.last())
            &&& delta_told(after.chunks.last()) == delta
            &&& finish_told(after.chunks.last()) is Null
        }),
{
    let total = if turn.chat.retained + bytes > usize::MAX {
        usize::MAX as nat
    } else {
        turn.chat.retained + bytes
    };
    let kept = Relay { chat: Chat { retained: total, ..turn.chat }, ..turn };
    chunks_hold(kept.chat, delta, Tree::Null);
    let after = turn.sent(bytes, delta);
    assert(after.chunks.drop_last() =~= turn.chunks);
}

/// A delta of the text is told as content, one of a refusal as a refusal; nothing else is told
/// with it.
pub proof fn texts_are_relayed(chat: Chat, event: Tree)
    requires
        chat.started,
        !chat.ended,
        event.at("type"@) == Tree::Text("response.output_text.delta"@) || event.at("type"@)
            == Tree::Text("response.refusal.delta"@),
        event.at("delta"@) is Text,
        event.at("delta"@)->Text_0.len() > 0,
        chat.event(event).fault is None,
    ensures
        ({
            let chunks = chat.event(event).chunks;
            &&& chunks.len() == 1
            &&& chunk_of(chat, chunks[0])
            &&& event.at("type"@) == Tree::Text("response.output_text.delta"@) ==> delta_told(
                chunks[0],
            ).at("content"@) == event.at("delta"@)
            &&& event.at("type"@) == Tree::Text("response.refusal.delta"@) ==> delta_told(
                chunks[0],
            ).at("refusal"@) == event.at("delta"@)
            &&& finish_told(chunks[0]) is Null
            &&& !chat.event(event).chat.ended
        }),
{
    broadcast use set_then_at;

    event_names_differ();
    let start = relay(chat, Seq::empty());
    let refusal = event.at("type"@) == Tree::Text("response.refusal.delta"@);
    let delta = event.at("delta"@)->Text_0;
    let slot = (
        number_at(event, "output_index"@),
        number_at(event, "content_index"@),
        refusal,
    );
    let told = empty_object().with(
        if refusal {
            "refusal"@
        } else {
            "content"@
        },
        Tree::Text(delta),
    );
    let noted = Relay { chat: Chat { texts: grown(chat.texts, slot, delta), ..chat }, ..start };
    let bytes = vstd::utf8::encode_utf8(delta).len();
    assert(chat.event(event) == start.text(slot, delta, false));
    assert(chat.event(event) == noted.sent(bytes, told));
    sending_holds(noted, bytes, told);
}

/// A delta of the arguments of a call is told as one of the tool call that stands at the place of
/// the call.
pub proof fn arguments_are_relayed(chat: Chat, event: Tree)
    requires
        chat.started,
        !chat.ended,
        event.at("type"@) == Tree::Text("response.function_call_arguments.delta"@),
        event.at("delta"@) is Text,
        event.at("delta"@)->Text_0.len() > 0,
        chat.event(event).fault is None,
    ensures
        ({
            let chunks = chat.event(event).chunks;
            let call = list_of(delta_told(chunks[0]).at("tool_calls"@))[0];
            let place = place_of(
                chat.tools,
                (number_at(event, "output_index"@), 0u64, false),
                0,
            );
            &&& chunks.len() == 1
            &&& chunk_of(chat, chunks[0])
            &&& place is Some
            &&& call.at("index"@) == number(place->Some_0 as u64)
            &&& call.at("function"@).at("arguments"@) == event.at("delta"@)
            &&& finish_told(chunks[0]) is Null
        }),
{
    broadcast use member_laws;

    event_names_differ();
    assert("index"@ != "function"@) by {
        reveal_strlit("index");
        reveal_strlit("function");
        assert("index"@.len() == 5);
        assert("function"@.len() == 8);
    }
    let start = relay(chat, Seq::empty());
    let index = number_at(event, "output_index"@);
    let slot = (index, 0u64, false);
    let delta = event.at("delta"@)->Text_0;
    let place = place_of(chat.tools, slot, 0)->Some_0;
    let inner = empty_object().with("arguments"@, Tree::Text(delta));
    let call = empty_object().with("index"@, number(place as u64)).with("function"@, inner);
    let told = empty_object().with("tool_calls"@, one(call));
    assert(call.at("index"@) == number(place as u64));
    assert(call.at("function"@) == inner);
    assert(told.at("tool_calls"@) == one(call));
    let noted = Relay { chat: Chat { tools: grown(chat.tools, slot, delta), ..chat }, ..start };
    let bytes = vstd::utf8::encode_utf8(delta).len();
    assert(chat.event(event) == start.arguments(index, delta, false));
    assert(chat.event(event) == noted.sent(bytes, told));
    sending_holds(noted, bytes, told);
}

/// A call that begins is told once, under its own id and name, at the next place among the calls.
pub proof fn calls_are_relayed(chat: Chat, event: Tree)
    requires
        chat.started,
        !chat.ended,
        event.at("type"@) == Tree::Text("response.output_item.added"@),
        event.at("item"@).at("type"@) == Tree::Text("function_call"@),
        chat.event(event).fault is None,
    ensures
        ({
            let slot = (number_at(event, "output_index"@), 0u64, false);
            let known = place_of(chat.tools, slot, 0) is Some;
            let item = event.at("item"@);
            let chunks = chat.event(event).chunks;
            let call = list_of(delta_told(chunks[0]).at("tool_calls"@))[0];
            &&& known ==> chunks.len() == 0
            &&& !known ==> {
                &&& chunks.len() == 1
                &&& chunk_of(chat, chunks[0])
                &&& call.at("index"@) == number(chat.tools.len() as u64)
                &&& call.at("id"@) == item.at("call_id"@)
                &&& call.at("type"@) == Tree::Text("function"@)
                &&& call.at("function"@).at("name"@) == item.at("name"@)
                &&& call.at("function"@).at("arguments"@) == Tree::Text(""@)
            }
        }),
{
    broadcast use member_laws;

    event_names_differ();
    assert("index"@ != "function"@ && "index"@ != "id"@ && "index"@ != "type"@ && "id"@ != "type"@
        && "id"@ != "function"@ && "type"@ != "function"@ && "name"@ != "arguments"@) by {
        reveal_strlit("index");
        reveal_strlit("function");
        reveal_strlit("id");
        reveal_strlit("type");
        reveal_strlit("name");
        reveal_strlit("arguments");
        assert("index"@.len() == 5);
        assert("function"@.len() == 8);
        assert("id"@.len() == 2);
        assert("type"@.len() == 4);
        assert("name"@.len() == 4);
        assert("arguments"@.len() == 9);
        assert("type"@[0] == 't');
        assert("name"@[0] == 'n');
    }
    let start = relay(chat, Seq::empty());
    let index = number_at(event, "output_index"@);
    let slot = (index, 0u64, false);
    let item = event.at("item"@);
    assert(chat.event(event) == start.tool(index, item, false));
    if place_of(chat.tools, slot, 0) is None {
        let inner = empty_object().with("name"@, item.at("name"@)).with(
            "arguments"@,
            Tree::Text(""@),
        );
        assert(inner.at("name"@) == item.at("name"@));
        let a = empty_object().with("index"@, number(chat.tools.len() as u64));
        let b = a.with("id"@, item.at("call_id"@));
        let c = b.with("type"@, Tree::Text("function"@));
        let call = c.with("function"@, inner);
        assert(c.at("index"@) == number(chat.tools.len() as u64));
        assert(c.at("id"@) == item.at("call_id"@));
        assert(call.at("index"@) == number(chat.tools.len() as u64));
        assert(call.at("id"@) == item.at("call_id"@));
        assert(call.at("type"@) == Tree::Text("function"@));
        let told = empty_object().with("tool_calls"@, one(call));
        assert(told.at("tool_calls"@) == one(call));
        let noted = Relay {
            chat: Chat { tools: chat.tools.push((slot, Seq::empty())), ..chat },
            ..start
        };
        let bytes = vstd::utf8::encode_utf8(crate::exchange::written(item)).len();
        assert(chat.event(event) == noted.sent(bytes, told));
        sending_holds(noted, bytes, told);
    }
}

/// A delta of reasoning is told as reasoning, and as a detail that can be sent back; where
/// reasoning is left out, nothing is told of it.
pub proof fn reasoning_is_relayed(chat: Chat, event: Tree)
    requires
        chat.started,
        !chat.ended,
        event.at("type"@) == Tree::Text("response.reasoning_summary_text.delta"@) || event.at(
            "type"@,
        ) == Tree::Text("response.reasoning_text.delta"@),
        event.at("delta"@) is Text,
        event.at("delta"@)->Text_0.len() > 0,
        chat.event(event).fault is None,
    ensures
        ({
            let raw = event.at("type"@) == Tree::Text("response.reasoning_text.delta"@);
            let chunks = chat.event(event).chunks;
            let detail = list_of(delta_told(chunks[0]).at("reasoning_details"@))[0];
            &&& chat.exclude_reasoning ==> chunks.len() == 0
            &&& !chat.exclude_reasoning ==> {
                &&& chunks.len() == 1
                &&& chunk_of(chat, chunks[0])
                &&& delta_told(chunks[0]).at("reasoning"@) == event.at("delta"@)
                &&& detail.at("id"@) == event.at("item_id"@)
                &&& raw ==> detail.at("type"@) == Tree::Text("reasoning.text"@) && detail.at(
                    "text"@,
                ) == event.at("delta"@)
                &&& !raw ==> detail.at("type"@) == Tree::Text("reasoning.summary"@) && detail.at(
                    "summary"@,
                ) == event.at("delta"@)
                &&& chat.gemini ==> detail.at("format"@) == Tree::Text("google-gemini-v1"@)
                &&& !chat.gemini ==> detail.at("format"@) == Tree::Text("openai-responses-v1"@)
            }
        }),
{
    broadcast use member_laws;

    event_names_differ();
    detail_names_differ();
    let start = relay(chat, Seq::empty());
    let raw = event.at("type"@) == Tree::Text("response.reasoning_text.delta"@);
    let index = number_at(event, "output_index"@);
    let slot = (index, 0u64, raw);
    let delta = event.at("delta"@)->Text_0;
    let id = event.at("item_id"@);
    assert(chat.event(event) == start.summary(index, id, delta, false, raw));
    if !chat.exclude_reasoning {
        let detail = told_detail(index, id, delta, raw, chat.gemini);
        let told = empty_object().with("reasoning"@, Tree::Text(delta)).with(
            "reasoning_details"@,
            one(detail),
        );
        assert(told.at("reasoning"@) == Tree::Text(delta));
        assert(told.at("reasoning_details"@) == one(detail));
        let noted = Relay {
            chat: Chat { summaries: grown(chat.summaries, slot, delta), ..chat },
            ..start
        };
        let bytes = vstd::utf8::encode_utf8(delta).len();
        assert(chat.event(event) == noted.sent(bytes, told));
        sending_holds(noted, bytes, told);
    }
}

proof fn detail_names_differ()
    ensures
        "type"@ != "text"@,
        "type"@ != "summary"@,
        "type"@ != "id"@,
        "type"@ != "format"@,
        "type"@ != "index"@,
        "type"@ != "reasoning"@,
        "type"@ != "reasoning_details"@,
        "text"@ != "summary"@,
        "text"@ != "id"@,
        "text"@ != "format"@,
        "text"@ != "index"@,
        "text"@ != "reasoning"@,
        "text"@ != "reasoning_details"@,
        "summary"@ != "id"@,
        "summary"@ != "format"@,
        "summary"@ != "index"@,
        "summary"@ != "reasoning"@,
        "summary"@ != "reasoning_details"@,
        "id"@ != "format"@,
        "id"@ != "index"@,
        "id"@ != "reasoning"@,
        "id"@ != "reasoning_details"@,
        "format"@ != "index"@,
        "format"@ != "reasoning"@,
        "format"@ != "reasoning_details"@,
        "index"@ != "reasoning"@,
        "index"@ != "reasoning_details"@,
        "reasoning"@ != "reasoning_details"@,
{
    reveal_strlit("type");
    reveal_strlit("text");
    reveal_strlit("summary");
    reveal_strlit("id");
    reveal_strlit("format");
    reveal_strlit("index");
    reveal_strlit("reasoning");
    reveal_strlit("reasoning_details");
    assert("type"@.len() == 4);
    assert("text"@.len() == 4);
    assert("summary"@.len() == 7);
    assert("id"@.len() == 2);
    assert("format"@.len() == 6);
    assert("index"@.len() == 5);
    assert("reasoning"@.len() == 9);
    assert("reasoning_details"@.len() == 17);
    assert("type"@[1] == 'y');
    assert("text"@[1] == 'e');
}

/// A stream begins with the role, under the id of the response that it tells.
pub proof fn beginnings_are_relayed(chat: Chat, event: Tree)
    requires
        !chat.started,
        !chat.ended,
        event.at("type"@) == Tree::Text("response.created"@),
    ensures
        ({
            let after = chat.event(event);
            let response = event.at("response"@);
            &&& after.fault is None
            &&& after.chat.started
            &&& after.chunks.len() == 1
            &&& chunk_of(after.chat, after.chunks[0])
            &&& delta_told(after.chunks[0]).at("role"@) == Tree::Text("assistant"@)
            &&& response.at("id"@) matches Tree::Text(id) ==> after.chat.id == "chatcmpl-"@ + id
            &&& response.at("created_at"@).natural() matches Some(time) ==> after.chat.created
                == time
            &&& after.chat.model == chat.model
        }),
{
    broadcast use member_laws;

    reveal_strlit("response.created");
    reveal_strlit("response.output_item.added");
    reveal_strlit("response.output_item.done");
    reveal_strlit("response.output_text.delta");
    reveal_strlit("response.refusal.delta");
    reveal_strlit("response.reasoning_summary_text.delta");
    reveal_strlit("response.reasoning_text.delta");
    reveal_strlit("response.function_call_arguments.delta");
    reveal_strlit("response.completed");
    reveal_strlit("response.incomplete");
    reveal_strlit("error");
    reveal_strlit("response.failed");
    assert("response.created"@.len() == 16);
    assert("response.output_item.added"@.len() == 26);
    assert("response.output_item.done"@.len() == 25);
    assert("response.output_text.delta"@.len() == 26);
    assert("response.refusal.delta"@.len() == 22);
    assert("response.reasoning_summary_text.delta"@.len() == 37);
    assert("response.reasoning_text.delta"@.len() == 29);
    assert("response.function_call_arguments.delta"@.len() == 38);
    assert("response.completed"@.len() == 18);
    assert("response.incomplete"@.len() == 19);
    assert("error"@.len() == 5);
    assert("response.failed"@.len() == 15);
    assert("response.output_item.added"@[16] == 'i');
    assert("response.output_text.delta"@[16] == 't');
    assert("role"@ != "content"@) by {
        reveal_strlit("role");
        reveal_strlit("content");
        assert("role"@.len() == 4);
        assert("content"@.len() == 7);
    }
    let response = event.at("response"@);
    if !event.has("response"@) {
        assert(response is Null);
        assert(Tree::Null.at("id"@) is Null);
        assert(Tree::Null.at("created_at"@) is Null);
    }
    let after = chat.event(event);
    let told = empty_object().with("role"@, Tree::Text("assistant"@)).with(
        "content"@,
        Tree::Text(""@),
    );
    assert(told.at("role"@) == Tree::Text("assistant"@));
    chunks_hold(after.chat, told, Tree::Null);
}

/// A stream that fails tells the error and is over.
pub proof fn failures_are_relayed(chat: Chat, event: Tree)
    requires
        !chat.ended,
        event.at("type"@) == Tree::Text("error"@) || event.at("type"@) == Tree::Text(
            "response.failed"@,
        ),
    ensures
        ({
            let after = chat.event(event);
            let inner = event.at("response"@);
            &&& after.fault is None
            &&& after.chat.ended
            &&& after.chunks.len() == 1
            &&& event.has("error"@) ==> after.chunks[0].at("error"@) == event.at("error"@)
            &&& !event.has("error"@) && inner.has("error"@) ==> after.chunks[0].at("error"@)
                == inner.at("error"@)
        }),
{
    broadcast use set_then_at;

}

/// A stream that ends tells why, as the completion would: with the calls that were made, at the
/// end of the text, at the limit of tokens, or at the filter. Where it is wanted, the usage
/// follows.
pub proof fn ends_are_relayed(chat: Chat, event: Tree)
    requires
        chat.started,
        !chat.ended,
        event.at("type"@) == Tree::Text("response.completed"@) || event.at("type"@) == Tree::Text(
            "response.incomplete"@,
        ),
        chat.event(event).fault is None,
    ensures
        ({
            let after = chat.event(event);
            let response = event.at("response"@);
            let last = after.chunks.len() - (if chat.usage_wanted {
                2int
            } else {
                1int
            });
            let finish = finish_told(after.chunks[last]);
            let made = calls_made(list_of(response.at("output"@)), 0);
            let status = response.at("status"@);
            let reason = response.at("incomplete_details"@).at("reason"@);
            let usage = after.chunks.last().at("usage"@);
            &&& after.chat.ended
            &&& last >= 0
            &&& status == Tree::Text("completed"@) && made.len() > 0 ==> finish == Tree::Text(
                "tool_calls"@,
            )
            &&& status == Tree::Text("completed"@) && made.len() == 0 ==> finish == Tree::Text(
                "stop"@,
            )
            &&& status == Tree::Text("incomplete"@) && reason == Tree::Text("max_output_tokens"@)
                ==> finish == Tree::Text("length"@)
            &&& status == Tree::Text("incomplete"@) && reason == Tree::Text("content_filter"@)
                ==> finish == Tree::Text("content_filter"@)
            &&& chat.usage_wanted && !(response.at("usage"@) is Null) ==> usage.at(
                "prompt_tokens"@,
            ) == response.at("usage"@).at("input_tokens"@) && usage.at("completion_tokens"@)
                == response.at("usage"@).at("output_tokens"@) && usage.at("total_tokens"@)
                == response.at("usage"@).at("total_tokens"@)
        }),
{
    broadcast use member_laws;

    event_names_differ();
    assert("completed"@ != "incomplete"@ && "max_output_tokens"@ != "content_filter"@) by {
        reveal_strlit("completed");
        reveal_strlit("incomplete");
        reveal_strlit("max_output_tokens");
        reveal_strlit("content_filter");
        assert("completed"@.len() == 9);
        assert("incomplete"@.len() == 10);
        assert("max_output_tokens"@.len() == 17);
        assert("content_filter"@.len() == 14);
    }
    chunk_names_differ();
    reveal_strlit("prompt_tokens");
    reveal_strlit("completion_tokens");
    reveal_strlit("total_tokens");
    reveal_strlit("prompt_tokens_details");
    reveal_strlit("completion_tokens_details");
    assert("prompt_tokens"@.len() == 13);
    assert("completion_tokens"@.len() == 17);
    assert("total_tokens"@.len() == 12);
    assert("prompt_tokens_details"@.len() == 21);
    assert("completion_tokens_details"@.len() == 25);
    let start = relay(chat, Seq::empty());
    let response = event.at("response"@);
    let output = list_of(response.at("output"@));
    assert(chat.event(event) == start.response(response));
    let listed = start.items(output, 0);
    calls_are_seen(output, 0);
    let finish = finish_of(response)->Ok_0;
    chunks_hold(listed.chat, empty_object(), Tree::Text(finish));
    chunks_hold(listed.chat, empty_object(), Tree::Null);
    let ended = listed.chat.chunk(empty_object(), Tree::Null);
    let bare = ended.with("choices"@, Tree::Array(Seq::empty()));
    assert(bare is Object);
    let told = bare.with("usage"@, chat_usage(response.at("usage"@)));
    assert(told.at("usage"@) == chat_usage(response.at("usage"@)));
}

} // verus!

//! What a whole chat stream tells: the deltas of each text and of each call, put together.

use vstd::prelude::*;
use crate::chat::response::{chat_usage, finish_of, opaque_detail};
use crate::chat::stream::{
    addition, grown, grown_is_held, held, one, place_is_first, place_of, first_is_place, relay,
    Chat, Relay, Slot,
};
use crate::gemini::conversation::list_of;
use crate::gemini::flow::first_of;
use crate::gemini::parts::empty_object;
use crate::gemini::response::number;
use crate::members::member_laws;
use crate::tree::Tree;

verus! {

// ---- the stream -----------------------------------------------------------------------------

/// The state after the first `count` events, with all the chunks that were sent for them.
pub open spec fn ran(chat: Chat, events: Seq<Tree>, count: int) -> Relay
    decreases count,
{
    if count <= 0 {
        relay(chat, Seq::empty())
    } else {
        let before = ran(chat, events, count - 1);
        if before.fault is Some {
            before
        } else {
            let step = before.chat.event(events[count - 1]);
            Relay { chunks: before.chunks + step.chunks, ..step }
        }
    }
}

// ---- what chunks hold -----------------------------------------------------------------------

/// The choice of a chunk.
pub open spec fn choice_of(chunk: Tree) -> Tree {
    first_of(list_of(chunk.at("choices"@)))
}

/// The delta of a chunk.
pub open spec fn delta_in(chunk: Tree) -> Tree {
    choice_of(chunk).at("delta"@)
}

/// The text of a delta, or of a refusal.
pub open spec fn text_in(chunk: Tree, refusal: bool) -> Seq<char> {
    match delta_in(chunk).at(
        if refusal {
            "refusal"@
        } else {
            "content"@
        },
    ) {
        Tree::Text(text) => text,
        _ => Seq::empty(),
    }
}

/// The piece of a call's arguments in a delta.
pub open spec fn arguments_in(chunk: Tree) -> Seq<char> {
    match first_of(list_of(delta_in(chunk).at("tool_calls"@))).at("function"@).at("arguments"@) {
        Tree::Text(text) => text,
        _ => Seq::empty(),
    }
}

/// What a chunk is sent for.
pub ghost enum Label {
    /// It opens the stream.
    Role,
    /// A piece of a message's text.
    Text(Slot),
    /// A piece of a call's arguments.
    Arguments(Slot),
    /// It tells why the stream is over.
    Finish,
    /// Reasoning, the identity of a call, or the usage.
    Other,
}

/// Whether a chunk is what its label says: the first alone names the role, and the last alone
/// has a reason to finish.
pub open spec fn bears(chunk: Tree, label: Label) -> bool {
    &&& delta_in(chunk).at("role"@) == (if label is Role {
        Tree::Text("assistant"@)
    } else {
        Tree::Null
    })
    &&& choice_of(chunk).at("finish_reason"@) is Text == (label is Finish)
}

/// The deltas that were sent for a text, put together.
pub open spec fn told(chunks: Seq<Tree>, labels: Seq<Label>, slot: Slot) -> Seq<char>
    decreases labels.len(),
{
    if labels.len() == 0 {
        Seq::empty()
    } else {
        told(chunks, labels.drop_last(), slot) + (if labels.last() == Label::Text(slot) {
            text_in(chunks[labels.len() - 1], slot.2)
        } else {
            Seq::empty()
        })
    }
}

/// The deltas that were sent for the arguments of a call, put together.
pub open spec fn argued(chunks: Seq<Tree>, labels: Seq<Label>, slot: Slot) -> Seq<char>
    decreases labels.len(),
{
    if labels.len() == 0 {
        Seq::empty()
    } else {
        argued(chunks, labels.drop_last(), slot) + (if labels.last() == Label::Arguments(slot) {
            arguments_in(chunks[labels.len() - 1])
        } else {
            Seq::empty()
        })
    }
}

/// Whether labels account for chunks that lead to a state.
pub open spec fn accounts(chunks: Seq<Tree>, labels: Seq<Label>, chat: Chat) -> bool {
    &&& labels.len() == chunks.len()
    &&& forall|i: int| 0 <= i < labels.len() ==> bears(chunks[i], #[trigger] labels[i])
    &&& forall|slot: Slot| #[trigger] told(chunks, labels, slot) == held(chat.texts, slot)
    &&& forall|slot: Slot| #[trigger] argued(chunks, labels, slot) == held(chat.tools, slot)
    &&& chat.started == (labels.len() > 0)
    &&& labels.len() > 0 ==> labels[0] is Role
    &&& forall|i: int| 0 < i < labels.len() ==> !((#[trigger] labels[i]) is Role)
    &&& !chat.ended ==> forall|i: int| 0 <= i < labels.len() ==> !((#[trigger] labels[i]) is Finish)
}

// ---- keeping the account --------------------------------------------------------------------

proof fn telling_ignores_more(chunks: Seq<Tree>, labels: Seq<Label>, chunk: Tree, slot: Slot)
    requires
        labels.len() <= chunks.len(),
    ensures
        told(chunks.push(chunk), labels, slot) == told(chunks, labels, slot),
        argued(chunks.push(chunk), labels, slot) == argued(chunks, labels, slot),
    decreases labels.len(),
{
    if labels.len() > 0 {
        telling_ignores_more(chunks, labels.drop_last(), chunk, slot);
    }
}

proof fn pushed(
    chunks: Seq<Tree>,
    labels: Seq<Label>,
    chat: Chat,
    chunk: Tree,
    label: Label,
    after: Chat,
)
    requires
        accounts(chunks, labels, chat),
        bears(chunk, label),
        label is Role == (labels.len() == 0),
        after.started,
        label is Finish ==> after.ended,
        !after.ended ==> !chat.ended,
        forall|slot: Slot|
            #[trigger] held(after.texts, slot) == held(chat.texts, slot) + (if label
                == Label::Text(slot) {
                text_in(chunk, slot.2)
            } else {
                Seq::empty()
            }),
        forall|slot: Slot|
            #[trigger] held(after.tools, slot) == held(chat.tools, slot) + (if label
                == Label::Arguments(slot) {
                arguments_in(chunk)
            } else {
                Seq::empty()
            }),
    ensures
        accounts(chunks.push(chunk), labels.push(label), after),
{
    let more = chunks.push(chunk);
    let all = labels.push(label);
    assert(all.drop_last() =~= labels);
    assert forall|slot: Slot| #[trigger] told(more, all, slot) == held(after.texts, slot) by {
        telling_ignores_more(chunks, labels, chunk, slot);
        assert(told(chunks, labels, slot) == held(chat.texts, slot));
        assert(held(after.texts, slot) == held(chat.texts, slot) + (if label == Label::Text(slot) {
            text_in(chunk, slot.2)
        } else {
            Seq::empty()
        }));
    }
    assert forall|slot: Slot| #[trigger] argued(more, all, slot) == held(after.tools, slot) by {
        telling_ignores_more(chunks, labels, chunk, slot);
        assert(argued(chunks, labels, slot) == held(chat.tools, slot));
        assert(held(after.tools, slot) == held(chat.tools, slot) + (if label == Label::Arguments(
            slot,
        ) {
            arguments_in(chunk)
        } else {
            Seq::empty()
        }));
    }
    assert forall|i: int| 0 <= i < all.len() implies bears(more[i], #[trigger] all[i]) by {
        if i < labels.len() {
            assert(all[i] == labels[i]);
            assert(more[i] == chunks[i]);
        }
    }
    assert forall|i: int| 0 < i < all.len() implies !((#[trigger] all[i]) is Role) by {
        if i < labels.len() {
            assert(all[i] == labels[i]);
        }
    }
    if !after.ended {
        assert forall|i: int| 0 <= i < all.len() implies !((#[trigger] all[i]) is Finish) by {
            if i < labels.len() {
                assert(all[i] == labels[i]);
            }
        }
    }
    if labels.len() > 0 {
        assert(all[0] == labels[0]);
    }
}

proof fn place_skips(texts: Seq<(Slot, Seq<char>)>, slot: Slot, entry: (Slot, Seq<char>))
    requires
        entry.0 != slot,
    ensures
        held(texts.push(entry), slot) == held(texts, slot),
{
    place_is_first(texts, slot, 0);
    place_is_first(texts.push(entry), slot, 0);
    let longer = texts.push(entry);
    match place_of(texts, slot, 0) {
        Some(i) => {
            assert forall|k: int| 0 <= k < i implies (#[trigger] longer[k]).0 != slot by {
                assert(longer[k] == texts[k]);
            }
            first_is_place(longer, slot, 0, i);
        },
        None => {
            if let Some(i) = place_of(longer, slot, 0) {
                assert(longer[i] == texts[i]);
            }
        },
    }
}

proof fn growing_keeps_others(
    texts: Seq<(Slot, Seq<char>)>,
    slot: Slot,
    delta: Seq<char>,
    other: Slot,
)
    requires
        other != slot,
    ensures
        held(grown(texts, slot, delta), other) == held(texts, other),
{
    place_is_first(texts, slot, 0);
    place_is_first(texts, other, 0);
    let after = grown(texts, slot, delta);
    match place_of(texts, slot, 0) {
        None => place_skips(texts, other, (slot, delta)),
        Some(at) => {
            place_is_first(after, other, 0);
            match place_of(texts, other, 0) {
                Some(i) => {
                    assert forall|k: int| 0 <= k < i implies (#[trigger] after[k]).0 != other by {
                        if k != at {
                            assert(after[k] == texts[k]);
                        }
                    }
                    first_is_place(after, other, 0, i);
                },
                None => {
                    if let Some(i) = place_of(after, other, 0) {
                        if i != at {
                            assert(after[i] == texts[i]);
                        }
                    }
                },
            }
        },
    }
}

proof fn naming_keeps_texts(texts: Seq<(Slot, Seq<char>)>, slot: Slot, other: Slot)
    requires
        place_of(texts, slot, 0) is None,
    ensures
        held(texts.push((slot, Seq::empty())), other) == held(texts, other),
{
    if other == slot {
        place_is_first(texts, slot, 0);
        let longer = texts.push((slot, Seq::empty()));
        assert forall|k: int| 0 <= k < texts.len() implies (#[trigger] longer[k]).0 != slot by {
            assert(longer[k] == texts[k]);
        }
        first_is_place(longer, slot, 0, texts.len() as int);
    } else {
        place_skips(texts, other, (slot, Seq::empty()));
    }
}

// ---- the shapes of chunks -------------------------------------------------------------------

proof fn words_differ()
    ensures
        "choices"@ != "usage"@,
        "delta"@ != "finish_reason"@,
        "delta"@ != "logprobs"@,
        "delta"@ != "index"@,
        "finish_reason"@ != "logprobs"@,
        "role"@ != "content"@,
        "role"@ != "refusal"@,
        "role"@ != "reasoning"@,
        "role"@ != "reasoning_details"@,
        "role"@ != "tool_calls"@,
        "function"@ != "index"@,
{
    reveal_strlit("choices");
    reveal_strlit("usage");
    reveal_strlit("delta");
    reveal_strlit("finish_reason");
    reveal_strlit("logprobs");
    reveal_strlit("index");
    reveal_strlit("role");
    reveal_strlit("content");
    reveal_strlit("refusal");
    reveal_strlit("reasoning");
    reveal_strlit("reasoning_details");
    reveal_strlit("tool_calls");
    reveal_strlit("function");
    assert("choices"@.len() == 7);
    assert("usage"@.len() == 5);
    assert("delta"@.len() == 5);
    assert("finish_reason"@.len() == 13);
    assert("logprobs"@.len() == 8);
    assert("index"@[0] == 'i');
    assert("delta"@[0] == 'd');
    assert("role"@.len() == 4);
    assert("content"@.len() == 7);
    assert("refusal"@.len() == 7);
    assert("reasoning"@.len() == 9);
    assert("reasoning_details"@.len() == 17);
    assert("tool_calls"@.len() == 10);
    assert("index"@.len() == 5);
    assert("function"@.len() == 8);
}

proof fn chunk_shape(chat: Chat, delta: Tree, finish: Tree)
    ensures
        delta_in(chat.chunk(delta, finish)) == delta,
        choice_of(chat.chunk(delta, finish)).at("finish_reason"@) == finish,
{
    broadcast use member_laws;

    words_differ();
    let choice = empty_object().with("index"@, number(0)).with("delta"@, delta).with(
        "finish_reason"@,
        finish,
    ).with("logprobs"@, Tree::Null);
    assert(choice.at("delta"@) == delta);
    assert(choice.at("finish_reason"@) == finish);
    assert(chat.chunk(delta, finish).at("choices"@) == one(choice));
}

// ---- one event ------------------------------------------------------------------------------

/// Whether labels account for chunks sent before and those of a relay.
pub open spec fn kept(prior: Seq<Tree>, turn: Relay, labels: Seq<Label>) -> bool {
    accounts(prior + turn.chunks, labels, turn.chat)
}

proof fn sent_is_kept(
    prior: Seq<Tree>,
    turn: Relay,
    labels: Seq<Label>,
    grownup: Relay,
    bytes: nat,
    delta: Tree,
    label: Label,
) -> (more: Seq<Label>)
    requires
        kept(prior, turn, labels),
        labels.len() > 0,
        !turn.chat.ended,
        grownup.chunks == turn.chunks,
        grownup.chat.started,
        !grownup.chat.ended,
        grownup.sent(bytes, delta).fault is None,
        delta.at("role"@) == Tree::Null,
        label is Text || label is Arguments || label is Other,
        forall|slot: Slot|
            #[trigger] held(grownup.chat.texts, slot) == held(turn.chat.texts, slot) + (if label
                == Label::Text(slot) {
                match delta.at(
                    if slot.2 {
                        "refusal"@
                    } else {
                        "content"@
                    },
                ) {
                    Tree::Text(text) => text,
                    _ => Seq::empty(),
                }
            } else {
                Seq::empty()
            }),
        forall|slot: Slot|
            #[trigger] held(grownup.chat.tools, slot) == held(turn.chat.tools, slot) + (if label
                == Label::Arguments(slot) {
                match first_of(list_of(delta.at("tool_calls"@))).at("function"@).at(
                    "arguments"@,
                ) {
                    Tree::Text(text) => text,
                    _ => Seq::empty(),
                }
            } else {
                Seq::empty()
            }),
    ensures
        kept(prior, grownup.sent(bytes, delta), more),
        more.len() > 0,
{
    let after = grownup.sent(bytes, delta);
    let chunk = after.chunks.last();
    assert(chunk == after.chat.chunk(delta, Tree::Null));
    chunk_shape(after.chat, delta, Tree::Null);
    assert(after.chat.texts == grownup.chat.texts);
    assert(after.chat.tools == grownup.chat.tools);
    pushed(prior + turn.chunks, labels, turn.chat, chunk, label, after.chat);
    assert((prior + turn.chunks).push(chunk) =~= prior + after.chunks);
    labels.push(label)
}

proof fn text_is_kept(
    prior: Seq<Tree>,
    turn: Relay,
    labels: Seq<Label>,
    slot: Slot,
    text: Seq<char>,
    full: bool,
) -> (more: Seq<Label>)
    requires
        kept(prior, turn, labels),
        labels.len() > 0,
        turn.fault is None,
        !turn.chat.ended,
        turn.text(slot, text, full).fault is None,
    ensures
        kept(prior, turn.text(slot, text, full), more),
        more.len() > 0,
        !turn.text(slot, text, full).chat.ended,
{
    broadcast use member_laws;

    words_differ();
    let delta = addition(held(turn.chat.texts, slot), text, full)->Some_0;
    if delta.len() == 0 {
        labels
    } else {
        let key = if slot.2 {
            "refusal"@
        } else {
            "content"@
        };
        let body = empty_object().with(key, Tree::Text(delta));
        let grownup = Relay {
            chat: Chat { texts: grown(turn.chat.texts, slot, delta), ..turn.chat },
            ..turn
        };
        assert(body.at(key) == Tree::Text(delta));
        assert forall|other: Slot|
            #[trigger] held(grownup.chat.texts, other) == held(turn.chat.texts, other) + (if Label::Text(
                slot,
            ) == Label::Text(other) {
                match body.at(
                    if other.2 {
                        "refusal"@
                    } else {
                        "content"@
                    },
                ) {
                    Tree::Text(text) => text,
                    _ => Seq::empty(),
                }
            } else {
                Seq::empty()
            }) by {
            if other == slot {
                grown_is_held(turn.chat.texts, slot, delta);
            } else {
                growing_keeps_others(turn.chat.texts, slot, delta, other);
                assert(held(turn.chat.texts, other) + Seq::<char>::empty() =~= held(
                    turn.chat.texts,
                    other,
                ));
            }
        }
        assert forall|other: Slot|
            #[trigger] held(grownup.chat.tools, other) == held(turn.chat.tools, other) + Seq::<
                char,
            >::empty() by {
            assert(held(turn.chat.tools, other) + Seq::<char>::empty() =~= held(
                turn.chat.tools,
                other,
            ));
        }
        sent_is_kept(
            prior,
            turn,
            labels,
            grownup,
            vstd::utf8::encode_utf8(delta).len(),
            body,
            Label::Text(slot),
        )
    }
}

proof fn nothing_grows(turn: Relay)
    ensures
        forall|slot: Slot|
            #[trigger] held(turn.chat.texts, slot) == held(turn.chat.texts, slot) + Seq::<
                char,
            >::empty(),
        forall|slot: Slot|
            #[trigger] held(turn.chat.tools, slot) == held(turn.chat.tools, slot) + Seq::<
                char,
            >::empty(),
{
    assert forall|slot: Slot|
        #[trigger] held(turn.chat.texts, slot) == held(turn.chat.texts, slot) + Seq::<
            char,
        >::empty() by {
        assert(held(turn.chat.texts, slot) + Seq::<char>::empty() =~= held(turn.chat.texts, slot));
    }
    assert forall|slot: Slot|
        #[trigger] held(turn.chat.tools, slot) == held(turn.chat.tools, slot) + Seq::<
            char,
        >::empty() by {
        assert(held(turn.chat.tools, slot) + Seq::<char>::empty() =~= held(turn.chat.tools, slot));
    }
}

proof fn summary_is_kept(
    prior: Seq<Tree>,
    turn: Relay,
    labels: Seq<Label>,
    index: u64,
    id: Tree,
    text: Seq<char>,
    full: bool,
    raw: bool,
) -> (more: Seq<Label>)
    requires
        kept(prior, turn, labels),
        labels.len() > 0,
        turn.fault is None,
        !turn.chat.ended,
        turn.summary(index, id, text, full, raw).fault is None,
    ensures
        kept(prior, turn.summary(index, id, text, full, raw), more),
        more.len() > 0,
        !turn.summary(index, id, text, full, raw).chat.ended,
        turn.summary(index, id, text, full, raw).chat.texts == turn.chat.texts,
        turn.summary(index, id, text, full, raw).chat.tools == turn.chat.tools,
{
    broadcast use member_laws;

    words_differ();
    nothing_grows(turn);
    let slot = (index, 0u64, raw);
    if turn.chat.exclude_reasoning {
        labels
    } else {
        let delta = addition(held(turn.chat.summaries, slot), text, full)->Some_0;
        if delta.len() == 0 {
            labels
        } else {
            let grownup = Relay {
                chat: Chat { summaries: grown(turn.chat.summaries, slot, delta), ..turn.chat },
                ..turn
            };
            sent_is_kept(
                prior,
                turn,
                labels,
                grownup,
                vstd::utf8::encode_utf8(delta).len(),
                empty_object().with("reasoning"@, Tree::Text(delta)).with(
                    "reasoning_details"@,
                    one(
                        crate::chat::stream::told_detail(
                            index,
                            id,
                            delta,
                            raw,
                            turn.chat.gemini,
                        ),
                    ),
                ),
                Label::Other,
            )
        }
    }
}

proof fn arguments_are_kept(
    prior: Seq<Tree>,
    turn: Relay,
    labels: Seq<Label>,
    index: u64,
    args: Seq<char>,
    full: bool,
) -> (more: Seq<Label>)
    requires
        kept(prior, turn, labels),
        labels.len() > 0,
        turn.fault is None,
        !turn.chat.ended,
        turn.arguments(index, args, full).fault is None,
    ensures
        kept(prior, turn.arguments(index, args, full), more),
        more.len() > 0,
        !turn.arguments(index, args, full).chat.ended,
        turn.arguments(index, args, full).chat.texts == turn.chat.texts,
{
    broadcast use member_laws;

    words_differ();
    nothing_grows(turn);
    let slot = (index, 0u64, false);
    let place = place_of(turn.chat.tools, slot, 0)->Some_0;
    let delta = addition(held(turn.chat.tools, slot), args, full)->Some_0;
    if delta.len() == 0 {
        labels
    } else {
        let function = empty_object().with("arguments"@, Tree::Text(delta));
        let call = empty_object().with("index"@, number(place as u64)).with(
            "function"@,
            function,
        );
        let body = empty_object().with("tool_calls"@, one(call));
        let grownup = Relay {
            chat: Chat { tools: grown(turn.chat.tools, slot, delta), ..turn.chat },
            ..turn
        };
        assert(body.at("tool_calls"@) == one(call));
        assert(first_of(list_of(one(call))) == call);
        assert(call.at("function"@) == function);
        assert(function.at("arguments"@) == Tree::Text(delta));
        assert forall|other: Slot|
            #[trigger] held(grownup.chat.tools, other) == held(turn.chat.tools, other) + (if Label::Arguments(
                slot,
            ) == Label::Arguments(other) {
                match first_of(list_of(body.at("tool_calls"@))).at("function"@).at(
                    "arguments"@,
                ) {
                    Tree::Text(text) => text,
                    _ => Seq::empty(),
                }
            } else {
                Seq::empty()
            }) by {
            if other == slot {
                grown_is_held(turn.chat.tools, slot, delta);
            } else {
                growing_keeps_others(turn.chat.tools, slot, delta, other);
                assert(held(turn.chat.tools, other) + Seq::<char>::empty() =~= held(
                    turn.chat.tools,
                    other,
                ));
            }
        }
        sent_is_kept(
            prior,
            turn,
            labels,
            grownup,
            vstd::utf8::encode_utf8(delta).len(),
            body,
            Label::Arguments(slot),
        )
    }
}

/// A call with its identity told.
pub open spec fn named_call(turn: Relay, index: u64, item: Tree) -> Relay {
    turn.tool(index, item, false)
}

proof fn naming_is_kept(
    prior: Seq<Tree>,
    turn: Relay,
    labels: Seq<Label>,
    index: u64,
    item: Tree,
) -> (more: Seq<Label>)
    requires
        kept(prior, turn, labels),
        labels.len() > 0,
        turn.fault is None,
        !turn.chat.ended,
        named_call(turn, index, item).fault is None,
    ensures
        kept(prior, named_call(turn, index, item), more),
        more.len() > 0,
        !named_call(turn, index, item).chat.ended,
        named_call(turn, index, item).chat.texts == turn.chat.texts,
        forall|slot: Slot|
            #[trigger] held(named_call(turn, index, item).chat.tools, slot) == held(
                turn.chat.tools,
                slot,
            ),
{
    broadcast use member_laws;

    words_differ();
    nothing_grows(turn);
    let slot = (index, 0u64, false);
    if place_of(turn.chat.tools, slot, 0) is Some {
        labels
    } else {
        let grownup = Relay {
            chat: Chat { tools: turn.chat.tools.push((slot, Seq::empty())), ..turn.chat },
            ..turn
        };
        assert forall|other: Slot|
            #[trigger] held(grownup.chat.tools, other) == held(turn.chat.tools, other) + Seq::<
                char,
            >::empty() by {
            naming_keeps_texts(turn.chat.tools, slot, other);
            assert(held(turn.chat.tools, other) + Seq::<char>::empty() =~= held(
                turn.chat.tools,
                other,
            ));
        }
        let body = empty_object().with(
            "tool_calls"@,
            one(
                empty_object().with("index"@, number(turn.chat.tools.len() as u64)).with(
                    "id"@,
                    item.at("call_id"@),
                ).with("type"@, Tree::Text("function"@)).with(
                    "function"@,
                    empty_object().with("name"@, item.at("name"@)).with(
                        "arguments"@,
                        Tree::Text(""@),
                    ),
                ),
            ),
        );
        let bytes = vstd::utf8::encode_utf8(crate::exchange::written(item)).len();
        let more = sent_is_kept(prior, turn, labels, grownup, bytes, body, Label::Other);
        assert(named_call(turn, index, item) == grownup.sent(bytes, body));
        assert forall|other: Slot|
            #[trigger] held(named_call(turn, index, item).chat.tools, other) == held(
                turn.chat.tools,
                other,
            ) by {
            naming_keeps_texts(turn.chat.tools, slot, other);
        }
        more
    }
}

/// The arguments of a call that an item holds.
pub open spec fn item_arguments(item: Tree) -> Seq<char> {
    match item.at("arguments"@).text() {
        Some(args) => args,
        None => Seq::empty(),
    }
}

proof fn full_arguments(turn: Relay, index: u64, args: Seq<char>)
    requires
        turn.fault is None,
        turn.arguments(index, args, true).fault is None,
    ensures
        held(turn.arguments(index, args, true).chat.tools, (index, 0u64, false)) == args,
        forall|slot: Slot|
            slot != (index, 0u64, false) ==> #[trigger] held(
                turn.arguments(index, args, true).chat.tools,
                slot,
            ) == held(turn.chat.tools, slot),
{
    let slot = (index, 0u64, false);
    let tools = turn.chat.tools;
    let prior = held(tools, slot);
    let delta = addition(prior, args, true)->Some_0;
    assert(prior + delta =~= args);
    grown_is_held(tools, slot, delta);
    if delta.len() == 0 {
        assert(prior =~= args);
    } else {
        assert forall|other: Slot| other != slot implies #[trigger] held(
            turn.arguments(index, args, true).chat.tools,
            other,
        ) == held(tools, other) by {
            growing_keeps_others(tools, slot, delta, other);
        }
    }
}

proof fn tool_is_kept(
    prior: Seq<Tree>,
    turn: Relay,
    labels: Seq<Label>,
    index: u64,
    item: Tree,
    full: bool,
) -> (more: Seq<Label>)
    requires
        kept(prior, turn, labels),
        labels.len() > 0,
        turn.fault is None,
        !turn.chat.ended,
        turn.tool(index, item, full).fault is None,
    ensures
        kept(prior, turn.tool(index, item, full), more),
        more.len() > 0,
        !turn.tool(index, item, full).chat.ended,
        turn.tool(index, item, full).chat.texts == turn.chat.texts,
        full ==> held(turn.tool(index, item, full).chat.tools, (index, 0u64, false))
            == item_arguments(item),
        full ==> forall|slot: Slot|
            slot != (index, 0u64, false) ==> #[trigger] held(
                turn.tool(index, item, full).chat.tools,
                slot,
            ) == held(turn.chat.tools, slot),
{
    let known = named_call(turn, index, item);
    let named = naming_is_kept(prior, turn, labels, index, item);
    if full {
        full_arguments(known, index, item_arguments(item));
        let more = arguments_are_kept(prior, known, named, index, item_arguments(item), true);
        assert(turn.tool(index, item, true) == known.arguments(index, item_arguments(item), true));
        assert forall|slot: Slot| slot != (index, 0u64, false) implies #[trigger] held(
            turn.tool(index, item, full).chat.tools,
            slot,
        ) == held(turn.chat.tools, slot) by {
            assert(held(known.arguments(index, item_arguments(item), true).chat.tools, slot)
                == held(known.chat.tools, slot));
        }
        more
    } else {
        named
    }
}

/// The kind and the text of a part of a message.
pub open spec fn part_text(part: Tree) -> (bool, Seq<char>) {
    if part.at("type"@) == Tree::Text("output_text"@) {
        (
            false,
            match part.at("text"@).text() {
                Some(text) => text,
                None => Seq::empty(),
            },
        )
    } else {
        (
            true,
            match part.at("refusal"@).text() {
                Some(text) => text,
                None => Seq::empty(),
            },
        )
    }
}

proof fn full_text(turn: Relay, slot: Slot, text: Seq<char>)
    requires
        turn.fault is None,
        turn.text(slot, text, true).fault is None,
    ensures
        held(turn.text(slot, text, true).chat.texts, slot) == text,
        turn.text(slot, text, true).chat.tools == turn.chat.tools,
        forall|other: Slot|
            other != slot ==> #[trigger] held(turn.text(slot, text, true).chat.texts, other)
                == held(turn.chat.texts, other),
{
    let texts = turn.chat.texts;
    let prior = held(texts, slot);
    let delta = addition(prior, text, true)->Some_0;
    assert(prior + delta =~= text);
    grown_is_held(texts, slot, delta);
    if delta.len() == 0 {
        assert(prior =~= text);
    } else {
        assert forall|other: Slot| other != slot implies #[trigger] held(
            turn.text(slot, text, true).chat.texts,
            other,
        ) == held(texts, other) by {
            growing_keeps_others(texts, slot, delta, other);
        }
    }
}

proof fn parts_are_kept(
    prior: Seq<Tree>,
    turn: Relay,
    labels: Seq<Label>,
    index: u64,
    parts: Seq<Tree>,
    from: int,
) -> (more: Seq<Label>)
    requires
        kept(prior, turn, labels),
        labels.len() > 0,
        turn.fault is None,
        !turn.chat.ended,
        0 <= from <= parts.len() <= u64::MAX,
        turn.parts(index, parts, from).fault is None,
    ensures
        kept(prior, turn.parts(index, parts, from), more),
        more.len() > 0,
        !turn.parts(index, parts, from).chat.ended,
        turn.parts(index, parts, from).chat.tools == turn.chat.tools,
        forall|j: int|
            from <= j < parts.len() ==> held(
                turn.parts(index, parts, from).chat.texts,
                (index, j as u64, part_text(#[trigger] parts[j]).0),
            ) == part_text(parts[j]).1,
        forall|slot: Slot|
            slot.0 != index || slot.1 < from ==> #[trigger] held(
                turn.parts(index, parts, from).chat.texts,
                slot,
            ) == held(turn.chat.texts, slot),
    decreases parts.len() - from,
{
    if from < parts.len() {
        let (refusal, text) = part_text(parts[from]);
        let slot = (index, from as u64, refusal);
        let next = turn.part(index, from as u64, parts[from]);
        if next.fault is Some {
            assert(turn.parts(index, parts, from) == next.parts(index, parts, from + 1));
            assert(next.parts(index, parts, from + 1) == next);
        }
        assert(next == turn.text(slot, text, true));
        full_text(turn, slot, text);
        let named = text_is_kept(prior, turn, labels, slot, text, true);
        let more = parts_are_kept(prior, next, named, index, parts, from + 1);
        let after = turn.parts(index, parts, from);
        assert(after == next.parts(index, parts, from + 1));
        assert forall|j: int| from <= j < parts.len() implies held(
            after.chat.texts,
            (index, j as u64, part_text(#[trigger] parts[j]).0),
        ) == part_text(parts[j]).1 by {
            if j == from {
                assert(held(after.chat.texts, slot) == held(next.chat.texts, slot));
            }
        }
        assert forall|other: Slot| other.0 != index || other.1 < from implies #[trigger] held(
            after.chat.texts,
            other,
        ) == held(turn.chat.texts, other) by {
            assert(held(after.chat.texts, other) == held(next.chat.texts, other));
        }
        more
    } else {
        labels
    }
}

proof fn reasoning_is_kept(
    prior: Seq<Tree>,
    turn: Relay,
    labels: Seq<Label>,
    index: u64,
    item: Tree,
) -> (more: Seq<Label>)
    requires
        kept(prior, turn, labels),
        labels.len() > 0,
        turn.fault is None,
        !turn.chat.ended,
        turn.reasoning(index, item).fault is None,
    ensures
        kept(prior, turn.reasoning(index, item), more),
        more.len() > 0,
        !turn.reasoning(index, item).chat.ended,
        turn.reasoning(index, item).chat.texts == turn.chat.texts,
        turn.reasoning(index, item).chat.tools == turn.chat.tools,
{
    broadcast use member_laws;

    words_differ();
    let summary = crate::chat::response::joined_text(item.at("summary"@));
    let content = crate::chat::response::joined_text(item.at("content"@));
    let summed = turn.summary(index, item.at("id"@), summary, true, false);
    let first = summary_is_kept(
        prior,
        turn,
        labels,
        index,
        item.at("id"@),
        summary,
        true,
        false,
    );
    let raw = summed.summary(index, item.at("id"@), content, true, true);
    let second = summary_is_kept(
        prior,
        summed,
        first,
        index,
        item.at("id"@),
        content,
        true,
        true,
    );
    let slot = (index, 0u64, false);
    if !(item.at("encrypted_content"@) is Text) || place_of(raw.chat.encrypted, slot, 0) is Some {
        second
    } else {
        nothing_grows(raw);
        let grownup = Relay {
            chat: Chat { encrypted: raw.chat.encrypted.push((slot, Seq::empty())), ..raw.chat },
            ..raw
        };
        sent_is_kept(
            prior,
            raw,
            second,
            grownup,
            vstd::utf8::encode_utf8(crate::exchange::written(opaque_detail(item, index))).len(),
            empty_object().with("reasoning_details"@, one(opaque_detail(item, index))),
            Label::Other,
        )
    }
}

/// The parts of a message that an output item holds.
pub open spec fn message_parts(item: Tree) -> Seq<Tree> {
    list_of(item.at("content"@))
}

/// Whether what was told of an output item is all that it holds.
pub open spec fn item_told(item: Tree, index: u64, texts: Seq<(Slot, Seq<char>)>, tools: Seq<(Slot, Seq<char>)>) -> bool {
    &&& item.at("type"@) == Tree::Text("function_call"@) ==> held(tools, (index, 0u64, false))
        == item_arguments(item)
    &&& item.at("type"@) == Tree::Text("message"@) ==> forall|j: int|
        0 <= j < message_parts(item).len() ==> held(
            texts,
            (index, j as u64, part_text(#[trigger] message_parts(item)[j]).0),
        ) == part_text(message_parts(item)[j]).1
}

proof fn item_is_kept(
    prior: Seq<Tree>,
    turn: Relay,
    labels: Seq<Label>,
    index: u64,
    item: Tree,
    full: bool,
) -> (more: Seq<Label>)
    requires
        kept(prior, turn, labels),
        labels.len() > 0,
        turn.fault is None,
        !turn.chat.ended,
        message_parts(item).len() <= u64::MAX,
        turn.item(index, item, full).fault is None,
    ensures
        kept(prior, turn.item(index, item, full), more),
        more.len() > 0,
        !turn.item(index, item, full).chat.ended,
        full ==> item_told(
            item,
            index,
            turn.item(index, item, full).chat.texts,
            turn.item(index, item, full).chat.tools,
        ),
        full ==> forall|slot: Slot|
            slot.0 != index ==> #[trigger] held(turn.item(index, item, full).chat.texts, slot)
                == held(turn.chat.texts, slot),
        full ==> forall|slot: Slot|
            slot.0 != index ==> #[trigger] held(turn.item(index, item, full).chat.tools, slot)
                == held(turn.chat.tools, slot),
{
    assert("function_call"@ != "message"@ && "function_call"@ != "reasoning"@ && "message"@
        != "reasoning"@) by {
        reveal_strlit("function_call");
        reveal_strlit("message");
        reveal_strlit("reasoning");
        assert("function_call"@.len() == 13);
        assert("message"@.len() == 7);
        assert("reasoning"@.len() == 9);
    }
    let kind = item.at("type"@);
    if kind == Tree::Text("function_call"@) {
        tool_is_kept(prior, turn, labels, index, item, full)
    } else if kind == Tree::Text("message"@) {
        if full {
            parts_are_kept(prior, turn, labels, index, message_parts(item), 0)
        } else {
            labels
        }
    } else if full && !turn.chat.exclude_reasoning {
        reasoning_is_kept(prior, turn, labels, index, item)
    } else {
        labels
    }
}

/// Whether places in an output can be numbered.
pub open spec fn numberable(output: Seq<Tree>) -> bool {
    output.len() <= u64::MAX && forall|i: int|
        0 <= i < output.len() ==> message_parts(#[trigger] output[i]).len() <= u64::MAX
}

proof fn items_are_kept(
    prior: Seq<Tree>,
    turn: Relay,
    labels: Seq<Label>,
    output: Seq<Tree>,
    from: int,
) -> (more: Seq<Label>)
    requires
        kept(prior, turn, labels),
        labels.len() > 0,
        turn.fault is None,
        !turn.chat.ended,
        numberable(output),
        0 <= from <= output.len(),
        turn.items(output, from).fault is None,
    ensures
        kept(prior, turn.items(output, from), more),
        more.len() > 0,
        !turn.items(output, from).chat.ended,
        forall|i: int|
            from <= i < output.len() ==> item_told(
                #[trigger] output[i],
                i as u64,
                turn.items(output, from).chat.texts,
                turn.items(output, from).chat.tools,
            ),
        forall|slot: Slot|
            slot.0 < from ==> #[trigger] held(turn.items(output, from).chat.texts, slot) == held(
                turn.chat.texts,
                slot,
            ),
        forall|slot: Slot|
            slot.0 < from ==> #[trigger] held(turn.items(output, from).chat.tools, slot) == held(
                turn.chat.tools,
                slot,
            ),
    decreases output.len() - from,
{
    if from < output.len() {
        let item = output[from];
        let next = turn.item(from as u64, item, true);
        if next.fault is Some {
            assert(next.items(output, from + 1) == next);
        }
        let named = item_is_kept(prior, turn, labels, from as u64, item, true);
        let more = items_are_kept(prior, next, named, output, from + 1);
        let after = turn.items(output, from);
        assert(after == next.items(output, from + 1));
        assert forall|i: int| from <= i < output.len() implies item_told(
            #[trigger] output[i],
            i as u64,
            after.chat.texts,
            after.chat.tools,
        ) by {
            if i == from {
                let slot = (from as u64, 0u64, false);
                assert(held(after.chat.tools, slot) == held(next.chat.tools, slot));
                assert forall|j: int| 0 <= j < message_parts(item).len() implies held(
                    after.chat.texts,
                    (from as u64, j as u64, part_text(#[trigger] message_parts(item)[j]).0),
                ) == held(
                    next.chat.texts,
                    (from as u64, j as u64, part_text(message_parts(item)[j]).0),
                ) by {}
            }
        }
        assert forall|slot: Slot| slot.0 < from implies #[trigger] held(after.chat.texts, slot)
            == held(turn.chat.texts, slot) by {
            assert(held(after.chat.texts, slot) == held(next.chat.texts, slot));
        }
        assert forall|slot: Slot| slot.0 < from implies #[trigger] held(after.chat.tools, slot)
            == held(turn.chat.tools, slot) by {
            assert(held(after.chat.tools, slot) == held(next.chat.tools, slot));
        }
        more
    } else {
        labels
    }
}

proof fn response_is_kept(prior: Seq<Tree>, turn: Relay, labels: Seq<Label>, response: Tree) -> (more:
    Seq<Label>)
    requires
        kept(prior, turn, labels),
        labels.len() > 0,
        turn.fault is None,
        !turn.chat.ended,
        numberable(list_of(response.at("output"@))),
        turn.response(response).fault is None,
    ensures
        kept(prior, turn.response(response), more),
        more.len() > 0,
        turn.response(response).chat.ended,
        forall|i: int|
            0 <= i < list_of(response.at("output"@)).len() ==> item_told(
                #[trigger] list_of(response.at("output"@))[i],
                i as u64,
                turn.response(response).chat.texts,
                turn.response(response).chat.tools,
            ),
        exists|at: int|
            0 <= at < more.len() && (#[trigger] more[at]) is Finish && forall|i: int|
                0 <= i < more.len() && i != at ==> !((#[trigger] more[i]) is Finish),
{
    broadcast use member_laws;

    words_differ();
    let output = response.at("output"@).items()->Some_0;
    let listed = turn.items(output, 0);
    let named = items_are_kept(prior, turn, labels, output, 0);
    nothing_grows(listed);
    let finish = finish_of(response)->Ok_0;
    let done = turn.response(response);
    let last = listed.chat.chunk(empty_object(), Tree::Text(finish));
    chunk_shape(listed.chat, empty_object(), Tree::Text(finish));
    let ended = Chat { ended: true, ..listed.chat };
    pushed(prior + listed.chunks, named, listed.chat, last, Label::Finish, ended);
    let told = named.push(Label::Finish);
    assert((prior + listed.chunks).push(last) =~= prior + listed.chunks.push(last));
    if turn.chat.usage_wanted {
        let plain = listed.chat.chunk(empty_object(), Tree::Null);
        let usage = plain.with("choices"@, Tree::Array(Seq::empty())).with(
            "usage"@,
            chat_usage(response.at("usage"@)),
        );
        assert(usage.at("choices"@) == Tree::Array(Seq::empty()));
        assert(list_of(usage.at("choices"@)).len() == 0);
        assert(choice_of(usage) == Tree::Null);
        pushed(prior + listed.chunks.push(last), told, ended, usage, Label::Other, ended);
        assert((prior + listed.chunks.push(last)).push(usage) =~= prior + listed.chunks.push(
            last,
        ).push(usage));
        let more = told.push(Label::Other);
        assert(more[named.len() as int] is Finish);
        assert forall|i: int| 0 <= i < more.len() && i != named.len() implies !((
        #[trigger] more[i]) is Finish) by {
            if i < named.len() {
                assert(more[i] == named[i]);
            }
        }
        more
    } else {
        assert(told[named.len() as int] is Finish);
        assert forall|i: int| 0 <= i < told.len() && i != named.len() implies !((
        #[trigger] told[i]) is Finish) by {
            if i < named.len() {
                assert(told[i] == named[i]);
            }
        }
        told
    }
}

proof fn begun_is_kept(prior: Seq<Tree>, turn: Relay, labels: Seq<Label>, event: Tree) -> (more: Seq<
    Label,
>)
    requires
        kept(prior, turn, labels),
        !turn.chat.ended,
    ensures
        kept(prior, turn.begun(event), more),
        more.len() > 0,
        !turn.begun(event).chat.ended,
        turn.begun(event).fault == turn.fault,
{
    broadcast use member_laws;

    words_differ();
    if turn.chat.started {
        labels
    } else {
        nothing_grows(turn);
        let after = turn.begun(event);
        let delta = empty_object().with("role"@, Tree::Text("assistant"@)).with(
            "content"@,
            Tree::Text(""@),
        );
        chunk_shape(after.chat, delta, Tree::Null);
        let chunk = after.chat.chunk(delta, Tree::Null);
        pushed(prior + turn.chunks, labels, turn.chat, chunk, Label::Role, after.chat);
        assert((prior + turn.chunks).push(chunk) =~= prior + after.chunks);
        labels.push(Label::Role)
    }
}

/// Whether the places that an event names can be numbered.
pub open spec fn placed(event: Tree) -> bool {
    message_parts(event.at("item"@)).len() <= u64::MAX && numberable(
        list_of(event.at("response"@).at("output"@)),
    )
}

/// Whether an event tells of a failure.
pub open spec fn failing(event: Tree) -> bool {
    event.at("type"@) == Tree::Text("error"@) || event.at("type"@) == Tree::Text(
        "response.failed"@,
    )
}

/// Whether an event tells of the end of a response.
pub open spec fn ending(event: Tree) -> bool {
    event.at("type"@) == Tree::Text("response.completed"@) || event.at("type"@) == Tree::Text(
        "response.incomplete"@,
    )
}

proof fn event_is_kept(prior: Seq<Tree>, chat: Chat, labels: Seq<Label>, event: Tree) -> (more: Seq<
    Label,
>)
    requires
        accounts(prior, labels, chat),
        !chat.ended,
        placed(event),
        !failing(event),
        chat.event(event).fault is None,
    ensures
        kept(prior, chat.event(event), more),
        chat.event(event).chat.ended ==> exists|at: int|
            0 <= at < more.len() && (#[trigger] more[at]) is Finish && forall|i: int|
                0 <= i < more.len() && i != at ==> !((#[trigger] more[i]) is Finish),
        ending(event) ==> chat.event(event).chat.ended && forall|i: int|
            0 <= i < list_of(event.at("response"@).at("output"@)).len() ==> item_told(
                #[trigger] list_of(event.at("response"@).at("output"@))[i],
                i as u64,
                chat.event(event).chat.texts,
                chat.event(event).chat.tools,
            ),
{
    let start = relay(chat, Seq::empty());
    assert(prior + Seq::<Tree>::empty() =~= prior);
    let kind = event.at("type"@).text()->Some_0;
    let begun = start.begun(event);
    let named = begun_is_kept(prior, start, labels, event);
    let index = crate::chat::stream::number_at(event, "output_index"@);
    let content = crate::chat::stream::number_at(event, "content_index"@);
    let delta = crate::chat::stream::delta_of(event);
    if ending(event) {
        kinds_differ(kind);
    }
    if kind == "response.output_item.added"@ {
        item_is_kept(prior, begun, named, index, event.at("item"@), false)
    } else if kind == "response.output_item.done"@ {
        item_is_kept(prior, begun, named, index, event.at("item"@), true)
    } else if kind == "response.output_text.delta"@ {
        text_is_kept(prior, begun, named, (index, content, false), delta, false)
    } else if kind == "response.refusal.delta"@ {
        text_is_kept(prior, begun, named, (index, content, true), delta, false)
    } else if kind == "response.reasoning_summary_text.delta"@ {
        summary_is_kept(prior, begun, named, index, event.at("item_id"@), delta, false, false)
    } else if kind == "response.reasoning_text.delta"@ {
        summary_is_kept(prior, begun, named, index, event.at("item_id"@), delta, false, true)
    } else if kind == "response.function_call_arguments.delta"@ {
        arguments_are_kept(prior, begun, named, index, delta, false)
    } else if kind == "response.completed"@ || kind == "response.incomplete"@ {
        response_is_kept(prior, begun, named, event.at("response"@))
    } else {
        named
    }
}

proof fn kinds_differ(kind: Seq<char>)
    requires
        kind == "response.completed"@ || kind == "response.incomplete"@,
    ensures
        kind != "response.output_item.added"@,
        kind != "response.output_item.done"@,
        kind != "response.output_text.delta"@,
        kind != "response.refusal.delta"@,
        kind != "response.reasoning_summary_text.delta"@,
        kind != "response.reasoning_text.delta"@,
        kind != "response.function_call_arguments.delta"@,
{
    reveal_strlit("response.completed");
    reveal_strlit("response.incomplete");
    reveal_strlit("response.output_item.added");
    reveal_strlit("response.output_item.done");
    reveal_strlit("response.output_text.delta");
    reveal_strlit("response.refusal.delta");
    reveal_strlit("response.reasoning_summary_text.delta");
    reveal_strlit("response.reasoning_text.delta");
    reveal_strlit("response.function_call_arguments.delta");
    assert("response.completed"@.len() == 18);
    assert("response.incomplete"@.len() == 19);
    assert("response.output_item.added"@.len() == 26);
    assert("response.output_item.done"@.len() == 25);
    assert("response.output_text.delta"@.len() == 26);
    assert("response.refusal.delta"@.len() == 22);
    assert("response.reasoning_summary_text.delta"@.len() == 37);
    assert("response.reasoning_text.delta"@.len() == 29);
    assert("response.function_call_arguments.delta"@.len() == 38);
}

// ---- laws -----------------------------------------------------------------------------------

/// Whether a stream has sent nothing yet.
pub open spec fn untold(chat: Chat) -> bool {
    !chat.started && !chat.ended && chat.texts.len() == 0 && chat.tools.len() == 0
}

proof fn stream_is_kept(chat: Chat, events: Seq<Tree>, count: int) -> (labels: Seq<Label>)
    requires
        untold(chat),
        0 <= count <= events.len(),
        forall|i: int| 0 <= i < count ==> placed(#[trigger] events[i]) && !failing(events[i]),
        forall|i: int| 0 <= i < count ==> !(#[trigger] ran(chat, events, i)).chat.ended,
        ran(chat, events, count).fault is None,
    ensures
        accounts(ran(chat, events, count).chunks, labels, ran(chat, events, count).chat),
        ran(chat, events, count).chat.ended ==> exists|at: int|
            0 <= at < labels.len() && (#[trigger] labels[at]) is Finish && forall|i: int|
                0 <= i < labels.len() && i != at ==> !((#[trigger] labels[i]) is Finish),
        count > 0 && ending(events[count - 1]) ==> ran(chat, events, count).chat.ended && forall|
            i: int,
        |
            0 <= i < list_of(events[count - 1].at("response"@).at("output"@)).len() ==> item_told(
                #[trigger] list_of(events[count - 1].at("response"@).at("output"@))[i],
                i as u64,
                ran(chat, events, count).chat.texts,
                ran(chat, events, count).chat.tools,
            ),
    decreases count,
{
    if count > 0 {
        let before = ran(chat, events, count - 1);
        let labels = stream_is_kept(chat, events, count - 1);
        assert(!before.chat.ended);
        assert(placed(events[count - 1]));
        event_is_kept(before.chunks, before.chat, labels, events[count - 1])
    } else {
        let none = Seq::<Label>::empty();
        assert forall|slot: Slot| #[trigger] told(Seq::empty(), none, slot) == held(
            chat.texts,
            slot,
        ) by {}
        assert forall|slot: Slot| #[trigger] argued(Seq::empty(), none, slot) == held(
            chat.tools,
            slot,
        ) by {}
        none
    }
}

/// The chunks of a chat stream tell the whole response: each can be put down to the text or the
/// call that it is sent for, so that the deltas of every part of a message make up the part's
/// text, and those of every call its arguments. The first chunk alone names the role, and one
/// alone has a reason to finish.
pub proof fn deltas_make_up_the_response(chat: Chat, events: Seq<Tree>)
    requires
        untold(chat),
        events.len() > 0,
        ending(events.last()),
        forall|i: int| 0 <= i < events.len() ==> placed(#[trigger] events[i]) && !failing(events[i]),
        forall|i: int|
            0 <= i < events.len() ==> !(#[trigger] ran(chat, events, i)).chat.ended,
        ran(chat, events, events.len() as int).fault is None,
    ensures
        exists|labels: Seq<Label>|
            #![trigger accounts(
                ran(chat, events, events.len() as int).chunks,
                labels,
                ran(chat, events, events.len() as int).chat,
            )]
            ({
                let chunks = ran(chat, events, events.len() as int).chunks;
                let output = list_of(events.last().at("response"@).at("output"@));
                &&& accounts(chunks, labels, ran(chat, events, events.len() as int).chat)
                &&& forall|i: int|
                    0 <= i < output.len() && (#[trigger] output[i]).at("type"@) == Tree::Text(
                        "function_call"@,
                    ) ==> argued(chunks, labels, (i as u64, 0u64, false)) == item_arguments(
                        output[i],
                    )
                &&& forall|i: int, j: int|
                    #![trigger message_parts(output[i])[j]]
                    0 <= i < output.len() && output[i].at("type"@) == Tree::Text("message"@) && 0
                        <= j < message_parts(output[i]).len() ==> told(
                        chunks,
                        labels,
                        (i as u64, j as u64, part_text(message_parts(output[i])[j]).0),
                    ) == part_text(message_parts(output[i])[j]).1
                &&& exists|at: int|
                    0 <= at < labels.len() && (#[trigger] labels[at]) is Finish && forall|i: int|
                        0 <= i < labels.len() && i != at ==> !((#[trigger] labels[i]) is Finish)
            }),
        ran(chat, events, events.len() as int).chat.ended,
{
    let done = ran(chat, events, events.len() as int);
    let labels = stream_is_kept(chat, events, events.len() as int);
    let output = list_of(events.last().at("response"@).at("output"@));
    assert forall|i: int|
        0 <= i < output.len() && (#[trigger] output[i]).at("type"@) == Tree::Text(
            "function_call"@,
        ) implies argued(done.chunks, labels, (i as u64, 0u64, false)) == item_arguments(
        output[i],
    ) by {
        assert(item_told(output[i], i as u64, done.chat.texts, done.chat.tools));
    }
    assert forall|i: int, j: int|
        #![trigger message_parts(output[i])[j]]
        0 <= i < output.len() && output[i].at("type"@) == Tree::Text("message"@) && 0 <= j
            < message_parts(output[i]).len() implies told(
        done.chunks,
        labels,
        (i as u64, j as u64, part_text(message_parts(output[i])[j]).0),
    ) == part_text(message_parts(output[i])[j]).1 by {
        assert(item_told(output[i], i as u64, done.chat.texts, done.chat.tools));
    }
}

} // verus!

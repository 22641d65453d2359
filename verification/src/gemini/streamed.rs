//! What a stream tells while a native response arrives.

use vstd::prelude::*;
use crate::chat::asked::plain_members;
use crate::gemini::conversation::list_of;
use crate::gemini::flow::{
    assembled, blank_text, first_of, item_event, joined, joins, last_of, members_of, merged_but,
    message_place, stamped, summary_place, Flow, Run,
};
use crate::gemini::parts::empty_object;
use crate::gemini::response::{is_signature, is_thought, number};
use crate::gemini::stream::run;
use crate::gemini::validate::response_check;
use crate::members::{member_laws, set_keeps_others, set_then_at};
use crate::table::find_from;
use crate::tree::Tree;

verus! {

/// What a native part says to the client.
pub open spec fn said_by(part: Tree) -> Seq<char> {
    match part.at("text"@) {
        Tree::Text(text) => if part.at("thought"@) == Tree::Bool(true) {
            Seq::empty()
        } else {
            text
        },
        _ => Seq::empty(),
    }
}

/// What a native part thinks.
pub open spec fn thought_by(part: Tree) -> Seq<char> {
    match part.at("text"@) {
        Tree::Text(text) => if part.at("thought"@) == Tree::Bool(true) {
            text
        } else {
            Seq::empty()
        },
        _ => Seq::empty(),
    }
}

/// What native parts say, one behind the other.
pub open spec fn said(parts: Seq<Tree>) -> Seq<char>
    decreases parts.len(),
{
    if parts.len() == 0 {
        Seq::empty()
    } else {
        said(parts.drop_last()) + said_by(parts.last())
    }
}

/// What native parts think, one behind the other.
pub open spec fn thought(parts: Seq<Tree>) -> Seq<char>
    decreases parts.len(),
{
    if parts.len() == 0 {
        Seq::empty()
    } else {
        thought(parts.drop_last()) + thought_by(parts.last())
    }
}

/// What the events of a kind add up to.
pub open spec fn deltas(events: Seq<Tree>, kind: Seq<char>) -> Seq<char>
    decreases events.len(),
{
    if events.len() == 0 {
        Seq::empty()
    } else {
        deltas(events.drop_last(), kind) + (if events.last().at("type"@) == Tree::Text(kind) {
            match events.last().at("delta"@) {
                Tree::Text(text) => text,
                _ => Seq::empty(),
            }
        } else {
            Seq::empty()
        })
    }
}

/// A native part as it is read: an object with each member once, whose text is a text.
pub open spec fn well_read(part: Tree) -> bool {
    plain_members(part) && (part.has("text"@) ==> part.at("text"@) is Text)
}

/// Parts whose texts are texts.
pub open spec fn worded(parts: Seq<Tree>) -> bool {
    forall|i: int|
        0 <= i < parts.len() ==> (#[trigger] parts[i]) is Object && (parts[i].has("text"@)
            ==> parts[i].at("text"@) is Text)
}

proof fn kinds_differ()
    ensures
        "response.output_text.delta"@ != "response.reasoning_summary_text.delta"@,
        "response.output_text.delta"@ != "response.output_text.done"@,
        "response.output_text.delta"@ != "response.content_part.done"@,
        "response.output_text.delta"@ != "response.reasoning_summary_part.added"@,
        "response.output_text.delta"@ != "response.output_item.added"@,
        "response.output_text.delta"@ != "response.content_part.added"@,
        "response.output_text.delta"@ != "response.function_call_arguments.delta"@,
        "response.output_text.delta"@ != "response.custom_tool_call_input.delta"@,
        "response.output_text.delta"@ != "response.created"@,
        "response.output_text.delta"@ != "response.in_progress"@,
        "response.reasoning_summary_text.delta"@ != "response.output_text.done"@,
        "response.reasoning_summary_text.delta"@ != "response.content_part.done"@,
        "response.reasoning_summary_text.delta"@ != "response.reasoning_summary_part.added"@,
        "response.reasoning_summary_text.delta"@ != "response.output_item.added"@,
        "response.reasoning_summary_text.delta"@ != "response.content_part.added"@,
        "response.reasoning_summary_text.delta"@ != "response.function_call_arguments.delta"@,
        "response.reasoning_summary_text.delta"@ != "response.custom_tool_call_input.delta"@,
        "response.reasoning_summary_text.delta"@ != "response.created"@,
        "response.reasoning_summary_text.delta"@ != "response.in_progress"@,
        "type"@ != "sequence_number"@,
        "delta"@ != "sequence_number"@,
        "delta"@ != "type"@,
        "text"@ != "thoughtSignature"@,
        "thought"@ != "thoughtSignature"@,
        "text"@ != "thought"@,
{
    reveal_strlit("response.output_text.delta");
    reveal_strlit("response.reasoning_summary_text.delta");
    reveal_strlit("response.output_text.done");
    reveal_strlit("response.content_part.done");
    reveal_strlit("response.reasoning_summary_part.added");
    reveal_strlit("response.output_item.added");
    reveal_strlit("response.content_part.added");
    reveal_strlit("response.function_call_arguments.delta");
    reveal_strlit("response.custom_tool_call_input.delta");
    reveal_strlit("response.created");
    reveal_strlit("response.in_progress");
    assert("response.output_text.delta"@.len() == 26);
    assert("response.reasoning_summary_text.delta"@.len() == 37);
    assert("response.output_text.done"@.len() == 25);
    assert("response.content_part.done"@.len() == 26);
    assert("response.reasoning_summary_part.added"@.len() == 37);
    assert("response.output_item.added"@.len() == 26);
    assert("response.content_part.added"@.len() == 27);
    assert("response.function_call_arguments.delta"@.len() == 38);
    assert("response.custom_tool_call_input.delta"@.len() == 37);
    assert("response.created"@.len() == 16);
    assert("response.in_progress"@.len() == 20);
    assert("response.output_text.delta"@[9] == 'o');
    assert("response.output_text.delta"@[16] == 't');
    assert("response.content_part.done"@[9] == 'c');
    assert("response.output_item.added"@[9] == 'o');
    assert("response.output_item.added"@[16] == 'i');
    assert("response.reasoning_summary_text.delta"@[9] == 'r');
    assert("response.reasoning_summary_text.delta"@[27] == 't');
    assert("response.reasoning_summary_part.added"@[9] == 'r');
    assert("response.reasoning_summary_part.added"@[27] == 'p');
    assert("response.custom_tool_call_input.delta"@[9] == 'c');
    reveal_strlit("type");
    reveal_strlit("sequence_number");
    reveal_strlit("delta");
    reveal_strlit("text");
    reveal_strlit("thoughtSignature");
    reveal_strlit("thought");
    assert("type"@.len() == 4);
    assert("sequence_number"@.len() == 15);
    assert("delta"@.len() == 5);
    assert("text"@.len() == 4);
    assert("thoughtSignature"@.len() == 16);
    assert("thought"@.len() == 7);
    assert("type"@[1] == 'y');
    assert("text"@[1] == 'e');
}

proof fn one_event_adds(turn: Run, kind: Seq<char>, event: Tree, of: Seq<char>)
    requires
        event is Object,
    ensures
        turn.emitted(kind, event).flow.parts == turn.flow.parts,
        turn.emitted(kind, event).fault == turn.fault,
        kind != of ==> deltas(turn.emitted(kind, event).events, of) == deltas(turn.events, of),
        kind == of && event.at("delta"@) is Text ==> deltas(turn.emitted(kind, event).events, of)
            == deltas(turn.events, of) + event.at("delta"@)->Text_0,
{
    broadcast use member_laws;

    kinds_differ();
    let told = stamped(event, kind, turn.flow.sequence);
    let typed = event.with("type"@, Tree::Text(kind));
    assert(typed is Object);
    assert(typed.at("type"@) == Tree::Text(kind));
    assert(told.at("type"@) == Tree::Text(kind));
    assert(told.at("delta"@) == event.at("delta"@));
    let events = turn.events.push(told);
    assert(events.drop_last() =~= turn.events);
    assert(deltas(turn.events, of) + Seq::<char>::empty() =~= deltas(turn.events, of));
}

proof fn places_are_objects(id: Seq<char>, index: nat, name: Seq<char>, value: Tree)
    ensures
        message_place(id, index).with(name, value) is Object,
        summary_place(id).with(name, value) is Object,
        message_place(id, index).with(name, value).at(name) == value,
        summary_place(id).with(name, value).at(name) == value,
        item_event(index, value) is Object,
{
    broadcast use set_then_at;

}

proof fn closing_says_nothing(turn: Run)
    requires
        turn.closed().fault is None,
    ensures
        turn.closed().flow.parts == turn.flow.parts,
        deltas(turn.closed().events, "response.output_text.delta"@) == deltas(
            turn.events,
            "response.output_text.delta"@,
        ),
        deltas(turn.closed().events, "response.reasoning_summary_text.delta"@) == deltas(
            turn.events,
            "response.reasoning_summary_text.delta"@,
        ),
{
    kinds_differ();
    if let Some(index) = turn.flow.active {
        let idle = Run { flow: Flow { active: None, ..turn.flow }, ..turn };
        let items = turn.flow.items()->Ok_0;
        let part = first_of(list_of(items[index - 1].at("content"@)));
        let place = message_place(turn.flow.id, index);
        places_are_objects(turn.flow.id, index, "text"@, part.at("text"@));
        places_are_objects(turn.flow.id, index, "part"@, part);
        let one = idle.emitted("response.output_text.done"@, place.with("text"@, part.at("text"@)));
        for_both_kinds(idle, "response.output_text.done"@, place.with("text"@, part.at("text"@)));
        for_both_kinds(one, "response.content_part.done"@, place.with("part"@, part));
    }
}

proof fn for_both_kinds(turn: Run, kind: Seq<char>, event: Tree)
    requires
        event is Object,
        kind != "response.output_text.delta"@,
        kind != "response.reasoning_summary_text.delta"@,
    ensures
        turn.emitted(kind, event).flow.parts == turn.flow.parts,
        turn.emitted(kind, event).fault == turn.fault,
        deltas(turn.emitted(kind, event).events, "response.output_text.delta"@) == deltas(
            turn.events,
            "response.output_text.delta"@,
        ),
        deltas(turn.emitted(kind, event).events, "response.reasoning_summary_text.delta"@)
            == deltas(turn.events, "response.reasoning_summary_text.delta"@),
{
    one_event_adds(turn, kind, event, "response.output_text.delta"@);
    one_event_adds(turn, kind, event, "response.reasoning_summary_text.delta"@);
}

proof fn thinking_is_told(turn: Run, text: Seq<char>)
    ensures
        turn.thought(text).flow.parts == turn.flow.parts,
        turn.thought(text).fault == turn.fault,
        deltas(turn.thought(text).events, "response.output_text.delta"@) == deltas(
            turn.events,
            "response.output_text.delta"@,
        ),
        deltas(turn.thought(text).events, "response.reasoning_summary_text.delta"@) == deltas(
            turn.events,
            "response.reasoning_summary_text.delta"@,
        ) + text,
{
    kinds_differ();
    let place = summary_place(turn.flow.id);
    let blank = empty_object().with("type"@, Tree::Text("summary_text"@)).with(
        "text"@,
        Tree::Text(""@),
    );
    places_are_objects(turn.flow.id, 0, "part"@, blank);
    places_are_objects(turn.flow.id, 0, "delta"@, Tree::Text(text));
    let begun = Run { flow: Flow { summary_open: true, ..turn.flow }, ..turn };
    for_both_kinds(
        begun,
        "response.reasoning_summary_part.added"@,
        place.with("part"@, blank),
    );
    let open = if turn.flow.summary_open {
        turn
    } else {
        begun.emitted("response.reasoning_summary_part.added"@, place.with("part"@, blank))
    };
    let grown = Run { flow: Flow { summary: open.flow.summary + text, ..open.flow }, ..open };
    let told = place.with("delta"@, Tree::Text(text));
    one_event_adds(
        grown,
        "response.reasoning_summary_text.delta"@,
        told,
        "response.output_text.delta"@,
    );
    one_event_adds(
        grown,
        "response.reasoning_summary_text.delta"@,
        told,
        "response.reasoning_summary_text.delta"@,
    );
}

proof fn opening_says_nothing(turn: Run)
    requires
        turn.opened().fault is None,
    ensures
        turn.opened().flow.parts == turn.flow.parts,
        deltas(turn.opened().events, "response.output_text.delta"@) == deltas(
            turn.events,
            "response.output_text.delta"@,
        ),
        deltas(turn.opened().events, "response.reasoning_summary_text.delta"@) == deltas(
            turn.events,
            "response.reasoning_summary_text.delta"@,
        ),
{
    kinds_differ();
    let items = turn.flow.items()->Ok_0;
    let index = items.len();
    let item = last_of(items).with("status"@, Tree::Text("in_progress"@)).with(
        "content"@,
        Tree::Array(Seq::empty()),
    );
    places_are_objects(turn.flow.id, index, "part"@, blank_text());
    places_are_objects(turn.flow.id, index, "item"@, item);
    let start = Run { flow: Flow { active: Some(index), ..turn.flow }, ..turn };
    for_both_kinds(start, "response.output_item.added"@, item_event(index, item));
    for_both_kinds(
        start.emitted("response.output_item.added"@, item_event(index, item)),
        "response.content_part.added"@,
        message_place(turn.flow.id, index).with("part"@, blank_text()),
    );
}

proof fn saying_is_told(turn: Run, text: Seq<char>)
    ensures
        turn.text(text).flow.parts == turn.flow.parts,
        turn.text(text).fault == turn.fault,
        deltas(turn.text(text).events, "response.output_text.delta"@) == deltas(
            turn.events,
            "response.output_text.delta"@,
        ) + text,
        deltas(turn.text(text).events, "response.reasoning_summary_text.delta"@) == deltas(
            turn.events,
            "response.reasoning_summary_text.delta"@,
        ),
{
    kinds_differ();
    let index = match turn.flow.active {
        Some(index) => index,
        None => 0,
    };
    let told = message_place(turn.flow.id, index).with("delta"@, Tree::Text(text));
    places_are_objects(turn.flow.id, index, "delta"@, Tree::Text(text));
    one_event_adds(turn, "response.output_text.delta"@, told, "response.output_text.delta"@);
    one_event_adds(
        turn,
        "response.output_text.delta"@,
        told,
        "response.reasoning_summary_text.delta"@,
    );
}

proof fn arguing_says_nothing(
    turn: Run,
    item: Tree,
    index: nat,
    kind: Seq<char>,
    field: Seq<char>,
    event: Seq<char>,
)
    requires
        event != "response.output_text.delta"@,
        event != "response.reasoning_summary_text.delta"@,
    ensures
        ({
            let after = turn.argued(item, index, kind, field, event);
            &&& after.flow.parts == turn.flow.parts
            &&& after.fault == turn.fault
            &&& deltas(after.events, "response.output_text.delta"@) == deltas(
                turn.events,
                "response.output_text.delta"@,
            )
            &&& deltas(after.events, "response.reasoning_summary_text.delta"@) == deltas(
                turn.events,
                "response.reasoning_summary_text.delta"@,
            )
        }),
{
    broadcast use set_then_at;

    if item.at("type"@) == Tree::Text(kind) {
        let told = empty_object().with("output_index"@, number(index as u64)).with(
            "item_id"@,
            item.at("id"@),
        ).with("delta"@, item.at(field));
        assert(told is Object);
        for_both_kinds(turn, event, told);
    }
}

proof fn whole_parts_say_nothing(turn: Run)
    requires
        turn.whole().fault is None,
    ensures
        turn.whole().flow.parts == turn.flow.parts,
        deltas(turn.whole().events, "response.output_text.delta"@) == deltas(
            turn.events,
            "response.output_text.delta"@,
        ),
        deltas(turn.whole().events, "response.reasoning_summary_text.delta"@) == deltas(
            turn.events,
            "response.reasoning_summary_text.delta"@,
        ),
{
    kinds_differ();
    let items = turn.flow.items()->Ok_0;
    let index = items.len();
    let item = last_of(items);
    let begun = item.with("status"@, Tree::Text("in_progress"@));
    let initial = if item.at("type"@) == Tree::Text("function_call"@) {
        begun.with("arguments"@, Tree::Text(""@))
    } else if item.at("type"@) == Tree::Text("custom_tool_call"@) {
        begun.with("input"@, Tree::Text(""@))
    } else {
        begun
    };
    places_are_objects(turn.flow.id, index, "item"@, initial);
    for_both_kinds(turn, "response.output_item.added"@, item_event(index, initial));
    let one = turn.emitted("response.output_item.added"@, item_event(index, initial));
    arguing_says_nothing(
        one,
        item,
        index,
        "function_call"@,
        "arguments"@,
        "response.function_call_arguments.delta"@,
    );
    let two = one.argued(
        item,
        index,
        "function_call"@,
        "arguments"@,
        "response.function_call_arguments.delta"@,
    );
    arguing_says_nothing(
        two,
        item,
        index,
        "custom_tool_call"@,
        "input"@,
        "response.custom_tool_call_input.delta"@,
    );
}

proof fn merging_takes_or_keeps(
    object: Tree,
    fields: Seq<(Seq<char>, Tree)>,
    from: int,
    but: Seq<char>,
    name: Seq<char>,
)
    requires
        0 <= from,
        object is Object,
        plain_members(Tree::Object(fields)),
    ensures
        merged_but(object, fields, from, but) is Object,
        merged_but(object, fields, from, but).get(but) == object.get(but),
        name != but ==> merged_but(object, fields, from, but).at(name) == (match find_from(
            fields,
            name,
            from,
        ) {
            Some(value) => value,
            None => object.at(name),
        }),
    decreases fields.len() - from,
{
    broadcast use member_laws;

    if from < fields.len() {
        let (key, value) = fields[from];
        if key == but {
            merging_takes_or_keeps(object, fields, from + 1, but, name);
        } else {
            set_keeps_others(object, key, value, but);
            let next = object.with(key, value);
            assert(next is Object);
            merging_takes_or_keeps(next, fields, from + 1, but, name);
            if key == name {
                crate::chat::asked::none_behind(fields, name, from, from + 1);
            } else {
                assert(next.at(name) == object.at(name));
            }
        }
    }
}

proof fn joined_parts_say_both(last: Tree, part: Tree)
    requires
        last is Object,
        last.at("text"@) is Text,
        well_read(part),
        part.at("text"@) is Text,
        is_thought(last) == is_thought(part),
    ensures
        ({
            let text = part.at("text"@)->Text_0;
            let both = joined(last, part, text);
            &&& both is Object
            &&& both.at("text"@) is Text
            &&& said_by(both) == said_by(last) + said_by(part)
            &&& thought_by(both) == thought_by(last) + thought_by(part)
        }),
{
    broadcast use member_laws;

    kinds_differ();
    let text = part.at("text"@)->Text_0;
    let longer = last.with("text"@, Tree::Text(last.at("text"@)->Text_0 + text));
    let both = joined(last, part, text);
    assert(longer is Object);
    assert(longer.at("thought"@) == last.at("thought"@));
    assert(members_of(part) == part->Object_0);
    merging_takes_or_keeps(longer, members_of(part), 0, "text"@, "thought"@);
    assert(both.at("text"@) == longer.at("text"@));
    let own = find_from(part->Object_0, "thought"@, 0);
    assert(part.get("thought"@) == own);
    assert(Seq::<char>::empty() + Seq::<char>::empty() =~= Seq::<char>::empty());
    assert((both.at("thought"@) == Tree::Bool(true)) == is_thought(part)) by {
        if own is None {
            assert(part.at("thought"@) is Null);
        }
    }
}

proof fn signatures_say_nothing(part: Tree)
    requires
        is_signature(part),
    ensures
        !(part.at("text"@) is Text),
{
    kinds_differ();
    let fields = part->Object_0;
    reveal_with_fuel(find_from, 3);
    assert(fields[0].0 == "thoughtSignature"@);
}

proof fn storing_keeps_the_words(turn: Run, part: Tree, merge: bool)
    requires
        merge == joins(turn.flow.parts, part),
        well_read(part),
        worded(turn.flow.parts),
        turn.stored(part, merge).fault is None,
    ensures
        ({
            let after = turn.stored(part, merge);
            &&& after.events == turn.events
            &&& worded(after.flow.parts)
            &&& said(after.flow.parts) == said(turn.flow.parts) + said_by(part)
            &&& thought(after.flow.parts) == thought(turn.flow.parts) + thought_by(part)
        }),
{
    broadcast use member_laws;

    kinds_differ();
    let parts = turn.flow.parts;
    let after = turn.stored(part, merge).flow.parts;
    if is_signature(part) {
        signatures_say_nothing(part);
        let last = parts.last();
        let signed = last.with("thoughtSignature"@, part.at("thoughtSignature"@));
        set_keeps_others(last, "thoughtSignature"@, part.at("thoughtSignature"@), "text"@);
        set_keeps_others(last, "thoughtSignature"@, part.at("thoughtSignature"@), "thought"@);
        assert(parts[parts.len() - 1] == last);
        assert(last is Object);
        assert(signed is Object);
        assert(after.drop_last() =~= parts.drop_last());
        assert(after.last() == signed);
        assert(said(parts) + Seq::<char>::empty() =~= said(parts));
        assert(thought(parts) + Seq::<char>::empty() =~= thought(parts));
    } else if merge {
        let last = parts.last();
        assert(parts[parts.len() - 1] == last);
        joined_parts_say_both(last, part);
        let both = joined(last, part, part.at("text"@)->Text_0);
        assert(after.drop_last() =~= parts.drop_last());
        assert(after.last() == both);
        assert(said(parts.drop_last()) + (said_by(last) + said_by(part)) =~= said(parts)
            + said_by(part));
        assert(thought(parts.drop_last()) + (thought_by(last) + thought_by(part)) =~= thought(
            parts,
        ) + thought_by(part));
    } else {
        assert(after.drop_last() =~= parts);
    }
}

proof fn announcing_tells_the_words(turn: Run, part: Tree, merge: bool)
    requires
        turn.announced(part, merge).fault is None,
    ensures
        ({
            let after = turn.announced(part, merge);
            &&& after.flow.parts == turn.flow.parts
            &&& deltas(after.events, "response.output_text.delta"@) == deltas(
                turn.events,
                "response.output_text.delta"@,
            ) + said_by(part)
            &&& deltas(after.events, "response.reasoning_summary_text.delta"@) == deltas(
                turn.events,
                "response.reasoning_summary_text.delta"@,
            ) + thought_by(part)
        }),
{
    let spoken = deltas(turn.events, "response.output_text.delta"@);
    let mused = deltas(turn.events, "response.reasoning_summary_text.delta"@);
    assert(spoken + Seq::<char>::empty() =~= spoken);
    assert(mused + Seq::<char>::empty() =~= mused);
    match part.at("text"@) {
        Tree::Text(text) => {
            if is_thought(part) {
                thinking_is_told(turn, text);
            } else if text.len() == 0 {
                assert(text =~= Seq::empty());
            } else if !merge || turn.flow.active is None {
                opening_says_nothing(turn);
                saying_is_told(turn.opened(), text);
            } else {
                saying_is_told(turn, text);
            }
        },
        _ => {
            if !is_thought(part) && !is_signature(part) {
                whole_parts_say_nothing(turn);
            }
        },
    }
}

/// A native part is told as it arrives: its text as a delta of the text, a thought as a delta of
/// the summary, and nothing else as either; and the parts that are gathered say the same.
pub proof fn parts_are_told_as_they_arrive(turn: Run, part: Tree)
    requires
        turn.fault is None,
        well_read(part),
        worded(turn.flow.parts),
        turn.part(part).fault is None,
    ensures
        ({
            let after = turn.part(part);
            &&& deltas(after.events, "response.output_text.delta"@) == deltas(
                turn.events,
                "response.output_text.delta"@,
            ) + said_by(part)
            &&& deltas(after.events, "response.reasoning_summary_text.delta"@) == deltas(
                turn.events,
                "response.reasoning_summary_text.delta"@,
            ) + thought_by(part)
            &&& said(after.flow.parts) == said(turn.flow.parts) + said_by(part)
            &&& thought(after.flow.parts) == thought(turn.flow.parts) + thought_by(part)
            &&& worded(after.flow.parts)
        }),
{
    let merge = joins(turn.flow.parts, part);
    let closes = !is_thought(part) && !merge && !is_signature(part);
    if closes {
        closing_says_nothing(turn);
    }
    let ready = if closes {
        turn.closed()
    } else {
        turn
    };
    storing_keeps_the_words(ready, part, merge);
    announcing_tells_the_words(ready.stored(part, merge), part, merge);
}

/// Native parts are told as they arrive: the deltas of the text add up to what the parts say, and
/// those of the summary to what they think, in order and without anything between.
#[verifier::rlimit(40)]
pub proof fn words_are_told_in_order(turn: Run, parts: Seq<Tree>, from: int)
    requires
        0 <= from <= parts.len(),
        turn.fault is None,
        forall|i: int| 0 <= i < parts.len() ==> well_read(#[trigger] parts[i]),
        worded(turn.flow.parts),
        turn.parts(parts, from).fault is None,
    ensures
        ({
            let after = turn.parts(parts, from);
            let rest = parts.subrange(from, parts.len() as int);
            &&& deltas(after.events, "response.output_text.delta"@) == deltas(
                turn.events,
                "response.output_text.delta"@,
            ) + said(rest)
            &&& deltas(after.events, "response.reasoning_summary_text.delta"@) == deltas(
                turn.events,
                "response.reasoning_summary_text.delta"@,
            ) + thought(rest)
            &&& said(after.flow.parts) == said(turn.flow.parts) + said(rest)
            &&& thought(after.flow.parts) == thought(turn.flow.parts) + thought(rest)
            &&& worded(after.flow.parts)
        }),
    decreases parts.len() - from,
{
    let rest = parts.subrange(from, parts.len() as int);
    if from < parts.len() {
        let part = parts[from];
        let one = turn.part(part);
        assert(well_read(part));
        parts_are_told_as_they_arrive(turn, part);
        words_are_told_in_order(one, parts, from + 1);
        let behind = parts.subrange(from + 1, parts.len() as int);
        assert(rest =~= seq![part] + behind);
        words_join(part, behind);
        let spoken = deltas(turn.events, "response.output_text.delta"@);
        let mused = deltas(turn.events, "response.reasoning_summary_text.delta"@);
        texts_join(spoken, said_by(part), said(behind));
        texts_join(mused, thought_by(part), thought(behind));
        texts_join(said(turn.flow.parts), said_by(part), said(behind));
        texts_join(thought(turn.flow.parts), thought_by(part), thought(behind));
        assert(said(rest) == said_by(part) + said(behind));
        assert(thought(rest) == thought_by(part) + thought(behind));
        assert(turn.parts(parts, from) == one.parts(parts, from + 1));
    } else {
        assert(rest =~= Seq::empty());
        let spoken = deltas(turn.events, "response.output_text.delta"@);
        let mused = deltas(turn.events, "response.reasoning_summary_text.delta"@);
        assert(spoken + said(rest) =~= spoken);
        assert(mused + thought(rest) =~= mused);
        assert(said(turn.flow.parts) + said(rest) =~= said(turn.flow.parts));
        assert(thought(turn.flow.parts) + thought(rest) =~= thought(turn.flow.parts));
    }
}

proof fn texts_join(a: Seq<char>, b: Seq<char>, c: Seq<char>)
    ensures
        a + b + c == a + (b + c),
{
    assert(a + b + c =~= a + (b + c));
}

proof fn words_join(part: Tree, behind: Seq<Tree>)
    ensures
        said(seq![part] + behind) == said_by(part) + said(behind),
        thought(seq![part] + behind) == thought_by(part) + thought(behind),
    decreases behind.len(),
{
    let all = seq![part] + behind;
    if behind.len() == 0 {
        assert(all.drop_last() =~= Seq::empty());
        assert(all.last() == part);
        assert(said(all.drop_last()) =~= Seq::empty());
        assert(thought(all.drop_last()) =~= Seq::empty());
        assert(said(behind) =~= Seq::empty());
        assert(thought(behind) =~= Seq::empty());
        assert(Seq::<char>::empty() + said_by(part) =~= said_by(part) + Seq::<char>::empty());
        assert(Seq::<char>::empty() + thought_by(part) =~= thought_by(part)
            + Seq::<char>::empty());
    } else {
        let front = behind.drop_last();
        assert(all.drop_last() =~= seq![part] + front);
        assert(all.last() == behind.last());
        words_join(part, front);
        texts_join(said_by(part), said(front), said_by(behind.last()));
        texts_join(thought_by(part), thought(front), thought_by(behind.last()));
    }
}

proof fn beginnings_say_nothing(turn: Run)
    ensures
        turn.begun().flow.parts == turn.flow.parts,
        turn.begun().flow.calls == turn.flow.calls,
        turn.begun().fault == turn.fault,
        deltas(turn.begun().events, "response.output_text.delta"@) == deltas(
            turn.events,
            "response.output_text.delta"@,
        ),
        deltas(turn.begun().events, "response.reasoning_summary_text.delta"@) == deltas(
            turn.events,
            "response.reasoning_summary_text.delta"@,
        ),
{
    broadcast use set_then_at;

    kinds_differ();
    if !turn.flow.started {
        let response = empty_object().with("id"@, Tree::Text("resp_"@ + turn.flow.id)).with(
            "object"@,
            Tree::Text("response"@),
        ).with("model"@, Tree::Text(turn.flow.request.response_model)).with(
            "status"@,
            Tree::Text("in_progress"@),
        ).with("output"@, Tree::Array(Seq::empty())).with("usage"@, Tree::Null);
        let event = empty_object().with("response"@, response);
        let item = empty_object().with("id"@, Tree::Text("rs_"@ + turn.flow.id)).with(
            "type"@,
            Tree::Text("reasoning"@),
        ).with("summary"@, Tree::Array(Seq::empty()));
        let start = Run { flow: Flow { started: true, ..turn.flow }, ..turn };
        places_are_objects(turn.flow.id, 0, "item"@, item);
        for_both_kinds(start, "response.created"@, event);
        let one = start.emitted("response.created"@, event);
        for_both_kinds(one, "response.in_progress"@, event);
        let two = one.emitted("response.in_progress"@, event);
        for_both_kinds(two, "response.output_item.added"@, item_event(0, item));
    }
}

/// What a chunk of a stream says and thinks is told in the events of that chunk, whole and in
/// order, and is added to what the stream has gathered.
#[verifier::rlimit(40)]
pub proof fn chunks_are_told(flow: Flow, chunk: Tree, ready: Seq<Tree>, after: Flow, events: Seq<Tree>)
    requires
        !chunk.has("error"@),
        flow.request.output_schema is None,
        flow.fed(chunk) == (after, Ok::<Seq<Tree>, Seq<char>>(events)),
        worded(flow.parts),
        list_of(chunk.at("candidates"@)).len() > 0,
        list_of(chunk.at("candidates"@))[0].at("content"@).at("parts"@) is Array,
        assembled(
            flow.calls,
            list_of(list_of(chunk.at("candidates"@))[0].at("content"@).at("parts"@)),
            0,
            Seq::empty(),
        ).1 == Ok::<Seq<Tree>, Seq<char>>(ready),
        forall|i: int| 0 <= i < ready.len() ==> well_read(#[trigger] ready[i]),
    ensures
        deltas(events, "response.output_text.delta"@) == said(ready),
        deltas(events, "response.reasoning_summary_text.delta"@) == thought(ready),
        said(after.parts) == said(flow.parts) + said(ready),
        thought(after.parts) == thought(flow.parts) + thought(ready),
        worded(after.parts),
{
    let start = run(flow, Seq::empty());
    beginnings_say_nothing(start);
    let begun = start.begun();
    let candidate = list_of(chunk.at("candidates"@))[0];
    let parts = list_of(candidate.at("content"@).at("parts"@));
    let (calls, _) = assembled(flow.calls, parts, 0, Seq::empty());
    let turn = Run { flow: Flow { calls, ..begun.flow }, ..begun };
    reveal(Flow::taken);
    let done = flow.taken(chunk);
    let held = begun.candidate(candidate);
    assert(done.fault is None);
    assert(response_check(chunk) is Ok);
    assert(held.fault is Some ==> done == held);
    assert(held.fault is None);
    assert(turn.parts(ready, 0).fault is None);
    assert(held.events == turn.parts(ready, 0).events);
    assert(held.flow.parts == turn.parts(ready, 0).flow.parts);
    assert(events == held.events);
    assert(after.parts == held.flow.parts);
    words_are_told_in_order(turn, ready, 0);
    assert(ready.subrange(0, ready.len() as int) =~= ready);
    assert(deltas(start.events, "response.output_text.delta"@) =~= Seq::empty());
    assert(deltas(start.events, "response.reasoning_summary_text.delta"@) =~= Seq::empty());
    assert(Seq::<char>::empty() + said(ready) =~= said(ready));
    assert(Seq::<char>::empty() + thought(ready) =~= thought(ready));
}

} // verus!

//! The request that follows an answer: one that has the answer's output in its input.

use vstd::prelude::*;
use crate::exchange::{readable, settled};
use crate::gemini::conversation::{item_check, list_of, turn, Talk};
use crate::gemini::items::{calls_in, kind_of, replay_calls, talk_from};
use crate::gemini::parts::{empty_object, string_of, text_part};
use crate::gemini::provider::Thinking;
use crate::gemini::replay::opened;
use crate::gemini::request::{
    closed, configured, conversation, converted, declared, extended, generation, kept,
    known_parameter, member_added, members_added, opening, parameters_check, plain_body, repeated,
    request_check, settings_added, Converted,
};
use crate::gemini::response::{
    answer_carrier, answer_items, answer_parts, answer_turn, converted_response, opens_again,
    reasoning_item, summary_from,
};
use crate::gemini::stream::lacks;
use crate::gemini::turns::{
    altered_turns_are_refused, answers_are_replayed, as_held, bodies_hold_the_conversation,
    calls_among, calls_are_named, output_stays, reasoning_shape, sealed_turns_keep_all,
};
use crate::members::{member_laws, set_keeps_others, set_then_get};
use crate::table::{put, put_adds_one};
use crate::tree::Tree;

verus! {

// ---- a request with another input --------------------------------------------------------------

proof fn other_members_stay(asked: Tree, input: Tree, key: Seq<char>)
    requires
        key != "input"@,
    ensures
        asked.with("input"@, input).get(key) == asked.get(key),
        asked.with("input"@, input).at(key) == asked.at(key),
{
    set_keeps_others(asked, "input"@, input, key);
}

proof fn members_stay(asked: Tree, input: Tree)
    ensures
        ({
            let again = asked.with("input"@, input);
            &&& again.get("stream"@) == asked.get("stream"@)
            &&& again.get("store"@) == asked.get("store"@)
            &&& again.get("parallel_tool_calls"@) == asked.get("parallel_tool_calls"@)
            &&& again.get("gemini"@) == asked.get("gemini"@)
            &&& again.get("truncation"@) == asked.get("truncation"@)
            &&& again.get("service_tier"@) == asked.get("service_tier"@)
            &&& again.get("include"@) == asked.get("include"@)
            &&& again.get("model"@) == asked.get("model"@)
            &&& again.get("tools"@) == asked.get("tools"@)
            &&& again.get("instructions"@) == asked.get("instructions"@)
            &&& again.get("max_output_tokens"@) == asked.get("max_output_tokens"@)
            &&& again.get("temperature"@) == asked.get("temperature"@)
            &&& again.get("top_p"@) == asked.get("top_p"@)
            &&& again.get("reasoning"@) == asked.get("reasoning"@)
            &&& again.get("text"@) == asked.get("text"@)
            &&& again.get("tool_choice"@) == asked.get("tool_choice"@)
        }),
{
    reveal_strlit("input");
    reveal_strlit("stream");
    reveal_strlit("store");
    reveal_strlit("parallel_tool_calls");
    reveal_strlit("gemini");
    reveal_strlit("truncation");
    reveal_strlit("service_tier");
    reveal_strlit("include");
    reveal_strlit("model");
    reveal_strlit("tools");
    reveal_strlit("instructions");
    reveal_strlit("max_output_tokens");
    reveal_strlit("temperature");
    reveal_strlit("top_p");
    reveal_strlit("reasoning");
    reveal_strlit("text");
    reveal_strlit("tool_choice");
    assert("input"@.len() == 5);
    assert("input"@[0] == 'i');
    assert("stream"@.len() == 6);
    assert("store"@[0] == 's');
    assert("parallel_tool_calls"@.len() == 19);
    assert("gemini"@.len() == 6);
    assert("truncation"@.len() == 10);
    assert("service_tier"@.len() == 12);
    assert("include"@.len() == 7);
    assert("model"@[0] == 'm');
    assert("tools"@[0] == 't');
    assert("instructions"@.len() == 12);
    assert("max_output_tokens"@.len() == 17);
    assert("temperature"@.len() == 11);
    assert("top_p"@[0] == 't');
    assert("reasoning"@.len() == 9);
    assert("text"@.len() == 4);
    assert("tool_choice"@.len() == 11);
    other_members_stay(asked, input, "stream"@);
    other_members_stay(asked, input, "store"@);
    other_members_stay(asked, input, "parallel_tool_calls"@);
    other_members_stay(asked, input, "gemini"@);
    other_members_stay(asked, input, "truncation"@);
    other_members_stay(asked, input, "service_tier"@);
    other_members_stay(asked, input, "include"@);
    other_members_stay(asked, input, "model"@);
    other_members_stay(asked, input, "tools"@);
    other_members_stay(asked, input, "instructions"@);
    other_members_stay(asked, input, "max_output_tokens"@);
    other_members_stay(asked, input, "temperature"@);
    other_members_stay(asked, input, "top_p"@);
    other_members_stay(asked, input, "reasoning"@);
    other_members_stay(asked, input, "text"@);
    other_members_stay(asked, input, "tool_choice"@);
}

proof fn parameters_are_known(fields: Seq<(Seq<char>, Tree)>, from: int, i: int)
    requires
        0 <= from <= i < fields.len(),
        parameters_check(fields, from) is Ok,
    ensures
        known_parameter(fields[i].0),
    decreases fields.len() - from,
{
    if from < i {
        parameters_are_known(fields, from + 1, i);
    }
}

proof fn known_parameters_pass(fields: Seq<(Seq<char>, Tree)>, from: int)
    requires
        0 <= from,
        forall|i: int| 0 <= i < fields.len() ==> known_parameter((#[trigger] fields[i]).0),
    ensures
        parameters_check(fields, from) is Ok,
    decreases fields.len() - from,
{
    if from < fields.len() {
        assert(known_parameter(fields[from].0));
        known_parameters_pass(fields, from + 1);
    }
}

proof fn requests_pass_again(asked: Tree, input: Tree)
    requires
        request_check(asked) is Ok,
    ensures
        request_check(asked.with("input"@, input)) is Ok,
{
    let fields = asked->Object_0;
    let after = put(fields, "input"@, input);
    members_stay(asked, input);
    put_adds_one(fields, "input"@, input);
    assert forall|i: int| 0 <= i < after.len() implies known_parameter(
        (#[trigger] after[i]).0,
    ) by {
        if after[i] != ("input"@, input) {
            assert(fields.contains(after[i]));
            let k = choose|k: int| 0 <= k < fields.len() && fields[k] == after[i];
            parameters_are_known(fields, 0, k);
        }
    }
    known_parameters_pass(after, 0);
}

/// Whether two native bodies differ in their contents and instructions alone.
pub open spec fn bodies_alike(a: Tree, b: Tree) -> bool {
    &&& a is Object
    &&& b is Object
    &&& forall|name: Seq<char>|
        name != "contents"@ && name != "systemInstruction"@ ==> #[trigger] a.get(name) == b.get(
            name,
        )
}

proof fn setting_keeps_alike(a: Tree, b: Tree, key: Seq<char>, value: Tree)
    requires
        bodies_alike(a, b),
    ensures
        bodies_alike(a.with(key, value), b.with(key, value)),
{
    set_then_get(a, key, value);
    set_then_get(b, key, value);
    assert forall|name: Seq<char>|
        name != "contents"@ && name != "systemInstruction"@ implies #[trigger] a.with(
        key,
        value,
    ).get(name) == b.with(key, value).get(name) by {
        if name != key {
            set_keeps_others(a, key, value, name);
            set_keeps_others(b, key, value, name);
            assert(a.get(name) == b.get(name));
        }
    }
}

proof fn own_members_do_not_matter(a: Tree, b: Tree, key: Seq<char>, value: Tree)
    requires
        bodies_alike(a, b),
        key == "contents"@ || key == "systemInstruction"@,
    ensures
        bodies_alike(a.with(key, value), b),
        bodies_alike(a, b.with(key, value)),
{
    assert forall|name: Seq<char>|
        name != "contents"@ && name != "systemInstruction"@ implies #[trigger] a.with(
        key,
        value,
    ).get(name) == b.get(name) by {
        set_keeps_others(a, key, value, name);
        assert(a.get(name) == b.get(name));
    }
    assert forall|name: Seq<char>|
        name != "contents"@ && name != "systemInstruction"@ implies #[trigger] a.get(name)
        == b.with(key, value).get(name) by {
        set_keeps_others(b, key, value, name);
        assert(a.get(name) == b.get(name));
    }
}

proof fn plain_bodies_are_alike(
    contents: Seq<Tree>,
    others: Seq<Tree>,
    settings: Tree,
    system: Seq<Tree>,
    told: Seq<Tree>,
    declarations: Seq<Tree>,
)
    ensures
        bodies_alike(
            plain_body(contents, settings, system, declarations),
            plain_body(others, settings, told, declarations),
        ),
{
    let none = empty_object();
    let a = none.with("contents"@, Tree::Array(contents));
    let b = none.with("contents"@, Tree::Array(others));
    own_members_do_not_matter(none, none, "contents"@, Tree::Array(contents));
    own_members_do_not_matter(a, none, "contents"@, Tree::Array(others));
    setting_keeps_alike(a, b, "generationConfig"@, settings);
    let a = a.with("generationConfig"@, settings);
    let b = b.with("generationConfig"@, settings);
    let first = empty_object().with("parts"@, Tree::Array(system));
    let second = empty_object().with("parts"@, Tree::Array(told));
    own_members_do_not_matter(a, b, "systemInstruction"@, first);
    let a = if system.len() > 0 {
        a.with("systemInstruction"@, first)
    } else {
        a
    };
    own_members_do_not_matter(a, b, "systemInstruction"@, second);
    let b = if told.len() > 0 {
        b.with("systemInstruction"@, second)
    } else {
        b
    };
    let list = Tree::Array(
        seq![empty_object().with("functionDeclarations"@, Tree::Array(declarations))],
    );
    setting_keeps_alike(a, b, "tools"@, list);
}

proof fn alike_members_are_added(a: Tree, b: Tree, name: Seq<char>, value: Tree)
    requires
        bodies_alike(a, b),
        member_added(a, name, value) is Ok,
    ensures
        member_added(b, name, value) is Ok,
        bodies_alike(member_added(a, name, value)->Ok_0, member_added(b, name, value)->Ok_0),
{
    assert(a.get(name) == b.get(name));
    assert("tools"@ != "contents"@ && "tools"@ != "systemInstruction"@ && "generationConfig"@
        != "contents"@ && "generationConfig"@ != "systemInstruction"@) by {
        reveal_strlit("contents");
        reveal_strlit("tools");
        reveal_strlit("generationConfig");
        reveal_strlit("systemInstruction");
        assert("contents"@.len() == 8);
        assert("tools"@.len() == 5);
        assert("generationConfig"@.len() == 16);
        assert("systemInstruction"@.len() == 17);
    }
    assert(a.get("tools"@) == b.get("tools"@));
    assert(a.get("generationConfig"@) == b.get("generationConfig"@));
    let next = member_added(a, name, value)->Ok_0;
    if name == "tools"@ {
        setting_keeps_alike(a, b, name, next.at("tools"@));
        set_then_get(a, name, Tree::Array(
            list_of(a.at("tools"@)) + value.items()->Some_0,
        ));
    } else if name == "generationConfig"@ {
        let settings = settings_added(
            a.at("generationConfig"@),
            value.fields()->Some_0,
            0,
        )->Ok_0;
        setting_keeps_alike(a, b, name, settings);
    } else {
        setting_keeps_alike(a, b, name, value);
    }
}

proof fn alike_bodies_are_extended(
    a: Tree,
    b: Tree,
    fields: Seq<(Seq<char>, Tree)>,
    from: int,
)
    requires
        bodies_alike(a, b),
        members_added(a, fields, from) is Ok,
    ensures
        members_added(b, fields, from) is Ok,
    decreases fields.len() - from,
{
    if 0 <= from < fields.len() {
        alike_members_are_added(a, b, fields[from].0, fields[from].1);
        alike_bodies_are_extended(
            member_added(a, fields[from].0, fields[from].1)->Ok_0,
            member_added(b, fields[from].0, fields[from].1)->Ok_0,
            fields,
            from + 1,
        );
    }
}

/// A request that is converted is converted with any other input too, exactly where the
/// conversation of that input is, and for the same model.
#[verifier::rlimit(30)]
pub proof fn inputs_alone_decide(
    asked: Tree,
    url: Seq<char>,
    thinking: Thinking,
    key: Seq<u8>,
    request: Converted,
    input: Tree,
)
    requires
        converted(asked, url, thinking, key) == Ok::<Converted, Seq<char>>(request),
    ensures
        ({
            let again = asked.with("input"@, input);
            &&& opening(again) is Ok
            &&& converted(again, url, thinking, key) is Ok == conversation(
                again,
                key,
                request.model,
            ) is Ok
            &&& converted(again, url, thinking, key) matches Ok(done) ==> done.model
                == request.model && done.tools == request.tools
        }),
{
    let again = asked.with("input"@, input);
    members_stay(asked, input);
    requests_pass_again(asked, input);
    assert(string_of(again, "model"@) == string_of(asked, "model"@));
    assert(declared(again) == declared(asked));
    assert(opening(again) == opening(asked));
    let tools = declared(asked)->Ok_0;
    let model = request.model;
    assert(generation(again, thinking, model) == generation(asked, thinking, model));
    let set = configured(asked, thinking, model, tools.names, tools.tools.len() > 0);
    assert(configured(again, thinking, model, tools.names, tools.tools.len() > 0) == set);
    if let Ok(talk) = conversation(again, key, model) {
        let old = conversation(asked, key, model)->Ok_0;
        let (settings, choice, schema) = set->Ok_0;
        let a = plain_body(old.contents, settings, old.system, tools.declarations);
        let b = plain_body(talk.contents, settings, talk.system, tools.declarations);
        plain_bodies_are_alike(
            old.contents,
            talk.contents,
            settings,
            old.system,
            talk.system,
            tools.declarations,
        );
        if let Some(choice) = choice {
            setting_keeps_alike(a, b, "toolConfig"@, choice);
        }
        let a = match choice {
            Some(choice) => a.with("toolConfig"@, choice),
            None => a,
        };
        let b = match choice {
            Some(choice) => b.with("toolConfig"@, choice),
            None => b,
        };
        if let Some(native) = asked.at("gemini"@).get("native_request"@) {
            alike_bodies_are_extended(a, b, native->Object_0, 0);
        }
        assert(extended(again, b) is Ok);
    }
}

// ---- the answer as input -----------------------------------------------------------------------

pub(crate) proof fn keeping_lacks(
    fields: Seq<(Seq<char>, Tree)>,
    request: Tree,
    key: Seq<char>,
    name: Seq<char>,
)
    requires
        lacks(fields, name),
        key != name,
    ensures
        lacks(kept(fields, request, key), name),
{
    if let Some(value) = request.get(key) {
        put_adds_one(fields, key, value);
        let after = put(fields, key, value);
        assert forall|i: int| 0 <= i < after.len() implies (#[trigger] after[i]).0 != name by {
            if after[i] != (key, value) {
                assert(fields.contains(after[i]));
                let k = choose|k: int| 0 <= k < fields.len() && fields[k] == after[i];
                assert(fields[k].0 != name);
            }
        }
    }
}

proof fn others_are_not_repeated(request: Tree, name: Seq<char>)
    requires
        name.len() == 6,
    ensures
        lacks(repeated(request), name),
{
    reveal(repeated);
    reveal_strlit("metadata");
    reveal_strlit("client_metadata");
    reveal_strlit("reasoning");
    reveal_strlit("text");
    reveal_strlit("instructions");
    reveal_strlit("max_output_tokens");
    reveal_strlit("temperature");
    reveal_strlit("top_p");
    reveal_strlit("tool_choice");
    reveal_strlit("tools");
    reveal_strlit("prompt_cache_key");
    reveal_strlit("prompt_cache_retention");
    reveal_strlit("safety_identifier");
    reveal_strlit("user");
    reveal_strlit("service_tier");
    reveal_strlit("truncation");
    assert("metadata"@.len() == 8);
    assert("client_metadata"@.len() == 15);
    assert("reasoning"@.len() == 9);
    assert("text"@.len() == 4);
    assert("instructions"@.len() == 12);
    assert("max_output_tokens"@.len() == 17);
    assert("temperature"@.len() == 11);
    assert("top_p"@.len() == 5);
    assert("tool_choice"@.len() == 11);
    assert("tools"@.len() == 5);
    assert("prompt_cache_key"@.len() == 16);
    assert("prompt_cache_retention"@.len() == 22);
    assert("safety_identifier"@.len() == 17);
    assert("user"@.len() == 4);
    assert("service_tier"@.len() == 12);
    assert("truncation"@.len() == 10);
    let none = Seq::<(Seq<char>, Tree)>::empty();
    keeping_lacks(none, request, "metadata"@, name);
    let one = kept(none, request, "metadata"@);
    keeping_lacks(one, request, "client_metadata"@, name);
    let two = kept(one, request, "client_metadata"@);
    keeping_lacks(two, request, "reasoning"@, name);
    let three = kept(two, request, "reasoning"@);
    keeping_lacks(three, request, "text"@, name);
    let four = kept(three, request, "text"@);
    keeping_lacks(four, request, "instructions"@, name);
    let five = kept(four, request, "instructions"@);
    keeping_lacks(five, request, "max_output_tokens"@, name);
    let six = kept(five, request, "max_output_tokens"@);
    keeping_lacks(six, request, "temperature"@, name);
    let seven = kept(six, request, "temperature"@);
    keeping_lacks(seven, request, "top_p"@, name);
    let eight = kept(seven, request, "top_p"@);
    keeping_lacks(eight, request, "tool_choice"@, name);
    let nine = kept(eight, request, "tool_choice"@);
    keeping_lacks(nine, request, "tools"@, name);
    let ten = kept(nine, request, "tools"@);
    keeping_lacks(ten, request, "prompt_cache_key"@, name);
    let eleven = kept(ten, request, "prompt_cache_key"@);
    keeping_lacks(eleven, request, "prompt_cache_retention"@, name);
    let twelve = kept(eleven, request, "prompt_cache_retention"@);
    keeping_lacks(twelve, request, "safety_identifier"@, name);
    let thirteen = kept(twelve, request, "safety_identifier"@);
    keeping_lacks(thirteen, request, "user"@, name);
    let fourteen = kept(thirteen, request, "user"@);
    keeping_lacks(fourteen, request, "service_tier"@, name);
    let fifteen = kept(fourteen, request, "service_tier"@);
    keeping_lacks(fifteen, request, "truncation"@, name);
}

/// A response repeats nothing of its request that could stand in the place of its output or
/// its status.
pub proof fn results_are_not_repeated(request: Tree)
    ensures
        lacks(repeated(request), "output"@),
        lacks(repeated(request), "status"@),
{
    reveal_strlit("output");
    reveal_strlit("status");
    assert("output"@.len() == 6);
    assert("status"@.len() == 6);
    others_are_not_repeated(request, "output"@);
    others_are_not_repeated(request, "status"@);
}

/// Whether an answer can be sent back: it is no error, and its turn reads back from the
/// carrier.
pub open spec fn returnable(
    native: Tree,
    request: Converted,
    key: Seq<u8>,
    id: Seq<char>,
    nonce: Seq<u8>,
) -> bool {
    &&& !native.has("error"@)
    &&& readable(answer_turn(native, request, id), 127)
    &&& as_held(Tree::Array(answer_parts(native)))
    &&& opens_again(native, request, key, id, nonce)
}

proof fn replays_look_no_further(
    expected: Seq<Tree>,
    from: int,
    items: Seq<Tree>,
    at: int,
    native: Seq<Tree>,
    used: int,
    calls: Seq<(Seq<char>, (Seq<char>, Option<Seq<char>>))>,
    all: Seq<Tree>,
    off: int,
)
    requires
        0 <= from,
        0 <= at,
        0 <= off,
        off + items.len() <= all.len(),
        all.subrange(off, off + items.len()) == items,
        replay_calls(expected, from, items, at, native, used, calls) is Ok,
    ensures
        replay_calls(expected, from, all, off + at, native, used, calls) == replay_calls(
            expected,
            from,
            items,
            at,
            native,
            used,
            calls,
        ),
        from < expected.len() ==> at + expected.len() < items.len(),
    decreases expected.len() - from,
{
    if from < expected.len() {
        let actual = items[at + 1 + from];
        assert(all.subrange(off, off + items.len())[at + 1 + from] == all[off + at + 1 + from]);
        match actual.at("call_id"@).text() {
            None => replays_look_no_further(
                expected,
                from + 1,
                items,
                at,
                native,
                used,
                calls,
                all,
                off,
            ),
            Some(id) => {
                let name = string_of(native[used], "name"@)->Ok_0;
                replays_look_no_further(
                    expected,
                    from + 1,
                    items,
                    at,
                    native,
                    used + 1,
                    put(calls, id, (name, native[used].at("id"@).text())),
                    all,
                    off,
                );
            },
        }
    }
}

/// A conversation whose items stand within others goes the same way, and then on from there.
pub proof fn talks_go_on(
    items: Seq<Tree>,
    from: int,
    talk: Talk,
    key: Seq<u8>,
    model: Seq<char>,
    after: Talk,
    all: Seq<Tree>,
    off: int,
)
    requires
        0 <= from <= items.len(),
        0 <= off,
        off + items.len() <= all.len(),
        all.subrange(off, off + items.len()) == items,
        talk_from(items, from, talk, key, model) == Ok::<Talk, Seq<char>>(after),
    ensures
        talk_from(all, off + from, talk, key, model) == talk_from(
            all,
            off + items.len(),
            after,
            key,
            model,
        ),
    decreases items.len() - from,
{
    if from < items.len() {
        let item = items[from];
        assert(all.subrange(off, off + items.len())[from] == all[off + from]);
        if kind_of(item) == "reasoning"@ {
            let (next, passed) = talk.replayed(items, from, key, model)->Ok_0;
            let carrier = string_of(item, "encrypted_content"@)->Ok_0;
            let sealed = opened(key, model, carrier)->Ok_0;
            let expected = sealed.at("items"@).items()->Some_0;
            let parts = sealed.at("parts"@).items()->Some_0;
            replays_look_no_further(
                expected,
                0,
                items,
                from,
                calls_in(parts, 0, Seq::empty()),
                0,
                talk.calls,
                all,
                off,
            );
            assert(talk.replayed(all, off + from, key, model) == talk.replayed(
                items,
                from,
                key,
                model,
            ));
            assert(off + from + 1 + passed == off + (from + 1 + passed));
            talks_go_on(items, from + 1 + passed as int, next, key, model, after, all, off);
        } else {
            let next = if kind_of(item) == "message"@ {
                talk.said(item)
            } else if kind_of(item) == "function_call"@ || kind_of(item) == "custom_tool_call"@ {
                talk.called(item, kind_of(item) == "custom_tool_call"@)
            } else if kind_of(item) == "function_call_output"@ || kind_of(item)
                == "custom_tool_call_output"@ {
                talk.answered(item)
            } else {
                talk.quoted(item)
            };
            assert(off + from + 1 == off + (from + 1));
            talks_go_on(items, from + 1, next->Ok_0, key, model, after, all, off);
        }
    }
}

proof fn last_replays_are_alike(
    expected: Seq<Tree>,
    from: int,
    items: Seq<Tree>,
    at: int,
    native: Seq<Tree>,
    used: int,
    calls: Seq<(Seq<char>, (Seq<char>, Option<Seq<char>>))>,
    all: Seq<Tree>,
    off: int,
)
    requires
        0 <= from,
        0 <= at,
        0 <= off,
        off + items.len() == all.len(),
        all.subrange(off, all.len() as int) == items,
    ensures
        replay_calls(expected, from, all, off + at, native, used, calls) == replay_calls(
            expected,
            from,
            items,
            at,
            native,
            used,
            calls,
        ),
    decreases expected.len() - from,
{
    if from < expected.len() && at + 1 + from < items.len() {
        let actual = items[at + 1 + from];
        assert(all.subrange(off, all.len() as int)[at + 1 + from] == all[off + at + 1 + from]);
        match actual.at("call_id"@).text() {
            None => last_replays_are_alike(
                expected,
                from + 1,
                items,
                at,
                native,
                used,
                calls,
                all,
                off,
            ),
            Some(id) => if used < native.len() && string_of(native[used], "name"@) is Ok {
                let name = string_of(native[used], "name"@)->Ok_0;
                last_replays_are_alike(
                    expected,
                    from + 1,
                    items,
                    at,
                    native,
                    used + 1,
                    put(calls, id, (name, native[used].at("id"@).text())),
                    all,
                    off,
                );
            },
        }
    }
}

proof fn last_talks_are_alike(
    items: Seq<Tree>,
    from: int,
    talk: Talk,
    key: Seq<u8>,
    model: Seq<char>,
    all: Seq<Tree>,
    off: int,
)
    requires
        0 <= from,
        0 <= off,
        off + items.len() == all.len(),
        all.subrange(off, all.len() as int) == items,
    ensures
        talk_from(all, off + from, talk, key, model) == talk_from(items, from, talk, key, model),
    decreases
            if from < items.len() {
                items.len() - from
            } else {
                0
            },
{
    if from < items.len() {
        let item = items[from];
        let kind = kind_of(item);
        assert(all.subrange(off, all.len() as int)[from] == all[off + from]);
        if kind == "reasoning"@ {
            if let Ok(carrier) = string_of(item, "encrypted_content"@) {
                if let Ok(sealed) = opened(key, model, carrier) {
                    if sealed.at("items"@) is Array && sealed.at("parts"@) is Array {
                        last_replays_are_alike(
                            sealed.at("items"@).items()->Some_0,
                            0,
                            items,
                            from,
                            calls_in(sealed.at("parts"@).items()->Some_0, 0, Seq::empty()),
                            0,
                            talk.calls,
                            all,
                            off,
                        );
                    }
                }
            }
            let done = talk.replayed(items, from, key, model);
            assert(talk.replayed(all, off + from, key, model) == done);
            if let Ok((next, passed)) = done {
                assert(off + from + 1 + passed == off + (from + 1 + passed));
                last_talks_are_alike(items, from + 1 + passed as int, next, key, model, all, off);
            }
        } else {
            let next = if kind == "message"@ {
                talk.said(item)
            } else if kind == "function_call"@ || kind == "custom_tool_call"@ {
                talk.called(item, kind == "custom_tool_call"@)
            } else if kind == "function_call_output"@ || kind == "custom_tool_call_output"@ {
                talk.answered(item)
            } else if kind == "gemini_content"@ {
                talk.quoted(item)
            } else {
                Err(Seq::empty())
            };
            if let Ok(next) = next {
                assert(off + from + 1 == off + (from + 1));
                last_talks_are_alike(items, from + 1, next, key, model, all, off);
            }
        }
    }
}

proof fn talks_do_not_shrink(
    items: Seq<Tree>,
    from: int,
    talk: Talk,
    key: Seq<u8>,
    model: Seq<char>,
)
    requires
        talk_from(items, from, talk, key, model) is Ok,
    ensures
        talk_from(items, from, talk, key, model)->Ok_0.contents.len() >= talk.contents.len(),
    decreases
            if from < items.len() {
                items.len() - from
            } else {
                0
            },
{
    if 0 <= from < items.len() {
        let item = items[from];
        if kind_of(item) == "reasoning"@ {
            let (next, passed) = talk.replayed(items, from, key, model)->Ok_0;
            talks_do_not_shrink(items, from + 1 + passed as int, next, key, model);
        } else {
            let next = if kind_of(item) == "message"@ {
                talk.said(item)
            } else if kind_of(item) == "function_call"@ || kind_of(item) == "custom_tool_call"@ {
                talk.called(item, kind_of(item) == "custom_tool_call"@)
            } else if kind_of(item) == "function_call_output"@ || kind_of(item)
                == "custom_tool_call_output"@ {
                talk.answered(item)
            } else {
                talk.quoted(item)
            };
            assert(next->Ok_0.contents.len() >= talk.contents.len());
            talks_do_not_shrink(items, from + 1, next->Ok_0, key, model);
        }
    }
}

proof fn talks_join(
    front: Seq<Tree>,
    output: Seq<Tree>,
    back: Seq<Tree>,
    start: Talk,
    before: Talk,
    next: Talk,
    key: Seq<u8>,
    model: Seq<char>,
)
    requires
        talk_from(front, 0, start, key, model) == Ok::<Talk, Seq<char>>(before),
        talk_from(output, 0, before, key, model) == Ok::<Talk, Seq<char>>(next),
    ensures
        talk_from(front + output + back, 0, start, key, model) == talk_from(
            back,
            0,
            next,
            key,
            model,
        ),
        talk_from(back, 0, next, key, model) matches Ok(last) ==> last.contents.len()
            >= next.contents.len(),
{
    let all = front + output + back;
    let middle = front.len() + output.len();
    assert(all.subrange(0, front.len() as int) =~= front);
    assert(all.subrange(front.len() as int, middle as int) =~= output);
    assert(all.subrange(middle as int, all.len() as int) =~= back);
    talks_go_on(front, 0, start, key, model, before, all, 0);
    talks_go_on(output, 0, before, key, model, next, all, front.len() as int);
    last_talks_are_alike(back, 0, next, key, model, all, middle as int);
    if talk_from(back, 0, next, key, model) is Ok {
        talks_do_not_shrink(back, 0, next, key, model);
    }
}

#[verifier::rlimit(30)]
proof fn talks_convert(
    asked: Tree,
    url: Seq<char>,
    thinking: Thinking,
    key: Seq<u8>,
    request: Converted,
    items: Seq<Tree>,
)
    requires
        converted(asked, url, thinking, key) == Ok::<Converted, Seq<char>>(request),
        talk_from(items, 0, opening(asked)->Ok_0, key, request.model) matches Ok(last)
            ==> last.contents.len() > 0,
    ensures
        ({
            let last = talk_from(items, 0, opening(asked)->Ok_0, key, request.model);
            let done = converted(asked.with("input"@, Tree::Array(items)), url, thinking, key);
            &&& done is Ok == last is Ok
            &&& done is Ok ==> {
                &&& done->Ok_0.model == request.model
                &&& done->Ok_0.tools == request.tools
                &&& done->Ok_0.body.at("contents"@) == Tree::Array(
                    closed(last->Ok_0.contents)->Ok_0,
                )
            }
        }),
{
    let again = asked.with("input"@, Tree::Array(items));
    let last = talk_from(items, 0, opening(asked)->Ok_0, key, request.model);
    inputs_alone_decide(asked, url, thinking, key, request, Tree::Array(items));
    assert(conversation(again, key, request.model) is Ok == last is Ok && (last matches Ok(last)
        ==> conversation(again, key, request.model)->Ok_0.contents == closed(
        last.contents,
    )->Ok_0)) by {
        members_stay(asked, Tree::Array(items));
        set_then_get(asked, "input"@, Tree::Array(items));
        assert(opening(again) == opening(asked));
    }
    if last is Ok {
        bodies_hold_the_conversation(
            again,
            url,
            thinking,
            key,
            converted(again, url, thinking, key)->Ok_0,
        );
    }
}

proof fn own_turns_are_closed(parts: Seq<Tree>)
    ensures
        closed(seq![turn("model"@, parts)]) == Ok::<Seq<Tree>, Seq<char>>(
            seq![turn("model"@, parts), turn("user"@, seq![text_part("Continue."@)])],
        ),
{
    broadcast use member_laws;

    let own = turn("model"@, parts);
    reveal_strlit("role");
    reveal_strlit("parts");
    assert("role"@.len() == 4);
    assert("parts"@.len() == 5);
    assert(own.at("role"@) == Tree::Text("model"@));
    assert(seq![own].push(turn("user"@, seq![text_part("Continue."@)])) =~= seq![
        own,
        turn("user"@, seq![text_part("Continue."@)]),
    ]);
}

/// A request that can be converted and names the model of an answer takes the answer's output
/// anywhere in its input. The whole request is then converted exactly where what stands behind
/// the output is: it goes to the model with the very native parts that the model gave,
/// signatures included, in a turn of their own behind what stands before the output.
#[verifier::rlimit(30)]
pub proof fn answers_are_taken_up(
    asked: Tree,
    url: Seq<char>,
    thinking: Thinking,
    key: Seq<u8>,
    request: Converted,
    native: Tree,
    id: Seq<char>,
    created_at: u64,
    nonce: Seq<u8>,
    response: Tree,
    other: Tree,
    known: Converted,
    front: Seq<Tree>,
    before: Talk,
    back: Seq<Tree>,
)
    requires
        converted(asked, url, thinking, key) == Ok::<Converted, Seq<char>>(request),
        converted_response(native, request, key, id, created_at, nonce) == Ok::<Tree, Seq<char>>(
            response,
        ),
        returnable(native, request, key, id, nonce),
        calls_are_named(
            answer_parts(native),
            calls_among(answer_items(native, request, id)),
        ),
        converted(other, url, thinking, key) == Ok::<Converted, Seq<char>>(known),
        known.model == request.model,
        talk_from(front, 0, opening(other)->Ok_0, key, request.model) == Ok::<Talk, Seq<char>>(
            before,
        ),
    ensures
        response.at("output"@) is Array,
        ({
            let output = response.at("output"@).items()->Some_0;
            let next = talk_from(output, 0, before, key, request.model);
            let last = talk_from(back, 0, next->Ok_0, key, request.model);
            let done = converted(
                other.with("input"@, Tree::Array(front + output + back)),
                url,
                thinking,
                key,
            );
            &&& next is Ok
            &&& next->Ok_0.contents == before.contents.push(turn("model"@, answer_parts(native)))
            &&& done is Ok == last is Ok
            &&& done is Ok ==> {
                &&& done->Ok_0.model == request.model
                &&& done->Ok_0.tools == known.tools
                &&& done->Ok_0.body.at("contents"@) == Tree::Array(
                    closed(last->Ok_0.contents)->Ok_0,
                )
            }
        }),
{
    results_are_not_repeated(asked);
    answers_are_replayed(native, request, key, id, created_at, nonce, response, before);
    let output = response.at("output"@).items()->Some_0;
    let next = talk_from(output, 0, before, key, request.model)->Ok_0;
    let start = opening(other)->Ok_0;
    talks_join(front, output, back, start, before, next, key, request.model);
    talks_convert(other, url, thinking, key, known, front + output + back);
}

/// A request that can be converted, names the model of an answer and has nothing but the
/// answer's output as its input is converted: the model goes on from its own native parts.
#[verifier::rlimit(30)]
pub proof fn answers_are_continued(
    asked: Tree,
    url: Seq<char>,
    thinking: Thinking,
    key: Seq<u8>,
    request: Converted,
    native: Tree,
    id: Seq<char>,
    created_at: u64,
    nonce: Seq<u8>,
    response: Tree,
    other: Tree,
    known: Converted,
)
    requires
        converted(asked, url, thinking, key) == Ok::<Converted, Seq<char>>(request),
        converted_response(native, request, key, id, created_at, nonce) == Ok::<Tree, Seq<char>>(
            response,
        ),
        returnable(native, request, key, id, nonce),
        calls_are_named(
            answer_parts(native),
            calls_among(answer_items(native, request, id)),
        ),
        converted(other, url, thinking, key) == Ok::<Converted, Seq<char>>(known),
        known.model == request.model,
    ensures
        ({
            let done = converted(
                other.with("input"@, response.at("output"@)),
                url,
                thinking,
                key,
            );
            &&& done is Ok
            &&& done->Ok_0.model == request.model
            &&& done->Ok_0.tools == known.tools
            &&& done->Ok_0.body.at("contents"@) == Tree::Array(
                seq![
                    turn("model"@, answer_parts(native)),
                    turn("user"@, seq![text_part("Continue."@)]),
                ],
            )
        }),
{
    let none = Seq::<Tree>::empty();
    let start = opening(other)->Ok_0;
    answers_are_taken_up(
        asked,
        url,
        thinking,
        key,
        request,
        native,
        id,
        created_at,
        nonce,
        response,
        other,
        known,
        none,
        start,
        none,
    );
    let output = response.at("output"@).items()->Some_0;
    assert(none + output + none =~= output);
    assert(start.contents.push(turn("model"@, answer_parts(native))) =~= seq![
        turn("model"@, answer_parts(native)),
    ]);
    own_turns_are_closed(answer_parts(native));
}

proof fn altered_outputs_are_refused(
    native: Tree,
    request: Converted,
    key: Seq<u8>,
    id: Seq<char>,
    created_at: u64,
    nonce: Seq<u8>,
    response: Tree,
    before: Talk,
    sent: Seq<Tree>,
    k: int,
)
    requires
        converted_response(native, request, key, id, created_at, nonce) == Ok::<Tree, Seq<char>>(
            response,
        ),
        returnable(native, request, key, id, nonce),
        lacks(request.response_fields, "output"@),
        0 < sent.len(),
        sent[0] == response.at("output"@)->Array_0[0],
        0 < k < response.at("output"@)->Array_0.len(),
        k >= sent.len() || item_check(response.at("output"@)->Array_0[k], sent[k]) is Err,
    ensures
        talk_from(sent, 0, before, key, request.model) is Err,
{
    output_stays(native, request, key, id, created_at, nonce, response);
    sealed_turns_keep_all(native, request, id);
    let carried = answer_carrier(native, request, key, id, nonce)->Ok_0;
    let summary = summary_from(answer_parts(native), 0, Seq::empty());
    let items = answer_items(native, request, id);
    reasoning_shape(id, summary, carried);
    assert(response.at("output"@)->Array_0[0] == reasoning_item(id, summary, carried));
    assert(response.at("output"@)->Array_0[k] == items[k - 1]);
    altered_turns_are_refused(
        before,
        sent,
        0,
        key,
        request.model,
        carried,
        settled(answer_turn(native, request, id)),
        items,
        k - 1,
    );
}

/// An answer's output of which an item is altered or left out is refused, wherever it stands
/// in the input of a request: the whole request is.
#[verifier::rlimit(30)]
pub proof fn altered_answers_are_refused(
    asked: Tree,
    url: Seq<char>,
    thinking: Thinking,
    key: Seq<u8>,
    request: Converted,
    native: Tree,
    id: Seq<char>,
    created_at: u64,
    nonce: Seq<u8>,
    response: Tree,
    other: Tree,
    known: Converted,
    front: Seq<Tree>,
    before: Talk,
    sent: Seq<Tree>,
    k: int,
)
    requires
        converted(asked, url, thinking, key) == Ok::<Converted, Seq<char>>(request),
        converted_response(native, request, key, id, created_at, nonce) == Ok::<Tree, Seq<char>>(
            response,
        ),
        returnable(native, request, key, id, nonce),
        converted(other, url, thinking, key) == Ok::<Converted, Seq<char>>(known),
        known.model == request.model,
        talk_from(front, 0, opening(other)->Ok_0, key, request.model) == Ok::<Talk, Seq<char>>(
            before,
        ),
        0 < sent.len(),
        sent[0] == response.at("output"@)->Array_0[0],
        0 < k < response.at("output"@)->Array_0.len(),
        k >= sent.len() || item_check(response.at("output"@)->Array_0[k], sent[k]) is Err,
    ensures
        converted(other.with("input"@, Tree::Array(front + sent)), url, thinking, key) is Err,
{
    let all = front + sent;
    let start = opening(other)->Ok_0;
    results_are_not_repeated(asked);
    altered_outputs_are_refused(
        native,
        request,
        key,
        id,
        created_at,
        nonce,
        response,
        before,
        sent,
        k,
    );
    assert(all.subrange(0, front.len() as int) =~= front);
    assert(all.subrange(front.len() as int, all.len() as int) =~= sent);
    talks_go_on(front, 0, start, key, request.model, before, all, 0);
    last_talks_are_alike(sent, 0, before, key, request.model, all, front.len() as int);
    talks_convert(other, url, thinking, key, known, all);
}

} // verus!

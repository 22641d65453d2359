//! What a native request keeps of the request that it is made from.

use vstd::prelude::*;
use vstd::utf8::encode_utf8;
use crate::exchange::parsed;
use crate::gemini::conversation::{
    call_arguments, continues, list_of, opening_instruction, pushed, turn, Talk,
};
use crate::gemini::items::{kind_of, talk_from};
use crate::gemini::parts::{empty_object, string_of, text_part};
use crate::gemini::provider::Thinking;
use crate::gemini::request::{
    carried, configured, conversation, converted, declared, formatted, generation, input_items,
    member_added, members_added, opening, plain_body, settings_added, thinking_config, Converted,
};
use crate::gemini::tools::{declaration, identity, native_name, tools_added, ToolView, Tools};
use crate::members::{member_laws, set_keeps_others, set_then_get};
use crate::table::{cut_keeps_others, find, put_keeps_others, put_then_find};
use crate::text::after;
use crate::tree::{NumberView, Tree};

verus! {

// ---- extensions -----------------------------------------------------------------------------

proof fn added_settings_keep(settings: Tree, fields: Seq<(Seq<char>, Tree)>, from: int, name: Seq<char>)
    requires
        settings_added(settings, fields, from) is Ok,
        settings is Object,
        settings.has(name),
    ensures
        settings_added(settings, fields, from)->Ok_0 is Object,
        settings_added(settings, fields, from)->Ok_0.get(name) == settings.get(name),
    decreases fields.len() - from,
{
    if 0 <= from < fields.len() {
        let (key, value) = fields[from];
        set_then_get(settings, key, value);
        set_keeps_others(settings, key, value, name);
        added_settings_keep(settings.with(key, value), fields, from + 1, name);
    }
}

proof fn added_settings_are_objects(settings: Tree, fields: Seq<(Seq<char>, Tree)>, from: int)
    requires
        settings_added(settings, fields, from) is Ok,
        settings is Object,
    ensures
        settings_added(settings, fields, from)->Ok_0 is Object,
    decreases fields.len() - from,
{
    if 0 <= from < fields.len() {
        let (key, value) = fields[from];
        set_then_get(settings, key, value);
        added_settings_are_objects(settings.with(key, value), fields, from + 1);
    }
}

proof fn body_names_differ()
    ensures
        "contents"@ != "generationConfig"@,
        "contents"@ != "systemInstruction"@,
        "contents"@ != "tools"@,
        "contents"@ != "toolConfig"@,
        "generationConfig"@ != "systemInstruction"@,
        "generationConfig"@ != "tools"@,
        "generationConfig"@ != "toolConfig"@,
        "systemInstruction"@ != "tools"@,
        "systemInstruction"@ != "toolConfig"@,
        "tools"@ != "toolConfig"@,
{
    reveal_strlit("contents");
    reveal_strlit("generationConfig");
    reveal_strlit("systemInstruction");
    reveal_strlit("tools");
    reveal_strlit("toolConfig");
    assert("contents"@.len() == 8);
    assert("generationConfig"@.len() == 16);
    assert("systemInstruction"@.len() == 17);
    assert("tools"@.len() == 5);
    assert("toolConfig"@.len() == 10);
}

/// Whether a body holds what another does, and nothing else in its place.
spec fn holds(body: Tree, after: Tree) -> bool {
    &&& after is Object
    &&& after.at("generationConfig"@) is Object
    &&& forall|name: Seq<char>|
        name != "tools"@ && name != "generationConfig"@ && body.has(name) ==> #[trigger] after.get(
            name,
        ) == body.get(name)
    &&& forall|name: Seq<char>|
        body.at("generationConfig"@).has(name) ==> #[trigger] after.at("generationConfig"@).get(
            name,
        ) == body.at("generationConfig"@).get(name)
    &&& list_of(after.at("tools"@)).len() >= list_of(body.at("tools"@)).len()
    &&& forall|i: int|
        0 <= i < list_of(body.at("tools"@)).len() ==> #[trigger] list_of(after.at("tools"@))[i]
            == list_of(body.at("tools"@))[i]
}

proof fn members_hold(body: Tree, name: Seq<char>, value: Tree)
    requires
        member_added(body, name, value) is Ok,
        body is Object,
        body.at("generationConfig"@) is Object,
    ensures
        holds(body, member_added(body, name, value)->Ok_0),
{
    let after = member_added(body, name, value)->Ok_0;
    body_names_differ();
    let set = after.at(name);
    if name == "tools"@ {
        let all = Tree::Array(list_of(body.at("tools"@)) + value.items()->Some_0);
        set_then_get(body, name, all);
        assert forall|other: Seq<char>|
            other != "tools"@ && other != "generationConfig"@ && body.has(
                other,
            ) implies #[trigger] after.get(other) == body.get(other) by {
            set_keeps_others(body, name, all, other);
        }
        set_keeps_others(body, name, all, "generationConfig"@);
    } else if name == "generationConfig"@ {
        let settings = body.at("generationConfig"@);
        let fields = value.fields()->Some_0;
        let more = settings_added(settings, fields, 0)->Ok_0;
        added_settings_are_objects(settings, fields, 0);
        set_then_get(body, name, more);
        assert forall|other: Seq<char>|
            other != "tools"@ && other != "generationConfig"@ && body.has(
                other,
            ) implies #[trigger] after.get(other) == body.get(other) by {
            set_keeps_others(body, name, more, other);
        }
        assert forall|other: Seq<char>| settings.has(other) implies #[trigger] after.at(
            "generationConfig"@,
        ).get(other) == settings.get(other) by {
            added_settings_keep(settings, fields, 0, other);
        }
        set_keeps_others(body, name, more, "tools"@);
    } else {
        set_then_get(body, name, value);
        assert forall|other: Seq<char>|
            other != "tools"@ && other != "generationConfig"@ && body.has(
                other,
            ) implies #[trigger] after.get(other) == body.get(other) by {
            set_keeps_others(body, name, value, other);
        }
        set_keeps_others(body, name, value, "tools"@);
        set_keeps_others(body, name, value, "generationConfig"@);
    }
}

proof fn extensions_hold(body: Tree, fields: Seq<(Seq<char>, Tree)>, from: int)
    requires
        members_added(body, fields, from) is Ok,
        body is Object,
        body.at("generationConfig"@) is Object,
    ensures
        holds(body, members_added(body, fields, from)->Ok_0),
    decreases fields.len() - from,
{
    if 0 <= from < fields.len() {
        let next = member_added(body, fields[from].0, fields[from].1)->Ok_0;
        members_hold(body, fields[from].0, fields[from].1);
        extensions_hold(next, fields, from + 1);
        let after = members_added(body, fields, from)->Ok_0;
        assert forall|name: Seq<char>|
            name != "tools"@ && name != "generationConfig"@ && body.has(
                name,
            ) implies #[trigger] after.get(name) == body.get(name) by {
            assert(next.get(name) == body.get(name));
        }
        assert forall|name: Seq<char>| body.at("generationConfig"@).has(
            name,
        ) implies #[trigger] after.at("generationConfig"@).get(name) == body.at(
            "generationConfig"@,
        ).get(name) by {
            assert(next.at("generationConfig"@).get(name) == body.at("generationConfig"@).get(name));
        }
        assert forall|i: int|
            0 <= i < list_of(body.at("tools"@)).len() implies #[trigger] list_of(
            after.at("tools"@),
        )[i] == list_of(body.at("tools"@))[i] by {
            assert(list_of(next.at("tools"@))[i] == list_of(body.at("tools"@))[i]);
        }
    }
}

proof fn settings_are_objects(request: Tree, thinking: Thinking, model: Seq<char>, names: Seq<(Seq<char>, Seq<char>)>, any: bool)
    requires
        configured(request, thinking, model, names, any) is Ok,
    ensures
        configured(request, thinking, model, names, any)->Ok_0.0 is Object,
{
    broadcast use member_laws;

    assert(generation(request, thinking, model)->Ok_0 is Object);
}

/// The parts that a native body is made of, wherever it extends them.
proof fn bodies_are_made(
    request: Tree,
    url: Seq<char>,
    thinking: Thinking,
    key: Seq<u8>,
    done: Converted,
)
    requires
        converted(request, url, thinking, key) == Ok::<Converted, Seq<char>>(done),
    ensures
        ({
            let talk = conversation(request, key, done.model)->Ok_0;
            let tools = declared(request)->Ok_0;
            let set = configured(
                request,
                thinking,
                done.model,
                tools.names,
                tools.tools.len() > 0,
            );
            let (settings, choice, schema) = set->Ok_0;
            &&& conversation(request, key, done.model) is Ok
            &&& declared(request) is Ok
            &&& set is Ok
            &&& done.tools == tools.tools
            &&& done.output_schema == schema
            &&& done.body.at("contents"@) == Tree::Array(talk.contents)
            &&& talk.system.len() > 0 ==> done.body.at("systemInstruction"@).at("parts"@)
                == Tree::Array(talk.system)
            &&& tools.declarations.len() > 0 ==> list_of(done.body.at("tools"@)).len() > 0
                && list_of(done.body.at("tools"@))[0].at("functionDeclarations"@) == Tree::Array(
                tools.declarations,
            )
            &&& forall|name: Seq<char>|
                settings.has(name) ==> #[trigger] done.body.at("generationConfig"@).get(name)
                    == settings.get(name)
            &&& choice matches Some(choice) ==> done.body.at("toolConfig"@) == choice
        }),
{
    let talk = conversation(request, key, done.model)->Ok_0;
    let tools = declared(request)->Ok_0;
    let (settings, choice, schema) = configured(
        request,
        thinking,
        done.model,
        tools.names,
        tools.tools.len() > 0,
    )->Ok_0;
    settings_are_objects(request, thinking, done.model, tools.names, tools.tools.len() > 0);
    body_names_differ();
    let plain = plain_body(talk.contents, settings, talk.system, tools.declarations);
    let list = Tree::Array(
        seq![empty_object().with("functionDeclarations"@, Tree::Array(tools.declarations))],
    );
    let told = empty_object().with("parts"@, Tree::Array(talk.system));
    assert(plain is Object && plain.get("contents"@) == Some(Tree::Array(talk.contents))
        && plain.get("generationConfig"@) == Some(settings) && (talk.system.len() > 0 ==> plain.get(
        "systemInstruction"@,
    ) == Some(told)) && (tools.declarations.len() > 0 ==> plain.get("tools"@) == Some(list))) by {
        let none = empty_object();
        let one = none.with("contents"@, Tree::Array(talk.contents));
        let two = one.with("generationConfig"@, settings);
        set_then_get(none, "contents"@, Tree::Array(talk.contents));
        set_then_get(one, "generationConfig"@, settings);
        set_keeps_others(one, "generationConfig"@, settings, "contents"@);
        set_then_get(two, "systemInstruction"@, told);
        set_keeps_others(two, "systemInstruction"@, told, "contents"@);
        set_keeps_others(two, "systemInstruction"@, told, "generationConfig"@);
        let three = if talk.system.len() > 0 {
            two.with("systemInstruction"@, told)
        } else {
            two
        };
        set_then_get(three, "tools"@, list);
        set_keeps_others(three, "tools"@, list, "contents"@);
        set_keeps_others(three, "tools"@, list, "generationConfig"@);
        set_keeps_others(three, "tools"@, list, "systemInstruction"@);
    }
    let chosen = match choice {
        Some(choice) => plain.with("toolConfig"@, choice),
        None => plain,
    };
    if let Some(choice) = choice {
        set_then_get(plain, "toolConfig"@, choice);
        set_keeps_others(plain, "toolConfig"@, choice, "contents"@);
        set_keeps_others(plain, "toolConfig"@, choice, "generationConfig"@);
        set_keeps_others(plain, "toolConfig"@, choice, "systemInstruction"@);
        set_keeps_others(plain, "toolConfig"@, choice, "tools"@);
    }
    set_then_get(empty_object(), "parts"@, Tree::Array(talk.system));
    set_then_get(empty_object(), "functionDeclarations"@, Tree::Array(tools.declarations));
    if let Some(native) = request.at("gemini"@).get("native_request"@) {
        extensions_hold(chosen, native->Object_0, 0);
    }
    assert(holds(chosen, done.body)) by {
        if request.at("gemini"@).get("native_request"@) is None {
            assert(done.body == chosen);
        }
    }
    let body = done.body;
    assert(body.get("contents"@) == chosen.get("contents"@));
    assert(chosen.has("systemInstruction"@) ==> body.get("systemInstruction"@) == chosen.get(
        "systemInstruction"@,
    ));
    assert(chosen.has("toolConfig"@) ==> body.get("toolConfig"@) == chosen.get("toolConfig"@));
    assert(chosen.at("generationConfig"@) == settings);
    if tools.declarations.len() > 0 {
        assert(list_of(chosen.at("tools"@)) =~= list->Array_0);
        assert(list_of(body.at("tools"@))[0] == list_of(chosen.at("tools"@))[0]);
    }
}


// ---- tools ----------------------------------------------------------------------------------

proof fn declarations_tell(tool: Tree, native: Seq<char>, custom: bool)
    ensures
        ({
            let told = declaration(tool, native, custom);
            &&& told.get("description"@) == tool.get("description"@)
            &&& told.at("name"@) == Tree::Text(native)
            &&& !custom && tool.has("parameters"@) ==> told.at("parametersJsonSchema"@) == tool.at(
                "parameters"@,
            )
            &&& custom ==> told.at("parametersJsonSchema"@).at("properties"@).at("input"@).at(
                "type"@,
            ) == Tree::Text("string"@)
        }),
{
    broadcast use member_laws;

    names_of_declarations();
    let none = empty_object();
    let named = none.with("name"@, Tree::Text(native));
    let told = declaration(tool, native, custom);
    let schema = crate::gemini::tools::tool_schema(tool, custom);
    let plain = named.with("parametersJsonSchema"@, schema);
    set_keeps_others(none, "name"@, Tree::Text(native), "description"@);
    set_keeps_others(named, "parametersJsonSchema"@, schema, "description"@);
    assert(none.get("description"@) is None);
    assert(plain.at("name"@) == Tree::Text(native));
    assert(plain.at("parametersJsonSchema"@) == schema);
    if let Some(description) = tool.get("description"@) {
        set_then_get(plain, "description"@, description);
    }
    assert(told.at("name"@) == Tree::Text(native));
    assert(told.at("parametersJsonSchema"@) == schema);
    if custom {
        let kinds = none.with("type"@, Tree::Text("object"@));
        let input = none.with("input"@, none.with("type"@, Tree::Text("string"@)));
        assert(kinds.with("properties"@, input).at("properties"@) == input);
        assert(schema.at("properties"@) == input);
        assert(input.at("input"@).at("type"@) == Tree::Text("string"@));
    }
}

proof fn tools_stand_in_order(list: Seq<Tree>, from: int, state: Tools)
    requires
        0 <= from <= list.len(),
        tools_added(list, from, ""@, state) is Ok,
        forall|i: int|
            0 <= i < list.len() ==> (#[trigger] list[i]).at("type"@) != Tree::Text("namespace"@),
    ensures
        ({
            let all = tools_added(list, from, ""@, state)->Ok_0.declarations;
            &&& all.len() == state.declarations.len() + list.len() - from
            &&& forall|i: int| 0 <= i < state.declarations.len() ==> all[i] == state.declarations[i]
            &&& forall|i: int|
                from <= i < list.len() ==> ({
                    let tool = #[trigger] list[i];
                    let told = all[state.declarations.len() + i - from];
                    &&& tool.at("type"@) == Tree::Text("function"@) || tool.at("type"@)
                        == Tree::Text("custom"@)
                    &&& tool.at("type"@) == Tree::Text("function"@) && tool.has("parameters"@)
                        ==> told.at("parametersJsonSchema"@) == tool.at("parameters"@)
                    &&& tool.at("type"@) == Tree::Text("custom"@) ==> told.at(
                        "parametersJsonSchema"@,
                    ).at("properties"@).at("input"@).at("type"@) == Tree::Text("string"@)
                    &&& told.get("description"@) == tool.get("description"@)
                    &&& told.at("name"@) is Text
                })
        }),
    decreases list.len() - from,
{
    if from < list.len() {
        let tool = list[from];
        let kind = string_of(tool, "type"@)->Ok_0;
        assert(kind != "namespace"@);
        let next = state.added(tool, kind, ""@)->Ok_0;
        let told = next.declarations.last();
        declarations_tell(tool, native_name(""@ + string_of(tool, "name"@)->Ok_0), kind == "custom"@);
        names_of_declarations();
        tools_stand_in_order(list, from + 1, next);
        let all = tools_added(list, from, ""@, state)->Ok_0.declarations;
        assert(all[state.declarations.len() as int] == next.declarations[state.declarations.len() as int]);
        assert forall|i: int| 0 <= i < state.declarations.len() implies all[i]
            == state.declarations[i] by {
            assert(all[i] == next.declarations[i]);
        }
        assert forall|i: int| from < i < list.len() implies #[trigger] list[i] == list[i] && next.declarations.len() + i - (from + 1) == state.declarations.len() + i - from by {}
    }
}

proof fn names_of_declarations()
    ensures
        "name"@ != "parametersJsonSchema"@,
        "name"@ != "description"@,
        "parametersJsonSchema"@ != "description"@,
        "type"@ != "properties"@,
        "type"@ != "required"@,
        "properties"@ != "required"@,
        "function"@ != "custom"@,
        "function"@ != "namespace"@,
        "custom"@ != "namespace"@,
{
    reveal_strlit("name");
    reveal_strlit("parametersJsonSchema");
    reveal_strlit("description");
    reveal_strlit("type");
    reveal_strlit("properties");
    reveal_strlit("required");
    reveal_strlit("function");
    reveal_strlit("custom");
    reveal_strlit("namespace");
    assert("name"@.len() == 4);
    assert("parametersJsonSchema"@.len() == 20);
    assert("description"@.len() == 11);
    assert("type"@.len() == 4);
    assert("properties"@.len() == 10);
    assert("required"@.len() == 8);
    assert("function"@.len() == 8);
    assert("custom"@.len() == 6);
    assert("namespace"@.len() == 9);
    assert("name"@[0] == 'n');
    assert("type"@[0] == 't');
    assert("required"@[0] == 'r');
    assert("function"@[0] == 'f');
}

/// Every tool of a request is declared to the model, in the order of the request, with its own
/// description and its own argument schema.
pub proof fn tools_keep_their_schemas(
    request: Tree,
    url: Seq<char>,
    thinking: Thinking,
    key: Seq<u8>,
    done: Converted,
    list: Seq<Tree>,
)
    requires
        converted(request, url, thinking, key) == Ok::<Converted, Seq<char>>(done),
        request.get("tools"@) == Some(Tree::Array(list)),
        list.len() > 0,
        forall|i: int|
            0 <= i < list.len() ==> (#[trigger] list[i]).at("type"@) != Tree::Text("namespace"@),
    ensures
        list_of(done.body.at("tools"@)).len() > 0,
        ({
            let told = list_of(list_of(done.body.at("tools"@))[0].at("functionDeclarations"@));
            &&& told.len() == list.len()
            &&& forall|i: int|
                0 <= i < list.len() ==> ({
                    let tool = #[trigger] list[i];
                    &&& tool.at("type"@) == Tree::Text("function"@) && tool.has("parameters"@)
                        ==> told[i].at("parametersJsonSchema"@) == tool.at("parameters"@)
                    &&& tool.at("type"@) == Tree::Text("custom"@) ==> told[i].at(
                        "parametersJsonSchema"@,
                    ).at("properties"@).at("input"@).at("type"@) == Tree::Text("string"@)
                    &&& told[i].get("description"@) == tool.get("description"@)
                    &&& told[i].at("name"@) is Text
                })
        }),
{
    bodies_are_made(request, url, thinking, key, done);
    let none = Tools { tools: Seq::empty(), names: Seq::empty(), declarations: Seq::empty() };
    tools_stand_in_order(list, 0, none);
    let told = list_of(list_of(done.body.at("tools"@))[0].at("functionDeclarations"@));
    let all = tools_added(list, 0, ""@, none)->Ok_0.declarations;
    assert(told == all);
    assert(none.declarations.len() == 0);
}

/// Requests that differ in the argument schema of a function tool convert to different bodies.
pub proof fn schemas_make_a_difference(
    one: Tree,
    two: Tree,
    url: Seq<char>,
    thinking: Thinking,
    key: Seq<u8>,
    first: Converted,
    second: Converted,
    a: Seq<Tree>,
    b: Seq<Tree>,
    i: int,
)
    requires
        converted(one, url, thinking, key) == Ok::<Converted, Seq<char>>(first),
        converted(two, url, thinking, key) == Ok::<Converted, Seq<char>>(second),
        one.get("tools"@) == Some(Tree::Array(a)),
        two.get("tools"@) == Some(Tree::Array(b)),
        forall|k: int|
            0 <= k < a.len() ==> (#[trigger] a[k]).at("type"@) != Tree::Text("namespace"@),
        forall|k: int|
            0 <= k < b.len() ==> (#[trigger] b[k]).at("type"@) != Tree::Text("namespace"@),
        0 <= i < a.len(),
        i < b.len(),
        a[i].at("type"@) == Tree::Text("function"@),
        b[i].at("type"@) == Tree::Text("function"@),
        a[i].has("parameters"@),
        b[i].has("parameters"@),
        a[i].at("parameters"@) != b[i].at("parameters"@),
    ensures
        first.body != second.body,
{
    tools_keep_their_schemas(one, url, thinking, key, first, a);
    tools_keep_their_schemas(two, url, thinking, key, second, b);
    assert(a[i].has("parameters"@) && b[i].has("parameters"@));
}

// ---- settings -------------------------------------------------------------------------------

proof fn setting_names_differ()
    ensures
        "maxOutputTokens"@ != "temperature"@,
        "maxOutputTokens"@ != "topP"@,
        "maxOutputTokens"@ != "thinkingConfig"@,
        "maxOutputTokens"@ != "responseMimeType"@,
        "maxOutputTokens"@ != "responseJsonSchema"@,
        "temperature"@ != "topP"@,
        "temperature"@ != "thinkingConfig"@,
        "temperature"@ != "responseMimeType"@,
        "temperature"@ != "responseJsonSchema"@,
        "topP"@ != "thinkingConfig"@,
        "topP"@ != "responseMimeType"@,
        "topP"@ != "responseJsonSchema"@,
        "thinkingConfig"@ != "responseMimeType"@,
        "thinkingConfig"@ != "responseJsonSchema"@,
        "responseMimeType"@ != "responseJsonSchema"@,
{
    reveal_strlit("maxOutputTokens");
    reveal_strlit("temperature");
    reveal_strlit("topP");
    reveal_strlit("thinkingConfig");
    reveal_strlit("responseMimeType");
    reveal_strlit("responseJsonSchema");
    assert("maxOutputTokens"@.len() == 15);
    assert("temperature"@.len() == 11);
    assert("topP"@.len() == 4);
    assert("thinkingConfig"@.len() == 14);
    assert("responseMimeType"@.len() == 16);
    assert("responseJsonSchema"@.len() == 18);
}

proof fn carrying(settings: Tree, request: Tree, source: Seq<char>, name: Seq<char>)
    requires
        settings is Object,
    ensures
        carried(settings, request, source, name) is Object,
        request.has(source) ==> carried(settings, request, source, name).get(name) == request.get(
            source,
        ),
        !request.has(source) ==> carried(settings, request, source, name) == settings,
        forall|other: Seq<char>|
            other != name ==> #[trigger] carried(settings, request, source, name).get(other)
                == settings.get(other),
{
    if let Some(value) = request.get(source) {
        set_then_get(settings, name, value);
        assert forall|other: Seq<char>| other != name implies #[trigger] carried(
            settings,
            request,
            source,
            name,
        ).get(other) == settings.get(other) by {
            set_keeps_others(settings, name, value, other);
        }
    }
}

proof fn settings_without_format(request: Tree, thinking: Thinking, model: Seq<char>)
    requires
        generation(request, thinking, model) is Ok,
    ensures
        ({
            let made = generation(request, thinking, model)->Ok_0;
            &&& made is Object
            &&& made.get("maxOutputTokens"@) == request.get("max_output_tokens"@)
            &&& made.get("temperature"@) == request.get("temperature"@)
            &&& made.get("topP"@) == request.get("top_p"@)
            &&& request.at("reasoning"@) is Null ==> made.get("thinkingConfig"@) is None
            &&& !(request.at("reasoning"@) is Null) ==> made.get("thinkingConfig"@) == Some(
                thinking_config(request.at("reasoning"@), thinking, model)->Ok_0,
            )
            &&& made.get("responseMimeType"@) is None
            &&& made.get("responseJsonSchema"@) is None
        }),
{
    setting_names_differ();
    let none = empty_object();
    let one = carried(none, request, "max_output_tokens"@, "maxOutputTokens"@);
    let two = carried(one, request, "temperature"@, "temperature"@);
    let plain = carried(two, request, "top_p"@, "topP"@);
    carrying(none, request, "max_output_tokens"@, "maxOutputTokens"@);
    carrying(one, request, "temperature"@, "temperature"@);
    carrying(two, request, "top_p"@, "topP"@);
    assert(forall|name: Seq<char>| #[trigger] none.get(name) is None);
    assert(plain.get("maxOutputTokens"@) == two.get("maxOutputTokens"@));
    assert(two.get("maxOutputTokens"@) == one.get("maxOutputTokens"@));
    assert(plain.get("temperature"@) == two.get("temperature"@));
    assert(one.get("temperature"@) == none.get("temperature"@));
    assert(two.get("topP"@) == one.get("topP"@));
    assert(one.get("topP"@) == none.get("topP"@));
    assert(plain.get("thinkingConfig"@) == two.get("thinkingConfig"@));
    assert(two.get("thinkingConfig"@) == one.get("thinkingConfig"@));
    assert(one.get("thinkingConfig"@) == none.get("thinkingConfig"@));
    assert(plain.get("responseMimeType"@) == two.get("responseMimeType"@));
    assert(two.get("responseMimeType"@) == one.get("responseMimeType"@));
    assert(one.get("responseMimeType"@) == none.get("responseMimeType"@));
    assert(plain.get("responseJsonSchema"@) == two.get("responseJsonSchema"@));
    assert(two.get("responseJsonSchema"@) == one.get("responseJsonSchema"@));
    assert(one.get("responseJsonSchema"@) == none.get("responseJsonSchema"@));
    if !(request.at("reasoning"@) is Null) {
        let config = thinking_config(request.at("reasoning"@), thinking, model)->Ok_0;
        set_then_get(plain, "thinkingConfig"@, config);
        set_keeps_others(plain, "thinkingConfig"@, config, "maxOutputTokens"@);
        set_keeps_others(plain, "thinkingConfig"@, config, "temperature"@);
        set_keeps_others(plain, "thinkingConfig"@, config, "topP"@);
        set_keeps_others(plain, "thinkingConfig"@, config, "responseMimeType"@);
        set_keeps_others(plain, "thinkingConfig"@, config, "responseJsonSchema"@);
    }
}

proof fn formatting_keeps(request: Tree, settings: Tree, name: Seq<char>)
    requires
        formatted(request, settings) is Ok,
        settings is Object,
        name != "responseMimeType"@,
        name != "responseJsonSchema"@,
    ensures
        formatted(request, settings)->Ok_0.0 is Object,
        formatted(request, settings)->Ok_0.0.get(name) == settings.get(name),
{
    let json = Tree::Text("application/json"@);
    let typed = settings.with("responseMimeType"@, json);
    set_then_get(settings, "responseMimeType"@, json);
    set_keeps_others(settings, "responseMimeType"@, json, name);
    if let Some(format) = request.at("text"@).get("format"@) {
        if let Some(schema) = format.get("schema"@) {
            set_then_get(typed, "responseJsonSchema"@, schema);
            set_keeps_others(typed, "responseJsonSchema"@, schema, name);
        }
    }
}

proof fn configuring_keeps(
    request: Tree,
    thinking: Thinking,
    model: Seq<char>,
    names: Seq<(Seq<char>, Seq<char>)>,
    any: bool,
    name: Seq<char>,
)
    requires
        configured(request, thinking, model, names, any) is Ok,
        name != "responseMimeType"@,
        name != "responseJsonSchema"@,
    ensures
        generation(request, thinking, model) is Ok,
        configured(request, thinking, model, names, any)->Ok_0.0.get(name) == generation(
            request,
            thinking,
            model,
        )->Ok_0.get(name),
{
    let made = generation(request, thinking, model)->Ok_0;
    settings_without_format(request, thinking, model);
    formatting_keeps(request, made, name);
    let set = formatted(request, made)->Ok_0.0;
    cut_keeps_others(set->Object_0, "responseMimeType"@, name);
    cut_keeps_others(set.without("responseMimeType"@)->Object_0, "responseJsonSchema"@, name);
}

/// The limits and the sampling that a request asks for are what the model is told.
pub proof fn settings_are_kept(
    request: Tree,
    url: Seq<char>,
    thinking: Thinking,
    key: Seq<u8>,
    done: Converted,
)
    requires
        converted(request, url, thinking, key) == Ok::<Converted, Seq<char>>(done),
    ensures
        request.has("max_output_tokens"@) ==> done.body.at("generationConfig"@).at(
            "maxOutputTokens"@,
        ) == request.at("max_output_tokens"@),
        request.has("temperature"@) ==> done.body.at("generationConfig"@).at("temperature"@)
            == request.at("temperature"@),
        request.has("top_p"@) ==> done.body.at("generationConfig"@).at("topP"@) == request.at(
            "top_p"@,
        ),
{
    bodies_are_made(request, url, thinking, key, done);
    let tools = declared(request)->Ok_0;
    let any = tools.tools.len() > 0;
    setting_names_differ();
    settings_without_format(request, thinking, done.model);
    configuring_keeps(request, thinking, done.model, tools.names, any, "maxOutputTokens"@);
    configuring_keeps(request, thinking, done.model, tools.names, any, "temperature"@);
    configuring_keeps(request, thinking, done.model, tools.names, any, "topP"@);
    let config = done.body.at("generationConfig"@);
    assert(request.has("max_output_tokens"@) ==> config.get("maxOutputTokens"@) == request.get(
        "max_output_tokens"@,
    ));
    assert(request.has("temperature"@) ==> config.get("temperature"@) == request.get(
        "temperature"@,
    ));
    assert(request.has("top_p"@) ==> config.get("topP"@) == request.get("top_p"@));
}

proof fn effort_names_differ()
    ensures
        "none"@ != "minimal"@,
        "none"@ != "low"@,
        "none"@ != "medium"@,
        "none"@ != "high"@,
        "none"@ != "xhigh"@,
        "none"@ != "max"@,
        "minimal"@ != "low"@,
        "minimal"@ != "medium"@,
        "minimal"@ != "high"@,
        "minimal"@ != "xhigh"@,
        "minimal"@ != "max"@,
        "low"@ != "medium"@,
        "low"@ != "high"@,
        "low"@ != "xhigh"@,
        "low"@ != "max"@,
        "medium"@ != "high"@,
        "medium"@ != "xhigh"@,
        "medium"@ != "max"@,
        "high"@ != "xhigh"@,
        "high"@ != "max"@,
        "xhigh"@ != "max"@,
        "none"@ != "auto"@,
        "includeThoughts"@ != "thinkingLevel"@,
        "includeThoughts"@ != "thinkingBudget"@,
{
    reveal_strlit("none");
    reveal_strlit("minimal");
    reveal_strlit("low");
    reveal_strlit("medium");
    reveal_strlit("high");
    reveal_strlit("xhigh");
    reveal_strlit("max");
    reveal_strlit("auto");
    reveal_strlit("includeThoughts");
    reveal_strlit("thinkingLevel");
    reveal_strlit("thinkingBudget");
    assert("none"@.len() == 4);
    assert("minimal"@.len() == 7);
    assert("low"@.len() == 3);
    assert("medium"@.len() == 6);
    assert("high"@.len() == 4);
    assert("xhigh"@.len() == 5);
    assert("max"@.len() == 3);
    assert("auto"@.len() == 4);
    assert("includeThoughts"@.len() == 15);
    assert("thinkingLevel"@.len() == 13);
    assert("thinkingBudget"@.len() == 14);
    assert("none"@[0] == 'n');
    assert("high"@[0] == 'h');
    assert("auto"@[0] == 'a');
    assert("low"@[0] == 'l');
    assert("max"@[0] == 'm');
}

/// The effort that a request asks for decides how much the model thinks: a level for the models
/// that know levels, else a budget of tokens, and none at all only where none is asked for.
/// Thoughts are told unless no summary is wanted.
pub proof fn efforts_are_kept(
    request: Tree,
    url: Seq<char>,
    thinking: Thinking,
    key: Seq<u8>,
    done: Converted,
)
    requires
        converted(request, url, thinking, key) == Ok::<Converted, Seq<char>>(done),
        request.at("reasoning"@) is Object,
    ensures
        ({
            let told = done.body.at("generationConfig"@).at("thinkingConfig"@);
            let effort = request.at("reasoning"@).at("effort"@);
            let levels = thinking == Thinking::Level || (thinking == Thinking::Auto
                && "gemini-3"@.is_prefix_of(done.model));
            &&& told.at("includeThoughts"@) == Tree::Bool(
                request.at("reasoning"@).at("summary"@) != Tree::Text("none"@),
            )
            &&& levels ==> {
                &&& effort == Tree::Text("minimal"@) || effort == Tree::Text("low"@) || effort
                    == Tree::Text("medium"@) || effort == Tree::Text("high"@) ==> told.at(
                    "thinkingLevel"@,
                ) == effort
                &&& effort == Tree::Text("xhigh"@) || effort == Tree::Text("max"@) ==> told.at(
                    "thinkingLevel"@,
                ) == Tree::Text("high"@)
            }
            &&& !levels ==> {
                &&& effort == Tree::Text("none"@) ==> told.at("thinkingBudget"@) == Tree::Number(
                    NumberView::Unsigned(0),
                )
                &&& effort == Tree::Text("minimal"@) ==> told.at("thinkingBudget"@)
                    == Tree::Number(NumberView::Unsigned(128))
                &&& effort == Tree::Text("low"@) ==> told.at("thinkingBudget"@) == Tree::Number(
                    NumberView::Unsigned(1024),
                )
                &&& effort == Tree::Text("medium"@) ==> told.at("thinkingBudget"@)
                    == Tree::Number(NumberView::Unsigned(8192))
                &&& effort == Tree::Text("high"@) ==> told.at("thinkingBudget"@) == Tree::Number(
                    NumberView::Unsigned(24576),
                )
                &&& effort == Tree::Text("xhigh"@) || effort == Tree::Text("max"@) ==> told.at(
                    "thinkingBudget"@,
                ) == Tree::Number(NumberView::Negative(-1i64))
            }
        }),
{
    bodies_are_made(request, url, thinking, key, done);
    let tools = declared(request)->Ok_0;
    let any = tools.tools.len() > 0;
    setting_names_differ();
    settings_without_format(request, thinking, done.model);
    configuring_keeps(request, thinking, done.model, tools.names, any, "thinkingConfig"@);
    let config = thinking_config(request.at("reasoning"@), thinking, done.model)->Ok_0;
    assert(done.body.at("generationConfig"@).get("thinkingConfig"@) == Some(config));
    effort_names_differ();
    let told = Tree::Bool(
        request.at("reasoning"@).at("summary"@) != Tree::Text("none"@),
    );
    let plain = empty_object().with("includeThoughts"@, told);
    set_then_get(empty_object(), "includeThoughts"@, told);
    broadcast use member_laws;

    if let Some(effort) = request.at("reasoning"@).at("effort"@).text() {
        assert(plain.at("includeThoughts"@) == told);
    }
}

proof fn format_names_differ()
    ensures
        "text"@ != "json_object"@,
        "text"@ != "json_schema"@,
        "json_object"@ != "json_schema"@,
        "AUTO"@ != "ANY"@,
        "NONE"@ != "ANY"@,
        "NONE"@ != "AUTO"@,
        "auto"@ != "none"@,
        "auto"@ != "required"@,
        "none"@ != "required"@,
        "mode"@ != "allowedFunctionNames"@,
{
    reveal_strlit("text");
    reveal_strlit("json_object");
    reveal_strlit("json_schema");
    reveal_strlit("AUTO");
    reveal_strlit("ANY");
    reveal_strlit("NONE");
    reveal_strlit("auto");
    reveal_strlit("none");
    reveal_strlit("required");
    reveal_strlit("mode");
    reveal_strlit("allowedFunctionNames");
    assert("text"@.len() == 4);
    assert("json_object"@.len() == 11);
    assert("json_schema"@.len() == 11);
    assert("AUTO"@.len() == 4);
    assert("ANY"@.len() == 3);
    assert("NONE"@.len() == 4);
    assert("auto"@.len() == 4);
    assert("none"@.len() == 4);
    assert("required"@.len() == 8);
    assert("mode"@.len() == 4);
    assert("allowedFunctionNames"@.len() == 20);
    assert("text"@[0] == 't');
    assert("AUTO"@[0] == 'A');
    assert("NONE"@[0] == 'N');
    assert("auto"@[0] == 'a');
    assert("none"@[0] == 'n');
    assert("mode"@[0] == 'm');
    assert("json_object"@[5] == 'o');
    assert("json_schema"@[5] == 's');
}

/// The output format that a request asks for is what the model is told, with its own schema,
/// unless it is made to call a tool first; a strict schema governs the answer in any case.
pub proof fn formats_are_kept(
    request: Tree,
    url: Seq<char>,
    thinking: Thinking,
    key: Seq<u8>,
    done: Converted,
)
    requires
        converted(request, url, thinking, key) == Ok::<Converted, Seq<char>>(done),
    ensures
        ({
            let format = request.at("text"@).at("format"@);
            let config = done.body.at("generationConfig"@);
            let schema = format.at("type"@) == Tree::Text("json_schema"@);
            &&& !request.has("tool_choice"@) && (schema || format.at("type"@) == Tree::Text(
                "json_object"@,
            )) ==> config.at("responseMimeType"@) == Tree::Text("application/json"@)
            &&& !request.has("tool_choice"@) && schema ==> config.at("responseJsonSchema"@)
                == format.at("schema"@)
            &&& schema && format.at("strict"@) == Tree::Bool(true) ==> done.output_schema == Some(
                format.at("schema"@),
            )
            &&& !(schema && format.at("strict"@) == Tree::Bool(true)) ==> done.output_schema is None
        }),
{
    bodies_are_made(request, url, thinking, key, done);
    setting_names_differ();
    format_names_differ();
    settings_without_format(request, thinking, done.model);
    let made = generation(request, thinking, done.model)->Ok_0;
    let json = Tree::Text("application/json"@);
    let typed = made.with("responseMimeType"@, json);
    set_then_get(made, "responseMimeType"@, json);
    let format = request.at("text"@).at("format"@);
    if let Some(schema) = format.get("schema"@) {
        set_then_get(typed, "responseJsonSchema"@, schema);
        set_keeps_others(typed, "responseJsonSchema"@, schema, "responseMimeType"@);
    }
    let tools = declared(request)->Ok_0;
    let set = configured(
        request,
        thinking,
        done.model,
        tools.names,
        tools.tools.len() > 0,
    )->Ok_0.0;
    let config = done.body.at("generationConfig"@);
    assert(set.has("responseMimeType"@) ==> config.get("responseMimeType"@) == set.get(
        "responseMimeType"@,
    ));
    assert(set.has("responseJsonSchema"@) ==> config.get("responseJsonSchema"@) == set.get(
        "responseJsonSchema"@,
    ));
}

/// The choice of tools that a request makes is what the model is told: whether it may, must not
/// or must call a tool.
pub proof fn choices_are_kept(
    request: Tree,
    url: Seq<char>,
    thinking: Thinking,
    key: Seq<u8>,
    done: Converted,
)
    requires
        converted(request, url, thinking, key) == Ok::<Converted, Seq<char>>(done),
    ensures
        ({
            let choice = request.at("tool_choice"@);
            let told = done.body.at("toolConfig"@).at("functionCallingConfig"@);
            &&& choice == Tree::Text("auto"@) ==> told.at("mode"@) == Tree::Text("AUTO"@)
            &&& choice == Tree::Text("none"@) ==> told.at("mode"@) == Tree::Text("NONE"@)
            &&& choice == Tree::Text("required"@) ==> told.at("mode"@) == Tree::Text("ANY"@)
            &&& choice is Object ==> told.at("mode"@) == Tree::Text("ANY"@) && told.at(
                "allowedFunctionNames"@,
            ) == Tree::Array(
                seq![
                    Tree::Text(
                        find(declared(request)->Ok_0.names, identity(choice)->Ok_0)->Some_0,
                    ),
                ],
            )
        }),
{
    broadcast use member_laws;

    bodies_are_made(request, url, thinking, key, done);
    format_names_differ();
}

/// A request is streamed exactly where it asks for that, and answered under its own name of the
/// model; the native name is without the provider.
pub proof fn models_and_streams_are_kept(
    request: Tree,
    url: Seq<char>,
    thinking: Thinking,
    key: Seq<u8>,
    done: Converted,
)
    requires
        converted(request, url, thinking, key) == Ok::<Converted, Seq<char>>(done),
    ensures
        done.stream == (request.at("stream"@) == Tree::Bool(true)),
        request.at("model"@) == Tree::Text(done.response_model),
        done.response_model == done.model || done.response_model == "gemini/"@ + done.model
            || done.response_model == "models/"@ + done.model || done.response_model == "gemini/"@
            + ("models/"@ + done.model),
{
    let named = request.at("model"@)->Text_0;
    let own = match after(named, "gemini/"@) {
        Some(rest) => rest,
        None => named,
    };
    if after(named, "gemini/"@) is Some {
        assert(named =~= "gemini/"@ + own);
    }
    if after(own, "models/"@) is Some {
        assert(own =~= "models/"@ + done.model);
    }
}

// ---- the conversation -----------------------------------------------------------------------

/// The parts of a native content, each with the role that says it.
pub open spec fn parts_said(content: Tree) -> Seq<(Tree, Tree)> {
    Seq::new(
        list_of(content.at("parts"@)).len(),
        |i: int| (content.at("role"@), list_of(content.at("parts"@))[i]),
    )
}

/// Everything that is said in native contents, in order: who says it, and the part.
pub open spec fn spoken(contents: Seq<Tree>) -> Seq<(Tree, Tree)>
    decreases contents.len(),
{
    if contents.len() == 0 {
        Seq::empty()
    } else {
        spoken(contents.drop_last()) + parts_said(contents.last())
    }
}

/// Whether every one of some contents is an object.
spec fn all_objects(contents: Seq<Tree>) -> bool {
    forall|i: int| 0 <= i < contents.len() ==> (#[trigger] contents[i]) is Object
}

proof fn pushing_says(contents: Seq<Tree>, role: Seq<char>, part: Tree)
    requires
        all_objects(contents),
    ensures
        spoken(pushed(contents, role, seq![part])) == spoken(contents).push(
            (Tree::Text(role), part),
        ),
        all_objects(pushed(contents, role, seq![part])),
        pushed(contents, role, seq![part]).len() > 0,
        pushed(contents, role, seq![part]).last().at("role"@) == Tree::Text(role),
{
    assert("role"@ != "parts"@) by {
        reveal_strlit("role");
        reveal_strlit("parts");
        assert("role"@.len() == 4);
        assert("parts"@.len() == 5);
    }
    let parts = seq![part];
    let after = pushed(contents, role, parts);
    if contents.len() > 0 && continues(contents.last(), role, parts) {
        let last = contents.last();
        let all = Tree::Array(list_of(last.at("parts"@)) + parts);
        let longer = last.with("parts"@, all);
        assert(contents[contents.len() - 1] is Object);
        set_then_get(last, "parts"@, all);
        set_keeps_others(last, "parts"@, all, "role"@);
        assert(after.drop_last() =~= contents.drop_last());
        assert(after.last() == longer);
        assert(parts_said(longer) =~= parts_said(last).push((Tree::Text(role), part)));
        assert(spoken(after) =~= spoken(contents).push((Tree::Text(role), part)));
        assert forall|i: int| 0 <= i < after.len() implies (#[trigger] after[i]) is Object by {
            if i < after.len() - 1 {
                assert(after[i] == contents[i]);
            }
        }
    } else {
        let own = turn(role, parts);
        let roled = empty_object().with("role"@, Tree::Text(role));
        set_then_get(empty_object(), "role"@, Tree::Text(role));
        set_then_get(roled, "parts"@, Tree::Array(parts));
        set_keeps_others(roled, "parts"@, Tree::Array(parts), "role"@);
        assert(after.drop_last() =~= contents);
        assert(parts_said(own) =~= seq![(Tree::Text(role), part)]);
        assert(spoken(after) =~= spoken(contents).push((Tree::Text(role), part)));
        assert forall|i: int| 0 <= i < after.len() implies (#[trigger] after[i]) is Object by {
            if i < after.len() - 1 {
                assert(after[i] == contents[i]);
            }
        }
    }
}

/// Whether an item of the input is said by a part: text by its author, a call with its id and
/// its arguments by the model, and the output of a call, under the id of the call, by the user.
pub open spec fn says(item: Tree, role: Tree, part: Tree) -> bool {
    let kind = item.at("type"@);
    if kind == Tree::Text("function_call"@) {
        &&& role == Tree::Text("model"@)
        &&& part.at("functionCall"@).at("id"@) == item.at("call_id"@)
        &&& parsed(encode_utf8(item.at("arguments"@)->Text_0)) == Ok::<Tree, Seq<char>>(
            part.at("functionCall"@).at("args"@),
        )
    } else if kind == Tree::Text("function_call_output"@) {
        &&& role == Tree::Text("user"@)
        &&& part.at("functionResponse"@).at("id"@) == item.at("call_id"@)
        &&& part.at("functionResponse"@).at("response"@).at("result"@) == item.at("output"@)
    } else {
        &&& role == Tree::Text(
            if item.at("role"@) == Tree::Text("assistant"@) {
                "model"@
            } else {
                "user"@
            },
        )
        &&& part.at("text"@) == item.at("content"@)
    }
}

/// Whether an item of the input is a message of text by the user or the assistant, a function
/// call, or the output of one as text.
pub open spec fn plain_item(item: Tree) -> bool {
    let kind = item.at("type"@);
    ||| kind == Tree::Text("function_call"@)
    ||| kind == Tree::Text("function_call_output"@) && item.at("output"@) is Text
    ||| (kind is Null || kind == Tree::Text("message"@)) && item.at("content"@) is Text && (item.at(
        "role"@,
    ) == Tree::Text("user"@) || item.at("role"@) == Tree::Text("assistant"@))
}

proof fn item_names_differ()
    ensures
        "function_call"@ != "function_call_output"@,
        "function_call"@ != "message"@,
        "function_call"@ != "reasoning"@,
        "function_call_output"@ != "message"@,
        "function_call_output"@ != "reasoning"@,
        "function_call_output"@ != "custom_tool_call"@,
        "function_call"@ != "custom_tool_call"@,
        "message"@ != "reasoning"@,
        "user"@ != "system"@,
        "user"@ != "developer"@,
        "user"@ != "assistant"@,
        "assistant"@ != "system"@,
        "assistant"@ != "developer"@,
        "name"@ != "args"@,
        "name"@ != "id"@,
        "args"@ != "id"@,
        "name"@ != "response"@,
        "id"@ != "response"@,
{
    reveal_strlit("function_call");
    reveal_strlit("function_call_output");
    reveal_strlit("message");
    reveal_strlit("reasoning");
    reveal_strlit("custom_tool_call");
    reveal_strlit("user");
    reveal_strlit("system");
    reveal_strlit("developer");
    reveal_strlit("assistant");
    reveal_strlit("name");
    reveal_strlit("args");
    reveal_strlit("id");
    reveal_strlit("response");
    assert("function_call"@.len() == 13);
    assert("function_call_output"@.len() == 20);
    assert("message"@.len() == 7);
    assert("reasoning"@.len() == 9);
    assert("custom_tool_call"@.len() == 16);
    assert("user"@.len() == 4);
    assert("system"@.len() == 6);
    assert("developer"@.len() == 9);
    assert("assistant"@.len() == 9);
    assert("name"@.len() == 4);
    assert("args"@.len() == 4);
    assert("id"@.len() == 2);
    assert("response"@.len() == 8);
    assert("reasoning"@[0] == 'r');
    assert("developer"@[0] == 'd');
    assert("assistant"@[0] == 'a');
    assert("user"@[0] == 'u');
    assert("name"@[0] == 'n');
    assert("args"@[0] == 'a');
}

/// Whether a remembered call is one of the items before `from`, under its own id, and was said
/// under the name that is remembered.
spec fn call_is_said(
    call: (Seq<char>, Option<Seq<char>>),
    id: Seq<char>,
    items: Seq<Tree>,
    from: int,
    said: Seq<(Tree, Tree)>,
) -> bool {
    call.1 == Some(id) && exists|j: int|
        0 <= j < from && (#[trigger] items[j]).at("type"@) == Tree::Text("function_call"@)
            && items[j].at("call_id"@) == Tree::Text(id) && said[j].1.at("functionCall"@).at(
            "name"@,
        ) == Tree::Text(call.0)
}

/// Whether every remembered call was said.
spec fn calls_are_said(
    calls: Seq<(Seq<char>, (Seq<char>, Option<Seq<char>>))>,
    items: Seq<Tree>,
    from: int,
    said: Seq<(Tree, Tree)>,
) -> bool {
    forall|id: Seq<char>|
        (#[trigger] find(calls, id)) is Some ==> call_is_said(
            find(calls, id)->Some_0,
            id,
            items,
            from,
            said,
        )
}

/// Whether the output of a call is said under the name of that call.
pub open spec fn answers_its_call(items: Seq<Tree>, i: int, said: Seq<(Tree, Tree)>) -> bool {
    items[i].at("type"@) == Tree::Text("function_call_output"@) ==> exists|j: int|
        0 <= j < i && (#[trigger] items[j]).at("type"@) == Tree::Text("function_call"@) && items[j].at(
            "call_id"@,
        ) == items[i].at("call_id"@) && said[j].1.at("functionCall"@).at("name"@) == said[i].1.at(
            "functionResponse"@,
        ).at("name"@)
}

proof fn one_item_is_said(items: Seq<Tree>, from: int, talk: Talk, next: Talk)
    requires
        0 <= from < items.len(),
        plain_item(items[from]),
        all_objects(talk.contents),
        spoken(talk.contents).len() == from,
        calls_are_said(talk.calls, items, from, spoken(talk.contents)),
        ({
            let kind = kind_of(items[from]);
            let step = if kind == "message"@ {
                talk.said(items[from])
            } else if kind == "function_call"@ {
                talk.called(items[from], false)
            } else {
                talk.answered(items[from])
            };
            step == Ok::<Talk, Seq<char>>(next)
        }),
    ensures
        all_objects(next.contents),
        spoken(next.contents).len() == from + 1,
        spoken(next.contents).drop_last() == spoken(talk.contents),
        says(items[from], spoken(next.contents)[from].0, spoken(next.contents)[from].1),
        answers_its_call(items, from, spoken(next.contents)),
        calls_are_said(next.calls, items, from + 1, spoken(next.contents)),
{
    broadcast use member_laws;

    item_names_differ();
    let item = items[from];
    let kind = kind_of(item);
    let before = spoken(talk.contents);
    let after = spoken(next.contents);
    if kind == "message"@ {
        let role = item.at("role"@)->Text_0;
        let own = if role == "assistant"@ {
            "model"@
        } else {
            "user"@
        };
        let part = text_part(item.at("content"@)->Text_0);
        pushing_says(talk.contents, own, part);
        assert(after == before.push((Tree::Text(own), part)));
        assert(after.drop_last() =~= before);
    } else if kind == "function_call"@ {
        let name = identity(item)->Ok_0;
        let id = item.at("call_id"@)->Text_0;
        let args = call_arguments(item, false)->Ok_0;
        let call = empty_object().with("name"@, Tree::Text(native_name(name))).with(
            "args"@,
            args,
        ).with("id"@, Tree::Text(id));
        let part = empty_object().with("functionCall"@, call);
        pushing_says(talk.contents, "model"@, part);
        assert(after == before.push((Tree::Text("model"@), part)));
        assert(after.drop_last() =~= before);
        assert(call.at("name"@) == Tree::Text(native_name(name)));
        assert(call.at("args"@) == args);
        assert(call.at("id"@) == Tree::Text(id));
        put_then_find(talk.calls, id, (native_name(name), Some(id)));
    } else {
        let id = item.at("call_id"@)->Text_0;
        let (name, native_id) = find(talk.calls, id)->Some_0;
        assert(call_is_said((name, native_id), id, items, from, before));
        let answer = empty_object().with("name"@, Tree::Text(name)).with(
            "response"@,
            empty_object().with("result"@, item.at("output"@)),
        ).with("id"@, Tree::Text(id));
        let part = empty_object().with("functionResponse"@, answer);
        pushing_says(talk.contents, "user"@, part);
        assert(after == before.push((Tree::Text("user"@), part)));
        assert(after.drop_last() =~= before);
        assert(answer.at("id"@) == Tree::Text(id));
        assert(answer.at("response"@).at("result"@) == item.at("output"@));
        assert(answer.at("name"@) == Tree::Text(name));
        let j = choose|j: int|
            0 <= j < from && (#[trigger] items[j]).at("type"@) == Tree::Text("function_call"@)
                && items[j].at("call_id"@) == Tree::Text(id) && before[j].1.at(
                "functionCall"@,
            ).at("name"@) == Tree::Text(name);
        assert(after[j] == before[j]);
    }
    assert forall|other: Seq<char>| (#[trigger] find(next.calls, other)) is Some implies call_is_said(
        find(next.calls, other)->Some_0,
        other,
        items,
        from + 1,
        after,
    ) by {
        let call = find(next.calls, other)->Some_0;
        if kind == "function_call"@ && item.at("call_id"@) == Tree::Text(other) {
            assert(items[from].at("type"@) == Tree::Text("function_call"@));
            assert(after[from].1.at("functionCall"@).at("name"@) == Tree::Text(call.0));
        } else {
            if kind == "function_call"@ {
                let id = item.at("call_id"@)->Text_0;
                put_keeps_others(
                    talk.calls,
                    id,
                    (native_name(identity(item)->Ok_0), Some(id)),
                    other,
                );
            }
            assert(find(talk.calls, other) == Some(call));
            assert(call_is_said(call, other, items, from, before));
            let j = choose|j: int|
                0 <= j < from && (#[trigger] items[j]).at("type"@) == Tree::Text("function_call"@)
                    && items[j].at("call_id"@) == Tree::Text(other) && before[j].1.at(
                    "functionCall"@,
                ).at("name"@) == Tree::Text(call.0);
            assert(after[j] == before[j]);
        }
    }
}

proof fn items_are_said(
    items: Seq<Tree>,
    from: int,
    talk: Talk,
    key: Seq<u8>,
    model: Seq<char>,
)
    requires
        0 <= from <= items.len(),
        forall|i: int| 0 <= i < items.len() ==> plain_item(#[trigger] items[i]),
        all_objects(talk.contents),
        spoken(talk.contents).len() == from,
        forall|i: int|
            0 <= i < from ==> says(
                #[trigger] items[i],
                spoken(talk.contents)[i].0,
                spoken(talk.contents)[i].1,
            ) && answers_its_call(items, i, spoken(talk.contents)),
        calls_are_said(talk.calls, items, from, spoken(talk.contents)),
        talk_from(items, from, talk, key, model) is Ok,
    ensures
        ({
            let said = spoken(talk_from(items, from, talk, key, model)->Ok_0.contents);
            &&& all_objects(talk_from(items, from, talk, key, model)->Ok_0.contents)
            &&& said.len() == items.len()
            &&& forall|i: int|
                0 <= i < items.len() ==> says(#[trigger] items[i], said[i].0, said[i].1)
                    && answers_its_call(items, i, said)
        }),
    decreases items.len() - from,
{
    if from < items.len() {
        item_names_differ();
        let item = items[from];
        let kind = kind_of(item);
        assert(plain_item(items[from]));
        let next = (if kind == "message"@ {
            talk.said(item)
        } else if kind == "function_call"@ {
            talk.called(item, false)
        } else {
            talk.answered(item)
        })->Ok_0;
        one_item_is_said(items, from, talk, next);
        let before = spoken(talk.contents);
        let after = spoken(next.contents);
        assert forall|i: int| 0 <= i < from + 1 implies says(
            #[trigger] items[i],
            after[i].0,
            after[i].1,
        ) && answers_its_call(items, i, after) by {
            if i < from {
                assert(after[i] == after.drop_last()[i]);
                assert(after[i] == before[i]);
                assert(answers_its_call(items, i, before));
                if items[i].at("type"@) == Tree::Text("function_call_output"@) {
                    let j = choose|j: int|
                        0 <= j < i && (#[trigger] items[j]).at("type"@) == Tree::Text(
                            "function_call"@,
                        ) && items[j].at("call_id"@) == items[i].at("call_id"@) && before[j].1.at(
                            "functionCall"@,
                        ).at("name"@) == before[i].1.at("functionResponse"@).at("name"@);
                    assert(after.drop_last()[j] == before[j]);
                    assert(after[j] == before[j]);
                }
            }
        }
        items_are_said(items, from + 1, next, key, model);
    }
}

/// Every message, call and output of a call in the input is said to the model, in order, each
/// by its author, with its own text, arguments or result; a conversation that the model spoke
/// last in is continued by the user.
pub proof fn inputs_are_said(
    request: Tree,
    url: Seq<char>,
    thinking: Thinking,
    key: Seq<u8>,
    done: Converted,
    items: Seq<Tree>,
)
    requires
        converted(request, url, thinking, key) == Ok::<Converted, Seq<char>>(done),
        request.get("input"@) == Some(Tree::Array(items)),
        forall|i: int| 0 <= i < items.len() ==> plain_item(#[trigger] items[i]),
    ensures
        ({
            let said = spoken(list_of(done.body.at("contents"@)));
            &&& said.len() == items.len() || (said.len() == items.len() + 1 && said.last().0
                == Tree::Text("user"@) && said.last().1.at("text"@) == Tree::Text("Continue."@))
            &&& forall|i: int|
                0 <= i < items.len() ==> says(#[trigger] items[i], said[i].0, said[i].1)
                    && answers_its_call(items, i, said)
        }),
{
    broadcast use member_laws;

    bodies_are_made(request, url, thinking, key, done);
    let start = opening(request)->Ok_0;
    assert(spoken(start.contents) =~= Seq::empty());
    items_are_said(items, 0, start, key, done.model);
    let talk = talk_from(items, 0, start, key, done.model)->Ok_0;
    let said = spoken(talk.contents);
    let all = list_of(done.body.at("contents"@));
    if all != talk.contents {
        let part = text_part("Continue."@);
        let own = turn("user"@, seq![part]);
        assert(all == talk.contents.push(own));
        assert("role"@ != "parts"@) by {
            reveal_strlit("role");
            reveal_strlit("parts");
            assert("role"@.len() == 4);
            assert("parts"@.len() == 5);
        }
        assert(own.at("role"@) == Tree::Text("user"@));
        assert(own.at("parts"@) == Tree::Array(seq![part]));
        assert(all.drop_last() =~= talk.contents);
        assert(parts_said(own) =~= seq![(Tree::Text("user"@), part)]);
        assert(spoken(all) =~= said.push((Tree::Text("user"@), part)));
        assert forall|i: int| 0 <= i < items.len() implies says(
            #[trigger] items[i],
            spoken(all)[i].0,
            spoken(all)[i].1,
        ) && answers_its_call(items, i, spoken(all)) by {
            assert(spoken(all)[i] == said[i]);
            assert(answers_its_call(items, i, said));
            if items[i].at("type"@) == Tree::Text("function_call_output"@) {
                let j = choose|j: int|
                    0 <= j < i && (#[trigger] items[j]).at("type"@) == Tree::Text(
                        "function_call"@,
                    ) && items[j].at("call_id"@) == items[i].at("call_id"@) && said[j].1.at(
                        "functionCall"@,
                    ).at("name"@) == said[i].1.at("functionResponse"@).at("name"@);
                assert(spoken(all)[j] == said[j]);
            }
        }
    }
}

/// An input that is a text is said by the user, as it is and alone.
pub proof fn texts_are_said(
    request: Tree,
    url: Seq<char>,
    thinking: Thinking,
    key: Seq<u8>,
    done: Converted,
    text: Seq<char>,
)
    requires
        converted(request, url, thinking, key) == Ok::<Converted, Seq<char>>(done),
        request.get("input"@) == Some(Tree::Text(text)),
    ensures
        ({
            let said = spoken(list_of(done.body.at("contents"@)));
            &&& said.len() == 1
            &&& said[0].0 == Tree::Text("user"@)
            &&& said[0].1.at("text"@) == Tree::Text(text)
        }),
{
    broadcast use member_laws;

    bodies_are_made(request, url, thinking, key, done);
    assert("role"@ != "content"@ && "type"@ != "role"@ && "type"@ != "content"@ && "role"@
        != "parts"@ && "user"@ != "model"@ && "user"@ != "assistant"@ && "user"@ != "system"@
        && "user"@ != "developer"@) by {
        reveal_strlit("role");
        reveal_strlit("content");
        reveal_strlit("type");
        reveal_strlit("parts");
        reveal_strlit("user");
        reveal_strlit("model");
        reveal_strlit("assistant");
        reveal_strlit("system");
        reveal_strlit("developer");
        assert("role"@.len() == 4);
        assert("content"@.len() == 7);
        assert("type"@.len() == 4);
        assert("parts"@.len() == 5);
        assert("user"@.len() == 4);
        assert("model"@.len() == 5);
        assert("assistant"@.len() == 9);
        assert("system"@.len() == 6);
        assert("developer"@.len() == 9);
        assert("role"@[0] == 'r');
        assert("type"@[0] == 't');
        assert("user"@[0] == 'u');
        assert("parts"@[0] == 'p');
        assert("model"@[0] == 'm');
        assert("assistant"@[0] == 'a');
        assert("developer"@[0] == 'd');
    }
    let start = opening(request)->Ok_0;
    let roled = empty_object().with("role"@, Tree::Text("user"@));
    let item = roled.with("content"@, Tree::Text(text));
    set_keeps_others(empty_object(), "role"@, Tree::Text("user"@), "type"@);
    set_keeps_others(roled, "content"@, Tree::Text(text), "type"@);
    assert(item.at("role"@) == Tree::Text("user"@));
    assert(item.at("content"@) == Tree::Text(text));
    assert(item.at("type"@) is Null);
    assert(spoken(start.contents) =~= Seq::empty());
    pushing_says(start.contents, "user"@, text_part(text));
    reveal_with_fuel(talk_from, 2);
    let next = start.said(item)->Ok_0;
    item_names_differ();
    assert(kind_of(item) == "message"@);
    assert(talk_from(seq![item], 0, start, key, done.model) == talk_from(
        seq![item],
        1,
        next,
        key,
        done.model,
    ));
    let all = list_of(done.body.at("contents"@));
    assert(all == next.contents);
}

/// Instructions are told to the model as its system instruction, word for word, with a note
/// before and behind them.
pub proof fn instructions_are_told(
    request: Tree,
    url: Seq<char>,
    thinking: Thinking,
    key: Seq<u8>,
    done: Converted,
    text: Seq<char>,
)
    requires
        converted(request, url, thinking, key) == Ok::<Converted, Seq<char>>(done),
        request.at("instructions"@) == Tree::Text(text),
    ensures
        ({
            let told = list_of(done.body.at("systemInstruction"@).at("parts"@));
            told.len() >= 3 && told[1].at("text"@) == Tree::Text(text)
        }),
{
    broadcast use member_laws;

    bodies_are_made(request, url, thinking, key, done);
    let start = opening(request)->Ok_0;
    assert(start.system.len() == 3 && start.system[1] == text_part(text)) by {
        let parts = seq![text_part(text)];
        assert(opening_instruction("developer"@, parts).len() == 3);
        assert(opening_instruction("developer"@, parts)[1] == parts[0]);
        assert(start.system =~= opening_instruction("developer"@, parts));
    }
    let items = input_items(request.at("input"@))->Ok_0;
    system_grows(items, 0, start, key, done.model);
    let talk = talk_from(items, 0, start, key, done.model)->Ok_0;
    assert(talk.system[1] == start.system[1]);
}

proof fn system_grows(items: Seq<Tree>, from: int, talk: Talk, key: Seq<u8>, model: Seq<char>)
    requires
        talk_from(items, from, talk, key, model) is Ok,
    ensures
        ({
            let after = talk_from(items, from, talk, key, model)->Ok_0.system;
            &&& after.len() >= talk.system.len()
            &&& forall|i: int| 0 <= i < talk.system.len() ==> #[trigger] after[i] == talk.system[i]
        }),
    decreases
            if from < items.len() {
                items.len() - from
            } else {
                0
            },
{
    if 0 <= from < items.len() {
        let item = items[from];
        let kind = kind_of(item);
        if kind == "reasoning"@ {
            let (next, passed) = talk.replayed(items, from, key, model)->Ok_0;
            system_grows(items, from + 1 + passed as int, next, key, model);
        } else {
            let next = (if kind == "message"@ {
                talk.said(item)
            } else if kind == "function_call"@ || kind == "custom_tool_call"@ {
                talk.called(item, kind == "custom_tool_call"@)
            } else if kind == "function_call_output"@ || kind == "custom_tool_call_output"@ {
                talk.answered(item)
            } else {
                talk.quoted(item)
            })->Ok_0;
            assert(next.system.len() >= talk.system.len());
            assert(forall|i: int|
                0 <= i < talk.system.len() ==> #[trigger] next.system[i] == talk.system[i]);
            system_grows(items, from + 1, next, key, model);
            let after = talk_from(items, from, talk, key, model)->Ok_0.system;
            assert forall|i: int| 0 <= i < talk.system.len() implies #[trigger] after[i]
                == talk.system[i] by {
                assert(next.system[i] == talk.system[i]);
            }
        }
    }
}

// ---- tools that are called ------------------------------------------------------------------

proof fn declarations_stand_in_order(list: Seq<Tree>, from: int, state: Tools)
    requires
        0 <= from <= list.len(),
        tools_added(list, from, ""@, state) is Ok,
        forall|i: int|
            0 <= i < list.len() ==> (#[trigger] list[i]).at("type"@) != Tree::Text("namespace"@),
    ensures
        ({
            let all = tools_added(list, from, ""@, state)->Ok_0.declarations;
            &&& all.len() == state.declarations.len() + list.len() - from
            &&& forall|i: int| 0 <= i < state.declarations.len() ==> all[i] == state.declarations[i]
            &&& forall|i: int|
                from <= i < list.len() ==> (#[trigger] list[i]).at("name"@) is Text && all[
                state.declarations.len() + i - from] == declaration(
                    list[i],
                    native_name(list[i].at("name"@)->Text_0),
                    list[i].at("type"@) == Tree::Text("custom"@),
                )
        }),
    decreases list.len() - from,
{
    reveal_strlit("");
    if from < list.len() {
        let tool = list[from];
        let kind = string_of(tool, "type"@)->Ok_0;
        let own = tool.at("name"@)->Text_0;
        assert(""@ + own =~= own);
        let next = state.added(tool, kind, ""@)->Ok_0;
        declarations_stand_in_order(list, from + 1, next);
        let all = tools_added(list, from, ""@, state)->Ok_0.declarations;
        let n = state.declarations.len() as int;
        assert(all[n] == next.declarations[n]);
        assert forall|i: int| 0 <= i < n implies all[i] == state.declarations[i] by {
            assert(all[i] == next.declarations[i]);
        }
    }
}

proof fn tools_are_found_by_name(list: Seq<Tree>, from: int, state: Tools, k: int)
    requires
        0 <= from <= list.len(),
        0 <= k < list.len(),
        tools_added(list, from, ""@, state) is Ok,
        forall|i: int|
            0 <= i < list.len() ==> (#[trigger] list[i]).at("type"@) != Tree::Text("namespace"@),
        forall|i: int|
            0 <= i < list.len() && i != k ==> native_name((#[trigger] list[i]).at("name"@)->Text_0)
                != native_name(list[k].at("name"@)->Text_0),
        k < from ==> find(state.tools, native_name(list[k].at("name"@)->Text_0)) == Some(
            ToolView {
                name: list[k].at("name"@)->Text_0,
                namespace: None,
                custom: list[k].at("type"@) == Tree::Text("custom"@),
            },
        ),
    ensures
        find(
            tools_added(list, from, ""@, state)->Ok_0.tools,
            native_name(list[k].at("name"@)->Text_0),
        ) == Some(
            ToolView {
                name: list[k].at("name"@)->Text_0,
                namespace: None,
                custom: list[k].at("type"@) == Tree::Text("custom"@),
            },
        ),
    decreases list.len() - from,
{
    reveal_strlit("");
    if from < list.len() {
        let tool = list[from];
        let kind = string_of(tool, "type"@)->Ok_0;
        let own = tool.at("name"@)->Text_0;
        assert(""@ + own =~= own);
        let next = state.added(tool, kind, ""@)->Ok_0;
        let view = ToolView { name: own, namespace: None, custom: kind == "custom"@ };
        put_then_find(state.tools, native_name(own), view);
        if from != k {
            put_keeps_others(
                state.tools,
                native_name(own),
                view,
                native_name(list[k].at("name"@)->Text_0),
            );
        }
        tools_are_found_by_name(list, from + 1, next, k);
    }
}

/// A call by the name under which a tool was declared is a call of that tool, under the tool's own
/// name and of its own kind, where no two tools are declared under one name. A function without
/// parameters is declared with an object as its argument, a custom tool with a text that it needs.
pub proof fn calls_go_to_their_tools(
    request: Tree,
    url: Seq<char>,
    thinking: Thinking,
    key: Seq<u8>,
    done: Converted,
    list: Seq<Tree>,
    k: int,
)
    requires
        converted(request, url, thinking, key) == Ok::<Converted, Seq<char>>(done),
        request.get("tools"@) == Some(Tree::Array(list)),
        0 <= k < list.len(),
        forall|i: int|
            0 <= i < list.len() ==> (#[trigger] list[i]).at("type"@) != Tree::Text("namespace"@),
        ({
            let told = list_of(list_of(done.body.at("tools"@))[0].at("functionDeclarations"@));
            forall|i: int|
                0 <= i < list.len() && i != k ==> (#[trigger] told[i]).at("name"@) != told[k].at(
                    "name"@,
                )
        }),
    ensures
        ({
            let told = list_of(list_of(done.body.at("tools"@))[0].at("functionDeclarations"@))[k];
            let tool = find(done.tools, told.at("name"@)->Text_0);
            let schema = told.at("parametersJsonSchema"@);
            &&& told.at("name"@) is Text
            &&& tool is Some
            &&& Tree::Text(tool->Some_0.name) == list[k].at("name"@)
            &&& tool->Some_0.custom == (list[k].at("type"@) == Tree::Text("custom"@))
            &&& tool->Some_0.namespace is None
            &&& list[k].at("type"@) == Tree::Text("function"@) && !list[k].has("parameters"@)
                ==> schema.at("type"@) == Tree::Text("object"@)
            &&& list[k].at("type"@) == Tree::Text("custom"@) ==> schema.at("type"@) == Tree::Text(
                "object"@,
            ) && schema.at("required"@) == Tree::Array(seq![Tree::Text("input"@)])
        }),
{
    broadcast use member_laws;

    bodies_are_made(request, url, thinking, key, done);
    names_of_declarations();
    assert("parametersJsonSchema"@ != "name"@ && "parametersJsonSchema"@ != "description"@
        && "name"@ != "description"@ && "type"@ != "properties"@ && "type"@ != "required"@
        && "properties"@ != "required"@ && "function"@ != "custom"@) by {
        reveal_strlit("parametersJsonSchema");
        reveal_strlit("name");
        reveal_strlit("description");
        reveal_strlit("type");
        reveal_strlit("properties");
        reveal_strlit("required");
        reveal_strlit("function");
        reveal_strlit("custom");
        assert("parametersJsonSchema"@.len() == 20);
        assert("name"@.len() == 4);
        assert("description"@.len() == 11);
        assert("type"@.len() == 4);
        assert("properties"@.len() == 10);
        assert("required"@.len() == 8);
        assert("function"@.len() == 8);
        assert("custom"@.len() == 6);
        assert("name"@[0] == 'n');
        assert("type"@[0] == 't');
        assert("required"@[0] == 'r');
        assert("function"@[0] == 'f');
    }
    let none = Tools { tools: Seq::empty(), names: Seq::empty(), declarations: Seq::empty() };
    declarations_stand_in_order(list, 0, none);
    let all = tools_added(list, 0, ""@, none)->Ok_0.declarations;
    let told = list_of(list_of(done.body.at("tools"@))[0].at("functionDeclarations"@));
    assert(told == all);
    assert forall|i: int| 0 <= i < list.len() implies (#[trigger] told[i]).at("name"@) == Tree::Text(
        native_name(list[i].at("name"@)->Text_0),
    ) by {
        let tool = list[i];
        let native = native_name(tool.at("name"@)->Text_0);
        let custom = tool.at("type"@) == Tree::Text("custom"@);
        assert(told[i] == declaration(tool, native, custom));
        let plain = empty_object().with("name"@, Tree::Text(native)).with(
            "parametersJsonSchema"@,
            crate::gemini::tools::tool_schema(tool, custom),
        );
        assert(plain.at("name"@) == Tree::Text(native));
    }
    assert forall|i: int| 0 <= i < list.len() && i != k implies native_name(
        (#[trigger] list[i]).at("name"@)->Text_0,
    ) != native_name(list[k].at("name"@)->Text_0) by {
        assert(told[i].at("name"@) != told[k].at("name"@));
    }
    tools_are_found_by_name(list, 0, none, k);
    let tool = list[k];
    let custom = tool.at("type"@) == Tree::Text("custom"@);
    let schema = crate::gemini::tools::tool_schema(tool, custom);
    let plain = empty_object().with(
        "name"@,
        Tree::Text(native_name(tool.at("name"@)->Text_0)),
    ).with("parametersJsonSchema"@, schema);
    assert(plain.at("parametersJsonSchema"@) == schema);
    assert(told[k].at("parametersJsonSchema"@) == schema);
    let kinds = empty_object().with("type"@, Tree::Text("object"@));
    let filled = kinds.with(
        "properties"@,
        empty_object().with("input"@, empty_object().with("type"@, Tree::Text("string"@))),
    );
    assert(filled.at("type"@) == Tree::Text("object"@));
}

} // verus!

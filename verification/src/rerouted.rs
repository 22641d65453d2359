//! Where the rules send a request, and what guidance adds to it.

use vstd::prelude::*;
use vstd::utf8::encode_utf8;
use crate::config::{alias_from, shape_fits, AliasView, ApiShape};
use crate::gemini::conversation::list_of;
use crate::guidance::{conversation_of, guided, reminder, reminds, unreminded, MESSAGE};
use crate::members::member_laws;
use crate::outside::{percent_decoded, percent_encoded};
use crate::routing::{
    alias_effects, chat_path, effort_of, in_session, pair_routed, path_routed,
    query_text, responses_path, rewritten, RuleBook,
};
use crate::table::find;
use crate::text::{after, occurs, trimmed_end};
use crate::tree::Tree;

verus! {

// ---- which rule applies ---------------------------------------------------------------------

proof fn first_alias_applies(aliases: Seq<AliasView>, model: Seq<char>, path: Seq<char>, from: int, k: int)
    requires
        0 <= from <= k < aliases.len(),
        aliases[k].from == model,
        shape_fits(aliases[k].api_shape, path),
        forall|i: int|
            from <= i < k ==> (#[trigger] aliases[i]).from != model || !shape_fits(
                aliases[i].api_shape,
                path,
            ),
    ensures
        alias_from(aliases, model, path, from) == Some(aliases[k]),
    decreases k - from,
{
    if from < k {
        first_alias_applies(aliases, model, path, from + 1, k);
    }
}

proof fn no_alias_applies(aliases: Seq<AliasView>, model: Seq<char>, path: Seq<char>, from: int)
    requires
        0 <= from,
        forall|i: int| from <= i < aliases.len() ==> (#[trigger] aliases[i]).from != model,
    ensures
        alias_from(aliases, model, path, from) is None,
    decreases aliases.len() - from,
{
    if from < aliases.len() {
        no_alias_applies(aliases, model, path, from + 1);
    }
}

/// The rule of a model is the first that names it, among those for any API and those for the API
/// of the request; a model that none names has no rule.
pub proof fn the_first_rule_applies(
    aliases: Seq<AliasView>,
    model: Seq<char>,
    path: Seq<char>,
    k: int,
)
    ensures
        (forall|i: int| 0 <= i < aliases.len() ==> (#[trigger] aliases[i]).from != model)
            ==> alias_from(aliases, model, path, 0) is None,
        0 <= k < aliases.len() && aliases[k].from == model && (aliases[k].api_shape is None || (
        aliases[k].api_shape == Some(ApiShape::Responses) && trimmed_end(path, '/')
            == "/v1/responses"@) || (aliases[k].api_shape == Some(ApiShape::ChatCompletions)
            && trimmed_end(path, '/') == "/v1/chat/completions"@) || (aliases[k].api_shape == Some(
            ApiShape::Completions,
        ) && trimmed_end(path, '/') == "/v1/completions"@)) && (forall|i: int|
            0 <= i < k ==> (#[trigger] aliases[i]).from != model) ==> alias_from(
            aliases,
            model,
            path,
            0,
        ) == Some(aliases[k]),
{
    if forall|i: int| 0 <= i < aliases.len() ==> (#[trigger] aliases[i]).from != model {
        no_alias_applies(aliases, model, path, 0);
    }
    paths_end();
    if 0 <= k < aliases.len() && aliases[k].from == model && shape_fits(aliases[k].api_shape, path)
        && (forall|i: int| 0 <= i < k ==> (#[trigger] aliases[i]).from != model) {
        first_alias_applies(aliases, model, path, 0, k);
    }
}

proof fn paths_end()
    ensures
        "/responses"@.is_suffix_of("/v1/responses"@),
        "/chat/completions"@.is_suffix_of("/v1/chat/completions"@),
        "/completions"@.is_suffix_of("/v1/completions"@),
        "/completions"@.is_suffix_of("/v1/chat/completions"@),
        !("/chat/completions"@.is_suffix_of("/v1/completions"@)),
        !("/chat/completions"@.is_suffix_of("/v1/responses"@)),
        !("/responses"@.is_suffix_of("/v1/chat/completions"@)),
        !("/responses"@.is_suffix_of("/v1/completions"@)),
        !("/completions"@.is_suffix_of("/v1/responses"@)),
{
    reveal_strlit("/responses");
    reveal_strlit("/v1/responses");
    reveal_strlit("/chat/completions");
    reveal_strlit("/v1/chat/completions");
    reveal_strlit("/completions");
    reveal_strlit("/v1/completions");
    assert("/v1/responses"@.subrange(3, 13) =~= "/responses"@);
    assert("/v1/chat/completions"@.subrange(3, 20) =~= "/chat/completions"@);
    assert("/v1/completions"@.subrange(3, 15) =~= "/completions"@);
    assert("/v1/chat/completions"@.subrange(8, 20) =~= "/completions"@);
    assert("/v1/chat/completions"@.subrange(10, 20)[0] != "/responses"@[0]);
    assert("/v1/completions"@.subrange(5, 15)[0] != "/responses"@[0]);
    assert("/v1/responses"@.subrange(1, 13)[0] != "/completions"@[0]);
}

/// A rule for one API does not apply to the requests of another.
pub proof fn rules_keep_to_their_api(path: Seq<char>)
    ensures
        shape_fits(None, path),
        trimmed_end(path, '/') == "/v1/responses"@ ==> shape_fits(
            Some(ApiShape::Responses),
            path,
        ) && !shape_fits(Some(ApiShape::ChatCompletions), path) && !shape_fits(
            Some(ApiShape::Completions),
            path,
        ),
        trimmed_end(path, '/') == "/v1/chat/completions"@ ==> !shape_fits(
            Some(ApiShape::Responses),
            path,
        ) && shape_fits(Some(ApiShape::ChatCompletions), path) && !shape_fits(
            Some(ApiShape::Completions),
            path,
        ),
        trimmed_end(path, '/') == "/v1/completions"@ ==> !shape_fits(
            Some(ApiShape::Responses),
            path,
        ) && !shape_fits(Some(ApiShape::ChatCompletions), path) && shape_fits(
            Some(ApiShape::Completions),
            path,
        ),
{
    paths_end();
}

// ---- what a rule does -----------------------------------------------------------------------

/// The effort that a request asks for: in the form of its API, and in that of reasoning options.
pub open spec fn asked_effort(path: Seq<char>, value: Tree) -> Tree {
    let plain = value.at("reasoning_effort"@);
    let options = value.at("reasoning"@);
    if trimmed_end(path, '/') == "/v1/responses"@ {
        options.at("effort"@)
    } else if plain is Text {
        plain
    } else if options.at("effort"@) is Text {
        options.at("effort"@)
    } else if options.at("enabled"@) == Tree::Bool(true) {
        Tree::Text("medium"@)
    } else if options.at("enabled"@) == Tree::Bool(false) {
        Tree::Text("none"@)
    } else {
        Tree::Null
    }
}

/// A request goes to the model and under the key that its rule gives for the effort that it asks
/// for, where the rule gives one; otherwise to the model and under the key of the rule, and under
/// the default key where the rule has none.
pub proof fn rules_route_by_effort(
    rules: RuleBook,
    path: Seq<char>,
    value: Tree,
    model: Seq<char>,
    alias: AliasView,
)
    requires
        value.at("model"@) == Tree::Text(model),
        alias_from(rules.aliases, model, path, 0) == Some(alias),
        alias.reasoning is None,
        trimmed_end(path, '/') == "/v1/responses"@ || trimmed_end(path, '/')
            == "/v1/chat/completions"@,
        !occurs("/realtime/"@, path),
    ensures
        ({
            let effort = asked_effort(path, value);
            let done = rewritten(rules, path, value);
            let sent = done->Ok_0.0->Some_0.at("model"@);
            let key = done->Ok_0.1;
            let route = match effort {
                Tree::Text(effort) => find(alias.reasoning_routes, effort),
                _ => None,
            };
            &&& done is Ok && done->Ok_0.0 is Some
            &&& route matches Some(route) ==> {
                &&& after(route.to, "openai/"@) is None ==> sent == Tree::Text(route.to)
                &&& after(route.to, "openai/"@) matches Some(name) ==> sent == Tree::Text(name)
                &&& route.api_key matches Some(own) ==> key == own
                &&& route.api_key is None ==> (alias.api_key matches Some(own) ==> key == own)
                &&& route.api_key is None && alias.api_key is None ==> key == rules.default
            }
            &&& route is None ==> {
                &&& alias.to matches Some(to) ==> (after(to, "openai/"@) is None ==> sent
                    == Tree::Text(to))
                &&& alias.to matches Some(to) ==> (after(to, "openai/"@) matches Some(name)
                    ==> sent == Tree::Text(name))
                &&& alias.api_key matches Some(own) ==> key == own
                &&& alias.api_key is None ==> key == rules.default
            }
        }),
{
    paths_end();
    assert(!in_session(path, value));
    assert(trimmed_end(path, '/') == "/v1/responses"@ ==> responses_path(path) && !chat_path(path));
    assert(trimmed_end(path, '/') == "/v1/chat/completions"@ ==> chat_path(path));
    alias_effects(rules, path, value, model, alias);
    let effort = asked_effort(path, value);
    assert(effort_of(path, value) == effort.text()) by {
        assert("/v1/responses"@ != "/v1/chat/completions"@) by {
            reveal_strlit("/v1/responses");
            reveal_strlit("/v1/chat/completions");
            assert("/v1/responses"@.len() != "/v1/chat/completions"@.len());
        }
    }
}

/// A rule that sets an effort sends it in the form of the API, whatever effort was asked for.
pub proof fn rules_set_efforts(
    rules: RuleBook,
    path: Seq<char>,
    value: Tree,
    model: Seq<char>,
    alias: AliasView,
    effort: Seq<char>,
)
    requires
        value.at("model"@) == Tree::Text(model),
        alias_from(rules.aliases, model, path, 0) == Some(alias),
        alias.reasoning == Some(effort),
        value.at("reasoning"@) is Null || value.at("reasoning"@) is Object,
        !occurs("/realtime/"@, path),
    ensures
        ({
            let done = rewritten(rules, path, value);
            &&& done is Ok && done->Ok_0.0 is Some
            &&& trimmed_end(path, '/') == "/v1/responses"@ ==> done->Ok_0.0->Some_0.at(
                "reasoning"@,
            ).at("effort"@) == Tree::Text(effort)
            &&& trimmed_end(path, '/') == "/v1/chat/completions"@ ==> done->Ok_0.0->Some_0.at(
                "reasoning_effort"@,
            ) == Tree::Text(effort)
        }),
{
    paths_end();
    alias_effects(rules, path, value, model, alias);
}

/// The path of a model that a rule sends elsewhere names the other model, and the request goes
/// under the key of the rule; any other path stays as it is.
pub proof fn paths_are_routed(
    rules: RuleBook,
    model: Seq<char>,
    project: Seq<char>,
    alias: AliasView,
)
    requires
        !model.contains('/'),
    ensures
        ({
            let path = "/v1/models/"@ + model;
            let routed = path_routed(rules, path, project);
            let found = alias_from(rules.aliases, percent_decoded(model), path, 0);
            &&& found == Some(alias) ==> (alias.to matches Some(to) ==> routed.0 == "/v1/models/"@
                + percent_encoded(encode_utf8(to)))
            &&& found == Some(alias) && alias.to is None ==> routed.0 == path
            &&& found == Some(alias) ==> (alias.api_key matches Some(key) ==> routed.1 == key)
            &&& found == Some(alias) && alias.api_key is None ==> routed.1 == project
            &&& found is None ==> routed == (path, project)
        }),
{
    let path = "/v1/models/"@ + model;
    let n = "/v1/models/"@.len() as int;
    assert(path.subrange(0, n) =~= "/v1/models/"@);
    assert(path.subrange(n, path.len() as int) =~= model);
    assert(after(path, "/v1/models/"@) == Some(model));
}

/// A pair of a query stays as it is, unless it names a model that a rule sends elsewhere.
pub proof fn pairs_are_routed(
    rules: RuleBook,
    path: Seq<char>,
    key: Seq<char>,
    value: Seq<char>,
    project: Seq<char>,
    alias: AliasView,
)
    requires
        !key.contains('='),
    ensures
        ({
            let pair = key + "="@ + value;
            let routed = pair_routed(rules, path, pair, project);
            let found = alias_from(rules.aliases, query_text(value), path, 0);
            &&& query_text(key) != "model"@ ==> routed == (pair, project)
            &&& query_text(key) == "model"@ && found is None ==> routed == (pair, project)
            &&& query_text(key) == "model"@ && found == Some(alias) ==> (alias.to matches Some(to)
                ==> routed.0 == key + "="@ + percent_encoded(encode_utf8(to)))
            &&& query_text(key) == "model"@ && found == Some(alias) ==> (
            alias.api_key matches Some(own) ==> routed.1 == own)
        }),
{
    reveal_strlit("=");
    let pair = key + "="@ + value;
    assert forall|i: int| 0 <= i < key.len() implies pair[i] != '=' by {
        assert(key.contains(key[i]));
        assert(pair[i] == key[i]);
    }
    assert(pair[key.len() as int] == '=');
    first_place(pair, '=', 0, key.len() as int);
    assert(pair.subrange(0, key.len() as int) =~= key);
    assert(pair.subrange((key.len() + 1) as int, pair.len() as int) =~= value);
}

proof fn first_place(s: Seq<char>, c: char, from: int, k: int)
    requires
        0 <= from <= k < s.len(),
        s[k] == c,
        forall|i: int| from <= i < k ==> s[i] != c,
    ensures
        crate::text::place_of(s, c, from) == Some(k),
    decreases k - from,
{
    if from < k {
        first_place(s, c, from + 1, k);
    }
}

// ---- guidance -------------------------------------------------------------------------------

/// The messages from `from` on that are not the reminder.
pub open spec fn own_messages(messages: Seq<Tree>, from: int) -> Seq<Tree>
    decreases messages.len() - from,
{
    if from < 0 || from >= messages.len() {
        Seq::empty()
    } else if messages[from].at("role"@) == Tree::Text("user"@) && messages[from].at("content"@)
        == Tree::Text(MESSAGE@) {
        own_messages(messages, from + 1)
    } else {
        seq![messages[from]] + own_messages(messages, from + 1)
    }
}

proof fn reminders_are_left_out(messages: Seq<Tree>, from: int, kept: Seq<Tree>)
    requires
        0 <= from,
    ensures
        unreminded(messages, from, kept) == kept + own_messages(messages, from),
    decreases messages.len() - from,
{
    if from < messages.len() {
        if reminds(messages[from]) {
            reminders_are_left_out(messages, from + 1, kept);
        } else {
            reminders_are_left_out(messages, from + 1, kept.push(messages[from]));
            assert(kept.push(messages[from]) + own_messages(messages, from + 1) =~= kept + (
            seq![messages[from]] + own_messages(messages, from + 1)));
        }
    } else {
        assert(kept + Seq::<Tree>::empty() =~= kept);
    }
}

/// Guidance puts one reminder of the user behind the messages of a request, and keeps those as
/// they are and in order; an input that is a text stays the text of a user.
pub proof fn guidance_follows_the_messages(path: Seq<char>, value: Tree, done: Tree)
    requires
        guided(path, value) == Some(done),
    ensures
        ({
            let place = trimmed_end(path, '/');
            let field = if place == "/v1/responses"@ {
                "input"@
            } else {
                "messages"@
            };
            let list = list_of(done.at(field));
            &&& place == "/v1/responses"@ || place == "/v1/chat/completions"@
            &&& list.len() > 0
            &&& list.last().at("role"@) == Tree::Text("user"@)
            &&& list.last().at("content"@) == Tree::Text(MESSAGE@)
            &&& value.at(field) is Array ==> list.drop_last() == own_messages(
                list_of(value.at(field)),
                0,
            )
            &&& value.at(field) matches Tree::Text(text) ==> text == MESSAGE@ || (list.len() == 2
                && list[0].at("role"@) == Tree::Text("user"@) && list[0].at("content"@)
                == Tree::Text(text))
        }),
{
    broadcast use member_laws;

    assert("role"@ != "content"@ && "/v1/responses"@ != "/v1/chat/completions"@) by {
        reveal_strlit("role");
        reveal_strlit("content");
        assert("role"@.len() != "content"@.len());
        reveal_strlit("/v1/responses");
        reveal_strlit("/v1/chat/completions");
        assert("/v1/responses"@.len() != "/v1/chat/completions"@.len());
    }
    let (talk, field) = conversation_of(path, value)->Some_0;
    let messages = list_of(talk.at(field));
    let rest = unreminded(messages, 0, Seq::empty());
    reminders_are_left_out(messages, 0, Seq::empty());
    assert(Seq::<Tree>::empty() + own_messages(messages, 0) =~= own_messages(messages, 0));
    let list = rest.push(reminder());
    assert(talk is Object);
    assert(done.at(field) == Tree::Array(list));
    assert(list.drop_last() =~= rest);
    assert(reminder().at("role"@) == Tree::Text("user"@));
    assert(reminder().at("content"@) == Tree::Text(MESSAGE@));
    if let Tree::Text(text) = value.at(field) {
        if text != MESSAGE@ {
            let said = messages[0];
            assert(messages.len() == 1);
            assert(said.at("role"@) == Tree::Text("user"@));
            assert(said.at("content"@) == Tree::Text(text));
            reveal_with_fuel(own_messages, 2);
            assert(own_messages(messages, 0) =~= seq![said]);
        }
    }
}

} // verus!

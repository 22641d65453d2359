//! Overwrite rules: which model and which key a request goes to.

use vstd::prelude::*;
use vstd::string::{StrSliceExecFns, StringExecFns};
use vstd::utf8::encode_utf8;
use crate::config::{alias_from, alias_views, Alias, AliasView, Config, RouteView};
use crate::error::Error;
use crate::exchange::{parse, parsed, to_text, written};
use crate::gemini::conversation::list_of;
use crate::gemini::parts::empty_object;
use crate::guidance::{apply, conversation_of, guided, reminder, unreminded};
use crate::members::{member_laws, set_keeps_others};
use crate::outside::{percent_decode, percent_decoded, percent_encode, percent_encoded};
use crate::table::{find, get_entry};
use crate::text::{
    after, chars_of, contains, ends_with, has_char, join2, join3, occurs, parted, pieces, push_char,
    same, split, split_once, strip_prefix, texts, trim_end, trimmed_end,
};
use crate::tree::{json_views, Json, Tree};

verus! {

broadcast use json_views;

/// What the rules of a configuration say.
pub ghost struct RuleBook {
    pub aliases: Seq<AliasView>,
    pub default: Seq<char>,
    pub guide: bool,
}

/// The rules of a configuration.
pub open spec fn rules_of(config: Config) -> RuleBook {
    RuleBook {
        aliases: alias_views(config.aliases@),
        default: config.default.api_key@,
        guide: config.skip_blocked_security_work,
    }
}

/// Whether a path is one of Responses requests.
pub open spec fn responses_path(path: Seq<char>) -> bool {
    "/responses"@.is_suffix_of(trimmed_end(path, '/'))
}

/// Whether a path is one of chat requests.
pub open spec fn chat_path(path: Seq<char>) -> bool {
    "/chat/completions"@.is_suffix_of(trimmed_end(path, '/'))
}

fn is_responses_path(path: &str) -> (r: bool)
    ensures
        r == responses_path(path@),
{
    ends_with(trim_end(path, '/'), "/responses")
}

fn is_chat_path(path: &str) -> (r: bool)
    ensures
        r == chat_path(path@),
{
    ends_with(trim_end(path, '/'), "/chat/completions")
}

/// The reasoning effort that a request asks for.
pub open spec fn effort_of(path: Seq<char>, value: Tree) -> Option<Seq<char>> {
    let nested = value.at("reasoning"@).at("effort"@).text();
    if chat_path(path) {
        match value.at("reasoning_effort"@).text() {
            Some(effort) => Some(effort),
            None => match nested {
                Some(effort) => Some(effort),
                None => match value.at("reasoning"@).at("enabled"@).flag() {
                    Some(true) => Some("medium"@),
                    Some(false) => Some("none"@),
                    None => None,
                },
            },
        }
    } else {
        nested
    }
}

/// The reasoning effort that a request asks for.
pub fn requested_effort<'a>(path: &str, value: &'a Json) -> (r: Option<&'a str>)
    ensures
        r.deep_view() == effort_of(path@, value@),
{
    let reasoning = value.at("reasoning");
    if is_chat_path(path) {
        match value.at("reasoning_effort").as_str() {
            Some(effort) => return Some(effort),
            None => {},
        }
        match reasoning.at("effort").as_str() {
            Some(effort) => return Some(effort),
            None => {},
        }
        match reasoning.at("enabled").as_bool() {
            Some(true) => Some("medium"),
            Some(false) => Some("none"),
            None => None,
        }
    } else {
        reasoning.at("effort").as_str()
    }
}

/// Whether a request names its model in its session.
pub open spec fn in_session(path: Seq<char>, value: Tree) -> bool {
    occurs("/realtime/"@, path) && value.at("session"@).has("model"@)
}

/// The model that a request names.
pub open spec fn model_of(value: Tree, session: bool) -> Tree {
    if session {
        value.at("session"@).at("model"@)
    } else {
        value.at("model"@)
    }
}

/// A request with another model.
pub open spec fn with_model(value: Tree, session: bool, model: Seq<char>) -> Tree {
    if session {
        value.with("session"@, value.at("session"@).with("model"@, Tree::Text(model)))
    } else {
        value.with("model"@, Tree::Text(model))
    }
}

fn set_model(value: &mut Json, session: bool, model: &str)
    ensures
        final(value)@ == with_model(old(value)@, session, model@),
{
    if session {
        let inner = value.at("session").copy().with("model", Json::text(model));
        value.set("session", inner);
    } else {
        value.set("model", Json::text(model));
    }
}

/// The reasoning route of an alias for an effort.
pub open spec fn route_of(alias: AliasView, effort: Option<Seq<char>>) -> Option<RouteView> {
    match effort {
        Some(effort) => find(alias.reasoning_routes, effort),
        None => None,
    }
}

/// The key of requests that an alias routes.
pub open spec fn key_of(alias: AliasView, route: Option<RouteView>, default: Seq<char>) -> Seq<
    char,
> {
    match route {
        Some(RouteView { api_key: Some(key), .. }) => key,
        _ => match alias.api_key {
            Some(key) => key,
            None => default,
        },
    }
}

/// The model that an alias routes to.
pub open spec fn target_of(alias: AliasView, route: Option<RouteView>) -> Option<Seq<char>> {
    match route {
        Some(route) => Some(route.to),
        None => alias.to,
    }
}

/// A request with the effort that an alias sets.
pub open spec fn with_effort(path: Seq<char>, value: Tree, effort: Option<Seq<char>>) -> Result<
    Tree,
    Seq<char>,
> {
    match effort {
        None => Ok(value),
        Some(effort) => if responses_path(path) {
            let reasoning = if value.at("reasoning"@) is Null {
                empty_object()
            } else {
                value.at("reasoning"@)
            };
            if reasoning is Object {
                Ok(
                    value.with(
                        "reasoning"@,
                        reasoning.with("effort"@, Tree::Text(effort)),
                    ),
                )
            } else {
                Err("reasoning must be an object for Responses requests"@)
            }
        } else if chat_path(path) {
            Ok(value.with("reasoning_effort"@, Tree::Text(effort)))
        } else {
            Ok(value)
        },
    }
}

fn set_effort(path: &str, value: &mut Json, effort: &Option<String>) -> (r: Result<(), Error>)
    ensures
        match with_effort(path@, old(value)@, effort.deep_view()) {
            Ok(changed) => r is Ok && final(value)@ == changed,
            Err(message) => r is Err && r->Err_0.message@ == message,
        },
{
    let effort = match effort {
        Some(effort) => effort,
        None => return Ok(()),
    };
    if is_responses_path(path) {
        let reasoning = if value.at("reasoning").is_null() {
            Json::object()
        } else {
            value.at("reasoning").copy()
        };
        if !reasoning.is_object() {
            return Err(Error::new("reasoning must be an object for Responses requests"));
        }
        value.set("reasoning", reasoning.with("effort", Json::text(effort.as_str())));
    } else if is_chat_path(path) {
        value.set("reasoning_effort", Json::text(effort.as_str()));
    }
    Ok(())
}

/// A request as an alias rewrites it, and the key that it goes under.
pub open spec fn aliased(path: Seq<char>, value: Tree, session: bool, alias: AliasView, default: Seq<
    char,
>) -> Result<(Tree, Seq<char>), Seq<char>> {
    let route = route_of(alias, effort_of(path, value));
    let named = match target_of(alias, route) {
        Some(model) => with_model(value, session, model),
        None => value,
    };
    match with_effort(path, named, alias.reasoning) {
        Err(message) => Err(message),
        Ok(changed) => Ok((changed, key_of(alias, route, default))),
    }
}

fn apply_alias(path: &str, value: &mut Json, session: bool, alias: &Alias, default: &str) -> (r: Result<
    String,
    Error,
>)
    ensures
        match aliased(path@, old(value)@, session, alias.deep_view(), default@) {
            Ok((changed, key)) => r is Ok && final(value)@ == changed && r->Ok_0@ == key,
            Err(message) => r is Err && r->Err_0.message@ == message,
        },
{
    let route = match requested_effort(path, value) {
        Some(effort) => get_entry(&alias.reasoning_routes, effort),
        None => None,
    };
    let own = match &alias.api_key {
        Some(key) => key.as_str(),
        None => default,
    };
    let key = match route {
        Some(route) => match &route.api_key {
            Some(key) => key.as_str(),
            None => own,
        },
        None => own,
    };
    let key = key.to_string();
    match route {
        Some(route) => set_model(value, session, route.to.as_str()),
        None => match &alias.to {
            Some(model) => set_model(value, session, model.as_str()),
            None => {},
        },
    }
    set_effort(path, value, &alias.reasoning)?;
    Ok(key)
}

/// The request that the rules start from: guided where the configuration says so.
pub open spec fn prepared(rules: RuleBook, path: Seq<char>, value: Tree) -> (Tree, bool) {
    if rules.guide {
        match guided(path, value) {
            Some(changed) => (changed, true),
            None => (
                match conversation_of(path, value) {
                    Some((talk, _)) => talk,
                    None => value,
                },
                false,
            ),
        }
    } else {
        (value, false)
    }
}

/// What the rules make of a request: the request where they change it, and the key that it
/// goes under.
pub open spec fn rewritten(rules: RuleBook, path: Seq<char>, value: Tree) -> Result<
    (Option<Tree>, Seq<char>),
    Seq<char>,
> {
    let (start, guided) = prepared(rules, path, value);
    let session = in_session(path, start);
    let alias = match model_of(start, session).text() {
        Some(model) => alias_from(rules.aliases, model, path, 0),
        None => None,
    };
    let routed = match alias {
        Some(alias) => aliased(path, start, session, alias, rules.default),
        None => Ok((start, rules.default)),
    };
    match routed {
        Err(message) => Err(message),
        Ok((value, key)) => {
            let explicit = match model_of(value, session).text() {
                Some(model) => after(model, "openai/"@),
                None => None,
            };
            match explicit {
                Some(model) => Ok((Some(with_model(value, session, model)), key)),
                None => if guided || alias is Some {
                    Ok((Some(value), key))
                } else {
                    Ok((None, key))
                },
            }
        },
    }
}

/// A request after the rules.
pub struct Rewritten {
    /// The request where the rules changed it.
    pub value: Option<Json>,
    /// The name of the key that it goes under.
    pub project: String,
}

fn read_model<'a>(value: &'a Json, session: bool) -> (r: &'a Json)
    ensures
        r@ == model_of(value@, session),
{
    if session {
        value.at("session").at("model")
    } else {
        value.at("model")
    }
}

/// Applies the rules to a request.
pub fn rewrite_value(config: &Config, path: &str, value: Json) -> (r: Result<Rewritten, Error>)
    ensures
        match r {
            Ok(done) => rewritten(rules_of(*config), path@, value@) == Ok::<
                (Option<Tree>, Seq<char>),
                Seq<char>,
            >((done.value.deep_view(), done.project@)),
            Err(error) => rewritten(rules_of(*config), path@, value@) == Err::<
                (Option<Tree>, Seq<char>),
                Seq<char>,
            >(error.message@),
        },
{
    let mut value = value;
    let mut changed = false;
    if config.skip_blocked_security_work {
        changed = apply(path, &mut value);
    }
    let session = contains(path, "/realtime/") && value.at("session").has("model");
    let mut project = config.default.api_key.clone();
    let alias = match read_model(&value, session).as_str() {
        Some(model) => config.alias_for(model, path),
        None => None,
    };
    match alias {
        Some(alias) => {
            project = apply_alias(
                path,
                &mut value,
                session,
                alias,
                config.default.api_key.as_str(),
            )?;
            changed = true;
        },
        None => {},
    }
    let explicit = match read_model(&value, session).as_str() {
        Some(model) => match strip_prefix(model, "openai/") {
            Some(rest) => Some(rest.to_string()),
            None => None,
        },
        None => None,
    };
    match explicit {
        Some(model) => {
            set_model(&mut value, session, model.as_str());
            changed = true;
        },
        None => {},
    }
    if changed {
        Ok(Rewritten { value: Some(value), project })
    } else {
        Ok(Rewritten { value: None, project })
    }
}

/// What the rules make of the body of a request.
pub open spec fn rewritten_body(rules: RuleBook, path: Seq<char>, body: Seq<u8>) -> Result<
    (Seq<u8>, Seq<char>),
    Seq<char>,
> {
    if body.len() == 0 {
        Ok((body, rules.default))
    } else {
        match parsed(body) {
            Err(_) => Err("Request body must be valid JSON"@),
            Ok(value) => match rewritten(rules, path, value) {
                Err(message) => Err(message),
                Ok((Some(changed), key)) => Ok((encode_utf8(written(changed)), key)),
                Ok((None, key)) => Ok((body, key)),
            },
        }
    }
}

/// Applies the rules to the body of a request: the body, byte for byte where the rules do
/// not change it, and the name of the key that it goes under.
pub fn rewrite(config: &Config, path: &str, body: Vec<u8>) -> (r: Result<(Vec<u8>, String), Error>)
    ensures
        match r {
            Ok((out, key)) => rewritten_body(rules_of(*config), path@, body@) == Ok::<
                (Seq<u8>, Seq<char>),
                Seq<char>,
            >((out@, key@)),
            Err(error) => rewritten_body(rules_of(*config), path@, body@) == Err::<
                (Seq<u8>, Seq<char>),
                Seq<char>,
            >(error.message@),
        },
{
    if body.len() == 0 {
        return Ok((body, config.default.api_key.clone()));
    }
    let value = match parse(body.as_slice()) {
        Ok(value) => value,
        Err(_) => return Err(Error::new("Request body must be valid JSON")),
    };
    let done = rewrite_value(config, path, value)?;
    match done.value {
        Some(changed) => Ok((to_text(&changed).as_str().as_bytes_vec(), done.project)),
        None => Ok((body, done.project)),
    }
}

// ---- models in URLs ------------------------------------------------------------------------

/// The target of a model in a URL, and the key where the alias names one.
pub open spec fn routed_model(rules: RuleBook, path: Seq<char>, model: Seq<char>) -> (
    Option<Seq<char>>,
    Option<Seq<char>>,
) {
    match alias_from(rules.aliases, model, path, 0) {
        Some(alias) => (alias.to, alias.api_key),
        None => (None, None),
    }
}

/// Routes a model that is not in a JSON body: its target, and the key where the alias
/// names one.
pub fn route_model<'a>(config: &'a Config, path: &str, model: &str) -> (r: (
    Option<&'a str>,
    Option<&'a str>,
))
    ensures
        (r.0.deep_view(), r.1.deep_view()) == routed_model(rules_of(*config), path@, model@),
{
    match config.alias_for(model, path) {
        Some(alias) => {
            let to = match &alias.to {
                Some(to) => Some(to.as_str()),
                None => None,
            };
            let key = match &alias.api_key {
                Some(key) => Some(key.as_str()),
                None => None,
            };
            (to, key)
        },
        None => (None, None),
    }
}

/// A key, or the one before it.
pub open spec fn rekeyed(project: Seq<char>, key: Option<Seq<char>>) -> Seq<char> {
    match key {
        Some(key) => key,
        None => project,
    }
}

/// The model that a path of the model API names.
pub open spec fn path_model(path: Seq<char>) -> Option<Seq<char>> {
    match after(path, "/v1/models/"@) {
        Some(model) => if model.contains('/') {
            None
        } else {
            Some(model)
        },
        None => None,
    }
}

/// A path after the rules, and the key.
pub open spec fn path_routed(rules: RuleBook, path: Seq<char>, project: Seq<char>) -> (
    Seq<char>,
    Seq<char>,
) {
    match path_model(path) {
        None => (path, project),
        Some(model) => {
            let (to, key) = routed_model(rules, path, percent_decoded(model));
            (
                match to {
                    Some(target) => "/v1/models/"@ + percent_encoded(encode_utf8(target)),
                    None => path,
                },
                rekeyed(project, key),
            )
        },
    }
}

/// A text with spaces for plus signs.
pub open spec fn unplussed(s: Seq<char>) -> Seq<char> {
    s.map_values(
        |c: char|
            if c == '+' {
                ' '
            } else {
                c
            },
    )
}

/// The text of a query component.
pub open spec fn query_text(s: Seq<char>) -> Seq<char> {
    percent_decoded(unplussed(s))
}

/// The name and the value of a query pair.
pub open spec fn pair_parts(pair: Seq<char>) -> (Seq<char>, Seq<char>) {
    match parted(pair, '=') {
        Some(parts) => parts,
        None => (pair, Seq::empty()),
    }
}

/// A query pair after the rules, and the key.
pub open spec fn pair_routed(rules: RuleBook, path: Seq<char>, pair: Seq<char>, project: Seq<char>) -> (
    Seq<char>,
    Seq<char>,
) {
    let (key, value) = pair_parts(pair);
    if query_text(key) != "model"@ {
        (pair, project)
    } else {
        let (to, named) = routed_model(rules, path, query_text(value));
        (
            match to {
                Some(target) => key + "="@ + percent_encoded(encode_utf8(target)),
                None => pair,
            },
            rekeyed(project, named),
        )
    }
}

/// The pairs from `from` on after the rules, behind what was written, and the key.
pub open spec fn pairs_routed(
    rules: RuleBook,
    path: Seq<char>,
    pairs: Seq<Seq<char>>,
    from: int,
    out: Seq<char>,
    project: Seq<char>,
) -> (Seq<char>, Seq<char>)
    decreases pairs.len() - from,
{
    if from < 0 || from >= pairs.len() {
        (out, project)
    } else {
        let (pair, key) = pair_routed(rules, path, pairs[from], project);
        pairs_routed(
            rules,
            path,
            pairs,
            from + 1,
            if from == 0 {
                out + pair
            } else {
                out + "&"@ + pair
            },
            key,
        )
    }
}

/// A path and query after the rules, and the key.
pub open spec fn uri_routed(
    rules: RuleBook,
    path: Seq<char>,
    query: Option<Seq<char>>,
    project: Seq<char>,
) -> (Seq<char>, Seq<char>) {
    let (place, key) = path_routed(rules, path, project);
    match query {
        None => (place, key),
        Some(query) => pairs_routed(
            rules,
            path,
            pieces(query, '&', 0),
            0,
            place + "?"@,
            key,
        ),
    }
}

fn unplus(s: &str) -> (r: String)
    ensures
        r@ == unplussed(s@),
{
    let chars = chars_of(s);
    let mut out = String::new();
    let mut i: usize = 0;
    while i < chars.len()
        invariant
            i <= chars.len(),
            chars@ == s@,
            out@ == unplussed(s@).subrange(0, i as int),
        decreases chars.len() - i,
    {
        let c = if chars[i] == '+' {
            ' '
        } else {
            chars[i]
        };
        push_char(&mut out, c);
        proof {
            assert(unplussed(s@).subrange(0, i + 1) =~= unplussed(s@).subrange(0, i as int).push(
                c,
            ));
        }
        i += 1;
    }
    proof {
        assert(unplussed(s@).subrange(0, i as int) =~= unplussed(s@));
    }
    out
}

fn read_query_text(s: &str) -> (r: String)
    ensures
        r@ == query_text(s@),
{
    let plain = unplus(s);
    percent_decode(plain.as_str())
}

fn route_path(config: &Config, path: &str, project: String) -> (r: (String, String))
    ensures
        (r.0@, r.1@) == path_routed(rules_of(*config), path@, project@),
{
    let model = match strip_prefix(path, "/v1/models/") {
        Some(model) => model,
        None => return (path.to_string(), project),
    };
    if has_char(model, '/') {
        return (path.to_string(), project);
    }
    let decoded = percent_decode(model);
    let (to, key) = route_model(config, path, decoded.as_str());
    let project = match key {
        Some(key) => key.to_string(),
        None => project,
    };
    match to {
        Some(target) => {
            let encoded = percent_encode(target);
            (join2("/v1/models/", encoded.as_str()), project)
        },
        None => (path.to_string(), project),
    }
}

fn route_pair(config: &Config, path: &str, pair: &str, project: String) -> (r: (String, String))
    ensures
        (r.0@, r.1@) == pair_routed(rules_of(*config), path@, pair@, project@),
{
    let (key, value) = match split_once(pair, '=') {
        Some(parts) => parts,
        None => {
            proof {
                reveal_strlit("");
                assert(""@ =~= Seq::<char>::empty());
            }
            (pair, "")
        },
    };
    let name = read_query_text(key);
    if !same(name.as_str(), "model") {
        return (pair.to_string(), project);
    }
    let model = read_query_text(value);
    let (to, named) = route_model(config, path, model.as_str());
    let project = match named {
        Some(named) => named.to_string(),
        None => project,
    };
    match to {
        Some(target) => {
            let encoded = percent_encode(target);
            (join3(key, "=", encoded.as_str()), project)
        },
        None => (pair.to_string(), project),
    }
}

/// Applies the rules to the path and query of a request: both after the rules, and the
/// name of the key.
pub fn rewrite_uri(config: &Config, path: &str, query: Option<&str>, project: String) -> (r: (
    String,
    String,
))
    ensures
        (r.0@, r.1@) == uri_routed(rules_of(*config), path@, query.deep_view(), project@),
{
    let (place, key) = route_path(config, path, project);
    let query = match query {
        Some(query) => query,
        None => return (place, key),
    };
    let pairs = split(query, '&');
    let mut out = join2(place.as_str(), "?");
    let mut project = key;
    let mut i: usize = 0;
    let ghost whole = pairs_routed(
        rules_of(*config),
        path@,
        texts(pairs@),
        0,
        out@,
        project@,
    );
    while i < pairs.len()
        invariant
            i <= pairs.len(),
            whole == pairs_routed(
                rules_of(*config),
                path@,
                texts(pairs@),
                i as int,
                out@,
                project@,
            ),
        decreases pairs.len() - i,
    {
        let (pair, key) = route_pair(config, path, pairs[i].as_str(), project);
        if i > 0 {
            out.append("&");
        }
        out.append(pair.as_str());
        project = key;
        i += 1;
    }
    (out, project)
}

// ---- laws ------------------------------------------------------------------------------------

/// A request whose model no alias names and that has no `openai/` prefix passes byte for
/// byte, under the default key, unless the reminder is asked for.
pub proof fn unruled_requests_pass(rules: RuleBook, path: Seq<char>, body: Seq<u8>, value: Tree)
    requires
        parsed(body) == Ok::<Tree, Seq<char>>(value),
        body.len() > 0,
        !rules.guide,
        ({
            let model = model_of(value, in_session(path, value)).text();
            model matches Some(name) ==> alias_from(rules.aliases, name, path, 0) is None && after(
                name,
                "openai/"@,
            ) is None
        }),
    ensures
        rewritten_body(rules, path, body) == Ok::<(Seq<u8>, Seq<char>), Seq<char>>(
            (body, rules.default),
        ),
{
}

/// An alias that is limited to a kind of request never applies to another kind.
pub proof fn shape_gates_aliases(rules: RuleBook, model: Seq<char>, path: Seq<char>)
    requires
        forall|i: int|
            0 <= i < rules.aliases.len() && (#[trigger] rules.aliases[i]).from == model
                ==> !crate::config::shape_fits(rules.aliases[i].api_shape, path),
    ensures
        alias_from(rules.aliases, model, path, 0) is None,
        routed_model(rules, path, model) == (None::<Seq<char>>, None::<Seq<char>>),
{
    none_applies(rules.aliases, model, path, 0);
}

proof fn none_applies(aliases: Seq<AliasView>, model: Seq<char>, path: Seq<char>, from: int)
    requires
        0 <= from,
        forall|i: int|
            0 <= i < aliases.len() && (#[trigger] aliases[i]).from == model
                ==> !crate::config::shape_fits(aliases[i].api_shape, path),
    ensures
        alias_from(aliases, model, path, from) is None,
    decreases aliases.len() - from,
{
    if from < aliases.len() {
        assert(aliases[from].from == model ==> !crate::config::shape_fits(
            aliases[from].api_shape,
            path,
        ));
        none_applies(aliases, model, path, from + 1);
    }
}

proof fn names_differ()
    ensures
        "model"@ != "session"@,
        "model"@ != "reasoning"@,
        "model"@ != "reasoning_effort"@,
        "session"@ != "reasoning"@,
        "session"@ != "reasoning_effort"@,
        "reasoning"@ != "reasoning_effort"@,
        "input"@ != "model"@,
        "input"@ != "session"@,
        "input"@ != "reasoning"@,
        "input"@ != "reasoning_effort"@,
        "messages"@ != "model"@,
        "messages"@ != "session"@,
        "messages"@ != "reasoning"@,
        "messages"@ != "reasoning_effort"@,
{
    reveal_strlit("model");
    reveal_strlit("session");
    reveal_strlit("reasoning");
    reveal_strlit("reasoning_effort");
    reveal_strlit("input");
    reveal_strlit("messages");
    assert("model"@.len() == 5);
    assert("session"@.len() == 7);
    assert("reasoning"@.len() == 9);
    assert("reasoning_effort"@.len() == 16);
    assert("input"@.len() == 5);
    assert("messages"@.len() == 8);
    assert("model"@[0] == 'm');
    assert("input"@[0] == 'i');
}

/// Guidance adds to the conversation and leaves every other member of a request as it was.
pub proof fn guidance_leaves_the_rest(rules: RuleBook, path: Seq<char>, value: Tree, name: Seq<char>)
    requires
        name != "input"@,
        name != "messages"@,
    ensures
        prepared(rules, path, value).0.at(name) == value.at(name),
        prepared(rules, path, value).0.has(name) == value.has(name),
{
    broadcast use set_keeps_others;

    if rules.guide {
        match conversation_of(path, value) {
            Some((talk, field)) => {
                let messages = list_of(talk.at(field));
                let more = Tree::Array(unreminded(messages, 0, Seq::empty()).push(reminder()));
                assert(talk.get(name) == value.get(name));
                set_keeps_others(talk, field, more, name);
            },
            None => {},
        }
    }
}

proof fn guidance_leaves_routing(rules: RuleBook, path: Seq<char>, value: Tree)
    ensures
        ({
            let start = prepared(rules, path, value).0;
            &&& in_session(path, start) == in_session(path, value)
            &&& start.at("model"@) == value.at("model"@)
            &&& start.at("session"@) == value.at("session"@)
            &&& start.at("reasoning"@) == value.at("reasoning"@)
            &&& start.at("reasoning_effort"@) == value.at("reasoning_effort"@)
            &&& effort_of(path, start) == effort_of(path, value)
        }),
{
    names_differ();
    guidance_leaves_the_rest(rules, path, value, "model"@);
    guidance_leaves_the_rest(rules, path, value, "session"@);
    guidance_leaves_the_rest(rules, path, value, "reasoning"@);
    guidance_leaves_the_rest(rules, path, value, "reasoning_effort"@);
}

/// The model that an upstream is asked for: `openai/` only says where a model is.
pub open spec fn sent_name(target: Seq<char>) -> Seq<char> {
    match after(target, "openai/"@) {
        Some(model) => model,
        None => target,
    }
}

/// A request that the rules can be applied to: a Responses request whose effort an alias
/// sets must have an object there, or nothing.
pub open spec fn takes_effort(path: Seq<char>, value: Tree, effort: Option<Seq<char>>) -> bool {
    effort is Some && responses_path(path) ==> value.at("reasoning"@) is Null || value.at(
        "reasoning"@,
    ) is Object
}

/// The members after an alias was applied, but for those that it sets.
pub(crate) proof fn alias_effects(rules: RuleBook, path: Seq<char>, value: Tree, model: Seq<char>, alias: AliasView)
    requires
        model_of(value, in_session(path, value)) == Tree::Text(model),
        alias_from(rules.aliases, model, path, 0) == Some(alias),
        takes_effort(path, value, alias.reasoning),
    ensures
        ({
            let session = in_session(path, value);
            let route = route_of(alias, effort_of(path, value));
            let start = prepared(rules, path, value).0;
            let done = rewritten(rules, path, value);
            let target = match target_of(alias, route) {
                Some(target) => target,
                None => model,
            };
            &&& done is Ok
            &&& done->Ok_0.0 is Some
            &&& done->Ok_0.1 == key_of(alias, route, rules.default)
            &&& model_of(done->Ok_0.0->Some_0, session) == Tree::Text(sent_name(target))
            &&& alias.reasoning matches Some(effort) ==> (responses_path(path)
                ==> done->Ok_0.0->Some_0.at("reasoning"@).at("effort"@) == Tree::Text(effort)) && (
            !responses_path(path) && chat_path(path) ==> done->Ok_0.0->Some_0.at(
                "reasoning_effort"@,
            ) == Tree::Text(effort))
            &&& alias.reasoning is None ==> forall|other: Seq<char>|
                other != "model"@ && (session ==> other != "session"@)
                    ==> #[trigger] done->Ok_0.0->Some_0.at(other) == start.at(other)
        }),
{
    broadcast use member_laws;

    names_differ();
    guidance_leaves_routing(rules, path, value);
    let session = in_session(path, value);
    let start = prepared(rules, path, value).0;
    let route = route_of(alias, effort_of(path, value));
    assert(start is Object);
    let named = match target_of(alias, route) {
        Some(target) => with_model(start, session, target),
        None => start,
    };
    assert(named is Object);
    assert(named.at("reasoning"@) == start.at("reasoning"@));
    match alias.reasoning {
        Some(effort) => {
            let reasoning = if named.at("reasoning"@) is Null {
                empty_object()
            } else {
                named.at("reasoning"@)
            };
            let held = reasoning.with("effort"@, Tree::Text(effort));
            assert(responses_path(path) ==> held.at("effort"@) == Tree::Text(effort));
        },
        None => {},
    }
    let changed = with_effort(path, named, alias.reasoning)->Ok_0;
    assert(with_effort(path, named, alias.reasoning) is Ok);
    assert(changed.at("model"@) == named.at("model"@));
    assert(changed.at("session"@) == named.at("session"@));
    assert(changed is Object);
    assert(model_of(changed, session) == model_of(named, session));
}

/// Aliases apply once: the model that a request ends with is the one that the alias of the
/// model it named leads to, for the effort it asked for, whatever aliases there are for
/// that model in turn. It goes under the key of the route, else of the alias, else under
/// the default one.
pub proof fn aliases_apply_once(
    rules: RuleBook,
    path: Seq<char>,
    value: Tree,
    model: Seq<char>,
    alias: AliasView,
    target: Seq<char>,
)
    requires
        model_of(value, in_session(path, value)) == Tree::Text(model),
        alias_from(rules.aliases, model, path, 0) == Some(alias),
        target_of(alias, route_of(alias, effort_of(path, value))) == Some(target),
        takes_effort(path, value, alias.reasoning),
    ensures
        ({
            let done = rewritten(rules, path, value);
            &&& done is Ok
            &&& done->Ok_0.0 is Some
            &&& model_of(done->Ok_0.0->Some_0, in_session(path, value)) == Tree::Text(
                sent_name(target),
            )
            &&& done->Ok_0.1 == key_of(
                alias,
                route_of(alias, effort_of(path, value)),
                rules.default,
            )
        }),
{
    alias_effects(rules, path, value, model, alias);
}

/// An alias that sets an effort sends it, whatever effort was asked for.
pub proof fn set_efforts_are_sent(
    rules: RuleBook,
    path: Seq<char>,
    value: Tree,
    model: Seq<char>,
    alias: AliasView,
    effort: Seq<char>,
)
    requires
        model_of(value, in_session(path, value)) == Tree::Text(model),
        alias_from(rules.aliases, model, path, 0) == Some(alias),
        alias.reasoning == Some(effort),
        takes_effort(path, value, alias.reasoning),
    ensures
        ({
            let done = rewritten(rules, path, value);
            &&& done is Ok
            &&& done->Ok_0.0 is Some
            &&& responses_path(path) ==> done->Ok_0.0->Some_0.at("reasoning"@).at("effort"@)
                == Tree::Text(effort)
            &&& !responses_path(path) && chat_path(path) ==> done->Ok_0.0->Some_0.at(
                "reasoning_effort"@,
            ) == Tree::Text(effort)
        }),
{
    alias_effects(rules, path, value, model, alias);
}

/// An alias that sets no effort changes the model and nothing else: in particular the
/// effort that was asked for is sent on.
pub proof fn only_the_model_changes(
    rules: RuleBook,
    path: Seq<char>,
    value: Tree,
    model: Seq<char>,
    alias: AliasView,
    other: Seq<char>,
)
    requires
        !rules.guide,
        model_of(value, in_session(path, value)) == Tree::Text(model),
        alias_from(rules.aliases, model, path, 0) == Some(alias),
        alias.reasoning is None,
        other != "model"@,
        in_session(path, value) ==> other != "session"@,
    ensures
        ({
            let done = rewritten(rules, path, value);
            &&& done is Ok
            &&& done->Ok_0.0 is Some
            &&& done->Ok_0.0->Some_0.at(other) == value.at(other)
        }),
{
    alias_effects(rules, path, value, model, alias);
}

/// A request for which there is no rule keeps its model and goes under the default key;
/// guidance at most is added to it.
pub proof fn unruled_models_stay(rules: RuleBook, path: Seq<char>, value: Tree)
    requires
        model_of(value, in_session(path, value)).text() matches Some(name) ==> alias_from(
            rules.aliases,
            name,
            path,
            0,
        ) is None && after(name, "openai/"@) is None,
    ensures
        ({
            let (start, guided) = prepared(rules, path, value);
            let session = in_session(path, value);
            &&& rewritten(rules, path, value) == Ok::<(Option<Tree>, Seq<char>), Seq<char>>(
                (
                    if guided {
                        Some(start)
                    } else {
                        None
                    },
                    rules.default,
                ),
            )
            &&& model_of(start, session) == model_of(value, session)
        }),
{
    guidance_leaves_routing(rules, path, value);
}

} // verus!

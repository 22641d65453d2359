//! A catalog of what the proxy serves, from the configuration alone: no upstream is asked
//! and no credential is shown.

use vstd::prelude::*;
use crate::config::{alias_from, alias_views, shape_fits, Alias, AliasView, Config, Mode, RouteView};
use crate::fallback::Rules;
use crate::gemini::parts::empty_object;
use crate::gemini::relay::{find_native_alias, native_alias};
use crate::names::{add_name, including};
use crate::table::entries;
use crate::text::{after, join2, starts_with, strip_prefix, texts};
use crate::tree::{json_views, trees, Json, Tree};

verus! {

broadcast use json_views;

/// What the catalog is made from: no key and no address is part of it.
pub ghost struct Shown {
    pub mode: Mode,
    pub aliases: Seq<AliasView>,
    pub fallbacks: Rules,
    pub keys: bool,
    pub gemini: bool,
}

/// What the catalog shows of a configuration.
pub open spec fn shown_of(config: Config) -> Shown {
    Shown {
        mode: config.mode,
        aliases: alias_views(config.aliases@),
        fallbacks: entries(config.fallbacks@),
        keys: config.api_keys@.len() > 0,
        gemini: config.gemini is Some,
    }
}

impl Shown {
    /// Whether the proxy itself has keys for the OpenAI upstream.
    pub open spec fn openai(self) -> bool {
        self.mode != Mode::Client && self.keys
    }
}

// ---- destinations ------------------------------------------------------------------------------

/// Names with the targets of reasoning routes.
pub open spec fn with_routes(routes: Seq<(Seq<char>, RouteView)>, from: int, names: Seq<Seq<char>>) -> Seq<
    Seq<char>,
>
    decreases routes.len() - from,
{
    if from < 0 || from >= routes.len() {
        names
    } else {
        with_routes(routes, from + 1, including(names, routes[from].1.to))
    }
}

/// Names with the targets of an alias.
pub open spec fn with_alias(alias: AliasView, names: Seq<Seq<char>>) -> Seq<Seq<char>> {
    with_routes(
        alias.reasoning_routes,
        0,
        match alias.to {
            Some(to) => including(names, to),
            None => names,
        },
    )
}

/// Names with the targets of aliases.
pub open spec fn with_aliases(aliases: Seq<AliasView>, from: int, names: Seq<Seq<char>>) -> Seq<
    Seq<char>,
>
    decreases aliases.len() - from,
{
    if from < 0 || from >= aliases.len() {
        names
    } else {
        with_aliases(aliases, from + 1, with_alias(aliases[from], names))
    }
}

/// Names with others.
pub open spec fn with_names(more: Seq<Seq<char>>, from: int, names: Seq<Seq<char>>) -> Seq<Seq<char>>
    decreases more.len() - from,
{
    if from < 0 || from >= more.len() {
        names
    } else {
        with_names(more, from + 1, including(names, more[from]))
    }
}

/// Names with the models of fallback rules.
pub open spec fn with_rules(rules: Rules, from: int, names: Seq<Seq<char>>) -> Seq<Seq<char>>
    decreases rules.len() - from,
{
    if from < 0 || from >= rules.len() {
        names
    } else {
        with_rules(rules, from + 1, with_names(rules[from].1, 0, including(names, rules[from].0)))
    }
}

/// The models that the rules lead to. They can be named directly, whichever requests their
/// alias is limited to.
pub open spec fn destinations_of(shown: Shown) -> Seq<Seq<char>> {
    with_rules(shown.fallbacks, 0, with_aliases(shown.aliases, 0, Seq::empty()))
}

fn add_alias(alias: &Alias, names: &mut Vec<String>)
    ensures
        texts(final(names)@) == with_alias(alias.deep_view(), texts(old(names)@)),
{
    match &alias.to {
        Some(to) => add_name(names, to.as_str()),
        None => {},
    }
    let ghost whole = with_alias(alias.deep_view(), texts(old(names)@));
    let mut i: usize = 0;
    while i < alias.reasoning_routes.len()
        invariant
            i <= alias.reasoning_routes.len(),
            whole == with_routes(
                alias.deep_view().reasoning_routes,
                i as int,
                texts(names@),
            ),
        decreases alias.reasoning_routes.len() - i,
    {
        add_name(names, alias.reasoning_routes[i].1.to.as_str());
        i += 1;
    }
}

fn add_names(more: &Vec<String>, names: &mut Vec<String>)
    ensures
        texts(final(names)@) == with_names(texts(more@), 0, texts(old(names)@)),
{
    let ghost whole = with_names(texts(more@), 0, texts(old(names)@));
    let mut i: usize = 0;
    while i < more.len()
        invariant
            i <= more.len(),
            whole == with_names(texts(more@), i as int, texts(names@)),
        decreases more.len() - i,
    {
        add_name(names, more[i].as_str());
        i += 1;
    }
}

/// The models that the rules lead to.
pub fn destinations(config: &Config) -> (r: Vec<String>)
    ensures
        texts(r@) == destinations_of(shown_of(*config)),
{
    let mut names: Vec<String> = Vec::new();
    let ghost shown = shown_of(*config);
    let mut i: usize = 0;
    proof {
        assert(texts(names@) =~= Seq::empty());
    }
    while i < config.aliases.len()
        invariant
            i <= config.aliases.len(),
            shown == shown_of(*config),
            with_aliases(shown.aliases, 0, Seq::empty()) == with_aliases(
                shown.aliases,
                i as int,
                texts(names@),
            ),
        decreases config.aliases.len() - i,
    {
        add_alias(&config.aliases[i], &mut names);
        i += 1;
    }
    let mut i: usize = 0;
    while i < config.fallbacks.len()
        invariant
            i <= config.fallbacks.len(),
            shown == shown_of(*config),
            destinations_of(shown) == with_rules(shown.fallbacks, i as int, texts(names@)),
        decreases config.fallbacks.len() - i,
    {
        proof {
            assert(shown.fallbacks[i as int].1 =~= texts(config.fallbacks@[i as int].1@));
        }
        add_name(&mut names, config.fallbacks[i].0.as_str());
        add_names(&config.fallbacks[i].1, &mut names);
        i += 1;
    }
    names
}

// ---- models of the OpenAI-like APIs -------------------------------------------------------------

/// Names with the aliases that apply to a path.
pub open spec fn with_sources(aliases: Seq<AliasView>, path: Seq<char>, from: int, names: Seq<Seq<char>>) -> Seq<
    Seq<char>,
>
    decreases aliases.len() - from,
{
    if from < 0 || from >= aliases.len() {
        names
    } else {
        with_sources(
            aliases,
            path,
            from + 1,
            if shape_fits(aliases[from].api_shape, path) {
                including(names, aliases[from].from)
            } else {
                names
            },
        )
    }
}

/// Whether a model can be reached.
pub open spec fn reachable(shown: Shown, gemini: bool, target: Seq<char>) -> bool {
    if "gemini/"@.is_prefix_of(target) {
        gemini && shown.gemini
    } else {
        shown.keys
    }
}

/// A route of a model.
pub open spec fn route_entry(target: Seq<char>, when: Seq<char>) -> Tree {
    empty_object().with("target"@, Tree::Text(target)).with("when"@, Tree::Text(when))
}

/// The routes by effort that can be reached, from `from` on.
pub open spec fn effort_routes(
    shown: Shown,
    gemini: bool,
    routes: Seq<(Seq<char>, RouteView)>,
    from: int,
    found: Seq<Tree>,
) -> Seq<Tree>
    decreases routes.len() - from,
{
    if from < 0 || from >= routes.len() {
        found
    } else {
        effort_routes(
            shown,
            gemini,
            routes,
            from + 1,
            if reachable(shown, gemini, routes[from].1.to) {
                found.push(route_entry(routes[from].1.to, "Reasoning: "@ + routes[from].0))
            } else {
                found
            },
        )
    }
}

/// The routes of a model.
pub open spec fn model_routes(shown: Shown, path: Seq<char>, gemini: bool, id: Seq<char>) -> Seq<Tree> {
    let alias = alias_from(shown.aliases, id, path, 0);
    let target = match alias {
        Some(alias) => match alias.to {
            Some(to) => to,
            None => id,
        },
        None => id,
    };
    let when = if alias matches Some(alias) && alias.reasoning_routes.len() > 0 {
        "Default"@
    } else {
        ""@
    };
    let first = if reachable(shown, gemini, target) {
        seq![route_entry(target, when)]
    } else {
        Seq::empty()
    };
    match alias {
        Some(alias) => effort_routes(shown, gemini, alias.reasoning_routes, 0, first),
        None => first,
    }
}

/// A model with its routes.
pub open spec fn model_entry(id: Seq<char>, routes: Seq<Tree>) -> Tree {
    empty_object().with("id"@, Tree::Text(id)).with("routes"@, Tree::Array(routes))
}

/// The models among names, from `from` on, that have a route.
pub open spec fn listed(
    shown: Shown,
    path: Seq<char>,
    gemini: bool,
    names: Seq<Seq<char>>,
    from: int,
    found: Seq<Tree>,
) -> Seq<Tree>
    decreases names.len() - from,
{
    if from < 0 || from >= names.len() {
        found
    } else {
        let routes = model_routes(shown, path, gemini, names[from]);
        listed(
            shown,
            path,
            gemini,
            names,
            from + 1,
            if routes.len() > 0 {
                found.push(model_entry(names[from], routes))
            } else {
                found
            },
        )
    }
}

/// The models of an API.
pub open spec fn models_of(shown: Shown, path: Seq<char>, gemini: bool) -> Seq<Tree> {
    listed(
        shown,
        path,
        gemini,
        with_sources(shown.aliases, path, 0, destinations_of(shown)),
        0,
        Seq::empty(),
    )
}

fn is_reachable(config: &Config, gemini: bool, target: &str) -> (r: bool)
    ensures
        r == reachable(shown_of(*config), gemini, target@),
{
    if starts_with(target, "gemini/") {
        gemini && config.gemini.is_some()
    } else {
        config.api_keys.len() > 0
    }
}

fn make_route_entry(target: &str, when: &str) -> (r: Json)
    ensures
        r@ == route_entry(target@, when@),
{
    Json::object().with("target", Json::text(target)).with("when", Json::text(when))
}

fn list_routes(config: &Config, path: &str, gemini: bool, id: &str) -> (r: Vec<Json>)
    ensures
        trees(r@) == model_routes(shown_of(*config), path@, gemini, id@),
{
    let ghost shown = shown_of(*config);
    let alias = config.alias_for(id, path);
    let target = match alias {
        Some(alias) => match &alias.to {
            Some(to) => to.as_str(),
            None => id,
        },
        None => id,
    };
    let when = match alias {
        Some(alias) => if alias.reasoning_routes.len() > 0 {
            "Default"
        } else {
            ""
        },
        None => "",
    };
    let mut routes: Vec<Json> = Vec::new();
    if is_reachable(config, gemini, target) {
        routes.push(make_route_entry(target, when));
        proof {
            assert(trees(routes@) =~= seq![route_entry(target@, when@)]);
        }
    }
    match alias {
        Some(alias) => {
            let ghost whole = model_routes(shown, path@, gemini, id@);
            let mut i: usize = 0;
            while i < alias.reasoning_routes.len()
                invariant
                    i <= alias.reasoning_routes.len(),
                    shown == shown_of(*config),
                    whole == effort_routes(
                        shown,
                        gemini,
                        alias.deep_view().reasoning_routes,
                        i as int,
                        trees(routes@),
                    ),
                decreases alias.reasoning_routes.len() - i,
            {
                let to = alias.reasoning_routes[i].1.to.as_str();
                if is_reachable(config, gemini, to) {
                    let when = join2("Reasoning: ", alias.reasoning_routes[i].0.as_str());
                    routes.push(make_route_entry(to, when.as_str()));
                }
                i += 1;
            }
        },
        None => {},
    }
    routes
}

fn make_model(id: &str, routes: Vec<Json>) -> (r: Json)
    ensures
        r@ == model_entry(id@, trees(routes@)),
{
    Json::object().with("id", Json::text(id)).with("routes", Json::Array(routes))
}

/// The models of an API.
pub fn models(config: &Config, path: &str, supports_gemini: bool) -> (r: Vec<Json>)
    ensures
        trees(r@) == models_of(shown_of(*config), path@, supports_gemini),
{
    let ghost shown = shown_of(*config);
    let mut names = destinations(config);
    let ghost all = with_sources(shown.aliases, path@, 0, texts(names@));
    let mut i: usize = 0;
    while i < config.aliases.len()
        invariant
            i <= config.aliases.len(),
            shown == shown_of(*config),
            all == with_sources(shown.aliases, path@, i as int, texts(names@)),
        decreases config.aliases.len() - i,
    {
        if config.aliases[i].matches_shape(path) {
            add_name(&mut names, config.aliases[i].from.as_str());
        }
        i += 1;
    }
    let mut found: Vec<Json> = Vec::new();
    let mut i: usize = 0;
    while i < names.len()
        invariant
            i <= names.len(),
            shown == shown_of(*config),
            listed(shown, path@, supports_gemini, texts(names@), 0, Seq::empty()) == listed(
                shown,
                path@,
                supports_gemini,
                texts(names@),
                i as int,
                trees(found@),
            ),
        decreases names.len() - i,
    {
        let routes = list_routes(config, path, supports_gemini, names[i].as_str());
        if routes.len() > 0 {
            found.push(make_model(names[i].as_str(), routes));
        }
        i += 1;
    }
    found
}

// ---- native models --------------------------------------------------------------------------------

/// A name without the prefix of model resources.
pub open spec fn bare(name: Seq<char>) -> Seq<char> {
    match after(name, "models/"@) {
        Some(rest) => rest,
        None => name,
    }
}

/// Names with a Gemini model, as native requests name it.
pub open spec fn with_native(names: Seq<Seq<char>>, name: Seq<char>) -> Seq<Seq<char>> {
    match after(name, "gemini/"@) {
        Some(rest) => including(names, bare(rest)),
        None => names,
    }
}

/// Names with the Gemini models among others.
pub open spec fn with_natives(more: Seq<Seq<char>>, from: int, names: Seq<Seq<char>>) -> Seq<
    Seq<char>,
>
    decreases more.len() - from,
{
    if from < 0 || from >= more.len() {
        names
    } else {
        with_natives(more, from + 1, with_native(names, more[from]))
    }
}

/// Names with the aliases that are Gemini models.
pub open spec fn with_native_sources(aliases: Seq<AliasView>, from: int, names: Seq<Seq<char>>) -> Seq<
    Seq<char>,
>
    decreases aliases.len() - from,
{
    if from < 0 || from >= aliases.len() {
        names
    } else {
        with_native_sources(aliases, from + 1, with_native(names, aliases[from].from))
    }
}

/// Whether an alias gives a Gemini model a name that native requests can use.
pub open spec fn native_name(alias: AliasView) -> bool {
    alias.api_shape is None && (alias.to matches Some(to) && "gemini/"@.is_prefix_of(to))
        && !"gemini/"@.is_prefix_of(alias.from)
}

/// Names with those that aliases give Gemini models.
pub open spec fn with_native_names(aliases: Seq<AliasView>, from: int, names: Seq<Seq<char>>) -> Seq<
    Seq<char>,
>
    decreases aliases.len() - from,
{
    if from < 0 || from >= aliases.len() {
        names
    } else {
        with_native_names(
            aliases,
            from + 1,
            if native_name(aliases[from]) {
                including(names, bare(aliases[from].from))
            } else {
                names
            },
        )
    }
}

/// The names that native requests can use.
pub open spec fn native_names(shown: Shown) -> Seq<Seq<char>> {
    with_native_names(
        shown.aliases,
        0,
        with_native_sources(
            shown.aliases,
            0,
            with_natives(destinations_of(shown), 0, Seq::empty()),
        ),
    )
}

/// Where a native model leads: nowhere where the rules lead to another provider.
pub open spec fn native_target(shown: Shown, id: Seq<char>) -> Option<Seq<char>> {
    let to = match native_alias(shown.aliases, id, 0) {
        Some(alias) => alias.to,
        None => None,
    };
    match to {
        Some(to) => match after(to, "gemini/"@) {
            Some(rest) => Some(bare(rest)),
            None => None,
        },
        None => Some(bare(id)),
    }
}

/// The native models among names, from `from` on.
pub open spec fn native_listed(shown: Shown, names: Seq<Seq<char>>, from: int, found: Seq<Tree>) -> Seq<
    Tree,
>
    decreases names.len() - from,
{
    if from < 0 || from >= names.len() {
        found
    } else {
        native_listed(
            shown,
            names,
            from + 1,
            match native_target(shown, names[from]) {
                Some(target) => found.push(
                    model_entry(names[from], seq![route_entry(target, ""@)]),
                ),
                None => found,
            },
        )
    }
}

/// The native models.
pub open spec fn native_models_of(shown: Shown) -> Seq<Tree> {
    if shown.gemini {
        native_listed(shown, native_names(shown), 0, Seq::empty())
    } else {
        Seq::empty()
    }
}

fn strip_models<'a>(name: &'a str) -> (r: &'a str)
    ensures
        r@ == bare(name@),
{
    match strip_prefix(name, "models/") {
        Some(rest) => rest,
        None => name,
    }
}

fn add_native(names: &mut Vec<String>, name: &str)
    ensures
        texts(final(names)@) == with_native(texts(old(names)@), name@),
{
    match strip_prefix(name, "gemini/") {
        Some(rest) => add_name(names, strip_models(rest)),
        None => {},
    }
}

fn is_native_name(alias: &Alias) -> (r: bool)
    ensures
        r == native_name(alias.deep_view()),
{
    alias.api_shape.is_none() && (match &alias.to {
        Some(to) => starts_with(to.as_str(), "gemini/"),
        None => false,
    }) && !starts_with(alias.from.as_str(), "gemini/")
}

fn list_native_names(config: &Config) -> (r: Vec<String>)
    ensures
        texts(r@) == native_names(shown_of(*config)),
{
    let ghost shown = shown_of(*config);
    let all = destinations(config);
    let mut names: Vec<String> = Vec::new();
    let mut i: usize = 0;
    proof {
        assert(texts(names@) =~= Seq::empty());
    }
    while i < all.len()
        invariant
            i <= all.len(),
            with_natives(texts(all@), 0, Seq::empty()) == with_natives(
                texts(all@),
                i as int,
                texts(names@),
            ),
        decreases all.len() - i,
    {
        add_native(&mut names, all[i].as_str());
        i += 1;
    }
    let ghost base = texts(names@);
    let mut i: usize = 0;
    while i < config.aliases.len()
        invariant
            i <= config.aliases.len(),
            shown == shown_of(*config),
            with_native_sources(shown.aliases, 0, base) == with_native_sources(
                shown.aliases,
                i as int,
                texts(names@),
            ),
        decreases config.aliases.len() - i,
    {
        add_native(&mut names, config.aliases[i].from.as_str());
        i += 1;
    }
    let ghost base = texts(names@);
    let mut i: usize = 0;
    while i < config.aliases.len()
        invariant
            i <= config.aliases.len(),
            shown == shown_of(*config),
            with_native_names(shown.aliases, 0, base) == with_native_names(
                shown.aliases,
                i as int,
                texts(names@),
            ),
        decreases config.aliases.len() - i,
    {
        if is_native_name(&config.aliases[i]) {
            add_name(&mut names, strip_models(config.aliases[i].from.as_str()));
        }
        i += 1;
    }
    names
}

fn find_target(config: &Config, id: &str) -> (r: Option<String>)
    ensures
        r.deep_view() == native_target(shown_of(*config), id@),
{
    let to = match find_native_alias(&config.aliases, id) {
        Some(alias) => match &alias.to {
            Some(to) => Some(to.as_str()),
            None => None,
        },
        None => None,
    };
    match to {
        Some(to) => match strip_prefix(to, "gemini/") {
            Some(rest) => Some(strip_models(rest).to_string()),
            None => None,
        },
        None => Some(strip_models(id).to_string()),
    }
}

/// The native models.
pub fn native_models(config: &Config) -> (r: Vec<Json>)
    ensures
        trees(r@) == native_models_of(shown_of(*config)),
{
    let ghost shown = shown_of(*config);
    let mut found: Vec<Json> = Vec::new();
    if config.gemini.is_none() {
        return found;
    }
    let names = list_native_names(config);
    let mut i: usize = 0;
    while i < names.len()
        invariant
            i <= names.len(),
            shown == shown_of(*config),
            native_listed(shown, texts(names@), 0, Seq::empty()) == native_listed(
                shown,
                texts(names@),
                i as int,
                trees(found@),
            ),
        decreases names.len() - i,
    {
        match find_target(config, names[i].as_str()) {
            Some(target) => {
                let routes: Vec<Json> = vec![make_route_entry(target.as_str(), "")];
                proof {
                    assert(trees(routes@) =~= seq![route_entry(target@, ""@)]);
                }
                found.push(make_model(names[i].as_str(), routes));
            },
            None => {},
        }
        i += 1;
    }
    found
}

// ---- the catalog -----------------------------------------------------------------------------------

/// A mode as it is written.
pub open spec fn mode_name(mode: Mode) -> Seq<char> {
    match mode {
        Mode::Standalone => "standalone"@,
        Mode::Host => "host"@,
        Mode::Client => "client"@,
    }
}

/// A mode as it is written.
pub fn mode_text(mode: Mode) -> (r: &'static str)
    ensures
        r@ == mode_name(mode),
{
    match mode {
        Mode::Standalone => "standalone",
        Mode::Host => "host",
        Mode::Client => "client",
    }
}

/// A path that an API has, with a note.
pub open spec fn route_tree(method: Seq<char>, path: Seq<char>, note: Seq<char>) -> Tree {
    Tree::Array(seq![Tree::Text(method), Tree::Text(path), Tree::Text(note)])
}

fn make_route(method: &str, path: &str, note: &str) -> (r: Json)
    ensures
        r@ == route_tree(method@, path@, note@),
{
    let parts: Vec<Json> = vec![Json::text(method), Json::text(path), Json::text(note)];
    proof {
        assert(trees(parts@) =~= seq![
            Tree::Text(method@),
            Tree::Text(path@),
            Tree::Text(note@),
        ]);
    }
    Json::Array(parts)
}

/// The entry of an API: its id, name, description and base path, its paths, whether it is
/// configured, and its models.
pub open spec fn api_tree(
    text: (Seq<char>, Seq<char>, Seq<char>, Seq<char>),
    routes: Seq<Tree>,
    configured: bool,
    models: Seq<Tree>,
) -> Tree {
    empty_object().with("id"@, Tree::Text(text.0)).with("name"@, Tree::Text(text.1)).with(
        "description"@,
        Tree::Text(text.2),
    ).with("base_path"@, Tree::Text(text.3)).with("routes"@, Tree::Array(routes)).with(
        "configured"@,
        Tree::Bool(configured),
    ).with("models"@, Tree::Array(models))
}

fn make_api(text: (&str, &str, &str, &str), routes: Vec<Json>, configured: bool, models: Vec<Json>) -> (r:
    Json)
    ensures
        r@ == api_tree(
            (text.0@, text.1@, text.2@, text.3@),
            trees(routes@),
            configured,
            trees(models@),
        ),
{
    Json::object().with("id", Json::text(text.0)).with("name", Json::text(text.1)).with(
        "description",
        Json::text(text.2),
    ).with("base_path", Json::text(text.3)).with("routes", Json::Array(routes)).with(
        "configured",
        Json::Bool(configured),
    ).with("models", Json::Array(models))
}

fn serves_openai(config: &Config) -> (r: bool)
    ensures
        r == shown_of(*config).openai(),
{
    config.mode != Mode::Client && config.api_keys.len() > 0
}

/// The entry of an API.
pub open spec fn responses_api(shown: Shown) -> Tree {
    api_tree(
        (
            "responses"@,
            "Responses"@,
            "Responses requests for OpenAI and Gemini. Supports HTTP streaming, tools and reasoning. Gemini uses the Responses converter."@,
            "/v1"@,
        ),
        seq![
                route_tree("POST"@, "/v1/responses"@, ""@),
                route_tree("POST"@, "/v1/responses/compact"@, "OpenAI models only"@),
        ],
        shown.openai() || shown.gemini,
        models_of(shown, "/v1/responses"@, true),
    )
}

fn make_responses(config: &Config) -> (r: Json)
    ensures
        r@ == responses_api(shown_of(*config)),
{
    let routes: Vec<Json> = vec![
        make_route("POST", "/v1/responses", ""),
        make_route("POST", "/v1/responses/compact", "OpenAI models only"),
    ];
    proof {
        assert(trees(routes@) =~= seq![
                route_tree("POST"@, "/v1/responses"@, ""@),
                route_tree("POST"@, "/v1/responses/compact"@, "OpenAI models only"@),
        ]);
    }
    let models = models(config, "/v1/responses", true);
    make_api(
        (
            "responses",
            "Responses",
            "Responses requests for OpenAI and Gemini. Supports HTTP streaming, tools and reasoning. Gemini uses the Responses converter.",
            "/v1",
        ),
        routes,
        serves_openai(config) || config.gemini.is_some(),
        models,
    )
}

/// The entry of an API.
pub open spec fn custom_chat_api(shown: Shown) -> Tree {
    api_tree(
        (
            "custom-chat"@,
            "Custom Chat Completions"@,
            "Chat Completions translated through Responses. Supports OpenAI and Gemini, streaming, function tools and reasoning replay."@,
            "/v1/custom"@,
        ),
        seq![
                route_tree("POST"@, "/v1/custom/chat/completions"@, ""@),
        ],
        shown.openai() || shown.gemini,
        models_of(shown, "/v1/custom/chat/completions"@, true),
    )
}

fn make_custom_chat(config: &Config) -> (r: Json)
    ensures
        r@ == custom_chat_api(shown_of(*config)),
{
    let routes: Vec<Json> = vec![
        make_route("POST", "/v1/custom/chat/completions", ""),
    ];
    proof {
        assert(trees(routes@) =~= seq![
                route_tree("POST"@, "/v1/custom/chat/completions"@, ""@),
        ]);
    }
    let models = models(config, "/v1/custom/chat/completions", true);
    make_api(
        (
            "custom-chat",
            "Custom Chat Completions",
            "Chat Completions translated through Responses. Supports OpenAI and Gemini, streaming, function tools and reasoning replay.",
            "/v1/custom",
        ),
        routes,
        serves_openai(config) || config.gemini.is_some(),
        models,
    )
}

/// The entry of an API.
pub open spec fn chat_api(shown: Shown) -> Tree {
    api_tree(
        (
            "chat"@,
            "Chat Completions"@,
            "Chat Completions forwarded to the OpenAI upstream with your overwrite rules. The upstream model must support this API."@,
            "/v1"@,
        ),
        seq![
                route_tree("POST"@, "/v1/chat/completions"@, ""@),
        ],
        shown.openai(),
        models_of(shown, "/v1/chat/completions"@, false),
    )
}

fn make_chat(config: &Config) -> (r: Json)
    ensures
        r@ == chat_api(shown_of(*config)),
{
    let routes: Vec<Json> = vec![
        make_route("POST", "/v1/chat/completions", ""),
    ];
    proof {
        assert(trees(routes@) =~= seq![
                route_tree("POST"@, "/v1/chat/completions"@, ""@),
        ]);
    }
    let models = models(config, "/v1/chat/completions", false);
    make_api(
        (
            "chat",
            "Chat Completions",
            "Chat Completions forwarded to the OpenAI upstream with your overwrite rules. The upstream model must support this API.",
            "/v1",
        ),
        routes,
        serves_openai(config),
        models,
    )
}

/// The entry of an API.
pub open spec fn completions_api(shown: Shown) -> Tree {
    api_tree(
        (
            "completions"@,
            "Completions"@,
            "Legacy text completions forwarded to the OpenAI upstream. The upstream model must support this API."@,
            "/v1"@,
        ),
        seq![
                route_tree("POST"@, "/v1/completions"@, ""@),
        ],
        shown.openai(),
        models_of(shown, "/v1/completions"@, false),
    )
}

fn make_completions(config: &Config) -> (r: Json)
    ensures
        r@ == completions_api(shown_of(*config)),
{
    let routes: Vec<Json> = vec![
        make_route("POST", "/v1/completions", ""),
    ];
    proof {
        assert(trees(routes@) =~= seq![
                route_tree("POST"@, "/v1/completions"@, ""@),
        ]);
    }
    let models = models(config, "/v1/completions", false);
    make_api(
        (
            "completions",
            "Completions",
            "Legacy text completions forwarded to the OpenAI upstream. The upstream model must support this API.",
            "/v1",
        ),
        routes,
        serves_openai(config),
        models,
    )
}

/// The entry of an API.
pub open spec fn gemini_api(shown: Shown) -> Tree {
    api_tree(
        (
            "gemini"@,
            "Gemini native"@,
            "Native Gemini requests and responses. Use the model name in the URL; streaming uses alt=sse. Other native Gemini paths are also forwarded."@,
            "/v1beta"@,
        ),
        seq![
                route_tree("POST"@, "/v1beta/models/{model}:generateContent"@, ""@),
                route_tree("POST"@, "/v1beta/models/{model}:streamGenerateContent?alt=sse"@, ""@),
                route_tree("POST"@, "/v1beta/models/{model}:countTokens"@, ""@),
        ],
        shown.gemini,
        native_models_of(shown),
    )
}

fn make_gemini(config: &Config) -> (r: Json)
    ensures
        r@ == gemini_api(shown_of(*config)),
{
    let routes: Vec<Json> = vec![
        make_route("POST", "/v1beta/models/{model}:generateContent", ""),
        make_route("POST", "/v1beta/models/{model}:streamGenerateContent?alt=sse", ""),
        make_route("POST", "/v1beta/models/{model}:countTokens", ""),
    ];
    proof {
        assert(trees(routes@) =~= seq![
                route_tree("POST"@, "/v1beta/models/{model}:generateContent"@, ""@),
                route_tree("POST"@, "/v1beta/models/{model}:streamGenerateContent?alt=sse"@, ""@),
                route_tree("POST"@, "/v1beta/models/{model}:countTokens"@, ""@),
        ]);
    }
    let models = native_models(config);
    make_api(
        (
            "gemini",
            "Gemini native",
            "Native Gemini requests and responses. Use the model name in the URL; streaming uses alt=sse. Other native Gemini paths are also forwarded.",
            "/v1beta",
        ),
        routes,
        config.gemini.is_some(),
        models,
    )
}

/// The catalog of a configuration.
pub open spec fn catalog_of(shown: Shown) -> Tree {
    empty_object().with("mode"@, Tree::Text(mode_name(shown.mode))).with(
        "relay"@,
        Tree::Bool(shown.mode == Mode::Client),
    ).with(
        "apis"@,
        Tree::Array(
            seq![
                responses_api(shown),
                custom_chat_api(shown),
                chat_api(shown),
                completions_api(shown),
                gemini_api(shown),
            ],
        ),
    )
}

/// The catalog of what a configuration serves. It is made from the mode, the rules and
/// whether there are keys, and from nothing else.
pub fn catalog(config: &Config) -> (r: Json)
    ensures
        r@ == catalog_of(shown_of(*config)),
{
    let apis: Vec<Json> = vec![
        make_responses(config),
        make_custom_chat(config),
        make_chat(config),
        make_completions(config),
        make_gemini(config),
    ];
    proof {
        let shown = shown_of(*config);
        assert(trees(apis@) =~= seq![
            responses_api(shown),
            custom_chat_api(shown),
            chat_api(shown),
            completions_api(shown),
            gemini_api(shown),
        ]);
    }
    Json::object().with("mode", Json::text(mode_text(config.mode))).with(
        "relay",
        Json::Bool(config.mode == Mode::Client),
    ).with("apis", Json::Array(apis))
}

// ---- laws --------------------------------------------------------------------------------------------

/// No credential is shown: configurations that differ in keys, addresses and credential
/// sources alone have the same catalog.
pub proof fn catalog_shows_no_secrets(one: Config, two: Config)
    requires
        one.mode == two.mode,
        one.aliases == two.aliases,
        one.fallbacks == two.fallbacks,
        one.gemini is Some == two.gemini is Some,
        (one.api_keys@.len() > 0) == (two.api_keys@.len() > 0),
    ensures
        catalog_of(shown_of(one)) == catalog_of(shown_of(two)),
{
}

proof fn nothing_routes(shown: Shown, gemini: bool, routes: Seq<(Seq<char>, RouteView)>, from: int)
    requires
        !shown.keys,
        !shown.gemini,
        0 <= from,
    ensures
        effort_routes(shown, gemini, routes, from, Seq::empty()) == Seq::<Tree>::empty(),
    decreases routes.len() - from,
{
    if from < routes.len() {
        nothing_routes(shown, gemini, routes, from + 1);
    }
}

proof fn nothing_is_listed(shown: Shown, path: Seq<char>, gemini: bool, names: Seq<Seq<char>>, from: int)
    requires
        !shown.keys,
        !shown.gemini,
        0 <= from,
    ensures
        listed(shown, path, gemini, names, from, Seq::empty()) == Seq::<Tree>::empty(),
    decreases names.len() - from,
{
    if from < names.len() {
        match alias_from(shown.aliases, names[from], path, 0) {
            Some(alias) => {
                nothing_routes(shown, gemini, alias.reasoning_routes, 0);
            },
            None => {},
        }
        assert(model_routes(shown, path, gemini, names[from]).len() == 0);
        nothing_is_listed(shown, path, gemini, names, from + 1);
    }
}

/// Where no provider is configured no model is listed, whatever the rules name.
pub proof fn no_provider_no_models(shown: Shown, path: Seq<char>, gemini: bool)
    requires
        !shown.keys,
        !shown.gemini,
    ensures
        models_of(shown, path, gemini) == Seq::<Tree>::empty(),
        native_models_of(shown) == Seq::<Tree>::empty(),
{
    nothing_is_listed(
        shown,
        path,
        gemini,
        with_sources(shown.aliases, path, 0, destinations_of(shown)),
        0,
    );
}

} // verus!

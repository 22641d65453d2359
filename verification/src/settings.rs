//! The configuration file: its shapes, and the one in which it is written.

use vstd::prelude::*;
use crate::address::Address;
use crate::config::{
    alias_views, Alias, AliasView, ApiShape, ClientConnection, Config, DefaultRoute, IpVersion,
    Logging, Mode, Retry, RouteView, SshHost,
};
use crate::error::Error;
use crate::exchange::{laid_out, settled, to_lines};
use crate::fallback::{Fallbacks, Rules};
use crate::gemini::parts::empty_object;
use crate::gemini::provider::{Auth, ProviderConfig, Thinking};
use crate::gemini::response::number;
use crate::overview::{mode_name, mode_text};
use crate::table::entries;
use crate::text::{join2, same, texts};
use crate::tree::{json_views, trees, Json, Tree};

verus! {

broadcast use json_views;

/// The OpenAI provider.
pub struct OpenAiProvider {
    pub upstream_url: String,
    pub api_keys: Vec<(String, String)>,
    pub default: DefaultRoute,
    pub credential_cache_seconds: u64,
}

/// The providers.
pub struct Providers {
    pub openai: Option<OpenAiProvider>,
    pub gemini: Option<ProviderConfig>,
}

/// A configuration file. Providers may stand under their own name or, as they once did, at
/// the top.
pub struct ConfigFile {
    pub fallbacks: Fallbacks,
    pub providers: Providers,
    pub ssh_hosts: Vec<SshHost>,
    pub mode: Mode,
    pub connection: Option<ClientConnection>,
    pub listen: Address,
    pub upstream_url: String,
    pub api_keys: Vec<(String, String)>,
    pub gemini: Option<ProviderConfig>,
    pub default: DefaultRoute,
    pub credential_cache_seconds: u64,
    pub aliases: Vec<Alias>,
    pub retry: Retry,
    pub logging: Logging,
    pub skip_blocked_security_work: bool,
    pub ip_version: IpVersion,
}

/// Whether a file sets the OpenAI provider at the top.
pub open spec fn sets_openai(file: ConfigFile) -> bool {
    file.api_keys@.len() > 0 || file.upstream_url@ != "https://api.openai.com"@
        || file.default.api_key@ != "default"@
}

/// The configuration of a file, or why it is none.
pub open spec fn read_file(file: ConfigFile) -> Result<Config, Seq<char>> {
    if file.providers.openai is Some && sets_openai(file) {
        Err("Use providers.openai or legacy OpenAI fields, not both"@)
    } else if file.providers.gemini is Some && file.gemini is Some {
        Err("Use providers.gemini or legacy gemini, not both"@)
    } else {
        Ok(
            Config {
                fallbacks: file.fallbacks,
                ssh_hosts: file.ssh_hosts,
                mode: file.mode,
                connection: file.connection,
                listen: file.listen,
                upstream_url: match file.providers.openai {
                    Some(openai) => openai.upstream_url,
                    None => file.upstream_url,
                },
                api_keys: match file.providers.openai {
                    Some(openai) => openai.api_keys,
                    None => file.api_keys,
                },
                gemini: if file.providers.gemini is Some {
                    file.providers.gemini
                } else {
                    file.gemini
                },
                default: match file.providers.openai {
                    Some(openai) => openai.default,
                    None => file.default,
                },
                credential_cache_seconds: match file.providers.openai {
                    Some(openai) => openai.credential_cache_seconds,
                    None => file.credential_cache_seconds,
                },
                aliases: file.aliases,
                retry: file.retry,
                logging: file.logging,
                skip_blocked_security_work: file.skip_blocked_security_work,
                ip_version: file.ip_version,
            },
        )
    }
}

impl Config {
    /// The configuration of a file.
    pub fn from_file(file: ConfigFile) -> (r: Result<Config, Error>)
        ensures
            match r {
                Ok(config) => read_file(file) == Ok::<Config, Seq<char>>(config),
                Err(error) => read_file(file) == Err::<Config, Seq<char>>(error.message@),
            },
    {
        let mut upstream_url = file.upstream_url;
        let mut api_keys = file.api_keys;
        let mut default = file.default;
        let mut credential_cache_seconds = file.credential_cache_seconds;
        match file.providers.openai {
            Some(openai) => {
                if api_keys.len() > 0 || !same(upstream_url.as_str(), "https://api.openai.com")
                    || !same(default.api_key.as_str(), "default") {
                    return Err(
                        Error::new("Use providers.openai or legacy OpenAI fields, not both"),
                    );
                }
                upstream_url = openai.upstream_url;
                api_keys = openai.api_keys;
                default = openai.default;
                credential_cache_seconds = openai.credential_cache_seconds;
            },
            None => {},
        }
        let mut gemini = file.gemini;
        if file.providers.gemini.is_some() {
            if gemini.is_some() {
                return Err(Error::new("Use providers.gemini or legacy gemini, not both"));
            }
            gemini = file.providers.gemini;
        }
        Ok(
            Config {
                fallbacks: file.fallbacks,
                ssh_hosts: file.ssh_hosts,
                mode: file.mode,
                connection: file.connection,
                listen: file.listen,
                upstream_url,
                api_keys,
                gemini,
                default,
                credential_cache_seconds,
                aliases: file.aliases,
                retry: file.retry,
                logging: file.logging,
                skip_blocked_security_work: file.skip_blocked_security_work,
                ip_version: file.ip_version,
            },
        )
    }
}

// ---- the shape in which it is written ------------------------------------------------------------

/// An object with a member where there is a text for it.
pub open spec fn with_text(object: Tree, key: Seq<char>, text: Option<Seq<char>>) -> Tree {
    match text {
        Some(text) => object.with(key, Tree::Text(text)),
        None => object,
    }
}

fn add_text(object: Json, key: &str, text: &Option<String>) -> (r: Json)
    ensures
        r@ == with_text(object@, key@, text.deep_view()),
{
    match text {
        Some(text) => object.with(key, Json::text(text.as_str())),
        None => object,
    }
}

/// The first reasoning routes of an alias as an object.
pub open spec fn routes_tree(routes: Seq<(Seq<char>, RouteView)>, count: nat) -> Tree
    decreases count,
{
    if count == 0 || count > routes.len() {
        empty_object()
    } else {
        let (effort, route) = routes[count - 1];
        routes_tree(routes, (count - 1) as nat).with(
            effort,
            with_text(
                empty_object().with("to"@, Tree::Text(route.to)),
                "api_key"@,
                route.api_key,
            ),
        )
    }
}

/// A kind of request as it is written.
pub open spec fn shape_name(shape: ApiShape) -> Seq<char> {
    match shape {
        ApiShape::Responses => "responses"@,
        ApiShape::ChatCompletions => "chat_completions"@,
        ApiShape::Completions => "completions"@,
    }
}

/// An alias as it is written: what it does not set is left out.
pub open spec fn alias_tree(alias: AliasView) -> Tree {
    let base = empty_object().with("from"@, Tree::Text(alias.from));
    let base = if alias.reasoning_routes.len() > 0 {
        base.with(
            "reasoning_routes"@,
            routes_tree(alias.reasoning_routes, alias.reasoning_routes.len()),
        )
    } else {
        base
    };
    let base = with_text(base, "to"@, alias.to);
    let base = with_text(base, "reasoning"@, alias.reasoning);
    let base = with_text(base, "api_key"@, alias.api_key);
    match alias.api_shape {
        Some(shape) => base.with("api_shape"@, Tree::Text(shape_name(shape))),
        None => base,
    }
}

/// Aliases as they are written.
pub open spec fn alias_trees(aliases: Seq<AliasView>) -> Tree {
    Tree::Array(Seq::new(aliases.len(), |i: int| alias_tree(aliases[i])))
}

/// Names as they are written.
pub open spec fn name_trees(names: Seq<Seq<char>>) -> Seq<Tree> {
    Seq::new(names.len(), |i: int| Tree::Text(names[i]))
}

/// The first fallback rules as an object.
pub open spec fn rules_tree(rules: Rules, count: nat) -> Tree
    decreases count,
{
    if count == 0 || count > rules.len() {
        empty_object()
    } else {
        rules_tree(rules, (count - 1) as nat).with(
            rules[count - 1].0,
            Tree::Array(name_trees(rules[count - 1].1)),
        )
    }
}

/// The first keys as an object.
pub open spec fn keys_tree(keys: Seq<(Seq<char>, Seq<char>)>, count: nat) -> Tree
    decreases count,
{
    if count == 0 || count > keys.len() {
        empty_object()
    } else {
        keys_tree(keys, (count - 1) as nat).with(
            keys[count - 1].0,
            Tree::Text(keys[count - 1].1),
        )
    }
}

fn write_routes(alias: &Alias) -> (r: Json)
    ensures
        r@ == routes_tree(
            alias.deep_view().reasoning_routes,
            alias.deep_view().reasoning_routes.len(),
        ),
{
    let mut out = Json::object();
    let ghost routes = alias.deep_view().reasoning_routes;
    let mut i: usize = 0;
    while i < alias.reasoning_routes.len()
        invariant
            i <= alias.reasoning_routes.len(),
            routes == alias.deep_view().reasoning_routes,
            out@ == routes_tree(routes, i as nat),
        decreases alias.reasoning_routes.len() - i,
    {
        let (effort, route) = &alias.reasoning_routes[i];
        let entry = add_text(
            Json::object().with("to", Json::text(route.to.as_str())),
            "api_key",
            &route.api_key,
        );
        out.set(effort.as_str(), entry);
        i += 1;
    }
    out
}

fn write_alias(alias: &Alias) -> (r: Json)
    ensures
        r@ == alias_tree(alias.deep_view()),
{
    let base = Json::object().with("from", Json::text(alias.from.as_str()));
    let base = if alias.reasoning_routes.len() > 0 {
        base.with("reasoning_routes", write_routes(alias))
    } else {
        base
    };
    let base = add_text(base, "to", &alias.to);
    let base = add_text(base, "reasoning", &alias.reasoning);
    let base = add_text(base, "api_key", &alias.api_key);
    match alias.api_shape {
        Some(ApiShape::Responses) => base.with("api_shape", Json::text("responses")),
        Some(ApiShape::ChatCompletions) => base.with("api_shape", Json::text("chat_completions")),
        Some(ApiShape::Completions) => base.with("api_shape", Json::text("completions")),
        None => base,
    }
}

/// Aliases as they are written.
pub fn write_aliases(aliases: &Vec<Alias>) -> (r: Json)
    ensures
        r@ == alias_trees(alias_views(aliases@)),
{
    let mut out: Vec<Json> = Vec::new();
    let mut i: usize = 0;
    while i < aliases.len()
        invariant
            i == out.len() <= aliases.len(),
            forall|k: int|
                0 <= k < i ==> #[trigger] trees(out@)[k] == alias_tree(alias_views(aliases@)[k]),
        decreases aliases.len() - i,
    {
        let ghost before = trees(out@);
        out.push(write_alias(&aliases[i]));
        proof {
            assert forall|k: int| 0 <= k < i + 1 implies #[trigger] trees(out@)[k] == alias_tree(
                alias_views(aliases@)[k],
            ) by {
                if k < i {
                    assert(trees(out@)[k] == before[k]);
                }
            }
        }
        i += 1;
    }
    proof {
        assert(trees(out@) =~= alias_trees(alias_views(aliases@))->Array_0);
    }
    Json::Array(out)
}

fn write_names(names: &Vec<String>) -> (r: Vec<Json>)
    ensures
        trees(r@) == name_trees(texts(names@)),
{
    let mut out: Vec<Json> = Vec::new();
    let mut i: usize = 0;
    while i < names.len()
        invariant
            i <= names.len(),
            trees(out@) == name_trees(texts(names@)).subrange(0, i as int),
        decreases names.len() - i,
    {
        out.push(Json::text(names[i].as_str()));
        proof {
            let all = name_trees(texts(names@));
            assert(all.subrange(0, i + 1) =~= all.subrange(0, i as int).push(all[i as int]));
        }
        i += 1;
    }
    proof {
        assert(trees(out@) =~= name_trees(texts(names@)));
    }
    out
}

/// Fallback rules as they are written.
pub fn write_rules(rules: &Fallbacks) -> (r: Json)
    ensures
        r@ == rules_tree(entries(rules@), entries(rules@).len()),
{
    let mut out = Json::object();
    let ghost all = entries(rules@);
    let mut i: usize = 0;
    while i < rules.len()
        invariant
            i <= rules.len(),
            all == entries(rules@),
            out@ == rules_tree(all, i as nat),
        decreases rules.len() - i,
    {
        proof {
            assert(all[i as int].1 =~= texts(rules@[i as int].1@));
        }
        let names = write_names(&rules[i].1);
        out.set(rules[i].0.as_str(), Json::Array(names));
        i += 1;
    }
    out
}

fn write_keys(keys: &Vec<(String, String)>) -> (r: Json)
    ensures
        r@ == keys_tree(entries(keys@), entries(keys@).len()),
{
    let mut out = Json::object();
    let mut i: usize = 0;
    while i < keys.len()
        invariant
            i <= keys.len(),
            out@ == keys_tree(entries(keys@), i as nat),
        decreases keys.len() - i,
    {
        out.set(keys[i].0.as_str(), Json::text(keys[i].1.as_str()));
        i += 1;
    }
    out
}

/// A way to authenticate as it is written.
pub open spec fn auth_name(auth: Auth) -> Seq<char> {
    match auth {
        Auth::ApiKey => "api_key"@,
        Auth::Bearer => "bearer"@,
        Auth::Adc => "adc"@,
        Auth::GcloudAdc => "gcloud_adc"@,
    }
}

/// A way to think as it is written.
pub open spec fn thinking_name(thinking: Thinking) -> Seq<char> {
    match thinking {
        Thinking::Auto => "auto"@,
        Thinking::Budget => "budget"@,
        Thinking::Level => "level"@,
    }
}

/// The Gemini provider as it is written.
pub open spec fn provider_tree(config: ProviderConfig) -> Tree {
    with_text(
        empty_object().with("upstream_url"@, Tree::Text(config.upstream_url@)).with(
            "auth"@,
            Tree::Text(auth_name(config.auth)),
        ),
        "api_key"@,
        config.api_key.deep_view(),
    ).with("thinking"@, Tree::Text(thinking_name(config.thinking))).with(
        "credential_cache_seconds"@,
        number(config.credential_cache_seconds),
    )
}

fn write_provider(config: &ProviderConfig) -> (r: Json)
    ensures
        r@ == provider_tree(*config),
{
    let auth = match config.auth {
        Auth::ApiKey => "api_key",
        Auth::Bearer => "bearer",
        Auth::Adc => "adc",
        Auth::GcloudAdc => "gcloud_adc",
    };
    let thinking = match config.thinking {
        Thinking::Auto => "auto",
        Thinking::Budget => "budget",
        Thinking::Level => "level",
    };
    let base = Json::object().with("upstream_url", Json::text(config.upstream_url.as_str())).with(
        "auth",
        Json::text(auth),
    );
    add_text(base, "api_key", &config.api_key).with("thinking", Json::text(thinking)).with(
        "credential_cache_seconds",
        Json::natural(config.credential_cache_seconds),
    )
}

/// The providers as they are written.
pub open spec fn providers_tree(config: Config) -> Tree {
    let openai = empty_object().with("upstream_url"@, Tree::Text(config.upstream_url@)).with(
        "api_keys"@,
        keys_tree(entries(config.api_keys@), entries(config.api_keys@).len()),
    ).with(
        "default"@,
        empty_object().with("api_key"@, Tree::Text(config.default.api_key@)),
    ).with("credential_cache_seconds"@, number(config.credential_cache_seconds));
    let base = empty_object().with("openai"@, openai);
    match config.gemini {
        Some(gemini) => base.with("gemini"@, provider_tree(gemini)),
        None => base,
    }
}

fn write_providers(config: &Config) -> (r: Json)
    ensures
        r@ == providers_tree(*config),
{
    let openai = Json::object().with(
        "upstream_url",
        Json::text(config.upstream_url.as_str()),
    ).with("api_keys", write_keys(&config.api_keys)).with(
        "default",
        Json::object().with("api_key", Json::text(config.default.api_key.as_str())),
    ).with("credential_cache_seconds", Json::natural(config.credential_cache_seconds));
    let base = Json::object().with("openai", openai);
    match &config.gemini {
        Some(gemini) => base.with("gemini", write_provider(gemini)),
        None => base,
    }
}

/// The retry settings as they are written.
pub open spec fn retry_tree(retry: Retry) -> Tree {
    empty_object().with("max_retries"@, number(retry.max_retries as u64)).with(
        "initial_delay_ms"@,
        number(retry.initial_delay_ms),
    ).with("max_delay_ms"@, number(retry.max_delay_ms)).with(
        "recovery_timeout_ms"@,
        number(retry.recovery_timeout_ms),
    )
}

/// The logging settings as they are written.
pub open spec fn logging_tree(logging: Logging) -> Tree {
    empty_object().with("enabled"@, Tree::Bool(logging.enabled)).with(
        "database"@,
        match logging.database {
            Some(path) => Tree::Text(path@),
            None => Tree::Null,
        },
    ).with("queue_capacity"@, number(logging.queue_capacity as u64)).with(
        "batch_size"@,
        number(logging.batch_size as u64),
    ).with("flush_interval_ms"@, number(logging.flush_interval_ms))
}

/// An address family as it is written.
pub open spec fn family_name(version: IpVersion) -> Seq<char> {
    match version {
        IpVersion::Auto => "auto"@,
        IpVersion::Ipv4 => "ipv4"@,
        IpVersion::Ipv6 => "ipv6"@,
    }
}

fn write_retry(retry: &Retry) -> (r: Json)
    ensures
        r@ == retry_tree(*retry),
{
    Json::object().with("max_retries", Json::natural(retry.max_retries as u64)).with(
        "initial_delay_ms",
        Json::natural(retry.initial_delay_ms),
    ).with("max_delay_ms", Json::natural(retry.max_delay_ms)).with(
        "recovery_timeout_ms",
        Json::natural(retry.recovery_timeout_ms),
    )
}

fn write_logging(logging: &Logging) -> (r: Json)
    ensures
        r@ == logging_tree(*logging),
{
    let database = match &logging.database {
        Some(path) => Json::text(path.as_str()),
        None => Json::Null,
    };
    Json::object().with("enabled", Json::Bool(logging.enabled)).with("database", database).with(
        "queue_capacity",
        Json::natural(logging.queue_capacity as u64),
    ).with("batch_size", Json::natural(logging.batch_size as u64)).with(
        "flush_interval_ms",
        Json::natural(logging.flush_interval_ms),
    )
}

/// A configuration as it is written. Providers stand under their own name; a client's has
/// neither providers nor fallback rules.
pub open spec fn config_tree(config: Config, listen: Seq<char>, hosts: Seq<Tree>) -> Tree {
    let base = empty_object().with("mode"@, Tree::Text(mode_name(config.mode))).with(
        "listen"@,
        Tree::Text(listen),
    ).with("aliases"@, alias_trees(alias_views(config.aliases@))).with(
        "retry"@,
        retry_tree(config.retry),
    ).with("logging"@, logging_tree(config.logging)).with(
        "ip_version"@,
        Tree::Text(family_name(config.ip_version)),
    ).with("skip_blocked_security_work"@, Tree::Bool(config.skip_blocked_security_work));
    let base = if config.mode == Mode::Client {
        base
    } else {
        (if config.fallbacks@.len() > 0 {
            base.with(
                "fallbacks"@,
                rules_tree(entries(config.fallbacks@), entries(config.fallbacks@).len()),
            )
        } else {
            base
        }).with("providers"@, providers_tree(config))
    };
    let base = if hosts.len() > 0 {
        base.with("ssh_hosts"@, Tree::Array(hosts))
    } else {
        base
    };
    match config.connection {
        Some(connection) => base.with(
            "connection"@,
            empty_object().with("url"@, Tree::Text(connection.url@)).with(
                "api_key"@,
                Tree::Text(connection.api_key@),
            ),
        ),
        None => base,
    }
}

impl Config {
    /// The configuration as it is written, given its listening address as text and its SSH
    /// hosts as they are written.
    pub fn to_json(&self, listen: &str, hosts: Vec<Json>) -> (r: Json)
        ensures
            r@ == config_tree(*self, listen@, trees(hosts@)),
    {
        let family = match self.ip_version {
            IpVersion::Auto => "auto",
            IpVersion::Ipv4 => "ipv4",
            IpVersion::Ipv6 => "ipv6",
        };
        let mut base = Json::object().with("mode", Json::text(mode_text(self.mode))).with(
            "listen",
            Json::text(listen),
        ).with("aliases", write_aliases(&self.aliases)).with(
            "retry",
            write_retry(&self.retry),
        ).with("logging", write_logging(&self.logging)).with(
            "ip_version",
            Json::text(family),
        ).with("skip_blocked_security_work", Json::Bool(self.skip_blocked_security_work));
        if self.mode != Mode::Client {
            if self.fallbacks.len() > 0 {
                base.set("fallbacks", write_rules(&self.fallbacks));
            }
            base.set("providers", write_providers(self));
        }
        if hosts.len() > 0 {
            base.set("ssh_hosts", Json::Array(hosts));
        }
        match &self.connection {
            Some(connection) => {
                let entry = Json::object().with("url", Json::text(connection.url.as_str())).with(
                    "api_key",
                    Json::text(connection.api_key.as_str()),
                );
                base.set("connection", entry);
            },
            None => {},
        }
        base
    }
}

/// The first configuration: it has no credentials, rules or hosts.
pub open spec fn starter_tree() -> Tree {
    empty_object().with("listen"@, Tree::Text("127.0.0.1:8080"@)).with(
        "providers"@,
        empty_object().with("openai"@, empty_object().with("api_keys"@, empty_object())),
    ).with("aliases"@, Tree::Array(Seq::empty())).with("fallbacks"@, empty_object())
}

/// The first configuration.
pub fn starter() -> (r: Json)
    ensures
        r@ == starter_tree(),
{
    let none: Vec<Json> = Vec::new();
    Json::object().with("listen", Json::text("127.0.0.1:8080")).with(
        "providers",
        Json::object().with("openai", Json::object().with("api_keys", Json::object())),
    ).with("aliases", Json::Array(none)).with("fallbacks", Json::object())
}

/// The text of the first configuration file.
pub fn starter_text() -> (r: String)
    ensures
        r@ == laid_out(settled(starter_tree())) + "\n"@,
{
    let text = to_lines(&starter());
    join2(text.as_str(), "\n")
}

/// What the dashboard shows of a configuration. Neither keys nor addresses are part of it.
pub open spec fn routing_tree(config: Config) -> Tree {
    empty_object().with("default_project"@, Tree::Text(config.default.api_key@)).with(
        "aliases"@,
        alias_trees(alias_views(config.aliases@)),
    ).with(
        "fallbacks"@,
        rules_tree(entries(config.fallbacks@), entries(config.fallbacks@).len()),
    ).with("mode"@, Tree::Text(mode_name(config.mode)))
}

/// What the dashboard shows of a configuration.
pub fn routing_config(config: &Config) -> (r: Json)
    ensures
        r@ == routing_tree(*config),
{
    Json::object().with("default_project", Json::text(config.default.api_key.as_str())).with(
        "aliases",
        write_aliases(&config.aliases),
    ).with("fallbacks", write_rules(&config.fallbacks)).with(
        "mode",
        Json::text(mode_text(config.mode)),
    )
}

// ---- laws ----------------------------------------------------------------------------------------

/// A file that holds what a configuration is written as: its providers under their own
/// name, and nothing where they once stood.
pub open spec fn written_as(file: ConfigFile, config: Config) -> bool {
    &&& file.providers.openai == Some(
        OpenAiProvider {
            upstream_url: config.upstream_url,
            api_keys: config.api_keys,
            default: config.default,
            credential_cache_seconds: config.credential_cache_seconds,
        },
    )
    &&& file.providers.gemini == config.gemini
    &&& !sets_openai(file)
    &&& file.gemini is None
    &&& file.fallbacks == config.fallbacks
    &&& file.ssh_hosts == config.ssh_hosts
    &&& file.mode == config.mode
    &&& file.connection == config.connection
    &&& file.listen == config.listen
    &&& file.aliases == config.aliases
    &&& file.retry == config.retry
    &&& file.logging == config.logging
    &&& file.skip_blocked_security_work == config.skip_blocked_security_work
    &&& file.ip_version == config.ip_version
}

/// A configuration that was written reads back as it was.
pub proof fn written_configs_read_back(file: ConfigFile, config: Config)
    requires
        written_as(file, config),
    ensures
        read_file(file) == Ok::<Config, Seq<char>>(config),
{
}

/// Where a provider stands makes no difference: a file with its providers at the top gives
/// the configuration that it gives with them under their own name.
pub proof fn both_shapes_agree(old_file: ConfigFile, new_file: ConfigFile)
    requires
        old_file.providers.openai is None,
        old_file.providers.gemini is None,
        new_file.providers == (Providers {
            openai: Some(
                OpenAiProvider {
                    upstream_url: old_file.upstream_url,
                    api_keys: old_file.api_keys,
                    default: old_file.default,
                    credential_cache_seconds: old_file.credential_cache_seconds,
                },
            ),
            gemini: old_file.gemini,
        }),
        !sets_openai(new_file),
        new_file.gemini is None,
        new_file == (ConfigFile {
            providers: new_file.providers,
            upstream_url: new_file.upstream_url,
            api_keys: new_file.api_keys,
            default: new_file.default,
            gemini: new_file.gemini,
            ..old_file
        }),
    ensures
        read_file(old_file) is Ok,
        read_file(new_file) == read_file(old_file),
{
}

/// The dashboard shows no secrets: configurations that differ in keys, addresses and
/// credential sources alone are shown alike.
pub proof fn dashboard_shows_no_secrets(one: Config, two: Config)
    requires
        one.mode == two.mode,
        one.aliases == two.aliases,
        one.fallbacks == two.fallbacks,
        one.default.api_key@ == two.default.api_key@,
    ensures
        routing_tree(one) == routing_tree(two),
{
}

} // verus!

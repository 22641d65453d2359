//! The configuration of the proxy.

use vstd::prelude::*;
use crate::address::{loopback, plain_address, reached_locally, Address, Ip};
use crate::credentials::{source_check, validate_source};
use crate::error::{both, ensure, ensured, outcome, Error};
use crate::fallback::{fallbacks_check, validate, Fallbacks, Rules};
use crate::gemini::provider::{provider_check, ProviderConfig};
use crate::outside::{header_text, is_header_text, parse_url, url_parsed, UrlParts, UrlView};
use crate::table::{entries, find, get_entry};
use crate::text::{
    alphanumeric, blank, chars_of, ends_with, has_char, is_alphanumeric, is_blank, join2, same,
    starts_with, trim_end, trimmed_end,
};

verus! {

/// What part a proxy plays: on its own, shared by clients, or a client of a host.
#[derive(Clone, Copy, Debug, PartialEq, Eq, Structural)]
pub enum Mode {
    Standalone,
    Host,
    Client,
}

impl Default for Mode {
    fn default() -> (r: Mode)
        ensures
            r == Mode::Standalone,
    {
        Mode::Standalone
    }
}

/// The address family of upstream connections.
#[derive(Clone, Copy, Debug, PartialEq, Eq, Structural)]
pub enum IpVersion {
    Auto,
    Ipv4,
    Ipv6,
}

impl Default for IpVersion {
    fn default() -> (r: IpVersion)
        ensures
            r == IpVersion::Auto,
    {
        IpVersion::Auto
    }
}

/// The kind of request that an alias is limited to.
#[derive(Clone, Copy, Debug, PartialEq, Eq, Structural)]
pub enum ApiShape {
    Responses,
    ChatCompletions,
    Completions,
}

/// Where a client finds its host.
#[derive(Clone)]
pub struct ClientConnection {
    pub url: String,
    pub api_key: String,
}

/// The key of requests that no alias routes.
#[derive(Clone)]
pub struct DefaultRoute {
    pub api_key: String,
}

impl Default for DefaultRoute {
    fn default() -> (r: DefaultRoute)
        ensures
            r.api_key@ == "default"@,
    {
        DefaultRoute { api_key: "default".to_string() }
    }
}

/// Where requests of one reasoning effort go.
#[derive(Clone)]
pub struct ReasoningRoute {
    pub to: String,
    pub api_key: Option<String>,
}

/// The view of a reasoning route.
pub ghost struct RouteView {
    pub to: Seq<char>,
    pub api_key: Option<Seq<char>>,
}

impl DeepView for ReasoningRoute {
    type V = RouteView;

    open spec fn deep_view(&self) -> RouteView {
        RouteView { to: self.to@, api_key: self.api_key.deep_view() }
    }
}

/// An overwrite rule for a model.
#[derive(Clone)]
pub struct Alias {
    pub reasoning_routes: Vec<(String, ReasoningRoute)>,
    pub from: String,
    pub to: Option<String>,
    pub reasoning: Option<String>,
    pub api_key: Option<String>,
    pub api_shape: Option<ApiShape>,
}

/// The view of an alias.
pub ghost struct AliasView {
    pub reasoning_routes: Seq<(Seq<char>, RouteView)>,
    pub from: Seq<char>,
    pub to: Option<Seq<char>>,
    pub reasoning: Option<Seq<char>>,
    pub api_key: Option<Seq<char>>,
    pub api_shape: Option<ApiShape>,
}

impl DeepView for Alias {
    type V = AliasView;

    open spec fn deep_view(&self) -> AliasView {
        AliasView {
            reasoning_routes: entries(self.reasoning_routes@),
            from: self.from@,
            to: self.to.deep_view(),
            reasoning: self.reasoning.deep_view(),
            api_key: self.api_key.deep_view(),
            api_shape: self.api_shape,
        }
    }
}

/// The views of aliases.
pub open spec fn alias_views(aliases: Seq<Alias>) -> Seq<AliasView> {
    Seq::new(aliases.len(), |i: int| aliases[i].deep_view())
}

/// How failed requests are tried again.
#[derive(Clone, Copy, Debug, PartialEq, Eq, Structural)]
pub struct Retry {
    pub max_retries: u32,
    pub initial_delay_ms: u64,
    pub max_delay_ms: u64,
    /// When nonzero, recover by elapsed time instead of attempt count. No retries at all
    /// still disables them. Leave margin below the client's idle timeout.
    pub recovery_timeout_ms: u64,
}

impl Default for Retry {
    fn default() -> (r: Retry)
        ensures
            r == (Retry {
                max_retries: 5,
                initial_delay_ms: 500,
                max_delay_ms: 30_000,
                recovery_timeout_ms: 290_000,
            }),
    {
        Retry {
            max_retries: 5,
            initial_delay_ms: 500,
            max_delay_ms: 30_000,
            recovery_timeout_ms: 290_000,
        }
    }
}

/// How requests are recorded.
#[derive(Clone)]
pub struct Logging {
    pub enabled: bool,
    /// Relative paths resolve beside the proxy config, never against the current directory.
    pub database: Option<String>,
    pub queue_capacity: usize,
    pub batch_size: usize,
    pub flush_interval_ms: u64,
}

impl Default for Logging {
    fn default() -> (r: Logging)
        ensures
            r.enabled,
            r.database is None,
            r.queue_capacity == 65_536,
            r.batch_size == 512,
            r.flush_interval_ms == 100,
    {
        Logging {
            enabled: true,
            database: None,
            queue_capacity: 65_536,
            batch_size: 512,
            flush_interval_ms: 100,
        }
    }
}

/// An SSH destination with its settings.
#[derive(Clone)]
pub struct RemoteHost {
    pub host: String,
    /// Use a supervised SSH reverse tunnel for controller-owned Gemini ADC.
    pub gemini_via_controller: bool,
    pub gemini_model: Option<String>,
    pub mode: Mode,
    /// SSH host name of the shared host this client uses.
    pub via: Option<String>,
    /// Service root URL reachable from clients.
    pub url: Option<String>,
    /// Local argv commands run before connecting (for VPN/SSH login).
    pub prepare: Vec<Vec<String>>,
    pub listen: Option<Address>,
    pub codex_home: Option<String>,
    pub model: Option<String>,
}

/// SSH aliases and user@host destinations.
#[derive(Clone)]
pub enum SshHost {
    Name(String),
    Settings(RemoteHost),
}

/// The destination of an entry.
pub open spec fn host_name(host: SshHost) -> Seq<char> {
    match host {
        SshHost::Name(host) => host@,
        SshHost::Settings(settings) => settings.host@,
    }
}

impl SshHost {
    pub fn host(&self) -> (r: &str)
        ensures
            r@ == host_name(*self),
    {
        match self {
            SshHost::Name(host) => host.as_str(),
            SshHost::Settings(settings) => settings.host.as_str(),
        }
    }

    pub fn settings(&self) -> (r: Option<&RemoteHost>)
        ensures
            match r {
                Some(settings) => *self == SshHost::Settings(*settings),
                None => self is Name,
            },
    {
        match self {
            SshHost::Name(_) => None,
            SshHost::Settings(settings) => Some(settings),
        }
    }
}

/// The configuration.
#[derive(Clone)]
pub struct Config {
    pub fallbacks: Fallbacks,
    pub ssh_hosts: Vec<SshHost>,
    pub mode: Mode,
    pub connection: Option<ClientConnection>,
    pub listen: Address,
    pub upstream_url: String,
    pub api_keys: Vec<(String, String)>,
    pub gemini: Option<ProviderConfig>,
    pub default: DefaultRoute,
    pub credential_cache_seconds: u64,
    pub aliases: Vec<Alias>,
    pub retry: Retry,
    pub logging: Logging,
    /// User-level direction to skip blocked security work and continue permitted work.
    pub skip_blocked_security_work: bool,
    /// Address family for upstream connections. By default the system chooses, which
    /// usually prefers IPv6 when the upstream has such addresses.
    pub ip_version: IpVersion,
}

/// How long credentials are kept unless configured otherwise.
pub fn default_credential_cache_seconds() -> (r: u64)
    ensures
        r == 2400,
{
    2400
}

/// Where requests go unless configured otherwise.
pub fn default_upstream() -> (r: String)
    ensures
        r@ == "https://api.openai.com"@,
{
    "https://api.openai.com".to_string()
}

impl Default for Config {
    fn default() -> (r: Config)
        ensures
            r.fallbacks@.len() == 0,
            r.ssh_hosts@.len() == 0,
            r.mode == Mode::Standalone,
            r.connection is None,
            r.listen == plain_address(Ip::V4(127, 0, 0, 1), 8080),
            r.upstream_url@ == "https://api.openai.com"@,
            r.api_keys@.len() == 0,
            r.gemini is None,
            r.default.api_key@ == "default"@,
            r.credential_cache_seconds == 2400,
            r.aliases@.len() == 0,
            r.retry.max_retries == 5,
            r.retry.initial_delay_ms == 500,
            r.retry.max_delay_ms == 30_000,
            r.retry.recovery_timeout_ms == 290_000,
            r.logging.enabled,
            r.logging.database is None,
            r.logging.queue_capacity == 65_536,
            r.logging.batch_size == 512,
            r.logging.flush_interval_ms == 100,
            !r.skip_blocked_security_work,
            r.ip_version == IpVersion::Auto,
    {
        Config {
            fallbacks: Vec::new(),
            ssh_hosts: Vec::new(),
            mode: Mode::Standalone,
            connection: None,
            listen: Address::new(Ip::V4(127, 0, 0, 1), 8080),
            upstream_url: default_upstream(),
            api_keys: Vec::new(),
            gemini: None,
            default: DefaultRoute::default(),
            credential_cache_seconds: 2400,
            aliases: Vec::new(),
            retry: Retry::default(),
            logging: Logging::default(),
            skip_blocked_security_work: false,
            ip_version: IpVersion::Auto,
        }
    }
}

// ---- aliases ---------------------------------------------------------------------------

/// Whether an alias applies to requests of a path.
pub open spec fn shape_fits(shape: Option<ApiShape>, path: Seq<char>) -> bool {
    let place = trimmed_end(path, '/');
    match shape {
        None => true,
        Some(ApiShape::Responses) => "/responses"@.is_suffix_of(place),
        Some(ApiShape::ChatCompletions) => "/chat/completions"@.is_suffix_of(place),
        Some(ApiShape::Completions) => "/completions"@.is_suffix_of(place)
            && !"/chat/completions"@.is_suffix_of(place),
    }
}

impl Alias {
    /// Whether the alias applies to requests of a path.
    pub fn matches_shape(&self, path: &str) -> (r: bool)
        ensures
            r == shape_fits(self.api_shape, path@),
    {
        let place = trim_end(path, '/');
        match self.api_shape {
            None => true,
            Some(ApiShape::Responses) => ends_with(place, "/responses"),
            Some(ApiShape::ChatCompletions) => ends_with(place, "/chat/completions"),
            Some(ApiShape::Completions) => ends_with(place, "/completions") && !ends_with(
                place,
                "/chat/completions",
            ),
        }
    }
}

/// The first alias for a model at or after `from` that applies to a path.
pub open spec fn alias_from(
    aliases: Seq<AliasView>,
    model: Seq<char>,
    path: Seq<char>,
    from: int,
) -> Option<AliasView>
    decreases aliases.len() - from,
{
    if from < 0 || from >= aliases.len() {
        None
    } else if aliases[from].from == model && shape_fits(aliases[from].api_shape, path) {
        Some(aliases[from])
    } else {
        alias_from(aliases, model, path, from + 1)
    }
}

/// The alias of a model for requests of a path: the first that applies.
pub fn find_alias<'a>(aliases: &'a Vec<Alias>, model: &str, path: &str) -> (r: Option<&'a Alias>)
    ensures
        r.deep_view() == alias_from(alias_views(aliases@), model@, path@, 0),
{
    let mut i: usize = 0;
    while i < aliases.len()
        invariant
            i <= aliases.len(),
            alias_from(alias_views(aliases@), model@, path@, 0) == alias_from(
                alias_views(aliases@),
                model@,
                path@,
                i as int,
            ),
        decreases aliases.len() - i,
    {
        if same(aliases[i].from.as_str(), model) && aliases[i].matches_shape(path) {
            return Some(&aliases[i]);
        }
        i += 1;
    }
    None
}

// ---- checks ----------------------------------------------------------------------------

/// Whether a URL is an HTTP URL without credentials, query and fragment.
pub open spec fn plain_url(url: UrlView) -> bool {
    (url.scheme == "http"@ || url.scheme == "https"@) && url.host is Some && url.username.len() == 0
        && url.password is None && url.query is None && url.fragment is None
}

pub(crate) fn is_plain_url(url: &UrlParts) -> (r: bool)
    ensures
        r == plain_url(url.deep_view()),
{
    (same(url.scheme.as_str(), "http") || same(url.scheme.as_str(), "https"))
        && url.host.is_some() && url.username.as_str().is_empty() && url.password.is_none()
        && url.query.is_none() && url.fragment.is_none()
}

/// The check that a URL is the root of a service.
pub open spec fn root_url_check(value: Seq<char>) -> Result<(), Seq<char>> {
    match url_parsed(value) {
        Err(_) => Err("Invalid proxy URL"@),
        Ok(url) => ensured(
            plain_url(url) && url.path == "/"@,
            "Proxy URL must be an HTTP(S) service root without credentials, path, query or fragment"@,
        ),
    }
}

/// Checks that parsed URL parts are those of the root of a service.
pub fn check_root(url: &UrlParts) -> (r: Result<(), Error>)
    ensures
        outcome(r) == ensured(
            plain_url(url.deep_view()) && url.path@ == "/"@,
            "Proxy URL must be an HTTP(S) service root without credentials, path, query or fragment"@,
        ),
{
    ensure(
        is_plain_url(url) && same(url.path.as_str(), "/"),
        "Proxy URL must be an HTTP(S) service root without credentials, path, query or fragment",
    )
}

/// Checks that a URL is the root of a service.
pub fn validate_root_url(value: &str) -> (r: Result<(), Error>)
    ensures
        outcome(r) == root_url_check(value@),
{
    match parse_url(value) {
        Err(_) => Err(Error::new("Invalid proxy URL")),
        Ok(url) => check_root(&url),
    }
}

/// The check of the logging settings.
pub open spec fn logging_check(logging: Logging) -> Result<(), Seq<char>> {
    ensured(
        128 <= logging.queue_capacity <= 1_048_576 && 1 <= logging.batch_size <= 4096
            && logging.batch_size <= logging.queue_capacity && 10 <= logging.flush_interval_ms
            <= 5000 && (logging.database matches Some(path) ==> !blank(path@)),
        "Logging limits: queue_capacity 128..1048576, batch_size 1..4096 and <= queue_capacity, flush_interval_ms 10..5000; database must be a nonempty path"@,
    )
}

fn check_logging(logging: &Logging) -> (r: Result<(), Error>)
    ensures
        outcome(r) == logging_check(*logging),
{
    let named = match &logging.database {
        Some(path) => !is_blank(path.as_str()),
        None => true,
    };
    ensure(
        128 <= logging.queue_capacity && logging.queue_capacity <= 1_048_576 && 1
            <= logging.batch_size && logging.batch_size <= 4096 && logging.batch_size
            <= logging.queue_capacity && 10 <= logging.flush_interval_ms
            && logging.flush_interval_ms <= 5000 && named,
        "Logging limits: queue_capacity 128..1048576, batch_size 1..4096 and <= queue_capacity, flush_interval_ms 10..5000; database must be a nonempty path",
    )
}

/// The check of what a client may be configured with.
pub open spec fn client_check(config: Config) -> Result<(), Seq<char>> {
    if config.mode == Mode::Client {
        both(
            ensured(
                loopback(config.listen.ip),
                "Client mode requires a loopback listening address"@,
            ),
            match config.connection {
                None => Err("Client mode requires connection.url and connection.api_key"@),
                Some(connection) => both(
                    root_url_check(connection.url@),
                    both(
                        ensured(
                            connection.api_key@.len() > 0 && header_text(
                                "Bearer "@ + connection.api_key@,
                            ),
                            "Invalid host access key"@,
                        ),
                        ensured(
                            config.api_keys@.len() == 0 && config.aliases@.len() == 0
                                && config.fallbacks@.len() == 0 && config.gemini is None,
                            "Client config must not contain upstream API keys, aliases or fallback rules"@,
                        ),
                    ),
                ),
            },
        )
    } else {
        ensured(config.connection is None, "Only client mode accepts connection"@)
    }
}

fn check_client(config: &Config) -> (r: Result<(), Error>)
    ensures
        outcome(r) == client_check(*config),
{
    if config.mode == Mode::Client {
        ensure(
            config.listen.is_loopback(),
            "Client mode requires a loopback listening address",
        )?;
        let connection = match &config.connection {
            Some(connection) => connection,
            None => {
                return Err(
                    Error::new("Client mode requires connection.url and connection.api_key"),
                );
            },
        };
        validate_root_url(connection.url.as_str())?;
        let bearer = join2("Bearer ", connection.api_key.as_str());
        ensure(
            !connection.api_key.as_str().is_empty() && is_header_text(bearer.as_str()),
            "Invalid host access key",
        )?;
        ensure(
            config.api_keys.len() == 0 && config.aliases.len() == 0 && config.fallbacks.len() == 0
                && config.gemini.is_none(),
            "Client config must not contain upstream API keys, aliases or fallback rules",
        )
    } else {
        ensure(config.connection.is_none(), "Only client mode accepts connection")
    }
}

// ---- the inventory of SSH hosts --------------------------------------------------------

/// A character that may stand in an SSH destination.
pub open spec fn host_char(c: char) -> bool {
    alphanumeric(c) || c == '@' || c == '.' || c == '_' || c == ':' || c == '-' || c == '[' || c
        == ']'
}

/// A name that SSH takes as a destination.
pub open spec fn good_host(name: Seq<char>) -> bool {
    name.len() > 0 && name[0] != '-' && forall|i: int|
        0 <= i < name.len() ==> host_char(#[trigger] name[i])
}

fn is_good_host(name: &str) -> (r: bool)
    ensures
        r == good_host(name@),
{
    let chars = chars_of(name);
    if chars.len() == 0 || chars[0] == '-' {
        return false;
    }
    let mut i: usize = 0;
    while i < chars.len()
        invariant
            i <= chars.len(),
            chars@ == name@,
            forall|k: int| 0 <= k < i ==> host_char(#[trigger] name@[k]),
        decreases chars.len() - i,
    {
        let c = chars[i];
        if !(is_alphanumeric(c) || c == '@' || c == '.' || c == '_' || c == ':' || c == '-' || c
            == '[' || c == ']') {
            assert(!host_char(name@[i as int]));
            return false;
        }
        i += 1;
    }
    true
}

/// Whether one of the arguments from `from` on holds a NUL.
pub open spec fn any_nul(command: Seq<String>, from: int) -> bool
    decreases command.len() - from,
{
    0 <= from < command.len() && (command[from]@.contains('\0') || any_nul(command, from + 1))
}

/// A command that can be run.
pub open spec fn good_command(command: Seq<String>) -> bool {
    command.len() > 0 && command[0]@.len() > 0 && !any_nul(command, 0)
}

fn is_good_command(command: &Vec<String>) -> (r: bool)
    ensures
        r == good_command(command@),
{
    if command.len() == 0 || command[0].as_str().is_empty() {
        return false;
    }
    let mut i: usize = 0;
    while i < command.len()
        invariant
            i <= command.len(),
            command@.len() > 0 && command@[0]@.len() > 0,
            any_nul(command@, 0) == any_nul(command@, i as int),
        decreases command.len() - i,
    {
        if has_char(command[i].as_str(), '\0') {
            return false;
        }
        i += 1;
    }
    true
}

/// Whether every command from `from` on can be run.
pub open spec fn good_commands(commands: Seq<Vec<String>>, from: int) -> bool
    decreases commands.len() - from,
{
    from < 0 || from >= commands.len() || (good_command(commands[from]@) && good_commands(
        commands,
        from + 1,
    ))
}

fn are_good_commands(commands: &Vec<Vec<String>>) -> (r: bool)
    ensures
        r == good_commands(commands@, 0),
{
    let mut i: usize = 0;
    while i < commands.len()
        invariant
            i <= commands.len(),
            good_commands(commands@, 0) == good_commands(commands@, i as int),
        decreases commands.len() - i,
    {
        if !is_good_command(&commands[i]) {
            return false;
        }
        i += 1;
    }
    true
}

/// The check of the settings of a destination.
pub open spec fn settings_check(settings: RemoteHost) -> Result<(), Seq<char>> {
    both(
        ensured(
            good_commands(settings.prepare@, 0),
            "Remote prepare commands must be nonempty argv arrays"@,
        ),
        both(
            ensured(
                settings.listen matches Some(address) ==> address.port != 0 && (settings.mode
                    == Mode::Host || loopback(address.ip)),
                "Remote listen must be a loopback address with a nonzero port"@,
            ),
            both(
                ensured(
                    settings.codex_home matches Some(path) ==> "/"@.is_prefix_of(path@)
                        && !path@.contains('\n') && !path@.contains('\r')
                        && !path@.contains('\0'),
                    "codex_home must be an absolute remote path without control characters"@,
                ),
                ensured(
                    settings.model matches Some(model) ==> !blank(model@),
                    "Remote model must be nonempty"@,
                ),
            ),
        ),
    )
}

fn check_settings(settings: &RemoteHost) -> (r: Result<(), Error>)
    ensures
        outcome(r) == settings_check(*settings),
{
    ensure(
        are_good_commands(&settings.prepare),
        "Remote prepare commands must be nonempty argv arrays",
    )?;
    let listens = match settings.listen {
        Some(address) => address.port != 0 && (settings.mode == Mode::Host
            || address.is_loopback()),
        None => true,
    };
    ensure(listens, "Remote listen must be a loopback address with a nonzero port")?;
    let homed = match &settings.codex_home {
        Some(path) => {
            let path = path.as_str();
            starts_with(path, "/") && !has_char(path, '\n') && !has_char(path, '\r') && !has_char(
                path,
                '\0',
            )
        },
        None => true,
    };
    ensure(homed, "codex_home must be an absolute remote path without control characters")?;
    let named = match &settings.model {
        Some(model) => !is_blank(model.as_str()),
        None => true,
    };
    ensure(named, "Remote model must be nonempty")
}

/// Whether a destination stands among the first `to` entries.
pub open spec fn named_before(hosts: Seq<SshHost>, name: Seq<char>, to: int) -> bool
    decreases to,
{
    0 < to <= hosts.len() && (host_name(hosts[to - 1]) == name || named_before(
        hosts,
        name,
        to - 1,
    ))
}

fn is_named_before(hosts: &Vec<SshHost>, name: &str, to: usize) -> (r: bool)
    requires
        to <= hosts.len(),
    ensures
        r == named_before(hosts@, name@, to as int),
{
    let mut i: usize = to;
    while i > 0
        invariant
            i <= to <= hosts.len(),
            named_before(hosts@, name@, to as int) == named_before(hosts@, name@, i as int),
        decreases i,
    {
        if same(hosts[i - 1].host(), name) {
            return true;
        }
        i -= 1;
    }
    false
}

/// The check of the entries from `from` on, each by itself.
pub open spec fn hosts_check(hosts: Seq<SshHost>, from: int) -> Result<(), Seq<char>>
    decreases hosts.len() - from,
{
    if from < 0 || from >= hosts.len() {
        Ok(())
    } else {
        let name = host_name(hosts[from]);
        both(
            both(
                ensured(
                    good_host(name) && !named_before(hosts, name, from),
                    "ssh_hosts must contain unique SSH aliases or user@host destinations"@,
                ),
                match hosts[from] {
                    SshHost::Name(_) => Ok(()),
                    SshHost::Settings(settings) => settings_check(settings),
                },
            ),
            hosts_check(hosts, from + 1),
        )
    }
}

fn check_hosts(hosts: &Vec<SshHost>) -> (r: Result<(), Error>)
    ensures
        outcome(r) == hosts_check(hosts@, 0),
{
    let mut i: usize = 0;
    while i < hosts.len()
        invariant
            i <= hosts.len(),
            hosts_check(hosts@, 0) == hosts_check(hosts@, i as int),
        decreases hosts.len() - i,
    {
        let name = hosts[i].host();
        ensure(
            is_good_host(name) && !is_named_before(hosts, name, i),
            "ssh_hosts must contain unique SSH aliases or user@host destinations",
        )?;
        match hosts[i].settings() {
            Some(settings) => check_settings(settings)?,
            None => {},
        }
        i += 1;
    }
    Ok(())
}

/// The first entry of a destination at or after `from`.
pub open spec fn host_from(hosts: Seq<SshHost>, name: Seq<char>, from: int) -> Option<SshHost>
    decreases hosts.len() - from,
{
    if from < 0 || from >= hosts.len() {
        None
    } else if host_name(hosts[from]) == name {
        Some(hosts[from])
    } else {
        host_from(hosts, name, from + 1)
    }
}

fn find_host<'a>(hosts: &'a Vec<SshHost>, name: &str) -> (r: Option<&'a SshHost>)
    ensures
        match r {
            Some(host) => host_from(hosts@, name@, 0) == Some(*host),
            None => host_from(hosts@, name@, 0) is None,
        },
{
    let mut i: usize = 0;
    while i < hosts.len()
        invariant
            i <= hosts.len(),
            host_from(hosts@, name@, 0) == host_from(hosts@, name@, i as int),
        decreases hosts.len() - i,
    {
        if same(hosts[i].host(), name) {
            return Some(&hosts[i]);
        }
        i += 1;
    }
    None
}

/// The check of how an entry relates to the others.
pub open spec fn relation_check(hosts: Seq<SshHost>, settings: RemoteHost) -> Result<
    (),
    Seq<char>,
> {
    match settings.mode {
        Mode::Client => match settings.via {
            None => Err("Client SSH entry requires via"@),
            Some(via) => match host_from(hosts, via@, 0) {
                None => Err("Client via references unknown SSH host"@),
                Some(target) => both(
                    ensured(
                        target matches SshHost::Settings(host) && host.mode == Mode::Host,
                        "Client via must reference a host-mode SSH entry"@,
                    ),
                    ensured(settings.url is None, "Set url on the host, not the client"@),
                ),
            },
        },
        Mode::Host => match settings.url {
            None => Err("Host SSH entry requires its client-reachable url"@),
            Some(url) => both(
                root_url_check(url@),
                ensured(settings.via is None, "Host entries cannot have via"@),
            ),
        },
        Mode::Standalone => ensured(
            settings.via is None && settings.url is None,
            "Standalone SSH entries do not use via or url"@,
        ),
    }
}

fn check_relation(hosts: &Vec<SshHost>, settings: &RemoteHost) -> (r: Result<(), Error>)
    ensures
        outcome(r) == relation_check(hosts@, *settings),
{
    match settings.mode {
        Mode::Client => {
            let via = match &settings.via {
                Some(via) => via,
                None => return Err(Error::new("Client SSH entry requires via")),
            };
            let target = match find_host(hosts, via.as_str()) {
                Some(target) => target,
                None => return Err(Error::new("Client via references unknown SSH host")),
            };
            let shared = match target.settings() {
                Some(host) => host.mode == Mode::Host,
                None => false,
            };
            ensure(shared, "Client via must reference a host-mode SSH entry")?;
            ensure(settings.url.is_none(), "Set url on the host, not the client")
        },
        Mode::Host => {
            match &settings.url {
                None => return Err(
                    Error::new("Host SSH entry requires its client-reachable url"),
                ),
                Some(url) => validate_root_url(url.as_str())?,
            }
            ensure(settings.via.is_none(), "Host entries cannot have via")
        },
        Mode::Standalone => ensure(
            settings.via.is_none() && settings.url.is_none(),
            "Standalone SSH entries do not use via or url",
        ),
    }
}

/// The check of how the entries from `from` on relate to each other.
pub open spec fn relations_check(hosts: Seq<SshHost>, from: int) -> Result<(), Seq<char>>
    decreases hosts.len() - from,
{
    if from < 0 || from >= hosts.len() {
        Ok(())
    } else {
        both(
            match hosts[from] {
                SshHost::Name(_) => Ok(()),
                SshHost::Settings(settings) => relation_check(hosts, settings),
            },
            relations_check(hosts, from + 1),
        )
    }
}

/// The check of the inventory of SSH hosts.
pub open spec fn inventory_check(hosts: Seq<SshHost>) -> Result<(), Seq<char>> {
    both(hosts_check(hosts, 0), relations_check(hosts, 0))
}

fn validate_inventory(hosts: &Vec<SshHost>) -> (r: Result<(), Error>)
    ensures
        outcome(r) == inventory_check(hosts@),
{
    check_hosts(hosts)?;
    let mut i: usize = 0;
    while i < hosts.len()
        invariant
            i <= hosts.len(),
            inventory_check(hosts@) == relations_check(hosts@, i as int),
        decreases hosts.len() - i,
    {
        match hosts[i].settings() {
            Some(settings) => check_relation(hosts, settings)?,
            None => {},
        }
        i += 1;
    }
    Ok(())
}

// ---- routing ---------------------------------------------------------------------------

/// The check of the credential sources from `from` on.
pub open spec fn keys_check(keys: Seq<(Seq<char>, Seq<char>)>, from: int) -> Result<(), Seq<char>>
    decreases keys.len() - from,
{
    if from < 0 || from >= keys.len() {
        Ok(())
    } else if source_check(keys[from].1) is Err {
        Err("api_keys contains an empty or invalid HTTP header value"@)
    } else {
        keys_check(keys, from + 1)
    }
}

fn check_keys(keys: &Vec<(String, String)>) -> (r: Result<(), Error>)
    ensures
        outcome(r) == keys_check(entries(keys@), 0),
{
    let mut i: usize = 0;
    while i < keys.len()
        invariant
            i <= keys.len(),
            keys_check(entries(keys@), 0) == keys_check(entries(keys@), i as int),
        decreases keys.len() - i,
    {
        if validate_source(keys[i].1.as_str()).is_err() {
            return Err(Error::new("api_keys contains an empty or invalid HTTP header value"));
        }
        i += 1;
    }
    Ok(())
}

/// Whether a key that a rule names exists.
pub open spec fn key_known(key: Option<Seq<char>>, keys: Seq<(Seq<char>, Seq<char>)>) -> bool {
    key matches Some(name) ==> find(keys, name) is Some
}

fn is_key_known(key: &Option<String>, keys: &Vec<(String, String)>) -> (r: bool)
    ensures
        r == key_known(key.deep_view(), entries(keys@)),
{
    match key {
        Some(name) => get_entry(keys, name.as_str()).is_some(),
        None => true,
    }
}

/// The check of the reasoning routes from `from` on.
pub open spec fn routes_check(
    routes: Seq<(Seq<char>, RouteView)>,
    keys: Seq<(Seq<char>, Seq<char>)>,
    from: int,
) -> Result<(), Seq<char>>
    decreases routes.len() - from,
{
    if from < 0 || from >= routes.len() {
        Ok(())
    } else if blank(routes[from].0) || blank(routes[from].1.to) {
        Err("Reasoning route effort and model must be nonempty"@)
    } else if !key_known(routes[from].1.api_key, keys) {
        Err("Reasoning route references an unknown API key project"@)
    } else {
        routes_check(routes, keys, from + 1)
    }
}

fn check_routes(routes: &Vec<(String, ReasoningRoute)>, keys: &Vec<(String, String)>) -> (r: Result<
    (),
    Error,
>)
    ensures
        outcome(r) == routes_check(entries(routes@), entries(keys@), 0),
{
    let mut i: usize = 0;
    while i < routes.len()
        invariant
            i <= routes.len(),
            routes_check(entries(routes@), entries(keys@), 0) == routes_check(
                entries(routes@),
                entries(keys@),
                i as int,
            ),
        decreases routes.len() - i,
    {
        if is_blank(routes[i].0.as_str()) || is_blank(routes[i].1.to.as_str()) {
            return Err(Error::new("Reasoning route effort and model must be nonempty"));
        }
        if !is_key_known(&routes[i].1.api_key, keys) {
            return Err(Error::new("Reasoning route references an unknown API key project"));
        }
        i += 1;
    }
    Ok(())
}

/// Whether one of the first `to` aliases has the source and the shape.
pub open spec fn aliased_before(
    aliases: Seq<AliasView>,
    source: Seq<char>,
    shape: Option<ApiShape>,
    to: int,
) -> bool
    decreases to,
{
    0 < to <= aliases.len() && ((aliases[to - 1].from == source && aliases[to - 1].api_shape
        == shape) || aliased_before(aliases, source, shape, to - 1))
}

fn same_shape(a: Option<ApiShape>, b: Option<ApiShape>) -> (r: bool)
    ensures
        r == (a == b),
{
    match (a, b) {
        (None, None) => true,
        (Some(a), Some(b)) => a == b,
        _ => false,
    }
}

fn is_aliased_before(aliases: &Vec<Alias>, source: &str, shape: Option<ApiShape>, to: usize) -> (r:
    bool)
    requires
        to <= aliases.len(),
    ensures
        r == aliased_before(alias_views(aliases@), source@, shape, to as int),
{
    let mut i: usize = to;
    while i > 0
        invariant
            i <= to <= aliases.len(),
            aliased_before(alias_views(aliases@), source@, shape, to as int) == aliased_before(
                alias_views(aliases@),
                source@,
                shape,
                i as int,
            ),
        decreases i,
    {
        if same(aliases[i - 1].from.as_str(), source) && same_shape(
            aliases[i - 1].api_shape,
            shape,
        ) {
            return true;
        }
        i -= 1;
    }
    false
}

/// Whether a value, where there is one, names something.
pub open spec fn names_something(value: Option<Seq<char>>) -> bool {
    value matches Some(text) ==> !blank(text)
}

fn is_naming(value: &Option<String>) -> (r: bool)
    ensures
        r == names_something(value.deep_view()),
{
    match value {
        Some(text) => !is_blank(text.as_str()),
        None => true,
    }
}

/// The check of the aliases from `from` on.
pub open spec fn aliases_check(
    aliases: Seq<AliasView>,
    keys: Seq<(Seq<char>, Seq<char>)>,
    from: int,
) -> Result<(), Seq<char>>
    decreases aliases.len() - from,
{
    if from < 0 || from >= aliases.len() {
        Ok(())
    } else {
        let alias = aliases[from];
        both(
            both(
                routes_check(alias.reasoning_routes, keys, 0),
                both(
                    ensured(
                        alias.from.len() > 0 && !aliased_before(
                            aliases,
                            alias.from,
                            alias.api_shape,
                            from,
                        ),
                        "Alias source names must be nonempty and unique"@,
                    ),
                    both(
                        ensured(
                            names_something(alias.to) && names_something(alias.reasoning),
                            "Alias model and reasoning values must be nonempty"@,
                        ),
                        ensured(
                            key_known(alias.api_key, keys),
                            "Alias references an unknown API key project"@,
                        ),
                    ),
                ),
            ),
            aliases_check(aliases, keys, from + 1),
        )
    }
}

fn check_aliases(aliases: &Vec<Alias>, keys: &Vec<(String, String)>) -> (r: Result<(), Error>)
    ensures
        outcome(r) == aliases_check(alias_views(aliases@), entries(keys@), 0),
{
    let mut i: usize = 0;
    while i < aliases.len()
        invariant
            i <= aliases.len(),
            aliases_check(alias_views(aliases@), entries(keys@), 0) == aliases_check(
                alias_views(aliases@),
                entries(keys@),
                i as int,
            ),
        decreases aliases.len() - i,
    {
        let alias = &aliases[i];
        check_routes(&alias.reasoning_routes, keys)?;
        ensure(
            !alias.from.as_str().is_empty() && !is_aliased_before(
                aliases,
                alias.from.as_str(),
                alias.api_shape,
                i,
            ),
            "Alias source names must be nonempty and unique",
        )?;
        ensure(
            is_naming(&alias.to) && is_naming(&alias.reasoning),
            "Alias model and reasoning values must be nonempty",
        )?;
        ensure(
            is_key_known(&alias.api_key, keys),
            "Alias references an unknown API key project",
        )?;
        i += 1;
    }
    Ok(())
}

/// The check of the retry settings.
pub open spec fn retry_check(retry: Retry) -> Result<(), Seq<char>> {
    ensured(
        retry.max_retries <= 20 && retry.max_delay_ms <= 300_000 && retry.initial_delay_ms
            <= retry.max_delay_ms && retry.recovery_timeout_ms <= 3_600_000,
        "Retry limits: max_retries <= 20, initial_delay_ms <= max_delay_ms <= 300000, recovery_timeout_ms <= 3600000"@,
    )
}

/// What routing depends on.
pub ghost struct Routing {
    pub fallbacks: Rules,
    pub cache_seconds: u64,
    pub gemini: Option<ProviderConfig>,
    pub url: Seq<char>,
    pub keys: Seq<(Seq<char>, Seq<char>)>,
    pub default: Seq<char>,
    pub aliases: Seq<AliasView>,
    pub retry: Retry,
}

/// The check of the upstream URL.
pub open spec fn upstream_check(url: Seq<char>) -> Result<(), Seq<char>> {
    match url_parsed(url) {
        Err(_) => Err("Invalid upstream_url"@),
        Ok(url) => ensured(
            plain_url(url),
            "upstream_url must be an HTTP(S) URL without credentials, query, or fragment"@,
        ),
    }
}

/// The check of routing.
pub open spec fn routing_check(routing: Routing) -> Result<(), Seq<char>> {
    both(
        both(
            fallbacks_check(routing.fallbacks),
            both(
                ensured(
                    1 <= routing.cache_seconds <= 86400,
                    "OpenAI credential_cache_seconds must be 1..86400"@,
                ),
                match routing.gemini {
                    Some(gemini) => provider_check(gemini),
                    None => Ok(()),
                },
            ),
        ),
        both(
            both(
                upstream_check(routing.url),
                both(
                    keys_check(routing.keys, 0),
                    ensured(
                        find(routing.keys, routing.default) is Some || (routing.keys.len() == 0
                            && routing.default == "default"@),
                        "default.api_key references an unknown project"@,
                    ),
                ),
            ),
            both(aliases_check(routing.aliases, routing.keys, 0), retry_check(routing.retry)),
        ),
    )
}

fn check_upstream(url: &str) -> (r: Result<(), Error>)
    ensures
        outcome(r) == upstream_check(url@),
{
    match parse_url(url) {
        Err(_) => Err(Error::new("Invalid upstream_url")),
        Ok(url) => ensure(
            is_plain_url(&url),
            "upstream_url must be an HTTP(S) URL without credentials, query, or fragment",
        ),
    }
}

fn validate_routing(
    fallbacks: &Fallbacks,
    cache_seconds: u64,
    gemini: &Option<ProviderConfig>,
    url: &str,
    keys: &Vec<(String, String)>,
    default: &str,
    aliases: &Vec<Alias>,
    retry: Retry,
) -> (r: Result<(), Error>)
    ensures
        outcome(r) == routing_check(
            Routing {
                fallbacks: entries(fallbacks@),
                cache_seconds,
                gemini: *gemini,
                url: url@,
                keys: entries(keys@),
                default: default@,
                aliases: alias_views(aliases@),
                retry,
            },
        ),
{
    validate(fallbacks)?;
    ensure(
        1 <= cache_seconds && cache_seconds <= 86400,
        "OpenAI credential_cache_seconds must be 1..86400",
    )?;
    match gemini {
        Some(gemini) => gemini.validate()?,
        None => {},
    }
    check_upstream(url)?;
    check_keys(keys)?;
    ensure(
        get_entry(keys, default).is_some() || (keys.len() == 0 && same(default, "default")),
        "default.api_key references an unknown project",
    )?;
    check_aliases(aliases, keys)?;
    ensure(
        retry.max_retries <= 20 && retry.max_delay_ms <= 300_000 && retry.initial_delay_ms
            <= retry.max_delay_ms && retry.recovery_timeout_ms <= 3_600_000,
        "Retry limits: max_retries <= 20, initial_delay_ms <= max_delay_ms <= 300000, recovery_timeout_ms <= 3600000",
    )
}

/// The routing in force: a client sends everything to its host, which owns the rules and
/// the retries.
pub open spec fn effective_routing(config: Config) -> Routing {
    match (config.mode, config.connection) {
        (Mode::Client, Some(connection)) => Routing {
            fallbacks: Seq::empty(),
            cache_seconds: config.credential_cache_seconds,
            gemini: config.gemini,
            url: trimmed_end(connection.url@, '/'),
            keys: seq![("host"@, connection.api_key@)],
            default: "host"@,
            aliases: Seq::empty(),
            retry: Retry { max_retries: 0, ..config.retry },
        },
        _ => Routing {
            fallbacks: entries(config.fallbacks@),
            cache_seconds: config.credential_cache_seconds,
            gemini: config.gemini,
            url: config.upstream_url@,
            keys: entries(config.api_keys@),
            default: config.default.api_key@,
            aliases: alias_views(config.aliases@),
            retry: config.retry,
        },
    }
}

/// The check of a configuration.
pub open spec fn config_check(config: Config) -> Result<(), Seq<char>> {
    both(
        both(logging_check(config.logging), client_check(config)),
        both(
            inventory_check(config.ssh_hosts@),
            routing_check(effective_routing(config)),
        ),
    )
}

/// Whether one configuration is what another comes to in force: a client sends everything
/// to its host, which owns the rules and the retries.
pub open spec fn in_force(config: Config, r: Config) -> bool {
    if config.mode == Mode::Client && config.connection is Some {
        &&& r == (Config {
            upstream_url: r.upstream_url,
            api_keys: r.api_keys,
            default: r.default,
            aliases: r.aliases,
            fallbacks: r.fallbacks,
            retry: Retry { max_retries: 0, ..config.retry },
            ..config
        })
        &&& r.upstream_url@ == trimmed_end(config.connection->Some_0.url@, '/')
        &&& entries(r.api_keys@) == seq![("host"@, config.connection->Some_0.api_key@)]
        &&& r.default.api_key@ == "host"@
        &&& r.aliases@.len() == 0
        &&& r.fallbacks@.len() == 0
    } else {
        r == config
    }
}

/// What is in force stays in force: bringing a configuration into force twice changes
/// nothing more.
pub proof fn in_force_is_stable(config: Config, once: Config, twice: Config)
    requires
        in_force(config, once),
        in_force(once, twice),
    ensures
        twice.mode == once.mode,
        twice.upstream_url@ == once.upstream_url@,
        entries(twice.api_keys@) == entries(once.api_keys@),
        twice.default.api_key@ == once.default.api_key@,
        alias_views(twice.aliases@) == alias_views(once.aliases@),
        entries(twice.fallbacks@) == entries(once.fallbacks@),
        twice.retry == once.retry,
        twice.gemini == once.gemini,
        twice.logging == once.logging,
{
    assert(alias_views(twice.aliases@) =~= alias_views(once.aliases@));
    assert(entries(twice.fallbacks@) =~= entries(once.fallbacks@));
}

fn host_keys(connection: &ClientConnection) -> (r: Vec<(String, String)>)
    ensures
        entries(r@) == seq![("host"@, connection.api_key@)],
{
    let mut keys: Vec<(String, String)> = Vec::new();
    keys.push(("host".to_string(), connection.api_key.clone()));
    proof {
        assert(entries(keys@) =~= seq![("host"@, connection.api_key@)]);
    }
    keys
}

impl Config {
    /// The alias of a model for requests of a path.
    pub fn alias_for(&self, model: &str, path: &str) -> (r: Option<&Alias>)
        ensures
            r.deep_view() == alias_from(alias_views(self.aliases@), model@, path@, 0),
    {
        find_alias(&self.aliases, model, path)
    }

    /// The address under which this machine reaches the proxy.
    pub fn local_address(&self) -> (r: Address)
        ensures
            r == reached_locally(self.listen),
    {
        self.listen.local()
    }

    /// The configuration in force: a client sends everything to its host.
    pub fn effective(self) -> (r: Config)
        ensures
            in_force(self, r),
    {
        let mut config = self;
        if config.mode == Mode::Client {
            match &config.connection {
                Some(connection) => {
                    let url = trim_end(connection.url.as_str(), '/').to_string();
                    let keys = host_keys(connection);
                    config.upstream_url = url;
                    config.api_keys = keys;
                    config.default = DefaultRoute { api_key: "host".to_string() };
                    config.aliases = Vec::new();
                    config.fallbacks = Vec::new();
                    config.retry.max_retries = 0;
                },
                None => {},
            }
        }
        config
    }

    /// Checks the configuration.
    pub fn validate(&self) -> (r: Result<(), Error>)
        ensures
            outcome(r) == config_check(*self),
    {
        check_logging(&self.logging)?;
        check_client(self)?;
        validate_inventory(&self.ssh_hosts)?;
        if self.mode == Mode::Client {
            match &self.connection {
                Some(connection) => {
                    let keys = host_keys(connection);
                    let retry = Retry {
                        max_retries: 0,
                        initial_delay_ms: self.retry.initial_delay_ms,
                        max_delay_ms: self.retry.max_delay_ms,
                        recovery_timeout_ms: self.retry.recovery_timeout_ms,
                    };
                    let no_rules: Fallbacks = Vec::new();
                    let no_aliases: Vec<Alias> = Vec::new();
                    proof {
                        assert(entries(no_rules@) =~= Seq::empty());
                        assert(alias_views(no_aliases@) =~= Seq::empty());
                    }
                    return validate_routing(
                        &no_rules,
                        self.credential_cache_seconds,
                        &self.gemini,
                        trim_end(connection.url.as_str(), '/'),
                        &keys,
                        "host",
                        &no_aliases,
                        retry,
                    );
                },
                None => {},
            }
        }
        validate_routing(
            &self.fallbacks,
            self.credential_cache_seconds,
            &self.gemini,
            self.upstream_url.as_str(),
            &self.api_keys,
            self.default.api_key.as_str(),
            &self.aliases,
            self.retry,
        )
    }
}

} // verus!

//! The running service: its options, its changes of configuration and its entrance.

use vstd::prelude::*;
use std::sync::Arc;
use crate::config::{in_force, Config, Logging, Mode};
use crate::error::{ensure, ensured, outcome, Error};
use crate::outside::{header_text, is_header_text};
use crate::recovery::{any_target, unbounded_model_wait};
use crate::table::entries;
use crate::text::{join3, same, texts};

verus! {

/// Services that report the caller's address, for either family.
pub struct IpLookup {
    pub v4: Vec<String>,
    pub v6: Vec<String>,
}

/// How the service is set up.
pub struct Options {
    /// The file beside which the access keys stand.
    pub access_config: Option<String>,
    /// The configuration file; later changes of it apply to new requests.
    pub source: Option<String>,
    /// Who is asked for this machine's public address when the upstream rejects it.
    pub ip_lookup: IpLookup,
    /// Unrelated sites that are asked when the upstream cannot be reached, to tell a dead
    /// internet connection from a dead upstream. None disables the check.
    pub connectivity_probes: Vec<String>,
}

fn pair(one: &str, two: &str) -> (r: Vec<String>)
    ensures
        texts(r@) == seq![one@, two@],
{
    let list: Vec<String> = vec![one.to_string(), two.to_string()];
    proof {
        assert(texts(list@) =~= seq![one@, two@]);
    }
    list
}

impl Default for Options {
    fn default() -> (r: Options)
        ensures
            r.access_config is None,
            r.source is None,
            texts(r.ip_lookup.v4@) == seq![
                "https://api.ipify.org"@,
                "https://checkip.amazonaws.com"@,
            ],
            texts(r.ip_lookup.v6@) == seq![
                "https://api6.ipify.org"@,
                "https://ipv6.icanhazip.com"@,
            ],
            texts(r.connectivity_probes@) == seq![
                "https://www.gstatic.com/generate_204"@,
                "https://cp.cloudflare.com/"@,
            ],
    {
        Options {
            access_config: None,
            source: None,
            ip_lookup: IpLookup {
                v4: pair("https://api.ipify.org", "https://checkip.amazonaws.com"),
                v6: pair("https://api6.ipify.org", "https://ipv6.icanhazip.com"),
            },
            connectivity_probes: pair(
                "https://www.gstatic.com/generate_204",
                "https://cp.cloudflare.com/",
            ),
        }
    }
}

/// Checks that a service can start: a host needs a file of access keys.
pub fn check_start(config: &Config, has_access_keys: bool) -> (r: Result<(), Error>)
    ensures
        outcome(r) == (match crate::config::config_check(*config) {
            Err(message) => Err::<(), Seq<char>>(message),
            Ok(_) => ensured(
                config.mode != Mode::Host || has_access_keys,
                "Host mode requires an access key file"@,
            ),
        }),
{
    config.validate()?;
    ensure(
        config.mode != Mode::Host || has_access_keys,
        "Host mode requires an access key file",
    )
}

// ---- changes of configuration --------------------------------------------------------------------

/// What a new configuration changes.
pub struct Reload {
    /// The configuration in force.
    pub config: Config,
    /// Connections must be made anew.
    pub reconnect: bool,
    /// The storage settings changed; they apply after a restart.
    pub logging_changed: bool,
    /// The listening address changed; it applies after a restart.
    pub listen_changed: bool,
}

/// Whether two storage settings are the same.
pub open spec fn logging_agrees(a: Logging, b: Logging) -> bool {
    &&& a.enabled == b.enabled
    &&& a.database.deep_view() == b.database.deep_view()
    &&& a.queue_capacity == b.queue_capacity
    &&& a.batch_size == b.batch_size
    &&& a.flush_interval_ms == b.flush_interval_ms
}

fn is_same_logging(a: &Logging, b: &Logging) -> (r: bool)
    ensures
        r == logging_agrees(*a, *b),
{
    let same_database = match (&a.database, &b.database) {
        (Some(x), Some(y)) => same(x.as_str(), y.as_str()),
        (None, None) => true,
        _ => false,
    };
    a.enabled == b.enabled && same_database && a.queue_capacity == b.queue_capacity
        && a.batch_size == b.batch_size && a.flush_interval_ms == b.flush_interval_ms
}

fn copy_logging(logging: &Logging) -> (r: Logging)
    ensures
        logging_agrees(r, *logging),
{
    let database = match &logging.database {
        Some(path) => Some(path.clone()),
        None => None,
    };
    Logging {
        enabled: logging.enabled,
        database,
        queue_capacity: logging.queue_capacity,
        batch_size: logging.batch_size,
        flush_interval_ms: logging.flush_interval_ms,
    }
}

/// Whether a model may take as long as it likes under a configuration.
pub open spec fn waits_long(config: Config) -> bool {
    config.mode == Mode::Client || any_target(entries(config.fallbacks@), 0)
}

/// Takes a new configuration into force, where it can be without a restart: the mode must
/// stay, and the storage settings do.
pub fn reload(current: &Config, next: Config) -> (r: Result<Reload, Error>)
    ensures
        match r {
            Err(error) => next.mode != current.mode && error.message@
                == "Mode changed; restart the proxy to apply it"@,
            Ok(done) => {
                &&& next.mode == current.mode
                &&& logging_agrees(done.config.logging, current.logging)
                &&& in_force(Config { logging: done.config.logging, ..next }, done.config)
                &&& done.logging_changed == !logging_agrees(next.logging, current.logging)
                &&& done.reconnect == !(next.ip_version == current.ip_version && waits_long(next)
                    == waits_long(*current))
                &&& done.listen_changed == (next.listen != current.listen)
            },
        },
{
    if next.mode != current.mode {
        return Err(Error::new("Mode changed; restart the proxy to apply it"));
    }
    let mut next = next;
    let logging_changed = !is_same_logging(&next.logging, &current.logging);
    if logging_changed {
        next.logging = copy_logging(&current.logging);
    }
    let reconnect = !(next.ip_version == current.ip_version && unbounded_model_wait(
        next.mode,
        &next.fallbacks,
    ) == unbounded_model_wait(current.mode, &current.fallbacks));
    let listen_changed = next.listen != current.listen;
    let config = next.effective();
    Ok(Reload { config, reconnect, logging_changed, listen_changed })
}

/// What tells one state of the configuration file from another.
#[derive(Clone, Copy, Debug, PartialEq, Eq, Structural)]
pub enum Mark {
    /// There is no file that can be seen.
    Missing,
    /// The size of a file whose time of change is not known.
    Undated(u64),
    /// The time of change, in nanoseconds from the Unix epoch, and the size.
    Dated(i128, u64),
}

/// The configuration in force, and the state of the file up to which it was looked at.
pub struct Standing {
    pub config: Arc<Config>,
    pub mark: Mark,
}

/// Whether a configuration takes the place of the one in force, and which it then is.
pub open spec fn follows(current: Config, next: Config, after: Config) -> bool {
    &&& crate::config::config_check(next) is Ok
    &&& next.mode == current.mode
    &&& logging_agrees(after.logging, current.logging)
    &&& in_force(Config { logging: after.logging, ..next }, after)
}

/// Whether what was read of the configuration file is refused while a configuration is in
/// force: it could not be read, it is not valid, or it names another mode.
pub open spec fn refused_edit(current: Config, read: Result<Config, Seq<char>>) -> bool {
    match read {
        Err(_) => true,
        Ok(next) => crate::config::config_check(next) is Err || next.mode != current.mode,
    }
}

/// The step from one standing to the next, given the state of the file, what was read of it,
/// and whether connections could be made anew where the new configuration asks for that.
pub open spec fn steps(
    before: Standing,
    mark: Mark,
    read: Result<Config, Seq<char>>,
    connected: bool,
    after: Standing,
) -> bool {
    if before.mark == mark {
        after == before
    } else {
        &&& after.mark == mark
        &&& if refused_edit(*before.config, read) || !connected {
            after.config == before.config
        } else {
            follows(*before.config, read->Ok_0, *after.config)
        }
    }
}

impl Standing {
    /// Whether the file is to be read again.
    pub fn is_stale(&self, mark: Mark) -> (r: bool)
        ensures
            r == (self.mark != mark),
    {
        self.mark != mark
    }

    /// What a configuration that was read changes, where it can take the place of the one in
    /// force: it must be valid, and keep the mode.
    pub fn consider(&self, read: Result<Config, Error>) -> (r: Result<Reload, Error>)
        ensures
            considered(*self.config, config_read(read), r),
    {
        let next = read?;
        next.validate()?;
        reload(&self.config, next)
    }

    /// The standing after the file was looked at: with the configuration that takes over, or
    /// with the one in force where none does or connections could not be made for it.
    pub fn settle(self, mark: Mark, next: Result<Reload, Error>, connected: bool) -> (r: Standing)
        ensures
            settled_on(self, mark, next, connected, r),
    {
        match next {
            Ok(done) => if connected {
                Standing { config: Arc::new(done.config), mark }
            } else {
                Standing { config: self.config, mark }
            },
            Err(_) => Standing { config: self.config, mark },
        }
    }
}

/// What is said of a configuration that was read while another is in force.
pub open spec fn considered(
    current: Config,
    read: Result<Config, Seq<char>>,
    r: Result<Reload, Error>,
) -> bool {
    match read {
        Err(message) => outcome_is(r, message),
        Ok(next) => match crate::config::config_check(next) {
            Err(message) => outcome_is(r, message),
            Ok(_) => if next.mode != current.mode {
                outcome_is(r, "Mode changed; restart the proxy to apply it"@)
            } else {
                &&& r is Ok
                &&& follows(current, next, r->Ok_0.config)
                &&& r->Ok_0.logging_changed == !logging_agrees(next.logging, current.logging)
                &&& r->Ok_0.reconnect == !(next.ip_version == current.ip_version && waits_long(next)
                    == waits_long(current))
                &&& r->Ok_0.listen_changed == (next.listen != current.listen)
            },
        },
    }
}

/// The standing that a look at the file ends in.
pub open spec fn settled_on(
    before: Standing,
    mark: Mark,
    next: Result<Reload, Error>,
    connected: bool,
    after: Standing,
) -> bool {
    &&& after.mark == mark
    &&& match next {
        Ok(done) if connected => *after.config == done.config,
        _ => after.config == before.config,
    }
}

/// Whether a result is a refusal with a message.
pub open spec fn outcome_is(r: Result<Reload, Error>, message: Seq<char>) -> bool {
    r is Err && r->Err_0.message@ == message
}

/// What was read of a configuration file, or why it could not be.
pub open spec fn config_read(read: Result<Config, Error>) -> Result<Config, Seq<char>> {
    match read {
        Ok(config) => Ok(config),
        Err(error) => Err(error.message@),
    }
}

// ---- the entrance ----------------------------------------------------------------------------------

/// Where a login leads: to the overview where it came from there, else to the dashboard.
pub fn after_login(next: Option<&str>) -> (r: &'static str)
    ensures
        r@ == (if next.deep_view() == Some("/"@) {
            "/"@
        } else {
            "/logs"@
        }),
{
    match next {
        Some(next) => if same(next, "/") {
            "/"
        } else {
            "/logs"
        },
        None => "/logs",
    }
}

/// The cookie of a login.
pub open spec fn cookie_text(key: Seq<char>) -> Seq<char> {
    "hey_proxy_access="@ + key + "; HttpOnly; SameSite=Strict; Path=/"@
}

/// The cookie of a login, where the key can stand in one.
pub fn login_cookie(key: &str) -> (r: Option<String>)
    ensures
        r.deep_view() == (if header_text(cookie_text(key@)) {
            Some(cookie_text(key@))
        } else {
            None
        }),
{
    let text = join3("hey_proxy_access=", key, "; HttpOnly; SameSite=Strict; Path=/");
    if is_header_text(text.as_str()) {
        Some(text)
    } else {
        None
    }
}

/// How long a public address is remembered, in milliseconds.
pub const ADDRESS_AGE_MS: u64 = 60000;

/// Whether a public address that was found so long ago is still good.
pub fn address_is_fresh(age_ms: u64) -> (r: bool)
    ensures
        r == (age_ms < ADDRESS_AGE_MS),
{
    age_ms < ADDRESS_AGE_MS
}

// ---- laws ------------------------------------------------------------------------------------

/// A changed file that is read, considered and settled on is one step.
pub proof fn a_look_is_a_step(
    before: Standing,
    mark: Mark,
    read: Result<Config, Seq<char>>,
    next: Result<Reload, Error>,
    connected: bool,
    after: Standing,
)
    requires
        before.mark != mark,
        considered(*before.config, read, next),
        settled_on(before, mark, next, connected, after),
    ensures
        steps(before, mark, read, connected, after),
{
}

/// Looks at the file, one after the other: its state, what was read, and whether connections
/// could be made.
pub open spec fn runs(
    standings: Seq<Standing>,
    looks: Seq<(Mark, Result<Config, Seq<char>>, bool)>,
) -> bool {
    &&& standings.len() == looks.len() + 1
    &&& forall|i: int|
        0 <= i < looks.len() ==> steps(
            #[trigger] standings[i],
            looks[i].0,
            looks[i].1,
            looks[i].2,
            standings[i + 1],
        )
}

/// Invalid edits leave the last valid configuration in force, however many follow each other.
pub proof fn invalid_edits_are_ignored(
    standings: Seq<Standing>,
    looks: Seq<(Mark, Result<Config, Seq<char>>, bool)>,
    at: int,
)
    requires
        runs(standings, looks),
        0 <= at <= looks.len(),
        forall|i: int|
            0 <= i < at ==> refused_edit(*standings[0].config, (#[trigger] looks[i]).1),
    ensures
        standings[at].config == standings[0].config,
    decreases at,
{
    if at > 0 {
        invalid_edits_are_ignored(standings, looks, at - 1);
        assert(refused_edit(*standings[0].config, looks[at - 1].1));
        assert(steps(
            standings[at - 1],
            looks[at - 1].0,
            looks[at - 1].1,
            looks[at - 1].2,
            standings[at],
        ));
    }
}

/// An edit that is looked at while the file has not changed again is not looked at twice.
pub proof fn unchanged_files_are_not_read_again(
    before: Standing,
    mark: Mark,
    read: Result<Config, Seq<char>>,
    connected: bool,
    after: Standing,
    again: Result<Config, Seq<char>>,
    later: Standing,
)
    requires
        steps(before, mark, read, connected, after),
        steps(after, mark, again, connected, later),
    ensures
        later == after,
{
}

/// A valid edit that keeps the mode is in force with the next look, with the storage settings
/// of before.
pub proof fn valid_edits_take_over(
    before: Standing,
    mark: Mark,
    next: Config,
    after: Standing,
)
    requires
        before.mark != mark,
        crate::config::config_check(next) is Ok,
        next.mode == before.config.mode,
        steps(before, mark, Ok(next), true, after),
    ensures
        in_force(Config { logging: after.config.logging, ..next }, *after.config),
        logging_agrees(after.config.logging, before.config.logging),
        after.mark == mark,
{
}

} // verus!

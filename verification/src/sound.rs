//! What a configuration has to keep to.

use vstd::prelude::*;
use crate::address::loopback;
use crate::config::{
    aliased_before, aliases_check, config_check, effective_routing, hosts_check, host_name,
    keys_check, logging_check, named_before, retry_check, root_url_check, routes_check,
    upstream_check, AliasView, Config, Logging, Mode, Retry, RouteView, SshHost,
};
use crate::credentials::source_check;
use crate::outside::url_parsed;
use crate::table::find;
use crate::text::{after, blank, occurs};

verus! {

/// Retries keep within their limits: twenty of them, five minutes between two, and an hour in
/// all.
pub proof fn retries_are_limited(retry: Retry)
    ensures
        retry_check(retry) is Ok <==> retry.max_retries <= 20 && retry.max_delay_ms <= 300_000
            && retry.initial_delay_ms <= retry.max_delay_ms && retry.recovery_timeout_ms
            <= 3_600_000,
{
}

/// The log keeps within its limits.
pub proof fn logs_are_limited(logging: Logging)
    ensures
        logging_check(logging) is Ok <==> {
            &&& 128 <= logging.queue_capacity <= 1_048_576
            &&& 1 <= logging.batch_size <= 4096
            &&& logging.batch_size <= logging.queue_capacity
            &&& 10 <= logging.flush_interval_ms <= 5000
            &&& logging.database is Some ==> !blank(logging.database->Some_0@)
        },
{
}

/// A service is reached over HTTP or HTTPS, at a URL without credentials, query or fragment; a
/// host at the root of its server.
pub proof fn urls_are_plain(url: Seq<char>)
    ensures
        upstream_check(url) is Ok <==> (url_parsed(url) matches Ok(parts) && (parts.scheme
            == "http"@ || parts.scheme == "https"@) && parts.host is Some && parts.username.len()
            == 0 && parts.password is None && parts.query is None && parts.fragment is None),
        root_url_check(url) is Ok <==> (url_parsed(url) matches Ok(parts) && (parts.scheme
            == "http"@ || parts.scheme == "https"@) && parts.host is Some && parts.username.len()
            == 0 && parts.password is None && parts.query is None && parts.fragment is None
            && parts.path == "/"@),
{
}

proof fn keys_hold(keys: Seq<(Seq<char>, Seq<char>)>, from: int, k: int)
    requires
        0 <= from <= k < keys.len(),
        keys_check(keys, from) is Ok,
    ensures
        source_check(keys[k].1) is Ok,
    decreases k - from,
{
    if from < k {
        keys_hold(keys, from + 1, k);
    }
}

proof fn routes_hold(
    routes: Seq<(Seq<char>, RouteView)>,
    keys: Seq<(Seq<char>, Seq<char>)>,
    from: int,
    k: int,
)
    requires
        0 <= from <= k < routes.len(),
        routes_check(routes, keys, from) is Ok,
    ensures
        !blank(routes[k].0),
        !blank(routes[k].1.to),
        routes[k].1.api_key is Some ==> find(keys, routes[k].1.api_key->Some_0) is Some,
    decreases k - from,
{
    if from < k {
        routes_hold(routes, keys, from + 1, k);
    }
}

proof fn earlier_aliases_differ(
    aliases: Seq<AliasView>,
    alias: AliasView,
    to: int,
    k: int,
)
    requires
        0 <= k < to <= aliases.len(),
        !aliased_before(aliases, alias.from, alias.api_shape, to),
    ensures
        aliases[k].from != alias.from || aliases[k].api_shape != alias.api_shape,
    decreases to,
{
    if k < to - 1 {
        earlier_aliases_differ(aliases, alias, to - 1, k);
    }
}

proof fn aliases_hold(
    aliases: Seq<AliasView>,
    keys: Seq<(Seq<char>, Seq<char>)>,
    from: int,
    k: int,
)
    requires
        0 <= from <= k < aliases.len(),
        aliases_check(aliases, keys, from) is Ok,
    ensures
        ({
            let alias = aliases[k];
            &&& alias.from.len() > 0
            &&& !aliased_before(aliases, alias.from, alias.api_shape, k)
            &&& alias.to is Some ==> !blank(alias.to->Some_0)
            &&& alias.reasoning is Some ==> !blank(alias.reasoning->Some_0)
            &&& alias.api_key is Some ==> find(keys, alias.api_key->Some_0) is Some
            &&& routes_check(alias.reasoning_routes, keys, 0) is Ok
        }),
    decreases k - from,
{
    if from < k {
        aliases_hold(aliases, keys, from + 1, k);
    }
}

/// The rules of an accepted configuration name something: each has a source that no other rule
/// for the same API has, targets that are not blank, and keys that are configured.
pub proof fn accepted_rules_are_sound(config: Config, k: int, j: int, r: int)
    requires
        config_check(config) is Ok,
        config.mode != Mode::Client,
        0 <= k < effective_routing(config).aliases.len(),
    ensures
        ({
            let aliases = crate::config::alias_views(config.aliases@);
            let keys = crate::table::entries(config.api_keys@);
            let alias = aliases[k];
            &&& alias.from.len() > 0
            &&& 0 <= j < k ==> aliases[j].from != alias.from || aliases[j].api_shape
                != alias.api_shape
            &&& alias.to is Some ==> !blank(alias.to->Some_0)
            &&& alias.reasoning is Some ==> !blank(alias.reasoning->Some_0)
            &&& alias.api_key is Some ==> find(keys, alias.api_key->Some_0) is Some
            &&& 0 <= r < alias.reasoning_routes.len() ==> {
                let route = alias.reasoning_routes[r];
                &&& !blank(route.0)
                &&& !blank(route.1.to)
                &&& route.1.api_key is Some ==> find(keys, route.1.api_key->Some_0) is Some
            }
        }),
{
    let routing = effective_routing(config);
    aliases_hold(routing.aliases, routing.keys, 0, k);
    if 0 <= j < k {
        earlier_aliases_differ(routing.aliases, routing.aliases[k], k, j);
    }
    let alias = routing.aliases[k];
    if 0 <= r < alias.reasoning_routes.len() {
        routes_hold(alias.reasoning_routes, routing.keys, 0, r);
    }
}

/// An accepted configuration keeps to every limit: its keys can be read, its default key is one
/// of them, its upstream is a plain URL, and its credentials are read again within a day.
pub proof fn accepted_configs_are_sound(config: Config, k: int)
    requires
        config_check(config) is Ok,
        config.mode != Mode::Client,
    ensures
        ({
            let keys = crate::table::entries(config.api_keys@);
            &&& config.connection is None
            &&& 1 <= config.credential_cache_seconds <= 86400
            &&& retry_check(config.retry) is Ok
            &&& logging_check(config.logging) is Ok
            &&& upstream_check(config.upstream_url@) is Ok
            &&& 0 <= k < keys.len() ==> source_check(keys[k].1) is Ok
            &&& find(keys, config.default.api_key@) is Some || (keys.len() == 0
                && config.default.api_key@ == "default"@)
            &&& crate::fallback::fallbacks_check(crate::table::entries(config.fallbacks@)) is Ok
        }),
{
    let routing = effective_routing(config);
    if 0 <= k < routing.keys.len() {
        keys_hold(routing.keys, 0, k);
    }
}

/// A client listens for itself alone, has a host to go to and a key for it, and none of what only
/// a host needs.
pub proof fn clients_only_relay(config: Config)
    requires
        config_check(config) is Ok,
        config.mode == Mode::Client,
    ensures
        loopback(config.listen.ip),
        config.connection is Some,
        root_url_check(config.connection->Some_0.url@) is Ok,
        config.connection->Some_0.api_key@.len() > 0,
        config.api_keys@.len() == 0,
        config.aliases@.len() == 0,
        config.fallbacks@.len() == 0,
        config.gemini is None,
{
}

proof fn earlier_hosts_differ(hosts: Seq<SshHost>, name: Seq<char>, to: int, k: int)
    requires
        0 <= k < to <= hosts.len(),
        !named_before(hosts, name, to),
    ensures
        host_name(hosts[k]) != name,
    decreases to,
{
    if k < to - 1 {
        earlier_hosts_differ(hosts, name, to - 1, k);
    }
}

proof fn hosts_hold(hosts: Seq<SshHost>, from: int, k: int)
    requires
        0 <= from <= k < hosts.len(),
        hosts_check(hosts, from) is Ok,
    ensures
        !named_before(hosts, host_name(hosts[k]), k),
        host_name(hosts[k]).len() > 0,
        host_name(hosts[k])[0] != '-',
    decreases k - from,
{
    if from < k {
        hosts_hold(hosts, from + 1, k);
    }
}

/// No two hosts of an accepted configuration share a name, and none has a name that could be
/// taken for an option.
pub proof fn hosts_are_told_apart(config: Config, j: int, k: int)
    requires
        config_check(config) is Ok,
        0 <= k < config.ssh_hosts@.len(),
    ensures
        host_name(config.ssh_hosts@[k]).len() > 0,
        host_name(config.ssh_hosts@[k])[0] != '-',
        0 <= j < k ==> host_name(config.ssh_hosts@[j]) != host_name(config.ssh_hosts@[k]),
{
    hosts_hold(config.ssh_hosts@, 0, k);
    if 0 <= j < k {
        earlier_hosts_differ(config.ssh_hosts@, host_name(config.ssh_hosts@[k]), k, j);
    }
}

/// A credential is a command of the shell, a reference to a vault, or a key that can stand in a
/// header; no other scheme is taken for a key.
pub proof fn sources_are_these(text: Seq<char>)
    ensures
        source_check("sh://"@ + text) is Ok <==> !blank(text) && !text.contains('\0'),
        after(text, "sh://"@) is None && after(text, "op://"@) is None && occurs("://"@, text)
            ==> source_check(text) is Err,
        !occurs("://"@, text) && source_check(text) is Ok ==> !blank(text),
{
    let shell = "sh://"@ + text;
    let n = "sh://"@.len() as int;
    assert(shell.subrange(0, n) =~= "sh://"@);
    assert(shell.subrange(n, shell.len() as int) =~= text);
    assert(after(shell, "sh://"@) == Some(text));
    if !occurs("://"@, text) {
        reveal_strlit("://");
        reveal_strlit("sh://");
        reveal_strlit("op://");
        if after(text, "sh://"@) is Some {
            assert("sh://"@.is_prefix_of(text));
            assert(text.subrange(2, 5) =~= "://"@) by {
                assert(text.subrange(0, 5) =~= "sh://"@);
                assert(forall|i: int| 0 <= i < 5 ==> text[i] == text.subrange(0, 5)[i]);
            }
            assert(text.subrange(2, 2 + "://"@.len() as int) == "://"@);
        }
        if after(text, "op://"@) is Some {
            assert("op://"@.is_prefix_of(text));
            assert(text.subrange(2, 5) =~= "://"@) by {
                assert(text.subrange(0, 5) =~= "op://"@);
                assert(forall|i: int| 0 <= i < 5 ==> text[i] == text.subrange(0, 5)[i]);
            }
            assert(text.subrange(2, 2 + "://"@.len() as int) == "://"@);
        }
    }
}

} // verus!

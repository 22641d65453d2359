//! Which models a client is shown, and which keys open a host.

use vstd::prelude::*;
use crate::access::{client_key, enrolled};
use crate::config::{alias_from, shape_fits, AliasView, RouteView};
use crate::fallback::Rules;
use crate::gemini::conversation::list_of;
use crate::members::member_laws;
use crate::names::{including, name_place};
use crate::overview::{
    destinations_of, effort_routes, listed, model_entry, model_routes, models_of, reachable,
    route_entry, with_alias, with_aliases, with_names, with_routes, with_rules, with_sources, Shown,
};
use crate::table::{find, put_then_find};
use crate::tree::Tree;

verus! {

// ---- names ----------------------------------------------------------------------------------

proof fn places_are_inside(names: Seq<Seq<char>>, name: Seq<char>, from: int)
    requires
        0 <= from <= names.len(),
    ensures
        from <= name_place(names, name, from) <= names.len(),
    decreases names.len() - from,
{
    if from < names.len() && name_place(names, name, from) != from {
        places_are_inside(names, name, from + 1);
    }
}

proof fn including_holds(names: Seq<Seq<char>>, name: Seq<char>)
    ensures
        including(names, name).contains(name),
        forall|other: Seq<char>|
            #![trigger names.contains(other)]
            names.contains(other) ==> including(names, name).contains(other),
{
    places_are_inside(names, name, 0);
    let at = name_place(names, name, 0);
    let after = including(names, name);
    if at < names.len() && names[at] == name {
    } else {
        assert(after[at] == name);
        assert forall|other: Seq<char>| names.contains(other) implies after.contains(other) by {
            let k = choose|k: int| 0 <= k < names.len() && names[k] == other;
            if k < at {
                assert(after[k] == other);
            } else {
                assert(after[k + 1] == other);
            }
        }
    }
}

proof fn routes_are_named(routes: Seq<(Seq<char>, RouteView)>, from: int, names: Seq<Seq<char>>)
    requires
        0 <= from,
    ensures
        forall|other: Seq<char>|
            #![trigger names.contains(other)]
            names.contains(other) ==> with_routes(routes, from, names).contains(other),
        forall|k: int|
            from <= k < routes.len() ==> with_routes(routes, from, names).contains(
                (#[trigger] routes[k]).1.to,
            ),
    decreases routes.len() - from,
{
    if from < routes.len() {
        including_holds(names, routes[from].1.to);
        routes_are_named(routes, from + 1, including(names, routes[from].1.to));
    }
}

proof fn aliases_are_named(aliases: Seq<AliasView>, from: int, names: Seq<Seq<char>>)
    requires
        0 <= from,
    ensures
        forall|other: Seq<char>|
            #![trigger names.contains(other)]
            names.contains(other) ==> with_aliases(aliases, from, names).contains(other),
        forall|k: int|
            from <= k < aliases.len() && (#[trigger] aliases[k]).to is Some ==> with_aliases(
                aliases,
                from,
                names,
            ).contains(aliases[k].to->Some_0),
        forall|k: int, r: int|
            #![trigger aliases[k].reasoning_routes[r]]
            from <= k < aliases.len() && 0 <= r < aliases[k].reasoning_routes.len()
                ==> with_aliases(aliases, from, names).contains(
                aliases[k].reasoning_routes[r].1.to,
            ),
    decreases aliases.len() - from,
{
    if from < aliases.len() {
        let alias = aliases[from];
        let first = match alias.to {
            Some(to) => including(names, to),
            None => names,
        };
        if let Some(to) = alias.to {
            including_holds(names, to);
        }
        routes_are_named(alias.reasoning_routes, 0, first);
        let next = with_alias(alias, names);
        aliases_are_named(aliases, from + 1, next);
        let all = with_aliases(aliases, from, names);
        assert forall|k: int| from <= k < aliases.len() && (
        #[trigger] aliases[k]).to is Some implies all.contains(aliases[k].to->Some_0) by {
            if k == from {
                assert(first.contains(alias.to->Some_0));
                assert(next.contains(alias.to->Some_0));
            }
        }
        assert forall|k: int, r: int|
            #![trigger aliases[k].reasoning_routes[r]]
            from <= k < aliases.len() && 0 <= r
                < aliases[k].reasoning_routes.len() implies all.contains(
            aliases[k].reasoning_routes[r].1.to,
        ) by {
            if k == from {
                assert(next.contains(alias.reasoning_routes[r].1.to));
            }
        }
        assert forall|other: Seq<char>|
            #![trigger names.contains(other)]
            names.contains(other) implies all.contains(other) by {
            assert(first.contains(other));
            assert(next.contains(other));
        }
    }
}

proof fn more_are_named(more: Seq<Seq<char>>, from: int, names: Seq<Seq<char>>)
    requires
        0 <= from,
    ensures
        forall|other: Seq<char>|
            #![trigger names.contains(other)]
            names.contains(other) ==> with_names(more, from, names).contains(other),
        forall|k: int|
            from <= k < more.len() ==> with_names(more, from, names).contains(#[trigger] more[k]),
    decreases more.len() - from,
{
    if from < more.len() {
        including_holds(names, more[from]);
        more_are_named(more, from + 1, including(names, more[from]));
    }
}

proof fn rules_are_named(rules: Rules, from: int, names: Seq<Seq<char>>)
    requires
        0 <= from,
    ensures
        forall|other: Seq<char>|
            #![trigger names.contains(other)]
            names.contains(other) ==> with_rules(rules, from, names).contains(other),
        forall|k: int|
            from <= k < rules.len() ==> with_rules(rules, from, names).contains(
                (#[trigger] rules[k]).0,
            ),
        forall|k: int, t: int|
            #![trigger rules[k].1[t]]
            from <= k < rules.len() && 0 <= t < rules[k].1.len() ==> with_rules(
                rules,
                from,
                names,
            ).contains(rules[k].1[t]),
    decreases rules.len() - from,
{
    if from < rules.len() {
        including_holds(names, rules[from].0);
        let first = including(names, rules[from].0);
        more_are_named(rules[from].1, 0, first);
        let next = with_names(rules[from].1, 0, first);
        rules_are_named(rules, from + 1, next);
        let all = with_rules(rules, from, names);
        assert forall|other: Seq<char>|
            #![trigger names.contains(other)]
            names.contains(other) implies all.contains(other) by {
            assert(first.contains(other));
            assert(next.contains(other));
        }
        assert forall|k: int| from <= k < rules.len() implies all.contains(
            (#[trigger] rules[k]).0,
        ) by {
            if k == from {
                assert(next.contains(rules[from].0));
            }
        }
        assert forall|k: int, t: int|
            #![trigger rules[k].1[t]]
            from <= k < rules.len() && 0 <= t < rules[k].1.len() implies all.contains(
            rules[k].1[t],
        ) by {
            if k == from {
                assert(next.contains(rules[from].1[t]));
            }
        }
    }
}

proof fn sources_are_named(aliases: Seq<AliasView>, path: Seq<char>, from: int, names: Seq<Seq<char>>)
    requires
        0 <= from,
    ensures
        forall|other: Seq<char>|
            #![trigger names.contains(other)]
            names.contains(other) ==> with_sources(
                aliases,
                path,
                from,
                names,
            ).contains(other),
        forall|k: int|
            from <= k < aliases.len() && shape_fits((#[trigger] aliases[k]).api_shape, path)
                ==> with_sources(aliases, path, from, names).contains(aliases[k].from),
    decreases aliases.len() - from,
{
    if from < aliases.len() {
        including_holds(names, aliases[from].from);
        sources_are_named(
            aliases,
            path,
            from + 1,
            if shape_fits(aliases[from].api_shape, path) {
                including(names, aliases[from].from)
            } else {
                names
            },
        );
    }
}

// ---- models ---------------------------------------------------------------------------------

proof fn listing_keeps(
    shown: Shown,
    path: Seq<char>,
    gemini: bool,
    names: Seq<Seq<char>>,
    from: int,
    found: Seq<Tree>,
)
    requires
        0 <= from,
    ensures
        ({
            let all = listed(shown, path, gemini, names, from, found);
            &&& forall|e: Tree| #![trigger found.contains(e)] found.contains(e) ==> all.contains(e)
            &&& forall|k: int|
                from <= k < names.len() && model_routes(
                    shown,
                    path,
                    gemini,
                    #[trigger] names[k],
                ).len() > 0 ==> all.contains(
                    model_entry(names[k], model_routes(shown, path, gemini, names[k])),
                )
        }),
    decreases names.len() - from,
{
    if from < names.len() {
        let routes = model_routes(shown, path, gemini, names[from]);
        let entry = model_entry(names[from], routes);
        let next = if routes.len() > 0 {
            found.push(entry)
        } else {
            found
        };
        assert forall|e: Tree| #![trigger found.contains(e)] found.contains(e) implies next.contains(e) by {
            let k = choose|k: int| 0 <= k < found.len() && found[k] == e;
            assert(next[k] == e);
        }
        listing_keeps(shown, path, gemini, names, from + 1, next);
        if routes.len() > 0 {
            assert(next[found.len() as int] == entry);
            assert(next.contains(entry));
        }
    }
}

proof fn first_routes_stay(
    shown: Shown,
    gemini: bool,
    routes: Seq<(Seq<char>, RouteView)>,
    from: int,
    found: Seq<Tree>,
)
    requires
        0 <= from,
    ensures
        effort_routes(shown, gemini, routes, from, found).len() >= found.len(),
        forall|i: int|
            0 <= i < found.len() ==> effort_routes(shown, gemini, routes, from, found)[i]
                == found[i],
    decreases routes.len() - from,
{
    if from < routes.len() {
        let next = if reachable(shown, gemini, routes[from].1.to) {
            found.push(route_entry(routes[from].1.to, "Reasoning: "@ + routes[from].0))
        } else {
            found
        };
        first_routes_stay(shown, gemini, routes, from + 1, next);
        let all = effort_routes(shown, gemini, routes, from, found);
        assert(all == effort_routes(shown, gemini, routes, from + 1, next));
        assert forall|i: int| 0 <= i < found.len() implies all[i] == found[i] by {
            assert(all[i] == next[i]);
        }
    }
}

/// A model that the configuration can reach is shown, with where it leads: itself, or where the
/// alias of its name leads. A model of the native provider is reached where that provider is
/// configured and the API can serve it, and any other where there are keys for it.
pub proof fn reachable_models_are_shown(shown: Shown, path: Seq<char>, gemini: bool, name: Seq<char>)
    requires
        with_sources(shown.aliases, path, 0, destinations_of(shown)).contains(name),
        ({
            let alias = alias_from(shown.aliases, name, path, 0);
            let target = if alias is Some && alias->Some_0.to is Some {
                alias->Some_0.to->Some_0
            } else {
                name
            };
            if "gemini/"@.is_prefix_of(target) {
                gemini && shown.gemini
            } else {
                shown.keys
            }
        }),
    ensures
        ({
            let alias = alias_from(shown.aliases, name, path, 0);
            let target = if alias is Some && alias->Some_0.to is Some {
                alias->Some_0.to->Some_0
            } else {
                name
            };
            exists|entry: Tree| #[trigger]
                models_of(shown, path, gemini).contains(entry) && entry.at("id"@) == Tree::Text(
                    name,
                ) && list_of(entry.at("routes"@)).len() > 0 && list_of(entry.at("routes"@))[0].at(
                    "target"@,
                ) == Tree::Text(target)
        }),
{
    broadcast use member_laws;

    assert("id"@ != "routes"@ && "target"@ != "when"@) by {
        reveal_strlit("id");
        reveal_strlit("routes");
        reveal_strlit("target");
        reveal_strlit("when");
        assert("id"@.len() == 2);
        assert("routes"@.len() == 6);
        assert("target"@.len() == 6);
        assert("when"@.len() == 4);
        assert("routes"@[0] == 'r');
        assert("target"@[0] == 't');
    }
    let names = with_sources(shown.aliases, path, 0, destinations_of(shown));
    let k = choose|k: int| 0 <= k < names.len() && names[k] == name;
    listing_keeps(shown, path, gemini, names, 0, Seq::empty());
    let routes = model_routes(shown, path, gemini, name);
    let alias = alias_from(shown.aliases, name, path, 0);
    let target = if alias is Some && alias->Some_0.to is Some {
        alias->Some_0.to->Some_0
    } else {
        name
    };
    let when = if alias matches Some(alias) && alias.reasoning_routes.len() > 0 {
        "Default"@
    } else {
        ""@
    };
    let first = seq![route_entry(target, when)];
    if let Some(alias) = alias {
        first_routes_stay(shown, gemini, alias.reasoning_routes, 0, first);
    }
    assert(routes.len() > 0);
    assert(routes[0] == first[0]);
    assert(first[0].at("target"@) == Tree::Text(target));
    let entry = model_entry(name, routes);
    assert(entry.at("id"@) == Tree::Text(name));
    assert(entry.at("routes"@) == Tree::Array(routes));
    assert(models_of(shown, path, gemini).contains(model_entry(names[k], routes)));
}

/// The models that are considered are all that the configuration names: where aliases lead, for
/// every effort, the sources and targets of fallbacks, and the sources of the aliases of the API.
pub proof fn named_models_are_considered(shown: Shown, path: Seq<char>, k: int, r: int)
    ensures
        ({
            let names = with_sources(shown.aliases, path, 0, destinations_of(shown));
            &&& 0 <= k < shown.aliases.len() && shown.aliases[k].to is Some ==> names.contains(
                shown.aliases[k].to->Some_0,
            )
            &&& 0 <= k < shown.aliases.len() && 0 <= r < shown.aliases[k].reasoning_routes.len()
                ==> names.contains(shown.aliases[k].reasoning_routes[r].1.to)
            &&& 0 <= k < shown.aliases.len() && shape_fits(shown.aliases[k].api_shape, path)
                ==> names.contains(shown.aliases[k].from)
            &&& 0 <= k < shown.fallbacks.len() ==> names.contains(shown.fallbacks[k].0)
            &&& 0 <= k < shown.fallbacks.len() && 0 <= r < shown.fallbacks[k].1.len()
                ==> names.contains(shown.fallbacks[k].1[r])
        }),
{
    let first = with_aliases(shown.aliases, 0, Seq::empty());
    aliases_are_named(shown.aliases, 0, Seq::empty());
    rules_are_named(shown.fallbacks, 0, first);
    let middle = destinations_of(shown);
    sources_are_named(shown.aliases, path, 0, middle);
    let names = with_sources(shown.aliases, path, 0, middle);
    if 0 <= k < shown.aliases.len() && shown.aliases[k].to is Some {
        assert(first.contains(shown.aliases[k].to->Some_0));
        assert(middle.contains(shown.aliases[k].to->Some_0));
    }
    if 0 <= k < shown.aliases.len() && 0 <= r < shown.aliases[k].reasoning_routes.len() {
        let to = shown.aliases[k].reasoning_routes[r].1.to;
        assert(first.contains(to));
        assert(middle.contains(to));
    }
    if 0 <= k < shown.fallbacks.len() {
        assert(middle.contains(shown.fallbacks[k].0));
        if 0 <= r < shown.fallbacks[k].1.len() {
            assert(middle.contains(shown.fallbacks[k].1[r]));
        }
    }
}

// ---- keys -----------------------------------------------------------------------------------

proof fn keys_are_looked_up(clients: Seq<(Seq<char>, Seq<char>)>, value: Seq<char>, from: int)
    requires
        0 <= from,
    ensures
        client_key(clients, value, from) <==> exists|k: int|
            from <= k < clients.len() && (#[trigger] clients[k]).1 == value,
    decreases clients.len() - from,
{
    if from < clients.len() {
        keys_are_looked_up(clients, value, from + 1);
        if clients[from].1 == value {
            assert(clients[from].1 == value);
        }
    }
}

/// A key opens a host exactly where it is that of one of its clients, whichever that is.
pub proof fn clients_open_with_their_keys(clients: Seq<(Seq<char>, Seq<char>)>, value: Seq<char>)
    ensures
        client_key(clients, value, 0) <==> exists|k: int|
            0 <= k < clients.len() && (#[trigger] clients[k]).1 == value,
{
    keys_are_looked_up(clients, value, 0);
}

/// A client that is enrolled first gets the first fresh key, and one that is known keeps its own;
/// a client without a name is refused.
pub proof fn enrolled_clients_get_fresh_keys(
    keys: Seq<(Seq<char>, Seq<char>)>,
    name: Seq<char>,
    fresh: Seq<Seq<char>>,
)
    ensures
        name.len() == 0 ==> enrolled(keys, seq![name], 0, fresh, 0) is Err,
        name.len() > 0 && find(keys, name) is None && fresh.len() > 0 ==> (enrolled(
            keys,
            seq![name],
            0,
            fresh,
            0,
        ) matches Ok((after, used)) && find(after, name) == Some(fresh[0]) && used == 1),
        name.len() > 0 && find(keys, name) is Some ==> enrolled(keys, seq![name], 0, fresh, 0)
            == Ok::<(Seq<(Seq<char>, Seq<char>)>, int), Seq<char>>((keys, 0)),
{
    reveal_with_fuel(enrolled, 3);
    if fresh.len() > 0 {
        put_then_find(keys, name, fresh[0]);
    }
}

} // verus!

//! Ordered model fallbacks and a conservative, provider-independent failure policy.
//! No HTTP client, credentials, sleeps, or global state live in this module.

use vstd::prelude::*;
use vstd::utf8::encode_utf8;
use crate::error::{outcome, Error};
use crate::exchange::{parse, parsed};
use crate::gemini::conversation::list_of;
use crate::gemini::tools::inner_items_are_smaller;
use crate::sse::{data_value, read_data, CR, LF};
use crate::table::{entries, find, find_from, get_entry};
use crate::text::{
    after, chars_of, contains, control, is_control, is_white, join2, lowered, occurs, same,
    strip_prefix, to_lower, white,
};
use crate::tree::{json_views, trees, Json, Tree};

verus! {

broadcast use json_views;

/// Fallback targets by upstream model, in the order of the models.
pub type Fallbacks = Vec<(String, Vec<String>)>;

/// How many models a request may be tried on.
pub const MAX_ATTEMPTS: usize = 16;

/// The view of fallback rules.
pub type Rules = Seq<(Seq<char>, Seq<Seq<char>>)>;

/// The name under which rules identify a model: `openai/` is optional.
pub open spec fn plain_name(model: Seq<char>) -> Seq<char> {
    match after(model, "openai/"@) {
        Some(rest) => rest,
        None => model,
    }
}

/// Config keys identify the rewritten upstream model; `openai/` is optional.
pub fn canonical(model: &str) -> (r: &str)
    ensures
        r@ == plain_name(model@),
{
    match strip_prefix(model, "openai/") {
        Some(rest) => rest,
        None => model,
    }
}

/// The fallback targets of a model.
pub open spec fn targets_of(rules: Rules, model: Seq<char>) -> Seq<Seq<char>> {
    match find(rules, plain_name(model)) {
        Some(list) => list,
        None => match find(rules, "openai/"@ + plain_name(model)) {
            Some(list) => list,
            None => Seq::empty(),
        },
    }
}

/// The fallback targets of a model.
pub fn targets<'a>(fallbacks: &'a Fallbacks, model: &str) -> (r: &'a [String])
    ensures
        r.deep_view() == targets_of(entries(fallbacks@), model@),
{
    let model = canonical(model);
    match get_entry(fallbacks, model) {
        Some(list) => {
            let slice = list.as_slice();
            proof {
                assert(slice.deep_view() =~= list.deep_view());
            }
            slice
        },
        None => {
            let prefixed = join2("openai/", model);
            match get_entry(fallbacks, prefixed.as_str()) {
                Some(list) => {
                    let slice = list.as_slice();
                    proof {
                        assert(slice.deep_view() =~= list.deep_view());
                    }
                    slice
                },
                None => {
                    let none: &'a [String] = &[];
                    proof {
                        assert(none.deep_view() =~= Seq::<Seq<char>>::empty());
                    }
                    none
                },
            }
        },
    }
}

/// Whether a name can stand for a model in a rule.
pub open spec fn good_name(name: Seq<char>) -> bool {
    name.len() > 0 && plain_name(name).len() > 0 && encode_utf8(name).len() <= 256 && forall|
        i: int,
    |
        0 <= i < name.len() ==> !white(#[trigger] name[i]) && !control(name[i])
}

/// Whether a name can stand for a model in a rule.
pub fn valid_name(name: &str) -> (r: bool)
    ensures
        r == good_name(name@),
{
    if name.is_empty() || canonical(name).is_empty() || name.as_bytes().len() > 256 {
        return false;
    }
    let chars = chars_of(name);
    let mut i: usize = 0;
    while i < chars.len()
        invariant
            i <= chars.len(),
            chars@ == name@,
            forall|k: int| 0 <= k < i ==> !white(#[trigger] name@[k]) && !control(name@[k]),
        decreases chars.len() - i,
    {
        if is_white(chars[i]) || is_control(chars[i]) {
            assert(white(name@[i as int]) || control(name@[i as int]));
            return false;
        }
        i += 1;
    }
    true
}

// ---- chains -------------------------------------------------------------------------

/// The length of the longest chain from each model that was followed.
pub type Depths = Seq<(Seq<char>, usize)>;

/// Follows the chains from a model: their greatest length, and the lengths found.
pub open spec fn visited(rules: Rules, name: Seq<char>, active: Seq<Seq<char>>, depths: Depths) -> Result<
    (nat, Depths),
    Seq<char>,
>
    decreases MAX_ATTEMPTS + 1 - active.len(), 0nat, 0nat,
{
    let key = plain_name(name);
    match find(depths, key) {
        Some(depth) => Ok((depth as nat, depths)),
        None => if active.contains(key) {
            Err("Fallback cycle at "@ + key)
        } else if active.len() + 1 > MAX_ATTEMPTS {
            Err("Fallback chain exceeds 16 models"@)
        } else {
            match visited_all(rules, targets_of(rules, key), 0, active.push(key), depths, 1) {
                Err(message) => Err(message),
                Ok((depth, found)) => if depth > MAX_ATTEMPTS {
                    Err("Fallback chain exceeds 16 models"@)
                } else {
                    Ok((depth, found.push((key, depth as usize))))
                },
            }
        },
    }
}

/// Follows the chains from the targets from `from` on.
pub open spec fn visited_all(
    rules: Rules,
    list: Seq<Seq<char>>,
    from: int,
    active: Seq<Seq<char>>,
    depths: Depths,
    depth: nat,
) -> Result<(nat, Depths), Seq<char>>
    decreases MAX_ATTEMPTS + 1 - active.len(), (list.len() - from) as nat, 1nat,
{
    if from < 0 || from >= list.len() {
        Ok((depth, depths))
    } else {
        match visited(rules, list[from], active, depths) {
            Err(message) => Err(message),
            Ok((below, found)) => visited_all(
                rules,
                list,
                from + 1,
                active,
                found,
                if below + 1 > depth {
                    below + 1
                } else {
                    depth
                },
            ),
        }
    }
}

/// Whether every name from `from` on is good and is not among the seen ones.
pub open spec fn distinct_targets(list: Seq<Seq<char>>, from: int, seen: Seq<Seq<char>>) -> bool
    decreases list.len() - from,
{
    from < 0 || from >= list.len() || (good_name(list[from]) && !seen.contains(
        plain_name(list[from]),
    ) && distinct_targets(list, from + 1, seen.push(plain_name(list[from]))))
}

/// The check of the rules from `from` on.
pub open spec fn rules_check(rules: Rules, from: int, sources: Seq<Seq<char>>, depths: Depths) -> Result<
    (),
    Seq<char>,
>
    decreases rules.len() - from,
{
    if from < 0 || from >= rules.len() {
        Ok(())
    } else {
        let (source, list) = rules[from];
        if !good_name(source) || sources.contains(plain_name(source)) {
            Err("Fallback sources must be valid unique upstream model names"@)
        } else if list.len() >= MAX_ATTEMPTS {
            Err("At most 15 fallback targets per rule"@)
        } else if !distinct_targets(list, 0, Seq::empty()) {
            Err("Fallback targets must be valid unique model names"@)
        } else {
            match visited(rules, source, Seq::empty(), depths) {
                Err(message) => Err(message),
                Ok((_, found)) => rules_check(
                    rules,
                    from + 1,
                    sources.push(plain_name(source)),
                    found,
                ),
            }
        }
    }
}

/// The check of fallback rules.
pub open spec fn fallbacks_check(rules: Rules) -> Result<(), Seq<char>> {
    if rules.len() > 1024 {
        Err("At most 1024 fallback rules are supported"@)
    } else {
        rules_check(rules, 0, Seq::empty(), Seq::empty())
    }
}

/// The views of names.
pub open spec fn names(list: Seq<String>) -> Seq<Seq<char>> {
    Seq::new(list.len(), |i: int| list[i]@)
}

fn is_among(list: &Vec<String>, name: &str) -> (r: bool)
    ensures
        r == names(list@).contains(name@),
{
    let mut i: usize = 0;
    while i < list.len()
        invariant
            i <= list.len(),
            forall|k: int| 0 <= k < i ==> (#[trigger] names(list@)[k]) != name@,
        decreases list.len() - i,
    {
        if same(list[i].as_str(), name) {
            assert(names(list@)[i as int] == name@);
            return true;
        }
        i += 1;
    }
    false
}

fn add_name(list: &mut Vec<String>, name: &str)
    ensures
        names(final(list)@) == names(old(list)@).push(name@),
{
    list.push(name.to_string());
    proof {
        assert(names(list@) =~= names(old(list)@).push(name@));
    }
}

/// Every length found is within the bound.
pub open spec fn shallow_depths(depths: Depths) -> bool {
    forall|i: int| 0 <= i < depths.len() ==> (#[trigger] depths[i]).1 <= MAX_ATTEMPTS
}

proof fn found_is_shallow(depths: Depths, key: Seq<char>, from: int)
    requires
        shallow_depths(depths),
        0 <= from,
    ensures
        find_from(depths, key, from) matches Some(depth) ==> depth <= MAX_ATTEMPTS,
    decreases depths.len() - from,
{
    if from < depths.len() {
        assert(depths[from].1 <= MAX_ATTEMPTS);
        found_is_shallow(depths, key, from + 1);
    }
}

fn visit(
    fallbacks: &Fallbacks,
    name: &str,
    active: &mut Vec<String>,
    depths: &mut Vec<(String, usize)>,
) -> (r: Result<usize, Error>)
    requires
        shallow_depths(entries(old(depths)@)),
        old(active).len() <= MAX_ATTEMPTS,
    ensures
        match visited(
            entries(fallbacks@),
            name@,
            names(old(active)@),
            entries(old(depths)@),
        ) {
            Ok((depth, found)) => r is Ok && r->Ok_0 == depth && entries(final(depths)@) == found
                && names(final(active)@) == names(old(active)@),
            Err(message) => r is Err && r->Err_0.message@ == message,
        },
        r is Ok ==> shallow_depths(entries(final(depths)@)) && r->Ok_0 <= MAX_ATTEMPTS,
    decreases MAX_ATTEMPTS + 1 - old(active).len(),
{
    let key = canonical(name);
    proof {
        found_is_shallow(entries(depths@), key@, 0);
    }
    match get_entry(depths, key) {
        Some(depth) => return Ok(*depth),
        None => {},
    }
    if is_among(active, key) {
        return Err(Error { message: join2("Fallback cycle at ", key) });
    }
    if active.len() + 1 > MAX_ATTEMPTS {
        return Err(Error::new("Fallback chain exceeds 16 models"));
    }
    let ghost outer = names(active@);
    let ghost rules = entries(fallbacks@);
    let ghost before = entries(depths@);
    add_name(active, key);
    proof {
        assert(names(active@).len() == outer.len() + 1);
    }
    let list = targets(fallbacks, key);
    let ghost whole = visited_all(rules, list.deep_view(), 0, outer.push(key@), before, 1);
    let mut depth: usize = 1;
    let mut i: usize = 0;
    while i < list.len()
        invariant
            i <= list.len(),
            active.len() == old(active).len() + 1,
            active.len() <= MAX_ATTEMPTS,
            names(active@) == outer.push(key@),
            rules == entries(fallbacks@),
            shallow_depths(entries(depths@)),
            depth <= MAX_ATTEMPTS + 1,
            outer == names(old(active)@),
            key@ == plain_name(name@),
            before == entries(old(depths)@),
            whole is Err ==> visited(rules, name@, outer, before) == Err::<
                (nat, Depths),
                Seq<char>,
            >(whole->Err_0),
            whole == visited_all(
                rules,
                list.deep_view(),
                i as int,
                outer.push(key@),
                entries(depths@),
                depth as nat,
            ),
        decreases list.len() - i,
    {
        let below = visit(fallbacks, list[i].as_str(), active, depths)?;
        if below + 1 > depth {
            depth = below + 1;
        }
        proof {
            assert(names(active@).len() == active.len());
        }
        i += 1;
    }
    if depth > MAX_ATTEMPTS {
        return Err(Error::new("Fallback chain exceeds 16 models"));
    }
    let ghost full = names(active@);
    let _ = active.pop();
    let ghost found = entries(depths@);
    depths.push((key.to_string(), depth));
    proof {
        assert(names(active@) =~= full.drop_last());
        assert(full.drop_last() =~= outer);
        assert(entries(depths@) =~= found.push((key@, depth)));
    }
    Ok(depth)
}

fn has_distinct_targets(list: &Vec<String>) -> (r: bool)
    ensures
        r == distinct_targets(list.deep_view(), 0, Seq::empty()),
{
    let mut seen: Vec<String> = Vec::new();
    let mut i: usize = 0;
    proof {
        assert(names(seen@) =~= Seq::<Seq<char>>::empty());
    }
    while i < list.len()
        invariant
            i <= list.len(),
            distinct_targets(list.deep_view(), 0, Seq::empty()) == distinct_targets(
                list.deep_view(),
                i as int,
                names(seen@),
            ),
        decreases list.len() - i,
    {
        let key = canonical(list[i].as_str());
        if !valid_name(list[i].as_str()) || is_among(&seen, key) {
            return false;
        }
        add_name(&mut seen, key);
        i += 1;
    }
    true
}

/// Checks fallback rules: their names, and that no chain is longer than allowed or
/// runs in a circle.
pub fn validate(fallbacks: &Fallbacks) -> (r: Result<(), Error>)
    ensures
        outcome(r) == fallbacks_check(entries(fallbacks@)),
{
    if fallbacks.len() > 1024 {
        return Err(Error::new("At most 1024 fallback rules are supported"));
    }
    let mut sources: Vec<String> = Vec::new();
    let mut depths: Vec<(String, usize)> = Vec::new();
    let ghost rules = entries(fallbacks@);
    proof {
        assert(names(sources@) =~= Seq::<Seq<char>>::empty());
        assert(entries(depths@) =~= Seq::<(Seq<char>, usize)>::empty());
    }
    let mut i: usize = 0;
    while i < fallbacks.len()
        invariant
            i <= fallbacks.len(),
            rules == entries(fallbacks@),
            shallow_depths(entries(depths@)),
            fallbacks_check(rules) == rules_check(
                rules,
                i as int,
                names(sources@),
                entries(depths@),
            ),
        decreases fallbacks.len() - i,
    {
        let source = fallbacks[i].0.as_str();
        let key = canonical(source);
        if !valid_name(source) || is_among(&sources, key) {
            return Err(Error::new("Fallback sources must be valid unique upstream model names"));
        }
        if fallbacks[i].1.len() >= MAX_ATTEMPTS {
            return Err(Error::new("At most 15 fallback targets per rule"));
        }
        if !has_distinct_targets(&fallbacks[i].1) {
            return Err(Error::new("Fallback targets must be valid unique model names"));
        }
        let mut active: Vec<String> = Vec::new();
        proof {
            assert(names(active@) =~= Seq::<Seq<char>>::empty());
        }
        let _ = visit(fallbacks, source, &mut active, &mut depths)?;
        add_name(&mut sources, key);
        i += 1;
    }
    Ok(())
}

// ---- laws of chains ---------------------------------------------------------------------

/// Whether no chain of fallbacks from a model is longer than `n` models.
pub open spec fn chain_within(rules: Rules, key: Seq<char>, n: nat) -> bool
    decreases n,
{
    n > 0 && forall|i: int|
        0 <= i < targets_of(rules, key).len() ==> chain_within(
            rules,
            plain_name(#[trigger] targets_of(rules, key)[i]),
            (n - 1) as nat,
        )
}

proof fn chain_widens(rules: Rules, key: Seq<char>, n: nat, m: nat)
    requires
        chain_within(rules, key, n),
        n <= m,
    ensures
        chain_within(rules, key, m),
    decreases n,
{
    assert forall|i: int| 0 <= i < targets_of(rules, key).len() implies chain_within(
        rules,
        plain_name(#[trigger] targets_of(rules, key)[i]),
        (m - 1) as nat,
    ) by {
        chain_widens(rules, plain_name(targets_of(rules, key)[i]), (n - 1) as nat, (m - 1) as nat);
    }
}

/// Every length found bounds the chains that it was found for.
pub open spec fn sound_depths(rules: Rules, depths: Depths) -> bool {
    forall|i: int|
        0 <= i < depths.len() ==> (#[trigger] depths[i]).1 <= MAX_ATTEMPTS && chain_within(
            rules,
            depths[i].0,
            depths[i].1 as nat,
        )
}

proof fn found_is_sound(rules: Rules, depths: Depths, key: Seq<char>, from: int)
    requires
        sound_depths(rules, depths),
        0 <= from,
    ensures
        find_from(depths, key, from) matches Some(depth) ==> depth <= MAX_ATTEMPTS && chain_within(
            rules,
            key,
            depth as nat,
        ),
    decreases depths.len() - from,
{
    if from < depths.len() {
        assert(depths[from].1 <= MAX_ATTEMPTS);
        found_is_sound(rules, depths, key, from + 1);
    }
}

proof fn visited_is_sound(rules: Rules, name: Seq<char>, active: Seq<Seq<char>>, depths: Depths)
    requires
        sound_depths(rules, depths),
    ensures
        visited(rules, name, active, depths) matches Ok((depth, found)) ==> depth <= MAX_ATTEMPTS
            && chain_within(rules, plain_name(name), depth) && sound_depths(rules, found),
    decreases MAX_ATTEMPTS + 1 - active.len(), 0nat, 0nat,
{
    let key = plain_name(name);
    found_is_sound(rules, depths, key, 0);
    if find(depths, key) is None && !active.contains(key) && active.len() + 1 <= MAX_ATTEMPTS {
        let list = targets_of(rules, key);
        visited_all_is_sound(rules, list, 0, active.push(key), depths, 1);
        match visited_all(rules, list, 0, active.push(key), depths, 1) {
            Ok((depth, found)) => {
                if depth <= MAX_ATTEMPTS {
                    assert forall|i: int| 0 <= i < list.len() implies chain_within(
                        rules,
                        plain_name(#[trigger] list[i]),
                        (depth - 1) as nat,
                    ) by {}
                    assert(chain_within(rules, key, depth));
                    let after = found.push((key, depth as usize));
                    assert forall|i: int| 0 <= i < after.len() implies (#[trigger] after[i]).1
                        <= MAX_ATTEMPTS && chain_within(rules, after[i].0, after[i].1 as nat) by {
                        if i < found.len() {
                            assert(after[i] == found[i]);
                        }
                    }
                }
            },
            Err(_) => {},
        }
    }
}

proof fn visited_all_is_sound(
    rules: Rules,
    list: Seq<Seq<char>>,
    from: int,
    active: Seq<Seq<char>>,
    depths: Depths,
    depth: nat,
)
    requires
        sound_depths(rules, depths),
        0 <= from <= list.len(),
        depth >= 1,
        forall|i: int|
            0 <= i < from ==> chain_within(
                rules,
                plain_name(#[trigger] list[i]),
                (depth - 1) as nat,
            ),
    ensures
        visited_all(rules, list, from, active, depths, depth) matches Ok((deepest, found)) ==> {
            &&& deepest >= 1
            &&& sound_depths(rules, found)
            &&& forall|i: int|
                0 <= i < list.len() ==> chain_within(
                    rules,
                    plain_name(#[trigger] list[i]),
                    (deepest - 1) as nat,
                )
        },
    decreases MAX_ATTEMPTS + 1 - active.len(), (list.len() - from) as nat, 1nat,
{
    if from < list.len() {
        visited_is_sound(rules, list[from], active, depths);
        match visited(rules, list[from], active, depths) {
            Ok((below, found)) => {
                let wider = if below + 1 > depth {
                    below + 1
                } else {
                    depth
                };
                assert forall|i: int| 0 <= i < from + 1 implies chain_within(
                    rules,
                    plain_name(#[trigger] list[i]),
                    (wider - 1) as nat,
                ) by {
                    if i < from {
                        chain_widens(rules, plain_name(list[i]), (depth - 1) as nat, (wider - 1) as nat);
                    } else {
                        chain_widens(rules, plain_name(list[i]), below, (wider - 1) as nat);
                    }
                }
                visited_all_is_sound(rules, list, from + 1, active, found, wider);
            },
            Err(_) => {},
        }
    }
}

proof fn rules_are_bounded(rules: Rules, from: int, sources: Seq<Seq<char>>, depths: Depths)
    requires
        sound_depths(rules, depths),
        0 <= from <= rules.len(),
        rules_check(rules, from, sources, depths) is Ok,
        forall|i: int|
            0 <= i < from ==> chain_within(
                rules,
                plain_name((#[trigger] rules[i]).0),
                MAX_ATTEMPTS as nat,
            ),
    ensures
        forall|i: int|
            0 <= i < rules.len() ==> chain_within(
                rules,
                plain_name((#[trigger] rules[i]).0),
                MAX_ATTEMPTS as nat,
            ),
    decreases rules.len() - from,
{
    if from < rules.len() {
        let source = rules[from].0;
        visited_is_sound(rules, source, Seq::empty(), depths);
        match visited(rules, source, Seq::empty(), depths) {
            Ok((depth, found)) => {
                chain_widens(rules, plain_name(source), depth, MAX_ATTEMPTS as nat);
                rules_are_bounded(rules, from + 1, sources.push(plain_name(source)), found);
            },
            Err(_) => {},
        }
    }
}

/// Rules that pass the check have no chain of more than sixteen models from any source,
/// and so no circle.
pub proof fn checked_chains_are_bounded(rules: Rules)
    requires
        fallbacks_check(rules) is Ok,
    ensures
        forall|i: int|
            0 <= i < rules.len() ==> chain_within(
                rules,
                plain_name((#[trigger] rules[i]).0),
                MAX_ATTEMPTS as nat,
            ),
{
    rules_are_bounded(rules, 0, Seq::empty(), Seq::empty());
}

/// Every length found is the least that bounds the chains that it was found for.
pub open spec fn tight_depths(rules: Rules, depths: Depths) -> bool {
    forall|i: int, n: nat|
        0 <= i < depths.len() && #[trigger] chain_within(rules, depths[i].0, n) ==> depths[i].1
            <= n
}

proof fn found_is_tight(rules: Rules, depths: Depths, key: Seq<char>, from: int, n: nat)
    requires
        tight_depths(rules, depths),
        0 <= from,
        chain_within(rules, key, n),
    ensures
        find_from(depths, key, from) matches Some(depth) ==> depth <= n,
    decreases depths.len() - from,
{
    if from < depths.len() {
        if depths[from].0 == key {
            assert(chain_within(rules, depths[from].0, n));
        }
        found_is_tight(rules, depths, key, from + 1, n);
    }
}

proof fn least_bound(rules: Rules, key: Seq<char>, n: nat) -> (least: nat)
    requires
        chain_within(rules, key, n),
    ensures
        0 < least <= n,
        chain_within(rules, key, least),
        !chain_within(rules, key, (least - 1) as nat),
    decreases n,
{
    if chain_within(rules, key, (n - 1) as nat) {
        least_bound(rules, key, (n - 1) as nat)
    } else {
        n
    }
}

/// Whether no model on a path has its chains within a bound.
pub open spec fn all_beyond(rules: Rules, active: Seq<Seq<char>>, n: nat) -> bool {
    forall|i: int| 0 <= i < active.len() ==> !chain_within(rules, #[trigger] active[i], n)
}

proof fn visited_is_complete(
    rules: Rules,
    name: Seq<char>,
    active: Seq<Seq<char>>,
    depths: Depths,
    n: nat,
)
    requires
        tight_depths(rules, depths),
        chain_within(rules, plain_name(name), n),
        n + active.len() <= MAX_ATTEMPTS,
        all_beyond(rules, active, n),
    ensures
        visited(rules, name, active, depths) is Ok,
        tight_depths(rules, visited(rules, name, active, depths)->Ok_0.1),
        forall|m: nat|
            #[trigger] chain_within(rules, plain_name(name), m) ==> visited(
                rules,
                name,
                active,
                depths,
            )->Ok_0.0 <= m,
    decreases MAX_ATTEMPTS + 1 - active.len(), 0nat, 0nat,
{
    let key = plain_name(name);
    if find(depths, key) is Some {
        assert forall|m: nat| #[trigger] chain_within(rules, key, m) implies visited(
            rules,
            name,
            active,
            depths,
        )->Ok_0.0 <= m by {
            found_is_tight(rules, depths, key, 0, m);
        }
    } else {
        if active.contains(key) {
            let i = choose|i: int| 0 <= i < active.len() && active[i] == key;
            assert(!chain_within(rules, active[i], n));
        }
        let least = least_bound(rules, key, n);
        let below = (least - 1) as nat;
        let list = targets_of(rules, key);
        let path = active.push(key);
        assert forall|i: int| 0 <= i < path.len() implies !chain_within(
            rules,
            #[trigger] path[i],
            below,
        ) by {
            if i < active.len() {
                assert(path[i] == active[i]);
                if chain_within(rules, active[i], below) {
                    chain_widens(rules, active[i], below, n);
                }
            }
        }
        visited_all_is_complete(rules, list, 0, path, depths, 1, below);
        let (depth, found) = visited_all(rules, list, 0, path, depths, 1)->Ok_0;
        assert forall|m: nat| #[trigger] chain_within(rules, key, m) implies depth <= m by {
            let under = (m - 1) as nat;
            assert forall|i: int| 0 <= i < list.len() implies chain_within(
                rules,
                plain_name(#[trigger] list[i]),
                under,
            ) by {}
            assert(all_within(rules, list, 0, under));
        }
        assert(depth <= n);
        let after = found.push((key, depth as usize));
        assert forall|i: int, m: nat|
            0 <= i < after.len() && #[trigger] chain_within(rules, after[i].0, m) implies after[i].1
            <= m by {
            if i < found.len() {
                assert(after[i] == found[i]);
                assert(chain_within(rules, found[i].0, m));
            }
        }
    }
}

/// Whether the chains of every target from `from` on are within a bound.
pub open spec fn all_within(rules: Rules, list: Seq<Seq<char>>, from: int, n: nat) -> bool {
    forall|i: int|
        from <= i < list.len() ==> chain_within(rules, plain_name(#[trigger] list[i]), n)
}

proof fn visited_all_is_complete(
    rules: Rules,
    list: Seq<Seq<char>>,
    from: int,
    active: Seq<Seq<char>>,
    depths: Depths,
    depth: nat,
    n: nat,
)
    requires
        tight_depths(rules, depths),
        0 <= from <= list.len(),
        all_within(rules, list, from, n),
        n + active.len() <= MAX_ATTEMPTS,
        all_beyond(rules, active, n),
    ensures
        visited_all(rules, list, from, active, depths, depth) is Ok,
        tight_depths(rules, visited_all(rules, list, from, active, depths, depth)->Ok_0.1),
        forall|m: nat|
            #[trigger] all_within(rules, list, from, m) && depth <= m + 1 ==> visited_all(
                rules,
                list,
                from,
                active,
                depths,
                depth,
            )->Ok_0.0 <= m + 1,
    decreases MAX_ATTEMPTS + 1 - active.len(), (list.len() - from) as nat, 1nat,
{
    if from < list.len() {
        assert(chain_within(rules, plain_name(list[from]), n));
        visited_is_complete(rules, list[from], active, depths, n);
        let (below, found) = visited(rules, list[from], active, depths)->Ok_0;
        let wider = if below + 1 > depth {
            below + 1
        } else {
            depth
        };
        visited_all_is_complete(rules, list, from + 1, active, found, wider, n);
        assert forall|m: nat|
            #[trigger] all_within(rules, list, from, m) && depth <= m + 1 implies visited_all(
            rules,
            list,
            from,
            active,
            depths,
            depth,
        )->Ok_0.0 <= m + 1 by {
            assert(chain_within(rules, plain_name(list[from]), m));
            assert(all_within(rules, list, from + 1, m));
        }
    }
}

/// Whether each rule by itself is well formed, and no two are on the same model.
pub open spec fn sound_rules(rules: Rules) -> bool {
    &&& rules.len() <= 1024
    &&& forall|i: int|
        0 <= i < rules.len() ==> good_name((#[trigger] rules[i]).0) && rules[i].1.len()
            < MAX_ATTEMPTS && distinct_targets(rules[i].1, 0, Seq::empty())
    &&& forall|i: int, j: int|
        0 <= i < j < rules.len() ==> plain_name((#[trigger] rules[i]).0) != plain_name(
            (#[trigger] rules[j]).0,
        )
}

proof fn rules_are_accepted(rules: Rules, from: int, sources: Seq<Seq<char>>, depths: Depths)
    requires
        sound_rules(rules),
        0 <= from <= rules.len(),
        sources.len() == from,
        forall|i: int| 0 <= i < from ==> #[trigger] sources[i] == plain_name(rules[i].0),
        tight_depths(rules, depths),
        forall|i: int|
            0 <= i < rules.len() ==> chain_within(
                rules,
                plain_name((#[trigger] rules[i]).0),
                MAX_ATTEMPTS as nat,
            ),
    ensures
        rules_check(rules, from, sources, depths) is Ok,
    decreases rules.len() - from,
{
    if from < rules.len() {
        let source = rules[from].0;
        if sources.contains(plain_name(source)) {
            let i = choose|i: int| 0 <= i < sources.len() && sources[i] == plain_name(source);
            assert(plain_name(rules[i].0) != plain_name(rules[from].0));
        }
        visited_is_complete(rules, source, Seq::empty(), depths, MAX_ATTEMPTS as nat);
        let found = visited(rules, source, Seq::empty(), depths)->Ok_0.1;
        rules_are_accepted(rules, from + 1, sources.push(plain_name(source)), found);
    }
}

/// Rules that are well formed and have no chain of more than sixteen models from any source
/// pass the check.
pub proof fn bounded_chains_are_accepted(rules: Rules)
    requires
        sound_rules(rules),
        forall|i: int|
            0 <= i < rules.len() ==> chain_within(
                rules,
                plain_name((#[trigger] rules[i]).0),
                MAX_ATTEMPTS as nat,
            ),
    ensures
        fallbacks_check(rules) is Ok,
{
    rules_are_accepted(rules, 0, Seq::empty(), Seq::empty());
}

/// A model whose name a rule would not shorten twice is identified by the shortened name
/// as well.
pub proof fn canonical_is_idempotent(model: Seq<char>)
    requires
        after(plain_name(model), "openai/"@) is None,
    ensures
        plain_name(plain_name(model)) == plain_name(model),
{
}

// ---- what may be replayed ----------------------------------------------------------------

/// Whether every tool from `from` on runs with the client.
pub open spec fn local_tools(list: Seq<Tree>, from: int) -> bool
    decreases list, list.len() - from,
    via local_tools_decreases
{
    if from < 0 || from >= list.len() {
        true
    } else {
        let kind = list[from].at("type"@);
        (kind == Tree::Text("function"@) || kind == Tree::Text("custom"@) || (kind == Tree::Text(
            "namespace"@,
        ) && match list[from].at("tools"@).items() {
            Some(inner) => local_tools(inner, 0),
            None => false,
        })) && local_tools(list, from + 1)
    }
}

#[via_fn]
proof fn local_tools_decreases(list: Seq<Tree>, from: int) {
    if 0 <= from < list.len() {
        inner_items_are_smaller(list[from], "tools"@);
        assert(decreases_to!(list => list[from]));
    }
}

fn are_local_tools(list: &Vec<Json>) -> (r: bool)
    ensures
        r == local_tools(trees(list@), 0),
    decreases trees(list@),
{
    let mut i: usize = 0;
    while i < list.len()
        invariant
            i <= list.len(),
            local_tools(trees(list@), 0) == local_tools(trees(list@), i as int),
        decreases list.len() - i,
    {
        let tool = &list[i];
        let kind = tool.at("type");
        if !kind.is("function") && !kind.is("custom") {
            if !kind.is("namespace") {
                return false;
            }
            match tool.at("tools").as_array() {
                Some(inner) => {
                    proof {
                        inner_items_are_smaller(tool@, "tools"@);
                        assert(trees(list@)[i as int] == tool@);
                        assert(decreases_to!(trees(list@) => trees(list@)[i as int]));
                    }
                    if !are_local_tools(inner) {
                        return false;
                    }
                },
                None => return false,
            }
        }
        i += 1;
    }
    true
}

/// Why a request must not be replayed on another deployment, if it must not.
pub open spec fn blocker(request: Tree) -> Option<Seq<char>> {
    if !(request.at("previous_response_id"@) is Null) || !(request.at("conversation"@) is Null) {
        Some("server_side_conversation"@)
    } else if request.at("background"@) == Tree::Bool(true) {
        Some("background_request"@)
    } else if !local_tools(list_of(request.at("tools"@)), 0) {
        Some("hosted_tools"@)
    } else {
        None
    }
}

/// Stateful continuation and hosted tools cannot safely be replayed on another
/// deployment after an ambiguous failure. Never drop these fields to enable fallback.
pub fn replay_blocker(request: &Json) -> (r: Option<&'static str>)
    ensures
        r.deep_view() == blocker(request@),
{
    if !request.at("previous_response_id").is_null() || !request.at("conversation").is_null() {
        return Some("server_side_conversation");
    }
    if matches!(request.at("background"), Json::Bool(true)) {
        return Some("background_request");
    }
    match request.at("tools").as_array() {
        Some(tools) => if !are_local_tools(tools) {
            return Some("hosted_tools");
        },
        None => {},
    }
    None
}

// ---- which failures pass --------------------------------------------------------------------

/// A code that tells of a lasting failure.
pub open spec fn lasting_code(code: Seq<char>) -> bool {
    code == "insufficient_quota"@ || code == "invalid_prompt"@ || code == "invalid_request_error"@ || code == "billing_hard_limit_reached"@ || code == "billing_not_active"@ || code == "invalid_api_key"@ || code == "authentication_error"@ || code == "permission_error"@ || code == "credit_balance_exhausted"@ || code == "organization_spend_limit_exceeded"@ || code == "project_spend_limit_exceeded"@ || code == "context_length_exceeded"@ || code == "content_policy_violation"@ || code == "cyber_policy"@ || code == "bio_policy"@ || code == "misalignment_policy_violation"@ || code == "content_filter"@ || code == "UNAUTHENTICATED"@ || code == "PERMISSION_DENIED"@ || code == "INVALID_ARGUMENT"@ || code == "NOT_FOUND"@ || code == "FAILED_PRECONDITION"@ || code == "OUT_OF_RANGE"@ || code == "UNIMPLEMENTED"@ || code == "ALREADY_EXISTS"@ || occurs("security"@, lowered(code)) || occurs("safety"@, lowered(code))
}

fn is_lasting_code(code: &str) -> (r: bool)
    ensures
        r == lasting_code(code@),
{
    if same(code, "insufficient_quota") || same(code, "invalid_prompt") || same(code, "invalid_request_error") || same(code, "billing_hard_limit_reached") || same(code, "billing_not_active") || same(code, "invalid_api_key") || same(code, "authentication_error") || same(code, "permission_error") || same(code, "credit_balance_exhausted") || same(code, "organization_spend_limit_exceeded") || same(code, "project_spend_limit_exceeded") || same(code, "context_length_exceeded") || same(code, "content_policy_violation") || same(code, "cyber_policy") || same(code, "bio_policy") || same(code, "misalignment_policy_violation") || same(code, "content_filter") || same(code, "UNAUTHENTICATED") || same(code, "PERMISSION_DENIED") || same(code, "INVALID_ARGUMENT") || same(code, "NOT_FOUND") || same(code, "FAILED_PRECONDITION") || same(code, "OUT_OF_RANGE") || same(code, "UNIMPLEMENTED") || same(code, "ALREADY_EXISTS") {
        return true;
    }
    let low = to_lower(code);
    contains(low.as_str(), "security") || contains(low.as_str(), "safety")
}

/// Whether a member of an error tells of a lasting failure.
pub open spec fn lasting_field(error: Tree, key: Seq<char>) -> bool {
    error.at(key).text() matches Some(code) && lasting_code(code)
}

fn is_lasting_field(error: &Json, key: &str) -> (r: bool)
    ensures
        r == lasting_field(error@, key@),
{
    match error.at(key).as_str() {
        Some(code) => is_lasting_code(code),
        None => false,
    }
}

/// Whether an error is lasting, so that a retry cannot help.
pub open spec fn lasting(error: Tree) -> bool {
    lasting_field(error, "code"@) || lasting_field(error, "type"@) || lasting_field(
        error,
        "gemini_status"@,
    )
}

fn permanent(error: &Json) -> (r: bool)
    ensures
        r == lasting(error@),
{
    is_lasting_field(error, "code") || is_lasting_field(error, "type") || is_lasting_field(
        error,
        "gemini_status",
    )
}

/// Whether a value tells of output.
pub open spec fn outputs(value: Tree) -> bool {
    let some = |v: Tree| v.at("output"@).items() matches Some(list) && list.len() > 0;
    let counted = |v: Tree|
        v.at("usage"@).at("output_tokens"@).natural() matches Some(n) && n > 0;
    some(value.at("response"@)) || some(value) || counted(value.at("response"@)) || counted(value)
}

fn lists_output(value: &Json) -> (r: bool)
    ensures
        r == (value@.at("output"@).items() matches Some(list) && list.len() > 0),
{
    match value.at("output").as_array() {
        Some(list) => list.len() > 0,
        None => false,
    }
}

fn counts_output(value: &Json) -> (r: bool)
    ensures
        r == (value@.at("usage"@).at("output_tokens"@).natural() matches Some(n) && n > 0),
{
    match value.at("usage").at("output_tokens").as_u64() {
        Some(n) => n > 0,
        None => false,
    }
}

fn has_output(value: &Json) -> (r: bool)
    ensures
        r == outputs(value@),
{
    let inner = value.at("response");
    lists_output(inner) || lists_output(value) || counts_output(inner) || counts_output(value)
}

/// A status that a retry may change.
pub open spec fn passing_status(status: u16) -> bool {
    status == 408 || status == 429 || status == 500 || status == 502 || status == 503 || status
        == 504 || status == 529
}

/// Whether a status may change on a retry.
pub fn is_transient_status(status: u16) -> (r: bool)
    ensures
        r == passing_status(status),
{
    status == 408 || status == 429 || status == 500 || status == 502 || status == 503 || status
        == 504 || status == 529
}

/// Whether an HTTP error may pass, by its status and what its body holds.
pub open spec fn passes(status: u16, value: Tree) -> bool {
    !outputs(value) && !lasting(value.at("error"@)) && !lasting(
        value.at("response"@).at("error"@),
    ) && passing_status(status)
}

/// Whether an HTTP error may pass, by its status and what its body holds.
pub fn transient_error(status: u16, value: &Json) -> (r: bool)
    ensures
        r == passes(status, value@),
{
    !has_output(value) && !permanent(value.at("error")) && !permanent(
        value.at("response").at("error"),
    ) && is_transient_status(status)
}

/// The value that a body holds, or null.
pub open spec fn body_value(body: Seq<u8>) -> Tree {
    match parsed(body) {
        Ok(value) => value,
        Err(_) => Tree::Null,
    }
}

/// Reads the value that a body holds, or null.
pub(crate) fn read_body(body: &[u8]) -> (r: Json)
    ensures
        r@ == body_value(body@),
{
    match parse(body) {
        Ok(value) => value,
        Err(_) => Json::Null,
    }
}

/// Explicit transient HTTP errors only; auth, request and policy failures win over status.
pub fn transient_http(status: u16, body: &[u8]) -> (r: bool)
    ensures
        r == passes(status, body_value(body@)),
{
    transient_error(status, &read_body(body))
}

/// What the start of a response tells: nothing yet, that the model is committed, or that
/// it refused.
#[derive(Clone, Copy, Debug, PartialEq, Eq, Structural)]
pub enum Prelude {
    Waiting,
    Committed,
    Refused,
}

/// A code with which a model refuses before it has done anything.
pub open spec fn refusal_code(error: Tree, gemini: bool) -> bool {
    if gemini {
        error.at("gemini_status"@).text() matches Some(code) && (code == "RESOURCE_EXHAUSTED"@ || code == "UNAVAILABLE"@ || code == "INTERNAL"@ || code == "DEADLINE_EXCEEDED"@ || code == "ABORTED"@ || code == "UNKNOWN"@)
    } else {
        error.at("code"@).text() matches Some(code) && (code == "server_error"@ || code == "server_is_overloaded"@ || code == "capacity_exceeded"@ || code == "rate_limit_exceeded"@ || code == "request_timeout"@)
    }
}

fn is_refusal_code(error: &Json, gemini: bool) -> (r: bool)
    ensures
        r == refusal_code(error@, gemini),
{
    if gemini {
        match error.at("gemini_status").as_str() {
            Some(code) => same(code, "RESOURCE_EXHAUSTED") || same(code, "UNAVAILABLE") || same(code, "INTERNAL") || same(code, "DEADLINE_EXCEEDED") || same(code, "ABORTED") || same(code, "UNKNOWN"),
            None => false,
        }
    } else {
        match error.at("code").as_str() {
            Some(code) => same(code, "server_error") || same(code, "server_is_overloaded") || same(code, "capacity_exceeded") || same(code, "rate_limit_exceeded") || same(code, "request_timeout"),
            None => false,
        }
    }
}

/// The error that an event carries, or null.
pub open spec fn carried_error(value: Tree) -> Tree {
    match value.at("response"@).get("error"@) {
        Some(error) => error,
        None => value.at("error"@),
    }
}

/// What an event tells.
pub open spec fn told(value: Tree, gemini: bool) -> Prelude {
    let error = carried_error(value);
    if outputs(value) {
        Prelude::Committed
    } else if !(error is Null) {
        if !lasting(error) && refusal_code(error, gemini) && (value.at("type"@) == Tree::Text(
            "response.failed"@,
        ) || value.at("type"@) == Tree::Text("error"@) || !value.has("type"@)) {
            Prelude::Refused
        } else {
            Prelude::Committed
        }
    } else if value.at("type"@) == Tree::Text("response.created"@) || value.at("type"@)
        == Tree::Text("response.in_progress"@) {
        Prelude::Waiting
    } else {
        Prelude::Committed
    }
}

/// What an event tells. Unknown events, output, reasoning and tool calls commit the
/// selected model.
pub fn judge_event(value: &Json, gemini: bool) -> (r: Prelude)
    ensures
        r == told(value@, gemini),
{
    if has_output(value) {
        return Prelude::Committed;
    }
    let error = match value.at("response").get("error") {
        Some(error) => error,
        None => value.at("error"),
    };
    let kind = value.at("type");
    if !error.is_null() {
        if !permanent(error) && is_refusal_code(error, gemini) && (kind.is("response.failed")
            || kind.is("error") || !value.has("type")) {
            return Prelude::Refused;
        }
        return Prelude::Committed;
    }
    if kind.is("response.created") || kind.is("response.in_progress") {
        return Prelude::Waiting;
    }
    Prelude::Committed
}

/// What the data of an event tells.
pub open spec fn event_told(data: Seq<u8>, gemini: bool) -> Prelude {
    match parsed(data) {
        Ok(value) => told(value, gemini),
        Err(_) => Prelude::Committed,
    }
}

/// What the data of an event tells. Gemini transport and conversion errors are
/// ambiguous; only native RPC refusals switch.
pub fn prelude_event(bytes: &[u8], gemini: bool) -> (r: Prelude)
    ensures
        r == event_told(bytes@, gemini),
{
    match parse(bytes) {
        Ok(value) => judge_event(&value, gemini),
        Err(_) => Prelude::Committed,
    }
}

/// How many bytes may pass before a stream counts as committed.
pub const MAX_PRELUDE: usize = 262144;

/// An incremental scanner of an event stream: linear in the bytes received, and bounded
/// however they are cut.
pub struct SsePrelude {
    pub line: Vec<u8>,
    pub data: Vec<u8>,
    pub total: usize,
    pub gemini: bool,
    pub decision: Prelude,
}

/// The view of a prelude.
pub ghost struct Opening {
    pub line: Seq<u8>,
    pub data: Seq<u8>,
    pub total: nat,
    pub gemini: bool,
    pub decision: Prelude,
}

impl View for SsePrelude {
    type V = Opening;

    open spec fn view(&self) -> Opening {
        Opening {
            line: self.line@,
            data: self.data@,
            total: self.total as nat,
            gemini: self.gemini,
            decision: self.decision,
        }
    }
}

/// A line without the carriage return at its end.
pub open spec fn without_return(line: Seq<u8>) -> Seq<u8> {
    if line.len() > 0 && line.last() == CR {
        line.drop_last()
    } else {
        line
    }
}

/// Data with another line of it.
pub open spec fn with_data(data: Seq<u8>, value: Seq<u8>) -> Seq<u8> {
    if data.len() > 0 {
        data.push(LF) + value
    } else {
        value
    }
}

impl Opening {
    /// The end of a line.
    pub open spec fn line_ended(self) -> Opening {
        let line = without_return(self.line);
        let rest = Opening { line: Seq::empty(), ..self };
        if line.len() == 0 {
            if self.data.len() > 0 {
                Opening {
                    decision: event_told(self.data, self.gemini),
                    data: Seq::empty(),
                    ..rest
                }
            } else {
                rest
            }
        } else {
            match data_value(line) {
                Some(value) => Opening { data: with_data(self.data, value), ..rest },
                None => rest,
            }
        }
    }

    /// One byte. Once there is a decision nothing changes it.
    pub open spec fn byte(self, byte: u8) -> Opening {
        if self.decision != Prelude::Waiting {
            self
        } else {
            let counted = Opening { total: self.total + 1, ..self };
            if counted.total >= MAX_PRELUDE {
                Opening { decision: Prelude::Committed, ..counted }
            } else if byte == LF {
                counted.line_ended()
            } else {
                Opening { line: counted.line.push(byte), ..counted }
            }
        }
    }

    /// The bytes from `from` on.
    pub open spec fn bytes(self, bytes: Seq<u8>, from: int) -> Opening
        decreases bytes.len() - from,
    {
        if from < 0 || from >= bytes.len() {
            self
        } else {
            self.byte(bytes[from]).bytes(bytes, from + 1)
        }
    }
}

impl SsePrelude {
    /// While there is no decision, the bytes stay within their bound.
    pub open spec fn wf(&self) -> bool {
        self.decision == Prelude::Waiting ==> self.total < MAX_PRELUDE
    }

    pub fn new(gemini: bool) -> (r: SsePrelude)
        ensures
            r.wf(),
            r@ == (Opening {
                line: Seq::empty(),
                data: Seq::empty(),
                total: 0,
                gemini,
                decision: Prelude::Waiting,
            }),
    {
        SsePrelude {
            line: Vec::new(),
            data: Vec::new(),
            total: 0,
            gemini,
            decision: Prelude::Waiting,
        }
    }

    fn end_line(&mut self)
        ensures
            final(self)@ == old(self)@.line_ended(),
            final(self).total == old(self).total,
    {
        if self.line.len() > 0 && self.line[self.line.len() - 1] == CR {
            let _ = self.line.pop();
            proof {
                assert(self.line@ =~= old(self).line@.drop_last());
            }
        }
        if self.line.len() == 0 {
            if self.data.len() > 0 {
                self.decision = prelude_event(self.data.as_slice(), self.gemini);
                self.data = Vec::new();
            }
        } else {
            match read_data(&self.line) {
                Some(value) => {
                    let ghost before = self.data@;
                    if self.data.len() > 0 {
                        self.data.push(LF);
                    }
                    self.data.extend_from_slice(value.as_slice());
                    proof {
                        assert(self.data@ =~= with_data(before, value@));
                    }
                },
                None => {},
            }
        }
        self.line = Vec::new();
    }

    /// Takes a chunk, and tells what the stream is known to do. The caller keeps chunks
    /// only while there is no decision.
    pub fn feed(&mut self, bytes: &[u8]) -> (r: Prelude)
        requires
            old(self).wf(),
        ensures
            final(self)@ == old(self)@.bytes(bytes@, 0),
            r == final(self)@.decision,
            final(self).wf(),
    {
        let ghost whole = self@.bytes(bytes@, 0);
        let mut i: usize = 0;
        while i < bytes.len()
            invariant
                i <= bytes.len(),
                self.wf(),
                whole == old(self)@.bytes(bytes@, 0),
                whole == self@.bytes(bytes@, i as int),
            decreases bytes.len() - i,
        {
            if self.decision != Prelude::Waiting {
                proof {
                    decision_stands(self@, bytes@, i as int);
                }
                return self.decision;
            }
            self.total = self.total + 1;
            if self.total >= MAX_PRELUDE {
                self.decision = Prelude::Committed;
            } else if bytes[i] == LF {
                self.end_line();
            } else {
                self.line.push(bytes[i]);
            }
            i += 1;
        }
        self.decision
    }
}

/// Once there is a decision, nothing that follows changes it.
pub proof fn decision_stands(opening: Opening, bytes: Seq<u8>, from: int)
    requires
        opening.decision != Prelude::Waiting,
        0 <= from,
    ensures
        opening.bytes(bytes, from) == opening,
    decreases bytes.len() - from,
{
    if from < bytes.len() {
        decision_stands(opening, bytes, from + 1);
    }
}

proof fn opening_shifts(opening: Opening, first: Seq<u8>, second: Seq<u8>, from: int)
    requires
        0 <= from <= second.len(),
    ensures
        opening.bytes(first + second, first.len() + from) == opening.bytes(second, from),
    decreases second.len() - from,
{
    if from < second.len() {
        assert((first + second)[first.len() + from] == second[from]);
        opening_shifts(opening.byte(second[from]), first, second, from + 1);
    }
}

proof fn opening_splits(opening: Opening, first: Seq<u8>, second: Seq<u8>, from: int)
    requires
        0 <= from <= first.len(),
    ensures
        opening.bytes(first + second, from) == opening.bytes(first, from).bytes(second, 0),
    decreases first.len() - from,
{
    if from < first.len() {
        assert((first + second)[from] == first[from]);
        opening_splits(opening.byte(first[from]), first, second, from + 1);
    } else {
        opening_shifts(opening, first, second, 0);
    }
}

/// How the start of a stream is cut into chunks does not matter for the decision.
pub proof fn decision_ignores_chunking(opening: Opening, first: Seq<u8>, second: Seq<u8>)
    ensures
        opening.bytes(first + second, 0) == opening.bytes(first, 0).bytes(second, 0),
{
    opening_splits(opening, first, second, 0);
}

/// A lasting error never switches models, neither by status nor in a stream.
pub proof fn lasting_errors_never_switch(value: Tree, status: u16, gemini: bool)
    requires
        lasting(carried_error(value)),
    ensures
        told(value, gemini) != Prelude::Refused,
        !passes(status, value),
{
    let error = carried_error(value);
    assert(!(error is Null)) by {
        assert(Tree::Null.at("code"@) == Tree::Null);
        assert(Tree::Null.at("type"@) == Tree::Null);
        assert(Tree::Null.at("gemini_status"@) == Tree::Null);
    }
    match value.at("response"@).get("error"@) {
        Some(inner) => {
            assert(value.at("response"@).at("error"@) == inner);
        },
        None => {},
    }
}

} // verus!

//! The access keys of a host.

use vstd::prelude::*;
use vstd::utf8::{encode_utf8, encode_utf8_decode_utf8};
use crate::error::{ensure, ensured, outcome, Error};
use crate::outside::{extension_replaced, replace_extension, secret_bytes};
use crate::table::{entries, find, get_entry, put, put_entry, put_keeps_others, put_then_find};
use crate::text::{hex, hex_text, join2, texts};

verus! {

/// The keys of a host: one for itself, and one for each client.
#[derive(Clone)]
pub struct Keys {
    pub local: String,
    pub clients: Vec<(String, String)>,
}

/// Where the keys of a configuration are kept: beside it.
pub fn key_path(config: &str) -> (r: String)
    ensures
        r@ == extension_replaced(config@, "access-keys.json"@),
{
    proof {
        reveal_strlit("access-keys.json");
    }
    replace_extension(config, "access-keys.json")
}

/// Whether two bytes differ, as a number that is zero where they do not.
fn difference(a: u8, b: u8) -> (r: u8)
    ensures
        (r == 0) == (a == b),
{
    assert((a ^ b == 0) == (a == b)) by (bit_vector);
    a ^ b
}

/// Two texts are the same, told without stopping at the first difference.
pub fn equal(a: &str, b: &str) -> (r: bool)
    ensures
        r == (a@ == b@),
{
    let own = a.as_bytes();
    let other = b.as_bytes();
    let mut diff: u8 = if own.len() == other.len() {
        0
    } else {
        1
    };
    let mut i: usize = 0;
    while i < own.len()
        invariant
            i <= own.len(),
            own@ == encode_utf8(a@),
            other@ == encode_utf8(b@),
            (diff == 0) == (own.len() == other.len() && forall|k: int|
                0 <= k < i ==> #[trigger] own@[k] == other@[k]),
        decreases own.len() - i,
    {
        let byte: u8 = if i < other.len() {
            other[i]
        } else {
            0
        };
        let d = difference(own[i], byte);
        let before = diff;
        diff = before | d;
        proof {
            assert((before | d == 0) == (before == 0 && d == 0)) by (bit_vector);
            if before == 0 && d == 0 {
                assert(own@[i as int] == other@[i as int]);
            }
            if diff != 0 && own.len() == other.len() && before == 0 {
                assert(own@[i as int] != other@[i as int]);
            }
        }
        i += 1;
    }
    proof {
        if diff == 0 {
            assert(own@ =~= other@);
            encode_utf8_decode_utf8(a@);
            encode_utf8_decode_utf8(b@);
        } else if a@ == b@ {
            assert(own@ == other@);
        }
    }
    diff == 0
}

/// Whether a key is one of those of the clients, from `from` on.
pub open spec fn client_key(clients: Seq<(Seq<char>, Seq<char>)>, value: Seq<char>, from: int) -> bool
    decreases clients.len() - from,
{
    0 <= from < clients.len() && (clients[from].1 == value || client_key(
        clients,
        value,
        from + 1,
    ))
}

/// Whether one of the keys from `from` on is empty.
pub open spec fn any_empty(clients: Seq<(Seq<char>, Seq<char>)>, from: int) -> bool
    decreases clients.len() - from,
{
    0 <= from < clients.len() && (clients[from].1.len() == 0 || any_empty(clients, from + 1))
}

impl Keys {
    /// Whether a key opens this host.
    pub fn accepts(&self, value: &str) -> (r: bool)
        ensures
            r == (self.local@ == value@ || client_key(entries(self.clients@), value@, 0)),
    {
        if equal(self.local.as_str(), value) {
            return true;
        }
        let mut i: usize = 0;
        while i < self.clients.len()
            invariant
                i <= self.clients.len(),
                self.local@ != value@,
                client_key(entries(self.clients@), value@, 0) == client_key(
                    entries(self.clients@),
                    value@,
                    i as int,
                ),
            decreases self.clients.len() - i,
        {
            if equal(self.clients[i].1.as_str(), value) {
                return true;
            }
            i += 1;
        }
        false
    }

    /// Checks that no key is empty.
    pub fn check(&self) -> (r: Result<(), Error>)
        ensures
            outcome(r) == ensured(
                self.local@.len() > 0 && !any_empty(entries(self.clients@), 0),
                "Host access key file contains empty keys"@,
            ),
    {
        let mut filled = !self.local.as_str().is_empty();
        let mut i: usize = 0;
        while i < self.clients.len()
            invariant
                i <= self.clients.len(),
                (self.local@.len() > 0 && !any_empty(entries(self.clients@), 0)) == (filled
                    && !any_empty(entries(self.clients@), i as int)),
            decreases self.clients.len() - i,
        {
            if self.clients[i].1.as_str().is_empty() {
                filled = false;
            }
            i += 1;
        }
        ensure(filled, "Host access key file contains empty keys")
    }
}

/// The view of the keys of a host.
pub ghost struct KeysView {
    pub local: Seq<char>,
    pub clients: Seq<(Seq<char>, Seq<char>)>,
}

impl DeepView for Keys {
    type V = KeysView;

    open spec fn deep_view(&self) -> KeysView {
        KeysView { local: self.local@, clients: entries(self.clients@) }
    }
}

/// The key that drawn bytes make: a prefix, and the bytes in hexadecimal.
pub fn key_of(bytes: &[u8; 32]) -> (r: String)
    ensures
        r@ == "hp_"@ + hex(bytes@),
{
    let shown = hex_text(bytes);
    join2("hp_", shown.as_str())
}

/// Whether a text is a key that 32 bytes make.
pub open spec fn generated(key: Seq<char>) -> bool {
    exists|bytes: Seq<u8>| bytes.len() == 32 && key == "hp_"@ + #[trigger] hex(bytes)
}

/// Generates a key, where the system has random bytes: the one that they make.
pub fn generate() -> (r: Result<String, Error>)
    ensures
        match r {
            Ok(key) => generated(key@),
            Err(error) => error.message@ == "Could not generate secure access key"@,
        },
{
    match secret_bytes() {
        Some(bytes) => {
            proof {
                assert(bytes@.len() == 32);
            }
            Ok(key_of(&bytes))
        },
        None => Err(Error::new("Could not generate secure access key")),
    }
}

/// The keys after each of the names from `from` on that has none was given the next of the
/// fresh ones, and how many of them are used up.
pub open spec fn enrolled(
    keys: Seq<(Seq<char>, Seq<char>)>,
    names: Seq<Seq<char>>,
    from: int,
    fresh: Seq<Seq<char>>,
    used: int,
) -> Result<(Seq<(Seq<char>, Seq<char>)>, int), Seq<char>>
    decreases names.len() - from,
{
    if from < 0 || from >= names.len() {
        Ok((keys, used))
    } else if names[from].len() == 0 {
        Err("Client name cannot be empty"@)
    } else if find(keys, names[from]) is Some {
        enrolled(keys, names, from + 1, fresh, used)
    } else if used < 0 || used >= fresh.len() {
        Err("Could not generate secure access key"@)
    } else {
        enrolled(put(keys, names[from], fresh[used]), names, from + 1, fresh, used + 1)
    }
}

/// The keys of a host after clients were enrolled, and whether there are new ones.
pub open spec fn host_enrolled(
    keys: KeysView,
    names: Seq<Seq<char>>,
    fresh: Seq<Seq<char>>,
) -> Result<(KeysView, bool), Seq<char>> {
    match enrolled(keys.clients, names, 0, fresh, 0) {
        Err(message) => Err(message),
        Ok((clients, used)) => Ok((KeysView { local: keys.local, clients }, used > 0)),
    }
}

/// Gives each client that has none the next of the fresh keys, in order; keys that exist stay
/// as they are. Tells whether there are new ones.
pub fn enroll_with(keys: Keys, clients: &Vec<String>, fresh: &Vec<String>) -> (r: Result<
    (Keys, bool),
    Error,
>)
    ensures
        outcome(r) == host_enrolled(keys.deep_view(), texts(clients@), texts(fresh@)),
{
    let ghost known = keys.deep_view();
    let mut after = keys;
    let mut used: usize = 0;
    let mut i: usize = 0;
    while i < clients.len()
        invariant
            i <= clients.len(),
            used <= i,
            known == keys.deep_view(),
            after.local@ == known.local,
            enrolled(known.clients, texts(clients@), 0, texts(fresh@), 0) == enrolled(
                entries(after.clients@),
                texts(clients@),
                i as int,
                texts(fresh@),
                used as int,
            ),
        decreases clients.len() - i,
    {
        let name = clients[i].as_str();
        proof {
            assert(texts(clients@)[i as int] == name@);
        }
        if name.is_empty() {
            return Err(Error::new("Client name cannot be empty"));
        }
        if get_entry(&after.clients, name).is_none() {
            if used >= fresh.len() {
                return Err(Error::new("Could not generate secure access key"));
            }
            proof {
                assert(texts(fresh@)[used as int] == fresh@[used as int]@);
            }
            put_entry(&mut after.clients, name, fresh[used].clone());
            used += 1;
        }
        i += 1;
    }
    Ok((after, used > 0))
}

/// Gives each client that has none a generated key of its own; keys that exist stay as they
/// are. Tells whether there are new ones.
pub fn enroll(keys: Keys, clients: &Vec<String>) -> (r: Result<(Keys, bool), Error>)
    ensures
        exists|fresh: Seq<Seq<char>>|
            (forall|k: int| 0 <= k < fresh.len() ==> generated(#[trigger] fresh[k])) && outcome(r)
                == #[trigger] host_enrolled(keys.deep_view(), texts(clients@), fresh),
{
    let mut fresh: Vec<String> = Vec::new();
    let mut i: usize = 0;
    while i < clients.len()
        invariant
            i <= clients.len(),
            forall|k: int| 0 <= k < fresh.len() ==> generated(#[trigger] texts(fresh@)[k]),
        decreases clients.len() - i,
    {
        if get_entry(&keys.clients, clients[i].as_str()).is_none() {
            match generate() {
                Ok(key) => {
                    let ghost before = texts(fresh@);
                    fresh.push(key);
                    proof {
                        assert(texts(fresh@) =~= before.push(key@));
                    }
                },
                Err(_) => {
                    i = clients.len() - 1;
                },
            }
        }
        i += 1;
    }
    enroll_with(keys, clients, &fresh)
}

// ---- laws ------------------------------------------------------------------------------------

/// Every name of one table has the same key in the other.
pub open spec fn names_kept(
    before: Seq<(Seq<char>, Seq<char>)>,
    after: Seq<(Seq<char>, Seq<char>)>,
) -> bool {
    forall|name: Seq<char>|
        #![trigger find(after, name)]
        find(before, name) is Some ==> find(after, name) == find(before, name)
}

/// Enrolling leaves every key that exists as it is, gives every client that is asked for a
/// key, and gives nobody else one.
pub proof fn enrolling_keeps_and_completes(
    keys: Seq<(Seq<char>, Seq<char>)>,
    names: Seq<Seq<char>>,
    from: int,
    fresh: Seq<Seq<char>>,
    used: int,
)
    requires
        0 <= from,
        enrolled(keys, names, from, fresh, used) is Ok,
    ensures
        names_kept(keys, enrolled(keys, names, from, fresh, used)->Ok_0.0),
        forall|k: int|
            from <= k < names.len() ==> find(
                enrolled(keys, names, from, fresh, used)->Ok_0.0,
                #[trigger] names[k],
            ) is Some,
        forall|name: Seq<char>|
            #![trigger find(enrolled(keys, names, from, fresh, used)->Ok_0.0, name)]
            find(enrolled(keys, names, from, fresh, used)->Ok_0.0, name) is Some ==> find(
                keys,
                name,
            ) is Some || exists|k: int| from <= k < names.len() && #[trigger] names[k] == name,
    decreases names.len() - from,
{
    if from < names.len() {
        let after = enrolled(keys, names, from, fresh, used)->Ok_0.0;
        if find(keys, names[from]) is Some {
            enrolling_keeps_and_completes(keys, names, from + 1, fresh, used);
            assert(find(after, names[from]) == find(keys, names[from]));
        } else {
            let next = put(keys, names[from], fresh[used]);
            enrolling_keeps_and_completes(next, names, from + 1, fresh, used + 1);
            put_then_find(keys, names[from], fresh[used]);
            assert(find(after, names[from]) == find(next, names[from]));
            assert forall|name: Seq<char>| #![trigger find(after, name)] true implies (find(
                keys,
                name,
            ) is Some ==> find(after, name) == find(keys, name)) && (find(after, name) is Some
                ==> find(keys, name) is Some || exists|k: int|
                from <= k < names.len() && #[trigger] names[k] == name) by {
                if name != names[from] {
                    put_keeps_others(keys, names[from], fresh[used], name);
                }
                if find(after, name) is Some && find(keys, name) is None {
                    if name == names[from] {
                        assert(names[from] == name);
                    }
                }
            }
        }
    }
}

/// Whether all names of a table of keys have different keys, and none has the local one or one
/// of the fresh ones from `used` on.
pub open spec fn told_apart(
    local: Seq<char>,
    keys: Seq<(Seq<char>, Seq<char>)>,
    fresh: Seq<Seq<char>>,
    used: int,
) -> bool {
    &&& forall|a: Seq<char>, b: Seq<char>|
        #![trigger find(keys, a), find(keys, b)]
        a != b && find(keys, a) is Some ==> find(keys, a) != find(keys, b)
    &&& forall|a: Seq<char>| #[trigger] find(keys, a) != Some(local)
    &&& forall|a: Seq<char>, k: int|
        #![trigger find(keys, a), fresh[k]]
        used <= k < fresh.len() ==> find(keys, a) != Some(fresh[k])
}

/// Where the fresh keys differ from each other and from those that exist, every client has a
/// key of its own after enrolling, and none has the host's.
pub proof fn enrolled_keys_differ(
    local: Seq<char>,
    keys: Seq<(Seq<char>, Seq<char>)>,
    names: Seq<Seq<char>>,
    from: int,
    fresh: Seq<Seq<char>>,
    used: int,
)
    requires
        0 <= from,
        0 <= used,
        fresh.no_duplicates(),
        !fresh.contains(local),
        told_apart(local, keys, fresh, used),
        enrolled(keys, names, from, fresh, used) is Ok,
    ensures
        ({
            let (after, drawn) = enrolled(keys, names, from, fresh, used)->Ok_0;
            told_apart(local, after, fresh, drawn)
        }),
    decreases names.len() - from,
{
    if from < names.len() {
        if find(keys, names[from]) is Some {
            enrolled_keys_differ(local, keys, names, from + 1, fresh, used);
        } else {
            let name = names[from];
            let next = put(keys, name, fresh[used]);
            assert(fresh.contains(fresh[used]));
            put_then_find(keys, name, fresh[used]);
            assert forall|a: Seq<char>| #[trigger] find(next, a) == (if a == name {
                Some(fresh[used])
            } else {
                find(keys, a)
            }) by {
                if a != name {
                    put_keeps_others(keys, name, fresh[used], a);
                }
            }
            enrolled_keys_differ(local, next, names, from + 1, fresh, used + 1);
        }
    }
}

} // verus!

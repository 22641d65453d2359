//! What passes between a client and an upstream, and by which key a client is let in.

use vstd::prelude::*;
use vstd::utf8::encode_utf8;
use crate::headers::{
    body_header, credentials_stay_behind, goes_on, json_headers, kept_were_there, nominations,
    passing, replied, set_to, shown_native, shown_upstream, without, Header,
};
use crate::service::cookie_text;
use crate::text::{after, decimal, pieces, place_of, trimmed, white, white_end, white_start};
use crate::upstream::{access_key, client_header, gated, hop_header, Gate};

verus! {

/// A header of one connection, which no proxy hands on.
pub open spec fn of_the_connection(name: Seq<char>) -> bool {
    name == "connection"@
        || name == "keep-alive"@
        || name == "proxy-authenticate"@
        || name == "proxy-authorization"@
        || name == "te"@
        || name == "trailer"@
        || name == "transfer-encoding"@
        || name == "upgrade"@
}

/// A header by which a client names itself or its account, or measures its own body.
pub open spec fn of_the_client(name: Seq<char>) -> bool {
    name == "host"@
        || name == "content-length"@
        || name == "authorization"@
        || name == "x-api-key"@
        || name == "api-key"@
        || name == "cookie"@
        || name == "openai-organization"@
        || name == "openai-project"@
}

/// An upstream sees no header of the client's connection, account or credentials.
pub proof fn upstreams_see_no_credentials(headers: Seq<Header>, i: int)
    requires
        0 <= i < shown_upstream(headers).len(),
    ensures
        !of_the_connection(shown_upstream(headers)[i].0),
        !of_the_client(shown_upstream(headers)[i].0),
{
    credentials_stay_behind(headers);
    let name = shown_upstream(headers)[i].0;
    assert(!client_header(name) && !hop_header(name));
}

/// The native API sees no header of the client's connection, account or credentials, nor a key
/// of its own kind.
pub proof fn native_upstreams_see_no_credentials(headers: Seq<Header>, i: int)
    requires
        0 <= i < shown_native(headers).len(),
    ensures
        !of_the_connection(shown_native(headers)[i].0),
        !of_the_client(shown_native(headers)[i].0),
        shown_native(headers)[i].0 != "x-goog-api-key"@,
        headers.contains(shown_native(headers)[i]),
{
    let keep = |header: Header| !client_header(header.0) && header.0 != "x-goog-api-key"@;
    let on = |header: Header| goes_on(headers, header);
    let header = shown_native(headers)[i];
    kept_were_there(passing(headers), keep);
    kept_were_there(headers, on);
    passing(headers).lemma_filter_pred(keep, i);
    assert(keep(header));
    assert(passing(headers).contains(header));
    let k = choose|k: int| 0 <= k < passing(headers).len() && passing(headers)[k] == header;
    headers.lemma_filter_pred(on, k);
    assert(on(passing(headers)[k]));
    assert(headers.contains(passing(headers)[k]));
}

proof fn nothing_is_nominated(headers: Seq<Header>, to: int)
    requires
        0 <= to <= headers.len(),
        forall|i: int| 0 <= i < headers.len() ==> (#[trigger] headers[i]).0 != "connection"@,
    ensures
        nominations(headers, to).len() == 0,
    decreases to,
{
    if to > 0 {
        nothing_is_nominated(headers, to - 1);
    }
}

/// Every other header reaches the upstream as it is, where no connection header names it.
pub proof fn other_headers_are_handed_on(headers: Seq<Header>, i: int)
    requires
        0 <= i < headers.len(),
        !of_the_connection(headers[i].0),
        !of_the_client(headers[i].0),
        headers[i].0 != "sec-websocket-protocol"@,
        forall|k: int| 0 <= k < headers.len() ==> (#[trigger] headers[k]).0 != "connection"@,
    ensures
        shown_upstream(headers).contains(headers[i]),
{
    credentials_stay_behind(headers);
    nothing_is_nominated(headers, headers.len() as int);
    assert(goes_on(headers, headers[i]));
}

/// A header that is set stands once, with the value that it was set to; the others stay.
pub proof fn set_headers_stand_once(headers: Seq<Header>, name: Seq<char>, value: Seq<char>)
    ensures
        ({
            let done = set_to(headers, name, value);
            &&& done.len() > 0
            &&& done.last() == (name, encode_utf8(value))
            &&& forall|i: int| 0 <= i < done.len() - 1 ==> (#[trigger] done[i]).0 != name
            &&& forall|i: int|
                0 <= i < headers.len() && (#[trigger] headers[i]).0 != name ==> done.contains(
                    headers[i],
                )
        }),
{
    let keep = crate::headers::other_than(name);
    let kept = without(headers, name);
    let done = set_to(headers, name, value);
    assert forall|i: int| 0 <= i < done.len() - 1 implies (#[trigger] done[i]).0 != name by {
        headers.lemma_filter_pred(keep, i);
        assert(keep(kept[i]));
    }
    assert forall|i: int| 0 <= i < headers.len() && (#[trigger] headers[i]).0
        != name implies done.contains(headers[i]) by {
        headers.lemma_filter_contains(keep, i);
        assert(kept.contains(headers[i]));
        let k = choose|k: int| 0 <= k < kept.len() && kept[k] == headers[i];
        assert(done[k] == headers[i]);
    }
}

// ---- access ---------------------------------------------------------------------------------

/// The key of a request is its bearer token, whatever cookies it has.
pub proof fn bearers_are_keys(key: Seq<char>, cookie: Option<Seq<char>>)
    ensures
        access_key(Some("Bearer "@ + key), cookie) == Some(key),
        access_key(None, None) is None,
{
    let value = "Bearer "@ + key;
    let n = "Bearer "@.len() as int;
    assert(value.subrange(0, n) =~= "Bearer "@);
    assert(value.subrange(n, value.len() as int) =~= key);
}

proof fn no_place(s: Seq<char>, c: char, from: int)
    requires
        0 <= from,
        !s.contains(c),
    ensures
        place_of(s, c, from) is None,
    decreases s.len() - from,
{
    if from < s.len() {
        assert(s.contains(s[from]));
        no_place(s, c, from + 1);
    }
}

/// The key that a login leaves with a client lets that client in: the cookie that it sends back
/// holds that very key.
pub proof fn logins_are_remembered(key: Seq<char>)
    requires
        key.len() > 0,
        !key.contains(';'),
        !white(key.last()),
    ensures
        access_key(None, Some("hey_proxy_access="@ + key)) == Some(key),
        ("hey_proxy_access="@ + key).is_prefix_of(cookie_text(key)),
{
    reveal_strlit("hey_proxy_access=");
    let name = "hey_proxy_access="@;
    let sent = name + key;
    assert(!sent.contains(';')) by {
        assert forall|i: int| 0 <= i < sent.len() implies sent[i] != ';' by {
            if i >= name.len() {
                assert(sent[i] == key[i - name.len()]);
                assert(key.contains(key[i - name.len()]));
            } else {
                assert(sent[i] == name[i]);
            }
        }
    }
    no_place(sent, ';', 0);
    assert(sent.subrange(0, sent.len() as int) =~= sent);
    assert(pieces(sent, ';', 0) == seq![sent]);
    assert(sent[0] == 'h');
    assert(!white('h'));
    assert(white_start(sent, 0) == 0);
    assert(sent.last() == key.last());
    assert(white_end(sent, 0, sent.len() as int) == sent.len());
    assert(trimmed(sent) == sent);
    assert(sent.subrange(0, name.len() as int) =~= name);
    assert(sent.subrange(name.len() as int, sent.len() as int) =~= key);
    assert(after(trimmed(pieces(sent, ';', 0)[0]), name) == Some(key));
    let whole = cookie_text(key);
    assert(whole.subrange(0, sent.len() as int) =~= sent);
}

/// A host lets in whom it knows. Anyone else reaches nothing but the page that asks for the key.
pub proof fn strangers_are_kept_out(path: Seq<char>)
    ensures
        gated(true, path, true) == Gate::Open,
        gated(false, path, false) == Gate::Open,
        gated(true, path, false) == Gate::Open <==> path == "/logs/login"@,
        gated(true, path, false) == Gate::OverviewLogin <==> path == "/"@,
        gated(true, path, false) == Gate::LogsLogin <==> path == "/logs"@,
        "/v1/"@.is_prefix_of(path) ==> gated(true, path, false) == Gate::RefuseAndRecord,
{
    reveal_strlit("/logs/login");
    reveal_strlit("/");
    reveal_strlit("/logs");
    reveal_strlit("/overview");
    reveal_strlit("/v1/");
    assert("/logs/login"@.len() == 11);
    assert("/"@.len() == 1);
    assert("/logs"@.len() == 5);
    assert("/overview"@.len() == 9);
    assert("/v1/"@.len() == 4);
    assert("/v1/"@[1] == 'v');
    assert("/logs"@[1] == 'l');
    assert("/overview"@[1] == 'o');
    assert("/logs/login"@[1] == 'l');
    if "/v1/"@.is_prefix_of(path) {
        assert(path[1] == "/v1/"@[1]);
        if "/logs"@.is_prefix_of(path) {
            assert(path[1] == "/logs"@[1]);
        }
        if "/overview"@.is_prefix_of(path) {
            assert(path[1] == "/overview"@[1]);
        }
    }
}

/// A body that was translated is told as JSON, and nothing is told of the body that it stands for:
/// not its length, its encoding, its type or its digest. Other headers stay.
pub proof fn translated_bodies_are_json(headers: Seq<Header>, i: int)
    ensures
        ({
            let done = json_headers(headers);
            &&& done.len() > 0
            &&& done.last() == ("content-type"@, encode_utf8("application/json"@))
            &&& 0 <= i < done.len() - 1 ==> done[i].0 != "content-length"@ && done[i].0
                != "content-encoding"@ && done[i].0 != "etag"@ && done[i].0 != "content-md5"@
                && done[i].0 != "digest"@ && done[i].0 != "content-type"@
            &&& 0 <= i < headers.len() && headers[i].0 != "content-length"@ && headers[i].0
                != "content-encoding"@ && headers[i].0 != "etag"@ && headers[i].0
                != "content-md5"@ && headers[i].0 != "digest"@ && headers[i].0 != "content-type"@
                ==> done.contains(headers[i])
        }),
{
    let keep = |header: Header| !body_header(header.0);
    let kept = headers.filter(keep);
    let done = json_headers(headers);
    if 0 <= i < done.len() - 1 {
        headers.lemma_filter_pred(keep, i);
        assert(keep(kept[i]));
    }
    if 0 <= i < headers.len() && keep(headers[i]) {
        headers.lemma_filter_contains(keep, i);
        assert(kept.contains(headers[i]));
        let k = choose|k: int| 0 <= k < kept.len() && kept[k] == headers[i];
        assert(done[k] == headers[i]);
    }
}

/// A reply goes to the client without the headers of its connection; where its body was put in
/// place of the upstream's, its type and its length are those of the new body.
pub proof fn replies_go_to_the_client(headers: Seq<Header>, translated: Option<u64>, i: int)
    requires
        0 <= i < replied(headers, translated).len(),
    ensures
        !of_the_connection(replied(headers, translated)[i].0),
        translated is None ==> headers.contains(replied(headers, translated)[i]),
        translated matches Some(length) ==> replied(headers, translated)[i].0 == "content-length"@
            ==> replied(headers, translated)[i].1 == encode_utf8(decimal(length as nat)),
        translated is Some && replied(headers, translated)[i].0 == "content-type"@ ==> replied(
            headers,
            translated,
        )[i].1 == encode_utf8("application/json"@),
{
    assert("content-type"@ != "content-length"@) by {
        reveal_strlit("content-type");
        reveal_strlit("content-length");
        assert("content-type"@.len() != "content-length"@.len());
    }
    let typed = set_to(headers, "content-type"@, "application/json"@);
    let all = match translated {
        Some(length) => set_to(typed, "content-length"@, decimal(length as nat)),
        None => headers,
    };
    let on = |header: Header| goes_on(all, header);
    all.lemma_filter_pred(on, i);
    let header = replied(headers, translated)[i];
    assert(on(header));
    kept_were_there(all, on);
    assert(all.contains(header));
    if let Some(length) = translated {
        set_headers_stand_once(headers, "content-type"@, "application/json"@);
        set_headers_stand_once(typed, "content-length"@, decimal(length as nat));
        let k = choose|k: int| 0 <= k < all.len() && all[k] == header;
        if k < all.len() - 1 {
            assert(all[k].0 != "content-length"@);
            kept_were_there(typed, crate::headers::other_than("content-length"@));
            let left = without(typed, "content-length"@);
            assert(left[k] == all[k]);
            assert(typed.contains(left[k]));
            let j = choose|j: int| 0 <= j < typed.len() && typed[j] == header;
            if j < typed.len() - 1 {
                assert(typed[j].0 != "content-type"@);
            }
        }
    }
}

} // verus!

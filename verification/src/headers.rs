//! The headers that go on to the other side.

use vstd::prelude::*;
use vstd::utf8::encode_utf8;
use vstd::string::StringExecFns;
use crate::preparation::header_views;
use crate::text::{decimal, lowered, number_text, push_char, same, texts, to_lower};
use crate::upstream::{
    client_header, filter_protocols, hop_header, is_client_header, is_hop_header,
    is_native_client_header, keyless, listed_names, nominated,
};

verus! {

/// A header: its name in lowercase, and its value.
pub type Header = (Seq<char>, Seq<u8>);

/// Whether a header's value is text: visible ASCII characters, spaces and tabs.
pub open spec fn visible(value: Seq<u8>) -> bool {
    forall|i: int| 0 <= i < value.len() ==> (32 <= #[trigger] value[i] < 127 || value[i] == 9)
}

/// The text of a header's value, where it is text.
pub open spec fn value_text(value: Seq<u8>) -> Option<Seq<char>> {
    if visible(value) {
        Some(Seq::new(value.len(), |i: int| value[i] as char))
    } else {
        None
    }
}

fn read_value_text(value: &Vec<u8>) -> (r: Option<String>)
    ensures
        r.deep_view() == value_text(value@),
{
    let mut out = String::new();
    let mut i: usize = 0;
    proof {
        assert(out@ =~= Seq::new(0nat, |k: int| value@[k] as char));
    }
    while i < value.len()
        invariant
            i <= value.len(),
            forall|k: int| 0 <= k < i ==> (32 <= #[trigger] value@[k] < 127 || value@[k] == 9),
            out@ == Seq::new(i as nat, |k: int| value@[k] as char),
        decreases value.len() - i,
    {
        let byte: u8 = value[i];
        if !(32 <= byte && byte < 127 || byte == 9) {
            proof {
                assert(!visible(value@));
            }
            return None;
        }
        push_char(&mut out, byte as char);
        proof {
            assert(out@ =~= Seq::new((i + 1) as nat, |k: int| value@[k] as char));
        }
        i += 1;
    }
    Some(out)
}

/// The names that the Connection headers among the first `to` nominate, in lowercase.
pub open spec fn nominations(headers: Seq<Header>, to: int) -> Seq<Seq<char>>
    decreases to,
{
    if to <= 0 || to > headers.len() {
        Seq::empty()
    } else {
        let before = nominations(headers, to - 1);
        let (name, value) = headers[to - 1];
        match value_text(value) {
            Some(text) if name == "connection"@ => before + listed_names(text).map_values(
                |s: Seq<char>| lowered(s),
            ),
            _ => before,
        }
    }
}

/// Whether a header goes on past this connection.
pub open spec fn goes_on(headers: Seq<Header>, header: Header) -> bool {
    !hop_header(header.0) && !nominations(headers, headers.len() as int).contains(header.0)
}

/// The headers that go on past this connection, in order.
pub open spec fn passing(headers: Seq<Header>) -> Seq<Header> {
    headers.filter(|header: Header| goes_on(headers, header))
}

proof fn filter_grows(s: Seq<Header>, keep: spec_fn(Header) -> bool, i: int)
    requires
        0 <= i < s.len(),
    ensures
        s.take(i + 1).filter(keep) == (if keep(s[i]) {
            s.take(i).filter(keep).push(s[i])
        } else {
            s.take(i).filter(keep)
        }),
{
    reveal(Seq::filter);
    assert(s.take(i + 1).drop_last() =~= s.take(i));
}

fn nominate(headers: &Vec<(String, Vec<u8>)>) -> (r: Vec<String>)
    ensures
        texts(r@) == nominations(header_views(headers@), headers@.len() as int),
{
    let ghost views = header_views(headers@);
    let mut out: Vec<String> = Vec::new();
    let mut i: usize = 0;
    proof {
        assert(texts(out@) =~= nominations(views, 0));
    }
    while i < headers.len()
        invariant
            i <= headers.len(),
            views == header_views(headers@),
            texts(out@) == nominations(views, i as int),
        decreases headers.len() - i,
    {
        if same(headers[i].0.as_str(), "connection") {
            match read_value_text(&headers[i].1) {
                Some(text) => {
                    let names = nominated(text.as_str());
                    let ghost whole = listed_names(text@).map_values(
                        |s: Seq<char>| lowered(s),
                    );
                    let ghost before = texts(out@);
                    let mut k: usize = 0;
                    proof {
                        assert(texts(names@).len() == names.len());
                        assert(before + whole.take(0) =~= before);
                    }
                    while k < names.len()
                        invariant
                            k <= names.len(),
                            texts(names@) == listed_names(text@),
                            whole == listed_names(text@).map_values(|s: Seq<char>| lowered(s)),
                            texts(out@) == before + whole.take(k as int),
                        decreases names.len() - k,
                    {
                        let ghost kept = texts(out@);
                        let name = to_lower(names[k].as_str());
                        out.push(name);
                        proof {
                            assert(texts(names@)[k as int] == names@[k as int]@);
                            assert(texts(out@) =~= kept.push(name@));
                            assert(whole.take(k + 1) =~= whole.take(k as int).push(
                                whole[k as int],
                            ));
                            assert(before + whole.take(k + 1) =~= kept.push(name@));
                        }
                        k += 1;
                    }
                    proof {
                        assert(whole.take(k as int) =~= whole);
                    }
                },
                None => {},
            }
        }
        i += 1;
    }
    out
}

fn is_among(names: &Vec<String>, name: &str) -> (r: bool)
    ensures
        r == texts(names@).contains(name@),
{
    let mut i: usize = 0;
    while i < names.len()
        invariant
            i <= names.len(),
            forall|k: int| 0 <= k < i ==> texts(names@)[k] != name@,
        decreases names.len() - i,
    {
        if same(names[i].as_str(), name) {
            proof {
                assert(texts(names@)[i as int] == name@);
            }
            return true;
        }
        i += 1;
    }
    false
}

fn copy_header(header: &(String, Vec<u8>)) -> (r: (String, Vec<u8>))
    ensures
        r.0@ == header.0@,
        r.1@ == header.1@,
{
    let mut value: Vec<u8> = Vec::new();
    value.extend_from_slice(header.1.as_slice());
    proof {
        assert(value@ =~= header.1@);
    }
    (header.0.clone(), value)
}

/// The headers that go on past this connection: all but those that concern one connection only
/// and those that a Connection header nominates, in order. Names are in lowercase.
pub fn pass_headers(headers: &Vec<(String, Vec<u8>)>) -> (r: Vec<(String, Vec<u8>)>)
    ensures
        header_views(r@) == passing(header_views(headers@)),
{
    let ghost views = header_views(headers@);
    let ghost keep = |header: Header| goes_on(views, header);
    let names = nominate(headers);
    let mut out: Vec<(String, Vec<u8>)> = Vec::new();
    let mut i: usize = 0;
    proof {
        reveal(Seq::filter);
        assert(header_views(out@) =~= views.take(0).filter(keep));
    }
    while i < headers.len()
        invariant
            i <= headers.len(),
            views == header_views(headers@),
            keep == (|header: Header| goes_on(views, header)),
            texts(names@) == nominations(views, views.len() as int),
            header_views(out@) == views.take(i as int).filter(keep),
        decreases headers.len() - i,
    {
        proof {
            filter_grows(views, keep, i as int);
        }
        if !is_hop_header(headers[i].0.as_str()) && !is_among(&names, headers[i].0.as_str()) {
            let ghost before = header_views(out@);
            out.push(copy_header(&headers[i]));
            proof {
                assert(header_views(out@) =~= before.push(views[i as int]));
            }
        }
        i += 1;
    }
    proof {
        assert(views.take(i as int) =~= views);
    }
    out
}

/// The WebSocket protocols that headers from `from` on offer, behind those gathered; `any` says
/// whether there are some.
pub open spec fn offered(headers: Seq<Header>, from: int, any: bool, out: Seq<char>) -> Seq<char>
    decreases headers.len() - from,
{
    if from < 0 || from >= headers.len() {
        out
    } else {
        match value_text(headers[from].1) {
            Some(text) if headers[from].0 == "sec-websocket-protocol"@ => offered(
                headers,
                from + 1,
                true,
                if any {
                    out + ", "@ + text
                } else {
                    out + text
                },
            ),
            _ => offered(headers, from + 1, any, out),
        }
    }
}

fn gather_protocols(headers: &Vec<(String, Vec<u8>)>) -> (r: String)
    ensures
        r@ == offered(header_views(headers@), 0, false, Seq::empty()),
{
    let mut out = String::new();
    let mut any = false;
    let mut i: usize = 0;
    while i < headers.len()
        invariant
            i <= headers.len(),
            offered(header_views(headers@), 0, false, Seq::empty()) == offered(
                header_views(headers@),
                i as int,
                any,
                out@,
            ),
        decreases headers.len() - i,
    {
        if same(headers[i].0.as_str(), "sec-websocket-protocol") {
            match read_value_text(&headers[i].1) {
                Some(text) => {
                    if any {
                        out.append(", ");
                    }
                    out.append(text.as_str());
                    any = true;
                },
                None => {},
            }
        }
        i += 1;
    }
    out
}

/// Whether a header has another name.
pub open spec fn other_than(name: Seq<char>) -> spec_fn(Header) -> bool {
    |header: Header| header.0 != name
}

/// The headers without those of a name.
pub open spec fn without(headers: Seq<Header>, name: Seq<char>) -> Seq<Header> {
    headers.filter(other_than(name))
}

fn drop_header(headers: Vec<(String, Vec<u8>)>, name: &str) -> (r: Vec<(String, Vec<u8>)>)
    ensures
        header_views(r@) == without(header_views(headers@), name@),
{
    let ghost views = header_views(headers@);
    let ghost keep = other_than(name@);
    let mut out: Vec<(String, Vec<u8>)> = Vec::new();
    let mut i: usize = 0;
    proof {
        reveal(Seq::filter);
        assert(header_views(out@) =~= views.take(0).filter(keep));
    }
    while i < headers.len()
        invariant
            i <= headers.len(),
            views == header_views(headers@),
            keep == other_than(name@),
            header_views(out@) == views.take(i as int).filter(keep),
        decreases headers.len() - i,
    {
        proof {
            filter_grows(views, keep, i as int);
        }
        if !same(headers[i].0.as_str(), name) {
            let ghost before = header_views(out@);
            out.push(copy_header(&headers[i]));
            proof {
                assert(header_views(out@) =~= before.push(views[i as int]));
            }
        }
        i += 1;
    }
    proof {
        assert(views.take(i as int) =~= views);
    }
    out
}

/// The headers with the WebSocket protocols in one, without those that carry a key; none where
/// nothing is left.
pub open spec fn protocols_filtered(headers: Seq<Header>) -> Seq<Header> {
    let protocols = offered(headers, 0, false, Seq::empty());
    let kept = keyless(listed_names(protocols), 0, false, Seq::empty());
    let rest = without(headers, "sec-websocket-protocol"@);
    if protocols.len() == 0 {
        headers
    } else if kept.len() == 0 {
        rest
    } else {
        rest.push(("sec-websocket-protocol"@, encode_utf8(kept)))
    }
}

/// The headers of a client that an upstream sees.
pub open spec fn shown_upstream(headers: Seq<Header>) -> Seq<Header> {
    protocols_filtered(passing(headers)).filter(|header: Header| !client_header(header.0))
}

/// The headers of a client that the native upstream sees.
pub open spec fn shown_native(headers: Seq<Header>) -> Seq<Header> {
    passing(headers).filter(
        |header: Header| !client_header(header.0) && header.0 != "x-goog-api-key"@,
    )
}

/// The headers of a client that an upstream sees: without those of the connection and those
/// that are the client's own.
pub fn upstream_headers(headers: &Vec<(String, Vec<u8>)>) -> (r: Vec<(String, Vec<u8>)>)
    ensures
        header_views(r@) == shown_upstream(header_views(headers@)),
{
    let mut own = pass_headers(headers);
    let protocols = gather_protocols(&own);
    if !protocols.as_str().is_empty() {
        let kept = filter_protocols(protocols.as_str());
        own = drop_header(own, "sec-websocket-protocol");
        if !kept.as_str().is_empty() {
            let ghost before = header_views(own@);
            let mut value: Vec<u8> = Vec::new();
            value.extend_from_slice(kept.as_str().as_bytes());
            own.push(("sec-websocket-protocol".to_string(), value));
            proof {
                assert(value@ =~= encode_utf8(kept@));
                assert(header_views(own@) =~= before.push(
                    ("sec-websocket-protocol"@, encode_utf8(kept@)),
                ));
            }
        }
    }
    let ghost views = header_views(own@);
    let ghost keep = |header: Header| !client_header(header.0);
    let mut out: Vec<(String, Vec<u8>)> = Vec::new();
    let mut i: usize = 0;
    proof {
        reveal(Seq::filter);
        assert(header_views(out@) =~= views.take(0).filter(keep));
    }
    while i < own.len()
        invariant
            i <= own.len(),
            views == header_views(own@),
            keep == (|header: Header| !client_header(header.0)),
            header_views(out@) == views.take(i as int).filter(keep),
        decreases own.len() - i,
    {
        proof {
            filter_grows(views, keep, i as int);
        }
        if !is_client_header(own[i].0.as_str()) {
            let ghost before = header_views(out@);
            out.push(copy_header(&own[i]));
            proof {
                assert(header_views(out@) =~= before.push(views[i as int]));
            }
        }
        i += 1;
    }
    proof {
        assert(views.take(i as int) =~= views);
    }
    out
}

/// The headers of a client that the native upstream sees.
pub fn native_headers(headers: &Vec<(String, Vec<u8>)>) -> (r: Vec<(String, Vec<u8>)>)
    ensures
        header_views(r@) == shown_native(header_views(headers@)),
{
    let own = pass_headers(headers);
    let ghost views = header_views(own@);
    let ghost keep = |header: Header| !client_header(header.0) && header.0 != "x-goog-api-key"@;
    let mut out: Vec<(String, Vec<u8>)> = Vec::new();
    let mut i: usize = 0;
    proof {
        reveal(Seq::filter);
        assert(header_views(out@) =~= views.take(0).filter(keep));
    }
    while i < own.len()
        invariant
            i <= own.len(),
            views == header_views(own@),
            keep == (|header: Header|
                !client_header(header.0) && header.0 != "x-goog-api-key"@),
            header_views(out@) == views.take(i as int).filter(keep),
        decreases own.len() - i,
    {
        proof {
            filter_grows(views, keep, i as int);
        }
        if !is_native_client_header(own[i].0.as_str()) {
            let ghost before = header_views(out@);
            out.push(copy_header(&own[i]));
            proof {
                assert(header_views(out@) =~= before.push(views[i as int]));
            }
        }
        i += 1;
    }
    proof {
        assert(views.take(i as int) =~= views);
    }
    out
}

/// A header that tells of a body that was translated.
pub open spec fn body_header(name: Seq<char>) -> bool {
    name == "content-length"@ || name == "content-encoding"@ || name == "etag"@ || name
        == "content-md5"@ || name == "digest"@ || name == "content-type"@
}

/// The headers of a body that was translated to JSON.
pub open spec fn json_headers(headers: Seq<Header>) -> Seq<Header> {
    headers.filter(|header: Header| !body_header(header.0)).push(
        ("content-type"@, encode_utf8("application/json"@)),
    )
}

/// The headers of an upstream's reply that go to the client, given the length of the body that
/// was put in place of the upstream's, where there is one.
pub open spec fn replied(headers: Seq<Header>, translated: Option<u64>) -> Seq<Header> {
    passing(
        match translated {
            Some(length) => set_to(
                set_to(headers, "content-type"@, "application/json"@),
                "content-length"@,
                decimal(length as nat),
            ),
            None => headers,
        },
    )
}

/// The headers of a body that was translated to JSON.
pub fn translated_headers(headers: &Vec<(String, Vec<u8>)>) -> (r: Vec<(String, Vec<u8>)>)
    ensures
        header_views(r@) == json_headers(header_views(headers@)),
{
    let ghost views = header_views(headers@);
    let ghost keep = |header: Header| !body_header(header.0);
    let mut out: Vec<(String, Vec<u8>)> = Vec::new();
    let mut i: usize = 0;
    proof {
        reveal(Seq::filter);
        assert(header_views(out@) =~= views.take(0).filter(keep));
    }
    while i < headers.len()
        invariant
            i <= headers.len(),
            views == header_views(headers@),
            keep == (|header: Header| !body_header(header.0)),
            header_views(out@) == views.take(i as int).filter(keep),
        decreases headers.len() - i,
    {
        proof {
            filter_grows(views, keep, i as int);
        }
        let name = headers[i].0.as_str();
        let told = same(name, "content-length") || same(name, "content-encoding") || same(
            name,
            "etag",
        ) || same(name, "content-md5") || same(name, "digest") || same(name, "content-type");
        if !told {
            let ghost before = header_views(out@);
            out.push(copy_header(&headers[i]));
            proof {
                assert(header_views(out@) =~= before.push(views[i as int]));
            }
        }
        i += 1;
    }
    let ghost before = header_views(out@);
    let mut value: Vec<u8> = Vec::new();
    value.extend_from_slice("application/json".as_bytes());
    out.push(("content-type".to_string(), value));
    proof {
        assert(views.take(i as int) =~= views);
        assert(value@ =~= encode_utf8("application/json"@));
        assert(header_views(out@) =~= before.push(
            ("content-type"@, encode_utf8("application/json"@)),
        ));
    }
    out
}

/// The headers with one header in place of those of its name.
pub open spec fn set_to(headers: Seq<Header>, name: Seq<char>, value: Seq<char>) -> Seq<Header> {
    without(headers, name).push((name, encode_utf8(value)))
}

fn set_header(headers: Vec<(String, Vec<u8>)>, name: &str, value: &str) -> (r: Vec<(String, Vec<u8>)>)
    ensures
        header_views(r@) == set_to(header_views(headers@), name@, value@),
{
    let mut out = drop_header(headers, name);
    let ghost before = header_views(out@);
    let mut bytes: Vec<u8> = Vec::new();
    bytes.extend_from_slice(value.as_bytes());
    out.push((name.to_string(), bytes));
    proof {
        assert(bytes@ =~= encode_utf8(value@));
        assert(header_views(out@) =~= before.push((name@, encode_utf8(value@))));
    }
    out
}

/// The headers of a reply whose body has a length.
pub fn sized_headers(headers: Vec<(String, Vec<u8>)>, length: u64) -> (r: Vec<(String, Vec<u8>)>)
    ensures
        header_views(r@) == set_to(
            header_views(headers@),
            "content-length"@,
            decimal(length as nat),
        ),
{
    let length = number_text(length);
    set_header(headers, "content-length", length.as_str())
}

/// The headers of a reply that is streamed: its length is not known.
pub fn streamed_headers(headers: Vec<(String, Vec<u8>)>) -> (r: Vec<(String, Vec<u8>)>)
    ensures
        header_views(r@) == without(header_views(headers@), "content-length"@),
{
    drop_header(headers, "content-length")
}

/// The headers of an upstream's reply that go to the client, given the length of the body that
/// was put in place of the upstream's, where there is one.
pub fn reply_headers(headers: Vec<(String, Vec<u8>)>, translated: Option<u64>) -> (r: Vec<
    (String, Vec<u8>),
>)
    ensures
        header_views(r@) == replied(header_views(headers@), translated),
{
    match translated {
        Some(length) => {
            let typed = set_header(headers, "content-type", "application/json");
            pass_headers(&sized_headers(typed, length))
        },
        None => pass_headers(&headers),
    }
}

// ---- laws ------------------------------------------------------------------------------------

pub(crate) proof fn kept_were_there(s: Seq<Header>, keep: spec_fn(Header) -> bool)
    ensures
        forall|i: int| 0 <= i < s.filter(keep).len() ==> s.contains(#[trigger] s.filter(keep)[i]),
    decreases s.len(),
{
    reveal(Seq::filter);
    if s.len() > 0 {
        let front = s.drop_last();
        kept_were_there(front, keep);
        assert forall|i: int| 0 <= i < s.filter(keep).len() implies s.contains(
            #[trigger] s.filter(keep)[i],
        ) by {
            if i < front.filter(keep).len() {
                assert(front.contains(front.filter(keep)[i]));
                let at = choose|at: int| 0 <= at < front.len() && front[at] == front.filter(keep)[i];
                assert(s[at] == s.filter(keep)[i]);
            } else {
                assert(s[s.len() - 1] == s.filter(keep)[i]);
            }
        }
    }
}

/// No credential and no header of the connection reaches an upstream, and every other header
/// does, but for the WebSocket protocols.
pub proof fn credentials_stay_behind(headers: Seq<Header>)
    ensures
        forall|i: int|
            0 <= i < shown_upstream(headers).len() ==> !client_header(
                (#[trigger] shown_upstream(headers)[i]).0,
            ) && !hop_header(shown_upstream(headers)[i].0),
        forall|i: int|
            0 <= i < headers.len() && goes_on(headers, #[trigger] headers[i]) && !client_header(
                headers[i].0,
            ) && headers[i].0 != "sec-websocket-protocol"@ ==> shown_upstream(headers).contains(
                headers[i],
            ),
{
    broadcast use vstd::seq_lib::group_filter_ensures;

    let own = passing(headers);
    let name = "sec-websocket-protocol"@;
    let filtered = protocols_filtered(own);
    let rest = without(own, name);
    assert(!hop_header(name)) by {
        reveal_strlit("sec-websocket-protocol");
        reveal_strlit("connection");
        reveal_strlit("keep-alive");
        reveal_strlit("proxy-authenticate");
        reveal_strlit("proxy-authorization");
        reveal_strlit("te");
        reveal_strlit("trailer");
        reveal_strlit("transfer-encoding");
        reveal_strlit("upgrade");
        assert("sec-websocket-protocol"@.len() == 22);
        assert("connection"@.len() == 10);
        assert("keep-alive"@.len() == 10);
        assert("proxy-authenticate"@.len() == 18);
        assert("proxy-authorization"@.len() == 19);
        assert("te"@.len() == 2);
        assert("trailer"@.len() == 7);
        assert("transfer-encoding"@.len() == 17);
        assert("upgrade"@.len() == 7);
    }
    kept_were_there(headers, |header: Header| goes_on(headers, header));
    kept_were_there(own, other_than(name));
    kept_were_there(filtered, |header: Header| !client_header(header.0));
    assert forall|i: int| 0 <= i < filtered.len() implies !hop_header(
        (#[trigger] filtered[i]).0,
    ) by {
        if i < rest.len() && filtered[i] == rest[i] {
            assert(own.contains(rest[i]));
        }
    }
    assert forall|i: int| 0 <= i < shown_upstream(headers).len() implies !hop_header(
        (#[trigger] shown_upstream(headers)[i]).0,
    ) by {
        assert(filtered.contains(shown_upstream(headers)[i]));
    }
    assert forall|i: int|
        0 <= i < headers.len() && goes_on(headers, #[trigger] headers[i]) && !client_header(
            headers[i].0,
        ) && headers[i].0 != name implies shown_upstream(headers).contains(headers[i]) by {
        assert(own.contains(headers[i]));
        let at = choose|at: int| 0 <= at < own.len() && own[at] == headers[i];
        assert(rest.contains(own[at]));
        let next = choose|next: int| 0 <= next < rest.len() && rest[next] == headers[i];
        if filtered == own {
            assert(filtered[at] == headers[i]);
        } else {
            assert(filtered[next] == headers[i]);
        }
    }
}

} // verus!

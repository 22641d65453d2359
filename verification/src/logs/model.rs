//! The models that requests name.

use vstd::prelude::*;
use crate::exchange::{parse, parsed};
use crate::outside::{
    form_parsed, pair_views, parse_form, parse_url, percent_decode, percent_decoded, url_parsed,
};
use crate::text::{after, has_char, join2, same, strip_prefix};
use crate::tree::{json_views, Json, Tree};

verus! {

broadcast use json_views;

/// The model that a value names: its own, its session's or its response's.
pub open spec fn model_named(value: Tree) -> Option<Seq<char>> {
    match value.at("model"@).text() {
        Some(model) => Some(model),
        None => match value.at("session"@).at("model"@).text() {
            Some(model) => Some(model),
            None => value.at("response"@).at("model"@).text(),
        },
    }
}

/// The model that a value names.
pub fn value_model(value: &Json) -> (r: Option<String>)
    ensures
        r.deep_view() == model_named(value@),
{
    match value.at("model").as_str() {
        Some(model) => Some(model.to_string()),
        None => match value.at("session").at("model").as_str() {
            Some(model) => Some(model.to_string()),
            None => match value.at("response").at("model").as_str() {
                Some(model) => Some(model.to_string()),
                None => None,
            },
        },
    }
}

/// The model that JSON text names, where it is JSON.
pub open spec fn body_model(bytes: Seq<u8>) -> Option<Seq<char>> {
    match parsed(bytes) {
        Ok(value) => model_named(value),
        Err(_) => None,
    }
}

/// The model that JSON text names.
pub fn json_model(bytes: &[u8]) -> (r: Option<String>)
    ensures
        r.deep_view() == body_model(bytes@),
{
    match parse(bytes) {
        Ok(value) => value_model(&value),
        Err(_) => None,
    }
}

/// The value of the first pair of a name, from `from` on.
pub open spec fn pair_named(pairs: Seq<(Seq<char>, Seq<char>)>, name: Seq<char>, from: int) -> Option<
    Seq<char>,
>
    decreases pairs.len() - from,
{
    if from < 0 || from >= pairs.len() {
        None
    } else if pairs[from].0 == name {
        Some(pairs[from].1)
    } else {
        pair_named(pairs, name, from + 1)
    }
}

/// The model that a query names.
pub open spec fn query_model(query: Option<Seq<char>>) -> Option<Seq<char>> {
    match query {
        Some(query) => pair_named(form_parsed(query), "model"@, 0),
        None => None,
    }
}

/// The model that a query names.
pub fn find_query_model(pairs: &Vec<(String, String)>) -> (r: Option<String>)
    ensures
        r.deep_view() == pair_named(pair_views(pairs@), "model"@, 0),
{
    let mut i: usize = 0;
    while i < pairs.len()
        invariant
            i <= pairs.len(),
            pair_named(pair_views(pairs@), "model"@, 0) == pair_named(
                pair_views(pairs@),
                "model"@,
                i as int,
            ),
        decreases pairs.len() - i,
    {
        if same(pairs[i].0.as_str(), "model") {
            return Some(pairs[i].1.clone());
        }
        i += 1;
    }
    None
}

/// The model that a URL names: in its path, or else in its query.
pub open spec fn url_model(path: Seq<char>, uri: Seq<char>) -> Option<Seq<char>> {
    match after(path, "/v1/models/"@) {
        Some(model) if !model.contains('/') => Some(percent_decoded(model)),
        _ => match url_parsed("http://localhost"@ + uri) {
            Ok(url) => query_model(url.query),
            Err(_) => None,
        },
    }
}

/// The model that a URL names, given its path and the whole of it.
pub fn uri_model(path: &str, uri: &str) -> (r: Option<String>)
    ensures
        r.deep_view() == url_model(path@, uri@),
{
    match strip_prefix(path, "/v1/models/") {
        Some(model) => if !has_char(model, '/') {
            return Some(percent_decode(model));
        },
        None => {},
    }
    let text = join2("http://localhost", uri);
    match parse_url(text.as_str()) {
        Ok(url) => match &url.query {
            Some(query) => {
                let pairs = parse_form(query.as_str());
                find_query_model(&pairs)
            },
            None => None,
        },
        Err(_) => None,
    }
}

} // verus!

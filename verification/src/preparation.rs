//! The body of a request, prepared for its upstream.

use vstd::prelude::*;
use vstd::utf8::{decode_utf8, encode_utf8, encode_utf8_decode_utf8, valid_utf8};
use crate::config::{Config, Mode};
use crate::error::{outcome, Error};
use crate::exchange::{parse, parsed};
use crate::guidance::{carries, present};
use crate::logs::model::{body_model, json_model};
use crate::outside::{boundary_named, read_boundary};
use crate::routing::{rewrite, rewritten_body, route_model, routed_model, rules_of, RuleBook};
use crate::text::{contains, occurs, read_utf8, same, starts_with, utf8_fault};
use crate::tree::{json_views, Json, Tree};

verus! {

broadcast use json_views;

/// Where a request goes, for the record.
pub struct Route {
    pub requested: Option<String>,
    pub routed: Option<String>,
    pub project: String,
}

/// The view of a route.
pub ghost struct Leading {
    pub requested: Option<Seq<char>>,
    pub routed: Option<Seq<char>>,
    pub project: Seq<char>,
}

impl DeepView for Route {
    type V = Leading;

    open spec fn deep_view(&self) -> Leading {
        Leading {
            requested: self.requested.deep_view(),
            routed: self.routed.deep_view(),
            project: self.project@,
        }
    }
}

// ---- JSON ------------------------------------------------------------------------------------------

/// A JSON body after the rules.
pub struct Prepared {
    pub body: Vec<u8>,
    /// What the body holds, or null.
    pub value: Json,
    /// The reminder is part of it.
    pub guided: bool,
    /// Where it goes, where it names a model. A model in the body takes precedence over one
    /// in the URL.
    pub route: Option<Route>,
}

/// The view of a JSON body after the rules.
pub ghost struct Preparation {
    pub body: Seq<u8>,
    pub value: Tree,
    pub guided: bool,
    pub route: Option<Leading>,
}

impl DeepView for Prepared {
    type V = Preparation;

    open spec fn deep_view(&self) -> Preparation {
        Preparation {
            body: self.body@,
            value: self.value@,
            guided: self.guided,
            route: self.route.deep_view(),
        }
    }
}

/// Whether a value names a model.
pub open spec fn names_model(value: Tree) -> bool {
    value.has("model"@) || value.at("session"@).has("model"@)
}

/// What the rules make of a JSON body.
pub open spec fn prepared(rules: RuleBook, path: Seq<char>, body: Seq<u8>) -> Result<
    Preparation,
    Seq<char>,
> {
    match rewritten_body(rules, path, body) {
        Err(message) => Err(message),
        Ok((changed, key)) => {
            let value = match parsed(changed) {
                Ok(value) => value,
                Err(_) => Tree::Null,
            };
            Ok(
                Preparation {
                    body: changed,
                    value,
                    guided: carries(value),
                    route: if names_model(value) {
                        Some(
                            Leading {
                                requested: body_model(body),
                                routed: body_model(changed),
                                project: key,
                            },
                        )
                    } else {
                        None
                    },
                },
            )
        },
    }
}

/// Prepares a JSON body.
pub fn prepare_json(config: &Config, path: &str, body: Vec<u8>) -> (r: Result<Prepared, Error>)
    ensures
        outcome(r) == prepared(rules_of(*config), path@, body@),
{
    let requested = json_model(body.as_slice());
    let (changed, key) = rewrite(config, path, body)?;
    let value = match parse(changed.as_slice()) {
        Ok(value) => value,
        Err(_) => Json::Null,
    };
    let guided = present(&value);
    let route = if value.has("model") || value.at("session").has("model") {
        let routed = json_model(changed.as_slice());
        Some(Route { requested, routed, project: key })
    } else {
        None
    };
    Ok(Prepared { body: changed, value, guided, route })
}

/// Whether a prepared request is for Gemini.
pub open spec fn for_gemini(mode: Mode, value: Tree) -> bool {
    mode != Mode::Client && (value.at("model"@).text() matches Some(model)
        && "gemini/"@.is_prefix_of(model))
}

/// Whether a prepared request is for Gemini, which a client leaves to its host.
pub fn goes_to_gemini(mode: Mode, value: &Json) -> (r: bool)
    ensures
        r == for_gemini(mode, value@),
{
    mode != Mode::Client && (match value.at("model").as_str() {
        Some(model) => starts_with(model, "gemini/"),
        None => false,
    })
}

// ---- forms -----------------------------------------------------------------------------------------

/// A field of a form.
#[derive(Clone, Copy, Debug, PartialEq, Eq, Structural)]
pub enum Field {
    /// It names the model.
    Model,
    /// It is the session of a realtime request.
    Session,
    /// It is passed on as it is.
    Other,
}

/// What a field of a form is.
pub fn field_kind(path: &str, has_file_name: bool, name: Option<&str>) -> (r: Field)
    ensures
        r == (if !has_file_name && name.deep_view() == Some("model"@) {
            Field::Model
        } else if name.deep_view() == Some("session"@) && occurs("/realtime/"@, path@) {
            Field::Session
        } else {
            Field::Other
        }),
{
    match name {
        Some(name) => if !has_file_name && same(name, "model") {
            Field::Model
        } else if same(name, "session") && contains(path, "/realtime/") {
            Field::Session
        } else {
            Field::Other
        },
        None => Field::Other,
    }
}

/// A field after the rules.
pub struct PreparedField {
    pub bytes: Vec<u8>,
    pub changed: bool,
    pub route: Option<Route>,
}

/// The view of a field after the rules.
pub ghost struct FieldPreparation {
    pub bytes: Seq<u8>,
    pub changed: bool,
    pub route: Option<Leading>,
}

impl DeepView for PreparedField {
    type V = FieldPreparation;

    open spec fn deep_view(&self) -> FieldPreparation {
        FieldPreparation {
            bytes: self.bytes@,
            changed: self.changed,
            route: self.route.deep_view(),
        }
    }
}

/// What the rules make of a field that names the model.
pub open spec fn model_prepared(rules: RuleBook, path: Seq<char>, bytes: Seq<u8>) -> Result<
    FieldPreparation,
    Seq<char>,
> {
    if valid_utf8(bytes) {
        let model = decode_utf8(bytes);
        let (target, key) = routed_model(rules, path, model);
        let project = match key {
            Some(key) => key,
            None => rules.default,
        };
        Ok(
            FieldPreparation {
                bytes: match target {
                    Some(target) => encode_utf8(target),
                    None => bytes,
                },
                changed: target is Some,
                route: Some(
                    Leading {
                        requested: Some(model),
                        routed: Some(
                            match target {
                                Some(target) => target,
                                None => model,
                            },
                        ),
                        project,
                    },
                ),
            },
        )
    } else {
        Err(utf8_fault(bytes))
    }
}

/// Prepares a field that names the model.
pub fn prepare_model(config: &Config, path: &str, bytes: Vec<u8>) -> (r: Result<PreparedField, Error>)
    ensures
        outcome(r) == model_prepared(rules_of(*config), path@, bytes@),
{
    let model = match read_utf8(bytes.as_slice()) {
        Ok(model) => {
            proof {
                encode_utf8_decode_utf8(model@);
            }
            model.to_string()
        },
        Err(error) => return Err(error),
    };
    let (target, key) = route_model(config, path, model.as_str());
    let project = match key {
        Some(key) => key.to_string(),
        None => config.default.api_key.clone(),
    };
    match target {
        Some(target) => {
            let route = Route {
                requested: Some(model),
                routed: Some(target.to_string()),
                project,
            };
            Ok(
                PreparedField {
                    bytes: copy_bytes(target.as_bytes()),
                    changed: true,
                    route: Some(route),
                },
            )
        },
        None => {
            let routed = model.clone();
            let route = Route { requested: Some(model), routed: Some(routed), project };
            Ok(PreparedField { bytes, changed: false, route: Some(route) })
        },
    }
}

/// What the rules make of the session of a realtime request.
pub open spec fn session_prepared(rules: RuleBook, path: Seq<char>, bytes: Seq<u8>) -> Result<
    FieldPreparation,
    Seq<char>,
> {
    match rewritten_body(rules, path, bytes) {
        Err(message) => Err(message),
        Ok((changed, key)) => match parsed(changed) {
            Err(message) => Err(message),
            Ok(session) => Ok(
                FieldPreparation {
                    bytes: changed,
                    changed: changed != bytes,
                    route: if names_model(session) {
                        Some(
                            Leading {
                                requested: body_model(bytes),
                                routed: body_model(changed),
                                project: key,
                            },
                        )
                    } else {
                        None
                    },
                },
            ),
        },
    }
}

fn copy_bytes(bytes: &[u8]) -> (r: Vec<u8>)
    ensures
        r@ == bytes@,
{
    let mut out: Vec<u8> = Vec::new();
    out.extend_from_slice(bytes);
    proof {
        assert(out@ =~= bytes@);
    }
    out
}

fn same_bytes(a: &Vec<u8>, b: &Vec<u8>) -> (r: bool)
    ensures
        r == (a@ == b@),
{
    if a.len() != b.len() {
        return false;
    }
    let mut i: usize = 0;
    while i < a.len()
        invariant
            i <= a.len(),
            a.len() == b.len(),
            forall|k: int| 0 <= k < i ==> a@[k] == b@[k],
        decreases a.len() - i,
    {
        if a[i] != b[i] {
            return false;
        }
        i += 1;
    }
    proof {
        assert(a@ =~= b@);
    }
    true
}

/// Prepares the session of a realtime request.
pub fn prepare_session(config: &Config, path: &str, bytes: Vec<u8>) -> (r: Result<
    PreparedField,
    Error,
>)
    ensures
        outcome(r) == session_prepared(rules_of(*config), path@, bytes@),
{
    let given = copy_bytes(bytes.as_slice());
    let (changed, key) = rewrite(config, path, bytes)?;
    let session = parse(changed.as_slice())?;
    let route = if session.has("model") || session.at("session").has("model") {
        let requested = json_model(given.as_slice());
        let routed = json_model(changed.as_slice());
        Some(Route { requested, routed, project: key })
    } else {
        None
    };
    let differs = !same_bytes(&changed, &given);
    Ok(PreparedField { bytes: changed, changed: differs, route })
}

/// The boundary between the fields of a form, as its content type names it.
pub fn form_boundary(content_type: &str) -> (r: Result<String, Error>)
    ensures
        outcome(r) == boundary_named(content_type@),
{
    read_boundary(content_type)
}

/// The headers of a field, from `from` on.
pub open spec fn header_lines(headers: Seq<(Seq<char>, Seq<u8>)>, from: int, out: Seq<u8>) -> Seq<u8>
    decreases headers.len() - from,
{
    if from < 0 || from >= headers.len() {
        out
    } else {
        header_lines(
            headers,
            from + 1,
            out + encode_utf8(headers[from].0) + encode_utf8(": "@) + headers[from].1
                + encode_utf8("\r\n"@),
        )
    }
}

/// The views of headers.
pub open spec fn header_views(headers: Seq<(String, Vec<u8>)>) -> Seq<(Seq<char>, Seq<u8>)> {
    Seq::new(headers.len(), |i: int| (headers[i].0@, headers[i].1@))
}

/// The start of a field: the boundary, its headers and an empty line.
pub open spec fn field_head(boundary: Seq<char>, headers: Seq<(Seq<char>, Seq<u8>)>) -> Seq<u8> {
    header_lines(
        headers,
        0,
        encode_utf8("--"@) + encode_utf8(boundary) + encode_utf8("\r\n"@),
    ) + encode_utf8("\r\n"@)
}

/// The start of a field.
pub fn field_start(boundary: &str, headers: &Vec<(String, Vec<u8>)>) -> (r: Vec<u8>)
    ensures
        r@ == field_head(boundary@, header_views(headers@)),
{
    let mut out: Vec<u8> = Vec::new();
    out.extend_from_slice("--".as_bytes());
    out.extend_from_slice(boundary.as_bytes());
    out.extend_from_slice("\r\n".as_bytes());
    let ghost start = encode_utf8("--"@) + encode_utf8(boundary@) + encode_utf8("\r\n"@);
    proof {
        assert(out@ =~= start);
    }
    let mut i: usize = 0;
    while i < headers.len()
        invariant
            i <= headers.len(),
            header_lines(header_views(headers@), 0, start) == header_lines(
                header_views(headers@),
                i as int,
                out@,
            ),
        decreases headers.len() - i,
    {
        let ghost before = out@;
        out.extend_from_slice(headers[i].0.as_str().as_bytes());
        out.extend_from_slice(": ".as_bytes());
        out.extend_from_slice(headers[i].1.as_slice());
        out.extend_from_slice("\r\n".as_bytes());
        proof {
            let header = header_views(headers@)[i as int];
            assert(out@ =~= before + encode_utf8(header.0) + encode_utf8(": "@) + header.1
                + encode_utf8("\r\n"@));
        }
        i += 1;
    }
    let ghost before = out@;
    out.extend_from_slice("\r\n".as_bytes());
    proof {
        assert(out@ =~= before + encode_utf8("\r\n"@));
    }
    out
}

/// The end of a form.
pub fn form_end(boundary: &str) -> (r: Vec<u8>)
    ensures
        r@ == encode_utf8("--"@) + encode_utf8(boundary@) + encode_utf8("--\r\n"@),
{
    let mut out: Vec<u8> = Vec::new();
    out.extend_from_slice("--".as_bytes());
    out.extend_from_slice(boundary.as_bytes());
    out.extend_from_slice("--\r\n".as_bytes());
    proof {
        assert(out@ =~= encode_utf8("--"@) + encode_utf8(boundary@) + encode_utf8("--\r\n"@));
    }
    out
}

} // verus!

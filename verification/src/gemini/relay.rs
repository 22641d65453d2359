//! The relay of native streams, and the routing of native requests.

use vstd::prelude::*;
use crate::config::{Alias, AliasView, alias_views};
use crate::error::{outcome, Error};
use crate::exchange::{to_text, written};
use crate::gemini::conversation::extend;
use crate::gemini::flow::Flow;
use crate::gemini::provider::{endpoint_of, ProviderConfig};
use crate::gemini::replay::ReasoningCodec;
use crate::gemini::stream::ResponseStream;
use crate::outside::{
    form_parsed, form_written, fresh_nonce, now_seconds, pair_views, parse_form, parse_url,
    url_parsed, write_form,
};
use crate::sse::{native_decoded, NativeSse, Scan};
use crate::text::{
    after, contains, has_char, join2, join3, parted, pieces, same, split, split_once, starts_with,
    strip_prefix, texts, trim_end, trimmed_end, chars_of, text_of,
};
use crate::tree::{json_views, trees, Json, Tree};

verus! {

broadcast use json_views;

/// How large a native response may be.
pub const MAX_NATIVE_RESPONSE: usize = 67108864;

/// The frame of an event.
pub open spec fn framed(event: Tree) -> Seq<char> {
    "event: "@ + (match event.at("type"@).text() {
        Some(kind) => kind,
        None => "error"@,
    }) + "\ndata: "@ + written(event) + "\n\n"@
}

/// The frame of an event.
pub fn sse_bytes(event: &Json) -> (r: String)
    ensures
        r@ == framed(event@),
{
    let kind = match event.at("type").as_str() {
        Some(kind) => kind,
        None => "error",
    };
    let text = to_text(event);
    crate::text::join5("event: ", kind, "\ndata: ", text.as_str(), "\n\n")
}

/// A native stream on its way to a client.
pub struct StreamRelay {
    pub parser: NativeSse,
    pub converter: ResponseStream,
    pub received: usize,
}

/// The converter after the native chunks from `from` on, and the events to send.
pub open spec fn chunks_fed(flow: Flow, chunks: Seq<Tree>, from: int, events: Seq<Tree>) -> (
    Flow,
    Result<Seq<Tree>, Seq<char>>,
)
    decreases chunks.len() - from,
{
    if from < 0 || from >= chunks.len() {
        (flow, Ok(events))
    } else {
        let (next, more) = flow.fed(chunks[from]);
        match more {
            Err(message) => (next, Err(message)),
            Ok(more) => if next.ended {
                (next, Ok(events + more))
            } else {
                chunks_fed(next, chunks, from + 1, events + more)
            },
        }
    }
}

/// What a piece of a native stream leaves: the scan, the converter, the bytes received,
/// and the events to send or why there are none.
pub open spec fn relayed(
    scan: Scan,
    flow: Flow,
    received: usize,
    bytes: Seq<u8>,
    eof: bool,
    key: Seq<u8>,
    created_at: u64,
    nonce: Seq<u8>,
) -> (Scan, Flow, usize, Result<Seq<Tree>, Seq<char>>) {
    let total = if received + bytes.len() > usize::MAX {
        usize::MAX
    } else {
        (received + bytes.len()) as usize
    };
    if total > MAX_NATIVE_RESPONSE {
        (scan, flow, total, Err("Gemini stream exceeds 64 MiB"@))
    } else {
        let found = native_decoded(scan, bytes, eof);
        match found.fault {
            Some(message) => (found.scan, flow, total, Err(message)),
            None => {
                let (next, events) = chunks_fed(flow, found.events, 0, Seq::empty());
                match events {
                    Err(message) => (found.scan, next, total, Err(message)),
                    Ok(events) => if eof && !next.ended {
                        let (last, more) = next.finished(key, created_at, nonce);
                        (
                            found.scan,
                            last,
                            total,
                            match more {
                                Err(message) => Err(message),
                                Ok(more) => Ok(events + more),
                            },
                        )
                    } else {
                        (found.scan, next, total, Ok(events))
                    },
                }
            },
        }
    }
}

impl StreamRelay {
    /// The parts are within their bounds.
    pub open spec fn wf(&self) -> bool {
        self.parser.wf() && self.converter.wf()
    }

    pub fn new(converter: ResponseStream) -> (r: StreamRelay)
        requires
            converter.wf(),
        ensures
            r.wf(),
            r.parser.scanner@ == crate::sse::start(),
            r.converter == converter,
            r.received == 0,
    {
        StreamRelay { parser: NativeSse::new(), converter, received: 0 }
    }

    fn feed_chunks(&mut self, chunks: &Vec<Json>) -> (r: Result<Vec<Json>, Error>)
        requires
            old(self).wf(),
        ensures
            (final(self).converter@, outcome(r)) == chunks_fed(
                old(self).converter@,
                trees(chunks@),
                0,
                Seq::empty(),
            ),
            final(self).parser == old(self).parser,
            final(self).received == old(self).received,
            final(self).wf(),
    {
        let mut events: Vec<Json> = Vec::new();
        proof {
            assert(trees(events@) =~= Seq::<Tree>::empty());
        }
        let ghost whole = chunks_fed(self.converter@, trees(chunks@), 0, Seq::empty());
        let mut i: usize = 0;
        while i < chunks.len()
            invariant
                i <= chunks.len(),
                self.wf(),
                self.parser == old(self).parser,
                self.received == old(self).received,
                whole == chunks_fed(
                    old(self).converter@,
                    trees(chunks@),
                    0,
                    Seq::empty(),
                ),
                whole == chunks_fed(
                    self.converter@,
                    trees(chunks@),
                    i as int,
                    trees(events@),
                ),
            decreases chunks.len() - i,
        {
            let more = self.converter.feed(&chunks[i])?;
            extend(&mut events, more);
            if self.converter.is_finished() {
                return Ok(events);
            }
            i += 1;
        }
        Ok(events)
    }

    /// Takes a piece of the native stream at a given time, and gives the events to send; a
    /// turn that ends is sealed under a given nonce.
    pub fn feed_at(
        &mut self,
        bytes: &[u8],
        eof: bool,
        codec: &ReasoningCodec,
        created_at: u64,
        nonce: &[u8; 12],
    ) -> (r: Result<Vec<Json>, Error>)
        requires
            old(self).wf(),
        ensures
            (
                final(self).parser.scanner@,
                final(self).converter@,
                final(self).received,
                outcome(r),
            ) == relayed(
                old(self).parser.scanner@,
                old(self).converter@,
                old(self).received,
                bytes@,
                eof,
                codec.key@,
                created_at,
                nonce@,
            ),
            final(self).wf(),
    {
        self.received = if bytes.len() > usize::MAX - self.received {
            usize::MAX
        } else {
            self.received + bytes.len()
        };
        if self.received > MAX_NATIVE_RESPONSE {
            return Err(Error::new("Gemini stream exceeds 64 MiB"));
        }
        let chunks = self.parser.feed(bytes, eof)?;
        let mut events = self.feed_chunks(&chunks)?;
        if eof && !self.converter.is_finished() {
            let more = self.converter.finish_at(codec, created_at, nonce)?;
            extend(&mut events, more);
        }
        Ok(events)
    }

    /// Takes a piece of the native stream, and gives the events to send. Whatever the time
    /// and the nonce, the result is the one that they give.
    pub fn feed(&mut self, bytes: &[u8], eof: bool, codec: &ReasoningCodec) -> (r: Result<
        Vec<Json>,
        Error,
    >)
        requires
            old(self).wf(),
        ensures
            exists|created_at: u64, nonce: Seq<u8>|
                nonce.len() == 12 && (
                    final(self).parser.scanner@,
                    final(self).converter@,
                    final(self).received,
                    outcome(r),
                ) == #[trigger] relayed(
                    old(self).parser.scanner@,
                    old(self).converter@,
                    old(self).received,
                    bytes@,
                    eof,
                    codec.key@,
                    created_at,
                    nonce,
                ),
            final(self).wf(),
    {
        let created_at = now_seconds();
        let nonce = fresh_nonce();
        self.feed_at(bytes, eof, codec, created_at, &nonce)
    }
}

/// What a client is told of a conversion that failed: the names of tools, which the model
/// provides, are left out.
pub open spec fn told_cause(cause: Seq<char>) -> Seq<char> {
    if "Gemini called undeclared tool "@.is_prefix_of(cause) {
        "Gemini called an undeclared tool"@
    } else {
        cause
    }
}

/// What a client is told of a conversion that failed.
pub fn tell_cause(cause: &str) -> (r: String)
    ensures
        r@ == told_cause(cause@),
{
    if starts_with(cause, "Gemini called undeclared tool ") {
        "Gemini called an undeclared tool".to_string()
    } else {
        cause.to_string()
    }
}

/// The message with which a stream ends whose conversion failed.
pub fn conversion_failure(cause: &str) -> (r: String)
    ensures
        r@ == "Gemini stream conversion failed: "@ + told_cause(cause@) + "; retry the request"@,
{
    let told = tell_cause(cause);
    join3("Gemini stream conversion failed: ", told.as_str(), "; retry the request")
}

// ---- native requests -------------------------------------------------------------------

/// Whether a path belongs to the native API.
pub open spec fn native(path: Seq<char>) -> bool {
    path == "/v1beta"@ || "/v1beta/"@.is_prefix_of(path) || "/v1/projects/"@.is_prefix_of(path)
        || "/v1beta1/"@.is_prefix_of(path) || ("/v1/models/"@.is_prefix_of(path) && path.contains(
        ':',
    ))
}

/// Whether a path belongs to the native API.
pub fn native_path(path: &str) -> (r: bool)
    ensures
        r == native(path@),
{
    same(path, "/v1beta") || starts_with(path, "/v1beta/") || starts_with(path, "/v1/projects/")
        || starts_with(path, "/v1beta1/") || (starts_with(path, "/v1/models/") && has_char(
        path,
        ':',
    ))
}

/// The first place of one text in another, at or after `from`.
pub open spec fn found_at(hay: Seq<char>, needle: Seq<char>, from: int) -> Option<int>
    decreases hay.len() + 1 - from,
{
    if from < 0 || from + needle.len() > hay.len() {
        None
    } else if hay.subrange(from, from + needle.len()) == needle {
        Some(from)
    } else {
        found_at(hay, needle, from + 1)
    }
}

/// What follows the first place of one text in another.
pub open spec fn behind(hay: Seq<char>, needle: Seq<char>) -> Option<Seq<char>> {
    match found_at(hay, needle, 0) {
        Some(i) => Some(hay.subrange(i + needle.len(), hay.len() as int)),
        None => None,
    }
}

fn find_behind(hay: &str, needle: &str) -> (r: Option<String>)
    ensures
        r.deep_view() == behind(hay@, needle@),
{
    let h = chars_of(hay);
    let n = chars_of(needle);
    let mut i: usize = 0;
    while i <= h.len() && n.len() <= h.len() - i
        invariant
            h@ == hay@,
            n@ == needle@,
            i <= h.len() + 1,
            found_at(hay@, needle@, 0) == found_at(hay@, needle@, i as int),
        decreases h.len() + 1 - i,
    {
        let piece = text_of(&h, i, i + n.len());
        if same(piece.as_str(), needle) {
            return Some(text_of(&h, i + n.len(), h.len()));
        }
        if i == h.len() {
            proof {
                assert(found_at(hay@, needle@, i + 1) is None);
            }
            return None;
        }
        i += 1;
    }
    None
}

/// A native path below the root that is configured: the root may be that of an API version
/// or a complete publisher's, and full resource paths remain valid.
pub open spec fn relative_path(base: Seq<char>, incoming: Seq<char>) -> Option<Seq<char>> {
    let own = match after(incoming, base) {
        Some(rest) => if base.len() > 0 && "/"@.is_prefix_of(rest) {
            Some(rest)
        } else {
            None
        },
        None => None,
    };
    match own {
        Some(rest) => Some(rest),
        None => match behind(incoming, "/models/"@) {
            Some(rest) => Some("/models/"@ + rest),
            None => after(incoming, "/v1beta"@),
        },
    }
}

/// A native path below the root that is configured, where it lies there.
pub fn native_relative(base: &str, incoming: &str) -> (r: Option<String>)
    ensures
        r.deep_view() == relative_path(base@, incoming@),
{
    match strip_prefix(incoming, base) {
        Some(rest) => if !base.is_empty() && starts_with(rest, "/") {
            return Some(rest.to_string());
        },
        None => {},
    }
    match find_behind(incoming, "/models/") {
        Some(rest) => Some(join2("/models/", rest.as_str())),
        None => match strip_prefix(incoming, "/v1beta") {
            Some(rest) => Some(rest.to_string()),
            None => None,
        },
    }
}

/// The path under which native requests stand: that of the provider's URL.
pub fn native_base(config: &ProviderConfig) -> (r: Result<String, Error>)
    ensures
        outcome(r) == (match url_parsed(config.upstream_url@) {
            Err(_) => Err::<Seq<char>, Seq<char>>("Invalid Gemini root"@),
            Ok(url) => Ok(trimmed_end(url.path, '/')),
        }),
{
    match parse_url(config.upstream_url.as_str()) {
        Ok(url) => Ok(trim_end(url.path.as_str(), '/').to_string()),
        Err(_) => Err(Error::new("Invalid Gemini root")),
    }
}

/// The first unscoped alias of a native model at or after `from`.
pub open spec fn native_alias(aliases: Seq<AliasView>, model: Seq<char>, from: int) -> Option<
    AliasView,
>
    decreases aliases.len() - from,
{
    if from < 0 || from >= aliases.len() {
        None
    } else if aliases[from].api_shape is None && (aliases[from].from == model || aliases[from].from
        == "models/"@ + model) {
        Some(aliases[from])
    } else {
        native_alias(aliases, model, from + 1)
    }
}

/// The unscoped alias of a native model.
pub fn find_native_alias<'a>(aliases: &'a Vec<Alias>, model: &str) -> (r: Option<&'a Alias>)
    ensures
        r.deep_view() == native_alias(alias_views(aliases@), model@, 0),
{
    let listed = join2("models/", model);
    let mut i: usize = 0;
    while i < aliases.len()
        invariant
            i <= aliases.len(),
            listed@ == "models/"@ + model@,
            native_alias(alias_views(aliases@), model@, 0) == native_alias(
                alias_views(aliases@),
                model@,
                i as int,
            ),
        decreases aliases.len() - i,
    {
        if aliases[i].api_shape.is_none() && (same(aliases[i].from.as_str(), model) || same(
            aliases[i].from.as_str(),
            listed.as_str(),
        )) {
            return Some(&aliases[i]);
        }
        i += 1;
    }
    None
}

/// A native request after the rules.
pub struct NativeRoute {
    pub path: String,
    /// The model that was asked for and the model that is used, where the path names one.
    pub models: Option<(String, String)>,
}

/// The view of a native request after the rules.
pub ghost struct NativeWay {
    pub path: Seq<char>,
    pub models: Option<(Seq<char>, Seq<char>)>,
}

impl DeepView for NativeRoute {
    type V = NativeWay;

    open spec fn deep_view(&self) -> NativeWay {
        NativeWay { path: self.path@, models: self.models.deep_view() }
    }
}

/// The model and the rest of a resource.
pub open spec fn resource_parts(resource: Seq<char>) -> (Seq<char>, Seq<char>) {
    match parted(resource, ':') {
        Some((model, method)) => (model, ":"@ + method),
        None => (resource, Seq::empty()),
    }
}

/// The rest of a path behind `/models/`, however often it starts with that.
pub open spec fn behind_models(path: Seq<char>) -> Seq<char>
    decreases path.len(),
    via behind_models_ends
{
    match after(path, "/models/"@) {
        Some(rest) => behind_models(rest),
        None => path,
    }
}

#[via_fn]
proof fn behind_models_ends(path: Seq<char>) {
    reveal_strlit("/models/");
}

/// The model that a path names, for the record.
pub open spec fn recorded_model(path: Seq<char>) -> Seq<char> {
    "gemini/"@ + pieces(behind_models(path), ':', 0)[0]
}

fn record_model(path: &str) -> (r: String)
    ensures
        r@ == recorded_model(path@),
{
    let mut rest = path;
    loop
        invariant
            behind_models(path@) == behind_models(rest@),
        ensures
            behind_models(path@) == rest@,
        decreases rest@.len(),
    {
        proof {
            reveal_strlit("/models/");
        }
        match strip_prefix(rest, "/models/") {
            Some(shorter) => {
                rest = shorter;
            },
            None => {
                break;
            },
        }
    }
    let parts = split(rest, ':');
    proof {
        assert(texts(parts@).len() == parts.len());
        assert(texts(parts@)[0] == parts@[0]@);
    }
    join2("gemini/", parts[0].as_str())
}

/// The path of a native request after the rules.
pub open spec fn native_routed(aliases: Seq<AliasView>, url: Seq<char>, relative: Seq<char>) -> Result<
    NativeWay,
    Seq<char>,
> {
    match after(relative, "/models/"@) {
        None => Ok(NativeWay { path: relative, models: None }),
        Some(resource) => {
            let (model, suffix) = resource_parts(resource);
            let to = match native_alias(aliases, model, 0) {
                Some(alias) => alias.to,
                None => None,
            };
            match to {
                None => Ok(
                    NativeWay {
                        path: relative,
                        models: Some(("gemini/"@ + model, recorded_model(relative))),
                    },
                ),
                Some(target) => match after(target, "gemini/"@) {
                    None => Err(
                        "Native Gemini cross-provider rewrites require a gemini/model target"@,
                    ),
                    Some(own) => {
                        let bare = match after(own, "models/"@) {
                            Some(bare) => bare,
                            None => own,
                        };
                        if endpoint_of(url, bare, false) is Err {
                            Err("Invalid native Gemini alias target"@)
                        } else {
                            Ok(
                                NativeWay {
                                    path: "/models/"@ + bare + suffix,
                                    models: Some(
                                        (
                                            "gemini/"@ + model,
                                            recorded_model("/models/"@ + bare + suffix),
                                        ),
                                    ),
                                },
                            )
                        }
                    },
                },
            }
        },
    }
}

/// Applies the rules to the path of a native request.
pub fn route_native(aliases: &Vec<Alias>, config: &ProviderConfig, relative: &str) -> (r: Result<
    NativeRoute,
    Error,
>)
    ensures
        outcome(r) == native_routed(
            alias_views(aliases@),
            config.upstream_url@,
            relative@,
        ),
{
    let resource = match strip_prefix(relative, "/models/") {
        Some(resource) => resource,
        None => return Ok(NativeRoute { path: relative.to_string(), models: None }),
    };
    let (model, suffix) = match split_once(resource, ':') {
        Some((model, method)) => (model, join2(":", method)),
        None => (resource, String::new()),
    };
    let target = match find_native_alias(aliases, model) {
        Some(alias) => match &alias.to {
            Some(target) => target.as_str(),
            None => {
                return Ok(
                    NativeRoute {
                        path: relative.to_string(),
                        models: Some((join2("gemini/", model), record_model(relative))),
                    },
                );
            },
        },
        None => {
            return Ok(
                NativeRoute {
                    path: relative.to_string(),
                    models: Some((join2("gemini/", model), record_model(relative))),
                },
            );
        },
    };
    let own = match strip_prefix(target, "gemini/") {
        Some(own) => own,
        None => {
            return Err(
                Error::new("Native Gemini cross-provider rewrites require a gemini/model target"),
            );
        },
    };
    let bare = match strip_prefix(own, "models/") {
        Some(bare) => bare,
        None => own,
    };
    if config.endpoint(bare, false).is_err() {
        return Err(Error::new("Invalid native Gemini alias target"));
    }
    let path = join3("/models/", bare, suffix.as_str());
    let used = record_model(path.as_str());
    Ok(NativeRoute { path, models: Some((join2("gemini/", model), used)) })
}

/// The pairs of a query from `from` on that carry no credential.
pub open spec fn keyless_pairs(
    pairs: Seq<(Seq<char>, Seq<char>)>,
    from: int,
    kept: Seq<(Seq<char>, Seq<char>)>,
) -> Seq<(Seq<char>, Seq<char>)>
    decreases pairs.len() - from,
{
    if from < 0 || from >= pairs.len() {
        kept
    } else if pairs[from].0 == "key"@ || pairs[from].0 == "access_token"@ {
        keyless_pairs(pairs, from + 1, kept)
    } else {
        keyless_pairs(pairs, from + 1, kept.push(pairs[from]))
    }
}

/// The pairs that carry no credential of the client.
pub fn strip_credentials(pairs: Vec<(String, String)>) -> (r: Vec<(String, String)>)
    ensures
        pair_views(r@) == keyless_pairs(pair_views(pairs@), 0, Seq::empty()),
{
    let mut kept: Vec<(String, String)> = Vec::new();
    let mut i: usize = 0;
    proof {
        assert(pair_views(kept@) =~= Seq::empty());
    }
    while i < pairs.len()
        invariant
            i <= pairs.len(),
            keyless_pairs(pair_views(pairs@), 0, Seq::empty()) == keyless_pairs(
                pair_views(pairs@),
                i as int,
                pair_views(kept@),
            ),
        decreases pairs.len() - i,
    {
        let name = pairs[i].0.as_str();
        if !same(name, "key") && !same(name, "access_token") {
            let ghost before = pair_views(kept@);
            kept.push((pairs[i].0.clone(), pairs[i].1.clone()));
            proof {
                assert(pair_views(kept@) =~= before.push(pair_views(pairs@)[i as int]));
            }
        }
        i += 1;
    }
    kept
}

/// A native query without the credentials of the client.
pub fn native_query(query: &str) -> (r: String)
    ensures
        r@ == form_written(keyless_pairs(form_parsed(query@), 0, Seq::empty())),
{
    let pairs = strip_credentials(parse_form(query));
    write_form(&pairs)
}

/// The URL of a native request.
pub fn native_url(config: &ProviderConfig, path: &str, query: &str) -> (r: String)
    ensures
        r@ == trimmed_end(config.upstream_url@, '/') + path@ + (if query@.len() == 0 {
            Seq::empty()
        } else {
            "?"@ + query@
        }),
{
    let root = trim_end(config.upstream_url.as_str(), '/');
    let url = join2(root, path);
    if query.is_empty() {
        proof {
            assert(url@ + Seq::<char>::empty() =~= url@);
        }
        return url;
    }
    let tail = join2("?", query);
    join2(url.as_str(), tail.as_str())
}

} // verus!

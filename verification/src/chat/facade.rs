//! Chat completions served through Responses: what is accepted, what is sent, and what is
//! answered.

use vstd::prelude::*;
use crate::answers::{refuse, refused, Refusal, Refused};
use crate::chat::request::{chat_converted, convert, Converted, ConvertedView};
use crate::chat::response::{completion, completion_of, failure, failure_of};
use crate::config::{alias_views, shape_fits, Alias, AliasView, Config};
use crate::exchange::{parse, parsed};
use crate::gemini::replay::ReasoningCodec;
use crate::routing::{rewrite, rewritten_body, rules_of, RuleBook};
use crate::tree::{json_views, Json, Tree};

verus! {

broadcast use json_views;

/// Why a request is refused before its body is read.
pub open spec fn entry_refusal(post: bool, has_query: bool, encoded: bool) -> Option<Refused> {
    if !post {
        Some(refused(405, ""@))
    } else if has_query {
        Some(refused(400, "Custom Chat Completions does not accept query parameters"@))
    } else if encoded {
        Some(refused(415, "Custom Chat Completions requires uncompressed JSON"@))
    } else {
        None
    }
}

/// Why a request is refused before its body is read.
pub fn refuses_entry(post: bool, has_query: bool, encoded: bool) -> (r: Option<Refusal>)
    ensures
        r.deep_view() == entry_refusal(post, has_query, encoded),
{
    if !post {
        Some(refuse(405, ""))
    } else if has_query {
        Some(refuse(400, "Custom Chat Completions does not accept query parameters"))
    } else if encoded {
        Some(refuse(415, "Custom Chat Completions requires uncompressed JSON"))
    } else {
        None
    }
}

/// The aliases from `from` on that apply to a path, as aliases for all requests.
pub open spec fn scoped_aliases(aliases: Seq<AliasView>, path: Seq<char>, from: int, kept: Seq<
    AliasView,
>) -> Seq<AliasView>
    decreases aliases.len() - from,
{
    if from < 0 || from >= aliases.len() {
        kept
    } else {
        scoped_aliases(
            aliases,
            path,
            from + 1,
            if shape_fits(aliases[from].api_shape, path) {
                kept.push(AliasView { api_shape: None, ..aliases[from] })
            } else {
                kept
            },
        )
    }
}

/// The configuration of one request: the aliases that apply to the path that the client
/// used, before it is translated. Models that are tried later stay on that kind of request,
/// and no alias is applied twice.
pub fn scope(config: Config, path: &str) -> (r: Config)
    ensures
        r == (Config { aliases: r.aliases, ..config }),
        alias_views(r.aliases@) == scoped_aliases(
            alias_views(config.aliases@),
            path@,
            0,
            Seq::empty(),
        ),
{
    let mut config = config;
    let mut aliases: Vec<Alias> = Vec::new();
    std::mem::swap(&mut aliases, &mut config.aliases);
    let ghost given = alias_views(aliases@);
    let ghost whole = scoped_aliases(given, path@, 0, Seq::empty());
    let mut kept: Vec<Alias> = Vec::new();
    proof {
        assert(alias_views(kept@) =~= Seq::empty());
    }
    let count = aliases.len();
    let mut i: usize = 0;
    while i < count
        invariant
            i <= count,
            given.len() == count,
            alias_views(aliases@) == given.subrange(i as int, count as int),
            whole == scoped_aliases(given, path@, i as int, alias_views(kept@)),
        decreases count - i,
    {
        proof {
            assert(alias_views(aliases@).len() == count - i);
            assert(alias_views(aliases@)[0] == given[i as int]);
        }
        let ghost held = aliases@;
        let mut alias = aliases.remove(0);
        proof {
            assert(alias.deep_view() == given[i as int]);
            assert(aliases@ =~= held.subrange(1, held.len() as int));
            assert forall|k: int| 0 <= k < aliases@.len() implies alias_views(aliases@)[k]
                == given.subrange(i + 1, count as int)[k] by {
                assert(alias_views(held)[k + 1] == given.subrange(i as int, count as int)[k + 1]);
            }
            assert(alias_views(aliases@) =~= given.subrange(i + 1, count as int));
        }
        if alias.matches_shape(path) {
            let ghost before = alias_views(kept@);
            alias.api_shape = None;
            kept.push(alias);
            proof {
                assert(alias_views(kept@) =~= before.push(
                    AliasView { api_shape: None, ..given[i as int] },
                ));
            }
        }
        i += 1;
    }
    config.aliases = kept;
    config
}

/// A chat request as it is sent on.
pub struct Translated {
    pub converted: Converted,
    /// The model that the client asked for.
    pub requested_model: String,
}

/// The model that a value names, or none.
pub open spec fn model_text(value: Tree) -> Seq<char> {
    match value.at("model"@).text() {
        Some(model) => model,
        None => ""@,
    }
}

fn read_model(value: &Json) -> (r: String)
    ensures
        r@ == model_text(value@),
{
    match value.at("model").as_str() {
        Some(model) => model.to_string(),
        None => "".to_string(),
    }
}

/// What a chat request is translated to, and the model that was asked for, or why it is
/// refused.
pub open spec fn translation(rules: RuleBook, path: Seq<char>, body: Seq<u8>, key: Seq<u8>) -> Result<
    (ConvertedView, Seq<char>),
    Refused,
> {
    match parsed(body) {
        Err(_) => Err(refused(400, "Request body must be valid JSON"@)),
        Ok(input) => match rewritten_body(rules, path, body) {
            Err(message) => Err(refused(400, message)),
            Ok((changed, _)) => {
                let routed = match parsed(changed) {
                    Ok(value) => value,
                    Err(_) => Tree::Null,
                };
                match chat_converted(input, model_text(routed), key) {
                    Ok(converted) => Ok((converted, model_text(input))),
                    Err(message) => Err(refused(400, message)),
                }
            },
        },
    }
}

fn copy_bytes(bytes: &Vec<u8>) -> (r: Vec<u8>)
    ensures
        r@ == bytes@,
{
    let mut out: Vec<u8> = Vec::new();
    out.extend_from_slice(bytes.as_slice());
    proof {
        assert(out@ =~= bytes@);
    }
    out
}

/// Translates a chat request, under the configuration of that request.
pub fn translate(config: &Config, path: &str, body: &Vec<u8>, codec: &ReasoningCodec) -> (r: Result<
    Translated,
    Refusal,
>)
    ensures
        match r {
            Ok(done) => translation(rules_of(*config), path@, body@, codec.key@) == Ok::<
                (ConvertedView, Seq<char>),
                Refused,
            >((done.converted.deep_view(), done.requested_model@)),
            Err(refusal) => translation(rules_of(*config), path@, body@, codec.key@) == Err::<
                (ConvertedView, Seq<char>),
                Refused,
            >(refusal.deep_view()),
        },
{
    let input = match parse(body.as_slice()) {
        Ok(input) => input,
        Err(_) => return Err(refuse(400, "Request body must be valid JSON")),
    };
    let changed = match rewrite(config, path, copy_bytes(body)) {
        Ok((changed, _)) => changed,
        Err(error) => return Err(Refusal { status: 400, message: error.message }),
    };
    let routed = match parse(changed.as_slice()) {
        Ok(value) => value,
        Err(_) => Json::Null,
    };
    let model = read_model(&routed);
    match convert(&input, model.as_str(), codec) {
        Ok(converted) => Ok(Translated { converted, requested_model: read_model(&input) }),
        Err(error) => Err(Refusal { status: 400, message: error.message }),
    }
}

/// What is answered to a chat request that is not streamed: a completion, a failure that
/// the reply told, or a refusal.
pub enum Answer {
    Completion(Json),
    Failed(Json),
    Refused(Refusal),
}

/// The view of an answer.
pub ghost enum AnswerView {
    Completion(Tree),
    Failed(Tree),
    Refused(Refused),
}

impl DeepView for Answer {
    type V = AnswerView;

    open spec fn deep_view(&self) -> AnswerView {
        match *self {
            Answer::Completion(value) => AnswerView::Completion(value@),
            Answer::Failed(value) => AnswerView::Failed(value@),
            Answer::Refused(refusal) => AnswerView::Refused(refusal.deep_view()),
        }
    }
}

/// What is answered to a Responses reply.
pub open spec fn answer_of(body: Option<Seq<u8>>, model: Seq<char>, exclude_reasoning: bool) -> AnswerView {
    let unread = AnswerView::Refused(
        refused(502, "Could not read a valid Responses reply within 64 MiB"@),
    );
    match body {
        None => unread,
        Some(body) => match parsed(body) {
            Err(_) => unread,
            Ok(value) => match failure_of(value) {
                Some(failed) => AnswerView::Failed(failed),
                None => match completion_of(value, model, exclude_reasoning) {
                    Ok(done) => AnswerView::Completion(done),
                    Err(message) => AnswerView::Refused(refused(502, message)),
                },
            },
        },
    }
}

/// What is answered to a Responses reply, given its value.
pub fn answer_value(value: &Json, model: &str, exclude_reasoning: bool) -> (r: Answer)
    ensures
        r.deep_view() == (match failure_of(value@) {
            Some(failed) => AnswerView::Failed(failed),
            None => match completion_of(value@, model@, exclude_reasoning) {
                Ok(done) => AnswerView::Completion(done),
                Err(message) => AnswerView::Refused(refused(502, message)),
            },
        }),
{
    match failure(value) {
        Some(failed) => Answer::Failed(failed),
        None => match completion(value, model, exclude_reasoning) {
            Ok(done) => Answer::Completion(done),
            Err(error) => Answer::Refused(Refusal { status: 502, message: error.message }),
        },
    }
}

/// What is answered to a Responses reply, where all of it could be read.
pub fn answer(body: Option<&Vec<u8>>, model: &str, exclude_reasoning: bool) -> (r: Answer)
    ensures
        r.deep_view() == answer_of(
            match body {
                Some(body) => Some(body@),
                None => None,
            },
            model@,
            exclude_reasoning,
        ),
{
    match body {
        Some(body) => match parse(body.as_slice()) {
            Ok(value) => answer_value(&value, model, exclude_reasoning),
            Err(_) => Answer::Refused(
                refuse(502, "Could not read a valid Responses reply within 64 MiB"),
            ),
        },
        None => Answer::Refused(
            refuse(502, "Could not read a valid Responses reply within 64 MiB"),
        ),
    }
}

// ---- laws --------------------------------------------------------------------------------------------

proof fn scoping_finds(aliases: Seq<AliasView>, path: Seq<char>, from: int, kept: Seq<AliasView>)
    requires
        0 <= from,
        forall|i: int| 0 <= i < kept.len() ==> (#[trigger] kept[i]).api_shape is None,
    ensures
        forall|i: int|
            0 <= i < scoped_aliases(aliases, path, from, kept).len() ==> (
            #[trigger] scoped_aliases(aliases, path, from, kept)[i]).api_shape is None,
    decreases aliases.len() - from,
{
    if from < aliases.len() {
        let next = if shape_fits(aliases[from].api_shape, path) {
            kept.push(AliasView { api_shape: None, ..aliases[from] })
        } else {
            kept
        };
        assert forall|i: int| 0 <= i < next.len() implies (#[trigger] next[i]).api_shape is None by {
            if i < kept.len() {
                assert(next[i] == kept[i]);
            }
        }
        scoping_finds(aliases, path, from + 1, next);
        assert(scoped_aliases(aliases, path, from, kept) == scoped_aliases(
            aliases,
            path,
            from + 1,
            next,
        ));
    }
}

/// The aliases of a request apply whatever path it takes from there: none of them is
/// limited to a kind of request any more.
pub proof fn scoped_aliases_always_apply(aliases: Seq<AliasView>, path: Seq<char>, later: Seq<char>)
    ensures
        ({
            let scoped = scoped_aliases(aliases, path, 0, Seq::empty());
            forall|i: int|
                0 <= i < scoped.len() ==> shape_fits((#[trigger] scoped[i]).api_shape, later)
        }),
{
    scoping_finds(aliases, path, 0, Seq::empty());
}

} // verus!

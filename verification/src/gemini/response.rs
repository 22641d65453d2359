//! Native responses as Responses. Native parts and metadata remain available; the
//! authenticated reasoning item carries the model turn for stateless replay.

use vstd::prelude::*;
use vstd::string::StringExecFns;
use vstd::utf8::encode_utf8;
use crate::error::{outcome, Error};
use crate::exchange::{parse, parsed, readable, settled, to_text, written};
use crate::gemini::conversation::{extend, list_of};
use crate::gemini::error::{native_error, ResponseError};
use crate::gemini::parts::empty_object;
use crate::gemini::replay::{carrier, copy_all, opened, ReasoningCodec, sealable};
use crate::gemini::request::{Converted, ConvertedRequest};
use crate::gemini::tools::{Tool, ToolView};
use crate::gemini::validate::{response, response_check};
use crate::outside::{fresh_nonce, now_seconds, schema_accepts, schema_admits};
use crate::table::{entries, find, get_entry};
use crate::text::{decimal, join2, join4, number_text, same};
use crate::tree::{json_views, trees, Json, NumberView, Tree};

verus! {

broadcast use json_views;

/// A natural number as JSON.
pub open spec fn number(n: u64) -> Tree {
    Tree::Number(NumberView::Unsigned(n))
}

/// A sum that stops at the largest machine number.
pub open spec fn capped_sum(a: u64, b: u64) -> u64 {
    if a + b > u64::MAX {
        u64::MAX
    } else {
        (a + b) as u64
    }
}

/// A token count, or zero.
pub open spec fn count_of(usage: Tree, key: Seq<char>) -> u64 {
    match usage.at(key).natural() {
        Some(n) => n,
        None => 0,
    }
}

fn read_count(usage: &Json, key: &str) -> (r: u64)
    ensures
        r == count_of(usage@, key@),
{
    match usage.at(key).as_u64() {
        Some(n) => n,
        None => 0,
    }
}

/// The token usage of a native response; thoughts count as output.
pub open spec fn usage_of(native: Tree) -> Option<Tree> {
    match native.get("usageMetadata"@) {
        None => None,
        Some(u) => match u.at("promptTokenCount"@).natural() {
            None => None,
            Some(input) => {
                let thoughts = count_of(u, "thoughtsTokenCount"@);
                let output = capped_sum(count_of(u, "candidatesTokenCount"@), thoughts);
                Some(
                    empty_object().with("input_tokens"@, number(input)).with(
                        "input_tokens_details"@,
                        empty_object().with(
                            "cached_tokens"@,
                            number(count_of(u, "cachedContentTokenCount"@)),
                        ),
                    ).with("output_tokens"@, number(output)).with(
                        "output_tokens_details"@,
                        empty_object().with("reasoning_tokens"@, number(thoughts)),
                    ).with(
                        "total_tokens"@,
                        number(
                            match u.at("totalTokenCount"@).natural() {
                                Some(n) => n,
                                None => capped_sum(input, output),
                            },
                        ),
                    ).with("gemini"@, u),
                )
            },
        },
    }
}

fn add_capped(a: u64, b: u64) -> (r: u64)
    ensures
        r == capped_sum(a, b),
{
    if a > u64::MAX - b {
        u64::MAX
    } else {
        a + b
    }
}

/// The token usage that a native response reports.
pub fn usage(native: &Json) -> (r: Option<Json>)
    ensures
        r.deep_view() == usage_of(native@),
{
    let u = match native.get("usageMetadata") {
        Some(u) => u,
        None => return None,
    };
    let input = match u.at("promptTokenCount").as_u64() {
        Some(input) => input,
        None => return None,
    };
    let thoughts = read_count(u, "thoughtsTokenCount");
    let output = add_capped(read_count(u, "candidatesTokenCount"), thoughts);
    let cached = read_count(u, "cachedContentTokenCount");
    let total = match u.at("totalTokenCount").as_u64() {
        Some(n) => n,
        None => add_capped(input, output),
    };
    Some(
        Json::object().with("input_tokens", Json::natural(input)).with(
            "input_tokens_details",
            Json::object().with("cached_tokens", Json::natural(cached)),
        ).with("output_tokens", Json::natural(output)).with(
            "output_tokens_details",
            Json::object().with("reasoning_tokens", Json::natural(thoughts)),
        ).with("total_tokens", Json::natural(total)).with("gemini", u.copy()),
    )
}

/// The usage of a native response as JSON.
pub open spec fn usage_or_null(native: Tree) -> Tree {
    match usage_of(native) {
        Some(usage) => usage,
        None => Tree::Null,
    }
}

pub(crate) fn usage_json(native: &Json) -> (r: Json)
    ensures
        r@ == usage_or_null(native@),
{
    match usage(native) {
        Some(usage) => usage,
        None => Json::Null,
    }
}

// ---- output items -----------------------------------------------------------

/// Whether a part is a thought.
pub open spec fn is_thought(part: Tree) -> bool {
    part.at("thought"@) == Tree::Bool(true)
}

/// Whether a part holds a signature and nothing else.
pub open spec fn is_signature(part: Tree) -> bool {
    part.has("thoughtSignature"@) && (part matches Tree::Object(fields) && fields.len() == 1)
}

/// Whether a part stays out of the visible output: empty text and thoughts, and
/// signatures that stand alone. They are kept in the authenticated native turn.
pub open spec fn hidden(part: Tree) -> bool {
    part.at("text"@) == Tree::Text(""@) || is_thought(part) || (!part.has("text"@) && !part.has(
        "functionCall"@,
    ) && is_signature(part))
}

pub(crate) fn check_thought(part: &Json) -> (r: bool)
    ensures
        r == is_thought(part@),
{
    matches!(part.at("thought"), Json::Bool(true))
}

pub(crate) fn check_signature(part: &Json) -> (r: bool)
    ensures
        r == is_signature(part@),
{
    part.has("thoughtSignature") && match part.as_object() {
        Some(fields) => fields.len() == 1,
        None => false,
    }
}

fn check_hidden(part: &Json) -> (r: bool)
    ensures
        r == hidden(part@),
{
    part.at("text").is("") || check_thought(part) || (!part.has("text") && !part.has(
        "functionCall",
    ) && check_signature(part))
}

/// A name made of a prefix, the id of the response and the place in its output.
pub open spec fn item_name(prefix: Seq<char>, id: Seq<char>, index: nat) -> Seq<char> {
    prefix + id + "_"@ + decimal(index)
}

pub(crate) fn make_item_name(prefix: &str, id: &str, index: usize) -> (r: String)
    ensures
        r@ == item_name(prefix@, id@, index as nat),
{
    let shown = number_text(index as u64);
    join4(prefix, id, "_", shown.as_str())
}

/// The arguments of a native call.
pub open spec fn call_args(call: Tree) -> Tree {
    match call.get("args"@) {
        Some(args) => args,
        None => empty_object(),
    }
}

/// The call id of a native call.
pub open spec fn call_id_of(call: Tree, id: Seq<char>, index: nat) -> Seq<char> {
    match call.at("id"@).text() {
        Some(own) => own,
        None => item_name("call_"@, id, index),
    }
}

/// The output item of a function call.
pub open spec fn call_item(
    call: Tree,
    tools: Seq<(Seq<char>, ToolView)>,
    id: Seq<char>,
    index: nat,
) -> Result<Tree, Seq<char>> {
    if call.has("partialArgs"@) || call.at("willContinue"@) == Tree::Bool(true) {
        Err("Unassembled Gemini function arguments"@)
    } else {
        match call.at("name"@).text() {
            None => Err("Gemini function call name missing"@),
            Some(native) => match find(tools, native) {
                None => Err("Gemini called undeclared tool "@ + native),
                Some(tool) => {
                    let plain = empty_object().with(
                        "id"@,
                        Tree::Text(item_name("fc_"@, id, index)),
                    ).with(
                        "type"@,
                        Tree::Text(
                            if tool.custom {
                                "custom_tool_call"@
                            } else {
                                "function_call"@
                            },
                        ),
                    ).with("status"@, Tree::Text("completed"@)).with(
                        "call_id"@,
                        Tree::Text(call_id_of(call, id, index)),
                    ).with("name"@, Tree::Text(tool.name));
                    let placed = match tool.namespace {
                        Some(namespace) => plain.with("namespace"@, Tree::Text(namespace)),
                        None => plain,
                    };
                    if tool.custom {
                        match call_args(call).at("input"@).text() {
                            None => Err("Gemini custom tool requires input string"@),
                            Some(input) => Ok(placed.with("input"@, Tree::Text(input))),
                        }
                    } else {
                        Ok(placed.with("arguments"@, Tree::Text(written(call_args(call)))))
                    }
                },
            },
        }
    }
}

fn make_call_item(call: &Json, tools: &Vec<(String, Tool)>, id: &str, index: usize) -> (r: Result<
    Json,
    Error,
>)
    ensures
        outcome(r) == call_item(call@, entries(tools@), id@, index as nat),
{
    if call.has("partialArgs") || matches!(call.at("willContinue"), Json::Bool(true)) {
        return Err(Error::new("Unassembled Gemini function arguments"));
    }
    let native = match call.at("name").as_str() {
        Some(native) => native,
        None => return Err(Error::new("Gemini function call name missing")),
    };
    let tool = match get_entry(tools, native) {
        Some(tool) => tool,
        None => return Err(Error { message: join2("Gemini called undeclared tool ", native) }),
    };
    let args = match call.get("args") {
        Some(args) => args.copy(),
        None => Json::object(),
    };
    let call_id = match call.at("id").as_str() {
        Some(own) => own.to_string(),
        None => make_item_name("call_", id, index),
    };
    let kind = if tool.custom {
        "custom_tool_call"
    } else {
        "function_call"
    };
    let mut item = Json::object().with("id", Json::String(make_item_name("fc_", id, index))).with(
        "type",
        Json::text(kind),
    ).with("status", Json::text("completed")).with("call_id", Json::String(call_id)).with(
        "name",
        Json::text(tool.name.as_str()),
    );
    match &tool.namespace {
        Some(namespace) => item.set("namespace", Json::text(namespace.as_str())),
        None => {},
    }
    if tool.custom {
        match args.at("input").as_str() {
            None => Err(Error::new("Gemini custom tool requires input string")),
            Some(input) => Ok(item.with("input", Json::text(input))),
        }
    } else {
        let text = to_text(&args);
        Ok(item.with("arguments", Json::String(text)))
    }
}

/// The content of a visible part that is no call.
pub open spec fn shown_content(part: Tree) -> Tree {
    match part.at("text"@).text() {
        Some(text) => empty_object().with("type"@, Tree::Text("output_text"@)).with(
            "text"@,
            Tree::Text(text),
        ).with("annotations"@, Tree::Array(Seq::empty())),
        None => empty_object().with("type"@, Tree::Text("gemini_part"@)).with("part"@, part),
    }
}

/// The output item of a message.
pub open spec fn message_item(part: Tree, id: Seq<char>, index: nat) -> Tree {
    empty_object().with("id"@, Tree::Text(item_name("msg_"@, id, index))).with(
        "type"@,
        Tree::Text("message"@),
    ).with("role"@, Tree::Text("assistant"@)).with("status"@, Tree::Text("completed"@)).with(
        "content"@,
        Tree::Array(seq![shown_content(part)]),
    )
}

fn make_message_item(part: &Json, id: &str, index: usize) -> (r: Json)
    ensures
        r@ == message_item(part@, id@, index as nat),
{
    let content = match part.at("text").as_str() {
        Some(text) => Json::object().with("type", Json::text("output_text")).with(
            "text",
            Json::text(text),
        ).with("annotations", Json::Array(Vec::new())),
        None => Json::object().with("type", Json::text("gemini_part")).with("part", part.copy()),
    };
    let mut list: Vec<Json> = Vec::new();
    let ghost shown = content@;
    list.push(content);
    proof {
        assert(trees(list@) =~= seq![shown]);
    }
    Json::object().with("id", Json::String(make_item_name("msg_", id, index))).with(
        "type",
        Json::text("message"),
    ).with("role", Json::text("assistant")).with("status", Json::text("completed")).with(
        "content",
        Json::Array(list),
    )
}

/// The output item of a visible part.
pub open spec fn part_item(
    part: Tree,
    tools: Seq<(Seq<char>, ToolView)>,
    id: Seq<char>,
    index: nat,
) -> Result<Tree, Seq<char>> {
    match part.get("functionCall"@) {
        Some(call) => call_item(call, tools, id, index),
        None => Ok(message_item(part, id, index)),
    }
}

/// The output items of the parts from `from` on, behind those that were made.
pub open spec fn items_from(
    parts: Seq<Tree>,
    from: int,
    tools: Seq<(Seq<char>, ToolView)>,
    id: Seq<char>,
    items: Seq<Tree>,
) -> Result<Seq<Tree>, Seq<char>>
    decreases parts.len() - from,
{
    if from < 0 || from >= parts.len() {
        Ok(items)
    } else if hidden(parts[from]) {
        items_from(parts, from + 1, tools, id, items)
    } else {
        match part_item(parts[from], tools, id, items.len() + 1) {
            Err(message) => Err(message),
            Ok(item) => items_from(parts, from + 1, tools, id, items.push(item)),
        }
    }
}

/// The visible output of native parts.
pub open spec fn items_of(
    parts: Seq<Tree>,
    tools: Seq<(Seq<char>, ToolView)>,
    id: Seq<char>,
) -> Result<Seq<Tree>, Seq<char>> {
    items_from(parts, 0, tools, id, Seq::empty())
}

/// The visible output of native parts.
pub(crate) fn output_items(parts: &Vec<Json>, tools: &Vec<(String, Tool)>, id: &str) -> (r: Result<
    Vec<Json>,
    Error,
>)
    ensures
        outcome(r) == items_of(trees(parts@), entries(tools@), id@),
        r matches Ok(items) ==> items.len() <= parts.len(),
{
    let mut output: Vec<Json> = Vec::new();
    let mut i: usize = 0;
    while i < parts.len()
        invariant
            output.len() <= i <= parts.len(),
            items_of(trees(parts@), entries(tools@), id@) == items_from(
                trees(parts@),
                i as int,
                entries(tools@),
                id@,
                trees(output@),
            ),
        decreases parts.len() - i,
    {
        let part = &parts[i];
        if !check_hidden(part) {
            let index: usize = output.len() + 1;
            let item = match part.get("functionCall") {
                Some(call) => make_call_item(call, tools, id, index)?,
                None => make_message_item(part, id, index),
            };
            output.push(item);
        }
        i += 1;
    }
    Ok(output)
}

// ---- how a response ended -----------------------------------------------------

/// The summary of thoughts among parts, from `from` on.
pub open spec fn summary_from(parts: Seq<Tree>, from: int, summary: Seq<Tree>) -> Seq<Tree>
    decreases parts.len() - from,
{
    if from < 0 || from >= parts.len() {
        summary
    } else {
        match parts[from].at("text"@).text() {
            Some(text) => if is_thought(parts[from]) {
                summary_from(parts, from + 1, summary.push(summary_text(text)))
            } else {
                summary_from(parts, from + 1, summary)
            },
            None => summary_from(parts, from + 1, summary),
        }
    }
}

/// A part of a reasoning summary.
pub open spec fn summary_text(text: Seq<char>) -> Tree {
    empty_object().with("type"@, Tree::Text("summary_text"@)).with("text"@, Tree::Text(text))
}

pub(crate) fn make_summary_text(text: &str) -> (r: Json)
    ensures
        r@ == summary_text(text@),
{
    Json::object().with("type", Json::text("summary_text")).with("text", Json::text(text))
}

fn summarize(parts: &Vec<Json>) -> (r: Vec<Json>)
    ensures
        trees(r@) == summary_from(trees(parts@), 0, Seq::empty()),
{
    let mut summary: Vec<Json> = Vec::new();
    let mut i: usize = 0;
    while i < parts.len()
        invariant
            i <= parts.len(),
            summary_from(trees(parts@), 0, Seq::empty()) == summary_from(
                trees(parts@),
                i as int,
                trees(summary@),
            ),
        decreases parts.len() - i,
    {
        match parts[i].at("text").as_str() {
            Some(text) => if check_thought(&parts[i]) {
                summary.push(make_summary_text(text));
            },
            None => {},
        }
        i += 1;
    }
    summary
}

/// How a response ended: its status, its error and what is incomplete.
pub struct Ending {
    pub status: &'static str,
    pub error: Json,
    pub incomplete: Json,
}

/// An error that names a native cause.
pub open spec fn ended_error(
    kind: Seq<char>,
    code: Seq<char>,
    native_code: Seq<char>,
    message: Seq<char>,
) -> Tree {
    empty_object().with("type"@, Tree::Text(kind)).with("code"@, Tree::Text(code)).with(
        "gemini_code"@,
        Tree::Text(native_code),
    ).with("message"@, Tree::Text(message))
}

fn make_ended_error(kind: &str, code: &str, native_code: &str, message: &str) -> (r: Json)
    ensures
        r@ == ended_error(kind@, code@, native_code@, message@),
{
    Json::object().with("type", Json::text(kind)).with("code", Json::text(code)).with(
        "gemini_code",
        Json::text(native_code),
    ).with("message", Json::text(message))
}

/// A reason that refuses the prompt or its answer.
pub open spec fn refusing(reason: Seq<char>) -> bool {
    reason == "SAFETY"@ || reason == "RECITATION"@ || reason == "BLOCKLIST"@ || reason
        == "PROHIBITED_CONTENT"@ || reason == "SPII"@ || reason == "IMAGE_SAFETY"@ || reason
        == "IMAGE_PROHIBITED_CONTENT"@
}

/// How a response ended, by its finish reason and the reason for which its prompt was
/// blocked.
pub open spec fn ending(reason: Option<Seq<char>>, blocked: Option<Seq<char>>) -> (
    Seq<char>,
    Tree,
    Tree,
) {
    match blocked {
        Some(block) => (
            "failed"@,
            ended_error(
                "invalid_request_error"@,
                "invalid_prompt"@,
                "gemini_prompt_blocked"@,
                "Gemini blocked the prompt: "@ + block,
            ),
            Tree::Null,
        ),
        None => match reason {
            Some(reason) => if reason == "STOP"@ {
                ("completed"@, Tree::Null, Tree::Null)
            } else if reason == "MAX_TOKENS"@ {
                (
                    "incomplete"@,
                    Tree::Null,
                    empty_object().with("reason"@, Tree::Text("max_output_tokens"@)),
                )
            } else if refusing(reason) {
                (
                    "failed"@,
                    ended_error(
                        "invalid_request_error"@,
                        "invalid_prompt"@,
                        "gemini_finish_error"@,
                        "Gemini finish reason: "@ + reason,
                    ),
                    Tree::Null,
                )
            } else {
                (
                    "failed"@,
                    ended_error(
                        "server_error"@,
                        "server_error"@,
                        "gemini_finish_error"@,
                        "Gemini finish reason: "@ + reason,
                    ),
                    Tree::Null,
                )
            },
            None => (
                "failed"@,
                ended_error(
                    "server_error"@,
                    "server_error"@,
                    "gemini_missing_completion"@,
                    "Gemini ended without a finish reason; retry the request"@,
                ),
                Tree::Null,
            ),
        },
    }
}

fn end(reason: Option<&str>, blocked: Option<&str>) -> (r: Ending)
    ensures
        (r.status@, r.error@, r.incomplete@) == ending(reason.deep_view(), blocked.deep_view()),
{
    match blocked {
        Some(block) => {
            let message = join2("Gemini blocked the prompt: ", block);
            Ending {
                status: "failed",
                error: make_ended_error(
                    "invalid_request_error",
                    "invalid_prompt",
                    "gemini_prompt_blocked",
                    message.as_str(),
                ),
                incomplete: Json::Null,
            }
        },
        None => match reason {
            Some(reason) => {
                let message = join2("Gemini finish reason: ", reason);
                if same(reason, "STOP") {
                    Ending { status: "completed", error: Json::Null, incomplete: Json::Null }
                } else if same(reason, "MAX_TOKENS") {
                    Ending {
                        status: "incomplete",
                        error: Json::Null,
                        incomplete: Json::object().with("reason", Json::text("max_output_tokens")),
                    }
                } else if same(reason, "SAFETY") || same(reason, "RECITATION") || same(
                    reason,
                    "BLOCKLIST",
                ) || same(reason, "PROHIBITED_CONTENT") || same(reason, "SPII") || same(
                    reason,
                    "IMAGE_SAFETY",
                ) || same(reason, "IMAGE_PROHIBITED_CONTENT") {
                    Ending {
                        status: "failed",
                        error: make_ended_error(
                            "invalid_request_error",
                            "invalid_prompt",
                            "gemini_finish_error",
                            message.as_str(),
                        ),
                        incomplete: Json::Null,
                    }
                } else {
                    Ending {
                        status: "failed",
                        error: make_ended_error(
                            "server_error",
                            "server_error",
                            "gemini_finish_error",
                            message.as_str(),
                        ),
                        incomplete: Json::Null,
                    }
                }
            },
            None => Ending {
                status: "failed",
                error: make_ended_error(
                    "server_error",
                    "server_error",
                    "gemini_missing_completion",
                    "Gemini ended without a finish reason; retry the request",
                ),
                incomplete: Json::Null,
            },
        },
    }
}

// ---- output that must satisfy a schema ------------------------------------------

/// The visible text of parts from `from` on, behind text found before.
pub open spec fn visible_text(parts: Seq<Tree>, from: int, text: Seq<char>) -> Seq<char>
    decreases parts.len() - from,
{
    if from < 0 || from >= parts.len() {
        text
    } else {
        match parts[from].at("text"@).text() {
            Some(more) => if is_thought(parts[from]) {
                visible_text(parts, from + 1, text)
            } else {
                visible_text(parts, from + 1, text + more)
            },
            None => visible_text(parts, from + 1, text),
        }
    }
}

/// Whether the parts from `from` on are thoughts, text and signatures only.
pub open spec fn only_text(parts: Seq<Tree>, from: int) -> bool
    decreases parts.len() - from,
{
    from < 0 || from >= parts.len() || ((is_thought(parts[from]) || parts[from].has("text"@)
        || is_signature(parts[from])) && only_text(parts, from + 1))
}

/// Whether one of the parts from `from` on calls a function.
pub open spec fn any_call(parts: Seq<Tree>, from: int) -> bool
    decreases parts.len() - from,
{
    0 <= from < parts.len() && (parts[from].has("functionCall"@) || any_call(parts, from + 1))
}

/// Whether parts are an answer that satisfies a schema.
pub open spec fn satisfies(parts: Seq<Tree>, schema: Tree) -> bool {
    only_text(parts, 0) && (parsed(
        encode_utf8(visible_text(parts, 0, Seq::empty())),
    ) matches Ok(value) && schema_accepts(settled(schema), settled(value)))
}

fn read_text(parts: &Vec<Json>) -> (r: String)
    ensures
        r@ == visible_text(trees(parts@), 0, Seq::empty()),
{
    let mut text = String::new();
    let mut i: usize = 0;
    while i < parts.len()
        invariant
            i <= parts.len(),
            visible_text(trees(parts@), 0, Seq::empty()) == visible_text(
                trees(parts@),
                i as int,
                text@,
            ),
        decreases parts.len() - i,
    {
        match parts[i].at("text").as_str() {
            Some(more) => if !check_thought(&parts[i]) {
                text.append(more);
            },
            None => {},
        }
        i += 1;
    }
    text
}

fn has_only_text(parts: &Vec<Json>) -> (r: bool)
    ensures
        r == only_text(trees(parts@), 0),
{
    let mut i: usize = 0;
    while i < parts.len()
        invariant
            i <= parts.len(),
            only_text(trees(parts@), 0) == only_text(trees(parts@), i as int),
        decreases parts.len() - i,
    {
        let part = &parts[i];
        if !(check_thought(part) || part.has("text") || check_signature(part)) {
            return false;
        }
        i += 1;
    }
    true
}

fn has_call(parts: &Vec<Json>) -> (r: bool)
    ensures
        r == any_call(trees(parts@), 0),
{
    let mut i: usize = 0;
    while i < parts.len()
        invariant
            i <= parts.len(),
            any_call(trees(parts@), 0) == any_call(trees(parts@), i as int),
        decreases parts.len() - i,
    {
        if parts[i].has("functionCall") {
            return true;
        }
        i += 1;
    }
    false
}

fn check_schema(parts: &Vec<Json>, schema: &Json) -> (r: bool)
    ensures
        r == satisfies(trees(parts@), schema@),
{
    if !has_only_text(parts) {
        return false;
    }
    let text = read_text(parts);
    match parse(text.as_str().as_bytes()) {
        Ok(value) => schema_admits(schema, &value),
        Err(_) => false,
    }
}

// ---- the whole --------------------------------------------------------------------

/// The candidate of a native response.
pub open spec fn candidate_of(native: Tree) -> Tree {
    let candidates = list_of(native.at("candidates"@));
    if candidates.len() > 0 {
        candidates[0]
    } else {
        Tree::Null
    }
}

fn read_candidate(native: &Json) -> (r: &Json)
    ensures
        r@ == candidate_of(native@),
{
    match native.at("candidates").as_array() {
        Some(items) => if items.len() > 0 {
            &items[0]
        } else {
            &Json::Null
        },
        None => &Json::Null,
    }
}

/// Items marked as incomplete.
pub open spec fn unfinished(items: Seq<Tree>) -> Seq<Tree> {
    Seq::new(items.len(), |i: int| items[i].with("status"@, Tree::Text("incomplete"@)))
}

fn mark_unfinished(items: Vec<Json>) -> (r: Vec<Json>)
    ensures
        trees(r@) == unfinished(trees(items@)),
{
    let ghost whole = unfinished(trees(items@));
    let mut out: Vec<Json> = Vec::new();
    let mut i: usize = 0;
    while i < items.len()
        invariant
            i <= items.len(),
            whole == unfinished(trees(items@)),
            trees(out@) == whole.subrange(0, i as int),
        decreases items.len() - i,
    {
        out.push(items[i].copy().with("status", Json::text("incomplete")));
        proof {
            assert(whole.subrange(0, i + 1) =~= whole.subrange(0, i as int).push(whole[i as int]));
        }
        i += 1;
    }
    proof {
        assert(whole.subrange(0, i as int) =~= whole);
    }
    out
}

/// The response to a native error.
pub open spec fn failed_response(native: Tree, request: Converted, id: Seq<char>) -> Tree {
    empty_object().with("id"@, Tree::Text("resp_"@ + id)).with(
        "object"@,
        Tree::Text("response"@),
    ).with("status"@, Tree::Text("failed"@)).with("model"@, Tree::Text(request.response_model)).with(
        "output"@,
        Tree::Array(Seq::empty()),
    ).with("error"@, native_error(native, None).0).with("usage"@, usage_or_null(native)).with(
        "gemini"@,
        native,
    )
}

fn fail_response(native: &Json, request: &ConvertedRequest, id: &str) -> (r: Json)
    ensures
        r@ == failed_response(native@, request.deep_view(), id@),
{
    let error = ResponseError::from_native(native, None).error;
    Json::object().with("id", Json::String(join2("resp_", id))).with(
        "object",
        Json::text("response"),
    ).with("status", Json::text("failed")).with(
        "model",
        Json::text(request.response_model.as_str()),
    ).with("output", Json::Array(Vec::new())).with("error", error).with(
        "usage",
        usage_json(native),
    ).with("gemini", native.copy())
}

/// How a response ended, its schema considered.
pub open spec fn judged(native: Tree, parts: Seq<Tree>, schema: Option<Tree>) -> (
    Seq<char>,
    Tree,
    Tree,
) {
    let (status, error, incomplete) = ending(
        candidate_of(native).at("finishReason"@).text(),
        native.at("promptFeedback"@).at("blockReason"@).text(),
    );
    match schema {
        Some(schema) => if status == "completed"@ && !any_call(parts, 0) && !satisfies(
            parts,
            schema,
        ) {
            (
                "failed"@,
                empty_object().with("code"@, Tree::Text("gemini_schema_mismatch"@)).with(
                    "message"@,
                    Tree::Text("Gemini output did not satisfy the requested JSON schema"@),
                ),
                incomplete,
            )
        } else {
            (status, error, incomplete)
        },
        None => (status, error, incomplete),
    }
}

fn judge(native: &Json, parts: &Vec<Json>, schema: Option<&Json>) -> (r: Ending)
    ensures
        (r.status@, r.error@, r.incomplete@) == judged(
            native@,
            trees(parts@),
            schema.deep_view(),
        ),
{
    let ended = end(
        read_candidate(native).at("finishReason").as_str(),
        native.at("promptFeedback").at("blockReason").as_str(),
    );
    match schema {
        Some(schema) => {
            if same(ended.status, "completed") && !has_call(parts) && !check_schema(
                parts,
                schema,
            ) {
                return Ending {
                    status: "failed",
                    error: Json::object().with("code", Json::text("gemini_schema_mismatch")).with(
                        "message",
                        Json::text("Gemini output did not satisfy the requested JSON schema"),
                    ),
                    incomplete: ended.incomplete,
                };
            }
            ended
        },
        None => ended,
    }
}

/// An object with members added from `from` on.
pub open spec fn merged(object: Tree, fields: Seq<(Seq<char>, Tree)>, from: int) -> Tree
    decreases fields.len() - from,
{
    if from < 0 || from >= fields.len() {
        object
    } else {
        merged(object.with(fields[from].0, fields[from].1), fields, from + 1)
    }
}

pub(crate) fn merge(object: Json, fields: &Vec<(String, Json)>) -> (r: Json)
    ensures
        r@ == merged(object@, entries(fields@), 0),
{
    let mut out = object;
    let mut i: usize = 0;
    while i < fields.len()
        invariant
            i <= fields.len(),
            merged(object@, entries(fields@), 0) == merged(out@, entries(fields@), i as int),
        decreases fields.len() - i,
    {
        out.set(fields[i].0.as_str(), fields[i].1.copy());
        i += 1;
    }
    out
}

/// The reasoning item that carries a turn.
pub open spec fn reasoning_item(id: Seq<char>, summary: Seq<Tree>, carried: Seq<char>) -> Tree {
    empty_object().with("id"@, Tree::Text("rs_"@ + id)).with("type"@, Tree::Text("reasoning"@)).with(
        "summary"@,
        Tree::Array(summary),
    ).with("encrypted_content"@, Tree::Text(carried))
}

/// The response of a native response that is no error, before the fields of the request.
pub open spec fn unmerged_response(
    native: Tree,
    request: Converted,
    id: Seq<char>,
    created_at: u64,
    parts: Seq<Tree>,
    items: Seq<Tree>,
    ended: (Seq<char>, Tree, Tree),
    carried: Seq<char>,
) -> Tree {
    empty_object().with("id"@, Tree::Text("resp_"@ + id)).with(
        "object"@,
        Tree::Text("response"@),
    ).with("created_at"@, number(created_at)).with("status"@, Tree::Text(ended.0)).with(
        "model"@,
        Tree::Text(request.response_model),
    ).with(
        "output"@,
        Tree::Array(
            seq![reasoning_item(id, summary_from(parts, 0, Seq::empty()), carried)] + items,
        ),
    ).with("usage"@, usage_or_null(native)).with("error"@, ended.1).with(
        "incomplete_details"@,
        ended.2,
    ).with("parallel_tool_calls"@, Tree::Bool(true)).with("store"@, Tree::Bool(false)).with(
        "gemini"@,
        native,
    )
}

/// The response of a native response that is no error.
pub open spec fn finished_response(
    native: Tree,
    request: Converted,
    id: Seq<char>,
    created_at: u64,
    parts: Seq<Tree>,
    items: Seq<Tree>,
    ended: (Seq<char>, Tree, Tree),
    carried: Seq<char>,
) -> Tree {
    merged(
        unmerged_response(native, request, id, created_at, parts, items, ended, carried),
        request.response_fields,
        0,
    )
}

/// The items of a response that ended in a state: only a completed one has finished
/// items.
pub open spec fn settled_items(items: Seq<Tree>, status: Seq<char>) -> Seq<Tree> {
    if status == "completed"@ {
        items
    } else {
        unfinished(items)
    }
}

/// A native response as a response, or why it is refused.
pub open spec fn converted_response(
    native: Tree,
    request: Converted,
    key: Seq<u8>,
    id: Seq<char>,
    created_at: u64,
    nonce: Seq<u8>,
) -> Result<Tree, Seq<char>> {
    match response_check(native) {
        Err(message) => Err(message),
        Ok(_) => if native.has("error"@) {
            Ok(failed_response(native, request, id))
        } else {
            let parts = list_of(candidate_of(native).at("content"@).at("parts"@));
            match items_of(parts, request.tools, id) {
                Err(message) => Err(message),
                Ok(items) => {
                    let ended = judged(native, parts, request.output_schema);
                    let items = settled_items(items, ended.0);
                    match carrier(
                        key,
                        nonce,
                        request.model,
                        Tree::Array(parts),
                        Tree::Array(items),
                    ) {
                        Err(message) => Err(message),
                        Ok(carried) => Ok(
                            finished_response(
                                native,
                                request,
                                id,
                                created_at,
                                parts,
                                items,
                                ended,
                                carried,
                            ),
                        ),
                    }
                },
            }
        },
    }
}

fn finish_response(
    native: &Json,
    request: &ConvertedRequest,
    id: &str,
    created_at: u64,
    parts: &Vec<Json>,
    items: Vec<Json>,
    ended: Ending,
    carried: String,
) -> (r: Json)
    ensures
        r@ == finished_response(
            native@,
            request.deep_view(),
            id@,
            created_at,
            trees(parts@),
            trees(items@),
            (ended.status@, ended.error@, ended.incomplete@),
            carried@,
        ),
{
    let reasoning = Json::object().with("id", Json::String(join2("rs_", id))).with(
        "type",
        Json::text("reasoning"),
    ).with("summary", Json::Array(summarize(parts))).with(
        "encrypted_content",
        Json::String(carried),
    );
    let mut output: Vec<Json> = Vec::new();
    let ghost shown = reasoning@;
    output.push(reasoning);
    proof {
        assert(trees(output@) =~= seq![shown]);
    }
    extend(&mut output, items);
    let plain = Json::object().with("id", Json::String(join2("resp_", id))).with(
        "object",
        Json::text("response"),
    ).with("created_at", Json::natural(created_at)).with("status", Json::text(ended.status)).with(
        "model",
        Json::text(request.response_model.as_str()),
    ).with("output", Json::Array(output)).with("usage", usage_json(native)).with(
        "error",
        ended.error,
    ).with("incomplete_details", ended.incomplete).with(
        "parallel_tool_calls",
        Json::Bool(true),
    ).with("store", Json::Bool(false)).with("gemini", native.copy());
    merge(plain, &request.response_fields)
}

/// The native parts of an answer.
pub open spec fn answer_parts(native: Tree) -> Seq<Tree> {
    list_of(candidate_of(native).at("content"@).at("parts"@))
}

/// The visible items of an answer, as they are sealed with its parts.
pub open spec fn answer_items(native: Tree, request: Converted, id: Seq<char>) -> Seq<Tree> {
    settled_items(
        items_of(answer_parts(native), request.tools, id)->Ok_0,
        judged(native, answer_parts(native), request.output_schema).0,
    )
}

/// The turn that an answer carries: its native parts and its visible items.
pub open spec fn answer_turn(native: Tree, request: Converted, id: Seq<char>) -> Tree {
    Tree::Object(Seq::empty()).with("parts"@, Tree::Array(answer_parts(native))).with(
        "items"@,
        Tree::Array(answer_items(native, request, id)),
    )
}

/// The carrier of the turn of an answer.
pub open spec fn answer_carrier(
    native: Tree,
    request: Converted,
    key: Seq<u8>,
    id: Seq<char>,
    nonce: Seq<u8>,
) -> Result<Seq<char>, Seq<char>> {
    carrier(
        key,
        nonce,
        request.model,
        Tree::Array(answer_parts(native)),
        Tree::Array(answer_items(native, request, id)),
    )
}

/// Whether the carrier of an answer opens to the turn that it was sealed for, where the turn's
/// text reads back.
pub open spec fn opens_again(
    native: Tree,
    request: Converted,
    key: Seq<u8>,
    id: Seq<char>,
    nonce: Seq<u8>,
) -> bool {
    readable(answer_turn(native, request, id), 127) ==> (answer_carrier(
        native,
        request,
        key,
        id,
        nonce,
    ) matches Ok(text) ==> opened(key, request.model, text) == Ok::<Tree, Seq<char>>(
        settled(answer_turn(native, request, id)),
    ))
}

/// Whether a native response is converted: it passes its checks, and it is an error, or its
/// calls are known and its turn can be sealed.
pub open spec fn convertible(native: Tree, request: Converted, id: Seq<char>) -> bool {
    response_check(native) is Ok && (native.has("error"@) || (items_of(
        answer_parts(native),
        request.tools,
        id,
    ) is Ok && sealable(
        request.model,
        Tree::Array(answer_parts(native)),
        Tree::Array(answer_items(native, request, id)),
    )))
}

/// Converts a native response at a given time, sealing its turn under a given nonce.
pub fn convert_response_at(
    native: &Json,
    request: &ConvertedRequest,
    codec: &ReasoningCodec,
    id: &str,
    created_at: u64,
    nonce: &[u8; 12],
) -> (r: Result<Json, Error>)
    ensures
        outcome(r) == converted_response(
            native@,
            request.deep_view(),
            codec.key@,
            id@,
            created_at,
            nonce@,
        ),
        convertible(native@, request.deep_view(), id@) ==> r is Ok,
        r is Ok && !native@.has("error"@) ==> opens_again(
            native@,
            request.deep_view(),
            codec.key@,
            id@,
            nonce@,
        ),
{
    response(native)?;
    if native.has("error") {
        return Ok(fail_response(native, request, id));
    }
    let parts = match read_candidate(native).at("content").at("parts").as_array() {
        Some(parts) => copy_all(parts),
        None => Vec::new(),
    };
    let items = output_items(&parts, &request.tools, id)?;
    let ended = judge(native, &parts, request.output_schema.as_ref());
    let items = if same(ended.status, "completed") {
        items
    } else {
        mark_unfinished(items)
    };
    let carried = codec.seal_with(
        nonce,
        request.model.as_str(),
        &Json::Array(copy_all(&parts)),
        &Json::Array(copy_all(&items)),
    )?;
    Ok(finish_response(native, request, id, created_at, &parts, items, ended, carried))
}

/// Converts a native response now, sealing its turn under a fresh nonce. Whatever the
/// time and the nonce, the result is the one that they give.
pub fn convert_response(
    native: &Json,
    request: &ConvertedRequest,
    codec: &ReasoningCodec,
    id: &str,
) -> (r: Result<Json, Error>)
    ensures
        exists|created_at: u64, nonce: Seq<u8>|
            nonce.len() == 12 && outcome(r) == #[trigger] converted_response(
                native@,
                request.deep_view(),
                codec.key@,
                id@,
                created_at,
                nonce,
            ) && (r is Ok && !native@.has("error"@) ==> opens_again(
                native@,
                request.deep_view(),
                codec.key@,
                id@,
                nonce,
            )),
        convertible(native@, request.deep_view(), id@) ==> r is Ok,
{
    let created_at = now_seconds();
    let nonce = fresh_nonce();
    convert_response_at(native, request, codec, id, created_at, &nonce)
}

} // verus!

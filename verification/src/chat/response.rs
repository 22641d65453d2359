//! Responses as chat completions.

use vstd::prelude::*;
use vstd::string::StringExecFns;
use crate::error::{outcome, Error};
use crate::gemini::conversation::{extend, list_of};
use crate::gemini::parts::empty_object;
use crate::gemini::replay::copy_all;
use crate::gemini::response::number;
use crate::text::{join2, starts_with};
use crate::tree::{json_views, trees, Json, Tree};

verus! {

broadcast use json_views;

/// The token usage of a response, in chat terms.
pub open spec fn chat_usage(value: Tree) -> Tree {
    if value is Null {
        Tree::Null
    } else {
        empty_object().with("prompt_tokens"@, value.at("input_tokens"@)).with(
            "completion_tokens"@,
            value.at("output_tokens"@),
        ).with("total_tokens"@, value.at("total_tokens"@)).with(
            "prompt_tokens_details"@,
            value.at("input_tokens_details"@),
        ).with("completion_tokens_details"@, value.at("output_tokens_details"@))
    }
}

/// The token usage of a response, in chat terms.
pub fn usage(value: &Json) -> (r: Json)
    ensures
        r@ == chat_usage(value@),
{
    if value.is_null() {
        return Json::Null;
    }
    Json::object().with("prompt_tokens", value.at("input_tokens").copy()).with(
        "completion_tokens",
        value.at("output_tokens").copy(),
    ).with("total_tokens", value.at("total_tokens").copy()).with(
        "prompt_tokens_details",
        value.at("input_tokens_details").copy(),
    ).with("completion_tokens_details", value.at("output_tokens_details").copy())
}

/// The texts of parts from `from` on, behind text found before.
pub open spec fn texts_joined(parts: Seq<Tree>, from: int, text: Seq<char>) -> Seq<char>
    decreases parts.len() - from,
{
    if from < 0 || from >= parts.len() {
        text
    } else {
        match parts[from].at("text"@) {
            Tree::Text(more) => texts_joined(parts, from + 1, text + more),
            _ => texts_joined(parts, from + 1, text),
        }
    }
}

/// The texts of the parts in an array.
pub open spec fn joined_text(value: Tree) -> Seq<char> {
    texts_joined(list_of(value), 0, Seq::empty())
}

pub(crate) fn join_texts(value: &Json) -> (r: String)
    ensures
        r@ == joined_text(value@),
{
    let mut text = String::new();
    match value.as_array() {
        Some(parts) => {
            let mut i: usize = 0;
            while i < parts.len()
                invariant
                    i <= parts.len(),
                    texts_joined(trees(parts@), 0, Seq::empty()) == texts_joined(
                        trees(parts@),
                        i as int,
                        text@,
                    ),
                decreases parts.len() - i,
            {
                match parts[i].at("text").as_str() {
                    Some(more) => text.append(more),
                    None => {},
                }
                i += 1;
            }
        },
        None => {},
    }
    text
}

/// The index of a reasoning detail: three for each output item.
pub open spec fn detail_index(index: u64, kind: nat) -> u64 {
    ((index * 3 + kind) % 0x1_0000_0000_0000_0000) as u64
}

pub(crate) fn make_detail_index(index: u64, kind: u64) -> (r: u64)
    requires
        kind < 3,
    ensures
        r == detail_index(index, kind as nat),
{
    ((index as u128 * 3 + kind as u128) % 0x1_0000_0000_0000_0000) as u64
}

/// The format of a reasoning item's details, by what it carries.
pub open spec fn detail_format(item: Tree) -> Seq<char> {
    if item.at("encrypted_content"@).text() matches Some(data)
        && "hey_gemini_v1."@.is_prefix_of(data) {
        "google-gemini-v1"@
    } else {
        "openai-responses-v1"@
    }
}

fn read_format(item: &Json) -> (r: &'static str)
    ensures
        r@ == detail_format(item@),
{
    match item.at("encrypted_content").as_str() {
        Some(data) => if starts_with(data, "hey_gemini_v1.") {
            "google-gemini-v1"
        } else {
            "openai-responses-v1"
        },
        None => "openai-responses-v1",
    }
}

/// The detail that carries a reasoning item's summary.
pub open spec fn summary_detail(item: Tree, index: u64) -> Tree {
    empty_object().with("type"@, Tree::Text("reasoning.summary"@)).with(
        "summary"@,
        Tree::Text(joined_text(item.at("summary"@))),
    ).with("id"@, item.at("id"@)).with("format"@, Tree::Text(detail_format(item))).with(
        "index"@,
        number(detail_index(index, 0)),
    )
}

/// The detail that carries a reasoning item's text.
pub open spec fn text_detail(item: Tree, index: u64) -> Tree {
    empty_object().with("type"@, Tree::Text("reasoning.text"@)).with(
        "text"@,
        Tree::Text(joined_text(item.at("content"@))),
    ).with("signature"@, Tree::Null).with("id"@, item.at("id"@)).with(
        "format"@,
        Tree::Text(detail_format(item)),
    ).with("index"@, number(detail_index(index, 1)))
}

/// The detail that carries a reasoning item's opaque data.
pub open spec fn opaque_detail(item: Tree, index: u64) -> Tree {
    empty_object().with("type"@, Tree::Text("reasoning.encrypted"@)).with(
        "data"@,
        item.at("encrypted_content"@),
    ).with("id"@, item.at("id"@)).with("format"@, Tree::Text(detail_format(item))).with(
        "index"@,
        number(detail_index(index, 2)),
    )
}

pub(crate) fn make_opaque_detail(item: &Json, index: u64) -> (r: Json)
    ensures
        r@ == opaque_detail(item@, index),
{
    Json::object().with("type", Json::text("reasoning.encrypted")).with(
        "data",
        item.at("encrypted_content").copy(),
    ).with("id", item.at("id").copy()).with("format", Json::text(read_format(item))).with(
        "index",
        Json::natural(make_detail_index(index, 2)),
    )
}

/// The details of a reasoning item.
pub open spec fn details_of(item: Tree, index: u64) -> Seq<Tree> {
    let summed = if joined_text(item.at("summary"@)).len() > 0 {
        seq![summary_detail(item, index)]
    } else {
        Seq::empty()
    };
    let told = if joined_text(item.at("content"@)).len() > 0 {
        summed.push(text_detail(item, index))
    } else {
        summed
    };
    if item.at("encrypted_content"@) is Text {
        told.push(opaque_detail(item, index))
    } else {
        told
    }
}

/// The details of a reasoning item, with indexes by which clients can merge them.
pub fn reasoning_details(item: &Json, index: u64) -> (r: Vec<Json>)
    ensures
        trees(r@) == details_of(item@, index),
{
    let mut details: Vec<Json> = Vec::new();
    let summary = join_texts(item.at("summary"));
    proof {
        assert(trees(details@) =~= Seq::<Tree>::empty());
    }
    if !summary.as_str().is_empty() {
        details.push(
            Json::object().with("type", Json::text("reasoning.summary")).with(
                "summary",
                Json::String(summary),
            ).with("id", item.at("id").copy()).with("format", Json::text(read_format(item))).with(
                "index",
                Json::natural(make_detail_index(index, 0)),
            ),
        );
        proof {
            assert(trees(details@) =~= seq![summary_detail(item@, index)]);
        }
    }
    let text = join_texts(item.at("content"));
    if !text.as_str().is_empty() {
        details.push(
            Json::object().with("type", Json::text("reasoning.text")).with(
                "text",
                Json::String(text),
            ).with("signature", Json::Null).with("id", item.at("id").copy()).with(
                "format",
                Json::text(read_format(item)),
            ).with("index", Json::natural(make_detail_index(index, 1))),
        );
    }
    if item.at("encrypted_content").is_string() {
        details.push(make_opaque_detail(item, index));
    }
    details
}

// ---- the message ---------------------------------------------------------------

/// What output items amount to as one message.
pub struct Gathered {
    pub text: String,
    pub refusal: String,
    pub calls: Vec<Json>,
    pub details: Vec<Json>,
    pub annotations: Vec<Json>,
}

/// The view of what was gathered.
pub ghost struct Gathering {
    pub text: Seq<char>,
    pub refusal: Seq<char>,
    pub calls: Seq<Tree>,
    pub details: Seq<Tree>,
    pub annotations: Seq<Tree>,
}

impl DeepView for Gathered {
    type V = Gathering;

    open spec fn deep_view(&self) -> Gathering {
        Gathering {
            text: self.text@,
            refusal: self.refusal@,
            calls: trees(self.calls@),
            details: trees(self.details@),
            annotations: trees(self.annotations@),
        }
    }
}

impl Gathering {
    /// A content part of a message.
    pub open spec fn part(self, part: Tree) -> Result<Gathering, Seq<char>> {
        if part.at("type"@) == Tree::Text("output_text"@) || part.at("type"@) == Tree::Text(
            "input_text"@,
        ) {
            match part.at("text"@).text() {
                None => Err("Response text must be a string"@),
                Some(text) => Ok(
                    Gathering {
                        text: self.text + text,
                        annotations: self.annotations + list_of(part.at("annotations"@)),
                        ..self
                    },
                ),
            }
        } else if part.at("type"@) == Tree::Text("refusal"@) {
            Ok(
                Gathering {
                    refusal: match part.at("refusal"@).text() {
                        Some(refusal) => self.refusal + refusal,
                        None => self.refusal,
                    },
                    ..self
                },
            )
        } else {
            Err("Response content cannot be represented as a chat message"@)
        }
    }

    /// The content parts from `from` on.
    pub open spec fn parts(self, parts: Seq<Tree>, from: int) -> Result<Gathering, Seq<char>>
        decreases parts.len() - from,
    {
        if from < 0 || from >= parts.len() {
            Ok(self)
        } else {
            match self.part(parts[from]) {
                Err(message) => Err(message),
                Ok(more) => more.parts(parts, from + 1),
            }
        }
    }

    /// An output item.
    pub open spec fn item(self, item: Tree, index: int, exclude_reasoning: bool) -> Result<
        Gathering,
        Seq<char>,
    > {
        let kind = item.at("type"@);
        if kind == Tree::Text("message"@) {
            match item.at("content"@).items() {
                None => Err("Response message lacks content"@),
                Some(parts) => self.parts(parts, 0),
            }
        } else if kind == Tree::Text("function_call"@) {
            Ok(Gathering { calls: self.calls.push(chat_call(item)), ..self })
        } else if kind == Tree::Text("reasoning"@) {
            if exclude_reasoning {
                Ok(self)
            } else {
                Ok(Gathering { details: self.details + details_of(item, index as u64), ..self })
            }
        } else {
            Err("Response output type cannot be represented by the chat shim"@)
        }
    }

    /// The output items from `from` on.
    pub open spec fn items(self, output: Seq<Tree>, from: int, exclude_reasoning: bool) -> Result<
        Gathering,
        Seq<char>,
    >
        decreases output.len() - from,
    {
        if from < 0 || from >= output.len() {
            Ok(self)
        } else {
            match self.item(output[from], from, exclude_reasoning) {
                Err(message) => Err(message),
                Ok(more) => more.items(output, from + 1, exclude_reasoning),
            }
        }
    }
}

/// A function call as a chat tool call.
pub open spec fn chat_call(item: Tree) -> Tree {
    empty_object().with("id"@, item.at("call_id"@)).with("type"@, Tree::Text("function"@)).with(
        "function"@,
        empty_object().with("name"@, item.at("name"@)).with("arguments"@, item.at("arguments"@)),
    )
}

fn make_call(item: &Json) -> (r: Json)
    ensures
        r@ == chat_call(item@),
{
    Json::object().with("id", item.at("call_id").copy()).with("type", Json::text("function")).with(
        "function",
        Json::object().with("name", item.at("name").copy()).with(
            "arguments",
            item.at("arguments").copy(),
        ),
    )
}

impl Gathered {
    fn add_part(&mut self, part: &Json) -> (r: Result<(), Error>)
        ensures
            match old(self).deep_view().part(part@) {
                Ok(more) => r is Ok && final(self).deep_view() == more,
                Err(message) => r is Err && r->Err_0.message@ == message,
            },
    {
        let kind = part.at("type");
        if kind.is("output_text") || kind.is("input_text") {
            match part.at("text").as_str() {
                None => Err(Error::new("Response text must be a string")),
                Some(text) => {
                    self.text.append(text);
                    match part.at("annotations").as_array() {
                        Some(values) => extend(&mut self.annotations, copy_all(values)),
                        None => {
                            proof {
                                assert(old(self).deep_view().annotations + Seq::<Tree>::empty()
                                    =~= old(self).deep_view().annotations);
                            }
                        },
                    }
                    Ok(())
                },
            }
        } else if kind.is("refusal") {
            match part.at("refusal").as_str() {
                Some(refusal) => self.refusal.append(refusal),
                None => {},
            }
            Ok(())
        } else {
            Err(Error::new("Response content cannot be represented as a chat message"))
        }
    }

    fn add_parts(&mut self, parts: &Vec<Json>) -> (r: Result<(), Error>)
        ensures
            match old(self).deep_view().parts(trees(parts@), 0) {
                Ok(more) => r is Ok && final(self).deep_view() == more,
                Err(message) => r is Err && r->Err_0.message@ == message,
            },
    {
        let ghost whole = self.deep_view().parts(trees(parts@), 0);
        let mut i: usize = 0;
        while i < parts.len()
            invariant
                i <= parts.len(),
                whole == old(self).deep_view().parts(trees(parts@), 0),
                whole == self.deep_view().parts(trees(parts@), i as int),
            decreases parts.len() - i,
        {
            self.add_part(&parts[i])?;
            i += 1;
        }
        Ok(())
    }

    fn add_item(&mut self, item: &Json, index: usize, exclude_reasoning: bool) -> (r: Result<
        (),
        Error,
    >)
        ensures
            match old(self).deep_view().item(item@, index as int, exclude_reasoning) {
                Ok(more) => r is Ok && final(self).deep_view() == more,
                Err(message) => r is Err && r->Err_0.message@ == message,
            },
    {
        let kind = item.at("type");
        if kind.is("message") {
            match item.at("content").as_array() {
                None => Err(Error::new("Response message lacks content")),
                Some(parts) => self.add_parts(parts),
            }
        } else if kind.is("function_call") {
            self.calls.push(make_call(item));
            Ok(())
        } else if kind.is("reasoning") {
            if !exclude_reasoning {
                extend(&mut self.details, reasoning_details(item, index as u64));
            }
            Ok(())
        } else {
            Err(Error::new("Response output type cannot be represented by the chat shim"))
        }
    }
}

/// A text, or null where it is empty.
pub open spec fn filled_text(text: Seq<char>) -> Tree {
    if text.len() == 0 {
        Tree::Null
    } else {
        Tree::Text(text)
    }
}

/// The reasoning that details tell, from `from` on.
pub open spec fn told_reasoning(details: Seq<Tree>, from: int, text: Seq<char>) -> Seq<char>
    decreases details.len() - from,
{
    if from < 0 || from >= details.len() {
        text
    } else {
        let more = match details[from].at("summary"@).text() {
            Some(more) => more,
            None => match details[from].at("text"@).text() {
                Some(more) => more,
                None => Seq::empty(),
            },
        };
        told_reasoning(details, from + 1, text + more)
    }
}

fn tell_reasoning(details: &Vec<Json>) -> (r: String)
    ensures
        r@ == told_reasoning(trees(details@), 0, Seq::empty()),
{
    let mut text = String::new();
    let mut i: usize = 0;
    while i < details.len()
        invariant
            i <= details.len(),
            told_reasoning(trees(details@), 0, Seq::empty()) == told_reasoning(
                trees(details@),
                i as int,
                text@,
            ),
        decreases details.len() - i,
    {
        let ghost before = text@;
        match details[i].at("summary").as_str() {
            Some(more) => text.append(more),
            None => match details[i].at("text").as_str() {
                Some(more) => text.append(more),
                None => {
                    proof {
                        assert(before + Seq::<char>::empty() =~= before);
                    }
                },
            },
        }
        i += 1;
    }
    text
}

/// The message that was gathered.
pub open spec fn gathered_message(all: Gathering) -> Tree {
    let plain = empty_object().with("role"@, Tree::Text("assistant"@)).with(
        "content"@,
        filled_text(all.text),
    ).with("refusal"@, filled_text(all.refusal));
    let called = if all.calls.len() > 0 {
        plain.with("tool_calls"@, Tree::Array(all.calls))
    } else {
        plain
    };
    let noted = if all.annotations.len() > 0 {
        called.with("annotations"@, Tree::Array(all.annotations))
    } else {
        called
    };
    if all.details.len() > 0 {
        let reasoning = told_reasoning(all.details, 0, Seq::empty());
        let told = if reasoning.len() > 0 {
            noted.with("reasoning"@, Tree::Text(reasoning))
        } else {
            noted
        };
        told.with("reasoning_details"@, Tree::Array(all.details))
    } else {
        noted
    }
}

/// Output items as one chat message.
pub open spec fn message_of(output: Seq<Tree>, exclude_reasoning: bool) -> Result<
    Tree,
    Seq<char>,
> {
    match (Gathering {
        text: Seq::empty(),
        refusal: Seq::empty(),
        calls: Seq::empty(),
        details: Seq::empty(),
        annotations: Seq::empty(),
    }).items(output, 0, exclude_reasoning) {
        Err(message) => Err(message),
        Ok(all) => Ok(gathered_message(all)),
    }
}

fn fill_text(text: String) -> (r: Json)
    ensures
        r@ == filled_text(text@),
{
    if text.as_str().is_empty() {
        Json::Null
    } else {
        Json::String(text)
    }
}

/// Output items as one chat message.
pub fn message(output: &Vec<Json>, exclude_reasoning: bool) -> (r: Result<Json, Error>)
    ensures
        outcome(r) == message_of(trees(output@), exclude_reasoning),
{
    let mut all = Gathered {
        text: String::new(),
        refusal: String::new(),
        calls: Vec::new(),
        details: Vec::new(),
        annotations: Vec::new(),
    };
    let ghost whole = all.deep_view().items(trees(output@), 0, exclude_reasoning);
    let mut i: usize = 0;
    while i < output.len()
        invariant
            i <= output.len(),
            message_of(trees(output@), exclude_reasoning) == match whole {
                Err(message) => Err::<Tree, Seq<char>>(message),
                Ok(all) => Ok(gathered_message(all)),
            },
            whole == all.deep_view().items(trees(output@), i as int, exclude_reasoning),
        decreases output.len() - i,
    {
        all.add_item(&output[i], i, exclude_reasoning)?;
        i += 1;
    }
    let mut result = Json::object().with("role", Json::text("assistant")).with(
        "content",
        fill_text(all.text),
    ).with("refusal", fill_text(all.refusal));
    if all.calls.len() > 0 {
        result.set("tool_calls", Json::Array(all.calls));
    }
    if all.annotations.len() > 0 {
        result.set("annotations", Json::Array(all.annotations));
    }
    if all.details.len() > 0 {
        let reasoning = tell_reasoning(&all.details);
        if !reasoning.as_str().is_empty() {
            result.set("reasoning", Json::String(reasoning));
        }
        result.set("reasoning_details", Json::Array(all.details));
    }
    Ok(result)
}

/// Whether one of the items from `from` on is a function call.
pub open spec fn any_function_call(items: Seq<Tree>, from: int) -> bool
    decreases items.len() - from,
{
    0 <= from < items.len() && (items[from].at("type"@) == Tree::Text("function_call"@)
        || any_function_call(items, from + 1))
}

fn has_function_call(items: &Vec<Json>) -> (r: bool)
    ensures
        r == any_function_call(trees(items@), 0),
{
    let mut i: usize = 0;
    while i < items.len()
        invariant
            i <= items.len(),
            any_function_call(trees(items@), 0) == any_function_call(trees(items@), i as int),
        decreases items.len() - i,
    {
        if items[i].at("type").is("function_call") {
            return true;
        }
        i += 1;
    }
    false
}

/// Why a chat completion finished.
pub open spec fn finish_of(value: Tree) -> Result<Seq<char>, Seq<char>> {
    if value.at("status"@) == Tree::Text("incomplete"@) {
        let reason = value.at("incomplete_details"@).at("reason"@);
        if reason == Tree::Text("max_output_tokens"@) {
            Ok("length"@)
        } else if reason == Tree::Text("content_filter"@) {
            Ok("content_filter"@)
        } else {
            Err("Response ended incomplete without a supported finish reason"@)
        }
    } else if value.at("status"@) == Tree::Text("completed"@) {
        if any_function_call(list_of(value.at("output"@)), 0) {
            Ok("tool_calls"@)
        } else {
            Ok("stop"@)
        }
    } else {
        Err("Response did not complete"@)
    }
}

/// Why a chat completion finished.
pub fn finish_reason(value: &Json) -> (r: Result<&'static str, Error>)
    ensures
        outcome(r) == finish_of(value@),
{
    if value.at("status").is("incomplete") {
        let reason = value.at("incomplete_details").at("reason");
        if reason.is("max_output_tokens") {
            Ok("length")
        } else if reason.is("content_filter") {
            Ok("content_filter")
        } else {
            Err(Error::new("Response ended incomplete without a supported finish reason"))
        }
    } else if value.at("status").is("completed") {
        let called = match value.at("output").as_array() {
            Some(items) => has_function_call(items),
            None => false,
        };
        if called {
            Ok("tool_calls")
        } else {
            Ok("stop")
        }
    } else {
        Err(Error::new("Response did not complete"))
    }
}

/// A response as a chat completion.
pub open spec fn completion_of(value: Tree, model: Seq<char>, exclude_reasoning: bool) -> Result<
    Tree,
    Seq<char>,
> {
    match value.at("output"@).items() {
        None => Err("Response lacks output"@),
        Some(output) => match value.at("id"@).text() {
            None => Err("Response lacks id"@),
            Some(id) => match message_of(output, exclude_reasoning) {
                Err(message) => Err(message),
                Ok(message) => match finish_of(value) {
                    Err(message) => Err(message),
                    Ok(finish) => Ok(
                        empty_object().with("id"@, Tree::Text("chatcmpl-"@ + id)).with(
                            "object"@,
                            Tree::Text("chat.completion"@),
                        ).with("created"@, value.at("created_at"@)).with(
                            "model"@,
                            Tree::Text(model),
                        ).with(
                            "choices"@,
                            Tree::Array(
                                seq![
                                    empty_object().with("index"@, number(0)).with(
                                        "message"@,
                                        message,
                                    ).with("finish_reason"@, Tree::Text(finish)).with(
                                        "logprobs"@,
                                        Tree::Null,
                                    ),
                                ],
                            ),
                        ).with("usage"@, chat_usage(value.at("usage"@))),
                    ),
                },
            },
        },
    }
}

/// A response as a chat completion.
pub fn completion(value: &Json, model: &str, exclude_reasoning: bool) -> (r: Result<Json, Error>)
    ensures
        outcome(r) == completion_of(value@, model@, exclude_reasoning),
{
    let output = match value.at("output").as_array() {
        Some(output) => output,
        None => return Err(Error::new("Response lacks output")),
    };
    let id = match value.at("id").as_str() {
        Some(id) => id,
        None => return Err(Error::new("Response lacks id")),
    };
    let message = message(output, exclude_reasoning)?;
    let finish = finish_reason(value)?;
    let choice = Json::object().with("index", Json::natural(0)).with("message", message).with(
        "finish_reason",
        Json::text(finish),
    ).with("logprobs", Json::Null);
    let mut choices: Vec<Json> = Vec::new();
    let ghost shown = choice@;
    choices.push(choice);
    proof {
        assert(trees(choices@) =~= seq![shown]);
    }
    Ok(
        Json::object().with("id", Json::String(join2("chatcmpl-", id))).with(
            "object",
            Json::text("chat.completion"),
        ).with("created", value.at("created_at").copy()).with("model", Json::text(model)).with(
            "choices",
            Json::Array(choices),
        ).with("usage", usage(value.at("usage"))),
    )
}

/// What a chat client is told of a response that failed, if it did.
pub open spec fn failure_of(value: Tree) -> Option<Tree> {
    if value.at("status"@) == Tree::Text("failed"@) || !(value.at("error"@) is Null) {
        Some(
            empty_object().with(
                "error"@,
                if value.at("error"@) is Null {
                    empty_object().with(
                        "message"@,
                        Tree::Text("Responses request failed"@),
                    ).with("type"@, Tree::Text("server_error"@))
                } else {
                    value.at("error"@)
                },
            ),
        )
    } else {
        None
    }
}

/// What a chat client is told of a response that failed, if it did.
pub fn failure(value: &Json) -> (r: Option<Json>)
    ensures
        r.deep_view() == failure_of(value@),
{
    let error = value.at("error");
    if !value.at("status").is("failed") && error.is_null() {
        return None;
    }
    let told = if error.is_null() {
        Json::object().with("message", Json::text("Responses request failed")).with(
            "type",
            Json::text("server_error"),
        )
    } else {
        error.copy()
    };
    Some(Json::object().with("error", told))
}

} // verus!

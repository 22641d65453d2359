//! Responses events as chat completion chunks.

use vstd::prelude::*;
use vstd::string::StringExecFns;
use vstd::utf8::encode_utf8;
use crate::chat::response::{
    chat_usage, detail_index, finish_of, finish_reason, join_texts, joined_text, make_detail_index,
    make_opaque_detail, opaque_detail, usage,
};
use crate::error::{outcome, Error};
use crate::exchange::{to_text, written};
use crate::gemini::parts::empty_object;
use crate::gemini::response::number;
use crate::outside::{fresh_id, now_seconds};
use crate::sse::{decoded, Scan, SseDecoder};
use crate::text::{after, hex, hex_text, join2, join3, same, starts_with, strip_prefix};
use crate::tree::{json_views, trees, Json, Tree};

verus! {

broadcast use json_views;

/// How much translated output a stream may hold.
pub const LIMIT: usize = 67108864;

/// What names a text: an output item, a part of it, and which of two kinds of text.
pub type Slot = (u64, u64, bool);

/// Texts by what names them.
pub type Texts = Vec<(Slot, String)>;

/// The view of texts.
pub open spec fn texts_view(texts: Seq<(Slot, String)>) -> Seq<(Slot, Seq<char>)> {
    Seq::new(texts.len(), |i: int| (texts[i].0, texts[i].1@))
}

/// The place of a text at or after `from`.
pub open spec fn place_of(texts: Seq<(Slot, Seq<char>)>, slot: Slot, from: int) -> Option<int>
    decreases texts.len() - from,
{
    if from < 0 || from >= texts.len() {
        None
    } else if texts[from].0 == slot {
        Some(from)
    } else {
        place_of(texts, slot, from + 1)
    }
}

/// A text, empty where there is none.
pub open spec fn held(texts: Seq<(Slot, Seq<char>)>, slot: Slot) -> Seq<char> {
    match place_of(texts, slot, 0) {
        Some(i) => texts[i].1,
        None => Seq::empty(),
    }
}

/// Texts with one of them grown.
pub open spec fn grown(texts: Seq<(Slot, Seq<char>)>, slot: Slot, delta: Seq<char>) -> Seq<
    (Slot, Seq<char>),
> {
    match place_of(texts, slot, 0) {
        Some(i) => texts.update(i, (slot, texts[i].1 + delta)),
        None => texts.push((slot, delta)),
    }
}

fn find_place(texts: &Texts, slot: Slot) -> (r: Option<usize>)
    ensures
        match r {
            Some(i) => place_of(texts_view(texts@), slot, 0) == Some(i as int) && i < texts.len()
                && texts@[i as int].0 == slot,
            None => place_of(texts_view(texts@), slot, 0) is None,
        },
{
    let mut i: usize = 0;
    while i < texts.len()
        invariant
            i <= texts.len(),
            place_of(texts_view(texts@), slot, 0) == place_of(
                texts_view(texts@),
                slot,
                i as int,
            ),
        decreases texts.len() - i,
    {
        let own = texts[i].0;
        if own.0 == slot.0 && own.1 == slot.1 && own.2 == slot.2 {
            return Some(i);
        }
        i += 1;
    }
    None
}

fn read_held<'a>(texts: &'a Texts, slot: Slot) -> (r: &'a str)
    ensures
        r@ == held(texts_view(texts@), slot),
{
    match find_place(texts, slot) {
        Some(i) => texts[i].1.as_str(),
        None => {
            proof {
                reveal_strlit("");
                assert(""@ =~= Seq::<char>::empty());
            }
            ""
        },
    }
}

fn grow(texts: &mut Texts, slot: Slot, delta: &str)
    ensures
        texts_view(final(texts)@) == grown(texts_view(old(texts)@), slot, delta@),
{
    let ghost before = texts_view(texts@);
    match find_place(texts, slot) {
        Some(i) => {
            let longer = join2(texts[i].1.as_str(), delta);
            texts.set(i, (slot, longer));
            proof {
                assert(texts_view(texts@) =~= before.update(
                    i as int,
                    (slot, before[i as int].1 + delta@),
                ));
            }
        },
        None => {
            texts.push((slot, delta.to_string()));
            proof {
                assert(texts_view(texts@) =~= before.push((slot, delta@)));
            }
        },
    }
}

// ---- the state -----------------------------------------------------------------------

/// The state of a chat stream.
pub struct State {
    pub id: String,
    pub created: u64,
    pub model: String,
    pub started: bool,
    pub ended: bool,
    pub include_usage: bool,
    pub exclude_reasoning: bool,
    pub gemini: bool,
    /// Message texts: refusals are the second kind.
    pub texts: Texts,
    /// Reasoning texts: raw reasoning is the second kind.
    pub summaries: Texts,
    /// Arguments of tool calls, in the order in which the calls appeared.
    pub tools: Texts,
    /// Reasoning items whose opaque data was sent.
    pub encrypted: Texts,
    pub retained: usize,
}

/// The view of a chat stream.
pub ghost struct Chat {
    pub id: Seq<char>,
    pub created: u64,
    pub model: Seq<char>,
    pub started: bool,
    pub ended: bool,
    pub usage_wanted: bool,
    pub exclude_reasoning: bool,
    pub gemini: bool,
    pub texts: Seq<(Slot, Seq<char>)>,
    pub summaries: Seq<(Slot, Seq<char>)>,
    pub tools: Seq<(Slot, Seq<char>)>,
    pub encrypted: Seq<(Slot, Seq<char>)>,
    pub retained: nat,
}

impl View for State {
    type V = Chat;

    open spec fn view(&self) -> Chat {
        Chat {
            id: self.id@,
            created: self.created,
            model: self.model@,
            started: self.started,
            ended: self.ended,
            usage_wanted: self.include_usage,
            exclude_reasoning: self.exclude_reasoning,
            gemini: self.gemini,
            texts: texts_view(self.texts@),
            summaries: texts_view(self.summaries@),
            tools: texts_view(self.tools@),
            encrypted: texts_view(self.encrypted@),
            retained: self.retained as nat,
        }
    }
}

/// The state of a stream that has not started.
pub open spec fn fresh(
    id: Seq<char>,
    created: u64,
    model: Seq<char>,
    usage_wanted: bool,
    exclude_reasoning: bool,
) -> Chat {
    Chat {
        id,
        created,
        model,
        started: false,
        ended: false,
        usage_wanted,
        exclude_reasoning,
        gemini: false,
        texts: Seq::empty(),
        summaries: Seq::empty(),
        tools: Seq::empty(),
        encrypted: Seq::empty(),
        retained: 0,
    }
}

/// A state with the chunks made on the way to it, and the fault that stopped it.
pub ghost struct Relay {
    pub chat: Chat,
    pub chunks: Seq<Tree>,
    pub fault: Option<Seq<char>>,
}

/// A list of one value.
pub open spec fn one(value: Tree) -> Tree {
    Tree::Array(seq![value])
}

impl Chat {
    /// A chunk.
    pub open spec fn chunk(self, delta: Tree, finish: Tree) -> Tree {
        let plain = empty_object().with("id"@, Tree::Text(self.id)).with(
            "object"@,
            Tree::Text("chat.completion.chunk"@),
        ).with("created"@, number(self.created)).with("model"@, Tree::Text(self.model)).with(
            "choices"@,
            one(
                empty_object().with("index"@, number(0)).with("delta"@, delta).with(
                    "finish_reason"@,
                    finish,
                ).with("logprobs"@, Tree::Null),
            ),
        );
        if self.usage_wanted {
            plain.with("usage"@, Tree::Null)
        } else {
            plain
        }
    }
}

/// What is new of a text: all of a delta, or what a full text adds to what is held.
pub open spec fn addition(prior: Seq<char>, text: Seq<char>, full: bool) -> Option<Seq<char>> {
    if full {
        after(text, prior)
    } else {
        Some(text)
    }
}

impl Relay {
    pub open spec fn failed(self, message: Seq<char>) -> Relay {
        Relay { fault: Some(message), ..self }
    }

    /// Sends a chunk that counts towards the limit.
    pub open spec fn sent(self, bytes: nat, delta: Tree) -> Relay {
        let total = if self.chat.retained + bytes > usize::MAX {
            usize::MAX as nat
        } else {
            self.chat.retained + bytes
        };
        let kept = Relay { chat: Chat { retained: total, ..self.chat }, ..self };
        if total > LIMIT {
            kept.failed("Chat stream exceeds 64 MiB of translated output"@)
        } else {
            Relay { chunks: self.chunks.push(kept.chat.chunk(delta, Tree::Null)), ..kept }
        }
    }

    /// Text of a message.
    pub open spec fn text(self, slot: Slot, text: Seq<char>, full: bool) -> Relay {
        match addition(held(self.chat.texts, slot), text, full) {
            None => self.failed("Response text changed after being streamed"@),
            Some(delta) => if delta.len() == 0 {
                self
            } else {
                Relay {
                    chat: Chat { texts: grown(self.chat.texts, slot, delta), ..self.chat },
                    ..self
                }.sent(
                    encode_utf8(delta).len(),
                    empty_object().with(
                        if slot.2 {
                            "refusal"@
                        } else {
                            "content"@
                        },
                        Tree::Text(delta),
                    ),
                )
            },
        }
    }

    /// Text of reasoning.
    pub open spec fn summary(
        self,
        index: u64,
        id: Tree,
        text: Seq<char>,
        full: bool,
        raw: bool,
    ) -> Relay {
        let slot = (index, 0u64, raw);
        if self.chat.exclude_reasoning {
            self
        } else {
            match addition(held(self.chat.summaries, slot), text, full) {
                None => self.failed("Reasoning summary changed after being streamed"@),
                Some(delta) => if delta.len() == 0 {
                    self
                } else {
                    Relay {
                        chat: Chat {
                            summaries: grown(self.chat.summaries, slot, delta),
                            ..self.chat
                        },
                        ..self
                    }.sent(
                        encode_utf8(delta).len(),
                        empty_object().with("reasoning"@, Tree::Text(delta)).with(
                            "reasoning_details"@,
                            one(told_detail(index, id, delta, raw, self.chat.gemini)),
                        ),
                    )
                },
            }
        }
    }

    /// Arguments of a call.
    pub open spec fn arguments(self, index: u64, args: Seq<char>, full: bool) -> Relay {
        let slot = (index, 0u64, false);
        match place_of(self.chat.tools, slot, 0) {
            None => self.failed("Function arguments arrived before the function identity"@),
            Some(place) => match addition(held(self.chat.tools, slot), args, full) {
                None => self.failed("Function arguments changed after being streamed"@),
                Some(delta) => if delta.len() == 0 {
                    self
                } else {
                    Relay {
                        chat: Chat { tools: grown(self.chat.tools, slot, delta), ..self.chat },
                        ..self
                    }.sent(
                        encode_utf8(delta).len(),
                        empty_object().with(
                            "tool_calls"@,
                            one(
                                empty_object().with("index"@, number(place as u64)).with(
                                    "function"@,
                                    empty_object().with("arguments"@, Tree::Text(delta)),
                                ),
                            ),
                        ),
                    )
                },
            },
        }
    }

    /// A call.
    pub open spec fn tool(self, index: u64, item: Tree, full: bool) -> Relay {
        let slot = (index, 0u64, false);
        let known = if place_of(self.chat.tools, slot, 0) is Some {
            self
        } else if !(item.at("call_id"@) is Text && item.at("name"@) is Text) {
            self.failed("Function call lacks identity"@)
        } else {
            Relay {
                chat: Chat {
                    tools: self.chat.tools.push((slot, Seq::empty())),
                    ..self.chat
                },
                ..self
            }.sent(
                encode_utf8(written(item)).len(),
                empty_object().with(
                    "tool_calls"@,
                    one(
                        empty_object().with("index"@, number(self.chat.tools.len() as u64)).with(
                            "id"@,
                            item.at("call_id"@),
                        ).with("type"@, Tree::Text("function"@)).with(
                            "function"@,
                            empty_object().with("name"@, item.at("name"@)).with(
                                "arguments"@,
                                Tree::Text(""@),
                            ),
                        ),
                    ),
                ),
            )
        };
        if known.fault is Some || !full {
            known
        } else {
            known.arguments(
                index,
                match item.at("arguments"@).text() {
                    Some(args) => args,
                    None => Seq::empty(),
                },
                true,
            )
        }
    }

    /// A part of a finished message.
    pub open spec fn part(self, index: u64, content: u64, part: Tree) -> Relay {
        if part.at("type"@) == Tree::Text("output_text"@) {
            self.text(
                (index, content, false),
                match part.at("text"@).text() {
                    Some(text) => text,
                    None => Seq::empty(),
                },
                true,
            )
        } else if part.at("type"@) == Tree::Text("refusal"@) {
            self.text(
                (index, content, true),
                match part.at("refusal"@).text() {
                    Some(text) => text,
                    None => Seq::empty(),
                },
                true,
            )
        } else {
            self.failed("Unsupported response content in chat stream"@)
        }
    }

    /// The parts of a finished message from `from` on.
    pub open spec fn parts(self, index: u64, parts: Seq<Tree>, from: int) -> Relay
        decreases parts.len() - from,
    {
        if self.fault is Some || from < 0 || from >= parts.len() {
            self
        } else {
            self.part(index, from as u64, parts[from]).parts(index, parts, from + 1)
        }
    }

    /// A finished reasoning item.
    pub open spec fn reasoning(self, index: u64, item: Tree) -> Relay {
        let summed = self.summary(
            index,
            item.at("id"@),
            joined_text(item.at("summary"@)),
            true,
            false,
        );
        if summed.fault is Some {
            summed
        } else {
            let told = summed.summary(
                index,
                item.at("id"@),
                joined_text(item.at("content"@)),
                true,
                true,
            );
            let slot = (index, 0u64, false);
            if told.fault is Some || !(item.at("encrypted_content"@) is Text) || place_of(
                told.chat.encrypted,
                slot,
                0,
            ) is Some {
                told
            } else {
                Relay {
                    chat: Chat {
                        encrypted: told.chat.encrypted.push((slot, Seq::empty())),
                        ..told.chat
                    },
                    ..told
                }.sent(
                    encode_utf8(written(opaque_detail(item, index))).len(),
                    empty_object().with("reasoning_details"@, one(opaque_detail(item, index))),
                )
            }
        }
    }

    /// An output item, finished or just added.
    pub open spec fn item(self, index: u64, item: Tree, full: bool) -> Relay {
        let kind = item.at("type"@);
        if kind == Tree::Text("function_call"@) {
            self.tool(index, item, full)
        } else if kind == Tree::Text("message"@) {
            if full {
                match item.at("content"@).items() {
                    None => self.failed("Message lacks content"@),
                    Some(parts) => self.parts(index, parts, 0),
                }
            } else {
                self
            }
        } else if kind == Tree::Text("reasoning"@) {
            if full && !self.chat.exclude_reasoning {
                self.reasoning(index, item)
            } else {
                self
            }
        } else {
            self.failed("Unsupported response output in chat stream"@)
        }
    }

    /// The finished output items from `from` on.
    pub open spec fn items(self, items: Seq<Tree>, from: int) -> Relay
        decreases items.len() - from,
    {
        if self.fault is Some || from < 0 || from >= items.len() {
            self
        } else {
            self.item(from as u64, items[from], true).items(items, from + 1)
        }
    }

    /// The end of a response.
    pub open spec fn response(self, response: Tree) -> Relay {
        match response.at("output"@).items() {
            None => self.failed("Terminal response lacks output"@),
            Some(output) => {
                let listed = self.items(output, 0);
                if listed.fault is Some {
                    listed
                } else {
                    match finish_of(response) {
                        Err(message) => listed.failed(message),
                        Ok(finish) => {
                            let last = listed.chunks.push(
                                listed.chat.chunk(empty_object(), Tree::Text(finish)),
                            );
                            Relay {
                                chat: Chat { ended: true, ..listed.chat },
                                chunks: if self.chat.usage_wanted {
                                    last.push(
                                        listed.chat.chunk(empty_object(), Tree::Null).with(
                                            "choices"@,
                                            Tree::Array(Seq::empty()),
                                        ).with("usage"@, chat_usage(response.at("usage"@))),
                                    )
                                } else {
                                    last
                                },
                                ..listed
                            }
                        },
                    }
                }
            },
        }
    }

    /// The first chunk, which names the response.
    pub open spec fn begun(self, event: Tree) -> Relay {
        if self.chat.started {
            self
        } else {
            let response = event.at("response"@);
            let named = if event.has("response"@) {
                Chat {
                    id: match response.at("id"@).text() {
                        Some(id) => "chatcmpl-"@ + id,
                        None => self.chat.id,
                    },
                    created: match response.at("created_at"@).natural() {
                        Some(created) => created,
                        None => self.chat.created,
                    },
                    gemini: response.at("model"@).text() matches Some(model)
                        && "gemini/"@.is_prefix_of(model),
                    ..self.chat
                }
            } else {
                self.chat
            };
            let chat = Chat { started: true, ..named };
            Relay {
                chunks: self.chunks.push(
                    chat.chunk(
                        empty_object().with("role"@, Tree::Text("assistant"@)).with(
                            "content"@,
                            Tree::Text(""@),
                        ),
                        Tree::Null,
                    ),
                ),
                chat,
                ..self
            }
        }
    }
}

/// The detail that carries a piece of reasoning.
pub open spec fn told_detail(index: u64, id: Tree, delta: Seq<char>, raw: bool, gemini: bool) -> Tree {
    empty_object().with(
        "type"@,
        Tree::Text(
            if raw {
                "reasoning.text"@
            } else {
                "reasoning.summary"@
            },
        ),
    ).with(
        if raw {
            "text"@
        } else {
            "summary"@
        },
        Tree::Text(delta),
    ).with("id"@, id).with(
        "format"@,
        Tree::Text(
            if gemini {
                "google-gemini-v1"@
            } else {
                "openai-responses-v1"@
            },
        ),
    ).with(
        "index"@,
        number(
            detail_index(
                index,
                if raw {
                    1
                } else {
                    0
                },
            ),
        ),
    )
}

/// The error that a failed response tells.
pub open spec fn told_error(event: Tree) -> Tree {
    match event.get("error"@) {
        Some(error) => error,
        None => match event.at("response"@).get("error"@) {
            Some(error) => error,
            None => empty_object().with(
                "message"@,
                Tree::Text(
                    match event.at("message"@).text() {
                        Some(message) => message,
                        None => "Responses stream failed"@,
                    },
                ),
            ).with("type"@, Tree::Text("server_error"@)),
        },
    }
}

/// A number that a member holds, or zero.
pub open spec fn number_at(event: Tree, key: Seq<char>) -> u64 {
    match event.at(key).natural() {
        Some(n) => n,
        None => 0,
    }
}

/// A text that a member holds, or none.
pub open spec fn delta_of(event: Tree) -> Seq<char> {
    match event.at("delta"@).text() {
        Some(delta) => delta,
        None => Seq::empty(),
    }
}

impl Relay {
    /// What an event of a known type adds.
    pub open spec fn handled(self, event: Tree, kind: Seq<char>) -> Relay {
        let index = number_at(event, "output_index"@);
        let content = number_at(event, "content_index"@);
        let delta = delta_of(event);
        if kind == "response.output_item.added"@ {
            self.item(index, event.at("item"@), false)
        } else if kind == "response.output_item.done"@ {
            self.item(index, event.at("item"@), true)
        } else if kind == "response.output_text.delta"@ {
            self.text((index, content, false), delta, false)
        } else if kind == "response.refusal.delta"@ {
            self.text((index, content, true), delta, false)
        } else if kind == "response.reasoning_summary_text.delta"@ {
            self.summary(index, event.at("item_id"@), delta, false, false)
        } else if kind == "response.reasoning_text.delta"@ {
            self.summary(index, event.at("item_id"@), delta, false, true)
        } else if kind == "response.function_call_arguments.delta"@ {
            self.arguments(index, delta, false)
        } else if kind == "response.completed"@ || kind == "response.incomplete"@ {
            self.response(event.at("response"@))
        } else {
            self
        }
    }
}

impl Chat {
    /// The state after an event, the chunks to send, and the fault if there is one.
    pub open spec fn event(self, event: Tree) -> Relay {
        let start = Relay { chat: self, chunks: Seq::empty(), fault: None };
        if self.ended {
            start
        } else {
            match event.at("type"@).text() {
                None => start.failed("Responses stream event lacks type"@),
                Some(kind) => if kind == "error"@ || kind == "response.failed"@ {
                    Relay {
                        chat: Chat { ended: true, ..self },
                        chunks: seq![empty_object().with("error"@, told_error(event))],
                        fault: None,
                    }
                } else {
                    start.begun(event).handled(event, kind)
                },
            }
        }
    }
}

// ---- the code --------------------------------------------------------------------------

/// A state with chunks and no fault.
pub open spec fn relay(chat: Chat, chunks: Seq<Tree>) -> Relay {
    Relay { chat, chunks, fault: None }
}

/// Whether a result tells of a fault.
pub open spec fn reported(r: Result<(), Error>, fault: Option<Seq<char>>) -> bool {
    match r {
        Ok(_) => fault is None,
        Err(error) => fault == Some(error.message@),
    }
}

fn make_one(value: Json) -> (r: Json)
    ensures
        r@ == one(value@),
{
    let mut list: Vec<Json> = Vec::new();
    list.push(value);
    proof {
        assert(trees(list@) =~= seq![value@]);
    }
    Json::Array(list)
}

fn new_part<'a>(prior: &str, text: &'a str, full: bool) -> (r: Option<&'a str>)
    ensures
        r.deep_view() == addition(prior@, text@, full),
{
    if full {
        strip_prefix(text, prior)
    } else {
        Some(text)
    }
}

fn make_told_detail(index: u64, id: &Json, delta: &str, raw: bool, gemini: bool) -> (r: Json)
    ensures
        r@ == told_detail(index, id@, delta@, raw, gemini),
{
    let kind = if raw {
        "reasoning.text"
    } else {
        "reasoning.summary"
    };
    let field = if raw {
        "text"
    } else {
        "summary"
    };
    let format = if gemini {
        "google-gemini-v1"
    } else {
        "openai-responses-v1"
    };
    let place = make_detail_index(
        index,
        if raw {
            1
        } else {
            0
        },
    );
    Json::object().with("type", Json::text(kind)).with(field, Json::text(delta)).with(
        "id",
        id.copy(),
    ).with("format", Json::text(format)).with("index", Json::natural(place))
}

fn make_told_error(event: &Json) -> (r: Json)
    ensures
        r@ == told_error(event@),
{
    match event.get("error") {
        Some(error) => error.copy(),
        None => match event.at("response").get("error") {
            Some(error) => error.copy(),
            None => {
                let message = match event.at("message").as_str() {
                    Some(message) => message,
                    None => "Responses stream failed",
                };
                Json::object().with("message", Json::text(message)).with(
                    "type",
                    Json::text("server_error"),
                )
            },
        },
    }
}

fn read_number(event: &Json, key: &str) -> (r: u64)
    ensures
        r == number_at(event@, key@),
{
    match event.at(key).as_u64() {
        Some(n) => n,
        None => 0,
    }
}

fn text_or_none<'a>(value: &'a Json) -> (r: &'a str)
    ensures
        r@ == match value@.text() {
            Some(text) => text,
            None => Seq::empty(),
        },
{
    match value.as_str() {
        Some(text) => text,
        None => {
            proof {
                reveal_strlit("");
                assert(""@ =~= Seq::<char>::empty());
            }
            ""
        },
    }
}

impl State {
    /// The state of a stream that is to be named by a given id at a given time.
    pub fn new_at(
        model: &str,
        include_usage: bool,
        exclude_reasoning: bool,
        id: String,
        created: u64,
    ) -> (r: State)
        ensures
            r@ == fresh(id@, created, model@, include_usage, exclude_reasoning),
    {
        let r = State {
            id,
            created,
            model: model.to_string(),
            started: false,
            ended: false,
            include_usage,
            exclude_reasoning,
            gemini: false,
            texts: Vec::new(),
            summaries: Vec::new(),
            tools: Vec::new(),
            encrypted: Vec::new(),
            retained: 0,
        };
        proof {
            assert(texts_view(r.texts@) =~= Seq::empty());
            assert(texts_view(r.summaries@) =~= Seq::empty());
            assert(texts_view(r.tools@) =~= Seq::empty());
            assert(texts_view(r.encrypted@) =~= Seq::empty());
        }
        r
    }

    /// The state of a stream that starts now, under a fresh id until the response names
    /// itself.
    pub fn new(model: &str, include_usage: bool, exclude_reasoning: bool) -> (r: State)
        ensures
            exists|bytes: Seq<u8>, created: u64|
                bytes.len() == 16 && r@ == #[trigger] fresh(
                    "chatcmpl-"@ + hex(bytes),
                    created,
                    model@,
                    include_usage,
                    exclude_reasoning,
                ),
    {
        let bytes = fresh_id();
        let shown = hex_text(&bytes);
        let created = now_seconds();
        let id = join2("chatcmpl-", shown.as_str());
        proof {
            assert(bytes@.len() == 16);
        }
        State::new_at(model, include_usage, exclude_reasoning, id, created)
    }

    fn chunk(&self, delta: Json, finish: Json) -> (r: Json)
        ensures
            r@ == self@.chunk(delta@, finish@),
    {
        let choice = Json::object().with("index", Json::natural(0)).with("delta", delta).with(
            "finish_reason",
            finish,
        ).with("logprobs", Json::Null);
        let plain = Json::object().with("id", Json::text(self.id.as_str())).with(
            "object",
            Json::text("chat.completion.chunk"),
        ).with("created", Json::natural(self.created)).with(
            "model",
            Json::text(self.model.as_str()),
        ).with("choices", make_one(choice));
        if self.include_usage {
            plain.with("usage", Json::Null)
        } else {
            plain
        }
    }

    fn send(&mut self, chunks: &mut Vec<Json>, bytes: usize, delta: Json) -> (r: Result<(), Error>)
        ensures
            ({
                let spec = relay(old(self)@, trees(old(chunks)@)).sent(bytes as nat, delta@);
                &&& final(self)@ == spec.chat
                &&& trees(final(chunks)@) == spec.chunks
                &&& reported(r, spec.fault)
            }),
    {
        self.retained = if self.retained > usize::MAX - bytes {
            usize::MAX
        } else {
            self.retained + bytes
        };
        if self.retained > LIMIT {
            return Err(Error::new("Chat stream exceeds 64 MiB of translated output"));
        }
        let chunk = self.chunk(delta, Json::Null);
        chunks.push(chunk);
        Ok(())
    }

    fn text(&mut self, chunks: &mut Vec<Json>, slot: Slot, text: &str, full: bool) -> (r: Result<
        (),
        Error,
    >)
        ensures
            ({
                let spec = relay(old(self)@, trees(old(chunks)@)).text(slot, text@, full);
                &&& final(self)@ == spec.chat
                &&& trees(final(chunks)@) == spec.chunks
                &&& reported(r, spec.fault)
            }),
    {
        let delta = match new_part(read_held(&self.texts, slot), text, full) {
            Some(delta) => delta,
            None => return Err(Error::new("Response text changed after being streamed")),
        };
        if delta.is_empty() {
            return Ok(());
        }
        grow(&mut self.texts, slot, delta);
        let field = if slot.2 {
            "refusal"
        } else {
            "content"
        };
        self.send(
            chunks,
            delta.as_bytes().len(),
            Json::object().with(field, Json::text(delta)),
        )
    }

    fn summary(
        &mut self,
        chunks: &mut Vec<Json>,
        index: u64,
        id: &Json,
        text: &str,
        full: bool,
        raw: bool,
    ) -> (r: Result<(), Error>)
        ensures
            ({
                let spec = relay(old(self)@, trees(old(chunks)@)).summary(
                    index,
                    id@,
                    text@,
                    full,
                    raw,
                );
                &&& final(self)@ == spec.chat
                &&& trees(final(chunks)@) == spec.chunks
                &&& reported(r, spec.fault)
            }),
    {
        if self.exclude_reasoning {
            return Ok(());
        }
        let slot: Slot = (index, 0, raw);
        let delta = match new_part(read_held(&self.summaries, slot), text, full) {
            Some(delta) => delta,
            None => return Err(Error::new("Reasoning summary changed after being streamed")),
        };
        if delta.is_empty() {
            return Ok(());
        }
        grow(&mut self.summaries, slot, delta);
        let detail = make_told_detail(index, id, delta, raw, self.gemini);
        self.send(
            chunks,
            delta.as_bytes().len(),
            Json::object().with("reasoning", Json::text(delta)).with(
                "reasoning_details",
                make_one(detail),
            ),
        )
    }

    fn arguments(&mut self, chunks: &mut Vec<Json>, index: u64, args: &str, full: bool) -> (r: Result<
        (),
        Error,
    >)
        ensures
            ({
                let spec = relay(old(self)@, trees(old(chunks)@)).arguments(index, args@, full);
                &&& final(self)@ == spec.chat
                &&& trees(final(chunks)@) == spec.chunks
                &&& reported(r, spec.fault)
            }),
    {
        let slot: Slot = (index, 0, false);
        let place = match find_place(&self.tools, slot) {
            Some(place) => place,
            None => {
                return Err(
                    Error::new("Function arguments arrived before the function identity"),
                );
            },
        };
        let delta = match new_part(read_held(&self.tools, slot), args, full) {
            Some(delta) => delta,
            None => return Err(Error::new("Function arguments changed after being streamed")),
        };
        if delta.is_empty() {
            return Ok(());
        }
        grow(&mut self.tools, slot, delta);
        let call = Json::object().with("index", Json::natural(place as u64)).with(
            "function",
            Json::object().with("arguments", Json::text(delta)),
        );
        self.send(
            chunks,
            delta.as_bytes().len(),
            Json::object().with("tool_calls", make_one(call)),
        )
    }

    fn tool(&mut self, chunks: &mut Vec<Json>, index: u64, item: &Json, full: bool) -> (r: Result<
        (),
        Error,
    >)
        ensures
            ({
                let spec = relay(old(self)@, trees(old(chunks)@)).tool(index, item@, full);
                &&& final(self)@ == spec.chat
                &&& trees(final(chunks)@) == spec.chunks
                &&& reported(r, spec.fault)
            }),
    {
        let slot: Slot = (index, 0, false);
        if find_place(&self.tools, slot).is_none() {
            if !item.at("call_id").is_string() || !item.at("name").is_string() {
                return Err(Error::new("Function call lacks identity"));
            }
            let count: usize = self.tools.len();
            let ghost before = texts_view(self.tools@);
            self.tools.push((slot, String::new()));
            proof {
                assert(texts_view(self.tools@) =~= before.push((slot, Seq::empty())));
            }
            let call = Json::object().with("index", Json::natural(count as u64)).with(
                "id",
                item.at("call_id").copy(),
            ).with("type", Json::text("function")).with(
                "function",
                Json::object().with("name", item.at("name").copy()).with(
                    "arguments",
                    Json::text(""),
                ),
            );
            let shown = to_text(item);
            self.send(
                chunks,
                shown.as_str().as_bytes().len(),
                Json::object().with("tool_calls", make_one(call)),
            )?;
        }
        if full {
            self.arguments(chunks, index, text_or_none(item.at("arguments")), true)
        } else {
            Ok(())
        }
    }

    fn part(&mut self, chunks: &mut Vec<Json>, index: u64, content: u64, part: &Json) -> (r: Result<
        (),
        Error,
    >)
        ensures
            ({
                let spec = relay(old(self)@, trees(old(chunks)@)).part(index, content, part@);
                &&& final(self)@ == spec.chat
                &&& trees(final(chunks)@) == spec.chunks
                &&& reported(r, spec.fault)
            }),
    {
        if part.at("type").is("output_text") {
            self.text(chunks, (index, content, false), text_or_none(part.at("text")), true)
        } else if part.at("type").is("refusal") {
            self.text(chunks, (index, content, true), text_or_none(part.at("refusal")), true)
        } else {
            Err(Error::new("Unsupported response content in chat stream"))
        }
    }

    fn parts(&mut self, chunks: &mut Vec<Json>, index: u64, parts: &Vec<Json>) -> (r: Result<
        (),
        Error,
    >)
        ensures
            ({
                let spec = relay(old(self)@, trees(old(chunks)@)).parts(
                    index,
                    trees(parts@),
                    0,
                );
                &&& final(self)@ == spec.chat
                &&& trees(final(chunks)@) == spec.chunks
                &&& reported(r, spec.fault)
            }),
    {
        let ghost whole = relay(self@, trees(chunks@)).parts(index, trees(parts@), 0);
        let mut i: usize = 0;
        while i < parts.len()
            invariant
                i <= parts.len(),
                whole == relay(old(self)@, trees(old(chunks)@)).parts(index, trees(parts@), 0),
                whole == relay(self@, trees(chunks@)).parts(index, trees(parts@), i as int),
            decreases parts.len() - i,
        {
            let ghost before = relay(self@, trees(chunks@));
            match self.part(chunks, index, i as u64, &parts[i]) {
                Ok(_) => {},
                Err(error) => {
                    proof {
                        let stopped = before.part(index, i as u64, trees(parts@)[i as int]);
                        assert(whole == stopped.parts(index, trees(parts@), i + 1));
                        assert(whole == stopped);
                    }
                    return Err(error);
                },
            }
            i += 1;
        }
        Ok(())
    }

    fn reasoning(&mut self, chunks: &mut Vec<Json>, index: u64, item: &Json) -> (r: Result<
        (),
        Error,
    >)
        ensures
            ({
                let spec = relay(old(self)@, trees(old(chunks)@)).reasoning(index, item@);
                &&& final(self)@ == spec.chat
                &&& trees(final(chunks)@) == spec.chunks
                &&& reported(r, spec.fault)
            }),
    {
        let summary = join_texts(item.at("summary"));
        self.summary(chunks, index, item.at("id"), summary.as_str(), true, false)?;
        let text = join_texts(item.at("content"));
        self.summary(chunks, index, item.at("id"), text.as_str(), true, true)?;
        let slot: Slot = (index, 0, false);
        if !item.at("encrypted_content").is_string() || find_place(
            &self.encrypted,
            slot,
        ).is_some() {
            return Ok(());
        }
        let ghost before = texts_view(self.encrypted@);
        self.encrypted.push((slot, String::new()));
        proof {
            assert(texts_view(self.encrypted@) =~= before.push((slot, Seq::empty())));
        }
        let detail = make_opaque_detail(item, index);
        let shown = to_text(&detail);
        self.send(
            chunks,
            shown.as_str().as_bytes().len(),
            Json::object().with("reasoning_details", make_one(detail)),
        )
    }

    fn item(&mut self, chunks: &mut Vec<Json>, index: u64, item: &Json, full: bool) -> (r: Result<
        (),
        Error,
    >)
        ensures
            ({
                let spec = relay(old(self)@, trees(old(chunks)@)).item(index, item@, full);
                &&& final(self)@ == spec.chat
                &&& trees(final(chunks)@) == spec.chunks
                &&& reported(r, spec.fault)
            }),
    {
        let kind = item.at("type");
        if kind.is("function_call") {
            self.tool(chunks, index, item, full)
        } else if kind.is("message") {
            if !full {
                return Ok(());
            }
            match item.at("content").as_array() {
                None => Err(Error::new("Message lacks content")),
                Some(parts) => self.parts(chunks, index, parts),
            }
        } else if kind.is("reasoning") {
            if full && !self.exclude_reasoning {
                self.reasoning(chunks, index, item)
            } else {
                Ok(())
            }
        } else {
            Err(Error::new("Unsupported response output in chat stream"))
        }
    }

    fn items(&mut self, chunks: &mut Vec<Json>, items: &Vec<Json>) -> (r: Result<(), Error>)
        ensures
            ({
                let spec = relay(old(self)@, trees(old(chunks)@)).items(trees(items@), 0);
                &&& final(self)@ == spec.chat
                &&& trees(final(chunks)@) == spec.chunks
                &&& reported(r, spec.fault)
            }),
    {
        let ghost whole = relay(self@, trees(chunks@)).items(trees(items@), 0);
        let mut i: usize = 0;
        while i < items.len()
            invariant
                i <= items.len(),
                whole == relay(old(self)@, trees(old(chunks)@)).items(trees(items@), 0),
                whole == relay(self@, trees(chunks@)).items(trees(items@), i as int),
            decreases items.len() - i,
        {
            let ghost before = relay(self@, trees(chunks@));
            match self.item(chunks, i as u64, &items[i], true) {
                Ok(_) => {},
                Err(error) => {
                    proof {
                        let stopped = before.item(i as u64, trees(items@)[i as int], true);
                        assert(whole == stopped.items(trees(items@), i + 1));
                        assert(whole == stopped);
                    }
                    return Err(error);
                },
            }
            i += 1;
        }
        Ok(())
    }

    fn response(&mut self, chunks: &mut Vec<Json>, response: &Json) -> (r: Result<(), Error>)
        ensures
            ({
                let spec = relay(old(self)@, trees(old(chunks)@)).response(response@);
                &&& final(self)@ == spec.chat
                &&& trees(final(chunks)@) == spec.chunks
                &&& reported(r, spec.fault)
            }),
    {
        let wanted = self.include_usage;
        let output = match response.at("output").as_array() {
            Some(output) => output,
            None => return Err(Error::new("Terminal response lacks output")),
        };
        self.items(chunks, output)?;
        let finish = finish_reason(response)?;
        let last = self.chunk(Json::object(), Json::text(finish));
        chunks.push(last);
        if wanted {
            let spent = self.chunk(Json::object(), Json::Null).with(
                "choices",
                Json::Array(Vec::new()),
            ).with("usage", usage(response.at("usage")));
            chunks.push(spent);
        }
        self.ended = true;
        Ok(())
    }

    fn begin(&mut self, chunks: &mut Vec<Json>, event: &Json)
        ensures
            relay(final(self)@, trees(final(chunks)@)) == relay(
                old(self)@,
                trees(old(chunks)@),
            ).begun(event@),
    {
        if self.started {
            return;
        }
        match event.get("response") {
            Some(response) => {
                match response.at("id").as_str() {
                    Some(id) => {
                        self.id = join2("chatcmpl-", id);
                    },
                    None => {},
                }
                match response.at("created_at").as_u64() {
                    Some(created) => {
                        self.created = created;
                    },
                    None => {},
                }
                self.gemini = match response.at("model").as_str() {
                    Some(model) => starts_with(model, "gemini/"),
                    None => false,
                };
            },
            None => {},
        }
        self.started = true;
        let first = self.chunk(
            Json::object().with("role", Json::text("assistant")).with("content", Json::text("")),
            Json::Null,
        );
        chunks.push(first);
    }

    fn handle(&mut self, chunks: &mut Vec<Json>, event: &Json, kind: &str) -> (r: Result<(), Error>)
        ensures
            ({
                let spec = relay(old(self)@, trees(old(chunks)@)).handled(event@, kind@);
                &&& final(self)@ == spec.chat
                &&& trees(final(chunks)@) == spec.chunks
                &&& reported(r, spec.fault)
            }),
    {
        let index = read_number(event, "output_index");
        let content = read_number(event, "content_index");
        let delta = text_or_none(event.at("delta"));
        if same(kind, "response.output_item.added") {
            self.item(chunks, index, event.at("item"), false)
        } else if same(kind, "response.output_item.done") {
            self.item(chunks, index, event.at("item"), true)
        } else if same(kind, "response.output_text.delta") {
            self.text(chunks, (index, content, false), delta, false)
        } else if same(kind, "response.refusal.delta") {
            self.text(chunks, (index, content, true), delta, false)
        } else if same(kind, "response.reasoning_summary_text.delta") {
            self.summary(chunks, index, event.at("item_id"), delta, false, false)
        } else if same(kind, "response.reasoning_text.delta") {
            self.summary(chunks, index, event.at("item_id"), delta, false, true)
        } else if same(kind, "response.function_call_arguments.delta") {
            self.arguments(chunks, index, delta, false)
        } else if same(kind, "response.completed") || same(kind, "response.incomplete") {
            self.response(chunks, event.at("response"))
        } else {
            Ok(())
        }
    }

    /// Takes a Responses event, and gives the chunks to send.
    pub fn event(&mut self, event: &Json) -> (r: Result<Vec<Json>, Error>)
        ensures
            final(self)@ == old(self)@.event(event@).chat,
            outcome(r) == match old(self)@.event(event@).fault {
                Some(message) => Err::<Seq<Tree>, Seq<char>>(message),
                None => Ok(old(self)@.event(event@).chunks),
            },
    {
        let mut chunks: Vec<Json> = Vec::new();
        proof {
            assert(trees(chunks@) =~= Seq::<Tree>::empty());
        }
        if self.ended {
            return Ok(chunks);
        }
        let kind = match event.at("type").as_str() {
            Some(kind) => kind,
            None => return Err(Error::new("Responses stream event lacks type")),
        };
        if same(kind, "error") || same(kind, "response.failed") {
            self.ended = true;
            chunks.push(Json::object().with("error", make_told_error(event)));
            proof {
                assert(trees(chunks@) =~= seq![
                    empty_object().with("error"@, told_error(event@)),
                ]);
            }
            return Ok(chunks);
        }
        self.begin(&mut chunks, event);
        self.handle(&mut chunks, event, kind)?;
        Ok(chunks)
    }
}

// ---- frames and the relay of a stream ----------------------------------------------------

/// The frame of a value.
pub open spec fn framed(value: Tree) -> Seq<char> {
    "data: "@ + written(value) + "\n\n"@
}

/// The frame of a value.
pub fn frame(value: &Json) -> (r: String)
    ensures
        r@ == framed(value@),
{
    let text = to_text(value);
    join3("data: ", text.as_str(), "\n\n")
}

/// The error that ends a stream that could not be relayed.
pub open spec fn stream_error(message: Seq<char>) -> Tree {
    empty_object().with(
        "error"@,
        empty_object().with("type"@, Tree::Text("server_error"@)).with(
            "code"@,
            Tree::Text("chat_stream_error"@),
        ).with("message"@, Tree::Text(message)),
    )
}

/// The error that ends a stream that could not be relayed.
pub fn failure(message: &str) -> (r: Json)
    ensures
        r@ == stream_error(message@),
{
    Json::object().with(
        "error",
        Json::object().with("type", Json::text("server_error")).with(
            "code",
            Json::text("chat_stream_error"),
        ).with("message", Json::text(message)),
    )
}

/// A piece of a relayed stream: a chunk, or the message with which it fails.
pub enum Piece {
    Chunk(Json),
    Failure(String),
}

/// The view of a piece.
pub ghost enum Part {
    Chunk(Tree),
    Failure(Seq<char>),
}

/// The views of pieces.
pub open spec fn pieces_view(pieces: Seq<Piece>) -> Seq<Part> {
    Seq::new(
        pieces.len(),
        |i: int|
            match pieces[i] {
                Piece::Chunk(chunk) => Part::Chunk(chunk@),
                Piece::Failure(message) => Part::Failure(message@),
            },
    )
}

/// Chunks as pieces.
pub open spec fn chunk_parts(chunks: Seq<Tree>) -> Seq<Part> {
    Seq::new(chunks.len(), |i: int| Part::Chunk(chunks[i]))
}

/// The state after the events from `from` on, the pieces to send, and whether the stream
/// is over.
pub open spec fn relayed(chat: Chat, events: Seq<Tree>, from: int, pieces: Seq<Part>) -> (
    Chat,
    Seq<Part>,
    bool,
)
    decreases events.len() - from,
{
    if from < 0 || from >= events.len() {
        (chat, pieces, false)
    } else {
        let step = chat.event(events[from]);
        match step.fault {
            Some(message) => (step.chat, pieces.push(Part::Failure(message)), true),
            None => {
                let sent = pieces + chunk_parts(step.chunks);
                if step.chat.ended {
                    (step.chat, sent, true)
                } else {
                    relayed(step.chat, events, from + 1, sent)
                }
            },
        }
    }
}

/// What a chunk of an event stream adds to a relayed stream.
pub open spec fn adapted(scan: Scan, chat: Chat, bytes: Seq<u8>, eof: bool) -> (
    Chat,
    Seq<Part>,
    bool,
) {
    let found = decoded(scan, bytes, eof);
    if found.fault is Some {
        (chat, seq![Part::Failure("Invalid or oversized Responses SSE frame"@)], true)
    } else {
        let (after, pieces, over) = relayed(chat, found.events, 0, Seq::empty());
        if !over && eof {
            (
                after,
                if after.ended {
                    pieces
                } else {
                    pieces.push(
                        Part::Failure("Responses stream ended without a terminal event"@),
                    )
                },
                true,
            )
        } else {
            (after, pieces, over)
        }
    }
}

/// A relay of a Responses event stream to a chat client.
pub struct Adapter {
    pub decoder: SseDecoder,
    pub state: State,
}

fn add_chunks(pieces: &mut Vec<Piece>, chunks: Vec<Json>)
    ensures
        pieces_view(final(pieces)@) == pieces_view(old(pieces)@) + chunk_parts(trees(chunks@)),
{
    let ghost before = pieces_view(pieces@);
    let mut i: usize = 0;
    proof {
        assert(before + chunk_parts(trees(chunks@)).subrange(0, 0) =~= before);
    }
    while i < chunks.len()
        invariant
            i <= chunks.len(),
            pieces_view(pieces@) == before + chunk_parts(trees(chunks@)).subrange(0, i as int),
        decreases chunks.len() - i,
    {
        let ghost prior = pieces_view(pieces@);
        pieces.push(Piece::Chunk(chunks[i].copy()));
        proof {
            let chunk = Part::Chunk(chunks@[i as int]@);
            assert(pieces_view(pieces@) =~= prior.push(chunk));
            assert(before + chunk_parts(trees(chunks@)).subrange(0, i + 1) =~= (before
                + chunk_parts(trees(chunks@)).subrange(0, i as int)).push(chunk));
        }
        i += 1;
    }
    proof {
        assert(chunk_parts(trees(chunks@)).subrange(0, i as int) =~= chunk_parts(trees(chunks@)));
    }
}

fn add_failure(pieces: &mut Vec<Piece>, message: String)
    ensures
        pieces_view(final(pieces)@) == pieces_view(old(pieces)@).push(Part::Failure(message@)),
{
    pieces.push(Piece::Failure(message));
    proof {
        assert(pieces_view(pieces@) =~= pieces_view(old(pieces)@).push(Part::Failure(message@)));
    }
}

impl Adapter {
    /// The frame of the decoder is within its bound.
    pub open spec fn wf(&self) -> bool {
        self.decoder.wf()
    }

    pub fn new(state: State) -> (r: Adapter)
        ensures
            r.wf(),
            r.state@ == state@,
            r.decoder.scanner@ == crate::sse::start(),
    {
        Adapter { decoder: SseDecoder::new(), state }
    }

    fn relay(&mut self, events: &Vec<Json>, pieces: &mut Vec<Piece>) -> (over: bool)
        requires
            old(self).wf(),
        ensures
            (final(self).state@, pieces_view(final(pieces)@), over) == relayed(
                old(self).state@,
                trees(events@),
                0,
                pieces_view(old(pieces)@),
            ),
            final(self).decoder == old(self).decoder,
    {
        let ghost whole = relayed(self.state@, trees(events@), 0, pieces_view(pieces@));
        let mut i: usize = 0;
        while i < events.len()
            invariant
                i <= events.len(),
                self.decoder == old(self).decoder,
                whole == relayed(
                    old(self).state@,
                    trees(events@),
                    0,
                    pieces_view(old(pieces)@),
                ),
                whole == relayed(self.state@, trees(events@), i as int, pieces_view(pieces@)),
            decreases events.len() - i,
        {
            match self.state.event(&events[i]) {
                Err(error) => {
                    add_failure(pieces, error.message);
                    return true;
                },
                Ok(chunks) => add_chunks(pieces, chunks),
            }
            if self.state.ended {
                return true;
            }
            i += 1;
        }
        false
    }

    /// Takes a chunk of the event stream, and gives the pieces to send and whether the
    /// stream is over.
    pub fn feed(&mut self, bytes: &[u8], eof: bool) -> (r: (Vec<Piece>, bool))
        requires
            old(self).wf(),
        ensures
            (final(self).state@, pieces_view(r.0@), r.1) == adapted(
                old(self).decoder.scanner@,
                old(self).state@,
                bytes@,
                eof,
            ),
            final(self).decoder.scanner@ == decoded(
                old(self).decoder.scanner@,
                bytes@,
                eof,
            ).scan,
            final(self).wf(),
    {
        let mut pieces: Vec<Piece> = Vec::new();
        proof {
            assert(pieces_view(pieces@) =~= Seq::<Part>::empty());
        }
        let events = match self.decoder.feed(bytes, eof) {
            Ok(events) => events,
            Err(_) => {
                add_failure(&mut pieces, "Invalid or oversized Responses SSE frame".to_string());
                proof {
                    assert(pieces_view(pieces@) =~= seq![
                        Part::Failure("Invalid or oversized Responses SSE frame"@),
                    ]);
                }
                return (pieces, true);
            },
        };
        let over = self.relay(&events, &mut pieces);
        if !over && eof {
            if !self.state.ended {
                add_failure(
                    &mut pieces,
                    "Responses stream ended without a terminal event".to_string(),
                );
            }
            return (pieces, true);
        }
        (pieces, over)
    }
}

// ---- laws --------------------------------------------------------------------------------

/// A stream that has ended says nothing more, whatever arrives.
pub proof fn ended_stays_silent(chat: Chat, event: Tree)
    requires
        chat.ended,
    ensures
        chat.event(event) == relay(chat, Seq::empty()),
{
}

/// A full text that extends what was sent as deltas is never sent twice: the text held
/// afterwards is the full text.
pub proof fn full_text_completes_deltas(relay: Relay, slot: Slot, text: Seq<char>)
    requires
        relay.fault is None,
        relay.text(slot, text, true).fault is None,
    ensures
        held(relay.text(slot, text, true).chat.texts, slot) == text,
{
    let texts = relay.chat.texts;
    let prior = held(texts, slot);
    let delta = addition(prior, text, true)->Some_0;
    assert(prior + delta =~= text);
    grown_is_held(texts, slot, delta);
    if delta.len() == 0 {
        assert(prior =~= text);
    }
}

pub(crate) proof fn grown_is_held(texts: Seq<(Slot, Seq<char>)>, slot: Slot, delta: Seq<char>)
    ensures
        held(grown(texts, slot, delta), slot) == held(texts, slot) + delta,
{
    place_is_first(texts, slot, 0);
    let after = grown(texts, slot, delta);
    match place_of(texts, slot, 0) {
        Some(i) => {
            first_is_place(after, slot, 0, i);
        },
        None => {
            first_is_place(after, slot, 0, texts.len() as int);
            assert(Seq::<char>::empty() + delta =~= delta);
        },
    }
}

pub(crate) proof fn place_is_first(texts: Seq<(Slot, Seq<char>)>, slot: Slot, from: int)
    requires
        0 <= from <= texts.len(),
    ensures
        match place_of(texts, slot, from) {
            Some(i) => from <= i < texts.len() && texts[i].0 == slot && forall|k: int|
                from <= k < i ==> (#[trigger] texts[k]).0 != slot,
            None => forall|k: int| from <= k < texts.len() ==> (#[trigger] texts[k]).0 != slot,
        },
    decreases texts.len() - from,
{
    if from < texts.len() && texts[from].0 != slot {
        place_is_first(texts, slot, from + 1);
    }
}

pub(crate) proof fn first_is_place(texts: Seq<(Slot, Seq<char>)>, slot: Slot, from: int, at: int)
    requires
        0 <= from <= at < texts.len(),
        texts[at].0 == slot,
        forall|k: int| from <= k < at ==> (#[trigger] texts[k]).0 != slot,
    ensures
        place_of(texts, slot, from) == Some(at),
    decreases at - from,
{
    if from < at {
        assert(texts[from].0 != slot);
        first_is_place(texts, slot, from + 1, at);
    }
}

} // verus!

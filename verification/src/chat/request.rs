//! Chat requests as Responses requests. What cannot be translated is refused.

use vstd::prelude::*;
use vstd::string::StringExecFns;
use crate::chat::response::{message, message_of};
use crate::error::{both, ensure, ensured, outcome, Error};
use crate::gemini::conversation::{extend, is_same_value, list_of, same_value};
use crate::gemini::flow::first_of;
use crate::gemini::parts::{empty_object, string, string_of};
use crate::gemini::replay::{replayed_items, ReasoningCodec};
use crate::gemini::stream::first_item;
use crate::table::entries;
use crate::text::{after, join2, join3, same, strip_prefix};
use crate::tree::{json_views, trees, Json, Number, NumberView, Tree};

verus! {

broadcast use json_views;

/// A chat request in Responses form.
pub struct Converted {
    pub body: Json,
    pub stream: bool,
    pub include_usage: bool,
    pub exclude_reasoning: bool,
}

/// The view of a converted chat request.
pub ghost struct ConvertedView {
    pub body: Tree,
    pub stream: bool,
    pub usage_wanted: bool,
    pub exclude_reasoning: bool,
}

impl DeepView for Converted {
    type V = ConvertedView;

    open spec fn deep_view(&self) -> ConvertedView {
        ConvertedView {
            body: self.body@,
            stream: self.stream,
            usage_wanted: self.include_usage,
            exclude_reasoning: self.exclude_reasoning,
        }
    }
}

// ---- content --------------------------------------------------------------------

/// A text part.
pub open spec fn typed_text(kind: Seq<char>, text: Seq<char>) -> Tree {
    empty_object().with("type"@, Tree::Text(kind)).with("text"@, Tree::Text(text))
}

fn make_typed_text(kind: &str, text: &str) -> (r: Json)
    ensures
        r@ == typed_text(kind@, text@),
{
    Json::object().with("type", Json::text(kind)).with("text", Json::text(text))
}

/// An image part.
pub open spec fn image_of(part: Tree) -> Result<Tree, Seq<char>> {
    let image = part.at("image_url"@);
    match string_of(image, "url"@) {
        Err(message) => Err(message),
        Ok(url) => {
            let plain = empty_object().with("type"@, Tree::Text("input_image"@)).with(
                "image_url"@,
                Tree::Text(url),
            );
            Ok(
                match image.get("detail"@) {
                    Some(detail) => plain.with("detail"@, detail),
                    None => plain,
                },
            )
        },
    }
}

fn make_image(part: &Json) -> (r: Result<Json, Error>)
    ensures
        outcome(r) == image_of(part@),
{
    let image = part.at("image_url");
    let url = string(image, "url")?;
    let mut plain = Json::object().with("type", Json::text("input_image")).with(
        "image_url",
        Json::text(url),
    );
    match image.get("detail") {
        Some(detail) => plain.set("detail", detail.copy()),
        None => {},
    }
    Ok(plain)
}

/// A file part with the members from `from` on.
pub open spec fn file_from(fields: Seq<(Seq<char>, Tree)>, from: int, item: Tree) -> Result<
    Tree,
    Seq<char>,
>
    decreases fields.len() - from,
{
    if from < 0 || from >= fields.len() {
        Ok(item)
    } else if fields[from].0 != "file_id"@ && fields[from].0 != "file_data"@ && fields[from].0
        != "filename"@ {
        Err("Unsupported file field "@ + fields[from].0)
    } else {
        file_from(fields, from + 1, item.with(fields[from].0, fields[from].1))
    }
}

/// A file part.
pub open spec fn file_of(part: Tree) -> Result<Tree, Seq<char>> {
    match part.at("file"@).fields() {
        None => Err("file must be an object"@),
        Some(fields) => file_from(
            fields,
            0,
            empty_object().with("type"@, Tree::Text("input_file"@)),
        ),
    }
}

fn make_file(part: &Json) -> (r: Result<Json, Error>)
    ensures
        outcome(r) == file_of(part@),
{
    let fields = match part.at("file").as_object() {
        Some(fields) => fields,
        None => return Err(Error::new("file must be an object")),
    };
    let mut item = Json::object().with("type", Json::text("input_file"));
    let mut i: usize = 0;
    while i < fields.len()
        invariant
            i <= fields.len(),
            file_of(part@) == file_from(entries(fields@), i as int, item@),
        decreases fields.len() - i,
    {
        let name = fields[i].0.as_str();
        if !same(name, "file_id") && !same(name, "file_data") && !same(name, "filename") {
            return Err(Error { message: join2("Unsupported file field ", name) });
        }
        item.set(name, fields[i].1.copy());
        i += 1;
    }
    Ok(item)
}

/// The type of a text part: what the assistant said, or what it is told.
pub open spec fn text_kind(assistant: bool) -> Seq<char> {
    if assistant {
        "output_text"@
    } else {
        "input_text"@
    }
}

/// A refusal part.
pub open spec fn refusal_part(refusal: Seq<char>) -> Tree {
    empty_object().with("type"@, Tree::Text("refusal"@)).with("refusal"@, Tree::Text(refusal))
}

fn make_refusal(refusal: &str) -> (r: Json)
    ensures
        r@ == refusal_part(refusal@),
{
    Json::object().with("type", Json::text("refusal")).with("refusal", Json::text(refusal))
}

/// A chat content part as a Responses part.
pub open spec fn part_of(part: Tree, assistant: bool) -> Result<Tree, Seq<char>> {
    match string_of(part, "type"@) {
        Err(message) => Err(message),
        Ok(kind) => if kind == "text"@ {
            match string_of(part, "text"@) {
                Err(message) => Err(message),
                Ok(text) => Ok(typed_text(text_kind(assistant), text)),
            }
        } else if kind == "image_url"@ && !assistant {
            image_of(part)
        } else if kind == "file"@ && !assistant {
            file_of(part)
        } else if kind == "refusal"@ && assistant {
            match string_of(part, "refusal"@) {
                Err(message) => Err(message),
                Ok(refusal) => Ok(refusal_part(refusal)),
            }
        } else {
            Err("Unsupported chat content type "@ + kind)
        },
    }
}

fn convert_part(part: &Json, assistant: bool) -> (r: Result<Json, Error>)
    ensures
        outcome(r) == part_of(part@, assistant),
{
    let kind = string(part, "type")?;
    if same(kind, "text") {
        let text = string(part, "text")?;
        let name = if assistant {
            "output_text"
        } else {
            "input_text"
        };
        Ok(make_typed_text(name, text))
    } else if same(kind, "image_url") && !assistant {
        make_image(part)
    } else if same(kind, "file") && !assistant {
        make_file(part)
    } else if same(kind, "refusal") && assistant {
        let refusal = string(part, "refusal")?;
        Ok(make_refusal(refusal))
    } else {
        Err(Error { message: join2("Unsupported chat content type ", kind) })
    }
}

/// The parts from `from` on, behind those that were converted.
pub open spec fn parts_from(parts: Seq<Tree>, from: int, assistant: bool, out: Seq<Tree>) -> Result<
    Seq<Tree>,
    Seq<char>,
>
    decreases parts.len() - from,
{
    if from < 0 || from >= parts.len() {
        Ok(out)
    } else {
        match part_of(parts[from], assistant) {
            Err(message) => Err(message),
            Ok(part) => parts_from(parts, from + 1, assistant, out.push(part)),
        }
    }
}

/// Chat content as Responses parts.
pub open spec fn content_of(value: Tree, assistant: bool) -> Result<Seq<Tree>, Seq<char>> {
    match value {
        Tree::Null => Ok(Seq::empty()),
        Tree::Text(text) => Ok(seq![typed_text(text_kind(assistant), text)]),
        Tree::Array(parts) => parts_from(parts, 0, assistant, Seq::empty()),
        _ => Err("message content must be text or an array"@),
    }
}

/// Converts chat content to Responses parts.
pub fn content(value: &Json, assistant: bool) -> (r: Result<Vec<Json>, Error>)
    ensures
        outcome(r) == content_of(value@, assistant),
{
    let mut out: Vec<Json> = Vec::new();
    if value.is_null() {
        proof {
            assert(trees(out@) =~= Seq::<Tree>::empty());
        }
        return Ok(out);
    }
    match value.as_str() {
        Some(text) => {
            let name = if assistant {
                "output_text"
            } else {
                "input_text"
            };
            out.push(make_typed_text(name, text));
            proof {
                assert(trees(out@) =~= seq![typed_text(text_kind(assistant), text@)]);
            }
            return Ok(out);
        },
        None => {},
    }
    let parts = match value.as_array() {
        Some(parts) => parts,
        None => return Err(Error::new("message content must be text or an array")),
    };
    let mut i: usize = 0;
    while i < parts.len()
        invariant
            i <= parts.len(),
            content_of(value@, assistant) == parts_from(
                trees(parts@),
                i as int,
                assistant,
                trees(out@),
            ),
        decreases parts.len() - i,
    {
        let part = convert_part(&parts[i], assistant)?;
        out.push(part);
        i += 1;
    }
    Ok(out)
}

// ---- assistant messages -----------------------------------------------------------

/// A chat tool call as a function call.
pub open spec fn call_of(call: Tree) -> Result<Tree, Seq<char>> {
    if call.at("type"@) != Tree::Text("function"@) {
        Err("Only function tool calls are supported"@)
    } else {
        match string_of(call, "id"@) {
            Err(message) => Err(message),
            Ok(id) => match string_of(call.at("function"@), "name"@) {
                Err(message) => Err(message),
                Ok(name) => match string_of(call.at("function"@), "arguments"@) {
                    Err(message) => Err(message),
                    Ok(arguments) => Ok(
                        empty_object().with("type"@, Tree::Text("function_call"@)).with(
                            "call_id"@,
                            Tree::Text(id),
                        ).with("name"@, Tree::Text(name)).with(
                            "arguments"@,
                            Tree::Text(arguments),
                        ),
                    ),
                },
            },
        }
    }
}

fn convert_call(call: &Json) -> (r: Result<Json, Error>)
    ensures
        outcome(r) == call_of(call@),
{
    if !call.at("type").is("function") {
        return Err(Error::new("Only function tool calls are supported"));
    }
    let id = string(call, "id")?;
    let name = string(call.at("function"), "name")?;
    let arguments = string(call.at("function"), "arguments")?;
    Ok(
        Json::object().with("type", Json::text("function_call")).with(
            "call_id",
            Json::text(id),
        ).with("name", Json::text(name)).with("arguments", Json::text(arguments)),
    )
}

/// The calls from `from` on, behind the items before them.
pub open spec fn calls_from(calls: Seq<Tree>, from: int, out: Seq<Tree>) -> Result<
    Seq<Tree>,
    Seq<char>,
>
    decreases calls.len() - from,
{
    if from < 0 || from >= calls.len() {
        Ok(out)
    } else {
        match call_of(calls[from]) {
            Err(message) => Err(message),
            Ok(call) => calls_from(calls, from + 1, out.push(call)),
        }
    }
}

/// The visible parts of an assistant message: its content and its refusal.
pub open spec fn spoken_parts(message: Tree) -> Result<Seq<Tree>, Seq<char>> {
    match content_of(message.at("content"@), true) {
        Err(message) => Err(message),
        Ok(parts) => match message.at("refusal"@) {
            Tree::Null => Ok(parts),
            Tree::Text(refusal) => Ok(parts.push(refusal_part(refusal))),
            _ => Err("refusal must be a string"@),
        },
    }
}

/// The visible items of an assistant message.
pub open spec fn visible_of(message: Tree) -> Result<Seq<Tree>, Seq<char>> {
    match spoken_parts(message) {
        Err(message) => Err(message),
        Ok(parts) => {
            let said = if parts.len() > 0 {
                seq![
                    empty_object().with("type"@, Tree::Text("message"@)).with(
                        "role"@,
                        Tree::Text("assistant"@),
                    ).with("content"@, Tree::Array(parts)),
                ]
            } else {
                Seq::empty()
            };
            if message.at("tool_calls"@) is Null {
                Ok(said)
            } else {
                match message.at("tool_calls"@).items() {
                    None => Err("tool_calls must be an array"@),
                    Some(calls) => calls_from(calls, 0, said),
                }
            }
        },
    }
}

fn visible_items(message: &Json) -> (r: Result<Vec<Json>, Error>)
    ensures
        outcome(r) == visible_of(message@),
{
    let mut parts = content(message.at("content"), true)?;
    let refusal = message.at("refusal");
    if !refusal.is_null() {
        match refusal.as_str() {
            Some(text) => parts.push(make_refusal(text)),
            None => return Err(Error::new("refusal must be a string")),
        }
    }
    let mut out: Vec<Json> = Vec::new();
    proof {
        assert(trees(out@) =~= Seq::<Tree>::empty());
    }
    if parts.len() > 0 {
        let said = Json::object().with("type", Json::text("message")).with(
            "role",
            Json::text("assistant"),
        ).with("content", Json::Array(parts));
        let ghost shown = said@;
        out.push(said);
        proof {
            assert(trees(out@) =~= seq![shown]);
        }
    }
    let calls = message.at("tool_calls");
    if calls.is_null() {
        return Ok(out);
    }
    let calls = match calls.as_array() {
        Some(calls) => calls,
        None => return Err(Error::new("tool_calls must be an array")),
    };
    let mut i: usize = 0;
    while i < calls.len()
        invariant
            i <= calls.len(),
            visible_of(message@) == calls_from(trees(calls@), i as int, trees(out@)),
        decreases calls.len() - i,
    {
        let call = convert_call(&calls[i])?;
        out.push(call);
        i += 1;
    }
    Ok(out)
}

/// The first group with an id, at or after `from`.
pub open spec fn group_with(groups: Seq<Tree>, id: Seq<char>, from: int) -> Option<int>
    decreases groups.len() - from,
{
    if from < 0 || from >= groups.len() {
        None
    } else if groups[from].at("id"@) == Tree::Text(id) {
        Some(from)
    } else {
        group_with(groups, id, from + 1)
    }
}

/// A reasoning item with nothing in it yet.
pub open spec fn blank_group(id: Seq<char>) -> Tree {
    empty_object().with("type"@, Tree::Text("reasoning"@)).with("id"@, Tree::Text(id)).with(
        "summary"@,
        Tree::Array(Seq::empty()),
    )
}

/// The groups with one for an id, and its place.
pub open spec fn grouped(groups: Seq<Tree>, id: Seq<char>) -> (Seq<Tree>, int) {
    match group_with(groups, id, 0) {
        Some(place) => (groups, place),
        None => (groups.push(blank_group(id)), groups.len() as int),
    }
}

fn find_group(groups: &mut Vec<Json>, id: &str) -> (place: usize)
    ensures
        (trees(final(groups)@), place as int) == grouped(trees(old(groups)@), id@),
        place < final(groups).len(),
{
    let mut i: usize = 0;
    while i < groups.len()
        invariant
            i <= groups.len(),
            groups@ == old(groups)@,
            group_with(trees(groups@), id@, 0) == group_with(trees(groups@), id@, i as int),
        decreases groups.len() - i,
    {
        if groups[i].at("id").is(id) {
            return i;
        }
        i += 1;
    }
    groups.push(
        Json::object().with("type", Json::text("reasoning")).with("id", Json::text(id)).with(
            "summary",
            Json::Array(Vec::new()),
        ),
    );
    i
}

/// A group with text appended to the one part of a member.
pub open spec fn extended_text(
    item: Tree,
    field: Seq<char>,
    part_type: Seq<char>,
    text: Seq<char>,
) -> Tree {
    let previous = match first_of(list_of(item.at(field))).at("text"@).text() {
        Some(previous) => previous,
        None => Seq::empty(),
    };
    item.with(field, Tree::Array(seq![typed_text(part_type, previous + text)]))
}

fn extend_text(item: &Json, field: &str, part_type: &str, text: &str) -> (r: Json)
    ensures
        r@ == extended_text(item@, field@, part_type@, text@),
{
    let previous = match first_item(item.at(field)).at("text").as_str() {
        Some(previous) => previous,
        None => "",
    };
    proof {
        reveal_strlit("");
        assert(""@ =~= Seq::<char>::empty());
    }
    let longer = join2(previous, text);
    let mut parts: Vec<Json> = Vec::new();
    parts.push(make_typed_text(part_type, longer.as_str()));
    proof {
        assert(trees(parts@) =~= seq![typed_text(part_type@, previous@ + text@)]);
    }
    item.copy().with(field, Json::Array(parts))
}

/// Reasoning read from details: one item for each id, and the visible items of a
/// Gemini turn where one was carried.
pub ghost struct Recalled {
    pub groups: Seq<Tree>,
    pub turn: Option<Seq<Tree>>,
}

/// The model under which a Gemini carrier was sealed.
pub open spec fn carrier_model(model: Seq<char>) -> Option<Seq<char>> {
    match after(model, "gemini/"@) {
        None => None,
        Some(own) => Some(
            match after(own, "models/"@) {
                Some(bare) => bare,
                None => own,
            },
        ),
    }
}

impl Recalled {
    /// A detail whose group stands at `place`.
    pub open spec fn detailed(
        self,
        place: int,
        detail: Tree,
        kind: Seq<char>,
        format: Seq<char>,
        model: Seq<char>,
        key: Seq<u8>,
    ) -> Result<Recalled, Seq<char>> {
        let item = self.groups[place];
        if kind == "reasoning.summary"@ || kind == "reasoning.text"@ {
            let summed = kind == "reasoning.summary"@;
            if !(detail.at("signature"@) is Null) {
                Err(
                    "Signed reasoning text cannot be converted; use opaque reasoning.encrypted details"@,
                )
            } else {
                match string_of(
                    detail,
                    if summed {
                        "summary"@
                    } else {
                        "text"@
                    },
                ) {
                    Err(message) => Err(message),
                    Ok(text) => Ok(
                        Recalled {
                            groups: self.groups.update(
                                place,
                                if summed {
                                    extended_text(item, "summary"@, "summary_text"@, text)
                                } else {
                                    extended_text(item, "content"@, "reasoning_text"@, text)
                                },
                            ),
                            ..self
                        },
                    ),
                }
            }
        } else if kind == "reasoning.encrypted"@ {
            match string_of(detail, "data"@) {
                Err(message) => Err(message),
                Ok(data) => {
                    let turn = if format != "google-gemini-v1"@ {
                        Ok(self.turn)
                    } else if self.turn is Some {
                        Err(
                            "Only one Gemini reasoning carrier per assistant turn is supported"@,
                        )
                    } else {
                        match carrier_model(model) {
                            None => Err(
                                "Gemini reasoning cannot be replayed to another provider"@,
                            ),
                            Some(own) => match replayed_items(key, own, data) {
                                Err(message) => Err(message),
                                Ok(items) => Ok(Some(items)),
                            },
                        }
                    };
                    match turn {
                        Err(message) => Err(message),
                        Ok(turn) => Ok(
                            Recalled {
                                turn,
                                groups: self.groups.update(
                                    place,
                                    item.with(
                                        "encrypted_content"@,
                                        Tree::Text(
                                            match item.at("encrypted_content"@).text() {
                                                Some(previous) => previous,
                                                None => Seq::empty(),
                                            } + data,
                                        ),
                                    ),
                                ),
                            },
                        ),
                    }
                },
            }
        } else {
            Err("Unsupported reasoning detail type "@ + kind)
        }
    }

    /// A detail.
    pub open spec fn detail(self, detail: Tree, model: Seq<char>, key: Seq<u8>) -> Result<
        Recalled,
        Seq<char>,
    > {
        match string_of(detail, "type"@) {
            Err(message) => Err(message),
            Ok(kind) => {
                let format = match detail.at("format"@).text() {
                    Some(format) => format,
                    None => "openai-responses-v1"@,
                };
                if format != "openai-responses-v1"@ && format != "google-gemini-v1"@ {
                    Err(
                        "Unsupported reasoning format "@ + format
                            + "; preserve details from this proxy"@,
                    )
                } else {
                    match detail.at("id"@).text() {
                        None => Err("Reasoning details require an id for replay"@),
                        Some(id) => {
                            let (groups, place) = grouped(self.groups, id);
                            Recalled { groups, ..self }.detailed(
                                place,
                                detail,
                                kind,
                                format,
                                model,
                                key,
                            )
                        },
                    }
                }
            },
        }
    }

    /// The details from `from` on.
    pub open spec fn details(
        self,
        details: Seq<Tree>,
        from: int,
        model: Seq<char>,
        key: Seq<u8>,
    ) -> Result<Recalled, Seq<char>>
        decreases details.len() - from,
    {
        if from < 0 || from >= details.len() {
            Ok(self)
        } else {
            match self.detail(details[from], model, key) {
                Err(message) => Err(message),
                Ok(more) => more.details(details, from + 1, model, key),
            }
        }
    }
}

/// Reasoning read from details.
pub struct Recall {
    pub groups: Vec<Json>,
    pub turn: Option<Vec<Json>>,
}

impl DeepView for Recall {
    type V = Recalled;

    open spec fn deep_view(&self) -> Recalled {
        Recalled {
            groups: trees(self.groups@),
            turn: match self.turn {
                Some(items) => Some(trees(items@)),
                None => None,
            },
        }
    }
}

impl Recall {
    fn open_turn(&self, data: &str, model: &str, codec: &ReasoningCodec) -> (r: Result<
        Vec<Json>,
        Error,
    >)
        ensures
            outcome(r) == if self.turn is Some {
                Err::<Seq<Tree>, Seq<char>>(
                    "Only one Gemini reasoning carrier per assistant turn is supported"@,
                )
            } else {
                match carrier_model(model@) {
                    None => Err("Gemini reasoning cannot be replayed to another provider"@),
                    Some(own) => replayed_items(codec.key@, own, data@),
                }
            },
    {
        if self.turn.is_some() {
            return Err(
                Error::new("Only one Gemini reasoning carrier per assistant turn is supported"),
            );
        }
        let own = match strip_prefix(model, "gemini/") {
            Some(own) => own,
            None => {
                return Err(Error::new("Gemini reasoning cannot be replayed to another provider"));
            },
        };
        let bare = match strip_prefix(own, "models/") {
            Some(bare) => bare,
            None => own,
        };
        codec.replay_items(bare, data)
    }

    fn add_to(
        &mut self,
        place: usize,
        detail: &Json,
        kind: &str,
        format: &str,
        model: &str,
        codec: &ReasoningCodec,
    ) -> (r: Result<(), Error>)
        requires
            place < old(self).groups.len(),
        ensures
            match old(self).deep_view().detailed(
                place as int,
                detail@,
                kind@,
                format@,
                model@,
                codec.key@,
            ) {
                Ok(more) => r is Ok && final(self).deep_view() == more,
                Err(message) => r is Err && r->Err_0.message@ == message,
            },
    {
        let ghost before = self.deep_view();
        if same(kind, "reasoning.summary") || same(kind, "reasoning.text") {
            if !detail.at("signature").is_null() {
                return Err(
                    Error::new(
                        "Signed reasoning text cannot be converted; use opaque reasoning.encrypted details",
                    ),
                );
            }
            let item = if same(kind, "reasoning.summary") {
                let text = string(detail, "summary")?;
                extend_text(&self.groups[place], "summary", "summary_text", text)
            } else {
                let text = string(detail, "text")?;
                extend_text(&self.groups[place], "content", "reasoning_text", text)
            };
            self.groups.set(place, item);
            proof {
                assert(trees(self.groups@) =~= before.groups.update(place as int, item@));
            }
            Ok(())
        } else if same(kind, "reasoning.encrypted") {
            let data = string(detail, "data")?;
            if same(format, "google-gemini-v1") {
                let items = self.open_turn(data, model, codec)?;
                self.turn = Some(items);
            }
            let previous = match self.groups[place].at("encrypted_content").as_str() {
                Some(previous) => previous,
                None => "",
            };
            proof {
                reveal_strlit("");
                assert(""@ =~= Seq::<char>::empty());
            }
            let longer = join2(previous, data);
            let item = self.groups[place].copy().with("encrypted_content", Json::String(longer));
            self.groups.set(place, item);
            proof {
                assert(trees(self.groups@) =~= before.groups.update(place as int, item@));
            }
            Ok(())
        } else {
            Err(Error { message: join2("Unsupported reasoning detail type ", kind) })
        }
    }

    fn add(&mut self, detail: &Json, model: &str, codec: &ReasoningCodec) -> (r: Result<(), Error>)
        ensures
            match old(self).deep_view().detail(detail@, model@, codec.key@) {
                Ok(more) => r is Ok && final(self).deep_view() == more,
                Err(message) => r is Err && r->Err_0.message@ == message,
            },
    {
        let kind = string(detail, "type")?;
        let format = match detail.at("format").as_str() {
            Some(format) => format,
            None => "openai-responses-v1",
        };
        if !same(format, "openai-responses-v1") && !same(format, "google-gemini-v1") {
            return Err(
                Error {
                    message: join3(
                        "Unsupported reasoning format ",
                        format,
                        "; preserve details from this proxy",
                    ),
                },
            );
        }
        let id = match detail.at("id").as_str() {
            Some(id) => id,
            None => return Err(Error::new("Reasoning details require an id for replay")),
        };
        let place = find_group(&mut self.groups, id);
        self.add_to(place, detail, kind, format, model, codec)
    }
}

/// The check that a flattened message still is the one that the model returned.
pub open spec fn turn_check(expected: Tree, actual: Tree, field: Seq<char>) -> Result<
    (),
    Seq<char>,
> {
    ensured(
        same_value(expected.get(field), actual.get(field)),
        "Altered Gemini assistant "@ + field
            + "; preserve the original message and reasoning_details"@,
    )
}

fn check_turn(expected: &Json, actual: &Json, field: &str) -> (r: Result<(), Error>)
    ensures
        outcome(r) == turn_check(expected@, actual@, field@),
{
    if is_same_value(expected.get(field), actual.get(field)) {
        Ok(())
    } else {
        Err(
            Error {
                message: join3(
                    "Altered Gemini assistant ",
                    field,
                    "; preserve the original message and reasoning_details",
                ),
            },
        )
    }
}

/// The items of a Gemini turn, which restore the boundaries that were signed, once the
/// visible items are seen to say the same.
pub open spec fn restored(items: Seq<Tree>, visible: Seq<Tree>) -> Result<Seq<Tree>, Seq<char>> {
    match message_of(items, true) {
        Err(message) => Err(message),
        Ok(expected) => match message_of(visible, true) {
            Err(message) => Err(message),
            Ok(actual) => match both(
                turn_check(expected, actual, "content"@),
                both(
                    turn_check(expected, actual, "tool_calls"@),
                    turn_check(expected, actual, "refusal"@),
                ),
            ) {
                Err(message) => Err(message),
                Ok(_) => Ok(items),
            },
        },
    }
}

fn restore(items: Vec<Json>, visible: &Vec<Json>) -> (r: Result<Vec<Json>, Error>)
    ensures
        outcome(r) == restored(trees(items@), trees(visible@)),
{
    let expected = message(&items, true)?;
    let actual = message(visible, true)?;
    check_turn(&expected, &actual, "content")?;
    check_turn(&expected, &actual, "tool_calls")?;
    check_turn(&expected, &actual, "refusal")?;
    Ok(items)
}

/// An assistant message as input items: its reasoning, then its visible output.
pub open spec fn assistant_of(message: Tree, model: Seq<char>, key: Seq<u8>) -> Result<
    Seq<Tree>,
    Seq<char>,
> {
    match visible_of(message) {
        Err(message) => Err(message),
        Ok(visible) => if message.at("reasoning_details"@) is Null {
            Ok(visible)
        } else {
            match message.at("reasoning_details"@).items() {
                None => Err("reasoning_details must be an array"@),
                Some(details) => match (Recalled { groups: Seq::empty(), turn: None }).details(
                    details,
                    0,
                    model,
                    key,
                ) {
                    Err(message) => Err(message),
                    Ok(recalled) => match recalled.turn {
                        None => Ok(recalled.groups + visible),
                        Some(items) => match restored(items, visible) {
                            Err(message) => Err(message),
                            Ok(items) => Ok(recalled.groups + items),
                        },
                    },
                },
            }
        },
    }
}

fn assistant_items(message: &Json, model: &str, codec: &ReasoningCodec) -> (r: Result<
    Vec<Json>,
    Error,
>)
    ensures
        outcome(r) == assistant_of(message@, model@, codec.key@),
{
    let visible = visible_items(message)?;
    let details = message.at("reasoning_details");
    if details.is_null() {
        return Ok(visible);
    }
    let details = match details.as_array() {
        Some(details) => details,
        None => return Err(Error::new("reasoning_details must be an array")),
    };
    let mut recall = Recall { groups: Vec::new(), turn: None };
    let ghost whole = recall.deep_view().details(trees(details@), 0, model@, codec.key@);
    proof {
        assert(recall.deep_view() == (Recalled { groups: Seq::empty(), turn: None }));
    }
    let mut i: usize = 0;
    while i < details.len()
        invariant
            i <= details.len(),
            whole is Err ==> assistant_of(message@, model@, codec.key@) == Err::<
                Seq<Tree>,
                Seq<char>,
            >(whole->Err_0),
            whole == recall.deep_view().details(
                trees(details@),
                i as int,
                model@,
                codec.key@,
            ),
        decreases details.len() - i,
    {
        recall.add(&details[i], model, codec)?;
        i += 1;
    }
    let mut out = recall.groups;
    match recall.turn {
        None => extend(&mut out, visible),
        Some(items) => {
            let items = restore(items, &visible)?;
            extend(&mut out, items);
        },
    }
    Ok(out)
}

// ---- messages ----------------------------------------------------------------------

/// A member that may stand in a chat message.
pub open spec fn known_field(name: Seq<char>) -> bool {
    name == "role"@ ||
        name == "content"@ ||
        name == "name"@ ||
        name == "tool_calls"@ ||
        name == "tool_call_id"@ ||
        name == "refusal"@ ||
        name == "reasoning"@ ||
        name == "reasoning_content"@ ||
        name == "annotations"@ ||
        name == "reasoning_details"@
}

fn is_known_field(name: &str) -> (r: bool)
    ensures
        r == known_field(name@),
{
    same(name, "role") ||
        same(name, "content") ||
        same(name, "name") ||
        same(name, "tool_calls") ||
        same(name, "tool_call_id") ||
        same(name, "refusal") ||
        same(name, "reasoning") ||
        same(name, "reasoning_content") ||
        same(name, "annotations") ||
        same(name, "reasoning_details")
}

/// The check of the members of a chat message from `from` on.
pub open spec fn fields_check(fields: Seq<(Seq<char>, Tree)>, from: int) -> Result<(), Seq<char>>
    decreases fields.len() - from,
{
    if from < 0 || from >= fields.len() {
        Ok(())
    } else if !known_field(fields[from].0) {
        Err("Unsupported chat message field "@ + fields[from].0)
    } else {
        fields_check(fields, from + 1)
    }
}

/// The check of the members of a chat message.
pub open spec fn message_check(message: Tree) -> Result<(), Seq<char>> {
    match message.fields() {
        Some(fields) => fields_check(fields, 0),
        None => Ok(()),
    }
}

fn check_message(message: &Json) -> (r: Result<(), Error>)
    ensures
        outcome(r) == message_check(message@),
{
    let fields = match message.as_object() {
        Some(fields) => fields,
        None => return Ok(()),
    };
    let mut i: usize = 0;
    while i < fields.len()
        invariant
            i <= fields.len(),
            message_check(message@) == fields_check(entries(fields@), i as int),
        decreases fields.len() - i,
    {
        if !is_known_field(fields[i].0.as_str()) {
            return Err(
                Error {
                    message: join2("Unsupported chat message field ", fields[i].0.as_str()),
                },
            );
        }
        i += 1;
    }
    Ok(())
}

/// The output of a tool.
pub open spec fn tool_output(message: Tree) -> Result<Tree, Seq<char>> {
    let output = match message.at("content"@) {
        Tree::Text(text) => Ok(Tree::Text(text)),
        _ => match content_of(message.at("content"@), false) {
            Err(message) => Err(message),
            Ok(parts) => Ok(Tree::Array(parts)),
        },
    };
    match output {
        Err(message) => Err(message),
        Ok(output) => match string_of(message, "tool_call_id"@) {
            Err(message) => Err(message),
            Ok(id) => Ok(
                empty_object().with("type"@, Tree::Text("function_call_output"@)).with(
                    "call_id"@,
                    Tree::Text(id),
                ).with("output"@, output),
            ),
        },
    }
}

fn convert_output(message: &Json) -> (r: Result<Json, Error>)
    ensures
        outcome(r) == tool_output(message@),
{
    let output = match message.at("content").as_str() {
        Some(text) => Json::text(text),
        None => Json::Array(content(message.at("content"), false)?),
    };
    let id = string(message, "tool_call_id")?;
    Ok(
        Json::object().with("type", Json::text("function_call_output")).with(
            "call_id",
            Json::text(id),
        ).with("output", output),
    )
}

/// What someone other than the assistant says.
pub open spec fn told_item(message: Tree, role: Seq<char>) -> Result<Tree, Seq<char>> {
    if message.at("content"@) is Null {
        Err(role + " message requires content"@)
    } else {
        match content_of(message.at("content"@), false) {
            Err(message) => Err(message),
            Ok(parts) => Ok(
                empty_object().with("role"@, Tree::Text(role)).with(
                    "content"@,
                    Tree::Array(parts),
                ),
            ),
        }
    }
}

fn convert_told(message: &Json, role: &str) -> (r: Result<Json, Error>)
    ensures
        outcome(r) == told_item(message@, role@),
{
    if message.at("content").is_null() {
        return Err(Error { message: join2(role, " message requires content") });
    }
    let parts = content(message.at("content"), false)?;
    Ok(Json::object().with("role", Json::text(role)).with("content", Json::Array(parts)))
}

/// A chat message as input items.
pub open spec fn message_items(message: Tree, model: Seq<char>, key: Seq<u8>) -> Result<
    Seq<Tree>,
    Seq<char>,
> {
    match string_of(message, "role"@) {
        Err(message) => Err(message),
        Ok(role) => match message_check(message) {
            Err(message) => Err(message),
            Ok(_) => if role == "assistant"@ {
                assistant_of(message, model, key)
            } else if role == "tool"@ {
                match tool_output(message) {
                    Err(message) => Err(message),
                    Ok(item) => Ok(seq![item]),
                }
            } else if role == "system"@ || role == "developer"@ || role == "user"@ {
                match told_item(message, role) {
                    Err(message) => Err(message),
                    Ok(item) => Ok(seq![item]),
                }
            } else {
                Err("Unsupported chat role "@ + role)
            },
        },
    }
}

fn single(item: Json) -> (r: Vec<Json>)
    ensures
        trees(r@) == seq![item@],
{
    let mut out: Vec<Json> = Vec::new();
    out.push(item);
    proof {
        assert(trees(out@) =~= seq![item@]);
    }
    out
}

fn convert_message(message: &Json, model: &str, codec: &ReasoningCodec) -> (r: Result<
    Vec<Json>,
    Error,
>)
    ensures
        outcome(r) == message_items(message@, model@, codec.key@),
{
    let role = string(message, "role")?;
    check_message(message)?;
    if same(role, "assistant") {
        assistant_items(message, model, codec)
    } else if same(role, "tool") {
        let item = convert_output(message)?;
        Ok(single(item))
    } else if same(role, "system") || same(role, "developer") || same(role, "user") {
        let item = convert_told(message, role)?;
        Ok(single(item))
    } else {
        Err(Error { message: join2("Unsupported chat role ", role) })
    }
}

/// The messages from `from` on, behind the items before them.
pub open spec fn messages_from(
    messages: Seq<Tree>,
    from: int,
    model: Seq<char>,
    key: Seq<u8>,
    items: Seq<Tree>,
) -> Result<Seq<Tree>, Seq<char>>
    decreases messages.len() - from,
{
    if from < 0 || from >= messages.len() {
        Ok(items)
    } else {
        match message_items(messages[from], model, key) {
            Err(message) => Err(message),
            Ok(more) => messages_from(messages, from + 1, model, key, items + more),
        }
    }
}

fn convert_messages(messages: &Vec<Json>, model: &str, codec: &ReasoningCodec) -> (r: Result<
    Vec<Json>,
    Error,
>)
    ensures
        outcome(r) == messages_from(trees(messages@), 0, model@, codec.key@, Seq::empty()),
{
    let mut items: Vec<Json> = Vec::new();
    let mut i: usize = 0;
    while i < messages.len()
        invariant
            i <= messages.len(),
            messages_from(trees(messages@), 0, model@, codec.key@, Seq::empty())
                == messages_from(
                trees(messages@),
                i as int,
                model@,
                codec.key@,
                trees(items@),
            ),
        decreases messages.len() - i,
    {
        let more = convert_message(&messages[i], model, codec)?;
        extend(&mut items, more);
        i += 1;
    }
    Ok(items)
}

// ---- parameters ---------------------------------------------------------------------

/// A parameter that is translated on its own.
pub open spec fn own_parameter(name: Seq<char>) -> bool {
    name == "model"@ ||
        name == "messages"@ ||
        name == "stream_options"@ ||
        name == "reasoning_effort"@ ||
        name == "reasoning"@ ||
        name == "include_reasoning"@ ||
        name == "max_tokens"@ ||
        name == "max_completion_tokens"@ ||
        name == "response_format"@ ||
        name == "tools"@ ||
        name == "tool_choice"@
}

fn is_own_parameter(name: &str) -> (r: bool)
    ensures
        r == own_parameter(name@),
{
    same(name, "model") ||
        same(name, "messages") ||
        same(name, "stream_options") ||
        same(name, "reasoning_effort") ||
        same(name, "reasoning") ||
        same(name, "include_reasoning") ||
        same(name, "max_tokens") ||
        same(name, "max_completion_tokens") ||
        same(name, "response_format") ||
        same(name, "tools") ||
        same(name, "tool_choice")
}

/// A parameter that is taken over as it is.
pub open spec fn shared_parameter(name: Seq<char>) -> bool {
    name == "stream"@ ||
        name == "temperature"@ ||
        name == "top_p"@ ||
        name == "parallel_tool_calls"@ ||
        name == "metadata"@ ||
        name == "store"@ ||
        name == "user"@ ||
        name == "service_tier"@ ||
        name == "safety_identifier"@ ||
        name == "prompt_cache_key"@ ||
        name == "prompt_cache_retention"@ ||
        name == "gemini"@
}

fn is_shared_parameter(name: &str) -> (r: bool)
    ensures
        r == shared_parameter(name@),
{
    same(name, "stream") ||
        same(name, "temperature") ||
        same(name, "top_p") ||
        same(name, "parallel_tool_calls") ||
        same(name, "metadata") ||
        same(name, "store") ||
        same(name, "user") ||
        same(name, "service_tier") ||
        same(name, "safety_identifier") ||
        same(name, "prompt_cache_key") ||
        same(name, "prompt_cache_retention") ||
        same(name, "gemini")
}

/// The number zero, however it is written.
pub open spec fn zero(value: Tree) -> bool {
    match value {
        Tree::Number(NumberView::Unsigned(n)) => n == 0,
        Tree::Number(NumberView::Float(text)) => crate::tree::zero_text(text),
        _ => false,
    }
}

fn is_zero(value: &Json) -> (r: bool)
    ensures
        r == zero(value@),
{
    match value {
        Json::Number(Number::Unsigned(n)) => *n == 0,
        Json::Number(Number::Float(text)) => same(text.as_str(), "0") || same(text.as_str(), "-0"),
        _ => false,
    }
}

/// The body with one parameter.
pub open spec fn parameter_set(body: Tree, name: Seq<char>, value: Tree) -> Result<
    Tree,
    Seq<char>,
> {
    if own_parameter(name) || value is Null {
        Ok(body)
    } else if shared_parameter(name) {
        Ok(body.with(name, value))
    } else if name == "n"@ {
        if value.natural() == Some(1u64) {
            Ok(body)
        } else {
            Err("Custom Chat Completions supports n=1 only"@)
        }
    } else if name == "frequency_penalty"@ || name == "presence_penalty"@ {
        if zero(value) {
            Ok(body)
        } else {
            Err(name + " has no Responses equivalent"@)
        }
    } else if name == "logprobs"@ {
        if value == Tree::Bool(false) {
            Ok(body)
        } else {
            Err("logprobs is not supported by the chat shim"@)
        }
    } else if name == "stop"@ {
        if value == Tree::Array(Seq::empty()) {
            Ok(body)
        } else {
            Err("stop sequences have no Responses equivalent"@)
        }
    } else {
        Err("Unsupported chat parameter "@ + name)
    }
}

fn set_parameter(body: Json, name: &str, value: &Json) -> (r: Result<Json, Error>)
    ensures
        outcome(r) == parameter_set(body@, name@, value@),
{
    if is_own_parameter(name) || value.is_null() {
        return Ok(body);
    }
    if is_shared_parameter(name) {
        return Ok(body.with(name, value.copy()));
    }
    if same(name, "n") {
        return if matches!(value.as_u64(), Some(1)) {
            Ok(body)
        } else {
            Err(Error::new("Custom Chat Completions supports n=1 only"))
        };
    }
    if same(name, "frequency_penalty") || same(name, "presence_penalty") {
        return if is_zero(value) {
            Ok(body)
        } else {
            Err(Error { message: join2(name, " has no Responses equivalent") })
        };
    }
    if same(name, "logprobs") {
        return if matches!(value, Json::Bool(false)) {
            Ok(body)
        } else {
            Err(Error::new("logprobs is not supported by the chat shim"))
        };
    }
    if same(name, "stop") {
        let none = match value.as_array() {
            Some(items) => {
                proof {
                    if items.len() > 0 {
                        assert(trees(items@).len() != 0);
                    }
                }
                items.len() == 0
            },
            None => false,
        };
        return if none {
            Ok(body)
        } else {
            Err(Error::new("stop sequences have no Responses equivalent"))
        };
    }
    Err(Error { message: join2("Unsupported chat parameter ", name) })
}

/// The body with the parameters from `from` on.
pub open spec fn parameters_set(body: Tree, fields: Seq<(Seq<char>, Tree)>, from: int) -> Result<
    Tree,
    Seq<char>,
>
    decreases fields.len() - from,
{
    if from < 0 || from >= fields.len() {
        Ok(body)
    } else {
        match parameter_set(body, fields[from].0, fields[from].1) {
            Err(message) => Err(message),
            Ok(next) => parameters_set(next, fields, from + 1),
        }
    }
}

fn set_parameters(body: Json, fields: &Vec<(String, Json)>) -> (r: Result<Json, Error>)
    ensures
        outcome(r) == parameters_set(body@, entries(fields@), 0),
{
    let mut out = body;
    let mut i: usize = 0;
    while i < fields.len()
        invariant
            i <= fields.len(),
            parameters_set(body@, entries(fields@), 0) == parameters_set(
                out@,
                entries(fields@),
                i as int,
            ),
        decreases fields.len() - i,
    {
        out = set_parameter(out, fields[i].0.as_str(), &fields[i].1)?;
        i += 1;
    }
    Ok(out)
}

/// Whether a stream is asked for.
pub open spec fn stream_of(input: Tree) -> Result<bool, Seq<char>> {
    match input.at("stream"@) {
        Tree::Null => Ok(false),
        Tree::Bool(stream) => Ok(stream),
        _ => Err("stream must be a boolean"@),
    }
}

fn read_stream(input: &Json) -> (r: Result<bool, Error>)
    ensures
        outcome(r) == stream_of(input@),
{
    let stream = input.at("stream");
    if stream.is_null() {
        return Ok(false);
    }
    match stream.as_bool() {
        Some(stream) => Ok(stream),
        None => Err(Error::new("stream must be a boolean")),
    }
}

/// The check of the stream options from `from` on.
pub open spec fn options_check(fields: Seq<(Seq<char>, Tree)>, from: int) -> Result<(), Seq<char>>
    decreases fields.len() - from,
{
    if from < 0 || from >= fields.len() {
        Ok(())
    } else if fields[from].0 != "include_usage"@ {
        Err("Unsupported stream_options field "@ + fields[from].0)
    } else {
        options_check(fields, from + 1)
    }
}

/// Whether a stream is to end with its usage.
pub open spec fn usage_wanted(input: Tree) -> Result<bool, Seq<char>> {
    let options = input.at("stream_options"@);
    if options is Null {
        Ok(false)
    } else {
        match options.fields() {
            None => Err("stream_options must be an object"@),
            Some(fields) => match options_check(fields, 0) {
                Err(message) => Err(message),
                Ok(_) => match options.get("include_usage"@) {
                    None => Ok(false),
                    Some(Tree::Bool(wanted)) => Ok(wanted),
                    Some(_) => Err("include_usage must be a boolean"@),
                },
            },
        }
    }
}

fn read_usage_wanted(input: &Json) -> (r: Result<bool, Error>)
    ensures
        outcome(r) == usage_wanted(input@),
{
    let options = input.at("stream_options");
    if options.is_null() {
        return Ok(false);
    }
    let fields = match options.as_object() {
        Some(fields) => fields,
        None => return Err(Error::new("stream_options must be an object")),
    };
    let mut i: usize = 0;
    while i < fields.len()
        invariant
            i <= fields.len(),
            options_check(entries(fields@), 0) == options_check(entries(fields@), i as int),
            options@ == Tree::Object(entries(fields@)),
            options@ == input@.at("stream_options"@),
        decreases fields.len() - i,
    {
        if !same(fields[i].0.as_str(), "include_usage") {
            return Err(
                Error {
                    message: join2("Unsupported stream_options field ", fields[i].0.as_str()),
                },
            );
        }
        i += 1;
    }
    match options.get("include_usage") {
        None => Ok(false),
        Some(wanted) => match wanted.as_bool() {
            Some(wanted) => Ok(wanted),
            None => Err(Error::new("include_usage must be a boolean")),
        },
    }
}

/// The body with the limit on output tokens.
pub open spec fn limited(body: Tree, input: Tree) -> Result<Tree, Seq<char>> {
    let tokens = if input.at("max_completion_tokens"@) is Null {
        input.at("max_tokens"@)
    } else {
        input.at("max_completion_tokens"@)
    };
    if tokens is Null {
        Ok(body)
    } else if tokens.natural() matches Some(n) && n > 0 {
        Ok(body.with("max_output_tokens"@, tokens))
    } else {
        Err("token limit must be a positive integer"@)
    }
}

fn limit(body: Json, input: &Json) -> (r: Result<Json, Error>)
    ensures
        outcome(r) == limited(body@, input@),
{
    let tokens = if input.at("max_completion_tokens").is_null() {
        input.at("max_tokens")
    } else {
        input.at("max_completion_tokens")
    };
    if tokens.is_null() {
        return Ok(body);
    }
    match tokens.as_u64() {
        Some(n) => if n > 0 {
            Ok(body.with("max_output_tokens", tokens.copy()))
        } else {
            Err(Error::new("token limit must be a positive integer"))
        },
        None => Err(Error::new("token limit must be a positive integer")),
    }
}

/// Reasoning settings, and whether reasoning is left out of the answer.
pub open spec fn reasoning_set(
    settings: Tree,
    exclude: bool,
    name: Seq<char>,
    value: Tree,
) -> Result<(Tree, bool), Seq<char>> {
    if name == "effort"@ || name == "summary"@ {
        Ok((settings.with(name, value), exclude))
    } else if name == "enabled"@ {
        match value {
            Tree::Bool(enabled) => Ok(
                (
                    settings.with(
                        "effort"@,
                        Tree::Text(
                            if enabled {
                                "medium"@
                            } else {
                                "none"@
                            },
                        ),
                    ),
                    exclude,
                ),
            ),
            _ => Err("reasoning.enabled must be boolean"@),
        }
    } else if name == "exclude"@ {
        match value {
            Tree::Bool(excluded) => Ok((settings, excluded)),
            _ => Err("reasoning.exclude must be boolean"@),
        }
    } else {
        Err(
            "Unsupported reasoning option "@ + name
                + "; use effort to select a reasoning budget"@,
        )
    }
}

fn set_reasoning(settings: Json, exclude: bool, name: &str, value: &Json) -> (r: Result<
    (Json, bool),
    Error,
>)
    ensures
        outcome(r) == reasoning_set(settings@, exclude, name@, value@),
{
    if same(name, "effort") || same(name, "summary") {
        Ok((settings.with(name, value.copy()), exclude))
    } else if same(name, "enabled") {
        match value.as_bool() {
            Some(enabled) => {
                let effort = if enabled {
                    "medium"
                } else {
                    "none"
                };
                Ok((settings.with("effort", Json::text(effort)), exclude))
            },
            None => Err(Error::new("reasoning.enabled must be boolean")),
        }
    } else if same(name, "exclude") {
        match value.as_bool() {
            Some(excluded) => Ok((settings, excluded)),
            None => Err(Error::new("reasoning.exclude must be boolean")),
        }
    } else {
        Err(
            Error {
                message: join3(
                    "Unsupported reasoning option ",
                    name,
                    "; use effort to select a reasoning budget",
                ),
            },
        )
    }
}

/// The reasoning options from `from` on.
pub open spec fn reasoning_from(
    fields: Seq<(Seq<char>, Tree)>,
    from: int,
    settings: Tree,
    exclude: bool,
) -> Result<(Tree, bool), Seq<char>>
    decreases fields.len() - from,
{
    if from < 0 || from >= fields.len() {
        Ok((settings, exclude))
    } else {
        match reasoning_set(settings, exclude, fields[from].0, fields[from].1) {
            Err(message) => Err(message),
            Ok((settings, exclude)) => reasoning_from(fields, from + 1, settings, exclude),
        }
    }
}

/// The reasoning options of a request.
pub open spec fn reasoning_options(input: Tree) -> Result<(Tree, bool), Seq<char>> {
    let exclude = input.at("include_reasoning"@) == Tree::Bool(false);
    let options = input.at("reasoning"@);
    if options is Null {
        Ok((empty_object(), exclude))
    } else {
        match options.fields() {
            None => Err("reasoning must be an object"@),
            Some(fields) => reasoning_from(fields, 0, empty_object(), exclude),
        }
    }
}

fn read_reasoning_options(input: &Json) -> (r: Result<(Json, bool), Error>)
    ensures
        outcome(r) == reasoning_options(input@),
{
    let mut exclude = matches!(input.at("include_reasoning"), Json::Bool(false));
    let mut settings = Json::object();
    let options = input.at("reasoning");
    if options.is_null() {
        return Ok((settings, exclude));
    }
    let fields = match options.as_object() {
        Some(fields) => fields,
        None => return Err(Error::new("reasoning must be an object")),
    };
    let mut i: usize = 0;
    while i < fields.len()
        invariant
            i <= fields.len(),
            reasoning_options(input@) == reasoning_from(
                entries(fields@),
                i as int,
                settings@,
                exclude,
            ),
        decreases fields.len() - i,
    {
        let (next, left_out) = set_reasoning(
            settings,
            exclude,
            fields[i].0.as_str(),
            &fields[i].1,
        )?;
        settings = next;
        exclude = left_out;
        i += 1;
    }
    Ok((settings, exclude))
}

/// Whether settings hold nothing.
pub open spec fn unset(settings: Tree) -> bool {
    settings == Tree::Object(Seq::empty())
}

fn is_unset(settings: &Json) -> (r: bool)
    ensures
        r == unset(settings@),
{
    match settings.as_object() {
        Some(fields) => {
            proof {
                if fields.len() > 0 {
                    assert(entries(fields@).len() != 0);
                } else {
                    assert(entries(fields@) =~= Seq::empty());
                }
            }
            fields.len() == 0
        },
        None => false,
    }
}

/// The reasoning settings of a request, and whether reasoning is left out of the
/// answer. A summary is asked for wherever reasoning is wanted.
pub open spec fn reasoning_of(input: Tree) -> Result<(Tree, bool), Seq<char>> {
    match reasoning_options(input) {
        Err(message) => Err(message),
        Ok((settings, exclude)) => {
            let effort = input.at("reasoning_effort"@);
            if !(effort is Null) && !(effort is Text) {
                Err("reasoning_effort must be a string"@)
            } else {
                let set = if effort is Null {
                    settings
                } else {
                    settings.with("effort"@, effort)
                };
                if !exclude && set.at("effort"@) != Tree::Text("none"@) && (input.at(
                    "include_reasoning"@,
                ) == Tree::Bool(true) || input.at("reasoning"@) is Object || !unset(set))
                    && !set.has("summary"@) {
                    Ok((set.with("summary"@, Tree::Text("auto"@)), exclude))
                } else {
                    Ok((set, exclude))
                }
            }
        },
    }
}

fn read_reasoning(input: &Json) -> (r: Result<(Json, bool), Error>)
    ensures
        outcome(r) == reasoning_of(input@),
{
    let (settings, exclude) = read_reasoning_options(input)?;
    let mut settings = settings;
    let effort = input.at("reasoning_effort");
    if !effort.is_null() {
        if !effort.is_string() {
            return Err(Error::new("reasoning_effort must be a string"));
        }
        settings.set("effort", effort.copy());
    }
    if !exclude && !settings.at("effort").is("none") && (matches!(
        input.at("include_reasoning"),
        Json::Bool(true)
    ) || input.at("reasoning").is_object() || !is_unset(&settings)) && !settings.has("summary") {
        settings.set("summary", Json::text("auto"));
    }
    Ok((settings, exclude))
}

/// The body with the format of the output.
pub open spec fn format_set(body: Tree, input: Tree) -> Result<Tree, Seq<char>> {
    let format = input.at("response_format"@);
    if format is Null {
        Ok(body)
    } else {
        match string_of(format, "type"@) {
            Err(message) => Err(message),
            Ok(kind) => if kind == "text"@ || kind == "json_object"@ {
                Ok(body.with("text"@, empty_object().with("format"@, format)))
            } else if kind == "json_schema"@ {
                if format.at("json_schema"@) is Object {
                    Ok(
                        body.with(
                            "text"@,
                            empty_object().with(
                                "format"@,
                                format.at("json_schema"@).with(
                                    "type"@,
                                    Tree::Text("json_schema"@),
                                ),
                            ),
                        ),
                    )
                } else {
                    Err("json_schema must be an object"@)
                }
            } else {
                Err("Unsupported response_format "@ + kind)
            },
        }
    }
}

fn set_format(body: Json, input: &Json) -> (r: Result<Json, Error>)
    ensures
        outcome(r) == format_set(body@, input@),
{
    let format = input.at("response_format");
    if format.is_null() {
        return Ok(body);
    }
    let kind = string(format, "type")?;
    if same(kind, "text") || same(kind, "json_object") {
        Ok(body.with("text", Json::object().with("format", format.copy())))
    } else if same(kind, "json_schema") {
        let schema = format.at("json_schema");
        if !schema.is_object() {
            return Err(Error::new("json_schema must be an object"));
        }
        let typed = schema.copy().with("type", Json::text("json_schema"));
        Ok(body.with("text", Json::object().with("format", typed)))
    } else {
        Err(Error { message: join2("Unsupported response_format ", kind) })
    }
}

/// A chat tool as a Responses tool. Chat schemas are not strict unless they say so.
pub open spec fn tool_of(tool: Tree) -> Result<Tree, Seq<char>> {
    if tool.at("type"@) != Tree::Text("function"@) {
        Err("Only function tools are supported"@)
    } else if !(tool.at("function"@) is Object) {
        Err("tool.function must be an object"@)
    } else {
        let function = tool.at("function"@).with("type"@, Tree::Text("function"@));
        Ok(
            if function.has("strict"@) {
                function
            } else {
                function.with("strict"@, Tree::Bool(false))
            },
        )
    }
}

fn convert_tool(tool: &Json) -> (r: Result<Json, Error>)
    ensures
        outcome(r) == tool_of(tool@),
{
    if !tool.at("type").is("function") {
        return Err(Error::new("Only function tools are supported"));
    }
    let function = tool.at("function");
    if !function.is_object() {
        return Err(Error::new("tool.function must be an object"));
    }
    let mut function = function.copy().with("type", Json::text("function"));
    if !function.has("strict") {
        function.set("strict", Json::Bool(false));
    }
    Ok(function)
}

/// The tools from `from` on, behind those that were converted.
pub open spec fn tools_from(tools: Seq<Tree>, from: int, out: Seq<Tree>) -> Result<
    Seq<Tree>,
    Seq<char>,
>
    decreases tools.len() - from,
{
    if from < 0 || from >= tools.len() {
        Ok(out)
    } else {
        match tool_of(tools[from]) {
            Err(message) => Err(message),
            Ok(tool) => tools_from(tools, from + 1, out.push(tool)),
        }
    }
}

/// The body with the tools.
pub open spec fn tools_set(body: Tree, input: Tree) -> Result<Tree, Seq<char>> {
    let tools = input.at("tools"@);
    if tools is Null {
        Ok(body)
    } else {
        match tools.items() {
            None => Err("tools must be an array"@),
            Some(list) => match tools_from(list, 0, Seq::empty()) {
                Err(message) => Err(message),
                Ok(list) => Ok(body.with("tools"@, Tree::Array(list))),
            },
        }
    }
}

fn set_tools(body: Json, input: &Json) -> (r: Result<Json, Error>)
    ensures
        outcome(r) == tools_set(body@, input@),
{
    let tools = input.at("tools");
    if tools.is_null() {
        return Ok(body);
    }
    let list = match tools.as_array() {
        Some(list) => list,
        None => return Err(Error::new("tools must be an array")),
    };
    let mut out: Vec<Json> = Vec::new();
    let mut i: usize = 0;
    while i < list.len()
        invariant
            i <= list.len(),
            tools@ == input@.at("tools"@),
            tools@ == Tree::Array(trees(list@)),
            tools_from(trees(list@), 0, Seq::empty()) == tools_from(
                trees(list@),
                i as int,
                trees(out@),
            ),
        decreases list.len() - i,
    {
        let tool = convert_tool(&list[i])?;
        out.push(tool);
        i += 1;
    }
    Ok(body.with("tools", Json::Array(out)))
}

/// The body with the choice of a tool.
pub open spec fn choice_set(body: Tree, input: Tree) -> Result<Tree, Seq<char>> {
    let choice = input.at("tool_choice"@);
    if choice is Null {
        Ok(body)
    } else if choice is Text {
        Ok(body.with("tool_choice"@, choice))
    } else if choice.at("type"@) != Tree::Text("function"@) {
        Err("Only function tool_choice is supported"@)
    } else {
        match string_of(choice.at("function"@), "name"@) {
            Err(message) => Err(message),
            Ok(name) => Ok(
                body.with(
                    "tool_choice"@,
                    empty_object().with("type"@, Tree::Text("function"@)).with(
                        "name"@,
                        Tree::Text(name),
                    ),
                ),
            ),
        }
    }
}

fn set_choice(body: Json, input: &Json) -> (r: Result<Json, Error>)
    ensures
        outcome(r) == choice_set(body@, input@),
{
    let choice = input.at("tool_choice");
    if choice.is_null() {
        return Ok(body);
    }
    if choice.is_string() {
        return Ok(body.with("tool_choice", choice.copy()));
    }
    if !choice.at("type").is("function") {
        return Err(Error::new("Only function tool_choice is supported"));
    }
    let name = string(choice.at("function"), "name")?;
    Ok(
        body.with(
            "tool_choice",
            Json::object().with("type", Json::text("function")).with("name", Json::text(name)),
        ),
    )
}

// ---- the whole -------------------------------------------------------------------------

/// The body before its parameters.
pub open spec fn initial_body(model: Tree, items: Seq<Tree>) -> Tree {
    empty_object().with("model"@, model).with("input"@, Tree::Array(items)).with(
        "include"@,
        Tree::Array(seq![Tree::Text("reasoning.encrypted_content"@)]),
    ).with("store"@, Tree::Bool(false))
}

/// The body of a request with its output limit, reasoning, format and tools.
pub open spec fn furnished(body: Tree, input: Tree, reasoning: Tree) -> Result<Tree, Seq<char>> {
    let thinking = if unset(reasoning) {
        body
    } else {
        body.with("reasoning"@, reasoning)
    };
    match format_set(thinking, input) {
        Err(message) => Err(message),
        Ok(shaped) => match tools_set(shaped, input) {
            Err(message) => Err(message),
            Ok(equipped) => choice_set(equipped, input),
        },
    }
}

/// A chat request in Responses form, or why it is refused.
pub open spec fn chat_converted(input: Tree, model: Seq<char>, key: Seq<u8>) -> Result<
    ConvertedView,
    Seq<char>,
> {
    match input.fields() {
        None => Err("Chat request must be an object"@),
        Some(fields) => match string_of(input, "model"@) {
            Err(message) => Err(message),
            Ok(named) => if named.len() == 0 {
                Err("model must not be empty"@)
            } else if list_of(input.at("messages"@)).len() == 0 {
                Err("messages must be a nonempty array"@)
            } else {
                match messages_from(
                    list_of(input.at("messages"@)),
                    0,
                    model,
                    key,
                    Seq::empty(),
                ) {
                    Err(message) => Err(message),
                    Ok(items) => match parameters_set(
                        initial_body(input.at("model"@), items),
                        fields,
                        0,
                    ) {
                        Err(message) => Err(message),
                        Ok(body) => match stream_of(input) {
                            Err(message) => Err(message),
                            Ok(stream) => match usage_wanted(input) {
                                Err(message) => Err(message),
                                Ok(wanted) => match limited(body, input) {
                                    Err(message) => Err(message),
                                    Ok(body) => match reasoning_of(input) {
                                        Err(message) => Err(message),
                                        Ok((reasoning, exclude)) => match furnished(
                                            body,
                                            input,
                                            reasoning,
                                        ) {
                                            Err(message) => Err(message),
                                            Ok(body) => Ok(
                                                ConvertedView {
                                                    body,
                                                    stream,
                                                    usage_wanted: wanted,
                                                    exclude_reasoning: exclude,
                                                },
                                            ),
                                        },
                                    },
                                },
                            },
                        },
                    },
                }
            },
        },
    }
}

/// Converts a chat request to a Responses request; `routed_model` is the model that it
/// will be sent to.
pub fn convert(input: &Json, routed_model: &str, codec: &ReasoningCodec) -> (r: Result<
    Converted,
    Error,
>)
    ensures
        outcome(r) == chat_converted(input@, routed_model@, codec.key@),
{
    let fields = match input.as_object() {
        Some(fields) => fields,
        None => return Err(Error::new("Chat request must be an object")),
    };
    let named = string(input, "model")?;
    ensure(!named.is_empty(), "model must not be empty")?;
    let messages = match input.at("messages").as_array() {
        Some(messages) => messages,
        None => return Err(Error::new("messages must be a nonempty array")),
    };
    ensure(messages.len() > 0, "messages must be a nonempty array")?;
    let items = convert_messages(messages, routed_model, codec)?;
    let wishes = single(Json::text("reasoning.encrypted_content"));
    let body = Json::object().with("model", input.at("model").copy()).with(
        "input",
        Json::Array(items),
    ).with("include", Json::Array(wishes)).with("store", Json::Bool(false));
    let body = set_parameters(body, fields)?;
    let stream = read_stream(input)?;
    let include_usage = read_usage_wanted(input)?;
    let body = limit(body, input)?;
    let (reasoning, exclude_reasoning) = read_reasoning(input)?;
    let body = if is_unset(&reasoning) {
        body
    } else {
        body.with("reasoning", reasoning)
    };
    let body = set_format(body, input)?;
    let body = set_tools(body, input)?;
    let body = set_choice(body, input)?;
    Ok(Converted { body, stream, include_usage, exclude_reasoning })
}

} // verus!

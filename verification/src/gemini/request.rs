//! Responses requests as native requests. What has no native equivalent is refused
//! rather than dropped.

use vstd::prelude::*;
use crate::error::{both, ensure, ensured, outcome, Error};
use crate::exchange::{settled, to_text, written};
use crate::gemini::conversation::{extend, opening_instruction, turn, Conversation, Talk};
use crate::gemini::items::talk_from;
use crate::gemini::parts::{
    content_parts, empty_object, make_text_part, parts_of, string, string_of, text_part,
};
use crate::gemini::provider::{endpoint_of, ProviderConfig, Thinking};
use crate::gemini::replay::{copy_all, ReasoningCodec};
use crate::gemini::tools::{identity, tool_identity, tools_added, Tool, ToolSet, ToolView, Tools};
use crate::outside::{schema_builds, schema_is_usable};
use crate::table::{entries, find, get_entry, put, put_entry};
use crate::text::{after, join2, join3, same, starts_with, strip_prefix};
use crate::tree::{json_views, trees, Json, Number, NumberView, Tree};

verus! {

broadcast use json_views;

/// A request in native form, with what its response needs.
pub struct ConvertedRequest {
    pub model: String,
    pub response_model: String,
    pub stream: bool,
    pub body: Json,
    pub tools: Vec<(String, Tool)>,
    pub response_fields: Vec<(String, Json)>,
    pub output_schema: Option<Json>,
}

/// The view of a converted request.
pub ghost struct Converted {
    pub model: Seq<char>,
    pub response_model: Seq<char>,
    pub stream: bool,
    pub body: Tree,
    pub tools: Seq<(Seq<char>, ToolView)>,
    pub response_fields: Seq<(Seq<char>, Tree)>,
    pub output_schema: Option<Tree>,
}

impl DeepView for ConvertedRequest {
    type V = Converted;

    open spec fn deep_view(&self) -> Converted {
        Converted {
            model: self.model@,
            response_model: self.response_model@,
            stream: self.stream,
            body: self.body@,
            tools: entries(self.tools@),
            response_fields: entries(self.response_fields@),
            output_schema: self.output_schema.deep_view(),
        }
    }
}

// ---- what may stand in a request ------------------------------------------

/// A member that, where present, must be a boolean.
pub open spec fn flag_check(request: Tree, key: Seq<char>) -> Result<(), Seq<char>> {
    ensured(
        !request.has(key) || request.at(key) is Bool,
        key + " must be a boolean"@,
    )
}

fn check_flag(request: &Json, key: &str) -> (r: Result<(), Error>)
    ensures
        outcome(r) == flag_check(request@, key@),
{
    if !request.has(key) || request.at(key).as_bool().is_some() {
        Ok(())
    } else {
        Err(Error { message: join2(key, " must be a boolean") })
    }
}

/// The check that an extension holds nothing but a native request, from `from` on.
pub open spec fn extension_names_check(fields: Seq<(Seq<char>, Tree)>, from: int) -> Result<
    (),
    Seq<char>,
>
    decreases fields.len() - from,
{
    if from < 0 || from >= fields.len() {
        Ok(())
    } else if fields[from].0 != "native_request"@ {
        Err("Unsupported gemini extension "@ + fields[from].0)
    } else {
        extension_names_check(fields, from + 1)
    }
}

/// The check of the extension for this provider.
pub open spec fn extension_check(request: Tree) -> Result<(), Seq<char>> {
    match request.get("gemini"@) {
        None => Ok(()),
        Some(extension) => match extension.fields() {
            None => Err("gemini extension must be an object"@),
            Some(fields) => extension_names_check(fields, 0),
        },
    }
}

fn check_extension(request: &Json) -> (r: Result<(), Error>)
    ensures
        outcome(r) == extension_check(request@),
{
    let extension = match request.get("gemini") {
        Some(extension) => extension,
        None => return Ok(()),
    };
    let fields = match extension.as_object() {
        Some(fields) => fields,
        None => return Err(Error::new("gemini extension must be an object")),
    };
    let mut i: usize = 0;
    while i < fields.len()
        invariant
            i <= fields.len(),
            extension_check(request@) == extension_names_check(entries(fields@), i as int),
        decreases fields.len() - i,
    {
        if !same(fields[i].0.as_str(), "native_request") {
            return Err(
                Error { message: join2("Unsupported gemini extension ", fields[i].0.as_str()) },
            );
        }
        i += 1;
    }
    Ok(())
}

/// The parameters that can be converted.
pub open spec fn known_parameter(name: Seq<char>) -> bool {
    name == "model"@ ||
        name == "input"@ ||
        name == "instructions"@ ||
        name == "stream"@ ||
        name == "reasoning"@ ||
        name == "tools"@ ||
        name == "tool_choice"@ ||
        name == "parallel_tool_calls"@ ||
        name == "max_output_tokens"@ ||
        name == "temperature"@ ||
        name == "top_p"@ ||
        name == "text"@ ||
        name == "store"@ ||
        name == "metadata"@ ||
        name == "client_metadata"@ ||
        name == "include"@ ||
        name == "prompt_cache_key"@ ||
        name == "prompt_cache_retention"@ ||
        name == "safety_identifier"@ ||
        name == "user"@ ||
        name == "service_tier"@ ||
        name == "truncation"@ ||
        name == "gemini"@
}

fn is_known_parameter(name: &str) -> (r: bool)
    ensures
        r == known_parameter(name@),
{
    same(name, "model") ||
        same(name, "input") ||
        same(name, "instructions") ||
        same(name, "stream") ||
        same(name, "reasoning") ||
        same(name, "tools") ||
        same(name, "tool_choice") ||
        same(name, "parallel_tool_calls") ||
        same(name, "max_output_tokens") ||
        same(name, "temperature") ||
        same(name, "top_p") ||
        same(name, "text") ||
        same(name, "store") ||
        same(name, "metadata") ||
        same(name, "client_metadata") ||
        same(name, "include") ||
        same(name, "prompt_cache_key") ||
        same(name, "prompt_cache_retention") ||
        same(name, "safety_identifier") ||
        same(name, "user") ||
        same(name, "service_tier") ||
        same(name, "truncation") ||
        same(name, "gemini")
}

/// The check that every parameter from `from` on can be converted.
pub open spec fn parameters_check(fields: Seq<(Seq<char>, Tree)>, from: int) -> Result<
    (),
    Seq<char>,
>
    decreases fields.len() - from,
{
    if from < 0 || from >= fields.len() {
        Ok(())
    } else if !known_parameter(fields[from].0) {
        Err("Unsupported Responses parameter "@ + fields[from].0 + "; cannot discard it"@)
    } else {
        parameters_check(fields, from + 1)
    }
}

fn check_parameters(fields: &Vec<(String, Json)>) -> (r: Result<(), Error>)
    ensures
        outcome(r) == parameters_check(entries(fields@), 0),
{
    let mut i: usize = 0;
    while i < fields.len()
        invariant
            i <= fields.len(),
            parameters_check(entries(fields@), 0) == parameters_check(
                entries(fields@),
                i as int,
            ),
        decreases fields.len() - i,
    {
        if !is_known_parameter(fields[i].0.as_str()) {
            return Err(
                Error {
                    message: join3(
                        "Unsupported Responses parameter ",
                        fields[i].0.as_str(),
                        "; cannot discard it",
                    ),
                },
            );
        }
        i += 1;
    }
    Ok(())
}

/// The check of the settings that would change what is stored, cut or billed.
pub open spec fn settings_check(request: Tree) -> Result<(), Seq<char>> {
    both(
        ensured(
            request.at("store"@) != Tree::Bool(true),
            "Gemini conversion is stateless; store:true is unsupported"@,
        ),
        both(
            ensured(
                request.at("truncation"@).text() matches Some(t) ==> t == "disabled"@,
                "Automatic truncation would lose input; unsupported"@,
            ),
            ensured(
                request.at("service_tier"@).text() matches Some(t) ==> t == "auto"@ || t
                    == "default"@,
                "Requested service_tier has no Gemini equivalent"@,
            ),
        ),
    )
}

fn check_settings(request: &Json) -> (r: Result<(), Error>)
    ensures
        outcome(r) == settings_check(request@),
{
    ensure(
        !matches!(request.at("store"), Json::Bool(true)),
        "Gemini conversion is stateless; store:true is unsupported",
    )?;
    let whole = match request.at("truncation").as_str() {
        Some(t) => same(t, "disabled"),
        None => true,
    };
    ensure(whole, "Automatic truncation would lose input; unsupported")?;
    let tier = match request.at("service_tier").as_str() {
        Some(t) => same(t, "auto") || same(t, "default"),
        None => true,
    };
    ensure(tier, "Requested service_tier has no Gemini equivalent")
}

/// The check that nothing is asked for but encrypted reasoning, from `from` on.
pub open spec fn wished_fields_check(fields: Seq<Tree>, from: int) -> Result<(), Seq<char>>
    decreases fields.len() - from,
{
    if from < 0 || from >= fields.len() {
        Ok(())
    } else if fields[from] != Tree::Text("reasoning.encrypted_content"@) {
        Err("Unsupported include field "@ + written(fields[from]))
    } else {
        wished_fields_check(fields, from + 1)
    }
}

/// The check of the additional output that is asked for.
pub open spec fn wishes_check(request: Tree) -> Result<(), Seq<char>> {
    match request.get("include"@) {
        None => Ok(()),
        Some(wishes) => match wishes.items() {
            None => Err("include must be an array"@),
            Some(fields) => wished_fields_check(fields, 0),
        },
    }
}

fn check_wishes(request: &Json) -> (r: Result<(), Error>)
    ensures
        outcome(r) == wishes_check(request@),
{
    let wishes = match request.get("include") {
        Some(wishes) => wishes,
        None => return Ok(()),
    };
    let fields = match wishes.as_array() {
        Some(fields) => fields,
        None => return Err(Error::new("include must be an array")),
    };
    let mut i: usize = 0;
    while i < fields.len()
        invariant
            i <= fields.len(),
            wishes_check(request@) == wished_fields_check(trees(fields@), i as int),
        decreases fields.len() - i,
    {
        if !fields[i].is("reasoning.encrypted_content") {
            let shown = to_text(&fields[i]);
            return Err(Error { message: join2("Unsupported include field ", shown.as_str()) });
        }
        i += 1;
    }
    Ok(())
}

/// The check of a request before anything is converted.
pub open spec fn request_check(request: Tree) -> Result<(), Seq<char>> {
    match request.fields() {
        None => Err("Responses request must be an object"@),
        Some(fields) => both(
            both(
                flag_check(request, "stream"@),
                both(
                    flag_check(request, "store"@),
                    flag_check(request, "parallel_tool_calls"@),
                ),
            ),
            both(
                both(extension_check(request), parameters_check(fields, 0)),
                both(settings_check(request), wishes_check(request)),
            ),
        ),
    }
}

fn check_request(request: &Json) -> (r: Result<(), Error>)
    ensures
        outcome(r) == request_check(request@),
{
    let fields = match request.as_object() {
        Some(fields) => fields,
        None => return Err(Error::new("Responses request must be an object")),
    };
    check_flag(request, "stream")?;
    check_flag(request, "store")?;
    check_flag(request, "parallel_tool_calls")?;
    check_extension(request)?;
    check_parameters(fields)?;
    check_settings(request)?;
    check_wishes(request)
}

// ---- generation settings ---------------------------------------------------

/// The settings with one taken over under its native name.
pub open spec fn carried(settings: Tree, request: Tree, source: Seq<char>, name: Seq<char>) -> Tree {
    match request.get(source) {
        Some(value) => settings.with(name, value),
        None => settings,
    }
}

fn carry(settings: Json, request: &Json, source: &str, name: &str) -> (r: Json)
    ensures
        r@ == carried(settings@, request@, source@, name@),
{
    match request.get(source) {
        Some(value) => settings.with(name, value.copy()),
        None => settings,
    }
}

/// The check of the reasoning parameters from `from` on.
pub open spec fn reasoning_names_check(fields: Seq<(Seq<char>, Tree)>, from: int) -> Result<
    (),
    Seq<char>,
>
    decreases fields.len() - from,
{
    if from < 0 || from >= fields.len() {
        Ok(())
    } else if fields[from].0 != "effort"@ && fields[from].0 != "summary"@ {
        Err("Unsupported reasoning parameter "@ + fields[from].0)
    } else {
        reasoning_names_check(fields, from + 1)
    }
}

fn check_reasoning_names(fields: &Vec<(String, Json)>) -> (r: Result<(), Error>)
    ensures
        outcome(r) == reasoning_names_check(entries(fields@), 0),
{
    let mut i: usize = 0;
    while i < fields.len()
        invariant
            i <= fields.len(),
            reasoning_names_check(entries(fields@), 0) == reasoning_names_check(
                entries(fields@),
                i as int,
            ),
        decreases fields.len() - i,
    {
        let name = fields[i].0.as_str();
        if !same(name, "effort") && !same(name, "summary") {
            return Err(Error { message: join2("Unsupported reasoning parameter ", name) });
        }
        i += 1;
    }
    Ok(())
}

/// Whether a model is told a thinking level rather than a budget.
pub open spec fn thinks_in_levels(thinking: Thinking, model: Seq<char>) -> bool {
    thinking == Thinking::Level || (thinking == Thinking::Auto && "gemini-3"@.is_prefix_of(model))
}

/// The thinking level of an effort.
pub open spec fn thinking_level(effort: Seq<char>) -> Result<Tree, Seq<char>> {
    if effort == "minimal"@ || effort == "low"@ || effort == "medium"@ {
        Ok(Tree::Text(effort))
    } else if effort == "high"@ || effort == "xhigh"@ || effort == "max"@ {
        Ok(Tree::Text("high"@))
    } else {
        Err("Unsupported Gemini thinking level "@ + effort)
    }
}

/// The thinking budget of an effort.
pub open spec fn thinking_budget(effort: Seq<char>) -> Result<Tree, Seq<char>> {
    if effort == "none"@ {
        Ok(Tree::Number(NumberView::Unsigned(0)))
    } else if effort == "minimal"@ {
        Ok(Tree::Number(NumberView::Unsigned(128)))
    } else if effort == "low"@ {
        Ok(Tree::Number(NumberView::Unsigned(1024)))
    } else if effort == "medium"@ {
        Ok(Tree::Number(NumberView::Unsigned(8192)))
    } else if effort == "high"@ {
        Ok(Tree::Number(NumberView::Unsigned(24576)))
    } else if effort == "xhigh"@ || effort == "max"@ {
        Ok(Tree::Number(NumberView::Negative(-1i64)))
    } else {
        Err("Unsupported reasoning effort "@ + effort)
    }
}

/// How a model is told to think.
pub open spec fn thinking_config(reasoning: Tree, thinking: Thinking, model: Seq<char>) -> Result<
    Tree,
    Seq<char>,
> {
    match reasoning.fields() {
        None => Err("reasoning must be an object"@),
        Some(fields) => match reasoning_names_check(fields, 0) {
            Err(message) => Err(message),
            Ok(_) => {
                let summary = match reasoning.at("summary"@).text() {
                    Some(summary) => summary,
                    None => "auto"@,
                };
                if summary != "auto"@ && summary != "concise"@ && summary != "detailed"@ && summary
                    != "none"@ {
                    Err("Unsupported reasoning summary "@ + summary)
                } else {
                    let plain = empty_object().with(
                        "includeThoughts"@,
                        Tree::Bool(summary != "none"@),
                    );
                    match reasoning.at("effort"@).text() {
                        None => Ok(plain),
                        Some(effort) => if thinks_in_levels(thinking, model) {
                            match thinking_level(effort) {
                                Err(message) => Err(message),
                                Ok(level) => Ok(plain.with("thinkingLevel"@, level)),
                            }
                        } else {
                            match thinking_budget(effort) {
                                Err(message) => Err(message),
                                Ok(budget) => Ok(plain.with("thinkingBudget"@, budget)),
                            }
                        },
                    }
                }
            },
        },
    }
}

fn make_level(effort: &str) -> (r: Result<Json, Error>)
    ensures
        outcome(r) == thinking_level(effort@),
{
    if same(effort, "minimal") || same(effort, "low") || same(effort, "medium") {
        Ok(Json::text(effort))
    } else if same(effort, "high") || same(effort, "xhigh") || same(effort, "max") {
        Ok(Json::text("high"))
    } else {
        Err(Error { message: join2("Unsupported Gemini thinking level ", effort) })
    }
}

fn make_budget(effort: &str) -> (r: Result<Json, Error>)
    ensures
        outcome(r) == thinking_budget(effort@),
{
    if same(effort, "none") {
        Ok(Json::natural(0))
    } else if same(effort, "minimal") {
        Ok(Json::natural(128))
    } else if same(effort, "low") {
        Ok(Json::natural(1024))
    } else if same(effort, "medium") {
        Ok(Json::natural(8192))
    } else if same(effort, "high") {
        Ok(Json::natural(24576))
    } else if same(effort, "xhigh") || same(effort, "max") {
        Ok(Json::Number(Number::Negative(-1)))
    } else {
        Err(Error { message: join2("Unsupported reasoning effort ", effort) })
    }
}

fn make_thinking(reasoning: &Json, thinking: Thinking, model: &str) -> (r: Result<Json, Error>)
    ensures
        outcome(r) == thinking_config(reasoning@, thinking, model@),
{
    let fields = match reasoning.as_object() {
        Some(fields) => fields,
        None => return Err(Error::new("reasoning must be an object")),
    };
    check_reasoning_names(fields)?;
    let summary = match reasoning.at("summary").as_str() {
        Some(summary) => summary,
        None => "auto",
    };
    if !same(summary, "auto") && !same(summary, "concise") && !same(summary, "detailed") && !same(
        summary,
        "none",
    ) {
        return Err(Error { message: join2("Unsupported reasoning summary ", summary) });
    }
    let plain = Json::object().with("includeThoughts", Json::Bool(!same(summary, "none")));
    match reasoning.at("effort").as_str() {
        None => Ok(plain),
        Some(effort) => {
            let levels = thinking == Thinking::Level || (thinking == Thinking::Auto && starts_with(
                model,
                "gemini-3",
            ));
            if levels {
                let level = make_level(effort)?;
                Ok(plain.with("thinkingLevel", level))
            } else {
                let budget = make_budget(effort)?;
                Ok(plain.with("thinkingBudget", budget))
            }
        },
    }
}

/// The generation settings before the output format.
pub open spec fn generation(request: Tree, thinking: Thinking, model: Seq<char>) -> Result<
    Tree,
    Seq<char>,
> {
    let plain = carried(
        carried(
            carried(empty_object(), request, "max_output_tokens"@, "maxOutputTokens"@),
            request,
            "temperature"@,
            "temperature"@,
        ),
        request,
        "top_p"@,
        "topP"@,
    );
    if request.at("reasoning"@) is Null {
        Ok(plain)
    } else {
        match thinking_config(request.at("reasoning"@), thinking, model) {
            Err(message) => Err(message),
            Ok(config) => Ok(plain.with("thinkingConfig"@, config)),
        }
    }
}

fn make_generation(request: &Json, thinking: Thinking, model: &str) -> (r: Result<Json, Error>)
    ensures
        outcome(r) == generation(request@, thinking, model@),
{
    let limited = carry(Json::object(), request, "max_output_tokens", "maxOutputTokens");
    let warm = carry(limited, request, "temperature", "temperature");
    let plain = carry(warm, request, "top_p", "topP");
    let reasoning = request.at("reasoning");
    if reasoning.is_null() {
        Ok(plain)
    } else {
        let config = make_thinking(reasoning, thinking, model)?;
        Ok(plain.with("thinkingConfig", config))
    }
}

// ---- the output format ------------------------------------------------------

/// A schema that the output must satisfy, where it is strict.
pub open spec fn schema_format(format: Tree, settings: Tree) -> Result<
    (Tree, Option<Tree>),
    Seq<char>,
> {
    let strict = format.at("strict"@);
    if !(strict is Null) && !(strict is Bool) {
        Err("JSON schema strict must be a boolean"@)
    } else {
        match format.get("schema"@) {
            None => Err("JSON schema required"@),
            Some(schema) => {
                let set = settings.with("responseMimeType"@, Tree::Text("application/json"@)).with(
                    "responseJsonSchema"@,
                    schema,
                );
                if strict == Tree::Bool(true) {
                    if schema_builds(settled(schema)) {
                        Ok((set, Some(schema)))
                    } else {
                        Err("Invalid or unresolved strict response JSON schema"@)
                    }
                } else {
                    Ok((set, None))
                }
            },
        }
    }
}

/// The settings with the output format, and the schema that the output must satisfy.
pub open spec fn formatted(request: Tree, settings: Tree) -> Result<
    (Tree, Option<Tree>),
    Seq<char>,
> {
    match request.at("text"@).get("format"@) {
        None => Ok((settings, None)),
        Some(format) => match string_of(format, "type"@) {
            Err(message) => Err(message),
            Ok(kind) => if kind == "text"@ {
                Ok((settings, None))
            } else if kind == "json_object"@ {
                Ok(
                    (
                        settings.with("responseMimeType"@, Tree::Text("application/json"@)),
                        None,
                    ),
                )
            } else if kind == "json_schema"@ {
                schema_format(format, settings)
            } else {
                Err("Unsupported text format "@ + kind)
            },
        },
    }
}

fn format_schema(format: &Json, settings: Json) -> (r: Result<(Json, Option<Json>), Error>)
    ensures
        outcome(r) == schema_format(format@, settings@),
{
    let strict = format.at("strict");
    if !strict.is_null() && strict.as_bool().is_none() {
        return Err(Error::new("JSON schema strict must be a boolean"));
    }
    let schema = match format.get("schema") {
        Some(schema) => schema,
        None => return Err(Error::new("JSON schema required")),
    };
    let set = settings.with("responseMimeType", Json::text("application/json")).with(
        "responseJsonSchema",
        schema.copy(),
    );
    if matches!(strict, Json::Bool(true)) {
        if schema_is_usable(schema) {
            Ok((set, Some(schema.copy())))
        } else {
            Err(Error::new("Invalid or unresolved strict response JSON schema"))
        }
    } else {
        Ok((set, None))
    }
}

fn format_output(request: &Json, settings: Json) -> (r: Result<(Json, Option<Json>), Error>)
    ensures
        outcome(r) == formatted(request@, settings@),
{
    let format = match request.at("text").get("format") {
        Some(format) => format,
        None => return Ok((settings, None)),
    };
    let kind = string(format, "type")?;
    if same(kind, "text") {
        Ok((settings, None))
    } else if same(kind, "json_object") {
        Ok((settings.with("responseMimeType", Json::text("application/json")), None))
    } else if same(kind, "json_schema") {
        format_schema(format, settings)
    } else {
        Err(Error { message: join2("Unsupported text format ", kind) })
    }
}

/// The check of the text options from `from` on.
pub open spec fn text_names_check(fields: Seq<(Seq<char>, Tree)>, from: int) -> Result<
    (),
    Seq<char>,
>
    decreases fields.len() - from,
{
    if from < 0 || from >= fields.len() {
        Ok(())
    } else if fields[from].0 != "format"@ && !(fields[from].0 == "verbosity"@ && fields[from].1
        == Tree::Text("medium"@)) {
        Err("Unsupported text option "@ + fields[from].0)
    } else {
        text_names_check(fields, from + 1)
    }
}

/// The check of the text options.
pub open spec fn text_check(request: Tree) -> Result<(), Seq<char>> {
    match request.get("text"@) {
        None => Ok(()),
        Some(text) => match text.fields() {
            None => Err("text must be an object"@),
            Some(fields) => text_names_check(fields, 0),
        },
    }
}

fn check_text(request: &Json) -> (r: Result<(), Error>)
    ensures
        outcome(r) == text_check(request@),
{
    let text = match request.get("text") {
        Some(text) => text,
        None => return Ok(()),
    };
    let fields = match text.as_object() {
        Some(fields) => fields,
        None => return Err(Error::new("text must be an object")),
    };
    let mut i: usize = 0;
    while i < fields.len()
        invariant
            i <= fields.len(),
            text_check(request@) == text_names_check(entries(fields@), i as int),
        decreases fields.len() - i,
    {
        let name = fields[i].0.as_str();
        if !same(name, "format") && !(same(name, "verbosity") && fields[i].1.is("medium")) {
            return Err(Error { message: join2("Unsupported text option ", name) });
        }
        i += 1;
    }
    Ok(())
}

// ---- the choice of tools ----------------------------------------------------

/// The native mode of a choice, and the tool that it selects.
pub open spec fn choice_mode(choice: Tree, names: Seq<(Seq<char>, Seq<char>)>) -> Result<
    (Seq<char>, Option<Seq<char>>),
    Seq<char>,
> {
    match choice.text() {
        Some(choice) => if choice == "auto"@ {
            Ok(("AUTO"@, None))
        } else if choice == "none"@ {
            Ok(("NONE"@, None))
        } else if choice == "required"@ {
            Ok(("ANY"@, None))
        } else {
            Err("Invalid tool_choice"@)
        },
        None => if choice.at("type"@) != Tree::Text("function"@) && choice.at("type"@)
            != Tree::Text("custom"@) {
            Err("Unsupported tool_choice"@)
        } else {
            match identity(choice) {
                Err(message) => Err(message),
                Ok(name) => match find(names, name) {
                    None => Err("Unknown selected tool "@ + name),
                    Some(native) => Ok(("ANY"@, Some(native))),
                },
            }
        },
    }
}

fn read_choice(choice: &Json, names: &Vec<(String, String)>) -> (r: Result<
    (&'static str, Option<String>),
    Error,
>)
    ensures
        outcome(r) == choice_mode(choice@, entries(names@)),
{
    match choice.as_str() {
        Some(choice) => if same(choice, "auto") {
            Ok(("AUTO", None))
        } else if same(choice, "none") {
            Ok(("NONE", None))
        } else if same(choice, "required") {
            Ok(("ANY", None))
        } else {
            Err(Error::new("Invalid tool_choice"))
        },
        None => {
            if !choice.at("type").is("function") && !choice.at("type").is("custom") {
                return Err(Error::new("Unsupported tool_choice"));
            }
            let name = tool_identity(choice)?;
            match get_entry(names, name.as_str()) {
                None => Err(Error { message: join2("Unknown selected tool ", name.as_str()) }),
                Some(native) => Ok(("ANY", Some(native.clone()))),
            }
        },
    }
}

/// The native choice of tools.
pub open spec fn choice_config(mode: Seq<char>, selected: Option<Seq<char>>) -> Tree {
    let plain = empty_object().with("mode"@, Tree::Text(mode));
    empty_object().with(
        "functionCallingConfig"@,
        match selected {
            Some(name) => plain.with(
                "allowedFunctionNames"@,
                Tree::Array(seq![Tree::Text(name)]),
            ),
            None => plain,
        },
    )
}

fn make_choice(mode: &str, selected: Option<String>) -> (r: Json)
    ensures
        r@ == choice_config(mode@, selected.deep_view()),
{
    let mut plain = Json::object().with("mode", Json::text(mode));
    match selected {
        Some(name) => {
            let mut list: Vec<Json> = Vec::new();
            let ghost shown = name@;
            list.push(Json::String(name));
            proof {
                assert(trees(list@) =~= seq![Tree::Text(shown)]);
            }
            plain.set("allowedFunctionNames", Json::Array(list));
        },
        None => {},
    }
    Json::object().with("functionCallingConfig", plain)
}

// ---- the native body ----------------------------------------------------------

/// The converted conversation: not empty, and ending with the user. Responses permits
/// an implicit continuation after an assistant turn, which is made explicit.
pub open spec fn closed(contents: Seq<Tree>) -> Result<Seq<Tree>, Seq<char>> {
    if contents.len() == 0 {
        Err("Gemini requires nonempty conversation contents"@)
    } else if contents.last().at("role"@) == Tree::Text("model"@) {
        Ok(contents.push(turn("user"@, seq![text_part("Continue."@)])))
    } else {
        Ok(contents)
    }
}

fn close(contents: Vec<Json>) -> (r: Result<Vec<Json>, Error>)
    ensures
        outcome(r) == closed(trees(contents@)),
{
    let mut contents = contents;
    if contents.len() == 0 {
        return Err(Error::new("Gemini requires nonempty conversation contents"));
    }
    let at: usize = contents.len() - 1;
    if contents[at].at("role").is("model") {
        let mut parts: Vec<Json> = Vec::new();
        parts.push(make_text_part("Continue."));
        proof {
            assert(trees(parts@) =~= seq![text_part("Continue."@)]);
        }
        contents.push(
            Json::object().with("role", Json::text("user")).with("parts", Json::Array(parts)),
        );
    }
    Ok(contents)
}

/// The body before native extensions.
pub open spec fn plain_body(
    contents: Seq<Tree>,
    settings: Tree,
    system: Seq<Tree>,
    declarations: Seq<Tree>,
) -> Tree {
    let plain = empty_object().with("contents"@, Tree::Array(contents)).with(
        "generationConfig"@,
        settings,
    );
    let told = if system.len() > 0 {
        plain.with("systemInstruction"@, empty_object().with("parts"@, Tree::Array(system)))
    } else {
        plain
    };
    if declarations.len() > 0 {
        told.with(
            "tools"@,
            Tree::Array(
                seq![empty_object().with("functionDeclarations"@, Tree::Array(declarations))],
            ),
        )
    } else {
        told
    }
}

fn make_body(contents: Vec<Json>, settings: Json, system: Vec<Json>, declarations: Vec<Json>) -> (r:
    Json)
    ensures
        r@ == plain_body(trees(contents@), settings@, trees(system@), trees(declarations@)),
{
    let mut body = Json::object().with("contents", Json::Array(contents)).with(
        "generationConfig",
        settings,
    );
    if system.len() > 0 {
        body.set("systemInstruction", Json::object().with("parts", Json::Array(system)));
    }
    if declarations.len() > 0 {
        let mut list: Vec<Json> = Vec::new();
        let one = Json::object().with("functionDeclarations", Json::Array(declarations));
        let ghost shown = one@;
        list.push(one);
        proof {
            assert(trees(list@) =~= seq![shown]);
        }
        body.set("tools", Json::Array(list));
    }
    body
}

/// The settings of a native extension added from `from` on, none of which may be set
/// already.
pub open spec fn settings_added(
    settings: Tree,
    fields: Seq<(Seq<char>, Tree)>,
    from: int,
) -> Result<Tree, Seq<char>>
    decreases fields.len() - from,
{
    if from < 0 || from >= fields.len() {
        Ok(settings)
    } else if settings.has(fields[from].0) {
        Err("native_request conflicts with generationConfig."@ + fields[from].0)
    } else {
        settings_added(settings.with(fields[from].0, fields[from].1), fields, from + 1)
    }
}

fn add_settings(settings: Json, fields: &Vec<(String, Json)>) -> (r: Result<Json, Error>)
    ensures
        outcome(r) == settings_added(settings@, entries(fields@), 0),
{
    let ghost whole = settings_added(settings@, entries(fields@), 0);
    let mut set = settings;
    let mut i: usize = 0;
    while i < fields.len()
        invariant
            i <= fields.len(),
            whole == settings_added(settings@, entries(fields@), 0),
            whole == settings_added(set@, entries(fields@), i as int),
        decreases fields.len() - i,
    {
        let name = fields[i].0.as_str();
        if set.has(name) {
            return Err(
                Error { message: join2("native_request conflicts with generationConfig.", name) },
            );
        }
        set.set(name, fields[i].1.copy());
        i += 1;
    }
    Ok(set)
}

/// The body with one member of a native extension.
pub open spec fn member_added(body: Tree, name: Seq<char>, value: Tree) -> Result<
    Tree,
    Seq<char>,
> {
    if name == "contents"@ || name == "systemInstruction"@ {
        Err("native_request cannot replace converted "@ + name)
    } else if name == "tools"@ {
        match value.items() {
            None => Err("native_request.tools must be an array"@),
            Some(tools) => Ok(
                body.with(
                    "tools"@,
                    Tree::Array(crate::gemini::conversation::list_of(body.at("tools"@)) + tools),
                ),
            ),
        }
    } else if name == "generationConfig"@ {
        match value.fields() {
            None => Err("generationConfig must be an object"@),
            Some(fields) => match settings_added(body.at("generationConfig"@), fields, 0) {
                Err(message) => Err(message),
                Ok(settings) => Ok(body.with("generationConfig"@, settings)),
            },
        }
    } else if body.has(name) {
        Err("native_request conflicts with "@ + name)
    } else {
        Ok(body.with(name, value))
    }
}

fn add_member(body: Json, name: &str, value: &Json) -> (r: Result<Json, Error>)
    ensures
        outcome(r) == member_added(body@, name@, value@),
{
    if same(name, "contents") || same(name, "systemInstruction") {
        return Err(Error { message: join2("native_request cannot replace converted ", name) });
    }
    if same(name, "tools") {
        let tools = match value.as_array() {
            Some(tools) => tools,
            None => return Err(Error::new("native_request.tools must be an array")),
        };
        let mut all = match body.at("tools").as_array() {
            Some(own) => copy_all(own),
            None => Vec::new(),
        };
        extend(&mut all, copy_all(tools));
        return Ok(body.with("tools", Json::Array(all)));
    }
    if same(name, "generationConfig") {
        let fields = match value.as_object() {
            Some(fields) => fields,
            None => return Err(Error::new("generationConfig must be an object")),
        };
        let settings = add_settings(body.at("generationConfig").copy(), fields)?;
        return Ok(body.with("generationConfig", settings));
    }
    if body.has(name) {
        return Err(Error { message: join2("native_request conflicts with ", name) });
    }
    Ok(body.with(name, value.copy()))
}

/// The body with the members of a native extension from `from` on.
pub open spec fn members_added(body: Tree, fields: Seq<(Seq<char>, Tree)>, from: int) -> Result<
    Tree,
    Seq<char>,
>
    decreases fields.len() - from,
{
    if from < 0 || from >= fields.len() {
        Ok(body)
    } else {
        match member_added(body, fields[from].0, fields[from].1) {
            Err(message) => Err(message),
            Ok(next) => members_added(next, fields, from + 1),
        }
    }
}

/// The body with the native extension of a request, which exposes the whole native
/// vocabulary.
pub open spec fn extended(request: Tree, body: Tree) -> Result<Tree, Seq<char>> {
    match request.at("gemini"@).get("native_request"@) {
        None => Ok(body),
        Some(native) => match native.fields() {
            None => Err("gemini.native_request must be an object"@),
            Some(fields) => members_added(body, fields, 0),
        },
    }
}

fn extend_body(request: &Json, body: Json) -> (r: Result<Json, Error>)
    ensures
        outcome(r) == extended(request@, body@),
{
    let native = match request.at("gemini").get("native_request") {
        Some(native) => native,
        None => return Ok(body),
    };
    let fields = match native.as_object() {
        Some(fields) => fields,
        None => return Err(Error::new("gemini.native_request must be an object")),
    };
    let ghost whole = members_added(body@, entries(fields@), 0);
    let mut out = body;
    let mut i: usize = 0;
    while i < fields.len()
        invariant
            i <= fields.len(),
            whole == extended(request@, body@),
            whole == members_added(out@, entries(fields@), i as int),
        decreases fields.len() - i,
    {
        out = add_member(out, fields[i].0.as_str(), &fields[i].1)?;
        i += 1;
    }
    Ok(out)
}

// ---- the whole -----------------------------------------------------------------

/// The fields with one of the request's kept for the response.
pub open spec fn kept(fields: Seq<(Seq<char>, Tree)>, request: Tree, key: Seq<char>) -> Seq<
    (Seq<char>, Tree),
> {
    match request.get(key) {
        Some(value) => put(fields, key, value),
        None => fields,
    }
}

fn keep(fields: &mut Vec<(String, Json)>, request: &Json, key: &str)
    ensures
        entries(final(fields)@) == kept(entries(old(fields)@), request@, key@),
{
    match request.get(key) {
        Some(value) => put_entry(fields, key, value.copy()),
        None => {},
    }
}

/// What a response repeats of its request.
#[verifier::opaque]
pub open spec fn repeated(request: Tree) -> Seq<(Seq<char>, Tree)> {
    kept(kept(kept(kept(kept(kept(kept(kept(kept(kept(kept(kept(kept(kept(kept(kept(Seq::empty(), request, "metadata"@), request, "client_metadata"@), request, "reasoning"@), request, "text"@), request, "instructions"@), request, "max_output_tokens"@), request, "temperature"@), request, "top_p"@), request, "tool_choice"@), request, "tools"@), request, "prompt_cache_key"@), request, "prompt_cache_retention"@), request, "safety_identifier"@), request, "user"@), request, "service_tier"@), request, "truncation"@)
}

fn repeat(request: &Json) -> (r: Vec<(String, Json)>)
    ensures
        entries(r@) == repeated(request@),
{
    let mut fields: Vec<(String, Json)> = Vec::new();
    keep(&mut fields, request, "metadata");
    keep(&mut fields, request, "client_metadata");
    keep(&mut fields, request, "reasoning");
    keep(&mut fields, request, "text");
    keep(&mut fields, request, "instructions");
    keep(&mut fields, request, "max_output_tokens");
    keep(&mut fields, request, "temperature");
    keep(&mut fields, request, "top_p");
    keep(&mut fields, request, "tool_choice");
    keep(&mut fields, request, "tools");
    keep(&mut fields, request, "prompt_cache_key");
    keep(&mut fields, request, "prompt_cache_retention");
    keep(&mut fields, request, "safety_identifier");
    keep(&mut fields, request, "user");
    keep(&mut fields, request, "service_tier");
    keep(&mut fields, request, "truncation");
    proof {
        reveal(repeated);
    }
    fields
}

/// The native name of a model: without the provider and the prefix of the API's list.
pub open spec fn native_model(model: Seq<char>) -> Seq<char> {
    let own = match after(model, "gemini/"@) {
        Some(rest) => rest,
        None => model,
    };
    match after(own, "models/"@) {
        Some(rest) => rest,
        None => own,
    }
}

fn make_native_model(model: &str) -> (r: &str)
    ensures
        r@ == native_model(model@),
{
    let own = match strip_prefix(model, "gemini/") {
        Some(rest) => rest,
        None => model,
    };
    match strip_prefix(own, "models/") {
        Some(rest) => rest,
        None => own,
    }
}

/// The tools of a request.
pub open spec fn declared(request: Tree) -> Result<Tools, Seq<char>> {
    let none = Tools {
        tools: Seq::empty(),
        names: Seq::empty(),
        declarations: Seq::empty(),
    };
    match request.get("tools"@) {
        None => Ok(none),
        Some(list) => match list.items() {
            None => Err("tools must be an array"@),
            Some(list) => tools_added(list, 0, ""@, none),
        },
    }
}

fn declare_tools(request: &Json) -> (r: Result<ToolSet, Error>)
    ensures
        outcome(r) == declared(request@),
{
    match request.get("tools") {
        None => Ok(ToolSet::new()),
        Some(list) => match list.as_array() {
            None => Err(Error::new("tools must be an array")),
            Some(list) => ToolSet::new().add_tools(list, ""),
        },
    }
}

/// The items of a request's input.
pub open spec fn input_items(input: Tree) -> Result<Seq<Tree>, Seq<char>> {
    match input {
        Tree::Text(text) => Ok(
            seq![
                empty_object().with("role"@, Tree::Text("user"@)).with(
                    "content"@,
                    Tree::Text(text),
                ),
            ],
        ),
        Tree::Array(items) => Ok(items),
        _ => Err("input must be text or an array"@),
    }
}

fn read_items(input: &Json) -> (r: Result<Vec<Json>, Error>)
    ensures
        outcome(r) == input_items(input@),
{
    match input.as_str() {
        Some(text) => {
            let mut items: Vec<Json> = Vec::new();
            let item = Json::object().with("role", Json::text("user")).with(
                "content",
                Json::text(text),
            );
            let ghost shown = item@;
            items.push(item);
            proof {
                assert(trees(items@) =~= seq![shown]);
            }
            Ok(items)
        },
        None => match input.as_array() {
            Some(items) => Ok(copy_all(items)),
            None => Err(Error::new("input must be text or an array")),
        },
    }
}

/// The conversation that a request starts from: its instructions.
pub open spec fn opening(request: Tree) -> Result<Talk, Seq<char>> {
    let none = Talk { contents: Seq::empty(), system: Seq::empty(), calls: Seq::empty() };
    if request.at("instructions"@) is Null {
        Ok(none)
    } else {
        match parts_of(request.at("instructions"@)) {
            Err(message) => Err(message),
            Ok(parts) => Ok(
                Talk { system: none.system + opening_instruction("developer"@, parts), ..none },
            ),
        }
    }
}

fn open_talk(request: &Json) -> (r: Result<Conversation, Error>)
    ensures
        outcome(r) == opening(request@),
{
    let mut talk = Conversation::new();
    let instructions = request.at("instructions");
    if !instructions.is_null() {
        let parts = content_parts(instructions)?;
        talk.initial_instruction("developer", parts);
    }
    Ok(talk)
}

/// The conversation of a request.
pub open spec fn conversation(request: Tree, key: Seq<u8>, model: Seq<char>) -> Result<
    Talk,
    Seq<char>,
> {
    match opening(request) {
        Err(message) => Err(message),
        Ok(talk) => match request.get("input"@) {
            None => Err("input is required"@),
            Some(input) => match input_items(input) {
                Err(message) => Err(message),
                Ok(items) => match talk_from(items, 0, talk, key, model) {
                    Err(message) => Err(message),
                    Ok(talk) => match closed(talk.contents) {
                        Err(message) => Err(message),
                        Ok(contents) => Ok(Talk { contents, ..talk }),
                    },
                },
            },
        },
    }
}

fn converse(request: &Json, codec: &ReasoningCodec, model: &str) -> (r: Result<Conversation, Error>)
    ensures
        outcome(r) == conversation(request@, codec.key@, model@),
{
    let talk = open_talk(request)?;
    let input = match request.get("input") {
        Some(input) => input,
        None => return Err(Error::new("input is required")),
    };
    let items = read_items(input)?;
    let talk = talk.walk(&items, codec, model)?;
    let contents = close(talk.contents)?;
    Ok(Conversation { contents, system: talk.system, calls: talk.calls })
}

/// The settings, the choice of tools and the schema of a request.
pub open spec fn configured(
    request: Tree,
    thinking: Thinking,
    model: Seq<char>,
    names: Seq<(Seq<char>, Seq<char>)>,
    any_tools: bool,
) -> Result<(Tree, Option<Tree>, Option<Tree>), Seq<char>> {
    match generation(request, thinking, model) {
        Err(message) => Err(message),
        Ok(settings) => match formatted(request, settings) {
            Err(message) => Err(message),
            Ok((settings, schema)) => match text_check(request) {
                Err(message) => Err(message),
                Ok(_) => {
                    let choice = match request.get("tool_choice"@) {
                        None => Ok(None),
                        Some(choice) => match choice_mode(choice, names) {
                            Err(message) => Err(message),
                            Ok(mode) => Ok(Some(mode)),
                        },
                    };
                    match choice {
                        Err(message) => Err(message),
                        Ok(choice) => if request.at("parallel_tool_calls"@) == Tree::Bool(false)
                            && any_tools {
                            Err(
                                "Gemini cannot enforce parallel_tool_calls:false; refusing a lossy conversion"@,
                            )
                        } else {
                            match choice {
                                None => Ok((settings, None, schema)),
                                Some((mode, selected)) => Ok(
                                    (
                                        if mode == "ANY"@ && settings.at("responseMimeType"@)
                                            == Tree::Text("application/json"@) {
                                            settings.without("responseMimeType"@).without(
                                                "responseJsonSchema"@,
                                            )
                                        } else {
                                            settings
                                        },
                                        Some(choice_config(mode, selected)),
                                        schema,
                                    ),
                                ),
                            }
                        },
                    }
                },
            },
        },
    }
}

fn configure(
    request: &Json,
    thinking: Thinking,
    model: &str,
    names: &Vec<(String, String)>,
    any_tools: bool,
) -> (r: Result<(Json, Option<Json>, Option<Json>), Error>)
    ensures
        outcome(r) == configured(request@, thinking, model@, entries(names@), any_tools),
{
    let settings = make_generation(request, thinking, model)?;
    let (settings, schema) = format_output(request, settings)?;
    check_text(request)?;
    let choice = match request.get("tool_choice") {
        None => None,
        Some(choice) => Some(read_choice(choice, names)?),
    };
    if matches!(request.at("parallel_tool_calls"), Json::Bool(false)) && any_tools {
        return Err(
            Error::new(
                "Gemini cannot enforce parallel_tool_calls:false; refusing a lossy conversion",
            ),
        );
    }
    let mut settings = settings;
    match choice {
        None => Ok((settings, None, schema)),
        Some((mode, selected)) => {
            // Forced tools produce an intermediate call, not a final JSON answer, and
            // native JSON output excludes them. The schema still governs the answer.
            if same(mode, "ANY") && settings.at("responseMimeType").is("application/json") {
                let _ = settings.remove("responseMimeType");
                let _ = settings.remove("responseJsonSchema");
            }
            Ok((settings, Some(make_choice(mode, selected)), schema))
        },
    }
}

/// A request in native form, or why it is refused.
pub open spec fn converted(
    request: Tree,
    url: Seq<char>,
    thinking: Thinking,
    key: Seq<u8>,
) -> Result<Converted, Seq<char>> {
    match request_check(request) {
        Err(message) => Err(message),
        Ok(_) => match string_of(request, "model"@) {
            Err(message) => Err(message),
            Ok(response_model) => {
                let model = native_model(response_model);
                match endpoint_of(url, model, false) {
                    Err(message) => Err(message),
                    Ok(_) => match declared(request) {
                        Err(message) => Err(message),
                        Ok(tools) => match conversation(request, key, model) {
                            Err(message) => Err(message),
                            Ok(talk) => match configured(
                                request,
                                thinking,
                                model,
                                tools.names,
                                tools.tools.len() > 0,
                            ) {
                                Err(message) => Err(message),
                                Ok((settings, choice, schema)) => {
                                    let plain = plain_body(
                                        talk.contents,
                                        settings,
                                        talk.system,
                                        tools.declarations,
                                    );
                                    let chosen = match choice {
                                        Some(choice) => plain.with("toolConfig"@, choice),
                                        None => plain,
                                    };
                                    match extended(request, chosen) {
                                        Err(message) => Err(message),
                                        Ok(body) => Ok(
                                            Converted {
                                                model,
                                                response_model,
                                                stream: request.at("stream"@) == Tree::Bool(true),
                                                body,
                                                tools: tools.tools,
                                                response_fields: repeated(request),
                                                output_schema: schema,
                                            },
                                        ),
                                    }
                                },
                            },
                        },
                    },
                }
            },
        },
    }
}

/// Converts a Responses request to a native one.
pub fn convert_request(request: &Json, config: &ProviderConfig, codec: &ReasoningCodec) -> (r: Result<
    ConvertedRequest,
    Error,
>)
    ensures
        outcome(r) == converted(request@, config.upstream_url@, config.thinking, codec.key@),
{
    check_request(request)?;
    let response_model = string(request, "model")?;
    let model = make_native_model(response_model);
    config.endpoint(model, false)?;
    let set = declare_tools(request)?;
    let talk = converse(request, codec, model)?;
    let (settings, choice, schema) = configure(
        request,
        config.thinking,
        model,
        &set.names,
        set.tools.len() > 0,
    )?;
    let mut body = make_body(talk.contents, settings, talk.system, set.declarations);
    match choice {
        Some(choice) => body.set("toolConfig", choice),
        None => {},
    }
    let body = extend_body(request, body)?;
    Ok(
        ConvertedRequest {
            model: model.to_string(),
            response_model: response_model.to_string(),
            stream: matches!(request.at("stream"), Json::Bool(true)),
            body,
            tools: set.tools,
            response_fields: repeat(request),
            output_schema: schema,
        },
    )
}

} // verus!

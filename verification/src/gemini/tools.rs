//! Tools: their native names and declarations.

use vstd::prelude::*;
use vstd::utf8::encode_utf8;
use crate::error::{outcome, Error};
use crate::gemini::parts::{empty_object, string, string_of};
use crate::outside::{digest, sha256};
use crate::table::{entries, find, find_from, get_entry, put, put_entry};
use crate::text::{
    alphanumeric, chars_of, hex, hex_text, is_alphanumeric, join2, join3, join4, push_char, same,
    text_of, trim_end, trimmed_end,
};
use crate::tree::{json_views, trees, Json, Tree};

verus! {

broadcast use json_views;

/// A tool as the request declared it.
pub struct Tool {
    pub name: String,
    pub namespace: Option<String>,
    pub custom: bool,
}

/// The view of a tool.
pub ghost struct ToolView {
    pub name: Seq<char>,
    pub namespace: Option<Seq<char>>,
    pub custom: bool,
}

impl DeepView for Tool {
    type V = ToolView;

    open spec fn deep_view(&self) -> ToolView {
        ToolView {
            name: self.name@,
            namespace: self.namespace.deep_view(),
            custom: self.custom,
        }
    }
}

/// The name of a tool within its namespace.
pub open spec fn identity(item: Tree) -> Result<Seq<char>, Seq<char>> {
    match string_of(item, "name"@) {
        Err(message) => Err(message),
        Ok(name) => Ok(
            match item.at("namespace"@).text() {
                Some(namespace) => namespace + "."@ + name,
                None => name,
            },
        ),
    }
}

pub(crate) fn tool_identity(item: &Json) -> (r: Result<String, Error>)
    ensures
        outcome(r) == identity(item@),
{
    let name = string(item, "name")?;
    match item.at("namespace").as_str() {
        Some(namespace) => Ok(join3(namespace, ".", name)),
        None => Ok(name.to_string()),
    }
}

/// A character that may stand in a native name, for any character.
pub open spec fn readable_char(c: char) -> char {
    if alphanumeric(c) || c == '_' {
        c
    } else {
        '_'
    }
}

/// The readable part of a native name: at most 32 characters.
pub open spec fn readable(name: Seq<char>) -> Seq<char> {
    Seq::new(
        if name.len() < 32 {
            name.len()
        } else {
            32
        },
        |i: int| readable_char(name[i]),
    )
}

/// The native name of a tool: readable, and told apart by a digest of the full name.
pub open spec fn native_name(name: Seq<char>) -> Seq<char> {
    "hey_"@ + readable(name) + "_"@ + hex(sha256(encode_utf8(name))).subrange(0, 16)
}

proof fn hex_length(bytes: Seq<u8>)
    ensures
        hex(bytes).len() == 2 * bytes.len(),
    decreases bytes.len(),
{
    if bytes.len() > 0 {
        hex_length(bytes.drop_last());
    }
}

pub(crate) fn native_tool_name(name: &str) -> (r: String)
    ensures
        r@ == native_name(name@),
{
    let chars = chars_of(name);
    let mut front = String::new();
    let mut i: usize = 0;
    while i < chars.len() && i < 32
        invariant
            i <= 32,
            i <= chars.len(),
            chars@ == name@,
            front@ == readable(name@).subrange(0, i as int),
        decreases 32 - i,
    {
        let c = chars[i];
        push_char(
            &mut front,
            if is_alphanumeric(c) || c == '_' {
                c
            } else {
                '_'
            },
        );
        proof {
            assert(readable(name@).subrange(0, i + 1) =~= readable(name@).subrange(
                0,
                i as int,
            ).push(readable_char(name@[i as int])));
        }
        i += 1;
    }
    proof {
        assert(readable(name@).subrange(0, i as int) =~= readable(name@));
    }
    let hash = digest(name.as_bytes());
    let digits = chars_of(hex_text(&hash).as_str());
    proof {
        hex_length(hash@);
    }
    let short = text_of(&digits, 0, 16);
    join4("hey_", front.as_str(), "_", short.as_str())
}

/// The tools of a request: what each native name stands for, the native name of
/// each full name, and the native declarations.
pub struct ToolSet {
    pub tools: Vec<(String, Tool)>,
    pub names: Vec<(String, String)>,
    pub declarations: Vec<Json>,
}

/// The view of the tools.
pub ghost struct Tools {
    pub tools: Seq<(Seq<char>, ToolView)>,
    pub names: Seq<(Seq<char>, Seq<char>)>,
    pub declarations: Seq<Tree>,
}

impl DeepView for ToolSet {
    type V = Tools;

    open spec fn deep_view(&self) -> Tools {
        Tools {
            tools: entries(self.tools@),
            names: entries(self.names@),
            declarations: trees(self.declarations@),
        }
    }
}

/// The schema of a tool's arguments.
pub open spec fn tool_schema(tool: Tree, custom: bool) -> Tree {
    if custom {
        empty_object().with("type"@, Tree::Text("object"@)).with(
            "properties"@,
            empty_object().with("input"@, empty_object().with("type"@, Tree::Text("string"@))),
        ).with("required"@, Tree::Array(seq![Tree::Text("input"@)]))
    } else {
        match tool.get("parameters"@) {
            Some(schema) => schema,
            None => empty_object().with("type"@, Tree::Text("object"@)).with(
                "properties"@,
                empty_object(),
            ),
        }
    }
}

/// The native declaration of a tool.
pub open spec fn declaration(tool: Tree, native: Seq<char>, custom: bool) -> Tree {
    let plain = empty_object().with("name"@, Tree::Text(native)).with(
        "parametersJsonSchema"@,
        tool_schema(tool, custom),
    );
    match tool.get("description"@) {
        Some(description) => plain.with("description"@, description),
        None => plain,
    }
}

/// The refusal of a tool that has no native equivalent, if any.
pub open spec fn tool_refusal(tool: Tree, kind: Seq<char>) -> Option<Seq<char>> {
    if kind != "function"@ && kind != "custom"@ {
        Some("OpenAI hosted tool "@ + kind + " has no native Gemini equivalent"@)
    } else if tool.at("strict"@) == Tree::Bool(true) {
        Some("Strict function schema enforcement has no Gemini equivalent"@)
    } else if tool.at("format"@).at("type"@).text() matches Some(format) && format != "text"@ {
        Some("Custom grammar enforcement has no Gemini equivalent"@)
    } else {
        None
    }
}

impl Tools {
    /// Adds one tool under a namespace.
    pub open spec fn added(self, tool: Tree, kind: Seq<char>, namespace: Seq<char>) -> Result<
        Tools,
        Seq<char>,
    > {
        match tool_refusal(tool, kind) {
            Some(message) => Err(message),
            None => match string_of(tool, "name"@) {
                Err(message) => Err(message),
                Ok(own) => {
                    let name = namespace + own;
                    if find(self.names, name) is Some {
                        Err("Duplicate tool name "@ + name)
                    } else {
                        let native = native_name(name);
                        let custom = kind == "custom"@;
                        Ok(
                            Tools {
                                declarations: self.declarations.push(
                                    declaration(tool, native, custom),
                                ),
                                names: put(self.names, name, native),
                                tools: put(
                                    self.tools,
                                    native,
                                    ToolView {
                                        name: own,
                                        namespace: if namespace.len() == 0 {
                                            None
                                        } else {
                                            Some(trimmed_end(namespace, '.'))
                                        },
                                        custom,
                                    },
                                ),
                            },
                        )
                    }
                },
            },
        }
    }
}

/// Adds the tools from `from` on, those of a namespace under its name.
pub open spec fn tools_added(
    list: Seq<Tree>,
    from: int,
    namespace: Seq<char>,
    state: Tools,
) -> Result<Tools, Seq<char>>
    decreases list, list.len() - from,
    via tools_added_decreases
{
    if from < 0 || from >= list.len() {
        Ok(state)
    } else {
        match string_of(list[from], "type"@) {
            Err(message) => Err(message),
            Ok(kind) => if kind == "namespace"@ {
                match string_of(list[from], "name"@) {
                    Err(message) => Err(message),
                    Ok(own) => match list[from].at("tools"@).items() {
                        None => Err("namespace.tools must be an array"@),
                        Some(inner) => match tools_added(
                            inner,
                            0,
                            namespace + own + "."@,
                            state,
                        ) {
                            Err(message) => Err(message),
                            Ok(wider) => tools_added(list, from + 1, namespace, wider),
                        },
                    },
                }
            } else {
                match state.added(list[from], kind, namespace) {
                    Err(message) => Err(message),
                    Ok(wider) => tools_added(list, from + 1, namespace, wider),
                }
            },
        }
    }
}

proof fn found_is_smaller(fields: Seq<(Seq<char>, Tree)>, key: Seq<char>, from: int)
    requires
        0 <= from,
    ensures
        find_from(fields, key, from) matches Some(value) ==> decreases_to!(fields => value),
    decreases fields.len() - from,
{
    if from < fields.len() {
        assert(decreases_to!(fields => fields[from]));
        assert(decreases_to!(fields[from] => fields[from].1));
        found_is_smaller(fields, key, from + 1);
    }
}

/// What an array inside a member holds is smaller than the value.
pub proof fn inner_items_are_smaller(value: Tree, key: Seq<char>)
    ensures
        value.at(key).items() matches Some(inner) ==> decreases_to!(value => inner),
{
    if value is Object {
        let fields = value->Object_0;
        found_is_smaller(fields, key, 0);
        assert(decreases_to!(value => value->Object_0));
        if value.at(key) is Array {
            assert(decreases_to!(value.at(key) => value.at(key)->Array_0));
        }
    }
}

#[via_fn]
proof fn tools_added_decreases(list: Seq<Tree>, from: int, namespace: Seq<char>, state: Tools) {
    if 0 <= from < list.len() {
        inner_items_are_smaller(list[from], "tools"@);
        assert(decreases_to!(list => list[from]));
    }
}

fn make_schema(tool: &Json, custom: bool) -> (r: Json)
    ensures
        r@ == tool_schema(tool@, custom),
{
    if custom {
        let mut required: Vec<Json> = Vec::new();
        required.push(Json::text("input"));
        proof {
            assert(trees(required@) =~= seq![Tree::Text("input"@)]);
        }
        Json::object().with("type", Json::text("object")).with(
            "properties",
            Json::object().with("input", Json::object().with("type", Json::text("string"))),
        ).with("required", Json::Array(required))
    } else {
        match tool.get("parameters") {
            Some(schema) => schema.copy(),
            None => Json::object().with("type", Json::text("object")).with(
                "properties",
                Json::object(),
            ),
        }
    }
}

fn declare(tool: &Json, native: &str, custom: bool) -> (r: Json)
    ensures
        r@ == declaration(tool@, native@, custom),
{
    let mut plain = Json::object().with("name", Json::text(native)).with(
        "parametersJsonSchema",
        make_schema(tool, custom),
    );
    match tool.get("description") {
        Some(description) => plain.set("description", description.copy()),
        None => {},
    }
    plain
}

fn refuse_tool(tool: &Json, kind: &str) -> (r: Option<Error>)
    ensures
        match r {
            Some(error) => tool_refusal(tool@, kind@) == Some(error.message@),
            None => tool_refusal(tool@, kind@) is None,
        },
{
    if !same(kind, "function") && !same(kind, "custom") {
        return Some(
            Error {
                message: join3("OpenAI hosted tool ", kind, " has no native Gemini equivalent"),
            },
        );
    }
    if matches!(tool.at("strict"), Json::Bool(true)) {
        return Some(Error::new("Strict function schema enforcement has no Gemini equivalent"));
    }
    match tool.at("format").at("type").as_str() {
        Some(format) => if !same(format, "text") {
            return Some(Error::new("Custom grammar enforcement has no Gemini equivalent"));
        },
        None => {},
    }
    None
}

impl ToolSet {
    /// No tools.
    pub fn new() -> (r: ToolSet)
        ensures
            r.deep_view() == (Tools {
                tools: Seq::empty(),
                names: Seq::empty(),
                declarations: Seq::empty(),
            }),
    {
        let r = ToolSet { tools: Vec::new(), names: Vec::new(), declarations: Vec::new() };
        proof {
            assert(entries(r.tools@) =~= Seq::empty());
            assert(entries(r.names@) =~= Seq::empty());
        }
        r
    }

    fn add(self, tool: &Json, kind: &str, namespace: &str) -> (r: Result<ToolSet, Error>)
        ensures
            outcome(r) == self.deep_view().added(tool@, kind@, namespace@),
    {
        let mut set = self;
        match refuse_tool(tool, kind) {
            Some(error) => return Err(error),
            None => {},
        }
        let own = string(tool, "name")?;
        let name = join2(namespace, own);
        if get_entry(&set.names, name.as_str()).is_some() {
            return Err(Error { message: join2("Duplicate tool name ", name.as_str()) });
        }
        let native = native_tool_name(name.as_str());
        let custom = same(kind, "custom");
        set.declarations.push(declare(tool, native.as_str(), custom));
        put_entry(&mut set.names, name.as_str(), native.clone());
        let home = if namespace.is_empty() {
            None
        } else {
            Some(trim_end(namespace, '.').to_string())
        };
        put_entry(
            &mut set.tools,
            native.as_str(),
            Tool { name: own.to_string(), namespace: home, custom },
        );
        Ok(set)
    }

    /// Adds the tools of a list, those of a namespace under its name.
    pub fn add_tools(self, list: &Vec<Json>, namespace: &str) -> (r: Result<ToolSet, Error>)
        ensures
            outcome(r) == tools_added(trees(list@), 0, namespace@, self.deep_view()),
        decreases trees(list@),
    {
        let ghost whole = tools_added(trees(list@), 0, namespace@, self.deep_view());
        let mut set = self;
        let mut i: usize = 0;
        while i < list.len()
            invariant
                i <= list.len(),
                whole == tools_added(trees(list@), 0, namespace@, self.deep_view()),
                whole == tools_added(trees(list@), i as int, namespace@, set.deep_view()),
            decreases list.len() - i,
        {
            let tool = &list[i];
            let kind = string(tool, "type")?;
            if same(kind, "namespace") {
                let own = string(tool, "name")?;
                let inner = match tool.at("tools").as_array() {
                    Some(inner) => inner,
                    None => return Err(Error::new("namespace.tools must be an array")),
                };
                proof {
                    inner_items_are_smaller(tool@, "tools"@);
                    assert(trees(list@)[i as int] == tool@);
                    assert(decreases_to!(trees(list@) => trees(list@)[i as int]));
                }
                let deeper = join3(namespace, own, ".");
                set = set.add_tools(inner, deeper.as_str())?;
            } else {
                set = set.add(tool, kind, namespace)?;
            }
            i += 1;
        }
        Ok(set)
    }
}

} // verus!

//! Validates known native structures without rejecting future native extensions.

use vstd::prelude::*;
use crate::error::{both, ensure, ensured, outcome, Error};
use crate::text::join3;
use crate::tree::{json_views, trees, Json, Tree};

verus! {

broadcast use json_views;

/// A member that, where present, must be a string.
pub open spec fn string_field(value: Tree, key: Seq<char>) -> Result<(), Seq<char>> {
    match value.get(key) {
        Some(v) => ensured(v is Text, "Gemini "@ + key + " must be a string"@),
        None => Ok(()),
    }
}

/// A member that, where present, must be a boolean.
pub open spec fn boolean_field(value: Tree, key: Seq<char>) -> Result<(), Seq<char>> {
    match value.get(key) {
        Some(v) => ensured(v is Bool, "Gemini "@ + key + " must be a boolean"@),
        None => Ok(()),
    }
}

fn check_string(value: &Json, key: &str) -> (r: Result<(), Error>)
    ensures
        outcome(r) == string_field(value@, key@),
{
    match value.get(key) {
        Some(v) => if v.is_string() {
            Ok(())
        } else {
            Err(Error { message: join3("Gemini ", key, " must be a string") })
        },
        None => Ok(()),
    }
}

fn check_boolean(value: &Json, key: &str) -> (r: Result<(), Error>)
    ensures
        outcome(r) == boolean_field(value@, key@),
{
    match value.get(key) {
        Some(v) => if v.as_bool().is_some() {
            Ok(())
        } else {
            Err(Error { message: join3("Gemini ", key, " must be a boolean") })
        },
        None => Ok(()),
    }
}

/// How many payloads a native part carries.
pub open spec fn payload_count(part: Tree) -> nat {
    let one = |key: Seq<char>|
        if part.has(key) {
            1nat
        } else {
            0nat
        };
    one("text"@) + one("functionCall"@) + one("functionResponse"@) + one("inlineData"@) + one(
        "fileData"@,
    ) + one("executableCode"@) + one("codeExecutionResult"@)
}

fn count(part: &Json, key: &str) -> (r: usize)
    ensures
        r == if part@.has(key@) {
            1nat
        } else {
            0nat
        },
{
    if part.has(key) {
        1
    } else {
        0
    }
}

fn count_payloads(part: &Json) -> (r: usize)
    ensures
        r == payload_count(part@),
{
    count(part, "text") + count(part, "functionCall") + count(part, "functionResponse") + count(
        part,
        "inlineData",
    ) + count(part, "fileData") + count(part, "executableCode") + count(part, "codeExecutionResult")
}

/// The check of the partial arguments from `from` on.
pub open spec fn arguments_check(args: Seq<Tree>, from: int) -> Result<(), Seq<char>>
    decreases args.len() - from,
{
    if from < 0 || from >= args.len() {
        Ok(())
    } else {
        both(
            both(
                ensured(args[from] is Object, "Gemini partial argument must be an object"@),
                both(
                    string_field(args[from], "jsonPath"@),
                    boolean_field(args[from], "willContinue"@),
                ),
            ),
            arguments_check(args, from + 1),
        )
    }
}

/// The check of a native function call.
pub open spec fn call_check(call: Tree) -> Result<(), Seq<char>> {
    both(
        both(
            ensured(call is Object, "Gemini functionCall must be an object"@),
            both(
                string_field(call, "name"@),
                both(string_field(call, "id"@), boolean_field(call, "willContinue"@)),
            ),
        ),
        both(
            match call.get("args"@) {
                Some(args) => ensured(
                    args is Object,
                    "Gemini functionCall.args must be an object"@,
                ),
                None => Ok(()),
            },
            match call.get("partialArgs"@) {
                Some(args) => match args.items() {
                    Some(items) => arguments_check(items, 0),
                    None => Err("Gemini partialArgs must be an array"@),
                },
                None => Ok(()),
            },
        ),
    )
}

fn check_call(call: &Json) -> (r: Result<(), Error>)
    ensures
        outcome(r) == call_check(call@),
{
    ensure(call.is_object(), "Gemini functionCall must be an object")?;
    check_string(call, "name")?;
    check_string(call, "id")?;
    check_boolean(call, "willContinue")?;
    match call.get("args") {
        Some(args) => ensure(args.is_object(), "Gemini functionCall.args must be an object")?,
        None => {},
    }
    match call.get("partialArgs") {
        Some(args) => {
            match args.as_array() {
                Some(items) => {
                    let mut i: usize = 0;
                    while i < items.len()
                        invariant
                            i <= items.len(),
                            arguments_check(trees(items@), 0) == arguments_check(
                                trees(items@),
                                i as int,
                            ),
                            call_check(call@) == arguments_check(trees(items@), 0),
                        decreases items.len() - i,
                    {
                        ensure(items[i].is_object(), "Gemini partial argument must be an object")?;
                        check_string(&items[i], "jsonPath")?;
                        check_boolean(&items[i], "willContinue")?;
                        i += 1;
                    }
                    Ok(())
                },
                None => Err(Error::new("Gemini partialArgs must be an array")),
            }
        },
        None => Ok(()),
    }
}

/// The check of a native part.
pub open spec fn part_check(part: Tree) -> Result<(), Seq<char>> {
    both(
        both(
            ensured(part is Object, "Gemini part must be an object"@),
            both(
                string_field(part, "text"@),
                both(
                    string_field(part, "thoughtSignature"@),
                    boolean_field(part, "thought"@),
                ),
            ),
        ),
        both(
            ensured(payload_count(part) <= 1, "Gemini part has conflicting payloads"@),
            match part.get("functionCall"@) {
                Some(call) => call_check(call),
                None => Ok(()),
            },
        ),
    )
}

fn check_part(part: &Json) -> (r: Result<(), Error>)
    ensures
        outcome(r) == part_check(part@),
{
    ensure(part.is_object(), "Gemini part must be an object")?;
    check_string(part, "text")?;
    check_string(part, "thoughtSignature")?;
    check_boolean(part, "thought")?;
    ensure(count_payloads(part) <= 1, "Gemini part has conflicting payloads")?;
    match part.get("functionCall") {
        Some(call) => check_call(call),
        None => Ok(()),
    }
}

/// The check of the native parts from `from` on.
pub open spec fn parts_check(parts: Seq<Tree>, from: int) -> Result<(), Seq<char>>
    decreases parts.len() - from,
{
    if from < 0 || from >= parts.len() {
        Ok(())
    } else {
        both(part_check(parts[from]), parts_check(parts, from + 1))
    }
}

/// The check of a native content: its role, which may be left out unless it is
/// required, and its parts.
pub open spec fn content_check(value: Tree, require_role: bool) -> Result<(), Seq<char>> {
    both(
        ensured(value is Object, "Gemini content must be an object"@),
        both(
            ensured(
                !require_role && !value.has("role"@) || value.at("role"@) == Tree::Text("user"@)
                    || value.at("role"@) == Tree::Text("model"@),
                "Invalid Gemini content role"@,
            ),
            match value.at("parts"@).items() {
                Some(parts) => parts_check(parts, 0),
                None => Err("Gemini content.parts must be an array"@),
            },
        ),
    )
}

/// Checks a native content.
pub fn content(value: &Json, require_role: bool) -> (r: Result<(), Error>)
    ensures
        outcome(r) == content_check(value@, require_role),
{
    ensure(value.is_object(), "Gemini content must be an object")?;
    let role = value.at("role");
    ensure(
        !require_role && !value.has("role") || role.is("user") || role.is("model"),
        "Invalid Gemini content role",
    )?;
    match value.at("parts").as_array() {
        Some(parts) => {
            let mut i: usize = 0;
            while i < parts.len()
                invariant
                    i <= parts.len(),
                    content_check(value@, require_role) == parts_check(trees(parts@), i as int),
                decreases parts.len() - i,
            {
                check_part(&parts[i])?;
                i += 1;
            }
            Ok(())
        },
        None => Err(Error::new("Gemini content.parts must be an array")),
    }
}

/// The check of a response's candidate.
pub open spec fn candidate_check(candidate: Tree) -> Result<(), Seq<char>> {
    both(
        ensured(candidate is Object, "Gemini candidate must be an object"@),
        both(
            match candidate.get("index"@) {
                Some(index) => ensured(
                    index.natural() == Some(0u64),
                    "Gemini candidate index must be zero"@,
                ),
                None => Ok(()),
            },
            both(
                string_field(candidate, "finishReason"@),
                match candidate.get("content"@) {
                    Some(c) => both(
                        content_check(c, false),
                        ensured(
                            !c.has("role"@) || c.at("role"@) == Tree::Text("model"@),
                            "Gemini response role must be model"@,
                        ),
                    ),
                    None => Ok(()),
                },
            ),
        ),
    )
}

fn check_candidate(candidate: &Json) -> (r: Result<(), Error>)
    ensures
        outcome(r) == candidate_check(candidate@),
{
    ensure(candidate.is_object(), "Gemini candidate must be an object")?;
    match candidate.get("index") {
        Some(index) => ensure(
            matches!(index.as_u64(), Some(0)),
            "Gemini candidate index must be zero",
        )?,
        None => {},
    }
    check_string(candidate, "finishReason")?;
    match candidate.get("content") {
        Some(c) => {
            content(c, false)?;
            ensure(
                !c.has("role") || c.at("role").is("model"),
                "Gemini response role must be model",
            )
        },
        None => Ok(()),
    }
}

/// A token count that, where present, must be a natural number.
pub open spec fn natural_field(usage: Tree, key: Seq<char>) -> Result<(), Seq<char>> {
    match usage.get(key) {
        Some(v) => ensured(
            v.natural() is Some,
            "Gemini "@ + key + " must be a nonnegative integer"@,
        ),
        None => Ok(()),
    }
}

fn check_natural(usage: &Json, key: &str) -> (r: Result<(), Error>)
    ensures
        outcome(r) == natural_field(usage@, key@),
{
    match usage.get(key) {
        Some(v) => if v.as_u64().is_some() {
            Ok(())
        } else {
            Err(Error { message: join3("Gemini ", key, " must be a nonnegative integer") })
        },
        None => Ok(()),
    }
}

/// The check of a response's token counts.
pub open spec fn usage_check(value: Tree) -> Result<(), Seq<char>> {
    match value.get("usageMetadata"@) {
        Some(usage) => both(
            ensured(usage is Object, "Gemini usageMetadata must be an object"@),
            both(
                natural_field(usage, "promptTokenCount"@),
                both(
                    natural_field(usage, "candidatesTokenCount"@),
                    both(
                        natural_field(usage, "thoughtsTokenCount"@),
                        both(
                            natural_field(usage, "cachedContentTokenCount"@),
                            natural_field(usage, "totalTokenCount"@),
                        ),
                    ),
                ),
            ),
        ),
        None => Ok(()),
    }
}

fn check_usage(value: &Json) -> (r: Result<(), Error>)
    ensures
        outcome(r) == usage_check(value@),
{
    match value.get("usageMetadata") {
        Some(usage) => {
            ensure(usage.is_object(), "Gemini usageMetadata must be an object")?;
            check_natural(usage, "promptTokenCount")?;
            check_natural(usage, "candidatesTokenCount")?;
            check_natural(usage, "thoughtsTokenCount")?;
            check_natural(usage, "cachedContentTokenCount")?;
            check_natural(usage, "totalTokenCount")
        },
        None => Ok(()),
    }
}

/// The check of a response's candidates: at most one.
pub open spec fn candidates_check(value: Tree) -> Result<(), Seq<char>> {
    match value.get("candidates"@) {
        Some(candidates) => match candidates.items() {
            Some(items) => if items.len() > 1 {
                Err("Cannot discard multiple Gemini candidates"@)
            } else if items.len() == 1 {
                candidate_check(items[0])
            } else {
                Ok(())
            },
            None => Err("Gemini candidates must be an array"@),
        },
        None => Ok(()),
    }
}

fn check_candidates(value: &Json) -> (r: Result<(), Error>)
    ensures
        outcome(r) == candidates_check(value@),
{
    match value.get("candidates") {
        Some(candidates) => match candidates.as_array() {
            Some(items) => {
                if items.len() > 1 {
                    Err(Error::new("Cannot discard multiple Gemini candidates"))
                } else if items.len() == 1 {
                    check_candidate(&items[0])
                } else {
                    Ok(())
                }
            },
            None => Err(Error::new("Gemini candidates must be an array")),
        },
        None => Ok(()),
    }
}

/// The check of a native response.
pub open spec fn response_check(value: Tree) -> Result<(), Seq<char>> {
    both(
        both(
            ensured(value is Object, "Gemini response must be an object"@),
            candidates_check(value),
        ),
        both(
            usage_check(value),
            match value.get("promptFeedback"@) {
                Some(feedback) => both(
                    ensured(feedback is Object, "Gemini promptFeedback must be an object"@),
                    string_field(feedback, "blockReason"@),
                ),
                None => Ok(()),
            },
        ),
    )
}

/// Checks a native response.
pub fn response(value: &Json) -> (r: Result<(), Error>)
    ensures
        outcome(r) == response_check(value@),
{
    ensure(value.is_object(), "Gemini response must be an object")?;
    check_candidates(value)?;
    check_usage(value)?;
    match value.get("promptFeedback") {
        Some(feedback) => {
            ensure(feedback.is_object(), "Gemini promptFeedback must be an object")?;
            check_string(feedback, "blockReason")
        },
        None => Ok(()),
    }
}

} // verus!

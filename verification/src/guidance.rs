//! A user-level reminder to skip work that safeguards block.

use vstd::prelude::*;
use crate::gemini::conversation::list_of;
use crate::gemini::parts::empty_object;
use crate::gemini::replay::copy_all;
use crate::members::set_then_at;
use crate::text::{same, trim_end, trimmed_end};
use crate::tree::{json_views, trees, Json, Tree};

verus! {

broadcast use json_views;

/// An explicit user preference, never a replacement for provider or tool safeguards.
pub const MESSAGE: &'static str = "[User preference supplied by hey-proxy]\nIf a security or safety warning blocks an action, respect the warning and skip that action and its blocked scope. Avoid security-sensitive areas when they are not needed for the task. Do not bypass safeguards, hide warnings, or repeatedly retry the blocked action. Continue with independent, permitted parts of the user's task when possible, and clearly report what was skipped. If no permitted work remains, explain the blocker and stop.";

/// A code with which a provider blocks work for safety.
pub open spec fn security_code(code: Seq<char>) -> bool {
    code == "cyber_policy"@ || code == "misalignment_policy_violation"@ || code == "bio_policy"@ || code == "content_policy_violation"@ || code == "safety_violation"@ || code == "content_filter"@
}

/// Whether a provider blocked work for safety.
pub fn is_security_block(code: &str) -> (r: bool)
    ensures
        r == security_code(code@),
{
    same(code, "cyber_policy") || same(code, "misalignment_policy_violation") || same(code, "bio_policy") || same(code, "content_policy_violation") || same(code, "safety_violation") || same(code, "content_filter")
}

/// Whether a message is the reminder.
pub open spec fn reminds(message: Tree) -> bool {
    message.at("role"@) == Tree::Text("user"@) && message.at("content"@) == Tree::Text(MESSAGE@)
}

fn is_reminder(message: &Json) -> (r: bool)
    ensures
        r == reminds(message@),
{
    message.at("role").is("user") && message.at("content").is(MESSAGE)
}

/// The reminder.
pub open spec fn reminder() -> Tree {
    empty_object().with("role"@, Tree::Text("user"@)).with("content"@, Tree::Text(MESSAGE@))
}

/// The messages other than reminders, from `from` on.
pub open spec fn unreminded(messages: Seq<Tree>, from: int, kept: Seq<Tree>) -> Seq<Tree>
    decreases messages.len() - from,
{
    if from < 0 || from >= messages.len() {
        kept
    } else if reminds(messages[from]) {
        unreminded(messages, from + 1, kept)
    } else {
        unreminded(messages, from + 1, kept.push(messages[from]))
    }
}

/// How many reminders there are from `from` on.
pub open spec fn reminders(messages: Seq<Tree>, from: int) -> nat
    decreases messages.len() - from,
{
    if from < 0 || from >= messages.len() {
        0
    } else {
        (if reminds(messages[from]) {
            1nat
        } else {
            0nat
        }) + reminders(messages, from + 1)
    }
}

/// Whether the one reminder stands last.
pub open spec fn reminded_last(messages: Seq<Tree>) -> bool {
    messages.len() > 0 && reminds(messages.last()) && reminders(messages, 0) == 1
}

/// The member that holds the messages of a request, and the request with its input as
/// messages.
pub open spec fn conversation_of(path: Seq<char>, value: Tree) -> Option<(Tree, Seq<char>)> {
    if !(value is Object) {
        None
    } else if trimmed_end(path, '/') == "/v1/responses"@ {
        if value.at("type"@).text() matches Some(kind) && kind != "response.create"@ {
            None
        } else {
            match value.get("input"@) {
                Some(Tree::Text(text)) => Some(
                    (
                        value.with(
                            "input"@,
                            Tree::Array(
                                seq![
                                    empty_object().with("role"@, Tree::Text("user"@)).with(
                                        "content"@,
                                        Tree::Text(text),
                                    ),
                                ],
                            ),
                        ),
                        "input"@,
                    ),
                ),
                Some(Tree::Array(_)) => Some((value, "input"@)),
                Some(_) => None,
                None => if value.has("model"@) || value.has("previous_response_id"@)
                    || value.at("type"@) == Tree::Text("response.create"@) {
                    Some((value.with("input"@, Tree::Array(Seq::empty())), "input"@))
                } else {
                    None
                },
            }
        }
    } else if trimmed_end(path, '/') == "/v1/chat/completions"@ && value.at("messages"@) is Array {
        Some((value, "messages"@))
    } else {
        None
    }
}

/// A request with one reminder as its last message, where it is of a kind that can
/// carry one and does not carry it yet.
pub open spec fn guided(path: Seq<char>, value: Tree) -> Option<Tree> {
    match conversation_of(path, value) {
        None => None,
        Some((talk, field)) => {
            let messages = list_of(talk.at(field));
            if reminded_last(messages) {
                None
            } else {
                Some(
                    talk.with(
                        field,
                        Tree::Array(unreminded(messages, 0, Seq::empty()).push(reminder())),
                    ),
                )
            }
        },
    }
}

fn open_conversation(path: &str, value: &Json) -> (r: Option<(Json, &'static str)>)
    ensures
        r.deep_view() == conversation_of(path@, value@),
{
    if !value.is_object() {
        return None;
    }
    let place = trim_end(path, '/');
    if same(place, "/v1/responses") {
        match value.at("type").as_str() {
            Some(kind) => if !same(kind, "response.create") {
                return None;
            },
            None => {},
        }
        match value.get("input") {
            Some(input) => {
                match input.as_str() {
                    Some(text) => {
                        let message = Json::object().with("role", Json::text("user")).with(
                            "content",
                            Json::text(text),
                        );
                        let mut list: Vec<Json> = Vec::new();
                        let ghost shown = message@;
                        list.push(message);
                        proof {
                            assert(trees(list@) =~= seq![shown]);
                        }
                        Some((value.copy().with("input", Json::Array(list)), "input"))
                    },
                    None => if input.is_array() {
                        Some((value.copy(), "input"))
                    } else {
                        None
                    },
                }
            },
            None => {
                if value.has("model") || value.has("previous_response_id") || value.at("type").is(
                    "response.create",
                ) {
                    Some((value.copy().with("input", Json::Array(Vec::new())), "input"))
                } else {
                    None
                }
            },
        }
    } else if same(place, "/v1/chat/completions") && value.at("messages").is_array() {
        Some((value.copy(), "messages"))
    } else {
        None
    }
}

fn drop_reminders(messages: &Vec<Json>) -> (r: Vec<Json>)
    ensures
        trees(r@) == unreminded(trees(messages@), 0, Seq::empty()),
{
    let mut kept: Vec<Json> = Vec::new();
    let mut i: usize = 0;
    while i < messages.len()
        invariant
            i <= messages.len(),
            unreminded(trees(messages@), 0, Seq::empty()) == unreminded(
                trees(messages@),
                i as int,
                trees(kept@),
            ),
        decreases messages.len() - i,
    {
        if !is_reminder(&messages[i]) {
            kept.push(messages[i].copy());
        }
        i += 1;
    }
    kept
}

fn has_reminder_last(messages: &Vec<Json>) -> (r: bool)
    ensures
        r == reminded_last(trees(messages@)),
{
    if messages.len() == 0 || !is_reminder(&messages[messages.len() - 1]) {
        return false;
    }
    let mut count: usize = 0;
    let mut i: usize = 0;
    while i < messages.len()
        invariant
            count <= i <= messages.len(),
            reminders(trees(messages@), 0) == count + reminders(trees(messages@), i as int),
        decreases messages.len() - i,
    {
        if is_reminder(&messages[i]) {
            count += 1;
        }
        i += 1;
    }
    count == 1
}

/// Keeps one user-level reminder at the end of each supported request. Never edits the
/// user's other messages, higher-priority instructions, or provider errors.
pub fn apply(path: &str, value: &mut Json) -> (r: bool)
    ensures
        match guided(path@, old(value)@) {
            Some(changed) => r && final(value)@ == changed,
            None => !r && final(value)@ == match conversation_of(path@, old(value)@) {
                Some((talk, _)) => talk,
                None => old(value)@,
            },
        },
{
    let (talk, field) = match open_conversation(path, value) {
        Some(found) => found,
        None => return false,
    };
    let messages = match talk.at(field).as_array() {
        Some(messages) => copy_all(messages),
        None => Vec::new(),
    };
    if has_reminder_last(&messages) {
        *value = talk;
        return false;
    }
    let mut kept = drop_reminders(&messages);
    kept.push(
        Json::object().with("role", Json::text("user")).with("content", Json::text(MESSAGE)),
    );
    *value = talk.with(field, Json::Array(kept));
    true
}

/// Whether one of the messages from `from` on is the reminder.
pub open spec fn any_reminder(messages: Seq<Tree>, from: int) -> bool
    decreases messages.len() - from,
{
    0 <= from < messages.len() && (reminds(messages[from]) || any_reminder(messages, from + 1))
}

/// Whether a request carries the reminder.
pub open spec fn carries(value: Tree) -> bool {
    any_reminder(list_of(value.at("input"@)), 0) || any_reminder(
        list_of(value.at("messages"@)),
        0,
    )
}

fn has_reminder(value: &Json) -> (r: bool)
    ensures
        r == any_reminder(list_of(value@), 0),
{
    let messages = match value.as_array() {
        Some(messages) => messages,
        None => return false,
    };
    let mut i: usize = 0;
    while i < messages.len()
        invariant
            i <= messages.len(),
            list_of(value@) == trees(messages@),
            any_reminder(trees(messages@), 0) == any_reminder(trees(messages@), i as int),
        decreases messages.len() - i,
    {
        if is_reminder(&messages[i]) {
            return true;
        }
        i += 1;
    }
    false
}

/// Whether a request carries the reminder.
pub fn present(value: &Json) -> (r: bool)
    ensures
        r == carries(value@),
{
    has_reminder(value.at("input")) || has_reminder(value.at("messages"))
}

// ---- laws --------------------------------------------------------------------------

proof fn unreminded_has_none(messages: Seq<Tree>, from: int, kept: Seq<Tree>)
    requires
        0 <= from,
        forall|i: int| 0 <= i < kept.len() ==> !reminds(#[trigger] kept[i]),
    ensures
        forall|i: int|
            0 <= i < unreminded(messages, from, kept).len() ==> !reminds(
                #[trigger] unreminded(messages, from, kept)[i],
            ),
    decreases messages.len() - from,
{
    let all = unreminded(messages, from, kept);
    if from < messages.len() {
        let next = if reminds(messages[from]) {
            kept
        } else {
            kept.push(messages[from])
        };
        unreminded_has_none(messages, from + 1, next);
        assert(all == unreminded(messages, from + 1, next));
    } else {
        assert(all == kept);
    }
}

proof fn reminders_counted(messages: Seq<Tree>, from: int)
    requires
        0 <= from < messages.len(),
        reminds(messages.last()),
        forall|i: int| 0 <= i < messages.len() - 1 ==> !reminds(#[trigger] messages[i]),
    ensures
        reminders(messages, from) == 1,
    decreases messages.len() - from,
{
    reveal_with_fuel(reminders, 2);
    if from + 1 < messages.len() {
        reminders_counted(messages, from + 1);
    }
}

proof fn reminder_reminds()
    ensures
        reminds(reminder()),
{
    let role = Tree::Object(Seq::<(Seq<char>, Tree)>::empty()).with(
        "role"@,
        Tree::Text("user"@),
    );
    reveal_strlit("role");
    reveal_strlit("content");
    assert("role"@.len() != "content"@.len());
    crate::table::put_then_find(
        Seq::<(Seq<char>, Tree)>::empty(),
        "role"@,
        Tree::Text("user"@),
    );
    crate::table::put_then_find(role->Object_0, "content"@, Tree::Text(MESSAGE@));
    crate::table::put_keeps_others(role->Object_0, "content"@, Tree::Text(MESSAGE@), "role"@);
}

/// The messages of a guided request end with the one reminder: to guide them again would
/// change nothing.
pub proof fn guidance_is_idempotent(messages: Seq<Tree>)
    ensures
        reminded_last(unreminded(messages, 0, Seq::empty()).push(reminder())),
{
    let kept = unreminded(messages, 0, Seq::empty());
    let all = kept.push(reminder());
    unreminded_has_none(messages, 0, Seq::empty());
    reminder_reminds();
    assert forall|i: int| 0 <= i < all.len() - 1 implies !reminds(#[trigger] all[i]) by {
        assert(all[i] == kept[i]);
    }
    reminders_counted(all, 0);
}

/// A guided request, guided again, stays as it is.
pub proof fn guided_once_is_enough(path: Seq<char>, value: Tree)
    requires
        guided(path, value) is Some,
    ensures
        guided(path, guided(path, value)->Some_0) is None,
{
    let (talk, field) = conversation_of(path, value)->Some_0;
    let messages = list_of(talk.at(field));
    let list = Tree::Array(unreminded(messages, 0, Seq::empty()).push(reminder()));
    let next = guided(path, value)->Some_0;
    guidance_is_idempotent(messages);
    crate::table::put_then_find(talk->Object_0, field, list);
    reveal_strlit("input");
    reveal_strlit("type");
    reveal_strlit("messages");
    assert("input"@.len() != "type"@.len());
    assert("messages"@.len() != "type"@.len());
    if field == "input"@ {
        crate::table::put_keeps_others(talk->Object_0, field, list, "type"@);
        if talk != value {
            match value.get("input"@) {
                Some(Tree::Text(text)) => {
                    crate::table::put_keeps_others(
                        value->Object_0,
                        "input"@,
                        talk.at("input"@),
                        "type"@,
                    );
                    crate::table::put_then_find(
                        value->Object_0,
                        "input"@,
                        Tree::Array(
                            seq![
                                empty_object().with("role"@, Tree::Text("user"@)).with(
                                    "content"@,
                                    Tree::Text(text),
                                ),
                            ],
                        ),
                    );
                },
                _ => {
                    crate::table::put_then_find(
                        value->Object_0,
                        "input"@,
                        Tree::Array(Seq::empty()),
                    );
                    crate::table::put_keeps_others(
                        value->Object_0,
                        "input"@,
                        Tree::Array(Seq::empty()),
                        "type"@,
                    );
                },
            }
        }
        assert(next.at("type"@) == value.at("type"@));
        assert(next.get("input"@) == Some(list));
        assert(conversation_of(path, next) == Some((next, "input"@)));
    } else {
        assert(next.get("messages"@) == Some(list));
        assert(conversation_of(path, next) == Some((next, "messages"@)));
    }
}

proof fn clean_stays(messages: Seq<Tree>, from: int, kept: Seq<Tree>)
    requires
        0 <= from <= messages.len(),
        forall|i: int| from <= i < messages.len() ==> !reminds(#[trigger] messages[i]),
    ensures
        unreminded(messages, from, kept) == kept + messages.subrange(from, messages.len() as int),
        unreminded(messages.push(reminder()), from, kept) == kept + messages.subrange(
            from,
            messages.len() as int,
        ),
    decreases messages.len() - from,
{
    let longer = messages.push(reminder());
    let rest = messages.subrange(from, messages.len() as int);
    if from < messages.len() {
        clean_stays(messages, from + 1, kept.push(messages[from]));
        assert(longer[from] == messages[from]);
        assert(kept + rest =~= kept.push(messages[from]) + messages.subrange(
            from + 1,
            messages.len() as int,
        ));
    } else {
        reminder_reminds();
        reveal_with_fuel(unreminded, 2);
        assert(longer[from] == reminder());
        assert(kept + rest =~= kept);
    }
}

/// Guidance keeps every message that is no reminder, in its order.
pub proof fn messages_are_kept(path: Seq<char>, value: Tree, talk: Tree, field: Seq<char>, done: Tree)
    requires
        conversation_of(path, value) == Some((talk, field)),
        guided(path, value) == Some(done),
    ensures
        unreminded(list_of(done.at(field)), 0, Seq::empty()) == unreminded(
            list_of(talk.at(field)),
            0,
            Seq::empty(),
        ),
{
    let messages = list_of(talk.at(field));
    let kept = unreminded(messages, 0, Seq::empty());
    set_then_at(talk, field, Tree::Array(kept.push(reminder())));
    unreminded_has_none(messages, 0, Seq::empty());
    clean_stays(kept, 0, Seq::empty());
    assert(Seq::<Tree>::empty() + kept.subrange(0, kept.len() as int) =~= kept);
}

} // verus!

//! What a response stream has accepted and announced so far, and how a native part
//! changes it.

use vstd::prelude::*;
use crate::gemini::conversation::list_of;
use crate::gemini::partial::{next, Calls};
use crate::gemini::parts::empty_object;
use crate::gemini::request::Converted;
use crate::gemini::response::{is_signature, is_thought, item_name, items_of, number};
use crate::tree::Tree;

verus! {

/// The state of a response stream. The native response is held in pieces: its
/// members, the candidate's, the content's, and the parts.
pub ghost struct Flow {
    pub request: Converted,
    pub id: Seq<char>,
    pub rest: Tree,
    pub candidate: Tree,
    pub content: Tree,
    pub parts: Seq<Tree>,
    pub spent: bool,
    pub sequence: u64,
    pub started: bool,
    pub ended: bool,
    pub active: Option<nat>,
    pub done: Seq<nat>,
    pub calls: Calls,
    pub summary_open: bool,
    pub summary: Seq<char>,
    pub deferred: Seq<Tree>,
    pub wire: u64,
}

/// A state with the events announced on the way to it, and the fault that stopped it.
pub ghost struct Run {
    pub flow: Flow,
    pub events: Seq<Tree>,
    pub fault: Option<Seq<char>>,
}

/// The last of some values, or null.
pub open spec fn last_of(items: Seq<Tree>) -> Tree {
    if items.len() > 0 {
        items.last()
    } else {
        Tree::Null
    }
}

/// The first of some values, or null.
pub open spec fn first_of(items: Seq<Tree>) -> Tree {
    if items.len() > 0 {
        items[0]
    } else {
        Tree::Null
    }
}

/// An event with its type and its number.
pub open spec fn stamped(event: Tree, kind: Seq<char>, sequence: u64) -> Tree {
    event.with("type"@, Tree::Text(kind)).with("sequence_number"@, number(sequence))
}

/// Where an event on a message belongs.
pub open spec fn message_place(id: Seq<char>, index: nat) -> Tree {
    empty_object().with("output_index"@, number(index as u64)).with(
        "item_id"@,
        Tree::Text(item_name("msg_"@, id, index)),
    ).with("content_index"@, number(0))
}

/// Where an event on the reasoning summary belongs.
pub open spec fn summary_place(id: Seq<char>) -> Tree {
    empty_object().with("output_index"@, number(0)).with(
        "item_id"@,
        Tree::Text("rs_"@ + id),
    ).with("summary_index"@, number(0))
}

/// A part of a message's content with no text yet.
pub open spec fn blank_text() -> Tree {
    empty_object().with("type"@, Tree::Text("output_text"@)).with("text"@, Tree::Text(""@)).with(
        "annotations"@,
        Tree::Array(Seq::empty()),
    )
}

/// An event on an item.
pub open spec fn item_event(index: nat, item: Tree) -> Tree {
    empty_object().with("output_index"@, number(index as u64)).with("item"@, item)
}

impl Flow {
    /// The native response accepted so far.
    pub open spec fn native(self) -> Tree {
        if self.spent {
            Tree::Null
        } else {
            self.rest.with(
                "candidates"@,
                Tree::Array(
                    seq![
                        self.candidate.with(
                            "content"@,
                            self.content.with("parts"@, Tree::Array(self.parts)),
                        ),
                    ],
                ),
            )
        }
    }

    /// The visible output of the parts accepted so far.
    pub open spec fn items(self) -> Result<Seq<Tree>, Seq<char>> {
        items_of(self.parts, self.request.tools, self.id)
    }
}

impl Run {
    pub open spec fn failed(self, message: Seq<char>) -> Run {
        Run { fault: Some(message), ..self }
    }

    /// Announces an event under the next number.
    pub open spec fn emitted(self, kind: Seq<char>, event: Tree) -> Run {
        Run {
            events: self.events.push(stamped(event, kind, self.flow.sequence)),
            flow: Flow { sequence: next(self.flow.sequence), ..self.flow },
            ..self
        }
    }

    /// Closes the message that is being written.
    pub open spec fn closed(self) -> Run {
        match self.flow.active {
            None => self,
            Some(index) => {
                let idle = Run { flow: Flow { active: None, ..self.flow }, ..self };
                match self.flow.items() {
                    Err(message) => idle.failed(message),
                    Ok(items) => if index == 0 || index > items.len() {
                        idle.failed("Invalid active stream item"@)
                    } else {
                        let part = first_of(list_of(items[index - 1].at("content"@)));
                        let place = message_place(self.flow.id, index);
                        let told = idle.emitted(
                            "response.output_text.done"@,
                            place.with("text"@, part.at("text"@)),
                        ).emitted("response.content_part.done"@, place.with("part"@, part));
                        Run {
                            flow: Flow { done: told.flow.done.push(index), ..told.flow },
                            ..told
                        }
                    },
                }
            },
        }
    }

    /// A thought: it extends the reasoning summary.
    pub open spec fn thought(self, text: Seq<char>) -> Run {
        let place = summary_place(self.flow.id);
        let open = if self.flow.summary_open {
            self
        } else {
            Run { flow: Flow { summary_open: true, ..self.flow }, ..self }.emitted(
                "response.reasoning_summary_part.added"@,
                place.with(
                    "part"@,
                    empty_object().with("type"@, Tree::Text("summary_text"@)).with(
                        "text"@,
                        Tree::Text(""@),
                    ),
                ),
            )
        };
        Run {
            flow: Flow { summary: open.flow.summary + text, ..open.flow },
            ..open
        }.emitted("response.reasoning_summary_text.delta"@, place.with("delta"@, Tree::Text(text)))
    }

    /// Opens a message for the latest part.
    pub open spec fn opened(self) -> Run {
        match self.flow.items() {
            Err(message) => self.failed(message),
            Ok(items) => {
                let index = items.len();
                let item = last_of(items).with("status"@, Tree::Text("in_progress"@)).with(
                    "content"@,
                    Tree::Array(Seq::empty()),
                );
                Run { flow: Flow { active: Some(index), ..self.flow }, ..self }.emitted(
                    "response.output_item.added"@,
                    item_event(index, item),
                ).emitted(
                    "response.content_part.added"@,
                    message_place(self.flow.id, index).with("part"@, blank_text()),
                )
            },
        }
    }

    /// Text of the message that is being written.
    pub open spec fn text(self, text: Seq<char>) -> Run {
        let index = match self.flow.active {
            Some(index) => index,
            None => 0,
        };
        self.emitted(
            "response.output_text.delta"@,
            message_place(self.flow.id, index).with("delta"@, Tree::Text(text)),
        )
    }

    /// The argument of a call, as one delta.
    pub open spec fn argued(
        self,
        item: Tree,
        index: nat,
        kind: Seq<char>,
        field: Seq<char>,
        event: Seq<char>,
    ) -> Run {
        if item.at("type"@) == Tree::Text(kind) {
            self.emitted(
                event,
                empty_object().with("output_index"@, number(index as u64)).with(
                    "item_id"@,
                    item.at("id"@),
                ).with("delta"@, item.at(field)),
            )
        } else {
            self
        }
    }

    /// A call or another part that is no text: a whole item at once.
    pub open spec fn whole(self) -> Run {
        match self.flow.items() {
            Err(message) => self.failed(message),
            Ok(items) => {
                let index = items.len();
                let item = last_of(items);
                let begun = item.with("status"@, Tree::Text("in_progress"@));
                let initial = if item.at("type"@) == Tree::Text("function_call"@) {
                    begun.with("arguments"@, Tree::Text(""@))
                } else if item.at("type"@) == Tree::Text("custom_tool_call"@) {
                    begun.with("input"@, Tree::Text(""@))
                } else {
                    begun
                };
                let told = self.emitted(
                    "response.output_item.added"@,
                    item_event(index, initial),
                ).argued(
                    item,
                    index,
                    "function_call"@,
                    "arguments"@,
                    "response.function_call_arguments.delta"@,
                ).argued(
                    item,
                    index,
                    "custom_tool_call"@,
                    "input"@,
                    "response.custom_tool_call_input.delta"@,
                );
                Run { flow: Flow { done: told.flow.done.push(index), ..told.flow }, ..told }
            },
        }
    }
}

/// An object with members added from `from` on, but for one.
pub open spec fn merged_but(
    object: Tree,
    fields: Seq<(Seq<char>, Tree)>,
    from: int,
    but: Seq<char>,
) -> Tree
    decreases fields.len() - from,
{
    if from < 0 || from >= fields.len() {
        object
    } else if fields[from].0 == but {
        merged_but(object, fields, from + 1, but)
    } else {
        merged_but(object.with(fields[from].0, fields[from].1), fields, from + 1, but)
    }
}

/// The members of an object, none for anything else.
pub open spec fn members_of(value: Tree) -> Seq<(Seq<char>, Tree)> {
    match value.fields() {
        Some(fields) => fields,
        None => Seq::empty(),
    }
}

/// A text part with another appended to it.
pub open spec fn joined(last: Tree, part: Tree, text: Seq<char>) -> Tree {
    let longer = match last.at("text"@) {
        Tree::Text(previous) => last.with("text"@, Tree::Text(previous + text)),
        _ => last,
    };
    merged_but(longer, members_of(part), 0, "text"@)
}

/// Whether a text part continues the part before it.
pub open spec fn joins(parts: Seq<Tree>, part: Tree) -> bool {
    part.at("text"@) is Text && parts.len() > 0 && parts.last().has("text"@) && is_thought(
        parts.last(),
    ) == is_thought(part) && !parts.last().has("thoughtSignature"@)
}

impl Run {
    /// Takes a part into the native turn: a signature goes to the part before it, text
    /// may continue it, and anything else is a part of its own.
    pub open spec fn stored(self, part: Tree, merge: bool) -> Run {
        let parts = self.flow.parts;
        if is_signature(part) {
            if parts.len() == 0 {
                self.failed("Detached signature has no preceding part"@)
            } else if parts.last().has("thoughtSignature"@) {
                self.failed("Conflicting Gemini signatures"@)
            } else {
                Run {
                    flow: Flow {
                        parts: parts.update(
                            parts.len() - 1,
                            parts.last().with(
                                "thoughtSignature"@,
                                part.at("thoughtSignature"@),
                            ),
                        ),
                        ..self.flow
                    },
                    ..self
                }
            }
        } else if merge {
            Run {
                flow: Flow {
                    parts: parts.update(
                        parts.len() - 1,
                        joined(
                            parts.last(),
                            part,
                            match part.at("text"@) {
                                Tree::Text(text) => text,
                                _ => Seq::empty(),
                            },
                        ),
                    ),
                    ..self.flow
                },
                ..self
            }
        } else {
            Run { flow: Flow { parts: parts.push(part), ..self.flow }, ..self }
        }
    }

    /// Announces a part that was taken in.
    pub open spec fn announced(self, part: Tree, merge: bool) -> Run {
        match part.at("text"@) {
            Tree::Text(text) => if is_thought(part) {
                self.thought(text)
            } else if text.len() == 0 {
                self
            } else if !merge || self.flow.active is None {
                let open = self.opened();
                if open.fault is Some {
                    open
                } else {
                    open.text(text)
                }
            } else {
                self.text(text)
            },
            _ => if is_thought(part) || is_signature(part) {
                self
            } else {
                self.whole()
            },
        }
    }

    /// A complete native part.
    pub open spec fn part(self, part: Tree) -> Run {
        let merge = joins(self.flow.parts, part);
        let ready = if !is_thought(part) && !merge && !is_signature(part) {
            self.closed()
        } else {
            self
        };
        if ready.fault is Some {
            ready
        } else {
            let stored = ready.stored(part, merge);
            if stored.fault is Some {
                stored
            } else {
                stored.announced(part, merge)
            }
        }
    }

    /// The complete parts from `from` on.
    pub open spec fn parts(self, parts: Seq<Tree>, from: int) -> Run
        decreases parts.len() - from,
    {
        if from < 0 || from >= parts.len() {
            self
        } else {
            let one = self.part(parts[from]);
            if one.fault is Some {
                one
            } else {
                one.parts(parts, from + 1)
            }
        }
    }
}

/// The calls after the parts from `from` on, with the parts that are complete.
pub open spec fn assembled(calls: Calls, parts: Seq<Tree>, from: int, out: Seq<Tree>) -> (
    Calls,
    Result<Seq<Tree>, Seq<char>>,
)
    decreases parts.len() - from,
{
    if from < 0 || from >= parts.len() {
        (calls, Ok(out))
    } else {
        let (after, ready) = calls.taken(parts[from]);
        match ready {
            Err(message) => (after, Err(message)),
            Ok(more) => assembled(after, parts, from + 1, out + more),
        }
    }
}

impl Run {
    /// The lifecycle events at the start of a stream.
    pub open spec fn begun(self) -> Run {
        if self.flow.started {
            self
        } else {
            let response = empty_object().with("id"@, Tree::Text("resp_"@ + self.flow.id)).with(
                "object"@,
                Tree::Text("response"@),
            ).with("model"@, Tree::Text(self.flow.request.response_model)).with(
                "status"@,
                Tree::Text("in_progress"@),
            ).with("output"@, Tree::Array(Seq::empty())).with("usage"@, Tree::Null);
            let event = empty_object().with("response"@, response);
            Run { flow: Flow { started: true, ..self.flow }, ..self }.emitted(
                "response.created"@,
                event,
            ).emitted("response.in_progress"@, event).emitted(
                "response.output_item.added"@,
                item_event(
                    0,
                    empty_object().with("id"@, Tree::Text("rs_"@ + self.flow.id)).with(
                        "type"@,
                        Tree::Text("reasoning"@),
                    ).with("summary"@, Tree::Array(Seq::empty())),
                ),
            )
        }
    }

    /// The candidate of a chunk: its parts, and its members beside them.
    pub open spec fn candidate(self, candidate: Tree) -> Run {
        let held = match candidate.at("content"@).at("parts"@).items() {
            None => self,
            Some(parts) => {
                let (calls, ready) = assembled(self.flow.calls, parts, 0, Seq::empty());
                let run = Run { flow: Flow { calls, ..self.flow }, ..self };
                match ready {
                    Err(message) => run.failed(message),
                    Ok(ready) => run.parts(ready, 0),
                }
            },
        };
        if held.fault is Some {
            held
        } else {
            Run {
                flow: Flow {
                    content: merged_but(
                        held.flow.content,
                        members_of(candidate.at("content"@)),
                        0,
                        "parts"@,
                    ),
                    candidate: merged_but(
                        held.flow.candidate,
                        members_of(candidate),
                        0,
                        "content"@,
                    ),
                    ..held.flow
                },
                ..held
            }
        }
    }
}

} // verus!

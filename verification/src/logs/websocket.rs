//! Requests that share a WebSocket: which event belongs to which.

use vstd::prelude::*;
use crate::text::{ends_with, same};
use crate::tree::{json_views, Json, Tree};

verus! {

broadcast use json_views;

/// The open requests of a WebSocket. Their lifetimes do not depend on the bounded history.
pub struct Tracker {
    /// Requests without a response yet, in the order of their arrival.
    pub pending: Vec<u64>,
    /// The request of each response.
    pub responses: Vec<(String, u64)>,
    /// Requests that are open.
    pub open: Vec<u64>,
    /// Requests whose output was seen.
    pub output_seen: Vec<u64>,
}

/// The view of the open requests.
pub ghost struct Tracking {
    pub pending: Seq<u64>,
    pub responses: Seq<(Seq<char>, u64)>,
    pub open: Seq<u64>,
    pub output_seen: Seq<u64>,
}

/// The views of responses.
pub open spec fn response_views(responses: Seq<(String, u64)>) -> Seq<(Seq<char>, u64)> {
    Seq::new(responses.len(), |i: int| (responses[i].0@, responses[i].1))
}

impl View for Tracker {
    type V = Tracking;

    open spec fn view(&self) -> Tracking {
        Tracking {
            pending: self.pending@,
            responses: response_views(self.responses@),
            open: self.open@,
            output_seen: self.output_seen@,
        }
    }
}

/// What an event means for a request.
#[derive(Clone, Copy, Debug, PartialEq, Eq, Structural)]
pub enum Action {
    /// More of the response arrived.
    AddBytes(u64),
    /// The model's first output arrived.
    FirstOutput(u64),
    /// The event tells something of this request.
    Observe(u64),
    /// The request is over, and whether it succeeded.
    Finish(u64, bool),
}

/// How a request ended with its connection, as it is recorded.
#[derive(Clone, Debug)]
pub struct Failure {
    pub id: u64,
    pub outcome: &'static str,
    pub source: &'static str,
    pub code: String,
}

/// The view of such an ending.
pub ghost struct FailureView {
    pub id: u64,
    pub outcome: Seq<char>,
    pub source: Seq<char>,
    pub code: Seq<char>,
}

/// The views of such endings.
pub open spec fn failures(list: Seq<Failure>) -> Seq<FailureView> {
    Seq::new(
        list.len(),
        |i: int|
            FailureView {
                id: list[i].id,
                outcome: list[i].outcome@,
                source: list[i].source@,
                code: list[i].code@,
            },
    )
}

/// The request of a response at or after `from`.
pub open spec fn request_of(responses: Seq<(Seq<char>, u64)>, id: Seq<char>, from: int) -> Option<u64>
    decreases responses.len() - from,
{
    if from < 0 || from >= responses.len() {
        None
    } else if responses[from].0 == id {
        Some(responses[from].1)
    } else {
        request_of(responses, id, from + 1)
    }
}

/// The numbers other than one, from `from` on.
pub open spec fn others(list: Seq<u64>, id: u64, from: int, kept: Seq<u64>) -> Seq<u64>
    decreases list.len() - from,
{
    if from < 0 || from >= list.len() {
        kept
    } else if list[from] == id {
        others(list, id, from + 1, kept)
    } else {
        others(list, id, from + 1, kept.push(list[from]))
    }
}

/// The responses of other requests, from `from` on.
pub open spec fn other_responses(
    list: Seq<(Seq<char>, u64)>,
    id: u64,
    from: int,
    kept: Seq<(Seq<char>, u64)>,
) -> Seq<(Seq<char>, u64)>
    decreases list.len() - from,
{
    if from < 0 || from >= list.len() {
        kept
    } else if list[from].1 == id {
        other_responses(list, id, from + 1, kept)
    } else {
        other_responses(list, id, from + 1, kept.push(list[from]))
    }
}

/// Whether an event ends a response.
pub open spec fn terminal(value: Tree) -> bool {
    let kind = value.at("type"@);
    kind == Tree::Text("response.completed"@) || kind == Tree::Text("response.failed"@) || kind
        == Tree::Text("response.incomplete"@) || kind == Tree::Text("error"@)
}

/// Whether an event is output of the model.
pub open spec fn output(value: Tree) -> bool {
    value.at("type"@).text() matches Some(kind) && (".delta"@.is_suffix_of(kind) || kind
        == "response.output_item.added"@)
}

/// The response that an event belongs to.
pub open spec fn response_of(value: Tree) -> Option<Seq<char>> {
    let id = match value.at("response"@).get("id"@) {
        Some(id) => id,
        None => value.at("response_id"@),
    };
    id.text()
}

impl Tracking {
    /// The requests with the response of an event assigned where it is new: a response
    /// belongs to the request that has waited longest.
    pub open spec fn assigned(self, value: Tree) -> Tracking {
        match response_of(value) {
            None => self,
            Some(response) => if request_of(self.responses, response, 0) is None && (value.at(
                "type"@,
            ) == Tree::Text("response.created"@) || (terminal(value) && self.open.len() == 1))
                && self.pending.len() > 0 {
                Tracking {
                    responses: self.responses.push((response, self.pending[0])),
                    pending: self.pending.subrange(1, self.pending.len() as int),
                    ..self
                }
            } else {
                self
            },
        }
    }

    /// The request that an event belongs to.
    pub open spec fn request(self, value: Tree) -> Option<u64> {
        match response_of(value) {
            Some(response) => request_of(self.responses, response, 0),
            None => if self.open.len() == 1 {
                Some(self.open[0])
            } else {
                None
            },
        }
    }

    /// The requests after an event, and what it means.
    pub open spec fn observed(self, value: Tree) -> (Tracking, Seq<Action>) {
        let known = self.assigned(value);
        match known.request(value) {
            None => (known, Seq::empty()),
            Some(id) => {
                let held = known.open.contains(id);
                let counted = if held {
                    seq![Action::AddBytes(id)]
                } else {
                    Seq::empty()
                };
                let first = output(value) && !known.output_seen.contains(id);
                let told = (if first {
                    counted.push(Action::FirstOutput(id))
                } else {
                    counted
                }).push(Action::Observe(id));
                let seen = if first {
                    Tracking { output_seen: known.output_seen.push(id), ..known }
                } else {
                    known
                };
                if terminal(value) {
                    (
                        Tracking {
                            pending: others(seen.pending, id, 0, Seq::empty()),
                            responses: other_responses(seen.responses, id, 0, Seq::empty()),
                            open: others(seen.open, id, 0, Seq::empty()),
                            output_seen: others(seen.output_seen, id, 0, Seq::empty()),
                        },
                        if held {
                            told.push(
                                Action::Finish(
                                    id,
                                    value.at("type"@) == Tree::Text("response.completed"@),
                                ),
                            )
                        } else {
                            told
                        },
                    )
                } else {
                    (seen, told)
                }
            },
        }
    }
}

fn find_request(responses: &Vec<(String, u64)>, id: &str) -> (r: Option<u64>)
    ensures
        r == request_of(response_views(responses@), id@, 0),
{
    let mut i: usize = 0;
    while i < responses.len()
        invariant
            i <= responses.len(),
            request_of(response_views(responses@), id@, 0) == request_of(
                response_views(responses@),
                id@,
                i as int,
            ),
        decreases responses.len() - i,
    {
        if same(responses[i].0.as_str(), id) {
            return Some(responses[i].1);
        }
        i += 1;
    }
    None
}

fn is_among(list: &Vec<u64>, id: u64) -> (r: bool)
    ensures
        r == list@.contains(id),
{
    let mut i: usize = 0;
    while i < list.len()
        invariant
            i <= list.len(),
            forall|k: int| 0 <= k < i ==> #[trigger] list@[k] != id,
        decreases list.len() - i,
    {
        if list[i] == id {
            assert(list@[i as int] == id);
            return true;
        }
        i += 1;
    }
    false
}

fn without(list: &Vec<u64>, id: u64) -> (r: Vec<u64>)
    ensures
        r@ == others(list@, id, 0, Seq::empty()),
{
    let mut kept: Vec<u64> = Vec::new();
    let mut i: usize = 0;
    while i < list.len()
        invariant
            i <= list.len(),
            others(list@, id, 0, Seq::empty()) == others(list@, id, i as int, kept@),
        decreases list.len() - i,
    {
        if list[i] != id {
            kept.push(list[i]);
        }
        i += 1;
    }
    kept
}

fn responses_without(list: &Vec<(String, u64)>, id: u64) -> (r: Vec<(String, u64)>)
    ensures
        response_views(r@) == other_responses(response_views(list@), id, 0, Seq::empty()),
{
    let mut kept: Vec<(String, u64)> = Vec::new();
    let mut i: usize = 0;
    proof {
        assert(response_views(kept@) =~= Seq::empty());
    }
    while i < list.len()
        invariant
            i <= list.len(),
            other_responses(response_views(list@), id, 0, Seq::empty()) == other_responses(
                response_views(list@),
                id,
                i as int,
                response_views(kept@),
            ),
        decreases list.len() - i,
    {
        if list[i].1 != id {
            let ghost before = response_views(kept@);
            kept.push((list[i].0.clone(), list[i].1));
            proof {
                assert(response_views(kept@) =~= before.push(response_views(list@)[i as int]));
            }
        }
        i += 1;
    }
    kept
}

fn is_terminal(value: &Json) -> (r: bool)
    ensures
        r == terminal(value@),
{
    let kind = value.at("type");
    kind.is("response.completed") || kind.is("response.failed") || kind.is("response.incomplete")
        || kind.is("error")
}

fn is_output(value: &Json) -> (r: bool)
    ensures
        r == output(value@),
{
    match value.at("type").as_str() {
        Some(kind) => ends_with(kind, ".delta") || same(kind, "response.output_item.added"),
        None => false,
    }
}

fn read_response<'a>(value: &'a Json) -> (r: Option<&'a str>)
    ensures
        r.deep_view() == response_of(value@),
{
    match value.at("response").get("id") {
        Some(id) => id.as_str(),
        None => value.at("response_id").as_str(),
    }
}

impl Tracker {
    pub fn new() -> (r: Tracker)
        ensures
            r@ == (Tracking {
                pending: Seq::empty(),
                responses: Seq::empty(),
                open: Seq::empty(),
                output_seen: Seq::empty(),
            }),
    {
        let r = Tracker {
            pending: Vec::new(),
            responses: Vec::new(),
            open: Vec::new(),
            output_seen: Vec::new(),
        };
        proof {
            assert(response_views(r.responses@) =~= Seq::empty());
        }
        r
    }

    /// Whether no request is open.
    pub fn is_empty(&self) -> (r: bool)
        ensures
            r == (self@.open.len() == 0),
    {
        self.open.len() == 0
    }

    /// A request was sent.
    pub fn begin(&mut self, id: u64)
        ensures
            final(self)@ == (Tracking {
                pending: old(self)@.pending.push(id),
                open: others(old(self)@.open, id, 0, Seq::empty()).push(id),
                ..old(self)@
            }),
    {
        self.pending.push(id);
        let mut open = without(&self.open, id);
        open.push(id);
        self.open = open;
    }

    fn assign(&mut self, value: &Json)
        ensures
            final(self)@ == old(self)@.assigned(value@),
    {
        let response = match read_response(value) {
            Some(response) => response,
            None => return,
        };
        if find_request(&self.responses, response).is_none() && (value.at("type").is(
            "response.created",
        ) || (is_terminal(value) && self.open.len() == 1)) && self.pending.len() > 0 {
            let ghost before = response_views(self.responses@);
            let id = self.pending.remove(0);
            self.responses.push((response.to_string(), id));
            proof {
                assert(self.pending@ =~= old(self).pending@.subrange(
                    1,
                    old(self).pending@.len() as int,
                ));
                assert(response_views(self.responses@) =~= before.push((response@, id)));
            }
        }
    }

    fn request(&self, value: &Json) -> (r: Option<u64>)
        ensures
            r == self@.request(value@),
    {
        match read_response(value) {
            Some(response) => find_request(&self.responses, response),
            None => if self.open.len() == 1 {
                Some(self.open[0])
            } else {
                None
            },
        }
    }

    /// An event arrived: what it means for the request that it belongs to.
    pub fn observe(&mut self, value: &Json) -> (actions: Vec<Action>)
        ensures
            (final(self)@, actions@) == old(self)@.observed(value@),
    {
        let mut actions: Vec<Action> = Vec::new();
        self.assign(value);
        let id = match self.request(value) {
            Some(id) => id,
            None => return actions,
        };
        let held = is_among(&self.open, id);
        if held {
            actions.push(Action::AddBytes(id));
            proof {
                assert(actions@ =~= seq![Action::AddBytes(id)]);
            }
        }
        if is_output(value) && !is_among(&self.output_seen, id) {
            self.output_seen.push(id);
            actions.push(Action::FirstOutput(id));
        }
        actions.push(Action::Observe(id));
        if is_terminal(value) {
            if held {
                actions.push(Action::Finish(id, value.at("type").is("response.completed")));
            }
            self.pending = without(&self.pending, id);
            self.responses = responses_without(&self.responses, id);
            self.open = without(&self.open, id);
            self.output_seen = without(&self.output_seen, id);
        }
        actions
    }

    /// The connection failed with a code, and with it the requests that were open: how each of
    /// them ended.
    pub fn fail_all(&mut self, code: &str) -> (failed: Vec<Failure>)
        ensures
            failures(failed@) == old(self)@.open.map_values(
                |id: u64|
                    FailureView { id, outcome: "failed"@, source: "transport"@, code: code@ },
            ),
            final(self)@ == (Tracking {
                pending: Seq::empty(),
                responses: Seq::empty(),
                open: Seq::empty(),
                output_seen: Seq::empty(),
            }),
    {
        let mut open: Vec<u64> = Vec::new();
        std::mem::swap(&mut open, &mut self.open);
        self.pending = Vec::new();
        self.responses = Vec::new();
        self.output_seen = Vec::new();
        let ghost whole = open@.map_values(
            |id: u64| FailureView { id, outcome: "failed"@, source: "transport"@, code: code@ },
        );
        let mut failed: Vec<Failure> = Vec::new();
        let mut i: usize = 0;
        proof {
            assert(response_views(self.responses@) =~= Seq::empty());
            assert(failures(failed@) =~= whole.take(0));
        }
        while i < open.len()
            invariant
                i <= open.len(),
                whole == open@.map_values(
                    |id: u64|
                        FailureView { id, outcome: "failed"@, source: "transport"@, code: code@ },
                ),
                failures(failed@) == whole.take(i as int),
            decreases open.len() - i,
        {
            let ghost before = failures(failed@);
            failed.push(
                Failure {
                    id: open[i],
                    outcome: "failed",
                    source: "transport",
                    code: code.to_string(),
                },
            );
            proof {
                assert(failures(failed@) =~= before.push(whole[i as int]));
                assert(whole.take(i + 1) =~= whole.take(i as int).push(whole[i as int]));
            }
            i += 1;
        }
        proof {
            assert(whole.take(i as int) =~= whole);
        }
        failed
    }
}

/// An event that names an unknown response changes nothing while several requests are
/// open, unless it announces that response.
pub proof fn unknown_responses_are_ignored(state: Tracking, value: Tree)
    requires
        response_of(value) is Some,
        request_of(state.responses, response_of(value)->Some_0, 0) is None,
        value.at("type"@) != Tree::Text("response.created"@),
        state.open.len() > 1,
    ensures
        state.observed(value) == (state, Seq::<Action>::empty()),
{
}

} // verus!

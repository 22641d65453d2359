//! Function calls whose arguments arrive in fragments.

use vstd::prelude::*;
use crate::error::{outcome, Error};
use crate::gemini::path::{
    parse_path, path_steps, placed, set_path, steps_view, Placed, MAX_SLOTS,
};
use crate::tree::{json_views, trees, Json, Tree};

verus! {

broadcast use json_views;

/// Calls that are still streaming, and the parts that wait behind them.
pub struct PartialCalls {
    pub active: Vec<(u64, Json)>,
    pub queue: Vec<(Option<u64>, Option<Json>)>,
    pub serial: u64,
    pub allocated_slots: usize,
    pub trace: Vec<Json>,
}

/// The view of the calls.
pub ghost struct Calls {
    pub active: Seq<(u64, Tree)>,
    pub queue: Seq<(Option<u64>, Option<Tree>)>,
    pub serial: u64,
    pub slots: nat,
    pub trace: Seq<Tree>,
}

pub open spec fn active_view(active: Seq<(u64, Json)>) -> Seq<(u64, Tree)> {
    Seq::new(active.len(), |i: int| (active[i].0, active[i].1@))
}

pub open spec fn queue_view(queue: Seq<(Option<u64>, Option<Json>)>) -> Seq<
    (Option<u64>, Option<Tree>),
> {
    Seq::new(queue.len(), |i: int| (queue[i].0, queue[i].1.deep_view()))
}

impl View for PartialCalls {
    type V = Calls;

    open spec fn view(&self) -> Calls {
        Calls {
            active: active_view(self.active@),
            queue: queue_view(self.queue@),
            serial: self.serial,
            slots: self.allocated_slots as nat,
            trace: trees(self.trace@),
        }
    }
}

/// The number after `n`, starting over behind the last.
pub open spec fn next(n: u64) -> u64 {
    if n == u64::MAX {
        0
    } else {
        (n + 1) as u64
    }
}

/// The parts at the front of the queue that are complete, from `from` on.
pub open spec fn ready(
    queue: Seq<(Option<u64>, Option<Tree>)>,
    from: int,
    parts: Seq<Tree>,
) -> (Seq<(Option<u64>, Option<Tree>)>, Seq<Tree>)
    decreases queue.len() - from,
{
    if 0 <= from < queue.len() {
        match queue[from].1 {
            Some(part) => ready(queue, from + 1, parts.push(part)),
            None => (queue.subrange(from, queue.len() as int), parts),
        }
    } else {
        (Seq::empty(), parts)
    }
}

impl Calls {
    /// Hands out the parts that nothing before them holds up.
    pub open spec fn drained(self) -> (Calls, Result<Seq<Tree>, Seq<char>>) {
        let (queue, parts) = ready(self.queue, 0, Seq::empty());
        (Calls { queue, ..self }, Ok(parts))
    }

    /// Queues a complete part.
    pub open spec fn passed(self, part: Tree) -> (Calls, Result<Seq<Tree>, Seq<char>>) {
        Calls { queue: self.queue.push((None, Some(part))), ..self }.drained()
    }
}

/// The first active call with an equal id, at or after `from`.
pub open spec fn call_with(active: Seq<(u64, Tree)>, id: Tree, from: int) -> Option<int>
    decreases active.len() - from,
{
    if from < 0 || from >= active.len() {
        None
    } else if active[from].1.at("functionCall"@).get("id"@) matches Some(own) && own.equals(id) {
        Some(from)
    } else {
        call_with(active, id, from + 1)
    }
}

/// The value of a partial argument.
pub open spec fn argument_value(arg: Tree) -> Result<Tree, Seq<char>> {
    if !(arg.at("stringValue"@) is Null) {
        if arg.at("stringValue"@) is Text {
            Ok(arg.at("stringValue"@))
        } else {
            Err("Invalid stringValue"@)
        }
    } else if !(arg.at("numberValue"@) is Null) {
        if arg.at("numberValue"@) is Number {
            Ok(arg.at("numberValue"@))
        } else {
            Err("Invalid numberValue"@)
        }
    } else if !(arg.at("boolValue"@) is Null) {
        if arg.at("boolValue"@) is Bool {
            Ok(arg.at("boolValue"@))
        } else {
            Err("Invalid boolValue"@)
        }
    } else if arg.has("nullValue"@) {
        Ok(Tree::Null)
    } else {
        Err("Partial function argument has no value"@)
    }
}

/// Sets one partial argument.
pub open spec fn argument_set(args: Tree, arg: Tree, slots: nat) -> Placed {
    match arg.at("jsonPath"@).text() {
        None => Placed {
            target: args,
            slots,
            result: Err("partialArgs.jsonPath must be text"@),
        },
        Some(path) => match argument_value(arg) {
            Err(message) => Placed { target: args, slots, result: Err(message) },
            Ok(value) => match path_steps(path) {
                Err(message) => Placed { target: args, slots, result: Err(message) },
                Ok(steps) => placed(args, steps, 0, value, slots),
            },
        },
    }
}

/// What setting partial arguments leaves, and whether one of them continues.
pub ghost struct Filled {
    pub args: Tree,
    pub slots: nat,
    pub result: Result<bool, Seq<char>>,
}

/// Sets the partial arguments from `from` on.
pub open spec fn filled(
    args: Tree,
    list: Seq<Tree>,
    from: int,
    slots: nat,
    continuing: bool,
) -> Filled
    decreases list.len() - from,
{
    if from < 0 || from >= list.len() {
        Filled { args, slots, result: Ok(continuing) }
    } else {
        let step = argument_set(args, list[from], slots);
        match step.result {
            Err(message) => Filled { args: step.target, slots: step.slots, result: Err(message) },
            Ok(_) => filled(
                step.target,
                list,
                from + 1,
                step.slots,
                continuing || list[from].at("willContinue"@) == Tree::Bool(true),
            ),
        }
    }
}

/// The first queued slot of a call, at or after `from`.
pub open spec fn slot_of(
    queue: Seq<(Option<u64>, Option<Tree>)>,
    serial: u64,
    from: int,
) -> Option<int>
    decreases queue.len() - from,
{
    if from < 0 || from >= queue.len() {
        None
    } else if queue[from].0 == Some(serial) {
        Some(from)
    } else {
        slot_of(queue, serial, from + 1)
    }
}

/// The start of a call: its name, its id if it has one, and no arguments yet.
pub open spec fn started_call(part: Tree, name: Tree, id: Option<Tree>) -> Tree {
    let call = Tree::Object(Seq::empty()).with("name"@, name).with(
        "args"@,
        Tree::Object(Seq::empty()),
    );
    part.with(
        "functionCall"@,
        match id {
            Some(id) => call.with("id"@, id),
            None => call,
        },
    )
}

impl Calls {
    /// Opens a call where the part names one.
    pub open spec fn begun(self, part: Tree, call: Tree) -> Result<Calls, Seq<char>> {
        match call.get("name"@) {
            None => Ok(self),
            Some(name) => if call.get("id"@) matches Some(id) && call_with(
                self.active,
                id,
                0,
            ) is Some {
                Err("Duplicate active streaming function call ID"@)
            } else {
                let serial = next(self.serial);
                Ok(
                    Calls {
                        active: self.active.push(
                            (serial, started_call(part, name, call.get("id"@))),
                        ),
                        queue: self.queue.push((Some(serial), None)),
                        serial,
                        ..self
                    },
                )
            },
        }
    }

    /// The call that a part continues: by id, else the latest.
    pub open spec fn addressed(self, call: Tree) -> Result<int, Seq<char>> {
        match call.get("id"@) {
            Some(id) => match call_with(self.active, id, 0) {
                Some(index) => Ok(index),
                None => Err("Unknown streaming function call ID"@),
            },
            None => if self.active.len() == 0 {
                Err("Function argument continuation has no active call"@)
            } else {
                Ok(self.active.len() - 1)
            },
        }
    }

    /// Ends the call at `index`: it takes its place in the queue.
    pub open spec fn completed(self, index: int) -> (Calls, Result<Seq<Tree>, Seq<char>>) {
        let (serial, part) = self.active[index];
        let rest = Calls { active: self.active.remove(index), ..self };
        match slot_of(self.queue, serial, 0) {
            None => (rest, Err("Missing partial function slot"@)),
            Some(slot) => Calls {
                queue: self.queue.update(slot, (self.queue[slot].0, Some(part))),
                ..rest
            }.drained(),
        }
    }

    /// Continues the call at `index` with a part.
    pub open spec fn continued(self, index: int, part: Tree, call: Tree) -> (
        Calls,
        Result<Seq<Tree>, Seq<char>>,
    ) {
        let (serial, target) = self.active[index];
        let signature = part.get("thoughtSignature"@);
        if signature matches Some(signature) && target.get("thoughtSignature"@) matches Some(own)
            && !own.equals(signature) {
            (self, Err("Conflicting streaming function signatures"@))
        } else {
            let signed = match signature {
                Some(signature) => target.with("thoughtSignature"@, signature),
                None => target,
            };
            let continuing = call.at("willContinue"@) == Tree::Bool(true);
            match call.get("partialArgs"@) {
                None => {
                    let state = Calls {
                        active: self.active.update(index, (serial, signed)),
                        ..self
                    };
                    if continuing {
                        state.drained()
                    } else {
                        state.completed(index)
                    }
                },
                Some(list) => match list.items() {
                    None => (
                        Calls { active: self.active.update(index, (serial, signed)), ..self },
                        Err("partialArgs must be an array"@),
                    ),
                    Some(list) => {
                        let fill = filled(
                            signed.at("functionCall"@).at("args"@),
                            list,
                            0,
                            self.slots,
                            continuing,
                        );
                        let state = Calls {
                            active: self.active.update(
                                index,
                                (
                                    serial,
                                    signed.with(
                                        "functionCall"@,
                                        signed.at("functionCall"@).with("args"@, fill.args),
                                    ),
                                ),
                            ),
                            slots: fill.slots,
                            ..self
                        };
                        match fill.result {
                            Err(message) => (state, Err(message)),
                            Ok(more) => if more {
                                state.drained()
                            } else {
                                state.completed(index)
                            },
                        }
                    },
                },
            }
        }
    }

    /// Takes a native part: the parts that are complete now, in order.
    pub open spec fn taken(self, part: Tree) -> (Calls, Result<Seq<Tree>, Seq<char>>) {
        match part.get("functionCall"@) {
            None => self.passed(part),
            Some(call) => {
                let more = call.at("willContinue"@) == Tree::Bool(true);
                let partial = call.has("partialArgs"@) || more;
                let terminal = !call.has("name"@) && !call.has("args"@) && !call.has(
                    "partialArgs"@,
                ) && !more;
                if !partial && !terminal {
                    self.passed(part)
                } else if call.has("args"@) {
                    (self, Err("Streaming function call cannot mix args and partialArgs"@))
                } else {
                    let traced = Calls { trace: self.trace.push(part), ..self };
                    match traced.begun(part, call) {
                        Err(message) => (traced, Err(message)),
                        Ok(open) => match open.addressed(call) {
                            Err(message) => (open, Err(message)),
                            Ok(index) => open.continued(index, part, call),
                        },
                    }
                }
            },
        }
    }
}

fn read_argument(arg: &Json) -> (r: Result<Json, Error>)
    ensures
        outcome(r) == argument_value(arg@),
{
    let string = arg.at("stringValue");
    if !string.is_null() {
        if string.is_string() {
            return Ok(string.copy());
        }
        return Err(Error::new("Invalid stringValue"));
    }
    let number = arg.at("numberValue");
    if !number.is_null() {
        if number.is_number() {
            return Ok(number.copy());
        }
        return Err(Error::new("Invalid numberValue"));
    }
    let boolean = arg.at("boolValue");
    if !boolean.is_null() {
        if boolean.as_bool().is_some() {
            return Ok(boolean.copy());
        }
        return Err(Error::new("Invalid boolValue"));
    }
    if arg.has("nullValue") {
        Ok(Json::Null)
    } else {
        Err(Error::new("Partial function argument has no value"))
    }
}

fn set_argument(args: &mut Json, arg: &Json, slots: &mut usize) -> (r: Result<(), Error>)
    requires
        *old(slots) <= MAX_SLOTS,
    ensures
        ({
            let spec = argument_set(old(args)@, arg@, *old(slots) as nat);
            &&& final(args)@ == spec.target
            &&& *final(slots) as nat == spec.slots
            &&& outcome(r) == spec.result
        }),
        *final(slots) <= MAX_SLOTS,
{
    broadcast use steps_view;

    let path = match arg.at("jsonPath").as_str() {
        Some(path) => path,
        None => return Err(Error::new("partialArgs.jsonPath must be text")),
    };
    let value = read_argument(arg)?;
    let steps = parse_path(path)?;
    set_path(args, &steps, 0, value, slots)
}

fn fill(args: &mut Json, list: &Vec<Json>, slots: &mut usize, continuing: bool) -> (r: Result<
    bool,
    Error,
>)
    requires
        *old(slots) <= MAX_SLOTS,
    ensures
        ({
            let spec = filled(
                old(args)@,
                trees(list@),
                0,
                *old(slots) as nat,
                continuing,
            );
            &&& final(args)@ == spec.args
            &&& *final(slots) as nat == spec.slots
            &&& outcome(r) == spec.result
        }),
        *final(slots) <= MAX_SLOTS,
{
    let ghost whole = filled(args@, trees(list@), 0, *slots as nat, continuing);
    let mut more: bool = continuing;
    let mut i: usize = 0;
    while i < list.len()
        invariant
            i <= list.len(),
            *slots <= MAX_SLOTS,
            whole == filled(old(args)@, trees(list@), 0, *old(slots) as nat, continuing),
            whole == filled(args@, trees(list@), i as int, *slots as nat, more),
        decreases list.len() - i,
    {
        match set_argument(args, &list[i], slots) {
            Ok(_) => {},
            Err(error) => return Err(error),
        }
        more = more || matches!(list[i].at("willContinue"), Json::Bool(true));
        i += 1;
    }
    Ok(more)
}

fn find_call(active: &Vec<(u64, Json)>, id: &Json) -> (r: Option<usize>)
    ensures
        match r {
            Some(i) => call_with(active_view(active@), id@, 0) == Some(i as int) && i
                < active.len(),
            None => call_with(active_view(active@), id@, 0) is None,
        },
{
    let mut i: usize = 0;
    while i < active.len()
        invariant
            i <= active.len(),
            call_with(active_view(active@), id@, 0) == call_with(
                active_view(active@),
                id@,
                i as int,
            ),
        decreases active.len() - i,
    {
        match active[i].1.at("functionCall").get("id") {
            Some(own) => if own.equals(id) {
                return Some(i);
            },
            None => {},
        }
        i += 1;
    }
    None
}

fn find_slot(queue: &Vec<(Option<u64>, Option<Json>)>, serial: u64) -> (r: Option<usize>)
    ensures
        match r {
            Some(i) => slot_of(queue_view(queue@), serial, 0) == Some(i as int) && i < queue.len(),
            None => slot_of(queue_view(queue@), serial, 0) is None,
        },
{
    let mut i: usize = 0;
    while i < queue.len()
        invariant
            i <= queue.len(),
            slot_of(queue_view(queue@), serial, 0) == slot_of(
                queue_view(queue@),
                serial,
                i as int,
            ),
        decreases queue.len() - i,
    {
        match queue[i].0 {
            Some(own) => if own == serial {
                return Some(i);
            },
            None => {},
        }
        i += 1;
    }
    None
}

fn start_call(part: &Json, name: &Json, id: Option<&Json>) -> (r: Json)
    ensures
        r@ == started_call(part@, name@, id.deep_view()),
{
    let mut call = Json::object().with("name", name.copy()).with("args", Json::object());
    match id {
        Some(id) => call.set("id", id.copy()),
        None => {},
    }
    part.copy().with("functionCall", call)
}

fn is_true(json: &Json) -> (r: bool)
    ensures
        r == (json@ == Tree::Bool(true)),
{
    matches!(json, Json::Bool(true))
}

impl PartialCalls {
    /// The slots allocated stay within their bound.
    pub open spec fn wf(&self) -> bool {
        self.allocated_slots <= MAX_SLOTS
    }

    /// No calls.
    pub fn new() -> (r: PartialCalls)
        ensures
            r.wf(),
            r@ == (Calls {
                active: Seq::empty(),
                queue: Seq::empty(),
                serial: 0,
                slots: 0,
                trace: Seq::empty(),
            }),
    {
        let r = PartialCalls {
            active: Vec::new(),
            queue: Vec::new(),
            serial: 0,
            allocated_slots: 0,
            trace: Vec::new(),
        };
        proof {
            assert(active_view(r.active@) =~= Seq::empty());
            assert(queue_view(r.queue@) =~= Seq::empty());
        }
        r
    }

    /// Whether a call is still streaming.
    pub fn pending(&self) -> (r: bool)
        ensures
            r == (self@.active.len() > 0),
    {
        self.active.len() > 0
    }

    fn drain(&mut self) -> (r: Vec<Json>)
        ensures
            (final(self)@, Ok::<Seq<Tree>, Seq<char>>(trees(r@))) == old(self)@.drained(),
            final(self).wf() == old(self).wf(),
    {
        let mut parts: Vec<Json> = Vec::new();
        let mut queue: Vec<(Option<u64>, Option<Json>)> = Vec::new();
        std::mem::swap(&mut self.queue, &mut queue);
        let ghost whole = queue_view(queue@);
        let mut i: usize = 0;
        let length: usize = queue.len();
        proof {
            assert(trees(parts@) =~= Seq::<Tree>::empty());
        }
        while i < length && queue[0].1.is_some()
            invariant
                i <= length,
                length == whole.len(),
                queue_view(queue@) == whole.subrange(i as int, length as int),
                queue@.len() == length - i,
                ready(whole, 0, Seq::empty()) == ready(whole, i as int, trees(parts@)),
            decreases length - i,
        {
            assert(queue_view(queue@)[0] == whole[i as int]);
            let ghost prior = queue_view(queue@);
            let (_, value) = queue.remove(0);
            match value {
                Some(part) => parts.push(part),
                None => {},
            }
            proof {
                assert(queue_view(queue@) =~= prior.subrange(1, prior.len() as int));
                assert(prior.subrange(1, prior.len() as int) =~= whole.subrange(
                    i + 1,
                    length as int,
                ));
            }
            i += 1;
        }
        proof {
            if i < length {
                assert(queue_view(queue@)[0] == whole[i as int]);
            } else {
                assert(queue_view(queue@) =~= Seq::empty());
            }
        }
        std::mem::swap(&mut self.queue, &mut queue);
        parts
    }

    fn pass(&mut self, part: &Json) -> (r: Vec<Json>)
        ensures
            (final(self)@, Ok::<Seq<Tree>, Seq<char>>(trees(r@))) == old(self)@.passed(part@),
            final(self).wf() == old(self).wf(),
    {
        self.queue.push((None, Some(part.copy())));
        proof {
            assert(self@.queue =~= old(self)@.queue.push((None, Some(part@))));
        }
        self.drain()
    }

    fn begin(&mut self, part: &Json, call: &Json) -> (r: Result<(), Error>)
        ensures
            match old(self)@.begun(part@, call@) {
                Ok(state) => r is Ok && final(self)@ == state,
                Err(message) => r is Err && r->Err_0.message@ == message && final(self)@ == old(
                    self,
                )@,
            },
            final(self).wf() == old(self).wf(),
    {
        match call.get("name") {
            None => Ok(()),
            Some(name) => {
                match call.get("id") {
                    Some(id) => if find_call(&self.active, id).is_some() {
                        return Err(Error::new("Duplicate active streaming function call ID"));
                    },
                    None => {},
                }
                let start = start_call(part, name, call.get("id"));
                self.serial = if self.serial == u64::MAX {
                    0
                } else {
                    self.serial + 1
                };
                self.queue.push((Some(self.serial), None));
                self.active.push((self.serial, start));
                proof {
                    assert(self@.queue =~= old(self)@.queue.push((Some(self.serial), None)));
                    assert(self@.active =~= old(self)@.active.push((self.serial, start@)));
                }
                Ok(())
            },
        }
    }

    fn complete(&mut self, index: usize) -> (r: Result<Vec<Json>, Error>)
        requires
            index < old(self).active.len(),
        ensures
            (final(self)@, outcome(r)) == old(self)@.completed(index as int),
            final(self).wf() == old(self).wf(),
    {
        let (serial, part) = self.active.remove(index);
        proof {
            assert(self@.active =~= old(self)@.active.remove(index as int));
        }
        match find_slot(&self.queue, serial) {
            None => Err(Error::new("Missing partial function slot")),
            Some(slot) => {
                let ghost before = self@;
                self.queue[slot].1 = Some(part);
                proof {
                    assert(self@.queue =~= before.queue.update(
                        slot as int,
                        (before.queue[slot as int].0, Some(part@)),
                    ));
                }
                Ok(self.drain())
            },
        }
    }

    fn proceed(&mut self, index: usize, part: &Json, call: &Json) -> (r: Result<Vec<Json>, Error>)
        requires
            index < old(self).active.len(),
            old(self).wf(),
        ensures
            (final(self)@, outcome(r)) == old(self)@.continued(index as int, part@, call@),
            final(self).wf(),
    {
        match part.get("thoughtSignature") {
            Some(signature) => {
                match self.active[index].1.get("thoughtSignature") {
                    Some(own) => if !own.equals(signature) {
                        return Err(Error::new("Conflicting streaming function signatures"));
                    },
                    None => {},
                }
                self.active[index].1.set("thoughtSignature", signature.copy());
                proof {
                    assert(self@.active =~= old(self)@.active.update(
                        index as int,
                        (old(self)@.active[index as int].0, self@.active[index as int].1),
                    ));
                }
            },
            None => {
                proof {
                    assert(self@.active =~= old(self)@.active.update(
                        index as int,
                        old(self)@.active[index as int],
                    ));
                }
            },
        }
        let continuing = is_true(call.at("willContinue"));
        let mut more: bool = continuing;
        match call.get("partialArgs") {
            None => {},
            Some(list) => {
                let list = match list.as_array() {
                    Some(list) => list,
                    None => return Err(Error::new("partialArgs must be an array")),
                };
                let ghost before = self@;
                let mut inner = self.active[index].1.at("functionCall").copy();
                let mut args = inner.at("args").copy();
                let result = fill(&mut args, list, &mut self.allocated_slots, continuing);
                inner.set("args", args);
                self.active[index].1.set("functionCall", inner);
                proof {
                    assert(self@.active =~= before.active.update(
                        index as int,
                        (before.active[index as int].0, self@.active[index as int].1),
                    ));
                    assert(self@.active =~= old(self)@.active.update(
                        index as int,
                        (old(self)@.active[index as int].0, self@.active[index as int].1),
                    ));
                }
                match result {
                    Ok(m) => {
                        more = m;
                    },
                    Err(error) => return Err(error),
                }
            },
        }
        if more {
            Ok(self.drain())
        } else {
            self.complete(index)
        }
    }

    /// Takes a native part, and hands out the parts that are complete now, in order.
    pub fn part(&mut self, part: &Json) -> (r: Result<Vec<Json>, Error>)
        requires
            old(self).wf(),
        ensures
            (final(self)@, outcome(r)) == old(self)@.taken(part@),
            final(self).wf(),
    {
        let call = match part.get("functionCall") {
            Some(call) => call,
            None => return Ok(self.pass(part)),
        };
        let more = is_true(call.at("willContinue"));
        let partial = call.has("partialArgs") || more;
        let terminal = !call.has("name") && !call.has("args") && !call.has("partialArgs") && !more;
        if !partial && !terminal {
            return Ok(self.pass(part));
        }
        if call.has("args") {
            return Err(Error::new("Streaming function call cannot mix args and partialArgs"));
        }
        self.trace.push(part.copy());
        self.begin(part, call)?;
        let index: usize = match call.get("id") {
            Some(id) => match find_call(&self.active, id) {
                Some(index) => index,
                None => return Err(Error::new("Unknown streaming function call ID")),
            },
            None => {
                if self.active.len() == 0 {
                    return Err(Error::new("Function argument continuation has no active call"));
                }
                self.active.len() - 1
            },
        };
        self.proceed(index, part, call)
    }
}

} // verus!

//! What a response keeps of the native response that it is made from.

use vstd::prelude::*;
use crate::chat::answered::{finishes_are_told, only_choice};
use crate::chat::response::completion_of;
use crate::exchange::written;
use crate::gemini::conversation::list_of;
use crate::gemini::followup::keeping_lacks;
use crate::gemini::parts::empty_object;
use crate::gemini::provider::Thinking;
use crate::gemini::request::{converted, kept, repeated, Converted};
use crate::gemini::response::{
    answer_carrier, answer_items, answer_parts, call_id_of, converted_response, hidden, item_name,
    items_from, items_of, judged, merged, number, part_item, reasoning_item, shown_content,
    summary_from, summary_text, unmerged_response, usage_of, usage_or_null,
};
use crate::gemini::stream::{lacks, merged_lacks};
use crate::gemini::tools::ToolView;
use crate::members::member_laws;
use crate::table::{find, find_from, put, put_adds_one, put_keeps_others, put_then_find};
use crate::tree::Tree;

verus! {

// ---- what is repeated of the request --------------------------------------------------------

/// A request of which nothing is repeated in the place of what a response tells.
pub open spec fn quiet(request: Converted) -> bool {
    let fields = request.response_fields;
    &&& lacks(fields, "id"@)
    &&& lacks(fields, "object"@)
    &&& lacks(fields, "created_at"@)
    &&& lacks(fields, "status"@)
    &&& lacks(fields, "model"@)
    &&& lacks(fields, "output"@)
    &&& lacks(fields, "usage"@)
    &&& lacks(fields, "error"@)
    &&& lacks(fields, "incomplete_details"@)
    &&& lacks(fields, "parallel_tool_calls"@)
    &&& lacks(fields, "store"@)
    &&& lacks(fields, "gemini"@)
}

proof fn others_stay_out(request: Tree, name: Seq<char>)
    requires
        name != "metadata"@,
        name != "client_metadata"@,
        name != "reasoning"@,
        name != "text"@,
        name != "instructions"@,
        name != "max_output_tokens"@,
        name != "temperature"@,
        name != "top_p"@,
        name != "tool_choice"@,
        name != "tools"@,
        name != "prompt_cache_key"@,
        name != "prompt_cache_retention"@,
        name != "safety_identifier"@,
        name != "user"@,
        name != "service_tier"@,
        name != "truncation"@,
    ensures
        lacks(repeated(request), name),
{
    reveal(repeated);
    let k0 = Seq::<(Seq<char>, Tree)>::empty();
    keeping_lacks(k0, request, "metadata"@, name);
    let k1 = kept(k0, request, "metadata"@);
    keeping_lacks(k1, request, "client_metadata"@, name);
    let k2 = kept(k1, request, "client_metadata"@);
    keeping_lacks(k2, request, "reasoning"@, name);
    let k3 = kept(k2, request, "reasoning"@);
    keeping_lacks(k3, request, "text"@, name);
    let k4 = kept(k3, request, "text"@);
    keeping_lacks(k4, request, "instructions"@, name);
    let k5 = kept(k4, request, "instructions"@);
    keeping_lacks(k5, request, "max_output_tokens"@, name);
    let k6 = kept(k5, request, "max_output_tokens"@);
    keeping_lacks(k6, request, "temperature"@, name);
    let k7 = kept(k6, request, "temperature"@);
    keeping_lacks(k7, request, "top_p"@, name);
    let k8 = kept(k7, request, "top_p"@);
    keeping_lacks(k8, request, "tool_choice"@, name);
    let k9 = kept(k8, request, "tool_choice"@);
    keeping_lacks(k9, request, "tools"@, name);
    let k10 = kept(k9, request, "tools"@);
    keeping_lacks(k10, request, "prompt_cache_key"@, name);
    let k11 = kept(k10, request, "prompt_cache_key"@);
    keeping_lacks(k11, request, "prompt_cache_retention"@, name);
    let k12 = kept(k11, request, "prompt_cache_retention"@);
    keeping_lacks(k12, request, "safety_identifier"@, name);
    let k13 = kept(k12, request, "safety_identifier"@);
    keeping_lacks(k13, request, "user"@, name);
    let k14 = kept(k13, request, "user"@);
    keeping_lacks(k14, request, "service_tier"@, name);
    let k15 = kept(k14, request, "service_tier"@);
    keeping_lacks(k15, request, "truncation"@, name);
}

/// A member that a response repeats of its request.
pub open spec fn repeated_name(name: Seq<char>) -> bool {
    name == "metadata"@
        || name == "client_metadata"@
        || name == "reasoning"@
        || name == "text"@
        || name == "instructions"@
        || name == "max_output_tokens"@
        || name == "temperature"@
        || name == "top_p"@
        || name == "tool_choice"@
        || name == "tools"@
        || name == "prompt_cache_key"@
        || name == "prompt_cache_retention"@
        || name == "safety_identifier"@
        || name == "user"@
        || name == "service_tier"@
        || name == "truncation"@
}

proof fn results_are_not_named_alike(name: Seq<char>)
    requires
        name == "id"@
            || name == "object"@
            || name == "created_at"@
            || name == "status"@
            || name == "model"@
            || name == "output"@
            || name == "usage"@
            || name == "error"@
            || name == "incomplete_details"@
            || name == "parallel_tool_calls"@
            || name == "store"@
            || name == "gemini"@,
    ensures
        !repeated_name(name),
{
    reveal_strlit("metadata");
    reveal_strlit("client_metadata");
    reveal_strlit("reasoning");
    reveal_strlit("text");
    reveal_strlit("instructions");
    reveal_strlit("max_output_tokens");
    reveal_strlit("temperature");
    reveal_strlit("top_p");
    reveal_strlit("tool_choice");
    reveal_strlit("tools");
    reveal_strlit("prompt_cache_key");
    reveal_strlit("prompt_cache_retention");
    reveal_strlit("safety_identifier");
    reveal_strlit("user");
    reveal_strlit("service_tier");
    reveal_strlit("truncation");
    reveal_strlit("id");
    reveal_strlit("object");
    reveal_strlit("created_at");
    reveal_strlit("status");
    reveal_strlit("model");
    reveal_strlit("output");
    reveal_strlit("usage");
    reveal_strlit("error");
    reveal_strlit("incomplete_details");
    reveal_strlit("parallel_tool_calls");
    reveal_strlit("store");
    reveal_strlit("gemini");
    assert("metadata"@.len() == 8);
    assert("client_metadata"@.len() == 15);
    assert("reasoning"@.len() == 9);
    assert("text"@.len() == 4);
    assert("instructions"@.len() == 12);
    assert("max_output_tokens"@.len() == 17);
    assert("temperature"@.len() == 11);
    assert("top_p"@.len() == 5);
    assert("tool_choice"@.len() == 11);
    assert("tools"@.len() == 5);
    assert("prompt_cache_key"@.len() == 16);
    assert("prompt_cache_retention"@.len() == 22);
    assert("safety_identifier"@.len() == 17);
    assert("user"@.len() == 4);
    assert("service_tier"@.len() == 12);
    assert("truncation"@.len() == 10);
    assert("id"@.len() == 2);
    assert("object"@.len() == 6);
    assert("created_at"@.len() == 10);
    assert("status"@.len() == 6);
    assert("model"@.len() == 5);
    assert("output"@.len() == 6);
    assert("usage"@.len() == 5);
    assert("error"@.len() == 5);
    assert("incomplete_details"@.len() == 18);
    assert("parallel_tool_calls"@.len() == 19);
    assert("store"@.len() == 5);
    assert("gemini"@.len() == 6);
    assert("text"@[0] == 't');
    assert("user"@[0] == 'u');
    assert("instructions"@[0] == 'i');
    assert("service_tier"@[0] == 's');
    assert("max_output_tokens"@[0] == 'm');
    assert("safety_identifier"@[0] == 's');
    assert("temperature"@[1] == 'e');
    assert("tool_choice"@[1] == 'o');
    assert("top_p"@[0] == 't');
    assert("top_p"@[2] == 'p');
    assert("tools"@[0] == 't');
    assert("tools"@[2] == 'o');
    assert("model"@[0] == 'm');
    assert("usage"@[0] == 'u');
    assert("error"@[0] == 'e');
    assert("store"@[0] == 's');
    assert("truncation"@[0] == 't');
    assert("created_at"@[0] == 'c');
    assert("object"@[0] == 'o');
    assert("object"@[1] == 'b');
    assert("status"@[0] == 's');
    assert("output"@[0] == 'o');
    assert("output"@[1] == 'u');
    assert("gemini"@[0] == 'g');
}

/// No response of a converted request is told otherwise by what it repeats.
pub proof fn answers_are_not_overwritten(
    request: Tree,
    url: Seq<char>,
    thinking: Thinking,
    key: Seq<u8>,
    done: Converted,
)
    requires
        converted(request, url, thinking, key) == Ok::<Converted, Seq<char>>(done),
    ensures
        quiet(done),
{
    results_are_not_named_alike("id"@);
    others_stay_out(request, "id"@);
    results_are_not_named_alike("object"@);
    others_stay_out(request, "object"@);
    results_are_not_named_alike("created_at"@);
    others_stay_out(request, "created_at"@);
    results_are_not_named_alike("status"@);
    others_stay_out(request, "status"@);
    results_are_not_named_alike("model"@);
    others_stay_out(request, "model"@);
    results_are_not_named_alike("output"@);
    others_stay_out(request, "output"@);
    results_are_not_named_alike("usage"@);
    others_stay_out(request, "usage"@);
    results_are_not_named_alike("error"@);
    others_stay_out(request, "error"@);
    results_are_not_named_alike("incomplete_details"@);
    others_stay_out(request, "incomplete_details"@);
    results_are_not_named_alike("parallel_tool_calls"@);
    others_stay_out(request, "parallel_tool_calls"@);
    results_are_not_named_alike("store"@);
    others_stay_out(request, "store"@);
    results_are_not_named_alike("gemini"@);
    others_stay_out(request, "gemini"@);
}

proof fn keeping_finds(
    fields: Seq<(Seq<char>, Tree)>,
    request: Tree,
    key: Seq<char>,
    name: Seq<char>,
)
    requires
        find(fields, name) is Some ==> find(fields, name) == request.get(name),
        forall|i: int| 0 <= i < fields.len() ==> request.get((#[trigger] fields[i]).0) == Some(
            fields[i].1,
        ),
    ensures
        ({
            let after = kept(fields, request, key);
            &&& key == name ==> find(after, name) == request.get(name) || find(after, name)
                == find(fields, name)
            &&& key == name && request.get(name) is Some ==> find(after, name) == request.get(
                name,
            )
            &&& find(after, name) is Some ==> find(after, name) == request.get(name)
            &&& find(fields, name) is Some ==> find(after, name) is Some
            &&& forall|i: int|
                0 <= i < after.len() ==> request.get((#[trigger] after[i]).0) == Some(after[i].1)
        }),
{
    if let Some(value) = request.get(key) {
        put_then_find(fields, key, value);
        if key != name {
            put_keeps_others(fields, key, value, name);
        }
        put_adds_one(fields, key, value);
        let after = put(fields, key, value);
        assert forall|i: int| 0 <= i < after.len() implies request.get((#[trigger] after[i]).0)
            == Some(after[i].1) by {
            if after[i] != (key, value) {
                assert(fields.contains(after[i]));
                let k = choose|k: int| 0 <= k < fields.len() && fields[k] == after[i];
                assert(request.get(fields[k].0) == Some(fields[k].1));
            }
        }
    }
}

proof fn repeated_are_found(request: Tree, name: Seq<char>)
    requires
        repeated_name(name),
        request.get(name) is Some,
    ensures
        find(repeated(request), name) is Some,
        forall|i: int|
            0 <= i < repeated(request).len() ==> request.get((#[trigger] repeated(request)[i]).0)
                == Some(repeated(request)[i].1),
{
    reveal(repeated);
    let k0 = Seq::<(Seq<char>, Tree)>::empty();
    keeping_finds(k0, request, "metadata"@, name);
    let k1 = kept(k0, request, "metadata"@);
    keeping_finds(k1, request, "client_metadata"@, name);
    let k2 = kept(k1, request, "client_metadata"@);
    keeping_finds(k2, request, "reasoning"@, name);
    let k3 = kept(k2, request, "reasoning"@);
    keeping_finds(k3, request, "text"@, name);
    let k4 = kept(k3, request, "text"@);
    keeping_finds(k4, request, "instructions"@, name);
    let k5 = kept(k4, request, "instructions"@);
    keeping_finds(k5, request, "max_output_tokens"@, name);
    let k6 = kept(k5, request, "max_output_tokens"@);
    keeping_finds(k6, request, "temperature"@, name);
    let k7 = kept(k6, request, "temperature"@);
    keeping_finds(k7, request, "top_p"@, name);
    let k8 = kept(k7, request, "top_p"@);
    keeping_finds(k8, request, "tool_choice"@, name);
    let k9 = kept(k8, request, "tool_choice"@);
    keeping_finds(k9, request, "tools"@, name);
    let k10 = kept(k9, request, "tools"@);
    keeping_finds(k10, request, "prompt_cache_key"@, name);
    let k11 = kept(k10, request, "prompt_cache_key"@);
    keeping_finds(k11, request, "prompt_cache_retention"@, name);
    let k12 = kept(k11, request, "prompt_cache_retention"@);
    keeping_finds(k12, request, "safety_identifier"@, name);
    let k13 = kept(k12, request, "safety_identifier"@);
    keeping_finds(k13, request, "user"@, name);
    let k14 = kept(k13, request, "user"@);
    keeping_finds(k14, request, "service_tier"@, name);
    let k15 = kept(k14, request, "service_tier"@);
    keeping_finds(k15, request, "truncation"@, name);
}

proof fn found_stands(fields: Seq<(Seq<char>, Tree)>, name: Seq<char>, from: int) -> (k: int)
    requires
        0 <= from,
        find_from(fields, name, from) is Some,
    ensures
        from <= k < fields.len(),
        fields[k].0 == name,
    decreases fields.len() - from,
{
    if fields[from].0 == name {
        from
    } else {
        found_stands(fields, name, from + 1)
    }
}

proof fn merging_carries(
    object: Tree,
    fields: Seq<(Seq<char>, Tree)>,
    from: int,
    request: Tree,
    name: Seq<char>,
)
    requires
        0 <= from,
        object is Object,
        forall|i: int| 0 <= i < fields.len() ==> request.get((#[trigger] fields[i]).0) == Some(
            fields[i].1,
        ),
        object.at(name) == request.at(name) || exists|k: int|
            from <= k < fields.len() && (#[trigger] fields[k]).0 == name,
    ensures
        merged(object, fields, from).at(name) == request.at(name),
    decreases fields.len() - from,
{
    broadcast use member_laws;

    if from < fields.len() {
        let (key, value) = fields[from];
        let next = object.with(key, value);
        assert(next is Object && next.at(key) == value);
        assert(request.get(fields[from].0) == Some(fields[from].1));
        if key == name {
            assert(next.at(name) == request.at(name));
        } else {
            assert(next.at(name) == object.at(name));
        }
        merging_carries(next, fields, from + 1, request, name);
    }
}

/// A response repeats the settings of its request as they were asked for.
pub proof fn settings_are_repeated(
    asked: Tree,
    url: Seq<char>,
    thinking: Thinking,
    key: Seq<u8>,
    request: Converted,
    native: Tree,
    id: Seq<char>,
    created_at: u64,
    nonce: Seq<u8>,
    done: Tree,
    name: Seq<char>,
)
    requires
        converted(asked, url, thinking, key) == Ok::<Converted, Seq<char>>(request),
        converted_response(native, request, key, id, created_at, nonce) == Ok::<Tree, Seq<char>>(
            done,
        ),
        !native.has("error"@),
        asked.has(name),
        name == "metadata"@
            || name == "client_metadata"@
            || name == "reasoning"@
            || name == "text"@
            || name == "instructions"@
            || name == "max_output_tokens"@
            || name == "temperature"@
            || name == "top_p"@
            || name == "tool_choice"@
            || name == "tools"@
            || name == "prompt_cache_key"@
            || name == "prompt_cache_retention"@
            || name == "safety_identifier"@
            || name == "user"@
            || name == "service_tier"@
            || name == "truncation"@,
    ensures
        done.at(name) == asked.at(name),
{
    broadcast use member_laws;

    repeated_are_found(asked, name);
    let fields = request.response_fields;
    let k = found_stands(fields, name, 0);
    let ended = judged(native, answer_parts(native), request.output_schema);
    let carried = answer_carrier(native, request, key, id, nonce)->Ok_0;
    let base = unmerged_response(
        native,
        request,
        id,
        created_at,
        answer_parts(native),
        answer_items(native, request, id),
        ended,
        carried,
    );
    merging_carries(base, fields, 0, asked, name);
}

// ---- the members of a response --------------------------------------------------------------

proof fn member_names_differ()
    ensures
        "id"@ != "object"@,
        "id"@ != "created_at"@,
        "id"@ != "status"@,
        "id"@ != "model"@,
        "id"@ != "output"@,
        "id"@ != "usage"@,
        "id"@ != "error"@,
        "id"@ != "incomplete_details"@,
        "id"@ != "parallel_tool_calls"@,
        "id"@ != "store"@,
        "id"@ != "gemini"@,
        "object"@ != "created_at"@,
        "object"@ != "status"@,
        "object"@ != "model"@,
        "object"@ != "output"@,
        "object"@ != "usage"@,
        "object"@ != "error"@,
        "object"@ != "incomplete_details"@,
        "object"@ != "parallel_tool_calls"@,
        "object"@ != "store"@,
        "object"@ != "gemini"@,
        "created_at"@ != "status"@,
        "created_at"@ != "model"@,
        "created_at"@ != "output"@,
        "created_at"@ != "usage"@,
        "created_at"@ != "error"@,
        "created_at"@ != "incomplete_details"@,
        "created_at"@ != "parallel_tool_calls"@,
        "created_at"@ != "store"@,
        "created_at"@ != "gemini"@,
        "status"@ != "model"@,
        "status"@ != "output"@,
        "status"@ != "usage"@,
        "status"@ != "error"@,
        "status"@ != "incomplete_details"@,
        "status"@ != "parallel_tool_calls"@,
        "status"@ != "store"@,
        "status"@ != "gemini"@,
        "model"@ != "output"@,
        "model"@ != "usage"@,
        "model"@ != "error"@,
        "model"@ != "incomplete_details"@,
        "model"@ != "parallel_tool_calls"@,
        "model"@ != "store"@,
        "model"@ != "gemini"@,
        "output"@ != "usage"@,
        "output"@ != "error"@,
        "output"@ != "incomplete_details"@,
        "output"@ != "parallel_tool_calls"@,
        "output"@ != "store"@,
        "output"@ != "gemini"@,
        "usage"@ != "error"@,
        "usage"@ != "incomplete_details"@,
        "usage"@ != "parallel_tool_calls"@,
        "usage"@ != "store"@,
        "usage"@ != "gemini"@,
        "error"@ != "incomplete_details"@,
        "error"@ != "parallel_tool_calls"@,
        "error"@ != "store"@,
        "error"@ != "gemini"@,
        "incomplete_details"@ != "parallel_tool_calls"@,
        "incomplete_details"@ != "store"@,
        "incomplete_details"@ != "gemini"@,
        "parallel_tool_calls"@ != "store"@,
        "parallel_tool_calls"@ != "gemini"@,
        "store"@ != "gemini"@,
{
    reveal_strlit("id");
    reveal_strlit("object");
    reveal_strlit("created_at");
    reveal_strlit("status");
    reveal_strlit("model");
    reveal_strlit("output");
    reveal_strlit("usage");
    reveal_strlit("error");
    reveal_strlit("incomplete_details");
    reveal_strlit("parallel_tool_calls");
    reveal_strlit("store");
    reveal_strlit("gemini");
    assert("id"@.len() == 2);
    assert("object"@.len() == 6);
    assert("created_at"@.len() == 10);
    assert("status"@.len() == 6);
    assert("model"@.len() == 5);
    assert("output"@.len() == 6);
    assert("usage"@.len() == 5);
    assert("error"@.len() == 5);
    assert("incomplete_details"@.len() == 18);
    assert("parallel_tool_calls"@.len() == 19);
    assert("store"@.len() == 5);
    assert("gemini"@.len() == 6);
    assert("object"@[0] == 'o');
    assert("object"@[1] == 'b');
    assert("status"@[0] == 's');
    assert("output"@[0] == 'o');
    assert("output"@[1] == 'u');
    assert("gemini"@[0] == 'g');
    assert("model"@[0] == 'm');
    assert("usage"@[0] == 'u');
    assert("error"@[0] == 'e');
    assert("store"@[0] == 's');
}

/// The members of a response that is no error.
proof fn members_are_told(
    native: Tree,
    request: Converted,
    key: Seq<u8>,
    id: Seq<char>,
    created_at: u64,
    nonce: Seq<u8>,
    done: Tree,
)
    requires
        converted_response(native, request, key, id, created_at, nonce) == Ok::<Tree, Seq<char>>(
            done,
        ),
        !native.has("error"@),
        quiet(request),
    ensures
        ({
            let parts = answer_parts(native);
            let ended = judged(native, parts, request.output_schema);
            &&& done.at("id"@) == Tree::Text("resp_"@ + id)
            &&& done.at("object"@) == Tree::Text("response"@)
            &&& done.at("created_at"@) == number(created_at)
            &&& done.at("status"@) == Tree::Text(ended.0)
            &&& done.at("model"@) == Tree::Text(request.response_model)
            &&& done.at("output"@) == Tree::Array(
                seq![
                    reasoning_item(
                        id,
                        summary_from(parts, 0, Seq::empty()),
                        answer_carrier(native, request, key, id, nonce)->Ok_0,
                    ),
                ] + answer_items(native, request, id),
            )
            &&& done.at("usage"@) == usage_or_null(native)
            &&& done.at("error"@) == ended.1
            &&& done.at("incomplete_details"@) == ended.2
            &&& done.at("gemini"@) == native
            &&& items_of(parts, request.tools, id) is Ok
        }),
{
    broadcast use member_laws;

    member_names_differ();
    let parts = answer_parts(native);
    let items = answer_items(native, request, id);
    let ended = judged(native, parts, request.output_schema);
    let carried = answer_carrier(native, request, key, id, nonce)->Ok_0;
    let base = unmerged_response(native, request, id, created_at, parts, items, ended, carried);
    let output = Tree::Array(
        seq![reasoning_item(id, summary_from(parts, 0, Seq::empty()), carried)] + items,
    );
    let a = empty_object().with("id"@, Tree::Text("resp_"@ + id));
    let b = a.with("object"@, Tree::Text("response"@));
    let c = b.with("created_at"@, number(created_at));
    let d = c.with("status"@, Tree::Text(ended.0));
    let e = d.with("model"@, Tree::Text(request.response_model));
    let f = e.with("output"@, output);
    let g = f.with("usage"@, usage_or_null(native));
    let h = g.with("error"@, ended.1);
    let i = h.with("incomplete_details"@, ended.2);
    let j = i.with("parallel_tool_calls"@, Tree::Bool(true));
    let k = j.with("store"@, Tree::Bool(false));
    assert(base == k.with("gemini"@, native));
    assert(e.at("id"@) == Tree::Text("resp_"@ + id));
    assert(e.at("object"@) == Tree::Text("response"@));
    assert(e.at("created_at"@) == number(created_at));
    assert(e.at("status"@) == Tree::Text(ended.0));
    assert(h.at("output"@) == output);
    assert(i.at("usage"@) == usage_or_null(native));
    assert(i.at("error"@) == ended.1);
    let fields = request.response_fields;
    merged_lacks(base, fields, 0, "id"@);
    merged_lacks(base, fields, 0, "object"@);
    merged_lacks(base, fields, 0, "created_at"@);
    merged_lacks(base, fields, 0, "status"@);
    merged_lacks(base, fields, 0, "model"@);
    merged_lacks(base, fields, 0, "output"@);
    merged_lacks(base, fields, 0, "usage"@);
    merged_lacks(base, fields, 0, "error"@);
    merged_lacks(base, fields, 0, "incomplete_details"@);
    merged_lacks(base, fields, 0, "parallel_tool_calls"@);
    merged_lacks(base, fields, 0, "store"@);
    merged_lacks(base, fields, 0, "gemini"@);
}

/// A response is that of the request: under its own id and time, and in the name of the model
/// that was asked for.
pub proof fn answers_are_named(
    native: Tree,
    request: Converted,
    key: Seq<u8>,
    id: Seq<char>,
    created_at: u64,
    nonce: Seq<u8>,
    done: Tree,
)
    requires
        converted_response(native, request, key, id, created_at, nonce) == Ok::<Tree, Seq<char>>(
            done,
        ),
        quiet(request),
    ensures
        done.at("id"@) == Tree::Text("resp_"@ + id),
        done.at("object"@) == Tree::Text("response"@),
        done.at("model"@) == Tree::Text(request.response_model),
        done.at("gemini"@) == native,
        !native.has("error"@) ==> done.at("created_at"@).natural() == Some(created_at),
        native.has("error"@) ==> done.at("status"@) == Tree::Text("failed"@) && done.at("output"@)
            == Tree::Array(Seq::empty()),
{
    broadcast use member_laws;

    if native.has("error"@) {
        member_names_differ();
        let a = empty_object().with("id"@, Tree::Text("resp_"@ + id));
        let b = a.with("object"@, Tree::Text("response"@));
        let c = b.with("status"@, Tree::Text("failed"@));
        let d = c.with("model"@, Tree::Text(request.response_model));
        let e = d.with("output"@, Tree::Array(Seq::empty()));
        assert(c.at("id"@) == Tree::Text("resp_"@ + id));
        assert(e.at("id"@) == Tree::Text("resp_"@ + id));
        assert(e.at("object"@) == Tree::Text("response"@));
        assert(e.at("status"@) == Tree::Text("failed"@));
        assert(e.at("model"@) == Tree::Text(request.response_model));
    } else {
        members_are_told(native, request, key, id, created_at, nonce, done);
    }
}

// ---- how a response ended -------------------------------------------------------------------

proof fn error_names_differ()
    ensures
        "type"@ != "code"@,
        "type"@ != "gemini_code"@,
        "type"@ != "message"@,
        "code"@ != "gemini_code"@,
        "code"@ != "message"@,
        "gemini_code"@ != "message"@,
{
    reveal_strlit("type");
    reveal_strlit("code");
    reveal_strlit("gemini_code");
    reveal_strlit("message");
    assert("type"@.len() == 4);
    assert("code"@.len() == 4);
    assert("gemini_code"@.len() == 11);
    assert("message"@.len() == 7);
    assert("type"@[0] == 't');
    assert("code"@[0] == 'c');
}

proof fn reasons_differ()
    ensures
        "STOP"@ != "MAX_TOKENS"@,
        "STOP"@ != "SAFETY"@,
        "STOP"@ != "RECITATION"@,
        "STOP"@ != "BLOCKLIST"@,
        "STOP"@ != "PROHIBITED_CONTENT"@,
        "STOP"@ != "SPII"@,
        "STOP"@ != "IMAGE_SAFETY"@,
        "STOP"@ != "IMAGE_PROHIBITED_CONTENT"@,
        "MAX_TOKENS"@ != "SAFETY"@,
        "MAX_TOKENS"@ != "RECITATION"@,
        "MAX_TOKENS"@ != "BLOCKLIST"@,
        "MAX_TOKENS"@ != "PROHIBITED_CONTENT"@,
        "MAX_TOKENS"@ != "SPII"@,
        "MAX_TOKENS"@ != "IMAGE_SAFETY"@,
        "MAX_TOKENS"@ != "IMAGE_PROHIBITED_CONTENT"@,
        "failed"@ != "completed"@,
        "incomplete"@ != "completed"@,
        "incomplete"@ != "failed"@,
{
    reveal_strlit("STOP");
    reveal_strlit("MAX_TOKENS");
    reveal_strlit("SAFETY");
    reveal_strlit("RECITATION");
    reveal_strlit("BLOCKLIST");
    reveal_strlit("PROHIBITED_CONTENT");
    reveal_strlit("SPII");
    reveal_strlit("IMAGE_SAFETY");
    reveal_strlit("IMAGE_PROHIBITED_CONTENT");
    reveal_strlit("failed");
    reveal_strlit("completed");
    reveal_strlit("incomplete");
    assert("STOP"@.len() == 4);
    assert("MAX_TOKENS"@.len() == 10);
    assert("SAFETY"@.len() == 6);
    assert("RECITATION"@.len() == 10);
    assert("BLOCKLIST"@.len() == 9);
    assert("PROHIBITED_CONTENT"@.len() == 18);
    assert("SPII"@.len() == 4);
    assert("IMAGE_SAFETY"@.len() == 12);
    assert("IMAGE_PROHIBITED_CONTENT"@.len() == 24);
    assert("failed"@.len() == 6);
    assert("completed"@.len() == 9);
    assert("incomplete"@.len() == 10);
    assert("STOP"@[1] == 'T');
    assert("SPII"@[1] == 'P');
    assert("MAX_TOKENS"@[0] == 'M');
    assert("RECITATION"@[0] == 'R');
    assert("incomplete"@[0] == 'i');
    assert("SAFETY"@[0] == 'S');
    assert("failed"@[0] == 'f');
    assert("BLOCKLIST"@[0] == 'B');
    assert("completed"@[0] == 'c');
}

/// A native response whose prompt was not blocked and which stopped at its limit of tokens is
/// incomplete for that reason, without an error; the chat completion that is made of it finishes
/// for its length.
pub proof fn cut_answers_are_incomplete(
    native: Tree,
    request: Converted,
    key: Seq<u8>,
    id: Seq<char>,
    created_at: u64,
    nonce: Seq<u8>,
    done: Tree,
    model: Seq<char>,
    excluded: bool,
)
    requires
        converted_response(native, request, key, id, created_at, nonce) == Ok::<Tree, Seq<char>>(
            done,
        ),
        quiet(request),
        !native.has("error"@),
        !(native.at("promptFeedback"@).at("blockReason"@) is Text),
        list_of(native.at("candidates"@)).len() > 0,
        list_of(native.at("candidates"@))[0].at("finishReason"@) == Tree::Text("MAX_TOKENS"@),
    ensures
        done.at("status"@) == Tree::Text("incomplete"@),
        done.at("error"@) is Null,
        done.at("incomplete_details"@).at("reason"@) == Tree::Text("max_output_tokens"@),
        completion_of(done, model, excluded) is Ok ==> only_choice(
            completion_of(done, model, excluded)->Ok_0,
        ).at("finish_reason"@) == Tree::Text("length"@),
{
    broadcast use member_laws;

    reasons_differ();
    members_are_told(native, request, key, id, created_at, nonce, done);
    if completion_of(done, model, excluded) is Ok {
        finishes_are_told(done, model, excluded, completion_of(done, model, excluded)->Ok_0);
    }
}

/// How a native response ended tells how the response ended. One that stopped by itself is
/// completed, unless its answer has to satisfy a schema and does not; a blocked prompt and an
/// answer that was refused are invalid prompts; any other end, or none, is a failure of the
/// server. A response that has failed is not incomplete.
pub proof fn ends_are_told(
    native: Tree,
    request: Converted,
    key: Seq<u8>,
    id: Seq<char>,
    created_at: u64,
    nonce: Seq<u8>,
    done: Tree,
)
    requires
        converted_response(native, request, key, id, created_at, nonce) == Ok::<Tree, Seq<char>>(
            done,
        ),
        quiet(request),
        !native.has("error"@),
    ensures
        ({
            let blocked = native.at("promptFeedback"@).at("blockReason"@);
            let reason = if list_of(native.at("candidates"@)).len() > 0 {
                list_of(native.at("candidates"@))[0].at("finishReason"@)
            } else {
                Tree::Null
            };
            let stopped = reason == Tree::Text("STOP"@);
            let refused = reason == Tree::Text("SAFETY"@) || reason == Tree::Text("RECITATION"@)
                || reason == Tree::Text("BLOCKLIST"@) || reason == Tree::Text(
                "PROHIBITED_CONTENT"@,
            ) || reason == Tree::Text("SPII"@) || reason == Tree::Text("IMAGE_SAFETY"@) || reason
                == Tree::Text("IMAGE_PROHIBITED_CONTENT"@);
            let error = done.at("error"@);
            &&& blocked is Text ==> done.at("status"@) == Tree::Text("failed"@) && error.at(
                "code"@,
            ) == Tree::Text("invalid_prompt"@) && error.at("type"@) == Tree::Text(
                "invalid_request_error"@,
            ) && error.at("gemini_code"@) == Tree::Text("gemini_prompt_blocked"@)
            &&& !(blocked is Text) && refused ==> done.at("status"@) == Tree::Text("failed"@)
                && error.at("code"@) == Tree::Text("invalid_prompt"@) && error.at("type"@)
                == Tree::Text("invalid_request_error"@) && error.at("gemini_code"@) == Tree::Text(
                "gemini_finish_error"@,
            )
            &&& !(blocked is Text) && reason is Text && !refused && !stopped && reason
                != Tree::Text("MAX_TOKENS"@) ==> done.at("status"@) == Tree::Text("failed"@)
                && error.at("code"@) == Tree::Text("server_error"@) && error.at("type"@)
                == Tree::Text("server_error"@) && error.at("gemini_code"@) == Tree::Text(
                "gemini_finish_error"@,
            )
            &&& !(blocked is Text) && !(reason is Text) ==> done.at("status"@) == Tree::Text(
                "failed"@,
            ) && error.at("code"@) == Tree::Text("server_error"@) && error.at("type"@)
                == Tree::Text("server_error"@) && error.at("gemini_code"@) == Tree::Text(
                "gemini_missing_completion"@,
            )
            &&& !(blocked is Text) && stopped && request.output_schema is None ==> done.at(
                "status"@,
            ) == Tree::Text("completed"@) && error is Null
            &&& !(blocked is Text) && stopped ==> (done.at("status"@) == Tree::Text("completed"@)
                && error is Null) || (done.at("status"@) == Tree::Text("failed"@) && error.at(
                "code"@,
            ) == Tree::Text("gemini_schema_mismatch"@))
            &&& reason != Tree::Text("MAX_TOKENS"@) ==> done.at("incomplete_details"@) is Null
        }),
{
    broadcast use member_laws;

    reasons_differ();
    error_names_differ();
    members_are_told(native, request, key, id, created_at, nonce, done);
}

// ---- usage ----------------------------------------------------------------------------------

proof fn usage_names_differ()
    ensures
        "input_tokens"@ != "input_tokens_details"@,
        "input_tokens"@ != "output_tokens"@,
        "input_tokens"@ != "output_tokens_details"@,
        "input_tokens"@ != "total_tokens"@,
        "input_tokens"@ != "gemini"@,
        "input_tokens_details"@ != "output_tokens"@,
        "input_tokens_details"@ != "output_tokens_details"@,
        "input_tokens_details"@ != "total_tokens"@,
        "input_tokens_details"@ != "gemini"@,
        "output_tokens"@ != "output_tokens_details"@,
        "output_tokens"@ != "total_tokens"@,
        "output_tokens"@ != "gemini"@,
        "output_tokens_details"@ != "total_tokens"@,
        "output_tokens_details"@ != "gemini"@,
        "total_tokens"@ != "gemini"@,
{
    reveal_strlit("input_tokens");
    reveal_strlit("input_tokens_details");
    reveal_strlit("output_tokens");
    reveal_strlit("output_tokens_details");
    reveal_strlit("total_tokens");
    reveal_strlit("gemini");
    assert("input_tokens"@.len() == 12);
    assert("input_tokens_details"@.len() == 20);
    assert("output_tokens"@.len() == 13);
    assert("output_tokens_details"@.len() == 21);
    assert("total_tokens"@.len() == 12);
    assert("gemini"@.len() == 6);
    assert("input_tokens"@[0] == 'i');
    assert("total_tokens"@[0] == 't');
}

/// A count that a native response reports, or zero.
pub open spec fn counted(usage: Tree, name: Seq<char>) -> int {
    match usage.at(name).natural() {
        Some(n) => n as int,
        None => 0,
    }
}

/// The tokens of a response are those that the native response counts: its prompt, of which some
/// were cached, and its answer with its thoughts.
pub proof fn tokens_are_counted(
    native: Tree,
    request: Converted,
    key: Seq<u8>,
    id: Seq<char>,
    created_at: u64,
    nonce: Seq<u8>,
    done: Tree,
)
    requires
        converted_response(native, request, key, id, created_at, nonce) == Ok::<Tree, Seq<char>>(
            done,
        ),
        quiet(request),
    ensures
        ({
            let meta = native.at("usageMetadata"@);
            let usage = done.at("usage"@);
            let input = meta.at("promptTokenCount"@).natural();
            let output = counted(meta, "candidatesTokenCount"@) + counted(
                meta,
                "thoughtsTokenCount"@,
            );
            &&& input is None ==> usage is Null
            &&& input is Some ==> usage.at("input_tokens"@).natural() == input
            &&& input is Some ==> usage.at("input_tokens_details"@).at("cached_tokens"@).natural()
                == Some(counted(meta, "cachedContentTokenCount"@) as u64)
            &&& input is Some ==> usage.at("output_tokens_details"@).at(
                "reasoning_tokens"@,
            ).natural() == Some(counted(meta, "thoughtsTokenCount"@) as u64)
            &&& input is Some && output <= u64::MAX ==> usage.at("output_tokens"@).natural()
                == Some(output as u64)
            &&& input is Some && meta.at("totalTokenCount"@).natural() is Some ==> usage.at(
                "total_tokens"@,
            ).natural() == meta.at("totalTokenCount"@).natural()
            &&& input is Some && meta.at("totalTokenCount"@).natural() is None && input->Some_0
                + output <= u64::MAX ==> usage.at("total_tokens"@).natural() == Some(
                (input->Some_0 + output) as u64,
            )
        }),
{
    broadcast use member_laws;

    usage_names_differ();
    if native.has("error"@) {
        member_names_differ();
        let a = empty_object().with("id"@, Tree::Text("resp_"@ + id)).with(
            "object"@,
            Tree::Text("response"@),
        ).with("status"@, Tree::Text("failed"@)).with(
            "model"@,
            Tree::Text(request.response_model),
        ).with("output"@, Tree::Array(Seq::empty()));
        assert(done.at("usage"@) == usage_or_null(native));
    } else {
        members_are_told(native, request, key, id, created_at, nonce, done);
    }
    if let Some(usage) = usage_of(native) {
        let meta = native.at("usageMetadata"@);
        let one = empty_object().with(
            "input_tokens"@,
            number(meta.at("promptTokenCount"@).natural()->Some_0),
        );
        let cached = empty_object().with(
            "cached_tokens"@,
            number(counted(meta, "cachedContentTokenCount"@) as u64),
        );
        let two = one.with("input_tokens_details"@, cached);
        assert(two.at("input_tokens"@) == one.at("input_tokens"@));
        assert(usage.at("input_tokens_details"@) == cached);
        assert(usage.at("input_tokens"@) == one.at("input_tokens"@));
    } else {
        assert(native.at("usageMetadata"@).at("promptTokenCount"@).natural() is None) by {
            assert(Tree::Null.at("promptTokenCount"@) is Null);
        }
    }
}

// ---- output ---------------------------------------------------------------------------------

/// The parts that a client sees, from `from` on: those that are no thoughts, hold more than a
/// signature, and are no empty texts.
pub open spec fn seen_parts(parts: Seq<Tree>, from: int) -> Seq<Tree>
    decreases parts.len() - from,
{
    if from < 0 || from >= parts.len() {
        Seq::empty()
    } else {
        let part = parts[from];
        let alone = part.has("thoughtSignature"@) && !part.has("text"@) && !part.has(
            "functionCall"@,
        ) && part->Object_0.len() == 1;
        if part.at("thought"@) == Tree::Bool(true) || part.at("text"@) == Tree::Text(""@)
            || alone {
            seen_parts(parts, from + 1)
        } else {
            seq![part] + seen_parts(parts, from + 1)
        }
    }
}

/// The texts of the thoughts among parts, from `from` on.
pub open spec fn thoughts_among(parts: Seq<Tree>, from: int) -> Seq<Tree>
    decreases parts.len() - from,
{
    if from < 0 || from >= parts.len() {
        Seq::empty()
    } else if parts[from].at("thought"@) == Tree::Bool(true) && parts[from].at("text"@) is Text {
        seq![parts[from].at("text"@)] + thoughts_among(parts, from + 1)
    } else {
        thoughts_among(parts, from + 1)
    }
}

/// An output item shows a part: a text as the message that says it, a call as the call of the
/// tool that was declared under its name, with its arguments.
pub open spec fn part_shown(
    part: Tree,
    item: Tree,
    tools: Seq<(Seq<char>, ToolView)>,
    status: Tree,
) -> bool {
    let call = part.at("functionCall"@);
    let content = list_of(item.at("content"@));
    let named = call.at("name"@);
    let arguments = if call.has("args"@) {
        call.at("args"@)
    } else {
        Tree::Object(Seq::empty())
    };
    &&& item.at("status"@) == (if status == Tree::Text("completed"@) {
        status
    } else {
        Tree::Text("incomplete"@)
    })
    &&& !part.has("functionCall"@) ==> item.at("type"@) == Tree::Text("message"@) && item.at(
        "role"@,
    ) == Tree::Text("assistant"@) && content.len() == 1
    &&& !part.has("functionCall"@) && part.at("text"@) is Text ==> content[0].at("type"@)
        == Tree::Text("output_text"@) && content[0].at("text"@) == part.at("text"@)
    &&& !part.has("functionCall"@) && !(part.at("text"@) is Text) ==> content[0].at("part"@)
        == part
    &&& part.has("functionCall"@) ==> named is Text && (find(tools, named->Text_0) matches Some(
        tool,
    ) && {
        &&& item.at("name"@) == Tree::Text(tool.name)
        &&& call.at("id"@) is Text ==> item.at("call_id"@) == call.at("id"@)
        &&& item.at("call_id"@) is Text
        &&& tool.namespace is Some ==> item.at("namespace"@) == Tree::Text(
            tool.namespace->Some_0,
        )
        &&& tool.custom ==> item.at("type"@) == Tree::Text("custom_tool_call"@) && item.at(
            "input"@,
        ) == arguments.at("input"@)
        &&& !tool.custom ==> item.at("type"@) == Tree::Text("function_call"@) && item.at(
            "arguments"@,
        ) == Tree::Text(written(arguments))
    })
}

proof fn item_names_differ()
    ensures
        "id"@ != "type"@,
        "id"@ != "status"@,
        "id"@ != "call_id"@,
        "id"@ != "name"@,
        "id"@ != "namespace"@,
        "id"@ != "input"@,
        "id"@ != "arguments"@,
        "id"@ != "role"@,
        "id"@ != "content"@,
        "type"@ != "status"@,
        "type"@ != "call_id"@,
        "type"@ != "name"@,
        "type"@ != "namespace"@,
        "type"@ != "input"@,
        "type"@ != "arguments"@,
        "type"@ != "role"@,
        "type"@ != "content"@,
        "status"@ != "call_id"@,
        "status"@ != "name"@,
        "status"@ != "namespace"@,
        "status"@ != "input"@,
        "status"@ != "arguments"@,
        "status"@ != "role"@,
        "status"@ != "content"@,
        "call_id"@ != "name"@,
        "call_id"@ != "namespace"@,
        "call_id"@ != "input"@,
        "call_id"@ != "arguments"@,
        "call_id"@ != "role"@,
        "call_id"@ != "content"@,
        "name"@ != "namespace"@,
        "name"@ != "input"@,
        "name"@ != "arguments"@,
        "name"@ != "role"@,
        "name"@ != "content"@,
        "namespace"@ != "input"@,
        "namespace"@ != "arguments"@,
        "namespace"@ != "role"@,
        "namespace"@ != "content"@,
        "input"@ != "arguments"@,
        "input"@ != "role"@,
        "input"@ != "content"@,
        "arguments"@ != "role"@,
        "arguments"@ != "content"@,
        "role"@ != "content"@,
{
    reveal_strlit("id");
    reveal_strlit("type");
    reveal_strlit("status");
    reveal_strlit("call_id");
    reveal_strlit("name");
    reveal_strlit("namespace");
    reveal_strlit("input");
    reveal_strlit("arguments");
    reveal_strlit("role");
    reveal_strlit("content");
    assert("id"@.len() == 2);
    assert("type"@.len() == 4);
    assert("status"@.len() == 6);
    assert("call_id"@.len() == 7);
    assert("name"@.len() == 4);
    assert("namespace"@.len() == 9);
    assert("input"@.len() == 5);
    assert("arguments"@.len() == 9);
    assert("role"@.len() == 4);
    assert("content"@.len() == 7);
    assert("type"@[0] == 't');
    assert("name"@[0] == 'n');
    assert("role"@[0] == 'r');
    assert("call_id"@[1] == 'a');
    assert("content"@[1] == 'o');
    assert("namespace"@[0] == 'n');
    assert("arguments"@[0] == 'a');
}

proof fn content_names_differ()
    ensures
        "type"@ != "text"@,
        "type"@ != "annotations"@,
        "type"@ != "part"@,
        "text"@ != "annotations"@,
        "text"@ != "part"@,
        "annotations"@ != "part"@,
{
    reveal_strlit("type");
    reveal_strlit("text");
    reveal_strlit("annotations");
    reveal_strlit("part");
    assert("type"@.len() == 4);
    assert("text"@.len() == 4);
    assert("annotations"@.len() == 11);
    assert("part"@.len() == 4);
    assert("type"@[0] == 't');
    assert("type"@[1] == 'y');
    assert("text"@[0] == 't');
    assert("text"@[1] == 'e');
    assert("part"@[0] == 'p');
}

proof fn one_part_is_shown(
    part: Tree,
    tools: Seq<(Seq<char>, ToolView)>,
    id: Seq<char>,
    index: nat,
)
    requires
        part_item(part, tools, id, index) is Ok,
    ensures
        part_shown(
            part,
            part_item(part, tools, id, index)->Ok_0,
            tools,
            Tree::Text("completed"@),
        ),
        part_item(part, tools, id, index)->Ok_0 is Object,
{
    broadcast use member_laws;

    item_names_differ();
    content_names_differ();
    let item = part_item(part, tools, id, index)->Ok_0;
    if let Some(call) = part.get("functionCall"@) {
        let tool = find(tools, call.at("name"@)->Text_0)->Some_0;
        let kind = Tree::Text(
            if tool.custom {
                "custom_tool_call"@
            } else {
                "function_call"@
            },
        );
        let a = empty_object().with("id"@, Tree::Text(item_name("fc_"@, id, index)));
        let b = a.with("type"@, kind);
        let c = b.with("status"@, Tree::Text("completed"@));
        let d = c.with("call_id"@, Tree::Text(call_id_of(call, id, index)));
        let e = d.with("name"@, Tree::Text(tool.name));
        assert(e.at("type"@) == kind);
        assert(e.at("status"@) == Tree::Text("completed"@));
        assert(e.at("call_id"@) == Tree::Text(call_id_of(call, id, index)));
        let f = match tool.namespace {
            Some(namespace) => e.with("namespace"@, Tree::Text(namespace)),
            None => e,
        };
        assert(f.at("type"@) == kind);
        assert(f.at("status"@) == Tree::Text("completed"@));
        assert(f.at("call_id"@) == Tree::Text(call_id_of(call, id, index)));
        assert(f.at("name"@) == Tree::Text(tool.name));
    } else {
        let content = shown_content(part);
        let a = empty_object().with("id"@, Tree::Text(item_name("msg_"@, id, index)));
        let b = a.with("type"@, Tree::Text("message"@));
        let c = b.with("role"@, Tree::Text("assistant"@));
        let d = c.with("status"@, Tree::Text("completed"@));
        assert(d.at("type"@) == Tree::Text("message"@));
        assert(d.at("role"@) == Tree::Text("assistant"@));
        assert(item.at("content"@) == Tree::Array(seq![content]));
        if part.at("text"@) is Text {
            let one = empty_object().with("type"@, Tree::Text("output_text"@));
            let two = one.with("text"@, part.at("text"@));
            assert(two.at("type"@) == Tree::Text("output_text"@));
        }
    }
}

proof fn parts_are_gathered(
    parts: Seq<Tree>,
    from: int,
    tools: Seq<(Seq<char>, ToolView)>,
    id: Seq<char>,
    items: Seq<Tree>,
)
    requires
        0 <= from,
        items_from(parts, from, tools, id, items) is Ok,
    ensures
        ({
            let out = items_from(parts, from, tools, id, items)->Ok_0;
            let seen = seen_parts(parts, from);
            &&& out.len() == items.len() + seen.len()
            &&& forall|i: int| 0 <= i < items.len() ==> out[i] == items[i]
            &&& forall|k: int|
                0 <= k < seen.len() ==> (#[trigger] part_shown(
                    seen[k],
                    out[items.len() + k],
                    tools,
                    Tree::Text("completed"@),
                )) && out[items.len() + k] is Object
        }),
    decreases parts.len() - from,
{
    if from < parts.len() {
        let part = parts[from];
        if hidden(part) {
            parts_are_gathered(parts, from + 1, tools, id, items);
        } else {
            one_part_is_shown(part, tools, id, items.len() + 1);
            let item = part_item(part, tools, id, items.len() + 1)->Ok_0;
            let next = items.push(item);
            parts_are_gathered(parts, from + 1, tools, id, next);
            let out = items_from(parts, from, tools, id, items)->Ok_0;
            let seen = seen_parts(parts, from);
            let rest = seen_parts(parts, from + 1);
            assert(seen == seq![part] + rest);
            assert forall|i: int| 0 <= i < items.len() implies out[i] == items[i] by {
                assert(out[i] == next[i]);
            }
            assert forall|k: int| 0 <= k < seen.len() implies (#[trigger] part_shown(
                seen[k],
                out[items.len() + k],
                tools,
                Tree::Text("completed"@),
            )) && out[items.len() + k] is Object by {
                if k == 0 {
                    assert(out[items.len() as int] == next[items.len() as int]);
                } else {
                    assert(seen[k] == rest[k - 1]);
                    assert(part_shown(
                        rest[k - 1],
                        out[next.len() + (k - 1)],
                        tools,
                        Tree::Text("completed"@),
                    ));
                }
            }
        }
    }
}

proof fn thoughts_are_gathered(parts: Seq<Tree>, from: int, summary: Seq<Tree>)
    requires
        0 <= from,
    ensures
        summary_from(parts, from, summary) == summary + thoughts_among(parts, from).map_values(
            |text: Tree| summary_text(text->Text_0),
        ),
    decreases parts.len() - from,
{
    let shape = |text: Tree| summary_text(text->Text_0);
    if from < parts.len() {
        let rest = thoughts_among(parts, from + 1);
        if parts[from].at("thought"@) == Tree::Bool(true) && parts[from].at("text"@) is Text {
            let text = parts[from].at("text"@);
            thoughts_are_gathered(parts, from + 1, summary.push(summary_text(text->Text_0)));
            assert((seq![text] + rest).map_values(shape) =~= seq![shape(text)] + rest.map_values(
                shape,
            ));
            assert(summary.push(shape(text)) + rest.map_values(shape) =~= summary + (
            seq![shape(text)] + rest.map_values(shape)));
        } else {
            thoughts_are_gathered(parts, from + 1, summary);
        }
    } else {
        assert(summary + Seq::<Tree>::empty().map_values(shape) =~= summary);
    }
}

proof fn unfinished_parts_are_shown(
    part: Tree,
    item: Tree,
    tools: Seq<(Seq<char>, ToolView)>,
    status: Tree,
)
    requires
        part_shown(part, item, tools, Tree::Text("completed"@)),
        item is Object,
        status != Tree::Text("completed"@),
    ensures
        part_shown(part, item.with("status"@, Tree::Text("incomplete"@)), tools, status),
{
    broadcast use member_laws;

    item_names_differ();
}

/// What a native response shows is what the response shows, part for part and in order: texts as
/// messages, calls as calls of the tools that were declared, with their arguments. Before it
/// stands one reasoning item, which tells the texts of the thoughts in order. The items are
/// completed where the response is, and incomplete where it is not.
pub proof fn parts_are_shown(
    native: Tree,
    request: Converted,
    key: Seq<u8>,
    id: Seq<char>,
    created_at: u64,
    nonce: Seq<u8>,
    done: Tree,
)
    requires
        converted_response(native, request, key, id, created_at, nonce) == Ok::<Tree, Seq<char>>(
            done,
        ),
        quiet(request),
        !native.has("error"@),
        list_of(native.at("candidates"@)).len() > 0,
    ensures
        ({
            let candidate = list_of(native.at("candidates"@))[0];
            let parts = list_of(candidate.at("content"@).at("parts"@));
            let seen = seen_parts(parts, 0);
            let thoughts = thoughts_among(parts, 0);
            let output = list_of(done.at("output"@));
            let summary = list_of(output[0].at("summary"@));
            &&& output.len() == 1 + seen.len()
            &&& output[0].at("type"@) == Tree::Text("reasoning"@)
            &&& output[0].at("id"@) == Tree::Text("rs_"@ + id)
            &&& output[0].at("encrypted_content"@) is Text
            &&& summary.len() == thoughts.len()
            &&& forall|k: int|
                0 <= k < thoughts.len() ==> (#[trigger] summary[k]).at("text"@) == thoughts[k]
                    && summary[k].at("type"@) == Tree::Text("summary_text"@)
            &&& forall|k: int|
                0 <= k < seen.len() ==> #[trigger] part_shown(
                    seen[k],
                    output[1 + k],
                    request.tools,
                    done.at("status"@),
                )
        }),
{
    broadcast use member_laws;

    members_are_told(native, request, key, id, created_at, nonce, done);
    content_names_differ();
    assert("id"@ != "type"@ && "id"@ != "summary"@ && "type"@ != "summary"@ && "id"@
        != "encrypted_content"@ && "type"@ != "encrypted_content"@ && "summary"@
        != "encrypted_content"@) by {
        reveal_strlit("id");
        reveal_strlit("type");
        reveal_strlit("summary");
        reveal_strlit("encrypted_content");
        assert("id"@.len() == 2);
        assert("type"@.len() == 4);
        assert("summary"@.len() == 7);
        assert("encrypted_content"@.len() == 17);
    }
    let parts = answer_parts(native);
    let seen = seen_parts(parts, 0);
    let thoughts = thoughts_among(parts, 0);
    let output = list_of(done.at("output"@));
    let carried = answer_carrier(native, request, key, id, nonce)->Ok_0;
    let told = summary_from(parts, 0, Seq::empty());
    let items = answer_items(native, request, id);
    let plain = items_of(parts, request.tools, id)->Ok_0;
    assert(output =~= seq![reasoning_item(id, told, carried)] + items);
    assert(output[0] == reasoning_item(id, told, carried));
    let one = empty_object().with("id"@, Tree::Text("rs_"@ + id));
    let two = one.with("type"@, Tree::Text("reasoning"@));
    let three = two.with("summary"@, Tree::Array(told));
    assert(two.at("id"@) == Tree::Text("rs_"@ + id));
    assert(three.at("id"@) == Tree::Text("rs_"@ + id));
    assert(three.at("type"@) == Tree::Text("reasoning"@));
    assert(output[0].at("summary"@) == Tree::Array(told));
    thoughts_are_gathered(parts, 0, Seq::empty());
    assert(told =~= thoughts.map_values(|text: Tree| summary_text(text->Text_0)));
    thoughts_are_texts(parts, 0);
    assert forall|k: int| 0 <= k < thoughts.len() implies (#[trigger] told[k]).at("text"@)
        == thoughts[k] && told[k].at("type"@) == Tree::Text("summary_text"@) by {
        assert(told[k] == summary_text(thoughts[k]->Text_0));
    }
    parts_are_gathered(parts, 0, request.tools, id, Seq::empty());
    assert forall|k: int| 0 <= k < seen.len() implies #[trigger] part_shown(
        seen[k],
        output[1 + k],
        request.tools,
        done.at("status"@),
    ) by {
        assert(output[1 + k] == items[k]);
        assert(part_shown(seen[k], plain[0 + k], request.tools, Tree::Text("completed"@)));
        if done.at("status"@) != Tree::Text("completed"@) {
            unfinished_parts_are_shown(seen[k], plain[k], request.tools, done.at("status"@));
        }
    }
}

proof fn thoughts_are_texts(parts: Seq<Tree>, from: int)
    requires
        0 <= from,
    ensures
        forall|k: int|
            0 <= k < thoughts_among(parts, from).len() ==> (#[trigger] thoughts_among(
                parts,
                from,
            )[k]) is Text,
    decreases parts.len() - from,
{
    if from < parts.len() {
        thoughts_are_texts(parts, from + 1);
    }
}

} // verus!

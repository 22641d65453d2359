//! What the log tells of a request.

use vstd::prelude::*;
use crate::config::AliasView;
use crate::gemini::error::text_or_null;
use crate::gemini::parts::empty_object;
use crate::gemini::response::number;
use crate::logs::entry::{count_or_null, status_or_null, EntryView};
use crate::logs::model::model_named;
use crate::logs::pricing::{cost_of, count_of, double_cost, priced, rate_or, Book, Rates};
use crate::logs::query::{cell_of, condition_of, formula, quoted_from, Query};
use crate::logs::store::{
    changed, decision_of, with_ending, with_response, with_usage, Change, History,
};
use crate::members::{member_laws, set_keeps_others};
use crate::table::find;
use crate::text::{decimal, trimmed_end, white_start};
use crate::tree::Tree;

verus! {

// ---- records --------------------------------------------------------------------------------

proof fn group_1_holds(entry: EntryView, base: Tree)
    requires
        base is Object,
    ensures
        entry.members_1(base) is Object,
        entry.members_1(base).at("id"@) == number(entry.id),
        entry.members_1(base).at("request_id"@) == Tree::Text(entry.request_id),
        entry.members_1(base).at("session_id"@) == Tree::Text(entry.session_id),
        entry.members_1(base).at("timestamp_ms"@) == number(entry.timestamp_ms),
        entry.members_1(base).at("updated_ms"@) == number(entry.updated_ms),
        entry.members_1(base).at("ended_ms"@) == count_or_null(entry.ended_ms),
        entry.members_1(base).at("method"@) == Tree::Text(entry.method),
        entry.members_1(base).at("path"@) == Tree::Text(entry.path),
        entry.members_1(base).at("transport"@) == Tree::Text(entry.transport),
        entry.members_1(base).at("mode"@) == Tree::Text(entry.mode),
{
    broadcast use member_laws;

    reveal_strlit("id");
    reveal_strlit("request_id");
    reveal_strlit("session_id");
    reveal_strlit("timestamp_ms");
    reveal_strlit("updated_ms");
    reveal_strlit("ended_ms");
    reveal_strlit("method");
    reveal_strlit("path");
    reveal_strlit("transport");
    reveal_strlit("mode");
    assert("id"@.len() == 2);
    assert("request_id"@.len() == 10);
    assert("session_id"@.len() == 10);
    assert("timestamp_ms"@.len() == 12);
    assert("updated_ms"@.len() == 10);
    assert("ended_ms"@.len() == 8);
    assert("method"@.len() == 6);
    assert("path"@.len() == 4);
    assert("transport"@.len() == 9);
    assert("mode"@.len() == 4);
    assert("request_id"@[0] == 'r');
    assert("session_id"@[0] == 's');
    assert("updated_ms"@[0] == 'u');
    assert("path"@[0] == 'p');
    assert("mode"@[0] == 'm');
    let m0 = base.with("id"@, number(entry.id));
    let m1 = m0.with("request_id"@, Tree::Text(entry.request_id));
    let m2 = m1.with("session_id"@, Tree::Text(entry.session_id));
    let m3 = m2.with("timestamp_ms"@, number(entry.timestamp_ms));
    let m4 = m3.with("updated_ms"@, number(entry.updated_ms));
    let m5 = m4.with("ended_ms"@, count_or_null(entry.ended_ms));
    let m6 = m5.with("method"@, Tree::Text(entry.method));
    let m7 = m6.with("path"@, Tree::Text(entry.path));
    let m8 = m7.with("transport"@, Tree::Text(entry.transport));
    let m9 = m8.with("mode"@, Tree::Text(entry.mode));
    assert(m1.at("id"@) == number(entry.id));
    assert(m2.at("id"@) == number(entry.id));
    assert(m3.at("id"@) == number(entry.id));
    assert(m4.at("id"@) == number(entry.id));
    assert(m5.at("id"@) == number(entry.id));
    assert(m6.at("id"@) == number(entry.id));
    assert(m7.at("id"@) == number(entry.id));
    assert(m8.at("id"@) == number(entry.id));
    assert(m9.at("id"@) == number(entry.id));
    assert(m2.at("request_id"@) == Tree::Text(entry.request_id));
    assert(m3.at("request_id"@) == Tree::Text(entry.request_id));
    assert(m4.at("request_id"@) == Tree::Text(entry.request_id));
    assert(m5.at("request_id"@) == Tree::Text(entry.request_id));
    assert(m6.at("request_id"@) == Tree::Text(entry.request_id));
    assert(m7.at("request_id"@) == Tree::Text(entry.request_id));
    assert(m8.at("request_id"@) == Tree::Text(entry.request_id));
    assert(m9.at("request_id"@) == Tree::Text(entry.request_id));
    assert(m3.at("session_id"@) == Tree::Text(entry.session_id));
    assert(m4.at("session_id"@) == Tree::Text(entry.session_id));
    assert(m5.at("session_id"@) == Tree::Text(entry.session_id));
    assert(m6.at("session_id"@) == Tree::Text(entry.session_id));
    assert(m7.at("session_id"@) == Tree::Text(entry.session_id));
    assert(m8.at("session_id"@) == Tree::Text(entry.session_id));
    assert(m9.at("session_id"@) == Tree::Text(entry.session_id));
    assert(m4.at("timestamp_ms"@) == number(entry.timestamp_ms));
    assert(m5.at("timestamp_ms"@) == number(entry.timestamp_ms));
    assert(m6.at("timestamp_ms"@) == number(entry.timestamp_ms));
    assert(m7.at("timestamp_ms"@) == number(entry.timestamp_ms));
    assert(m8.at("timestamp_ms"@) == number(entry.timestamp_ms));
    assert(m9.at("timestamp_ms"@) == number(entry.timestamp_ms));
    assert(m5.at("updated_ms"@) == number(entry.updated_ms));
    assert(m6.at("updated_ms"@) == number(entry.updated_ms));
    assert(m7.at("updated_ms"@) == number(entry.updated_ms));
    assert(m8.at("updated_ms"@) == number(entry.updated_ms));
    assert(m9.at("updated_ms"@) == number(entry.updated_ms));
    assert(m6.at("ended_ms"@) == count_or_null(entry.ended_ms));
    assert(m7.at("ended_ms"@) == count_or_null(entry.ended_ms));
    assert(m8.at("ended_ms"@) == count_or_null(entry.ended_ms));
    assert(m9.at("ended_ms"@) == count_or_null(entry.ended_ms));
    assert(m7.at("method"@) == Tree::Text(entry.method));
    assert(m8.at("method"@) == Tree::Text(entry.method));
    assert(m9.at("method"@) == Tree::Text(entry.method));
    assert(m8.at("path"@) == Tree::Text(entry.path));
    assert(m9.at("path"@) == Tree::Text(entry.path));
    assert(m9.at("transport"@) == Tree::Text(entry.transport));
}

proof fn group_2_keeps(entry: EntryView, base: Tree, name: Seq<char>)
    requires
        name != "requested_model"@,
        name != "routed_model"@,
        name != "requested_reasoning"@,
        name != "routed_reasoning"@,
        name != "route_rule"@,
        name != "project"@,
        name != "status"@,
        name != "state"@,
        name != "outcome_source"@,
        name != "error_code"@,
    ensures
        entry.members_2(base).at(name) == base.at(name),
{
    broadcast use set_keeps_others;

}

proof fn group_2_holds(entry: EntryView, base: Tree)
    requires
        base is Object,
    ensures
        entry.members_2(base) is Object,
        entry.members_2(base).at("requested_model"@) == text_or_null(entry.requested_model),
        entry.members_2(base).at("routed_model"@) == text_or_null(entry.routed_model),
        entry.members_2(base).at("requested_reasoning"@) == text_or_null(entry.requested_reasoning),
        entry.members_2(base).at("routed_reasoning"@) == text_or_null(entry.routed_reasoning),
        entry.members_2(base).at("route_rule"@) == text_or_null(entry.route_rule),
        entry.members_2(base).at("project"@) == text_or_null(entry.project),
        entry.members_2(base).at("status"@) == status_or_null(entry.status),
        entry.members_2(base).at("state"@) == Tree::Text(entry.state),
        entry.members_2(base).at("outcome_source"@) == text_or_null(entry.outcome_source),
        entry.members_2(base).at("error_code"@) == text_or_null(entry.error_code),
{
    broadcast use member_laws;

    reveal_strlit("requested_model");
    reveal_strlit("routed_model");
    reveal_strlit("requested_reasoning");
    reveal_strlit("routed_reasoning");
    reveal_strlit("route_rule");
    reveal_strlit("project");
    reveal_strlit("status");
    reveal_strlit("state");
    reveal_strlit("outcome_source");
    reveal_strlit("error_code");
    assert("requested_model"@.len() == 15);
    assert("routed_model"@.len() == 12);
    assert("requested_reasoning"@.len() == 19);
    assert("routed_reasoning"@.len() == 16);
    assert("route_rule"@.len() == 10);
    assert("project"@.len() == 7);
    assert("status"@.len() == 6);
    assert("state"@.len() == 5);
    assert("outcome_source"@.len() == 14);
    assert("error_code"@.len() == 10);
    assert("route_rule"@[0] == 'r');
    assert("error_code"@[0] == 'e');
    let m0 = base.with("requested_model"@, text_or_null(entry.requested_model));
    let m1 = m0.with("routed_model"@, text_or_null(entry.routed_model));
    let m2 = m1.with("requested_reasoning"@, text_or_null(entry.requested_reasoning));
    let m3 = m2.with("routed_reasoning"@, text_or_null(entry.routed_reasoning));
    let m4 = m3.with("route_rule"@, text_or_null(entry.route_rule));
    let m5 = m4.with("project"@, text_or_null(entry.project));
    let m6 = m5.with("status"@, status_or_null(entry.status));
    let m7 = m6.with("state"@, Tree::Text(entry.state));
    let m8 = m7.with("outcome_source"@, text_or_null(entry.outcome_source));
    let m9 = m8.with("error_code"@, text_or_null(entry.error_code));
    assert(m1.at("requested_model"@) == text_or_null(entry.requested_model));
    assert(m2.at("requested_model"@) == text_or_null(entry.requested_model));
    assert(m3.at("requested_model"@) == text_or_null(entry.requested_model));
    assert(m4.at("requested_model"@) == text_or_null(entry.requested_model));
    assert(m5.at("requested_model"@) == text_or_null(entry.requested_model));
    assert(m6.at("requested_model"@) == text_or_null(entry.requested_model));
    assert(m7.at("requested_model"@) == text_or_null(entry.requested_model));
    assert(m8.at("requested_model"@) == text_or_null(entry.requested_model));
    assert(m9.at("requested_model"@) == text_or_null(entry.requested_model));
    assert(m2.at("routed_model"@) == text_or_null(entry.routed_model));
    assert(m3.at("routed_model"@) == text_or_null(entry.routed_model));
    assert(m4.at("routed_model"@) == text_or_null(entry.routed_model));
    assert(m5.at("routed_model"@) == text_or_null(entry.routed_model));
    assert(m6.at("routed_model"@) == text_or_null(entry.routed_model));
    assert(m7.at("routed_model"@) == text_or_null(entry.routed_model));
    assert(m8.at("routed_model"@) == text_or_null(entry.routed_model));
    assert(m9.at("routed_model"@) == text_or_null(entry.routed_model));
    assert(m3.at("requested_reasoning"@) == text_or_null(entry.requested_reasoning));
    assert(m4.at("requested_reasoning"@) == text_or_null(entry.requested_reasoning));
    assert(m5.at("requested_reasoning"@) == text_or_null(entry.requested_reasoning));
    assert(m6.at("requested_reasoning"@) == text_or_null(entry.requested_reasoning));
    assert(m7.at("requested_reasoning"@) == text_or_null(entry.requested_reasoning));
    assert(m8.at("requested_reasoning"@) == text_or_null(entry.requested_reasoning));
    assert(m9.at("requested_reasoning"@) == text_or_null(entry.requested_reasoning));
    assert(m4.at("routed_reasoning"@) == text_or_null(entry.routed_reasoning));
    assert(m5.at("routed_reasoning"@) == text_or_null(entry.routed_reasoning));
    assert(m6.at("routed_reasoning"@) == text_or_null(entry.routed_reasoning));
    assert(m7.at("routed_reasoning"@) == text_or_null(entry.routed_reasoning));
    assert(m8.at("routed_reasoning"@) == text_or_null(entry.routed_reasoning));
    assert(m9.at("routed_reasoning"@) == text_or_null(entry.routed_reasoning));
    assert(m5.at("route_rule"@) == text_or_null(entry.route_rule));
    assert(m6.at("route_rule"@) == text_or_null(entry.route_rule));
    assert(m7.at("route_rule"@) == text_or_null(entry.route_rule));
    assert(m8.at("route_rule"@) == text_or_null(entry.route_rule));
    assert(m9.at("route_rule"@) == text_or_null(entry.route_rule));
    assert(m6.at("project"@) == text_or_null(entry.project));
    assert(m7.at("project"@) == text_or_null(entry.project));
    assert(m8.at("project"@) == text_or_null(entry.project));
    assert(m9.at("project"@) == text_or_null(entry.project));
    assert(m7.at("status"@) == status_or_null(entry.status));
    assert(m8.at("status"@) == status_or_null(entry.status));
    assert(m9.at("status"@) == status_or_null(entry.status));
    assert(m8.at("state"@) == Tree::Text(entry.state));
    assert(m9.at("state"@) == Tree::Text(entry.state));
    assert(m9.at("outcome_source"@) == text_or_null(entry.outcome_source));
}

proof fn group_3_keeps(entry: EntryView, base: Tree, name: Seq<char>)
    requires
        name != "upstream_request_id"@,
        name != "response_id"@,
        name != "retries"@,
        name != "attempts"@,
        name != "input_tokens"@,
        name != "output_tokens"@,
        name != "cached_input_tokens"@,
        name != "cache_write_tokens"@,
        name != "reasoning_tokens"@,
        name != "duration_ms"@,
    ensures
        entry.members_3(base).at(name) == base.at(name),
{
    broadcast use set_keeps_others;

}

proof fn group_3_holds(entry: EntryView, base: Tree)
    requires
        base is Object,
    ensures
        entry.members_3(base) is Object,
        entry.members_3(base).at("upstream_request_id"@) == text_or_null(entry.upstream_request_id),
        entry.members_3(base).at("response_id"@) == text_or_null(entry.response_id),
        entry.members_3(base).at("retries"@) == number(entry.retries as u64),
        entry.members_3(base).at("attempts"@) == number(entry.attempts as u64),
        entry.members_3(base).at("input_tokens"@) == count_or_null(entry.input_tokens),
        entry.members_3(base).at("output_tokens"@) == count_or_null(entry.output_tokens),
        entry.members_3(base).at("cached_input_tokens"@) == count_or_null(entry.cached_input_tokens),
        entry.members_3(base).at("cache_write_tokens"@) == count_or_null(entry.cache_write_tokens),
        entry.members_3(base).at("reasoning_tokens"@) == count_or_null(entry.reasoning_tokens),
        entry.members_3(base).at("duration_ms"@) == count_or_null(entry.duration_ms),
{
    broadcast use member_laws;

    reveal_strlit("upstream_request_id");
    reveal_strlit("response_id");
    reveal_strlit("retries");
    reveal_strlit("attempts");
    reveal_strlit("input_tokens");
    reveal_strlit("output_tokens");
    reveal_strlit("cached_input_tokens");
    reveal_strlit("cache_write_tokens");
    reveal_strlit("reasoning_tokens");
    reveal_strlit("duration_ms");
    assert("upstream_request_id"@.len() == 19);
    assert("response_id"@.len() == 11);
    assert("retries"@.len() == 7);
    assert("attempts"@.len() == 8);
    assert("input_tokens"@.len() == 12);
    assert("output_tokens"@.len() == 13);
    assert("cached_input_tokens"@.len() == 19);
    assert("cache_write_tokens"@.len() == 18);
    assert("reasoning_tokens"@.len() == 16);
    assert("duration_ms"@.len() == 11);
    assert("upstream_request_id"@[0] == 'u');
    assert("cached_input_tokens"@[0] == 'c');
    assert("response_id"@[0] == 'r');
    assert("duration_ms"@[0] == 'd');
    let m0 = base.with("upstream_request_id"@, text_or_null(entry.upstream_request_id));
    let m1 = m0.with("response_id"@, text_or_null(entry.response_id));
    let m2 = m1.with("retries"@, number(entry.retries as u64));
    let m3 = m2.with("attempts"@, number(entry.attempts as u64));
    let m4 = m3.with("input_tokens"@, count_or_null(entry.input_tokens));
    let m5 = m4.with("output_tokens"@, count_or_null(entry.output_tokens));
    let m6 = m5.with("cached_input_tokens"@, count_or_null(entry.cached_input_tokens));
    let m7 = m6.with("cache_write_tokens"@, count_or_null(entry.cache_write_tokens));
    let m8 = m7.with("reasoning_tokens"@, count_or_null(entry.reasoning_tokens));
    let m9 = m8.with("duration_ms"@, count_or_null(entry.duration_ms));
    assert(m1.at("upstream_request_id"@) == text_or_null(entry.upstream_request_id));
    assert(m2.at("upstream_request_id"@) == text_or_null(entry.upstream_request_id));
    assert(m3.at("upstream_request_id"@) == text_or_null(entry.upstream_request_id));
    assert(m4.at("upstream_request_id"@) == text_or_null(entry.upstream_request_id));
    assert(m5.at("upstream_request_id"@) == text_or_null(entry.upstream_request_id));
    assert(m6.at("upstream_request_id"@) == text_or_null(entry.upstream_request_id));
    assert(m7.at("upstream_request_id"@) == text_or_null(entry.upstream_request_id));
    assert(m8.at("upstream_request_id"@) == text_or_null(entry.upstream_request_id));
    assert(m9.at("upstream_request_id"@) == text_or_null(entry.upstream_request_id));
    assert(m2.at("response_id"@) == text_or_null(entry.response_id));
    assert(m3.at("response_id"@) == text_or_null(entry.response_id));
    assert(m4.at("response_id"@) == text_or_null(entry.response_id));
    assert(m5.at("response_id"@) == text_or_null(entry.response_id));
    assert(m6.at("response_id"@) == text_or_null(entry.response_id));
    assert(m7.at("response_id"@) == text_or_null(entry.response_id));
    assert(m8.at("response_id"@) == text_or_null(entry.response_id));
    assert(m9.at("response_id"@) == text_or_null(entry.response_id));
    assert(m3.at("retries"@) == number(entry.retries as u64));
    assert(m4.at("retries"@) == number(entry.retries as u64));
    assert(m5.at("retries"@) == number(entry.retries as u64));
    assert(m6.at("retries"@) == number(entry.retries as u64));
    assert(m7.at("retries"@) == number(entry.retries as u64));
    assert(m8.at("retries"@) == number(entry.retries as u64));
    assert(m9.at("retries"@) == number(entry.retries as u64));
    assert(m4.at("attempts"@) == number(entry.attempts as u64));
    assert(m5.at("attempts"@) == number(entry.attempts as u64));
    assert(m6.at("attempts"@) == number(entry.attempts as u64));
    assert(m7.at("attempts"@) == number(entry.attempts as u64));
    assert(m8.at("attempts"@) == number(entry.attempts as u64));
    assert(m9.at("attempts"@) == number(entry.attempts as u64));
    assert(m5.at("input_tokens"@) == count_or_null(entry.input_tokens));
    assert(m6.at("input_tokens"@) == count_or_null(entry.input_tokens));
    assert(m7.at("input_tokens"@) == count_or_null(entry.input_tokens));
    assert(m8.at("input_tokens"@) == count_or_null(entry.input_tokens));
    assert(m9.at("input_tokens"@) == count_or_null(entry.input_tokens));
    assert(m6.at("output_tokens"@) == count_or_null(entry.output_tokens));
    assert(m7.at("output_tokens"@) == count_or_null(entry.output_tokens));
    assert(m8.at("output_tokens"@) == count_or_null(entry.output_tokens));
    assert(m9.at("output_tokens"@) == count_or_null(entry.output_tokens));
    assert(m7.at("cached_input_tokens"@) == count_or_null(entry.cached_input_tokens));
    assert(m8.at("cached_input_tokens"@) == count_or_null(entry.cached_input_tokens));
    assert(m9.at("cached_input_tokens"@) == count_or_null(entry.cached_input_tokens));
    assert(m8.at("cache_write_tokens"@) == count_or_null(entry.cache_write_tokens));
    assert(m9.at("cache_write_tokens"@) == count_or_null(entry.cache_write_tokens));
    assert(m9.at("reasoning_tokens"@) == count_or_null(entry.reasoning_tokens));
}

proof fn group_4_keeps(entry: EntryView, base: Tree, name: Seq<char>)
    requires
        name != "total_duration_ms"@,
        name != "first_byte_ms"@,
        name != "first_output_ms"@,
        name != "request_bytes"@,
        name != "response_bytes"@,
        name != "streaming"@,
        name != "security_guidance"@,
    ensures
        entry.members_4(base).at(name) == base.at(name),
{
    broadcast use set_keeps_others;

}

proof fn group_4_holds(entry: EntryView, base: Tree)
    requires
        base is Object,
    ensures
        entry.members_4(base) is Object,
        entry.members_4(base).at("total_duration_ms"@) == count_or_null(entry.total_duration_ms),
        entry.members_4(base).at("first_byte_ms"@) == count_or_null(entry.first_byte_ms),
        entry.members_4(base).at("first_output_ms"@) == count_or_null(entry.first_output_ms),
        entry.members_4(base).at("request_bytes"@) == number(entry.request_bytes),
        entry.members_4(base).at("response_bytes"@) == number(entry.response_bytes),
        entry.members_4(base).at("streaming"@) == Tree::Bool(entry.streaming),
        entry.members_4(base).at("security_guidance"@) == Tree::Bool(entry.security_guidance),
{
    broadcast use member_laws;

    reveal_strlit("total_duration_ms");
    reveal_strlit("first_byte_ms");
    reveal_strlit("first_output_ms");
    reveal_strlit("request_bytes");
    reveal_strlit("response_bytes");
    reveal_strlit("streaming");
    reveal_strlit("security_guidance");
    assert("total_duration_ms"@.len() == 17);
    assert("first_byte_ms"@.len() == 13);
    assert("first_output_ms"@.len() == 15);
    assert("request_bytes"@.len() == 13);
    assert("response_bytes"@.len() == 14);
    assert("streaming"@.len() == 9);
    assert("security_guidance"@.len() == 17);
    assert("total_duration_ms"@[0] == 't');
    assert("security_guidance"@[0] == 's');
    assert("first_byte_ms"@[0] == 'f');
    assert("request_bytes"@[0] == 'r');
    let m0 = base.with("total_duration_ms"@, count_or_null(entry.total_duration_ms));
    let m1 = m0.with("first_byte_ms"@, count_or_null(entry.first_byte_ms));
    let m2 = m1.with("first_output_ms"@, count_or_null(entry.first_output_ms));
    let m3 = m2.with("request_bytes"@, number(entry.request_bytes));
    let m4 = m3.with("response_bytes"@, number(entry.response_bytes));
    let m5 = m4.with("streaming"@, Tree::Bool(entry.streaming));
    let m6 = m5.with("security_guidance"@, Tree::Bool(entry.security_guidance));
    assert(m1.at("total_duration_ms"@) == count_or_null(entry.total_duration_ms));
    assert(m2.at("total_duration_ms"@) == count_or_null(entry.total_duration_ms));
    assert(m3.at("total_duration_ms"@) == count_or_null(entry.total_duration_ms));
    assert(m4.at("total_duration_ms"@) == count_or_null(entry.total_duration_ms));
    assert(m5.at("total_duration_ms"@) == count_or_null(entry.total_duration_ms));
    assert(m6.at("total_duration_ms"@) == count_or_null(entry.total_duration_ms));
    assert(m2.at("first_byte_ms"@) == count_or_null(entry.first_byte_ms));
    assert(m3.at("first_byte_ms"@) == count_or_null(entry.first_byte_ms));
    assert(m4.at("first_byte_ms"@) == count_or_null(entry.first_byte_ms));
    assert(m5.at("first_byte_ms"@) == count_or_null(entry.first_byte_ms));
    assert(m6.at("first_byte_ms"@) == count_or_null(entry.first_byte_ms));
    assert(m3.at("first_output_ms"@) == count_or_null(entry.first_output_ms));
    assert(m4.at("first_output_ms"@) == count_or_null(entry.first_output_ms));
    assert(m5.at("first_output_ms"@) == count_or_null(entry.first_output_ms));
    assert(m6.at("first_output_ms"@) == count_or_null(entry.first_output_ms));
    assert(m4.at("request_bytes"@) == number(entry.request_bytes));
    assert(m5.at("request_bytes"@) == number(entry.request_bytes));
    assert(m6.at("request_bytes"@) == number(entry.request_bytes));
    assert(m5.at("response_bytes"@) == number(entry.response_bytes));
    assert(m6.at("response_bytes"@) == number(entry.response_bytes));
    assert(m6.at("streaming"@) == Tree::Bool(entry.streaming));
}

/// A record shows every member of the entry that it is made of, under its own name.
pub proof fn records_show_their_entries(entry: EntryView)
    ensures
        ({
            let told = entry.tree();
            &&& told.at("id"@).natural() == Some(entry.id)
            &&& told.at("request_id"@) == Tree::Text(entry.request_id)
            &&& told.at("session_id"@) == Tree::Text(entry.session_id)
            &&& told.at("timestamp_ms"@).natural() == Some(entry.timestamp_ms)
            &&& told.at("updated_ms"@).natural() == Some(entry.updated_ms)
            &&& told.at("ended_ms"@).natural() == entry.ended_ms
            &&& told.at("method"@) == Tree::Text(entry.method)
            &&& told.at("path"@) == Tree::Text(entry.path)
            &&& told.at("transport"@) == Tree::Text(entry.transport)
            &&& told.at("mode"@) == Tree::Text(entry.mode)
            &&& told.at("requested_model"@).text() == entry.requested_model
            &&& told.at("routed_model"@).text() == entry.routed_model
            &&& told.at("requested_reasoning"@).text() == entry.requested_reasoning
            &&& told.at("routed_reasoning"@).text() == entry.routed_reasoning
            &&& told.at("route_rule"@).text() == entry.route_rule
            &&& told.at("project"@).text() == entry.project
            &&& entry.status is None ==> told.at("status"@) is Null
            &&& entry.status is Some ==> told.at("status"@).natural() == Some(entry.status->Some_0 as u64)
            &&& told.at("state"@) == Tree::Text(entry.state)
            &&& told.at("outcome_source"@).text() == entry.outcome_source
            &&& told.at("error_code"@).text() == entry.error_code
            &&& told.at("upstream_request_id"@).text() == entry.upstream_request_id
            &&& told.at("response_id"@).text() == entry.response_id
            &&& told.at("retries"@).natural() == Some(entry.retries as u64)
            &&& told.at("attempts"@).natural() == Some(entry.attempts as u64)
            &&& told.at("input_tokens"@).natural() == entry.input_tokens
            &&& told.at("output_tokens"@).natural() == entry.output_tokens
            &&& told.at("cached_input_tokens"@).natural() == entry.cached_input_tokens
            &&& told.at("cache_write_tokens"@).natural() == entry.cache_write_tokens
            &&& told.at("reasoning_tokens"@).natural() == entry.reasoning_tokens
            &&& told.at("duration_ms"@).natural() == entry.duration_ms
            &&& told.at("total_duration_ms"@).natural() == entry.total_duration_ms
            &&& told.at("first_byte_ms"@).natural() == entry.first_byte_ms
            &&& told.at("first_output_ms"@).natural() == entry.first_output_ms
            &&& told.at("request_bytes"@).natural() == Some(entry.request_bytes)
            &&& told.at("response_bytes"@).natural() == Some(entry.response_bytes)
            &&& told.at("streaming"@) == Tree::Bool(entry.streaming)
            &&& told.at("security_guidance"@) == Tree::Bool(entry.security_guidance)
        }),
{
    let none = empty_object();
    let one = entry.members_1(none);
    let two = entry.members_2(one);
    let three = entry.members_3(two);
    group_1_holds(entry, none);
    group_2_holds(entry, one);
    group_3_holds(entry, two);
    group_4_holds(entry, three);
    reveal_strlit("id");
    reveal_strlit("request_id");
    reveal_strlit("session_id");
    reveal_strlit("timestamp_ms");
    reveal_strlit("updated_ms");
    reveal_strlit("ended_ms");
    reveal_strlit("method");
    reveal_strlit("path");
    reveal_strlit("transport");
    reveal_strlit("mode");
    reveal_strlit("requested_model");
    reveal_strlit("routed_model");
    reveal_strlit("requested_reasoning");
    reveal_strlit("routed_reasoning");
    reveal_strlit("route_rule");
    reveal_strlit("project");
    reveal_strlit("status");
    reveal_strlit("state");
    reveal_strlit("outcome_source");
    reveal_strlit("error_code");
    reveal_strlit("upstream_request_id");
    reveal_strlit("response_id");
    reveal_strlit("retries");
    reveal_strlit("attempts");
    reveal_strlit("input_tokens");
    reveal_strlit("output_tokens");
    reveal_strlit("cached_input_tokens");
    reveal_strlit("cache_write_tokens");
    reveal_strlit("reasoning_tokens");
    reveal_strlit("duration_ms");
    reveal_strlit("total_duration_ms");
    reveal_strlit("first_byte_ms");
    reveal_strlit("first_output_ms");
    reveal_strlit("request_bytes");
    reveal_strlit("response_bytes");
    reveal_strlit("streaming");
    reveal_strlit("security_guidance");
    assert("id"@.len() == 2);
    assert("request_id"@.len() == 10);
    assert("session_id"@.len() == 10);
    assert("timestamp_ms"@.len() == 12);
    assert("updated_ms"@.len() == 10);
    assert("ended_ms"@.len() == 8);
    assert("method"@.len() == 6);
    assert("path"@.len() == 4);
    assert("transport"@.len() == 9);
    assert("mode"@.len() == 4);
    assert("requested_model"@.len() == 15);
    assert("routed_model"@.len() == 12);
    assert("requested_reasoning"@.len() == 19);
    assert("routed_reasoning"@.len() == 16);
    assert("route_rule"@.len() == 10);
    assert("project"@.len() == 7);
    assert("status"@.len() == 6);
    assert("state"@.len() == 5);
    assert("outcome_source"@.len() == 14);
    assert("error_code"@.len() == 10);
    assert("upstream_request_id"@.len() == 19);
    assert("response_id"@.len() == 11);
    assert("retries"@.len() == 7);
    assert("attempts"@.len() == 8);
    assert("input_tokens"@.len() == 12);
    assert("output_tokens"@.len() == 13);
    assert("cached_input_tokens"@.len() == 19);
    assert("cache_write_tokens"@.len() == 18);
    assert("reasoning_tokens"@.len() == 16);
    assert("duration_ms"@.len() == 11);
    assert("total_duration_ms"@.len() == 17);
    assert("first_byte_ms"@.len() == 13);
    assert("first_output_ms"@.len() == 15);
    assert("request_bytes"@.len() == 13);
    assert("response_bytes"@.len() == 14);
    assert("streaming"@.len() == 9);
    assert("security_guidance"@.len() == 17);
    assert("request_id"@[0] == 'r');
    assert("request_id"@[1] == 'e');
    assert("session_id"@[0] == 's');
    assert("updated_ms"@[0] == 'u');
    assert("route_rule"@[0] == 'r');
    assert("route_rule"@[1] == 'o');
    assert("error_code"@[0] == 'e');
    assert("timestamp_ms"@[0] == 't');
    assert("routed_model"@[0] == 'r');
    assert("input_tokens"@[0] == 'i');
    assert("ended_ms"@[0] == 'e');
    assert("attempts"@[0] == 'a');
    assert("method"@[0] == 'm');
    assert("status"@[0] == 's');
    assert("path"@[0] == 'p');
    assert("mode"@[0] == 'm');
    assert("transport"@[0] == 't');
    assert("streaming"@[0] == 's');
    assert("requested_model"@[0] == 'r');
    assert("first_output_ms"@[0] == 'f');
    assert("requested_reasoning"@[0] == 'r');
    assert("upstream_request_id"@[0] == 'u');
    assert("cached_input_tokens"@[0] == 'c');
    assert("routed_reasoning"@[1] == 'o');
    assert("reasoning_tokens"@[1] == 'e');
    assert("project"@[0] == 'p');
    assert("retries"@[0] == 'r');
    assert("outcome_source"@[0] == 'o');
    assert("response_bytes"@[0] == 'r');
    assert("response_id"@[0] == 'r');
    assert("duration_ms"@[0] == 'd');
    assert("output_tokens"@[0] == 'o');
    assert("first_byte_ms"@[0] == 'f');
    assert("request_bytes"@[0] == 'r');
    assert("total_duration_ms"@[0] == 't');
    assert("security_guidance"@[0] == 's');
    group_2_keeps(entry, one, "id"@);
    group_3_keeps(entry, two, "id"@);
    group_4_keeps(entry, three, "id"@);
    group_2_keeps(entry, one, "request_id"@);
    group_3_keeps(entry, two, "request_id"@);
    group_4_keeps(entry, three, "request_id"@);
    group_2_keeps(entry, one, "session_id"@);
    group_3_keeps(entry, two, "session_id"@);
    group_4_keeps(entry, three, "session_id"@);
    group_2_keeps(entry, one, "timestamp_ms"@);
    group_3_keeps(entry, two, "timestamp_ms"@);
    group_4_keeps(entry, three, "timestamp_ms"@);
    group_2_keeps(entry, one, "updated_ms"@);
    group_3_keeps(entry, two, "updated_ms"@);
    group_4_keeps(entry, three, "updated_ms"@);
    group_2_keeps(entry, one, "ended_ms"@);
    group_3_keeps(entry, two, "ended_ms"@);
    group_4_keeps(entry, three, "ended_ms"@);
    group_2_keeps(entry, one, "method"@);
    group_3_keeps(entry, two, "method"@);
    group_4_keeps(entry, three, "method"@);
    group_2_keeps(entry, one, "path"@);
    group_3_keeps(entry, two, "path"@);
    group_4_keeps(entry, three, "path"@);
    group_2_keeps(entry, one, "transport"@);
    group_3_keeps(entry, two, "transport"@);
    group_4_keeps(entry, three, "transport"@);
    group_2_keeps(entry, one, "mode"@);
    group_3_keeps(entry, two, "mode"@);
    group_4_keeps(entry, three, "mode"@);
    group_3_keeps(entry, two, "requested_model"@);
    group_4_keeps(entry, three, "requested_model"@);
    group_3_keeps(entry, two, "routed_model"@);
    group_4_keeps(entry, three, "routed_model"@);
    group_3_keeps(entry, two, "requested_reasoning"@);
    group_4_keeps(entry, three, "requested_reasoning"@);
    group_3_keeps(entry, two, "routed_reasoning"@);
    group_4_keeps(entry, three, "routed_reasoning"@);
    group_3_keeps(entry, two, "route_rule"@);
    group_4_keeps(entry, three, "route_rule"@);
    group_3_keeps(entry, two, "project"@);
    group_4_keeps(entry, three, "project"@);
    group_3_keeps(entry, two, "status"@);
    group_4_keeps(entry, three, "status"@);
    group_3_keeps(entry, two, "state"@);
    group_4_keeps(entry, three, "state"@);
    group_3_keeps(entry, two, "outcome_source"@);
    group_4_keeps(entry, three, "outcome_source"@);
    group_3_keeps(entry, two, "error_code"@);
    group_4_keeps(entry, three, "error_code"@);
    group_4_keeps(entry, three, "upstream_request_id"@);
    group_4_keeps(entry, three, "response_id"@);
    group_4_keeps(entry, three, "retries"@);
    group_4_keeps(entry, three, "attempts"@);
    group_4_keeps(entry, three, "input_tokens"@);
    group_4_keeps(entry, three, "output_tokens"@);
    group_4_keeps(entry, three, "cached_input_tokens"@);
    group_4_keeps(entry, three, "cache_write_tokens"@);
    group_4_keeps(entry, three, "reasoning_tokens"@);
    group_4_keeps(entry, three, "duration_ms"@);
}

// ---- usage ----------------------------------------------------------------------------------

/// The tokens that a response reports become those of the entry: in the names of either API, and
/// where a count is reported. What is not reported stays as it was, and so does all else.
pub proof fn reported_tokens_are_recorded(entry: EntryView, value: Tree, done: EntryView)
    requires
        with_usage(entry, value) == Some(done),
    ensures
        ({
            let usage = if value.has("usage"@) {
                value.at("usage"@)
            } else {
                value.at("response"@).at("usage"@)
            };
            let input = if usage.has("input_tokens"@) {
                usage.at("input_tokens"@).natural()
            } else {
                usage.at("prompt_tokens"@).natural()
            };
            let output = if usage.has("output_tokens"@) {
                usage.at("output_tokens"@).natural()
            } else {
                usage.at("completion_tokens"@).natural()
            };
            let details = if usage.has("input_tokens_details"@) {
                usage.at("input_tokens_details"@)
            } else {
                usage.at("prompt_tokens_details"@)
            };
            let thought = if usage.at("output_tokens_details"@).has("reasoning_tokens"@) {
                usage.at("output_tokens_details"@).at("reasoning_tokens"@).natural()
            } else {
                usage.at("completion_tokens_details"@).at("reasoning_tokens"@).natural()
            };
            &&& input is Some || output is Some
            &&& done.input_tokens == (if input is Some {
                input
            } else {
                entry.input_tokens
            })
            &&& done.output_tokens == (if output is Some {
                output
            } else {
                entry.output_tokens
            })
            &&& input is Some && details.at("cached_tokens"@).natural() is Some
                ==> done.cached_input_tokens == details.at("cached_tokens"@).natural()
            &&& input is None || details.at("cached_tokens"@).natural() is None
                ==> done.cached_input_tokens == entry.cached_input_tokens
            &&& input is Some && details.at("cache_write_tokens"@).natural() is Some
                ==> done.cache_write_tokens == details.at("cache_write_tokens"@).natural()
            &&& done.reasoning_tokens == (if thought is Some {
                thought
            } else {
                entry.reasoning_tokens
            })
            &&& done == (EntryView {
                input_tokens: done.input_tokens,
                output_tokens: done.output_tokens,
                cached_input_tokens: done.cached_input_tokens,
                cache_write_tokens: done.cache_write_tokens,
                reasoning_tokens: done.reasoning_tokens,
                ..entry
            })
        }),
{
}

/// A response that reports tokens changes the entry, unless the entry has the same already.
pub proof fn new_tokens_are_noticed(entry: EntryView, value: Tree)
    requires
        value.at("usage"@).at("input_tokens"@).natural() is Some,
        value.at("usage"@).at("input_tokens"@).natural() != entry.input_tokens,
    ensures
        with_usage(entry, value) is Some,
{
    let usage = value.at("usage"@);
    assert(Tree::Null.at("input_tokens"@) is Null);
    assert(value.has("usage"@));
    assert(usage.has("input_tokens"@));
}

// ---- how a response ended -------------------------------------------------------------------

/// A response that reports its completion, or a stream that ends well, has succeeded, unless it
/// failed before. One that reports a failure, an error or that it is incomplete has failed, with
/// the code that it names.
pub proof fn reported_ends_are_recorded(entry: EntryView, value: Tree)
    ensures
        ({
            let done = with_response(entry, value);
            let kind = value.at("type"@);
            let inner = value.at("response"@);
            let status = if value.has("status"@) {
                value.at("status"@)
            } else {
                inner.at("status"@)
            };
            let well = kind == Tree::Text("response.completed"@) || kind == Tree::Text(
                "proxy.stream.done"@,
            ) || status == Tree::Text("completed"@);
            let ill = kind == Tree::Text("response.failed"@) || kind == Tree::Text(
                "response.incomplete"@,
            ) || kind == Tree::Text("error"@) || !(value.at("error"@) is Null) || !(inner.at(
                "error"@,
            ) is Null) || status == Tree::Text("failed"@) || status == Tree::Text("incomplete"@);
            let code = if inner.at("error"@).has("code"@) {
                inner.at("error"@).at("code"@)
            } else if value.at("error"@).has("code"@) {
                value.at("error"@).at("code"@)
            } else if inner.at("incomplete_details"@).has("reason"@) {
                inner.at("incomplete_details"@).at("reason"@)
            } else {
                value.at("incomplete_details"@).at("reason"@)
            };
            &&& ill ==> done.terminal == Some("failed"@)
            &&& ill ==> (code matches Tree::Text(code) ==> code.len() <= 128 ==> done.error_code
                == Some(code))
            &&& ill && !(code is Text) ==> done.error_code is None
            &&& !ill && well && entry.terminal != Some("failed"@) ==> done.terminal == Some(
                "succeeded"@,
            )
            &&& !ill && !well ==> done.terminal == entry.terminal
            &&& !ill ==> done.error_code == entry.error_code
            &&& inner.at("id"@) matches Tree::Text(id) ==> id.len() <= 128 ==> done.response_id
                == Some(id)
        }),
{
}

/// A request ends once. It has failed where its response said so, where its status is that of an
/// error, or where its stream of a response broke off; a client that leaves after the response
/// was complete has been served. The time, the length and the source of the end are recorded.
pub proof fn ends_are_recorded(
    entry: EntryView,
    outcome: Seq<char>,
    source: Seq<char>,
    code: Option<Seq<char>>,
    bytes: u64,
    now: u64,
    elapsed: u64,
)
    ensures
        ({
            let done = with_ending(entry, outcome, source, code, bytes, now, elapsed);
            let ended = done->Some_0;
            let erred = entry.status matches Some(status) && status >= 400;
            let broken = source == "stream_end"@ && entry.streaming && "/responses"@.is_suffix_of(
                trimmed_end(entry.path, '/'),
            ) && entry.terminal is None;
            let served = source == "client_disconnect"@ && entry.streaming && entry.terminal
                == Some("succeeded"@) && !erred;
            &&& entry.ended_ms is Some <==> done is None
            &&& entry.ended_ms is None ==> {
                &&& ended.ended_ms == Some(now)
                &&& ended.total_duration_ms == Some(elapsed)
                &&& ended.response_bytes == bytes
                &&& entry.terminal == Some("failed"@) || broken || (outcome == "succeeded"@
                    && erred) ==> ended.state == "failed"@
                &&& served ==> ended.state == "succeeded"@ && ended.outcome_source == Some(
                    "responses_event"@,
                )
                &&& entry.terminal != Some("failed"@) && !broken && !(outcome == "succeeded"@
                    && erred) && !served ==> ended.state == outcome
                &&& !served ==> ended.outcome_source == Some(source)
                &&& broken ==> ended.error_code == Some("stream_missing_completed"@)
                &&& !broken && entry.error_code is Some ==> ended.error_code == entry.error_code
                &&& !broken && !served && entry.error_code is None ==> (
                code matches Some(code) ==> code.len() <= 128 ==> ended.error_code == Some(code))
                &&& ended.input_tokens == entry.input_tokens && ended.output_tokens
                    == entry.output_tokens && ended.routed_model == entry.routed_model
                    && ended.requested_model == entry.requested_model
            }
        }),
{
    assert("failed"@ != "succeeded"@) by {
        reveal_strlit("failed");
        reveal_strlit("succeeded");
        assert("failed"@.len() != "succeeded"@.len());
    }
    assert("stream_end"@ != "client_disconnect"@) by {
        reveal_strlit("stream_end");
        reveal_strlit("client_disconnect");
        assert("stream_end"@.len() != "client_disconnect"@.len());
    }
}

/// A request that begins is pending, at its time, with its method and path, under the number
/// that follows the last; the numbers of the most recent requests are kept in order.
pub proof fn beginnings_are_recorded(
    history: History,
    method: Seq<char>,
    path: Seq<char>,
    transport: Seq<char>,
    now: u64,
    started: Option<std::time::Instant>,
)
    requires
        history.next_id < u64::MAX,
        history.order.len() <= 500,
    ensures
        ({
            let (after, event) = history.begun(method, path, transport, now, started);
            let entry = event.entry;
            &&& entry.id == history.next_id + 1
            &&& after.next_id == entry.id
            &&& entry.request_id == history.session_id + "-"@ + decimal(entry.id as nat)
            &&& entry.state == "pending"@
            &&& entry.timestamp_ms == now
            &&& entry.method == method
            &&& path.len() <= 2048 ==> entry.path == path
            &&& entry.transport == transport
            &&& entry.mode == history.mode
            &&& entry.ended_ms is None && entry.status is None && entry.error_code is None
            &&& entry.retries == 0 && entry.attempts == 0
            &&& event.kind == "received"@
            &&& after.entries.last() == entry
            &&& after.order.last() == entry.id
            &&& history.order.len() < 500 ==> after.order == history.order.push(entry.id)
            &&& history.order.len() == 500 ==> after.order == history.order.subrange(1, 500).push(
                entry.id,
            )
        }),
{
}

/// The first byte and the first output are timed once; the status of a response, and that it now
/// streams, are recorded as they come.
pub proof fn moments_are_recorded(entry: EntryView, status: u16, elapsed: u64)
    ensures
        entry.first_byte_ms is Some ==> changed(entry, Change::FirstByte(elapsed)) is None,
        entry.first_byte_ms is None ==> changed(entry, Change::FirstByte(elapsed)) == Some(
            EntryView { first_byte_ms: Some(elapsed), ..entry },
        ),
        entry.first_output_ms is Some ==> changed(entry, Change::FirstOutput(elapsed)) is None,
        entry.first_output_ms is None ==> changed(entry, Change::FirstOutput(elapsed)) == Some(
            EntryView { first_output_ms: Some(elapsed), ..entry },
        ),
        changed(entry, Change::Headers { status, elapsed }) matches Some(done) && done.status
            == Some(status) && (entry.ended_ms is None ==> done.state == "streaming"@) && (
        entry.duration_ms is None ==> done.duration_ms == Some(elapsed)) && (
        entry.duration_ms is Some ==> done.duration_ms == entry.duration_ms),
        entry.attempts < u32::MAX ==> (changed(entry, Change::Attempt) matches Some(done)
            && done.attempts == entry.attempts + 1),
        changed(entry, Change::Guidance) matches Some(done) && done.security_guidance,
{
}

/// The rule that decided on a request is named: a route of the effort, an alias, or none.
pub proof fn rules_are_named(aliases: Seq<AliasView>, path: Seq<char>, value: Tree, model: Seq<char>)
    requires
        value.at("model"@) == Tree::Text(model),
        trimmed_end(path, '/') == "/v1/responses"@,
    ensures
        ({
            let (asked, used, rule) = decision_of(aliases, path, value);
            let effort = value.at("reasoning"@).at("effort"@);
            let alias = crate::config::alias_from(aliases, model, path, 0);
            &&& alias is None ==> rule == "passthrough"@
            &&& alias matches Some(alias) ==> (effort matches Tree::Text(effort) ==> find(
                alias.reasoning_routes,
                effort,
            ) is Some ==> rule == "reasoning"@)
            &&& alias matches Some(alias) ==> (!(effort is Text) ==> rule == "alias"@)
            &&& alias matches Some(alias) ==> (effort matches Tree::Text(effort) ==> find(
                alias.reasoning_routes,
                effort,
            ) is None ==> rule == "alias"@)
            &&& effort matches Tree::Text(effort) ==> effort.len() <= 256 ==> asked == Some(effort)
            &&& alias matches Some(alias) ==> (alias.reasoning matches Some(set) ==> set.len()
                <= 256 ==> used == Some(set))
            &&& (alias matches Some(alias) ==> alias.reasoning is None) ==> used == asked
        }),
{
    reveal_strlit("/v1/responses");
    reveal_strlit("/responses");
    reveal_strlit("/chat/completions");
    assert("/v1/responses"@.subrange(3, 13) =~= "/responses"@);
    assert("/responses"@.is_suffix_of("/v1/responses"@));
    assert(!("/chat/completions"@.is_suffix_of("/v1/responses"@)));
}

/// The model of a request is the one that it names itself, or that its session or its response
/// names.
pub proof fn models_are_found(value: Tree)
    ensures
        value.at("model"@) matches Tree::Text(model) ==> model_named(value) == Some(model),
        !(value.at("model"@) is Text) ==> (value.at("session"@).at("model"@) matches Tree::Text(
            model,
        ) ==> model_named(value) == Some(model)),
        !(value.at("model"@) is Text) && !(value.at("session"@).at("model"@) is Text) ==> (
        value.at("response"@).at("model"@) matches Tree::Text(model) ==> model_named(value)
            == Some(model)),
{
}

// ---- prices ---------------------------------------------------------------------------------

/// What is charged: the tokens of the prompt at their rate, those that were cached and those that
/// were written to the cache at theirs where there are such rates, and those of the answer. The
/// price of a prompt over the threshold is twice as high, that of its answer one and a half times.
/// The sum is rounded to the nearest unit.
pub proof fn prices_are_these(rates: Rates, entry: EntryView, nanos: i64)
    requires
        cost_of(rates, entry) == Some(nanos),
    ensures
        ({
            let input = entry.input_tokens->Some_0 as int;
            let output = entry.output_tokens->Some_0 as int;
            let cached = match entry.cached_input_tokens {
                Some(n) => n as int,
                None => 0,
            };
            let writes = match entry.cache_write_tokens {
                Some(n) => n as int,
                None => 0,
            };
            let cached_rate = match rates.cached {
                Some(n) => n as int,
                None => rates.input as int,
            };
            let write_rate = match rates.write {
                Some(n) => n as int,
                None => rates.input as int,
            };
            let long = rates.threshold matches Some(threshold) && input > threshold;
            let read = (input - cached - writes) * rates.input + cached * cached_rate + writes
                * write_rate;
            let told = output * rates.output;
            &&& entry.input_tokens is Some && entry.output_tokens is Some
            &&& cached + writes <= input
            &&& !long ==> 1000 * nanos - 500 <= read + told < 1000 * nanos + 500
            &&& long ==> 2000 * nanos - 1000 <= 4 * read + 3 * told < 2000 * nanos + 1000
        }),
{
    let input = entry.input_tokens->Some_0 as nat;
    let output = entry.output_tokens->Some_0 as nat;
    let cached = count_of(entry.cached_input_tokens);
    let writes = count_of(entry.cache_write_tokens);
    let read = (input - cached - writes) * rates.input + cached * rate_or(
        rates.cached,
        rates.input,
    ) + writes * rate_or(rates.write, rates.input);
    assert((input - cached - writes) * rates.input >= 0) by (nonlinear_arith)
        requires
            input - cached - writes >= 0,
            rates.input >= 0,
    ;
    assert(cached * rate_or(rates.cached, rates.input) >= 0) by (nonlinear_arith);
    assert(writes * rate_or(rates.write, rates.input) >= 0) by (nonlinear_arith);
    assert(output * rates.output >= 0) by (nonlinear_arith);
    let told = output * rates.output;
    assert(output * rates.output * 3 == told * 3);
    assert(output * rates.output * 2 == told * 2);
    let whole = double_cost(rates, input, cached, writes, output);
    let long = rates.threshold matches Some(threshold) && input > threshold;
    assert(long ==> whole == 4 * read + 3 * told);
    assert(!long ==> whole == 2 * read + 2 * told);
    assert(nanos == (whole + 1000) / 2000);
}

/// A request is charged for the model that it was routed to, and for the one that it asked for
/// where the first has no price, unless another provider served it. Only requests for answers are
/// charged.
pub proof fn charges_are_for_the_model_used(book: Book, entry: EntryView, model: Seq<char>)
    requires
        entry.routed_model == Some(model),
        find(book.aliases, model) is None,
    ensures
        find(book.prices, model) matches Some(rates) ==> priced(book, entry).model == Some(model),
        find(book.prices, model) matches Some(rates) ==> (priced(book, entry).nanos is Some ==> (
        entry.method == "POST"@ || entry.method == "SEND"@) && (entry.path == "/v1/responses"@
            || entry.path == "/v1/responses/compact"@ || entry.path == "/v1/chat/completions"@
            || entry.path == "/v1/completions"@) && priced(book, entry).nanos == cost_of(
            rates,
            entry,
        )),
        find(book.prices, model) matches Some(rates) ==> (entry.method == "POST"@ && entry.path
            == "/v1/responses"@ ==> priced(book, entry).nanos == cost_of(rates, entry)),
        find(book.prices, model) is None && "gemini/"@.is_prefix_of(model) ==> priced(
            book,
            entry,
        ).model is None && priced(book, entry).nanos is None,
        priced(book, entry).version == book.version,
{
}

// ---- queries --------------------------------------------------------------------------------

/// A query of the log covers the time that it names, or the last day, and at most five hundred
/// records, or a hundred where it does not say; its grouping and its format are among those that
/// there are.
pub proof fn queries_are_bounded(query: Query, now: u64)
    requires
        condition_of(query, now) is Ok,
    ensures
        ({
            let done = condition_of(query, now)->Ok_0;
            &&& query.end is Some ==> done.end == query.end->Some_0
            &&& query.end is None ==> done.end == now
            &&& query.start is Some ==> done.start == query.start->Some_0
            &&& query.start is None && done.end >= 86_400_000 ==> done.start == done.end
                - 86_400_000
            &&& done.start < done.end
            &&& query.limit is Some ==> done.limit == query.limit->Some_0
            &&& query.limit is None ==> done.limit == 100
            &&& 1 <= done.limit <= 500
            &&& query.group is Some ==> done.group == query.group->Some_0@
            &&& query.group is None ==> done.group == "requested_model"@
            &&& done.group == "requested_model"@ || done.group == "routed_model"@ || done.group
                == "project"@ || done.group == "path"@ || done.group == "state"@ || done.group
                == "transport"@
            &&& query.format is Some ==> query.format->Some_0@ == "csv"@ || query.format->Some_0@
                == "jsonl"@
        }),
{
}

proof fn plain_text_is_quoted(text: Seq<char>, from: int, out: Seq<char>)
    requires
        0 <= from <= text.len(),
        !text.contains('"'),
    ensures
        quoted_from(text, from, out) == out + text.subrange(from, text.len() as int),
    decreases text.len() - from,
{
    if from < text.len() {
        assert(text.contains(text[from]));
        plain_text_is_quoted(text, from + 1, out.push(text[from]));
        assert(out.push(text[from]) + text.subrange(from + 1, text.len() as int) =~= out
            + text.subrange(from, text.len() as int));
    } else {
        assert(out + text.subrange(from, text.len() as int) =~= out);
    }
}

/// A cell of an export holds its text between quotes; one that a spreadsheet would take for a
/// formula is marked first.
pub proof fn cells_hold_their_text(text: Seq<char>)
    requires
        !text.contains('"'),
    ensures
        text.len() > 0 && !crate::text::white(text[0]) && text[0] != '=' && text[0] != '+'
            && text[0] != '-' && text[0] != '@' ==> cell_of(Tree::Text(text)) == "\""@ + text
            + "\""@,
        text.len() > 0 && (text[0] == '=' || text[0] == '+' || text[0] == '-' || text[0] == '@')
            ==> cell_of(Tree::Text(text)) == "\""@ + ("'"@ + text) + "\""@,
        cell_of(Tree::Null) == "\""@ + "\""@,
{
    reveal_strlit("'");
    plain_text_is_quoted(text, 0, Seq::empty());
    assert(Seq::<char>::empty() + text.subrange(0, text.len() as int) =~= text);
    let marked = "'"@ + text;
    assert(!marked.contains('"')) by {
        assert forall|i: int| 0 <= i < marked.len() implies marked[i] != '"' by {
            if i > 0 {
                assert(marked[i] == text[i - 1]);
                assert(text.contains(text[i - 1]));
            }
        }
    }
    plain_text_is_quoted(marked, 0, Seq::empty());
    assert(Seq::<char>::empty() + marked.subrange(0, marked.len() as int) =~= marked);
    if text.len() > 0 && !crate::text::white(text[0]) {
        assert(white_start(text, 0) == 0);
        if text[0] != '=' && text[0] != '+' && text[0] != '-' && text[0] != '@' {
            assert(crate::text::white('\t') && crate::text::white('\r') && crate::text::white('\n'));
            assert(!formula(text));
        }
    }
    if text.len() > 0 && (text[0] == '=' || text[0] == '+' || text[0] == '-' || text[0] == '@') {
        assert(!crate::text::white(text[0]));
        assert(white_start(text, 0) == 0);
        assert(formula(text));
    }
    assert("\""@ + Seq::<char>::empty() =~= "\""@);
}

} // verus!

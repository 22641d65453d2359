//! What a client sends back of a response: the laws of replay.

use vstd::prelude::*;
use crate::chat::request::{
    blank_group, extended_text, group_with, grouped, typed_text, Recalled,
};
use crate::chat::response::{
    detail_format, details_of, joined_text, opaque_detail, summary_detail, text_detail,
    texts_joined,
};
use crate::members::member_laws;
use crate::tree::Tree;

verus! {

broadcast use member_laws;

/// The names of the members of a reasoning detail all differ.
proof fn names_differ()
    ensures
        "type"@ != "summary"@,
        "type"@ != "text"@,
        "type"@ != "data"@,
        "type"@ != "id"@,
        "type"@ != "format"@,
        "type"@ != "index"@,
        "type"@ != "signature"@,
        "type"@ != "content"@,
        "type"@ != "encrypted_content"@,
        "summary"@ != "id"@,
        "summary"@ != "format"@,
        "summary"@ != "index"@,
        "summary"@ != "signature"@,
        "summary"@ != "content"@,
        "summary"@ != "encrypted_content"@,
        "text"@ != "signature"@,
        "text"@ != "id"@,
        "text"@ != "format"@,
        "text"@ != "index"@,
        "data"@ != "id"@,
        "data"@ != "format"@,
        "data"@ != "index"@,
        "data"@ != "signature"@,
        "id"@ != "format"@,
        "id"@ != "index"@,
        "id"@ != "content"@,
        "id"@ != "encrypted_content"@,
        "id"@ != "signature"@,
        "format"@ != "index"@,
        "format"@ != "signature"@,
        "index"@ != "signature"@,
        "content"@ != "encrypted_content"@,
{
    reveal_strlit("type");
    reveal_strlit("summary");
    reveal_strlit("text");
    reveal_strlit("data");
    reveal_strlit("id");
    reveal_strlit("format");
    reveal_strlit("index");
    reveal_strlit("signature");
    reveal_strlit("content");
    reveal_strlit("encrypted_content");
    assert("type"@.len() == 4);
    assert("summary"@.len() == 7);
    assert("text"@.len() == 4);
    assert("data"@.len() == 4);
    assert("id"@.len() == 2);
    assert("format"@.len() == 6);
    assert("index"@.len() == 5);
    assert("signature"@.len() == 9);
    assert("content"@.len() == 7);
    assert("encrypted_content"@.len() == 17);
    assert("type"@[1] != "text"@[1]);
    assert("type"@[0] != "data"@[0]);
    assert("summary"@[0] != "content"@[0]);
}

proof fn kinds_differ()
    ensures
        "reasoning.summary"@ != "reasoning.text"@,
        "reasoning.encrypted"@ != "reasoning.text"@,
        "reasoning.encrypted"@ != "reasoning.summary"@,
        "openai-responses-v1"@ != "google-gemini-v1"@,
{
    reveal_strlit("reasoning.summary");
    reveal_strlit("reasoning.text");
    reveal_strlit("reasoning.encrypted");
    reveal_strlit("openai-responses-v1");
    reveal_strlit("google-gemini-v1");
    assert("reasoning.summary"@.len() == 17);
    assert("reasoning.text"@.len() == 14);
    assert("reasoning.encrypted"@.len() == 19);
    assert("openai-responses-v1"@.len() == 19);
    assert("google-gemini-v1"@.len() == 16);
}

/// A group that holds what was told so far of an item.
spec fn holds(group: Tree, id: Seq<char>, summary: Seq<char>, content: Seq<char>, data: Option<Seq<char>>) -> bool {
    &&& group is Object
    &&& group.at("type"@) == Tree::Text("reasoning"@)
    &&& group.at("id"@) == Tree::Text(id)
    &&& joined_text(group.at("summary"@)) == summary
    &&& joined_text(group.at("content"@)) == content
    &&& group.at("encrypted_content"@).text() == data
}

proof fn one_part_joins(kind: Seq<char>, text: Seq<char>)
    ensures
        joined_text(Tree::Array(seq![typed_text(kind, text)])) == text,
{
    names_differ();
    let parts = seq![typed_text(kind, text)];
    assert(parts[0].at("text"@) == Tree::Text(text));
    reveal_with_fuel(texts_joined, 3);
    assert(Seq::<char>::empty() + text =~= text);
}

proof fn nothing_joins()
    ensures
        joined_text(Tree::Null) == Seq::<char>::empty(),
        joined_text(Tree::Array(Seq::empty())) == Seq::<char>::empty(),
{
}

/// What is recalled while the details of one item are read: nothing, or one group.
spec fn recalls(state: Recalled, id: Seq<char>, summary: Seq<char>, content: Seq<char>, data: Option<Seq<char>>) -> bool {
    &&& state.turn is None
    &&& state.groups.len() == 1
    &&& holds(state.groups[0], id, summary, content, data)
}

spec fn blank(state: Recalled) -> bool {
    state.turn is None && state.groups.len() == 0
}

proof fn blank_group_holds(id: Seq<char>)
    ensures
        holds(blank_group(id), id, Seq::empty(), Seq::empty(), None),
{
    names_differ();
    nothing_joins();
}

proof fn one_group(state: Recalled, id: Seq<char>, summary: Seq<char>, content: Seq<char>, data: Option<Seq<char>>)
    requires
        recalls(state, id, summary, content, data) || (blank(state) && summary.len() == 0
            && content.len() == 0 && data is None),
    ensures
        ({
            let (groups, place) = grouped(state.groups, id);
            &&& place == 0
            &&& groups.len() == 1
            &&& holds(groups[0], id, summary, content, data)
        }),
{
    if blank(state) {
        blank_group_holds(id);
        assert(summary =~= Seq::<char>::empty());
        assert(content =~= Seq::<char>::empty());
        assert(group_with(state.groups, id, 0) is None);
    } else {
        assert(group_with(state.groups, id, 0) == Some(0int));
    }
}

proof fn summary_is_recalled(state: Recalled, item: Tree, index: u64, id: Seq<char>, model: Seq<char>, key: Seq<u8>)
    requires
        blank(state),
        item.at("id"@) == Tree::Text(id),
        detail_format(item) == "openai-responses-v1"@,
    ensures
        ({
            let next = state.detail(summary_detail(item, index), model, key);
            next is Ok && recalls(
                next->Ok_0,
                id,
                joined_text(item.at("summary"@)),
                Seq::empty(),
                None,
            )
        }),
{
    names_differ();
    kinds_differ();
    let detail = summary_detail(item, index);
    let text = joined_text(item.at("summary"@));
    one_group(state, id, Seq::empty(), Seq::empty(), None);
    let (groups, place) = grouped(state.groups, id);
    assert(detail.at("type"@) == Tree::Text("reasoning.summary"@));
    assert(detail.at("format"@) == Tree::Text("openai-responses-v1"@));
    assert(detail.at("id"@) == Tree::Text(id));
    assert(detail.at("summary"@) == Tree::Text(text));
    assert(detail.at("signature"@) is Null);
    blank_group_holds(id);
    assert(groups[0] == blank_group(id));
    assert(Seq::<char>::empty() + text =~= text);
    one_part_joins("summary_text"@, text);
    let group = extended_text(groups[0], "summary"@, "summary_text"@, text);
    assert(group == groups[0].with("summary"@, Tree::Array(seq![typed_text("summary_text"@, text)])));
    assert(holds(group, id, text, Seq::empty(), None));
}

proof fn text_is_recalled(state: Recalled, item: Tree, index: u64, id: Seq<char>, summary: Seq<char>, model: Seq<char>, key: Seq<u8>)
    requires
        recalls(state, id, summary, Seq::empty(), None) || (blank(state) && summary.len() == 0),
        state.groups.len() == 1 ==> state.groups[0].at("content"@) is Null,
        item.at("id"@) == Tree::Text(id),
        detail_format(item) == "openai-responses-v1"@,
    ensures
        ({
            let next = state.detail(text_detail(item, index), model, key);
            next is Ok && recalls(
                next->Ok_0,
                id,
                summary,
                joined_text(item.at("content"@)),
                None,
            )
        }),
{
    names_differ();
    kinds_differ();
    let detail = text_detail(item, index);
    let text = joined_text(item.at("content"@));
    one_group(state, id, summary, Seq::empty(), None);
    let (groups, place) = grouped(state.groups, id);
    assert(detail.at("type"@) == Tree::Text("reasoning.text"@));
    assert(detail.at("format"@) == Tree::Text("openai-responses-v1"@));
    assert(detail.at("id"@) == Tree::Text(id));
    assert(detail.at("text"@) == Tree::Text(text));
    assert(detail.at("signature"@) is Null);
    if blank(state) {
        assert(groups[0] == blank_group(id));
        assert(group_with(state.groups, id, 0) is None);
    } else {
        assert(groups == state.groups);
    }
    assert(groups[0].at("content"@) is Null);
    assert(Seq::<char>::empty() + text =~= text);
    one_part_joins("reasoning_text"@, text);
    let group = extended_text(groups[0], "content"@, "reasoning_text"@, text);
    assert(group == groups[0].with(
        "content"@,
        Tree::Array(seq![typed_text("reasoning_text"@, text)]),
    ));
    assert(holds(group, id, summary, text, None));
}

proof fn data_is_recalled(state: Recalled, item: Tree, index: u64, id: Seq<char>, summary: Seq<char>, content: Seq<char>, model: Seq<char>, key: Seq<u8>)
    requires
        recalls(state, id, summary, content, None) || (blank(state) && summary.len() == 0
            && content.len() == 0),
        item.at("id"@) == Tree::Text(id),
        item.at("encrypted_content"@) is Text,
        detail_format(item) == "openai-responses-v1"@,
    ensures
        ({
            let next = state.detail(opaque_detail(item, index), model, key);
            next is Ok && recalls(
                next->Ok_0,
                id,
                summary,
                content,
                item.at("encrypted_content"@).text(),
            )
        }),
{
    names_differ();
    kinds_differ();
    let detail = opaque_detail(item, index);
    let data = item.at("encrypted_content"@).text()->Some_0;
    one_group(state, id, summary, content, None);
    let (groups, place) = grouped(state.groups, id);
    assert(detail.at("type"@) == Tree::Text("reasoning.encrypted"@));
    assert(detail.at("format"@) == Tree::Text("openai-responses-v1"@));
    assert(detail.at("id"@) == Tree::Text(id));
    assert(detail.at("data"@) == Tree::Text(data));
    assert(Seq::<char>::empty() + data =~= data);
    let group = groups[0].with("encrypted_content"@, Tree::Text(data));
    assert(holds(group, id, summary, content, Some(data)));
}

/// Reasoning that was answered reads back when a client sends it again: from the details of
/// an item comes one item with its id, its summary, its text and its opaque data.
pub proof fn reasoning_reads_back(item: Tree, index: u64, model: Seq<char>, key: Seq<u8>)
    requires
        item.at("id"@) is Text,
        detail_format(item) == "openai-responses-v1"@,
        details_of(item, index).len() > 0,
    ensures
        ({
            let back = (Recalled { groups: Seq::empty(), turn: None }).details(
                details_of(item, index),
                0,
                model,
                key,
            );
            &&& back is Ok
            &&& back->Ok_0.turn is None
            &&& back->Ok_0.groups.len() == 1
            &&& back->Ok_0.groups[0].at("type"@) == Tree::Text("reasoning"@)
            &&& back->Ok_0.groups[0].at("id"@) == item.at("id"@)
            &&& joined_text(back->Ok_0.groups[0].at("summary"@)) == joined_text(
                item.at("summary"@),
            )
            &&& joined_text(back->Ok_0.groups[0].at("content"@)) == joined_text(
                item.at("content"@),
            )
            &&& back->Ok_0.groups[0].at("encrypted_content"@).text() == item.at(
                "encrypted_content"@,
            ).text()
        }),
{
    names_differ();
    let id = item.at("id"@).text()->Some_0;
    let start = Recalled { groups: Seq::empty(), turn: None };
    let summary = joined_text(item.at("summary"@));
    let content = joined_text(item.at("content"@));
    let all = details_of(item, index);
    reveal_with_fuel(Recalled::details, 4);
    let one = if summary.len() > 0 {
        summary_is_recalled(start, item, index, id, model, key);
        start.detail(summary_detail(item, index), model, key)->Ok_0
    } else {
        start
    };
    if summary.len() > 0 {
        blank_group_holds(id);
        assert(one.groups[0].at("content"@) is Null) by {
            kinds_differ();
            let detail = summary_detail(item, index);
            assert(detail.at("type"@) == Tree::Text("reasoning.summary"@));
            assert(detail.at("format"@) == Tree::Text("openai-responses-v1"@));
            assert(detail.at("id"@) == Tree::Text(id));
            assert(detail.at("summary"@) == Tree::Text(summary));
            assert(detail.at("signature"@) is Null);
            assert(group_with(start.groups, id, 0) is None);
            assert(one.groups[0] == extended_text(
                blank_group(id),
                "summary"@,
                "summary_text"@,
                summary,
            ));
        }
    }
    let two = if content.len() > 0 {
        text_is_recalled(one, item, index, id, summary, model, key);
        one.detail(text_detail(item, index), model, key)->Ok_0
    } else {
        one
    };
    if content.len() == 0 {
        assert(content =~= Seq::<char>::empty());
    }
    if summary.len() == 0 {
        assert(summary =~= Seq::<char>::empty());
    }
    let three = if item.at("encrypted_content"@) is Text {
        data_is_recalled(two, item, index, id, summary, content, model, key);
        two.detail(opaque_detail(item, index), model, key)->Ok_0
    } else {
        two
    };
    assert(recalls(three, id, summary, content, item.at("encrypted_content"@).text()));
    assert(start.details(all, 0, model, key) == Ok::<Recalled, Seq<char>>(three));
}

} // verus!

//! What the native API is shown of texts, images, files and sounds.

use vstd::prelude::*;
use crate::gemini::parts::{
    block_part, block_parts, empty_object, image_level, inline_part, media_part, parts_of,
};
use crate::members::{member_laws, set_keeps_others};
use crate::text::{ahead, after, parted};
use crate::tree::Tree;

verus! {

/// A part holds data of a kind within itself.
pub open spec fn holds_data(part: Tree, mime: Seq<char>, data: Seq<char>) -> bool {
    part.at("inlineData"@).at("mimeType"@) == Tree::Text(mime) && part.at("inlineData"@).at(
        "data"@,
    ) == Tree::Text(data)
}

/// A part refers to a file of a kind.
pub open spec fn refers_to(part: Tree, mime: Seq<char>, uri: Seq<char>) -> bool {
    part.at("fileData"@).at("mimeType"@) == Tree::Text(mime) && part.at("fileData"@).at("fileUri"@)
        == Tree::Text(uri)
}

/// A part shows what a source names: the data of a data URI as the kind that the URI gives, the
/// file of a link, and anything else as data of the kind that is given beside it.
pub open spec fn shows(part: Tree, source: Seq<char>, given: Tree, usual: Seq<char>) -> bool {
    let mime = match given {
        Tree::Text(mime) => mime,
        _ => usual,
    };
    let linked = "https://"@.is_prefix_of(source) || "http://"@.is_prefix_of(source)
        || "gs://"@.is_prefix_of(source);
    &&& forall|own: Seq<char>, data: Seq<char>|
        source == "data:"@ + own + ";base64,"@ + data && !own.contains(',')
            ==> #[trigger] holds_data(part, own, data)
    &&& !("data:"@.is_prefix_of(source)) && linked ==> refers_to(part, mime, source)
    &&& !("data:"@.is_prefix_of(source)) && !linked ==> holds_data(part, mime, source)
}

proof fn part_names_differ()
    ensures
        "text"@ != "inlineData"@,
        "text"@ != "fileData"@,
        "text"@ != "mimeType"@,
        "text"@ != "data"@,
        "text"@ != "fileUri"@,
        "text"@ != "mediaResolution"@,
        "text"@ != "level"@,
        "inlineData"@ != "fileData"@,
        "inlineData"@ != "mimeType"@,
        "inlineData"@ != "data"@,
        "inlineData"@ != "fileUri"@,
        "inlineData"@ != "mediaResolution"@,
        "inlineData"@ != "level"@,
        "fileData"@ != "mimeType"@,
        "fileData"@ != "data"@,
        "fileData"@ != "fileUri"@,
        "fileData"@ != "mediaResolution"@,
        "fileData"@ != "level"@,
        "mimeType"@ != "data"@,
        "mimeType"@ != "fileUri"@,
        "mimeType"@ != "mediaResolution"@,
        "mimeType"@ != "level"@,
        "data"@ != "fileUri"@,
        "data"@ != "mediaResolution"@,
        "data"@ != "level"@,
        "fileUri"@ != "mediaResolution"@,
        "fileUri"@ != "level"@,
        "mediaResolution"@ != "level"@,
{
    reveal_strlit("text");
    reveal_strlit("inlineData");
    reveal_strlit("fileData");
    reveal_strlit("mimeType");
    reveal_strlit("data");
    reveal_strlit("fileUri");
    reveal_strlit("mediaResolution");
    reveal_strlit("level");
    assert("text"@.len() == 4);
    assert("inlineData"@.len() == 10);
    assert("fileData"@.len() == 8);
    assert("mimeType"@.len() == 8);
    assert("data"@.len() == 4);
    assert("fileUri"@.len() == 7);
    assert("mediaResolution"@.len() == 15);
    assert("level"@.len() == 5);
    assert("text"@[0] == 't');
    assert("data"@[0] == 'd');
    assert("fileData"@[0] == 'f');
    assert("mimeType"@[0] == 'm');
}

proof fn first_place(s: Seq<char>, c: char, from: int, k: int)
    requires
        0 <= from <= k < s.len(),
        s[k] == c,
        forall|i: int| from <= i < k ==> s[i] != c,
    ensures
        crate::text::place_of(s, c, from) == Some(k),
    decreases k - from,
{
    if from < k {
        first_place(s, c, from + 1, k);
    }
}

proof fn data_links_part(own: Seq<char>, data: Seq<char>)
    requires
        !own.contains(','),
    ensures
        ({
            let source = "data:"@ + own + ";base64,"@ + data;
            &&& after(source, "data:"@) is Some
            &&& parted(after(source, "data:"@)->Some_0, ',') == Some((own + ";base64"@, data))
            &&& ahead(own + ";base64"@, ";base64"@) == Some(own)
        }),
{
    reveal_strlit("data:");
    reveal_strlit(";base64,");
    reveal_strlit(";base64");
    let source = "data:"@ + own + ";base64,"@ + data;
    assert(source.subrange(0, 5) =~= "data:"@);
    let rest = source.subrange(5, source.len() as int);
    let header = own + ";base64"@;
    assert(rest =~= header + seq![','] + data);
    assert forall|i: int| 0 <= i < header.len() implies rest[i] != ',' by {
        if i < own.len() {
            assert(own.contains(own[i]));
            assert(rest[i] == own[i]);
        } else {
            assert(rest[i] == ";base64"@[i - own.len()]);
        }
    }
    first_place(rest, ',', 0, header.len() as int);
    assert(rest.subrange(0, header.len() as int) =~= header);
    assert(rest.subrange((header.len() + 1) as int, rest.len() as int) =~= data);
    assert(header.subrange(own.len() as int, header.len() as int) =~= ";base64"@);
    assert(header.subrange(0, own.len() as int) =~= own);
}

proof fn media_are_shown(source: Seq<char>, given: Tree, usual: Seq<char>)
    requires
        media_part(source, given.text(), usual) is Ok,
    ensures
        shows(media_part(source, given.text(), usual)->Ok_0, source, given, usual),
        media_part(source, given.text(), usual)->Ok_0 is Object,
{
    broadcast use member_laws;

    part_names_differ();
    let part = media_part(source, given.text(), usual)->Ok_0;
    assert forall|own: Seq<char>, data: Seq<char>|
        source == "data:"@ + own + ";base64,"@ + data && !own.contains(
            ',',
        ) implies #[trigger] holds_data(part, own, data) by {
        data_links_part(own, data);
        assert(part == inline_part(own, data));
    }
}

proof fn levels_keep(part: Tree, source: Seq<char>, given: Tree, usual: Seq<char>, value: Tree)
    requires
        shows(part, source, given, usual),
    ensures
        shows(part.with("mediaResolution"@, value), source, given, usual),
{
    part_names_differ();
    let next = part.with("mediaResolution"@, value);
    set_keeps_others(part, "mediaResolution"@, value, "inlineData"@);
    set_keeps_others(part, "mediaResolution"@, value, "fileData"@);
    assert forall|own: Seq<char>, data: Seq<char>|
        source == "data:"@ + own + ";base64,"@ + data && !own.contains(
            ',',
        ) implies #[trigger] holds_data(next, own, data) by {
        assert(holds_data(part, own, data));
    }
}

/// The text of a block is shown as it is.
pub proof fn texts_are_shown(block: Tree)
    requires
        block.at("type"@) == Tree::Text("input_text"@) || block.at("type"@) == Tree::Text(
            "output_text"@,
        ) || block.at("type"@) == Tree::Text("text"@),
        block_part(block) is Ok,
    ensures
        block_part(block)->Ok_0.at("text"@) == block.at("text"@),
{
    broadcast use member_laws;

}

/// An image is shown from where it is named, at the resolution that its detail asks for.
pub proof fn images_are_shown(block: Tree)
    requires
        block.at("type"@) == Tree::Text("input_image"@) || block.at("type"@) == Tree::Text(
            "image"@,
        ),
        block_part(block) is Ok,
    ensures
        ({
            let part = block_part(block)->Ok_0;
            let url = if block.at("image_url"@) is Text {
                block.at("image_url"@)
            } else {
                block.at("image_url"@).at("url"@)
            };
            let detail = if block.at("detail"@) is Null {
                block.at("image_url"@).at("detail"@)
            } else {
                block.at("detail"@)
            };
            let level = part.at("mediaResolution"@).at("level"@);
            &&& url is Text
            &&& shows(part, url->Text_0, block.at("mime_type"@), "image/jpeg"@)
            &&& detail == Tree::Text("low"@) ==> level == Tree::Text("MEDIA_RESOLUTION_LOW"@)
            &&& detail == Tree::Text("high"@) ==> level == Tree::Text("MEDIA_RESOLUTION_HIGH"@)
            &&& detail == Tree::Text("original"@) ==> level == Tree::Text(
                "MEDIA_RESOLUTION_ULTRA_HIGH"@,
            )
            &&& detail is Null || detail == Tree::Text("auto"@) || detail == Tree::Text("low"@)
                || detail == Tree::Text("high"@) || detail == Tree::Text("original"@)
        }),
{
    broadcast use member_laws;

    reveal_strlit("input_image");
    reveal_strlit("image");
    reveal_strlit("input_text");
    reveal_strlit("output_text");
    reveal_strlit("text");
    assert("input_image"@.len() == 11);
    assert("image"@.len() == 5);
    assert("input_text"@.len() == 10);
    assert("output_text"@.len() == 11);
    assert("text"@.len() == 4);
    assert("input_image"@[0] == 'i');
    assert("output_text"@[0] == 'o');
    assert("auto"@ != "low"@ && "auto"@ != "high"@ && "auto"@ != "original"@ && "low"@ != "high"@
        && "low"@ != "original"@ && "high"@ != "original"@) by {
        reveal_strlit("auto");
        reveal_strlit("low");
        reveal_strlit("high");
        reveal_strlit("original");
        assert("auto"@.len() == 4);
        assert("low"@.len() == 3);
        assert("high"@.len() == 4);
        assert("original"@.len() == 8);
        assert("auto"@[0] == 'a');
        assert("high"@[0] == 'h');
    }
    let url = crate::gemini::parts::image_source(block)->Some_0;
    media_are_shown(url, block.at("mime_type"@), "image/jpeg"@);
    let plain = media_part(url, block.at("mime_type"@).text(), "image/jpeg"@)->Ok_0;
    if let Some(level) = image_level(block)->Ok_0 {
        levels_keep(
            plain,
            url,
            block.at("mime_type"@),
            "image/jpeg"@,
            empty_object().with("level"@, Tree::Text(level)),
        );
    }
}

/// A file is shown from its data, or from where it is found; one that only the other provider
/// holds is refused.
pub proof fn files_are_shown(block: Tree)
    requires
        block.at("type"@) == Tree::Text("input_file"@),
    ensures
        block.has("file_id"@) ==> block_part(block) is Err,
        block_part(block) matches Ok(part) ==> {
            let source = if block.has("file_data"@) {
                block.at("file_data"@)
            } else {
                block.at("file_url"@)
            };
            source is Text && shows(
                part,
                source->Text_0,
                block.at("mime_type"@),
                "application/pdf"@,
            )
        },
{
    reveal_strlit("input_file");
    reveal_strlit("input_text");
    reveal_strlit("output_text");
    reveal_strlit("text");
    reveal_strlit("input_image");
    reveal_strlit("image");
    assert("input_file"@.len() == 10);
    assert("input_text"@.len() == 10);
    assert("output_text"@.len() == 11);
    assert("text"@.len() == 4);
    assert("input_image"@.len() == 11);
    assert("image"@.len() == 5);
    assert("input_file"@[6] == 'f');
    assert("input_text"@[6] == 't');
    assert("output_text"@[0] == 'o');
    assert("input_image"@[0] == 'i');
    if block_part(block) is Ok {
        let source = if block.has("file_data"@) {
            block.at("file_data"@)
        } else {
            block.at("file_url"@)
        };
        media_are_shown(source->Text_0, block.at("mime_type"@), "application/pdf"@);
    }
}

/// A sound is shown as data of its format.
pub proof fn sounds_are_shown(block: Tree)
    requires
        block.at("type"@) == Tree::Text("input_audio"@),
        block_part(block) is Ok,
    ensures
        ({
            let audio = if block.has("input_audio"@) {
                block.at("input_audio"@)
            } else {
                block
            };
            let part = block_part(block)->Ok_0;
            &&& audio.at("format"@) == Tree::Text("wav"@) || audio.at("format"@) == Tree::Text(
                "mp3"@,
            )
            &&& audio.at("data"@) is Text
            &&& audio.at("format"@) == Tree::Text("wav"@) ==> holds_data(
                part,
                "audio/wav"@,
                audio.at("data"@)->Text_0,
            )
            &&& audio.at("format"@) == Tree::Text("mp3"@) ==> holds_data(
                part,
                "audio/mpeg"@,
                audio.at("data"@)->Text_0,
            )
        }),
{
    broadcast use member_laws;

    part_names_differ();
    reveal_strlit("input_audio");
    reveal_strlit("input_text");
    reveal_strlit("output_text");
    reveal_strlit("text");
    reveal_strlit("input_image");
    reveal_strlit("image");
    reveal_strlit("input_file");
    assert("input_audio"@.len() == 11);
    assert("input_text"@.len() == 10);
    assert("output_text"@.len() == 11);
    assert("text"@.len() == 4);
    assert("input_image"@.len() == 11);
    assert("image"@.len() == 5);
    assert("input_file"@.len() == 10);
    assert("input_audio"@[0] == 'i');
    assert("input_audio"@[6] == 'a');
    assert("output_text"@[0] == 'o');
    assert("input_image"@[0] == 'i');
    assert("input_image"@[6] == 'i');
    assert("input_text"@[6] == 't');
    assert("input_file"@[6] == 'f');
    assert("wav"@ != "mp3"@) by {
        reveal_strlit("wav");
        reveal_strlit("mp3");
        assert("wav"@.len() == 3);
        assert("mp3"@.len() == 3);
        assert("wav"@[0] == 'w');
        assert("mp3"@[0] == 'm');
    }
}

/// A native part is shown as it is, and a block of an unknown kind is refused.
pub proof fn native_parts_are_shown(block: Tree)
    ensures
        block.at("type"@) == Tree::Text("gemini_part"@) && block_part(block) is Ok ==> block_part(
            block,
        )->Ok_0 == block.at("part"@),
        block_part(block) is Ok ==> block.at("type"@) == Tree::Text("input_text"@) || block.at(
            "type"@,
        ) == Tree::Text("output_text"@) || block.at("type"@) == Tree::Text("text"@) || block.at(
            "type"@,
        ) == Tree::Text("input_image"@) || block.at("type"@) == Tree::Text("image"@) || block.at(
            "type"@,
        ) == Tree::Text("input_file"@) || block.at("type"@) == Tree::Text("input_audio"@)
            || block.at("type"@) == Tree::Text("gemini_part"@),
{
    reveal_strlit("gemini_part");
    reveal_strlit("input_audio");
    reveal_strlit("input_text");
    reveal_strlit("output_text");
    reveal_strlit("text");
    reveal_strlit("input_image");
    reveal_strlit("image");
    reveal_strlit("input_file");
    assert("gemini_part"@.len() == 11);
    assert("input_audio"@.len() == 11);
    assert("input_text"@.len() == 10);
    assert("output_text"@.len() == 11);
    assert("text"@.len() == 4);
    assert("input_image"@.len() == 11);
    assert("image"@.len() == 5);
    assert("input_file"@.len() == 10);
    assert("gemini_part"@[0] == 'g');
    assert("input_audio"@[0] == 'i');
    assert("input_audio"@[6] == 'a');
    assert("output_text"@[0] == 'o');
    assert("input_image"@[0] == 'i');
    assert("input_image"@[6] == 'i');
    assert("input_text"@[6] == 't');
    assert("input_file"@[6] == 'f');
}

proof fn blocks_are_shown_from(blocks: Seq<Tree>, from: int, parts: Seq<Tree>)
    requires
        0 <= from <= blocks.len(),
        parts.len() == from,
        forall|i: int| 0 <= i < from ==> block_part(blocks[i]) == Ok::<Tree, Seq<char>>(parts[i]),
        block_parts(blocks, from, parts) is Ok,
    ensures
        ({
            let out = block_parts(blocks, from, parts)->Ok_0;
            &&& out.len() == blocks.len()
            &&& forall|i: int|
                0 <= i < blocks.len() ==> block_part(blocks[i]) == Ok::<Tree, Seq<char>>(
                    #[trigger] out[i],
                )
        }),
    decreases blocks.len() - from,
{
    if from < blocks.len() {
        let part = block_part(blocks[from])->Ok_0;
        blocks_are_shown_from(blocks, from + 1, parts.push(part));
    }
}

/// Blocks are shown one for one and in order; a plain text is one part.
pub proof fn blocks_are_shown(content: Tree)
    requires
        parts_of(content) is Ok,
    ensures
        match content {
            Tree::Text(_) => parts_of(content)->Ok_0.len() == 1 && parts_of(content)->Ok_0[0].at(
                "text"@,
            ) == content,
            Tree::Array(blocks) => parts_of(content)->Ok_0.len() == blocks.len() && forall|i: int|
                0 <= i < blocks.len() ==> block_part(blocks[i]) == Ok::<Tree, Seq<char>>(
                    #[trigger] parts_of(content)->Ok_0[i],
                ),
            _ => false,
        },
{
    broadcast use member_laws;

    if let Tree::Array(blocks) = content {
        blocks_are_shown_from(blocks, 0, Seq::empty());
    }
}

} // verus!

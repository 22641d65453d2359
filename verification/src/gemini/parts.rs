//! Responses content as native parts, without fetching URLs or changing what they
//! hold.

use vstd::prelude::*;
use crate::error::{outcome, Error};
use crate::outside::{decode_standard, standard_decoded};
use crate::text::{
    after, ahead, join2, join3, parted, same, split_once, starts_with, strip_prefix, strip_suffix,
};
use crate::tree::{json_views, trees, Json, Tree};

verus! {

broadcast use json_views;

/// The empty object.
pub open spec fn empty_object() -> Tree {
    Tree::Object(Seq::empty())
}

/// A native text part.
pub open spec fn text_part(text: Seq<char>) -> Tree {
    empty_object().with("text"@, Tree::Text(text))
}

pub(crate) fn make_text_part(text: &str) -> (r: Json)
    ensures
        r@ == text_part(text@),
{
    Json::object().with("text", Json::text(text))
}

/// A member that must be a string.
pub open spec fn string_of(value: Tree, key: Seq<char>) -> Result<Seq<char>, Seq<char>> {
    match value.at(key).text() {
        Some(text) => Ok(text),
        None => Err(key + " must be a string"@),
    }
}

/// Reads a member that must be a string.
pub(crate) fn string<'a>(value: &'a Json, key: &str) -> (r: Result<&'a str, Error>)
    ensures
        outcome(r) == string_of(value@, key@),
{
    match value.at(key).as_str() {
        Some(text) => Ok(text),
        None => Err(Error { message: join2(key, " must be a string") }),
    }
}

/// A native part that holds its data.
pub open spec fn inline_part(mime: Seq<char>, data: Seq<char>) -> Tree {
    empty_object().with(
        "inlineData"@,
        empty_object().with("mimeType"@, Tree::Text(mime)).with("data"@, Tree::Text(data)),
    )
}

fn make_inline_part(mime: &str, data: &str) -> (r: Json)
    ensures
        r@ == inline_part(mime@, data@),
{
    Json::object().with(
        "inlineData",
        Json::object().with("mimeType", Json::text(mime)).with("data", Json::text(data)),
    )
}

/// A native part that names where its data lies.
pub open spec fn file_part(mime: Seq<char>, uri: Seq<char>) -> Tree {
    empty_object().with(
        "fileData"@,
        empty_object().with("mimeType"@, Tree::Text(mime)).with("fileUri"@, Tree::Text(uri)),
    )
}

fn make_file_part(mime: &str, uri: &str) -> (r: Json)
    ensures
        r@ == file_part(mime@, uri@),
{
    Json::object().with(
        "fileData",
        Json::object().with("mimeType", Json::text(mime)).with("fileUri", Json::text(uri)),
    )
}

/// A text, or another where there is none.
pub open spec fn or_else(text: Option<Seq<char>>, fallback: Seq<char>) -> Seq<char> {
    match text {
        Some(text) => text,
        None => fallback,
    }
}

/// Data that must be base64, as a native part.
pub open spec fn encoded_part(mime: Seq<char>, data: Seq<char>) -> Result<Tree, Seq<char>> {
    match standard_decoded(data) {
        Err(message) => Err(message),
        Ok(_) => Ok(inline_part(mime, data)),
    }
}

/// A media source as a native part: a data URI, a URL, or bare base64.
pub open spec fn media_part(
    source: Seq<char>,
    mime: Option<Seq<char>>,
    fallback: Seq<char>,
) -> Result<Tree, Seq<char>> {
    match after(source, "data:"@) {
        Some(data) => match parted(data, ',') {
            None => Err("Invalid data URI"@),
            Some((header, bytes)) => match ahead(header, ";base64"@) {
                None => Err("Media data URI must be base64"@),
                Some(own) => encoded_part(own, bytes),
            },
        },
        None => if "https://"@.is_prefix_of(source) || "http://"@.is_prefix_of(source)
            || "gs://"@.is_prefix_of(source) {
            Ok(file_part(or_else(mime, fallback), source))
        } else {
            encoded_part(or_else(mime, fallback), source)
        },
    }
}

fn encoded(mime: &str, data: &str) -> (r: Result<Json, Error>)
    ensures
        outcome(r) == encoded_part(mime@, data@),
{
    match decode_standard(data) {
        Err(error) => Err(error),
        Ok(_) => Ok(make_inline_part(mime, data)),
    }
}

fn media(source: &str, mime: Option<&str>, fallback: &str) -> (r: Result<Json, Error>)
    ensures
        outcome(r) == media_part(source@, mime.deep_view(), fallback@),
{
    match strip_prefix(source, "data:") {
        Some(data) => match split_once(data, ',') {
            None => Err(Error::new("Invalid data URI")),
            Some((header, bytes)) => match strip_suffix(header, ";base64") {
                None => Err(Error::new("Media data URI must be base64")),
                Some(own) => encoded(own, bytes),
            },
        },
        None => {
            let mime = match mime {
                Some(mime) => mime,
                None => fallback,
            };
            if starts_with(source, "https://") || starts_with(source, "http://") || starts_with(
                source,
                "gs://",
            ) {
                Ok(make_file_part(mime, source))
            } else {
                encoded(mime, source)
            }
        },
    }
}

/// The resolution that an image asks for.
pub open spec fn image_level(block: Tree) -> Result<Option<Seq<char>>, Seq<char>> {
    let top = block.at("detail"@);
    let nested = block.at("image_url"@).at("detail"@);
    if !(top is Null) && !(nested is Null) && !top.equals(nested) {
        Err("Conflicting image detail values"@)
    } else {
        let detail = if !(top is Null) {
            top
        } else {
            nested
        };
        if detail is Null || detail == Tree::Text("auto"@) {
            Ok(None)
        } else if detail == Tree::Text("low"@) {
            Ok(Some("MEDIA_RESOLUTION_LOW"@))
        } else if detail == Tree::Text("high"@) {
            Ok(Some("MEDIA_RESOLUTION_HIGH"@))
        } else if detail == Tree::Text("original"@) {
            Ok(Some("MEDIA_RESOLUTION_ULTRA_HIGH"@))
        } else {
            Err("Image detail must be auto, low, high, or original"@)
        }
    }
}

fn image_detail(block: &Json) -> (r: Result<Option<&'static str>, Error>)
    ensures
        outcome(r) == image_level(block@),
{
    let top = block.at("detail");
    let nested = block.at("image_url").at("detail");
    if !top.is_null() && !nested.is_null() && !top.equals(nested) {
        return Err(Error::new("Conflicting image detail values"));
    }
    let detail = if !top.is_null() {
        top
    } else {
        nested
    };
    if detail.is_null() || detail.is("auto") {
        Ok(None)
    } else if detail.is("low") {
        Ok(Some("MEDIA_RESOLUTION_LOW"))
    } else if detail.is("high") {
        Ok(Some("MEDIA_RESOLUTION_HIGH"))
    } else if detail.is("original") {
        Ok(Some("MEDIA_RESOLUTION_ULTRA_HIGH"))
    } else {
        Err(Error::new("Image detail must be auto, low, high, or original"))
    }
}

/// A text block as a native part.
pub open spec fn text_block(block: Tree) -> Result<Tree, Seq<char>> {
    if block.at("annotations"@).items() matches Some(list) && list.len() > 0 {
        Err("Annotated text cannot be replayed faithfully to Gemini"@)
    } else {
        match string_of(block, "text"@) {
            Err(message) => Err(message),
            Ok(text) => Ok(text_part(text)),
        }
    }
}

/// Where an image lies.
pub open spec fn image_source(block: Tree) -> Option<Seq<char>> {
    match block.at("image_url"@).text() {
        Some(url) => Some(url),
        None => block.at("image_url"@).at("url"@).text(),
    }
}

/// An image block as a native part.
pub open spec fn image_block(block: Tree) -> Result<Tree, Seq<char>> {
    match image_level(block) {
        Err(message) => Err(message),
        Ok(level) => match image_source(block) {
            None => Err("image_url must be a string"@),
            Some(url) => match media_part(url, block.at("mime_type"@).text(), "image/jpeg"@) {
                Err(message) => Err(message),
                Ok(part) => Ok(
                    match level {
                        Some(level) => part.with(
                            "mediaResolution"@,
                            empty_object().with("level"@, Tree::Text(level)),
                        ),
                        None => part,
                    },
                ),
            },
        },
    }
}

/// A file block as a native part.
pub open spec fn file_block(block: Tree) -> Result<Tree, Seq<char>> {
    if block.has("file_id"@) {
        Err("OpenAI file IDs cannot be resolved by Gemini; supply file_data or file_url"@)
    } else {
        let source = match block.get("file_data"@) {
            Some(source) => source,
            None => block.at("file_url"@),
        };
        match source.text() {
            None => Err("input_file requires file_data or file_url"@),
            Some(source) => media_part(
                source,
                block.at("mime_type"@).text(),
                "application/pdf"@,
            ),
        }
    }
}

/// An audio block as a native part.
pub open spec fn audio_block(block: Tree) -> Result<Tree, Seq<char>> {
    let audio = match block.get("input_audio"@) {
        Some(audio) => audio,
        None => block,
    };
    match string_of(audio, "format"@) {
        Err(message) => Err(message),
        Ok(format) => if format != "wav"@ && format != "mp3"@ {
            Err("Unsupported audio format "@ + format)
        } else {
            match string_of(audio, "data"@) {
                Err(message) => Err(message),
                Ok(data) => encoded_part(
                    if format == "wav"@ {
                        "audio/wav"@
                    } else {
                        "audio/mpeg"@
                    },
                    data,
                ),
            }
        },
    }
}

/// A native part handed through as it is.
pub open spec fn native_block(block: Tree) -> Result<Tree, Seq<char>> {
    if block.at("part"@) is Object {
        Ok(block.at("part"@))
    } else {
        Err("gemini_part requires a native part object"@)
    }
}

/// A content block as a native part.
pub open spec fn block_part(block: Tree) -> Result<Tree, Seq<char>> {
    match string_of(block, "type"@) {
        Err(message) => Err(message),
        Ok(kind) => if kind == "input_text"@ || kind == "output_text"@ || kind == "text"@ {
            text_block(block)
        } else if kind == "input_image"@ || kind == "image"@ {
            image_block(block)
        } else if kind == "input_file"@ {
            file_block(block)
        } else if kind == "input_audio"@ {
            audio_block(block)
        } else if kind == "gemini_part"@ {
            native_block(block)
        } else {
            Err("Unsupported Responses content type "@ + kind + "; cannot discard it"@)
        },
    }
}

fn convert_text(block: &Json) -> (r: Result<Json, Error>)
    ensures
        outcome(r) == text_block(block@),
{
    match block.at("annotations").as_array() {
        Some(list) => if list.len() > 0 {
            return Err(Error::new("Annotated text cannot be replayed faithfully to Gemini"));
        },
        None => {},
    }
    let text = string(block, "text")?;
    Ok(make_text_part(text))
}

fn convert_image(block: &Json) -> (r: Result<Json, Error>)
    ensures
        outcome(r) == image_block(block@),
{
    let level = image_detail(block)?;
    let image = block.at("image_url");
    let url = match image.as_str() {
        Some(url) => url,
        None => match image.at("url").as_str() {
            Some(url) => url,
            None => return Err(Error::new("image_url must be a string")),
        },
    };
    let part = media(url, block.at("mime_type").as_str(), "image/jpeg")?;
    match level {
        Some(level) => Ok(
            part.with("mediaResolution", Json::object().with("level", Json::text(level))),
        ),
        None => Ok(part),
    }
}

fn convert_file(block: &Json) -> (r: Result<Json, Error>)
    ensures
        outcome(r) == file_block(block@),
{
    if block.has("file_id") {
        return Err(
            Error::new(
                "OpenAI file IDs cannot be resolved by Gemini; supply file_data or file_url",
            ),
        );
    }
    let source = match block.get("file_data") {
        Some(source) => source,
        None => block.at("file_url"),
    };
    match source.as_str() {
        None => Err(Error::new("input_file requires file_data or file_url")),
        Some(source) => media(source, block.at("mime_type").as_str(), "application/pdf"),
    }
}

fn convert_audio(block: &Json) -> (r: Result<Json, Error>)
    ensures
        outcome(r) == audio_block(block@),
{
    let audio = match block.get("input_audio") {
        Some(audio) => audio,
        None => block,
    };
    let format = string(audio, "format")?;
    let mime = if same(format, "wav") {
        "audio/wav"
    } else if same(format, "mp3") {
        "audio/mpeg"
    } else {
        return Err(Error { message: join2("Unsupported audio format ", format) });
    };
    let data = string(audio, "data")?;
    encoded(mime, data)
}

fn convert_block(block: &Json) -> (r: Result<Json, Error>)
    ensures
        outcome(r) == block_part(block@),
{
    let kind = string(block, "type")?;
    if same(kind, "input_text") || same(kind, "output_text") || same(kind, "text") {
        convert_text(block)
    } else if same(kind, "input_image") || same(kind, "image") {
        convert_image(block)
    } else if same(kind, "input_file") {
        convert_file(block)
    } else if same(kind, "input_audio") {
        convert_audio(block)
    } else if same(kind, "gemini_part") {
        let part = block.at("part");
        if part.is_object() {
            Ok(part.copy())
        } else {
            Err(Error::new("gemini_part requires a native part object"))
        }
    } else {
        Err(
            Error {
                message: join3(
                    "Unsupported Responses content type ",
                    kind,
                    "; cannot discard it",
                ),
            },
        )
    }
}

/// The blocks from `from` on, behind the parts that were made.
pub open spec fn block_parts(blocks: Seq<Tree>, from: int, parts: Seq<Tree>) -> Result<
    Seq<Tree>,
    Seq<char>,
>
    decreases blocks.len() - from,
{
    if from < 0 || from >= blocks.len() {
        Ok(parts)
    } else {
        match block_part(blocks[from]) {
            Err(message) => Err(message),
            Ok(part) => block_parts(blocks, from + 1, parts.push(part)),
        }
    }
}

/// Responses content as native parts.
pub open spec fn parts_of(content: Tree) -> Result<Seq<Tree>, Seq<char>> {
    match content {
        Tree::Text(text) => Ok(seq![text_part(text)]),
        Tree::Array(blocks) => block_parts(blocks, 0, Seq::empty()),
        _ => Err("content must be text or an array"@),
    }
}

/// Converts Responses input media without fetching URLs or changing their content.
pub fn content_parts(content: &Json) -> (r: Result<Vec<Json>, Error>)
    ensures
        outcome(r) == parts_of(content@),
{
    match content.as_str() {
        Some(text) => {
            let mut parts: Vec<Json> = Vec::new();
            parts.push(make_text_part(text));
            proof {
                assert(trees(parts@) =~= seq![text_part(text@)]);
            }
            return Ok(parts);
        },
        None => {},
    }
    let blocks = match content.as_array() {
        Some(blocks) => blocks,
        None => return Err(Error::new("content must be text or an array")),
    };
    let mut parts: Vec<Json> = Vec::new();
    let mut i: usize = 0;
    while i < blocks.len()
        invariant
            i <= blocks.len(),
            parts_of(content@) == block_parts(trees(blocks@), i as int, trees(parts@)),
        decreases blocks.len() - i,
    {
        let part = convert_block(&blocks[i])?;
        parts.push(part);
        i += 1;
    }
    Ok(parts)
}

} // verus!

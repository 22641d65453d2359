//! The authenticated, stateless carrier of an exact native model turn.

use vstd::prelude::*;
use vstd::utf8::encode_utf8;
use vstd::string::StrSliceExecFns;
use crate::error::{outcome, Error};
use crate::exchange::{parse, parsed, readable, settled, to_text, written};
use crate::outside::{
    decode_url_safe, decrypt, encode_url_safe, encrypt, fresh_nonce, sealed, unsealed, url_safe_decoded, url_safe_encoded,
};
use crate::text::{after, join2, strip_prefix};
use crate::tree::{json_views, trees, Json, Tree};

verus! {

broadcast use json_views;

/// Persist the caller-supplied key to replay conversations across process
/// restarts.
pub struct ReasoningCodec {
    pub key: [u8; 32],
}

/// The text that a carrier holds: the native parts and the visible items.
pub open spec fn turn_text(parts: Tree, items: Tree) -> Seq<u8> {
    encode_utf8(
        written(
            Tree::Object(Seq::empty()).with("parts"@, parts).with("items"@, items),
        ),
    )
}

/// The carrier of a turn, sealed under a nonce and bound to a model.
pub open spec fn carrier(
    key: Seq<u8>,
    nonce: Seq<u8>,
    model: Seq<char>,
    parts: Tree,
    items: Tree,
) -> Result<Seq<char>, Seq<char>> {
    match sealed(key, nonce, encode_utf8(model), turn_text(parts, items)) {
        Some(bytes) => Ok("hey_gemini_v1."@ + url_safe_encoded(nonce + bytes)),
        None => Err("Cannot encode Gemini reasoning"@),
    }
}

/// The most bytes that the cipher seals, or takes as associated data.
pub const MAX_SEALED: u64 = 0x1000000000;

/// Whether the cipher can seal a turn for a model: neither is too long for it.
pub open spec fn sealable(model: Seq<char>, parts: Tree, items: Tree) -> bool {
    encode_utf8(model).len() <= MAX_SEALED && turn_text(parts, items).len() <= MAX_SEALED
}

/// What a carrier holds for a model, or why it is refused.
pub open spec fn opened(key: Seq<u8>, model: Seq<char>, carrier: Seq<char>) -> Result<
    Tree,
    Seq<char>,
> {
    match after(carrier, "hey_gemini_v1."@) {
        None => Err(
            "Reasoning belongs to another provider or codec; cannot discard it"@,
        ),
        Some(encoded) => match url_safe_decoded(encoded) {
            Err(message) => Err(message),
            Ok(bytes) => if bytes.len() < 28 {
                Err("Invalid Gemini reasoning carrier"@)
            } else {
                match unsealed(
                    key,
                    bytes.subrange(0, 12),
                    encode_utf8(model),
                    bytes.subrange(12, bytes.len() as int),
                ) {
                    Some(text) => parsed(text),
                    None => Err(
                        "Gemini reasoning authentication failed (different model, key or altered carrier)"@,
                    ),
                }
            },
        },
    }
}

/// The visible items that a carrier holds.
pub open spec fn replayed_items(key: Seq<u8>, model: Seq<char>, carrier: Seq<char>) -> Result<
    Seq<Tree>,
    Seq<char>,
> {
    match opened(key, model, carrier) {
        Err(message) => Err(message),
        Ok(turn) => match turn.at("items"@).items() {
            Some(items) => Ok(items),
            None => Err("Invalid Gemini replay items"@),
        },
    }
}

fn twelve(bytes: &Vec<u8>) -> (r: [u8; 12])
    requires
        bytes.len() >= 12,
    ensures
        r@ == bytes@.subrange(0, 12),
{
    let mut r: [u8; 12] = [0u8; 12];
    let mut i: usize = 0;
    while i < 12
        invariant
            i <= 12,
            bytes.len() >= 12,
            forall|k: int| 0 <= k < i ==> r@[k] == bytes@[k],
        decreases 12 - i,
    {
        r[i] = bytes[i];
        i += 1;
    }
    proof {
        assert(r@ =~= bytes@.subrange(0, 12));
    }
    r
}

impl ReasoningCodec {
    pub fn new(key: &[u8; 32]) -> (r: ReasoningCodec)
        ensures
            r.key == *key,
    {
        ReasoningCodec { key: *key }
    }

    /// Recovers the authenticated visible output when adapting a flattened chat
    /// message back to Responses. Native signatures remain inside the carrier.
    pub fn replay_items(&self, model: &str, carrier: &str) -> (r: Result<Vec<Json>, Error>)
        ensures
            outcome(r) == replayed_items(self.key@, model@, carrier@),
    {
        let turn = self.open(model, carrier)?;
        match turn.at("items") {
            Json::Array(items) => Ok(copy_all(items)),
            _ => Err(Error::new("Invalid Gemini replay items")),
        }
    }

    /// Seals a turn under a given nonce.
    pub fn seal_with(&self, nonce: &[u8; 12], model: &str, parts: &Json, items: &Json) -> (r: Result<
        String,
        Error,
    >)
        ensures
            outcome(r) == carrier(self.key@, nonce@, model@, parts@, items@),
            sealable(model@, parts@, items@) ==> r is Ok,
            r matches Ok(text) ==> (readable(
                Tree::Object(Seq::empty()).with("parts"@, parts@).with("items"@, items@),
                127,
            ) ==> opened(self.key@, model@, text@) == Ok::<Tree, Seq<char>>(
                settled(Tree::Object(Seq::empty()).with("parts"@, parts@).with("items"@, items@)),
            )),
    {
        let turn = Json::object().with("parts", parts.copy()).with("items", items.copy());
        let text = to_text(&turn);
        let message = text.as_str().as_bytes_vec();
        let encrypted = match encrypt(&self.key, nonce, model.as_bytes(), message.as_slice()) {
            Some(bytes) => bytes,
            None => return Err(Error::new("Cannot encode Gemini reasoning")),
        };
        let mut bytes: Vec<u8> = Vec::new();
        bytes.extend_from_slice(nonce);
        bytes.extend_from_slice(encrypted.as_slice());
        proof {
            assert(bytes@ =~= nonce@ + encrypted@);
            assert(bytes@.subrange(0, 12) =~= nonce@);
            assert(bytes@.subrange(12, bytes@.len() as int) =~= encrypted@);
        }
        let encoded = encode_url_safe(bytes.as_slice());
        let carrier = join2("hey_gemini_v1.", encoded.as_str());
        proof {
            assert(carrier@.subrange(0, "hey_gemini_v1."@.len() as int) =~= "hey_gemini_v1."@);
            assert(carrier@.subrange(
                "hey_gemini_v1."@.len() as int,
                carrier@.len() as int,
            ) =~= encoded@);
        }
        Ok(carrier)
    }

    /// Seals a turn under a fresh nonce. Whatever the nonce, the carrier is the one
    /// that it gives.
    pub fn seal(&self, model: &str, parts: &Json, items: &Json) -> (r: Result<String, Error>)
        ensures
            exists|nonce: Seq<u8>|
                nonce.len() == 12 && outcome(r) == #[trigger] carrier(
                    self.key@,
                    nonce,
                    model@,
                    parts@,
                    items@,
                ),
            sealable(model@, parts@, items@) ==> r is Ok,
            r matches Ok(text) ==> (readable(
                Tree::Object(Seq::empty()).with("parts"@, parts@).with("items"@, items@),
                127,
            ) ==> opened(self.key@, model@, text@) == Ok::<Tree, Seq<char>>(
                settled(Tree::Object(Seq::empty()).with("parts"@, parts@).with("items"@, items@)),
            )),
    {
        let nonce = fresh_nonce();
        self.seal_with(&nonce, model, parts, items)
    }

    /// Opens a carrier that was sealed for the model.
    pub fn open(&self, model: &str, carrier: &str) -> (r: Result<Json, Error>)
        ensures
            outcome(r) == opened(self.key@, model@, carrier@),
    {
        let encoded = match strip_prefix(carrier, "hey_gemini_v1.") {
            Some(encoded) => encoded,
            None => {
                return Err(
                    Error::new("Reasoning belongs to another provider or codec; cannot discard it"),
                );
            },
        };
        let bytes = decode_url_safe(encoded)?;
        if bytes.len() < 28 {
            return Err(Error::new("Invalid Gemini reasoning carrier"));
        }
        let nonce = twelve(&bytes);
        let sealed = vstd::slice::slice_subrange(bytes.as_slice(), 12, bytes.len());
        match decrypt(&self.key, &nonce, model.as_bytes(), sealed) {
            Some(text) => parse(text.as_slice()),
            None => Err(
                Error::new(
                    "Gemini reasoning authentication failed (different model, key or altered carrier)",
                ),
            ),
        }
    }
}

/// Copies of values.
pub(crate) fn copy_all(items: &Vec<Json>) -> (r: Vec<Json>)
    ensures
        trees(r@) == trees(items@),
{
    let mut out: Vec<Json> = Vec::new();
    let mut i: usize = 0;
    while i < items.len()
        invariant
            i <= items.len(),
            trees(out@) == trees(items@).subrange(0, i as int),
        decreases items.len() - i,
    {
        out.push(items[i].copy());
        proof {
            assert(trees(items@).subrange(0, i + 1) =~= trees(items@).subrange(0, i as int).push(
                items@[i as int]@,
            ));
        }
        i += 1;
    }
    proof {
        assert(trees(items@).subrange(0, i as int) =~= trees(items@));
    }
    out
}

} // verus!

//! An opt-in Chat Completions facade over Responses.

use vstd::prelude::*;
use crate::text::{same, trim_end, trimmed_end};

pub mod answered;
pub mod asked;
pub mod facade;
pub mod ledger;
pub mod replay;
pub mod request;
pub mod response;
pub mod stream;
pub mod streamed;

verus! {

/// Whether a path is that of the chat facade.
pub fn is_path(path: &str) -> (r: bool)
    ensures
        r == (trimmed_end(path@, '/') == "/v1/custom/chat/completions"@),
{
    same(trim_end(path, '/'), "/v1/custom/chat/completions")
}

} // verus!

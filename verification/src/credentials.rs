//! Credential sources: literal keys, shell commands and 1Password references.

use vstd::prelude::*;
use vstd::utf8::{decode_utf8, encode_utf8, encode_utf8_decode_utf8, valid_utf8};
use crate::error::{ensured, outcome, Error};
use crate::outside::{header_text, is_header_text};
use crate::text::{
    after, blank, contains, controls, has_char, has_control, is_blank, occurs, pieces, read_utf8,
    same, split, strip_prefix, texts, trim, trimmed,
};

verus! {

/// A part of a reference that names something.
pub open spec fn naming_part(part: Seq<char>) -> bool {
    !blank(part) && part != "."@ && part != ".."@
}

/// A reference of 1Password: vault, item, an optional section, and field.
pub open spec fn good_reference(reference: Seq<char>) -> bool {
    let parts = pieces(reference, '/', 0);
    3 <= parts.len() <= 4 && (forall|i: int|
        0 <= i < parts.len() ==> naming_part(#[trigger] parts[i])) && !controls(reference)
        && !reference.contains('?') && !reference.contains('#') && encode_utf8(reference).len()
        <= 4096
}

/// The check of a credential source.
pub open spec fn source_check(source: Seq<char>) -> Result<(), Seq<char>> {
    match after(source, "sh://"@) {
        Some(command) => ensured(
            !blank(command) && !command.contains('\0'),
            "sh:// requires a nonempty shell command without NUL"@,
        ),
        None => match after(source, "op://"@) {
            Some(reference) => ensured(
                good_reference(reference),
                "op:// requires vault/item/field or vault/item/section/field without query parameters"@,
            ),
            None => if occurs("://"@, source) {
                Err(
                    "Unsupported credential source scheme; supported sources are literal keys, sh:// and op://"@,
                )
            } else {
                ensured(
                    !blank(source) && header_text(source),
                    "Invalid literal credential"@,
                )
            },
        },
    }
}

fn is_naming_part(part: &str) -> (r: bool)
    ensures
        r == naming_part(part@),
{
    !is_blank(part) && !same(part, ".") && !same(part, "..")
}

fn is_good_reference(reference: &str) -> (r: bool)
    ensures
        r == good_reference(reference@),
{
    let parts = split(reference, '/');
    proof {
        assert(texts(parts@).len() == parts.len());
    }
    if parts.len() < 3 || parts.len() > 4 {
        return false;
    }
    let mut i: usize = 0;
    while i < parts.len()
        invariant
            i <= parts.len(),
            texts(parts@) == pieces(reference@, '/', 0),
            forall|k: int| 0 <= k < i ==> naming_part(#[trigger] texts(parts@)[k]),
        decreases parts.len() - i,
    {
        if !is_naming_part(parts[i].as_str()) {
            assert(!naming_part(texts(parts@)[i as int]));
            return false;
        }
        i += 1;
    }
    !has_control(reference) && !has_char(reference, '?') && !has_char(reference, '#')
        && reference.as_bytes().len() <= 4096
}

/// Checks a credential source.
pub fn validate_source(source: &str) -> (r: Result<(), Error>)
    ensures
        outcome(r) == source_check(source@),
{
    match strip_prefix(source, "sh://") {
        Some(command) => {
            if is_blank(command) || has_char(command, '\0') {
                return Err(Error::new("sh:// requires a nonempty shell command without NUL"));
            }
            return Ok(());
        },
        None => {},
    }
    match strip_prefix(source, "op://") {
        Some(reference) => {
            if !is_good_reference(reference) {
                return Err(
                    Error::new(
                        "op:// requires vault/item/field or vault/item/section/field without query parameters",
                    ),
                );
            }
            return Ok(());
        },
        None => {},
    }
    if contains(source, "://") {
        return Err(
            Error::new(
                "Unsupported credential source scheme; supported sources are literal keys, sh:// and op://",
            ),
        );
    }
    if is_blank(source) || !is_header_text(source) {
        return Err(Error::new("Invalid literal credential"));
    }
    Ok(())
}

/// How a credential is had from its source.
pub enum Source {
    Literal,
    Shell(String),
    OnePassword,
}

/// How a credential is had from its source, or why the source is refused.
pub fn source_of(source: &str) -> (r: Result<Source, Error>)
    ensures
        match r {
            Ok(Source::Shell(command)) => source_check(source@) is Ok && after(source@, "sh://"@)
                == Some(command@),
            Ok(Source::OnePassword) => source_check(source@) is Ok && after(source@, "sh://"@)
                is None && after(source@, "op://"@) is Some,
            Ok(Source::Literal) => source_check(source@) is Ok && after(source@, "sh://"@) is None
                && after(source@, "op://"@) is None,
            Err(error) => source_check(source@) == Err::<(), Seq<char>>(error.message@),
        },
{
    validate_source(source)?;
    match strip_prefix(source, "sh://") {
        Some(command) => Ok(Source::Shell(command.to_string())),
        None => match strip_prefix(source, "op://") {
            Some(_) => Ok(Source::OnePassword),
            None => Ok(Source::Literal),
        },
    }
}

/// How many commands are remembered at a time.
pub const MAX_ENTRIES: usize = 128;

/// What becomes of a source that is asked for.
#[derive(Clone, Copy, Debug, PartialEq, Eq, Structural)]
pub enum Admission {
    /// There is room, or the source is remembered already.
    Enter,
    /// The idle entry at this place makes room.
    Evict(usize),
    /// Every entry is in use.
    Busy,
}

/// The first idle entry at or after `from`.
pub open spec fn first_idle(idle: Seq<bool>, from: int) -> Option<int>
    decreases idle.len() - from,
{
    if from < 0 || from >= idle.len() {
        None
    } else if idle[from] {
        Some(from)
    } else {
        first_idle(idle, from + 1)
    }
}

/// Decides whether a source can be remembered. Entries in use are never evicted, so that
/// callers of one source share one execution.
pub fn make_room(known: bool, idle: &Vec<bool>) -> (r: Admission)
    ensures
        r == (if known || idle@.len() < MAX_ENTRIES {
            Admission::Enter
        } else {
            match first_idle(idle@, 0) {
                Some(i) => Admission::Evict(i as usize),
                None => Admission::Busy,
            }
        }),
        r matches Admission::Evict(i) ==> i < idle@.len() && idle@[i as int],
{
    if known || idle.len() < MAX_ENTRIES {
        return Admission::Enter;
    }
    let mut i: usize = 0;
    while i < idle.len()
        invariant
            i <= idle.len(),
            !known && idle@.len() >= MAX_ENTRIES,
            first_idle(idle@, 0) == first_idle(idle@, i as int),
        decreases idle.len() - i,
    {
        if idle[i] {
            return Admission::Evict(i);
        }
        i += 1;
    }
    Admission::Busy
}

/// What a caller does that holds the entry of its source.
#[derive(Clone, Copy, Debug, PartialEq, Eq, Structural)]
pub enum Turn {
    /// Takes the value that is remembered.
    Reuse,
    /// Shares the failure that it waited for.
    ShareFailure,
    /// Executes the command.
    Execute,
}

/// Decides what a caller does: `age` is the age of the remembered value, and
/// `failed_meanwhile` says that an execution failed after the caller had asked. Later
/// callers can retry at once.
pub fn take_turn(age: Option<u64>, ttl: u64, failed_meanwhile: bool) -> (r: Turn)
    ensures
        r == (if age matches Some(age) && age < ttl {
            Turn::Reuse
        } else if failed_meanwhile {
            Turn::ShareFailure
        } else {
            Turn::Execute
        }),
{
    match age {
        Some(age) => if age < ttl {
            return Turn::Reuse;
        },
        None => {},
    }
    if failed_meanwhile {
        Turn::ShareFailure
    } else {
        Turn::Execute
    }
}

/// How much output a command may print.
pub const MAX_OUTPUT: usize = 16384;

/// The credential that a command's output holds, or why there is none.
pub open spec fn printed(output: Seq<u8>, succeeded: bool) -> Result<Seq<char>, Seq<char>> {
    if output.len() > MAX_OUTPUT {
        Err("Credential command output exceeds 16 KiB"@)
    } else if !succeeded {
        Err("Credential command failed"@)
    } else if !valid_utf8(output) {
        Err("Credential command output must be UTF-8"@)
    } else {
        let text = trimmed(decode_utf8(output));
        if text.len() == 0 {
            Err("Credential command returned an empty credential"@)
        } else if !header_text(text) {
            Err("Credential command output is not a valid HTTP header"@)
        } else {
            Ok(text)
        }
    }
}

/// Reads the credential that a command printed.
pub fn read_output(output: &[u8], succeeded: bool) -> (r: Result<String, Error>)
    ensures
        outcome(r) == printed(output@, succeeded),
{
    if output.len() > MAX_OUTPUT {
        return Err(Error::new("Credential command output exceeds 16 KiB"));
    }
    if !succeeded {
        return Err(Error::new("Credential command failed"));
    }
    let whole = match read_utf8(output) {
        Ok(text) => text,
        Err(_) => return Err(Error::new("Credential command output must be UTF-8")),
    };
    proof {
        encode_utf8_decode_utf8(whole@);
    }
    let text = trim(whole);
    if text.as_str().is_empty() {
        return Err(Error::new("Credential command returned an empty credential"));
    }
    if !is_header_text(text.as_str()) {
        return Err(Error::new("Credential command output is not a valid HTTP header"));
    }
    Ok(text)
}

} // verus!

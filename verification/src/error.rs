//! Errors that carry a message, and the views of results.

use vstd::prelude::*;

verus! {

/// A refusal, with the message that tells why.
#[derive(Debug)]
pub struct Error {
    pub message: String,
}

impl Error {
    pub fn new(message: &str) -> (r: Error)
        ensures
            r.message@ == message@,
    {
        Error { message: message.to_string() }
    }
}

/// The view of a result: the view of its value, or the message of its error.
pub open spec fn outcome<T: DeepView>(r: Result<T, Error>) -> Result<T::V, Seq<char>> {
    match r {
        Ok(value) => Ok(value.deep_view()),
        Err(error) => Err(error.message@),
    }
}

/// Two checks in a row: the first refusal, if any.
pub open spec fn both(
    first: Result<(), Seq<char>>,
    second: Result<(), Seq<char>>,
) -> Result<(), Seq<char>> {
    if first is Err {
        first
    } else {
        second
    }
}

/// A check with a message for where it fails.
pub open spec fn ensured(holds: bool, message: Seq<char>) -> Result<(), Seq<char>> {
    if holds {
        Ok(())
    } else {
        Err(message)
    }
}

/// Refuses with the message unless the condition holds.
pub(crate) fn ensure(holds: bool, message: &str) -> (r: Result<(), Error>)
    ensures
        outcome(r) == ensured(holds, message@),
{
    if holds {
        Ok(())
    } else {
        Err(Error::new(message))
    }
}

/// A success.
pub open spec fn success<T>(value: T) -> Result<T, Seq<char>> {
    Ok(value)
}

/// A refusal with a message.
pub open spec fn failure<T>(message: Seq<char>) -> Result<T, Seq<char>> {
    Err(message)
}

} // verus!

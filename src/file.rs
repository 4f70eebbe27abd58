use vstd::prelude::*;

use crate::error::IncludeError;

verus! {

/// Whether a file of `len` bytes is too large to embed: its length exceeds
/// eight times the largest `usize`.
pub open spec fn too_large(len: u64) -> bool {
    len as int > 8 * (usize::MAX as int)
}

/// The size guard applied to a file's length before it is read.
///
/// Fails with `FileTooLarge`, stating `usize::MAX` as the limit, exactly
/// when the file is too large.
pub fn check_file_len(len: u64) -> (r: Result<(), IncludeError>)
    ensures
        (r is Err) <==> too_large(len),
        (r is Err) ==> r->Err_0 == (IncludeError::FileTooLarge { max: usize::MAX }),
{
    let limit = usize::MAX as u64;
    if len / 8 > limit || (len / 8 == limit && len % 8 != 0) {
        Err(IncludeError::FileTooLarge { max: usize::MAX })
    } else {
        Ok(())
    }
}

/// What an embedding expands to: the encoded text as a string literal, or a
/// compile-time diagnostic that carries the failure's description.
#[derive(Debug, PartialEq, Eq)]
pub enum Expansion {
    /// The encoded text, to stand as a string literal.
    Literal(String),
    /// The description of a failure, to stand in a `compile_error!`.
    CompileError(String),
}

/// The expansion for the outcome of encoding a file.
pub fn expansion_of(outcome: Result<String, IncludeError>) -> (x: Expansion)
    ensures
        match outcome {
            Ok(s) => x == Expansion::Literal(s),
            Err(e) => (x is CompileError) && x->CompileError_0@ == e.message_text(),
        },
{
    match outcome {
        Ok(s) => Expansion::Literal(s),
        Err(e) => Expansion::CompileError(e.message()),
    }
}

} // verus!

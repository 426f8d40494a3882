use vstd::prelude::*;

verus! {

/// Every way a reader session can fail.
#[derive(Debug, Clone, PartialEq, Eq)]
pub enum ReaderError {
    /// The console line is not an unsigned 32-bit decimal number.
    InvalidSelection,
    /// The number selects no category of the table.
    CategoryNotFound { id: u32 },
    /// The request did not complete (network failure or timeout).
    Transport { cause: String },
    /// The server answered with a status outside `200..=299`.
    UnexpectedStatus { code: u16 },
    /// The body is not a feed document.
    ParseError { detail: String },
    /// The markup pattern did not compile.
    InvalidPattern,
}

} // verus!

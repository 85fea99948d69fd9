//! The error kinds a parse can fail with.  The first error aborts the whole
//! parse; there is no recovery or resynchronization.

use vstd::prelude::*;

verus! {

/// Why a parse failed.
#[derive(Debug, Clone, Copy, PartialEq, Eq, Structural)]
pub enum ParseError {
    /// A cursor access (peek, peek-ahead or consume) asked for a position at
    /// or beyond the end of the token sequence.
    OutOfBounds,
    /// A primary-expression or type-annotation position holds a token the
    /// grammar cannot start from.
    UnexpectedToken,
    /// The end of the token sequence was reached inside a block, before the
    /// block's closing brace was seen.
    UnterminatedBlock,
    /// A number token's text is not a well-formed numeric literal.
    InvalidNumberLiteral,
    /// A declaration form ended before any initializer expression began.
    MissingInitializer,
}

} // verus!

//! The mathematical model of the grammar: a family of recursive functions
//! from a token sequence and a cursor to the parse's outcome.  Each function
//! answers, for its precedence level, either `Ok((value, cursor after))` or
//! the error the parse stops with.  The executable parser is proved to
//! return exactly these outcomes, so the model is the single place the
//! grammar is written down.
//!
//! The grammar's shape, lowest precedence first: a statement is a block or
//! an expression; an expression first tries the declaration forms (an
//! identifier followed by a type keyword, or by `=`), then falls through to
//! the additive level, which wraps the multiplicative level, which wraps
//! call parsing, which wraps primary parsing.  A binary operator's right
//! operand re-enters the whole expression grammar, so chains of equal
//! precedence group to the right.

use vstd::prelude::*;

use crate::ast::SpecAst;
use crate::error::ParseError;
use crate::token::{is_type_keyword, SpecToken};
use crate::types::{spec_none_type, Mutability, SpecPrimative, SpecType};

verus! {

/// A decimal digit.
pub open spec fn spec_is_digit(c: char) -> bool {
    48 <= (c as u32) && (c as u32) <= 57
}

/// A leading sign.
pub open spec fn spec_is_sign(c: char) -> bool {
    c == '+' || c == '-'
}

/// An exponent marker.
pub open spec fn spec_is_exp_marker(c: char) -> bool {
    c == 'e' || c == 'E'
}

/// `a` is the lower-case letter `l`, or its upper-case form.
pub open spec fn spec_eq_ci(a: char, l: char) -> bool {
    a == l || (a as u32) + 32 == (l as u32)
}

/// The characters of `s` in `lo..hi` spell `inf`, `infinity` or `nan`,
/// ignoring case.
pub open spec fn spec_special_range(s: Seq<char>, lo: int, hi: int) -> bool {
    ||| (hi - lo == 3 && spec_eq_ci(s[lo], 'i') && spec_eq_ci(s[lo + 1], 'n') && spec_eq_ci(
        s[lo + 2],
        'f',
    ))
    ||| (hi - lo == 8 && spec_eq_ci(s[lo], 'i') && spec_eq_ci(s[lo + 1], 'n') && spec_eq_ci(
        s[lo + 2],
        'f',
    ) && spec_eq_ci(s[lo + 3], 'i') && spec_eq_ci(s[lo + 4], 'n') && spec_eq_ci(s[lo + 5], 'i')
        && spec_eq_ci(s[lo + 6], 't') && spec_eq_ci(s[lo + 7], 'y'))
    ||| (hi - lo == 3 && spec_eq_ci(s[lo], 'n') && spec_eq_ci(s[lo + 1], 'a') && spec_eq_ci(
        s[lo + 2],
        'n',
    ))
}

/// The characters of `s` in `lo..hi` form a mantissa: digits with at most
/// one decimal point, and at least one digit.
pub open spec fn spec_mantissa_range(s: Seq<char>, lo: int, hi: int) -> bool {
    &&& forall|i: int| lo <= i < hi ==> spec_is_digit(#[trigger] s[i]) || s[i] == '.'
    &&& exists|i: int| lo <= i < hi && spec_is_digit(#[trigger] s[i])
    &&& forall|i: int, j: int|
        #![trigger s[i], s[j]]
        lo <= i < j < hi ==> !(s[i] == '.' && s[j] == '.')
}

/// The characters of `s` in `lo..hi` form an exponent count: an optional
/// sign, then at least one digit.
pub open spec fn spec_exp_range(s: Seq<char>, lo: int, hi: int) -> bool {
    let d = if lo < hi && spec_is_sign(s[lo]) {
        lo + 1
    } else {
        lo
    };
    d < hi && forall|i: int| d <= i < hi ==> spec_is_digit(#[trigger] s[i])
}

/// The characters of `s` in `lo..hi` form a decimal number: a mantissa,
/// optionally followed by an exponent marker and an exponent count.
pub open spec fn spec_decimal_range(s: Seq<char>, lo: int, hi: int) -> bool {
    ||| spec_mantissa_range(s, lo, hi)
    ||| exists|k: int|
        lo <= k < hi && spec_is_exp_marker(#[trigger] s[k]) && spec_mantissa_range(s, lo, k)
            && spec_exp_range(s, k + 1, hi)
}

/// A well-formed numeric literal: the textual shape that reading a float
/// accepts.  An optional sign, then either `inf`, `infinity` or `nan`
/// (ignoring case), or a decimal mantissa with an optional exponent part.
/// Opaque so that parsing proofs treat well-formedness as one fact; proofs
/// about the shape itself reveal it.
#[verifier::opaque]
pub open spec fn spec_is_number_text(s: Seq<char>) -> bool {
    let lo: int = if s.len() > 0 && spec_is_sign(s[0]) {
        1
    } else {
        0
    };
    spec_special_range(s, lo, s.len() as int) || spec_decimal_range(s, lo, s.len() as int)
}

/// A token a primary expression can start from.
pub open spec fn spec_primary_start(t: SpecToken) -> bool {
    match t {
        SpecToken::TRUE => true,
        SpecToken::FALSE => true,
        SpecToken::IDENTIFIER(_) => true,
        SpecToken::STRING(_) => true,
        SpecToken::NUMBER(_) => true,
        SpecToken::LPAREN => true,
        SpecToken::LCURLY => true,
        _ => false,
    }
}

/// Whether `cur` addresses a token.
pub open spec fn spec_in_range(toks: Seq<SpecToken>, cur: int) -> bool {
    0 <= cur < toks.len()
}

/// The cursor a sub-parse hands back, clamped into `cur < result <= len`.
/// Every successful sub-parse in fact advances at least one token and never
/// passes the end, so the clamp changes nothing; it only makes the
/// recursion measure of the definitions below self-evident.
pub open spec fn spec_advance(len: int, cur: int, c: int) -> int {
    if c <= cur {
        cur + 1
    } else if c > len {
        len
    } else {
        c
    }
}

/// The type annotation read at `cur`: one keyword token, mapped to its
/// constant-mutability type; any other token is rejected.
pub open spec fn spec_parse_type(toks: Seq<SpecToken>, cur: int) -> Result<
    (SpecType, int),
    ParseError,
> {
    if !spec_in_range(toks, cur) {
        Err(ParseError::OutOfBounds)
    } else {
        match toks[cur] {
            SpecToken::U32 => Ok(
                (SpecType { mutability: Mutability::CONSTANT, primative: SpecPrimative::U32 }, cur + 1),
            ),
            SpecToken::I32 => Ok(
                (SpecType { mutability: Mutability::CONSTANT, primative: SpecPrimative::I32 }, cur + 1),
            ),
            SpecToken::BOOL => Ok(
                (SpecType { mutability: Mutability::CONSTANT, primative: SpecPrimative::BOOL }, cur + 1),
            ),
            SpecToken::FN => Ok(
                (
                    SpecType {
                        mutability: Mutability::CONSTANT,
                        primative: SpecPrimative::FN(Seq::empty()),
                    },
                    cur + 1,
                ),
            ),
            SpecToken::TYPE => Ok(
                (SpecType { mutability: Mutability::CONSTANT, primative: SpecPrimative::TYPE }, cur + 1),
            ),
            _ => Err(ParseError::UnexpectedToken),
        }
    }
}

/// A primary expression at `cur`: a boolean literal (parsed as the numeric
/// texts `1.0` / `0.0`), an identifier, a string or number literal, a
/// parenthesized group, or a block.  The token after a group's inner
/// expression is consumed blindly: the grammar never checks that it is the
/// matching closer.
pub open spec fn spec_single(toks: Seq<SpecToken>, cur: int) -> Result<
    (SpecAst, int),
    ParseError,
>
    decreases toks.len() - cur, 1int,
{
    if !spec_in_range(toks, cur) {
        Err(ParseError::OutOfBounds)
    } else {
        match toks[cur] {
            SpecToken::TRUE => Ok((SpecAst::Number { text: "1.0"@ }, cur + 1)),
            SpecToken::FALSE => Ok((SpecAst::Number { text: "0.0"@ }, cur + 1)),
            SpecToken::IDENTIFIER(name) => Ok((SpecAst::Identifier { name }, cur + 1)),
            SpecToken::STRING(text) => Ok((SpecAst::StringLit { text }, cur + 1)),
            SpecToken::NUMBER(text) => if spec_is_number_text(text) {
                Ok((SpecAst::Number { text }, cur + 1))
            } else {
                Err(ParseError::InvalidNumberLiteral)
            },
            SpecToken::LPAREN => match spec_expression(toks, cur + 1) {
                Ok((inner, c)) => if spec_in_range(toks, c) {
                    Ok((SpecAst::Group { inner: Box::new(inner) }, c + 1))
                } else {
                    Err(ParseError::OutOfBounds)
                },
                Err(e) => Err(e),
            },
            SpecToken::LCURLY => spec_block(toks, cur),
            _ => Err(ParseError::UnexpectedToken),
        }
    }
}

/// The call level: a primary operand, postfixed by a single-argument
/// application when the operand's last token was an identifier, at least
/// two tokens remain, and the next is an opening parenthesis.  The closing
/// parenthesis is consumed blindly.
pub open spec fn spec_call(toks: Seq<SpecToken>, cur: int) -> Result<(SpecAst, int), ParseError>
    decreases toks.len() - cur, 2int,
{
    match spec_single(toks, cur) {
        Err(e) => Err(e),
        Ok((operand, c0)) => {
            let c = spec_advance(toks.len() as int, cur, c0);
            if c >= toks.len() {
                Ok((operand, c0))
            } else if !(toks[c - 1] matches SpecToken::IDENTIFIER(_)) {
                Ok((operand, c0))
            } else if c + 1 >= toks.len() {
                Ok((operand, c0))
            } else if !(toks[c] matches SpecToken::LPAREN) {
                Ok((operand, c0))
            } else {
                match spec_expression(toks, c + 1) {
                    Err(e) => Err(e),
                    Ok((args, c1)) => if spec_in_range(toks, c1) {
                        Ok(
                            (
                                SpecAst::Call {
                                    callee: Box::new(operand),
                                    args: Box::new(args),
                                },
                                c1 + 1,
                            ),
                        )
                    } else {
                        Err(ParseError::OutOfBounds)
                    },
                }
            }
        },
    }
}

/// The multiplicative level: a call-level operand, and after `*` or `/` a
/// right operand that re-enters the whole expression grammar.
pub open spec fn spec_mul_or_div(toks: Seq<SpecToken>, cur: int) -> Result<
    (SpecAst, int),
    ParseError,
>
    decreases toks.len() - cur, 3int,
{
    match spec_call(toks, cur) {
        Err(e) => Err(e),
        Ok((left, c0)) => {
            let c = spec_advance(toks.len() as int, cur, c0);
            if c < toks.len() && (toks[c] matches SpecToken::STAR || toks[c]
                matches SpecToken::DIV) {
                match spec_expression(toks, c + 1) {
                    Err(e) => Err(e),
                    Ok((right, c1)) => Ok(
                        (
                            SpecAst::Binary {
                                left: Box::new(left),
                                op: toks[c],
                                right: Box::new(right),
                            },
                            c1,
                        ),
                    ),
                }
            } else {
                Ok((left, c0))
            }
        },
    }
}

/// The additive level: a multiplicative operand, and after `+` or `-` a
/// right operand that re-enters the whole expression grammar.
pub open spec fn spec_plus_or_minus(toks: Seq<SpecToken>, cur: int) -> Result<
    (SpecAst, int),
    ParseError,
>
    decreases toks.len() - cur, 4int,
{
    match spec_mul_or_div(toks, cur) {
        Err(e) => Err(e),
        Ok((left, c0)) => {
            let c = spec_advance(toks.len() as int, cur, c0);
            if c < toks.len() && (toks[c] matches SpecToken::PLUS || toks[c]
                matches SpecToken::MINUS) {
                match spec_expression(toks, c + 1) {
                    Err(e) => Err(e),
                    Ok((right, c1)) => Ok(
                        (
                            SpecAst::Binary {
                                left: Box::new(left),
                                op: toks[c],
                                right: Box::new(right),
                            },
                            c1,
                        ),
                    ),
                }
            } else {
                Ok((left, c0))
            }
        },
    }
}

/// An expression at `cur`.  With at least two tokens left, an identifier
/// followed by a type keyword is a typed declaration (`=` before the
/// initializer is optional), and an identifier followed by `=` is an
/// inferred declaration; a declaration whose initializer position is the
/// end of the stream is rejected as `MissingInitializer`.  Everything else
/// falls through to the additive chain.
pub open spec fn spec_expression(toks: Seq<SpecToken>, cur: int) -> Result<
    (SpecAst, int),
    ParseError,
>
    decreases toks.len() - cur, 5int,
{
    if !spec_in_range(toks, cur) {
        Err(ParseError::OutOfBounds)
    } else if cur + 1 >= toks.len() {
        spec_plus_or_minus(toks, cur)
    } else if !(toks[cur] matches SpecToken::IDENTIFIER(_)) {
        spec_plus_or_minus(toks, cur)
    } else if is_type_keyword(toks[cur + 1]) {
        match spec_parse_type(toks, cur + 1) {
            Err(e) => Err(e),
            Ok((typ, c2)) => {
                let c3 = if spec_in_range(toks, c2) && (toks[c2] matches SpecToken::EQUAL) {
                    c2 + 1
                } else {
                    c2
                };
                if !spec_in_range(toks, c3) {
                    Err(ParseError::MissingInitializer)
                } else {
                    match spec_expression(toks, c3) {
                        Err(e) => Err(e),
                        Ok((value, c4)) => Ok(
                            (
                                SpecAst::Decl {
                                    identifier: toks[cur],
                                    typ,
                                    requires_infering: false,
                                    value: Box::new(value),
                                },
                                c4,
                            ),
                        ),
                    }
                }
            },
        }
    } else if (toks[cur + 1] matches SpecToken::EQUAL) {
        if !spec_in_range(toks, cur + 2) {
            Err(ParseError::MissingInitializer)
        } else {
            match spec_expression(toks, cur + 2) {
                Err(e) => Err(e),
                Ok((value, c3)) => Ok(
                    (
                        SpecAst::Decl {
                            identifier: toks[cur],
                            typ: spec_none_type(),
                            requires_infering: true,
                            value: Box::new(value),
                        },
                        c3,
                    ),
                ),
            }
        }
    } else {
        spec_plus_or_minus(toks, cur)
    }
}

/// A statement at `cur`: a block when an opening brace is next, otherwise
/// an expression marked as standing in statement position.
pub open spec fn spec_statement(toks: Seq<SpecToken>, cur: int) -> Result<
    (SpecAst, int),
    ParseError,
>
    decreases toks.len() - cur, 6int,
{
    if !spec_in_range(toks, cur) {
        Err(ParseError::OutOfBounds)
    } else if (toks[cur] matches SpecToken::LCURLY) {
        spec_block(toks, cur)
    } else {
        match spec_expression(toks, cur) {
            Err(e) => Err(e),
            Ok((inner, c)) => Ok((SpecAst::Stmt { inner: Box::new(inner) }, c)),
        }
    }
}

/// The statements of a block body starting at `cur`, up to and including
/// the closing brace.  Reaching the end of the stream before the closing
/// brace — also by a statement running off the end — is an unterminated
/// block.
pub open spec fn spec_block_body(toks: Seq<SpecToken>, cur: int) -> Result<
    (Seq<SpecAst>, int),
    ParseError,
>
    decreases toks.len() - cur, 7int,
{
    if !spec_in_range(toks, cur) {
        Err(ParseError::UnterminatedBlock)
    } else if (toks[cur] matches SpecToken::RCURLY) {
        Ok((Seq::empty(), cur + 1))
    } else {
        match spec_statement(toks, cur) {
            Err(ParseError::OutOfBounds) => Err(ParseError::UnterminatedBlock),
            Err(e) => Err(e),
            Ok((stmt, c0)) => {
                let c = spec_advance(toks.len() as int, cur, c0);
                match spec_block_body(toks, c) {
                    Err(e) => Err(e),
                    Ok((rest, c1)) => Ok((seq![stmt] + rest, c1)),
                }
            },
        }
    }
}

/// A block at `cur`: the opening brace, the body statements, the closing
/// brace.
pub open spec fn spec_block(toks: Seq<SpecToken>, cur: int) -> Result<(SpecAst, int), ParseError>
    decreases toks.len() - cur, 0int,
{
    if !spec_in_range(toks, cur) {
        Err(ParseError::OutOfBounds)
    } else {
        match spec_block_body(toks, cur + 1) {
            Err(e) => Err(e),
            Ok((body, c)) => Ok((SpecAst::Block { body }, c)),
        }
    }
}

/// The statements of a whole source text from `cur` to the end of the
/// stream.
pub open spec fn spec_program(toks: Seq<SpecToken>, cur: int) -> Result<
    (Seq<SpecAst>, int),
    ParseError,
>
    decreases toks.len() - cur, 8int,
{
    if !spec_in_range(toks, cur) {
        Ok((Seq::empty(), cur))
    } else {
        match spec_statement(toks, cur) {
            Err(e) => Err(e),
            Ok((stmt, c0)) => {
                let c = spec_advance(toks.len() as int, cur, c0);
                match spec_program(toks, c) {
                    Err(e) => Err(e),
                    Ok((rest, c1)) => Ok((seq![stmt] + rest, c1)),
                }
            },
        }
    }
}

/// A whole parse: the program read from the first token, wrapped in the
/// root node.  On success the cursor has reached the end of the stream.
pub open spec fn spec_parse(toks: Seq<SpecToken>) -> Result<(SpecAst, int), ParseError> {
    match spec_program(toks, 0) {
        Err(e) => Err(e),
        Ok((body, c)) => Ok((SpecAst::Program { body }, c)),
    }
}

} // verus!

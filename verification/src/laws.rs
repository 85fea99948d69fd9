//! Grammar-wide laws, each proved from the model in `grammar`.

use vstd::prelude::*;

use crate::ast::SpecAst;
use crate::error::ParseError;
use crate::grammar::{
    spec_block, spec_block_body, spec_call, spec_expression, spec_in_range, spec_is_number_text,
    spec_mul_or_div, spec_parse, spec_parse_type, spec_plus_or_minus, spec_program, spec_single,
    spec_statement,
};
use crate::parser::Parser;
use crate::token::{is_type_keyword, SpecToken};
use crate::types::spec_none_type;

verus! {

/// Parsing is deterministic: the outcome is a function of the tokens'
/// values alone, so re-parsing the same token sequence yields a
/// structurally identical tree (or the same error).  Together with
/// `Parser::parse`'s contract, which pins every run's result to
/// `spec_parse`, two runs over equal token sequences cannot differ.
pub proof fn lemma_parse_deterministic(p1: Parser, p2: Parser)
    requires
        p1.toks() == p2.toks(),
    ensures
        spec_parse(p1.toks()) == spec_parse(p2.toks()),
{
}

/// Operator precedence with the grammar's right-recursive shape: for any
/// identifiers `a`, `b`, `c`, the tokens `a + b * c` parse to
/// `a + (b * c)` — the product is grouped as the right operand of the sum.
#[verifier::rlimit(100)]
#[verifier::spinoff_prover]
pub proof fn lemma_precedence_plus_mul(
    toks: Seq<SpecToken>,
    a: Seq<char>,
    b: Seq<char>,
    c: Seq<char>,
)
    requires
        toks == seq![
            SpecToken::IDENTIFIER(a),
            SpecToken::PLUS,
            SpecToken::IDENTIFIER(b),
            SpecToken::STAR,
            SpecToken::IDENTIFIER(c),
        ],
    ensures
        spec_expression(toks, 0) == Ok::<(SpecAst, int), ParseError>(
            (
                SpecAst::Binary {
                    left: Box::new(SpecAst::Identifier { name: a }),
                    op: SpecToken::PLUS,
                    right: Box::new(
                        SpecAst::Binary {
                            left: Box::new(SpecAst::Identifier { name: b }),
                            op: SpecToken::STAR,
                            right: Box::new(SpecAst::Identifier { name: c }),
                        },
                    ),
                },
                5,
            ),
        ),
{
    let ida = SpecAst::Identifier { name: a };
    let idb = SpecAst::Identifier { name: b };
    let idc = SpecAst::Identifier { name: c };
    let prod = SpecAst::Binary {
        left: Box::new(idb),
        op: SpecToken::STAR,
        right: Box::new(idc),
    };
    assert(spec_single(toks, 4) == Ok::<(SpecAst, int), ParseError>((idc, 5)));
    assert(spec_call(toks, 4) == Ok::<(SpecAst, int), ParseError>((idc, 5)));
    assert(spec_mul_or_div(toks, 4) == Ok::<(SpecAst, int), ParseError>((idc, 5)));
    assert(spec_plus_or_minus(toks, 4) == Ok::<(SpecAst, int), ParseError>((idc, 5)));
    assert(spec_expression(toks, 4) == Ok::<(SpecAst, int), ParseError>((idc, 5)));
    assert(spec_single(toks, 2) == Ok::<(SpecAst, int), ParseError>((idb, 3)));
    assert(spec_call(toks, 2) == Ok::<(SpecAst, int), ParseError>((idb, 3)));
    assert(spec_mul_or_div(toks, 2) == Ok::<(SpecAst, int), ParseError>((prod, 5)));
    assert(spec_plus_or_minus(toks, 2) == Ok::<(SpecAst, int), ParseError>((prod, 5)));
    assert(spec_expression(toks, 2) == Ok::<(SpecAst, int), ParseError>((prod, 5)));
    assert(spec_single(toks, 0) == Ok::<(SpecAst, int), ParseError>((ida, 1)));
    assert(spec_call(toks, 0) == Ok::<(SpecAst, int), ParseError>((ida, 1)));
    assert(spec_mul_or_div(toks, 0) == Ok::<(SpecAst, int), ParseError>((ida, 1)));
    let sum = SpecAst::Binary {
        left: Box::new(ida),
        op: SpecToken::PLUS,
        right: Box::new(prod),
    };
    assert(spec_plus_or_minus(toks, 0) == Ok::<(SpecAst, int), ParseError>((sum, 5)));
    assert(spec_expression(toks, 0) == Ok::<(SpecAst, int), ParseError>((sum, 5)));
}

/// An identifier immediately followed by a type keyword opens a typed
/// declaration: whatever follows, a successful parse of the expression at
/// `cur` is a declaration carrying that identifier token, the keyword's
/// type, and no inference request — with or without an intervening `=`.
pub proof fn lemma_typed_declaration_shape(toks: Seq<SpecToken>, cur: int)
    requires
        0 <= cur,
        spec_in_range(toks, cur + 1),
        toks[cur] matches SpecToken::IDENTIFIER(_),
        is_type_keyword(toks[cur + 1]),
    ensures
        spec_expression(toks, cur) matches Ok(p) ==> p.0 matches SpecAst::Decl {
            identifier,
            typ,
            requires_infering,
            ..
        } && identifier == toks[cur] && requires_infering == false && Ok::<
            (crate::types::SpecType, int),
            ParseError,
        >((typ, cur + 2)) == spec_parse_type(toks, cur + 1),
        ({
            let c3 = if spec_in_range(toks, cur + 2) && (toks[cur + 2] matches SpecToken::EQUAL) {
                cur + 3
            } else {
                cur + 2
            };
            &&& (!spec_in_range(toks, c3) ==> spec_expression(toks, cur) == Err::<
                (SpecAst, int),
                ParseError,
            >(ParseError::MissingInitializer))
            &&& (spec_parse_type(toks, cur + 1) matches Ok(q) && spec_expression(toks, c3)
                matches Ok(v) ==> spec_expression(toks, cur) == Ok::<(SpecAst, int), ParseError>(
                (
                    SpecAst::Decl {
                        identifier: toks[cur],
                        typ: q.0,
                        requires_infering: false,
                        value: Box::new(v.0),
                    },
                    v.1,
                ),
            ))
        }),
{
}

/// An identifier immediately followed by `=` opens an inferred declaration:
/// a successful parse of the expression at `cur` is a declaration carrying
/// that identifier token, the placeholder type, and an inference request.
pub proof fn lemma_inferred_declaration_shape(toks: Seq<SpecToken>, cur: int)
    requires
        0 <= cur,
        spec_in_range(toks, cur + 1),
        toks[cur] matches SpecToken::IDENTIFIER(_),
        toks[cur + 1] matches SpecToken::EQUAL,
    ensures
        spec_expression(toks, cur) matches Ok(p) ==> p.0 matches SpecAst::Decl {
            identifier,
            typ,
            requires_infering,
            ..
        } && identifier == toks[cur] && typ == spec_none_type() && requires_infering == true,
        !spec_in_range(toks, cur + 2) ==> spec_expression(toks, cur) == Err::<
            (SpecAst, int),
            ParseError,
        >(ParseError::MissingInitializer),
        spec_in_range(toks, cur + 2) ==> (spec_expression(toks, cur + 2) matches Ok(v)
            ==> spec_expression(toks, cur) == Ok::<(SpecAst, int), ParseError>(
            (
                SpecAst::Decl {
                    identifier: toks[cur],
                    typ: spec_none_type(),
                    requires_infering: true,
                    value: Box::new(v.0),
                },
                v.1,
            ),
        )),
{
}

/// No silent truncation: a block only parses successfully by consuming a
/// closing brace as its last token.
pub proof fn lemma_block_ends_with_closing_brace(toks: Seq<SpecToken>, cur: int)
    ensures
        spec_block(toks, cur) matches Ok(p) ==> (toks[p.1 - 1] matches SpecToken::RCURLY),
{
    if spec_in_range(toks, cur) {
        lemma_block_body_ends_with_closing_brace(toks, cur + 1);
    }
}

/// The body half of `lemma_block_ends_with_closing_brace`.
pub proof fn lemma_block_body_ends_with_closing_brace(toks: Seq<SpecToken>, cur: int)
    ensures
        spec_block_body(toks, cur) matches Ok(p) ==> (toks[p.1 - 1] matches SpecToken::RCURLY),
    decreases toks.len() - cur, 9int,
{
    if spec_in_range(toks, cur) && !(toks[cur] matches SpecToken::RCURLY) {
        match spec_statement(toks, cur) {
            Ok((stmt, c0)) => {
                let c = crate::grammar::spec_advance(toks.len() as int, cur, c0);
                lemma_block_body_ends_with_closing_brace(toks, c);
            },
            Err(_) => {},
        }
    }
}

/// A block whose statements run off the end of the stream fails as an
/// unterminated block, not with a bare cursor error: for any well-formed
/// number text, the tokens `{ <number> +` are rejected as
/// `UnterminatedBlock`.
pub proof fn lemma_unterminated_block(toks: Seq<SpecToken>, n: Seq<char>)
    requires
        toks == seq![SpecToken::LCURLY, SpecToken::NUMBER(n), SpecToken::PLUS],
        spec_is_number_text(n),
    ensures
        spec_statement(toks, 0) == Err::<(SpecAst, int), ParseError>(
            ParseError::UnterminatedBlock,
        ),
{
    let num = SpecAst::Number { text: n };
    assert(spec_expression(toks, 3) == Err::<(SpecAst, int), ParseError>(
        ParseError::OutOfBounds,
    ));
    assert(spec_single(toks, 1) == Ok::<(SpecAst, int), ParseError>((num, 2)));
    assert(spec_call(toks, 1) == Ok::<(SpecAst, int), ParseError>((num, 2)));
    assert(spec_mul_or_div(toks, 1) == Ok::<(SpecAst, int), ParseError>((num, 2)));
    assert(spec_plus_or_minus(toks, 1) == Err::<(SpecAst, int), ParseError>(
        ParseError::OutOfBounds,
    ));
    assert(spec_expression(toks, 1) == Err::<(SpecAst, int), ParseError>(
        ParseError::OutOfBounds,
    ));
    assert(spec_statement(toks, 1) == Err::<(SpecAst, int), ParseError>(
        ParseError::OutOfBounds,
    ));
    assert(spec_block_body(toks, 1) == Err::<(Seq<SpecAst>, int), ParseError>(
        ParseError::UnterminatedBlock,
    ));
    assert(spec_block(toks, 0) == Err::<(SpecAst, int), ParseError>(
        ParseError::UnterminatedBlock,
    ));
}

/// The cursor invariant at the primary level: a successful parse consumes
/// at least one token and never passes the end of the stream.
pub proof fn lemma_single_advances(toks: Seq<SpecToken>, cur: int)
    ensures
        spec_single(toks, cur) matches Ok(p) ==> cur < p.1 <= toks.len(),
    decreases toks.len() - cur, 1int,
{
    if spec_in_range(toks, cur) {
        match toks[cur] {
            SpecToken::LPAREN => {
                lemma_expression_advances(toks, cur + 1);
            },
            SpecToken::LCURLY => {
                lemma_block_advances(toks, cur);
            },
            _ => {},
        }
    }
}

/// The cursor invariant at the call level.
pub proof fn lemma_call_advances(toks: Seq<SpecToken>, cur: int)
    ensures
        spec_call(toks, cur) matches Ok(p) ==> cur < p.1 <= toks.len(),
    decreases toks.len() - cur, 2int,
{
    lemma_single_advances(toks, cur);
    match spec_single(toks, cur) {
        Ok((operand, c0)) => {
            let c = crate::grammar::spec_advance(toks.len() as int, cur, c0);
            if c < toks.len() && (toks[c - 1] matches SpecToken::IDENTIFIER(_)) && c + 1
                < toks.len() && (toks[c] matches SpecToken::LPAREN) {
                lemma_expression_advances(toks, c + 1);
            }
        },
        Err(_) => {},
    }
}

/// The cursor invariant at the multiplicative level.
pub proof fn lemma_mul_or_div_advances(toks: Seq<SpecToken>, cur: int)
    ensures
        spec_mul_or_div(toks, cur) matches Ok(p) ==> cur < p.1 <= toks.len(),
    decreases toks.len() - cur, 3int,
{
    lemma_call_advances(toks, cur);
    match spec_call(toks, cur) {
        Ok((left, c0)) => {
            let c = crate::grammar::spec_advance(toks.len() as int, cur, c0);
            if c < toks.len() {
                lemma_expression_advances(toks, c + 1);
            }
        },
        Err(_) => {},
    }
}

/// The cursor invariant at the additive level.
pub proof fn lemma_plus_or_minus_advances(toks: Seq<SpecToken>, cur: int)
    ensures
        spec_plus_or_minus(toks, cur) matches Ok(p) ==> cur < p.1 <= toks.len(),
    decreases toks.len() - cur, 4int,
{
    lemma_mul_or_div_advances(toks, cur);
    match spec_mul_or_div(toks, cur) {
        Ok((left, c0)) => {
            let c = crate::grammar::spec_advance(toks.len() as int, cur, c0);
            if c < toks.len() {
                lemma_expression_advances(toks, c + 1);
            }
        },
        Err(_) => {},
    }
}

/// The cursor invariant at the expression level.
pub proof fn lemma_expression_advances(toks: Seq<SpecToken>, cur: int)
    ensures
        spec_expression(toks, cur) matches Ok(p) ==> cur < p.1 <= toks.len(),
    decreases toks.len() - cur, 5int,
{
    if spec_in_range(toks, cur) && cur + 1 < toks.len() && (toks[cur]
        matches SpecToken::IDENTIFIER(_)) && is_type_keyword(toks[cur + 1]) {
        let c3 = if spec_in_range(toks, cur + 2) && (toks[cur + 2] matches SpecToken::EQUAL) {
            cur + 3
        } else {
            cur + 2
        };
        if spec_in_range(toks, c3) {
            lemma_expression_advances(toks, c3);
        }
    } else if spec_in_range(toks, cur) && cur + 1 < toks.len() && (toks[cur]
        matches SpecToken::IDENTIFIER(_)) && (toks[cur + 1] matches SpecToken::EQUAL) {
        if spec_in_range(toks, cur + 2) {
            lemma_expression_advances(toks, cur + 2);
        }
    } else {
        lemma_plus_or_minus_advances(toks, cur);
    }
}

/// The cursor invariant at the statement level.
pub proof fn lemma_statement_advances(toks: Seq<SpecToken>, cur: int)
    ensures
        spec_statement(toks, cur) matches Ok(p) ==> cur < p.1 <= toks.len(),
    decreases toks.len() - cur, 6int,
{
    if spec_in_range(toks, cur) {
        if (toks[cur] matches SpecToken::LCURLY) {
            lemma_block_advances(toks, cur);
        } else {
            lemma_expression_advances(toks, cur);
        }
    }
}

/// The cursor invariant for a block's body.
pub proof fn lemma_block_body_advances(toks: Seq<SpecToken>, cur: int)
    ensures
        spec_block_body(toks, cur) matches Ok(p) ==> cur < p.1 <= toks.len(),
    decreases toks.len() - cur, 7int,
{
    if spec_in_range(toks, cur) && !(toks[cur] matches SpecToken::RCURLY) {
        lemma_statement_advances(toks, cur);
        match spec_statement(toks, cur) {
            Ok((stmt, c0)) => {
                let c = crate::grammar::spec_advance(toks.len() as int, cur, c0);
                lemma_block_body_advances(toks, c);
            },
            Err(_) => {},
        }
    }
}

/// The cursor invariant for a whole block.
pub proof fn lemma_block_advances(toks: Seq<SpecToken>, cur: int)
    ensures
        spec_block(toks, cur) matches Ok(p) ==> cur < p.1 <= toks.len(),
    decreases toks.len() - cur, 0int,
{
    if spec_in_range(toks, cur) {
        lemma_block_body_advances(toks, cur + 1);
    }
}

/// A program is parsed to the end of the stream: a successful whole parse
/// leaves no token unread.
pub proof fn lemma_parse_reads_everything(toks: Seq<SpecToken>)
    ensures
        spec_parse(toks) matches Ok(p) ==> p.1 == toks.len(),
{
    lemma_program_reads_everything(toks, 0);
}

/// The program half of `lemma_parse_reads_everything`: from any starting
/// cursor not past the end, a successful program parse ends exactly at the
/// end of the stream.
pub proof fn lemma_program_reads_everything(toks: Seq<SpecToken>, cur: int)
    requires
        0 <= cur <= toks.len(),
    ensures
        spec_program(toks, cur) matches Ok(p) ==> p.1 == toks.len(),
    decreases toks.len() - cur,
{
    if spec_in_range(toks, cur) {
        match spec_statement(toks, cur) {
            Ok((stmt, c0)) => {
                let c = crate::grammar::spec_advance(toks.len() as int, cur, c0);
                lemma_program_reads_everything(toks, c);
            },
            Err(_) => {},
        }
    }
}

} // verus!


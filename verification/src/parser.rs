//! The executable recursive-descent parser, specified against `grammar`.
//!
//! Every parsing routine takes the cursor as an explicit `&mut usize` and
//! returns either a tree and an advanced cursor, or the error the parse
//! stops with.  Each routine's contract says that its outcome is exactly
//! the one the corresponding `grammar` function gives for its tokens and
//! starting cursor, so a whole parse is pinned down by `grammar::spec_parse`.

use vstd::prelude::*;

use crate::ast::{
    lemma_spec_body_of_push, spec_body_of, Binary, Block, Call, Decl, Group, ParsedAST, Program,
    SpecAst,
};
use crate::error::ParseError;
use crate::grammar::{
    spec_block, spec_block_body, spec_call, spec_decimal_range, spec_eq_ci, spec_exp_range,
    spec_expression, spec_in_range, spec_is_digit, spec_is_exp_marker, spec_is_number_text,
    spec_is_sign, spec_mantissa_range, spec_mul_or_div, spec_parse, spec_parse_type,
    spec_plus_or_minus, spec_primary_start, spec_program, spec_single, spec_special_range,
    spec_statement,
};
use crate::token::{SpecToken, Token};
use crate::types::{FnType, Mutability, Primative, SpecType, Type};

verus! {

/// The outcome of an executable parsing step equals a model outcome: same
/// error, or same tree value and same cursor.
pub open spec fn step_agrees(
    r: Result<ParsedAST, ParseError>,
    cur: int,
    s: Result<(SpecAst, int), ParseError>,
) -> bool {
    match (r, s) {
        (Ok(ast), Ok(p)) => p.0 == ast@ && p.1 == cur,
        (Err(e1), Err(e2)) => e1 == e2,
        _ => false,
    }
}

/// The outcome of reading a type annotation equals the model outcome.
pub open spec fn type_step_agrees(
    r: Result<Type, ParseError>,
    cur: int,
    s: Result<(SpecType, int), ParseError>,
) -> bool {
    match (r, s) {
        (Ok(t), Ok(p)) => p.0 == t@ && p.1 == cur,
        (Err(e1), Err(e2)) => e1 == e2,
        _ => false,
    }
}

/// Prepending nothing leaves a sequence unchanged.
proof fn lemma_seq_empty_prepend<A>(s: Seq<A>)
    ensures
        Seq::<A>::empty() + s == s,
{
    assert(Seq::<A>::empty() + s =~= s);
}

/// Prepending a sequence to a singleton-plus-rest is the same as pushing the
/// singleton first.
proof fn lemma_seq_push_prepend<A>(done: Seq<A>, a: A, rest: Seq<A>)
    ensures
        done + (seq![a] + rest) == done.push(a) + rest,
{
    assert(done + (seq![a] + rest) =~= done.push(a) + rest);
}

/// The loop invariant of block parsing: the statements read so far, together
/// with whatever the model answers for the remaining body, give the model's
/// answer for the whole body that started at `c1`.
pub open spec fn block_rest_agrees(
    toks: Seq<SpecToken>,
    c1: int,
    done: Seq<SpecAst>,
    cur: int,
) -> bool {
    match spec_block_body(toks, cur) {
        Ok(p) => spec_block_body(toks, c1) == Ok::<(Seq<SpecAst>, int), ParseError>(
            (done + p.0, p.1),
        ),
        Err(e) => spec_block_body(toks, c1) == Err::<(Seq<SpecAst>, int), ParseError>(e),
    }
}

/// The loop invariant of program parsing: the statements read so far,
/// together with whatever the model answers for the rest of the stream, give
/// the model's answer for the whole program.
pub open spec fn program_rest_agrees(toks: Seq<SpecToken>, done: Seq<SpecAst>, cur: int) -> bool {
    match spec_program(toks, cur) {
        Ok(p) => spec_program(toks, 0) == Ok::<(Seq<SpecAst>, int), ParseError>((done + p.0, p.1)),
        Err(e) => spec_program(toks, 0) == Err::<(Seq<SpecAst>, int), ParseError>(e),
    }
}

/// The characters of a string, in order.
#[verifier::loop_isolation(false)]
fn chars_of(s: &str) -> (cs: Vec<char>)
    ensures
        cs@ == s@,
{
    let n = s.unicode_len();
    let mut cs: Vec<char> = Vec::new();
    let mut i: usize = 0;
    while i < n
        invariant
            i <= n,
            cs@ == s@.subrange(0, i as int),
        decreases n - i,
    {
        let c = s.get_char(i);
        cs.push(c);
        proof {
            assert(cs@ =~= s@.subrange(0, i + 1));
        }
        i = i + 1;
    }
    proof {
        assert(s@.subrange(0, n as int) =~= s@);
    }
    cs
}

fn char_is_digit(c: char) -> (b: bool)
    ensures
        b == spec_is_digit(c),
{
    let u: u32 = c as u32;
    48 <= u && u <= 57
}

fn char_is_sign(c: char) -> (b: bool)
    ensures
        b == spec_is_sign(c),
{
    c == '+' || c == '-'
}

fn char_is_exp_marker(c: char) -> (b: bool)
    ensures
        b == spec_is_exp_marker(c),
{
    c == 'e' || c == 'E'
}

fn char_eq_ci(a: char, l: char) -> (b: bool)
    ensures
        b == spec_eq_ci(a, l),
{
    a == l || (a as u32) + 32 == (l as u32)
}

/// Whether the characters from `lo` to the end spell `inf`, `infinity` or
/// `nan`, ignoring case.
fn special_range(cs: &Vec<char>, lo: usize) -> (b: bool)
    requires
        lo <= cs@.len(),
    ensures
        b == spec_special_range(cs@, lo as int, cs@.len() as int),
{
    let len = cs.len();
    let rem = len - lo;
    if rem == 3 {
        (char_eq_ci(cs[lo], 'i') && char_eq_ci(cs[lo + 1], 'n') && char_eq_ci(cs[lo + 2], 'f'))
            || (char_eq_ci(cs[lo], 'n') && char_eq_ci(cs[lo + 1], 'a') && char_eq_ci(
            cs[lo + 2],
            'n',
        ))
    } else if rem == 8 {
        char_eq_ci(cs[lo], 'i') && char_eq_ci(cs[lo + 1], 'n') && char_eq_ci(cs[lo + 2], 'f')
            && char_eq_ci(cs[lo + 3], 'i') && char_eq_ci(cs[lo + 4], 'n') && char_eq_ci(
            cs[lo + 5],
            'i',
        ) && char_eq_ci(cs[lo + 6], 't') && char_eq_ci(cs[lo + 7], 'y')
    } else {
        false
    }
}

/// Whether the characters in `lo..hi` form a mantissa.
#[verifier::loop_isolation(false)]
fn mantissa_range(cs: &Vec<char>, lo: usize, hi: usize) -> (b: bool)
    requires
        lo <= hi <= cs@.len(),
    ensures
        b == spec_mantissa_range(cs@, lo as int, hi as int),
{
    let mut i: usize = lo;
    let mut seen_digit = false;
    let mut seen_dot = false;
    while i < hi
        invariant
            lo <= i <= hi,
            forall|k: int| lo <= k < i ==> spec_is_digit(#[trigger] cs@[k]) || cs@[k] == '.',
            seen_digit == exists|k: int| lo <= k < i && spec_is_digit(#[trigger] cs@[k]),
            seen_dot == exists|k: int| lo <= k < i && #[trigger] cs@[k] == '.',
            forall|k1: int, k2: int|
                #![trigger cs@[k1], cs@[k2]]
                lo <= k1 < k2 < i ==> !(cs@[k1] == '.' && cs@[k2] == '.'),
        decreases hi - i,
    {
        let c = cs[i];
        if char_is_digit(c) {
            seen_digit = true;
        } else if c == '.' {
            if seen_dot {
                return false;
            }
            seen_dot = true;
        } else {
            return false;
        }
        i = i + 1;
    }
    seen_digit
}

/// Whether the characters in `lo..hi` form an exponent count.
#[verifier::loop_isolation(false)]
fn exp_range(cs: &Vec<char>, lo: usize, hi: usize) -> (b: bool)
    requires
        lo <= hi <= cs@.len(),
    ensures
        b == spec_exp_range(cs@, lo as int, hi as int),
{
    let d: usize = if lo < hi && char_is_sign(cs[lo]) {
        lo + 1
    } else {
        lo
    };
    if d >= hi {
        return false;
    }
    let mut i: usize = d;
    while i < hi
        invariant
            d <= i <= hi,
            forall|k: int| d <= k < i ==> spec_is_digit(#[trigger] cs@[k]),
        decreases hi - i,
    {
        if !char_is_digit(cs[i]) {
            return false;
        }
        i = i + 1;
    }
    true
}

/// A well-formed numeric literal, decided exactly as
/// `grammar::spec_is_number_text` states it.
#[verifier::loop_isolation(false)]
#[verifier::rlimit(100)]
pub fn is_number_text(s: &String) -> (b: bool)
    ensures
        b == spec_is_number_text(s@),
{
    proof {
        reveal(spec_is_number_text);
    }
    let cs = chars_of(s.as_str());
    let len = cs.len();
    let lo: usize = if len > 0 && char_is_sign(cs[0]) {
        1
    } else {
        0
    };
    if special_range(&cs, lo) {
        return true;
    }
    // scan for the first exponent marker
    let mut k: usize = lo;
    loop
        invariant
            lo <= k <= len,
            forall|j: int| lo <= j < k ==> !spec_is_exp_marker(#[trigger] cs@[j]),
        decreases len - k,
    {
        if k >= len {
            // no exponent part: the whole tail must be a mantissa
            let m = mantissa_range(&cs, lo, len);
            proof {
                lemma_no_marker_decimal(cs@, lo as int, len as int);
            }
            return m;
        }
        if char_is_exp_marker(cs[k]) {
            let m = mantissa_range(&cs, lo, k);
            let e = if m {
                exp_range(&cs, k + 1, len)
            } else {
                false
            };
            proof {
                lemma_marker_decimal(cs@, lo as int, k as int, len as int);
            }
            return m && e;
        }
        k = k + 1;
    }
}

/// With no exponent marker in `lo..hi`, a decimal in `lo..hi` is exactly a
/// mantissa there.
proof fn lemma_no_marker_decimal(s: Seq<char>, lo: int, hi: int)
    requires
        forall|j: int| lo <= j < hi ==> !spec_is_exp_marker(#[trigger] s[j]),
    ensures
        spec_decimal_range(s, lo, hi) == spec_mantissa_range(s, lo, hi),
{
}

/// With the first exponent marker of `lo..hi` standing at `k`, a decimal in
/// `lo..hi` is exactly a mantissa before `k` and an exponent count after.
proof fn lemma_marker_decimal(s: Seq<char>, lo: int, k: int, hi: int)
    requires
        lo <= k < hi,
        spec_is_exp_marker(s[k]),
        forall|j: int| lo <= j < k ==> !spec_is_exp_marker(#[trigger] s[j]),
    ensures
        spec_decimal_range(s, lo, hi) == (spec_mantissa_range(s, lo, k) && spec_exp_range(
            s,
            k + 1,
            hi,
        )),
{
    assert(!spec_is_digit(s[k]) && s[k] != '.');
    assert(!spec_mantissa_range(s, lo, hi));
    if spec_mantissa_range(s, lo, k) && spec_exp_range(s, k + 1, hi) {
        assert(spec_decimal_range(s, lo, hi));
    }
    if spec_decimal_range(s, lo, hi) {
        let k2 = choose|k2: int|
            lo <= k2 < hi && spec_is_exp_marker(#[trigger] s[k2]) && spec_mantissa_range(s, lo, k2)
                && spec_exp_range(s, k2 + 1, hi);
        if k2 < k {
            assert(false);
        } else if k2 > k {
            assert(!(spec_is_digit(s[k]) || s[k] == '.'));
            assert(!spec_mantissa_range(s, lo, k2));
            assert(false);
        }
    }
}

/// The parser: an owned token sequence and nothing else.  The cursor is an
/// explicit `usize` threaded through every parsing routine; it only ever
/// grows, one token per `consume`.
pub struct Parser {
    pub tokens: Vec<Token>,
}

impl Parser {
    /// The mathematical value of the token sequence.
    pub open spec fn toks(&self) -> Seq<SpecToken> {
        Seq::new(self.tokens@.len(), |i: int| self.tokens@[i]@)
    }

    pub fn new(tokens: Vec<Token>) -> (p: Parser)
        ensures
            p.tokens == tokens,
    {
        Parser { tokens }
    }

    /// The token under the cursor, without advancing.
    pub fn peek<'a>(&'a self, current: &usize) -> (r: Result<&'a Token, ParseError>)
        ensures
            match r {
                Ok(t) => *current < self.tokens@.len() && *t == self.tokens@[*current as int],
                Err(e) => *current >= self.tokens@.len() && e == ParseError::OutOfBounds,
            },
    {
        if *current < self.tokens.len() {
            Ok(&self.tokens[*current])
        } else {
            Err(ParseError::OutOfBounds)
        }
    }

    /// The token `offset` positions past the cursor, without advancing.
    pub fn peek_ahead<'a>(&'a self, current: &usize, offset: usize) -> (r: Result<
        &'a Token,
        ParseError,
    >)
        ensures
            match r {
                Ok(t) => *current + offset < self.tokens@.len() && *t == self.tokens@[*current
                    + offset],
                Err(e) => *current + offset >= self.tokens@.len() && e == ParseError::OutOfBounds,
            },
    {
        let len = self.tokens.len();
        if *current < len && offset < len - *current {
            Ok(&self.tokens[*current + offset])
        } else {
            Err(ParseError::OutOfBounds)
        }
    }

    /// Whether the cursor has reached the end of the token sequence.
    pub fn end(&self, current: &usize) -> (b: bool)
        ensures
            b == (*current >= self.tokens@.len()),
    {
        *current >= self.tokens.len()
    }

    /// Whether the position `offset` past the cursor is at or beyond the end.
    pub fn end_ahead(&self, current: &usize, offset: usize) -> (b: bool)
        ensures
            b == (*current + offset >= self.tokens@.len()),
    {
        let len = self.tokens.len();
        if *current >= len {
            true
        } else {
            offset >= len - *current
        }
    }

    /// A non-consuming check that the token under the cursor has the given
    /// token's kind and payload.
    pub fn expecting(&self, token: Token, current: &usize) -> (r: Result<bool, ParseError>)
        ensures
            match r {
                Ok(b) => *current < self.tokens@.len() && b == (token@ == self.toks()[*current
                    as int]),
                Err(e) => *current >= self.tokens@.len() && e == ParseError::OutOfBounds,
            },
    {
        match self.peek(current) {
            Ok(t) => Ok(token.same(t)),
            Err(e) => Err(e),
        }
    }

    /// The token under the cursor, advancing the cursor past it.
    pub fn consume<'a>(&'a self, current: &mut usize) -> (r: Result<&'a Token, ParseError>)
        ensures
            match r {
                Ok(t) => *old(current) < self.tokens@.len() && *t == self.tokens@[*old(current)
                    as int] && *final(current) == *old(current) + 1,
                Err(e) => *old(current) >= self.tokens@.len() && e == ParseError::OutOfBounds
                    && *final(current) == *old(current),
            },
    {
        if *current < self.tokens.len() {
            let t = &self.tokens[*current];
            *current = *current + 1;
            Ok(t)
        } else {
            Err(ParseError::OutOfBounds)
        }
    }

    /// One type annotation: the keyword token under the cursor, consumed and
    /// mapped to its type.
    #[verifier::rlimit(50)]
    pub fn parse_type(&self, current: &mut usize) -> (r: Result<Type, ParseError>)
        requires
            *old(current) <= self.tokens@.len(),
        ensures
            *old(current) <= *final(current) <= self.tokens@.len(),
            type_step_agrees(
                r,
                *final(current) as int,
                spec_parse_type(self.toks(), *old(current) as int),
            ),
    {
        let start: usize = *current;
        if start >= self.tokens.len() {
            return Err(ParseError::OutOfBounds);
        }
        let t = match &self.tokens[start] {
            Token::U32 => Type { mutability: Mutability::CONSTANT, primative: Primative::U32 },
            Token::I32 => Type { mutability: Mutability::CONSTANT, primative: Primative::I32 },
            Token::BOOL => Type { mutability: Mutability::CONSTANT, primative: Primative::BOOL },
            Token::FN => Type {
                mutability: Mutability::CONSTANT,
                primative: Primative::FN(FnType { args: Vec::new() }),
            },
            Token::TYPE => Type { mutability: Mutability::CONSTANT, primative: Primative::TYPE },
            _ => {
                return Err(ParseError::UnexpectedToken);
            },
        };
        *current = start + 1;
        Ok(t)
    }

    /// One whole parse: the program read from the first token, boxed.  On
    /// success the model's answer for the token sequence is exactly the
    /// returned tree, with the cursor run to the end of the stream.
    pub fn parse(&mut self) -> (r: Result<Box<ParsedAST>, ParseError>)
        ensures
            *final(self) == *old(self),
            match r {
                Ok(ast) => spec_parse(old(self).toks()) == Ok::<(SpecAst, int), ParseError>(
                    ((*ast)@, old(self).tokens@.len() as int),
                ),
                Err(e) => spec_parse(old(self).toks()) == Err::<(SpecAst, int), ParseError>(e),
            },
    {
        match self.parse_program() {
            Ok(ast) => Ok(Box::new(ast)),
            Err(e) => Err(e),
        }
    }

    /// Statements are read until the cursor reaches the end of the stream;
    /// the first failure aborts the parse.
    #[verifier::loop_isolation(false)]
    pub fn parse_program(&self) -> (r: Result<ParsedAST, ParseError>)
        ensures
            match r {
                Ok(ast) => spec_parse(self.toks()) == Ok::<(SpecAst, int), ParseError>(
                    (ast@, self.tokens@.len() as int),
                ),
                Err(e) => spec_parse(self.toks()) == Err::<(SpecAst, int), ParseError>(e),
            },
    {
        let len = self.tokens.len();
        let mut current: usize = 0;
        let mut body: Vec<ParsedAST> = Vec::new();
        proof {
            match spec_program(self.toks(), 0) {
                Ok(p) => lemma_seq_empty_prepend::<SpecAst>(p.0),
                Err(_) => (),
            }
        }
        loop
            invariant
                current <= len,
                len == self.tokens@.len(),
                program_rest_agrees(self.toks(), spec_body_of(body@), current as int),
            decreases len - current,
        {
            if current >= len {
                return Ok(ParsedAST::PROGRAM(Program { body }));
            }
            match self.statement(&mut current) {
                Ok(stmt) => {
                    proof {
                        lemma_spec_body_of_push(body@, stmt);
                        match spec_program(self.toks(), current as int) {
                            Ok(p) => lemma_seq_push_prepend(spec_body_of(body@), stmt@, p.0),
                            Err(_) => (),
                        }
                    }
                    body.push(stmt);
                },
                Err(e) => {
                    return Err(e);
                },
            }
        }
    }

    /// A statement: a block when an opening brace is next, otherwise an
    /// expression marked as standing in statement position.
    #[verifier::rlimit(50)]
    pub fn statement(&self, current: &mut usize) -> (r: Result<ParsedAST, ParseError>)
        requires
            *old(current) <= self.tokens@.len(),
        ensures
            *old(current) <= *final(current) <= self.tokens@.len(),
            (r matches Ok(_)) ==> *old(current) < *final(current),
            step_agrees(
                r,
                *final(current) as int,
                spec_statement(self.toks(), *old(current) as int),
            ),
        decreases self.tokens@.len() - *current, 11int,
    {
        let start: usize = *current;
        if start >= self.tokens.len() {
            return Err(ParseError::OutOfBounds);
        }
        let opens_block = match &self.tokens[start] {
            Token::LCURLY => true,
            _ => false,
        };
        if opens_block {
            self.block(current)
        } else {
            match self.expression(current) {
                Ok(inner) => Ok(ParsedAST::STMT(Box::new(inner))),
                Err(e) => Err(e),
            }
        }
    }

    /// An expression; the entry point of the precedence chain.
    #[verifier::rlimit(50)]
    pub fn expression(&self, current: &mut usize) -> (r: Result<ParsedAST, ParseError>)
        requires
            *old(current) <= self.tokens@.len(),
        ensures
            *old(current) <= *final(current) <= self.tokens@.len(),
            (r matches Ok(_)) ==> *old(current) < *final(current),
            step_agrees(
                r,
                *final(current) as int,
                spec_expression(self.toks(), *old(current) as int),
            ),
        decreases self.tokens@.len() - *current, 10int,
    {
        if self.end(current) {
            return Err(ParseError::OutOfBounds);
        }
        self.comparison(current)
    }

    /// The comparison level.  No comparison operators exist in the grammar
    /// today, so this level passes straight down the chain.
    #[verifier::rlimit(50)]
    pub fn comparison(&self, current: &mut usize) -> (r: Result<ParsedAST, ParseError>)
        requires
            *old(current) <= self.tokens@.len(),
        ensures
            *old(current) <= *final(current) <= self.tokens@.len(),
            (r matches Ok(_)) ==> *old(current) < *final(current),
            step_agrees(
                r,
                *final(current) as int,
                spec_expression(self.toks(), *old(current) as int),
            ),
        decreases self.tokens@.len() - *current, 9int,
    {
        self.decl_or_assign(current)
    }

    /// The declaration/assignment disambiguator.  With at least two tokens
    /// left, an identifier followed by a type keyword is a typed
    /// declaration and an identifier followed by `=` is an inferred
    /// declaration; everything else falls through to the additive chain.
    #[verifier::rlimit(50)]
    pub fn decl_or_assign(&self, current: &mut usize) -> (r: Result<ParsedAST, ParseError>)
        requires
            *old(current) <= self.tokens@.len(),
        ensures
            *old(current) <= *final(current) <= self.tokens@.len(),
            (r matches Ok(_)) ==> *old(current) < *final(current),
            step_agrees(
                r,
                *final(current) as int,
                spec_expression(self.toks(), *old(current) as int),
            ),
        decreases self.tokens@.len() - *current, 8int,
    {
        let start: usize = *current;
        let len = self.tokens.len();
        if start >= len {
            return Err(ParseError::OutOfBounds);
        }
        if start + 1 >= len {
            return self.assign(current);
        }
        match (&self.tokens[start], &self.tokens[start + 1]) {
            (Token::IDENTIFIER(name), second) => {
                let second_is_type = match second {
                    Token::U32 | Token::I32 | Token::BOOL | Token::TYPE | Token::FN => true,
                    _ => false,
                };
                let second_is_equal = match second {
                    Token::EQUAL => true,
                    _ => false,
                };
                if second_is_type {
                    let identifier = Token::IDENTIFIER(name.clone());
                    *current = start + 1;
                    let typ = match self.parse_type(current) {
                        Ok(t) => t,
                        Err(e) => return Err(e),
                    };
                    // the `=` before the initializer is optional
                    if *current < len {
                        let eq_next = match &self.tokens[*current] {
                            Token::EQUAL => true,
                            _ => false,
                        };
                        if eq_next {
                            *current = *current + 1;
                        }
                    }
                    if *current >= len {
                        return Err(ParseError::MissingInitializer);
                    }
                    let value = match self.expression(current) {
                        Ok(v) => v,
                        Err(e) => return Err(e),
                    };
                    Ok(
                        ParsedAST::DECL(
                            Decl { identifier, typ, requires_infering: false, value: Box::new(value) },
                        ),
                    )
                } else if second_is_equal {
                    let identifier = Token::IDENTIFIER(name.clone());
                    *current = start + 2;
                    if *current >= len {
                        return Err(ParseError::MissingInitializer);
                    }
                    let value = match self.expression(current) {
                        Ok(v) => v,
                        Err(e) => return Err(e),
                    };
                    Ok(
                        ParsedAST::DECL(
                            Decl {
                                identifier,
                                typ: Type {
                                    mutability: Mutability::CONSTANT,
                                    primative: Primative::NONE,
                                },
                                requires_infering: true,
                                value: Box::new(value),
                            },
                        ),
                    )
                } else {
                    self.assign(current)
                }
            },
            _ => self.assign(current),
        }
    }

    /// The assignment level.  No assignment-statement node exists in the
    /// grammar today, so this level passes straight down the chain.
    #[verifier::rlimit(50)]
    pub fn assign(&self, current: &mut usize) -> (r: Result<ParsedAST, ParseError>)
        requires
            *old(current) <= self.tokens@.len(),
        ensures
            *old(current) <= *final(current) <= self.tokens@.len(),
            (r matches Ok(_)) ==> *old(current) < *final(current),
            step_agrees(
                r,
                *final(current) as int,
                spec_plus_or_minus(self.toks(), *old(current) as int),
            ),
        decreases self.tokens@.len() - *current, 7int,
    {
        self.plus_or_minus(current)
    }

    /// The additive level: after `+` or `-` the right operand re-enters the
    /// whole expression grammar, so additive chains group to the right.
    #[verifier::rlimit(50)]
    pub fn plus_or_minus(&self, current: &mut usize) -> (r: Result<ParsedAST, ParseError>)
        requires
            *old(current) <= self.tokens@.len(),
        ensures
            *old(current) <= *final(current) <= self.tokens@.len(),
            (r matches Ok(_)) ==> *old(current) < *final(current),
            step_agrees(
                r,
                *final(current) as int,
                spec_plus_or_minus(self.toks(), *old(current) as int),
            ),
        decreases self.tokens@.len() - *current, 6int,
    {
        let len = self.tokens.len();
        let left = match self.mul_or_div(current) {
            Ok(v) => v,
            Err(e) => return Err(e),
        };
        if *current >= len {
            return Ok(left);
        }
        let op = match &self.tokens[*current] {
            Token::PLUS => Token::PLUS,
            Token::MINUS => Token::MINUS,
            _ => {
                return Ok(left);
            },
        };
        *current = *current + 1;
        let right = match self.expression(current) {
            Ok(v) => v,
            Err(e) => return Err(e),
        };
        Ok(ParsedAST::BINARY(Binary { left: Box::new(left), op, right: Box::new(right) }))
    }

    /// The multiplicative level: after `*` or `/` the right operand
    /// re-enters the whole expression grammar.
    #[verifier::rlimit(50)]
    pub fn mul_or_div(&self, current: &mut usize) -> (r: Result<ParsedAST, ParseError>)
        requires
            *old(current) <= self.tokens@.len(),
        ensures
            *old(current) <= *final(current) <= self.tokens@.len(),
            (r matches Ok(_)) ==> *old(current) < *final(current),
            step_agrees(
                r,
                *final(current) as int,
                spec_mul_or_div(self.toks(), *old(current) as int),
            ),
        decreases self.tokens@.len() - *current, 5int,
    {
        let len = self.tokens.len();
        let left = match self.unary(current) {
            Ok(v) => v,
            Err(e) => return Err(e),
        };
        if *current >= len {
            return Ok(left);
        }
        let op = match &self.tokens[*current] {
            Token::STAR => Token::STAR,
            Token::DIV => Token::DIV,
            _ => {
                return Ok(left);
            },
        };
        *current = *current + 1;
        let right = match self.expression(current) {
            Ok(v) => v,
            Err(e) => return Err(e),
        };
        Ok(ParsedAST::BINARY(Binary { left: Box::new(left), op, right: Box::new(right) }))
    }

    /// The unary level.  No unary operators exist in the grammar today, so
    /// this level passes straight down to call parsing.
    #[verifier::rlimit(50)]
    pub fn unary(&self, current: &mut usize) -> (r: Result<ParsedAST, ParseError>)
        requires
            *old(current) <= self.tokens@.len(),
        ensures
            *old(current) <= *final(current) <= self.tokens@.len(),
            (r matches Ok(_)) ==> *old(current) < *final(current),
            step_agrees(r, *final(current) as int, spec_call(self.toks(), *old(current) as int)),
        decreases self.tokens@.len() - *current, 4int,
    {
        self.call(current)
    }

    /// The call level: a primary operand, postfixed by a single-argument
    /// application when the operand's last token was an identifier, at
    /// least two tokens remain, and the next is an opening parenthesis.
    /// The closing parenthesis is consumed blindly, as the grammar demands.
    #[verifier::rlimit(100)]
    #[verifier::spinoff_prover]
    pub fn call(&self, current: &mut usize) -> (r: Result<ParsedAST, ParseError>)
        requires
            *old(current) <= self.tokens@.len(),
        ensures
            *old(current) <= *final(current) <= self.tokens@.len(),
            (r matches Ok(_)) ==> *old(current) < *final(current),
            step_agrees(r, *final(current) as int, spec_call(self.toks(), *old(current) as int)),
        decreases self.tokens@.len() - *current, 3int,
    {
        let len = self.tokens.len();
        let operand = match self.struct_access(current) {
            Ok(v) => v,
            Err(e) => return Err(e),
        };
        if *current >= len {
            return Ok(operand);
        }
        let prev_is_identifier = match &self.tokens[*current - 1] {
            Token::IDENTIFIER(_) => true,
            _ => false,
        };
        if !prev_is_identifier {
            return Ok(operand);
        }
        if *current + 1 >= len {
            return Ok(operand);
        }
        let opens = match &self.tokens[*current] {
            Token::LPAREN => true,
            _ => false,
        };
        if !opens {
            return Ok(operand);
        }
        *current = *current + 1;
        let args = match self.expression(current) {
            Ok(v) => v,
            Err(e) => return Err(e),
        };
        if *current >= len {
            return Err(ParseError::OutOfBounds);
        }
        *current = *current + 1;
        Ok(ParsedAST::CALL(Call { callee: Box::new(operand), args: Box::new(args) }))
    }

    /// The struct-access level.  No member access exists in the grammar
    /// today, so this level passes straight down to primary parsing.
    #[verifier::rlimit(50)]
    pub fn struct_access(&self, current: &mut usize) -> (r: Result<ParsedAST, ParseError>)
        requires
            *old(current) <= self.tokens@.len(),
        ensures
            *old(current) <= *final(current) <= self.tokens@.len(),
            (r matches Ok(_)) ==> *old(current) < *final(current),
            step_agrees(r, *final(current) as int, spec_single(self.toks(), *old(current) as int)),
        decreases self.tokens@.len() - *current, 2int,
    {
        self.single(current)
    }

    /// A primary expression: a boolean literal (parsed as the numeric texts
    /// `1.0` / `0.0`), an identifier, a string or number literal, a
    /// parenthesized group, or a block.
    #[verifier::rlimit(100)]
    #[verifier::spinoff_prover]
    pub fn single(&self, current: &mut usize) -> (r: Result<ParsedAST, ParseError>)
        requires
            *old(current) <= self.tokens@.len(),
        ensures
            *old(current) <= *final(current) <= self.tokens@.len(),
            (r matches Ok(_)) ==> *old(current) < *final(current),
            step_agrees(r, *final(current) as int, spec_single(self.toks(), *old(current) as int)),
            *old(current) >= self.tokens@.len() ==> *final(current) == *old(current),
            spec_in_range(self.toks(), *old(current) as int) && !spec_primary_start(
                self.toks()[*old(current) as int],
            ) ==> *final(current) == *old(current),
        decreases self.tokens@.len() - *current, 1int,
    {
        let start: usize = *current;
        let len = self.tokens.len();
        if start >= len {
            return Err(ParseError::OutOfBounds);
        }
        match &self.tokens[start] {
            Token::TRUE => {
                *current = start + 1;
                Ok(ParsedAST::NUMBER("1.0".to_owned()))
            },
            Token::FALSE => {
                *current = start + 1;
                Ok(ParsedAST::NUMBER("0.0".to_owned()))
            },
            Token::IDENTIFIER(s) => {
                let text = s.clone();
                *current = start + 1;
                Ok(ParsedAST::IDENTIFIER(text))
            },
            Token::STRING(s) => {
                let text = s.clone();
                *current = start + 1;
                Ok(ParsedAST::STRING(text))
            },
            Token::NUMBER(s) => self.number_leaf(s, current),
            Token::LPAREN => self.group(current),
            Token::LCURLY => self.block(current),
            _ => Err(ParseError::UnexpectedToken),
        }
    }

    /// A number literal leaf: the token's text is retained after being
    /// checked for well-formedness.
    #[verifier::rlimit(100)]
    #[verifier::spinoff_prover]
    fn number_leaf(&self, text: &String, current: &mut usize) -> (r: Result<ParsedAST, ParseError>)
        requires
            *old(current) < self.tokens@.len(),
            self.toks()[*old(current) as int] == SpecToken::NUMBER(text@),
        ensures
            *old(current) <= *final(current) <= self.tokens@.len(),
            (r matches Ok(_)) ==> *old(current) < *final(current),
            step_agrees(r, *final(current) as int, spec_single(self.toks(), *old(current) as int)),
    {
        let n = self.tokens.len();
        let retained = text.clone();
        *current = *current + 1;
        if is_number_text(&retained) {
            Ok(ParsedAST::NUMBER(retained))
        } else {
            Err(ParseError::InvalidNumberLiteral)
        }
    }

    /// A parenthesized group: the opening parenthesis, an inner expression,
    /// and one more token — consumed blindly — standing for the closer.
    #[verifier::rlimit(100)]
    #[verifier::spinoff_prover]
    fn group(&self, current: &mut usize) -> (r: Result<ParsedAST, ParseError>)
        requires
            *old(current) < self.tokens@.len(),
            self.toks()[*old(current) as int] matches SpecToken::LPAREN,
        ensures
            *old(current) <= *final(current) <= self.tokens@.len(),
            (r matches Ok(_)) ==> *old(current) < *final(current),
            step_agrees(r, *final(current) as int, spec_single(self.toks(), *old(current) as int)),
        decreases self.tokens@.len() - *current, 0int,
    {
        let start: usize = *current;
        let len = self.tokens.len();
        *current = start + 1;
        let inner = match self.expression(current) {
            Ok(v) => v,
            Err(e) => return Err(e),
        };
        if *current >= len {
            return Err(ParseError::OutOfBounds);
        }
        // the token after the group is consumed blindly
        *current = *current + 1;
        Ok(ParsedAST::GROUP(Group { expression: Box::new(inner) }))
    }

    /// A block: the opening brace, statements until the closing brace, the
    /// closing brace.  Running off the end of the stream inside the block —
    /// also inside one of its statements — is an unterminated block.
    #[verifier::loop_isolation(false)]
    pub fn block(&self, current: &mut usize) -> (r: Result<ParsedAST, ParseError>)
        requires
            *old(current) <= self.tokens@.len(),
        ensures
            *old(current) <= *final(current) <= self.tokens@.len(),
            (r matches Ok(_)) ==> *old(current) < *final(current),
            step_agrees(r, *final(current) as int, spec_block(self.toks(), *old(current) as int)),
        decreases self.tokens@.len() - *current, 0int,
    {
        let start: usize = *current;
        let len = self.tokens.len();
        if start >= len {
            return Err(ParseError::OutOfBounds);
        }
        // consume the opening brace
        *current = start + 1;
        let mut body: Vec<ParsedAST> = Vec::new();
        proof {
            match spec_block_body(self.toks(), (start + 1) as int) {
                Ok(p) => lemma_seq_empty_prepend::<SpecAst>(p.0),
                Err(_) => (),
            }
        }
        loop
            invariant
                start + 1 <= *current <= len,
                len == self.tokens@.len(),
                block_rest_agrees(
                    self.toks(),
                    start + 1,
                    spec_body_of(body@),
                    *current as int,
                ),
            decreases len - *current,
        {
            if *current >= len {
                return Err(ParseError::UnterminatedBlock);
            }
            let closing = match self.expecting(Token::RCURLY, current) {
                Ok(b) => b,
                Err(e) => return Err(e),
            };
            if closing {
                *current = *current + 1;
                return Ok(ParsedAST::BLOCK(Block { body }));
            }
            match self.statement(current) {
                Ok(stmt) => {
                    proof {
                        lemma_spec_body_of_push(body@, stmt);
                        match spec_block_body(self.toks(), *current as int) {
                            Ok(p) => lemma_seq_push_prepend(spec_body_of(body@), stmt@, p.0),
                            Err(_) => (),
                        }
                    }
                    body.push(stmt);
                },
                Err(e) => {
                    match e {
                        ParseError::OutOfBounds => {
                            return Err(ParseError::UnterminatedBlock);
                        },
                        _ => {
                            return Err(e);
                        },
                    }
                },
            }
        }
    }
}

} // verus!

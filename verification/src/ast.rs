//! The abstract syntax tree built by the parser, together with its
//! mathematical model.  Every composite node exclusively owns its children:
//! the tree is strict (no sharing, no cycles) and all retained text is an
//! owned copy, so the tree outlives the token buffer it was parsed from.

use vstd::prelude::*;

use crate::token::{SpecToken, Token};
use crate::types::{SpecType, Type};

verus! {

/// The root node: the statements of a whole source text, in order.
#[derive(Debug)]
pub struct Program {
    pub body: Vec<ParsedAST>,
}

/// A brace-delimited sequence of statements.
#[derive(Debug)]
pub struct Block {
    pub body: Vec<ParsedAST>,
}

/// A binding of an identifier to an initializer expression.  When
/// `requires_infering` is true no annotation was written: `typ` holds the
/// `NONE` placeholder and the checker infers the type from `value`.
#[derive(Debug)]
pub struct Decl {
    pub identifier: Token,
    pub typ: Type,
    pub requires_infering: bool,
    pub value: Box<ParsedAST>,
}

/// An identifier token retained as a node payload.
#[derive(Debug)]
pub struct Identifier {
    pub token: Token,
}

/// A binary arithmetic expression; `op` is the operator token.
#[derive(Debug)]
pub struct Binary {
    pub left: Box<ParsedAST>,
    pub op: Token,
    pub right: Box<ParsedAST>,
}

/// A parenthesized sub-expression, kept in the tree so source grouping is
/// recoverable.
#[derive(Debug)]
pub struct Group {
    pub expression: Box<ParsedAST>,
}

/// A single-argument function application.
#[derive(Debug)]
pub struct Call {
    pub callee: Box<ParsedAST>,
    pub args: Box<ParsedAST>,
}

/// A function literal; only the body form exists in the tree today.
#[derive(Debug)]
pub struct Fn {
    pub body: Box<ParsedAST>,
}

/// A node of the tree: a closed, tagged union.  `STMT` marks an expression
/// used in statement position.  Number leaves carry the literal's text;
/// boolean literals are parsed to the numeric texts `1.0` and `0.0`.
#[derive(Debug)]
pub enum ParsedAST {
    PROGRAM(Program),
    STMT(Box<ParsedAST>),
    BLOCK(Block),
    DECL(Decl),
    IDENTIFIER(String),
    STRING(String),
    FN(Fn),
    NUMBER(String),
    BINARY(Binary),
    GROUP(Group),
    CALL(Call),
}

/// The mathematical value of a tree: strings become character sequences,
/// token payloads become `SpecToken`s, and node bodies become sequences.
/// Two trees are structurally identical exactly when their `SpecAst` values
/// are equal.
pub enum SpecAst {
    Program { body: Seq<SpecAst> },
    Stmt { inner: Box<SpecAst> },
    Block { body: Seq<SpecAst> },
    Decl { identifier: SpecToken, typ: SpecType, requires_infering: bool, value: Box<SpecAst> },
    Identifier { name: Seq<char> },
    StringLit { text: Seq<char> },
    Fn { inner: Box<SpecAst> },
    Number { text: Seq<char> },
    Binary { left: Box<SpecAst>, op: SpecToken, right: Box<SpecAst> },
    Group { inner: Box<SpecAst> },
    Call { callee: Box<SpecAst>, args: Box<SpecAst> },
}

/// The mathematical values of a sequence of nodes, in order.
pub open spec fn spec_body_of(s: Seq<ParsedAST>) -> Seq<SpecAst>
    decreases s,
{
    if s.len() == 0 {
        Seq::empty()
    } else {
        spec_body_of(s.drop_last()).push(s.last()@)
    }
}

impl View for ParsedAST {
    type V = SpecAst;

    open spec fn view(&self) -> SpecAst
        decreases self,
    {
        match self {
            ParsedAST::PROGRAM(p) => SpecAst::Program { body: spec_body_of(p.body@) },
            ParsedAST::STMT(inner) => SpecAst::Stmt { inner: Box::new((**inner)@) },
            ParsedAST::BLOCK(b) => SpecAst::Block { body: spec_body_of(b.body@) },
            ParsedAST::DECL(d) => SpecAst::Decl {
                identifier: d.identifier@,
                typ: d.typ@,
                requires_infering: d.requires_infering,
                value: Box::new((*d.value)@),
            },
            ParsedAST::IDENTIFIER(s) => SpecAst::Identifier { name: s@ },
            ParsedAST::STRING(s) => SpecAst::StringLit { text: s@ },
            ParsedAST::FN(f) => SpecAst::Fn { inner: Box::new((*f.body)@) },
            ParsedAST::NUMBER(s) => SpecAst::Number { text: s@ },
            ParsedAST::BINARY(b) => SpecAst::Binary {
                left: Box::new((*b.left)@),
                op: b.op@,
                right: Box::new((*b.right)@),
            },
            ParsedAST::GROUP(g) => SpecAst::Group { inner: Box::new((*g.expression)@) },
            ParsedAST::CALL(c) => SpecAst::Call {
                callee: Box::new((*c.callee)@),
                args: Box::new((*c.args)@),
            },
        }
    }
}

/// Appending a node to a body appends its value to the body's value.
pub proof fn lemma_spec_body_of_push(s: Seq<ParsedAST>, a: ParsedAST)
    ensures
        spec_body_of(s.push(a)) == spec_body_of(s).push(a@),
{
    assert(s.push(a).drop_last() =~= s);
    assert(s.push(a).last() == a);
}

} // verus!

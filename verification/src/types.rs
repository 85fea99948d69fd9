//! The lightweight type annotations attached to declarations, read later by
//! an external type-checking stage, together with their mathematical model.

use vstd::prelude::*;

verus! {

/// Whether a binding may be reassigned.  No mutable-binding syntax exists in
/// the grammar today, so every parsed annotation is `CONSTANT`.
#[derive(Debug)]
pub enum Mutability {
    CONSTANT,
}

/// A function type: the declared argument types.  The parser only ever
/// produces the empty-argument form; richer signatures belong to a later
/// extension of the grammar.
#[derive(Debug)]
pub struct FnType {
    pub args: Vec<Type>,
}

/// The primitive component of a type annotation.  `NONE` is the placeholder
/// used when no annotation was written and the checker must infer the type
/// from the initializer.
#[derive(Debug)]
pub enum Primative {
    U32,
    I32,
    BOOL,
    TYPE,
    FN(FnType),
    NONE,
}

/// A type annotation: a mutability paired with a primitive.
#[derive(Debug)]
pub struct Type {
    pub mutability: Mutability,
    pub primative: Primative,
}

/// The mathematical value of a `Primative`: function argument lists become
/// sequences.
pub enum SpecPrimative {
    U32,
    I32,
    BOOL,
    TYPE,
    FN(Seq<SpecType>),
    NONE,
}

/// The mathematical value of a `Type`.
pub struct SpecType {
    pub mutability: Mutability,
    pub primative: SpecPrimative,
}

/// The mathematical values of a sequence of type annotations, in order.
pub open spec fn spec_types_of(s: Seq<Type>) -> Seq<SpecType>
    decreases s,
{
    if s.len() == 0 {
        Seq::empty()
    } else {
        spec_types_of(s.drop_last()).push(s.last()@)
    }
}

impl View for Type {
    type V = SpecType;

    open spec fn view(&self) -> SpecType
        decreases self,
    {
        SpecType {
            mutability: self.mutability,
            primative: match self.primative {
                Primative::U32 => SpecPrimative::U32,
                Primative::I32 => SpecPrimative::I32,
                Primative::BOOL => SpecPrimative::BOOL,
                Primative::TYPE => SpecPrimative::TYPE,
                Primative::FN(f) => SpecPrimative::FN(spec_types_of(f.args@)),
                Primative::NONE => SpecPrimative::NONE,
            },
        }
    }
}

/// The annotation every inferred declaration carries until the checker fills
/// it in: constant mutability with the `NONE` placeholder.
pub open spec fn spec_none_type() -> SpecType {
    SpecType { mutability: Mutability::CONSTANT, primative: SpecPrimative::NONE }
}

} // verus!

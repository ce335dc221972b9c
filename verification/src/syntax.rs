//! What a problem found in the source points at: regions, binary
//! operators, and the problems themselves.

use vstd::prelude::*;
use crate::symbol::{ModuleId, Symbol};

verus! {

/// A stretch of the source, from `(start_line, start_col)` to
/// `(end_line, end_col)`; lines and columns count from 0.
#[derive(Clone, Copy, Debug, PartialEq, Eq, Structural)]
pub struct Region {
    pub start_line: u32,
    pub end_line: u32,
    pub start_col: u16,
    pub end_col: u16,
}

/// A binary operator of the language.
#[derive(Clone, Copy, Debug, PartialEq, Eq, Structural)]
pub enum BinOp {
    Caret,
    Star,
    Slash,
    DoubleSlash,
    Percent,
    DoublePercent,
    Plus,
    Minus,
    Equals,
    NotEquals,
    LessThan,
    GreaterThan,
    LessThanOrEq,
    GreaterThanOrEq,
    And,
    Or,
    Pizza,
}

/// How an operator is written in the source.
pub open spec fn bin_op_text(op: BinOp) -> Seq<char> {
    match op {
        BinOp::Caret => seq!['^'],
        BinOp::Star => seq!['*'],
        BinOp::Slash => seq!['/'],
        BinOp::DoubleSlash => seq!['/', '/'],
        BinOp::Percent => seq!['%'],
        BinOp::DoublePercent => seq!['%', '%'],
        BinOp::Plus => seq!['+'],
        BinOp::Minus => seq!['-'],
        BinOp::Equals => seq!['=', '='],
        BinOp::NotEquals => seq!['!', '='],
        BinOp::LessThan => seq!['<'],
        BinOp::GreaterThan => seq!['>'],
        BinOp::LessThanOrEq => seq!['<', '='],
        BinOp::GreaterThanOrEq => seq!['>', '='],
        BinOp::And => seq!['&', '&'],
        BinOp::Or => seq!['|', '|'],
        BinOp::Pizza => seq!['|', '>'],
    }
}

impl BinOp {
    /// How the operator is written in the source, as its `Display` shows it.
    pub fn as_str(&self) -> (s: &'static str)
        ensures
            s@ == bin_op_text(*self),
    {
        match self {
            BinOp::Caret => { proof { reveal_strlit("^"); } "^" },
            BinOp::Star => { proof { reveal_strlit("*"); } "*" },
            BinOp::Slash => { proof { reveal_strlit("/"); } "/" },
            BinOp::DoubleSlash => { proof { reveal_strlit("//"); } "//" },
            BinOp::Percent => { proof { reveal_strlit("%"); } "%" },
            BinOp::DoublePercent => { proof { reveal_strlit("%%"); } "%%" },
            BinOp::Plus => { proof { reveal_strlit("+"); } "+" },
            BinOp::Minus => { proof { reveal_strlit("-"); } "-" },
            BinOp::Equals => { proof { reveal_strlit("=="); } "==" },
            BinOp::NotEquals => { proof { reveal_strlit("!="); } "!=" },
            BinOp::LessThan => { proof { reveal_strlit("<"); } "<" },
            BinOp::GreaterThan => { proof { reveal_strlit(">"); } ">" },
            BinOp::LessThanOrEq => { proof { reveal_strlit("<="); } "<=" },
            BinOp::GreaterThanOrEq => { proof { reveal_strlit(">="); } ">=" },
            BinOp::And => { proof { reveal_strlit("&&"); } "&&" },
            BinOp::Or => { proof { reveal_strlit("||"); } "||" },
            BinOp::Pizza => { proof { reveal_strlit("|>"); } "|>" },
        }
    }
}

/// An operator together with where it stands in the source.
#[derive(Clone, Copy, Debug, PartialEq, Eq, Structural)]
pub struct LocatedBinOp {
    pub region: Region,
    pub value: BinOp,
}

/// Where a pattern stands.
#[derive(Clone, Copy, Debug, PartialEq, Eq, Structural)]
pub enum PatternType {
    TopLevelDef,
    DefExpr,
    FunctionArg,
    WhenBranch,
}

/// A problem with how operators are grouped.
#[derive(Clone, Copy, Debug, PartialEq, Eq, Structural)]
pub enum PrecedenceProblem {
    /// Two operators that do not associate stand side by side.
    BothNonAssociative(Region, LocatedBinOp, LocatedBinOp),
}

/// A problem found while canonicalizing a module.
#[derive(Clone, Copy, Debug, PartialEq, Eq, Structural)]
pub enum Problem {
    /// A definition that nothing uses.
    UnusedDef(Symbol, Region),
    /// An import from which nothing is used.
    UnusedImport(ModuleId, Region),
    /// An argument of a closure that its body does not use: the closure, the
    /// argument, and where the argument stands.
    UnusedArgument(Symbol, Symbol, Region),
    PrecedenceProblem(PrecedenceProblem),
    UnsupportedPattern(PatternType, Region),
    /// A name in a type annotation that shadows another one.
    ShadowingInAnnotation { original_region: Region, shadow_region: Region },
    /// An error that will only show when the program runs, and where it stands.
    RuntimeError(Region),
}

} // verus!

//! The precedence rule table: for every token category, an optional
//! prefix parse action, an optional infix parse action, and the binding
//! precedence of the category as an infix operator.

use vstd::prelude::*;

use crate::token::TokenKind;

verus! {

/// Binding precedence levels, a total order from loosest to tightest.
/// `NoPrec` marks a token that never acts as an infix operator.
#[derive(Clone, Copy, PartialEq, Eq, Structural, Debug)]
pub enum Precedence {
    NoPrec,
    Assignment,
    Or,
    And,
    Equality,
    Comparison,
    Term,
    Factor,
    Unary,
    Call,
    Primary,
}

/// The rank of a level within the total order.
pub open spec fn prec_level(p: Precedence) -> int {
    match p {
        Precedence::NoPrec => 0,
        Precedence::Assignment => 1,
        Precedence::Or => 2,
        Precedence::And => 3,
        Precedence::Equality => 4,
        Precedence::Comparison => 5,
        Precedence::Term => 6,
        Precedence::Factor => 7,
        Precedence::Unary => 8,
        Precedence::Call => 9,
        Precedence::Primary => 10,
    }
}

fn prec_level_byte(p: Precedence) -> (b: u8)
    ensures
        b as int == prec_level(p),
{
    match p {
        Precedence::NoPrec => 0,
        Precedence::Assignment => 1,
        Precedence::Or => 2,
        Precedence::And => 3,
        Precedence::Equality => 4,
        Precedence::Comparison => 5,
        Precedence::Term => 6,
        Precedence::Factor => 7,
        Precedence::Unary => 8,
        Precedence::Call => 9,
        Precedence::Primary => 10,
    }
}

/// Compare two levels in the total order.
pub fn prec_ge(a: Precedence, b: Precedence) -> (r: bool)
    ensures
        r == (prec_level(a) >= prec_level(b)),
{
    prec_level_byte(a) >= prec_level_byte(b)
}

/// The next tighter level.  `Primary` is the top of the order and has no
/// successor.
pub fn increment_prec(prec: Precedence) -> (next: Precedence)
    requires
        prec != Precedence::Primary,
    ensures
        prec_level(next) == prec_level(prec) + 1,
{
    match prec {
        Precedence::NoPrec => Precedence::Assignment,
        Precedence::Assignment => Precedence::Or,
        Precedence::Or => Precedence::And,
        Precedence::And => Precedence::Equality,
        Precedence::Equality => Precedence::Comparison,
        Precedence::Comparison => Precedence::Term,
        Precedence::Term => Precedence::Factor,
        Precedence::Factor => Precedence::Unary,
        Precedence::Unary => Precedence::Call,
        Precedence::Call => Precedence::Primary,
        Precedence::Primary => Precedence::Primary,
    }
}

/// A parse action named by the rule table and dispatched through a single
/// match in the precedence-climbing engine.
#[derive(Clone, Copy, PartialEq, Eq, Structural, Debug)]
pub enum ParseAction {
    Grouping,
    Unary,
    Binary,
    Number,
    StringLit,
    Literal,
}

/// One entry of the rule table.
#[derive(Clone, Copy, Debug)]
pub struct ParseRule {
    pub prefix: Option<ParseAction>,
    pub infix: Option<ParseAction>,
    pub precedence: Precedence,
}

/// The rule table itself.  It is total: a category without any parse role
/// maps to the empty rule rather than to a missing case.
pub open spec fn spec_rule(kind: TokenKind) -> ParseRule {
    match kind {
        TokenKind::LeftParen => ParseRule {
            prefix: Some(ParseAction::Grouping),
            infix: None,
            precedence: Precedence::NoPrec,
        },
        TokenKind::Minus => ParseRule {
            prefix: Some(ParseAction::Unary),
            infix: Some(ParseAction::Binary),
            precedence: Precedence::Term,
        },
        TokenKind::Plus => ParseRule {
            prefix: None,
            infix: Some(ParseAction::Binary),
            precedence: Precedence::Term,
        },
        TokenKind::Slash | TokenKind::Star => ParseRule {
            prefix: None,
            infix: Some(ParseAction::Binary),
            precedence: Precedence::Factor,
        },
        TokenKind::Bang => ParseRule {
            prefix: Some(ParseAction::Unary),
            infix: None,
            precedence: Precedence::NoPrec,
        },
        TokenKind::BangEqual | TokenKind::EqualEqual => ParseRule {
            prefix: None,
            infix: Some(ParseAction::Binary),
            precedence: Precedence::Equality,
        },
        TokenKind::Greater | TokenKind::GreaterEqual | TokenKind::Less
            | TokenKind::LessEqual => ParseRule {
            prefix: None,
            infix: Some(ParseAction::Binary),
            precedence: Precedence::Comparison,
        },
        TokenKind::Str => ParseRule {
            prefix: Some(ParseAction::StringLit),
            infix: None,
            precedence: Precedence::NoPrec,
        },
        TokenKind::Number => ParseRule {
            prefix: Some(ParseAction::Number),
            infix: None,
            precedence: Precedence::NoPrec,
        },
        TokenKind::False | TokenKind::Nil | TokenKind::True => ParseRule {
            prefix: Some(ParseAction::Literal),
            infix: None,
            precedence: Precedence::NoPrec,
        },
        _ => ParseRule { prefix: None, infix: None, precedence: Precedence::NoPrec },
    }
}

/// Look a category's rule up in O(1).
pub fn get_rule(kind: TokenKind) -> (r: ParseRule)
    ensures
        r == spec_rule(kind),
{
    match kind {
        TokenKind::LeftParen => ParseRule {
            prefix: Some(ParseAction::Grouping),
            infix: None,
            precedence: Precedence::NoPrec,
        },
        TokenKind::Minus => ParseRule {
            prefix: Some(ParseAction::Unary),
            infix: Some(ParseAction::Binary),
            precedence: Precedence::Term,
        },
        TokenKind::Plus => ParseRule {
            prefix: None,
            infix: Some(ParseAction::Binary),
            precedence: Precedence::Term,
        },
        TokenKind::Slash | TokenKind::Star => ParseRule {
            prefix: None,
            infix: Some(ParseAction::Binary),
            precedence: Precedence::Factor,
        },
        TokenKind::Bang => ParseRule {
            prefix: Some(ParseAction::Unary),
            infix: None,
            precedence: Precedence::NoPrec,
        },
        TokenKind::BangEqual | TokenKind::EqualEqual => ParseRule {
            prefix: None,
            infix: Some(ParseAction::Binary),
            precedence: Precedence::Equality,
        },
        TokenKind::Greater | TokenKind::GreaterEqual | TokenKind::Less
            | TokenKind::LessEqual => ParseRule {
            prefix: None,
            infix: Some(ParseAction::Binary),
            precedence: Precedence::Comparison,
        },
        TokenKind::Str => ParseRule {
            prefix: Some(ParseAction::StringLit),
            infix: None,
            precedence: Precedence::NoPrec,
        },
        TokenKind::Number => ParseRule {
            prefix: Some(ParseAction::Number),
            infix: None,
            precedence: Precedence::NoPrec,
        },
        TokenKind::False | TokenKind::Nil | TokenKind::True => ParseRule {
            prefix: Some(ParseAction::Literal),
            infix: None,
            precedence: Precedence::NoPrec,
        },
        _ => ParseRule { prefix: None, infix: None, precedence: Precedence::NoPrec },
    }
}

} // verus!

//! The rule table of the parser: what each kind of token means where it
//! begins an expression and where it follows one.

use vstd::prelude::*;
use crate::scanner::TokenType;

verus! {

/// Binding strength of operators, weakest first.
#[derive(Clone, Copy, Debug, PartialEq, Eq, Structural)]
pub enum Precedence {
    Lowest,
    Assignment,  // =
    Or,  // or
    And,  // and
    Equality,  // == !=
    Comparison,  // < > <= >=
    Term,  // + -
    Factor,  // * /
    Unary,  // ! -
    Call,  // . ()
    Primary,
}

impl Precedence {
    /// The place of the precedence in the order, from 0 for `Lowest`.
    pub open spec fn level(self) -> int {
        match self {
            Precedence::Lowest => 0,
            Precedence::Assignment => 1,
            Precedence::Or => 2,
            Precedence::And => 3,
            Precedence::Equality => 4,
            Precedence::Comparison => 5,
            Precedence::Term => 6,
            Precedence::Factor => 7,
            Precedence::Unary => 8,
            Precedence::Call => 9,
            Precedence::Primary => 10,
        }
    }

    /// The next stronger precedence; `Primary` is the strongest.
    pub open spec fn next(self) -> Precedence {
        match self {
            Precedence::Lowest => Precedence::Assignment,
            Precedence::Assignment => Precedence::Or,
            Precedence::Or => Precedence::And,
            Precedence::And => Precedence::Equality,
            Precedence::Equality => Precedence::Comparison,
            Precedence::Comparison => Precedence::Term,
            Precedence::Term => Precedence::Factor,
            Precedence::Factor => Precedence::Unary,
            Precedence::Unary => Precedence::Call,
            Precedence::Call => Precedence::Primary,
            Precedence::Primary => Precedence::Primary,
        }
    }

    pub fn rank(&self) -> (rank: u8)
        ensures
            rank == self.level(),
    {
        match self {
            Precedence::Lowest => 0,
            Precedence::Assignment => 1,
            Precedence::Or => 2,
            Precedence::And => 3,
            Precedence::Equality => 4,
            Precedence::Comparison => 5,
            Precedence::Term => 6,
            Precedence::Factor => 7,
            Precedence::Unary => 8,
            Precedence::Call => 9,
            Precedence::Primary => 10,
        }
    }

    pub fn next_level(&self) -> (next: Self)
        requires
            *self != Precedence::Primary,
        ensures
            next == self.next(),
            next.level() == self.level() + 1,
    {
        match self {
            Precedence::Lowest => Self::Assignment,
            Precedence::Assignment => Self::Or,
            Precedence::Or => Self::And,
            Precedence::And => Self::Equality,
            Precedence::Equality => Self::Comparison,
            Precedence::Comparison => Self::Term,
            Precedence::Term => Self::Factor,
            Precedence::Factor => Self::Unary,
            Precedence::Unary => Self::Call,
            Precedence::Call => Self::Primary,
            Precedence::Primary => Self::Primary,
        }
    }
}

/// The parsing routines that a token can select.
#[derive(Clone, Copy, Debug, PartialEq, Eq, Structural)]
pub enum ParseFn {
    Grouping,
    Call,
    Unary,
    Binary,
    Variable,
    String,
    Number,
    Literal,
    And,
    Or,
}

/// What a token means to the parser: the routine to run where it begins
/// an expression, the routine to run where it follows one, and how
/// strongly it binds there.
#[derive(Clone, Copy, Debug, PartialEq, Eq, Structural)]
pub struct ParseRule {
    pub prefix: Option<ParseFn>,
    pub infix: Option<ParseFn>,
    pub precedence: Precedence,
}

impl ParseRule {
    pub fn new(prefix: ParseFn, infix: ParseFn, precedence: Precedence) -> (rule: Self)
        ensures
            rule == (ParseRule { prefix: Some(prefix), infix: Some(infix), precedence }),
    {
        Self { prefix: Some(prefix), infix: Some(infix), precedence }
    }

    pub fn infix(infix: ParseFn, precedence: Precedence) -> (rule: Self)
        ensures
            rule == (ParseRule { prefix: None, infix: Some(infix), precedence }),
    {
        Self { prefix: None, infix: Some(infix), precedence }
    }

    pub fn prefix(prefix: ParseFn) -> (rule: Self)
        ensures
            rule == (ParseRule { prefix: Some(prefix), infix: None, precedence: Precedence::Lowest }),
    {
        Self { prefix: Some(prefix), infix: None, precedence: Precedence::Lowest }
    }

    pub fn undef() -> (rule: Self)
        ensures
            rule == (ParseRule { prefix: None, infix: None, precedence: Precedence::Lowest }),
    {
        Self { prefix: None, infix: None, precedence: Precedence::Lowest }
    }
}

/// The rule table.
pub open spec fn rule_of(token_type: TokenType) -> ParseRule {
    match token_type {
        TokenType::LeftParen => ParseRule {
            prefix: Some(ParseFn::Grouping),
            infix: Some(ParseFn::Call),
            precedence: Precedence::Call,
        },
        TokenType::Minus => ParseRule {
            prefix: Some(ParseFn::Unary),
            infix: Some(ParseFn::Binary),
            precedence: Precedence::Term,
        },
        TokenType::Plus => ParseRule {
            prefix: None,
            infix: Some(ParseFn::Binary),
            precedence: Precedence::Term,
        },
        TokenType::Slash | TokenType::Star => ParseRule {
            prefix: None,
            infix: Some(ParseFn::Binary),
            precedence: Precedence::Factor,
        },
        TokenType::Bang => ParseRule {
            prefix: Some(ParseFn::Unary),
            infix: None,
            precedence: Precedence::Lowest,
        },
        TokenType::BangEqual | TokenType::EqualEqual => ParseRule {
            prefix: None,
            infix: Some(ParseFn::Binary),
            precedence: Precedence::Equality,
        },
        TokenType::Greater | TokenType::GreaterEqual | TokenType::Less | TokenType::LessEqual => {
            ParseRule {
                prefix: None,
                infix: Some(ParseFn::Binary),
                precedence: Precedence::Comparison,
            }
        },
        TokenType::Identifier => ParseRule {
            prefix: Some(ParseFn::Variable),
            infix: None,
            precedence: Precedence::Lowest,
        },
        TokenType::String => ParseRule {
            prefix: Some(ParseFn::String),
            infix: None,
            precedence: Precedence::Lowest,
        },
        TokenType::Number => ParseRule {
            prefix: Some(ParseFn::Number),
            infix: None,
            precedence: Precedence::Lowest,
        },
        TokenType::And => ParseRule {
            prefix: None,
            infix: Some(ParseFn::And),
            precedence: Precedence::And,
        },
        TokenType::Or => ParseRule {
            prefix: None,
            infix: Some(ParseFn::Or),
            precedence: Precedence::Or,
        },
        TokenType::False | TokenType::Nil | TokenType::True => ParseRule {
            prefix: Some(ParseFn::Literal),
            infix: None,
            precedence: Precedence::Lowest,
        },
        _ => ParseRule { prefix: None, infix: None, precedence: Precedence::Lowest },
    }
}

pub fn get_rule(token_type: TokenType) -> (rule: ParseRule)
    ensures
        rule == rule_of(token_type),
{
    match token_type {
        TokenType::LeftParen => ParseRule::new(ParseFn::Grouping, ParseFn::Call, Precedence::Call),
        TokenType::RightParen => ParseRule::undef(),
        TokenType::LeftBrace => ParseRule::undef(),
        TokenType::RightBrace => ParseRule::undef(),
        TokenType::Comma => ParseRule::undef(),
        TokenType::Dot => ParseRule::undef(),
        TokenType::Minus => ParseRule::new(ParseFn::Unary, ParseFn::Binary, Precedence::Term),
        TokenType::Plus => ParseRule::infix(ParseFn::Binary, Precedence::Term),
        TokenType::Semicolon => ParseRule::undef(),
        TokenType::Slash => ParseRule::infix(ParseFn::Binary, Precedence::Factor),
        TokenType::Star => ParseRule::infix(ParseFn::Binary, Precedence::Factor),
        TokenType::Bang => ParseRule::prefix(ParseFn::Unary),
        TokenType::BangEqual => ParseRule::infix(ParseFn::Binary, Precedence::Equality),
        TokenType::Equal => ParseRule::undef(),
        TokenType::EqualEqual => ParseRule::infix(ParseFn::Binary, Precedence::Equality),
        TokenType::Greater => ParseRule::infix(ParseFn::Binary, Precedence::Comparison),
        TokenType::GreaterEqual => ParseRule::infix(ParseFn::Binary, Precedence::Comparison),
        TokenType::Less => ParseRule::infix(ParseFn::Binary, Precedence::Comparison),
        TokenType::LessEqual => ParseRule::infix(ParseFn::Binary, Precedence::Comparison),
        TokenType::Identifier => ParseRule::prefix(ParseFn::Variable),
        TokenType::String => ParseRule::prefix(ParseFn::String),
        TokenType::Number => ParseRule::prefix(ParseFn::Number),
        TokenType::And => ParseRule::infix(ParseFn::And, Precedence::And),
        TokenType::Class => ParseRule::undef(),
        TokenType::Else => ParseRule::undef(),
        TokenType::False => ParseRule::prefix(ParseFn::Literal),
        TokenType::For => ParseRule::undef(),
        TokenType::Fun => ParseRule::undef(),
        TokenType::If => ParseRule::undef(),
        TokenType::Nil => ParseRule::prefix(ParseFn::Literal),
        TokenType::Or => ParseRule::infix(ParseFn::Or, Precedence::Or),
        TokenType::Print => ParseRule::undef(),
        TokenType::Return => ParseRule::undef(),
        TokenType::Super => ParseRule::undef(),
        TokenType::This => ParseRule::undef(),
        TokenType::True => ParseRule::prefix(ParseFn::Literal),
        TokenType::Var => ParseRule::undef(),
        TokenType::While => ParseRule::undef(),
        TokenType::Eof => ParseRule::undef(),
    }
}

} // verus!

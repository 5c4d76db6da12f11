//! The table that drives the single-pass compiler: for each kind of token,
//! how it starts an expression, how it continues one, and how tightly it
//! binds.
use vstd::prelude::*;

use crate::token::{Token, TokenKind};

verus! {

/// How tightly an operator binds, loosest first.
#[derive(Clone, Copy, Debug, PartialEq, Eq, Structural)]
pub enum Precedence {
    /// Binds nothing.
    Lowest,
    Assignment,
    Or,
    And,
    Equality,
    Comparison,
    Term,
    Factor,
    Unary,
    Call,
    Primary,
}

/// The rank of a precedence, from 0 for the loosest.
pub open spec fn prec_rank(p: Precedence) -> u8 {
    match p {
        Precedence::Lowest => 0,
        Precedence::Assignment => 1,
        Precedence::Or => 2,
        Precedence::And => 3,
        Precedence::Equality => 4,
        Precedence::Comparison => 5,
        Precedence::Term => 6,
        Precedence::Factor => 7,
        Precedence::Unary => 8,
        Precedence::Call => 9,
        Precedence::Primary => 10,
    }
}

impl Precedence {
    /// The rank of the precedence.
    pub fn to_byte(self) -> (b: u8)
        ensures
            b == prec_rank(self),
    {
        match self {
            Precedence::Lowest => 0,
            Precedence::Assignment => 1,
            Precedence::Or => 2,
            Precedence::And => 3,
            Precedence::Equality => 4,
            Precedence::Comparison => 5,
            Precedence::Term => 6,
            Precedence::Factor => 7,
            Precedence::Unary => 8,
            Precedence::Call => 9,
            Precedence::Primary => 10,
        }
    }

    /// The precedence of a rank.
    pub fn from_byte(b: u8) -> (p: Precedence)
        requires
            b <= 10,
        ensures
            prec_rank(p) == b,
    {
        match b {
            0 => Precedence::Lowest,
            1 => Precedence::Assignment,
            2 => Precedence::Or,
            3 => Precedence::And,
            4 => Precedence::Equality,
            5 => Precedence::Comparison,
            6 => Precedence::Term,
            7 => Precedence::Factor,
            8 => Precedence::Unary,
            9 => Precedence::Call,
            _ => Precedence::Primary,
        }
    }

    /// The precedence one step tighter (the right operand of a
    /// left-associative operator binds that tightly).
    pub fn next(self) -> (p: Precedence)
        requires
            self != Precedence::Primary,
        ensures
            prec_rank(p) == prec_rank(self) + 1,
    {
        Precedence::from_byte(self.to_byte() + 1)
    }
}

/// The parse function that a rule names.
#[derive(Clone, Copy, Debug, PartialEq, Eq, Structural)]
pub enum ParseFn {
    Grouping,
    Unary,
    Binary,
    Variable,
    String,
    Number,
    Literal,
    And,
    Or,
}

/// How a kind of token starts an expression, if it does.
pub open spec fn prefix_of(k: TokenKind) -> Option<ParseFn> {
    if k == TokenKind::LeftParen {
        Some(ParseFn::Grouping)
    } else if k == TokenKind::Minus || k == TokenKind::Bang {
        Some(ParseFn::Unary)
    } else if k == TokenKind::Identifier {
        Some(ParseFn::Variable)
    } else if k == TokenKind::String {
        Some(ParseFn::String)
    } else if k == TokenKind::Number {
        Some(ParseFn::Number)
    } else if k == TokenKind::Nil || k == TokenKind::True || k == TokenKind::False {
        Some(ParseFn::Literal)
    } else {
        None
    }
}

/// How tightly a kind of token binds as an infix operator.
pub open spec fn precedence_of(k: TokenKind) -> Precedence {
    if k == TokenKind::Minus || k == TokenKind::Plus {
        Precedence::Term
    } else if k == TokenKind::Slash || k == TokenKind::Star {
        Precedence::Factor
    } else if k == TokenKind::BangEqual || k == TokenKind::EqualEqual {
        Precedence::Equality
    } else if k == TokenKind::Greater || k == TokenKind::GreaterEqual || k == TokenKind::Less || k
        == TokenKind::LessEqual {
        Precedence::Comparison
    } else if k == TokenKind::And {
        Precedence::And
    } else if k == TokenKind::Or {
        Precedence::Or
    } else {
        Precedence::Lowest
    }
}

/// How a kind of token continues an expression, if it does: `and` and `or`
/// by their own functions, the other operators that bind by the binary one.
pub open spec fn infix_of(k: TokenKind) -> Option<ParseFn> {
    if k == TokenKind::And {
        Some(ParseFn::And)
    } else if k == TokenKind::Or {
        Some(ParseFn::Or)
    } else if precedence_of(k) != Precedence::Lowest {
        Some(ParseFn::Binary)
    } else {
        None
    }
}

/// The rule of one kind of token.
#[derive(Clone, Copy, Debug, PartialEq, Eq, Structural)]
pub struct ParseRule {
    pub prefix: Option<ParseFn>,
    pub infix: Option<ParseFn>,
    pub precedence: Precedence,
}

/// The rule of a token.
pub fn get_rule(typ: &Token) -> (r: ParseRule)
    ensures
        r.prefix == prefix_of(typ@.kind),
        r.infix == infix_of(typ@.kind),
        r.precedence == precedence_of(typ@.kind),
{
    let none = Precedence::Lowest;
    match typ {
        Token::LeftParen { .. } => ParseRule { prefix: Some(ParseFn::Grouping), infix: None, precedence: none },
        Token::RightParen { .. } => ParseRule { prefix: None, infix: None, precedence: none },
        Token::LeftBrace { .. } => ParseRule { prefix: None, infix: None, precedence: none },
        Token::RightBrace { .. } => ParseRule { prefix: None, infix: None, precedence: none },
        Token::Comma { .. } => ParseRule { prefix: None, infix: None, precedence: none },
        Token::Dot { .. } => ParseRule { prefix: None, infix: None, precedence: none },
        Token::Minus { .. } => ParseRule {
            prefix: Some(ParseFn::Unary),
            infix: Some(ParseFn::Binary),
            precedence: Precedence::Term,
        },
        Token::Plus { .. } => ParseRule {
            prefix: None,
            infix: Some(ParseFn::Binary),
            precedence: Precedence::Term,
        },
        Token::Semicolon { .. } => ParseRule { prefix: None, infix: None, precedence: none },
        Token::Slash { .. } => ParseRule {
            prefix: None,
            infix: Some(ParseFn::Binary),
            precedence: Precedence::Factor,
        },
        Token::Star { .. } => ParseRule {
            prefix: None,
            infix: Some(ParseFn::Binary),
            precedence: Precedence::Factor,
        },
        Token::Bang { .. } => ParseRule { prefix: Some(ParseFn::Unary), infix: None, precedence: none },
        Token::BangEqual { .. } => ParseRule {
            prefix: None,
            infix: Some(ParseFn::Binary),
            precedence: Precedence::Equality,
        },
        Token::Equal { .. } => ParseRule { prefix: None, infix: None, precedence: none },
        Token::EqualEqual { .. } => ParseRule {
            prefix: None,
            infix: Some(ParseFn::Binary),
            precedence: Precedence::Equality,
        },
        Token::Greater { .. } => ParseRule {
            prefix: None,
            infix: Some(ParseFn::Binary),
            precedence: Precedence::Comparison,
        },
        Token::GreaterEqual { .. } => ParseRule {
            prefix: None,
            infix: Some(ParseFn::Binary),
            precedence: Precedence::Comparison,
        },
        Token::Less { .. } => ParseRule {
            prefix: None,
            infix: Some(ParseFn::Binary),
            precedence: Precedence::Comparison,
        },
        Token::LessEqual { .. } => ParseRule {
            prefix: None,
            infix: Some(ParseFn::Binary),
            precedence: Precedence::Comparison,
        },
        Token::Identifier { .. } => ParseRule {
            prefix: Some(ParseFn::Variable),
            infix: None,
            precedence: none,
        },
        Token::String { .. } => ParseRule { prefix: Some(ParseFn::String), infix: None, precedence: none },
        Token::Number { .. } => ParseRule { prefix: Some(ParseFn::Number), infix: None, precedence: none },
        Token::And { .. } => ParseRule {
            prefix: None,
            infix: Some(ParseFn::And),
            precedence: Precedence::And,
        },
        Token::Class { .. } => ParseRule { prefix: None, infix: None, precedence: none },
        Token::Else { .. } => ParseRule { prefix: None, infix: None, precedence: none },
        Token::Fun { .. } => ParseRule { prefix: None, infix: None, precedence: none },
        Token::For { .. } => ParseRule { prefix: None, infix: None, precedence: none },
        Token::If { .. } => ParseRule { prefix: None, infix: None, precedence: none },
        Token::Nil { .. } => ParseRule { prefix: Some(ParseFn::Literal), infix: None, precedence: none },
        Token::Or { .. } => ParseRule {
            prefix: None,
            infix: Some(ParseFn::Or),
            precedence: Precedence::Or,
        },
        Token::Print { .. } => ParseRule { prefix: None, infix: None, precedence: none },
        Token::Return { .. } => ParseRule { prefix: None, infix: None, precedence: none },
        Token::Super { .. } => ParseRule { prefix: None, infix: None, precedence: none },
        Token::This { .. } => ParseRule { prefix: None, infix: None, precedence: none },
        Token::True { .. } => ParseRule { prefix: Some(ParseFn::Literal), infix: None, precedence: none },
        Token::False { .. } => ParseRule { prefix: Some(ParseFn::Literal), infix: None, precedence: none },
        Token::Var { .. } => ParseRule { prefix: None, infix: None, precedence: none },
        Token::While { .. } => ParseRule { prefix: None, infix: None, precedence: none },
        Token::Eof { .. } => ParseRule { prefix: None, infix: None, precedence: none },
        Token::Comment { .. } => ParseRule { prefix: None, infix: None, precedence: none },
        Token::BlockComment { .. } => ParseRule { prefix: None, infix: None, precedence: none },
        Token::Break { .. } => ParseRule { prefix: None, infix: None, precedence: none },
        Token::Invalid { .. } => ParseRule { prefix: None, infix: None, precedence: none },
    }
}

/// Exactly the tokens that can begin an operand start an expression: a
/// literal (number, string, `nil`, `true`, `false`) by its own handler, a
/// name as a variable, `(` as a grouping, and `-` or `!` as a unary
/// operator; no other token starts one.
pub proof fn lemma_prefix_rules(k: TokenKind)
    ensures
        prefix_of(k) is Some <==> (k == TokenKind::LeftParen || k == TokenKind::Minus || k
            == TokenKind::Bang || k == TokenKind::Identifier || k == TokenKind::String || k
            == TokenKind::Number || k == TokenKind::Nil || k == TokenKind::True || k
            == TokenKind::False),
        prefix_of(TokenKind::Number) == Some(ParseFn::Number),
        prefix_of(TokenKind::String) == Some(ParseFn::String),
        prefix_of(TokenKind::Nil) == Some(ParseFn::Literal),
        prefix_of(TokenKind::True) == Some(ParseFn::Literal),
        prefix_of(TokenKind::False) == Some(ParseFn::Literal),
        prefix_of(TokenKind::Identifier) == Some(ParseFn::Variable),
        prefix_of(TokenKind::LeftParen) == Some(ParseFn::Grouping),
        prefix_of(TokenKind::Minus) == Some(ParseFn::Unary),
        prefix_of(TokenKind::Bang) == Some(ParseFn::Unary),
{
}

/// A token continues an expression exactly when it binds more than nothing.
pub proof fn lemma_infix_iff_binds(k: TokenKind)
    ensures
        infix_of(k) is Some <==> precedence_of(k) != Precedence::Lowest,
{
}

/// The binary operators continue an expression and bind as the precedence
/// table orders them, loosest first: `or`, `and`, equality, comparison, term,
/// factor.
pub proof fn lemma_operator_levels()
    ensures
        infix_of(TokenKind::Or) is Some && infix_of(TokenKind::And) is Some,
        infix_of(TokenKind::EqualEqual) is Some && infix_of(TokenKind::BangEqual) is Some,
        infix_of(TokenKind::Greater) is Some && infix_of(TokenKind::GreaterEqual) is Some,
        infix_of(TokenKind::Less) is Some && infix_of(TokenKind::LessEqual) is Some,
        infix_of(TokenKind::Plus) is Some && infix_of(TokenKind::Minus) is Some,
        infix_of(TokenKind::Star) is Some && infix_of(TokenKind::Slash) is Some,
        precedence_of(TokenKind::Or) == Precedence::Or,
        precedence_of(TokenKind::And) == Precedence::And,
        precedence_of(TokenKind::EqualEqual) == Precedence::Equality,
        precedence_of(TokenKind::BangEqual) == Precedence::Equality,
        precedence_of(TokenKind::Greater) == Precedence::Comparison,
        precedence_of(TokenKind::GreaterEqual) == Precedence::Comparison,
        precedence_of(TokenKind::Less) == Precedence::Comparison,
        precedence_of(TokenKind::LessEqual) == Precedence::Comparison,
        precedence_of(TokenKind::Plus) == Precedence::Term,
        precedence_of(TokenKind::Minus) == Precedence::Term,
        precedence_of(TokenKind::Star) == Precedence::Factor,
        precedence_of(TokenKind::Slash) == Precedence::Factor,
        prec_rank(Precedence::Or) < prec_rank(Precedence::And) < prec_rank(Precedence::Equality)
            < prec_rank(Precedence::Comparison) < prec_rank(Precedence::Term) < prec_rank(
            Precedence::Factor,
        ),
{
}

} // verus!

//! The Lox parser: recursive descent from tokens to statements.
use vstd::prelude::*;

use crate::expr::{
    all_exprs_view, expr_view, lemma_exprs_view, lemma_exprs_view_push, Assign, Binary, Call,
    ExprV, Exprs, Get, Grouping, LitV, Literal, LiteralType, Logical, SetProp, Super, This, Unary,
    Variable,
};
use crate::stmt::{
    all_funs_view, all_stmts_view, fun_view, lemma_funs_view, lemma_funs_view_push,
    lemma_stmts_view, lemma_stmts_view_push, opt_expr_view, stmt_view, token_views, Block, Break,
    Class, Expression, FunV, Function, If, Print, Return, StmtV, Stmts, Var, While,
};
use crate::text::{push_str_chars, string_from_chars};
use crate::token::{inner_text, Token, TokenKind, TokenV};

verus! {

/// Whether a declaration is a function or a method.
#[derive(Clone, Copy, Debug, PartialEq, Eq, PartialOrd, Ord)]
pub enum FunctionKind {
    Function,
    Method,
}

/// The name of a function kind (what its `Display` writes).
pub open spec fn kind_text(k: FunctionKind) -> Seq<char> {
    match k {
        FunctionKind::Function => "function"@,
        FunctionKind::Method => "method"@,
    }
}

impl FunctionKind {
    /// The name of the kind (what its `Display` writes).
    pub fn to_string(&self) -> (r: String)
        ensures
            r@ == kind_text(*self),
    {
        match self {
            FunctionKind::Function => String::from_str("function"),
            FunctionKind::Method => String::from_str("method"),
        }
    }
}

/// What went wrong while parsing or resolving.
#[derive(Debug)]
pub enum ParserError {
    LeftParen(Token),
    LeftBrace(Token),
    RightParen(Token),
    RightBrace(Token),
    Eof(String),
    Primary(Token),
    PrintStmt(Token),
    DeclarationStmt(String),
    VarDeclaration(Token),
    Semicolon(Token),
    Assign(Token),
    NotInLoop(Token),
    TooManyArgs(Token),
    ErrMessage(String),
    CallDecl { tk: Token, kind: FunctionKind },
    Parameters(Token),
    Class(Token),
    Superclass(Token),
    RecurseClass(Token),
    Initialization(Token),
    NotInScope,
    DoubleVar(Token),
    NotInFn(Token),
    NotInClassThis(Token),
    NotInClassSuper(Token),
    ClassNoSuper(Token),
    RtValInit(Token),
}

/// An error as a mathematical value; `Panic` stands for an input on which
/// the parser panics.
pub enum ErrV {
    LeftParen(TokenV),
    LeftBrace(TokenV),
    RightParen(TokenV),
    RightBrace(TokenV),
    Eof(Seq<char>),
    Primary(TokenV),
    PrintStmt(TokenV),
    DeclarationStmt(Seq<char>),
    VarDeclaration(TokenV),
    Semicolon(TokenV),
    Assign(TokenV),
    NotInLoop(TokenV),
    TooManyArgs(TokenV),
    ErrMessage(Seq<char>),
    CallDecl(TokenV, FunctionKind),
    Parameters(TokenV),
    Class(TokenV),
    Superclass(TokenV),
    RecurseClass(TokenV),
    Initialization(TokenV),
    NotInScope,
    DoubleVar(TokenV),
    NotInFn(TokenV),
    NotInClassThis(TokenV),
    NotInClassSuper(TokenV),
    ClassNoSuper(TokenV),
    RtValInit(TokenV),
    Panic,
}

impl View for ParserError {
    type V = ErrV;

    open spec fn view(&self) -> ErrV {
        match self {
            ParserError::LeftParen(t) => ErrV::LeftParen(t@),
            ParserError::LeftBrace(t) => ErrV::LeftBrace(t@),
            ParserError::RightParen(t) => ErrV::RightParen(t@),
            ParserError::RightBrace(t) => ErrV::RightBrace(t@),
            ParserError::Eof(s) => ErrV::Eof(s@),
            ParserError::Primary(t) => ErrV::Primary(t@),
            ParserError::PrintStmt(t) => ErrV::PrintStmt(t@),
            ParserError::DeclarationStmt(s) => ErrV::DeclarationStmt(s@),
            ParserError::VarDeclaration(t) => ErrV::VarDeclaration(t@),
            ParserError::Semicolon(t) => ErrV::Semicolon(t@),
            ParserError::Assign(t) => ErrV::Assign(t@),
            ParserError::NotInLoop(t) => ErrV::NotInLoop(t@),
            ParserError::TooManyArgs(t) => ErrV::TooManyArgs(t@),
            ParserError::ErrMessage(s) => ErrV::ErrMessage(s@),
            ParserError::CallDecl { tk, kind } => ErrV::CallDecl(tk@, *kind),
            ParserError::Parameters(t) => ErrV::Parameters(t@),
            ParserError::Class(t) => ErrV::Class(t@),
            ParserError::Superclass(t) => ErrV::Superclass(t@),
            ParserError::RecurseClass(t) => ErrV::RecurseClass(t@),
            ParserError::Initialization(t) => ErrV::Initialization(t@),
            ParserError::NotInScope => ErrV::NotInScope,
            ParserError::DoubleVar(t) => ErrV::DoubleVar(t@),
            ParserError::NotInFn(t) => ErrV::NotInFn(t@),
            ParserError::NotInClassThis(t) => ErrV::NotInClassThis(t@),
            ParserError::NotInClassSuper(t) => ErrV::NotInClassSuper(t@),
            ParserError::ClassNoSuper(t) => ErrV::ClassNoSuper(t@),
            ParserError::RtValInit(t) => ErrV::RtValInit(t@),
        }
    }
}

/// The message of an error (what its `Display` writes).
pub open spec fn err_text(e: ErrV) -> Seq<char> {
    match e {
        ErrV::LeftParen(t) => "Missing '(' after expression: "@ + inner_text(t.inner),
        ErrV::LeftBrace(t) => "Missing '{' after expression: "@ + inner_text(t.inner),
        ErrV::RightParen(t) => "Missing ')' after expression: "@ + inner_text(t.inner),
        ErrV::RightBrace(t) => "Missing '}' after expression: "@ + inner_text(t.inner),
        ErrV::Eof(s) => "End of source code, no next token: "@ + s,
        ErrV::Primary(t) => "Invalid Primary: "@ + inner_text(t.inner),
        ErrV::PrintStmt(t) => "Expect `;` at stmt end: "@ + inner_text(t.inner),
        ErrV::DeclarationStmt(s) => s,
        ErrV::VarDeclaration(t) => "Expect var name: "@ + inner_text(t.inner),
        ErrV::Semicolon(t) => "Expect `;` after variable declaration: "@ + inner_text(t.inner),
        ErrV::Assign(t) => "Invalid assignment target: "@ + inner_text(t.inner),
        ErrV::NotInLoop(t) => "Must be inside a loop to use `break`"@,
        ErrV::TooManyArgs(t) => "Can't have more than 255 arguments: "@ + inner_text(t.inner),
        ErrV::ErrMessage(s) => s,
        ErrV::CallDecl(t, k) => "Expect "@ + kind_text(k) + " name: "@ + inner_text(t.inner),
        ErrV::Parameters(t) => "Expect parameters name: "@ + inner_text(t.inner),
        ErrV::Class(t) => "Expect Class name: "@ + inner_text(t.inner),
        ErrV::Superclass(t) => "Expect superclass name: "@ + inner_text(t.inner),
        ErrV::RecurseClass(t) => "A Class can't inherit from itself: "@ + inner_text(t.inner),
        ErrV::Initialization(t) => "Can't read local variable in its own initializer: "@
            + inner_text(t.inner),
        ErrV::NotInScope => "There is no scope"@,
        ErrV::DoubleVar(t) => "Already variable with this name in this scope: "@ + inner_text(
            t.inner,
        ),
        ErrV::NotInFn(t) => "Use `return` outer function: "@ + inner_text(t.inner),
        ErrV::NotInClassThis(t) => "Use `this` outer class: "@ + inner_text(t.inner),
        ErrV::NotInClassSuper(t) => "Use `super` outer class: "@ + inner_text(t.inner),
        ErrV::ClassNoSuper(t) => "Use `super` in a class with no superclass: "@ + inner_text(
            t.inner,
        ),
        ErrV::RtValInit(t) => "Can't return a value from an initializer: "@ + inner_text(t.inner),
        ErrV::Panic => Seq::empty(),
    }
}

fn message_with_token(prefix: &str, t: &Token) -> (r: String)
    ensures
        r@ == prefix@ + inner_text(t@.inner),
{
    let mut out: Vec<char> = Vec::new();
    push_str_chars(&mut out, prefix);
    let text = t.to_string();
    push_str_chars(&mut out, text.as_str());
    string_from_chars(out.as_slice())
}

fn concat(a: &str, b: &str) -> (r: String)
    ensures
        r@ == a@ + b@,
{
    let mut out: Vec<char> = Vec::new();
    push_str_chars(&mut out, a);
    push_str_chars(&mut out, b);
    string_from_chars(out.as_slice())
}

impl ParserError {
    /// The message of the error (what its `Display` writes).
    pub fn to_string(&self) -> (r: String)
        ensures
            r@ == err_text(self@),
    {
        match self {
            ParserError::LeftParen(t) => message_with_token("Missing '(' after expression: ", t),
            ParserError::LeftBrace(t) => message_with_token("Missing '{' after expression: ", t),
            ParserError::RightParen(t) => message_with_token("Missing ')' after expression: ", t),
            ParserError::RightBrace(t) => message_with_token("Missing '}' after expression: ", t),
            ParserError::Eof(s) => concat("End of source code, no next token: ", s.as_str()),
            ParserError::Primary(t) => message_with_token("Invalid Primary: ", t),
            ParserError::PrintStmt(t) => message_with_token("Expect `;` at stmt end: ", t),
            ParserError::DeclarationStmt(s) => s.clone(),
            ParserError::VarDeclaration(t) => message_with_token("Expect var name: ", t),
            ParserError::Semicolon(t) => message_with_token(
                "Expect `;` after variable declaration: ",
                t,
            ),
            ParserError::Assign(t) => message_with_token("Invalid assignment target: ", t),
            ParserError::NotInLoop(_) => String::from_str("Must be inside a loop to use `break`"),
            ParserError::TooManyArgs(t) => message_with_token(
                "Can't have more than 255 arguments: ",
                t,
            ),
            ParserError::ErrMessage(s) => s.clone(),
            ParserError::CallDecl { tk, kind } => {
                let k = kind.to_string();
                let head = concat("Expect ", k.as_str());
                let head2 = concat(head.as_str(), " name: ");
                message_with_token(head2.as_str(), tk)
            },
            ParserError::Parameters(t) => message_with_token("Expect parameters name: ", t),
            ParserError::Class(t) => message_with_token("Expect Class name: ", t),
            ParserError::Superclass(t) => message_with_token("Expect superclass name: ", t),
            ParserError::RecurseClass(t) => message_with_token(
                "A Class can't inherit from itself: ",
                t,
            ),
            ParserError::Initialization(t) => message_with_token(
                "Can't read local variable in its own initializer: ",
                t,
            ),
            ParserError::NotInScope => String::from_str("There is no scope"),
            ParserError::DoubleVar(t) => message_with_token(
                "Already variable with this name in this scope: ",
                t,
            ),
            ParserError::NotInFn(t) => message_with_token("Use `return` outer function: ", t),
            ParserError::NotInClassThis(t) => message_with_token("Use `this` outer class: ", t),
            ParserError::NotInClassSuper(t) => message_with_token("Use `super` outer class: ", t),
            ParserError::ClassNoSuper(t) => message_with_token(
                "Use `super` in a class with no superclass: ",
                t,
            ),
            ParserError::RtValInit(t) => message_with_token(
                "Can't return a value from an initializer: ",
                t,
            ),
        }
    }
}


// ---------------------------------------------------------------------------
// The grammar, as functions from the remaining tokens to a result and the
// tokens left after it. Statement rules also take and give the loop depth.
// `ErrV::Panic` marks the inputs on which parsing does not go on.
// ---------------------------------------------------------------------------

/// Whether the next token is of kind `k`.
pub open spec fn at(t: Seq<TokenV>, k: TokenKind) -> bool {
    t.len() > 0 && t[0].kind == k
}

/// Whether an outcome is the mark of an input that is not parsed.
pub open spec fn panics<T>(r: Result<T, ErrV>) -> bool {
    r matches Err(ErrV::Panic)
}

/// A binary expression.
pub open spec fn bin(l: ExprV, op: TokenV, r: ExprV) -> ExprV {
    ExprV::Binary(Box::new(l), op, Box::new(r))
}

/// A literal expression.
pub open spec fn lit(v: LitV) -> ExprV {
    ExprV::Literal(v)
}

/// The message of an `Eof` error when a token of kind `k` was expected.
pub open spec fn eof_text(k: TokenKind) -> Seq<char> {
    match k {
        TokenKind::LeftParen => "Expect `(`"@,
        TokenKind::LeftBrace => "Expect `{`"@,
        TokenKind::RightParen => "Expect `)`"@,
        TokenKind::RightBrace => "Expect `}`"@,
        _ => "Expect `;`"@,
    }
}

/// The error when `tk` stands where a token of kind `k` was expected.
pub open spec fn wrong_token(k: TokenKind, tk: TokenV) -> ErrV {
    match k {
        TokenKind::LeftBrace => ErrV::LeftBrace(tk),
        TokenKind::RightParen => ErrV::RightParen(tk),
        TokenKind::RightBrace => ErrV::RightBrace(tk),
        _ => ErrV::LeftParen(tk),
    }
}

/// Taking one token that must be of kind `k`.
pub open spec fn consume(t: Seq<TokenV>, k: TokenKind) -> (Result<TokenV, ErrV>, Seq<TokenV>) {
    if t.len() == 0 {
        (Err(ErrV::Eof(eof_text(k))), t)
    } else if t[0].kind == k {
        (Ok(t[0]), t.drop_first())
    } else {
        (Err(wrong_token(k, t[0])), t.drop_first())
    }
}

/// Whether `k` is an operator of the level `level`: 0 factor (`/ *`), 1 term
/// (`- +`), 2 comparison (`> >= < <=`), 3 equality (`!= ==`).
pub open spec fn level_op(level: nat, k: TokenKind) -> bool {
    if level == 0 {
        k == TokenKind::Slash || k == TokenKind::Star
    } else if level == 1 {
        k == TokenKind::Minus || k == TokenKind::Plus
    } else if level == 2 {
        k == TokenKind::Greater || k == TokenKind::GreaterEqual || k == TokenKind::Less || k
            == TokenKind::LessEqual
    } else {
        k == TokenKind::BangEqual || k == TokenKind::EqualEqual
    }
}

/// `primary → "false" | "true" | "nil" | NUMBER | STRING | "super" "." IDENT
/// | "this" | IDENT | "(" expression ")"`
pub open spec fn p_primary(t: Seq<TokenV>) -> (Result<ExprV, ErrV>, Seq<TokenV>)
    decreases t.len(), 1nat,
{
    if t.len() == 0 {
        (Err(ErrV::Eof("Expect a primary"@)), t)
    } else {
        let tk = t[0];
        let t1 = t.drop_first();
        match tk.kind {
            TokenKind::False => (Ok(lit(LitV::Bool(false))), t1),
            TokenKind::True => (Ok(lit(LitV::Bool(true))), t1),
            TokenKind::Nil => (Ok(lit(LitV::Nil)), t1),
            TokenKind::Number => (Ok(lit(LitV::Number(tk.inner.lexeme))), t1),
            TokenKind::String => (Ok(lit(LitV::String(tk.inner.lexeme))), t1),
            TokenKind::Super => {
                let (d, t2) = consume(t1, TokenKind::Dot);
                match d {
                    Err(e) => (Err(e), t2),
                    Ok(_) => {
                        let (m, t3) = consume(t2, TokenKind::Identifier);
                        match m {
                            Err(e) => (Err(e), t3),
                            Ok(method) => (Ok(ExprV::Super(tk, method)), t3),
                        }
                    },
                }
            },
            TokenKind::This => (Ok(ExprV::This(tk)), t1),
            TokenKind::Identifier => (Ok(ExprV::Variable(tk)), t1),
            TokenKind::LeftParen => {
                let (r, rest) = p_expression(t1);
                match r {
                    Err(e) => (Err(e), rest),
                    Ok(e) => {
                        let (c, rest2) = consume(rest, TokenKind::RightParen);
                        match c {
                            Err(x) => (Err(x), rest2),
                            Ok(_) => (Ok(ExprV::Grouping(Box::new(e))), rest2),
                        }
                    },
                }
            },
            _ => (Err(ErrV::Primary(tk)), t1),
        }
    }
}

/// Expressions separated by commas.
pub open spec fn args_inner(args: Seq<ExprV>, t: Seq<TokenV>) -> (Result<Seq<ExprV>, ErrV>, Seq<TokenV>)
    decreases t.len(), 22nat,
{
    let (r, rest) = p_expression(t);
    match r {
        Err(e) => (Err(e), rest),
        Ok(x) => if rest.len() < t.len() {
            if at(rest, TokenKind::Comma) {
                args_inner(args.push(x), rest.drop_first())
            } else {
                (Ok(args.push(x)), rest)
            }
        } else {
            (Err(ErrV::Panic), rest)
        },
    }
}

/// One step of `args_inner`: an expression, then a comma or the end.
pub proof fn lemma_args_inner_unfold(a: Seq<ExprV>, t: Seq<TokenV>)
    ensures
        ({
            let (r, rest) = p_expression(t);
            args_inner(a, t) == match r {
                Err(e) => (Err(e), rest),
                Ok(x) => if rest.len() < t.len() {
                    if at(rest, TokenKind::Comma) {
                        args_inner(a.push(x), rest.drop_first())
                    } else {
                        (Ok(a.push(x)), rest)
                    }
                } else {
                    (Err(ErrV::Panic), rest)
                },
            }
        }),
{
}

/// The rest of a call after its callee, from its `(`.
pub open spec fn p_finish_call(callee: ExprV, t: Seq<TokenV>) -> (Result<ExprV, ErrV>, Seq<TokenV>)
    decreases t.len(), 1nat,
{
    if t.len() == 0 {
        (Err(ErrV::Panic), t)
    } else {
        let paren = t[0];
        let t1 = t.drop_first();
        let (r, rest) = if t1.len() > 0 && t1[0].kind != TokenKind::RightParen {
            args_inner(Seq::empty(), t1)
        } else {
            (Ok(Seq::empty()), t1)
        };
        match r {
            Err(e) => (Err(e), rest),
            Ok(args) => {
                let (c, rest2) = consume(rest, TokenKind::RightParen);
                match c {
                    Err(x) => (Err(x), rest2),
                    Ok(_) => (Ok(ExprV::Call(Box::new(callee), paren, args)), rest2),
                }
            },
        }
    }
}

/// Calls and property reads after a primary expression.
pub open spec fn call_loop(e: ExprV, t: Seq<TokenV>) -> (Result<ExprV, ErrV>, Seq<TokenV>)
    decreases t.len(), 2nat,
{
    if at(t, TokenKind::LeftParen) {
        let (r, rest) = p_finish_call(e, t);
        match r {
            Err(x) => (Err(x), rest),
            Ok(c) => if rest.len() < t.len() {
                call_loop(c, rest)
            } else {
                (Err(ErrV::Panic), rest)
            },
        }
    } else if at(t, TokenKind::Dot) {
        let (n, rest) = consume(t.drop_first(), TokenKind::Identifier);
        match n {
            Err(x) => (Err(x), rest),
            Ok(name) => if rest.len() < t.len() {
                call_loop(ExprV::Get(Box::new(e), name), rest)
            } else {
                (Err(ErrV::Panic), rest)
            },
        }
    } else {
        (Ok(e), t)
    }
}

/// `call → primary ( "(" arguments? ")" | "." IDENT )*`
pub open spec fn p_call(t: Seq<TokenV>) -> (Result<ExprV, ErrV>, Seq<TokenV>)
    decreases t.len(), 3nat,
{
    let (r, rest) = p_primary(t);
    match r {
        Err(e) => (Err(e), rest),
        Ok(e) => if rest.len() <= t.len() {
            call_loop(e, rest)
        } else {
            (Err(ErrV::Panic), rest)
        },
    }
}

/// `unary → ( "!" | "-" ) unary | call`
pub open spec fn p_unary(t: Seq<TokenV>) -> (Result<ExprV, ErrV>, Seq<TokenV>)
    decreases t.len(), 5nat,
{
    if at(t, TokenKind::Bang) || at(t, TokenKind::Minus) {
        let (r, rest) = p_unary(t.drop_first());
        match r {
            Err(e) => (Err(e), rest),
            Ok(e) => (Ok(ExprV::Unary(t[0], Box::new(e))), rest),
        }
    } else {
        p_call(t)
    }
}

/// The operand of a level: unary below factor, and each level below the
/// next.
pub open spec fn p_operand(level: nat, t: Seq<TokenV>) -> (Result<ExprV, ErrV>, Seq<TokenV>)
    decreases t.len(), 6 + 2 * level,
{
    if level == 0 {
        p_unary(t)
    } else {
        p_level((level - 1) as nat, t)
    }
}

/// Left-associative binary operators of a level after a first operand.
pub open spec fn level_loop(level: nat, e: ExprV, t: Seq<TokenV>) -> (Result<ExprV, ErrV>, Seq<TokenV>)
    decreases t.len(), 6 + 2 * level,
{
    if t.len() > 0 && level_op(level, t[0].kind) {
        let (r, rest) = p_operand(level, t.drop_first());
        match r {
            Err(x) => (Err(x), rest),
            Ok(right) => if rest.len() < t.len() {
                level_loop(level, bin(e, t[0], right), rest)
            } else {
                (Err(ErrV::Panic), rest)
            },
        }
    } else {
        (Ok(e), t)
    }
}

/// `factor → unary ( ( "/" | "*" ) unary )*`, and likewise `term`,
/// `comparison` and `equality` one above the other.
pub open spec fn p_level(level: nat, t: Seq<TokenV>) -> (Result<ExprV, ErrV>, Seq<TokenV>)
    decreases t.len(), 7 + 2 * level,
{
    let (r, rest) = p_operand(level, t);
    match r {
        Err(e) => (Err(e), rest),
        Ok(e) => if rest.len() <= t.len() {
            level_loop(level, e, rest)
        } else {
            (Err(ErrV::Panic), rest)
        },
    }
}

/// `logic_and → equality ( "and" equality )*`
pub open spec fn p_and(t: Seq<TokenV>) -> (Result<ExprV, ErrV>, Seq<TokenV>)
    decreases t.len(), 15nat,
{
    let (r, rest) = p_level(3, t);
    match r {
        Err(e) => (Err(e), rest),
        Ok(e) => if rest.len() <= t.len() {
            and_loop(e, rest)
        } else {
            (Err(ErrV::Panic), rest)
        },
    }
}

/// The `and` operators after a first operand.
pub open spec fn and_loop(e: ExprV, t: Seq<TokenV>) -> (Result<ExprV, ErrV>, Seq<TokenV>)
    decreases t.len(), 14nat,
{
    if at(t, TokenKind::And) {
        let (r, rest) = p_level(3, t.drop_first());
        match r {
            Err(x) => (Err(x), rest),
            Ok(right) => if rest.len() < t.len() {
                and_loop(ExprV::Logical(Box::new(e), t[0], Box::new(right)), rest)
            } else {
                (Err(ErrV::Panic), rest)
            },
        }
    } else {
        (Ok(e), t)
    }
}

/// `or → and ( "or" and )*`
pub open spec fn p_or(t: Seq<TokenV>) -> (Result<ExprV, ErrV>, Seq<TokenV>)
    decreases t.len(), 17nat,
{
    let (r, rest) = p_and(t);
    match r {
        Err(e) => (Err(e), rest),
        Ok(e) => if rest.len() <= t.len() {
            or_loop(e, rest)
        } else {
            (Err(ErrV::Panic), rest)
        },
    }
}

/// The `or` operators after a first operand.
pub open spec fn or_loop(e: ExprV, t: Seq<TokenV>) -> (Result<ExprV, ErrV>, Seq<TokenV>)
    decreases t.len(), 16nat,
{
    if at(t, TokenKind::Or) {
        let (r, rest) = p_and(t.drop_first());
        match r {
            Err(x) => (Err(x), rest),
            Ok(right) => if rest.len() < t.len() {
                or_loop(ExprV::Logical(Box::new(e), t[0], Box::new(right)), rest)
            } else {
                (Err(ErrV::Panic), rest)
            },
        }
    } else {
        (Ok(e), t)
    }
}

/// `assignment → ( call "." )? IDENT "=" assignment | or`: the target is
/// read as an expression first; a variable becomes an assignment, a property
/// read a property write, anything else is an error.
pub open spec fn p_assignment(t: Seq<TokenV>) -> (Result<ExprV, ErrV>, Seq<TokenV>)
    decreases t.len(), 19nat,
{
    let (r, rest) = p_or(t);
    match r {
        Err(e) => (Err(e), rest),
        Ok(e) => if !at(rest, TokenKind::Equal) {
            (Ok(e), rest)
        } else if rest.len() <= t.len() {
            let equals = rest[0];
            let (vr, rest2) = p_assignment(rest.drop_first());
            match vr {
                Err(x) => (Err(x), rest2),
                Ok(value) => match e {
                    ExprV::Variable(name) => (Ok(ExprV::Assign(name, Box::new(value))), rest2),
                    ExprV::Get(object, name) => (
                        Ok(ExprV::SetProp(object, name, Box::new(value))),
                        rest2,
                    ),
                    _ => (Err(ErrV::Assign(equals)), rest2),
                },
            }
        } else {
            (Err(ErrV::Panic), rest)
        },
    }
}

/// `expression → assignment`
pub open spec fn p_expression(t: Seq<TokenV>) -> (Result<ExprV, ErrV>, Seq<TokenV>)
    decreases t.len(), 21nat,
{
    p_assignment(t)
}

/// An optional expression: an outcome of `Some` or the error.
pub open spec fn some_expr(p: (Result<ExprV, ErrV>, Seq<TokenV>)) -> (Result<Option<ExprV>, ErrV>, Seq<TokenV>) {
    match p.0 {
        Ok(x) => (Ok(Some(x)), p.1),
        Err(e) => (Err(e), p.1),
    }
}

/// An optional statement: an outcome of `Some` or the error.
pub open spec fn some_stmt(p: (Result<StmtV, ErrV>, Seq<TokenV>)) -> (Result<Option<StmtV>, ErrV>, Seq<TokenV>) {
    match p.0 {
        Ok(x) => (Ok(Some(x)), p.1),
        Err(e) => (Err(e), p.1),
    }
}

/// `varDecl → "var" IDENT ( "=" expression )? ";"`; without `=` the value is
/// `nil`.
#[verifier::opaque]
pub open spec fn p_var_decl(t: Seq<TokenV>) -> (Result<StmtV, ErrV>, Seq<TokenV>) {
    if !at(t, TokenKind::Var) {
        (Err(ErrV::Panic), t)
    } else {
        let t1 = t.drop_first();
        if t1.len() == 0 {
            (Err(ErrV::Eof("Expect a ident after `var`"@)), t1)
        } else if t1[0].kind != TokenKind::Identifier {
            (Err(ErrV::VarDeclaration(t1[0])), t1.drop_first())
        } else {
            let ident = t1[0];
            let t2 = t1.drop_first();
            if t2.len() == 0 {
                (
                    Err(ErrV::Eof("Expect `=` or literal value after "@ + inner_text(ident.inner))),
                    t2,
                )
            } else {
                let (init, t3) = if t2[0].kind == TokenKind::Equal {
                    p_expression(t2.drop_first())
                } else {
                    (Ok(lit(LitV::Nil)), t2)
                };
                match init {
                    Err(e) => (Err(e), t3),
                    Ok(v) => if t3.len() == 0 {
                        (Err(ErrV::Eof("Expect `;` at end"@)), t3)
                    } else if t3[0].kind == TokenKind::Semicolon {
                        (Ok(StmtV::Var(ident, Some(v))), t3.drop_first())
                    } else {
                        (Err(ErrV::Semicolon(t3[0])), t3.drop_first())
                    },
                }
            }
        }
    }
}

/// `exprStmt → expression ";"`
#[verifier::opaque]
pub open spec fn p_expr_stmt(t: Seq<TokenV>) -> (Result<StmtV, ErrV>, Seq<TokenV>) {
    let (r, rest) = p_expression(t);
    match r {
        Err(e) => (Err(e), rest),
        Ok(x) => if rest.len() == 0 {
            (Err(ErrV::ErrMessage("Not end of `}`"@)), rest)
        } else if rest[0].kind == TokenKind::Semicolon {
            (Ok(StmtV::Expression(x)), rest.drop_first())
        } else {
            (Err(ErrV::Semicolon(rest[0])), rest.drop_first())
        },
    }
}

/// `printStmt → "print" expression ";"`
#[verifier::opaque]
pub open spec fn p_print(t: Seq<TokenV>) -> (Result<StmtV, ErrV>, Seq<TokenV>) {
    if !at(t, TokenKind::Print) {
        (Err(ErrV::Panic), t)
    } else {
        let (r, rest) = p_expression(t.drop_first());
        match r {
            Err(e) => (Err(e), rest),
            Ok(x) => if rest.len() == 0 {
                (Err(ErrV::ErrMessage("Missing `;` at end"@)), rest)
            } else if rest[0].kind == TokenKind::Semicolon {
                (Ok(StmtV::Print(x)), rest.drop_first())
            } else {
                (Err(ErrV::PrintStmt(rest[0])), rest.drop_first())
            },
        }
    }
}

/// `returnStmt → "return" expression? ";"`
#[verifier::opaque]
pub open spec fn p_return(t: Seq<TokenV>) -> (Result<StmtV, ErrV>, Seq<TokenV>) {
    if !at(t, TokenKind::Return) {
        (Err(ErrV::Panic), t)
    } else {
        let keyword = t[0];
        let t1 = t.drop_first();
        let (v, t2) = if at(t1, TokenKind::Semicolon) {
            (Ok(None), t1)
        } else {
            some_expr(p_expression(t1))
        };
        match v {
            Err(e) => (Err(e), t2),
            Ok(value) => {
                let (c, t3) = consume(t2, TokenKind::Semicolon);
                match c {
                    Err(e) => (Err(e), t3),
                    Ok(_) => (Ok(StmtV::Return(keyword, value)), t3),
                }
            },
        }
    }
}

/// `breakStmt → "break" ";"`, only inside a loop.
#[verifier::opaque]
pub open spec fn p_break(t: Seq<TokenV>, d: nat) -> (Result<StmtV, ErrV>, Seq<TokenV>, nat) {
    if !at(t, TokenKind::Break) {
        (Err(ErrV::Panic), t, d)
    } else if d == 0 {
        (Err(ErrV::NotInLoop(t[0])), t.drop_first(), d)
    } else {
        let (c, t1) = consume(t.drop_first(), TokenKind::Semicolon);
        match c {
            Err(e) => (Err(e), t1, d),
            Ok(_) => (Ok(StmtV::Break(t[0])), t1, d),
        }
    }
}

/// The parameters of a function: identifiers separated by commas, at most
/// 255 of them.
pub open spec fn p_params(name: TokenV, t: Seq<TokenV>, acc: Seq<TokenV>) -> (Result<Seq<TokenV>, ErrV>, Seq<TokenV>)
    decreases t.len(),
{
    if acc.len() >= 255 {
        (Err(ErrV::TooManyArgs(name)), t)
    } else if t.len() == 0 {
        (Err(ErrV::Eof("Expect parameters"@)), t)
    } else if t[0].kind != TokenKind::Identifier {
        (Err(ErrV::Parameters(t[0])), t.drop_first())
    } else {
        let t1 = t.drop_first();
        if at(t1, TokenKind::Comma) {
            p_params(name, t1.drop_first(), acc.push(t[0]))
        } else {
            (Ok(acc.push(t[0])), t1)
        }
    }
}

/// Whether a statement can start with a token of kind `k`: where recovery
/// after an error stops.
pub open spec fn starts_statement(k: TokenKind) -> bool {
    k == TokenKind::Class || k == TokenKind::Fun || k == TokenKind::Var || k == TokenKind::For
        || k == TokenKind::If || k == TokenKind::While || k == TokenKind::Print || k
        == TokenKind::Return
}

/// Skipping tokens up to the start of the next statement.
pub open spec fn sync_loop(t: Seq<TokenV>) -> Seq<TokenV>
    decreases t.len(),
{
    if t.len() == 0 || starts_statement(t[0].kind) {
        t
    } else {
        sync_loop(t.drop_first())
    }
}

/// Recovery after an error: one token is dropped, then tokens up to the start
/// of the next statement.
pub open spec fn synchronize(t: Seq<TokenV>) -> Seq<TokenV> {
    if t.len() == 0 {
        t
    } else {
        sync_loop(t.drop_first())
    }
}

/// The statement that `for (init cond; inc) body` stands for:
/// `{ init while (cond) { body inc; } }`, with `true` for a missing condition
/// and without the parts that are missing.
pub open spec fn for_desugar(
    init: Option<StmtV>,
    cond: Option<ExprV>,
    inc: Option<ExprV>,
    body: StmtV,
) -> StmtV {
    let b1 = match inc {
        Some(i) => StmtV::Block(seq![body, StmtV::Expression(i)]),
        None => body,
    };
    let c = match cond {
        Some(c) => c,
        None => lit(LitV::Bool(true)),
    };
    let b2 = StmtV::While(c, Box::new(b1));
    match init {
        Some(s) => StmtV::Block(seq![s, b2]),
        None => b2,
    }
}

/// `declaration → classDecl | funDecl | varDecl | statement`; an error in a
/// statement is reported as its message, after recovery.
pub open spec fn p_declaration(t: Seq<TokenV>, d: nat) -> (Result<StmtV, ErrV>, Seq<TokenV>, nat)
    decreases t.len(), 40nat,
{
    if at(t, TokenKind::Class) {
        p_class(t, d)
    } else if at(t, TokenKind::Fun) {
        let (r, rest, d2) = p_function(t, d, FunctionKind::Function);
        match r {
            Ok(f) => (Ok(StmtV::Function(f)), rest, d2),
            Err(e) => (Err(e), rest, d2),
        }
    } else if at(t, TokenKind::Var) {
        let (r, rest) = p_var_decl(t);
        (r, rest, d)
    } else {
        let (r, rest, d2) = p_statement(t, d);
        match r {
            Ok(s) => (Ok(s), rest, d2),
            Err(e) => if e is Panic {
                (Err(e), rest, d2)
            } else {
                (Err(ErrV::DeclarationStmt(err_text(e))), synchronize(rest), d2)
            },
        }
    }
}

/// `statement → forStmt | ifStmt | printStmt | returnStmt | whileStmt | block
/// | breakStmt | exprStmt`
pub open spec fn p_statement(t: Seq<TokenV>, d: nat) -> (Result<StmtV, ErrV>, Seq<TokenV>, nat)
    decreases t.len(), 39nat,
{
    if t.len() == 0 {
        (Err(ErrV::Eof("Expect a statement."@)), t, d)
    } else {
        match t[0].kind {
            TokenKind::For => p_for(t, d),
            TokenKind::If => p_if(t, d),
            TokenKind::Print => {
                let (r, rest) = p_print(t);
                (r, rest, d)
            },
            TokenKind::Return => {
                let (r, rest) = p_return(t);
                (r, rest, d)
            },
            TokenKind::While => p_while(t, d),
            TokenKind::LeftBrace => {
                let (r, rest, d2) = p_block(t, d);
                match r {
                    Ok(b) => (Ok(StmtV::Block(b)), rest, d2),
                    Err(e) => (Err(e), rest, d2),
                }
            },
            TokenKind::Break => p_break(t, d),
            _ => {
                let (r, rest) = p_expr_stmt(t);
                (r, rest, d)
            },
        }
    }
}

/// `whileStmt → "while" "(" expression ")" statement`; the body is parsed one
/// loop deeper, and the depth goes back only when the body fails.
pub open spec fn p_while(t: Seq<TokenV>, d: nat) -> (Result<StmtV, ErrV>, Seq<TokenV>, nat)
    decreases t.len(), 38nat,
{
    if !at(t, TokenKind::While) {
        (Err(ErrV::Panic), t, d)
    } else {
        let (c1, t2) = consume(t.drop_first(), TokenKind::LeftParen);
        match c1 {
            Err(e) => (Err(e), t2, d),
            Ok(_) => {
                let (cr, t3) = p_expression(t2);
                match cr {
                    Err(e) => (Err(e), t3, d),
                    Ok(cond) => {
                        let (c2, t4) = consume(t3, TokenKind::RightParen);
                        match c2 {
                            Err(e) => (Err(e), t4, d),
                            Ok(_) => if t4.len() < t.len() {
                                let (br, t5, d2) = p_statement(t4, d + 1);
                                match br {
                                    Ok(body) => (Ok(StmtV::While(cond, Box::new(body))), t5, d2),
                                    Err(e) => (Err(e), t5, (d2 - 1) as nat),
                                }
                            } else {
                                (Err(ErrV::Panic), t4, d)
                            },
                        }
                    },
                }
            },
        }
    }
}

/// `ifStmt → "if" "(" expression ")" statement ( "else" statement )?`
pub open spec fn p_if(t: Seq<TokenV>, d: nat) -> (Result<StmtV, ErrV>, Seq<TokenV>, nat)
    decreases t.len(), 38nat,
{
    if !at(t, TokenKind::If) {
        (Err(ErrV::Panic), t, d)
    } else {
        let (c1, t2) = consume(t.drop_first(), TokenKind::LeftParen);
        match c1 {
            Err(e) => (Err(e), t2, d),
            Ok(_) => {
                let (cr, t3) = p_expression(t2);
                match cr {
                    Err(e) => (Err(e), t3, d),
                    Ok(cond) => {
                        let (c2, t4) = consume(t3, TokenKind::RightParen);
                        match c2 {
                            Err(e) => (Err(e), t4, d),
                            Ok(_) => if t4.len() < t.len() {
                                let (tr, t5, d2) = p_statement(t4, d);
                                match tr {
                                    Err(e) => (Err(e), t5, d2),
                                    Ok(th) => if !at(t5, TokenKind::Else) {
                                        (Ok(StmtV::If(cond, Box::new(th), None)), t5, d2)
                                    } else if t5.len() <= t4.len() {
                                        let (er, t6, d3) = p_statement(t5.drop_first(), d2);
                                        match er {
                                            Err(e) => (Err(e), t6, d3),
                                            Ok(el) => (
                                                Ok(StmtV::If(cond, Box::new(th), Some(Box::new(el)))),
                                                t6,
                                                d3,
                                            ),
                                        }
                                    } else {
                                        (Err(ErrV::Panic), t5, d2)
                                    },
                                }
                            } else {
                                (Err(ErrV::Panic), t4, d)
                            },
                        }
                    },
                }
            },
        }
    }
}

/// The initializer of a `for` loop: a variable declaration, an expression
/// statement, or a lone `;`.
pub open spec fn for_init(t: Seq<TokenV>) -> (Result<Option<StmtV>, ErrV>, Seq<TokenV>) {
    if t.len() == 0 {
        (Err(ErrV::Eof("Expect a varDecl or expr or `;`"@)), t)
    } else if t[0].kind == TokenKind::Semicolon {
        (Ok(None), t.drop_first())
    } else if t[0].kind == TokenKind::Var {
        some_stmt(p_var_decl(t))
    } else {
        some_stmt(p_expr_stmt(t))
    }
}

/// The condition of a `for` loop and its `;`.
pub open spec fn for_cond(t: Seq<TokenV>) -> (Result<Option<ExprV>, ErrV>, Seq<TokenV>) {
    if t.len() == 0 {
        (Err(ErrV::Eof("Expect a condition expr"@)), t)
    } else {
        let (cr, t1) = if t[0].kind == TokenKind::Semicolon {
            (Ok(None), t)
        } else {
            some_expr(p_expression(t))
        };
        match cr {
            Err(e) => (Err(e), t1),
            Ok(c) => {
                let (s, t2) = consume(t1, TokenKind::Semicolon);
                match s {
                    Err(e) => (Err(e), t2),
                    Ok(_) => (Ok(c), t2),
                }
            },
        }
    }
}

/// The increment of a `for` loop and its `)`.
pub open spec fn for_inc(t: Seq<TokenV>) -> (Result<Option<ExprV>, ErrV>, Seq<TokenV>) {
    if t.len() == 0 {
        (Err(ErrV::Eof("Expect a increment expr"@)), t)
    } else {
        let (ir, t1) = if t[0].kind == TokenKind::RightParen {
            (Ok(None), t)
        } else {
            some_expr(p_expression(t))
        };
        match ir {
            Err(e) => (Err(e), t1),
            Ok(i) => {
                let (s, t2) = consume(t1, TokenKind::RightParen);
                match s {
                    Err(e) => (Err(e), t2),
                    Ok(_) => (Ok(i), t2),
                }
            },
        }
    }
}

/// The parenthesized header of a `for` loop: initializer, condition and
/// increment.
pub open spec fn for_header(t: Seq<TokenV>) -> (Result<(Option<StmtV>, Option<ExprV>, Option<ExprV>), ErrV>, Seq<TokenV>) {
    let (c, t1) = consume(t, TokenKind::LeftParen);
    match c {
        Err(e) => (Err(e), t1),
        Ok(_) => {
            let (ir, t2) = for_init(t1);
            match ir {
                Err(e) => (Err(e), t2),
                Ok(init) => {
                    let (cr, t3) = for_cond(t2);
                    match cr {
                        Err(e) => (Err(e), t3),
                        Ok(cond) => {
                            let (incr, t4) = for_inc(t3);
                            match incr {
                                Err(e) => (Err(e), t4),
                                Ok(inc) => (Ok((init, cond, inc)), t4),
                            }
                        },
                    }
                },
            }
        },
    }
}

/// `forStmt → "for" "(" ( varDecl | exprStmt | ";" ) expression? ";"
/// expression? ")" statement`, read as the `while` loop it stands for; the
/// body is parsed one loop deeper.
pub open spec fn p_for(t: Seq<TokenV>, d: nat) -> (Result<StmtV, ErrV>, Seq<TokenV>, nat)
    decreases t.len(), 38nat,
{
    if !at(t, TokenKind::For) {
        (Err(ErrV::Panic), t, d)
    } else {
        let (h, t1) = for_header(t.drop_first());
        match h {
            Err(e) => (Err(e), t1, d),
            Ok((init, cond, inc)) => if t1.len() < t.len() {
                let (br, t2, d2) = p_statement(t1, d + 1);
                match br {
                    Err(e) => (Err(e), t2, (d2 - 1) as nat),
                    Ok(b) => (Ok(for_desugar(init, cond, inc, b)), t2, d2),
                }
            } else {
                (Err(ErrV::Panic), t1, d)
            },
        }
    }
}

/// `block → "{" declaration* "}"`; the next token must be the `{`.
pub open spec fn p_block(t: Seq<TokenV>, d: nat) -> (Result<Seq<StmtV>, ErrV>, Seq<TokenV>, nat)
    decreases t.len(), 37nat,
{
    if !at(t, TokenKind::LeftBrace) {
        (Err(ErrV::Panic), t, d)
    } else {
        block_loop(t.drop_first(), d, Seq::empty())
    }
}

/// The declarations of a block after `acc`, up to its `}`.
pub open spec fn block_loop(t: Seq<TokenV>, d: nat, acc: Seq<StmtV>) -> (Result<Seq<StmtV>, ErrV>, Seq<TokenV>, nat)
    decreases t.len(), 41nat,
{
    if t.len() > 0 && t[0].kind != TokenKind::RightBrace {
        let (r, rest, d2) = p_declaration(t, d);
        match r {
            Err(e) => (Err(e), rest, d2),
            Ok(s) => if rest.len() < t.len() {
                block_loop(rest, d2, acc.push(s))
            } else {
                (Err(ErrV::Panic), rest, d2)
            },
        }
    } else if t.len() == 0 {
        (Err(ErrV::ErrMessage("Not end of `}`"@)), t, d)
    } else {
        (Ok(acc), t.drop_first(), d)
    }
}

/// `function → "fun" IDENT "(" parameters? ")" block`; the next token must
/// be `fun`.
pub open spec fn p_function(t: Seq<TokenV>, d: nat, kind: FunctionKind) -> (Result<FunV, ErrV>, Seq<TokenV>, nat)
    decreases t.len(), 34nat,
{
    if !at(t, TokenKind::Fun) {
        (Err(ErrV::Panic), t, d)
    } else {
        let t1 = t.drop_first();
        if t1.len() == 0 {
            (Err(ErrV::Eof("Expect `"@ + kind_text(kind) + "` name"@)), t1, d)
        } else if t1[0].kind != TokenKind::Identifier {
            (Err(ErrV::CallDecl(t1[0], kind)), t1.drop_first(), d)
        } else {
            let name = t1[0];
            let (c1, t2) = consume(t1.drop_first(), TokenKind::LeftParen);
            match c1 {
                Err(e) => (Err(e), t2, d),
                Ok(_) => {
                    let (pr, t3) = if t2.len() > 0 && t2[0].kind != TokenKind::RightParen {
                        p_params(name, t2, Seq::empty())
                    } else {
                        (Ok(Seq::empty()), t2)
                    };
                    match pr {
                        Err(e) => (Err(e), t3, d),
                        Ok(params) => {
                            let (c2, t4) = consume(t3, TokenKind::RightParen);
                            match c2 {
                                Err(e) => (Err(e), t4, d),
                                Ok(_) => if t4.len() < t.len() {
                                    let (br, t5, d2) = p_block(t4, d);
                                    match br {
                                        Err(e) => (Err(e), t5, d2),
                                        Ok(body) => (Ok(FunV { name, params, body }), t5, d2),
                                    }
                                } else {
                                    (Err(ErrV::Panic), t4, d)
                                },
                            }
                        },
                    }
                },
            }
        }
    }
}

/// `classDecl → "class" IDENT ( "<" IDENT )? "{" function* "}"`
pub open spec fn p_class(t: Seq<TokenV>, d: nat) -> (Result<StmtV, ErrV>, Seq<TokenV>, nat)
    decreases t.len(), 35nat,
{
    if !at(t, TokenKind::Class) {
        (Err(ErrV::Panic), t, d)
    } else {
        let t1 = t.drop_first();
        if t1.len() == 0 {
            (Err(ErrV::Eof("Expect class name"@)), t1, d)
        } else if t1[0].kind != TokenKind::Identifier {
            (Err(ErrV::Class(t1[0])), t1.drop_first(), d)
        } else {
            let name = t1[0];
            let t2 = t1.drop_first();
            let (sr, t3) = if !at(t2, TokenKind::Less) {
                (Ok(None), t2)
            } else {
                let t2b = t2.drop_first();
                if t2b.len() == 0 {
                    (Err(ErrV::Eof("Expect superclass name"@)), t2b)
                } else if t2b[0].kind != TokenKind::Identifier {
                    (Err(ErrV::Superclass(t2b[0])), t2b.drop_first())
                } else {
                    (Ok(Some(t2b[0])), t2b.drop_first())
                }
            };
            match sr {
                Err(e) => (Err(e), t3, d),
                Ok(sup) => {
                    let (c1, t4) = consume(t3, TokenKind::LeftBrace);
                    match c1 {
                        Err(e) => (Err(e), t4, d),
                        Ok(_) => if t4.len() < t.len() {
                            let (mr, t5, d2) = class_methods(t4, d, Seq::empty());
                            match mr {
                                Err(e) => (Err(e), t5, d2),
                                Ok(methods) => {
                                    let (c2, t6) = consume(t5, TokenKind::RightBrace);
                                    match c2 {
                                        Err(e) => (Err(e), t6, d2),
                                        Ok(_) => (Ok(StmtV::Class(name, sup, methods)), t6, d2),
                                    }
                                },
                            }
                        } else {
                            (Err(ErrV::Panic), t4, d)
                        },
                    }
                },
            }
        }
    }
}

/// The methods of a class after `acc`, up to its `}`; each must start with
/// `fun`.
pub open spec fn class_methods(t: Seq<TokenV>, d: nat, acc: Seq<FunV>) -> (Result<Seq<FunV>, ErrV>, Seq<TokenV>, nat)
    decreases t.len(), 36nat,
{
    if t.len() > 0 && t[0].kind != TokenKind::RightBrace {
        let (r, rest, d2) = p_function(t, d, FunctionKind::Method);
        match r {
            Err(e) => (Err(e), rest, d2),
            Ok(f) => if rest.len() < t.len() {
                class_methods(rest, d2, acc.push(f))
            } else {
                (Err(ErrV::Panic), rest, d2)
            },
        }
    } else {
        (Ok(acc), t, d)
    }
}

/// `program → declaration*`: the statements that parsed, in order, and
/// whether any declaration failed; `None` where parsing does not go on.
pub open spec fn parse_all(t: Seq<TokenV>, d: nat) -> Option<(Seq<StmtV>, bool)>
    decreases t.len(),
{
    if t.len() == 0 {
        Some((Seq::empty(), false))
    } else {
        let (r, rest, d2) = p_declaration(t, d);
        if panics(r) || rest.len() >= t.len() {
            None
        } else {
            match parse_all(rest, d2) {
                None => None,
                Some((ss, had)) => match r {
                    Ok(s) => Some((seq![s] + ss, had)),
                    Err(_) => Some((ss, true)),
                },
            }
        }
    }
}

/// What a program parses to when `acc` and `had` were found before the
/// tokens whose outcome is `p`.
pub open spec fn after(acc: Seq<StmtV>, had: bool, p: Option<(Seq<StmtV>, bool)>) -> Option<(Seq<StmtV>, bool)> {
    match p {
        None => None,
        Some((ss, h)) => Some((acc + ss, had || h)),
    }
}

// ---------------------------------------------------------------------------
// The parser.
// ---------------------------------------------------------------------------

/// The outcome of parsing an expression, as mathematical values.
pub open spec fn expr_res(r: Result<Exprs, ParserError>) -> Result<ExprV, ErrV> {
    match r {
        Ok(e) => Ok(expr_view(e)),
        Err(e) => Err(e@),
    }
}

/// The outcome of parsing a statement, as mathematical values.
pub open spec fn stmt_res(r: Result<Stmts, ParserError>) -> Result<StmtV, ErrV> {
    match r {
        Ok(s) => Ok(stmt_view(s)),
        Err(e) => Err(e@),
    }
}

/// The outcome of parsing a function, as mathematical values.
pub open spec fn fun_res(r: Result<Function, ParserError>) -> Result<FunV, ErrV> {
    match r {
        Ok(f) => Ok(fun_view(f)),
        Err(e) => Err(e@),
    }
}

/// The outcome of parsing a block, as mathematical values.
pub open spec fn block_res(r: Result<Vec<Stmts>, ParserError>) -> Result<Seq<StmtV>, ErrV> {
    match r {
        Ok(v) => Ok(all_stmts_view(v@)),
        Err(e) => Err(e@),
    }
}

/// The outcome of taking one token, as mathematical values.
pub open spec fn token_res(r: Result<Token, ParserError>) -> Result<TokenV, ErrV> {
    match r {
        Ok(t) => Ok(t@),
        Err(e) => Err(e@),
    }
}

fn eof_message(k: TokenKind) -> (r: String)
    ensures
        r@ == eof_text(k),
{
    match k {
        TokenKind::LeftParen => String::from_str("Expect `(`"),
        TokenKind::LeftBrace => String::from_str("Expect `{`"),
        TokenKind::RightParen => String::from_str("Expect `)`"),
        TokenKind::RightBrace => String::from_str("Expect `}`"),
        _ => String::from_str("Expect `;`"),
    }
}

fn wrong_token_error(k: TokenKind, tk: Token) -> (r: ParserError)
    ensures
        r@ == wrong_token(k, tk@),
{
    match k {
        TokenKind::LeftBrace => ParserError::LeftBrace(tk),
        TokenKind::RightParen => ParserError::RightParen(tk),
        TokenKind::RightBrace => ParserError::RightBrace(tk),
        _ => ParserError::LeftParen(tk),
    }
}

/// The statements `a` and `b`, in this order.
fn two_stmts(a: Stmts, b: Stmts) -> (v: Vec<Stmts>)
    ensures
        all_stmts_view(v@) == seq![stmt_view(a), stmt_view(b)],
{
    let mut v: Vec<Stmts> = Vec::new();
    proof {
        assert(all_stmts_view(v@) =~= Seq::empty());
        lemma_stmts_view_push(v@, a);
    }
    v.push(a);
    proof {
        lemma_stmts_view_push(v@, b);
    }
    v.push(b);
    proof {
        assert(all_stmts_view(v@) =~= seq![stmt_view(a), stmt_view(b)]);
    }
    v
}

/// The `while` loop that a `for` loop stands for.
fn desugar_for(
    initializer: Option<Stmts>,
    condition: Option<Exprs>,
    increment: Option<Exprs>,
    body: Stmts,
) -> (r: Stmts)
    ensures
        stmt_view(r) == for_desugar(
            match initializer {
                Some(s) => Some(stmt_view(s)),
                None => None,
            },
            opt_expr_view(condition),
            opt_expr_view(increment),
            stmt_view(body),
        ),
{
    let ghost bv = stmt_view(body);
    let b1 = match increment {
        Some(increment) => {
            let ghost iv = expr_view(increment);
            let v = two_stmts(body, Stmts::Expression(Expression::new(increment)));
            let b = Stmts::Block(Block::new(v));
            assert(stmt_view(b) == StmtV::Block(seq![bv, StmtV::Expression(iv)]));
            b
        },
        None => body,
    };
    let cond = match condition {
        Some(c) => c,
        None => Exprs::Literal(Literal::new(LiteralType::Bool(true))),
    };
    let b2 = Stmts::While(While::new(cond, Box::new(b1)));
    assert(stmt_view(b2) == StmtV::While(expr_view(cond), Box::new(stmt_view(b1))));
    match initializer {
        Some(initializer) => {
            let ghost sv = stmt_view(initializer);
            let v = two_stmts(initializer, b2);
            let b = Stmts::Block(Block::new(v));
            assert(stmt_view(b) == StmtV::Block(seq![sv, stmt_view(b2)]));
            b
        },
        None => b2,
    }
}

/// A recursive-descent parser over a sequence of tokens.
#[derive(Debug)]
pub struct Parser {
    /// The tokens not read yet, the next one last.
    tokens: Vec<Token>,
    /// How many loops enclose the statement being read.
    loop_depth: usize,
    /// Whether the input turned out to be one the parser cannot read (a
    /// method without `fun`, a function body without `{`).
    aborted: bool,
}

impl Parser {
    /// The tokens not read yet, in order.
    pub closed spec fn rest(&self) -> Seq<TokenV> {
        Seq::new(self.tokens@.len(), |i: int| self.tokens@[self.tokens@.len() - 1 - i]@)
    }

    /// How many loops enclose the statement being read.
    pub closed spec fn depth(&self) -> nat {
        self.loop_depth as nat
    }

    /// The loop depth can still grow by one for each token left.
    pub closed spec fn inv(&self) -> bool {
        self.loop_depth + self.tokens@.len() <= usize::MAX
    }

    /// Whether the input turned out to be one the parser cannot read.
    pub closed spec fn aborted(&self) -> bool {
        self.aborted
    }

    /// The parser can go on.
    pub closed spec fn wf(&self) -> bool {
        self.inv() && !self.aborted
    }

    /// A parser over `tokens`, outside any loop.
    pub fn new(tokens: Vec<Token>) -> (r: Self)
        ensures
            r.wf(),
            r.rest() == token_views(tokens@),
            r.depth() == 0,
    {
        let ghost all = tokens@;
        let mut src = tokens;
        let mut stack: Vec<Token> = Vec::new();
        while src.len() > 0
            invariant
                src@.len() + stack@.len() == all.len(),
                src@ == all.take(src@.len() as int),
                forall|i: int| 0 <= i < stack@.len() ==> #[trigger] stack@[i] == all[all.len() - 1 - i],
            decreases src@.len(),
        {
            let tk = src.pop().unwrap();
            stack.push(tk);
        }
        let n = stack.len();
        let r = Parser { tokens: stack, loop_depth: 0, aborted: false };
        assert(r.rest() =~= token_views(tokens@));
        r
    }

    /// The kind of the next token.
    fn peek_kind(&self) -> (r: Option<TokenKind>)
        ensures
            r == (if self.rest().len() > 0 { Some(self.rest()[0].kind) } else { None }),
    {
        let n = self.tokens.len();
        if n == 0 {
            None
        } else {
            Some(self.tokens[n - 1].kind())
        }
    }

    /// Whether the next token is of kind `k`.
    fn check(&self, k: TokenKind) -> (b: bool)
        ensures
            b == at(self.rest(), k),
    {
        match self.peek_kind() {
            Some(x) => x == k,
            None => false,
        }
    }

    /// Takes the next token.
    fn next(&mut self) -> (r: Option<Token>)
        requires
            old(self).wf(),
        ensures
            final(self).wf(),
            final(self).depth() == old(self).depth(),
            match r {
                None => old(self).rest().len() == 0 && final(self).rest() == old(self).rest(),
                Some(tk) => old(self).rest().len() > 0 && tk@ == old(self).rest()[0]
                    && final(self).rest() == old(self).rest().drop_first(),
            },
    {
        let r = self.tokens.pop();
        proof {
            if r is Some {
                assert(self.rest() =~= old(self).rest().drop_first());
            }
        }
        r
    }

    /// Takes the next token, which must be of kind `k`.
    fn consume(&mut self, k: TokenKind) -> (r: Result<Token, ParserError>)
        requires
            old(self).wf(),
        ensures
            final(self).wf(),
            final(self).depth() == old(self).depth(),
            (token_res(r), final(self).rest()) == consume(old(self).rest(), k),
            final(self).rest().len() <= old(self).rest().len(),
            r is Ok ==> final(self).rest().len() < old(self).rest().len(),
    {
        match self.next() {
            None => Err(ParserError::Eof(eof_message(k))),
            Some(tk) => if tk.kind() == k {
                Ok(tk)
            } else {
                Err(wrong_token_error(k, tk))
            },
        }
    }

    fn expression(&mut self) -> (r: Result<Exprs, ParserError>)
        requires
            old(self).wf(),
        ensures
            final(self).wf(),
            final(self).depth() == old(self).depth(),
            (expr_res(r), final(self).rest()) == p_expression(old(self).rest()),
            final(self).rest().len() <= old(self).rest().len(),
            r is Ok ==> final(self).rest().len() < old(self).rest().len(),
            old(self).rest().len() > 0 ==> final(self).rest().len() < old(self).rest().len(),
        decreases old(self).rest().len(), 21nat,
    {
        self.assignment()
    }

    #[verifier::rlimit(50)]
    #[verifier::spinoff_prover]
    fn assignment(&mut self) -> (r: Result<Exprs, ParserError>)
        requires
            old(self).wf(),
        ensures
            final(self).wf(),
            final(self).depth() == old(self).depth(),
            (expr_res(r), final(self).rest()) == p_assignment(old(self).rest()),
            final(self).rest().len() <= old(self).rest().len(),
            r is Ok ==> final(self).rest().len() < old(self).rest().len(),
            old(self).rest().len() > 0 ==> final(self).rest().len() < old(self).rest().len(),
        decreases old(self).rest().len(), 19nat,
    {
        let expr = match self.or() {
            Ok(e) => e,
            Err(x) => return Err(x),
        };
        if !self.check(TokenKind::Equal) {
            return Ok(expr);
        }
        let equals = self.next().unwrap();
        let value = match self.assignment() {
            Ok(v) => v,
            Err(x) => return Err(x),
        };
        match expr {
            Exprs::Variable(v) => Ok(Exprs::Assign(Assign::new(v.into_name(), value))),
            Exprs::Get(get) => Ok(Exprs::SetProp(SetProp::new(*get.object, get.name, value))),
            _ => Err(ParserError::Assign(equals)),
        }
    }

    fn or(&mut self) -> (r: Result<Exprs, ParserError>)
        requires
            old(self).wf(),
        ensures
            final(self).wf(),
            final(self).depth() == old(self).depth(),
            (expr_res(r), final(self).rest()) == p_or(old(self).rest()),
            final(self).rest().len() <= old(self).rest().len(),
            r is Ok ==> final(self).rest().len() < old(self).rest().len(),
            old(self).rest().len() > 0 ==> final(self).rest().len() < old(self).rest().len(),
        decreases old(self).rest().len(), 17nat,
    {
        let ghost t0 = self.rest();
        let mut expr = match self.and() {
            Ok(e) => e,
            Err(x) => return Err(x),
        };
        while self.check(TokenKind::Or)
            invariant
                self.wf(),
                self.depth() == old(self).depth(),
                t0 == old(self).rest(),
                self.rest().len() < t0.len(),
                or_loop(expr_view(expr), self.rest()) == p_or(t0),
            decreases self.rest().len(),
        {
            let operator = self.next().unwrap();
            let right = match self.and() {
                Ok(e) => e,
                Err(x) => return Err(x),
            };
            expr = Exprs::Logical(Logical::new(expr, operator, right));
        }
        Ok(expr)
    }

    fn and(&mut self) -> (r: Result<Exprs, ParserError>)
        requires
            old(self).wf(),
        ensures
            final(self).wf(),
            final(self).depth() == old(self).depth(),
            (expr_res(r), final(self).rest()) == p_and(old(self).rest()),
            final(self).rest().len() <= old(self).rest().len(),
            r is Ok ==> final(self).rest().len() < old(self).rest().len(),
            old(self).rest().len() > 0 ==> final(self).rest().len() < old(self).rest().len(),
        decreases old(self).rest().len(), 15nat,
    {
        let ghost t0 = self.rest();
        let mut expr = match self.binary_level(3) {
            Ok(e) => e,
            Err(x) => return Err(x),
        };
        while self.check(TokenKind::And)
            invariant
                self.wf(),
                self.depth() == old(self).depth(),
                t0 == old(self).rest(),
                self.rest().len() < t0.len(),
                and_loop(expr_view(expr), self.rest()) == p_and(t0),
            decreases self.rest().len(),
        {
            let operator = self.next().unwrap();
            let right = match self.binary_level(3) {
                Ok(e) => e,
                Err(x) => return Err(x),
            };
            expr = Exprs::Logical(Logical::new(expr, operator, right));
        }
        Ok(expr)
    }

    /// Whether the next token is an operator of the level `level`.
    fn at_level_op(&self, level: u8) -> (b: bool)
        ensures
            b == (self.rest().len() > 0 && level_op(level as nat, self.rest()[0].kind)),
    {
        match self.peek_kind() {
            None => false,
            Some(k) => if level == 0 {
                k == TokenKind::Slash || k == TokenKind::Star
            } else if level == 1 {
                k == TokenKind::Minus || k == TokenKind::Plus
            } else if level == 2 {
                k == TokenKind::Greater || k == TokenKind::GreaterEqual || k == TokenKind::Less
                    || k == TokenKind::LessEqual
            } else {
                k == TokenKind::BangEqual || k == TokenKind::EqualEqual
            },
        }
    }

    /// The operand of a level.
    fn operand(&mut self, level: u8) -> (r: Result<Exprs, ParserError>)
        requires
            old(self).wf(),
            level <= 3,
        ensures
            final(self).wf(),
            final(self).depth() == old(self).depth(),
            (expr_res(r), final(self).rest()) == p_operand(level as nat, old(self).rest()),
            final(self).rest().len() <= old(self).rest().len(),
            r is Ok ==> final(self).rest().len() < old(self).rest().len(),
            old(self).rest().len() > 0 ==> final(self).rest().len() < old(self).rest().len(),
        decreases old(self).rest().len(), 6 + 2 * level,
    {
        if level == 0 {
            self.unary()
        } else {
            self.binary_level(level - 1)
        }
    }

    /// The binary operators of one level: 3 equality, 2 comparison, 1 term,
    /// 0 factor.
    fn binary_level(&mut self, level: u8) -> (r: Result<Exprs, ParserError>)
        requires
            old(self).wf(),
            level <= 3,
        ensures
            final(self).wf(),
            final(self).depth() == old(self).depth(),
            (expr_res(r), final(self).rest()) == p_level(level as nat, old(self).rest()),
            final(self).rest().len() <= old(self).rest().len(),
            r is Ok ==> final(self).rest().len() < old(self).rest().len(),
            old(self).rest().len() > 0 ==> final(self).rest().len() < old(self).rest().len(),
        decreases old(self).rest().len(), 7 + 2 * level,
    {
        let ghost t0 = self.rest();
        let mut expr = match self.operand(level) {
            Ok(e) => e,
            Err(x) => return Err(x),
        };
        while self.at_level_op(level)
            invariant
                self.wf(),
                level <= 3,
                self.depth() == old(self).depth(),
                t0 == old(self).rest(),
                self.rest().len() < t0.len(),
                level_loop(level as nat, expr_view(expr), self.rest()) == p_level(level as nat, t0),
            decreases self.rest().len(),
        {
            let operator = self.next().unwrap();
            let right = match self.operand(level) {
                Ok(e) => e,
                Err(x) => return Err(x),
            };
            expr = Exprs::Binary(Binary::new(expr, operator, right));
        }
        Ok(expr)
    }

    fn unary(&mut self) -> (r: Result<Exprs, ParserError>)
        requires
            old(self).wf(),
        ensures
            final(self).wf(),
            final(self).depth() == old(self).depth(),
            (expr_res(r), final(self).rest()) == p_unary(old(self).rest()),
            final(self).rest().len() <= old(self).rest().len(),
            r is Ok ==> final(self).rest().len() < old(self).rest().len(),
            old(self).rest().len() > 0 ==> final(self).rest().len() < old(self).rest().len(),
        decreases old(self).rest().len(), 5nat,
    {
        if self.check(TokenKind::Bang) || self.check(TokenKind::Minus) {
            let operator = self.next().unwrap();
            let right = match self.unary() {
                Ok(e) => e,
                Err(x) => return Err(x),
            };
            return Ok(Exprs::Unary(Unary::new(operator, right)));
        }
        self.call()
    }

    fn call(&mut self) -> (r: Result<Exprs, ParserError>)
        requires
            old(self).wf(),
        ensures
            final(self).wf(),
            final(self).depth() == old(self).depth(),
            (expr_res(r), final(self).rest()) == p_call(old(self).rest()),
            final(self).rest().len() <= old(self).rest().len(),
            r is Ok ==> final(self).rest().len() < old(self).rest().len(),
            old(self).rest().len() > 0 ==> final(self).rest().len() < old(self).rest().len(),
        decreases old(self).rest().len(), 3nat,
    {
        let ghost t0 = self.rest();
        let mut expr = match self.primary() {
            Ok(e) => e,
            Err(x) => return Err(x),
        };
        while self.check(TokenKind::LeftParen) || self.check(TokenKind::Dot)
            invariant
                self.wf(),
                self.depth() == old(self).depth(),
                t0 == old(self).rest(),
                self.rest().len() < t0.len(),
                call_loop(expr_view(expr), self.rest()) == p_call(t0),
            decreases self.rest().len(),
        {
            if self.check(TokenKind::LeftParen) {
                expr = match self.finish_call(expr) {
                    Ok(e) => e,
                    Err(x) => return Err(x),
                };
            } else {
                self.next();
                let name = match self.consume(TokenKind::Identifier) {
                    Ok(n) => n,
                    Err(x) => return Err(x),
                };
                expr = Exprs::Get(Get::new(expr, name));
            }
        }
        Ok(expr)
    }

    /// The arguments and `)` of a call; the next token is its `(`.
    #[verifier::rlimit(50)]
    #[verifier::spinoff_prover]
    fn finish_call(&mut self, callee: Exprs) -> (r: Result<Exprs, ParserError>)
        requires
            old(self).wf(),
            at(old(self).rest(), TokenKind::LeftParen),
        ensures
            final(self).wf(),
            final(self).depth() == old(self).depth(),
            (expr_res(r), final(self).rest()) == p_finish_call(expr_view(callee), old(self).rest()),
            final(self).rest().len() < old(self).rest().len(),
        decreases old(self).rest().len(), 1nat,
    {
        let left_paren = self.next().unwrap();
        let mut args: Vec<Exprs> = Vec::new();
        proof {
            assert(all_exprs_view(args@) =~= Seq::<ExprV>::empty());
        }
        if self.rest_nonempty_not(TokenKind::RightParen) {
            match self.arguments(&mut args) {
                Ok(()) => {},
                Err(x) => return Err(x),
            }
        }
        match self.consume(TokenKind::RightParen) {
            Ok(_) => {},
            Err(x) => return Err(x),
        }
        Ok(Exprs::Call(Call::new(callee, left_paren, args)))
    }

    /// Expressions separated by commas, pushed onto `args`.
    fn arguments(&mut self, args: &mut Vec<Exprs>) -> (r: Result<(), ParserError>)
        requires
            old(self).wf(),
        ensures
            final(self).wf(),
            final(self).depth() == old(self).depth(),
            final(self).rest().len() <= old(self).rest().len(),
            r is Ok ==> final(self).rest().len() < old(self).rest().len(),
            args_inner(all_exprs_view(old(args)@), old(self).rest()) == (
                match r {
                    Ok(_) => Ok(all_exprs_view(final(args)@)),
                    Err(x) => Err(x@),
                },
                final(self).rest(),
            ),
        decreases old(self).rest().len(), 22nat,
    {
        let ghost t0 = self.rest();
        let ghost a0 = all_exprs_view(args@);
        let e = match self.expression() {
            Ok(e) => e,
            Err(x) => {
                proof {
                    lemma_args_inner_unfold(a0, t0);
                }
                return Err(x);
            },
        };
        proof {
            lemma_exprs_view_push(args@, e);
            lemma_args_inner_unfold(a0, t0);
        }
        args.push(e);
        if self.check(TokenKind::Comma) {
            self.next();
            self.arguments(args)
        } else {
            Ok(())
        }
    }

    /// Whether a next token exists and is not of kind `k`.
    fn rest_nonempty_not(&self, k: TokenKind) -> (b: bool)
        ensures
            b == (self.rest().len() > 0 && self.rest()[0].kind != k),
    {
        match self.peek_kind() {
            Some(x) => x != k,
            None => false,
        }
    }

    #[verifier::rlimit(50)]
    #[verifier::spinoff_prover]
    fn primary(&mut self) -> (r: Result<Exprs, ParserError>)
        requires
            old(self).wf(),
        ensures
            final(self).wf(),
            final(self).depth() == old(self).depth(),
            (expr_res(r), final(self).rest()) == p_primary(old(self).rest()),
            final(self).rest().len() <= old(self).rest().len(),
            r is Ok ==> final(self).rest().len() < old(self).rest().len(),
            old(self).rest().len() > 0 ==> final(self).rest().len() < old(self).rest().len(),
        decreases old(self).rest().len(), 1nat,
    {
        let tk = match self.next() {
            Some(tk) => tk,
            None => return Err(ParserError::Eof(String::from_str("Expect a primary"))),
        };
        match tk {
            Token::False { .. } => Ok(Exprs::Literal(Literal::new(LiteralType::Bool(false)))),
            Token::True { .. } => Ok(Exprs::Literal(Literal::new(LiteralType::Bool(true)))),
            Token::Nil { .. } => Ok(Exprs::Literal(Literal::new(LiteralType::Nil))),
            Token::Number { inner } => {
                let mut inner = inner;
                Ok(Exprs::Literal(Literal::new(LiteralType::Number(inner.lexeme_take()))))
            },
            Token::String { inner } => {
                let mut inner = inner;
                Ok(Exprs::Literal(Literal::new(LiteralType::String(inner.lexeme_take()))))
            },
            Token::Super { inner } => {
                let keyword = Token::Super { inner };
                match self.consume(TokenKind::Dot) {
                    Ok(_) => {},
                    Err(x) => return Err(x),
                }
                let method = match self.consume(TokenKind::Identifier) {
                    Ok(m) => m,
                    Err(x) => return Err(x),
                };
                Ok(Exprs::Super(Super::new(keyword, method)))
            },
            Token::This { inner } => Ok(Exprs::This(This::new(Token::This { inner }))),
            Token::Identifier { inner } => Ok(
                Exprs::Variable(Variable::new(Token::Identifier { inner })),
            ),
            Token::LeftParen { .. } => {
                let expr = match self.expression() {
                    Ok(e) => e,
                    Err(x) => return Err(x),
                };
                match self.consume(TokenKind::RightParen) {
                    Ok(_) => {},
                    Err(x) => return Err(x),
                }
                Ok(Exprs::Grouping(Grouping::new(expr)))
            },
            other => Err(ParserError::Primary(other)),
        }
    }

    /// Whether a next token exists and cannot start a statement.
    fn at_skippable(&self) -> (b: bool)
        ensures
            b == (self.rest().len() > 0 && !starts_statement(self.rest()[0].kind)),
    {
        match self.peek_kind() {
            None => false,
            Some(k) => !(k == TokenKind::Class || k == TokenKind::Fun || k == TokenKind::Var || k
                == TokenKind::For || k == TokenKind::If || k == TokenKind::While || k
                == TokenKind::Print || k == TokenKind::Return),
        }
    }

    /// Skips the rest of a statement that failed: one token, then up to the
    /// start of the next statement.
    fn synchronize(&mut self)
        requires
            old(self).wf(),
        ensures
            final(self).wf(),
            final(self).depth() == old(self).depth(),
            final(self).rest() == synchronize(old(self).rest()),
            final(self).rest().len() <= old(self).rest().len(),
    {
        let ghost t0 = self.rest();
        self.next();
        while self.at_skippable()
            invariant
                self.wf(),
                self.depth() == old(self).depth(),
                t0 == old(self).rest(),
                self.rest().len() <= t0.len(),
                sync_loop(self.rest()) == synchronize(t0),
            decreases self.rest().len(),
        {
            self.next();
        }
    }

    fn var_declaration(&mut self) -> (r: Result<Stmts, ParserError>)
        requires
            old(self).wf(),
            at(old(self).rest(), TokenKind::Var),
        ensures
            final(self).wf(),
            final(self).depth() == old(self).depth(),
            (stmt_res(r), final(self).rest()) == p_var_decl(old(self).rest()),
            final(self).rest().len() < old(self).rest().len(),
    {
        proof {
            reveal(p_var_decl);
        }
        self.next();
        let ident = match self.next() {
            None => return Err(ParserError::Eof(String::from_str("Expect a ident after `var`"))),
            Some(tk) => tk,
        };
        if ident.kind() != TokenKind::Identifier {
            return Err(ParserError::VarDeclaration(ident));
        }
        if self.peek_kind().is_none() {
            return Err(
                ParserError::Eof(message_with_token("Expect `=` or literal value after ", &ident)),
            );
        }
        let init_val = if self.check(TokenKind::Equal) {
            self.next();
            match self.expression() {
                Ok(e) => e,
                Err(x) => return Err(x),
            }
        } else {
            Exprs::Literal(Literal::default())
        };
        match self.next() {
            Some(v) => if v.kind() != TokenKind::Semicolon {
                return Err(ParserError::Semicolon(v));
            },
            None => return Err(ParserError::Eof(String::from_str("Expect `;` at end"))),
        }
        Ok(Stmts::Var(Var::new(ident, Some(init_val))))
    }

    fn expression_stmt(&mut self) -> (r: Result<Stmts, ParserError>)
        requires
            old(self).wf(),
        ensures
            final(self).wf(),
            final(self).depth() == old(self).depth(),
            (stmt_res(r), final(self).rest()) == p_expr_stmt(old(self).rest()),
            final(self).rest().len() <= old(self).rest().len(),
            old(self).rest().len() > 0 ==> final(self).rest().len() < old(self).rest().len(),
    {
        proof {
            reveal(p_expr_stmt);
        }
        let expr = match self.expression() {
            Ok(e) => e,
            Err(x) => return Err(x),
        };
        match self.next() {
            Some(tk) => if tk.kind() == TokenKind::Semicolon {
                Ok(Stmts::Expression(Expression::new(expr)))
            } else {
                Err(ParserError::Semicolon(tk))
            },
            None => Err(ParserError::ErrMessage(String::from_str("Not end of `}`"))),
        }
    }

    fn print_statement(&mut self) -> (r: Result<Stmts, ParserError>)
        requires
            old(self).wf(),
            at(old(self).rest(), TokenKind::Print),
        ensures
            final(self).wf(),
            final(self).depth() == old(self).depth(),
            (stmt_res(r), final(self).rest()) == p_print(old(self).rest()),
            final(self).rest().len() < old(self).rest().len(),
    {
        proof {
            reveal(p_print);
        }
        self.next();
        let expr = match self.expression() {
            Ok(e) => e,
            Err(x) => return Err(x),
        };
        match self.next() {
            Some(v) => if v.kind() == TokenKind::Semicolon {
                Ok(Stmts::Print(Print::new(expr)))
            } else {
                Err(ParserError::PrintStmt(v))
            },
            None => Err(ParserError::ErrMessage(String::from_str("Missing `;` at end"))),
        }
    }

    fn return_statement(&mut self) -> (r: Result<Stmts, ParserError>)
        requires
            old(self).wf(),
            at(old(self).rest(), TokenKind::Return),
        ensures
            final(self).wf(),
            final(self).depth() == old(self).depth(),
            (stmt_res(r), final(self).rest()) == p_return(old(self).rest()),
            final(self).rest().len() < old(self).rest().len(),
    {
        proof {
            reveal(p_return);
        }
        let keyword = self.next().unwrap();
        let value = if self.check(TokenKind::Semicolon) {
            None
        } else {
            match self.expression() {
                Ok(e) => Some(e),
                Err(x) => return Err(x),
            }
        };
        match self.consume(TokenKind::Semicolon) {
            Ok(_) => {},
            Err(x) => return Err(x),
        }
        Ok(Stmts::Return(Return::new(keyword, value)))
    }

    fn break_statement(&mut self) -> (r: Result<Stmts, ParserError>)
        requires
            old(self).wf(),
            at(old(self).rest(), TokenKind::Break),
        ensures
            final(self).wf(),
            (stmt_res(r), final(self).rest(), final(self).depth()) == p_break(
                old(self).rest(),
                old(self).depth(),
            ),
            final(self).rest().len() < old(self).rest().len(),
            final(self).depth() == old(self).depth(),
    {
        proof {
            reveal(p_break);
        }
        let break_ = self.next().unwrap();
        if self.loop_depth == 0 {
            return Err(ParserError::NotInLoop(break_));
        }
        match self.consume(TokenKind::Semicolon) {
            Ok(_) => {},
            Err(x) => return Err(x),
        }
        Ok(Stmts::Break(Break::new(break_)))
    }

    #[verifier::rlimit(100)]
    #[verifier::spinoff_prover]
    fn while_statement(&mut self) -> (r: Result<Stmts, ParserError>)
        requires
            old(self).wf(),
            at(old(self).rest(), TokenKind::While),
        ensures
            final(self).inv(),
            final(self).aborted() == panics(p_while(old(self).rest(), old(self).depth()).0),
            final(self).aborted() ==> r is Err,
            !final(self).aborted() ==> (stmt_res(r), final(self).rest(), final(self).depth()) == p_while(old(self).rest(), old(self).depth()),
            final(self).rest().len() <= old(self).rest().len(),
            !final(self).aborted() ==> final(self).rest().len() < old(self).rest().len(),
            final(self).depth() >= old(self).depth(),
        decreases old(self).rest().len(), 38nat,
    {
        self.next();
        match self.consume(TokenKind::LeftParen) {
            Ok(_) => {},
            Err(x) => return Err(x),
        }
        let cond = match self.expression() {
            Ok(e) => e,
            Err(x) => return Err(x),
        };
        match self.consume(TokenKind::RightParen) {
            Ok(_) => {},
            Err(x) => return Err(x),
        }
        self.loop_depth = self.loop_depth + 1;
        match self.statement() {
            Ok(body) => Ok(Stmts::While(While::new(cond, Box::new(body)))),
            Err(e) => {
                self.loop_depth = self.loop_depth - 1;
                Err(e)
            },
        }
    }

    #[verifier::rlimit(100)]
    #[verifier::spinoff_prover]
    fn if_statement(&mut self) -> (r: Result<Stmts, ParserError>)
        requires
            old(self).wf(),
            at(old(self).rest(), TokenKind::If),
        ensures
            final(self).inv(),
            final(self).aborted() == panics(p_if(old(self).rest(), old(self).depth()).0),
            final(self).aborted() ==> r is Err,
            !final(self).aborted() ==> (stmt_res(r), final(self).rest(), final(self).depth()) == p_if(old(self).rest(), old(self).depth()),
            final(self).rest().len() <= old(self).rest().len(),
            !final(self).aborted() ==> final(self).rest().len() < old(self).rest().len(),
            final(self).depth() >= old(self).depth(),
        decreases old(self).rest().len(), 38nat,
    {
        self.next();
        match self.consume(TokenKind::LeftParen) {
            Ok(_) => {},
            Err(x) => return Err(x),
        }
        let condition = match self.expression() {
            Ok(e) => e,
            Err(x) => return Err(x),
        };
        match self.consume(TokenKind::RightParen) {
            Ok(_) => {},
            Err(x) => return Err(x),
        }
        let then_branch = match self.statement() {
            Ok(s) => s,
            Err(e) => return Err(e),
        };
        if self.check(TokenKind::Else) {
            self.next();
            let else_branch = match self.statement() {
                Ok(s) => s,
                Err(e) => return Err(e),
            };
            Ok(Stmts::If(If::new(condition, Box::new(then_branch), Some(else_branch))))
        } else {
            Ok(Stmts::If(If::new(condition, Box::new(then_branch), None)))
        }
    }

    #[verifier::rlimit(100)]
    #[verifier::spinoff_prover]
    fn statement(&mut self) -> (r: Result<Stmts, ParserError>)
        requires
            old(self).wf(),
        ensures
            final(self).inv(),
            final(self).aborted() == panics(p_statement(old(self).rest(), old(self).depth()).0),
            final(self).aborted() ==> r is Err,
            !final(self).aborted() ==> (stmt_res(r), final(self).rest(), final(self).depth()) == p_statement(old(self).rest(), old(self).depth()),
            final(self).rest().len() <= old(self).rest().len(),
            !final(self).aborted() && old(self).rest().len() > 0 ==> final(self).rest().len()
                < old(self).rest().len(),
            final(self).depth() >= old(self).depth(),
        decreases old(self).rest().len(), 39nat,
    {
        match self.peek_kind() {
            None => Err(ParserError::Eof(String::from_str("Expect a statement."))),
            Some(TokenKind::For) => self.for_statement(),
            Some(TokenKind::If) => self.if_statement(),
            Some(TokenKind::Print) => self.print_statement(),
            Some(TokenKind::Return) => self.return_statement(),
            Some(TokenKind::While) => self.while_statement(),
            Some(TokenKind::LeftBrace) => match self.block() {
                Ok(statements) => Ok(Stmts::Block(Block::new(statements))),
                Err(e) => Err(e),
            },
            Some(TokenKind::Break) => self.break_statement(),
            _ => self.expression_stmt(),
        }
    }

    /// The statements of a block; the next token is its `{`.
    #[verifier::rlimit(100)]
    #[verifier::spinoff_prover]
    fn block(&mut self) -> (r: Result<Vec<Stmts>, ParserError>)
        requires
            old(self).wf(),
        ensures
            final(self).inv(),
            final(self).aborted() == panics(p_block(old(self).rest(), old(self).depth()).0),
            final(self).aborted() ==> r is Err,
            !final(self).aborted() ==> (block_res(r), final(self).rest(), final(self).depth()) == p_block(old(self).rest(), old(self).depth()),
            final(self).rest().len() <= old(self).rest().len(),
            !final(self).aborted() ==> final(self).rest().len() < old(self).rest().len(),
            final(self).depth() >= old(self).depth(),
        decreases old(self).rest().len(), 37nat,
    {
        let ghost t0 = self.rest();
        let ghost d0 = self.depth();
        if !self.check(TokenKind::LeftBrace) {
            self.aborted = true;
            return Err(ParserError::ErrMessage(String::from_str("Expect `{` to start a block")));
        }
        self.next();
        let mut statements: Vec<Stmts> = Vec::new();
        while self.rest_nonempty_not(TokenKind::RightBrace)
            invariant
                self.wf(),
                t0 == old(self).rest(),
                d0 == old(self).depth(),
                self.depth() >= d0,
                self.rest().len() < t0.len(),
                block_loop(self.rest(), self.depth(), all_stmts_view(statements@)) == p_block(t0, d0),
            decreases self.rest().len(),
        {
            let s = match self.declaration() {
                Ok(s) => s,
                Err(e) => return Err(e),
            };
            proof {
                lemma_stmts_view_push(statements@, s);
            }
            statements.push(s);
        }
        match self.next() {
            Some(v) => if v.kind() == TokenKind::RightBrace {
                Ok(statements)
            } else {
                Err(ParserError::RightBrace(v))
            },
            None => Err(ParserError::ErrMessage(String::from_str("Not end of `}`"))),
        }
    }

    /// The parameters of the function named `name`, up to its `)`; the
    /// name is handed back with them.
    fn parameters(&mut self, name: Token) -> (r: Result<(Token, Vec<Token>), ParserError>)
        requires
            old(self).wf(),
        ensures
            final(self).wf(),
            final(self).depth() == old(self).depth(),
            final(self).rest().len() <= old(self).rest().len(),
            r is Ok ==> final(self).rest().len() < old(self).rest().len(),
            p_params(name@, old(self).rest(), Seq::empty()) == (
                match r {
                    Ok(p) => Ok(token_views(p.1@)),
                    Err(e) => Err(e@),
                },
                final(self).rest(),
            ),
            r matches Ok(p) ==> p.0 == name,
    {
        let ghost t0 = self.rest();
        let mut parameters: Vec<Token> = Vec::new();
        proof {
            assert(token_views(parameters@) =~= Seq::<TokenV>::empty());
        }
        loop
            invariant
                self.wf(),
                self.depth() == old(self).depth(),
                t0 == old(self).rest(),
                self.rest().len() <= t0.len(),
                p_params(name@, self.rest(), token_views(parameters@)) == p_params(
                    name@,
                    t0,
                    Seq::empty(),
                ),
            decreases self.rest().len(),
        {
            if parameters.len() >= 255 {
                return Err(ParserError::TooManyArgs(name));
            }
            let value = match self.next() {
                Some(v) => if v.kind() == TokenKind::Identifier {
                    v
                } else {
                    return Err(ParserError::Parameters(v));
                },
                None => return Err(ParserError::Eof(String::from_str("Expect parameters"))),
            };
            proof {
                assert(token_views(parameters@.push(value)) =~= token_views(parameters@).push(
                    value@,
                ));
            }
            parameters.push(value);
            if self.check(TokenKind::Comma) {
                self.next();
            } else {
                return Ok((name, parameters));
            }
        }
    }

    /// A function or a method; the next token is `fun`.
    #[verifier::rlimit(100)]
    #[verifier::spinoff_prover]
    fn function(&mut self, kind: FunctionKind) -> (r: Result<Function, ParserError>)
        requires
            old(self).wf(),
        ensures
            final(self).inv(),
            final(self).aborted() == panics(p_function(old(self).rest(), old(self).depth(), kind).0),
            final(self).aborted() ==> r is Err,
            !final(self).aborted() ==> (fun_res(r), final(self).rest(), final(self).depth()) == p_function(old(self).rest(), old(self).depth(), kind),
            final(self).rest().len() <= old(self).rest().len(),
            !final(self).aborted() ==> final(self).rest().len() < old(self).rest().len(),
            final(self).depth() >= old(self).depth(),
        decreases old(self).rest().len(), 34nat,
    {
        let ghost t0 = self.rest();
        let ghost d0 = self.depth();
        if !self.check(TokenKind::Fun) {
            self.aborted = true;
            return Err(ParserError::ErrMessage(String::from_str("Expect `fun` to start a method")));
        }
        self.next();
        let name = match self.next() {
            Some(tk) => if tk.kind() == TokenKind::Identifier {
                tk
            } else {
                return Err(ParserError::CallDecl { tk, kind });
            },
            None => {
                let k = kind.to_string();
                let head = concat("Expect `", k.as_str());
                return Err(ParserError::Eof(concat(head.as_str(), "` name")));
            },
        };
        match self.consume(TokenKind::LeftParen) {
            Ok(_) => {},
            Err(x) => return Err(x),
        }
        let (name, parameters) = if self.rest_nonempty_not(TokenKind::RightParen) {
            match self.parameters(name) {
                Ok(p) => p,
                Err(x) => return Err(x),
            }
        } else {
            let parameters: Vec<Token> = Vec::new();
            assert(token_views(parameters@) =~= Seq::empty());
            (name, parameters)
        };
        match self.consume(TokenKind::RightParen) {
            Ok(_) => {},
            Err(x) => return Err(x),
        }
        let body = match self.block() {
            Ok(b) => b,
            Err(e) => return Err(e),
        };
        Ok(Function::new(name, parameters, body))
    }

    #[verifier::rlimit(100)]
    #[verifier::spinoff_prover]
    #[verifier::loop_isolation(false)]
    fn class_declaration(&mut self) -> (r: Result<Stmts, ParserError>)
        requires
            old(self).wf(),
            at(old(self).rest(), TokenKind::Class),
        ensures
            final(self).inv(),
            final(self).aborted() == panics(p_class(old(self).rest(), old(self).depth()).0),
            final(self).aborted() ==> r is Err,
            !final(self).aborted() ==> (stmt_res(r), final(self).rest(), final(self).depth()) == p_class(old(self).rest(), old(self).depth()),
            final(self).rest().len() <= old(self).rest().len(),
            !final(self).aborted() ==> final(self).rest().len() < old(self).rest().len(),
            final(self).depth() >= old(self).depth(),
        decreases old(self).rest().len(), 35nat,
    {
        let ghost t0 = self.rest();
        let ghost d0 = self.depth();
        self.next();
        let name = match self.next() {
            Some(tk) => if tk.kind() == TokenKind::Identifier {
                tk
            } else {
                return Err(ParserError::Class(tk));
            },
            None => return Err(ParserError::Eof(String::from_str("Expect class name"))),
        };
        let mut superclass: Option<Variable> = None;
        if self.check(TokenKind::Less) {
            self.next();
            let tk = match self.next() {
                Some(tk) => if tk.kind() == TokenKind::Identifier {
                    tk
                } else {
                    return Err(ParserError::Superclass(tk));
                },
                None => return Err(ParserError::Eof(String::from_str("Expect superclass name"))),
            };
            superclass = Some(Variable::new(tk));
        }
        match self.consume(TokenKind::LeftBrace) {
            Ok(_) => {},
            Err(x) => return Err(x),
        }
        let ghost t4 = self.rest();
        let mut methods: Vec<Function> = Vec::new();
        while self.rest_nonempty_not(TokenKind::RightBrace)
            invariant
                self.wf(),
                t0 == old(self).rest(),
                d0 == old(self).depth(),
                self.depth() >= d0,
                self.rest().len() <= t4.len(),
                t4.len() < t0.len(),
                class_methods(self.rest(), self.depth(), all_funs_view(methods@)) == class_methods(
                    t4,
                    d0,
                    Seq::empty(),
                ),
            decreases self.rest().len(),
        {
            let f = match self.function(FunctionKind::Method) {
                Ok(f) => f,
                Err(e) => return Err(e),
            };
            proof {
                lemma_funs_view_push(methods@, f);
            }
            methods.push(f);
        }
        match self.consume(TokenKind::RightBrace) {
            Ok(_) => {},
            Err(x) => return Err(x),
        }
        Ok(Stmts::Class(Class::new(name, superclass, methods)))
    }

    /// A declaration or a statement; an error in a statement is reported
    /// by its message, after skipping to the next statement.
    #[verifier::rlimit(100)]
    #[verifier::spinoff_prover]
    fn declaration(&mut self) -> (r: Result<Stmts, ParserError>)
        requires
            old(self).wf(),
        ensures
            final(self).inv(),
            final(self).aborted() == panics(p_declaration(old(self).rest(), old(self).depth()).0),
            final(self).aborted() ==> r is Err,
            !final(self).aborted() ==> (stmt_res(r), final(self).rest(), final(self).depth()) == p_declaration(old(self).rest(), old(self).depth()),
            final(self).rest().len() <= old(self).rest().len(),
            !final(self).aborted() && old(self).rest().len() > 0 ==> final(self).rest().len()
                < old(self).rest().len(),
            final(self).depth() >= old(self).depth(),
        decreases old(self).rest().len(), 40nat,
    {
        match self.peek_kind() {
            Some(TokenKind::Class) => self.class_declaration(),
            Some(TokenKind::Fun) => match self.function(FunctionKind::Function) {
                Ok(f) => Ok(Stmts::Function(f)),
                Err(e) => Err(e),
            },
            Some(TokenKind::Var) => self.var_declaration(),
            _ => match self.statement() {
                Ok(s) => Ok(s),
                Err(e) => {
                    if self.aborted {
                        return Err(e);
                    }
                    self.synchronize();
                    Err(ParserError::DeclarationStmt(e.to_string()))
                },
            },
        }
    }

    /// The statements of the whole program, in order, and whether any
    /// declaration failed. A failed declaration is left out and parsing goes
    /// on after it.
    pub fn parse(&mut self) -> (r: (Vec<Stmts>, bool))
        requires
            old(self).wf(),
            parse_all(old(self).rest(), old(self).depth()) is Some,
        ensures
            final(self).wf(),
            final(self).rest().len() == 0,
            parse_all(old(self).rest(), old(self).depth()) == Some((all_stmts_view(r.0@), r.1)),
    {
        let ghost t0 = self.rest();
        let ghost d0 = self.depth();
        let mut had_err = false;
        let mut stmts: Vec<Stmts> = Vec::new();
        proof {
            assert(all_stmts_view(stmts@) =~= Seq::empty());
        }
        while self.peek_kind().is_some()
            invariant
                self.wf(),
                parse_all(self.rest(), self.depth()) is Some,
                after(all_stmts_view(stmts@), had_err, parse_all(self.rest(), self.depth()))
                    == parse_all(t0, d0),
            decreases self.rest().len(),
        {
            let ghost t = self.rest();
            let ghost d = self.depth();
            let ghost acc = all_stmts_view(stmts@);
            match self.declaration() {
                Ok(v) => {
                    proof {
                        lemma_stmts_view_push(stmts@, v);
                        let ss = parse_all(self.rest(), self.depth()).unwrap().0;
                        assert(acc + (seq![stmt_view(v)] + ss) =~= acc.push(stmt_view(v)) + ss);
                    }
                    stmts.push(v);
                },
                Err(_) => {
                    had_err = true;
                },
            }
        }
        proof {
            assert(all_stmts_view(stmts@) + Seq::empty() =~= all_stmts_view(stmts@));
        }
        (stmts, had_err)
    }

    /// The initializer of a `for` loop.
    fn for_initializer(&mut self) -> (r: Result<Option<Stmts>, ParserError>)
        requires
            old(self).wf(),
        ensures
            final(self).wf(),
            final(self).depth() == old(self).depth(),
            final(self).rest().len() <= old(self).rest().len(),
            for_init(old(self).rest()) == (
                match r {
                    Ok(Some(s)) => Ok(Some(stmt_view(s))),
                    Ok(None) => Ok(None),
                    Err(e) => Err(e@),
                },
                final(self).rest(),
            ),
    {
        match self.peek_kind() {
            None => Err(ParserError::Eof(String::from_str("Expect a varDecl or expr or `;`"))),
            Some(TokenKind::Semicolon) => {
                self.next();
                Ok(None)
            },
            Some(TokenKind::Var) => match self.var_declaration() {
                Ok(s) => Ok(Some(s)),
                Err(x) => Err(x),
            },
            _ => match self.expression_stmt() {
                Ok(s) => Ok(Some(s)),
                Err(x) => Err(x),
            },
        }
    }

    /// The condition of a `for` loop and its `;`.
    fn for_condition(&mut self) -> (r: Result<Option<Exprs>, ParserError>)
        requires
            old(self).wf(),
        ensures
            final(self).wf(),
            final(self).depth() == old(self).depth(),
            final(self).rest().len() <= old(self).rest().len(),
            for_cond(old(self).rest()) == (
                match r {
                    Ok(c) => Ok(opt_expr_view(c)),
                    Err(e) => Err(e@),
                },
                final(self).rest(),
            ),
    {
        let tk = match self.peek_kind() {
            None => return Err(ParserError::Eof(String::from_str("Expect a condition expr"))),
            Some(k) => k,
        };
        let condition = if tk == TokenKind::Semicolon {
            None
        } else {
            match self.expression() {
                Ok(e) => Some(e),
                Err(x) => return Err(x),
            }
        };
        match self.consume(TokenKind::Semicolon) {
            Ok(_) => Ok(condition),
            Err(x) => Err(x),
        }
    }

    /// The increment of a `for` loop and its `)`.
    fn for_increment(&mut self) -> (r: Result<Option<Exprs>, ParserError>)
        requires
            old(self).wf(),
        ensures
            final(self).wf(),
            final(self).depth() == old(self).depth(),
            final(self).rest().len() <= old(self).rest().len(),
            for_inc(old(self).rest()) == (
                match r {
                    Ok(i) => Ok(opt_expr_view(i)),
                    Err(e) => Err(e@),
                },
                final(self).rest(),
            ),
    {
        let tk = match self.peek_kind() {
            None => return Err(ParserError::Eof(String::from_str("Expect a increment expr"))),
            Some(k) => k,
        };
        let increment = if tk == TokenKind::RightParen {
            None
        } else {
            match self.expression() {
                Ok(e) => Some(e),
                Err(x) => return Err(x),
            }
        };
        match self.consume(TokenKind::RightParen) {
            Ok(_) => Ok(increment),
            Err(x) => Err(x),
        }
    }

    /// Whether parsing the tokens left goes through: false exactly on input
    /// that the parser cannot read (a method without `fun`, a function body
    /// without `{`), where `parse` may not be called.
    pub fn can_parse(&self) -> (r: bool)
        requires
            self.wf(),
        ensures
            r == parse_all(self.rest(), self.depth()) is Some,
    {
        let mut tokens: Vec<Token> = Vec::new();
        let mut i: usize = 0;
        while i < self.tokens.len()
            invariant
                i <= self.tokens@.len(),
                tokens@.len() == i,
                forall|j: int| 0 <= j < i ==> #[trigger] tokens@[j]@ == self.tokens@[j]@,
            decreases self.tokens@.len() - i,
        {
            tokens.push(self.tokens[i].duplicate());
            i = i + 1;
        }
        let mut p = Parser { tokens, loop_depth: self.loop_depth, aborted: false };
        assert(p.rest() =~= self.rest());
        let ghost t0 = self.rest();
        let ghost d0 = self.depth();
        while p.peek_kind().is_some()
            invariant
                p.wf(),
                t0 == self.rest(),
                d0 == self.depth(),
                (parse_all(p.rest(), p.depth()) is Some) == (parse_all(t0, d0) is Some),
            decreases p.rest().len(),
        {
            let ghost t = p.rest();
            let ghost d = p.depth();
            match p.declaration() {
                Ok(_) => {},
                Err(_) => {
                    if p.aborted {
                        assert(parse_all(t, d) is None);
                        return false;
                    }
                },
            }
        }
        true
    }

    /// `for (init cond; inc) body`, read as the `while` loop it stands for.
    #[verifier::rlimit(100)]
    #[verifier::spinoff_prover]
    fn for_statement(&mut self) -> (r: Result<Stmts, ParserError>)
        requires
            old(self).wf(),
            at(old(self).rest(), TokenKind::For),
        ensures
            final(self).inv(),
            final(self).aborted() == panics(p_for(old(self).rest(), old(self).depth()).0),
            final(self).aborted() ==> r is Err,
            !final(self).aborted() ==> (stmt_res(r), final(self).rest(), final(self).depth()) == p_for(old(self).rest(), old(self).depth()),
            final(self).rest().len() <= old(self).rest().len(),
            !final(self).aborted() ==> final(self).rest().len() < old(self).rest().len(),
            final(self).depth() >= old(self).depth(),
        decreases old(self).rest().len(), 38nat,
    {
        self.next();
        match self.consume(TokenKind::LeftParen) {
            Ok(_) => {},
            Err(x) => return Err(x),
        }
        let initializer = match self.for_initializer() {
            Ok(i) => i,
            Err(x) => return Err(x),
        };
        let condition = match self.for_condition() {
            Ok(c) => c,
            Err(x) => return Err(x),
        };
        let increment = match self.for_increment() {
            Ok(i) => i,
            Err(x) => return Err(x),
        };
        self.loop_depth = self.loop_depth + 1;
        let body = match self.statement() {
            Ok(b) => b,
            Err(e) => {
                self.loop_depth = self.loop_depth - 1;
                return Err(e);
            },
        };
        Ok(desugar_for(initializer, condition, increment, body))
    }
}


// ---------------------------------------------------------------------------
// Laws of the expression grammar.
// ---------------------------------------------------------------------------

/// Whether a token can stand alone as an operand: a number or a name.
pub open spec fn is_operand(x: TokenV) -> bool {
    x.kind == TokenKind::Number || x.kind == TokenKind::Identifier
}

/// The expression that a lone operand token reads as.
pub open spec fn operand_expr(x: TokenV) -> ExprV {
    if x.kind == TokenKind::Number {
        lit(LitV::Number(x.inner.lexeme))
    } else {
        ExprV::Variable(x)
    }
}

/// Whether `k` is one of the binary operators of the precedence table:
/// factor `/ *`, term `- +`, comparison `> >= < <=`, equality `!= ==`.
pub open spec fn is_binary_operator(k: TokenKind) -> bool {
    ||| k == TokenKind::Slash
    ||| k == TokenKind::Star
    ||| k == TokenKind::Minus
    ||| k == TokenKind::Plus
    ||| k == TokenKind::Greater
    ||| k == TokenKind::GreaterEqual
    ||| k == TokenKind::Less
    ||| k == TokenKind::LessEqual
    ||| k == TokenKind::BangEqual
    ||| k == TokenKind::EqualEqual
}

proof fn lemma_operand_unary(x: TokenV, r: Seq<TokenV>)
    requires
        is_operand(x),
        !at(r, TokenKind::LeftParen),
        !at(r, TokenKind::Dot),
    ensures
        p_unary(seq![x] + r) == (Ok::<ExprV, ErrV>(operand_expr(x)), r),
{
    let s = seq![x] + r;
    assert(s[0] == x);
    assert(s.drop_first() =~= r);
    assert(p_primary(s) == (Ok::<ExprV, ErrV>(operand_expr(x)), r));
    assert(call_loop(operand_expr(x), r) == (Ok::<ExprV, ErrV>(operand_expr(x)), r));
    assert(p_call(s) == (Ok::<ExprV, ErrV>(operand_expr(x)), r));
    assert(!at(s, TokenKind::Bang) && !at(s, TokenKind::Minus));
}

proof fn lemma_level_stops(level: nat, e: ExprV, r: Seq<TokenV>)
    requires
        !(r.len() > 0 && level_op(level, r[0].kind)),
    ensures
        level_loop(level, e, r) == (Ok::<ExprV, ErrV>(e), r),
{
}

proof fn lemma_operand_level(level: nat, x: TokenV, r: Seq<TokenV>)
    requires
        is_operand(x),
        !at(r, TokenKind::LeftParen),
        !at(r, TokenKind::Dot),
        r.len() > 0 ==> forall|j: nat| j <= level ==> !#[trigger] level_op(j, r[0].kind),
    ensures
        p_level(level, seq![x] + r) == (Ok::<ExprV, ErrV>(operand_expr(x)), r),
    decreases level,
{
    if level == 0 {
        lemma_operand_unary(x, r);
    } else {
        lemma_operand_level((level - 1) as nat, x, r);
    }
    if r.len() > 0 {
        assert(!level_op(level, r[0].kind));
    }
    lemma_level_stops(level, operand_expr(x), r);
}

proof fn lemma_operand_at(level: nat, y: TokenV, t: Seq<TokenV>)
    requires
        is_operand(y),
        at(t, TokenKind::Semicolon),
    ensures
        p_operand(level, seq![y] + t) == (Ok::<ExprV, ErrV>(operand_expr(y)), t),
{
    if level == 0 {
        lemma_operand_unary(y, t);
    } else {
        lemma_operand_level((level - 1) as nat, y, t);
    }
}

proof fn lemma_binary_at_level(l: nat, m: nat, x: TokenV, op: TokenV, y: TokenV, t: Seq<TokenV>)
    requires
        l <= m <= 3,
        is_operand(x),
        is_operand(y),
        is_binary_operator(op.kind),
        level_op(l, op.kind),
        forall|j: nat| j < l ==> !#[trigger] level_op(j, op.kind),
        forall|j: nat| l < j <= 3 ==> !#[trigger] level_op(j, op.kind),
        at(t, TokenKind::Semicolon),
    ensures
        p_level(m, seq![x, op, y] + t) == (Ok::<ExprV, ErrV>(bin(operand_expr(x), op, operand_expr(y))), t),
    decreases m,
{
    let s = seq![x, op, y] + t;
    let r = seq![op, y] + t;
    let e = bin(operand_expr(x), op, operand_expr(y));
    assert(s =~= seq![x] + r);
    if m == l {
        if l == 0 {
            lemma_operand_unary(x, r);
        } else {
            assert(r[0] == op);
            lemma_operand_level((l - 1) as nat, x, r);
        }
        assert(r[0] == op);
        assert(r.drop_first() =~= seq![y] + t);
        lemma_operand_at(l, y, t);
        lemma_level_stops(l, e, t);
    } else {
        lemma_binary_at_level(l, (m - 1) as nat, x, op, y, t);
        lemma_level_stops(m, e, t);
    }
}

/// Every binary operator of the precedence table joins two operands: reading
/// `x OP y ;` gives the binary expression of `x`, that operator and `y`,
/// with nothing else read. So each of `/ * - + > >= < <= != ==` is taken as
/// an operator at its level.
pub proof fn lemma_binary_operators_parse(x: TokenV, op: TokenV, y: TokenV, t: Seq<TokenV>)
    requires
        is_operand(x),
        is_operand(y),
        is_binary_operator(op.kind),
        at(t, TokenKind::Semicolon),
    ensures
        p_expression(seq![x, op, y] + t) == (Ok::<ExprV, ErrV>(bin(operand_expr(x), op, operand_expr(y))), t),
{
    let k = op.kind;
    let l: nat = if k == TokenKind::Slash || k == TokenKind::Star {
        0
    } else if k == TokenKind::Minus || k == TokenKind::Plus {
        1
    } else if k == TokenKind::BangEqual || k == TokenKind::EqualEqual {
        3
    } else {
        2
    };
    assert(level_op(l, k));
    assert forall|j: nat| j < l implies !#[trigger] level_op(j, k) by {}
    assert forall|j: nat| l < j <= 3 implies !#[trigger] level_op(j, k) by {}
    lemma_binary_at_level(l, 3, x, op, y, t);
    let e = bin(operand_expr(x), op, operand_expr(y));
    let s = seq![x, op, y] + t;
    assert(and_loop(e, t) == (Ok::<ExprV, ErrV>(e), t));
    assert(p_and(s) == (Ok::<ExprV, ErrV>(e), t));
    assert(or_loop(e, t) == (Ok::<ExprV, ErrV>(e), t));
    assert(p_or(s) == (Ok::<ExprV, ErrV>(e), t));
}


/// The level of a binary operator in the precedence table, tightest first:
/// 0 factor (`/ *`), 1 term (`- +`), 2 comparison (`> >= < <=`), 3 equality
/// (`!= ==`).
pub open spec fn table_level(k: TokenKind) -> nat {
    if k == TokenKind::Slash || k == TokenKind::Star {
        0
    } else if k == TokenKind::Minus || k == TokenKind::Plus {
        1
    } else if k == TokenKind::Greater || k == TokenKind::GreaterEqual || k == TokenKind::Less
        || k == TokenKind::LessEqual {
        2
    } else {
        3
    }
}

/// Whether nothing in `t` continues an operand read at a level up to `m`.
pub open spec fn free_after(t: Seq<TokenV>, m: nat) -> bool {
    &&& !at(t, TokenKind::LeftParen)
    &&& !at(t, TokenKind::Dot)
    &&& t.len() > 0 ==> forall|j: nat| j <= m ==> !#[trigger] level_op(j, t[0].kind)
}

/// Whether nothing in `t` continues an operand read at a level below `m`.
pub open spec fn free_below(t: Seq<TokenV>, m: nat) -> bool {
    &&& !at(t, TokenKind::LeftParen)
    &&& !at(t, TokenKind::Dot)
    &&& t.len() > 0 ==> forall|j: nat| j < m ==> !#[trigger] level_op(j, t[0].kind)
}

/// The parser reads each binary operator at its level of the table.
proof fn lemma_table_level(k: TokenKind)
    requires
        is_binary_operator(k),
    ensures
        table_level(k) <= 3,
        level_op(table_level(k), k),
        forall|j: nat| j <= 3 && j != table_level(k) ==> !#[trigger] level_op(j, k),
{
    assert forall|j: nat| j <= 3 && j != table_level(k) implies !#[trigger] level_op(j, k) by {}
}

proof fn lemma_operand_free(level: nat, y: TokenV, t: Seq<TokenV>)
    requires
        is_operand(y),
        free_below(t, level),
    ensures
        p_operand(level, seq![y] + t) == (Ok::<ExprV, ErrV>(operand_expr(y)), t),
{
    if level == 0 {
        lemma_operand_unary(y, t);
    } else {
        lemma_operand_level((level - 1) as nat, y, t);
    }
}

proof fn lemma_binary_free(l: nat, m: nat, x: TokenV, op: TokenV, y: TokenV, t: Seq<TokenV>)
    requires
        l <= m <= 3,
        is_operand(x),
        is_operand(y),
        is_binary_operator(op.kind),
        l == table_level(op.kind),
        free_after(t, m),
    ensures
        p_level(m, seq![x, op, y] + t) == (Ok::<ExprV, ErrV>(bin(operand_expr(x), op, operand_expr(y))), t),
    decreases m,
{
    lemma_table_level(op.kind);
    let s = seq![x, op, y] + t;
    let r = seq![op, y] + t;
    let e = bin(operand_expr(x), op, operand_expr(y));
    assert(s =~= seq![x] + r);
    assert(r[0] == op);
    if m == l {
        if l == 0 {
            lemma_operand_unary(x, r);
        } else {
            lemma_operand_level((l - 1) as nat, x, r);
        }
        assert(r.drop_first() =~= seq![y] + t);
        lemma_operand_free(l, y, t);
        lemma_level_stops(l, e, t);
    } else {
        lemma_binary_free(l, (m - 1) as nat, x, op, y, t);
        lemma_level_stops(m, e, t);
    }
}

/// How `x o1 y o2 z` groups: to the left when `o1` binds at least as tightly
/// as `o2`, else to the right.
pub open spec fn two_ops_expr(x: TokenV, o1: TokenV, y: TokenV, o2: TokenV, z: TokenV) -> ExprV {
    if table_level(o1.kind) <= table_level(o2.kind) {
        bin(bin(operand_expr(x), o1, operand_expr(y)), o2, operand_expr(z))
    } else {
        bin(operand_expr(x), o1, bin(operand_expr(y), o2, operand_expr(z)))
    }
}

proof fn lemma_two_ops_level(m: nat, x: TokenV, o1: TokenV, y: TokenV, o2: TokenV, z: TokenV, t: Seq<TokenV>)
    requires
        is_operand(x),
        is_operand(y),
        is_operand(z),
        is_binary_operator(o1.kind),
        is_binary_operator(o2.kind),
        table_level(o1.kind) <= m,
        table_level(o2.kind) <= m,
        m <= 3,
        at(t, TokenKind::Semicolon),
    ensures
        p_level(m, seq![x, o1, y, o2, z] + t) == (Ok::<ExprV, ErrV>(two_ops_expr(x, o1, y, o2, z)), t),
    decreases m,
{
    lemma_table_level(o1.kind);
    lemma_table_level(o2.kind);
    let l1 = table_level(o1.kind);
    let l2 = table_level(o2.kind);
    let s = seq![x, o1, y, o2, z] + t;
    let e = two_ops_expr(x, o1, y, o2, z);
    let top = if l1 >= l2 { l1 } else { l2 };
    if m > top {
        lemma_two_ops_level((m - 1) as nat, x, o1, y, o2, z, t);
        lemma_level_stops(m, e, t);
        assert(p_operand(m, s) == (Ok::<ExprV, ErrV>(e), t));
    } else if l1 == l2 {
        let r1 = seq![o1, y, o2, z] + t;
        assert(s =~= seq![x] + r1);
        assert(r1[0] == o1);
        if l1 == 0 {
            lemma_operand_unary(x, r1);
        } else {
            lemma_operand_level((l1 - 1) as nat, x, r1);
        }
        let r2 = seq![o2, z] + t;
        assert(r1.drop_first() =~= seq![y] + r2);
        assert(r2[0] == o2);
        lemma_operand_free(l1, y, r2);
        let left = bin(operand_expr(x), o1, operand_expr(y));
        assert(r2.drop_first() =~= seq![z] + t);
        lemma_operand_free(l1, z, t);
        lemma_level_stops(l1, e, t);
        assert(level_loop(l1, left, r2) == (Ok::<ExprV, ErrV>(e), t));
        assert(p_operand(l1, seq![y] + r2) == (Ok::<ExprV, ErrV>(operand_expr(y)), r2));
        assert(level_loop(l1, operand_expr(x), r1) == (Ok::<ExprV, ErrV>(e), t));
        if l1 == 0 {
            assert(p_operand(l1, s) == (Ok::<ExprV, ErrV>(operand_expr(x)), r1));
        } else {
            assert(p_operand(l1, s) == (Ok::<ExprV, ErrV>(operand_expr(x)), r1));
        }
    } else if l1 < l2 {
        let r2 = seq![o2, z] + t;
        assert(s =~= seq![x, o1, y] + r2);
        assert(r2[0] == o2);
        lemma_binary_free(l1, (l2 - 1) as nat, x, o1, y, r2);
        let left = bin(operand_expr(x), o1, operand_expr(y));
        assert(r2.drop_first() =~= seq![z] + t);
        lemma_operand_free(l2, z, t);
        lemma_level_stops(l2, e, t);
        assert(level_loop(l2, left, r2) == (Ok::<ExprV, ErrV>(e), t));
        assert(p_operand(l2, s) == (Ok::<ExprV, ErrV>(left), r2));
    } else {
        let r1 = seq![o1, y, o2, z] + t;
        assert(s =~= seq![x] + r1);
        assert(r1[0] == o1);
        lemma_operand_level((l1 - 1) as nat, x, r1);
        let u = seq![y, o2, z] + t;
        assert(r1.drop_first() =~= u);
        lemma_binary_free(l2, (l1 - 1) as nat, y, o2, z, t);
        let inner = bin(operand_expr(y), o2, operand_expr(z));
        assert(p_operand(l1, u) == (Ok::<ExprV, ErrV>(inner), t));
        lemma_level_stops(l1, e, t);
        assert(level_loop(l1, operand_expr(x), r1) == (Ok::<ExprV, ErrV>(e), t));
        assert(p_operand(l1, s) == (Ok::<ExprV, ErrV>(operand_expr(x)), r1));
    }
}

/// From an expression read at the equality level up to a `;`, the whole
/// expression is that one.
proof fn lemma_expression_from_equality(s: Seq<TokenV>, e: ExprV, t: Seq<TokenV>)
    requires
        p_level(3, s) == (Ok::<ExprV, ErrV>(e), t),
        t.len() <= s.len(),
        at(t, TokenKind::Semicolon),
    ensures
        p_expression(s) == (Ok::<ExprV, ErrV>(e), t),
{
    assert(and_loop(e, t) == (Ok::<ExprV, ErrV>(e), t));
    assert(p_and(s) == (Ok::<ExprV, ErrV>(e), t));
    assert(or_loop(e, t) == (Ok::<ExprV, ErrV>(e), t));
    assert(p_or(s) == (Ok::<ExprV, ErrV>(e), t));
}

/// Two binary operators group by the precedence table: `x o1 y o2 z ;`
/// reads as `(x o1 y) o2 z` when `o1` binds at least as tightly as `o2`
/// (operators of one level associate to the left), and as `x o1 (y o2 z)`
/// when `o2` binds more tightly; the levels are, tightest first, `/ *`,
/// `- +`, `> >= < <=`, `!= ==`.
pub proof fn lemma_binary_precedence(x: TokenV, o1: TokenV, y: TokenV, o2: TokenV, z: TokenV, t: Seq<TokenV>)
    requires
        is_operand(x),
        is_operand(y),
        is_operand(z),
        is_binary_operator(o1.kind),
        is_binary_operator(o2.kind),
        at(t, TokenKind::Semicolon),
    ensures
        p_expression(seq![x, o1, y, o2, z] + t) == (Ok::<ExprV, ErrV>(two_ops_expr(x, o1, y, o2, z)), t),
{
    lemma_two_ops_level(3, x, o1, y, o2, z, t);
    lemma_expression_from_equality(seq![x, o1, y, o2, z] + t, two_ops_expr(x, o1, y, o2, z), t);
}

} // verus!

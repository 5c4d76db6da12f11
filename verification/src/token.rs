//! Tokens of the Lox language: the text they were read from, their lexeme
//! and their position.
use std::rc::Rc;

use vstd::prelude::*;

use crate::scanner::rc_clone;
use crate::text::{
    byte_slice, lemma_boundary_bound, chars_of, str_eq, decimal, push_decimal, push_str_chars, slice_chars, string_from_chars,
};

verus! {

/// What a token holds, as mathematical values.
pub struct InnerV {
    /// The whole source text the token was read from.
    pub origin: Seq<char>,
    /// The token's text.
    pub lexeme: Seq<char>,
    /// The byte offset in the source at which the token starts.
    pub offset: nat,
}

/// The text, lexeme and position of a token.
#[derive(Clone, Debug, Default, PartialEq, Eq, Hash, PartialOrd, Ord)]
pub struct TokenInner {
    origin: Rc<String>,
    lexeme: String,
    /// start byte offset
    offset: usize,
}

impl View for TokenInner {
    type V = InnerV;

    closed spec fn view(&self) -> InnerV {
        InnerV { origin: self.origin@, lexeme: self.lexeme@, offset: self.offset as nat }
    }
}

/// The line and column reached after reading `s`: both start at one, a
/// newline moves to the first column of the next line, any other character
/// one column right.
pub open spec fn line_col(s: Seq<char>) -> (nat, nat)
    decreases s.len(),
{
    if s.len() == 0 {
        (1, 1)
    } else {
        let (l, c) = line_col(s.drop_last());
        if s.last() == '\n' {
            (l + 1, 1)
        } else {
            (l, c + 1)
        }
    }
}

/// The text shown for a token: its line and column and its lexeme.
pub open spec fn inner_text(v: InnerV) -> Seq<char> {
    let (line, col) = line_col(v.origin.take(if v.offset <= v.origin.len() { v.offset as int } else { v.origin.len() as int }));
    "[Line: "@ + decimal(line) + ", Column: "@ + decimal(col) + "], code: `"@ + v.lexeme + "`"@
}

/// Whether slicing `len` bytes from byte `offset` of `origin` succeeds.
pub open spec fn slice_ok(origin: Seq<char>, len: int, offset: int) -> bool {
    byte_slice(origin, offset, offset + len) is Some
}

/// The token that `TokenInner::new(origin, len, offset)` makes.
pub open spec fn inner_at(origin: Seq<char>, len: int, offset: int) -> InnerV {
    InnerV { origin, lexeme: byte_slice(origin, offset, offset + len).unwrap(), offset: offset as nat }
}

impl TokenInner {
    /// The token with exactly these parts.
    pub fn from_parts(origin: Rc<String>, lexeme: String, offset: usize) -> (r: Self)
        ensures
            r@ == (InnerV { origin: origin@, lexeme: lexeme@, offset: offset as nat }),
    {
        TokenInner { origin, lexeme, offset }
    }

    /// The token of a string literal whose quote is at byte `offset`: its
    /// lexeme is the `len` bytes after the quote.
    pub fn new_string(origin: Rc<String>, len: usize, offset: usize) -> (r: Self)
        requires
            slice_ok(origin@, len as int, offset + 1),
        ensures
            r@ == (InnerV { origin: origin@, lexeme: byte_slice(origin@, offset + 1, offset + 1 + len).unwrap(), offset: offset as nat }),
    {
        let chars = chars_of((*origin).as_str());
        proof {
            lemma_boundary_bound(origin@, offset + 1 + len);
        }
        let trim = offset + 1;
        let lexeme = string_from_chars(slice_chars(&chars, trim, trim + len).as_slice());
        TokenInner { origin, lexeme, offset }
    }

    /// The token `true` at byte `offset`: a lexeme of 4 bytes from there.
    pub fn new_true(origin: Rc<String>, offset: usize) -> (r: Self)
        requires
            slice_ok(origin@, 4, offset as int),
        ensures
            r@ == inner_at(origin@, 4, offset as int),
    {
        Self::new(origin, 4, offset)
    }

    /// The token `class` at byte `offset`: a lexeme of 5 bytes from there.
    pub fn new_class(origin: Rc<String>, offset: usize) -> (r: Self)
        requires
            slice_ok(origin@, 5, offset as int),
        ensures
            r@ == inner_at(origin@, 5, offset as int),
    {
        Self::new(origin, 5, offset)
    }

    /// The token `var` at byte `offset`: a lexeme of 3 bytes from there.
    pub fn new_var(origin: Rc<String>, offset: usize) -> (r: Self)
        requires
            slice_ok(origin@, 3, offset as int),
        ensures
            r@ == inner_at(origin@, 3, offset as int),
    {
        Self::new(origin, 3, offset)
    }

    /// The token `print` at byte `offset`: a lexeme of 5 bytes from there.
    pub fn new_print(origin: Rc<String>, offset: usize) -> (r: Self)
        requires
            slice_ok(origin@, 5, offset as int),
        ensures
            r@ == inner_at(origin@, 5, offset as int),
    {
        Self::new(origin, 5, offset)
    }

    /// The token `>=` at byte `offset`: a lexeme of 2 bytes from there.
    pub fn new_greater_equal(origin: Rc<String>, offset: usize) -> (r: Self)
        requires
            slice_ok(origin@, 2, offset as int),
        ensures
            r@ == inner_at(origin@, 2, offset as int),
    {
        Self::new(origin, 2, offset)
    }

    /// The token `>` at byte `offset`: a lexeme of 1 byte from there.
    pub fn new_greater(origin: Rc<String>, offset: usize) -> (r: Self)
        requires
            slice_ok(origin@, 1, offset as int),
        ensures
            r@ == inner_at(origin@, 1, offset as int),
    {
        Self::new(origin, 1, offset)
    }

    /// The token `<=` at byte `offset`: a lexeme of 2 bytes from there.
    pub fn new_less_equal(origin: Rc<String>, offset: usize) -> (r: Self)
        requires
            slice_ok(origin@, 2, offset as int),
        ensures
            r@ == inner_at(origin@, 2, offset as int),
    {
        Self::new(origin, 2, offset)
    }

    /// The token `<` at byte `offset`: a lexeme of 1 byte from there.
    pub fn new_less(origin: Rc<String>, offset: usize) -> (r: Self)
        requires
            slice_ok(origin@, 1, offset as int),
        ensures
            r@ == inner_at(origin@, 1, offset as int),
    {
        Self::new(origin, 1, offset)
    }

    /// The token `==` at byte `offset`: a lexeme of 2 bytes from there.
    pub fn new_equal_equal(origin: Rc<String>, offset: usize) -> (r: Self)
        requires
            slice_ok(origin@, 2, offset as int),
        ensures
            r@ == inner_at(origin@, 2, offset as int),
    {
        Self::new(origin, 2, offset)
    }

    /// The token `=` at byte `offset`: a lexeme of 1 byte from there.
    pub fn new_equal(origin: Rc<String>, offset: usize) -> (r: Self)
        requires
            slice_ok(origin@, 1, offset as int),
        ensures
            r@ == inner_at(origin@, 1, offset as int),
    {
        Self::new(origin, 1, offset)
    }

    /// The token `!=` at byte `offset`: a lexeme of 2 bytes from there.
    pub fn new_bang_equal(origin: Rc<String>, offset: usize) -> (r: Self)
        requires
            slice_ok(origin@, 2, offset as int),
        ensures
            r@ == inner_at(origin@, 2, offset as int),
    {
        Self::new(origin, 2, offset)
    }

    /// The token `!` at byte `offset`: a lexeme of 1 byte from there.
    pub fn new_bang(origin: Rc<String>, offset: usize) -> (r: Self)
        requires
            slice_ok(origin@, 1, offset as int),
        ensures
            r@ == inner_at(origin@, 1, offset as int),
    {
        Self::new(origin, 1, offset)
    }

    /// The token `/` at byte `offset`: a lexeme of 1 byte from there.
    pub fn new_slash(origin: Rc<String>, offset: usize) -> (r: Self)
        requires
            slice_ok(origin@, 1, offset as int),
        ensures
            r@ == inner_at(origin@, 1, offset as int),
    {
        Self::new(origin, 1, offset)
    }

    /// The token `*` at byte `offset`: a lexeme of 1 byte from there.
    pub fn new_star(origin: Rc<String>, offset: usize) -> (r: Self)
        requires
            slice_ok(origin@, 1, offset as int),
        ensures
            r@ == inner_at(origin@, 1, offset as int),
    {
        Self::new(origin, 1, offset)
    }

    /// The token `;` at byte `offset`: a lexeme of 1 byte from there.
    pub fn new_semicolon(origin: Rc<String>, offset: usize) -> (r: Self)
        requires
            slice_ok(origin@, 1, offset as int),
        ensures
            r@ == inner_at(origin@, 1, offset as int),
    {
        Self::new(origin, 1, offset)
    }

    /// The token `+` at byte `offset`: a lexeme of 1 byte from there.
    pub fn new_plus(origin: Rc<String>, offset: usize) -> (r: Self)
        requires
            slice_ok(origin@, 1, offset as int),
        ensures
            r@ == inner_at(origin@, 1, offset as int),
    {
        Self::new(origin, 1, offset)
    }

    /// The token `-` at byte `offset`: a lexeme of 1 byte from there.
    pub fn new_minus(origin: Rc<String>, offset: usize) -> (r: Self)
        requires
            slice_ok(origin@, 1, offset as int),
        ensures
            r@ == inner_at(origin@, 1, offset as int),
    {
        Self::new(origin, 1, offset)
    }

    /// The token `.` at byte `offset`: a lexeme of 1 byte from there.
    pub fn new_dot(origin: Rc<String>, offset: usize) -> (r: Self)
        requires
            slice_ok(origin@, 1, offset as int),
        ensures
            r@ == inner_at(origin@, 1, offset as int),
    {
        Self::new(origin, 1, offset)
    }

    /// The token `,` at byte `offset`: a lexeme of 1 byte from there.
    pub fn new_comma(origin: Rc<String>, offset: usize) -> (r: Self)
        requires
            slice_ok(origin@, 1, offset as int),
        ensures
            r@ == inner_at(origin@, 1, offset as int),
    {
        Self::new(origin, 1, offset)
    }

    /// The token `{` at byte `offset`: a lexeme of 1 byte from there.
    pub fn new_left_brace(origin: Rc<String>, offset: usize) -> (r: Self)
        requires
            slice_ok(origin@, 1, offset as int),
        ensures
            r@ == inner_at(origin@, 1, offset as int),
    {
        Self::new(origin, 1, offset)
    }

    /// The token `}` at byte `offset`: a lexeme of 1 byte from there.
    pub fn new_right_brace(origin: Rc<String>, offset: usize) -> (r: Self)
        requires
            slice_ok(origin@, 1, offset as int),
        ensures
            r@ == inner_at(origin@, 1, offset as int),
    {
        Self::new(origin, 1, offset)
    }

    /// The token `(` at byte `offset`: a lexeme of 1 byte from there.
    pub fn new_left_paren(origin: Rc<String>, offset: usize) -> (r: Self)
        requires
            slice_ok(origin@, 1, offset as int),
        ensures
            r@ == inner_at(origin@, 1, offset as int),
    {
        Self::new(origin, 1, offset)
    }

    /// The token `)` at byte `offset`: a lexeme of 1 byte from there.
    pub fn new_right_paren(origin: Rc<String>, offset: usize) -> (r: Self)
        requires
            slice_ok(origin@, 1, offset as int),
        ensures
            r@ == inner_at(origin@, 1, offset as int),
    {
        Self::new(origin, 1, offset)
    }

    /// The token whose lexeme is the `len` bytes from byte `offset` of
    /// `origin`.
    pub fn new(origin: Rc<String>, len: usize, offset: usize) -> (r: Self)
        requires
            slice_ok(origin@, len as int, offset as int),
        ensures
            r@ == inner_at(origin@, len as int, offset as int),
    {
        let chars = chars_of((*origin).as_str());
        proof {
            lemma_boundary_bound(origin@, offset + len);
        }
        let lexeme = string_from_chars(slice_chars(&chars, offset, offset + len).as_slice());
        TokenInner { origin, lexeme, offset }
    }

    /// The token of an invalid lexeme: as `new`.
    pub fn new_invalid(origin: Rc<String>, len: usize, offset: usize) -> (r: Self)
        requires
            slice_ok(origin@, len as int, offset as int),
        ensures
            r@ == inner_at(origin@, len as int, offset as int),
    {
        Self::new(origin, len, offset)
    }

    /// The line and column of the token, counting the first `offset`
    /// characters of the source.
    pub fn get_col(&self) -> (r: (usize, usize))
        ensures
            (r.0 as nat, r.1 as nat) == line_col(self@.origin.take(if self@.offset <= self@.origin.len() { self@.offset as int } else { self@.origin.len() as int })),
    {
        let chars = chars_of((*self.origin).as_str());
        let n = if self.offset <= chars.len() { self.offset } else { chars.len() };
        let mut line: usize = 1;
        let mut col: usize = 1;
        let mut k: usize = 0;
        while k < n
            invariant
                n <= chars@.len(),
                chars@.len() <= isize::MAX / 4,
                chars@ == self@.origin,
                k <= n,
                (line as nat, col as nat) == line_col(chars@.take(k as int)),
                line + col <= k + 2,
            decreases n - k,
        {
            assert(chars@.take(k as int + 1).drop_last() == chars@.take(k as int));
            if chars[k] == '\n' {
                line = line + 1;
                col = 1;
            } else {
                col = col + 1;
            }
            k = k + 1;
        }
        (line, col)
    }

    /// The token's text.
    pub fn lexeme(&self) -> (r: &str)
        ensures
            r@ == self@.lexeme,
    {
        self.lexeme.as_str()
    }

    /// A copy of the token's text.
    pub fn lexeme_owned(&self) -> (r: String)
        ensures
            r@ == self@.lexeme,
    {
        self.lexeme.clone()
    }

    /// Another token with the same text, lexeme and position.
    pub fn duplicate(&self) -> (r: Self)
        ensures
            r@ == self@,
    {
        TokenInner { origin: rc_clone(&self.origin), lexeme: self.lexeme.clone(), offset: self.offset }
    }

    /// Whether two tokens hold the same text, lexeme and position.
    pub fn same(&self, other: &TokenInner) -> (r: bool)
        ensures
            r == (self@ == other@),
    {
        self.offset == other.offset && str_eq(self.lexeme.as_str(), other.lexeme.as_str())
            && str_eq((*self.origin).as_str(), (*other.origin).as_str())
    }

    /// Takes the token's text out, leaving it empty.
    pub fn lexeme_take(&mut self) -> (r: String)
        ensures
            r@ == old(self)@.lexeme,
            final(self)@ == (InnerV { lexeme: Seq::empty(), ..old(self)@ }),
    {
        let mut taken = String::new();
        std::mem::swap(&mut taken, &mut self.lexeme);
        taken
    }

    /// The text shown for the token (what its `Display` writes):
    /// ``[Line: L, Column: C], code: `LEXEME` ``.
    pub fn to_string(&self) -> (r: String)
        ensures
            r@ == inner_text(self@),
    {
        let (line, col) = self.get_col();
        let mut out: Vec<char> = Vec::new();
        push_str_chars(&mut out, "[Line: ");
        push_decimal(&mut out, line);
        push_str_chars(&mut out, ", Column: ");
        push_decimal(&mut out, col);
        push_str_chars(&mut out, "], code: `");
        push_str_chars(&mut out, self.lexeme.as_str());
        push_str_chars(&mut out, "`");
        string_from_chars(out.as_slice())
    }
}

/// The kind of a token, without its text.
#[derive(Clone, Copy, Debug, PartialEq, Eq, Structural, Hash, PartialOrd, Ord)]
pub enum TokenKind {
    LeftParen,
    RightParen,
    LeftBrace,
    RightBrace,
    Comma,
    Dot,
    Minus,
    Plus,
    Semicolon,
    Slash,
    Star,
    Bang,
    BangEqual,
    Equal,
    EqualEqual,
    Greater,
    GreaterEqual,
    Less,
    LessEqual,
    Identifier,
    String,
    Number,
    And,
    Class,
    Else,
    Fun,
    For,
    If,
    Nil,
    Or,
    Print,
    Return,
    Super,
    This,
    True,
    False,
    Var,
    While,
    Eof,
    Comment,
    BlockComment,
    Break,
    Invalid,
}

/// A token of the Lox language: its kind and what it was read from.
#[derive(Clone, Debug, PartialEq, Eq, Hash, PartialOrd, Ord)]
pub enum Token {
    LeftParen { inner: TokenInner },
    RightParen { inner: TokenInner },
    LeftBrace { inner: TokenInner },
    RightBrace { inner: TokenInner },
    Comma { inner: TokenInner },
    Dot { inner: TokenInner },
    Minus { inner: TokenInner },
    Plus { inner: TokenInner },
    Semicolon { inner: TokenInner },
    Slash { inner: TokenInner },
    Star { inner: TokenInner },
    Bang { inner: TokenInner },
    BangEqual { inner: TokenInner },
    Equal { inner: TokenInner },
    EqualEqual { inner: TokenInner },
    Greater { inner: TokenInner },
    GreaterEqual { inner: TokenInner },
    Less { inner: TokenInner },
    LessEqual { inner: TokenInner },
    Identifier { inner: TokenInner },
    String { inner: TokenInner },
    Number { inner: TokenInner },
    And { inner: TokenInner },
    Class { inner: TokenInner },
    Else { inner: TokenInner },
    Fun { inner: TokenInner },
    For { inner: TokenInner },
    If { inner: TokenInner },
    Nil { inner: TokenInner },
    Or { inner: TokenInner },
    Print { inner: TokenInner },
    Return { inner: TokenInner },
    Super { inner: TokenInner },
    This { inner: TokenInner },
    True { inner: TokenInner },
    False { inner: TokenInner },
    Var { inner: TokenInner },
    While { inner: TokenInner },
    Eof { inner: TokenInner },
    Comment { inner: TokenInner },
    BlockComment { inner: TokenInner },
    Break { inner: TokenInner },
    Invalid { inner: TokenInner },
}

/// A token as mathematical values.
pub struct TokenV {
    pub kind: TokenKind,
    pub inner: InnerV,
}

/// The kind of a token.
pub open spec fn kind_of(t: Token) -> TokenKind {
    match t {
        Token::LeftParen { .. } => TokenKind::LeftParen,
        Token::RightParen { .. } => TokenKind::RightParen,
        Token::LeftBrace { .. } => TokenKind::LeftBrace,
        Token::RightBrace { .. } => TokenKind::RightBrace,
        Token::Comma { .. } => TokenKind::Comma,
        Token::Dot { .. } => TokenKind::Dot,
        Token::Minus { .. } => TokenKind::Minus,
        Token::Plus { .. } => TokenKind::Plus,
        Token::Semicolon { .. } => TokenKind::Semicolon,
        Token::Slash { .. } => TokenKind::Slash,
        Token::Star { .. } => TokenKind::Star,
        Token::Bang { .. } => TokenKind::Bang,
        Token::BangEqual { .. } => TokenKind::BangEqual,
        Token::Equal { .. } => TokenKind::Equal,
        Token::EqualEqual { .. } => TokenKind::EqualEqual,
        Token::Greater { .. } => TokenKind::Greater,
        Token::GreaterEqual { .. } => TokenKind::GreaterEqual,
        Token::Less { .. } => TokenKind::Less,
        Token::LessEqual { .. } => TokenKind::LessEqual,
        Token::Identifier { .. } => TokenKind::Identifier,
        Token::String { .. } => TokenKind::String,
        Token::Number { .. } => TokenKind::Number,
        Token::And { .. } => TokenKind::And,
        Token::Class { .. } => TokenKind::Class,
        Token::Else { .. } => TokenKind::Else,
        Token::Fun { .. } => TokenKind::Fun,
        Token::For { .. } => TokenKind::For,
        Token::If { .. } => TokenKind::If,
        Token::Nil { .. } => TokenKind::Nil,
        Token::Or { .. } => TokenKind::Or,
        Token::Print { .. } => TokenKind::Print,
        Token::Return { .. } => TokenKind::Return,
        Token::Super { .. } => TokenKind::Super,
        Token::This { .. } => TokenKind::This,
        Token::True { .. } => TokenKind::True,
        Token::False { .. } => TokenKind::False,
        Token::Var { .. } => TokenKind::Var,
        Token::While { .. } => TokenKind::While,
        Token::Eof { .. } => TokenKind::Eof,
        Token::Comment { .. } => TokenKind::Comment,
        Token::BlockComment { .. } => TokenKind::BlockComment,
        Token::Break { .. } => TokenKind::Break,
        Token::Invalid { .. } => TokenKind::Invalid,
    }
}

/// The text and position of a token.
pub open spec fn inner_of(t: Token) -> TokenInner {
    match t {
        Token::LeftParen { inner } => inner,
        Token::RightParen { inner } => inner,
        Token::LeftBrace { inner } => inner,
        Token::RightBrace { inner } => inner,
        Token::Comma { inner } => inner,
        Token::Dot { inner } => inner,
        Token::Minus { inner } => inner,
        Token::Plus { inner } => inner,
        Token::Semicolon { inner } => inner,
        Token::Slash { inner } => inner,
        Token::Star { inner } => inner,
        Token::Bang { inner } => inner,
        Token::BangEqual { inner } => inner,
        Token::Equal { inner } => inner,
        Token::EqualEqual { inner } => inner,
        Token::Greater { inner } => inner,
        Token::GreaterEqual { inner } => inner,
        Token::Less { inner } => inner,
        Token::LessEqual { inner } => inner,
        Token::Identifier { inner } => inner,
        Token::String { inner } => inner,
        Token::Number { inner } => inner,
        Token::And { inner } => inner,
        Token::Class { inner } => inner,
        Token::Else { inner } => inner,
        Token::Fun { inner } => inner,
        Token::For { inner } => inner,
        Token::If { inner } => inner,
        Token::Nil { inner } => inner,
        Token::Or { inner } => inner,
        Token::Print { inner } => inner,
        Token::Return { inner } => inner,
        Token::Super { inner } => inner,
        Token::This { inner } => inner,
        Token::True { inner } => inner,
        Token::False { inner } => inner,
        Token::Var { inner } => inner,
        Token::While { inner } => inner,
        Token::Eof { inner } => inner,
        Token::Comment { inner } => inner,
        Token::BlockComment { inner } => inner,
        Token::Break { inner } => inner,
        Token::Invalid { inner } => inner,
    }
}

/// The token of a kind, holding `inner`.
pub open spec fn token_of(kind: TokenKind, inner: TokenInner) -> Token {
    match kind {
        TokenKind::LeftParen => Token::LeftParen { inner },
        TokenKind::RightParen => Token::RightParen { inner },
        TokenKind::LeftBrace => Token::LeftBrace { inner },
        TokenKind::RightBrace => Token::RightBrace { inner },
        TokenKind::Comma => Token::Comma { inner },
        TokenKind::Dot => Token::Dot { inner },
        TokenKind::Minus => Token::Minus { inner },
        TokenKind::Plus => Token::Plus { inner },
        TokenKind::Semicolon => Token::Semicolon { inner },
        TokenKind::Slash => Token::Slash { inner },
        TokenKind::Star => Token::Star { inner },
        TokenKind::Bang => Token::Bang { inner },
        TokenKind::BangEqual => Token::BangEqual { inner },
        TokenKind::Equal => Token::Equal { inner },
        TokenKind::EqualEqual => Token::EqualEqual { inner },
        TokenKind::Greater => Token::Greater { inner },
        TokenKind::GreaterEqual => Token::GreaterEqual { inner },
        TokenKind::Less => Token::Less { inner },
        TokenKind::LessEqual => Token::LessEqual { inner },
        TokenKind::Identifier => Token::Identifier { inner },
        TokenKind::String => Token::String { inner },
        TokenKind::Number => Token::Number { inner },
        TokenKind::And => Token::And { inner },
        TokenKind::Class => Token::Class { inner },
        TokenKind::Else => Token::Else { inner },
        TokenKind::Fun => Token::Fun { inner },
        TokenKind::For => Token::For { inner },
        TokenKind::If => Token::If { inner },
        TokenKind::Nil => Token::Nil { inner },
        TokenKind::Or => Token::Or { inner },
        TokenKind::Print => Token::Print { inner },
        TokenKind::Return => Token::Return { inner },
        TokenKind::Super => Token::Super { inner },
        TokenKind::This => Token::This { inner },
        TokenKind::True => Token::True { inner },
        TokenKind::False => Token::False { inner },
        TokenKind::Var => Token::Var { inner },
        TokenKind::While => Token::While { inner },
        TokenKind::Eof => Token::Eof { inner },
        TokenKind::Comment => Token::Comment { inner },
        TokenKind::BlockComment => Token::BlockComment { inner },
        TokenKind::Break => Token::Break { inner },
        TokenKind::Invalid => Token::Invalid { inner },
    }
}

impl View for Token {
    type V = TokenV;

    open spec fn view(&self) -> TokenV {
        TokenV { kind: kind_of(*self), inner: inner_of(*self)@ }
    }
}

/// Whether a kind is a keyword.
pub open spec fn is_keyword_kind(k: TokenKind) -> bool {
    k == TokenKind::And || k == TokenKind::Class || k == TokenKind::Else || k == TokenKind::Fun || k == TokenKind::For || k == TokenKind::If || k == TokenKind::Nil || k == TokenKind::Or || k == TokenKind::Print || k == TokenKind::Return || k == TokenKind::Super || k == TokenKind::This || k == TokenKind::True || k == TokenKind::False || k == TokenKind::Var || k == TokenKind::While || k == TokenKind::Break
}

impl Token {
    /// The token of kind `kind` holding `inner`.
    pub fn from_kind(kind: TokenKind, inner: TokenInner) -> (r: Token)
        ensures
            r == token_of(kind, inner),
            r@ == (TokenV { kind, inner: inner@ }),
    {
        match kind {
            TokenKind::LeftParen => Token::LeftParen { inner },
            TokenKind::RightParen => Token::RightParen { inner },
            TokenKind::LeftBrace => Token::LeftBrace { inner },
            TokenKind::RightBrace => Token::RightBrace { inner },
            TokenKind::Comma => Token::Comma { inner },
            TokenKind::Dot => Token::Dot { inner },
            TokenKind::Minus => Token::Minus { inner },
            TokenKind::Plus => Token::Plus { inner },
            TokenKind::Semicolon => Token::Semicolon { inner },
            TokenKind::Slash => Token::Slash { inner },
            TokenKind::Star => Token::Star { inner },
            TokenKind::Bang => Token::Bang { inner },
            TokenKind::BangEqual => Token::BangEqual { inner },
            TokenKind::Equal => Token::Equal { inner },
            TokenKind::EqualEqual => Token::EqualEqual { inner },
            TokenKind::Greater => Token::Greater { inner },
            TokenKind::GreaterEqual => Token::GreaterEqual { inner },
            TokenKind::Less => Token::Less { inner },
            TokenKind::LessEqual => Token::LessEqual { inner },
            TokenKind::Identifier => Token::Identifier { inner },
            TokenKind::String => Token::String { inner },
            TokenKind::Number => Token::Number { inner },
            TokenKind::And => Token::And { inner },
            TokenKind::Class => Token::Class { inner },
            TokenKind::Else => Token::Else { inner },
            TokenKind::Fun => Token::Fun { inner },
            TokenKind::For => Token::For { inner },
            TokenKind::If => Token::If { inner },
            TokenKind::Nil => Token::Nil { inner },
            TokenKind::Or => Token::Or { inner },
            TokenKind::Print => Token::Print { inner },
            TokenKind::Return => Token::Return { inner },
            TokenKind::Super => Token::Super { inner },
            TokenKind::This => Token::This { inner },
            TokenKind::True => Token::True { inner },
            TokenKind::False => Token::False { inner },
            TokenKind::Var => Token::Var { inner },
            TokenKind::While => Token::While { inner },
            TokenKind::Eof => Token::Eof { inner },
            TokenKind::Comment => Token::Comment { inner },
            TokenKind::BlockComment => Token::BlockComment { inner },
            TokenKind::Break => Token::Break { inner },
            TokenKind::Invalid => Token::Invalid { inner },
        }
    }

    /// The token's kind.
    pub fn kind(&self) -> (r: TokenKind)
        ensures
            r == kind_of(*self),
    {
        match self {
            Token::LeftParen { .. } => TokenKind::LeftParen,
            Token::RightParen { .. } => TokenKind::RightParen,
            Token::LeftBrace { .. } => TokenKind::LeftBrace,
            Token::RightBrace { .. } => TokenKind::RightBrace,
            Token::Comma { .. } => TokenKind::Comma,
            Token::Dot { .. } => TokenKind::Dot,
            Token::Minus { .. } => TokenKind::Minus,
            Token::Plus { .. } => TokenKind::Plus,
            Token::Semicolon { .. } => TokenKind::Semicolon,
            Token::Slash { .. } => TokenKind::Slash,
            Token::Star { .. } => TokenKind::Star,
            Token::Bang { .. } => TokenKind::Bang,
            Token::BangEqual { .. } => TokenKind::BangEqual,
            Token::Equal { .. } => TokenKind::Equal,
            Token::EqualEqual { .. } => TokenKind::EqualEqual,
            Token::Greater { .. } => TokenKind::Greater,
            Token::GreaterEqual { .. } => TokenKind::GreaterEqual,
            Token::Less { .. } => TokenKind::Less,
            Token::LessEqual { .. } => TokenKind::LessEqual,
            Token::Identifier { .. } => TokenKind::Identifier,
            Token::String { .. } => TokenKind::String,
            Token::Number { .. } => TokenKind::Number,
            Token::And { .. } => TokenKind::And,
            Token::Class { .. } => TokenKind::Class,
            Token::Else { .. } => TokenKind::Else,
            Token::Fun { .. } => TokenKind::Fun,
            Token::For { .. } => TokenKind::For,
            Token::If { .. } => TokenKind::If,
            Token::Nil { .. } => TokenKind::Nil,
            Token::Or { .. } => TokenKind::Or,
            Token::Print { .. } => TokenKind::Print,
            Token::Return { .. } => TokenKind::Return,
            Token::Super { .. } => TokenKind::Super,
            Token::This { .. } => TokenKind::This,
            Token::True { .. } => TokenKind::True,
            Token::False { .. } => TokenKind::False,
            Token::Var { .. } => TokenKind::Var,
            Token::While { .. } => TokenKind::While,
            Token::Eof { .. } => TokenKind::Eof,
            Token::Comment { .. } => TokenKind::Comment,
            Token::BlockComment { .. } => TokenKind::BlockComment,
            Token::Break { .. } => TokenKind::Break,
            Token::Invalid { .. } => TokenKind::Invalid,
        }
    }

    /// The token's text and position.
    pub fn inner(&self) -> (r: &TokenInner)
        ensures
            *r == inner_of(*self),
    {
        match self {
            Token::LeftParen { inner } => inner,
            Token::RightParen { inner } => inner,
            Token::LeftBrace { inner } => inner,
            Token::RightBrace { inner } => inner,
            Token::Comma { inner } => inner,
            Token::Dot { inner } => inner,
            Token::Minus { inner } => inner,
            Token::Plus { inner } => inner,
            Token::Semicolon { inner } => inner,
            Token::Slash { inner } => inner,
            Token::Star { inner } => inner,
            Token::Bang { inner } => inner,
            Token::BangEqual { inner } => inner,
            Token::Equal { inner } => inner,
            Token::EqualEqual { inner } => inner,
            Token::Greater { inner } => inner,
            Token::GreaterEqual { inner } => inner,
            Token::Less { inner } => inner,
            Token::LessEqual { inner } => inner,
            Token::Identifier { inner } => inner,
            Token::String { inner } => inner,
            Token::Number { inner } => inner,
            Token::And { inner } => inner,
            Token::Class { inner } => inner,
            Token::Else { inner } => inner,
            Token::Fun { inner } => inner,
            Token::For { inner } => inner,
            Token::If { inner } => inner,
            Token::Nil { inner } => inner,
            Token::Or { inner } => inner,
            Token::Print { inner } => inner,
            Token::Return { inner } => inner,
            Token::Super { inner } => inner,
            Token::This { inner } => inner,
            Token::True { inner } => inner,
            Token::False { inner } => inner,
            Token::Var { inner } => inner,
            Token::While { inner } => inner,
            Token::Eof { inner } => inner,
            Token::Comment { inner } => inner,
            Token::BlockComment { inner } => inner,
            Token::Break { inner } => inner,
            Token::Invalid { inner } => inner,
        }
    }

    /// The token's text.
    pub fn lexeme(&self) -> (r: &str)
        ensures
            r@ == self@.inner.lexeme,
    {
        self.inner().lexeme()
    }

    /// The token's text and position, taking the token.
    pub fn into_inner(self) -> (r: TokenInner)
        ensures
            r == inner_of(self),
    {
        match self {
            Token::LeftParen { inner } => inner,
            Token::RightParen { inner } => inner,
            Token::LeftBrace { inner } => inner,
            Token::RightBrace { inner } => inner,
            Token::Comma { inner } => inner,
            Token::Dot { inner } => inner,
            Token::Minus { inner } => inner,
            Token::Plus { inner } => inner,
            Token::Semicolon { inner } => inner,
            Token::Slash { inner } => inner,
            Token::Star { inner } => inner,
            Token::Bang { inner } => inner,
            Token::BangEqual { inner } => inner,
            Token::Equal { inner } => inner,
            Token::EqualEqual { inner } => inner,
            Token::Greater { inner } => inner,
            Token::GreaterEqual { inner } => inner,
            Token::Less { inner } => inner,
            Token::LessEqual { inner } => inner,
            Token::Identifier { inner } => inner,
            Token::String { inner } => inner,
            Token::Number { inner } => inner,
            Token::And { inner } => inner,
            Token::Class { inner } => inner,
            Token::Else { inner } => inner,
            Token::Fun { inner } => inner,
            Token::For { inner } => inner,
            Token::If { inner } => inner,
            Token::Nil { inner } => inner,
            Token::Or { inner } => inner,
            Token::Print { inner } => inner,
            Token::Return { inner } => inner,
            Token::Super { inner } => inner,
            Token::This { inner } => inner,
            Token::True { inner } => inner,
            Token::False { inner } => inner,
            Token::Var { inner } => inner,
            Token::While { inner } => inner,
            Token::Eof { inner } => inner,
            Token::Comment { inner } => inner,
            Token::BlockComment { inner } => inner,
            Token::Break { inner } => inner,
            Token::Invalid { inner } => inner,
        }
    }

    /// Whether the token is a keyword (`and`, `class`, ..., `while`, `break`).
    pub fn is_keyword(&self) -> (r: bool)
        ensures
            r == is_keyword_kind(self@.kind),
    {
        match self {
            Token::And { .. } => true,
            Token::Class { .. } => true,
            Token::Else { .. } => true,
            Token::Fun { .. } => true,
            Token::For { .. } => true,
            Token::If { .. } => true,
            Token::Nil { .. } => true,
            Token::Or { .. } => true,
            Token::Print { .. } => true,
            Token::Return { .. } => true,
            Token::Super { .. } => true,
            Token::This { .. } => true,
            Token::True { .. } => true,
            Token::False { .. } => true,
            Token::Var { .. } => true,
            Token::While { .. } => true,
            Token::Break { .. } => true,
            _ => false,
        }
    }

    /// Another token of the same kind with the same text, lexeme and
    /// position.
    pub fn duplicate(&self) -> (r: Token)
        ensures
            r@ == self@,
    {
        Token::from_kind(self.kind(), self.inner().duplicate())
    }

    /// Whether two tokens are of the same kind and hold the same text,
    /// lexeme and position.
    pub fn same(&self, other: &Token) -> (r: bool)
        ensures
            r == (self@ == other@),
    {
        self.kind() == other.kind() && self.inner().same(other.inner())
    }

    /// The text shown for the token (what its `Display` writes).
    pub fn to_string(&self) -> (r: String)
        ensures
            r@ == inner_text(self@.inner),
    {
        self.inner().to_string()
    }
}

} // verus!

//! The Lox scanner: turns source text into tokens.
use std::rc::Rc;

use vstd::prelude::*;

use crate::text::{
    boundary, byte_len, byte_pos, byte_slice, chars_of, is_boundary, lemma_byte_len_bound,
    lemma_byte_pos_mono, lemma_byte_pos_step, lemma_byte_pos_zero, lemma_byte_slice_span,
    slice_chars, spec_is_ascii_alphabetic, spec_is_ascii_alphanumeric, spec_is_ascii_digit,
    string_from_chars, utf8_width,
};
use crate::token::{inner_at, InnerV, Token, TokenInner, TokenKind, TokenV};

verus! {

/// White space as `char::is_whitespace` defines it (the Unicode
/// `White_Space` property).
pub open spec fn spec_is_whitespace(c: char) -> bool {
    ('\t' <= c && c <= '\r') || c == ' ' || c == '\u{85}' || c == '\u{a0}' || c == '\u{1680}'
        || ('\u{2000}' <= c && c <= '\u{200a}') || c == '\u{2028}' || c == '\u{2029}'
        || c == '\u{202f}' || c == '\u{205f}' || c == '\u{3000}'
}

/// `char::is_whitespace`.
pub fn is_whitespace(c: char) -> (b: bool)
    ensures
        b == spec_is_whitespace(c),
{
    ('\t' <= c && c <= '\r') || c == ' ' || c == '\u{85}' || c == '\u{a0}' || c == '\u{1680}'
        || ('\u{2000}' <= c && c <= '\u{200a}') || c == '\u{2028}' || c == '\u{2029}'
        || c == '\u{202f}' || c == '\u{205f}' || c == '\u{3000}'
}

/// The classes of characters that the scanner reads runs of.
#[derive(Clone, Copy, Debug, PartialEq, Eq)]
pub enum Run {
    /// ASCII digits.
    Digits,
    /// ASCII letters, digits and `_`.
    Ident,
    /// Characters other than ASCII letters, digits and white space.
    Other,
    /// Characters other than a newline.
    Line,
}

/// Whether `c` continues a run of class `r`.
pub open spec fn in_run(r: Run, c: char) -> bool {
    match r {
        Run::Digits => spec_is_ascii_digit(c),
        Run::Ident => spec_is_ascii_alphanumeric(c) || c == '_',
        Run::Other => !(spec_is_ascii_alphanumeric(c) || spec_is_whitespace(c)),
        Run::Line => c != '\n',
    }
}

/// The index just after the run of class `r` that starts at `i`.
pub open spec fn run_end(s: Seq<char>, i: int, r: Run) -> int
    decreases s.len() - i,
{
    if i < 0 || i >= s.len() || !in_run(r, s[i]) {
        i
    } else {
        run_end(s, i + 1, r)
    }
}

/// The kind of the token that a single character makes, if it makes one on
/// its own: `( ) { } , . - + ; *`.
pub open spec fn single_kind(c: char) -> Option<TokenKind> {
    if c == '(' {
        Some(TokenKind::LeftParen)
    } else if c == ')' {
        Some(TokenKind::RightParen)
    } else if c == '{' {
        Some(TokenKind::LeftBrace)
    } else if c == '}' {
        Some(TokenKind::RightBrace)
    } else if c == ',' {
        Some(TokenKind::Comma)
    } else if c == '.' {
        Some(TokenKind::Dot)
    } else if c == '-' {
        Some(TokenKind::Minus)
    } else if c == '+' {
        Some(TokenKind::Plus)
    } else if c == ';' {
        Some(TokenKind::Semicolon)
    } else if c == '*' {
        Some(TokenKind::Star)
    } else {
        None
    }
}

/// The kinds of `c` alone and of `c` followed by `=`, for `! = < >`.
pub open spec fn pair_kind(c: char) -> Option<(TokenKind, TokenKind)> {
    if c == '!' {
        Some((TokenKind::Bang, TokenKind::BangEqual))
    } else if c == '=' {
        Some((TokenKind::Equal, TokenKind::EqualEqual))
    } else if c == '<' {
        Some((TokenKind::Less, TokenKind::LessEqual))
    } else if c == '>' {
        Some((TokenKind::Greater, TokenKind::GreaterEqual))
    } else {
        None
    }
}

/// The kind of a word: a keyword's own kind, `Identifier` otherwise.
pub open spec fn keyword_kind(word: Seq<char>) -> TokenKind {
    if word.len() == 3 && word[0] == 'a' && word[1] == 'n' && word[2] == 'd' {
        TokenKind::And
    } else
    if word.len() == 2 && word[0] == 'o' && word[1] == 'r' {
        TokenKind::Or
    } else
    if word.len() == 5 && word[0] == 'c' && word[1] == 'l' && word[2] == 'a' && word[3] == 's' && word[4] == 's' {
        TokenKind::Class
    } else
    if word.len() == 5 && word[0] == 's' && word[1] == 'u' && word[2] == 'p' && word[3] == 'e' && word[4] == 'r' {
        TokenKind::Super
    } else
    if word.len() == 4 && word[0] == 't' && word[1] == 'h' && word[2] == 'i' && word[3] == 's' {
        TokenKind::This
    } else
    if word.len() == 4 && word[0] == 't' && word[1] == 'r' && word[2] == 'u' && word[3] == 'e' {
        TokenKind::True
    } else
    if word.len() == 5 && word[0] == 'f' && word[1] == 'a' && word[2] == 'l' && word[3] == 's' && word[4] == 'e' {
        TokenKind::False
    } else
    if word.len() == 5 && word[0] == 'w' && word[1] == 'h' && word[2] == 'i' && word[3] == 'l' && word[4] == 'e' {
        TokenKind::While
    } else
    if word.len() == 3 && word[0] == 'f' && word[1] == 'o' && word[2] == 'r' {
        TokenKind::For
    } else
    if word.len() == 2 && word[0] == 'i' && word[1] == 'f' {
        TokenKind::If
    } else
    if word.len() == 4 && word[0] == 'e' && word[1] == 'l' && word[2] == 's' && word[3] == 'e' {
        TokenKind::Else
    } else
    if word.len() == 5 && word[0] == 'p' && word[1] == 'r' && word[2] == 'i' && word[3] == 'n' && word[4] == 't' {
        TokenKind::Print
    } else
    if word.len() == 3 && word[0] == 'f' && word[1] == 'u' && word[2] == 'n' {
        TokenKind::Fun
    } else
    if word.len() == 6 && word[0] == 'r' && word[1] == 'e' && word[2] == 't' && word[3] == 'u' && word[4] == 'r' && word[5] == 'n' {
        TokenKind::Return
    } else
    if word.len() == 3 && word[0] == 'v' && word[1] == 'a' && word[2] == 'r' {
        TokenKind::Var
    } else
    if word.len() == 3 && word[0] == 'n' && word[1] == 'i' && word[2] == 'l' {
        TokenKind::Nil
    } else
    if word.len() == 5 && word[0] == 'b' && word[1] == 'r' && word[2] == 'e' && word[3] == 'a' && word[4] == 'k' {
        TokenKind::Break
    } else {
        TokenKind::Identifier
    }
}

/// The token of kind `kind` whose lexeme is the characters from `i` up to
/// `j` of `s`.
pub open spec fn span_token(s: Seq<char>, kind: TokenKind, i: int, j: int) -> TokenV {
    TokenV {
        kind,
        inner: InnerV { origin: s, lexeme: s.subrange(i, j), offset: byte_pos(s, i) },
    }
}

/// The state after reading the body of a string literal from `pos`: the
/// position after it, the number of bytes of its characters (backslashes
/// that escape the next character and the closing quote not counted), and
/// the last character read (`'\0'` where none was).
pub open spec fn str_scan(s: Seq<char>, pos: int, len: nat, last: char, esc: bool) -> (int, nat, char)
    decreases s.len() - pos,
{
    if pos < 0 || pos >= s.len() {
        (pos, len, last)
    } else {
        let c = s[pos];
        if esc {
            str_scan(s, pos + 1, len + crate::text::spec_utf8_width(c), c, false)
        } else if c == '"' {
            (pos + 1, len, c)
        } else if c == '\\' {
            str_scan(s, pos + 1, len, c, true)
        } else {
            str_scan(s, pos + 1, len + crate::text::spec_utf8_width(c), c, false)
        }
    }
}

/// The index of the `*` of the first `*/` at or after `j`.
pub open spec fn find_close(s: Seq<char>, j: int) -> Option<int>
    decreases s.len() - j,
{
    if j < 0 || j + 1 >= s.len() {
        None
    } else if s[j] == '*' && s[j + 1] == '/' {
        Some(j)
    } else {
        find_close(s, j + 1)
    }
}

/// One step of the scanner at index `i` of `s`: the token it yields, if
/// any, and the index where it goes on; `None` where the scanner panics (a
/// comment or a string whose lexeme would end inside a character).
pub open spec fn scan_step(s: Seq<char>, i: int) -> Option<(Option<TokenV>, int)> {
    let c = s[i];
    let n = s.len() as int;
    let b = byte_pos(s, i) as int;
    if spec_is_whitespace(c) {
        Some((None, i + 1))
    } else if single_kind(c) is Some {
        Some((Some(span_token(s, single_kind(c).unwrap(), i, i + 1)), i + 1))
    } else if pair_kind(c) is Some {
        if i + 1 < n && s[i + 1] == '=' {
            Some((Some(span_token(s, pair_kind(c).unwrap().1, i, i + 2)), i + 2))
        } else {
            Some((Some(span_token(s, pair_kind(c).unwrap().0, i, i + 1)), i + 1))
        }
    } else if c == '/' {
        if i + 1 < n && s[i + 1] == '/' {
            let e = run_end(s, i + 2, Run::Line);
            if is_boundary(s, byte_pos(s, e) - 2) {
                Some((None, if e < n { e + 1 } else { n }))
            } else {
                None
            }
        } else if i + 1 < n && s[i + 1] == '*' {
            match find_close(s, i + 2) {
                Some(k) => if is_boundary(s, byte_pos(s, k) - 2) {
                    Some((None, k + 2))
                } else {
                    None
                },
                None => Some((Some(span_token(s, TokenKind::Invalid, i, n)), n)),
            }
        } else {
            Some((Some(span_token(s, TokenKind::Slash, i, i + 1)), i + 1))
        }
    } else if c == '"' {
        let (e, len, last) = str_scan(s, i + 1, 0, '\0', false);
        if last == '"' {
            match byte_slice(s, b + 1, b + 1 + len) {
                Some(lexeme) => Some(
                    (
                        Some(
                            TokenV {
                                kind: TokenKind::String,
                                inner: InnerV { origin: s, lexeme, offset: b as nat },
                            },
                        ),
                        e,
                    ),
                ),
                None => None,
            }
        } else {
            Some((Some(span_token(s, TokenKind::Invalid, i, n)), e))
        }
    } else if spec_is_ascii_digit(c) {
        let p = run_end(s, i + 1, Run::Digits);
        if p + 1 < n && s[p] == '.' && spec_is_ascii_digit(s[p + 1]) {
            let q = run_end(s, p + 1, Run::Digits);
            Some((Some(span_token(s, TokenKind::Number, i, q)), q))
        } else {
            Some((Some(span_token(s, TokenKind::Number, i, p)), p))
        }
    } else if spec_is_ascii_alphabetic(c) || c == '_' {
        let e = run_end(s, i + 1, Run::Ident);
        Some((Some(span_token(s, keyword_kind(s.subrange(i, e)), i, e)), e))
    } else {
        let e = run_end(s, i + 1, Run::Other);
        Some((Some(span_token(s, TokenKind::Invalid, i, e)), e))
    }
}

/// The tokens that the scanner yields from index `i` of `s` to its end, or
/// `None` where it panics on the way.
pub open spec fn scan_from(s: Seq<char>, i: int) -> Option<Seq<TokenV>>
    decreases s.len() - i,
{
    if i < 0 || i >= s.len() {
        Some(Seq::empty())
    } else {
        match scan_step(s, i) {
            None => None,
            Some((t, j)) => if i < j <= s.len() {
                match scan_from(s, j) {
                    None => None,
                    Some(rest) => Some(
                        match t {
                            Some(tv) => seq![tv] + rest,
                            None => rest,
                        },
                    ),
                }
            } else {
                None
            },
        }
    }
}

/// The tokens that scanning `source` yields, or `None` where the scanner
/// panics on it.
pub open spec fn scan(source: Seq<char>) -> Option<Seq<TokenV>> {
    scan_from(source, 0)
}

/// The views of a sequence of tokens.
pub open spec fn views(v: Seq<Token>) -> Seq<TokenV> {
    v.map_values(|t: Token| t@)
}

/// A token whose lexeme is the characters from `i` up to `j` is the one
/// that `TokenInner::new` cuts out between their byte offsets.
pub proof fn lemma_span_token_is_slice(s: Seq<char>, kind: TokenKind, i: int, j: int)
    requires
        0 <= i <= j <= s.len(),
    ensures
        span_token(s, kind, i, j).inner == inner_at(
            s,
            byte_pos(s, j) - byte_pos(s, i),
            byte_pos(s, i) as int,
        ),
{
    lemma_byte_slice_span(s, i, j);
}

/// A shared handle on the same source text.
///
/// Trusted: calls `Rc::clone`, which hands out another pointer to the same
/// value; the contract claims the clone holds the same text.
#[verifier::external_body]
pub fn rc_clone(r: &Rc<String>) -> (c: Rc<String>)
    ensures
        c@ == r@,
{
    Rc::clone(r)
}

/// Reads a run of class `r` from index `i`: returns the index after it and
/// its byte offset.
fn read_run(s: &Vec<char>, i: usize, bi: usize, r: Run) -> (res: (usize, usize))
    requires
        i <= s@.len(),
        s@.len() <= isize::MAX / 4,
        bi == byte_pos(s@, i as int),
    ensures
        res.0 == run_end(s@, i as int, r),
        i <= res.0 <= s@.len(),
        res.0 < s@.len() ==> !in_run(r, s@[res.0 as int]),
        res.1 == byte_pos(s@, res.0 as int),
{
    let mut j = i;
    let mut bj = bi;
    while j < s.len()
        invariant
            i <= j <= s@.len(),
            s@.len() <= isize::MAX / 4,
            bj == byte_pos(s@, j as int),
            run_end(s@, j as int, r) == run_end(s@, i as int, r),
        ensures
            j == run_end(s@, i as int, r),
            j < s@.len() ==> !in_run(r, s@[j as int]),
            i <= j <= s@.len(),
            bj == byte_pos(s@, j as int),
        decreases s@.len() - j,
    {
        let c = s[j];
        let more = match r {
            Run::Digits => '0' <= c && c <= '9',
            Run::Ident => ('a' <= c && c <= 'z') || ('A' <= c && c <= 'Z') || ('0' <= c && c <= '9')
                || c == '_',
            Run::Other => !(('a' <= c && c <= 'z') || ('A' <= c && c <= 'Z') || ('0' <= c && c
                <= '9') || is_whitespace(c)),
            Run::Line => c != '\n',
        };
        assert(more == in_run(r, s@[j as int]));
        if !more {
            break;
        }
        proof {
            lemma_byte_pos_step(s@, j as int);
            lemma_byte_pos_mono(s@, j as int + 1, s@.len() as int);
            lemma_byte_len_bound(s@);
            crate::text::lemma_byte_pos_full(s@);
        }
        bj = bj + utf8_width(c);
        j = j + 1;
    }
    (j, bj)
}

/// The characters from `i` up to `j`.
fn span_chars(s: &Vec<char>, i: usize, j: usize) -> (r: Vec<char>)
    requires
        i <= j <= s@.len(),
    ensures
        r@ == s@.subrange(i as int, j as int),
{
    let mut r: Vec<char> = Vec::new();
    let mut k = i;
    while k < j
        invariant
            i <= k <= j <= s@.len(),
            r@ == s@.subrange(i as int, k as int),
        decreases j - k,
    {
        r.push(s[k]);
        k = k + 1;
        assert(r@ == s@.subrange(i as int, k as int));
    }
    r
}

/// The token of kind `kind` for the characters from `i` up to `j`.
fn span(origin: &Rc<String>, s: &Vec<char>, kind: TokenKind, i: usize, j: usize, bi: usize) -> (t: Token)
    requires
        i <= j <= s@.len(),
        origin@ == s@,
        bi == byte_pos(s@, i as int),
    ensures
        t@ == span_token(s@, kind, i as int, j as int),
{
    let lexeme = string_from_chars(span_chars(s, i, j).as_slice());
    Token::from_kind(kind, TokenInner::from_parts(rc_clone(origin), lexeme, bi))
}

/// The kind of the word from `i` up to `e`: a keyword's own kind, or
/// `Identifier`.
fn word_kind(s: &Vec<char>, i: usize, e: usize) -> (k: TokenKind)
    requires
        i <= e <= s@.len(),
    ensures
        k == keyword_kind(s@.subrange(i as int, e as int)),
{
    let ghost word = s@.subrange(i as int, e as int);
    assert(forall|k: int| 0 <= k < e - i ==> word[k] == s@[i + k]);
    if e - i == 3 && s[i + 0] == 'a' && s[i + 1] == 'n' && s[i + 2] == 'd' {
        TokenKind::And
    } else
    if e - i == 2 && s[i + 0] == 'o' && s[i + 1] == 'r' {
        TokenKind::Or
    } else
    if e - i == 5 && s[i + 0] == 'c' && s[i + 1] == 'l' && s[i + 2] == 'a' && s[i + 3] == 's' && s[i + 4] == 's' {
        TokenKind::Class
    } else
    if e - i == 5 && s[i + 0] == 's' && s[i + 1] == 'u' && s[i + 2] == 'p' && s[i + 3] == 'e' && s[i + 4] == 'r' {
        TokenKind::Super
    } else
    if e - i == 4 && s[i + 0] == 't' && s[i + 1] == 'h' && s[i + 2] == 'i' && s[i + 3] == 's' {
        TokenKind::This
    } else
    if e - i == 4 && s[i + 0] == 't' && s[i + 1] == 'r' && s[i + 2] == 'u' && s[i + 3] == 'e' {
        TokenKind::True
    } else
    if e - i == 5 && s[i + 0] == 'f' && s[i + 1] == 'a' && s[i + 2] == 'l' && s[i + 3] == 's' && s[i + 4] == 'e' {
        TokenKind::False
    } else
    if e - i == 5 && s[i + 0] == 'w' && s[i + 1] == 'h' && s[i + 2] == 'i' && s[i + 3] == 'l' && s[i + 4] == 'e' {
        TokenKind::While
    } else
    if e - i == 3 && s[i + 0] == 'f' && s[i + 1] == 'o' && s[i + 2] == 'r' {
        TokenKind::For
    } else
    if e - i == 2 && s[i + 0] == 'i' && s[i + 1] == 'f' {
        TokenKind::If
    } else
    if e - i == 4 && s[i + 0] == 'e' && s[i + 1] == 'l' && s[i + 2] == 's' && s[i + 3] == 'e' {
        TokenKind::Else
    } else
    if e - i == 5 && s[i + 0] == 'p' && s[i + 1] == 'r' && s[i + 2] == 'i' && s[i + 3] == 'n' && s[i + 4] == 't' {
        TokenKind::Print
    } else
    if e - i == 3 && s[i + 0] == 'f' && s[i + 1] == 'u' && s[i + 2] == 'n' {
        TokenKind::Fun
    } else
    if e - i == 6 && s[i + 0] == 'r' && s[i + 1] == 'e' && s[i + 2] == 't' && s[i + 3] == 'u' && s[i + 4] == 'r' && s[i + 5] == 'n' {
        TokenKind::Return
    } else
    if e - i == 3 && s[i + 0] == 'v' && s[i + 1] == 'a' && s[i + 2] == 'r' {
        TokenKind::Var
    } else
    if e - i == 3 && s[i + 0] == 'n' && s[i + 1] == 'i' && s[i + 2] == 'l' {
        TokenKind::Nil
    } else
    if e - i == 5 && s[i + 0] == 'b' && s[i + 1] == 'r' && s[i + 2] == 'e' && s[i + 3] == 'a' && s[i + 4] == 'k' {
        TokenKind::Break
    } else
 {
        TokenKind::Identifier
    }
}

/// The lexer state: the source text and how far it has been read.
#[derive(Debug)]
pub struct Scanner {
    source: Rc<String>,
    chars: Vec<char>,
    pos: usize,
    byte_pos: usize,
}

impl Scanner {
    /// The source text.
    pub closed spec fn text(&self) -> Seq<char> {
        self.chars@
    }

    /// The index of the next character to read.
    pub closed spec fn position(&self) -> int {
        self.pos as int
    }

    /// The scanner's internal consistency.
    pub closed spec fn wf(&self) -> bool {
        &&& self.source@ == self.chars@
        &&& self.pos <= self.chars@.len()
        &&& self.chars@.len() <= isize::MAX / 4
        &&& self.byte_pos == byte_pos(self.chars@, self.pos as int)
    }

    /// A scanner at the start of `source`.
    pub fn new(source: &str) -> (r: Self)
        ensures
            r.wf(),
            r.text() == source@,
            r.position() == 0,
    {
        let chars = chars_of(source);
        let text = string_from_chars(chars.as_slice());
        proof {
            lemma_byte_pos_zero(chars@);
        }
        Scanner { source: Rc::new(text), chars, pos: 0, byte_pos: 0 }
    }

    /// The source text, shared with the tokens.
    pub fn source_code(&self) -> (r: Rc<String>)
        requires
            self.wf(),
        ensures
            r@ == self.text(),
    {
        rc_clone(&self.source)
    }

    /// Reads the rest of the source and returns its tokens, comments and
    /// white space left out.
    pub fn scan_tokens(&mut self) -> (r: Vec<Token>)
        requires
            old(self).wf(),
            scan_from(old(self).text(), old(self).position()) is Some,
        ensures
            final(self).wf(),
            final(self).text() == old(self).text(),
            final(self).position() == old(self).text().len(),
            views(r@) == scan_from(old(self).text(), old(self).position()).unwrap(),
    {
        let ghost s = self.chars@;
        let ghost start = self.pos as int;
        let mut tokens: Vec<Token> = Vec::new();
        assert(views(tokens@) =~= Seq::<TokenV>::empty());
        while self.pos < self.chars.len()
            invariant
                self.wf(),
                self.chars@ == s,
                scan_from(s, self.pos as int) is Some,
                scan_from(s, start) == Some(views(tokens@) + scan_from(s, self.pos as int).unwrap()),
            decreases s.len() - self.pos,
        {
            let i = self.pos;
            let (t, j, bj) = match self.step_at(self.pos, self.byte_pos) {
                Some(x) => x,
                None => {
                    proof {
                        assert(false);
                    }
                    return tokens;
                },
            };
            let ghost prev = tokens@;
            match t {
                Some(tok) => {
                    tokens.push(tok);
                    assert(views(tokens@) == views(prev).push(tok@));
                    assert(views(tokens@) + scan_from(s, j as int).unwrap() =~= views(prev) + (
                    seq![tok@] + scan_from(s, j as int).unwrap()));
                },
                None => {},
            }
            self.pos = j;
            self.byte_pos = bj;
        }
        assert(views(tokens@) + Seq::<TokenV>::empty() == views(tokens@));
        tokens
    }

    /// Whether the scanner can read the rest of the source: false exactly
    /// where `scan_tokens` may not be called (a comment or string that
    /// would be cut inside a character).
    pub fn can_scan(&self) -> (r: bool)
        requires
            self.wf(),
        ensures
            r == scan_from(self.text(), self.position()) is Some,
    {
        let mut i = self.pos;
        let mut bi = self.byte_pos;
        while i < self.chars.len()
            invariant
                self.wf(),
                i <= self.chars@.len(),
                bi == byte_pos(self.chars@, i as int),
                (scan_from(self.chars@, i as int) is Some) == (scan_from(
                    self.chars@,
                    self.pos as int,
                ) is Some),
            decreases self.chars@.len() - i,
        {
            match self.step_at(i, bi) {
                None => return false,
                Some((_, j, bj)) => {
                    i = j;
                    bi = bj;
                },
            }
        }
        true
    }

    /// One step at index `i` (byte offset `bi`): the token read, if any, the
    /// next index and its byte offset; `None` where the scanner cannot go on
    /// (a comment or string that would be cut inside a character).
    fn step_at(&self, i: usize, bi: usize) -> (res: Option<(Option<Token>, usize, usize)>)
        requires
            self.wf(),
            i < self.chars@.len(),
            bi == byte_pos(self.chars@, i as int),
        ensures
            match res {
                None => scan_step(self.chars@, i as int) is None,
                Some(x) => {
                    &&& scan_step(self.chars@, i as int) == Some(
                        (
                            match x.0 {
                                Some(t) => Some(t@),
                                None => None::<TokenV>,
                            },
                            x.1 as int,
                        ),
                    )
                    &&& i < x.1 <= self.chars@.len()
                    &&& x.2 == byte_pos(self.chars@, x.1 as int)
                },
            },
    {
        let s = &self.chars;
        let n = s.len();
        let c = s[i];
        proof {
            lemma_byte_pos_step(s@, i as int);
            lemma_byte_len_bound(s@);
            crate::text::lemma_byte_pos_full(s@);
            lemma_byte_pos_mono(s@, i as int + 1, s@.len() as int);
        }
        let b1 = bi + utf8_width(c);
        if is_whitespace(c) {
            return Some((None, i + 1, b1));
        }
        let single = if c == '(' {
            Some(TokenKind::LeftParen)
        } else if c == ')' {
            Some(TokenKind::RightParen)
        } else if c == '{' {
            Some(TokenKind::LeftBrace)
        } else if c == '}' {
            Some(TokenKind::RightBrace)
        } else if c == ',' {
            Some(TokenKind::Comma)
        } else if c == '.' {
            Some(TokenKind::Dot)
        } else if c == '-' {
            Some(TokenKind::Minus)
        } else if c == '+' {
            Some(TokenKind::Plus)
        } else if c == ';' {
            Some(TokenKind::Semicolon)
        } else if c == '*' {
            Some(TokenKind::Star)
        } else {
            None
        };
        if let Some(kind) = single {
            return Some((Some(span(&self.source, s, kind, i, i + 1, bi)), i + 1, b1));
        }
        let pair = if c == '!' {
            Some((TokenKind::Bang, TokenKind::BangEqual))
        } else if c == '=' {
            Some((TokenKind::Equal, TokenKind::EqualEqual))
        } else if c == '<' {
            Some((TokenKind::Less, TokenKind::LessEqual))
        } else if c == '>' {
            Some((TokenKind::Greater, TokenKind::GreaterEqual))
        } else {
            None
        };
        if let Some((one, two)) = pair {
            if i + 1 < n && s[i + 1] == '=' {
                proof {
                    lemma_byte_pos_step(s@, i as int + 1);
                }
                return Some((Some(span(&self.source, s, two, i, i + 2, bi)), i + 2, b1 + 1));
            } else {
                return Some((Some(span(&self.source, s, one, i, i + 1, bi)), i + 1, b1));
            }
        }
        if c == '/' {
            if i + 1 < n && s[i + 1] == '/' {
                proof {
                    lemma_byte_pos_step(s@, i as int + 1);
                }
                let (e, be) = read_run(s, i + 2, b1 + 1, Run::Line);
                proof {
                    lemma_byte_pos_step(s@, i as int + 1);
                    lemma_byte_pos_mono(s@, i as int + 2, e as int);
                }
                if !boundary(s, be - 2) {
                    return None;
                }
                if e < n {
                    proof {
                        lemma_byte_pos_step(s@, e as int);
                        lemma_byte_pos_mono(s@, e as int + 1, s@.len() as int);
                    }
                    return Some((None, e + 1, be + 1));
                } else {
                    return Some((None, n, be));
                }
            } else if i + 1 < n && s[i + 1] == '*' {
                proof {
                    lemma_byte_pos_step(s@, i as int + 1);
                }
                let (found, k, bk) = self.find_block_end(i + 2, b1 + 1);
                if found {
                    proof {
                        lemma_byte_pos_step(s@, i as int + 1);
                        lemma_byte_pos_mono(s@, i as int + 2, k as int);
                    }
                    if !boundary(s, bk - 2) {
                        return None;
                    }
                    proof {
                        lemma_byte_pos_step(s@, k as int);
                        lemma_byte_pos_step(s@, k as int + 1);
                        lemma_byte_pos_mono(s@, k as int + 2, s@.len() as int);
                    }
                    return Some((None, k + 2, bk + 2));
                } else {
                    proof {
                        crate::text::lemma_byte_pos_full(s@);
                    }
                    return Some((Some(span(&self.source, s, TokenKind::Invalid, i, n, bi)), n, self.byte_len_total()));
                }
            } else {
                return Some((Some(span(&self.source, s, TokenKind::Slash, i, i + 1, bi)), i + 1, b1));
            }
        }
        if c == '"' {
            return self.string(i, bi);
        }
        if '0' <= c && c <= '9' {
            let (p, bp) = read_run(s, i + 1, b1, Run::Digits);
            if p + 1 < n && s[p] == '.' && '0' <= s[p + 1] && s[p + 1] <= '9' {
                proof {
                    lemma_byte_pos_step(s@, p as int);
                    lemma_byte_pos_mono(s@, p as int + 1, s@.len() as int);
                }
                let (q, bq) = read_run(s, p + 1, bp + 1, Run::Digits);
                return Some((Some(span(&self.source, s, TokenKind::Number, i, q, bi)), q, bq));
            } else {
                return Some((Some(span(&self.source, s, TokenKind::Number, i, p, bi)), p, bp));
            }
        }
        if ('a' <= c && c <= 'z') || ('A' <= c && c <= 'Z') || c == '_' {
            let (e, be) = read_run(s, i + 1, b1, Run::Ident);
            let kind = word_kind(s, i, e);
            return Some((Some(span(&self.source, s, kind, i, e, bi)), e, be));
        }
        let (e, be) = read_run(s, i + 1, b1, Run::Other);
        Some((Some(span(&self.source, s, TokenKind::Invalid, i, e, bi)), e, be))
    }

    /// The byte length of the whole source.
    fn byte_len_total(&self) -> (r: usize)
        requires
            self.wf(),
        ensures
            r == byte_pos(self.chars@, self.chars@.len() as int),
    {
        let (e, be) = read_run_all(&self.chars, self.pos, self.byte_pos);
        be
    }

    /// Finds the `*/` that closes a block comment whose body starts at `j`:
    /// whether there is one, the index of its `*`, and that index's byte
    /// offset.
    fn find_block_end(&self, j: usize, bj: usize) -> (res: (bool, usize, usize))
        requires
            self.wf(),
            j <= self.chars@.len(),
            bj == byte_pos(self.chars@, j as int),
        ensures
            res.0 ==> find_close(self.chars@, j as int) == Some(res.1 as int),
            !res.0 ==> find_close(self.chars@, j as int) is None,
            res.0 ==> res.1 + 1 < self.chars@.len(),
            res.0 ==> res.1 >= j,
            res.0 ==> self.chars@[res.1 as int] == '*' && self.chars@[res.1 + 1] == '/',
            res.2 == byte_pos(self.chars@, res.1 as int),
    {
        let s = &self.chars;
        let mut k = j;
        let mut bk = bj;
        proof {
            lemma_byte_len_bound(s@);
            crate::text::lemma_byte_pos_full(s@);
        }
        while k + 1 < s.len()
            invariant
                j <= k <= s@.len(),
                s@ == self.chars@,
                s@.len() <= isize::MAX / 4,
                bk == byte_pos(s@, k as int),
                byte_len(s@) <= 4 * s@.len(),
                byte_pos(s@, s@.len() as int) == byte_len(s@),
                find_close(s@, k as int) == find_close(s@, j as int),
            decreases s@.len() - k,
        {
            if s[k] == '*' && s[k + 1] == '/' {
                return (true, k, bk);
            }
            proof {
                lemma_byte_pos_step(s@, k as int);
                lemma_byte_pos_mono(s@, k as int + 1, s@.len() as int);
            }
            bk = bk + utf8_width(s[k]);
            k = k + 1;
        }
        (false, k, bk)
    }

    /// Reads a string literal whose opening quote is at `i`.
    fn string(&self, i: usize, bi: usize) -> (res: Option<(Option<Token>, usize, usize)>)
        requires
            self.wf(),
            i < self.chars@.len(),
            self.chars@[i as int] == '"',
            bi == byte_pos(self.chars@, i as int),
        ensures
            match res {
                None => scan_step(self.chars@, i as int) is None,
                Some(x) => {
                    &&& scan_step(self.chars@, i as int) == Some(
                        (
                            match x.0 {
                                Some(t) => Some(t@),
                                None => None::<TokenV>,
                            },
                            x.1 as int,
                        ),
                    )
                    &&& i < x.1 <= self.chars@.len()
                    &&& x.2 == byte_pos(self.chars@, x.1 as int)
                },
            },
    {
        let s = &self.chars;
        let n = s.len();
        proof {
            lemma_byte_pos_step(s@, i as int);
            lemma_byte_len_bound(s@);
            crate::text::lemma_byte_pos_full(s@);
            lemma_byte_pos_mono(s@, i as int + 1, s@.len() as int);
        }
        let mut pos = i + 1;
        let mut bpos = bi + 1;
        let mut len: usize = 0;
        let mut last = '\0';
        let mut esc = false;
        while pos < n
            invariant_except_break
                str_scan(s@, pos as int, len as nat, last, esc) == str_scan(s@, i + 1, 0, '\0', false),
            invariant
                i < pos <= n,
                n == s@.len(),
                s@ == self.chars@,
                s@.len() <= isize::MAX / 4,
                bpos == byte_pos(s@, pos as int),
                len <= bpos - bi,
                byte_pos(s@, i as int) == bi,
                byte_len(s@) <= 4 * s@.len(),
                byte_pos(s@, s@.len() as int) == byte_len(s@),
            ensures
                str_scan(s@, i + 1, 0, '\0', false) == (pos as int, len as nat, last),
                i < pos <= n,
                bpos == byte_pos(s@, pos as int),
                len <= bpos - bi,
            decreases n - pos,
        {
            let c = s[pos];
            proof {
                lemma_byte_pos_step(s@, pos as int);
                lemma_byte_pos_mono(s@, pos as int + 1, s@.len() as int);
            }
            let w = utf8_width(c);
            if esc {
                len = len + w;
                last = c;
                esc = false;
            } else if c == '"' {
                last = c;
                pos = pos + 1;
                bpos = bpos + w;
                break;
            } else if c == '\\' {
                last = c;
                esc = true;
            } else {
                len = len + w;
                last = c;
            }
            pos = pos + 1;
            bpos = bpos + w;
        }
        assert(str_scan(s@, i + 1, 0, '\0', false) == (pos as int, len as nat, last));
        proof {
            lemma_byte_pos_mono(s@, pos as int, s@.len() as int);
        }
        if last == '"' {
            if !boundary(s, bi + 1) || !boundary(s, bi + 1 + len) {
                return None;
            }
            let lexeme_chars = slice_chars(s, bi + 1, bi + 1 + len);
            let lexeme = string_from_chars(lexeme_chars.as_slice());
            let inner = TokenInner::from_parts(rc_clone(&self.source), lexeme, bi);
            Some((Some(Token::from_kind(TokenKind::String, inner)), pos, bpos))
        } else {
            Some((Some(span(&self.source, s, TokenKind::Invalid, i, n, bi)), pos, bpos))
        }
    }

    /// A handle on the source text.
    pub fn origin(&self) -> (r: Rc<String>)
        requires
            self.wf(),
        ensures
            r@ == self.text(),
    {
        rc_clone(&self.source)
    }

    /// The source text.
    pub fn source(&self) -> (r: &str)
        requires
            self.wf(),
        ensures
            r@ == self.text(),
    {
        (*self.source).as_str()
    }
}

/// Reads to the end of `s` from index `i`: returns its length and byte
/// length.
fn read_run_all(s: &Vec<char>, i: usize, bi: usize) -> (res: (usize, usize))
    requires
        i <= s@.len(),
        s@.len() <= isize::MAX / 4,
        bi == byte_pos(s@, i as int),
    ensures
        res.0 == s@.len(),
        res.1 == byte_pos(s@, s@.len() as int),
{
    let mut j = i;
    let mut bj = bi;
    proof {
        lemma_byte_len_bound(s@);
        crate::text::lemma_byte_pos_full(s@);
    }
    while j < s.len()
        invariant
            i <= j <= s@.len(),
            s@.len() <= isize::MAX / 4,
            bj == byte_pos(s@, j as int),
            byte_len(s@) <= 4 * s@.len(),
            byte_pos(s@, s@.len() as int) == byte_len(s@),
        decreases s@.len() - j,
    {
        proof {
            lemma_byte_pos_step(s@, j as int);
            lemma_byte_pos_mono(s@, j as int + 1, s@.len() as int);
        }
        bj = bj + utf8_width(s[j]);
        j = j + 1;
    }
    (j, bj)
}


/// The reserved words of Lox and the token kind of each.
pub open spec fn reserved_word_kind(w: Seq<char>) -> Option<TokenKind> {
    if w == "and"@ {
        Some(TokenKind::And)
    } else if w == "or"@ {
        Some(TokenKind::Or)
    } else if w == "class"@ {
        Some(TokenKind::Class)
    } else if w == "super"@ {
        Some(TokenKind::Super)
    } else if w == "this"@ {
        Some(TokenKind::This)
    } else if w == "true"@ {
        Some(TokenKind::True)
    } else if w == "false"@ {
        Some(TokenKind::False)
    } else if w == "while"@ {
        Some(TokenKind::While)
    } else if w == "for"@ {
        Some(TokenKind::For)
    } else if w == "if"@ {
        Some(TokenKind::If)
    } else if w == "else"@ {
        Some(TokenKind::Else)
    } else if w == "print"@ {
        Some(TokenKind::Print)
    } else if w == "fun"@ {
        Some(TokenKind::Fun)
    } else if w == "return"@ {
        Some(TokenKind::Return)
    } else if w == "var"@ {
        Some(TokenKind::Var)
    } else if w == "nil"@ {
        Some(TokenKind::Nil)
    } else if w == "break"@ {
        Some(TokenKind::Break)
    } else {
        None
    }
}

/// A run of identifier characters from `j` that stops at `e` ends at `e`.
proof fn lemma_run_end_at(s: Seq<char>, j: int, e: int)
    requires
        0 <= j <= e <= s.len(),
        forall|m: int| j <= m < e ==> #[trigger] in_run(Run::Ident, s[m]),
        e == s.len() || !in_run(Run::Ident, s[e]),
    ensures
        run_end(s, j, Run::Ident) == e,
    decreases e - j,
{
    if j < e {
        lemma_run_end_at(s, j + 1, e);
    }
}

/// Every reserved word scans to the token of its own kind, never to an
/// identifier: wherever a reserved word stands in the source, not followed
/// by a letter, digit or `_`, the scanner takes exactly that word there as a
/// token of the word's kind.
pub proof fn lemma_reserved_words_scan(s: Seq<char>, i: int, w: Seq<char>)
    requires
        reserved_word_kind(w) is Some,
        0 <= i,
        i + w.len() <= s.len(),
        s.subrange(i, i + w.len()) == w,
        i + w.len() == s.len() || !in_run(Run::Ident, s[i + w.len()]),
    ensures
        scan_step(s, i) == Some(
            (Some(span_token(s, reserved_word_kind(w).unwrap(), i, i + w.len())), i + w.len()),
        ),
{
    reveal_strlit("and");
    reveal_strlit("or");
    reveal_strlit("class");
    reveal_strlit("super");
    reveal_strlit("this");
    reveal_strlit("true");
    reveal_strlit("false");
    reveal_strlit("while");
    reveal_strlit("for");
    reveal_strlit("if");
    reveal_strlit("else");
    reveal_strlit("print");
    reveal_strlit("fun");
    reveal_strlit("return");
    reveal_strlit("var");
    reveal_strlit("nil");
    reveal_strlit("break");
    let e = i + w.len();
    assert(w.len() > 0);
    assert forall|m: int| 0 <= m < w.len() implies 'a' <= #[trigger] w[m] <= 'z' by {}
    assert forall|m: int| i + 1 <= m < e implies #[trigger] in_run(Run::Ident, s[m]) by {
        assert(s[m] == w[m - i]);
    }
    lemma_run_end_at(s, i + 1, e);
    assert(s[i] == w[0]);
    assert(s.subrange(i, e) == w);
    assert(keyword_kind(w) == reserved_word_kind(w).unwrap());
}


/// A word is classified by the reserved-word table: a reserved word as its
/// own kind, any other word as an identifier.
proof fn lemma_keyword_kind_table(w: Seq<char>)
    ensures
        keyword_kind(w) == match reserved_word_kind(w) {
            Some(k) => k,
            None => TokenKind::Identifier,
        },
{
    reveal_strlit("and");
    reveal_strlit("or");
    reveal_strlit("class");
    reveal_strlit("super");
    reveal_strlit("this");
    reveal_strlit("true");
    reveal_strlit("false");
    reveal_strlit("while");
    reveal_strlit("for");
    reveal_strlit("if");
    reveal_strlit("else");
    reveal_strlit("print");
    reveal_strlit("fun");
    reveal_strlit("return");
    reveal_strlit("var");
    reveal_strlit("nil");
    reveal_strlit("break");
    if keyword_kind(w) == TokenKind::And {
        assert(w =~= "and"@);
    }
    if keyword_kind(w) == TokenKind::Or {
        assert(w =~= "or"@);
    }
    if keyword_kind(w) == TokenKind::Class {
        assert(w =~= "class"@);
    }
    if keyword_kind(w) == TokenKind::Super {
        assert(w =~= "super"@);
    }
    if keyword_kind(w) == TokenKind::This {
        assert(w =~= "this"@);
    }
    if keyword_kind(w) == TokenKind::True {
        assert(w =~= "true"@);
    }
    if keyword_kind(w) == TokenKind::False {
        assert(w =~= "false"@);
    }
    if keyword_kind(w) == TokenKind::While {
        assert(w =~= "while"@);
    }
    if keyword_kind(w) == TokenKind::For {
        assert(w =~= "for"@);
    }
    if keyword_kind(w) == TokenKind::If {
        assert(w =~= "if"@);
    }
    if keyword_kind(w) == TokenKind::Else {
        assert(w =~= "else"@);
    }
    if keyword_kind(w) == TokenKind::Print {
        assert(w =~= "print"@);
    }
    if keyword_kind(w) == TokenKind::Fun {
        assert(w =~= "fun"@);
    }
    if keyword_kind(w) == TokenKind::Return {
        assert(w =~= "return"@);
    }
    if keyword_kind(w) == TokenKind::Var {
        assert(w =~= "var"@);
    }
    if keyword_kind(w) == TokenKind::Nil {
        assert(w =~= "nil"@);
    }
    if keyword_kind(w) == TokenKind::Break {
        assert(w =~= "break"@);
    }
}

/// Every word scans to one token: its reserved kind when it is a reserved
/// word, else an identifier. A word starts with a letter or `_`, runs over
/// letters, digits and `_`, and the scanner takes all of it.
pub proof fn lemma_words_scan(s: Seq<char>, i: int, e: int)
    requires
        0 <= i < e <= s.len(),
        spec_is_ascii_alphabetic(s[i]) || s[i] == '_',
        forall|m: int| i <= m < e ==> #[trigger] in_run(Run::Ident, s[m]),
        e == s.len() || !in_run(Run::Ident, s[e]),
    ensures
        scan_step(s, i) == Some(
            (
                Some(
                    span_token(
                        s,
                        match reserved_word_kind(s.subrange(i, e)) {
                            Some(k) => k,
                            None => TokenKind::Identifier,
                        },
                        i,
                        e,
                    ),
                ),
                e,
            ),
        ),
{
    lemma_run_end_at(s, i + 1, e);
    lemma_keyword_kind_table(s.subrange(i, e));
}

} // verus!

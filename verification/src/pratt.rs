//! A Pratt (top-down operator precedence) parser for single-character
//! expressions, printing its result as an S-expression.
use vstd::prelude::*;

use crate::text::{chars_of, is_ascii_whitespace, spec_is_ascii_whitespace, string_from_chars};

verus! {

/// A token of the expression language: a one-character atom, a
/// one-character operator, or the end of input.
#[derive(Clone, Copy, Debug, PartialEq, Eq, PartialOrd, Ord)]
pub enum Token {
    Atom(char),
    Op(char),
    Eof,
}

/// Whether `c` lexes to an atom (an ASCII digit or letter).
pub open spec fn is_atom_char(c: char) -> bool {
    ('0' <= c && c <= '9') || ('a' <= c && c <= 'z') || ('A' <= c && c <= 'Z')
}

/// The token that a non-whitespace character lexes to.
pub open spec fn token_of(c: char) -> Token {
    if is_atom_char(c) {
        Token::Atom(c)
    } else {
        Token::Op(c)
    }
}

/// The tokens of an input: one per character that is not ASCII whitespace,
/// in order.
pub open spec fn lex(s: Seq<char>) -> Seq<Token>
    decreases s.len(),
{
    if s.len() == 0 {
        Seq::empty()
    } else if spec_is_ascii_whitespace(s[0]) {
        lex(s.drop_first())
    } else {
        seq![token_of(s[0])] + lex(s.drop_first())
    }
}

/// A stream of tokens, stored with the next token last.
#[derive(Clone, Debug, Default, PartialEq, Eq, PartialOrd, Ord)]
pub struct Lexer {
    tokens: Vec<Token>,
}

/// The tokens of a stack in the order they will be popped.
spec fn self_view(v: Seq<Token>) -> Seq<Token> {
    Seq::new(v.len(), |i: int| v[v.len() - 1 - i])
}

proof fn lemma_self_view_push(v: Seq<Token>, t: Token)
    ensures
        self_view(v.push(t)) == seq![t] + self_view(v),
{
    let a = self_view(v.push(t));
    let b = seq![t] + self_view(v);
    assert forall|k: int| 0 <= k < a.len() implies a[k] == b[k] by {
        if k > 0 {
            assert(b[k] == self_view(v)[k - 1]);
        }
    }
    assert(a =~= b);
}

impl View for Lexer {
    type V = Seq<Token>;

    /// The tokens still to come, next token first.
    closed spec fn view(&self) -> Seq<Token> {
        self_view(self.tokens@)
    }
}

impl Lexer {
    /// Lexes `input`: every character that is not ASCII whitespace becomes a
    /// token, an atom for an ASCII digit or letter and an operator otherwise.
    pub fn new(input: &str) -> (lexer: Self)
        ensures
            lexer@ == lex(input@),
    {
        let chars = chars_of(input);
        let mut tokens: Vec<Token> = Vec::new();
        let mut i: usize = chars.len();
        assert(chars@.subrange(i as int, chars@.len() as int).len() == 0);
        while i > 0
            invariant
                i <= chars@.len(),
                chars@ == input@,
                self_view(tokens@) == lex(chars@.subrange(i as int, chars@.len() as int)),
            decreases i,
        {
            i = i - 1;
            let c = chars[i];
            let ghost rest = chars@.subrange(i as int + 1, chars@.len() as int);
            let ghost here = chars@.subrange(i as int, chars@.len() as int);
            assert(here.drop_first() == rest);
            assert(here[0] == c);
            if !is_ascii_whitespace(c) {
                let t = if ('0' <= c && c <= '9') || ('a' <= c && c <= 'z') || ('A' <= c && c
                    <= 'Z') {
                    Token::Atom(c)
                } else {
                    Token::Op(c)
                };
                let ghost before = tokens@;
                tokens.push(t);
                proof {
                    lemma_self_view_push(before, t);
                }
            }
        }
        assert(chars@.subrange(0, chars@.len() as int) == chars@);
        Lexer { tokens }
    }

    /// Takes the next token, or `Eof` when none is left.
    pub fn next(&mut self) -> (t: Token)
        ensures
            old(self)@.len() == 0 ==> t == Token::Eof && final(self)@ == old(self)@,
            old(self)@.len() > 0 ==> t == old(self)@[0] && final(self)@ == old(self)@.drop_first(),
    {
        let ghost before = self.tokens@;
        match self.tokens.pop() {
            Some(t) => {
                assert(self_view(self.tokens@) == self_view(before).drop_first());
                t
            },
            None => Token::Eof,
        }
    }

    /// The next token, left in place, or `Eof` when none is left.
    pub fn peek(&mut self) -> (t: Token)
        ensures
            final(self)@ == old(self)@,
            old(self)@.len() == 0 ==> t == Token::Eof,
            old(self)@.len() > 0 ==> t == old(self)@[0],
    {
        let n = self.tokens.len();
        if n == 0 {
            Token::Eof
        } else {
            self.tokens[n - 1]
        }
    }
}

/// A parsed expression: an atom, or an operator applied to its operands.
#[derive(Debug, PartialEq, Eq)]
pub enum S {
    Atom(char),
    Cons(char, Vec<S>),
}

/// The mathematical form of an expression.
pub enum SV {
    Atom(char),
    Cons(char, Seq<SV>),
}

/// The views of the first `n` expressions of `v`.
pub open spec fn views_of(v: Seq<S>, n: nat) -> Seq<SV>
    decreases v, n,
{
    if n == 0 || n > v.len() {
        Seq::empty()
    } else {
        views_of(v, (n - 1) as nat).push(s_view(v[n - 1]))
    }
}

/// The mathematical form of `s`.
pub open spec fn s_view(s: S) -> SV
    decreases s, 0nat,
{
    match s {
        S::Atom(c) => SV::Atom(c),
        S::Cons(head, rest) => SV::Cons(head, views_of(rest@, rest@.len())),
    }
}

impl View for S {
    type V = SV;

    open spec fn view(&self) -> SV {
        s_view(*self)
    }
}

/// The S-expression text of an expression: an atom is its character, an
/// application is `(`, the operator, each operand preceded by a space, `)`.
pub open spec fn s_text(s: SV) -> Seq<char>
    decreases s, 0nat,
{
    match s {
        SV::Atom(c) => seq![c],
        SV::Cons(head, rest) => seq!['(', head] + operands_text(rest, rest.len()) + seq![')'],
    }
}

/// The text of the first `n` operands, each preceded by a space.
pub open spec fn operands_text(v: Seq<SV>, n: nat) -> Seq<char>
    decreases v, n,
{
    if n == 0 || n > v.len() {
        Seq::empty()
    } else {
        operands_text(v, (n - 1) as nat) + seq![' '] + s_text(v[n - 1])
    }
}

proof fn lemma_views_of_len(v: Seq<S>, n: nat)
    requires
        n <= v.len(),
    ensures
        views_of(v, n).len() == n,
        forall|i: int| 0 <= i < n ==> views_of(v, n)[i] == s_view(v[i]),
    decreases n,
{
    if n > 0 {
        lemma_views_of_len(v, (n - 1) as nat);
    }
}

impl S {
    #[verifier::loop_isolation(false)]
    fn write_to(&self, out: &mut Vec<char>)
        ensures
            final(out)@ == old(out)@ + s_text(self@),
        decreases self,
    {
        match self {
            S::Atom(c) => {
                out.push(*c);
                assert(out@ == old(out)@ + seq![*c]);
            },
            S::Cons(head, rest) => {
                out.push('(');
                out.push(*head);
                let ghost start = out@;
                let ghost vs = views_of(rest@, rest@.len());
                proof {
                    lemma_views_of_len(rest@, rest@.len());
                }
                assert(start == old(out)@ + seq!['(', *head]);
                let mut i: usize = 0;
                while i < rest.len()
                    invariant
                        i <= rest@.len(),
                        vs.len() == rest@.len(),
                        forall|k: int| 0 <= k < rest@.len() ==> vs[k] == s_view(rest@[k]),
                        out@ == start + operands_text(vs, i as nat),
                    decreases rest@.len() - i,
                {
                    out.push(' ');
                    assert(decreases_to!(*self => self->1));
                    assert(decreases_to!(self->1 => (self->1)@));
                    assert(decreases_to!(rest@ => rest@[i as int]));
                    rest[i].write_to(out);
                    i = i + 1;
                }
                out.push(')');
                assert(out@ == old(out)@ + s_text(self@));
            },
        }
    }

    /// The S-expression text of this expression (what its `Display` writes).
    pub fn to_string(&self) -> (r: String)
        ensures
            r@ == s_text(self@),
    {
        let mut out: Vec<char> = Vec::new();
        self.write_to(&mut out);
        assert(out@ == s_text(self@));
        string_from_chars(out.as_slice())
    }
}

/// `S::Cons(op, [a])`, with its form.
fn cons1(op: char, a: S) -> (r: S)
    ensures
        r@ == SV::Cons(op, seq![a@]),
{
    let mut v: Vec<S> = Vec::new();
    v.push(a);
    let r = S::Cons(op, v);
    proof {
        lemma_views_of_len(v@, 1);
        assert(views_of(v@, 1) == seq![a@]);
    }
    r
}

/// `S::Cons(op, [a, b])`, with its form.
fn cons2(op: char, a: S, b: S) -> (r: S)
    ensures
        r@ == SV::Cons(op, seq![a@, b@]),
{
    let mut v: Vec<S> = Vec::new();
    v.push(a);
    v.push(b);
    let r = S::Cons(op, v);
    proof {
        lemma_views_of_len(v@, 2);
        assert(views_of(v@, 2) == seq![a@, b@]);
    }
    r
}

/// `S::Cons(op, [a, b, c])`, with its form.
fn cons3(op: char, a: S, b: S, c: S) -> (r: S)
    ensures
        r@ == SV::Cons(op, seq![a@, b@, c@]),
{
    let mut v: Vec<S> = Vec::new();
    v.push(a);
    v.push(b);
    v.push(c);
    let r = S::Cons(op, v);
    proof {
        lemma_views_of_len(v@, 3);
        assert(views_of(v@, 3) == seq![a@, b@, c@]);
    }
    r
}

/// Left binding power of a postfix operator.
pub open spec fn spec_postfix_binding_power(op: char) -> Option<u8> {
    if op == '!' || op == '[' {
        Some(11u8)
    } else {
        None
    }
}

/// Right binding power of a prefix operator (only `+` and `-` are prefix).
pub open spec fn spec_prefix_binding_power(op: char) -> Option<u8> {
    if op == '+' || op == '-' {
        Some(9u8)
    } else {
        None
    }
}

/// Left and right binding powers of an infix operator.
pub open spec fn spec_infix_binding_power(op: char) -> Option<(u8, u8)> {
    if op == '=' {
        Some((2u8, 1u8))
    } else if op == '?' {
        Some((4u8, 3u8))
    } else if op == '+' || op == '-' {
        Some((5u8, 6u8))
    } else if op == '*' || op == '/' {
        Some((7u8, 8u8))
    } else if op == '.' {
        Some((14u8, 13u8))
    } else {
        None
    }
}

/// The postfix binding power of `op`: `!` and `[` bind at 11.
pub fn postfix_binding_power(op: char) -> (r: Option<(u8, ())>)
    ensures
        r matches Some((l, _)) ==> spec_postfix_binding_power(op) == Some(l),
        r is None <==> spec_postfix_binding_power(op) is None,
{
    if op == '!' || op == '[' {
        Some((11, ()))
    } else {
        None
    }
}

/// The prefix binding power of `op`: `+` and `-` bind at 9. Any other
/// operator has none; it is not called on one.
pub fn prefix_binding_power(op: char) -> (r: ((), u8))
    requires
        spec_prefix_binding_power(op) is Some,
    ensures
        spec_prefix_binding_power(op) == Some(r.1),
{
    ((), 9)
}

/// The infix binding powers of `op`.
pub fn infix_binding_power(op: char) -> (r: Option<(u8, u8)>)
    ensures
        r == spec_infix_binding_power(op),
{
    if op == '=' {
        Some((2, 1))
    } else if op == '?' {
        Some((4, 3))
    } else if op == '+' || op == '-' {
        Some((5, 6))
    } else if op == '*' || op == '/' {
        Some((7, 8))
    } else if op == '.' {
        Some((14, 13))
    } else {
        None
    }
}

/// The result of parsing an expression of minimum binding power `min` from
/// `toks`: the expression and the tokens after it, or `None` where the
/// parser rejects the input (a missing operand, an unclosed `(` or `[`, a `?`
/// without `:`, a prefix operator other than `+` or `-`, or an atom where an
/// operator must come).
pub open spec fn parse_bp(toks: Seq<Token>, min: u8) -> Option<(SV, Seq<Token>)>
    decreases toks.len(),
{
    if toks.len() == 0 {
        None
    } else {
        let rest0 = toks.drop_first();
        match toks[0] {
            Token::Atom(c) => parse_loop(SV::Atom(c), rest0, min),
            Token::Op(op) => if op == '(' {
                match parse_bp(rest0, 0) {
                    Some((inner, rest)) => if rest.len() < toks.len() && rest.len() > 0 && rest[0]
                        == Token::Op(')') {
                        parse_loop(inner, rest.drop_first(), min)
                    } else {
                        None
                    },
                    None => None,
                }
            } else {
                match spec_prefix_binding_power(op) {
                    Some(r_bp) => match parse_bp(rest0, r_bp) {
                        Some((rhs, rest)) => if rest.len() < toks.len() {
                            parse_loop(SV::Cons(op, seq![rhs]), rest, min)
                        } else {
                            None
                        },
                        None => None,
                    },
                    None => None,
                }
            },
            Token::Eof => None,
        }
    }
}

/// The result of extending `lhs` with the postfix and infix operators that
/// follow in `toks` and bind at least as tightly as `min`.
pub open spec fn parse_loop(lhs: SV, toks: Seq<Token>, min: u8) -> Option<(SV, Seq<Token>)>
    decreases toks.len(),
{
    if toks.len() == 0 {
        Some((lhs, toks))
    } else {
        let rest0 = toks.drop_first();
        match toks[0] {
            Token::Eof => Some((lhs, toks)),
            Token::Atom(_) => None,
            Token::Op(op) => match spec_postfix_binding_power(op) {
                Some(l_bp) => if l_bp < min {
                    Some((lhs, toks))
                } else if op == '[' {
                    match parse_bp(rest0, 0) {
                        Some((rhs, rest)) => if rest.len() < toks.len() && rest.len() > 0 && rest[0]
                            == Token::Op(']') {
                            parse_loop(SV::Cons(op, seq![lhs, rhs]), rest.drop_first(), min)
                        } else {
                            None
                        },
                        None => None,
                    }
                } else {
                    parse_loop(SV::Cons(op, seq![lhs]), rest0, min)
                },
                None => match spec_infix_binding_power(op) {
                    Some((l_bp, r_bp)) => if l_bp < min {
                        Some((lhs, toks))
                    } else if op == '?' {
                        match parse_bp(rest0, 0) {
                            Some((mhs, rest)) => if rest.len() < toks.len() && rest.len() > 0
                                && rest[0] == Token::Op(':') {
                                match parse_bp(rest.drop_first(), r_bp) {
                                    Some((rhs, rest2)) => if rest2.len() < toks.len() {
                                        parse_loop(SV::Cons(op, seq![lhs, mhs, rhs]), rest2, min)
                                    } else {
                                        None
                                    },
                                    None => None,
                                }
                            } else {
                                None
                            },
                            None => None,
                        }
                    } else {
                        match parse_bp(rest0, r_bp) {
                            Some((rhs, rest)) => if rest.len() < toks.len() {
                                parse_loop(SV::Cons(op, seq![lhs, rhs]), rest, min)
                            } else {
                                None
                            },
                            None => None,
                        }
                    },
                    None => Some((lhs, toks)),
                },
            },
        }
    }
}

/// Parses the input as one expression and returns it; tokens after the
/// expression that no operator takes are left unread.
pub fn expr(input: &str) -> (r: S)
    requires
        parse_bp(lex(input@), 0) is Some,
    ensures
        r@ == parse_bp(lex(input@), 0).unwrap().0,
{
    let mut lexer = Lexer::new(input);
    expr_bp(&mut lexer, 0)
}


/// Whether `op` is an additive operator (`+` or `-`).
pub open spec fn is_additive(op: char) -> bool {
    op == '+' || op == '-'
}

/// Whether `op` is a multiplicative operator (`*` or `/`).
pub open spec fn is_multiplicative(op: char) -> bool {
    op == '*' || op == '/'
}

proof fn lemma_atom_alone(c: char, min: u8)
    ensures
        parse_bp(seq![Token::Atom(c)], min) == Some((SV::Atom(c), Seq::<Token>::empty())),
{
    let t = seq![Token::Atom(c)];
    assert(t[0] == Token::Atom(c));
    assert(t.drop_first() =~= Seq::<Token>::empty());
    assert(parse_loop(SV::Atom(c), t.drop_first(), min) == Some((SV::Atom(c), t.drop_first())));
}

proof fn lemma_atom_then_stop(c: char, op: char, rest: Seq<Token>, min: u8)
    requires
        spec_postfix_binding_power(op) is None,
        spec_infix_binding_power(op) matches Some((l, _)) && l < min,
    ensures
        parse_bp(seq![Token::Atom(c), Token::Op(op)] + rest, min) == Some(
            (SV::Atom(c), seq![Token::Op(op)] + rest),
        ),
{
    let t = seq![Token::Atom(c), Token::Op(op)] + rest;
    assert(t[0] == Token::Atom(c));
    let r = seq![Token::Op(op)] + rest;
    assert(t.drop_first() =~= r);
    assert(r[0] == Token::Op(op));
    assert(parse_loop(SV::Atom(c), r, min) == Some((SV::Atom(c), r)));
}

proof fn lemma_atom_op_atom(a: char, op: char, b: char, min: u8)
    requires
        spec_postfix_binding_power(op) is None,
        op != '?',
        spec_infix_binding_power(op) matches Some((l, _)) && l >= min,
    ensures
        parse_bp(seq![Token::Atom(a), Token::Op(op), Token::Atom(b)], min) == Some(
            (SV::Cons(op, seq![SV::Atom(a), SV::Atom(b)]), Seq::<Token>::empty()),
        ),
{
    let t = seq![Token::Atom(a), Token::Op(op), Token::Atom(b)];
    let t1 = seq![Token::Op(op), Token::Atom(b)];
    assert(t.drop_first() =~= t1);
    assert(t1.drop_first() =~= seq![Token::Atom(b)]);
    lemma_atom_alone(b, spec_infix_binding_power(op).unwrap().1);
    let e = SV::Cons(op, seq![SV::Atom(a), SV::Atom(b)]);
    assert(parse_loop(e, Seq::<Token>::empty(), min) == Some((e, Seq::<Token>::empty())));
    assert(parse_loop(SV::Atom(a), t1, min) == Some((e, Seq::<Token>::empty())));
}

/// `*` and `/` bind tighter than `+` and `-`, whichever comes first:
/// `a + b * c` reads as `a + (b * c)` and `a * b + c` as `(a * b) + c`, for
/// every choice of the operators within the two groups and of the atoms.
pub proof fn lemma_multiplication_binds_tighter(a: char, b: char, c: char, lo: char, hi: char)
    requires
        is_additive(lo),
        is_multiplicative(hi),
    ensures
        parse_bp(seq![Token::Atom(a), Token::Op(lo), Token::Atom(b), Token::Op(hi), Token::Atom(c)], 0)
            == Some(
            (
                SV::Cons(lo, seq![SV::Atom(a), SV::Cons(hi, seq![SV::Atom(b), SV::Atom(c)])]),
                Seq::<Token>::empty(),
            ),
        ),
        parse_bp(seq![Token::Atom(a), Token::Op(hi), Token::Atom(b), Token::Op(lo), Token::Atom(c)], 0)
            == Some(
            (
                SV::Cons(lo, seq![SV::Cons(hi, seq![SV::Atom(a), SV::Atom(b)]), SV::Atom(c)]),
                Seq::<Token>::empty(),
            ),
        ),
{
    let e = Seq::<Token>::empty();
    // a lo b hi c
    let t = seq![Token::Atom(a), Token::Op(lo), Token::Atom(b), Token::Op(hi), Token::Atom(c)];
    let t1 = t.drop_first();
    assert(t1 =~= seq![Token::Op(lo), Token::Atom(b), Token::Op(hi), Token::Atom(c)]);
    let u = t1.drop_first();
    assert(u =~= seq![Token::Atom(b), Token::Op(hi), Token::Atom(c)]);
    lemma_atom_op_atom(b, hi, c, spec_infix_binding_power(lo).unwrap().1);
    let inner = SV::Cons(hi, seq![SV::Atom(b), SV::Atom(c)]);
    let whole = SV::Cons(lo, seq![SV::Atom(a), inner]);
    assert(parse_loop(whole, e, 0) == Some((whole, e)));
    assert(parse_loop(SV::Atom(a), t1, 0) == Some((whole, e)));
    // a hi b lo c
    let v = seq![Token::Atom(a), Token::Op(hi), Token::Atom(b), Token::Op(lo), Token::Atom(c)];
    let v1 = v.drop_first();
    assert(v1 =~= seq![Token::Op(hi), Token::Atom(b), Token::Op(lo), Token::Atom(c)]);
    let w = v1.drop_first();
    assert(w =~= seq![Token::Atom(b), Token::Op(lo)] + seq![Token::Atom(c)]);
    lemma_atom_then_stop(b, lo, seq![Token::Atom(c)], spec_infix_binding_power(hi).unwrap().1);
    let left = SV::Cons(hi, seq![SV::Atom(a), SV::Atom(b)]);
    let rest = seq![Token::Op(lo)] + seq![Token::Atom(c)];
    assert(rest =~= seq![Token::Op(lo), Token::Atom(c)]);
    assert(rest.drop_first() =~= seq![Token::Atom(c)]);
    lemma_atom_alone(c, spec_infix_binding_power(lo).unwrap().1);
    let whole2 = SV::Cons(lo, seq![left, SV::Atom(c)]);
    assert(parse_loop(whole2, e, 0) == Some((whole2, e)));
    assert(parse_loop(left, rest, 0) == Some((whole2, e)));
    assert(parse_loop(SV::Atom(a), v1, 0) == Some((whole2, e)));
}

/// Operators of one group associate to the left: `a op1 b op2 c` reads as
/// `(a op1 b) op2 c` when both are additive or both multiplicative.
pub proof fn lemma_same_group_left_associative(a: char, b: char, c: char, op1: char, op2: char)
    requires
        (is_additive(op1) && is_additive(op2)) || (is_multiplicative(op1) && is_multiplicative(op2)),
    ensures
        parse_bp(seq![Token::Atom(a), Token::Op(op1), Token::Atom(b), Token::Op(op2), Token::Atom(c)], 0)
            == Some(
            (
                SV::Cons(op2, seq![SV::Cons(op1, seq![SV::Atom(a), SV::Atom(b)]), SV::Atom(c)]),
                Seq::<Token>::empty(),
            ),
        ),
{
    let e = Seq::<Token>::empty();
    let v = seq![Token::Atom(a), Token::Op(op1), Token::Atom(b), Token::Op(op2), Token::Atom(c)];
    let v1 = v.drop_first();
    assert(v1 =~= seq![Token::Op(op1), Token::Atom(b), Token::Op(op2), Token::Atom(c)]);
    let w = v1.drop_first();
    assert(w =~= seq![Token::Atom(b), Token::Op(op2)] + seq![Token::Atom(c)]);
    lemma_atom_then_stop(b, op2, seq![Token::Atom(c)], spec_infix_binding_power(op1).unwrap().1);
    let left = SV::Cons(op1, seq![SV::Atom(a), SV::Atom(b)]);
    let rest = seq![Token::Op(op2)] + seq![Token::Atom(c)];
    assert(rest =~= seq![Token::Op(op2), Token::Atom(c)]);
    assert(rest.drop_first() =~= seq![Token::Atom(c)]);
    lemma_atom_alone(c, spec_infix_binding_power(op2).unwrap().1);
    let whole = SV::Cons(op2, seq![left, SV::Atom(c)]);
    assert(parse_loop(whole, e, 0) == Some((whole, e)));
    assert(parse_loop(left, rest, 0) == Some((whole, e)));
    assert(parse_loop(SV::Atom(a), v1, 0) == Some((whole, e)));
}

/// Whether `toks` starts where an expression of minimum binding power `min`
/// ends: at the end, or at an operator that binds looser than `min` or not
/// at all after an operand.
pub open spec fn stops_at(toks: Seq<Token>, min: u8) -> bool {
    toks.len() == 0 || match toks[0] {
        Token::Eof => true,
        Token::Atom(_) => false,
        Token::Op(op) => match spec_postfix_binding_power(op) {
            Some(l_bp) => l_bp < min,
            None => match spec_infix_binding_power(op) {
                Some((l_bp, _)) => l_bp < min,
                None => true,
            },
        },
    }
}

/// Extending an operand stops exactly at the first operator that binds
/// looser than the minimum (or not at all).
proof fn lemma_loop_stops(lhs: SV, toks: Seq<Token>, min: u8)
    requires
        parse_loop(lhs, toks, min) is Some,
    ensures
        stops_at(parse_loop(lhs, toks, min).unwrap().1, min),
    decreases toks.len(),
{
    if toks.len() > 0 {
        let rest0 = toks.drop_first();
        match toks[0] {
            Token::Op(op) => match spec_postfix_binding_power(op) {
                Some(l_bp) => if l_bp >= min {
                    if op == '[' {
                        let (rhs, rest) = parse_bp(rest0, 0).unwrap();
                        lemma_loop_stops(SV::Cons(op, seq![lhs, rhs]), rest.drop_first(), min);
                    } else {
                        lemma_loop_stops(SV::Cons(op, seq![lhs]), rest0, min);
                    }
                },
                None => match spec_infix_binding_power(op) {
                    Some((l_bp, r_bp)) => if l_bp >= min {
                        if op == '?' {
                            let (mhs, rest) = parse_bp(rest0, 0).unwrap();
                            let (rhs, rest2) = parse_bp(rest.drop_first(), r_bp).unwrap();
                            lemma_loop_stops(SV::Cons(op, seq![lhs, mhs, rhs]), rest2, min);
                        } else {
                            let (rhs, rest) = parse_bp(rest0, r_bp).unwrap();
                            lemma_loop_stops(SV::Cons(op, seq![lhs, rhs]), rest, min);
                        }
                    },
                    None => {},
                },
            },
            _ => {},
        }
    }
}

/// An expression parsed at minimum binding power `min` ends where parsing
/// must stop: at the end of the input, or before an operator that binds
/// looser than `min` (or that cannot follow an operand).
pub proof fn lemma_parse_stops_at_looser_operator(toks: Seq<Token>, min: u8)
    requires
        parse_bp(toks, min) is Some,
    ensures
        stops_at(parse_bp(toks, min).unwrap().1, min),
{
    let rest0 = toks.drop_first();
    match toks[0] {
        Token::Atom(c) => lemma_loop_stops(SV::Atom(c), rest0, min),
        Token::Op(op) => if op == '(' {
            let (inner, rest) = parse_bp(rest0, 0).unwrap();
            lemma_loop_stops(inner, rest.drop_first(), min);
        } else {
            let (rhs, rest) = parse_bp(rest0, spec_prefix_binding_power(op).unwrap()).unwrap();
            lemma_loop_stops(SV::Cons(op, seq![rhs]), rest, min);
        },
        Token::Eof => {},
    }
}

/// Whether `input` parses as one expression: what `expr` asks of its input.
pub fn can_parse(input: &str) -> (r: bool)
    ensures
        r == parse_bp(lex(input@), 0) is Some,
{
    let mut lexer = Lexer::new(input);
    try_expr_bp(&mut lexer, 0).is_some()
}

/// Parses from `lexer` an expression whose operators bind at least as
/// tightly as `cur_min`, and leaves the lexer after it.
pub fn expr_bp(lexer: &mut Lexer, cur_min: u8) -> (r: S)
    requires
        parse_bp(old(lexer)@, cur_min) is Some,
    ensures
        parse_bp(old(lexer)@, cur_min) == Some((r@, final(lexer)@)),
        final(lexer)@.len() < old(lexer)@.len(),
{
    match try_expr_bp(lexer, cur_min) {
        Some(e) => e,
        None => {
            assert(false);
            S::Atom('0')
        },
    }
}

/// As `expr_bp`, on any tokens: `None` where the input does not parse.
pub fn try_expr_bp(lexer: &mut Lexer, cur_min: u8) -> (r: Option<S>)
    ensures
        match r {
            Some(e) => parse_bp(old(lexer)@, cur_min) == Some((e@, final(lexer)@)),
            None => parse_bp(old(lexer)@, cur_min) is None,
        },
        r is Some ==> final(lexer)@.len() < old(lexer)@.len(),
    decreases old(lexer)@.len(),
{
    let ghost toks0 = lexer@;
    let first = lexer.next();
    let mut lhs = match first {
        Token::Atom(it) => S::Atom(it),
        Token::Op(op) => {
            if op == '(' {
                let inner = match try_expr_bp(lexer, 0) {
                    Some(e) => e,
                    None => return None,
                };
                match lexer.next() {
                    Token::Op(c) => if c != ')' {
                        return None;
                    },
                    _ => return None,
                }
                inner
            } else if op == '+' || op == '-' {
                let (_, r_bp) = prefix_binding_power(op);
                let rhs = match try_expr_bp(lexer, r_bp) {
                    Some(e) => e,
                    None => return None,
                };
                cons1(op, rhs)
            } else {
                return None;
            }
        },
        Token::Eof => return None,
    };
    assert(parse_loop(lhs@, lexer@, cur_min) == parse_bp(toks0, cur_min));

    loop
        invariant
            toks0 == old(lexer)@,
            lexer@.len() < toks0.len(),
            parse_loop(lhs@, lexer@, cur_min) == parse_bp(toks0, cur_min),
        ensures
            parse_bp(toks0, cur_min) == Some((lhs@, lexer@)),
            lexer@.len() < toks0.len(),
        decreases lexer@.len(),
    {
        let ghost toks = lexer@;
        let op = match lexer.peek() {
            Token::Eof => break,
            Token::Op(op) => op,
            Token::Atom(_) => return None,
        };
        if let Some((l_bp, _)) = postfix_binding_power(op) {
            if l_bp < cur_min {
                break;
            }
            lexer.next();
            lhs = if op == '[' {
                let rhs = match try_expr_bp(lexer, 0) {
                    Some(e) => e,
                    None => return None,
                };
                match lexer.next() {
                    Token::Op(c) => if c != ']' {
                        return None;
                    },
                    _ => return None,
                }
                cons2(op, lhs, rhs)
            } else {
                cons1(op, lhs)
            };
            continue;
        }
        if let Some((l_bp, r_bp)) = infix_binding_power(op) {
            if l_bp < cur_min {
                break;
            }
            lexer.next();
            lhs = if op == '?' {
                let mhs = match try_expr_bp(lexer, 0) {
                    Some(e) => e,
                    None => return None,
                };
                match lexer.next() {
                    Token::Op(c) => if c != ':' {
                        return None;
                    },
                    _ => return None,
                }
                let rhs = match try_expr_bp(lexer, r_bp) {
                    Some(e) => e,
                    None => return None,
                };
                cons3(op, lhs, mhs, rhs)
            } else {
                let rhs = match try_expr_bp(lexer, r_bp) {
                    Some(e) => e,
                    None => return None,
                };
                cons2(op, lhs, rhs)
            };
            continue;
        }
        break;
    }
    Some(lhs)
}

} // verus!

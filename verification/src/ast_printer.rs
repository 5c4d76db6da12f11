//! Prints syntax trees as parenthesized text.
use vstd::prelude::*;

use crate::expr::{all_exprs_view, expr_view, lemma_exprs_view, ExprV, Exprs, LitV, LiteralType};
use crate::stmt::{
    all_funs_view, all_stmts_view, fun_view, lemma_funs_view, lemma_stmts_view, stmt_view,
    token_views, FunV, Function, StmtV, Stmts,
};
use crate::text::{chars_of, push_str_chars, string_from_chars};
use crate::token::{Token, TokenV};

verus! {

/// The index of the first `.` of `s` at or after `i`, or the length of `s`.
pub open spec fn dot_at(s: Seq<char>, i: int) -> int
    decreases s.len() - i,
{
    if i >= s.len() {
        s.len() as int
    } else if s[i] == '.' {
        i
    } else {
        dot_at(s, i + 1)
    }
}

/// The first index from `i` on, before `p`, that holds no `0` (or `p`).
pub open spec fn lead_end(s: Seq<char>, i: int, p: int) -> int
    decreases p - i,
{
    if i < p && s[i] == '0' {
        lead_end(s, i + 1, p)
    } else {
        i
    }
}

/// The end of `s` up to `j`, after `q`, with trailing `0`s dropped.
pub open spec fn trail_end(s: Seq<char>, j: int, q: int) -> int
    decreases j - q,
{
    if j > q && s[j - 1] == '0' {
        trail_end(s, j - 1, q)
    } else {
        j
    }
}

/// How a number prints: its decimal numeral with the leading zeros of the
/// whole part dropped (one `0` kept for an empty whole part), the trailing
/// zeros of the fraction dropped, and the point dropped with an empty
/// fraction. So `1.50` prints `1.5`, `007` prints `7` and `2.0` prints `2`,
/// as a number's value prints.
pub open spec fn number_text(n: Seq<char>) -> Seq<char> {
    let p = dot_at(n, 0);
    let a = lead_end(n, 0, p);
    let whole = if a == p { "0"@ } else { n.subrange(a, p) };
    if p >= n.len() {
        whole
    } else {
        let b = trail_end(n, n.len() as int, p + 1);
        if b == p + 1 {
            whole
        } else {
            whole + "."@ + n.subrange(p + 1, b)
        }
    }
}

/// Appends how the number with numeral `n` prints.
pub fn push_number(out: &mut Vec<char>, n: &str)
    ensures
        final(out)@ == old(out)@ + number_text(n@),
{
    proof {
        reveal_strlit("0");
        reveal_strlit(".");
    }
    let s = chars_of(n);
    let len = s.len();
    let mut p: usize = 0;
    while p < len && s[p] != '.'
        invariant
            p <= len,
            len == s@.len(),
            s@ == n@,
            dot_at(s@, p as int) == dot_at(s@, 0),
        decreases len - p,
    {
        p = p + 1;
    }
    let mut a: usize = 0;
    while a < p && s[a] == '0'
        invariant
            a <= p <= len,
            len == s@.len(),
            lead_end(s@, a as int, p as int) == lead_end(s@, 0, p as int),
        decreases p - a,
    {
        a = a + 1;
    }
    let ghost start = out@;
    if a == p {
        out.push('0');
    } else {
        let mut k: usize = a;
        while k < p
            invariant
                a <= k <= p <= len,
                len == s@.len(),
                out@ == start + s@.subrange(a as int, k as int),
            decreases p - k,
        {
            out.push(s[k]);
            k = k + 1;
            assert(s@.subrange(a as int, k as int) =~= s@.subrange(a as int, k - 1).push(s@[k - 1]));
        }
    }
    let ghost whole = out@;
    if p < len {
        let mut b: usize = len;
        while b > p + 1 && s[b - 1] == '0'
            invariant
                p + 1 <= b <= len,
                len == s@.len(),
                trail_end(s@, b as int, p + 1) == trail_end(s@, len as int, p + 1),
            decreases b,
        {
            b = b - 1;
        }
        if b > p + 1 {
            out.push('.');
            let mut k: usize = p + 1;
            while k < b
                invariant
                    p + 1 <= k <= b <= len,
                    len == s@.len(),
                    out@ == whole.push('.') + s@.subrange(p + 1, k as int),
                decreases b - k,
            {
                out.push(s[k]);
                k = k + 1;
                assert(s@.subrange(p + 1, k as int) =~= s@.subrange(p + 1, k - 1).push(s@[k - 1]));
            }
        }
    }
    assert(out@ =~= old(out)@ + number_text(n@));
}

/// The text of a literal: a string as it is, a number as its value prints
/// (`number_text`), `true`, `false` or `nil`.
pub open spec fn lit_text(v: LitV) -> Seq<char> {
    match v {
        LitV::String(s) => s,
        LitV::Number(n) => number_text(n),
        LitV::Bool(b) => if b {
            "true"@
        } else {
            "false"@
        },
        LitV::Nil => "nil"@,
    }
}

/// `(name a b)`: a name and operands, each after a space.
pub open spec fn paren1(name: Seq<char>, a: Seq<char>) -> Seq<char> {
    "("@ + name + " "@ + a + ")"@
}

/// `(name a b)`: a name and two operands, each after a space.
pub open spec fn paren2(name: Seq<char>, a: Seq<char>, b: Seq<char>) -> Seq<char> {
    "("@ + name + " "@ + a + " "@ + b + ")"@
}

/// The text of an expression.
pub open spec fn expr_text(e: ExprV) -> Seq<char>
    decreases e, 0nat,
{
    match e {
        ExprV::Assign(name, value) => "(="@ + name.inner.lexeme + expr_text(*value) + ")"@,
        ExprV::Binary(l, op, r) => paren2(op.inner.lexeme, expr_text(*l), expr_text(*r)),
        ExprV::Call(callee, _, args) => "(call"@ + expr_text(*callee) + args_text(args, args.len())
            + ")"@,
        ExprV::Get(object, name) => "(."@ + expr_text(*object) + name.inner.lexeme + ")"@,
        ExprV::Grouping(inner) => paren1("group"@, expr_text(*inner)),
        ExprV::Literal(v) => lit_text(v),
        ExprV::Logical(l, op, r) => paren2(op.inner.lexeme, expr_text(*l), expr_text(*r)),
        ExprV::SetProp(object, name, value) => "(="@ + expr_text(*object) + name.inner.lexeme
            + expr_text(*value) + ")"@,
        ExprV::Super(_, method) => "(super"@ + method.inner.lexeme + ")"@,
        ExprV::This(keyword) => keyword.inner.lexeme,
        ExprV::Unary(op, r) => paren1(op.inner.lexeme, expr_text(*r)),
        ExprV::Variable(name) => name.inner.lexeme,
    }
}

/// The texts of the first `n` expressions of `v`, one after another.
pub open spec fn args_text(v: Seq<ExprV>, n: nat) -> Seq<char>
    decreases v, n,
{
    if n == 0 || n > v.len() {
        Seq::empty()
    } else {
        args_text(v, (n - 1) as nat) + expr_text(v[n - 1])
    }
}

/// The parameter names of a function: each but those equal to the first
/// parameter after a space.
pub open spec fn params_text(ps: Seq<TokenV>, n: nat) -> Seq<char>
    decreases n,
{
    if n == 0 || n > ps.len() {
        Seq::empty()
    } else {
        let p = ps[n - 1];
        params_text(ps, (n - 1) as nat) + (if p != ps[0] {
            " "@
        } else {
            Seq::empty()
        }) + p.inner.lexeme
    }
}

/// The text of a function: its name and parameters; the body is not shown.
pub open spec fn fun_text(f: FunV) -> Seq<char> {
    "(fun "@ + f.name.inner.lexeme + " ("@ + params_text(f.params, f.params.len()) + ")"@
}

/// The texts of the first `n` methods of `v`, each after a space.
pub open spec fn methods_text(v: Seq<FunV>, n: nat) -> Seq<char>
    decreases n,
{
    if n == 0 || n > v.len() {
        Seq::empty()
    } else {
        methods_text(v, (n - 1) as nat) + " "@ + fun_text(v[n - 1])
    }
}

/// The text of a statement.
pub open spec fn stmt_text(s: StmtV) -> Seq<char>
    decreases s, 0nat,
{
    match s {
        StmtV::Expression(e) => paren1(";"@, expr_text(e)),
        StmtV::Print(e) => paren1("print"@, expr_text(e)),
        StmtV::Var(name, init) => match init {
            Some(i) => "(var"@ + name.inner.lexeme + "="@ + expr_text(i) + ")"@,
            None => "(var"@ + name.inner.lexeme + ")"@,
        },
        StmtV::Block(ss) => "(block "@ + stmts_text(ss, ss.len()) + ")"@,
        StmtV::If(c, t, e) => match e {
            Some(e) => "(if-else"@ + expr_text(c) + stmt_text(*t) + stmt_text(*e) + ")"@,
            None => "(if"@ + expr_text(c) + stmt_text(*t) + ")"@,
        },
        StmtV::While(c, b) => "(while"@ + expr_text(c) + stmt_text(*b) + ")"@,
        StmtV::Break(tk) => tk.inner.lexeme,
        StmtV::Function(f) => fun_text(f),
        StmtV::Return(_, v) => match v {
            Some(v) => paren1("return"@, expr_text(v)),
            None => "(return)"@,
        },
        StmtV::Class(name, sup, methods) => "(class "@ + name.inner.lexeme + match sup {
            Some(s) => " < "@ + s.inner.lexeme,
            None => Seq::empty(),
        } + methods_text(methods, methods.len()) + ")"@,
    }
}

/// The texts of the first `n` statements of `v`, one after another.
pub open spec fn stmts_text(v: Seq<StmtV>, n: nat) -> Seq<char>
    decreases v, n,
{
    if n == 0 || n > v.len() {
        Seq::empty()
    } else {
        stmts_text(v, (n - 1) as nat) + stmt_text(v[n - 1])
    }
}

/// A part of a printed form.
pub enum Obj<'o> {
    Expr(&'o Exprs),
    Stmt(&'o Stmts),
    Token(&'o Token),
    List(Vec<Obj<'o>>),
    Str(&'o str),
}

/// The text of a part: an expression or statement printed, a token's
/// lexeme, the parts of a list one after another, or a string as it is.
pub open spec fn obj_text<'o>(o: Obj<'o>) -> Seq<char>
    decreases o, 0nat,
{
    match o {
        Obj::Expr(e) => expr_text(expr_view(*e)),
        Obj::Stmt(s) => stmt_text(stmt_view(*s)),
        Obj::Token(t) => t@.inner.lexeme,
        Obj::List(v) => objs_text(v@, v@.len()),
        Obj::Str(s) => s@,
    }
}

/// The texts of the first `n` parts of `v`, one after another.
pub open spec fn objs_text<'o>(v: Seq<Obj<'o>>, n: nat) -> Seq<char>
    decreases v, n,
{
    if n == 0 || n > v.len() {
        Seq::empty()
    } else {
        objs_text(v, (n - 1) as nat) + obj_text(v[n - 1])
    }
}

/// Appends the text of a literal.
pub fn push_lit(out: &mut Vec<char>, v: &LiteralType)
    ensures
        final(out)@ == old(out)@ + lit_text(v@),
{
    match v {
        LiteralType::String(s) => push_str_chars(out, s.as_str()),
        LiteralType::Number(n) => push_number(out, n.as_str()),
        LiteralType::Bool(b) => if *b {
            push_str_chars(out, "true")
        } else {
            push_str_chars(out, "false")
        },
        LiteralType::Nil => push_str_chars(out, "nil"),
    }
}

/// `(name a)` for an operator and one operand.
fn write_paren1(out: &mut Vec<char>, name: &str, a: &Exprs)
    ensures
        final(out)@ == old(out)@ + paren1(name@, expr_text(expr_view(*a))),
    decreases *a, 1nat,
{
    let ghost o = out@;
    push_str_chars(out, "(");
    push_str_chars(out, name);
    push_str_chars(out, " ");
    write_expr(out, a);
    push_str_chars(out, ")");
    assert(out@ =~= o + paren1(name@, expr_text(expr_view(*a))));
}

/// Appends the texts of the expressions, one after another.
fn write_args(out: &mut Vec<char>, args: &Vec<Exprs>)
    ensures
        final(out)@ == old(out)@ + args_text(all_exprs_view(args@), args@.len()),
    decreases args, 1nat,
{
    let ghost head = out@;
    let ghost vs = all_exprs_view(args@);
    proof {
        lemma_exprs_view(args@, args@.len());
    }
    let mut i: usize = 0;
    while i < args.len()
        invariant
            i <= args@.len(),
            vs == all_exprs_view(args@),
            vs.len() == args@.len(),
            forall|k: int| 0 <= k < vs.len() ==> #[trigger] vs[k] == expr_view(args@[k]),
            out@ == head + args_text(vs, i as nat),
        decreases args@.len() - i,
    {
        proof {
            assert(decreases_to!(args => args@));
            assert(decreases_to!(args@ => args@[i as int]));
        }
        write_expr(out, &args[i]);
        i = i + 1;
    }
}

/// Appends the text of an expression.
#[verifier::rlimit(100)]
#[verifier::spinoff_prover]
fn write_expr(out: &mut Vec<char>, e: &Exprs)
    ensures
        final(out)@ == old(out)@ + expr_text(expr_view(*e)),
    decreases *e, 0nat,
{
    let ghost o = out@;
    match e {
        Exprs::Assign(a) => {
            push_str_chars(out, "(=");
            push_str_chars(out, a.name.lexeme());
            write_expr(out, &a.value);
            push_str_chars(out, ")");
            assert(out@ =~= o + expr_text(expr_view(*e)));
        },
        Exprs::Binary(b) => {
            push_str_chars(out, "(");
            push_str_chars(out, b.operator.lexeme());
            push_str_chars(out, " ");
            write_expr(out, &b.left);
            push_str_chars(out, " ");
            write_expr(out, &b.right);
            push_str_chars(out, ")");
            assert(out@ =~= o + expr_text(expr_view(*e)));
        },
        Exprs::Call(c) => {
            push_str_chars(out, "(call");
            write_expr(out, &c.callee);
            proof {
                assert(decreases_to!(*e => e->Call_0));
                assert(decreases_to!(*c => c.arguments));
            }
            write_args(out, &c.arguments);
            push_str_chars(out, ")");
            proof {
                lemma_exprs_view(c.arguments@, c.arguments@.len());
            }
            assert(out@ =~= o + expr_text(expr_view(*e)));
        },
        Exprs::Get(g) => {
            push_str_chars(out, "(.");
            write_expr(out, &g.object);
            push_str_chars(out, g.name.lexeme());
            push_str_chars(out, ")");
            assert(out@ =~= o + expr_text(expr_view(*e)));
        },
        Exprs::Grouping(g) => {
            write_paren1(out, "group", &g.expression);
            assert(out@ =~= o + expr_text(expr_view(*e)));
        },
        Exprs::Literal(l) => {
            push_lit(out, &l.value);
            assert(out@ =~= o + expr_text(expr_view(*e)));
        },
        Exprs::Logical(l) => {
            push_str_chars(out, "(");
            push_str_chars(out, l.operator.lexeme());
            push_str_chars(out, " ");
            write_expr(out, &l.left);
            push_str_chars(out, " ");
            write_expr(out, &l.right);
            push_str_chars(out, ")");
            assert(out@ =~= o + expr_text(expr_view(*e)));
        },
        Exprs::SetProp(s) => {
            push_str_chars(out, "(=");
            write_expr(out, &s.object);
            push_str_chars(out, s.name.lexeme());
            write_expr(out, &s.value);
            push_str_chars(out, ")");
            assert(out@ =~= o + expr_text(expr_view(*e)));
        },
        Exprs::Super(s) => {
            push_str_chars(out, "(super");
            push_str_chars(out, s.method.lexeme());
            push_str_chars(out, ")");
            assert(out@ =~= o + expr_text(expr_view(*e)));
        },
        Exprs::This(t) => {
            push_str_chars(out, t.keyword.lexeme());
            assert(out@ =~= o + expr_text(expr_view(*e)));
        },
        Exprs::Unary(u) => {
            write_paren1(out, u.operator.lexeme(), &u.right);
            assert(out@ =~= o + expr_text(expr_view(*e)));
        },
        Exprs::Variable(v) => {
            push_str_chars(out, v.name.lexeme());
            assert(out@ =~= o + expr_text(expr_view(*e)));
        },
    }
}

/// Appends the text of a function: its name and parameters.
fn write_function(out: &mut Vec<char>, f: &Function)
    ensures
        final(out)@ == old(out)@ + fun_text(fun_view(*f)),
{
    let ghost o = out@;
    push_str_chars(out, "(fun ");
    push_str_chars(out, f.name.lexeme());
    push_str_chars(out, " (");
    let ghost head = out@;
    let ghost ps = token_views(f.params@);
    let mut i: usize = 0;
    while i < f.params.len()
        invariant
            i <= f.params@.len(),
            ps == token_views(f.params@),
            out@ == head + params_text(ps, i as nat),
        decreases f.params@.len() - i,
    {
        if !f.params[i].same(&f.params[0]) {
            push_str_chars(out, " ");
        }
        push_str_chars(out, f.params[i].lexeme());
        i = i + 1;
        assert(out@ =~= head + params_text(ps, i as nat));
    }
    push_str_chars(out, ")");
    assert(out@ =~= o + fun_text(fun_view(*f)));
}

/// Appends the texts of the statements, one after another.
fn write_stmts(out: &mut Vec<char>, stmts: &Vec<Stmts>)
    ensures
        final(out)@ == old(out)@ + stmts_text(all_stmts_view(stmts@), stmts@.len()),
    decreases stmts, 1nat,
{
    let ghost head = out@;
    let ghost ss = all_stmts_view(stmts@);
    proof {
        lemma_stmts_view(stmts@, stmts@.len());
    }
    let mut i: usize = 0;
    while i < stmts.len()
        invariant
            i <= stmts@.len(),
            ss == all_stmts_view(stmts@),
            ss.len() == stmts@.len(),
            forall|k: int| 0 <= k < ss.len() ==> #[trigger] ss[k] == stmt_view(stmts@[k]),
            out@ == head + stmts_text(ss, i as nat),
        decreases stmts@.len() - i,
    {
        proof {
            assert(decreases_to!(stmts => stmts@));
            assert(decreases_to!(stmts@ => stmts@[i as int]));
        }
        write_stmt(out, &stmts[i]);
        i = i + 1;
    }
}

/// Appends the texts of the methods, each after a space.
fn write_methods(out: &mut Vec<char>, methods: &Vec<Function>)
    ensures
        final(out)@ == old(out)@ + methods_text(all_funs_view(methods@), methods@.len()),
{
    let ghost head = out@;
    let ghost ms = all_funs_view(methods@);
    proof {
        lemma_funs_view(methods@, methods@.len());
    }
    let mut i: usize = 0;
    while i < methods.len()
        invariant
            i <= methods@.len(),
            ms == all_funs_view(methods@),
            ms.len() == methods@.len(),
            forall|k: int| 0 <= k < ms.len() ==> #[trigger] ms[k] == fun_view(methods@[k]),
            out@ == head + methods_text(ms, i as nat),
        decreases methods@.len() - i,
    {
        push_str_chars(out, " ");
        write_function(out, &methods[i]);
        i = i + 1;
        assert(out@ =~= head + methods_text(ms, i as nat));
    }
}

/// Appends the text of a statement.
#[verifier::rlimit(100)]
#[verifier::spinoff_prover]
fn write_stmt(out: &mut Vec<char>, s: &Stmts)
    ensures
        final(out)@ == old(out)@ + stmt_text(stmt_view(*s)),
    decreases *s, 0nat,
{
    let ghost o = out@;
    match s {
        Stmts::Expression(e) => {
            write_paren1(out, ";", &e.expr);
            assert(out@ =~= o + stmt_text(stmt_view(*s)));
        },
        Stmts::Print(p) => {
            write_paren1(out, "print", &p.expr);
            assert(out@ =~= o + stmt_text(stmt_view(*s)));
        },
        Stmts::Var(v) => {
            push_str_chars(out, "(var");
            push_str_chars(out, v.name.lexeme());
            match &v.initializer {
                Some(i) => {
                    push_str_chars(out, "=");
                    write_expr(out, i);
                },
                None => {},
            }
            push_str_chars(out, ")");
            assert(out@ =~= o + stmt_text(stmt_view(*s)));
        },
        Stmts::Block(b) => {
            push_str_chars(out, "(block ");
            proof {
                assert(decreases_to!(*s => s->Block_0));
                assert(decreases_to!(*b => b.statements));
            }
            write_stmts(out, &b.statements);
            push_str_chars(out, ")");
            proof {
                lemma_stmts_view(b.statements@, b.statements@.len());
            }
            assert(out@ =~= o + stmt_text(stmt_view(*s)));
        },
        Stmts::If(i) => {
            match &i.else_branch {
                Some(e) => {
                    push_str_chars(out, "(if-else");
                    write_expr(out, &i.condition);
                    write_stmt(out, &i.then_branch);
                    write_stmt(out, e);
                },
                None => {
                    push_str_chars(out, "(if");
                    write_expr(out, &i.condition);
                    write_stmt(out, &i.then_branch);
                },
            }
            push_str_chars(out, ")");
            assert(out@ =~= o + stmt_text(stmt_view(*s)));
        },
        Stmts::While(w) => {
            push_str_chars(out, "(while");
            write_expr(out, &w.condition);
            write_stmt(out, &w.body);
            push_str_chars(out, ")");
            assert(out@ =~= o + stmt_text(stmt_view(*s)));
        },
        Stmts::Break(b) => {
            push_str_chars(out, b.token.lexeme());
            assert(out@ =~= o + stmt_text(stmt_view(*s)));
        },
        Stmts::Function(f) => {
            write_function(out, f);
            assert(out@ =~= o + stmt_text(stmt_view(*s)));
        },
        Stmts::Return(r) => {
            match &r.value {
                Some(v) => write_paren1(out, "return", v),
                None => push_str_chars(out, "(return)"),
            }
            assert(out@ =~= o + stmt_text(stmt_view(*s)));
        },
        Stmts::Class(c) => {
            push_str_chars(out, "(class ");
            push_str_chars(out, c.name.lexeme());
            match &c.superclass {
                Some(sup) => {
                    push_str_chars(out, " < ");
                    push_str_chars(out, sup.name.lexeme());
                },
                None => {},
            }
            write_methods(out, &c.methods);
            push_str_chars(out, ")");
            proof {
                lemma_funs_view(c.methods@, c.methods@.len());
            }
            assert(out@ =~= o + stmt_text(stmt_view(*s)));
        },
    }
}

/// Prints syntax trees as parenthesized text.
pub struct AstPrinter;

impl AstPrinter {
    /// The texts of the statements, one after another.
    pub fn print(&mut self, stmts: &[Stmts]) -> (r: String)
        ensures
            r@ == stmts_text(all_stmts_view(stmts@), stmts@.len()),
    {
        let mut out: Vec<char> = Vec::new();
        let ghost ss = all_stmts_view(stmts@);
        proof {
            lemma_stmts_view(stmts@, stmts@.len());
        }
        let mut i: usize = 0;
        while i < stmts.len()
            invariant
                i <= stmts@.len(),
                ss == all_stmts_view(stmts@),
                ss.len() == stmts@.len(),
                forall|k: int| 0 <= k < ss.len() ==> #[trigger] ss[k] == stmt_view(stmts@[k]),
                out@ == stmts_text(ss, i as nat),
            decreases stmts@.len() - i,
        {
            write_stmt(&mut out, &stmts[i]);
            i = i + 1;
        }
        string_from_chars(out.as_slice())
    }

    /// The text of one expression.
    pub fn print_expr(&mut self, expr: &Exprs) -> (r: String)
        ensures
            r@ == expr_text(expr_view(*expr)),
    {
        let mut out: Vec<char> = Vec::new();
        write_expr(&mut out, expr);
        assert(out@ =~= expr_text(expr_view(*expr)));
        string_from_chars(out.as_slice())
    }

    /// `(name` followed by the texts of the parts, with nothing between them,
    /// and `)`.
    pub fn parenthesize2<'o>(&mut self, name: &str, parts: &Vec<Obj<'o>>) -> (r: String)
        ensures
            r@ == "("@ + name@ + objs_text(parts@, parts@.len()) + ")"@,
    {
        let mut builder: Vec<char> = Vec::new();
        push_str_chars(&mut builder, "(");
        push_str_chars(&mut builder, name);
        transform(&mut builder, parts);
        push_str_chars(&mut builder, ")");
        assert(builder@ =~= "("@ + name@ + objs_text(parts@, parts@.len()) + ")"@);
        string_from_chars(builder.as_slice())
    }
}

/// Appends the texts of the parts, one after another.
fn transform<'o>(builder: &mut Vec<char>, parts: &Vec<Obj<'o>>)
    ensures
        final(builder)@ == old(builder)@ + objs_text(parts@, parts@.len()),
    decreases parts@,
{
    let ghost head = builder@;
    let mut i: usize = 0;
    while i < parts.len()
        invariant
            i <= parts@.len(),
            builder@ == head + objs_text(parts@, i as nat),
        decreases parts@.len() - i,
    {
        match &parts[i] {
            Obj::Expr(e) => write_expr(builder, e),
            Obj::Stmt(s) => write_stmt(builder, s),
            Obj::Token(t) => push_str_chars(builder, t.lexeme()),
            Obj::List(v) => {
                proof {
                    assert(decreases_to!(parts@ => v@));
                }
                transform(builder, v)
            },
            Obj::Str(s) => push_str_chars(builder, s),
        }
        assert(objs_text(parts@, (i + 1) as nat) == objs_text(parts@, i as nat) + obj_text(parts@[i as int]));
        i = i + 1;
        assert(builder@ =~= head + objs_text(parts@, i as nat));
    }
}

} // verus!

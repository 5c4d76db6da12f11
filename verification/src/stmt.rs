//! Statements of the Lox syntax tree.
use vstd::prelude::*;

use crate::expr::{expr_view, ExprV, Exprs, Variable};
use crate::token::{Token, TokenV};

verus! {

/// An expression evaluated for its effect.
#[derive(Debug, PartialEq)]
pub struct Expression {
    pub expr: Exprs,
}

/// `print expr;`
#[derive(Debug, PartialEq)]
pub struct Print {
    pub expr: Exprs,
}

/// `var name = initializer;`
#[derive(Debug, PartialEq)]
pub struct Var {
    pub name: Token,
    pub initializer: Option<Exprs>,
}

/// `{ statements }`
#[derive(Debug, PartialEq)]
pub struct Block {
    pub statements: Vec<Stmts>,
}

/// `if (condition) then_branch else else_branch`
#[derive(Debug, PartialEq)]
pub struct If {
    pub condition: Exprs,
    pub then_branch: Box<Stmts>,
    pub else_branch: Option<Box<Stmts>>,
}

/// `while (condition) body`
#[derive(Debug, PartialEq)]
pub struct While {
    pub condition: Exprs,
    pub body: Box<Stmts>,
}

/// `break;`
#[derive(Debug, PartialEq)]
pub struct Break {
    pub token: Token,
}

/// `fun name(params) { body }`
#[derive(Debug, PartialEq)]
pub struct Function {
    pub name: Token,
    pub params: Vec<Token>,
    pub body: Vec<Stmts>,
}

/// `return value;`
#[derive(Debug, PartialEq)]
pub struct Return {
    pub keyword: Token,
    pub value: Option<Exprs>,
}

/// `class name < superclass { methods }`
#[derive(Debug, PartialEq)]
pub struct Class {
    pub name: Token,
    pub superclass: Option<Variable>,
    pub methods: Vec<Function>,
}

/// A Lox statement.
#[derive(Debug, PartialEq)]
pub enum Stmts {
    Expression(Expression),
    Print(Print),
    Var(Var),
    Block(Block),
    If(If),
    While(While),
    Break(Break),
    Function(Function),
    Return(Return),
    Class(Class),
}

/// A function declaration as a mathematical value.
pub struct FunV {
    pub name: TokenV,
    pub params: Seq<TokenV>,
    pub body: Seq<StmtV>,
}

/// A statement as a mathematical value.
pub enum StmtV {
    Expression(ExprV),
    Print(ExprV),
    Var(TokenV, Option<ExprV>),
    Block(Seq<StmtV>),
    If(ExprV, Box<StmtV>, Option<Box<StmtV>>),
    While(ExprV, Box<StmtV>),
    Break(TokenV),
    Function(FunV),
    Return(TokenV, Option<ExprV>),
    Class(TokenV, Option<TokenV>, Seq<FunV>),
}

/// The views of a sequence of tokens.
pub open spec fn token_views(v: Seq<Token>) -> Seq<TokenV> {
    v.map_values(|t: Token| t@)
}

/// The form of an optional expression.
pub open spec fn opt_expr_view(e: Option<Exprs>) -> Option<ExprV> {
    match e {
        Some(x) => Some(expr_view(x)),
        None => None,
    }
}

/// The form of a statement.
pub open spec fn stmt_view(s: Stmts) -> StmtV
    decreases s, 0nat,
{
    match s {
        Stmts::Expression(e) => StmtV::Expression(expr_view(e.expr)),
        Stmts::Print(p) => StmtV::Print(expr_view(p.expr)),
        Stmts::Var(v) => StmtV::Var(v.name@, opt_expr_view(v.initializer)),
        Stmts::Block(b) => StmtV::Block(stmts_view(b.statements@, b.statements@.len())),
        Stmts::If(i) => StmtV::If(
            expr_view(i.condition),
            Box::new(stmt_view(*i.then_branch)),
            match i.else_branch {
                Some(e) => Some(Box::new(stmt_view(*e))),
                None => None,
            },
        ),
        Stmts::While(w) => StmtV::While(expr_view(w.condition), Box::new(stmt_view(*w.body))),
        Stmts::Break(b) => StmtV::Break(b.token@),
        Stmts::Function(f) => StmtV::Function(fun_view(f)),
        Stmts::Return(r) => StmtV::Return(r.keyword@, opt_expr_view(r.value)),
        Stmts::Class(c) => StmtV::Class(
            c.name@,
            match c.superclass {
                Some(v) => Some(v.name@),
                None => None,
            },
            funs_view(c.methods@, c.methods@.len()),
        ),
    }
}

/// The form of a function declaration.
pub open spec fn fun_view(f: Function) -> FunV
    decreases f, 1nat,
{
    FunV {
        name: f.name@,
        params: token_views(f.params@),
        body: stmts_view(f.body@, f.body@.len()),
    }
}

/// The forms of the first `n` statements of `v`.
pub open spec fn stmts_view(v: Seq<Stmts>, n: nat) -> Seq<StmtV>
    decreases v, n,
{
    if n == 0 || n > v.len() {
        Seq::empty()
    } else {
        stmts_view(v, (n - 1) as nat).push(stmt_view(v[n - 1]))
    }
}

/// The forms of the first `n` functions of `v`.
pub open spec fn funs_view(v: Seq<Function>, n: nat) -> Seq<FunV>
    decreases v, n,
{
    if n == 0 || n > v.len() {
        Seq::empty()
    } else {
        funs_view(v, (n - 1) as nat).push(fun_view(v[n - 1]))
    }
}

/// The forms of all statements of `v`, in order.
pub open spec fn all_stmts_view(v: Seq<Stmts>) -> Seq<StmtV> {
    stmts_view(v, v.len())
}

/// The forms of all functions of `v`, in order.
pub open spec fn all_funs_view(v: Seq<Function>) -> Seq<FunV> {
    funs_view(v, v.len())
}

impl View for Stmts {
    type V = StmtV;

    open spec fn view(&self) -> StmtV {
        stmt_view(*self)
    }
}

/// The forms of the first `n` statements, one for each.
pub proof fn lemma_stmts_view(v: Seq<Stmts>, n: nat)
    requires
        n <= v.len(),
    ensures
        stmts_view(v, n).len() == n,
        forall|i: int| 0 <= i < n ==> #[trigger] stmts_view(v, n)[i] == stmt_view(v[i]),
    decreases n,
{
    if n > 0 {
        lemma_stmts_view(v, (n - 1) as nat);
    }
}

/// Pushing a statement pushes its form.
pub proof fn lemma_stmts_view_push(v: Seq<Stmts>, s: Stmts)
    ensures
        all_stmts_view(v.push(s)) == all_stmts_view(v).push(stmt_view(s)),
{
    let w = v.push(s);
    lemma_stmts_view(w, w.len());
    lemma_stmts_view(v, v.len());
    let a = all_stmts_view(w);
    let b = all_stmts_view(v).push(stmt_view(s));
    assert forall|i: int| 0 <= i < a.len() implies a[i] == b[i] by {
        if i < v.len() {
            assert(w[i] == v[i]);
        }
    }
    assert(a =~= b);
}

/// Pushing a function pushes its form.
pub proof fn lemma_funs_view_push(v: Seq<Function>, f: Function)
    ensures
        all_funs_view(v.push(f)) == all_funs_view(v).push(fun_view(f)),
{
    let w = v.push(f);
    lemma_funs_view(w, w.len());
    lemma_funs_view(v, v.len());
    let a = all_funs_view(w);
    let b = all_funs_view(v).push(fun_view(f));
    assert forall|i: int| 0 <= i < a.len() implies a[i] == b[i] by {
        if i < v.len() {
            assert(w[i] == v[i]);
        }
    }
    assert(a =~= b);
}

/// The forms of the first `n` functions, one for each.
pub proof fn lemma_funs_view(v: Seq<Function>, n: nat)
    requires
        n <= v.len(),
    ensures
        funs_view(v, n).len() == n,
        forall|i: int| 0 <= i < n ==> #[trigger] funs_view(v, n)[i] == fun_view(v[i]),
    decreases n,
{
    if n > 0 {
        lemma_funs_view(v, (n - 1) as nat);
    }
}

impl Expression {
    pub fn new(expr: Exprs) -> (r: Self)
        ensures
            r.expr == expr,
    {
        Self { expr }
    }

    pub fn expr(&self) -> (r: &Exprs)
        ensures
            *r == self.expr,
    {
        &self.expr
    }
}

impl Print {
    pub fn new(expr: Exprs) -> (r: Self)
        ensures
            r.expr == expr,
    {
        Self { expr }
    }

    pub fn expr(&self) -> (r: &Exprs)
        ensures
            *r == self.expr,
    {
        &self.expr
    }
}

impl Var {
    pub fn new(name: Token, initializer: Option<Exprs>) -> (r: Self)
        ensures
            r.name == name,
            r.initializer == initializer,
    {
        Self { name, initializer }
    }

    pub fn initializer(&self) -> (r: Option<&Exprs>)
        ensures
            r == match self.initializer {
                Some(e) => Some(&e),
                None => None,
            },
    {
        match &self.initializer {
            Some(e) => Some(e),
            None => None,
        }
    }

    pub fn name(&self) -> (r: &Token)
        ensures
            *r == self.name,
    {
        &self.name
    }

    pub fn var_name(&self) -> (r: &str)
        ensures
            r@ == self.name@.inner.lexeme,
    {
        self.name.lexeme()
    }
}

impl Block {
    pub fn new(statements: Vec<Stmts>) -> (r: Self)
        ensures
            r.statements == statements,
    {
        Self { statements }
    }

    pub fn statements(&self) -> (r: &[Stmts])
        ensures
            r@ == self.statements@,
    {
        self.statements.as_slice()
    }
}

impl If {
    pub fn new(condition: Exprs, then_branch: Box<Stmts>, else_branch: Option<Stmts>) -> (r: Self)
        ensures
            r.condition == condition,
            r.then_branch == then_branch,
            r.else_branch == match else_branch {
                Some(e) => Some(Box::new(e)),
                None => None,
            },
    {
        let else_branch = match else_branch {
            Some(e) => Some(Box::new(e)),
            None => None,
        };
        Self { condition, then_branch, else_branch }
    }
}

impl While {
    pub fn new(condition: Exprs, body: Box<Stmts>) -> (r: Self)
        ensures
            r.condition == condition,
            r.body == body,
    {
        Self { condition, body }
    }
}

impl Break {
    pub fn new(token: Token) -> (r: Self)
        ensures
            r.token == token,
    {
        Self { token }
    }
}

impl Function {
    pub fn new(name: Token, params: Vec<Token>, body: Vec<Stmts>) -> (r: Self)
        ensures
            r.name == name,
            r.params == params,
            r.body == body,
    {
        Self { name, params, body }
    }
}

impl Return {
    pub fn new(keyword: Token, value: Option<Exprs>) -> (r: Self)
        ensures
            r.keyword == keyword,
            r.value == value,
    {
        Self { keyword, value }
    }
}

impl Class {
    pub fn new(name: Token, superclass: Option<Variable>, methods: Vec<Function>) -> (r: Self)
        ensures
            r.name == name,
            r.superclass == superclass,
            r.methods == methods,
    {
        Self { name, superclass, methods }
    }
}

/// Copies of the tokens, in order.
pub fn duplicate_tokens(v: &Vec<Token>) -> (r: Vec<Token>)
    ensures
        token_views(r@) == token_views(v@),
{
    let mut out: Vec<Token> = Vec::new();
    let mut i: usize = 0;
    while i < v.len()
        invariant
            i <= v@.len(),
            out@.len() == i,
            forall|j: int| 0 <= j < i ==> #[trigger] out@[j]@ == v@[j]@,
        decreases v@.len() - i,
    {
        out.push(v[i].duplicate());
        i = i + 1;
    }
    assert(token_views(out@) =~= token_views(v@));
    out
}

impl Function {
    /// A copy of the function, of the same form.
    pub fn duplicate(&self) -> (r: Function)
        ensures
            fun_view(r) == fun_view(*self),
        decreases *self, 0nat,
    {
        proof {
            assert(decreases_to!(*self => self.body));
        }
        let body = duplicate_stmts(&self.body);
        proof {
            lemma_stmts_view(body@, body@.len());
            lemma_stmts_view(self.body@, self.body@.len());
        }
        Function::new(self.name.duplicate(), duplicate_tokens(&self.params), body)
    }
}

impl Stmts {
    /// A copy of the statement, of the same form.
    #[verifier::rlimit(50)]
    #[verifier::spinoff_prover]
    pub fn duplicate(&self) -> (r: Stmts)
        ensures
            stmt_view(r) == stmt_view(*self),
        decreases *self, 0nat,
    {
        match self {
            Stmts::Expression(e) => Stmts::Expression(Expression::new(e.expr.duplicate())),
            Stmts::Print(p) => Stmts::Print(Print::new(p.expr.duplicate())),
            Stmts::Var(v) => {
                let init = match &v.initializer {
                    Some(i) => Some(i.duplicate()),
                    None => None,
                };
                Stmts::Var(Var::new(v.name.duplicate(), init))
            },
            Stmts::Block(b) => {
                proof {
                    assert(decreases_to!(*self => self->Block_0));
                    assert(decreases_to!(*b => b.statements));
                }
                let ss = duplicate_stmts(&b.statements);
                proof {
                    lemma_stmts_view(ss@, ss@.len());
                    lemma_stmts_view(b.statements@, b.statements@.len());
                }
                Stmts::Block(Block::new(ss))
            },
            Stmts::If(i) => {
                let else_branch = match &i.else_branch {
                    Some(e) => Some(e.duplicate()),
                    None => None,
                };
                Stmts::If(
                    If::new(i.condition.duplicate(), Box::new(i.then_branch.duplicate()), else_branch),
                )
            },
            Stmts::While(w) => Stmts::While(
                While::new(w.condition.duplicate(), Box::new(w.body.duplicate())),
            ),
            Stmts::Break(b) => Stmts::Break(Break::new(b.token.duplicate())),
            Stmts::Function(f) => {
                proof {
                    assert(decreases_to!(*self => self->Function_0));
                }
                Stmts::Function(f.duplicate())
            },
            Stmts::Return(r) => {
                let value = match &r.value {
                    Some(v) => Some(v.duplicate()),
                    None => None,
                };
                Stmts::Return(Return::new(r.keyword.duplicate(), value))
            },
            Stmts::Class(c) => {
                let superclass = match &c.superclass {
                    Some(v) => Some(Variable::new(v.name.duplicate())),
                    None => None,
                };
                proof {
                    assert(decreases_to!(*self => self->Class_0));
                    assert(decreases_to!(*c => c.methods));
                }
                let methods = duplicate_functions(&c.methods);
                proof {
                    lemma_funs_view(methods@, methods@.len());
                    lemma_funs_view(c.methods@, c.methods@.len());
                }
                Stmts::Class(Class::new(c.name.duplicate(), superclass, methods))
            },
        }
    }
}

/// Copies of the statements, in order.
pub fn duplicate_stmts(v: &Vec<Stmts>) -> (r: Vec<Stmts>)
    ensures
        all_stmts_view(r@) == all_stmts_view(v@),
    decreases v, 1nat,
{
    let mut out: Vec<Stmts> = Vec::new();
    proof {
        lemma_stmts_view(v@, v@.len());
    }
    let mut i: usize = 0;
    while i < v.len()
        invariant
            i <= v@.len(),
            stmts_view(v@, v@.len()).len() == v@.len(),
            forall|k: int| 0 <= k < v@.len() ==> #[trigger] stmts_view(v@, v@.len())[k] == stmt_view(v@[k]),
            all_stmts_view(out@) == all_stmts_view(v@).take(i as int),
        decreases v@.len() - i,
    {
        proof {
            assert(decreases_to!(v => v@));
            assert(decreases_to!(v@ => v@[i as int]));
        }
        let s = v[i].duplicate();
        proof {
            lemma_stmts_view_push(out@, s);
        }
        out.push(s);
        i = i + 1;
        assert(all_stmts_view(out@) =~= all_stmts_view(v@).take(i as int));
    }
    assert(all_stmts_view(v@).take(i as int) =~= all_stmts_view(v@));
    out
}

/// Copies of the functions, in order.
pub fn duplicate_functions(v: &Vec<Function>) -> (r: Vec<Function>)
    ensures
        all_funs_view(r@) == all_funs_view(v@),
    decreases v, 1nat,
{
    let mut out: Vec<Function> = Vec::new();
    proof {
        lemma_funs_view(v@, v@.len());
    }
    let mut i: usize = 0;
    while i < v.len()
        invariant
            i <= v@.len(),
            funs_view(v@, v@.len()).len() == v@.len(),
            forall|k: int| 0 <= k < v@.len() ==> #[trigger] funs_view(v@, v@.len())[k] == fun_view(v@[k]),
            all_funs_view(out@) == all_funs_view(v@).take(i as int),
        decreases v@.len() - i,
    {
        proof {
            assert(decreases_to!(v => v@));
            assert(decreases_to!(v@ => v@[i as int]));
        }
        let f = v[i].duplicate();
        proof {
            lemma_funs_view_push(out@, f);
        }
        out.push(f);
        i = i + 1;
        assert(all_funs_view(out@) =~= all_funs_view(v@).take(i as int));
    }
    assert(all_funs_view(v@).take(i as int) =~= all_funs_view(v@));
    out
}

} // verus!

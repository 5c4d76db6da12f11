//! Static resolution: for each variable use, how many scopes out its
//! declaration stands, and the errors that can be found before running.
use vstd::prelude::*;

use crate::expr::{all_exprs_view, expr_view, lemma_exprs_view, ExprV, Exprs};
use crate::parser::{ErrV, ParserError};
use crate::stmt::{
    Class, all_funs_view, all_stmts_view, fun_view, lemma_funs_view, lemma_stmts_view, stmt_view,
    token_views, FunV, Function, StmtV, Stmts,
};
use crate::assoc::AssocMap;
use crate::text::str_eq;
use crate::token::{Token, TokenV};

verus! {

/// The kind of function whose body is being resolved.
#[derive(Clone, Copy, Debug, PartialEq, Eq, Structural)]
pub enum FunctionType {
    /// Outside any function.
    Outside,
    Function,
    Initializer,
    Method,
}

/// The kind of class whose body is being resolved.
#[derive(Clone, Copy, Debug, PartialEq, Eq, Structural)]
pub enum ClassType {
    /// Outside any class.
    Outside,
    Class,
    SubClass,
}

/// One scope: the names declared in it and whether each is defined yet.
pub type Scope = AssocMap<bool>;

// ---------------------------------------------------------------------------
// Resolution as functions on a mathematical state.
// ---------------------------------------------------------------------------

/// What the resolver holds: its scopes, innermost last; the kinds of
/// function and class around; whether an error was found; and the
/// resolved uses, each with the number of scopes between use and
/// declaration.
pub struct RState {
    pub scopes: Seq<Map<Seq<char>, bool>>,
    pub fun: FunctionType,
    pub class: ClassType,
    pub had_err: bool,
    pub locals: Seq<(TokenV, nat)>,
}

/// A new scope inside the others.
pub open spec fn begin_scope(st: RState) -> RState {
    RState { scopes: st.scopes.push(Map::empty()), ..st }
}

/// The innermost scope closed, if there is one.
pub open spec fn end_scope(st: RState) -> RState {
    if st.scopes.len() == 0 {
        st
    } else {
        RState { scopes: st.scopes.drop_last(), ..st }
    }
}

/// `k` set to `v` in the innermost scope, if there is one.
pub open spec fn scope_insert(st: RState, k: Seq<char>, v: bool) -> RState {
    if st.scopes.len() == 0 {
        st
    } else {
        RState {
            scopes: st.scopes.update(st.scopes.len() - 1, st.scopes.last().insert(k, v)),
            ..st
        }
    }
}

/// Declaring a name in the innermost scope: an error if it is already
/// there; nothing outside any scope (the name is global).
pub open spec fn declare(name: TokenV, st: RState) -> (Option<ErrV>, RState) {
    if st.scopes.len() == 0 {
        (None, st)
    } else if st.scopes.last().contains_key(name.inner.lexeme) {
        (Some(ErrV::DoubleVar(name)), st)
    } else {
        (None, scope_insert(st, name.inner.lexeme, false))
    }
}

/// Marking a name defined in the innermost scope.
pub open spec fn define(name: TokenV, st: RState) -> RState {
    scope_insert(st, name.inner.lexeme, true)
}

/// The outermost scope from index `i` on that holds `k`.
pub open spec fn first_scope(scopes: Seq<Map<Seq<char>, bool>>, k: Seq<char>, i: nat) -> Option<nat>
    decreases scopes.len() - i,
{
    if i >= scopes.len() {
        None
    } else if scopes[i as int].contains_key(k) {
        Some(i)
    } else {
        first_scope(scopes, k, i + 1)
    }
}

/// Recording a use of `name`: found in the outermost scope that holds it,
/// at the number of scopes between that one and the innermost; not recorded
/// when no scope holds it (a global).
pub open spec fn resolve_local(name: TokenV, st: RState) -> RState {
    match first_scope(st.scopes, name.inner.lexeme, 0) {
        Some(i) => RState {
            locals: st.locals.push((name, (st.scopes.len() - 1 - i) as nat)),
            ..st
        },
        None => st,
    }
}

/// `first_scope` finds the outermost scope from `i` on that holds `k`.
proof fn lemma_first_scope(scopes: Seq<Map<Seq<char>, bool>>, k: Seq<char>, i: nat)
    ensures
        match first_scope(scopes, k, i) {
            Some(j) => i <= j < scopes.len() && scopes[j as int].contains_key(k) && forall|m: int|
                i <= m < j ==> !#[trigger] scopes[m].contains_key(k),
            None => forall|m: int| i <= m < scopes.len() ==> !#[trigger] scopes[m].contains_key(k),
        },
    decreases scopes.len() - i,
{
    if i < scopes.len() && !scopes[i as int].contains_key(k) {
        lemma_first_scope(scopes, k, i + 1);
    }
}

/// A recorded use of a name points, by its distance from the innermost
/// scope, at a scope that declares the name, and no scope further out
/// declares it; a use that is not recorded is of a name that no scope
/// declares.
pub proof fn lemma_distance_points_to_declaration(name: TokenV, st: RState)
    ensures
        ({
            let k = name.inner.lexeme;
            let after = resolve_local(name, st);
            if after.locals.len() == st.locals.len() + 1 {
                let d = after.locals.last().1;
                let j = st.scopes.len() - 1 - d;
                &&& after.locals.last().0 == name
                &&& 0 <= j < st.scopes.len()
                &&& st.scopes[j].contains_key(k)
                &&& forall|m: int| 0 <= m < j ==> !#[trigger] st.scopes[m].contains_key(k)
            } else {
                &&& after == st
                &&& forall|m: int| 0 <= m < st.scopes.len() ==> !#[trigger] st.scopes[m].contains_key(k)
            }
        }),
{
    lemma_first_scope(st.scopes, name.inner.lexeme, 0);
}


/// What resolving a use of `name` must do to the state: where some scope
/// declares the name, add one entry for it at the end of the locals, whose
/// distance from the innermost scope leads to a scope that declares it with
/// none further out declaring it, and change nothing else; where no scope
/// declares it (a global), change nothing.
pub open spec fn records_use(name: TokenV, before: RState, after: RState) -> bool {
    let k = name.inner.lexeme;
    let n = before.scopes.len();
    if exists|m: int| 0 <= m < n && #[trigger] before.scopes[m].contains_key(k) {
        &&& after.locals.len() == before.locals.len() + 1
        &&& after.locals.drop_last() == before.locals
        &&& after.locals.last().0 == name
        &&& after.locals.last().1 < n
        &&& before.scopes[n - 1 - after.locals.last().1].contains_key(k)
        &&& forall|m: int| 0 <= m < n - 1 - after.locals.last().1 ==> !#[trigger] before.scopes[m].contains_key(k)
        &&& after.scopes == before.scopes && after.fun == before.fun && after.class == before.class
        &&& after.had_err == before.had_err
    } else {
        after == before
    }
}

proof fn lemma_resolve_local_records(name: TokenV, st: RState)
    ensures
        records_use(name, st, resolve_local(name, st)),
{
    let k = name.inner.lexeme;
    lemma_first_scope(st.scopes, k, 0);
    let after = resolve_local(name, st);
    if exists|m: int| 0 <= m < st.scopes.len() && #[trigger] st.scopes[m].contains_key(k) {
        let m = choose|m: int| 0 <= m < st.scopes.len() && #[trigger] st.scopes[m].contains_key(k);
        assert(first_scope(st.scopes, k, 0) is Some);
        assert(after.locals.drop_last() =~= st.locals);
    }
}

/// Resolving an assignment `name = value` whose value resolves without error
/// records the assigned name as a use: it gives no error, and it adds the
/// name at the distance of its declaring scope when a scope declares it.
pub proof fn lemma_assignment_records_target(name: TokenV, value: ExprV, st: RState)
    ensures
        ({
            let (r1, s1) = r_expr(value, st);
            let (r, s2) = r_expr(ExprV::Assign(name, Box::new(value)), st);
            r1 is None ==> r is None && records_use(name, s1, s2)
        }),
{
    let (r1, s1) = r_expr(value, st);
    lemma_resolve_local_records(name, s1);
}

/// Reading a variable records it as a use, unless the innermost scope has
/// declared it and not yet defined it (a read in its own initializer), which
/// is an error that changes nothing.
pub proof fn lemma_variable_use_records(name: TokenV, st: RState)
    ensures
        ({
            let k = name.inner.lexeme;
            let (r, s2) = r_expr(ExprV::Variable(name), st);
            if st.scopes.len() > 0 && st.scopes.last().contains_key(k) && !st.scopes.last()[k] {
                r == Some(ErrV::Initialization(name)) && s2 == st
            } else {
                r is None && records_use(name, st, s2)
            }
        }),
{
    lemma_resolve_local_records(name, st);
}

/// Resolving an expression: the error, if any, and the state after it.
pub open spec fn r_expr(e: ExprV, st: RState) -> (Option<ErrV>, RState)
    decreases e, 0nat,
{
    match e {
        ExprV::Assign(name, value) => {
            let (r, s1) = r_expr(*value, st);
            if r is Some {
                (r, s1)
            } else {
                (None, resolve_local(name, s1))
            }
        },
        ExprV::Binary(l, _, r) => {
            let (r1, s1) = r_expr(*l, st);
            if r1 is Some {
                (r1, s1)
            } else {
                r_expr(*r, s1)
            }
        },
        ExprV::Call(callee, _, args) => {
            let (r1, s1) = r_expr(*callee, st);
            if r1 is Some {
                (r1, s1)
            } else {
                r_args(args, args.len(), s1)
            }
        },
        ExprV::Get(object, _) => r_expr(*object, st),
        ExprV::Grouping(inner) => r_expr(*inner, st),
        ExprV::Literal(_) => (None, st),
        ExprV::Logical(l, _, r) => {
            let (r1, s1) = r_expr(*l, st);
            if r1 is Some {
                (r1, s1)
            } else {
                r_expr(*r, s1)
            }
        },
        ExprV::SetProp(object, _, value) => {
            let (r1, s1) = r_expr(*value, st);
            if r1 is Some {
                (r1, s1)
            } else {
                r_expr(*object, s1)
            }
        },
        ExprV::Super(keyword, _) => match st.class {
            ClassType::Outside => (Some(ErrV::NotInClassSuper(keyword)), st),
            ClassType::Class => (Some(ErrV::ClassNoSuper(keyword)), st),
            ClassType::SubClass => (None, resolve_local(keyword, st)),
        },
        ExprV::This(keyword) => if st.class == ClassType::Outside {
            (Some(ErrV::NotInClassThis(keyword)), st)
        } else {
            (None, resolve_local(keyword, st))
        },
        ExprV::Unary(_, r) => r_expr(*r, st),
        ExprV::Variable(name) => if st.scopes.len() > 0 && st.scopes.last().contains_key(
            name.inner.lexeme,
        ) && !st.scopes.last()[name.inner.lexeme] {
            (Some(ErrV::Initialization(name)), st)
        } else {
            (None, resolve_local(name, st))
        },
    }
}

/// Resolving the first `n` arguments of a call, in order, up to the first
/// error.
pub open spec fn r_args(args: Seq<ExprV>, n: nat, st: RState) -> (Option<ErrV>, RState)
    decreases args, n,
{
    if n == 0 || n > args.len() {
        (None, st)
    } else {
        let (r, s1) = r_args(args, (n - 1) as nat, st);
        if r is Some {
            (r, s1)
        } else {
            r_expr(args[n - 1], s1)
        }
    }
}

/// The kind of a method: `init` is the initializer.
pub open spec fn method_type(f: FunV) -> FunctionType {
    if f.name.inner.lexeme == "init"@ {
        FunctionType::Initializer
    } else {
        FunctionType::Method
    }
}

/// Resolving a statement: the error, if any, and the state after it. An
/// error leaves the state as it was when the error was found.
pub open spec fn r_stmt(s: StmtV, st: RState) -> (Option<ErrV>, RState)
    decreases s, 0nat,
{
    match s {
        StmtV::Expression(e) => r_expr(e, st),
        StmtV::Print(e) => r_expr(e, st),
        StmtV::Var(name, init) => {
            let (d, s1) = declare(name, st);
            if d is Some {
                (d, s1)
            } else {
                let (r, s2) = match init {
                    Some(i) => r_expr(i, s1),
                    None => (None, s1),
                };
                if r is Some {
                    (r, s2)
                } else {
                    (None, define(name, s2))
                }
            }
        },
        StmtV::Block(ss) => (None, end_scope(r_stmts(ss, ss.len(), begin_scope(st)))),
        StmtV::If(c, t, e) => {
            let (r1, s1) = r_expr(c, st);
            if r1 is Some {
                (r1, s1)
            } else {
                let (r2, s2) = r_stmt(*t, s1);
                if r2 is Some {
                    (r2, s2)
                } else {
                    match e {
                        Some(e) => r_stmt(*e, s2),
                        None => (None, s2),
                    }
                }
            }
        },
        StmtV::While(c, b) => {
            let (r1, s1) = r_expr(c, st);
            if r1 is Some {
                (r1, s1)
            } else {
                r_stmt(*b, s1)
            }
        },
        StmtV::Break(_) => (None, st),
        StmtV::Function(f) => {
            let (d, s1) = declare(f.name, st);
            if d is Some {
                (d, s1)
            } else {
                r_function(f, FunctionType::Function, define(f.name, s1))
            }
        },
        StmtV::Return(keyword, v) => if st.fun == FunctionType::Outside {
            (Some(ErrV::NotInFn(keyword)), st)
        } else {
            match v {
                Some(v) => if st.fun == FunctionType::Initializer {
                    (Some(ErrV::RtValInit(keyword)), st)
                } else {
                    r_expr(v, st)
                },
                None => (None, st),
            }
        },
        StmtV::Class(name, sup, methods) => {
            let enclosing = st.class;
            let (d, s2) = declare(name, RState { class: ClassType::Class, ..st });
            if d is Some {
                (d, s2)
            } else {
                let s3 = define(name, s2);
                let (r4, s4) = match sup {
                    None => (None, s3),
                    Some(sv) => if sv.inner.lexeme == name.inner.lexeme {
                        (Some(ErrV::RecurseClass(sv)), s3)
                    } else {
                        let (rv, s3c) = r_expr(
                            ExprV::Variable(sv),
                            RState { class: ClassType::SubClass, ..s3 },
                        );
                        if rv is Some {
                            (rv, s3c)
                        } else {
                            (None, scope_insert(begin_scope(s3c), "super"@, true))
                        }
                    },
                };
                if r4 is Some {
                    (r4, s4)
                } else {
                    let s5 = scope_insert(begin_scope(s4), "this"@, true);
                    let (rm, s6) = r_methods(methods, methods.len(), s5);
                    if rm is Some {
                        (rm, s6)
                    } else {
                        let s7 = end_scope(s6);
                        let s8 = if sup is Some {
                            end_scope(s7)
                        } else {
                            s7
                        };
                        (None, RState { class: enclosing, ..s8 })
                    }
                }
            }
        },
    }
}

/// Resolving the first `n` statements, in order; an error sets the error
/// flag and resolution goes on.
pub open spec fn r_stmts(ss: Seq<StmtV>, n: nat, st: RState) -> RState
    decreases ss, n,
{
    if n == 0 || n > ss.len() {
        st
    } else {
        let s1 = r_stmts(ss, (n - 1) as nat, st);
        let (r, s2) = r_stmt(ss[n - 1], s1);
        if r is Some {
            RState { had_err: true, ..s2 }
        } else {
            s2
        }
    }
}

/// Resolving the first `n` methods of a class, in order, up to the first
/// error.
pub open spec fn r_methods(ms: Seq<FunV>, n: nat, st: RState) -> (Option<ErrV>, RState)
    decreases ms, n,
{
    if n == 0 || n > ms.len() {
        (None, st)
    } else {
        let (r, s1) = r_methods(ms, (n - 1) as nat, st);
        if r is Some {
            (r, s1)
        } else {
            r_function(ms[n - 1], method_type(ms[n - 1]), s1)
        }
    }
}

/// Declaring and defining the first `n` parameters, in order, up to the
/// first error.
pub open spec fn r_params(ps: Seq<TokenV>, n: nat, st: RState) -> (Option<ErrV>, RState)
    decreases n,
{
    if n == 0 || n > ps.len() {
        (None, st)
    } else {
        let (r, s1) = r_params(ps, (n - 1) as nat, st);
        if r is Some {
            (r, s1)
        } else {
            let (d, s2) = declare(ps[n - 1], s1);
            if d is Some {
                (d, s2)
            } else {
                (None, define(ps[n - 1], s2))
            }
        }
    }
}

/// Resolving a function of kind `ft`: its parameters and body in a new
/// scope. An error in a parameter leaves the scope open and the kind set.
pub open spec fn r_function(f: FunV, ft: FunctionType, st: RState) -> (Option<ErrV>, RState)
    decreases f, 0nat,
{
    let enclosing = st.fun;
    let s1 = begin_scope(RState { fun: ft, ..st });
    let (rp, s2) = r_params(f.params, f.params.len(), s1);
    if rp is Some {
        (rp, s2)
    } else {
        let s3 = r_stmts(f.body, f.body.len(), s2);
        (None, RState { fun: enclosing, ..end_scope(s3) })
    }
}

/// Once resolving arguments has failed, the later ones are not looked at.
proof fn lemma_r_args_stuck(args: Seq<ExprV>, n: nat, m: nat, st: RState)
    requires
        n <= m <= args.len(),
        r_args(args, n, st).0 is Some,
    ensures
        r_args(args, m, st) == r_args(args, n, st),
    decreases m - n,
{
    if m > n {
        lemma_r_args_stuck(args, n, (m - 1) as nat, st);
    }
}

/// Once a parameter has failed, the later ones are not looked at.
proof fn lemma_r_params_stuck(ps: Seq<TokenV>, n: nat, m: nat, st: RState)
    requires
        n <= m <= ps.len(),
        r_params(ps, n, st).0 is Some,
    ensures
        r_params(ps, m, st) == r_params(ps, n, st),
    decreases m - n,
{
    if m > n {
        lemma_r_params_stuck(ps, n, (m - 1) as nat, st);
    }
}

/// Once a method has failed, the later ones are not looked at.
proof fn lemma_r_methods_stuck(ms: Seq<FunV>, n: nat, m: nat, st: RState)
    requires
        n <= m <= ms.len(),
        r_methods(ms, n, st).0 is Some,
    ensures
        r_methods(ms, m, st) == r_methods(ms, n, st),
    decreases m - n,
{
    if m > n {
        lemma_r_methods_stuck(ms, n, (m - 1) as nat, st);
    }
}

/// The outcome of one resolution step, as mathematical values.
pub open spec fn err_of(r: Result<(), ParserError>) -> Option<ErrV> {
    match r {
        Ok(_) => None,
        Err(e) => Some(e@),
    }
}

/// Resolves variable uses to the scopes that declare them.
#[derive(Debug)]
pub struct Resolver {
    scopes: Vec<Scope>,
    current_fun: FunctionType,
    current_class: ClassType,
    had_err: bool,
    locals: Vec<(Token, usize)>,
}

impl Resolver {
    /// What the resolver holds, as mathematical values.
    pub closed spec fn state(&self) -> RState {
        RState {
            scopes: Seq::new(self.scopes@.len(), |i: int| self.scopes@[i]@),
            fun: self.current_fun,
            class: self.current_class,
            had_err: self.had_err,
            locals: Seq::new(
                self.locals@.len(),
                |i: int| (self.locals@[i].0@, self.locals@[i].1 as nat),
            ),
        }
    }

    /// A resolver outside any scope, function or class body.
    pub fn new() -> (r: Self)
        ensures
            r.state() == (RState {
                scopes: Seq::empty(),
                fun: FunctionType::Outside,
                class: ClassType::Class,
                had_err: false,
                locals: Seq::empty(),
            }),
    {
        let r = Resolver {
            scopes: Vec::new(),
            current_fun: FunctionType::Outside,
            current_class: ClassType::Class,
            had_err: false,
            locals: Vec::new(),
        };
        assert(r.state().scopes =~= Seq::empty());
        assert(r.state().locals =~= Seq::empty());
        r
    }

    /// The uses resolved so far, each with the number of scopes between the
    /// use and its declaration.
    pub fn locals(&self) -> (r: &Vec<(Token, usize)>)
        ensures
            r@.len() == self.state().locals.len(),
            forall|i: int|
                0 <= i < r@.len() ==> (r@[i].0@, r@[i].1 as nat) == #[trigger] self.state().locals[i],
    {
        &self.locals
    }

    /// Opens a scope.
    pub fn begin_scope(&mut self)
        ensures
            final(self).state() == begin_scope(old(self).state()),
    {
        self.scopes.push(Scope::new());
        assert(self.state().scopes =~= old(self).state().scopes.push(Map::empty()));
    }

    /// Closes the innermost scope, if there is one.
    pub fn end_scope(&mut self)
        ensures
            final(self).state() == end_scope(old(self).state()),
    {
        if self.scopes.len() > 0 {
            self.scopes.pop();
            assert(self.state().scopes =~= old(self).state().scopes.drop_last());
        }
    }

    /// Sets `k` to `v` in the innermost scope, if there is one.
    fn insert_last(&mut self, k: String, v: bool)
        ensures
            final(self).state() == scope_insert(old(self).state(), k@, v),
    {
        if self.scopes.len() > 0 {
            let mut last = self.scopes.pop().unwrap();
            last.insert(k, v);
            self.scopes.push(last);
            assert(self.state().scopes =~= old(self).state().scopes.update(
                old(self).state().scopes.len() - 1,
                old(self).state().scopes.last().insert(k@, v),
            ));
        }
    }

    fn declare(&mut self, name: &Token) -> (r: Result<(), ParserError>)
        ensures
            (err_of(r), final(self).state()) == declare(name@, old(self).state()),
    {
        let n = self.scopes.len();
        if n == 0 {
            return Ok(());
        }
        if self.scopes[n - 1].contains_key(name.lexeme()) {
            return Err(ParserError::DoubleVar(name.duplicate()));
        }
        self.insert_last(name.inner().lexeme_owned(), false);
        Ok(())
    }

    fn define(&mut self, name: &Token)
        ensures
            final(self).state() == define(name@, old(self).state()),
    {
        self.insert_last(name.inner().lexeme_owned(), true);
    }

    /// Records a use of `name` in the outermost scope that holds it.
    fn resolve_local(&mut self, name: &Token)
        ensures
            final(self).state() == resolve_local(name@, old(self).state()),
    {
        let n = self.scopes.len();
        let ghost sc = self.state().scopes;
        let mut i: usize = 0;
        while i < n
            invariant
                n == self.scopes@.len(),
                sc == self.state().scopes,
                self.state() == old(self).state(),
                i <= n,
                first_scope(sc, name@.inner.lexeme, i as nat) == first_scope(
                    sc,
                    name@.inner.lexeme,
                    0,
                ),
            decreases n - i,
        {
            if self.scopes[i].contains_key(name.lexeme()) {
                self.locals.push((name.duplicate(), n - 1 - i));
                assert(self.state().locals =~= old(self).state().locals.push(
                    (name@, (n - 1 - i) as nat),
                ));
                return;
            }
            i = i + 1;
        }
    }

    #[verifier::rlimit(100)]
    #[verifier::spinoff_prover]
    fn resolve_expr(&mut self, expr: &Exprs) -> (r: Result<(), ParserError>)
        ensures
            (err_of(r), final(self).state()) == r_expr(expr_view(*expr), old(self).state()),
        decreases *expr, 0nat,
    {
        match expr {
            Exprs::Assign(a) => {
                match self.resolve_expr(&a.value) {
                    Ok(()) => {},
                    Err(e) => return Err(e),
                }
                self.resolve_local(&a.name);
                Ok(())
            },
            Exprs::Binary(b) => {
                match self.resolve_expr(&b.left) {
                    Ok(()) => {},
                    Err(e) => return Err(e),
                }
                self.resolve_expr(&b.right)
            },
            Exprs::Call(c) => {
                match self.resolve_expr(&c.callee) {
                    Ok(()) => {},
                    Err(e) => return Err(e),
                }
                proof {
                    assert(decreases_to!(*expr => expr->Call_0));
                    assert(decreases_to!(*c => c.arguments));
                    lemma_exprs_view(c.arguments@, c.arguments@.len());
                }
                self.resolve_args(&c.arguments)
            },
            Exprs::Get(g) => self.resolve_expr(&g.object),
            Exprs::Grouping(g) => self.resolve_expr(&g.expression),
            Exprs::Literal(_) => Ok(()),
            Exprs::Logical(l) => {
                match self.resolve_expr(&l.left) {
                    Ok(()) => {},
                    Err(e) => return Err(e),
                }
                self.resolve_expr(&l.right)
            },
            Exprs::SetProp(s) => {
                match self.resolve_expr(&s.value) {
                    Ok(()) => {},
                    Err(e) => return Err(e),
                }
                self.resolve_expr(&s.object)
            },
            Exprs::Super(s) => match self.current_class {
                ClassType::Outside => Err(ParserError::NotInClassSuper(s.keyword.duplicate())),
                ClassType::Class => Err(ParserError::ClassNoSuper(s.keyword.duplicate())),
                ClassType::SubClass => {
                    self.resolve_local(&s.keyword);
                    Ok(())
                },
            },
            Exprs::This(t) => {
                if self.current_class == ClassType::Outside {
                    return Err(ParserError::NotInClassThis(t.keyword.duplicate()));
                }
                self.resolve_local(&t.keyword);
                Ok(())
            },
            Exprs::Unary(u) => self.resolve_expr(&u.right),
            Exprs::Variable(v) => self.resolve_variable(&v.name),
        }
    }

    /// A variable use: an error inside its own initializer.
    fn resolve_variable(&mut self, name: &Token) -> (r: Result<(), ParserError>)
        ensures
            (err_of(r), final(self).state()) == r_expr(ExprV::Variable(name@), old(self).state()),
    {
        let n = self.scopes.len();
        if n > 0 {
            match self.scopes[n - 1].get(name.lexeme()) {
                Some(defined) => if !*defined {
                    return Err(ParserError::Initialization(name.duplicate()));
                },
                None => {},
            }
        }
        self.resolve_local(name);
        Ok(())
    }

    /// The arguments of a call, in order, up to the first error.
    fn resolve_args(&mut self, args: &Vec<Exprs>) -> (r: Result<(), ParserError>)
        ensures
            (err_of(r), final(self).state()) == r_args(
                all_exprs_view(args@),
                args@.len(),
                old(self).state(),
            ),
        decreases args, 1nat,
    {
        let ghost vs = all_exprs_view(args@);
        proof {
            lemma_exprs_view(args@, args@.len());
        }
        let mut i: usize = 0;
        while i < args.len()
            invariant
                i <= args@.len(),
                vs == all_exprs_view(args@),
                vs.len() == args@.len(),
                forall|k: int| 0 <= k < vs.len() ==> #[trigger] vs[k] == expr_view(args@[k]),
                r_args(vs, i as nat, old(self).state()) == (None::<ErrV>, self.state()),
            decreases args@.len() - i,
        {
            proof {
                assert(decreases_to!(args => args@));
                assert(decreases_to!(args@ => args@[i as int]));
            }
            match self.resolve_expr(&args[i]) {
                Ok(()) => {},
                Err(e) => {
                    proof {
                        lemma_r_args_stuck(vs, (i + 1) as nat, vs.len(), old(self).state());
                    }
                    return Err(e);
                },
            }
            i = i + 1;
        }
        Ok(())
    }

    /// Resolves the statements in order; an error is recorded and resolution
    /// goes on. Returns whether any error was found so far.
    pub fn resolve(&mut self, statements: &[Stmts]) -> (r: bool)
        ensures
            final(self).state() == r_stmts(
                all_stmts_view(statements@),
                statements@.len(),
                old(self).state(),
            ),
            r == final(self).state().had_err,
        decreases statements@, 1nat,
    {
        let ghost ss = all_stmts_view(statements@);
        proof {
            lemma_stmts_view(statements@, statements@.len());
        }
        let mut i: usize = 0;
        while i < statements.len()
            invariant
                i <= statements@.len(),
                ss == all_stmts_view(statements@),
                ss.len() == statements@.len(),
                forall|k: int| 0 <= k < ss.len() ==> #[trigger] ss[k] == stmt_view(statements@[k]),
                r_stmts(ss, i as nat, old(self).state()) == self.state(),
            decreases statements@.len() - i,
        {
            proof {
                assert(decreases_to!(statements@ => statements@[i as int]));
            }
            match self.resolve_stmt(&statements[i]) {
                Ok(()) => {},
                Err(_) => {
                    self.had_err = true;
                },
            }
            i = i + 1;
        }
        self.had_err
    }

    #[verifier::rlimit(100)]
    #[verifier::spinoff_prover]
    fn resolve_stmt(&mut self, stmt: &Stmts) -> (r: Result<(), ParserError>)
        ensures
            (err_of(r), final(self).state()) == r_stmt(stmt_view(*stmt), old(self).state()),
        decreases *stmt, 0nat,
    {
        match stmt {
            Stmts::Expression(e) => self.resolve_expr(&e.expr),
            Stmts::Print(p) => self.resolve_expr(&p.expr),
            Stmts::Var(v) => {
                match self.declare(&v.name) {
                    Ok(()) => {},
                    Err(e) => return Err(e),
                }
                match &v.initializer {
                    Some(i) => match self.resolve_expr(i) {
                        Ok(()) => {},
                        Err(e) => return Err(e),
                    },
                    None => {},
                }
                self.define(&v.name);
                Ok(())
            },
            Stmts::Block(b) => {
                self.begin_scope();
                proof {
                    assert(decreases_to!(*stmt => stmt->Block_0));
                    assert(decreases_to!(*b => b.statements));
                    assert(decreases_to!(b.statements => b.statements@));
                    lemma_stmts_view(b.statements@, b.statements@.len());
                }
                self.resolve(b.statements.as_slice());
                self.end_scope();
                Ok(())
            },
            Stmts::If(i) => {
                match self.resolve_expr(&i.condition) {
                    Ok(()) => {},
                    Err(e) => return Err(e),
                }
                match self.resolve_stmt(&i.then_branch) {
                    Ok(()) => {},
                    Err(e) => return Err(e),
                }
                match &i.else_branch {
                    Some(e) => self.resolve_stmt(e),
                    None => Ok(()),
                }
            },
            Stmts::While(w) => {
                match self.resolve_expr(&w.condition) {
                    Ok(()) => {},
                    Err(e) => return Err(e),
                }
                self.resolve_stmt(&w.body)
            },
            Stmts::Break(_) => Ok(()),
            Stmts::Function(f) => {
                assert(stmt_view(*stmt) == StmtV::Function(fun_view(*f)));
                assert(fun_view(*f).name == f.name@);
                match self.declare(&f.name) {
                    Ok(()) => {},
                    Err(e) => return Err(e),
                }
                self.define(&f.name);
                self.resolve_function(f, FunctionType::Function)
            },
            Stmts::Return(r) => {
                if self.current_fun == FunctionType::Outside {
                    return Err(ParserError::NotInFn(r.keyword.duplicate()));
                }
                match &r.value {
                    Some(v) => {
                        if self.current_fun == FunctionType::Initializer {
                            return Err(ParserError::RtValInit(r.keyword.duplicate()));
                        }
                        self.resolve_expr(v)
                    },
                    None => Ok(()),
                }
            },
            Stmts::Class(c) => {
                proof {
                    assert(decreases_to!(*stmt => stmt->Class_0));
                }
                self.resolve_class(c)
            },
        }
    }

    /// A function of kind `ft`: its parameters and body in a new scope.
    #[verifier::rlimit(100)]
    #[verifier::spinoff_prover]
    fn resolve_function(&mut self, f: &Function, ft: FunctionType) -> (r: Result<(), ParserError>)
        ensures
            (err_of(r), final(self).state()) == r_function(fun_view(*f), ft, old(self).state()),
        decreases *f, 0nat,
    {
        let enclosing = self.current_fun;
        self.current_fun = ft;
        self.begin_scope();
        let ghost s1 = self.state();
        let ghost ps = token_views(f.params@);
        let mut i: usize = 0;
        while i < f.params.len()
            invariant
                i <= f.params@.len(),
                ps == token_views(f.params@),
                ps.len() == f.params@.len(),
                s1 == begin_scope(RState { fun: ft, ..old(self).state() }),
                r_params(ps, i as nat, s1) == (None::<ErrV>, self.state()),
            decreases f.params@.len() - i,
        {
            match self.declare(&f.params[i]) {
                Ok(()) => {},
                Err(e) => {
                    proof {
                        lemma_r_params_stuck(ps, (i + 1) as nat, ps.len(), s1);
                    }
                    return Err(e);
                },
            }
            self.define(&f.params[i]);
            i = i + 1;
        }
        proof {
            assert(decreases_to!(*f => f.body));
            assert(decreases_to!(f.body => f.body@));
            lemma_stmts_view(f.body@, f.body@.len());
        }
        self.resolve(f.body.as_slice());
        self.end_scope();
        self.current_fun = enclosing;
        Ok(())
    }

    /// A class: its name, its superclass, and its methods in a scope that
    /// holds `this` (inside one that holds `super` for a subclass).
    #[verifier::rlimit(100)]
    #[verifier::spinoff_prover]
    #[verifier::loop_isolation(false)]
    fn resolve_class(&mut self, c: &Class) -> (r: Result<(), ParserError>)
        ensures
            (err_of(r), final(self).state()) == r_stmt(
                stmt_view(Stmts::Class(*c)),
                old(self).state(),
            ),
        decreases *c, 0nat,
    {
        let enclosing = self.current_class;
        self.current_class = ClassType::Class;
        match self.declare(&c.name) {
            Ok(()) => {},
            Err(e) => return Err(e),
        }
        self.define(&c.name);
        match &c.superclass {
            Some(sv) => {
                if str_eq(c.name.lexeme(), sv.name.lexeme()) {
                    return Err(ParserError::RecurseClass(sv.name.duplicate()));
                }
                self.current_class = ClassType::SubClass;
                match self.resolve_variable(&sv.name) {
                    Ok(()) => {},
                    Err(e) => return Err(e),
                }
                self.begin_scope();
                self.insert_last(String::from_str("super"), true);
            },
            None => {},
        }
        self.begin_scope();
        self.insert_last(String::from_str("this"), true);
        let ghost s5 = self.state();
        let ghost ms = all_funs_view(c.methods@);
        proof {
            lemma_funs_view(c.methods@, c.methods@.len());
        }
        let mut i: usize = 0;
        while i < c.methods.len()
            invariant
                i <= c.methods@.len(),
                ms == all_funs_view(c.methods@),
                ms.len() == c.methods@.len(),
                forall|k: int| 0 <= k < ms.len() ==> #[trigger] ms[k] == fun_view(c.methods@[k]),
                r_methods(ms, i as nat, s5) == (None::<ErrV>, self.state()),
            decreases c.methods@.len() - i,
        {
            let ft = if str_eq(c.methods[i].name.lexeme(), "init") {
                FunctionType::Initializer
            } else {
                FunctionType::Method
            };
            proof {
                assert(decreases_to!(*c => c.methods));
                assert(decreases_to!(c.methods => c.methods@));
                assert(decreases_to!(c.methods@ => c.methods@[i as int]));
            }
            match self.resolve_function(&c.methods[i], ft) {
                Ok(()) => {},
                Err(e) => {
                    proof {
                        lemma_r_methods_stuck(ms, (i + 1) as nat, ms.len(), s5);
                    }
                    return Err(e);
                },
            }
            i = i + 1;
        }
        self.end_scope();
        if c.superclass.is_some() {
            self.end_scope();
        }
        self.current_class = enclosing;
        Ok(())
    }
}

} // verus!

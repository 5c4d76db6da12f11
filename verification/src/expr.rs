//! Expressions of the Lox syntax tree.
use vstd::prelude::*;

use crate::token::{Token, TokenV};

verus! {

/// A literal value. A number is kept as the numeral it was written as.
#[derive(Debug, PartialEq)]
pub enum LiteralType {
    String(String),
    Number(String),
    Bool(bool),
    Nil,
}

impl Default for LiteralType {
    fn default() -> (r: Self)
        ensures
            r == LiteralType::Nil,
    {
        LiteralType::Nil
    }
}

/// A literal as a mathematical value.
pub enum LitV {
    String(Seq<char>),
    Number(Seq<char>),
    Bool(bool),
    Nil,
}

impl View for LiteralType {
    type V = LitV;

    open spec fn view(&self) -> LitV {
        match self {
            LiteralType::String(s) => LitV::String(s@),
            LiteralType::Number(s) => LitV::Number(s@),
            LiteralType::Bool(b) => LitV::Bool(*b),
            LiteralType::Nil => LitV::Nil,
        }
    }
}

/// The assignment `name = value`.
#[derive(Debug, PartialEq)]
pub struct Assign {
    pub name: Token,
    pub value: Box<Exprs>,
}

/// The binary operation `left operator right`.
#[derive(Debug, PartialEq)]
pub struct Binary {
    pub left: Box<Exprs>,
    pub operator: Token,
    pub right: Box<Exprs>,
}

/// The call `callee(arguments)`; `name` is its opening parenthesis.
#[derive(Debug, PartialEq)]
pub struct Call {
    pub callee: Box<Exprs>,
    pub name: Token,
    pub arguments: Vec<Exprs>,
}

/// The property read `object.name`.
#[derive(Debug, PartialEq)]
pub struct Get {
    pub object: Box<Exprs>,
    pub name: Token,
}

/// The parenthesized `(expression)`.
#[derive(Debug, PartialEq)]
pub struct Grouping {
    pub expression: Box<Exprs>,
}

/// A literal.
#[derive(Debug, PartialEq)]
pub struct Literal {
    pub value: LiteralType,
}

/// The logical operation `left and right` or `left or right`.
#[derive(Debug, PartialEq)]
pub struct Logical {
    pub left: Box<Exprs>,
    pub operator: Token,
    pub right: Box<Exprs>,
}

/// The property write `object.name = value`.
#[derive(Debug, PartialEq)]
pub struct SetProp {
    pub object: Box<Exprs>,
    pub name: Token,
    pub value: Box<Exprs>,
}

/// The superclass method `super.method`.
#[derive(Debug, PartialEq)]
pub struct Super {
    pub keyword: Token,
    pub method: Token,
}

/// The receiver `this`.
#[derive(Debug, PartialEq)]
pub struct This {
    pub keyword: Token,
}

/// The unary operation `operator right`.
#[derive(Debug, PartialEq)]
pub struct Unary {
    pub operator: Token,
    pub right: Box<Exprs>,
}

/// A variable read.
#[derive(Debug, PartialEq)]
pub struct Variable {
    pub name: Token,
}

/// A Lox expression.
#[derive(Debug, PartialEq)]
pub enum Exprs {
    Assign(Assign),
    Binary(Binary),
    Call(Call),
    Get(Get),
    Grouping(Grouping),
    Literal(Literal),
    Logical(Logical),
    SetProp(SetProp),
    Super(Super),
    This(This),
    Unary(Unary),
    Variable(Variable),
}

/// An expression as a mathematical value.
pub enum ExprV {
    Assign(TokenV, Box<ExprV>),
    Binary(Box<ExprV>, TokenV, Box<ExprV>),
    Call(Box<ExprV>, TokenV, Seq<ExprV>),
    Get(Box<ExprV>, TokenV),
    Grouping(Box<ExprV>),
    Literal(LitV),
    Logical(Box<ExprV>, TokenV, Box<ExprV>),
    SetProp(Box<ExprV>, TokenV, Box<ExprV>),
    Super(TokenV, TokenV),
    This(TokenV),
    Unary(TokenV, Box<ExprV>),
    Variable(TokenV),
}

/// The form of an expression.
pub open spec fn expr_view(e: Exprs) -> ExprV
    decreases e, 0nat,
{
    match e {
        Exprs::Assign(a) => ExprV::Assign(a.name@, Box::new(expr_view(*a.value))),
        Exprs::Binary(b) => ExprV::Binary(
            Box::new(expr_view(*b.left)),
            b.operator@,
            Box::new(expr_view(*b.right)),
        ),
        Exprs::Call(c) => ExprV::Call(
            Box::new(expr_view(*c.callee)),
            c.name@,
            exprs_view(c.arguments@, c.arguments@.len()),
        ),
        Exprs::Get(g) => ExprV::Get(Box::new(expr_view(*g.object)), g.name@),
        Exprs::Grouping(g) => ExprV::Grouping(Box::new(expr_view(*g.expression))),
        Exprs::Literal(l) => ExprV::Literal(l.value@),
        Exprs::Logical(l) => ExprV::Logical(
            Box::new(expr_view(*l.left)),
            l.operator@,
            Box::new(expr_view(*l.right)),
        ),
        Exprs::SetProp(s) => ExprV::SetProp(
            Box::new(expr_view(*s.object)),
            s.name@,
            Box::new(expr_view(*s.value)),
        ),
        Exprs::Super(s) => ExprV::Super(s.keyword@, s.method@),
        Exprs::This(t) => ExprV::This(t.keyword@),
        Exprs::Unary(u) => ExprV::Unary(u.operator@, Box::new(expr_view(*u.right))),
        Exprs::Variable(v) => ExprV::Variable(v.name@),
    }
}

/// The forms of the first `n` expressions of `v`.
pub open spec fn exprs_view(v: Seq<Exprs>, n: nat) -> Seq<ExprV>
    decreases v, n,
{
    if n == 0 || n > v.len() {
        Seq::empty()
    } else {
        exprs_view(v, (n - 1) as nat).push(expr_view(v[n - 1]))
    }
}

impl View for Exprs {
    type V = ExprV;

    open spec fn view(&self) -> ExprV {
        expr_view(*self)
    }
}

/// The forms of all expressions of `v`, in order.
pub open spec fn all_exprs_view(v: Seq<Exprs>) -> Seq<ExprV> {
    exprs_view(v, v.len())
}

/// The forms of the first `n` expressions, one for each.
pub proof fn lemma_exprs_view(v: Seq<Exprs>, n: nat)
    requires
        n <= v.len(),
    ensures
        exprs_view(v, n).len() == n,
        forall|i: int| 0 <= i < n ==> #[trigger] exprs_view(v, n)[i] == expr_view(v[i]),
    decreases n,
{
    if n > 0 {
        lemma_exprs_view(v, (n - 1) as nat);
    }
}

/// Pushing an expression pushes its form.
pub proof fn lemma_exprs_view_push(v: Seq<Exprs>, e: Exprs)
    ensures
        all_exprs_view(v.push(e)) == all_exprs_view(v).push(expr_view(e)),
{
    let w = v.push(e);
    lemma_exprs_view(w, w.len());
    lemma_exprs_view(v, v.len());
    let a = all_exprs_view(w);
    let b = all_exprs_view(v).push(expr_view(e));
    assert forall|i: int| 0 <= i < a.len() implies a[i] == b[i] by {
        if i < v.len() {
            assert(w[i] == v[i]);
        }
    }
    assert(a =~= b);
}

impl Assign {
    pub fn new(name: Token, value: Exprs) -> (r: Self)
        ensures
            r.name == name,
            *r.value == value,
    {
        Self { name, value: Box::new(value) }
    }

    pub fn value(&self) -> (r: &Exprs)
        ensures
            *r == *self.value,
    {
        &self.value
    }

    pub fn name(&self) -> (r: &Token)
        ensures
            *r == self.name,
    {
        &self.name
    }
}

impl Binary {
    pub fn new(left: Exprs, operator: Token, right: Exprs) -> (r: Self)
        ensures
            *r.left == left,
            r.operator == operator,
            *r.right == right,
    {
        Self { left: Box::new(left), operator, right: Box::new(right) }
    }

    pub fn operator(&self) -> (r: &Token)
        ensures
            *r == self.operator,
    {
        &self.operator
    }

    pub fn left(&self) -> (r: &Exprs)
        ensures
            *r == *self.left,
    {
        &self.left
    }

    pub fn right(&self) -> (r: &Exprs)
        ensures
            *r == *self.right,
    {
        &self.right
    }
}

impl Call {
    pub fn new(callee: Exprs, paren: Token, arguments: Vec<Exprs>) -> (r: Self)
        ensures
            *r.callee == callee,
            r.name == paren,
            r.arguments == arguments,
    {
        Self { callee: Box::new(callee), name: paren, arguments }
    }

    pub fn callee(&self) -> (r: &Exprs)
        ensures
            *r == *self.callee,
    {
        &self.callee
    }

    pub fn name(&self) -> (r: &Token)
        ensures
            *r == self.name,
    {
        &self.name
    }

    pub fn arguments(&self) -> (r: &[Exprs])
        ensures
            r@ == self.arguments@,
    {
        self.arguments.as_slice()
    }
}

impl Get {
    pub fn new(object: Exprs, name: Token) -> (r: Self)
        ensures
            *r.object == object,
            r.name == name,
    {
        Self { object: Box::new(object), name }
    }

    pub fn object(&self) -> (r: &Exprs)
        ensures
            *r == *self.object,
    {
        &self.object
    }

    pub fn name(&self) -> (r: &Token)
        ensures
            *r == self.name,
    {
        &self.name
    }
}

impl Grouping {
    pub fn new(expression: Exprs) -> (r: Self)
        ensures
            *r.expression == expression,
    {
        Self { expression: Box::new(expression) }
    }

    pub fn expression(&self) -> (r: &Exprs)
        ensures
            *r == *self.expression,
    {
        &self.expression
    }
}

impl Literal {
    pub fn new(value: LiteralType) -> (r: Self)
        ensures
            r.value == value,
    {
        Self { value }
    }

    pub fn value(&self) -> (r: &LiteralType)
        ensures
            *r == self.value,
    {
        &self.value
    }
}

impl Default for Literal {
    fn default() -> (r: Self)
        ensures
            r.value == LiteralType::Nil,
    {
        Self { value: LiteralType::Nil }
    }
}

impl Logical {
    pub fn new(left: Exprs, operator: Token, right: Exprs) -> (r: Self)
        ensures
            *r.left == left,
            r.operator == operator,
            *r.right == right,
    {
        Self { left: Box::new(left), operator, right: Box::new(right) }
    }

    pub fn left(&self) -> (r: &Exprs)
        ensures
            *r == *self.left,
    {
        &self.left
    }

    pub fn operator(&self) -> (r: &Token)
        ensures
            *r == self.operator,
    {
        &self.operator
    }

    pub fn right(&self) -> (r: &Exprs)
        ensures
            *r == *self.right,
    {
        &self.right
    }
}

impl SetProp {
    pub fn new(object: Exprs, name: Token, value: Exprs) -> (r: Self)
        ensures
            *r.object == object,
            r.name == name,
            *r.value == value,
    {
        Self { object: Box::new(object), name, value: Box::new(value) }
    }

    pub fn object(&self) -> (r: &Exprs)
        ensures
            *r == *self.object,
    {
        &self.object
    }

    pub fn name(&self) -> (r: &Token)
        ensures
            *r == self.name,
    {
        &self.name
    }

    pub fn value(&self) -> (r: &Exprs)
        ensures
            *r == *self.value,
    {
        &self.value
    }
}

impl Super {
    pub fn new(keyword: Token, method: Token) -> (r: Self)
        ensures
            r.keyword == keyword,
            r.method == method,
    {
        Self { keyword, method }
    }

    pub fn keyword(&self) -> (r: &Token)
        ensures
            *r == self.keyword,
    {
        &self.keyword
    }

    pub fn method(&self) -> (r: &Token)
        ensures
            *r == self.method,
    {
        &self.method
    }
}

impl This {
    pub fn new(keyword: Token) -> (r: Self)
        ensures
            r.keyword == keyword,
    {
        Self { keyword }
    }

    pub fn keyword(&self) -> (r: &Token)
        ensures
            *r == self.keyword,
    {
        &self.keyword
    }
}

impl Unary {
    pub fn new(operator: Token, right: Exprs) -> (r: Self)
        ensures
            r.operator == operator,
            *r.right == right,
    {
        Self { operator, right: Box::new(right) }
    }

    pub fn right(&self) -> (r: &Exprs)
        ensures
            *r == *self.right,
    {
        &self.right
    }

    pub fn operator(&self) -> (r: &Token)
        ensures
            *r == self.operator,
    {
        &self.operator
    }
}

impl Variable {
    pub fn new(name: Token) -> (r: Self)
        ensures
            r.name == name,
    {
        Self { name }
    }

    pub fn name_str(&self) -> (r: &str)
        ensures
            r@ == self.name@.inner.lexeme,
    {
        self.name.lexeme()
    }

    pub fn into_name(self) -> (r: Token)
        ensures
            r == self.name,
    {
        self.name
    }

    pub fn name(&self) -> (r: &Token)
        ensures
            *r == self.name,
    {
        &self.name
    }
}

impl LiteralType {
    /// A copy of the literal.
    pub fn duplicate(&self) -> (r: Self)
        ensures
            r@ == self@,
    {
        match self {
            LiteralType::String(s) => LiteralType::String(s.clone()),
            LiteralType::Number(n) => LiteralType::Number(n.clone()),
            LiteralType::Bool(b) => LiteralType::Bool(*b),
            LiteralType::Nil => LiteralType::Nil,
        }
    }
}

impl Exprs {
    /// A copy of the expression, of the same form.
    pub fn duplicate(&self) -> (r: Exprs)
        ensures
            expr_view(r) == expr_view(*self),
        decreases *self, 0nat,
    {
        match self {
            Exprs::Assign(a) => Exprs::Assign(Assign::new(a.name.duplicate(), a.value.duplicate())),
            Exprs::Binary(b) => Exprs::Binary(
                Binary::new(b.left.duplicate(), b.operator.duplicate(), b.right.duplicate()),
            ),
            Exprs::Call(c) => {
                let callee = c.callee.duplicate();
                proof {
                    assert(decreases_to!(*self => self->Call_0));
                    assert(decreases_to!(*c => c.arguments));
                }
                let args = duplicate_exprs(&c.arguments);
                proof {
                    lemma_exprs_view(args@, args@.len());
                    lemma_exprs_view(c.arguments@, c.arguments@.len());
                }
                Exprs::Call(Call::new(callee, c.name.duplicate(), args))
            },
            Exprs::Get(g) => Exprs::Get(Get::new(g.object.duplicate(), g.name.duplicate())),
            Exprs::Grouping(g) => Exprs::Grouping(Grouping::new(g.expression.duplicate())),
            Exprs::Literal(l) => Exprs::Literal(Literal::new(l.value.duplicate())),
            Exprs::Logical(l) => Exprs::Logical(
                Logical::new(l.left.duplicate(), l.operator.duplicate(), l.right.duplicate()),
            ),
            Exprs::SetProp(s) => Exprs::SetProp(
                SetProp::new(s.object.duplicate(), s.name.duplicate(), s.value.duplicate()),
            ),
            Exprs::Super(s) => Exprs::Super(Super::new(s.keyword.duplicate(), s.method.duplicate())),
            Exprs::This(t) => Exprs::This(This::new(t.keyword.duplicate())),
            Exprs::Unary(u) => Exprs::Unary(Unary::new(u.operator.duplicate(), u.right.duplicate())),
            Exprs::Variable(v) => Exprs::Variable(Variable::new(v.name.duplicate())),
        }
    }
}

/// Copies of the expressions, in order.
pub fn duplicate_exprs(v: &Vec<Exprs>) -> (r: Vec<Exprs>)
    ensures
        all_exprs_view(r@) == all_exprs_view(v@),
    decreases v, 1nat,
{
    let mut out: Vec<Exprs> = Vec::new();
    proof {
        lemma_exprs_view(v@, v@.len());
        assert(all_exprs_view(out@) =~= v@.take(0).map_values(|e: Exprs| expr_view(e)));
    }
    let mut i: usize = 0;
    while i < v.len()
        invariant
            i <= v@.len(),
            exprs_view(v@, v@.len()).len() == v@.len(),
            forall|k: int| 0 <= k < v@.len() ==> #[trigger] exprs_view(v@, v@.len())[k] == expr_view(v@[k]),
            all_exprs_view(out@) == all_exprs_view(v@).take(i as int),
        decreases v@.len() - i,
    {
        proof {
            assert(decreases_to!(v => v@));
            assert(decreases_to!(v@ => v@[i as int]));
        }
        let e = v[i].duplicate();
        proof {
            lemma_exprs_view_push(out@, e);
        }
        out.push(e);
        i = i + 1;
        assert(all_exprs_view(out@) =~= all_exprs_view(v@).take(i as int));
    }
    assert(all_exprs_view(v@).take(i as int) =~= all_exprs_view(v@));
    out
}

} // verus!

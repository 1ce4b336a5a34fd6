//! The expression tree shared by the type checker and the evaluator.
use vstd::prelude::*;

verus! {

/// How often a value may be used.
#[derive(Clone, Copy, Debug, PartialEq, Eq, Structural)]
pub enum Qual {
    /// Any number of times.
    Un,
    /// Exactly once.
    Lin,
    /// At most once.
    Aff,
}

/// The shape of a type. A function's type is the function itself: its body
/// is checked at each application, where it runs.
#[derive(Debug, PartialEq, Eq)]
pub enum PrimType {
    Bool,
    Pair(Box<TypeExpr>, Box<TypeExpr>),
    Fun(Box<FnExpr>),
}

/// A qualified type.
#[derive(Debug, PartialEq, Eq)]
pub struct TypeExpr {
    pub qual: Qual,
    pub prim: PrimType,
}

/// `let var = expr1; expr2`
#[derive(Debug, PartialEq, Eq)]
pub struct LetExpr {
    pub var: String,
    pub expr1: Box<Expr>,
    pub expr2: Box<Expr>,
}

/// A binding into the enclosing scope.
#[derive(Debug, PartialEq, Eq)]
pub struct DefExpr {
    pub var: String,
    pub expr: Box<Expr>,
}

#[derive(Debug, PartialEq, Eq)]
pub struct IfExpr {
    pub cond_expr: Box<Expr>,
    pub then_expr: Box<Expr>,
    pub else_expr: Box<Expr>,
}

/// `split expr as left, right { body }`
#[derive(Debug, PartialEq, Eq)]
pub struct SplitExpr {
    pub expr: Box<Expr>,
    pub left: String,
    pub right: String,
    pub body: Box<Expr>,
}

/// `free var; expr`
#[derive(Debug, PartialEq, Eq)]
pub struct FreeExpr {
    pub var: String,
    pub expr: Box<Expr>,
}

/// `(expr1 expr2)`: the function `expr1` applied to `expr2`.
#[derive(Debug, PartialEq, Eq)]
pub struct AppExpr {
    pub expr1: Box<Expr>,
    pub expr2: Box<Expr>,
}

/// Dumps both environments, then yields `expr`.
#[derive(Debug, PartialEq, Eq)]
pub struct EnvExpr {
    pub expr: Box<Expr>,
}

/// A literal tagged with its qualifier.
#[derive(Debug, PartialEq, Eq)]
pub struct QValExpr {
    pub qual: Qual,
    pub val: ValExpr,
}

#[derive(Debug, PartialEq, Eq)]
pub enum ValExpr {
    Bool(bool),
    Pair(Box<Expr>, Box<Expr>),
    Fun(FnExpr),
}

/// `fn var : ty { expr }`
#[derive(Debug, PartialEq, Eq)]
pub struct FnExpr {
    pub var: String,
    pub ty: TypeExpr,
    pub expr: Box<Expr>,
}

#[derive(Debug, PartialEq, Eq)]
pub enum Expr {
    Let(LetExpr),
    If(IfExpr),
    Split(SplitExpr),
    Free(FreeExpr),
    App(AppExpr),
    Var(String),
    QVal(QValExpr),
    Def(DefExpr),
    Env(EnvExpr),
}

/// A copy of a type, equal to it.
pub fn copy_type(t: &TypeExpr) -> (r: TypeExpr)
    ensures
        r == *t,
    decreases t,
{
    let prim = match &t.prim {
        PrimType::Bool => PrimType::Bool,
        PrimType::Pair(a, b) => PrimType::Pair(Box::new(copy_type(&**a)), Box::new(copy_type(&**b))),
        PrimType::Fun(f) => PrimType::Fun(Box::new(copy_fn(&**f))),
    };
    TypeExpr { qual: t.qual, prim }
}

/// Two types are the same, names compared by their characters.
pub open spec fn type_same(a: TypeExpr, b: TypeExpr) -> bool
    decreases a,
{
    a.qual == b.qual && match (a.prim, b.prim) {
        (PrimType::Bool, PrimType::Bool) => true,
        (PrimType::Pair(a1, a2), PrimType::Pair(b1, b2)) => type_same(*a1, *b1) && type_same(*a2, *b2),
        (PrimType::Fun(f), PrimType::Fun(g)) => fn_same(*f, *g),
        _ => false,
    }
}

/// Two function literals are the same, names compared by their characters.
pub open spec fn fn_same(f: FnExpr, g: FnExpr) -> bool
    decreases f,
{
    f.var@ == g.var@ && type_same(f.ty, g.ty) && expr_same(*f.expr, *g.expr)
}

/// Two expressions are the same, names compared by their characters.
pub open spec fn expr_same(a: Expr, b: Expr) -> bool
    decreases a,
{
    match (a, b) {
        (Expr::Let(x), Expr::Let(y)) => x.var@ == y.var@ && expr_same(*x.expr1, *y.expr1) && expr_same(*x.expr2, *y.expr2),
        (Expr::If(x), Expr::If(y)) => expr_same(*x.cond_expr, *y.cond_expr) && expr_same(*x.then_expr, *y.then_expr)
            && expr_same(*x.else_expr, *y.else_expr),
        (Expr::Split(x), Expr::Split(y)) => x.left@ == y.left@ && x.right@ == y.right@ && expr_same(*x.expr, *y.expr)
            && expr_same(*x.body, *y.body),
        (Expr::Free(x), Expr::Free(y)) => x.var@ == y.var@ && expr_same(*x.expr, *y.expr),
        (Expr::App(x), Expr::App(y)) => expr_same(*x.expr1, *y.expr1) && expr_same(*x.expr2, *y.expr2),
        (Expr::Var(x), Expr::Var(y)) => x@ == y@,
        (Expr::QVal(x), Expr::QVal(y)) => x.qual == y.qual && match (x.val, y.val) {
            (ValExpr::Bool(p), ValExpr::Bool(q)) => p == q,
            (ValExpr::Pair(p1, p2), ValExpr::Pair(q1, q2)) => expr_same(*p1, *q1) && expr_same(*p2, *q2),
            (ValExpr::Fun(f), ValExpr::Fun(g)) => fn_same(f, g),
            _ => false,
        },
        (Expr::Def(x), Expr::Def(y)) => x.var@ == y.var@ && expr_same(*x.expr, *y.expr),
        (Expr::Env(x), Expr::Env(y)) => expr_same(*x.expr, *y.expr),
        _ => false,
    }
}

/// Whether two types are the same.
pub fn same_type(a: &TypeExpr, b: &TypeExpr) -> (r: bool)
    ensures
        r == type_same(*a, *b),
    decreases a,
{
    if a.qual != b.qual {
        return false;
    }
    match (&a.prim, &b.prim) {
        (PrimType::Bool, PrimType::Bool) => true,
        (PrimType::Pair(a1, a2), PrimType::Pair(b1, b2)) => same_type(&**a1, &**b1) && same_type(&**a2, &**b2),
        (PrimType::Fun(f), PrimType::Fun(g)) => same_fn(&**f, &**g),
        _ => false,
    }
}

/// Whether two function literals are the same.
pub fn same_fn(f: &FnExpr, g: &FnExpr) -> (r: bool)
    ensures
        r == fn_same(*f, *g),
    decreases f,
{
    f.var == g.var && same_type(&f.ty, &g.ty) && same_expr(&*f.expr, &*g.expr)
}

/// Whether two expressions are the same.
pub fn same_expr(a: &Expr, b: &Expr) -> (r: bool)
    ensures
        r == expr_same(*a, *b),
    decreases a,
{
    match (a, b) {
        (Expr::Let(x), Expr::Let(y)) => x.var == y.var && same_expr(&*x.expr1, &*y.expr1) && same_expr(&*x.expr2, &*y.expr2),
        (Expr::If(x), Expr::If(y)) => same_expr(&*x.cond_expr, &*y.cond_expr) && same_expr(&*x.then_expr, &*y.then_expr)
            && same_expr(&*x.else_expr, &*y.else_expr),
        (Expr::Split(x), Expr::Split(y)) => x.left == y.left && x.right == y.right && same_expr(&*x.expr, &*y.expr)
            && same_expr(&*x.body, &*y.body),
        (Expr::Free(x), Expr::Free(y)) => x.var == y.var && same_expr(&*x.expr, &*y.expr),
        (Expr::App(x), Expr::App(y)) => same_expr(&*x.expr1, &*y.expr1) && same_expr(&*x.expr2, &*y.expr2),
        (Expr::Var(x), Expr::Var(y)) => *x == *y,
        (Expr::QVal(x), Expr::QVal(y)) => x.qual == y.qual && match (&x.val, &y.val) {
            (ValExpr::Bool(p), ValExpr::Bool(q)) => *p == *q,
            (ValExpr::Pair(p1, p2), ValExpr::Pair(q1, q2)) => same_expr(&**p1, &**q1) && same_expr(&**p2, &**q2),
            (ValExpr::Fun(f), ValExpr::Fun(g)) => same_fn(f, g),
            _ => false,
        },
        (Expr::Def(x), Expr::Def(y)) => x.var == y.var && same_expr(&*x.expr, &*y.expr),
        (Expr::Env(x), Expr::Env(y)) => same_expr(&*x.expr, &*y.expr),
        _ => false,
    }
}

/// A copy of a function literal, equal to it.
pub fn copy_fn(f: &FnExpr) -> (r: FnExpr)
    ensures
        r == *f,
    decreases f,
{
    FnExpr { var: f.var.clone(), ty: copy_type(&f.ty), expr: Box::new(copy_expr(&*f.expr)) }
}

/// A copy of an expression, equal to it.
pub fn copy_expr(e: &Expr) -> (r: Expr)
    ensures
        r == *e,
    decreases e,
{
    match e {
        Expr::Let(l) => Expr::Let(LetExpr {
            var: l.var.clone(),
            expr1: Box::new(copy_expr(&*l.expr1)),
            expr2: Box::new(copy_expr(&*l.expr2)),
        }),
        Expr::If(i) => Expr::If(IfExpr {
            cond_expr: Box::new(copy_expr(&*i.cond_expr)),
            then_expr: Box::new(copy_expr(&*i.then_expr)),
            else_expr: Box::new(copy_expr(&*i.else_expr)),
        }),
        Expr::Split(s) => Expr::Split(SplitExpr {
            expr: Box::new(copy_expr(&*s.expr)),
            left: s.left.clone(),
            right: s.right.clone(),
            body: Box::new(copy_expr(&*s.body)),
        }),
        Expr::Free(f) => Expr::Free(FreeExpr { var: f.var.clone(), expr: Box::new(copy_expr(&*f.expr)) }),
        Expr::App(a) => Expr::App(AppExpr {
            expr1: Box::new(copy_expr(&*a.expr1)),
            expr2: Box::new(copy_expr(&*a.expr2)),
        }),
        Expr::Var(v) => Expr::Var(v.clone()),
        Expr::QVal(q) => {
            let val = match &q.val {
                ValExpr::Bool(b) => ValExpr::Bool(*b),
                ValExpr::Pair(a, b) => ValExpr::Pair(Box::new(copy_expr(&**a)), Box::new(copy_expr(&**b))),
                ValExpr::Fun(f) => ValExpr::Fun(copy_fn(f)),
            };
            Expr::QVal(QValExpr { qual: q.qual, val })
        },
        Expr::Def(d) => Expr::Def(DefExpr { var: d.var.clone(), expr: Box::new(copy_expr(&*d.expr)) }),
        Expr::Env(v) => Expr::Env(EnvExpr { expr: Box::new(copy_expr(&*v.expr)) }),
    }
}

} // verus!

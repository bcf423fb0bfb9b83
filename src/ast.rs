use vstd::prelude::*;

verus! {

/// An identifier, used both for term variables and for type variables.
#[derive(Debug, Clone, PartialEq, Eq, Hash)]
pub struct Variable(pub String);

impl View for Variable {
    type V = Seq<char>;

    open spec fn view(&self) -> Seq<char> {
        self.0@
    }
}

impl Variable {
    /// A copy of the identifier.
    pub fn copy(&self) -> (r: Variable)
        ensures
            r@ == self@,
    {
        Variable(self.0.clone())
    }

    /// Whether two identifiers have the same name.
    pub fn same(&self, other: &Variable) -> (r: bool)
        ensures
            r == (self@ == other@),
    {
        self.0 == other.0
    }
}

/// Type expressions.
#[derive(Debug, PartialEq, Eq)]
pub enum Type {
    Num,
    Bool,
    Unit,
    Var(Variable),
    Fn { arg: Box<Type>, ret: Box<Type> },
    Product { left: Box<Type>, right: Box<Type> },
    Sum { left: Box<Type>, right: Box<Type> },
    Rec { a: Variable, tau: Box<Type> },
    Forall { a: Variable, tau: Box<Type> },
    Exists { a: Variable, tau: Box<Type> },
}

#[derive(Debug, Clone, Copy, PartialEq, Eq, Structural)]
pub enum AddOp {
    Add,
    Sub,
}

#[derive(Debug, Clone, Copy, PartialEq, Eq, Structural)]
pub enum MulOp {
    Mul,
    Div,
}

#[derive(Debug, Clone, Copy, PartialEq, Eq, Structural)]
pub enum RelOp {
    Lt,
    Gt,
    Eq,
}

#[derive(Debug, Clone, Copy, PartialEq, Eq, Structural)]
pub enum Direction {
    Left,
    Right,
}

/// Term expressions.
#[derive(Debug, PartialEq, Eq)]
pub enum Expr {
    Num(i32),
    Addop { binop: AddOp, left: Box<Expr>, right: Box<Expr> },
    Mulop { binop: MulOp, left: Box<Expr>, right: Box<Expr> },
    True,
    False,
    If { cond: Box<Expr>, then_: Box<Expr>, else_: Box<Expr> },
    Relop { relop: RelOp, left: Box<Expr>, right: Box<Expr> },
    And { left: Box<Expr>, right: Box<Expr> },
    Or { left: Box<Expr>, right: Box<Expr> },
    Var(Variable),
    Lam { x: Variable, tau: Box<Type>, e: Box<Expr> },
    App { lam: Box<Expr>, arg: Box<Expr> },
    Unit,
    Pair { left: Box<Expr>, right: Box<Expr> },
    Project { e: Box<Expr>, d: Direction },
    Inject { e: Box<Expr>, d: Direction, tau: Box<Type> },
    Case { e: Box<Expr>, xleft: Variable, eleft: Box<Expr>, xright: Variable, eright: Box<Expr> },
    Fix { x: Variable, tau: Box<Type>, e: Box<Expr> },
    TyLam { a: Variable, e: Box<Expr> },
    TyApp { e: Box<Expr>, tau: Box<Type> },
    Fold { e: Box<Expr>, tau: Box<Type> },
    Unfold(Box<Expr>),
    Export { e: Box<Expr>, tau_adt: Box<Type>, tau_mod: Box<Type> },
    Import { x: Variable, a: Variable, e_mod: Box<Expr>, e_body: Box<Expr> },
}

/// The mathematical model of a type: names are character sequences.
pub enum Ty {
    Num,
    Bool,
    Unit,
    Var(Seq<char>),
    Fn(Box<Ty>, Box<Ty>),
    Product(Box<Ty>, Box<Ty>),
    Sum(Box<Ty>, Box<Ty>),
    Rec(Seq<char>, Box<Ty>),
    Forall(Seq<char>, Box<Ty>),
    Exists(Seq<char>, Box<Ty>),
}

/// The mathematical model of a term.
pub enum Term {
    Num(i32),
    Addop(AddOp, Box<Term>, Box<Term>),
    Mulop(MulOp, Box<Term>, Box<Term>),
    True,
    False,
    If(Box<Term>, Box<Term>, Box<Term>),
    Relop(RelOp, Box<Term>, Box<Term>),
    And(Box<Term>, Box<Term>),
    Or(Box<Term>, Box<Term>),
    Var(Seq<char>),
    Lam(Seq<char>, Ty, Box<Term>),
    App(Box<Term>, Box<Term>),
    Unit,
    Pair(Box<Term>, Box<Term>),
    Project(Box<Term>, Direction),
    Inject(Box<Term>, Direction, Ty),
    Case(Box<Term>, Seq<char>, Box<Term>, Seq<char>, Box<Term>),
    Fix(Seq<char>, Ty, Box<Term>),
    TyLam(Seq<char>, Box<Term>),
    TyApp(Box<Term>, Ty),
    Fold(Box<Term>, Ty),
    Unfold(Box<Term>),
    Export(Box<Term>, Ty, Ty),
    Import(Seq<char>, Seq<char>, Box<Term>, Box<Term>),
}

pub open spec fn type_view(t: Type) -> Ty
    decreases t,
{
    match t {
        Type::Num => Ty::Num,
        Type::Bool => Ty::Bool,
        Type::Unit => Ty::Unit,
        Type::Var(v) => Ty::Var(v@),
        Type::Fn { arg, ret } => Ty::Fn(Box::new(type_view(*arg)), Box::new(type_view(*ret))),
        Type::Product { left, right } => Ty::Product(
            Box::new(type_view(*left)),
            Box::new(type_view(*right)),
        ),
        Type::Sum { left, right } => Ty::Sum(
            Box::new(type_view(*left)),
            Box::new(type_view(*right)),
        ),
        Type::Rec { a, tau } => Ty::Rec(a@, Box::new(type_view(*tau))),
        Type::Forall { a, tau } => Ty::Forall(a@, Box::new(type_view(*tau))),
        Type::Exists { a, tau } => Ty::Exists(a@, Box::new(type_view(*tau))),
    }
}

impl View for Type {
    type V = Ty;

    open spec fn view(&self) -> Ty {
        type_view(*self)
    }
}

impl Type {
    /// A copy of the whole tree.
    pub fn copy(&self) -> (r: Type)
        ensures
            r@ == self@,
        decreases self,
    {
        match self {
            Type::Num => Type::Num,
            Type::Bool => Type::Bool,
            Type::Unit => Type::Unit,
            Type::Var(v) => Type::Var(v.copy()),
            Type::Fn { arg, ret } => Type::Fn { arg: Box::new(arg.copy()), ret: Box::new(ret.copy()) },
            Type::Product { left, right } => Type::Product {
                left: Box::new(left.copy()),
                right: Box::new(right.copy()),
            },
            Type::Sum { left, right } => Type::Sum {
                left: Box::new(left.copy()),
                right: Box::new(right.copy()),
            },
            Type::Rec { a, tau } => Type::Rec { a: a.copy(), tau: Box::new(tau.copy()) },
            Type::Forall { a, tau } => Type::Forall { a: a.copy(), tau: Box::new(tau.copy()) },
            Type::Exists { a, tau } => Type::Exists { a: a.copy(), tau: Box::new(tau.copy()) },
        }
    }
}

impl Clone for Type {
    fn clone(&self) -> Self {
        self.copy()
    }
}


pub open spec fn expr_view(e: Expr) -> Term
    decreases e,
{
    match e {
        Expr::Num(n) => Term::Num(n),
        Expr::Addop { binop, left, right } => Term::Addop(
            binop,
            Box::new(expr_view(*left)),
            Box::new(expr_view(*right)),
        ),
        Expr::Mulop { binop, left, right } => Term::Mulop(
            binop,
            Box::new(expr_view(*left)),
            Box::new(expr_view(*right)),
        ),
        Expr::True => Term::True,
        Expr::False => Term::False,
        Expr::If { cond, then_, else_ } => Term::If(
            Box::new(expr_view(*cond)),
            Box::new(expr_view(*then_)),
            Box::new(expr_view(*else_)),
        ),
        Expr::Relop { relop, left, right } => Term::Relop(
            relop,
            Box::new(expr_view(*left)),
            Box::new(expr_view(*right)),
        ),
        Expr::And { left, right } => Term::And(
            Box::new(expr_view(*left)),
            Box::new(expr_view(*right)),
        ),
        Expr::Or { left, right } => Term::Or(Box::new(expr_view(*left)), Box::new(expr_view(*right))),
        Expr::Var(v) => Term::Var(v@),
        Expr::Lam { x, tau, e } => Term::Lam(x@, type_view(*tau), Box::new(expr_view(*e))),
        Expr::App { lam, arg } => Term::App(Box::new(expr_view(*lam)), Box::new(expr_view(*arg))),
        Expr::Unit => Term::Unit,
        Expr::Pair { left, right } => Term::Pair(
            Box::new(expr_view(*left)),
            Box::new(expr_view(*right)),
        ),
        Expr::Project { e, d } => Term::Project(Box::new(expr_view(*e)), d),
        Expr::Inject { e, d, tau } => Term::Inject(Box::new(expr_view(*e)), d, type_view(*tau)),
        Expr::Case { e, xleft, eleft, xright, eright } => Term::Case(
            Box::new(expr_view(*e)),
            xleft@,
            Box::new(expr_view(*eleft)),
            xright@,
            Box::new(expr_view(*eright)),
        ),
        Expr::Fix { x, tau, e } => Term::Fix(x@, type_view(*tau), Box::new(expr_view(*e))),
        Expr::TyLam { a, e } => Term::TyLam(a@, Box::new(expr_view(*e))),
        Expr::TyApp { e, tau } => Term::TyApp(Box::new(expr_view(*e)), type_view(*tau)),
        Expr::Fold { e, tau } => Term::Fold(Box::new(expr_view(*e)), type_view(*tau)),
        Expr::Unfold(e) => Term::Unfold(Box::new(expr_view(*e))),
        Expr::Export { e, tau_adt, tau_mod } => Term::Export(
            Box::new(expr_view(*e)),
            type_view(*tau_adt),
            type_view(*tau_mod),
        ),
        Expr::Import { x, a, e_mod, e_body } => Term::Import(
            x@,
            a@,
            Box::new(expr_view(*e_mod)),
            Box::new(expr_view(*e_body)),
        ),
    }
}

impl View for Expr {
    type V = Term;

    open spec fn view(&self) -> Term {
        expr_view(*self)
    }
}

impl Type {
    /// Plain structural equality: same constructors and same names.
    pub fn same(&self, other: &Type) -> (r: bool)
        ensures
            r == (self@ == other@),
        decreases self,
    {
        match (self, other) {
            (Type::Num, Type::Num) => true,
            (Type::Bool, Type::Bool) => true,
            (Type::Unit, Type::Unit) => true,
            (Type::Var(v), Type::Var(w)) => v.same(w),
            (Type::Fn { arg: a1, ret: r1 }, Type::Fn { arg: a2, ret: r2 }) => a1.same(a2) && r1.same(r2),
            (Type::Product { left: l1, right: r1 }, Type::Product { left: l2, right: r2 }) => l1.same(l2) && r1.same(r2),
            (Type::Sum { left: l1, right: r1 }, Type::Sum { left: l2, right: r2 }) => l1.same(l2) && r1.same(r2),
            (Type::Rec { a: a1, tau: t1 }, Type::Rec { a: a2, tau: t2 }) => a1.same(a2) && t1.same(t2),
            (Type::Forall { a: a1, tau: t1 }, Type::Forall { a: a2, tau: t2 }) => a1.same(a2) && t1.same(t2),
            (Type::Exists { a: a1, tau: t1 }, Type::Exists { a: a2, tau: t2 }) => a1.same(a2) && t1.same(t2),
            _ => false,
        }
    }
}

impl Expr {
    /// A copy of the whole tree.
    pub fn copy(&self) -> (r: Expr)
        ensures
            r@ == self@,
        decreases self,
    {
        match self {
            Expr::Num(n) => Expr::Num(*n),
            Expr::Addop { binop, left, right } => Expr::Addop {
                binop: *binop,
                left: Box::new(left.copy()),
                right: Box::new(right.copy()),
            },
            Expr::Mulop { binop, left, right } => Expr::Mulop {
                binop: *binop,
                left: Box::new(left.copy()),
                right: Box::new(right.copy()),
            },
            Expr::True => Expr::True,
            Expr::False => Expr::False,
            Expr::If { cond, then_, else_ } => Expr::If {
                cond: Box::new(cond.copy()),
                then_: Box::new(then_.copy()),
                else_: Box::new(else_.copy()),
            },
            Expr::Relop { relop, left, right } => Expr::Relop {
                relop: *relop,
                left: Box::new(left.copy()),
                right: Box::new(right.copy()),
            },
            Expr::And { left, right } => Expr::And { left: Box::new(left.copy()), right: Box::new(right.copy()) },
            Expr::Or { left, right } => Expr::Or { left: Box::new(left.copy()), right: Box::new(right.copy()) },
            Expr::Var(v) => Expr::Var(v.copy()),
            Expr::Lam { x, tau, e } => Expr::Lam { x: x.copy(), tau: Box::new(tau.copy()), e: Box::new(e.copy()) },
            Expr::App { lam, arg } => Expr::App { lam: Box::new(lam.copy()), arg: Box::new(arg.copy()) },
            Expr::Unit => Expr::Unit,
            Expr::Pair { left, right } => Expr::Pair { left: Box::new(left.copy()), right: Box::new(right.copy()) },
            Expr::Project { e, d } => Expr::Project { e: Box::new(e.copy()), d: *d },
            Expr::Inject { e, d, tau } => Expr::Inject { e: Box::new(e.copy()), d: *d, tau: Box::new(tau.copy()) },
            Expr::Case { e, xleft, eleft, xright, eright } => Expr::Case {
                e: Box::new(e.copy()),
                xleft: xleft.copy(),
                eleft: Box::new(eleft.copy()),
                xright: xright.copy(),
                eright: Box::new(eright.copy()),
            },
            Expr::Fix { x, tau, e } => Expr::Fix { x: x.copy(), tau: Box::new(tau.copy()), e: Box::new(e.copy()) },
            Expr::TyLam { a, e } => Expr::TyLam { a: a.copy(), e: Box::new(e.copy()) },
            Expr::TyApp { e, tau } => Expr::TyApp { e: Box::new(e.copy()), tau: Box::new(tau.copy()) },
            Expr::Fold { e, tau } => Expr::Fold { e: Box::new(e.copy()), tau: Box::new(tau.copy()) },
            Expr::Unfold(e) => Expr::Unfold(Box::new(e.copy())),
            Expr::Export { e, tau_adt, tau_mod } => Expr::Export {
                e: Box::new(e.copy()),
                tau_adt: Box::new(tau_adt.copy()),
                tau_mod: Box::new(tau_mod.copy()),
            },
            Expr::Import { x, a, e_mod, e_body } => Expr::Import {
                x: x.copy(),
                a: a.copy(),
                e_mod: Box::new(e_mod.copy()),
                e_body: Box::new(e_body.copy()),
            },
        }
    }

    /// Plain structural equality: same constructors, literals and names.
    pub fn same(&self, other: &Expr) -> (r: bool)
        ensures
            r == (self@ == other@),
        decreases self,
    {
        match (self, other) {
            (Expr::Num(n1), Expr::Num(n2)) => *n1 == *n2,
            (Expr::Addop { binop: o1, left: l1, right: r1 }, Expr::Addop { binop: o2, left: l2, right: r2 }) =>
                *o1 == *o2 && l1.same(l2) && r1.same(r2),
            (Expr::Mulop { binop: o1, left: l1, right: r1 }, Expr::Mulop { binop: o2, left: l2, right: r2 }) =>
                *o1 == *o2 && l1.same(l2) && r1.same(r2),
            (Expr::True, Expr::True) => true,
            (Expr::False, Expr::False) => true,
            (Expr::If { cond: c1, then_: t1, else_: e1 }, Expr::If { cond: c2, then_: t2, else_: e2 }) =>
                c1.same(c2) && t1.same(t2) && e1.same(e2),
            (Expr::Relop { relop: o1, left: l1, right: r1 }, Expr::Relop { relop: o2, left: l2, right: r2 }) =>
                *o1 == *o2 && l1.same(l2) && r1.same(r2),
            (Expr::And { left: l1, right: r1 }, Expr::And { left: l2, right: r2 }) => l1.same(l2) && r1.same(r2),
            (Expr::Or { left: l1, right: r1 }, Expr::Or { left: l2, right: r2 }) => l1.same(l2) && r1.same(r2),
            (Expr::Var(v1), Expr::Var(v2)) => v1.same(v2),
            (Expr::Lam { x: x1, tau: t1, e: e1 }, Expr::Lam { x: x2, tau: t2, e: e2 }) =>
                x1.same(x2) && t1.same(t2) && e1.same(e2),
            (Expr::App { lam: f1, arg: a1 }, Expr::App { lam: f2, arg: a2 }) => f1.same(f2) && a1.same(a2),
            (Expr::Unit, Expr::Unit) => true,
            (Expr::Pair { left: l1, right: r1 }, Expr::Pair { left: l2, right: r2 }) => l1.same(l2) && r1.same(r2),
            (Expr::Project { e: e1, d: d1 }, Expr::Project { e: e2, d: d2 }) => *d1 == *d2 && e1.same(e2),
            (Expr::Inject { e: e1, d: d1, tau: t1 }, Expr::Inject { e: e2, d: d2, tau: t2 }) =>
                *d1 == *d2 && e1.same(e2) && t1.same(t2),
            (
                Expr::Case { e: e1, xleft: xl1, eleft: el1, xright: xr1, eright: er1 },
                Expr::Case { e: e2, xleft: xl2, eleft: el2, xright: xr2, eright: er2 },
            ) => e1.same(e2) && xl1.same(xl2) && el1.same(el2) && xr1.same(xr2) && er1.same(er2),
            (Expr::Fix { x: x1, tau: t1, e: e1 }, Expr::Fix { x: x2, tau: t2, e: e2 }) =>
                x1.same(x2) && t1.same(t2) && e1.same(e2),
            (Expr::TyLam { a: a1, e: e1 }, Expr::TyLam { a: a2, e: e2 }) => a1.same(a2) && e1.same(e2),
            (Expr::TyApp { e: e1, tau: t1 }, Expr::TyApp { e: e2, tau: t2 }) => e1.same(e2) && t1.same(t2),
            (Expr::Fold { e: e1, tau: t1 }, Expr::Fold { e: e2, tau: t2 }) => e1.same(e2) && t1.same(t2),
            (Expr::Unfold(e1), Expr::Unfold(e2)) => e1.same(e2),
            (
                Expr::Export { e: e1, tau_adt: w1, tau_mod: m1 },
                Expr::Export { e: e2, tau_adt: w2, tau_mod: m2 },
            ) => e1.same(e2) && w1.same(w2) && m1.same(m2),
            (
                Expr::Import { x: x1, a: a1, e_mod: m1, e_body: b1 },
                Expr::Import { x: x2, a: a2, e_mod: m2, e_body: b2 },
            ) => x1.same(x2) && a1.same(a2) && m1.same(m2) && b1.same(b2),
            _ => false,
        }
    }
}

impl Clone for Expr {
    fn clone(&self) -> Self {
        self.copy()
    }
}

} // verus!

use vstd::prelude::*;
use crate::ast::{AddOp, Direction, Expr, MulOp, RelOp, Term, Type};
use crate::ast_util::{term_subst, Symbol};

verus! {

/// What one step of evaluation does to a term.
pub enum Reduction {
    /// The term is a value.
    Value,
    /// The term reduces to the given term.
    Step(Term),
    /// The term has the wrong shape for its eliminator: it was not well-typed.
    Stuck,
    /// Integer overflow or division by zero.
    Fault,
}

/// Values: terms that do not reduce. Components of pairs, injections,
/// folds and exports are not reduced before these count as values.
pub open spec fn is_value(t: Term) -> bool {
    match t {
        Term::Lam(..) | Term::Num(_) | Term::True | Term::False | Term::Pair(..) | Term::Unit
        | Term::Inject(..) | Term::TyLam(..) | Term::Export(..) | Term::Fold(..) => true,
        _ => false,
    }
}

pub open spec fn bool_term(b: bool) -> Term {
    if b {
        Term::True
    } else {
        Term::False
    }
}

/// `body` with the term variable `x` replaced by `v`.
pub open spec fn subst1(body: Term, x: Seq<char>, v: Term) -> Term {
    term_subst(body, seq![(x, v)], seq![])
}

pub open spec fn add_prim(o: AddOp, l: Term, r: Term) -> Reduction {
    match (l, r) {
        (Term::Num(a), Term::Num(b)) => {
            let n = match o {
                AddOp::Add => a.checked_add(b),
                AddOp::Sub => a.checked_sub(b),
            };
            match n {
                Some(n) => Reduction::Step(Term::Num(n)),
                None => Reduction::Fault,
            }
        },
        _ => Reduction::Stuck,
    }
}

pub open spec fn mul_prim(o: MulOp, l: Term, r: Term) -> Reduction {
    match (l, r) {
        (Term::Num(a), Term::Num(b)) => {
            let n = match o {
                MulOp::Mul => a.checked_mul(b),
                MulOp::Div => a.checked_div(b),
            };
            match n {
                Some(n) => Reduction::Step(Term::Num(n)),
                None => Reduction::Fault,
            }
        },
        _ => Reduction::Stuck,
    }
}

pub open spec fn rel_prim(o: RelOp, l: Term, r: Term) -> Reduction {
    match (l, r) {
        (Term::Num(a), Term::Num(b)) => Reduction::Step(
            bool_term(
                match o {
                    RelOp::Lt => a < b,
                    RelOp::Gt => a > b,
                    RelOp::Eq => a == b,
                },
            ),
        ),
        _ => Reduction::Stuck,
    }
}

pub open spec fn as_bool(t: Term) -> Option<bool> {
    match t {
        Term::True => Some(true),
        Term::False => Some(false),
        _ => None,
    }
}

pub open spec fn and_prim(l: Term, r: Term) -> Reduction {
    match (as_bool(l), as_bool(r)) {
        (Some(a), Some(b)) => Reduction::Step(bool_term(a && b)),
        _ => Reduction::Stuck,
    }
}

pub open spec fn or_prim(l: Term, r: Term) -> Reduction {
    match (as_bool(l), as_bool(r)) {
        (Some(a), Some(b)) => Reduction::Step(bool_term(a || b)),
        _ => Reduction::Stuck,
    }
}

/// One step of call-by-value evaluation, left to right. Arguments of
/// applications and payloads of injections and exports are substituted
/// unevaluated; type applications, unfolds and imports drop their types.
pub open spec fn step(t: Term) -> Reduction
    decreases t,
{
    match t {
        Term::Addop(o, l, r) => match step(*l) {
            Reduction::Step(l2) => Reduction::Step(Term::Addop(o, Box::new(l2), r)),
            Reduction::Value => match step(*r) {
                Reduction::Step(r2) => Reduction::Step(Term::Addop(o, l, Box::new(r2))),
                Reduction::Value => add_prim(o, *l, *r),
                failed => failed,
            },
            failed => failed,
        },
        Term::Mulop(o, l, r) => match step(*l) {
            Reduction::Step(l2) => Reduction::Step(Term::Mulop(o, Box::new(l2), r)),
            Reduction::Value => match step(*r) {
                Reduction::Step(r2) => Reduction::Step(Term::Mulop(o, l, Box::new(r2))),
                Reduction::Value => mul_prim(o, *l, *r),
                failed => failed,
            },
            failed => failed,
        },
        Term::Relop(o, l, r) => match step(*l) {
            Reduction::Step(l2) => Reduction::Step(Term::Relop(o, Box::new(l2), r)),
            Reduction::Value => match step(*r) {
                Reduction::Step(r2) => Reduction::Step(Term::Relop(o, l, Box::new(r2))),
                Reduction::Value => rel_prim(o, *l, *r),
                failed => failed,
            },
            failed => failed,
        },
        Term::And(l, r) => match step(*l) {
            Reduction::Step(l2) => Reduction::Step(Term::And(Box::new(l2), r)),
            Reduction::Value => match step(*r) {
                Reduction::Step(r2) => Reduction::Step(Term::And(l, Box::new(r2))),
                Reduction::Value => and_prim(*l, *r),
                failed => failed,
            },
            failed => failed,
        },
        Term::Or(l, r) => match step(*l) {
            Reduction::Step(l2) => Reduction::Step(Term::Or(Box::new(l2), r)),
            Reduction::Value => match step(*r) {
                Reduction::Step(r2) => Reduction::Step(Term::Or(l, Box::new(r2))),
                Reduction::Value => or_prim(*l, *r),
                failed => failed,
            },
            failed => failed,
        },
        Term::If(c, a, b) => match step(*c) {
            Reduction::Step(c2) => Reduction::Step(Term::If(Box::new(c2), a, b)),
            Reduction::Value => match *c {
                Term::True => Reduction::Step(*a),
                Term::False => Reduction::Step(*b),
                _ => Reduction::Stuck,
            },
            failed => failed,
        },
        Term::App(f, a) => match step(*f) {
            Reduction::Step(f2) => Reduction::Step(Term::App(Box::new(f2), a)),
            Reduction::Value => match *f {
                Term::Lam(x, _, body) => Reduction::Step(subst1(*body, x, *a)),
                _ => Reduction::Stuck,
            },
            failed => failed,
        },
        Term::Project(e, d) => match step(*e) {
            Reduction::Step(e2) => Reduction::Step(Term::Project(Box::new(e2), d)),
            Reduction::Value => match *e {
                Term::Pair(l, r) => match d {
                    Direction::Left => Reduction::Step(*l),
                    Direction::Right => Reduction::Step(*r),
                },
                _ => Reduction::Stuck,
            },
            failed => failed,
        },
        Term::Case(e, xl, el, xr, er) => match step(*e) {
            Reduction::Step(e2) => Reduction::Step(Term::Case(Box::new(e2), xl, el, xr, er)),
            Reduction::Value => match *e {
                Term::Inject(v, d, _) => match d {
                    Direction::Left => Reduction::Step(subst1(*el, xl, *v)),
                    Direction::Right => Reduction::Step(subst1(*er, xr, *v)),
                },
                _ => Reduction::Stuck,
            },
            failed => failed,
        },
        Term::Fix(x, tau, body) => Reduction::Step(subst1(*body, x, Term::Fix(x, tau, body))),
        Term::TyApp(e, tau) => match step(*e) {
            Reduction::Step(e2) => Reduction::Step(Term::TyApp(Box::new(e2), tau)),
            Reduction::Value => match *e {
                Term::TyLam(_, body) => Reduction::Step(*body),
                _ => Reduction::Stuck,
            },
            failed => failed,
        },
        Term::Unfold(e) => match step(*e) {
            Reduction::Step(e2) => Reduction::Step(Term::Unfold(Box::new(e2))),
            Reduction::Value => match *e {
                Term::Fold(v, _) => Reduction::Step(*v),
                _ => Reduction::Stuck,
            },
            failed => failed,
        },
        Term::Import(x, a, m, body) => match step(*m) {
            Reduction::Step(m2) => Reduction::Step(Term::Import(x, a, Box::new(m2), body)),
            Reduction::Value => match *m {
                Term::Export(v, _, _) => Reduction::Step(subst1(*body, x, *v)),
                _ => Reduction::Stuck,
            },
            failed => failed,
        },
        Term::Var(_) => Reduction::Stuck,
        _ => Reduction::Value,
    }
}

/// The value that `t` reaches within `fuel` steps, if it reaches one.
pub open spec fn run(t: Term, fuel: nat) -> Option<Term>
    decreases fuel,
{
    match step(t) {
        Reduction::Value => Some(t),
        Reduction::Step(t2) => if fuel == 0 {
            None
        } else {
            run(t2, (fuel - 1) as nat)
        },
        _ => None,
    }
}

/// The result of one evaluation step.
pub enum Outcome {
    Step(Expr),
    Value,
}

pub open spec fn outcome_matches(r: Result<Outcome, String>, t: Term) -> bool {
    match r {
        Ok(Outcome::Value) => step(t) is Value,
        Ok(Outcome::Step(e2)) => step(t) == Reduction::Step(e2@),
        Err(_) => step(t) is Stuck || step(t) is Fault,
    }
}

fn failure(msg: &str) -> String {
    msg.to_owned()
}

/// `body` with `x` replaced by `v`.
fn subst_one(body: &Expr, x: &crate::ast::Variable, v: Expr) -> (r: Expr)
    ensures
        r@ == subst1(body@, x@, v@),
{
    body.copy().substitute(x.copy(), v)
}

fn num_result(n: Option<i32>) -> (r: Result<Outcome, String>)
    ensures
        match n {
            Some(k) => r matches Ok(Outcome::Step(e)) && e@ == Term::Num(k),
            None => r is Err,
        },
{
    match n {
        Some(k) => Ok(Outcome::Step(Expr::Num(k))),
        None => Err(failure("integer overflow or division by zero")),
    }
}

fn bool_expr(b: bool) -> (r: Expr)
    ensures
        r@ == bool_term(b),
{
    if b {
        Expr::True
    } else {
        Expr::False
    }
}

fn as_bool_exec(e: &Expr) -> (r: Option<bool>)
    ensures
        r == as_bool(e@),
{
    match e {
        Expr::True => Some(true),
        Expr::False => Some(false),
        _ => None,
    }
}

/// One evaluation step; an error where the term is stuck or an integer
/// operation fails.
pub fn try_step(e: &Expr) -> (r: Result<Outcome, String>)
    ensures
        outcome_matches(r, e@),
    decreases e,
{
    match e {
        Expr::Lam { .. } | Expr::Num(_) | Expr::True | Expr::False | Expr::Pair { .. } | Expr::Unit
        | Expr::Inject { .. } | Expr::TyLam { .. } | Expr::Export { .. } | Expr::Fold { .. } => Ok(Outcome::Value),
        Expr::Var(_) => Err(failure("free variable")),
        Expr::Addop { binop, left, right } => match try_step(left)? {
            Outcome::Step(l2) => Ok(Outcome::Step(Expr::Addop { binop: *binop, left: Box::new(l2), right: Box::new(right.copy()) })),
            Outcome::Value => match try_step(right)? {
                Outcome::Step(r2) => Ok(Outcome::Step(Expr::Addop { binop: *binop, left: Box::new(left.copy()), right: Box::new(r2) })),
                Outcome::Value => match (&**left, &**right) {
                    (Expr::Num(a), Expr::Num(b)) => num_result(
                        match binop {
                            AddOp::Add => a.checked_add(*b),
                            AddOp::Sub => a.checked_sub(*b),
                        },
                    ),
                    _ => Err(failure("arithmetic on a non-number")),
                },
            },
        },
        Expr::Mulop { binop, left, right } => match try_step(left)? {
            Outcome::Step(l2) => Ok(Outcome::Step(Expr::Mulop { binop: *binop, left: Box::new(l2), right: Box::new(right.copy()) })),
            Outcome::Value => match try_step(right)? {
                Outcome::Step(r2) => Ok(Outcome::Step(Expr::Mulop { binop: *binop, left: Box::new(left.copy()), right: Box::new(r2) })),
                Outcome::Value => match (&**left, &**right) {
                    (Expr::Num(a), Expr::Num(b)) => num_result(
                        match binop {
                            MulOp::Mul => a.checked_mul(*b),
                            MulOp::Div => a.checked_div(*b),
                        },
                    ),
                    _ => Err(failure("arithmetic on a non-number")),
                },
            },
        },
        Expr::Relop { relop, left, right } => match try_step(left)? {
            Outcome::Step(l2) => Ok(Outcome::Step(Expr::Relop { relop: *relop, left: Box::new(l2), right: Box::new(right.copy()) })),
            Outcome::Value => match try_step(right)? {
                Outcome::Step(r2) => Ok(Outcome::Step(Expr::Relop { relop: *relop, left: Box::new(left.copy()), right: Box::new(r2) })),
                Outcome::Value => match (&**left, &**right) {
                    (Expr::Num(a), Expr::Num(b)) => Ok(Outcome::Step(bool_expr(
                        match relop {
                            RelOp::Lt => *a < *b,
                            RelOp::Gt => *a > *b,
                            RelOp::Eq => *a == *b,
                        },
                    ))),
                    _ => Err(failure("comparison of a non-number")),
                },
            },
        },
        Expr::And { left, right } => match try_step(left)? {
            Outcome::Step(l2) => Ok(Outcome::Step(Expr::And { left: Box::new(l2), right: Box::new(right.copy()) })),
            Outcome::Value => match try_step(right)? {
                Outcome::Step(r2) => Ok(Outcome::Step(Expr::And { left: Box::new(left.copy()), right: Box::new(r2) })),
                Outcome::Value => match (as_bool_exec(left), as_bool_exec(right)) {
                    (Some(a), Some(b)) => Ok(Outcome::Step(bool_expr(a && b))),
                    _ => Err(failure("conjunction of a non-boolean")),
                },
            },
        },
        Expr::Or { left, right } => match try_step(left)? {
            Outcome::Step(l2) => Ok(Outcome::Step(Expr::Or { left: Box::new(l2), right: Box::new(right.copy()) })),
            Outcome::Value => match try_step(right)? {
                Outcome::Step(r2) => Ok(Outcome::Step(Expr::Or { left: Box::new(left.copy()), right: Box::new(r2) })),
                Outcome::Value => match (as_bool_exec(left), as_bool_exec(right)) {
                    (Some(a), Some(b)) => Ok(Outcome::Step(bool_expr(a || b))),
                    _ => Err(failure("disjunction of a non-boolean")),
                },
            },
        },
        Expr::If { cond, then_, else_ } => match try_step(cond)? {
            Outcome::Step(c2) => Ok(Outcome::Step(Expr::If { cond: Box::new(c2), then_: Box::new(then_.copy()), else_: Box::new(else_.copy()) })),
            Outcome::Value => match &**cond {
                Expr::True => Ok(Outcome::Step(then_.copy())),
                Expr::False => Ok(Outcome::Step(else_.copy())),
                _ => Err(failure("condition is not a boolean")),
            },
        },
        Expr::App { lam, arg } => match try_step(lam)? {
            Outcome::Step(f2) => Ok(Outcome::Step(Expr::App { lam: Box::new(f2), arg: Box::new(arg.copy()) })),
            Outcome::Value => match &**lam {
                Expr::Lam { x, e: body, .. } => Ok(Outcome::Step(subst_one(body, x, arg.copy()))),
                _ => Err(failure("application of a non-function")),
            },
        },
        Expr::Project { e: inner, d } => match try_step(inner)? {
            Outcome::Step(e2) => Ok(Outcome::Step(Expr::Project { e: Box::new(e2), d: *d })),
            Outcome::Value => match &**inner {
                Expr::Pair { left, right } => match d {
                    Direction::Left => Ok(Outcome::Step(left.copy())),
                    Direction::Right => Ok(Outcome::Step(right.copy())),
                },
                _ => Err(failure("projection from a non-pair")),
            },
        },
        Expr::Case { e: inner, xleft, eleft, xright, eright } => match try_step(inner)? {
            Outcome::Step(e2) => Ok(Outcome::Step(Expr::Case {
                e: Box::new(e2),
                xleft: xleft.copy(),
                eleft: Box::new(eleft.copy()),
                xright: xright.copy(),
                eright: Box::new(eright.copy()),
            })),
            Outcome::Value => match &**inner {
                Expr::Inject { e: v, d, .. } => match d {
                    Direction::Left => Ok(Outcome::Step(subst_one(eleft, xleft, v.copy()))),
                    Direction::Right => Ok(Outcome::Step(subst_one(eright, xright, v.copy()))),
                },
                _ => Err(failure("case on a non-injection")),
            },
        },
        Expr::Fix { x, e: body, .. } => Ok(Outcome::Step(subst_one(body, x, e.copy()))),
        Expr::TyApp { e: inner, tau } => match try_step(inner)? {
            Outcome::Step(e2) => Ok(Outcome::Step(Expr::TyApp { e: Box::new(e2), tau: Box::new(tau.copy()) })),
            Outcome::Value => match &**inner {
                Expr::TyLam { e: body, .. } => Ok(Outcome::Step(body.copy())),
                _ => Err(failure("type application of a non-abstraction")),
            },
        },
        Expr::Unfold(inner) => match try_step(inner)? {
            Outcome::Step(e2) => Ok(Outcome::Step(Expr::Unfold(Box::new(e2)))),
            Outcome::Value => match &**inner {
                Expr::Fold { e: v, .. } => Ok(Outcome::Step(v.copy())),
                _ => Err(failure("unfold of a non-fold")),
            },
        },
        Expr::Import { x, a, e_mod, e_body } => match try_step(e_mod)? {
            Outcome::Step(m2) => Ok(Outcome::Step(Expr::Import {
                x: x.copy(),
                a: a.copy(),
                e_mod: Box::new(m2),
                e_body: Box::new(e_body.copy()),
            })),
            Outcome::Value => match &**e_mod {
                Expr::Export { e: v, .. } => Ok(Outcome::Step(subst_one(e_body, x, v.copy()))),
                _ => Err(failure("import of a non-export")),
            },
        },
    }
}

/// Evaluates `e` to a value, taking at most `max_steps` steps; an error where
/// the term gets stuck, an integer operation fails or the steps run out.
pub fn eval(e: &Expr, max_steps: u64) -> (r: Result<Expr, String>)
    ensures
        match r {
            Ok(v) => run(e@, max_steps as nat) == Some(v@),
            Err(_) => run(e@, max_steps as nat) is None,
        },
{
    let mut cur = e.copy();
    let mut k: u64 = max_steps;
    loop
        invariant
            run(e@, max_steps as nat) == run(cur@, k as nat),
        decreases k,
    {
        match try_step(&cur)? {
            Outcome::Value => return Ok(cur),
            Outcome::Step(next) => {
                if k == 0 {
                    return Err(failure("evaluation did not finish within the step bound"));
                }
                k = k - 1;
                cur = next;
            },
        }
    }
}

} // verus!

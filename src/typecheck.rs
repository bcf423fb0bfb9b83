use vstd::prelude::*;
use crate::ast::{Direction, Expr, Term, Ty, Type, Variable};
use crate::ast_util::{assoc, ty_alpha, ty_pairs, ty_subst, Symbol};

verus! {

/// The type of `t` under the context `ctx` (later entries shadow earlier ones),
/// or `None` where `t` is ill-typed.
pub open spec fn synth(t: Term, ctx: Seq<(Seq<char>, Ty)>) -> Option<Ty>
    decreases t,
{
    match t {
        Term::Num(_) => Some(Ty::Num),
        Term::True => Some(Ty::Bool),
        Term::False => Some(Ty::Bool),
        Term::Unit => Some(Ty::Unit),
        Term::Addop(_, l, r) => if synth(*l, ctx) == Some(Ty::Num) && synth(*r, ctx) == Some(Ty::Num) {
            Some(Ty::Num)
        } else {
            None
        },
        Term::Mulop(_, l, r) => if synth(*l, ctx) == Some(Ty::Num) && synth(*r, ctx) == Some(Ty::Num) {
            Some(Ty::Num)
        } else {
            None
        },
        Term::Relop(_, l, r) => if synth(*l, ctx) == Some(Ty::Num) && synth(*r, ctx) == Some(Ty::Num) {
            Some(Ty::Bool)
        } else {
            None
        },
        Term::And(l, r) => if synth(*l, ctx) == Some(Ty::Bool) && synth(*r, ctx) == Some(Ty::Bool) {
            Some(Ty::Bool)
        } else {
            None
        },
        Term::Or(l, r) => if synth(*l, ctx) == Some(Ty::Bool) && synth(*r, ctx) == Some(Ty::Bool) {
            Some(Ty::Bool)
        } else {
            None
        },
        Term::If(c, a, b) => match (synth(*a, ctx), synth(*b, ctx)) {
            (Some(ta), Some(tb)) => if synth(*c, ctx) == Some(Ty::Bool) && ty_alpha(ta, tb) {
                Some(ta)
            } else {
                None
            },
            _ => None,
        },
        Term::Var(v) => assoc(ctx, v),
        Term::Lam(x, tau, e) => match synth(*e, ctx.push((x, tau))) {
            Some(tb) => Some(Ty::Fn(Box::new(tau), Box::new(tb))),
            None => None,
        },
        Term::App(f, a) => match (synth(*f, ctx), synth(*a, ctx)) {
            (Some(Ty::Fn(targ, tret)), Some(ta)) => if ty_alpha(ta, *targ) {
                Some(*tret)
            } else {
                None
            },
            _ => None,
        },
        Term::Pair(l, r) => match (synth(*l, ctx), synth(*r, ctx)) {
            (Some(tl), Some(tr)) => Some(Ty::Product(Box::new(tl), Box::new(tr))),
            _ => None,
        },
        Term::Project(e, d) => match synth(*e, ctx) {
            Some(Ty::Product(tl, tr)) => match d {
                Direction::Left => Some(*tl),
                Direction::Right => Some(*tr),
            },
            _ => None,
        },
        Term::Inject(e, d, tau) => match (tau, synth(*e, ctx)) {
            (Ty::Sum(tl, tr), Some(te)) => {
                let side = match d {
                    Direction::Left => *tl,
                    Direction::Right => *tr,
                };
                if ty_alpha(te, side) {
                    Some(tau)
                } else {
                    None
                }
            },
            _ => None,
        },
        Term::Case(e, xl, el, xr, er) => match synth(*e, ctx) {
            Some(Ty::Sum(tl, tr)) => match (synth(*el, ctx.push((xl, *tl))), synth(*er, ctx.push((xr, *tr)))) {
                (Some(a), Some(b)) => if ty_alpha(a, b) {
                    Some(a)
                } else {
                    None
                },
                _ => None,
            },
            _ => None,
        },
        Term::Fix(x, tau, e) => match synth(*e, ctx.push((x, tau))) {
            Some(tb) => if ty_alpha(tb, tau) {
                Some(tau)
            } else {
                None
            },
            None => None,
        },
        Term::TyLam(a, e) => match synth(*e, ctx) {
            Some(tb) => Some(Ty::Forall(a, Box::new(tb))),
            None => None,
        },
        Term::TyApp(e, tau) => match synth(*e, ctx) {
            Some(Ty::Forall(a, tb)) => Some(ty_subst(*tb, seq![(a, tau)])),
            _ => None,
        },
        Term::Fold(e, tau) => match (tau, synth(*e, ctx)) {
            (Ty::Rec(a, tb), Some(te)) => if ty_alpha(te, ty_subst(*tb, seq![(a, tau)])) {
                Some(tau)
            } else {
                None
            },
            _ => None,
        },
        Term::Unfold(e) => match synth(*e, ctx) {
            Some(Ty::Rec(a, tb)) => Some(ty_subst(*tb, seq![(a, Ty::Rec(a, tb))])),
            _ => None,
        },
        Term::Export(e, tw, tau) => match (tau, synth(*e, ctx)) {
            (Ty::Exists(a, tb), Some(te)) => if ty_alpha(te, ty_subst(*tb, seq![(a, tw)])) {
                Some(tau)
            } else {
                None
            },
            _ => None,
        },
        Term::Import(x, a, m, body) => match synth(*m, ctx) {
            Some(Ty::Exists(b, tb)) => synth(*body, ctx.push((x, ty_subst(*tb, seq![(b, Ty::Var(a))])))),
            _ => None,
        },
    }
}

/// The diagnostic for an ill-typed `t`: the first failure met when the parts
/// are checked in order, passed up unchanged from the part where it arose.
pub open spec fn type_error(t: Term, ctx: Seq<(Seq<char>, Ty)>) -> Seq<char>
    decreases t,
{
    match t {
        Term::Addop(_, l, r) | Term::Mulop(_, l, r) => if synth(*l, ctx) is None {
            type_error(*l, ctx)
        } else if synth(*r, ctx) is None {
            type_error(*r, ctx)
        } else {
            mismatch_text("arithmetic"@, synth(*l, ctx)->0, synth(*r, ctx)->0)
        },
        Term::Relop(_, l, r) => if synth(*l, ctx) is None {
            type_error(*l, ctx)
        } else if synth(*r, ctx) is None {
            type_error(*r, ctx)
        } else {
            mismatch_text("comparison"@, synth(*l, ctx)->0, synth(*r, ctx)->0)
        },
        Term::And(l, r) | Term::Or(l, r) => if synth(*l, ctx) is None {
            type_error(*l, ctx)
        } else if synth(*r, ctx) is None {
            type_error(*r, ctx)
        } else {
            mismatch_text("logical operator"@, synth(*l, ctx)->0, synth(*r, ctx)->0)
        },
        Term::If(c, a, b) => if synth(*c, ctx) is None {
            type_error(*c, ctx)
        } else if synth(*c, ctx) != Some(Ty::Bool) {
            mismatch_text("if condition"@, synth(*c, ctx)->0, Ty::Bool)
        } else if synth(*a, ctx) is None {
            type_error(*a, ctx)
        } else if synth(*b, ctx) is None {
            type_error(*b, ctx)
        } else {
            mismatch_text("if branches"@, synth(*a, ctx)->0, synth(*b, ctx)->0)
        },
        Term::Var(v) => unbound_text(v),
        Term::Lam(x, tau, e) => type_error(*e, ctx.push((x, tau))),
        Term::App(f, a) => if synth(*f, ctx) is None {
            type_error(*f, ctx)
        } else if synth(*a, ctx) is None {
            type_error(*a, ctx)
        } else {
            match synth(*f, ctx)->0 {
                Ty::Fn(targ, _) => mismatch_text("application"@, *targ, synth(*a, ctx)->0),
                tf => unexpected_text("a function"@, tf),
            }
        },
        Term::Pair(l, r) => if synth(*l, ctx) is None {
            type_error(*l, ctx)
        } else {
            type_error(*r, ctx)
        },
        Term::Project(e, _) => if synth(*e, ctx) is None {
            type_error(*e, ctx)
        } else {
            unexpected_text("a product"@, synth(*e, ctx)->0)
        },
        Term::Inject(e, d, tau) => if synth(*e, ctx) is None {
            type_error(*e, ctx)
        } else {
            match tau {
                Ty::Sum(l, r) => mismatch_text(
                    "injection"@,
                    match d {
                        Direction::Left => *l,
                        Direction::Right => *r,
                    },
                    synth(*e, ctx)->0,
                ),
                _ => unexpected_text("a sum annotation"@, tau),
            }
        },
        Term::Case(e, xl, el, xr, er) => if synth(*e, ctx) is None {
            type_error(*e, ctx)
        } else {
            match synth(*e, ctx)->0 {
                Ty::Sum(l, r) => if synth(*el, ctx.push((xl, *l))) is None {
                    type_error(*el, ctx.push((xl, *l)))
                } else if synth(*er, ctx.push((xr, *r))) is None {
                    type_error(*er, ctx.push((xr, *r)))
                } else {
                    mismatch_text(
                        "case arms"@,
                        synth(*el, ctx.push((xl, *l)))->0,
                        synth(*er, ctx.push((xr, *r)))->0,
                    )
                },
                te => unexpected_text("a sum"@, te),
            }
        },
        Term::Fix(x, tau, e) => if synth(*e, ctx.push((x, tau))) is None {
            type_error(*e, ctx.push((x, tau)))
        } else {
            mismatch_text("fixpoint"@, tau, synth(*e, ctx.push((x, tau)))->0)
        },
        Term::TyLam(_, e) => type_error(*e, ctx),
        Term::TyApp(e, _) => if synth(*e, ctx) is None {
            type_error(*e, ctx)
        } else {
            unexpected_text("a universal type"@, synth(*e, ctx)->0)
        },
        Term::Fold(e, tau) => if synth(*e, ctx) is None {
            type_error(*e, ctx)
        } else {
            match tau {
                Ty::Rec(a, body) => mismatch_text("fold"@, ty_subst(*body, seq![(a, tau)]), synth(*e, ctx)->0),
                _ => unexpected_text("a recursive type annotation"@, tau),
            }
        },
        Term::Unfold(e) => if synth(*e, ctx) is None {
            type_error(*e, ctx)
        } else {
            unexpected_text("a recursive type"@, synth(*e, ctx)->0)
        },
        Term::Export(e, tw, tau) => if synth(*e, ctx) is None {
            type_error(*e, ctx)
        } else {
            match tau {
                Ty::Exists(a, body) => mismatch_text("export"@, ty_subst(*body, seq![(a, tw)]), synth(*e, ctx)->0),
                _ => unexpected_text("an existential type annotation"@, tau),
            }
        },
        Term::Import(x, a, m, body) => if synth(*m, ctx) is None {
            type_error(*m, ctx)
        } else {
            match synth(*m, ctx)->0 {
                Ty::Exists(b, tb) => type_error(*body, ctx.push((x, ty_subst(*tb, seq![(b, Ty::Var(a))])))),
                tm => unexpected_text("an existential type"@, tm),
            }
        },
        _ => Seq::empty(),
    }
}

/// The diagnostic that `mismatch` renders.
pub uninterp spec fn mismatch_text(label: Seq<char>, left: Ty, right: Ty) -> Seq<char>;

/// The diagnostic that `unexpected` renders.
pub uninterp spec fn unexpected_text(expected: Seq<char>, found: Ty) -> Seq<char>;

/// The diagnostic for a free variable.
pub open spec fn unbound_text(v: Seq<char>) -> Seq<char> {
    "Unbound variable "@ + v
}

/// Relies on format!: renders the diagnostic for two conflicting types; the
/// text depends on the label and the two types alone.
#[verifier::external_body]
fn mismatch(label: &str, left: &Type, right: &Type) -> (r: String)
    ensures
        r@ == mismatch_text(label@, left@, right@),
{
    format!("\nType mismatch in {}:\n    {:?}\nand\n    {:?}", label, left, right)
}

/// Relies on format!: renders the diagnostic for an eliminator applied to a
/// term of the wrong shape.
#[verifier::external_body]
fn unexpected(expected: &str, found: &Type) -> (r: String)
    ensures
        r@ == unexpected_text(expected@, found@),
{
    format!("\nExpected {} but found:\n    {:?}", expected, found)
}

fn unbound(v: &Variable) -> (r: String)
    ensures
        r@ == unbound_text(v@),
{
    let mut s = "Unbound variable ".to_owned();
    crate::ast_util::append_name(&mut s, v);
    s
}

fn alpha(t1: &Type, t2: &Type) -> (r: bool)
    ensures
        r == ty_alpha(t1@, t2@),
{
    Type::alpha_equiv(t1.copy(), t2.copy())
}

/// `body` with `a` replaced by `s`.
fn instantiate(body: &Type, a: &Variable, s: &Type) -> (r: Type)
    ensures
        r@ == ty_subst(body@, seq![(a@, s@)]),
{
    body.copy().substitute(a.copy(), s.copy())
}

/// The type of a closed term, or a diagnostic where it is ill-typed.
pub fn type_check(ast: &Expr) -> (r: Result<Type, String>)
    ensures
        match r {
            Ok(t) => synth(ast@, seq![]) == Some(t@),
            Err(m) => synth(ast@, seq![]) is None && m@ == type_error(ast@, seq![]),
        },
{
    let mut ctx: Vec<(Variable, Type)> = Vec::new();
    proof {
        assert(ty_pairs(ctx@) =~= seq![]);
    }
    type_check_expr(ast, &mut ctx)
}

pub open spec fn holds_type(r: &Result<Type, String>, t: Ty) -> bool {
    match r {
        Ok(x) => x@ == t,
        Err(_) => false,
    }
}

fn both_num(l: &Result<Type, String>, r: &Result<Type, String>) -> (b: bool)
    ensures
        b == (holds_type(l, Ty::Num) && holds_type(r, Ty::Num)),
{
    match (l, r) {
        (Ok(Type::Num), Ok(Type::Num)) => true,
        _ => false,
    }
}

fn both_bool(l: &Result<Type, String>, r: &Result<Type, String>) -> (b: bool)
    ensures
        b == (holds_type(l, Ty::Bool) && holds_type(r, Ty::Bool)),
{
    match (l, r) {
        (Ok(Type::Bool), Ok(Type::Bool)) => true,
        _ => false,
    }
}

fn type_check_expr(ast: &Expr, ctx: &mut Vec<(Variable, Type)>) -> (r: Result<Type, String>)
    ensures
        match r {
            Ok(t) => synth(ast@, ty_pairs(old(ctx)@)) == Some(t@),
            Err(m) => synth(ast@, ty_pairs(old(ctx)@)) is None && m@ == type_error(ast@, ty_pairs(old(ctx)@)),
        },
        final(ctx)@ == old(ctx)@,
    decreases ast, 2nat,
{
    match ast {
        Expr::Num(_) => Ok(Type::Num),
        Expr::True | Expr::False => Ok(Type::Bool),
        Expr::Unit => Ok(Type::Unit),
        Expr::Addop { .. } | Expr::Mulop { .. } | Expr::Relop { .. } | Expr::And { .. } | Expr::Or { .. }
        | Expr::If { .. } => type_check_ops(ast, ctx),
        Expr::Var(v) => match crate::ast_util::lookup(ctx, v) {
            Some(t) => Ok(t),
            None => Err(unbound(v)),
        },
        Expr::Lam { x, tau, e } => {
            let tb = type_check_under(x, tau, e, ctx)?;
            Ok(Type::Fn { arg: Box::new(tau.copy()), ret: Box::new(tb) })
        },
        Expr::App { lam, arg } => {
            let tf = type_check_expr(lam, ctx)?;
            let ta = type_check_expr(arg, ctx)?;
            match tf {
                Type::Fn { arg: targ, ret: tret } => if alpha(&ta, &targ) {
                    Ok(*tret)
                } else {
                    Err(mismatch("application", &targ, &ta))
                },
                _ => Err(unexpected("a function", &tf)),
            }
        },
        Expr::Pair { left, right } => {
            let tl = type_check_expr(left, ctx)?;
            let tr = type_check_expr(right, ctx)?;
            Ok(Type::Product { left: Box::new(tl), right: Box::new(tr) })
        },
        Expr::Project { e, d } => {
            let te = type_check_expr(e, ctx)?;
            match te {
                Type::Product { left, right } => match d {
                    Direction::Left => Ok(*left),
                    Direction::Right => Ok(*right),
                },
                _ => Err(unexpected("a product", &te)),
            }
        },
        _ => type_check_elim(ast, ctx),
    }
}


/// The type of an operator application or a conditional.
fn type_check_ops(ast: &Expr, ctx: &mut Vec<(Variable, Type)>) -> (r: Result<Type, String>)
    requires
        ast is Addop || ast is Mulop || ast is Relop || ast is And || ast is Or || ast is If,
    ensures
        match r {
            Ok(t) => synth(ast@, ty_pairs(old(ctx)@)) == Some(t@),
            Err(m) => synth(ast@, ty_pairs(old(ctx)@)) is None && m@ == type_error(ast@, ty_pairs(old(ctx)@)),
        },
        final(ctx)@ == old(ctx)@,
    decreases ast, 1nat,
{
    match ast {
        Expr::Addop { left, right, .. } | Expr::Mulop { left, right, .. } => {
            let tl = type_check_expr(left, ctx);
            let tr = type_check_expr(right, ctx);
            if both_num(&tl, &tr) {
                Ok(Type::Num)
            } else {
                Err(operands_error("arithmetic", tl, tr))
            }
        },
        Expr::Relop { left, right, .. } => {
            let tl = type_check_expr(left, ctx);
            let tr = type_check_expr(right, ctx);
            if both_num(&tl, &tr) {
                Ok(Type::Bool)
            } else {
                Err(operands_error("comparison", tl, tr))
            }
        },
        Expr::And { left, right } | Expr::Or { left, right } => {
            let tl = type_check_expr(left, ctx);
            let tr = type_check_expr(right, ctx);
            if both_bool(&tl, &tr) {
                Ok(Type::Bool)
            } else {
                Err(operands_error("logical operator", tl, tr))
            }
        },
        Expr::If { cond, then_, else_ } => {
            let tc = type_check_expr(cond, ctx)?;
            if !matches!(tc, Type::Bool) {
                return Err(mismatch("if condition", &tc, &Type::Bool));
            }
            let ta = type_check_expr(then_, ctx)?;
            let tb = type_check_expr(else_, ctx)?;
            if alpha(&ta, &tb) {
                Ok(ta)
            } else {
                Err(mismatch("if branches", &ta, &tb))
            }
        },
        _ => {
            proof {
                assert(false);
            }
            Err(String::new())
        },
    }
}

/// The type of a term whose outer form eliminates or carries types.
fn type_check_elim(ast: &Expr, ctx: &mut Vec<(Variable, Type)>) -> (r: Result<Type, String>)
    requires
        ast is Inject || ast is Case || ast is Fix || ast is TyLam || ast is TyApp || ast is Fold
            || ast is Unfold || ast is Export || ast is Import,
    ensures
        match r {
            Ok(t) => synth(ast@, ty_pairs(old(ctx)@)) == Some(t@),
            Err(m) => synth(ast@, ty_pairs(old(ctx)@)) is None && m@ == type_error(ast@, ty_pairs(old(ctx)@)),
        },
        final(ctx)@ == old(ctx)@,
    decreases ast, 1nat,
{
    match ast {
        Expr::Inject { e, d, tau } => {
            let te = type_check_expr(e, ctx)?;
            match &**tau {
                Type::Sum { left, right } => {
                    let side = match d {
                        Direction::Left => left,
                        Direction::Right => right,
                    };
                    if alpha(&te, side) {
                        Ok(tau.copy())
                    } else {
                        Err(mismatch("injection", side, &te))
                    }
                },
                _ => Err(unexpected("a sum annotation", tau)),
            }
        },
        Expr::Case { e, xleft, eleft, xright, eright } => {
            let te = type_check_expr(e, ctx)?;
            match te {
                Type::Sum { left, right } => {
                    let ta = type_check_under(xleft, &left, eleft, ctx)?;
                    let tb = type_check_under(xright, &right, eright, ctx)?;
                    if alpha(&ta, &tb) {
                        Ok(ta)
                    } else {
                        Err(mismatch("case arms", &ta, &tb))
                    }
                },
                _ => Err(unexpected("a sum", &te)),
            }
        },
        Expr::Fix { x, tau, e } => {
            let tb = type_check_under(x, tau, e, ctx)?;
            if alpha(&tb, tau) {
                Ok(tau.copy())
            } else {
                Err(mismatch("fixpoint", tau, &tb))
            }
        },
        Expr::TyLam { a, e } => {
            let tb = type_check_expr(e, ctx)?;
            Ok(Type::Forall { a: a.copy(), tau: Box::new(tb) })
        },
        Expr::TyApp { e, tau } => {
            let te = type_check_expr(e, ctx)?;
            match te {
                Type::Forall { a, tau: body } => Ok(instantiate(&body, &a, tau)),
                _ => Err(unexpected("a universal type", &te)),
            }
        },
        Expr::Fold { e, tau } => {
            let te = type_check_expr(e, ctx)?;
            match &**tau {
                Type::Rec { a, tau: body } => {
                    let unrolled = instantiate(body, a, tau);
                    if alpha(&te, &unrolled) {
                        Ok(tau.copy())
                    } else {
                        Err(mismatch("fold", &unrolled, &te))
                    }
                },
                _ => Err(unexpected("a recursive type annotation", tau)),
            }
        },
        Expr::Unfold(e) => {
            let te = type_check_expr(e, ctx)?;
            match &te {
                Type::Rec { a, tau: body } => Ok(instantiate(body, a, &te)),
                _ => Err(unexpected("a recursive type", &te)),
            }
        },
        Expr::Export { e, tau_adt, tau_mod } => {
            let te = type_check_expr(e, ctx)?;
            match &**tau_mod {
                Type::Exists { a, tau: body } => {
                    let opened = instantiate(body, a, tau_adt);
                    if alpha(&te, &opened) {
                        Ok(tau_mod.copy())
                    } else {
                        Err(mismatch("export", &opened, &te))
                    }
                },
                _ => Err(unexpected("an existential type annotation", tau_mod)),
            }
        },
        Expr::Import { x, a, e_mod, e_body } => {
            let tm = type_check_expr(e_mod, ctx)?;
            match &tm {
                Type::Exists { a: b, tau: body } => {
                    let opened = instantiate(body, b, &Type::Var(a.copy()));
                    type_check_under(x, &opened, e_body, ctx)
                },
                _ => Err(unexpected("an existential type", &tm)),
            }
        },
        _ => {
            proof {
                assert(false);
            }
            Err(String::new())
        },
    }
}

/// The diagnostic for operands that are not both of the operator's type:
/// the first operand's error, else the second's, else a mismatch.
fn operands_error(label: &str, l: Result<Type, String>, r: Result<Type, String>) -> (m: String)
    ensures
        match (l, r) {
            (Err(e), _) => m@ == e@,
            (Ok(_), Err(e)) => m@ == e@,
            (Ok(tl), Ok(tr)) => m@ == mismatch_text(label@, tl@, tr@),
        },
{
    match (l, r) {
        (Err(e), _) => e,
        (_, Err(e)) => e,
        (Ok(tl), Ok(tr)) => mismatch(label, &tl, &tr),
    }
}

/// The type of a binder's body, with `x: tau` added to the context.
fn type_check_under(x: &Variable, tau: &Type, body: &Expr, ctx: &mut Vec<(Variable, Type)>) -> (r: Result<Type, String>)
    ensures
        match r {
            Ok(t) => synth(body@, ty_pairs(old(ctx)@).push((x@, tau@))) == Some(t@),
            Err(m) => synth(body@, ty_pairs(old(ctx)@).push((x@, tau@))) is None && m@ == type_error(
                body@,
                ty_pairs(old(ctx)@).push((x@, tau@)),
            ),
        },
        final(ctx)@ == old(ctx)@,
    decreases body, 3nat,
{
    let ghost c0 = ctx@;
    ctx.push((x.copy(), tau.copy()));
    proof {
        assert(ty_pairs(ctx@) =~= ty_pairs(c0).push((x@, tau@)));
    }
    let r = type_check_expr(body, ctx);
    ctx.pop();
    proof {
        assert(ctx@ =~= c0);
    }
    r
}

} // verus!

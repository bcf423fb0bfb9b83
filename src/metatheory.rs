use vstd::prelude::*;
use crate::ast::{AddOp, Direction, Expr, MulOp, RelOp, Term, Ty, Type};
use crate::interpreter::{bool_term, is_value, run, step, subst1, Reduction};
use crate::typecheck::synth;
use crate::ast_util::{
    assoc, fresh_name, index_of, max_nat, term_canon, term_map_width, term_subst,
    term_width, ty_alpha, ty_canon, ty_map_width, ty_subst, ty_width, Symbol,
};

verus! {

/// Whether the type variable `v` occurs free in `t`.
pub open spec fn ty_free(t: Ty, v: Seq<char>) -> bool
    decreases t,
{
    match t {
        Ty::Num => false,
        Ty::Bool => false,
        Ty::Unit => false,
        Ty::Var(w) => w == v,
        Ty::Fn(l, r) => ty_free(*l, v) || ty_free(*r, v),
        Ty::Product(l, r) => ty_free(*l, v) || ty_free(*r, v),
        Ty::Sum(l, r) => ty_free(*l, v) || ty_free(*r, v),
        Ty::Rec(a, b) => a != v && ty_free(*b, v),
        Ty::Forall(a, b) => a != v && ty_free(*b, v),
        Ty::Exists(a, b) => a != v && ty_free(*b, v),
    }
}

/// The name that `v` becomes under a renaming `m`, where `m` maps it to a variable.
pub open spec fn renamed<T>(m: Seq<(Seq<char>, T)>, v: Seq<char>, as_var: spec_fn(T) -> Option<Seq<char>>) -> Option<Seq<char>> {
    match assoc(m, v) {
        Some(r) => as_var(r),
        None => Some(v),
    }
}

pub open spec fn ty_as_var(t: Ty) -> Option<Seq<char>> {
    match t {
        Ty::Var(w) => Some(w),
        _ => None,
    }
}

pub open spec fn term_as_var(t: Term) -> Option<Seq<char>> {
    match t {
        Term::Var(w) => Some(w),
        _ => None,
    }
}

/// The free variable `v` of kind `k` is sent by `m` to a variable with the
/// same index in the stack `b2` as `v` has in `b`, and stays itself where it
/// is unbound.
pub open spec fn var_renamed_ok<T>(
    m: Seq<(Seq<char>, T)>,
    as_var: spec_fn(T) -> Option<Seq<char>>,
    b: Seq<(Seq<char>, bool)>,
    b2: Seq<(Seq<char>, bool)>,
    v: Seq<char>,
    k: bool,
) -> bool {
    match renamed(m, v, as_var) {
        Some(w) => index_of(b2, w, k) == index_of(b, v, k) && (index_of(b, v, k) is None ==> w == v),
        None => false,
    }
}

pub open spec fn ty_rename_ok(t: Ty, m: Seq<(Seq<char>, Ty)>, b: Seq<(Seq<char>, bool)>, b2: Seq<(Seq<char>, bool)>) -> bool {
    forall|v: Seq<char>| #[trigger] ty_free(t, v) ==> var_renamed_ok(m, |r: Ty| ty_as_var(r), b, b2, v, true)
}

proof fn lemma_fresh_len(base: Seq<char>, w: nat)
    ensures
        fresh_name(base, w).len() > w,
{
}

proof fn lemma_ty_free_width(t: Ty, v: Seq<char>)
    requires
        ty_free(t, v),
    ensures
        v.len() <= ty_width(t),
    decreases t,
{
    match t {
        Ty::Fn(l, r) | Ty::Product(l, r) | Ty::Sum(l, r) => {
            if ty_free(*l, v) {
                lemma_ty_free_width(*l, v);
            } else {
                lemma_ty_free_width(*r, v);
            }
        },
        Ty::Rec(_, b) | Ty::Forall(_, b) | Ty::Exists(_, b) => {
            lemma_ty_free_width(*b, v);
        },
        _ => {},
    }
}

proof fn lemma_ty_assoc_width(m: Seq<(Seq<char>, Ty)>, v: Seq<char>)
    requires
        assoc(m, v) is Some,
    ensures
        ty_width(assoc(m, v)->0) <= ty_map_width(m),
    decreases m.len(),
{
    if m.last().0 != v {
        lemma_ty_assoc_width(m.drop_last(), v);
    }
}

/// Substituting a renaming that agrees with the binder stacks keeps the
/// nameless form.
proof fn lemma_ty_rename(t: Ty, m: Seq<(Seq<char>, Ty)>, b: Seq<(Seq<char>, bool)>, b2: Seq<(Seq<char>, bool)>)
    requires
        ty_rename_ok(t, m, b, b2),
    ensures
        ty_canon(ty_subst(t, m), b2) == ty_canon(t, b),
    decreases t,
{
    let w = max_nat(ty_width(t), ty_map_width(m));
    match t {
        Ty::Var(v) => {
            assert(ty_free(t, v));
        },
        Ty::Fn(l, r) | Ty::Product(l, r) | Ty::Sum(l, r) => {
            assert forall|v: Seq<char>| #[trigger] ty_free(*l, v) implies var_renamed_ok(m, |r: Ty| ty_as_var(r), b, b2, v, true) by {
                assert(ty_free(t, v));
            }
            assert forall|v: Seq<char>| #[trigger] ty_free(*r, v) implies var_renamed_ok(m, |r: Ty| ty_as_var(r), b, b2, v, true) by {
                assert(ty_free(t, v));
            }
            lemma_ty_rename(*l, m, b, b2);
            lemma_ty_rename(*r, m, b, b2);
        },
        Ty::Rec(a, body) | Ty::Forall(a, body) | Ty::Exists(a, body) => {
            let a2 = fresh_name(a, w);
            lemma_fresh_len(a, w);
            let m2 = m.push((a, Ty::Var(a2)));
            assert forall|v: Seq<char>| #[trigger] ty_free(*body, v) implies var_renamed_ok(
                m2,
                |r: Ty| ty_as_var(r),
                b.push((a, true)),
                b2.push((a2, true)),
                v,
                true,
            ) by {
                assert(b.push((a, true)).drop_last() =~= b);
                assert(b2.push((a2, true)).drop_last() =~= b2);
                assert(m2.drop_last() =~= m);
                if v != a {
                    assert(ty_free(t, v));
                    lemma_ty_free_width(t, v);
                    if assoc(m, v) is Some {
                        lemma_ty_assoc_width(m, v);
                    }
                }
            }
            lemma_ty_rename(*body, m2, b.push((a, true)), b2.push((a2, true)));
        },
        _ => {},
    }
}


/// Whether the term variable `v` occurs free in `t`.
pub open spec fn term_free(t: Term, v: Seq<char>) -> bool
    decreases t,
{
    match t {
        Term::Num(_) => false,
        Term::True => false,
        Term::False => false,
        Term::Unit => false,
        Term::Var(w) => w == v,
        Term::Addop(_, l, r) => term_free(*l, v) || term_free(*r, v),
        Term::Mulop(_, l, r) => term_free(*l, v) || term_free(*r, v),
        Term::Relop(_, l, r) => term_free(*l, v) || term_free(*r, v),
        Term::And(l, r) => term_free(*l, v) || term_free(*r, v),
        Term::Or(l, r) => term_free(*l, v) || term_free(*r, v),
        Term::App(l, r) => term_free(*l, v) || term_free(*r, v),
        Term::Pair(l, r) => term_free(*l, v) || term_free(*r, v),
        Term::If(c, l, r) => term_free(*c, v) || term_free(*l, v) || term_free(*r, v),
        Term::Lam(x, _, e) => x != v && term_free(*e, v),
        Term::Fix(x, _, e) => x != v && term_free(*e, v),
        Term::Project(e, _) => term_free(*e, v),
        Term::Unfold(e) => term_free(*e, v),
        Term::Inject(e, _, _) => term_free(*e, v),
        Term::TyApp(e, _) => term_free(*e, v),
        Term::Fold(e, _) => term_free(*e, v),
        Term::Export(e, _, _) => term_free(*e, v),
        Term::Case(e, xl, el, xr, er) => term_free(*e, v) || (xl != v && term_free(*el, v)) || (xr != v
            && term_free(*er, v)),
        Term::TyLam(_, e) => term_free(*e, v),
        Term::Import(x, _, m, b) => term_free(*m, v) || (x != v && term_free(*b, v)),
    }
}

/// Whether the type variable `a` occurs free in the annotations of `t`.
pub open spec fn term_tyfree(t: Term, a: Seq<char>) -> bool
    decreases t,
{
    match t {
        Term::Num(_) => false,
        Term::True => false,
        Term::False => false,
        Term::Unit => false,
        Term::Var(_) => false,
        Term::Addop(_, l, r) => term_tyfree(*l, a) || term_tyfree(*r, a),
        Term::Mulop(_, l, r) => term_tyfree(*l, a) || term_tyfree(*r, a),
        Term::Relop(_, l, r) => term_tyfree(*l, a) || term_tyfree(*r, a),
        Term::And(l, r) => term_tyfree(*l, a) || term_tyfree(*r, a),
        Term::Or(l, r) => term_tyfree(*l, a) || term_tyfree(*r, a),
        Term::App(l, r) => term_tyfree(*l, a) || term_tyfree(*r, a),
        Term::Pair(l, r) => term_tyfree(*l, a) || term_tyfree(*r, a),
        Term::If(c, l, r) => term_tyfree(*c, a) || term_tyfree(*l, a) || term_tyfree(*r, a),
        Term::Lam(_, tau, e) => ty_free(tau, a) || term_tyfree(*e, a),
        Term::Fix(_, tau, e) => ty_free(tau, a) || term_tyfree(*e, a),
        Term::Project(e, _) => term_tyfree(*e, a),
        Term::Unfold(e) => term_tyfree(*e, a),
        Term::Inject(e, _, tau) => term_tyfree(*e, a) || ty_free(tau, a),
        Term::TyApp(e, tau) => term_tyfree(*e, a) || ty_free(tau, a),
        Term::Fold(e, tau) => term_tyfree(*e, a) || ty_free(tau, a),
        Term::Export(e, t1, t2) => term_tyfree(*e, a) || ty_free(t1, a) || ty_free(t2, a),
        Term::Case(e, _, el, _, er) => term_tyfree(*e, a) || term_tyfree(*el, a) || term_tyfree(*er, a),
        Term::TyLam(b, e) => b != a && term_tyfree(*e, a),
        Term::Import(_, b, m, body) => term_tyfree(*m, a) || (b != a && term_tyfree(*body, a)),
    }
}

pub open spec fn term_rename_ok(
    t: Term,
    mt: Seq<(Seq<char>, Term)>,
    my: Seq<(Seq<char>, Ty)>,
    b: Seq<(Seq<char>, bool)>,
    b2: Seq<(Seq<char>, bool)>,
) -> bool {
    &&& forall|v: Seq<char>| #[trigger] term_free(t, v) ==> var_renamed_ok(mt, |r: Term| term_as_var(r), b, b2, v, false)
    &&& forall|a: Seq<char>| #[trigger] term_tyfree(t, a) ==> var_renamed_ok(my, |r: Ty| ty_as_var(r), b, b2, a, true)
}

proof fn lemma_term_free_width(t: Term, v: Seq<char>)
    requires
        term_free(t, v),
    ensures
        v.len() <= term_width(t),
    decreases t,
{
    match t {
        Term::Addop(_, l, r) | Term::Mulop(_, l, r) | Term::Relop(_, l, r) | Term::And(l, r)
        | Term::Or(l, r) | Term::App(l, r) | Term::Pair(l, r) => {
            if term_free(*l, v) {
                lemma_term_free_width(*l, v);
            } else {
                lemma_term_free_width(*r, v);
            }
        },
        Term::If(c, l, r) => {
            if term_free(*c, v) {
                lemma_term_free_width(*c, v);
            } else if term_free(*l, v) {
                lemma_term_free_width(*l, v);
            } else {
                lemma_term_free_width(*r, v);
            }
        },
        Term::Lam(_, _, e) | Term::Fix(_, _, e) | Term::Project(e, _) | Term::Unfold(e)
        | Term::Inject(e, _, _) | Term::TyApp(e, _) | Term::Fold(e, _) | Term::Export(e, _, _)
        | Term::TyLam(_, e) => {
            lemma_term_free_width(*e, v);
        },
        Term::Case(e, _, el, _, er) => {
            if term_free(*e, v) {
                lemma_term_free_width(*e, v);
            } else if term_free(*el, v) {
                lemma_term_free_width(*el, v);
            } else {
                lemma_term_free_width(*er, v);
            }
        },
        Term::Import(_, _, m, b) => {
            if term_free(*m, v) {
                lemma_term_free_width(*m, v);
            } else {
                lemma_term_free_width(*b, v);
            }
        },
        _ => {},
    }
}

proof fn lemma_term_tyfree_width(t: Term, a: Seq<char>)
    requires
        term_tyfree(t, a),
    ensures
        a.len() <= term_width(t),
    decreases t,
{
    match t {
        Term::Addop(_, l, r) | Term::Mulop(_, l, r) | Term::Relop(_, l, r) | Term::And(l, r)
        | Term::Or(l, r) | Term::App(l, r) | Term::Pair(l, r) => {
            if term_tyfree(*l, a) {
                lemma_term_tyfree_width(*l, a);
            } else {
                lemma_term_tyfree_width(*r, a);
            }
        },
        Term::If(c, l, r) | Term::Case(c, _, l, _, r) => {
            if term_tyfree(*c, a) {
                lemma_term_tyfree_width(*c, a);
            } else if term_tyfree(*l, a) {
                lemma_term_tyfree_width(*l, a);
            } else {
                lemma_term_tyfree_width(*r, a);
            }
        },
        Term::Lam(_, tau, e) | Term::Fix(_, tau, e) | Term::Inject(e, _, tau) | Term::TyApp(e, tau)
        | Term::Fold(e, tau) => {
            if ty_free(tau, a) {
                lemma_ty_free_width(tau, a);
            } else {
                lemma_term_tyfree_width(*e, a);
            }
        },
        Term::Export(e, t1, t2) => {
            if ty_free(t1, a) {
                lemma_ty_free_width(t1, a);
            } else if ty_free(t2, a) {
                lemma_ty_free_width(t2, a);
            } else {
                lemma_term_tyfree_width(*e, a);
            }
        },
        Term::Project(e, _) | Term::Unfold(e) | Term::TyLam(_, e) => {
            lemma_term_tyfree_width(*e, a);
        },
        Term::Import(_, _, m, b) => {
            if term_tyfree(*m, a) {
                lemma_term_tyfree_width(*m, a);
            } else {
                lemma_term_tyfree_width(*b, a);
            }
        },
        _ => {},
    }
}

proof fn lemma_term_assoc_width(m: Seq<(Seq<char>, Term)>, v: Seq<char>)
    requires
        assoc(m, v) is Some,
    ensures
        term_width(assoc(m, v)->0) <= term_map_width(m),
    decreases m.len(),
{
    if m.last().0 != v {
        lemma_term_assoc_width(m.drop_last(), v);
    }
}

/// The renaming condition carries over to a part `c` of `t` outside any new binder.
proof fn lemma_part(
    t: Term,
    c: Term,
    mt: Seq<(Seq<char>, Term)>,
    my: Seq<(Seq<char>, Ty)>,
    b: Seq<(Seq<char>, bool)>,
    b2: Seq<(Seq<char>, bool)>,
)
    requires
        term_rename_ok(t, mt, my, b, b2),
        forall|v: Seq<char>| term_free(c, v) ==> term_free(t, v),
        forall|a: Seq<char>| term_tyfree(c, a) ==> term_tyfree(t, a),
    ensures
        term_rename_ok(c, mt, my, b, b2),
{
    assert forall|v: Seq<char>| #[trigger] term_free(c, v) implies var_renamed_ok(mt, |r: Term| term_as_var(r), b, b2, v, false) by {
        assert(term_free(t, v));
    }
    assert forall|a: Seq<char>| #[trigger] term_tyfree(c, a) implies var_renamed_ok(my, |r: Ty| ty_as_var(r), b, b2, a, true) by {
        assert(term_tyfree(t, a));
    }
}

/// The renaming condition carries over to an annotation of `t`.
proof fn lemma_annotation(
    t: Term,
    tau: Ty,
    mt: Seq<(Seq<char>, Term)>,
    my: Seq<(Seq<char>, Ty)>,
    b: Seq<(Seq<char>, bool)>,
    b2: Seq<(Seq<char>, bool)>,
)
    requires
        term_rename_ok(t, mt, my, b, b2),
        forall|a: Seq<char>| ty_free(tau, a) ==> term_tyfree(t, a),
    ensures
        ty_canon(ty_subst(tau, my), b2) == ty_canon(tau, b),
{
    assert forall|a: Seq<char>| #[trigger] ty_free(tau, a) implies var_renamed_ok(my, |r: Ty| ty_as_var(r), b, b2, a, true) by {
        assert(term_tyfree(t, a));
    }
    lemma_ty_rename(tau, my, b, b2);
}

/// Entering a term binder `x` of `t`, renamed to a name longer than `w`.
proof fn lemma_term_binder(
    t: Term,
    e: Term,
    x: Seq<char>,
    w: nat,
    mt: Seq<(Seq<char>, Term)>,
    my: Seq<(Seq<char>, Ty)>,
    b: Seq<(Seq<char>, bool)>,
    b2: Seq<(Seq<char>, bool)>,
)
    requires
        term_rename_ok(t, mt, my, b, b2),
        forall|v: Seq<char>| term_free(e, v) && v != x ==> term_free(t, v),
        forall|a: Seq<char>| term_tyfree(e, a) ==> term_tyfree(t, a),
        w >= term_width(t),
        w >= term_map_width(mt),
    ensures
        term_rename_ok(
            e,
            mt.push((x, Term::Var(fresh_name(x, w)))),
            my,
            b.push((x, false)),
            b2.push((fresh_name(x, w), false)),
        ),
{
    let x2 = fresh_name(x, w);
    lemma_fresh_len(x, w);
    let m2 = mt.push((x, Term::Var(x2)));
    let bx = b.push((x, false));
    let bx2 = b2.push((x2, false));
    assert(bx.drop_last() =~= b);
    assert(bx2.drop_last() =~= b2);
    assert(m2.drop_last() =~= mt);
    assert forall|v: Seq<char>| #[trigger] term_free(e, v) implies var_renamed_ok(
        m2,
        |r: Term| term_as_var(r),
        bx,
        bx2,
        v,
        false,
    ) by {
        if v != x {
            assert(term_free(t, v));
            lemma_term_free_width(t, v);
            if assoc(mt, v) is Some {
                lemma_term_assoc_width(mt, v);
            }
        }
    }
    assert forall|a: Seq<char>| #[trigger] term_tyfree(e, a) implies var_renamed_ok(my, |r: Ty| ty_as_var(r), bx, bx2, a, true) by {
        assert(term_tyfree(t, a));
    }
}

/// Entering a type binder `a` of `t`, renamed to a name longer than `w`.
proof fn lemma_type_binder(
    t: Term,
    e: Term,
    a: Seq<char>,
    w: nat,
    mt: Seq<(Seq<char>, Term)>,
    my: Seq<(Seq<char>, Ty)>,
    b: Seq<(Seq<char>, bool)>,
    b2: Seq<(Seq<char>, bool)>,
)
    requires
        term_rename_ok(t, mt, my, b, b2),
        forall|v: Seq<char>| term_free(e, v) ==> term_free(t, v),
        forall|c: Seq<char>| term_tyfree(e, c) && c != a ==> term_tyfree(t, c),
        w >= term_width(t),
        w >= ty_map_width(my),
    ensures
        term_rename_ok(
            e,
            mt,
            my.push((a, Ty::Var(fresh_name(a, w)))),
            b.push((a, true)),
            b2.push((fresh_name(a, w), true)),
        ),
{
    let a2 = fresh_name(a, w);
    lemma_fresh_len(a, w);
    let m2 = my.push((a, Ty::Var(a2)));
    let ba = b.push((a, true));
    let ba2 = b2.push((a2, true));
    assert(ba.drop_last() =~= b);
    assert(ba2.drop_last() =~= b2);
    assert(m2.drop_last() =~= my);
    assert forall|c: Seq<char>| #[trigger] term_tyfree(e, c) implies var_renamed_ok(
        m2,
        |r: Ty| ty_as_var(r),
        ba,
        ba2,
        c,
        true,
    ) by {
        if c != a {
            assert(term_tyfree(t, c));
            lemma_term_tyfree_width(t, c);
            if assoc(my, c) is Some {
                lemma_ty_assoc_width(my, c);
            }
        }
    }
    assert forall|v: Seq<char>| #[trigger] term_free(e, v) implies var_renamed_ok(mt, |r: Term| term_as_var(r), ba, ba2, v, false) by {
        assert(term_free(t, v));
    }
}


/// Substituting a renaming that agrees with the binder stacks, for term and
/// for type variables, keeps the nameless form.
#[verifier::spinoff_prover]
#[verifier::rlimit(50)]
proof fn lemma_term_rename(
    t: Term,
    mt: Seq<(Seq<char>, Term)>,
    my: Seq<(Seq<char>, Ty)>,
    b: Seq<(Seq<char>, bool)>,
    b2: Seq<(Seq<char>, bool)>,
)
    requires
        term_rename_ok(t, mt, my, b, b2),
    ensures
        term_canon(term_subst(t, mt, my), b2) == term_canon(t, b),
    decreases t,
{
    let w = max_nat(term_width(t), max_nat(term_map_width(mt), ty_map_width(my)));
    match t {
        Term::Var(v) => {
            assert(term_free(t, v));
        },
        Term::Addop(_, l, r) | Term::Mulop(_, l, r) | Term::Relop(_, l, r) | Term::And(l, r)
        | Term::Or(l, r) | Term::App(l, r) | Term::Pair(l, r) => {
            lemma_part(t, *l, mt, my, b, b2);
            lemma_part(t, *r, mt, my, b, b2);
            lemma_term_rename(*l, mt, my, b, b2);
            lemma_term_rename(*r, mt, my, b, b2);
        },
        Term::If(c, l, r) => {
            lemma_part(t, *c, mt, my, b, b2);
            lemma_part(t, *l, mt, my, b, b2);
            lemma_part(t, *r, mt, my, b, b2);
            lemma_term_rename(*c, mt, my, b, b2);
            lemma_term_rename(*l, mt, my, b, b2);
            lemma_term_rename(*r, mt, my, b, b2);
        },
        Term::Project(e, _) | Term::Unfold(e) => {
            lemma_part(t, *e, mt, my, b, b2);
            lemma_term_rename(*e, mt, my, b, b2);
        },
        Term::Inject(e, _, tau) | Term::TyApp(e, tau) | Term::Fold(e, tau) => {
            lemma_part(t, *e, mt, my, b, b2);
            lemma_term_rename(*e, mt, my, b, b2);
            lemma_annotation(t, tau, mt, my, b, b2);
        },
        Term::Export(e, t1, t2) => {
            lemma_part(t, *e, mt, my, b, b2);
            lemma_term_rename(*e, mt, my, b, b2);
            lemma_annotation(t, t1, mt, my, b, b2);
            lemma_annotation(t, t2, mt, my, b, b2);
        },
        Term::Lam(x, tau, e) | Term::Fix(x, tau, e) => {
            let x2 = fresh_name(x, w);
            lemma_annotation(t, tau, mt, my, b, b2);
            lemma_term_binder(t, *e, x, w, mt, my, b, b2);
            lemma_term_rename(*e, mt.push((x, Term::Var(x2))), my, b.push((x, false)), b2.push((x2, false)));
        },
        Term::Case(e, xl, el, xr, er) => {
            let xl2 = fresh_name(xl, w);
            let xr2 = fresh_name(xr, w);
            lemma_part(t, *e, mt, my, b, b2);
            lemma_term_rename(*e, mt, my, b, b2);
            lemma_term_binder(t, *el, xl, w, mt, my, b, b2);
            lemma_term_rename(*el, mt.push((xl, Term::Var(xl2))), my, b.push((xl, false)), b2.push((xl2, false)));
            lemma_term_binder(t, *er, xr, w, mt, my, b, b2);
            lemma_term_rename(*er, mt.push((xr, Term::Var(xr2))), my, b.push((xr, false)), b2.push((xr2, false)));
        },
        Term::TyLam(a, e) => {
            let a2 = fresh_name(a, w);
            lemma_type_binder(t, *e, a, w, mt, my, b, b2);
            lemma_term_rename(*e, mt, my.push((a, Ty::Var(a2))), b.push((a, true)), b2.push((a2, true)));
        },
        Term::Import(x, a, m, body) => {
            let x2 = fresh_name(x, w);
            let a2 = fresh_name(a, w);
            lemma_part(t, *m, mt, my, b, b2);
            lemma_term_rename(*m, mt, my, b, b2);
            let inner = Term::TyLam(a, body);
            let mt2 = mt.push((x, Term::Var(x2)));
            lemma_term_binder(t, inner, x, w, mt, my, b, b2);
            lemma_type_binder(inner, *body, a, w, mt2, my, b.push((x, false)), b2.push((x2, false)));
            lemma_term_rename(
                *body,
                mt2,
                my.push((a, Ty::Var(a2))),
                b.push((x, false)).push((a, true)),
                b2.push((x2, false)).push((a2, true)),
            );
        },
        _ => {},
    }
}


/// Substituting for a term variable that does not occur free in `e` gives a
/// term alpha-equivalent to `e` (its binders may have been renamed): its
/// nameless form is that of `e`.
pub proof fn substitution_identity(e: Term, y: Seq<char>, t: Term)
    requires
        !term_free(e, y),
    ensures
        <Expr as Symbol>::nameless(<Expr as Symbol>::substituted(e, seq![(y, t)]))
            == <Expr as Symbol>::nameless(e),
{
    let mt = seq![(y, t)];
    let e0: Seq<(Seq<char>, bool)> = seq![];
    let my: Seq<(Seq<char>, Ty)> = seq![];
    assert(mt.drop_last() =~= seq![]);
    assert forall|v: Seq<char>| #[trigger] term_free(e, v) implies var_renamed_ok(mt, |r: Term| term_as_var(r), e0, e0, v, false) by {
        assert(v != y);
        assert(mt.last() == (y, t));
        assert(assoc(mt.drop_last(), v) is None);
        assert(index_of(e0, v, false) is None);
    }
    assert forall|a: Seq<char>| #[trigger] term_tyfree(e, a) implies var_renamed_ok(my, |r: Ty| ty_as_var(r), e0, e0, a, true) by {
        assert(assoc(my, a) is None);
    }
    lemma_term_rename(e, mt, my, e0, e0);
}

/// Substituting for a type variable that does not occur free in `t` gives a
/// type alpha-equivalent to `t`.
pub proof fn type_substitution_identity(t: Ty, y: Seq<char>, s: Ty)
    requires
        !ty_free(t, y),
    ensures
        <Type as Symbol>::nameless(<Type as Symbol>::substituted(t, seq![(y, s)]))
            == <Type as Symbol>::nameless(t),
{
    let m = seq![(y, s)];
    let e0: Seq<(Seq<char>, bool)> = seq![];
    assert(m.drop_last() =~= seq![]);
    assert forall|v: Seq<char>| #[trigger] ty_free(t, v) implies var_renamed_ok(m, |r: Ty| ty_as_var(r), e0, e0, v, true) by {
        assert(v != y);
        assert(m.last() == (y, s));
        assert(assoc(m.drop_last(), v) is None);
        assert(index_of(e0, v, true) is None);
    }
    lemma_ty_rename(t, m, e0, e0);
}

/// Renaming the parameter of a function to a name `y` that is not free in
/// its body, and the body's occurrences with it, gives an alpha-equivalent term.
pub proof fn alpha_invariance(x: Seq<char>, tau: Ty, e: Term, y: Seq<char>)
    requires
        !term_free(e, y),
    ensures
        <Expr as Symbol>::nameless(Term::Lam(x, tau, Box::new(e))) == <Expr as Symbol>::nameless(
            Term::Lam(y, tau, Box::new(<Expr as Symbol>::substituted(e, seq![(x, Term::Var(y))]))),
        ),
{
    let mt = seq![(x, Term::Var(y))];
    let e0: Seq<(Seq<char>, bool)> = seq![];
    let my: Seq<(Seq<char>, Ty)> = seq![];
    let b1 = e0.push((x, false));
    let b2 = e0.push((y, false));
    assert(mt.drop_last() =~= seq![]);
    assert(b1.drop_last() =~= e0);
    assert(b2.drop_last() =~= e0);
    assert forall|v: Seq<char>| #[trigger] term_free(e, v) implies var_renamed_ok(mt, |r: Term| term_as_var(r), b1, b2, v, false) by {
        assert(v != y);
        assert(mt.last() == (x, Term::Var(y)));
        assert(assoc(mt.drop_last(), v) is None);
        assert(index_of(e0, v, false) is None);
        assert(index_of(e0, x, false) is None);
        assert(b1.last() == (x, false) && b2.last() == (y, false));
    }
    assert forall|a: Seq<char>| #[trigger] term_tyfree(e, a) implies var_renamed_ok(my, |r: Ty| ty_as_var(r), b1, b2, a, true) by {
        assert(assoc(my, a) is None);
        assert(index_of(e0, a, true) is None);
    }
    lemma_term_rename(e, mt, my, b1, b2);
}

/// Renaming the variable of a universal type to a name `b` that is not free
/// in its body gives an alpha-equivalent type.
pub proof fn type_alpha_invariance(a: Seq<char>, t: Ty, b: Seq<char>)
    requires
        !ty_free(t, b),
    ensures
        <Type as Symbol>::nameless(Ty::Forall(a, Box::new(t))) == <Type as Symbol>::nameless(
            Ty::Forall(b, Box::new(<Type as Symbol>::substituted(t, seq![(a, Ty::Var(b))]))),
        ),
{
    let m = seq![(a, Ty::Var(b))];
    let e0: Seq<(Seq<char>, bool)> = seq![];
    let b1 = e0.push((a, true));
    let b2 = e0.push((b, true));
    assert(m.drop_last() =~= seq![]);
    assert(b1.drop_last() =~= e0);
    assert(b2.drop_last() =~= e0);
    assert forall|v: Seq<char>| #[trigger] ty_free(t, v) implies var_renamed_ok(m, |r: Ty| ty_as_var(r), b1, b2, v, true) by {
        assert(v != b);
        assert(m.last() == (a, Ty::Var(b)));
        assert(assoc(m.drop_last(), v) is None);
        assert(index_of(e0, v, true) is None);
        assert(index_of(e0, a, true) is None);
        assert(b1.last() == (a, true) && b2.last() == (b, true));
    }
    lemma_ty_rename(t, m, b1, b2);
}

/// A term is a value exactly when evaluation leaves it as it is.
pub proof fn value_classification(t: Term)
    ensures
        (step(t) is Value) == is_value(t),
{
}

/// The shape of a closed value follows from the shape of its type.
proof fn lemma_canonical_forms(v: Term)
    requires
        is_value(v),
        synth(v, seq![]) is Some,
    ensures
        synth(v, seq![]) == Some(Ty::Num) ==> v is Num,
        synth(v, seq![]) == Some(Ty::Bool) ==> v is True || v is False,
        synth(v, seq![]) matches Some(Ty::Fn(_, _)) ==> v is Lam,
        synth(v, seq![]) matches Some(Ty::Product(_, _)) ==> v is Pair,
        synth(v, seq![]) matches Some(Ty::Sum(_, _)) ==> v is Inject,
        synth(v, seq![]) matches Some(Ty::Forall(_, _)) ==> v is TyLam,
        synth(v, seq![]) matches Some(Ty::Rec(_, _)) ==> v is Fold,
        synth(v, seq![]) matches Some(Ty::Exists(_, _)) ==> v is Export,
{
}

/// A closed well-typed term is a value or takes a step, unless its next
/// redex is an integer operation that overflows or divides by zero.
pub proof fn progress(t: Term)
    requires
        synth(t, seq![]) is Some,
    ensures
        step(t) is Value || step(t) is Step || step(t) is Fault,
    decreases t,
{
    let e0: Seq<(Seq<char>, Ty)> = seq![];
    match t {
        Term::Addop(_, l, r) | Term::Mulop(_, l, r) | Term::Relop(_, l, r) | Term::And(l, r)
        | Term::Or(l, r) => {
            progress(*l);
            progress(*r);
            if step(*l) is Value {
                lemma_canonical_forms(*l);
            }
            if step(*r) is Value {
                lemma_canonical_forms(*r);
            }
        },
        Term::If(c, _, _) => {
            progress(*c);
            if step(*c) is Value {
                lemma_canonical_forms(*c);
            }
        },
        Term::App(f, _) => {
            progress(*f);
            if step(*f) is Value {
                lemma_canonical_forms(*f);
            }
        },
        Term::Project(e, _) | Term::Case(e, _, _, _, _) | Term::TyApp(e, _) | Term::Unfold(e)
        | Term::Import(_, _, e, _) => {
            progress(*e);
            if step(*e) is Value {
                lemma_canonical_forms(*e);
            }
        },
        Term::Var(v) => {
            assert(assoc(e0, v) is None);
        },
        _ => {},
    }
}

/// Type application, unfolding and import use the body or payload as it is,
/// whatever types they name: types play no part at run time.
pub proof fn type_erasure(
    a: Seq<char>,
    body: Term,
    tau: Ty,
    v: Term,
    rec: Ty,
    x: Seq<char>,
    b: Seq<char>,
    witness: Ty,
    exist: Ty,
    scope: Term,
)
    ensures
        step(Term::TyApp(Box::new(Term::TyLam(a, Box::new(body))), tau)) == Reduction::Step(body),
        step(Term::Unfold(Box::new(Term::Fold(Box::new(v), rec)))) == Reduction::Step(v),
        step(Term::Import(x, b, Box::new(Term::Export(Box::new(v), witness, exist)), Box::new(scope)))
            == Reduction::Step(subst1(scope, x, v)),
{
    assert(step(Term::TyLam(a, Box::new(body))) is Value);
    assert(step(Term::Fold(Box::new(v), rec)) is Value);
    assert(step(Term::Export(Box::new(v), witness, exist)) is Value);
}


/// A conditional on a boolean literal steps to the chosen branch, whose type
/// is alpha-equivalent to the conditional's.
pub proof fn conditional_preserves_type(c: bool, a: Term, b: Term, ctx: Seq<(Seq<char>, Ty)>)
    requires
        synth(Term::If(Box::new(bool_term(c)), Box::new(a), Box::new(b)), ctx) is Some,
    ensures
        step(Term::If(Box::new(bool_term(c)), Box::new(a), Box::new(b))) == Reduction::Step(
            if c {
                a
            } else {
                b
            },
        ),
        synth(
            if c {
                a
            } else {
                b
            },
            ctx,
        ) is Some,
        ty_alpha(
            synth(Term::If(Box::new(bool_term(c)), Box::new(a), Box::new(b)), ctx)->0,
            synth(
                if c {
                    a
                } else {
                    b
                },
                ctx,
            )->0,
        ),
{
    assert(step(bool_term(c)) is Value);
}

/// A projection of a pair steps to the chosen component, of the projection's type.
pub proof fn projection_preserves_type(l: Term, r: Term, d: Direction, ctx: Seq<(Seq<char>, Ty)>)
    requires
        synth(Term::Project(Box::new(Term::Pair(Box::new(l), Box::new(r))), d), ctx) is Some,
    ensures
        step(Term::Project(Box::new(Term::Pair(Box::new(l), Box::new(r))), d)) == Reduction::Step(
            match d {
                Direction::Left => l,
                Direction::Right => r,
            },
        ),
        synth(
            match d {
                Direction::Left => l,
                Direction::Right => r,
            },
            ctx,
        ) == synth(Term::Project(Box::new(Term::Pair(Box::new(l), Box::new(r))), d), ctx),
{
    assert(step(Term::Pair(Box::new(l), Box::new(r))) is Value);
    let tp = synth(Term::Pair(Box::new(l), Box::new(r)), ctx);
    assert(tp == Some(Ty::Product(Box::new(synth(l, ctx)->0), Box::new(synth(r, ctx)->0))));
}

/// Unfolding a fold steps to the payload, whose type is alpha-equivalent to
/// the unfolding's.
pub proof fn unfold_preserves_type(v: Term, tau: Ty, ctx: Seq<(Seq<char>, Ty)>)
    requires
        synth(Term::Unfold(Box::new(Term::Fold(Box::new(v), tau))), ctx) is Some,
    ensures
        step(Term::Unfold(Box::new(Term::Fold(Box::new(v), tau)))) == Reduction::Step(v),
        synth(v, ctx) is Some,
        ty_alpha(synth(Term::Unfold(Box::new(Term::Fold(Box::new(v), tau))), ctx)->0, synth(v, ctx)->0),
{
    let f = Term::Fold(Box::new(v), tau);
    assert(step(f) is Value);
    assert(synth(f, ctx) == Some(tau));
    if let Ty::Rec(a, body) = tau {
        let unrolled = ty_subst(*body, seq![(a, tau)]);
        assert(ty_alpha(synth(v, ctx)->0, unrolled));
        assert(synth(Term::Unfold(Box::new(f)), ctx) == Some(unrolled));
    }
}


/// Terms without variables, binders or type annotations: literals, operators,
/// conditionals, pairs and projections.
pub open spec fn first_order(t: Term) -> bool
    decreases t,
{
    match t {
        Term::Num(_) => true,
        Term::True => true,
        Term::False => true,
        Term::Unit => true,
        Term::Addop(_, l, r) => first_order(*l) && first_order(*r),
        Term::Mulop(_, l, r) => first_order(*l) && first_order(*r),
        Term::Relop(_, l, r) => first_order(*l) && first_order(*r),
        Term::And(l, r) => first_order(*l) && first_order(*r),
        Term::Or(l, r) => first_order(*l) && first_order(*r),
        Term::Pair(l, r) => first_order(*l) && first_order(*r),
        Term::If(c, a, b) => first_order(*c) && first_order(*a) && first_order(*b),
        Term::Project(e, _) => first_order(*e),
        _ => false,
    }
}

/// Types without variables or binders.
pub open spec fn plain_type(t: Ty) -> bool
    decreases t,
{
    match t {
        Ty::Num => true,
        Ty::Bool => true,
        Ty::Unit => true,
        Ty::Product(l, r) => plain_type(*l) && plain_type(*r),
        _ => false,
    }
}

/// A step of `t`, if it takes one, gives a term of the same kind and type.
#[verifier::opaque]
pub open spec fn preserves(t: Term) -> bool {
    step(t) is Step ==> first_order(step(t)->Step_0) && synth(step(t)->Step_0, seq![]) == synth(t, seq![])
}

proof fn lemma_plain_canon(t: Ty, b: Seq<(Seq<char>, bool)>)
    requires
        plain_type(t),
    ensures
        ty_canon(t, b) == t,
    decreases t,
{
    if let Ty::Product(l, r) = t {
        lemma_plain_canon(*l, b);
        lemma_plain_canon(*r, b);
    }
}

proof fn lemma_first_order_type(t: Term)
    requires
        first_order(t),
        synth(t, seq![]) is Some,
    ensures
        plain_type(synth(t, seq![])->0),
    decreases t,
{
    match t {
        Term::Pair(l, r) => {
            lemma_first_order_type(*l);
            lemma_first_order_type(*r);
        },
        Term::If(_, a, _) => {
            lemma_first_order_type(*a);
        },
        Term::Project(e, _) => {
            lemma_first_order_type(*e);
        },
        _ => {},
    }
}

proof fn lemma_preserves(t: Term)
    requires
        first_order(t),
        synth(t, seq![]) is Some,
    ensures
        preserves(t),
    decreases t,
{
    match t {
        Term::Addop(o, l, r) => {
            lemma_preserves(*l);
            lemma_preserves(*r);
            lemma_preserves_addop(o, *l, *r);
        },
        Term::Mulop(o, l, r) => {
            lemma_preserves(*l);
            lemma_preserves(*r);
            lemma_preserves_mulop(o, *l, *r);
        },
        Term::Relop(o, l, r) => {
            lemma_preserves(*l);
            lemma_preserves(*r);
            lemma_preserves_relop(o, *l, *r);
        },
        Term::And(l, r) => {
            lemma_preserves(*l);
            lemma_preserves(*r);
            lemma_preserves_and(*l, *r);
        },
        Term::Or(l, r) => {
            lemma_preserves(*l);
            lemma_preserves(*r);
            lemma_preserves_or(*l, *r);
        },
        Term::If(c, a, b) => {
            lemma_preserves(*c);
            lemma_preserves_if(*c, *a, *b);
        },
        Term::Project(e, d) => {
            lemma_preserves(*e);
            lemma_preserves_project(*e, d);
        },
        _ => {
            lemma_preserves_value(t);
        },
    }
}

proof fn lemma_preserves_value(t: Term)
    requires
        is_value(t),
    ensures
        preserves(t),
{
    reveal(preserves);
}

proof fn lemma_preserves_addop(o: AddOp, l: Term, r: Term)
    requires
        first_order(l),
        first_order(r),
        synth(l, seq![]) == Some(Ty::Num),
        synth(r, seq![]) == Some(Ty::Num),
        preserves(l),
        preserves(r),
    ensures
        preserves(Term::Addop(o, Box::new(l), Box::new(r))),
{
    reveal(preserves);
}

proof fn lemma_preserves_mulop(o: MulOp, l: Term, r: Term)
    requires
        first_order(l),
        first_order(r),
        synth(l, seq![]) == Some(Ty::Num),
        synth(r, seq![]) == Some(Ty::Num),
        preserves(l),
        preserves(r),
    ensures
        preserves(Term::Mulop(o, Box::new(l), Box::new(r))),
{
    reveal(preserves);
}

proof fn lemma_preserves_relop(o: RelOp, l: Term, r: Term)
    requires
        first_order(l),
        first_order(r),
        synth(l, seq![]) == Some(Ty::Num),
        synth(r, seq![]) == Some(Ty::Num),
        preserves(l),
        preserves(r),
    ensures
        preserves(Term::Relop(o, Box::new(l), Box::new(r))),
{
    reveal(preserves);
}

proof fn lemma_preserves_and(l: Term, r: Term)
    requires
        first_order(l),
        first_order(r),
        synth(l, seq![]) == Some(Ty::Bool),
        synth(r, seq![]) == Some(Ty::Bool),
        preserves(l),
        preserves(r),
    ensures
        preserves(Term::And(Box::new(l), Box::new(r))),
{
    reveal(preserves);
}

proof fn lemma_preserves_or(l: Term, r: Term)
    requires
        first_order(l),
        first_order(r),
        synth(l, seq![]) == Some(Ty::Bool),
        synth(r, seq![]) == Some(Ty::Bool),
        preserves(l),
        preserves(r),
    ensures
        preserves(Term::Or(Box::new(l), Box::new(r))),
{
    reveal(preserves);
}

proof fn lemma_preserves_if(c: Term, a: Term, b: Term)
    requires
        first_order(c),
        first_order(a),
        first_order(b),
        synth(Term::If(Box::new(c), Box::new(a), Box::new(b)), seq![]) is Some,
        preserves(c),
    ensures
        preserves(Term::If(Box::new(c), Box::new(a), Box::new(b))),
{
    lemma_first_order_type(a);
    lemma_first_order_type(b);
    lemma_plain_canon(synth(a, seq![])->0, seq![]);
    lemma_plain_canon(synth(b, seq![])->0, seq![]);
    reveal(preserves);
}

proof fn lemma_preserves_project(e: Term, d: Direction)
    requires
        first_order(e),
        synth(Term::Project(Box::new(e), d), seq![]) is Some,
        preserves(e),
    ensures
        preserves(Term::Project(Box::new(e), d)),
{
    reveal(preserves);
    if step(e) is Value {
        if let Term::Pair(l, r) = e {
            projection_preserves_type(*l, *r, d, seq![]);
        }
    }
}

/// Preservation on terms without variables, binders or annotations: a step of
/// a well-typed such term gives another such term of the same type.
pub proof fn preservation_first_order(t: Term)
    requires
        first_order(t),
        synth(t, seq![]) is Some,
        step(t) is Step,
    ensures
        first_order(step(t)->Step_0),
        synth(step(t)->Step_0, seq![]) == synth(t, seq![]),
        ty_alpha(synth(t, seq![])->0, synth(step(t)->Step_0, seq![])->0),
{
    lemma_preserves(t);
    reveal(preserves);
}

/// What a substitution puts in place of a variable `u`.
pub open spec fn ty_image(m: Seq<(Seq<char>, Ty)>, u: Seq<char>) -> Ty {
    match assoc(m, u) {
        Some(r) => r,
        None => Ty::Var(u),
    }
}

/// A free variable of what replaces a free variable of `t` is free in the result.
proof fn lemma_ty_subst_keeps_free(t: Ty, m: Seq<(Seq<char>, Ty)>, u: Seq<char>, v: Seq<char>)
    requires
        ty_free(t, u),
        ty_free(ty_image(m, u), v),
    ensures
        ty_free(ty_subst(t, m), v),
    decreases t,
{
    let w = max_nat(ty_width(t), ty_map_width(m));
    match t {
        Ty::Fn(l, r) | Ty::Product(l, r) | Ty::Sum(l, r) => {
            if ty_free(*l, u) {
                lemma_ty_subst_keeps_free(*l, m, u, v);
            } else {
                lemma_ty_subst_keeps_free(*r, m, u, v);
            }
        },
        Ty::Rec(a, body) | Ty::Forall(a, body) | Ty::Exists(a, body) => {
            let a2 = fresh_name(a, w);
            lemma_fresh_len(a, w);
            let m2 = m.push((a, Ty::Var(a2)));
            assert(m2.drop_last() =~= m);
            assert(ty_image(m2, u) == ty_image(m, u));
            if assoc(m, u) is Some {
                lemma_ty_assoc_width(m, u);
                lemma_ty_free_width(ty_image(m, u), v);
            } else {
                lemma_ty_free_width(t, u);
            }
            lemma_ty_subst_keeps_free(*body, m2, u, v);
        },
        _ => {},
    }
}

/// Every free variable of the result comes from a free variable `u` of `t`
/// through what replaces `u`: no binder of `t` captures anything.
proof fn lemma_ty_subst_free_source(t: Ty, m: Seq<(Seq<char>, Ty)>, v: Seq<char>) -> (u: Seq<char>)
    requires
        ty_free(ty_subst(t, m), v),
    ensures
        ty_free(t, u),
        ty_free(ty_image(m, u), v),
    decreases t,
{
    let w = max_nat(ty_width(t), ty_map_width(m));
    match t {
        Ty::Var(x) => x,
        Ty::Fn(l, r) | Ty::Product(l, r) | Ty::Sum(l, r) => {
            if ty_free(ty_subst(*l, m), v) {
                lemma_ty_subst_free_source(*l, m, v)
            } else {
                lemma_ty_subst_free_source(*r, m, v)
            }
        },
        Ty::Rec(a, body) | Ty::Forall(a, body) | Ty::Exists(a, body) => {
            let a2 = fresh_name(a, w);
            let m2 = m.push((a, Ty::Var(a2)));
            assert(m2.drop_last() =~= m);
            let u = lemma_ty_subst_free_source(*body, m2, v);
            assert(u != a);
            assert(ty_image(m2, u) == ty_image(m, u));
            u
        },
        _ => v,
    }
}

/// Capture-avoiding substitution of `e` for `s` in a type: the free
/// variables of the result are those of `t` other than `s`, and, where `s`
/// occurs free in `t`, those of `e`.
pub proof fn type_substitution_free_variables(t: Ty, s: Seq<char>, e: Ty, v: Seq<char>)
    ensures
        ty_free(<Type as Symbol>::substituted(t, seq![(s, e)]), v) <==> (ty_free(t, v) && v != s) || (
        ty_free(t, s) && ty_free(e, v)),
{
    let m = seq![(s, e)];
    assert(m.drop_last() =~= seq![]);
    assert forall|u: Seq<char>| u != s implies ty_image(m, u) == Ty::Var(u) by {
        assert(assoc(m.drop_last(), u) is None);
    }
    assert(ty_image(m, s) == e);
    if ty_free(ty_subst(t, m), v) {
        let u = lemma_ty_subst_free_source(t, m, v);
        if u != s {
            assert(ty_free(Ty::Var(u), v));
        }
    }
    if ty_free(t, v) && v != s {
        assert(ty_free(ty_image(m, v), v));
        lemma_ty_subst_keeps_free(t, m, v, v);
    }
    if ty_free(t, s) && ty_free(e, v) {
        lemma_ty_subst_keeps_free(t, m, s, v);
    }
}

/// What a term substitution puts in place of a term variable `u`.
pub open spec fn term_image(m: Seq<(Seq<char>, Term)>, u: Seq<char>) -> Term {
    match assoc(m, u) {
        Some(r) => r,
        None => Term::Var(u),
    }
}

/// Passing a term binder `x`, renamed to a name longer than `w`: what replaces
/// a variable other than `x` is unchanged, and cannot hold the new name.
proof fn lemma_term_binder_image(
    t: Term,
    mt: Seq<(Seq<char>, Term)>,
    x: Seq<char>,
    w: nat,
    u: Seq<char>,
    v: Seq<char>,
)
    requires
        u != x,
        term_free(t, u),
        w >= term_width(t),
        w >= term_map_width(mt),
    ensures
        term_image(mt.push((x, Term::Var(fresh_name(x, w)))), u) == term_image(mt, u),
        term_free(term_image(mt, u), v) ==> v != fresh_name(x, w),
{
    let m2 = mt.push((x, Term::Var(fresh_name(x, w))));
    assert(m2.drop_last() =~= mt);
    lemma_fresh_len(x, w);
    if term_free(term_image(mt, u), v) {
        if assoc(mt, u) is Some {
            lemma_term_assoc_width(mt, u);
            lemma_term_free_width(term_image(mt, u), v);
        } else {
            lemma_term_free_width(t, u);
        }
    }
}

/// A free variable of what replaces a free term variable of `t` is free in the result.
#[verifier::spinoff_prover]
proof fn lemma_term_subst_keeps_free(
    t: Term,
    mt: Seq<(Seq<char>, Term)>,
    my: Seq<(Seq<char>, Ty)>,
    u: Seq<char>,
    v: Seq<char>,
)
    requires
        term_free(t, u),
        term_free(term_image(mt, u), v),
    ensures
        term_free(term_subst(t, mt, my), v),
    decreases t,
{
    let w = max_nat(term_width(t), max_nat(term_map_width(mt), ty_map_width(my)));
    match t {
        Term::Addop(_, l, r) | Term::Mulop(_, l, r) | Term::Relop(_, l, r) | Term::And(l, r)
        | Term::Or(l, r) | Term::App(l, r) | Term::Pair(l, r) => {
            if term_free(*l, u) {
                lemma_term_subst_keeps_free(*l, mt, my, u, v);
            } else {
                lemma_term_subst_keeps_free(*r, mt, my, u, v);
            }
        },
        Term::If(c, l, r) => {
            if term_free(*c, u) {
                lemma_term_subst_keeps_free(*c, mt, my, u, v);
            } else if term_free(*l, u) {
                lemma_term_subst_keeps_free(*l, mt, my, u, v);
            } else {
                lemma_term_subst_keeps_free(*r, mt, my, u, v);
            }
        },
        Term::Project(e, _) | Term::Unfold(e) | Term::Inject(e, _, _) | Term::TyApp(e, _)
        | Term::Fold(e, _) | Term::Export(e, _, _) => {
            lemma_term_subst_keeps_free(*e, mt, my, u, v);
        },
        Term::TyLam(a, e) => {
            lemma_term_subst_keeps_free(*e, mt, my.push((a, Ty::Var(fresh_name(a, w)))), u, v);
        },
        Term::Lam(x, _, e) | Term::Fix(x, _, e) => {
            lemma_term_binder_image(t, mt, x, w, u, v);
            lemma_term_subst_keeps_free(*e, mt.push((x, Term::Var(fresh_name(x, w)))), my, u, v);
        },
        Term::Case(e, xl, el, xr, er) => {
            if term_free(*e, u) {
                lemma_term_subst_keeps_free(*e, mt, my, u, v);
            } else if xl != u && term_free(*el, u) {
                lemma_term_binder_image(t, mt, xl, w, u, v);
                lemma_term_subst_keeps_free(*el, mt.push((xl, Term::Var(fresh_name(xl, w)))), my, u, v);
            } else {
                lemma_term_binder_image(t, mt, xr, w, u, v);
                lemma_term_subst_keeps_free(*er, mt.push((xr, Term::Var(fresh_name(xr, w)))), my, u, v);
            }
        },
        Term::Import(x, a, m, body) => {
            if term_free(*m, u) {
                lemma_term_subst_keeps_free(*m, mt, my, u, v);
            } else {
                lemma_term_binder_image(t, mt, x, w, u, v);
                lemma_term_subst_keeps_free(
                    *body,
                    mt.push((x, Term::Var(fresh_name(x, w)))),
                    my.push((a, Ty::Var(fresh_name(a, w)))),
                    u,
                    v,
                );
            }
        },
        _ => {},
    }
}

/// Every free variable of the result comes from a free term variable `u` of
/// `t` through what replaces `u`: no binder of `t` captures anything.
#[verifier::spinoff_prover]
proof fn lemma_term_subst_free_source(
    t: Term,
    mt: Seq<(Seq<char>, Term)>,
    my: Seq<(Seq<char>, Ty)>,
    v: Seq<char>,
) -> (u: Seq<char>)
    requires
        term_free(term_subst(t, mt, my), v),
    ensures
        term_free(t, u),
        term_free(term_image(mt, u), v),
    decreases t,
{
    let w = max_nat(term_width(t), max_nat(term_map_width(mt), ty_map_width(my)));
    match t {
        Term::Var(x) => x,
        Term::Addop(_, l, r) | Term::Mulop(_, l, r) | Term::Relop(_, l, r) | Term::And(l, r)
        | Term::Or(l, r) | Term::App(l, r) | Term::Pair(l, r) => {
            if term_free(term_subst(*l, mt, my), v) {
                lemma_term_subst_free_source(*l, mt, my, v)
            } else {
                lemma_term_subst_free_source(*r, mt, my, v)
            }
        },
        Term::If(c, l, r) => {
            if term_free(term_subst(*c, mt, my), v) {
                lemma_term_subst_free_source(*c, mt, my, v)
            } else if term_free(term_subst(*l, mt, my), v) {
                lemma_term_subst_free_source(*l, mt, my, v)
            } else {
                lemma_term_subst_free_source(*r, mt, my, v)
            }
        },
        Term::Project(e, _) | Term::Unfold(e) | Term::Inject(e, _, _) | Term::TyApp(e, _)
        | Term::Fold(e, _) | Term::Export(e, _, _) => {
            lemma_term_subst_free_source(*e, mt, my, v)
        },
        Term::TyLam(a, e) => {
            lemma_term_subst_free_source(*e, mt, my.push((a, Ty::Var(fresh_name(a, w)))), v)
        },
        Term::Lam(x, _, e) | Term::Fix(x, _, e) => {
            let x2 = fresh_name(x, w);
            let m2 = mt.push((x, Term::Var(x2)));
            assert(m2.drop_last() =~= mt);
            let u = lemma_term_subst_free_source(*e, m2, my, v);
            assert(u != x);
            u
        },
        Term::Case(e, xl, el, xr, er) => {
            if term_free(term_subst(*e, mt, my), v) {
                lemma_term_subst_free_source(*e, mt, my, v)
            } else {
                let xl2 = fresh_name(xl, w);
                let xr2 = fresh_name(xr, w);
                let ml = mt.push((xl, Term::Var(xl2)));
                let mr = mt.push((xr, Term::Var(xr2)));
                assert(ml.drop_last() =~= mt);
                assert(mr.drop_last() =~= mt);
                if v != xl2 && term_free(term_subst(*el, ml, my), v) {
                    let u = lemma_term_subst_free_source(*el, ml, my, v);
                    assert(u != xl);
                    u
                } else {
                    let u = lemma_term_subst_free_source(*er, mr, my, v);
                    assert(u != xr);
                    u
                }
            }
        },
        Term::Import(x, a, m, body) => {
            if term_free(term_subst(*m, mt, my), v) {
                lemma_term_subst_free_source(*m, mt, my, v)
            } else {
                let x2 = fresh_name(x, w);
                let m2 = mt.push((x, Term::Var(x2)));
                assert(m2.drop_last() =~= mt);
                let u = lemma_term_subst_free_source(*body, m2, my.push((a, Ty::Var(fresh_name(a, w)))), v);
                assert(u != x);
                u
            }
        },
        _ => v,
    }
}

/// Capture-avoiding substitution of `e` for the term variable `s`: the free
/// term variables of the result are those of `t` other than `s`, and, where
/// `s` occurs free in `t`, those of `e`.
pub proof fn substitution_free_variables(t: Term, s: Seq<char>, e: Term, v: Seq<char>)
    ensures
        term_free(<Expr as Symbol>::substituted(t, seq![(s, e)]), v) <==> (term_free(t, v) && v != s)
            || (term_free(t, s) && term_free(e, v)),
{
    let m = seq![(s, e)];
    let my: Seq<(Seq<char>, Ty)> = seq![];
    assert(m.drop_last() =~= seq![]);
    assert forall|u: Seq<char>| u != s implies term_image(m, u) == Term::Var(u) by {
        assert(assoc(m.drop_last(), u) is None);
    }
    assert(term_image(m, s) == e);
    if term_free(term_subst(t, m, my), v) {
        let u = lemma_term_subst_free_source(t, m, my, v);
        if u != s {
            assert(term_free(Term::Var(u), v));
        }
    }
    if term_free(t, v) && v != s {
        assert(term_free(term_image(m, v), v));
        lemma_term_subst_keeps_free(t, m, my, v, v);
    }
    if term_free(t, s) && term_free(e, v) {
        lemma_term_subst_keeps_free(t, m, my, s, v);
    }
}

/// Applying an instance of the polymorphic identity to `5` gives `5` in two
/// steps, whatever type it was instantiated at.
pub proof fn type_argument_is_erased(a: Seq<char>, x: Seq<char>, sigma: Ty)
    ensures
        run(
            Term::App(
                Box::new(
                    Term::TyApp(
                        Box::new(Term::TyLam(a, Box::new(Term::Lam(x, Ty::Var(a), Box::new(Term::Var(x)))))),
                        sigma,
                    ),
                ),
                Box::new(Term::Num(5)),
            ),
            2,
        ) == Some(Term::Num(5)),
{
    let id = Term::Lam(x, Ty::Var(a), Box::new(Term::Var(x)));
    let five = Term::Num(5);
    let inst = Term::TyApp(Box::new(Term::TyLam(a, Box::new(id))), sigma);
    let start = Term::App(Box::new(inst), Box::new(five));
    assert(step(Term::TyLam(a, Box::new(id))) is Value);
    assert(step(inst) == Reduction::Step(id));
    let mid = Term::App(Box::new(id), Box::new(five));
    assert(step(start) == Reduction::Step(mid));
    let m = seq![(x, five)];
    assert(m.last() == (x, five));
    assert(assoc(m, x) == Some(five));
    assert(subst1(Term::Var(x), x, five) == five);
    assert(step(id) is Value);
    assert(step(mid) == Reduction::Step(five));
    assert(step(five) is Value);
    assert(run(five, 0) == Some(five));
    assert(run(mid, 1) == Some(five));
}

} // verus!

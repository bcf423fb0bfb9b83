use interpreter::ast::{AddOp, Direction, Expr, MulOp, RelOp, Type, Variable};
use interpreter::ast_util::Symbol;
use interpreter::evaluate;
use interpreter::interpreter::{eval, try_step, Outcome};
use interpreter::typecheck::type_check;

fn v(s: &str) -> Variable {
    Variable(s.to_string())
}

fn var(s: &str) -> Expr {
    Expr::Var(v(s))
}

fn num(n: i32) -> Expr {
    Expr::Num(n)
}

fn tvar(s: &str) -> Type {
    Type::Var(v(s))
}

fn fun_t(arg: Type, ret: Type) -> Type {
    Type::Fn { arg: Box::new(arg), ret: Box::new(ret) }
}

fn prod_t(left: Type, right: Type) -> Type {
    Type::Product { left: Box::new(left), right: Box::new(right) }
}

fn sum_t(left: Type, right: Type) -> Type {
    Type::Sum { left: Box::new(left), right: Box::new(right) }
}

fn rec_t(a: &str, tau: Type) -> Type {
    Type::Rec { a: v(a), tau: Box::new(tau) }
}

fn forall_t(a: &str, tau: Type) -> Type {
    Type::Forall { a: v(a), tau: Box::new(tau) }
}

fn exists_t(a: &str, tau: Type) -> Type {
    Type::Exists { a: v(a), tau: Box::new(tau) }
}

fn addop(binop: AddOp, l: Expr, r: Expr) -> Expr {
    Expr::Addop { binop, left: Box::new(l), right: Box::new(r) }
}

fn plus(l: Expr, r: Expr) -> Expr {
    addop(AddOp::Add, l, r)
}

fn minus(l: Expr, r: Expr) -> Expr {
    addop(AddOp::Sub, l, r)
}

fn times(l: Expr, r: Expr) -> Expr {
    Expr::Mulop { binop: MulOp::Mul, left: Box::new(l), right: Box::new(r) }
}

fn divide(l: Expr, r: Expr) -> Expr {
    Expr::Mulop { binop: MulOp::Div, left: Box::new(l), right: Box::new(r) }
}

fn rel(relop: RelOp, l: Expr, r: Expr) -> Expr {
    Expr::Relop { relop, left: Box::new(l), right: Box::new(r) }
}

fn and(l: Expr, r: Expr) -> Expr {
    Expr::And { left: Box::new(l), right: Box::new(r) }
}

fn or(l: Expr, r: Expr) -> Expr {
    Expr::Or { left: Box::new(l), right: Box::new(r) }
}

fn if_(c: Expr, t: Expr, e: Expr) -> Expr {
    Expr::If { cond: Box::new(c), then_: Box::new(t), else_: Box::new(e) }
}

fn lam(x: &str, tau: Type, e: Expr) -> Expr {
    Expr::Lam { x: v(x), tau: Box::new(tau), e: Box::new(e) }
}

fn app(f: Expr, a: Expr) -> Expr {
    Expr::App { lam: Box::new(f), arg: Box::new(a) }
}

fn pair(l: Expr, r: Expr) -> Expr {
    Expr::Pair { left: Box::new(l), right: Box::new(r) }
}

fn proj(e: Expr, d: Direction) -> Expr {
    Expr::Project { e: Box::new(e), d }
}

fn inj(e: Expr, d: Direction, tau: Type) -> Expr {
    Expr::Inject { e: Box::new(e), d, tau: Box::new(tau) }
}

fn case(e: Expr, xl: &str, el: Expr, xr: &str, er: Expr) -> Expr {
    Expr::Case { e: Box::new(e), xleft: v(xl), eleft: Box::new(el), xright: v(xr), eright: Box::new(er) }
}

fn fix(x: &str, tau: Type, e: Expr) -> Expr {
    Expr::Fix { x: v(x), tau: Box::new(tau), e: Box::new(e) }
}

fn tylam(a: &str, e: Expr) -> Expr {
    Expr::TyLam { a: v(a), e: Box::new(e) }
}

fn tyapp(e: Expr, tau: Type) -> Expr {
    Expr::TyApp { e: Box::new(e), tau: Box::new(tau) }
}

fn fold(e: Expr, tau: Type) -> Expr {
    Expr::Fold { e: Box::new(e), tau: Box::new(tau) }
}

fn unfold(e: Expr) -> Expr {
    Expr::Unfold(Box::new(e))
}

fn export(e: Expr, tau_adt: Type, tau_mod: Type) -> Expr {
    Expr::Export { e: Box::new(e), tau_adt: Box::new(tau_adt), tau_mod: Box::new(tau_mod) }
}

fn import(x: &str, a: &str, e_mod: Expr, e_body: Expr) -> Expr {
    Expr::Import { x: v(x), a: v(a), e_mod: Box::new(e_mod), e_body: Box::new(e_body) }
}

/// `let x : tau = e1 in e2`
fn let_(x: &str, tau: Type, e1: Expr, e2: Expr) -> Expr {
    app(lam(x, tau.clone(), e2), e1)
}

/// `letrec x : tau = e1 in e2`
fn letrec(x: &str, tau: Type, e1: Expr, e2: Expr) -> Expr {
    app(lam(x, tau.clone(), e2), fix(x, tau, e1))
}

fn run(e: &Expr) -> Expr {
    eval(e, 100_000).unwrap()
}

fn alpha(a: &Expr, b: &Expr) -> bool {
    Expr::alpha_equiv(a.clone(), b.clone())
}

fn ty_alpha(a: &Type, b: &Type) -> bool {
    Type::alpha_equiv(a.clone(), b.clone())
}

use Direction::{Left as L, Right as R};

#[test]
fn numbers() {
    for n in [1, 1234567, 0] {
        assert_eq!(run(&num(n)), Expr::Num(n));
        assert_eq!(type_check(&num(n)).unwrap(), Type::Num);
    }
}

#[test]
fn simple_arithmetic() {
    let cases = [
        (plus(num(1), num(2)), 3),
        (minus(num(1), num(2)), -1),
        (times(num(1), num(2)), 2),
        (divide(num(1), num(2)), 0),
    ];
    for (e, n) in cases {
        assert_eq!(run(&e), Expr::Num(n));
        assert_eq!(type_check(&e).unwrap(), Type::Num);
    }
}

/// `1 +(1 *((2-3))+4)/( 5 +6)`
fn complex_arithmetic_term() -> Expr {
    plus(num(1), divide(plus(times(num(1), minus(num(2), num(3))), num(4)), plus(num(5), num(6))))
}

#[test]
fn complex_arithmetic() {
    let expr = complex_arithmetic_term();
    assert_eq!(run(&expr), Expr::Num(1));
    assert_eq!(type_check(&expr).unwrap(), Type::Num);
}

#[test]
fn relop() {
    let cases = [
        (rel(RelOp::Eq, num(1), num(1)), Expr::True),
        (rel(RelOp::Lt, num(1), num(2)), Expr::True),
        (rel(RelOp::Gt, num(2), num(1)), Expr::True),
        (rel(RelOp::Eq, num(1), num(2)), Expr::False),
        (rel(RelOp::Lt, num(2), num(1)), Expr::False),
        (rel(RelOp::Gt, num(1), num(2)), Expr::False),
    ];
    for (e, r) in cases {
        assert_eq!(run(&e), r);
        assert_eq!(type_check(&e).unwrap(), Type::Bool);
    }
}

#[test]
fn and_or() {
    let t = || Expr::True;
    let f = || Expr::False;
    let cases = [
        (and(t(), t()), Expr::True),
        (and(t(), f()), Expr::False),
        (and(f(), t()), Expr::False),
        (and(f(), f()), Expr::False),
        (or(t(), t()), Expr::True),
        (or(t(), f()), Expr::True),
        (or(f(), t()), Expr::True),
        (or(f(), f()), Expr::False),
    ];
    for (e, r) in cases {
        assert_eq!(run(&e), r);
        assert_eq!(type_check(&e).unwrap(), Type::Bool);
    }
}

#[test]
fn ifelse() {
    let expr1 = if_(Expr::True, num(1), num(2));
    assert_eq!(run(&expr1), Expr::Num(1));
    assert_eq!(type_check(&expr1).unwrap(), Type::Num);
    let expr2 = if_(Expr::False, num(1), num(2));
    assert_eq!(run(&expr2), Expr::Num(2));
    assert_eq!(type_check(&expr2).unwrap(), Type::Num);
    let expr3 = if_(
        Expr::False,
        times(num(1), num(2)),
        if_(Expr::True, plus(num(2), num(4)), divide(num(3), num(5))),
    );
    assert_eq!(run(&expr3), Expr::Num(6));
    assert_eq!(type_check(&expr3).unwrap(), Type::Num);
}

/// `if 1<2*3 then 3==4+1 else 4>5`
fn complex_relop_term() -> Expr {
    if_(
        rel(RelOp::Lt, num(1), times(num(2), num(3))),
        rel(RelOp::Eq, num(3), plus(num(4), num(1))),
        rel(RelOp::Gt, num(4), num(5)),
    )
}

#[test]
fn complex_relop() {
    let expr1 = and(
        or(rel(RelOp::Gt, plus(num(1), num(2)), num(3)), rel(RelOp::Gt, num(4), num(5))),
        rel(RelOp::Eq, num(4), num(5)),
    );
    assert_eq!(run(&expr1), Expr::False);
    assert_eq!(type_check(&expr1).unwrap(), Type::Bool);
    let expr2 = complex_relop_term();
    assert_eq!(run(&expr2), Expr::False);
    assert_eq!(type_check(&expr2).unwrap(), Type::Bool);
}

#[test]
fn lam_app() {
    // `x y z` groups as `(x y) z`; `fun (x : num) -> x y` has body `x y`
    let e = lam("x", Type::Num, app(var("x"), var("y")));
    assert!(matches!(e, Expr::Lam { .. }));
    let left_nested = app(app(var("x"), var("y")), var("z"));
    assert!(alpha(&left_nested, &app(app(var("x"), var("y")), var("z"))));
    assert!(!alpha(&left_nested, &app(var("x"), app(var("y"), var("z")))));
}

#[test]
fn inline_test() {
    let expr1 = app(lam("x", Type::Num, var("x")), var("y"));
    assert!(alpha(&expr1, &expr1.clone().substitute(v("x"), num(0))));
    assert!(alpha(
        &app(lam("x", Type::Num, var("x")), num(0)),
        &expr1.clone().substitute(v("y"), num(0))
    ));

    let expr2 = plus(var("x"), lam("x", Type::Num, var("y")));
    assert!(alpha(
        &expr2.clone().substitute(v("x"), num(0)),
        &plus(num(0), lam("x", Type::Num, var("y")))
    ));
    assert!(alpha(
        &expr2.clone().substitute(v("y"), num(0)),
        &plus(var("x"), lam("x", Type::Num, num(0)))
    ));

    assert!(alpha(&lam("x", Type::Num, var("x")), &lam("y", Type::Num, var("y"))));
    assert!(!alpha(
        &lam("x", Type::Num, lam("x", Type::Num, plus(var("x"), var("x")))),
        &lam("x", Type::Num, lam("y", Type::Num, plus(var("y"), var("x"))))
    ));
}

#[test]
fn lec_2_example() {
    let expr1 = lam("z", Type::Num, var("x"));
    assert!(alpha(&expr1.substitute(v("x"), var("y")), &lam("z", Type::Num, var("y"))));

    let expr2 = lam("y", Type::Num, app(var("x"), var("y")));
    assert!(alpha(
        &expr2.clone().substitute(v("x"), var("y")),
        &lam("y_", Type::Num, app(var("y"), var("y_")))
    ));
    assert!(alpha(
        &expr2.substitute(v("x"), num(0)),
        &lam("y_", Type::Num, app(num(0), var("y_")))
    ));

    let expr3 = app(var("x"), lam("x", Type::Num, app(var("x"), var("x"))));
    assert!(alpha(
        &expr3.substitute(v("x"), var("y")),
        &app(var("y"), lam("x", Type::Num, app(var("x"), var("x"))))
    ));
}

/// `fun (x : num) -> 3 + x - 2 * x / z` with the parameter and one use named apart
fn arith_fn(param: &str, first: &str, second: &str) -> Expr {
    lam(
        param,
        Type::Num,
        minus(plus(num(3), var(first)), divide(times(num(2), var(second)), var("z"))),
    )
}

#[test]
fn arithmetic_test() {
    assert!(alpha(&arith_fn("x", "x", "x"), &arith_fn("y", "y", "y")));
    assert!(!alpha(&arith_fn("x", "x", "x"), &arith_fn("x", "y", "x")));
    assert!(!alpha(
        &arith_fn("x", "x", "x"),
        &arith_fn("x", "y", "x").substitute(v("y"), var("x"))
    ));
}

#[test]
fn conditional_test() {
    // `1&&x||z<0`
    let body = |x: &str| or(and(num(1), var(x)), rel(RelOp::Lt, var("z"), num(0)));
    assert!(alpha(&lam("x", Type::Num, body("x")), &lam("y", Type::Num, body("y"))));

    let cond = |p: &str, q: &str| {
        lam(
            p,
            Type::Num,
            if_(
                and(num(1), var(p)),
                or(rel(RelOp::Lt, var("z"), num(0)), rel(RelOp::Lt, var(q), var("z"))),
                rel(RelOp::Eq, var(p), var(q)),
            ),
        )
    };
    assert!(alpha(&cond("x", "y").substitute(v("y"), var("x")), &cond("x_", "x")));

    assert!(alpha(
        &lam("x", Type::Num, if_(Expr::True, var("x"), var("x"))),
        &lam("y", Type::Num, if_(Expr::True, var("y"), var("y")))
    ));
    assert!(!alpha(
        &if_(Expr::True, var("x"), var("x")),
        &if_(Expr::False, var("x"), var("x"))
    ));
}

#[test]
fn simple_functions() {
    let nn = fun_t(Type::Num, Type::Num);
    let expr1 = let_("f", nn, lam("x", Type::Num, plus(var("x"), num(1))), app(var("f"), num(2)));
    assert_eq!(run(&expr1), Expr::Num(3));
    assert_eq!(type_check(&expr1).unwrap(), Type::Num);
    let expr2 = app(lam("x", Type::Num, var("x")), num(2));
    assert_eq!(run(&expr2), Expr::Num(2));
    assert_eq!(type_check(&expr2).unwrap(), Type::Num);
}

/// `let f : num -> num -> num = fun (x : num) -> fun (x : num) -> x in (f 0) 1`
fn shadow_term() -> Expr {
    let_(
        "f",
        fun_t(Type::Num, fun_t(Type::Num, Type::Num)),
        lam("x", Type::Num, lam("x", Type::Num, var("x"))),
        app(app(var("f"), num(0)), num(1)),
    )
}

#[test]
fn shadow() {
    let expr1 = shadow_term();
    assert_eq!(run(&expr1), Expr::Num(1));
    assert_eq!(type_check(&expr1).unwrap(), Type::Num);
}

#[test]
fn product_eval_test() {
    let p1 = || pair(plus(num(1), num(2)), minus(num(3), num(4)));
    let p2 = || pair(times(num(1), num(2)), divide(num(3), num(4)));
    let expr1 = proj(p1(), L);
    assert_eq!(run(&expr1), Expr::Num(3));
    assert_eq!(type_check(&expr1).unwrap(), Type::Num);
    let expr2 = proj(p2(), R);
    assert_eq!(run(&expr2), Expr::Num(0));
    assert_eq!(type_check(&expr2).unwrap(), Type::Num);
    let expr3 = proj(pair(proj(p1(), L), proj(p2(), R)), L);
    assert_eq!(run(&expr3), Expr::Num(3));
    assert_eq!(type_check(&expr3).unwrap(), Type::Num);
    let expr4 = pair(pair(Expr::Unit, pair(num(1), num(2))), Expr::Unit);
    assert_eq!(
        run(&expr4),
        Expr::Pair {
            left: Box::new(Expr::Pair {
                left: Box::new(Expr::Unit),
                right: Box::new(Expr::Pair { left: Box::new(Expr::Num(1)), right: Box::new(Expr::Num(2)) })
            }),
            right: Box::new(Expr::Unit)
        }
    );
    assert_eq!(
        type_check(&expr4).unwrap(),
        Type::Product {
            left: Box::new(Type::Product {
                left: Box::new(Type::Unit),
                right: Box::new(Type::Product { left: Box::new(Type::Num), right: Box::new(Type::Num) })
            }),
            right: Box::new(Type::Unit)
        }
    );
}

#[test]
fn product_aequiv() {
    // `(((),(x,2)),(y,x)).L`
    let shape = |a: Expr, b: Expr, c: Expr| proj(pair(pair(Expr::Unit, pair(a, num(2))), pair(b, c)), L);
    let expr1 = shape(var("x"), var("y"), var("x"));
    assert!(alpha(&expr1.clone().substitute(v("x"), num(0)), &shape(num(0), var("y"), num(0))));
    assert!(alpha(&expr1.substitute(v("x"), var("y")), &shape(var("y"), var("y"), var("y"))));
}

/// `case (inj 1=L as num+num) {L(l)->l+1|R(r)->3*r}` with chosen arm names
fn sum_case(xl: &str, el: Expr, xr: &str, er: Expr) -> Expr {
    case(inj(num(1), L, sum_t(Type::Num, Type::Num)), xl, el, xr, er)
}

fn sum_case_plain() -> Expr {
    sum_case("l", plus(var("l"), num(1)), "r", times(num(3), var("r")))
}

/// `let x:(num->num)+num = (inj 1 = R as .., inj (fun (n:num) -> n+1) = L as ..).R in case x {L(f) -> (f 1) | R(n)->3*n}`
fn sum_of_functions() -> Expr {
    let st = || sum_t(fun_t(Type::Num, Type::Num), Type::Num);
    let_(
        "x",
        st(),
        proj(pair(inj(num(1), R, st()), inj(lam("n", Type::Num, plus(var("n"), num(1))), L, st())), R),
        case(var("x"), "f", app(var("f"), num(1)), "n", times(num(3), var("n"))),
    )
}

#[test]
fn sum_eval_test() {
    let expr1 = sum_case_plain();
    assert_eq!(run(&expr1), Expr::Num(2));
    assert_eq!(type_check(&expr1).unwrap(), Type::Num);

    let st = || sum_t(prod_t(Type::Num, Type::Num), Type::Num);
    let arms = |scrutinee: Expr| {
        case(scrutinee, "n", plus(proj(var("n"), L), num(1)), "n", times(num(3), var("n")))
    };
    let expr2 = let_("x", st(), inj(num(1), R, st()), arms(var("x")));
    assert_eq!(run(&expr2), Expr::Num(3));
    assert_eq!(type_check(&expr2).unwrap(), Type::Num);

    let expr3 = let_(
        "x",
        prod_t(Type::Num, st()),
        pair(num(100), inj(num(1), R, st())),
        arms(proj(var("x"), R)),
    );
    assert_eq!(run(&expr3), Expr::Num(3));
    assert_eq!(type_check(&expr3).unwrap(), Type::Num);

    let expr4 = sum_of_functions();
    assert_eq!(run(&expr4), Expr::Num(2));
    assert_eq!(type_check(&expr4).unwrap(), Type::Num);
}

#[test]
fn sum_aequiv() {
    let expr1 = sum_case_plain();
    assert!(alpha(
        &expr1.clone().substitute(v("l"), var("n")),
        &sum_case("n", plus(var("n"), num(1)), "r_", times(num(3), var("r_")))
    ));
    let expr3 = sum_of_functions();
    assert!(alpha(&expr3.clone().substitute(v("n"), var("t")), &expr3));
}

/// `letrec fact : num -> num = fun (n : num) -> if n == 0 then 1 else n * (fact (n - 1)) in fact 5`
fn factorial() -> Expr {
    letrec(
        "fact",
        fun_t(Type::Num, Type::Num),
        lam(
            "n",
            Type::Num,
            if_(
                rel(RelOp::Eq, var("n"), num(0)),
                num(1),
                times(var("n"), app(var("fact"), minus(var("n"), num(1)))),
            ),
        ),
        app(var("fact"), num(5)),
    )
}

#[test]
fn fixpoints_eval_test() {
    let fact = factorial();
    assert_eq!(run(&fact), Expr::Num(120));
    assert_eq!(type_check(&fact).unwrap(), Type::Num);
}

#[test]
fn fixpoints_aequiv() {
    let fact = factorial();
    assert!(alpha(&fact.clone().substitute(v("n"), var("t")), &fact));
}

/// `let id : forall a . a -> a = tyfun a -> fun (x : a) -> x in id [num] 100`
fn poly_id(a: &str, x: &str) -> Expr {
    let_(
        "id",
        forall_t(a, fun_t(tvar(a), tvar(a))),
        tylam(a, lam(x, tvar(a), var(x))),
        app(tyapp(var("id"), Type::Num), num(100)),
    )
}

#[test]
fn forall_eval_test() {
    let poly = poly_id("a", "x");
    assert_eq!(run(&poly), Expr::Num(100));
    assert_eq!(type_check(&poly).unwrap(), Type::Num);

    let poly2 = let_(
        "id",
        fun_t(Type::Unit, forall_t("a", fun_t(tvar("a"), tvar("a")))),
        lam("u", Type::Unit, tylam("a", lam("x", tvar("a"), var("x")))),
        app(tyapp(app(var("id"), Expr::Unit), Type::Num), num(100)),
    );
    assert_eq!(run(&poly2), Expr::Num(100));
    assert_eq!(type_check(&poly2).unwrap(), Type::Num);

    let opt_t = |a: &str| sum_t(Type::Unit, tvar(a));
    let opt = let_(
        "none",
        forall_t("a", opt_t("a")),
        tylam("a", inj(Expr::Unit, L, opt_t("a"))),
        let_(
            "some",
            forall_t("a", fun_t(tvar("a"), opt_t("a"))),
            tylam("a", lam("x", tvar("a"), inj(var("x"), R, opt_t("a")))),
            case(app(tyapp(var("some"), Type::Num), num(1)), "x", num(0), "n", plus(var("n"), num(1))),
        ),
    );
    assert_eq!(run(&opt), Expr::Num(2));
    assert_eq!(type_check(&opt).unwrap(), Type::Num);
}

#[test]
fn forall_aequiv() {
    assert!(alpha(
        &tylam("a", lam("x", tvar("a"), var("x"))),
        &tylam("b", lam("x", tvar("b"), var("x")))
    ));
    assert!(alpha(&poly_id("a", "x"), &poly_id("b", "y")));
}

#[test]
fn forall_ty_aequiv() {
    let fb_a = || forall_t("b", tvar("a"));
    assert!(ty_alpha(&fb_a().substitute(v("a"), Type::Num), &forall_t("a", Type::Num)));
    assert!(ty_alpha(&fb_a().substitute(v("a"), tvar("b")), &forall_t("c", tvar("b"))));
    assert!(!ty_alpha(&fb_a().substitute(v("a"), tvar("b")), &forall_t("b", tvar("b"))));
    let fbb_a = || forall_t("b", forall_t("b", tvar("a")));
    assert!(ty_alpha(
        &fbb_a().substitute(v("a"), tvar("b")),
        &forall_t("q", forall_t("c", tvar("b")))
    ));
    assert!(!ty_alpha(
        &fbb_a().substitute(v("a"), tvar("b")),
        &forall_t("a", forall_t("b", tvar("a")))
    ));
    assert!(ty_alpha(&forall_t("a", tvar("a")), &forall_t("b", tvar("b"))));
    assert!(!ty_alpha(&forall_t("a", tvar("a")), &forall_t("b", Type::Num)));
    assert!(ty_alpha(
        &forall_t("a", forall_t("b", fun_t(tvar("a"), tvar("b")))),
        &forall_t("x", forall_t("y", fun_t(tvar("x"), tvar("y"))))
    ));
}

/// `rec a . num * (a -> num)` under a chosen name
fn obj_t(a: &str) -> Type {
    rec_t(a, prod_t(Type::Num, fun_t(tvar(a), Type::Num)))
}

/// `fold (0, fun (o : rec a . ..) -> (unfold o).L) as rec a . num * (a -> num)`
fn obj(a: &str) -> Expr {
    fold(pair(num(0), lam("o", obj_t(a), proj(unfold(var("o")), L))), obj_t(a))
}

fn objrec(a: &str, x: &str) -> Expr {
    let_(x, obj_t(a), obj(a), proj(unfold(var(x)), L))
}

#[test]
fn fold_eval_test() {
    let objrec = objrec("a", "x");
    assert_eq!(run(&objrec), Expr::Num(0));
    assert_eq!(type_check(&objrec).unwrap(), Type::Num);

    let counter_t = || rec_t("a", prod_t(Type::Num, fun_t(Type::Unit, tvar("a"))));
    let counter = letrec(
        "constr",
        fun_t(Type::Num, counter_t()),
        lam(
            "x",
            Type::Num,
            fold(
                pair(var("x"), lam("u", Type::Unit, app(var("constr"), plus(var("x"), num(1))))),
                counter_t(),
            ),
        ),
        let_(
            "c1",
            counter_t(),
            app(var("constr"), num(1)),
            let_(
                "c2",
                counter_t(),
                app(proj(unfold(var("c1")), R), Expr::Unit),
                proj(unfold(var("c2")), L),
            ),
        ),
    );
    assert_eq!(run(&counter), Expr::Num(2));
    assert_eq!(type_check(&counter).unwrap(), Type::Num);
}

#[test]
fn fold_aequiv() {
    assert!(alpha(&objrec("a", "x"), &objrec("b", "y")));
}

#[test]
fn fold_ty_aequiv() {
    assert!(ty_alpha(&obj_t("b"), &obj_t("c")));
    assert!(!ty_alpha(
        &rec_t("a", prod_t(Type::Unit, fun_t(tvar("a"), Type::Num))),
        &rec_t("a", prod_t(Type::Num, fun_t(tvar("a"), Type::Num)))
    ));
}

/// `exists b . rec a . b * (a -> num)` under chosen names
fn module_t(b: &str, a: &str, ret: Type) -> Type {
    exists_t(b, rec_t(a, prod_t(tvar(b), fun_t(tvar(a), ret))))
}

/// `export (fold ..) without num as exists b . ..`
fn module(b: &str) -> Expr {
    export(obj("a"), Type::Num, module_t(b, "a", Type::Num))
}

/// `import (m, a) = e in (let x : a = (unfold m).L in let n : num = ((unfold m).R m) in n)`
fn use_module(e: Expr, m: &str, x: &str, n: &str) -> Expr {
    import(
        m,
        "a",
        e,
        let_(
            x,
            tvar("a"),
            proj(unfold(var(m)), L),
            let_(n, Type::Num, app(proj(unfold(var(m)), R), var(m)), var(n)),
        ),
    )
}

#[test]
fn existential_eval_test() {
    let objmod = let_("m", module_t("b", "a", Type::Num), module("b"), use_module(var("m"), "m2", "x", "n"));
    assert_eq!(run(&objmod), Expr::Num(0));
    assert_eq!(type_check(&objmod).unwrap(), Type::Num);

    let objmod2 = let_(
        "m",
        fun_t(Type::Unit, module_t("b", "a", Type::Num)),
        lam("u", Type::Unit, module("b")),
        use_module(app(var("m"), Expr::Unit), "m2", "x", "n"),
    );
    assert_eq!(run(&objmod2), Expr::Num(0));
    assert_eq!(type_check(&objmod2).unwrap(), Type::Num);
}

#[test]
fn existential_aequiv() {
    assert!(alpha(
        &let_("m", module_t("c", "a", Type::Num), module("c"), use_module(var("m"), "m3", "y", "p")),
        &let_("m", module_t("b", "a", Type::Num), module("b"), use_module(var("m"), "m2", "x", "n"))
    ));
}

#[test]
fn existential_ty_aequiv() {
    assert!(ty_alpha(&module_t("c", "d", Type::Num), &module_t("b", "a", Type::Num)));
    assert!(!ty_alpha(&module_t("b", "a", Type::Num), &module_t("b", "a", Type::Unit)));
    assert!(ty_alpha(
        &module_t("b", "a", Type::Num),
        &module_t("b", "a", Type::Num).substitute(v("a"), tvar("c"))
    ));
}

#[test]
fn arithmetic() {
    assert!(type_check(&plus(num(1), Expr::Unit)).is_err());
    assert!(type_check(&minus(Expr::Unit, Expr::Unit)).is_err());
    assert!(type_check(&times(num(1), pair(num(1), num(2)))).is_err());
    assert!(type_check(&divide(inj(num(1), L, sum_t(Type::Num, Type::Num)), num(1))).is_err());
}

#[test]
fn conditionals() {
    assert!(type_check(&or(Expr::True, num(1))).is_err());
    assert!(type_check(&and(Expr::Unit, Expr::True)).is_err());
    assert!(type_check(&if_(Expr::True, num(1), Expr::Unit)).is_err());
    assert!(type_check(&if_(num(0), num(1), num(2))).is_err());
    assert!(type_check(&rel(RelOp::Eq, num(1), Expr::Unit)).is_err());
    assert!(type_check(&rel(RelOp::Lt, num(1), pair(num(2), num(3)))).is_err());
    let f = lam("x", sum_t(Type::Num, Type::Num), var("x"));
    assert!(type_check(&rel(RelOp::Gt, f, num(1))).is_err());
}

#[test]
fn functions() {
    assert!(type_check(&var("x")).is_err());
    assert!(type_check(&app(lam("x", sum_t(Type::Num, Type::Num), var("x")), num(1))).is_err());
    assert!(type_check(&app(num(1), Expr::Unit)).is_err());
}

#[test]
fn adt() {
    assert!(type_check(&proj(num(1), L)).is_err());
    assert!(type_check(&inj(Expr::Unit, L, sum_t(Type::Num, Type::Num))).is_err());
    let arms = |e: Expr| case(e, "l", plus(var("l"), num(1)), "r", times(num(3), var("r")));
    assert!(type_check(&arms(Expr::Unit)).is_err());
    let bad = inj(num(1), L, sum_t(Type::Num, prod_t(Type::Num, Type::Num)));
    assert!(type_check(&arms(bad)).is_err());
}

#[test]
fn fixpoints() {
    let fix = letrec("f", Type::Num, num(5), app(var("f"), num(1)));
    assert!(type_check(&fix).is_err());
}

// ----- further cases -----

#[test]
fn scenario_arithmetic() {
    let e = complex_arithmetic_term();
    assert_eq!(type_check(&e).unwrap(), Type::Num);
    assert_eq!(run(&e), Expr::Num(1));
}

#[test]
fn scenario_comparison() {
    let e = complex_relop_term();
    assert_eq!(type_check(&e).unwrap(), Type::Bool);
    assert_eq!(run(&e), Expr::False);
}

#[test]
fn scenario_shadowing() {
    let e = shadow_term();
    assert_eq!(type_check(&e).unwrap(), Type::Num);
    assert_eq!(run(&e), Expr::Num(1));
}

#[test]
fn scenario_case() {
    let e = sum_case_plain();
    assert_eq!(type_check(&e).unwrap(), Type::Num);
    assert_eq!(run(&e), Expr::Num(2));
}

#[test]
fn scenario_factorial() {
    assert_eq!(run(&factorial()), Expr::Num(120));
}

#[test]
fn scenario_module_payload() {
    // a module exporting witness `num` with payload `0`, read back after import
    for witness in [Type::Num, Type::Bool] {
        let m_t = exists_t("b", tvar("b"));
        let m = export(num(0), Type::Num, m_t.clone());
        let prog = import("p", "t", m, var("p"));
        assert_eq!(run(&prog), Expr::Num(0));
        let typed = import("p", "t", export(num(0), Type::Num, m_t), var("p"));
        assert_eq!(type_check(&typed).unwrap(), tvar("t"));
        let erased = import("p", "t", export(num(0), witness.clone(), exists_t("b", Type::Num)), var("p"));
        assert_eq!(run(&erased), Expr::Num(0));
    }
}

#[test]
fn type_application_is_erased() {
    // `(tyfun a -> fun (x:a) -> x) [num] 5`
    for tau in [Type::Num, Type::Bool, fun_t(Type::Unit, Type::Unit)] {
        let e = app(tyapp(tylam("a", lam("x", tvar("a"), var("x"))), tau), num(5));
        assert_eq!(run(&e), Expr::Num(5));
    }
    let e = app(tyapp(tylam("a", lam("x", tvar("a"), var("x"))), Type::Num), num(5));
    assert_eq!(type_check(&e).unwrap(), Type::Num);
}

#[test]
fn substitution_of_absent_variable() {
    let e = lam("x", Type::Num, plus(var("x"), num(1)));
    let r = e.clone().substitute(v("y"), num(7));
    assert!(alpha(&r, &e));
    let t = forall_t("a", fun_t(tvar("a"), tvar("a")));
    assert!(ty_alpha(&t.clone().substitute(v("y"), Type::Num), &t));
}

#[test]
fn renaming_a_parameter() {
    let body = app(var("x"), var("z"));
    let renamed = lam("w", Type::Num, body.clone().substitute(v("x"), var("w")));
    assert!(alpha(&lam("x", Type::Num, body), &renamed));
}

#[test]
fn substitution_renames_binders() {
    // every binder is renamed, with underscores appended
    let e = lam("y", Type::Num, app(var("x"), var("y")));
    match e.substitute(v("x"), var("y")) {
        Expr::Lam { x, e, .. } => {
            assert_eq!(x, v("y_"));
            assert_eq!(*e, app(var("y"), var("y_")));
        }
        other => panic!("unexpected {:?}", other),
    }
}

#[test]
fn substitute_map_is_simultaneous() {
    let e = pair(var("x"), var("y"));
    let r = e.substitute_map(vec![(v("x"), var("y")), (v("y"), num(1))]);
    assert_eq!(r, pair(var("y"), num(1)));
}

#[test]
fn nameless_form() {
    let e = lam("x", Type::Num, lam("y", Type::Num, app(var("x"), var("z"))));
    let expected = lam("_", Type::Num, lam("_", Type::Num, app(var("1"), var("z"))));
    assert_eq!(e.to_debruijn(), expected);
    let t = forall_t("a", forall_t("b", tvar("a")));
    assert_eq!(t.to_debruijn(), forall_t("_", forall_t("_", tvar("1"))));
    let mut deep = var("x");
    for _ in 0..12 {
        deep = lam("y", Type::Num, deep);
    }
    deep = lam("x", Type::Num, deep);
    let mut inner = &deep.to_debruijn();
    while let Expr::Lam { e, .. } = inner {
        inner = e;
    }
    assert_eq!(*inner, var("12"));
}

#[test]
fn progress_on_typed_terms() {
    let terms = [complex_arithmetic_term(), factorial(), sum_of_functions(), poly_id("a", "x")];
    for t in terms {
        assert!(type_check(&t).is_ok());
        assert!(matches!(try_step(&t), Ok(Outcome::Step(_))));
        assert!(matches!(evaluate::try_step(&t), evaluate::Outcome::Step(_)));
    }
    assert!(matches!(try_step(&num(3)), Ok(Outcome::Value)));
    assert!(matches!(evaluate::try_step(&lam("x", Type::Num, var("x"))), evaluate::Outcome::Value));
}

#[test]
fn single_steps() {
    match try_step(&plus(plus(num(1), num(2)), num(4))) {
        Ok(Outcome::Step(e)) => assert_eq!(e, plus(num(3), num(4))),
        _ => panic!("expected a step"),
    }
    match try_step(&app(lam("x", Type::Num, plus(var("x"), var("x"))), plus(num(1), num(1)))) {
        Ok(Outcome::Step(e)) => assert!(alpha(&e, &plus(plus(num(1), num(1)), plus(num(1), num(1))))),
        _ => panic!("expected a step"),
    }
}

#[test]
fn pairs_are_values_without_reducing_parts() {
    let p = pair(plus(num(1), num(2)), num(3));
    assert_eq!(run(&p), p);
}

#[test]
fn evaluation_failures() {
    assert!(eval(&divide(num(1), num(0)), 10).is_err());
    assert!(eval(&plus(num(i32::MAX), num(1)), 10).is_err());
    assert!(eval(&divide(num(i32::MIN), num(-1)), 10).is_err());
    assert!(eval(&proj(num(1), L), 10).is_err());
    assert!(eval(&var("x"), 10).is_err());
    let omega = fix("f", Type::Num, var("f"));
    assert!(eval(&omega, 50).is_err());
    assert_eq!(eval(&plus(num(1), num(2)), 1), Ok(num(3)));
    assert!(eval(&plus(plus(num(1), num(2)), num(3)), 1).is_err());
}

#[test]
fn type_error_messages() {
    let msg = type_check(&plus(num(1), Expr::Unit)).unwrap_err();
    assert!(msg.contains("Type mismatch"));
    let msg = type_check(&var("unknown_name")).unwrap_err();
    assert_eq!(msg, "Unbound variable unknown_name");
    let msg = type_check(&proj(num(1), L)).unwrap_err();
    assert!(msg.contains("Expected a product"));
}

#[test]
fn types_of_constructs() {
    let e = tylam("a", lam("x", tvar("a"), var("x")));
    assert_eq!(type_check(&e).unwrap(), forall_t("a", fun_t(tvar("a"), tvar("a"))));
    let inst = tyapp(e, Type::Bool);
    assert_eq!(type_check(&inst).unwrap(), fun_t(Type::Bool, Type::Bool));
    let u = unfold(obj("a"));
    let t = type_check(&u).unwrap();
    assert!(ty_alpha(&t, &prod_t(Type::Num, fun_t(obj_t("a"), Type::Num))));
}

#[test]
fn steps_keep_the_type_of_first_order_terms() {
    let terms = [
        complex_arithmetic_term(),
        complex_relop_term(),
        proj(pair(if_(Expr::False, num(1), plus(num(2), num(3))), Expr::Unit), L),
    ];
    for t in terms {
        let ty = type_check(&t).unwrap();
        let mut cur = t;
        while let Ok(Outcome::Step(next)) = try_step(&cur) {
            assert_eq!(type_check(&next).unwrap(), ty);
            cur = next;
        }
    }
}

#[test]
fn type_application_step_does_not_instantiate() {
    // the body of a type abstraction keeps its own type variable after the step
    let e = tyapp(tylam("a", lam("x", tvar("a"), var("x"))), Type::Num);
    assert_eq!(type_check(&e).unwrap(), fun_t(Type::Num, Type::Num));
    match try_step(&e) {
        Ok(Outcome::Step(next)) => {
            assert_eq!(type_check(&next).unwrap(), fun_t(tvar("a"), tvar("a")));
        }
        _ => panic!("expected a step"),
    }
}

#[test]
fn indices_count_binders_of_both_kinds() {
    // `fun (x:num) -> tyfun a -> x`: the type binder sits between `x` and its binder
    let e = lam("x", Type::Num, tylam("a", var("x")));
    assert_eq!(e.to_debruijn(), lam("_", Type::Num, tylam("_", var("1"))));
    // `tyfun a -> fun (x:num) -> fun (y:a) -> y`: the annotation `a` lies under `x`
    let e = tylam("a", lam("x", Type::Num, lam("y", tvar("a"), var("y"))));
    assert_eq!(e.to_debruijn(), tylam("_", lam("_", Type::Num, lam("_", tvar("1"), var("0")))));
    // `import (m, a) = e in body`: `m` is bound before `a`
    let e = import("m", "a", var("e"), pair(var("m"), lam("z", tvar("a"), var("z"))));
    assert_eq!(
        e.to_debruijn(),
        import("_", "_", var("e"), pair(var("1"), lam("_", tvar("0"), var("0"))))
    );
}

#[test]
fn alpha_equiv_compares_nameless_forms() {
    // a free variable named like an index has the same nameless form as the index
    let bound = lam("x", Type::Num, var("x"));
    let free = lam("x", Type::Num, var("0"));
    assert_eq!(bound.clone().to_debruijn(), free.clone().to_debruijn());
    assert!(alpha(&bound, &free));
    assert!(alpha(&lam("x", Type::Num, var("0")), &lam("y", Type::Num, var("0"))));
    assert!(!alpha(&lam("x", Type::Num, var("x")), &lam("x", Type::Num, var("1"))));
}

#[test]
fn errors_pass_up_unchanged() {
    let inner = type_check(&var("lost")).unwrap_err();
    let wrapped = lam("x", Type::Num, pair(num(1), plus(var("lost"), num(2))));
    assert_eq!(type_check(&wrapped).unwrap_err(), inner);
    let cond = if_(num(1), Expr::Unit, num(2));
    assert!(type_check(&cond).unwrap_err().contains("if condition"));
}

#[test]
fn unfold_and_import_leave_payloads_alone() {
    let payload = pair(num(7), Expr::True);
    match try_step(&unfold(fold(payload.clone(), obj_t("a")))) {
        Ok(Outcome::Step(e)) => assert_eq!(e, payload),
        _ => panic!("expected a step"),
    }
    for witness in [Type::Num, Type::Bool] {
        let m = export(num(5), witness, exists_t("b", tvar("b")));
        match try_step(&import("p", "t", m, plus(var("p"), num(1)))) {
            Ok(Outcome::Step(e)) => assert!(alpha(&e, &plus(num(5), num(1)))),
            _ => panic!("expected a step"),
        }
    }
}

use vstd::prelude::*;
use vstd::string::StrSliceExecFns;
use crate::ast::{Expr, Term, Ty, Type, Variable};

verus! {

// ----- association lists and binder stacks -----

/// The value bound to `v` in an association list; later entries shadow earlier ones.
pub open spec fn assoc<T>(m: Seq<(Seq<char>, T)>, v: Seq<char>) -> Option<T>
    decreases m.len(),
{
    if m.len() == 0 {
        None
    } else if m.last().0 == v {
        Some(m.last().1)
    } else {
        assoc(m.drop_last(), v)
    }
}

/// A binder stack holds one entry per enclosing binder, innermost last: the
/// bound name and whether it is a type variable (`true`) or a term variable.
/// The index of `v` of that kind is the number of entries, of either kind,
/// above its innermost binder.
pub open spec fn index_of(b: Seq<(Seq<char>, bool)>, v: Seq<char>, is_type: bool) -> Option<nat>
    decreases b.len(),
{
    if b.len() == 0 {
        None
    } else if b.last() == (v, is_type) {
        Some(0)
    } else {
        match index_of(b.drop_last(), v, is_type) {
            Some(n) => Some(n + 1),
            None => None,
        }
    }
}

pub open spec fn names(b: Seq<(Variable, bool)>) -> Seq<(Seq<char>, bool)> {
    b.map_values(|p: (Variable, bool)| (p.0@, p.1))
}

pub open spec fn ty_pairs(m: Seq<(Variable, Type)>) -> Seq<(Seq<char>, Ty)> {
    m.map_values(|p: (Variable, Type)| (p.0@, p.1@))
}

pub open spec fn expr_pairs(m: Seq<(Variable, Expr)>) -> Seq<(Seq<char>, Term)> {
    m.map_values(|p: (Variable, Expr)| (p.0@, p.1@))
}

proof fn lemma_assoc_at<T>(m: Seq<(Seq<char>, T)>, v: Seq<char>, i: int)
    requires
        0 <= i < m.len(),
        m[i].0 == v,
        forall|j: int| i < j < m.len() ==> m[j].0 != v,
    ensures
        assoc(m, v) == Some(m[i].1),
    decreases m.len(),
{
    if i < m.len() - 1 {
        lemma_assoc_at(m.drop_last(), v, i);
    }
}

proof fn lemma_assoc_none<T>(m: Seq<(Seq<char>, T)>, v: Seq<char>)
    requires
        forall|j: int| 0 <= j < m.len() ==> m[j].0 != v,
    ensures
        assoc(m, v) is None,
    decreases m.len(),
{
    if m.len() > 0 {
        lemma_assoc_none(m.drop_last(), v);
    }
}

proof fn lemma_index_at(b: Seq<(Seq<char>, bool)>, v: Seq<char>, k: bool, i: int)
    requires
        0 <= i < b.len(),
        b[i] == (v, k),
        forall|j: int| i < j < b.len() ==> b[j] != (v, k),
    ensures
        index_of(b, v, k) == Some((b.len() - 1 - i) as nat),
    decreases b.len(),
{
    if i < b.len() - 1 {
        lemma_index_at(b.drop_last(), v, k, i);
    }
}

proof fn lemma_index_none(b: Seq<(Seq<char>, bool)>, v: Seq<char>, k: bool)
    requires
        forall|j: int| 0 <= j < b.len() ==> b[j] != (v, k),
    ensures
        index_of(b, v, k) is None,
    decreases b.len(),
{
    if b.len() > 0 {
        lemma_index_none(b.drop_last(), v, k);
    }
}

/// The position of the last entry whose key is `v`.
fn find_last<T>(m: &Vec<(Variable, T)>, v: &Variable) -> (r: Option<usize>)
    ensures
        match r {
            Some(i) => i < m@.len() && m@[i as int].0@ == v@ && forall|j: int|
                i < j < m@.len() ==> m@[j].0@ != v@,
            None => forall|j: int| 0 <= j < m@.len() ==> m@[j].0@ != v@,
        },
{
    let mut i: usize = m.len();
    while i > 0
        invariant
            i <= m@.len(),
            forall|j: int| i <= j < m@.len() ==> m@[j].0@ != v@,
        decreases i,
    {
        if m[i - 1].0.same(v) {
            return Some(i - 1);
        }
        i = i - 1;
    }
    None
}

/// The position of the innermost binder of `v` of kind `k`.
fn find_bound(b: &Vec<(Variable, bool)>, v: &Variable, k: bool) -> (r: Option<usize>)
    ensures
        match r {
            Some(i) => i < b@.len() && names(b@)[i as int] == (v@, k) && forall|j: int|
                i < j < b@.len() ==> names(b@)[j] != (v@, k),
            None => forall|j: int| 0 <= j < b@.len() ==> names(b@)[j] != (v@, k),
        },
{
    let mut i: usize = b.len();
    while i > 0
        invariant
            i <= b@.len(),
            forall|j: int| i <= j < b@.len() ==> names(b@)[j] != (v@, k),
        decreases i,
    {
        if b[i - 1].1 == k && b[i - 1].0.same(v) {
            return Some(i - 1);
        }
        i = i - 1;
    }
    None
}

fn lookup_bound(b: &Vec<(Variable, bool)>, v: &Variable, is_type: bool) -> (r: Option<usize>)
    ensures
        match r {
            Some(k) => index_of(names(b@), v@, is_type) == Some(k as nat),
            None => index_of(names(b@), v@, is_type) is None,
        },
{
    let found = find_bound(b, v, is_type);
    match found {
        Some(i) => {
            proof {
                lemma_index_at(names(b@), v@, is_type, i as int);
            }
            Some(b.len() - 1 - i)
        },
        None => {
            proof {
                lemma_index_none(names(b@), v@, is_type);
            }
            None
        },
    }
}

// ----- names, fresh names and index names -----

pub open spec fn max_nat(a: nat, b: nat) -> nat {
    if a >= b {
        a
    } else {
        b
    }
}

/// The length of the longest name that occurs in a type.
pub open spec fn ty_width(t: Ty) -> nat
    decreases t,
{
    match t {
        Ty::Num => 0,
        Ty::Bool => 0,
        Ty::Unit => 0,
        Ty::Var(v) => v.len(),
        Ty::Fn(l, r) => max_nat(ty_width(*l), ty_width(*r)),
        Ty::Product(l, r) => max_nat(ty_width(*l), ty_width(*r)),
        Ty::Sum(l, r) => max_nat(ty_width(*l), ty_width(*r)),
        Ty::Rec(a, b) => max_nat(a.len(), ty_width(*b)),
        Ty::Forall(a, b) => max_nat(a.len(), ty_width(*b)),
        Ty::Exists(a, b) => max_nat(a.len(), ty_width(*b)),
    }
}

/// The longest name that occurs in the replacements of a type substitution.
pub open spec fn ty_map_width(m: Seq<(Seq<char>, Ty)>) -> nat
    decreases m.len(),
{
    if m.len() == 0 {
        0
    } else {
        max_nat(ty_map_width(m.drop_last()), ty_width(m.last().1))
    }
}

/// `base` followed by enough underscores to be longer than `w` characters.
pub open spec fn fresh_name(base: Seq<char>, w: nat) -> Seq<char> {
    let k: nat = if base.len() > w {
        1
    } else {
        (w + 1 - base.len()) as nat
    };
    base + Seq::new(k, |i: int| '_')
}

/// The name that marks a binding site in the nameless form.
pub open spec fn binder_mark() -> Seq<char> {
    seq!['_']
}

pub open spec fn digit(d: nat) -> char {
    if d == 0 {
        '0'
    } else if d == 1 {
        '1'
    } else if d == 2 {
        '2'
    } else if d == 3 {
        '3'
    } else if d == 4 {
        '4'
    } else if d == 5 {
        '5'
    } else if d == 6 {
        '6'
    } else if d == 7 {
        '7'
    } else if d == 8 {
        '8'
    } else {
        '9'
    }
}

/// The decimal digits of `n`: the name that stands for a bound occurrence in
/// the nameless form.
pub open spec fn index_name(n: nat) -> Seq<char>
    decreases n,
{
    if n < 10 {
        seq![digit(n)]
    } else {
        index_name(n / 10).push(digit(n % 10))
    }
}

/// Relies on String::push: the character is appended at the end.
#[verifier::external_body]
fn push_char(s: &mut String, c: char)
    ensures
        final(s)@ == old(s)@.push(c),
{
    s.push(c);
}

fn digit_char(d: usize) -> (c: char)
    requires
        d < 10,
    ensures
        c == digit(d as nat),
{
    if d == 0 {
        '0'
    } else if d == 1 {
        '1'
    } else if d == 2 {
        '2'
    } else if d == 3 {
        '3'
    } else if d == 4 {
        '4'
    } else if d == 5 {
        '5'
    } else if d == 6 {
        '6'
    } else if d == 7 {
        '7'
    } else if d == 8 {
        '8'
    } else {
        '9'
    }
}

fn make_index_name(n: usize) -> (r: Variable)
    ensures
        r@ == index_name(n as nat),
    decreases n,
{
    if n < 10 {
        let mut s = String::new();
        push_char(&mut s, digit_char(n));
        proof {
            assert(s@ =~= seq![digit(n as nat)]);
        }
        Variable(s)
    } else {
        let Variable(mut s) = make_index_name(n / 10);
        push_char(&mut s, digit_char(n % 10));
        Variable(s)
    }
}

fn make_binder_mark() -> (r: Variable)
    ensures
        r@ == binder_mark(),
{
    let mut s = String::new();
    push_char(&mut s, '_');
    proof {
        assert(s@ =~= binder_mark());
    }
    Variable(s)
}

/// Appends the characters of `v` to `s`.
pub(crate) fn append_name(s: &mut String, v: &Variable)
    ensures
        final(s)@ == old(s)@ + v@,
{
    let ghost s0 = s@;
    let len = name_len(v);
    let text = v.0.as_str();
    let mut i: usize = 0;
    while i < len
        invariant
            i <= len,
            len == v@.len(),
            text@ == v@,
            s@ =~= s0 + v@.subrange(0, i as int),
        decreases len - i,
    {
        push_char(s, text.get_char(i));
        i = i + 1;
    }
    proof {
        assert(v@.subrange(0, i as int) =~= v@);
    }
}

fn name_len(v: &Variable) -> (r: usize)
    ensures
        r as nat == v@.len(),
{
    v.0.as_str().unicode_len()
}

/// A name built from `base` that is longer than `w` characters.
fn fresh(base: &Variable, w: usize) -> (r: Variable)
    ensures
        r@ == fresh_name(base@, w as nat),
{
    let len = name_len(base);
    let mut s = base.0.clone();
    push_char(&mut s, '_');
    let extra: usize = if len > w {
        0
    } else {
        w - len
    };
    let mut i: usize = 0;
    while i < extra
        invariant
            i <= extra,
            s@ =~= base@ + Seq::new((i + 1) as nat, |j: int| '_'),
        decreases extra - i,
    {
        push_char(&mut s, '_');
        i = i + 1;
    }
    proof {
        let k: nat = if base@.len() > w as nat {
            1
        } else {
            (w as nat + 1 - base@.len()) as nat
        };
        assert(s@ =~= base@ + Seq::new(k, |j: int| '_'));
    }
    Variable(s)
}

fn max_usize(a: usize, b: usize) -> (r: usize)
    ensures
        r as nat == max_nat(a as nat, b as nat),
{
    if a >= b {
        a
    } else {
        b
    }
}

fn ty_width_exec(t: &Type) -> (r: usize)
    ensures
        r as nat == ty_width(t@),
    decreases t,
{
    match t {
        Type::Num | Type::Bool | Type::Unit => 0,
        Type::Var(v) => name_len(v),
        Type::Fn { arg, ret } => max_usize(ty_width_exec(arg), ty_width_exec(ret)),
        Type::Product { left, right } => max_usize(ty_width_exec(left), ty_width_exec(right)),
        Type::Sum { left, right } => max_usize(ty_width_exec(left), ty_width_exec(right)),
        Type::Rec { a, tau } => max_usize(name_len(a), ty_width_exec(tau)),
        Type::Forall { a, tau } => max_usize(name_len(a), ty_width_exec(tau)),
        Type::Exists { a, tau } => max_usize(name_len(a), ty_width_exec(tau)),
    }
}

fn ty_map_width_exec(m: &Vec<(Variable, Type)>) -> (r: usize)
    ensures
        r as nat == ty_map_width(ty_pairs(m@)),
{
    let mut r: usize = 0;
    let mut i: usize = 0;
    while i < m.len()
        invariant
            i <= m@.len(),
            r as nat == ty_map_width(ty_pairs(m@).subrange(0, i as int)),
        decreases m@.len() - i,
    {
        proof {
            assert(ty_pairs(m@).subrange(0, i + 1).drop_last() =~= ty_pairs(m@).subrange(0, i as int));
        }
        r = max_usize(r, ty_width_exec(&m[i].1));
        i = i + 1;
    }
    proof {
        assert(ty_pairs(m@).subrange(0, i as int) =~= ty_pairs(m@));
    }
    r
}

// ----- types: nameless form and substitution -----

/// The nameless form of a type under the binder stack `b`: bound occurrences
/// become their binder's index, binding sites lose their names, free
/// occurrences are kept.
pub open spec fn ty_canon(t: Ty, b: Seq<(Seq<char>, bool)>) -> Ty
    decreases t,
{
    match t {
        Ty::Num => Ty::Num,
        Ty::Bool => Ty::Bool,
        Ty::Unit => Ty::Unit,
        Ty::Var(v) => match index_of(b, v, true) {
            Some(n) => Ty::Var(index_name(n)),
            None => Ty::Var(v),
        },
        Ty::Fn(l, r) => Ty::Fn(Box::new(ty_canon(*l, b)), Box::new(ty_canon(*r, b))),
        Ty::Product(l, r) => Ty::Product(Box::new(ty_canon(*l, b)), Box::new(ty_canon(*r, b))),
        Ty::Sum(l, r) => Ty::Sum(Box::new(ty_canon(*l, b)), Box::new(ty_canon(*r, b))),
        Ty::Rec(a, body) => Ty::Rec(binder_mark(), Box::new(ty_canon(*body, b.push((a, true))))),
        Ty::Forall(a, body) => Ty::Forall(binder_mark(), Box::new(ty_canon(*body, b.push((a, true))))),
        Ty::Exists(a, body) => Ty::Exists(binder_mark(), Box::new(ty_canon(*body, b.push((a, true))))),
    }
}

/// Alpha-equivalence of types: equal nameless forms.
pub open spec fn ty_alpha(t1: Ty, t2: Ty) -> bool {
    ty_canon(t1, seq![]) == ty_canon(t2, seq![])
}

/// Simultaneous capture-avoiding substitution on a type. Every binder is
/// renamed to a name longer than any name in the type or in the replacements.
pub open spec fn ty_subst(t: Ty, m: Seq<(Seq<char>, Ty)>) -> Ty
    decreases t,
{
    let w = max_nat(ty_width(t), ty_map_width(m));
    match t {
        Ty::Num => Ty::Num,
        Ty::Bool => Ty::Bool,
        Ty::Unit => Ty::Unit,
        Ty::Var(v) => match assoc(m, v) {
            Some(r) => r,
            None => Ty::Var(v),
        },
        Ty::Fn(l, r) => Ty::Fn(Box::new(ty_subst(*l, m)), Box::new(ty_subst(*r, m))),
        Ty::Product(l, r) => Ty::Product(Box::new(ty_subst(*l, m)), Box::new(ty_subst(*r, m))),
        Ty::Sum(l, r) => Ty::Sum(Box::new(ty_subst(*l, m)), Box::new(ty_subst(*r, m))),
        Ty::Rec(a, body) => {
            let a2 = fresh_name(a, w);
            Ty::Rec(a2, Box::new(ty_subst(*body, m.push((a, Ty::Var(a2))))))
        },
        Ty::Forall(a, body) => {
            let a2 = fresh_name(a, w);
            Ty::Forall(a2, Box::new(ty_subst(*body, m.push((a, Ty::Var(a2))))))
        },
        Ty::Exists(a, body) => {
            let a2 = fresh_name(a, w);
            Ty::Exists(a2, Box::new(ty_subst(*body, m.push((a, Ty::Var(a2))))))
        },
    }
}

fn ty_canon_exec(t: &Type, b: &mut Vec<(Variable, bool)>) -> (r: Type)
    ensures
        r@ == ty_canon(t@, names(old(b)@)),
        final(b)@ == old(b)@,
    decreases t, 0nat,
{
    match t {
        Type::Num => Type::Num,
        Type::Bool => Type::Bool,
        Type::Unit => Type::Unit,
        Type::Var(v) => match lookup_bound(b, v, true) {
            Some(n) => Type::Var(make_index_name(n)),
            None => Type::Var(v.copy()),
        },
        Type::Fn { arg, ret } => {
            let l = ty_canon_exec(arg, b);
            let r = ty_canon_exec(ret, b);
            Type::Fn { arg: Box::new(l), ret: Box::new(r) }
        },
        Type::Product { left, right } => {
            let l = ty_canon_exec(left, b);
            let r = ty_canon_exec(right, b);
            Type::Product { left: Box::new(l), right: Box::new(r) }
        },
        Type::Sum { left, right } => {
            let l = ty_canon_exec(left, b);
            let r = ty_canon_exec(right, b);
            Type::Sum { left: Box::new(l), right: Box::new(r) }
        },
        Type::Rec { a, tau } => {
            let body = ty_canon_under(a, tau, b);
            Type::Rec { a: make_binder_mark(), tau: Box::new(body) }
        },
        Type::Forall { a, tau } => {
            let body = ty_canon_under(a, tau, b);
            Type::Forall { a: make_binder_mark(), tau: Box::new(body) }
        },
        Type::Exists { a, tau } => {
            let body = ty_canon_under(a, tau, b);
            Type::Exists { a: make_binder_mark(), tau: Box::new(body) }
        },
    }
}

/// The nameless form of a binder's body, with `a` bound innermost.
fn ty_canon_under(a: &Variable, body: &Type, b: &mut Vec<(Variable, bool)>) -> (r: Type)
    ensures
        r@ == ty_canon(body@, names(old(b)@).push((a@, true))),
        final(b)@ == old(b)@,
    decreases body, 1nat,
{
    let ghost b0 = b@;
    b.push((a.copy(), true));
    proof {
        assert(names(b@) =~= names(b0).push((a@, true)));
    }
    let r = ty_canon_exec(body, b);
    b.pop();
    proof {
        assert(b@ =~= b0);
    }
    r
}

fn ty_subst_exec(t: &Type, m: &mut Vec<(Variable, Type)>) -> (r: Type)
    ensures
        r@ == ty_subst(t@, ty_pairs(old(m)@)),
        final(m)@ == old(m)@,
    decreases t, 0nat,
{
    match t {
        Type::Num => Type::Num,
        Type::Bool => Type::Bool,
        Type::Unit => Type::Unit,
        Type::Var(v) => match find_last(m, v) {
            Some(i) => {
                proof {
                    lemma_assoc_at(ty_pairs(m@), v@, i as int);
                }
                m[i].1.copy()
            },
            None => {
                proof {
                    lemma_assoc_none(ty_pairs(m@), v@);
                }
                Type::Var(v.copy())
            },
        },
        Type::Fn { arg, ret } => {
            let l = ty_subst_exec(arg, m);
            let r = ty_subst_exec(ret, m);
            Type::Fn { arg: Box::new(l), ret: Box::new(r) }
        },
        Type::Product { left, right } => {
            let l = ty_subst_exec(left, m);
            let r = ty_subst_exec(right, m);
            Type::Product { left: Box::new(l), right: Box::new(r) }
        },
        Type::Sum { left, right } => {
            let l = ty_subst_exec(left, m);
            let r = ty_subst_exec(right, m);
            Type::Sum { left: Box::new(l), right: Box::new(r) }
        },
        Type::Rec { a, tau } => {
            let w = max_usize(ty_width_exec(t), ty_map_width_exec(m));
            let a2 = fresh(a, w);
            let body = ty_subst_under(a, &a2, tau, m);
            Type::Rec { a: a2, tau: Box::new(body) }
        },
        Type::Forall { a, tau } => {
            let w = max_usize(ty_width_exec(t), ty_map_width_exec(m));
            let a2 = fresh(a, w);
            let body = ty_subst_under(a, &a2, tau, m);
            Type::Forall { a: a2, tau: Box::new(body) }
        },
        Type::Exists { a, tau } => {
            let w = max_usize(ty_width_exec(t), ty_map_width_exec(m));
            let a2 = fresh(a, w);
            let body = ty_subst_under(a, &a2, tau, m);
            Type::Exists { a: a2, tau: Box::new(body) }
        },
    }
}

/// Substitution in a binder's body, with `a` renamed to `a2`.
fn ty_subst_under(a: &Variable, a2: &Variable, body: &Type, m: &mut Vec<(Variable, Type)>) -> (r: Type)
    ensures
        r@ == ty_subst(body@, ty_pairs(old(m)@).push((a@, Ty::Var(a2@)))),
        final(m)@ == old(m)@,
    decreases body, 1nat,
{
    let ghost m0 = m@;
    m.push((a.copy(), Type::Var(a2.copy())));
    proof {
        assert(ty_pairs(m@) =~= ty_pairs(m0).push((a@, Ty::Var(a2@))));
    }
    let r = ty_subst_exec(body, m);
    m.pop();
    proof {
        assert(m@ =~= m0);
    }
    r
}


// ----- terms: nameless form and substitution -----

/// The length of the longest name that occurs in a term, its annotations included.
pub open spec fn term_width(t: Term) -> nat
    decreases t,
{
    match t {
        Term::Num(_) => 0,
        Term::True => 0,
        Term::False => 0,
        Term::Unit => 0,
        Term::Var(v) => v.len(),
        Term::Addop(_, l, r) => max_nat(term_width(*l), term_width(*r)),
        Term::Mulop(_, l, r) => max_nat(term_width(*l), term_width(*r)),
        Term::Relop(_, l, r) => max_nat(term_width(*l), term_width(*r)),
        Term::And(l, r) => max_nat(term_width(*l), term_width(*r)),
        Term::Or(l, r) => max_nat(term_width(*l), term_width(*r)),
        Term::App(l, r) => max_nat(term_width(*l), term_width(*r)),
        Term::Pair(l, r) => max_nat(term_width(*l), term_width(*r)),
        Term::If(c, l, r) => max_nat(term_width(*c), max_nat(term_width(*l), term_width(*r))),
        Term::Lam(x, tau, e) => max_nat(x.len(), max_nat(ty_width(tau), term_width(*e))),
        Term::Fix(x, tau, e) => max_nat(x.len(), max_nat(ty_width(tau), term_width(*e))),
        Term::Project(e, _) => term_width(*e),
        Term::Unfold(e) => term_width(*e),
        Term::Inject(e, _, tau) => max_nat(term_width(*e), ty_width(tau)),
        Term::TyApp(e, tau) => max_nat(term_width(*e), ty_width(tau)),
        Term::Fold(e, tau) => max_nat(term_width(*e), ty_width(tau)),
        Term::Export(e, t1, t2) => max_nat(term_width(*e), max_nat(ty_width(t1), ty_width(t2))),
        Term::Case(e, xl, el, xr, er) => max_nat(
            term_width(*e),
            max_nat(max_nat(xl.len(), term_width(*el)), max_nat(xr.len(), term_width(*er))),
        ),
        Term::TyLam(a, e) => max_nat(a.len(), term_width(*e)),
        Term::Import(x, a, m, b) => max_nat(
            max_nat(x.len(), a.len()),
            max_nat(term_width(*m), term_width(*b)),
        ),
    }
}

/// The longest name that occurs in the replacements of a term substitution.
pub open spec fn term_map_width(m: Seq<(Seq<char>, Term)>) -> nat
    decreases m.len(),
{
    if m.len() == 0 {
        0
    } else {
        max_nat(term_map_width(m.drop_last()), term_width(m.last().1))
    }
}

/// The nameless form of a term under the binder stack `b`, which term and
/// type binders share; annotations are put in nameless form under the same stack.
pub open spec fn term_canon(t: Term, b: Seq<(Seq<char>, bool)>) -> Term
    decreases t,
{
    match t {
        Term::Num(n) => Term::Num(n),
        Term::True => Term::True,
        Term::False => Term::False,
        Term::Unit => Term::Unit,
        Term::Var(v) => match index_of(b, v, false) {
            Some(n) => Term::Var(index_name(n)),
            None => Term::Var(v),
        },
        Term::Addop(o, l, r) => Term::Addop(o, Box::new(term_canon(*l, b)), Box::new(term_canon(*r, b))),
        Term::Mulop(o, l, r) => Term::Mulop(o, Box::new(term_canon(*l, b)), Box::new(term_canon(*r, b))),
        Term::Relop(o, l, r) => Term::Relop(o, Box::new(term_canon(*l, b)), Box::new(term_canon(*r, b))),
        Term::And(l, r) => Term::And(Box::new(term_canon(*l, b)), Box::new(term_canon(*r, b))),
        Term::Or(l, r) => Term::Or(Box::new(term_canon(*l, b)), Box::new(term_canon(*r, b))),
        Term::App(l, r) => Term::App(Box::new(term_canon(*l, b)), Box::new(term_canon(*r, b))),
        Term::Pair(l, r) => Term::Pair(Box::new(term_canon(*l, b)), Box::new(term_canon(*r, b))),
        Term::If(c, l, r) => Term::If(
            Box::new(term_canon(*c, b)),
            Box::new(term_canon(*l, b)),
            Box::new(term_canon(*r, b)),
        ),
        Term::Lam(x, tau, e) => Term::Lam(
            binder_mark(),
            ty_canon(tau, b),
            Box::new(term_canon(*e, b.push((x, false)))),
        ),
        Term::Fix(x, tau, e) => Term::Fix(
            binder_mark(),
            ty_canon(tau, b),
            Box::new(term_canon(*e, b.push((x, false)))),
        ),
        Term::Project(e, d) => Term::Project(Box::new(term_canon(*e, b)), d),
        Term::Unfold(e) => Term::Unfold(Box::new(term_canon(*e, b))),
        Term::Inject(e, d, tau) => Term::Inject(Box::new(term_canon(*e, b)), d, ty_canon(tau, b)),
        Term::TyApp(e, tau) => Term::TyApp(Box::new(term_canon(*e, b)), ty_canon(tau, b)),
        Term::Fold(e, tau) => Term::Fold(Box::new(term_canon(*e, b)), ty_canon(tau, b)),
        Term::Export(e, t1, t2) => Term::Export(
            Box::new(term_canon(*e, b)),
            ty_canon(t1, b),
            ty_canon(t2, b),
        ),
        Term::Case(e, xl, el, xr, er) => Term::Case(
            Box::new(term_canon(*e, b)),
            binder_mark(),
            Box::new(term_canon(*el, b.push((xl, false)))),
            binder_mark(),
            Box::new(term_canon(*er, b.push((xr, false)))),
        ),
        Term::TyLam(a, e) => Term::TyLam(binder_mark(), Box::new(term_canon(*e, b.push((a, true))))),
        Term::Import(x, a, m, body) => Term::Import(
            binder_mark(),
            binder_mark(),
            Box::new(term_canon(*m, b)),
            Box::new(term_canon(*body, b.push((x, false)).push((a, true)))),
        ),
    }
}

/// Simultaneous capture-avoiding substitution on a term: `mt` replaces term
/// variables, `my` replaces type variables in annotations. Every binder is
/// renamed to a name longer than any name in the term or in the replacements.
pub open spec fn term_subst(t: Term, mt: Seq<(Seq<char>, Term)>, my: Seq<(Seq<char>, Ty)>) -> Term
    decreases t,
{
    let w = max_nat(term_width(t), max_nat(term_map_width(mt), ty_map_width(my)));
    match t {
        Term::Num(n) => Term::Num(n),
        Term::True => Term::True,
        Term::False => Term::False,
        Term::Unit => Term::Unit,
        Term::Var(v) => match assoc(mt, v) {
            Some(r) => r,
            None => Term::Var(v),
        },
        Term::Addop(o, l, r) => Term::Addop(o, Box::new(term_subst(*l, mt, my)), Box::new(term_subst(*r, mt, my))),
        Term::Mulop(o, l, r) => Term::Mulop(o, Box::new(term_subst(*l, mt, my)), Box::new(term_subst(*r, mt, my))),
        Term::Relop(o, l, r) => Term::Relop(o, Box::new(term_subst(*l, mt, my)), Box::new(term_subst(*r, mt, my))),
        Term::And(l, r) => Term::And(Box::new(term_subst(*l, mt, my)), Box::new(term_subst(*r, mt, my))),
        Term::Or(l, r) => Term::Or(Box::new(term_subst(*l, mt, my)), Box::new(term_subst(*r, mt, my))),
        Term::App(l, r) => Term::App(Box::new(term_subst(*l, mt, my)), Box::new(term_subst(*r, mt, my))),
        Term::Pair(l, r) => Term::Pair(Box::new(term_subst(*l, mt, my)), Box::new(term_subst(*r, mt, my))),
        Term::If(c, l, r) => Term::If(
            Box::new(term_subst(*c, mt, my)),
            Box::new(term_subst(*l, mt, my)),
            Box::new(term_subst(*r, mt, my)),
        ),
        Term::Lam(x, tau, e) => {
            let x2 = fresh_name(x, w);
            Term::Lam(x2, ty_subst(tau, my), Box::new(term_subst(*e, mt.push((x, Term::Var(x2))), my)))
        },
        Term::Fix(x, tau, e) => {
            let x2 = fresh_name(x, w);
            Term::Fix(x2, ty_subst(tau, my), Box::new(term_subst(*e, mt.push((x, Term::Var(x2))), my)))
        },
        Term::Project(e, d) => Term::Project(Box::new(term_subst(*e, mt, my)), d),
        Term::Unfold(e) => Term::Unfold(Box::new(term_subst(*e, mt, my))),
        Term::Inject(e, d, tau) => Term::Inject(Box::new(term_subst(*e, mt, my)), d, ty_subst(tau, my)),
        Term::TyApp(e, tau) => Term::TyApp(Box::new(term_subst(*e, mt, my)), ty_subst(tau, my)),
        Term::Fold(e, tau) => Term::Fold(Box::new(term_subst(*e, mt, my)), ty_subst(tau, my)),
        Term::Export(e, t1, t2) => Term::Export(
            Box::new(term_subst(*e, mt, my)),
            ty_subst(t1, my),
            ty_subst(t2, my),
        ),
        Term::Case(e, xl, el, xr, er) => {
            let xl2 = fresh_name(xl, w);
            let xr2 = fresh_name(xr, w);
            Term::Case(
                Box::new(term_subst(*e, mt, my)),
                xl2,
                Box::new(term_subst(*el, mt.push((xl, Term::Var(xl2))), my)),
                xr2,
                Box::new(term_subst(*er, mt.push((xr, Term::Var(xr2))), my)),
            )
        },
        Term::TyLam(a, e) => {
            let a2 = fresh_name(a, w);
            Term::TyLam(a2, Box::new(term_subst(*e, mt, my.push((a, Ty::Var(a2))))))
        },
        Term::Import(x, a, m, b) => {
            let x2 = fresh_name(x, w);
            let a2 = fresh_name(a, w);
            Term::Import(
                x2,
                a2,
                Box::new(term_subst(*m, mt, my)),
                Box::new(term_subst(*b, mt.push((x, Term::Var(x2))), my.push((a, Ty::Var(a2))))),
            )
        },
    }
}

fn expr_width_exec(t: &Expr) -> (r: usize)
    ensures
        r as nat == term_width(t@),
    decreases t,
{
    match t {
        Expr::Num(_) | Expr::True | Expr::False | Expr::Unit => 0,
        Expr::Var(v) => name_len(v),
        Expr::Addop { left, right, .. } => max_usize(expr_width_exec(left), expr_width_exec(right)),
        Expr::Mulop { left, right, .. } => max_usize(expr_width_exec(left), expr_width_exec(right)),
        Expr::Relop { left, right, .. } => max_usize(expr_width_exec(left), expr_width_exec(right)),
        Expr::And { left, right } => max_usize(expr_width_exec(left), expr_width_exec(right)),
        Expr::Or { left, right } => max_usize(expr_width_exec(left), expr_width_exec(right)),
        Expr::App { lam, arg } => max_usize(expr_width_exec(lam), expr_width_exec(arg)),
        Expr::Pair { left, right } => max_usize(expr_width_exec(left), expr_width_exec(right)),
        Expr::If { cond, then_, else_ } => max_usize(
            expr_width_exec(cond),
            max_usize(expr_width_exec(then_), expr_width_exec(else_)),
        ),
        Expr::Lam { x, tau, e } => max_usize(name_len(x), max_usize(ty_width_exec(tau), expr_width_exec(e))),
        Expr::Fix { x, tau, e } => max_usize(name_len(x), max_usize(ty_width_exec(tau), expr_width_exec(e))),
        Expr::Project { e, .. } => expr_width_exec(e),
        Expr::Unfold(e) => expr_width_exec(e),
        Expr::Inject { e, tau, .. } => max_usize(expr_width_exec(e), ty_width_exec(tau)),
        Expr::TyApp { e, tau } => max_usize(expr_width_exec(e), ty_width_exec(tau)),
        Expr::Fold { e, tau } => max_usize(expr_width_exec(e), ty_width_exec(tau)),
        Expr::Export { e, tau_adt, tau_mod } => max_usize(
            expr_width_exec(e),
            max_usize(ty_width_exec(tau_adt), ty_width_exec(tau_mod)),
        ),
        Expr::Case { e, xleft, eleft, xright, eright } => max_usize(
            expr_width_exec(e),
            max_usize(
                max_usize(name_len(xleft), expr_width_exec(eleft)),
                max_usize(name_len(xright), expr_width_exec(eright)),
            ),
        ),
        Expr::TyLam { a, e } => max_usize(name_len(a), expr_width_exec(e)),
        Expr::Import { x, a, e_mod, e_body } => max_usize(
            max_usize(name_len(x), name_len(a)),
            max_usize(expr_width_exec(e_mod), expr_width_exec(e_body)),
        ),
    }
}

fn expr_map_width_exec(m: &Vec<(Variable, Expr)>) -> (r: usize)
    ensures
        r as nat == term_map_width(expr_pairs(m@)),
{
    let mut r: usize = 0;
    let mut i: usize = 0;
    while i < m.len()
        invariant
            i <= m@.len(),
            r as nat == term_map_width(expr_pairs(m@).subrange(0, i as int)),
        decreases m@.len() - i,
    {
        proof {
            assert(expr_pairs(m@).subrange(0, i + 1).drop_last() =~= expr_pairs(m@).subrange(0, i as int));
        }
        r = max_usize(r, expr_width_exec(&m[i].1));
        i = i + 1;
    }
    proof {
        assert(expr_pairs(m@).subrange(0, i as int) =~= expr_pairs(m@));
    }
    r
}

fn subst_width(t: &Expr, mt: &Vec<(Variable, Expr)>, my: &Vec<(Variable, Type)>) -> (r: usize)
    ensures
        r as nat == max_nat(
            term_width(t@),
            max_nat(term_map_width(expr_pairs(mt@)), ty_map_width(ty_pairs(my@))),
        ),
{
    max_usize(expr_width_exec(t), max_usize(expr_map_width_exec(mt), ty_map_width_exec(my)))
}

fn expr_canon_exec(t: &Expr, b: &mut Vec<(Variable, bool)>) -> (r: Expr)
    ensures
        r@ == term_canon(t@, names(old(b)@)),
        final(b)@ == old(b)@,
    decreases t, 0nat,
{
    match t {
        Expr::Num(n) => Expr::Num(*n),
        Expr::True => Expr::True,
        Expr::False => Expr::False,
        Expr::Unit => Expr::Unit,
        Expr::Var(v) => match lookup_bound(b, v, false) {
            Some(n) => Expr::Var(make_index_name(n)),
            None => Expr::Var(v.copy()),
        },
        Expr::Addop { binop, left, right } => {
            let l = expr_canon_exec(left, b);
            let r = expr_canon_exec(right, b);
            Expr::Addop { binop: *binop, left: Box::new(l), right: Box::new(r) }
        },
        Expr::Mulop { binop, left, right } => {
            let l = expr_canon_exec(left, b);
            let r = expr_canon_exec(right, b);
            Expr::Mulop { binop: *binop, left: Box::new(l), right: Box::new(r) }
        },
        Expr::Relop { relop, left, right } => {
            let l = expr_canon_exec(left, b);
            let r = expr_canon_exec(right, b);
            Expr::Relop { relop: *relop, left: Box::new(l), right: Box::new(r) }
        },
        Expr::And { left, right } => {
            let l = expr_canon_exec(left, b);
            let r = expr_canon_exec(right, b);
            Expr::And { left: Box::new(l), right: Box::new(r) }
        },
        Expr::Or { left, right } => {
            let l = expr_canon_exec(left, b);
            let r = expr_canon_exec(right, b);
            Expr::Or { left: Box::new(l), right: Box::new(r) }
        },
        Expr::App { lam, arg } => {
            let l = expr_canon_exec(lam, b);
            let r = expr_canon_exec(arg, b);
            Expr::App { lam: Box::new(l), arg: Box::new(r) }
        },
        Expr::Pair { left, right } => {
            let l = expr_canon_exec(left, b);
            let r = expr_canon_exec(right, b);
            Expr::Pair { left: Box::new(l), right: Box::new(r) }
        },
        Expr::If { cond, then_, else_ } => {
            let c = expr_canon_exec(cond, b);
            let l = expr_canon_exec(then_, b);
            let r = expr_canon_exec(else_, b);
            Expr::If { cond: Box::new(c), then_: Box::new(l), else_: Box::new(r) }
        },
        Expr::Lam { x, tau, e } => {
            let tau2 = ty_canon_exec(tau, b);
            let e2 = expr_canon_under(Some(x), None, e, b);
            Expr::Lam { x: make_binder_mark(), tau: Box::new(tau2), e: Box::new(e2) }
        },
        Expr::Fix { x, tau, e } => {
            let tau2 = ty_canon_exec(tau, b);
            let e2 = expr_canon_under(Some(x), None, e, b);
            Expr::Fix { x: make_binder_mark(), tau: Box::new(tau2), e: Box::new(e2) }
        },
        Expr::Project { e, d } => Expr::Project { e: Box::new(expr_canon_exec(e, b)), d: *d },
        Expr::Unfold(e) => Expr::Unfold(Box::new(expr_canon_exec(e, b))),
        Expr::Inject { e, d, tau } => {
            let e2 = expr_canon_exec(e, b);
            Expr::Inject { e: Box::new(e2), d: *d, tau: Box::new(ty_canon_exec(tau, b)) }
        },
        Expr::TyApp { e, tau } => {
            let e2 = expr_canon_exec(e, b);
            Expr::TyApp { e: Box::new(e2), tau: Box::new(ty_canon_exec(tau, b)) }
        },
        Expr::Fold { e, tau } => {
            let e2 = expr_canon_exec(e, b);
            Expr::Fold { e: Box::new(e2), tau: Box::new(ty_canon_exec(tau, b)) }
        },
        Expr::Export { e, tau_adt, tau_mod } => {
            let e2 = expr_canon_exec(e, b);
            let t1 = ty_canon_exec(tau_adt, b);
            let t2 = ty_canon_exec(tau_mod, b);
            Expr::Export { e: Box::new(e2), tau_adt: Box::new(t1), tau_mod: Box::new(t2) }
        },
        Expr::Case { e, xleft, eleft, xright, eright } => {
            let e2 = expr_canon_exec(e, b);
            let l = expr_canon_under(Some(xleft), None, eleft, b);
            let r = expr_canon_under(Some(xright), None, eright, b);
            Expr::Case {
                e: Box::new(e2),
                xleft: make_binder_mark(),
                eleft: Box::new(l),
                xright: make_binder_mark(),
                eright: Box::new(r),
            }
        },
        Expr::TyLam { a, e } => {
            let e2 = expr_canon_under(None, Some(a), e, b);
            Expr::TyLam { a: make_binder_mark(), e: Box::new(e2) }
        },
        Expr::Import { x, a, e_mod, e_body } => {
            let m = expr_canon_exec(e_mod, b);
            let body = expr_canon_under(Some(x), Some(a), e_body, b);
            Expr::Import { x: make_binder_mark(), a: make_binder_mark(), e_mod: Box::new(m), e_body: Box::new(body) }
        },
    }
}

/// The stack `b` with the term binder `x` and then the type binder `a` pushed,
/// where given.
pub open spec fn push_binders(b: Seq<(Seq<char>, bool)>, x: Option<&Variable>, a: Option<&Variable>) -> Seq<(Seq<char>, bool)> {
    let b1 = match x {
        Some(x) => b.push((x@, false)),
        None => b,
    };
    match a {
        Some(a) => b1.push((a@, true)),
        None => b1,
    }
}

/// The nameless form of a binder's body, with the term binder `x` and the
/// type binder `a` (where given) bound innermost.
fn expr_canon_under(
    x: Option<&Variable>,
    a: Option<&Variable>,
    body: &Expr,
    b: &mut Vec<(Variable, bool)>,
) -> (r: Expr)
    ensures
        r@ == term_canon(body@, push_binders(names(old(b)@), x, a)),
        final(b)@ == old(b)@,
    decreases body, 1nat,
{
    let ghost b0 = b@;
    if let Some(x) = x {
        b.push((x.copy(), false));
    }
    let ghost b1 = b@;
    proof {
        assert(names(b1) =~= match x {
            Some(x) => names(b0).push((x@, false)),
            None => names(b0),
        });
    }
    if let Some(a) = a {
        b.push((a.copy(), true));
        proof {
            assert(names(b@) =~= names(b1).push((a@, true)));
        }
    }
    let r = expr_canon_exec(body, b);
    if a.is_some() {
        b.pop();
    }
    if x.is_some() {
        b.pop();
    }
    proof {
        assert(b@ =~= b0);
    }
    r
}

pub open spec fn push_term_rename(
    m: Seq<(Seq<char>, Term)>,
    r: Option<(&Variable, &Variable)>,
) -> Seq<(Seq<char>, Term)> {
    match r {
        Some((x, x2)) => m.push((x@, Term::Var(x2@))),
        None => m,
    }
}

pub open spec fn push_type_rename(
    m: Seq<(Seq<char>, Ty)>,
    r: Option<(&Variable, &Variable)>,
) -> Seq<(Seq<char>, Ty)> {
    match r {
        Some((a, a2)) => m.push((a@, Ty::Var(a2@))),
        None => m,
    }
}

fn expr_subst_exec(t: &Expr, mt: &mut Vec<(Variable, Expr)>, my: &mut Vec<(Variable, Type)>) -> (r: Expr)
    ensures
        r@ == term_subst(t@, expr_pairs(old(mt)@), ty_pairs(old(my)@)),
        final(mt)@ == old(mt)@,
        final(my)@ == old(my)@,
    decreases t, 0nat,
{
    match t {
        Expr::Num(n) => Expr::Num(*n),
        Expr::True => Expr::True,
        Expr::False => Expr::False,
        Expr::Unit => Expr::Unit,
        Expr::Var(v) => match find_last(mt, v) {
            Some(i) => {
                proof {
                    lemma_assoc_at(expr_pairs(mt@), v@, i as int);
                }
                mt[i].1.copy()
            },
            None => {
                proof {
                    lemma_assoc_none(expr_pairs(mt@), v@);
                }
                Expr::Var(v.copy())
            },
        },
        Expr::Addop { binop, left, right } => {
            let l = expr_subst_exec(left, mt, my);
            let r = expr_subst_exec(right, mt, my);
            Expr::Addop { binop: *binop, left: Box::new(l), right: Box::new(r) }
        },
        Expr::Mulop { binop, left, right } => {
            let l = expr_subst_exec(left, mt, my);
            let r = expr_subst_exec(right, mt, my);
            Expr::Mulop { binop: *binop, left: Box::new(l), right: Box::new(r) }
        },
        Expr::Relop { relop, left, right } => {
            let l = expr_subst_exec(left, mt, my);
            let r = expr_subst_exec(right, mt, my);
            Expr::Relop { relop: *relop, left: Box::new(l), right: Box::new(r) }
        },
        Expr::And { left, right } => {
            let l = expr_subst_exec(left, mt, my);
            let r = expr_subst_exec(right, mt, my);
            Expr::And { left: Box::new(l), right: Box::new(r) }
        },
        Expr::Or { left, right } => {
            let l = expr_subst_exec(left, mt, my);
            let r = expr_subst_exec(right, mt, my);
            Expr::Or { left: Box::new(l), right: Box::new(r) }
        },
        Expr::App { lam, arg } => {
            let l = expr_subst_exec(lam, mt, my);
            let r = expr_subst_exec(arg, mt, my);
            Expr::App { lam: Box::new(l), arg: Box::new(r) }
        },
        Expr::Pair { left, right } => {
            let l = expr_subst_exec(left, mt, my);
            let r = expr_subst_exec(right, mt, my);
            Expr::Pair { left: Box::new(l), right: Box::new(r) }
        },
        Expr::If { cond, then_, else_ } => {
            let c = expr_subst_exec(cond, mt, my);
            let l = expr_subst_exec(then_, mt, my);
            let r = expr_subst_exec(else_, mt, my);
            Expr::If { cond: Box::new(c), then_: Box::new(l), else_: Box::new(r) }
        },
        Expr::Lam { x, tau, e } => {
            let x2 = fresh(x, subst_width(t, mt, my));
            let tau2 = ty_subst_exec(tau, my);
            let e2 = expr_subst_under(Some((x, &x2)), None, e, mt, my);
            Expr::Lam { x: x2, tau: Box::new(tau2), e: Box::new(e2) }
        },
        Expr::Fix { x, tau, e } => {
            let x2 = fresh(x, subst_width(t, mt, my));
            let tau2 = ty_subst_exec(tau, my);
            let e2 = expr_subst_under(Some((x, &x2)), None, e, mt, my);
            Expr::Fix { x: x2, tau: Box::new(tau2), e: Box::new(e2) }
        },
        Expr::Project { e, d } => Expr::Project { e: Box::new(expr_subst_exec(e, mt, my)), d: *d },
        Expr::Unfold(e) => Expr::Unfold(Box::new(expr_subst_exec(e, mt, my))),
        Expr::Inject { e, d, tau } => {
            let e2 = expr_subst_exec(e, mt, my);
            Expr::Inject { e: Box::new(e2), d: *d, tau: Box::new(ty_subst_exec(tau, my)) }
        },
        Expr::TyApp { e, tau } => {
            let e2 = expr_subst_exec(e, mt, my);
            Expr::TyApp { e: Box::new(e2), tau: Box::new(ty_subst_exec(tau, my)) }
        },
        Expr::Fold { e, tau } => {
            let e2 = expr_subst_exec(e, mt, my);
            Expr::Fold { e: Box::new(e2), tau: Box::new(ty_subst_exec(tau, my)) }
        },
        Expr::Export { e, tau_adt, tau_mod } => {
            let e2 = expr_subst_exec(e, mt, my);
            let t1 = ty_subst_exec(tau_adt, my);
            let t2 = ty_subst_exec(tau_mod, my);
            Expr::Export { e: Box::new(e2), tau_adt: Box::new(t1), tau_mod: Box::new(t2) }
        },
        Expr::Case { e, xleft, eleft, xright, eright } => {
            let w = subst_width(t, mt, my);
            let xl2 = fresh(xleft, w);
            let xr2 = fresh(xright, w);
            let e2 = expr_subst_exec(e, mt, my);
            let l = expr_subst_under(Some((xleft, &xl2)), None, eleft, mt, my);
            let r = expr_subst_under(Some((xright, &xr2)), None, eright, mt, my);
            Expr::Case { e: Box::new(e2), xleft: xl2, eleft: Box::new(l), xright: xr2, eright: Box::new(r) }
        },
        Expr::TyLam { a, e } => {
            let a2 = fresh(a, subst_width(t, mt, my));
            let e2 = expr_subst_under(None, Some((a, &a2)), e, mt, my);
            Expr::TyLam { a: a2, e: Box::new(e2) }
        },
        Expr::Import { x, a, e_mod, e_body } => {
            let w = subst_width(t, mt, my);
            let x2 = fresh(x, w);
            let a2 = fresh(a, w);
            let m = expr_subst_exec(e_mod, mt, my);
            let b = expr_subst_under(Some((x, &x2)), Some((a, &a2)), e_body, mt, my);
            Expr::Import { x: x2, a: a2, e_mod: Box::new(m), e_body: Box::new(b) }
        },
    }
}

/// Substitution in a binder's body, with the term binder and the type binder
/// (where given) renamed.
fn expr_subst_under(
    x: Option<(&Variable, &Variable)>,
    a: Option<(&Variable, &Variable)>,
    body: &Expr,
    mt: &mut Vec<(Variable, Expr)>,
    my: &mut Vec<(Variable, Type)>,
) -> (r: Expr)
    ensures
        r@ == term_subst(
            body@,
            push_term_rename(expr_pairs(old(mt)@), x),
            push_type_rename(ty_pairs(old(my)@), a),
        ),
        final(mt)@ == old(mt)@,
        final(my)@ == old(my)@,
    decreases body, 1nat,
{
    let ghost mt0 = mt@;
    let ghost my0 = my@;
    if let Some((x, x2)) = x {
        mt.push((x.copy(), Expr::Var(x2.copy())));
        proof {
            assert(expr_pairs(mt@) =~= expr_pairs(mt0).push((x@, Term::Var(x2@))));
        }
    }
    if let Some((a, a2)) = a {
        my.push((a.copy(), Type::Var(a2.copy())));
        proof {
            assert(ty_pairs(my@) =~= ty_pairs(my0).push((a@, Ty::Var(a2@))));
        }
    }
    let r = expr_subst_exec(body, mt, my);
    if x.is_some() {
        mt.pop();
    }
    if a.is_some() {
        my.pop();
    }
    proof {
        assert(mt@ =~= mt0);
        assert(my@ =~= my0);
    }
    r
}


/// The type bound to `v` in a context (later entries shadow earlier ones).
pub fn lookup(ctx: &Vec<(Variable, Type)>, v: &Variable) -> (r: Option<Type>)
    ensures
        match r {
            Some(t) => assoc(ty_pairs(ctx@), v@) == Some(t@),
            None => assoc(ty_pairs(ctx@), v@) is None,
        },
{
    match find_last(ctx, v) {
        Some(i) => {
            proof {
                lemma_assoc_at(ty_pairs(ctx@), v@, i as int);
            }
            Some(ctx[i].1.copy())
        },
        None => {
            proof {
                lemma_assoc_none(ty_pairs(ctx@), v@);
            }
            None
        },
    }
}

// ----- the public interface -----

/// Binder-aware operations shared by types and terms.
pub trait Symbol: Sized + View {
    /// The nameless form of a value with no enclosing binders.
    spec fn nameless(v: Self::V) -> Self::V;

    /// Simultaneous substitution of the listed names; later entries win.
    spec fn substituted(v: Self::V, m: Seq<(Seq<char>, Self::V)>) -> Self::V;

    /// Each bound occurrence becomes the number of binders, of terms or of
    /// types, between it and its own binder; binding sites lose their names;
    /// free occurrences stay.
    fn to_debruijn(self) -> (r: Self)
        ensures
            r@ == Self::nameless(self@),
    ;

    /// Equality up to the names of bound variables.
    fn alpha_equiv(e1: Self, e2: Self) -> (r: bool)
        ensures
            r == (Self::nameless(e1@) == Self::nameless(e2@)),
    ;

    /// Replaces every free occurrence of each listed name, avoiding capture.
    fn substitute_map(self, rename: Vec<(Variable, Self)>) -> (r: Self)
        ensures
            r@ == Self::substituted(self@, rename@.map_values(|p: (Variable, Self)| (p.0@, p.1@))),
    ;

    /// Replaces every free occurrence of `s` by `e`, avoiding capture.
    fn substitute(self, s: Variable, e: Self) -> (r: Self)
        ensures
            r@ == Self::substituted(self@, seq![(s@, e@)]),
    ;
}

impl Symbol for Type {
    open spec fn nameless(v: Ty) -> Ty {
        ty_canon(v, seq![])
    }

    open spec fn substituted(v: Ty, m: Seq<(Seq<char>, Ty)>) -> Ty {
        ty_subst(v, m)
    }

    fn to_debruijn(self) -> (r: Type) {
        let mut b: Vec<(Variable, bool)> = Vec::new();
        proof {
            assert(names(b@) =~= seq![]);
        }
        ty_canon_exec(&self, &mut b)
    }

    fn alpha_equiv(e1: Type, e2: Type) -> (r: bool) {
        let mut b: Vec<(Variable, bool)> = Vec::new();
        proof {
            assert(names(b@) =~= seq![]);
        }
        let c1 = ty_canon_exec(&e1, &mut b);
        let c2 = ty_canon_exec(&e2, &mut b);
        c1.same(&c2)
    }

    fn substitute_map(self, rename: Vec<(Variable, Type)>) -> (r: Type) {
        let mut m = rename;
        ty_subst_exec(&self, &mut m)
    }

    fn substitute(self, s: Variable, e: Type) -> (r: Type) {
        let mut m: Vec<(Variable, Type)> = Vec::new();
        m.push((s, e));
        proof {
            assert(ty_pairs(m@) =~= seq![(s@, e@)]);
        }
        ty_subst_exec(&self, &mut m)
    }
}

impl Symbol for Expr {
    open spec fn nameless(v: Term) -> Term {
        term_canon(v, seq![])
    }

    open spec fn substituted(v: Term, m: Seq<(Seq<char>, Term)>) -> Term {
        term_subst(v, m, seq![])
    }

    fn to_debruijn(self) -> (r: Expr) {
        let mut b: Vec<(Variable, bool)> = Vec::new();
        proof {
            assert(names(b@) =~= seq![]);
        }
        expr_canon_exec(&self, &mut b)
    }

    fn alpha_equiv(e1: Expr, e2: Expr) -> (r: bool) {
        let mut b: Vec<(Variable, bool)> = Vec::new();
        proof {
            assert(names(b@) =~= seq![]);
        }
        let c1 = expr_canon_exec(&e1, &mut b);
        let c2 = expr_canon_exec(&e2, &mut b);
        c1.same(&c2)
    }

    fn substitute_map(self, rename: Vec<(Variable, Expr)>) -> (r: Expr) {
        let mut mt = rename;
        let mut my: Vec<(Variable, Type)> = Vec::new();
        proof {
            assert(ty_pairs(my@) =~= seq![]);
        }
        expr_subst_exec(&self, &mut mt, &mut my)
    }

    fn substitute(self, s: Variable, e: Expr) -> (r: Expr) {
        let mut mt: Vec<(Variable, Expr)> = Vec::new();
        mt.push((s, e));
        let mut my: Vec<(Variable, Type)> = Vec::new();
        proof {
            assert(expr_pairs(mt@) =~= seq![(s@, e@)]);
            assert(ty_pairs(my@) =~= seq![]);
        }
        expr_subst_exec(&self, &mut mt, &mut my)
    }
}

} // verus!

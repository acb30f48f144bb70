use crate::built_in::builtin_of;
use crate::error::Fault;
use crate::eval::{
    apply_spec, bind, call_spec, define_in, eval_seq, eval_spec, op_keyword, resolve,
    special_spec, with_scope, World,
};
use crate::language::{keyword_of, Keyword};
use crate::list::{from_items, head_of, list_items, split_of, take3_of};
use crate::value::Val;
use vstd::prelude::*;

verus! {

/// The call form whose elements are `items`.
pub open spec fn form(items: Seq<Val>) -> Val {
    from_items(items, Val::Nil)
}

pub open spec fn define_form(name: Seq<char>, e: Val) -> Val {
    form(seq![Val::Sym("define"@), Val::Sym(name), e])
}

pub open spec fn if_form(c: Val, a: Val, b: Val) -> Val {
    form(seq![Val::Sym("if"@), c, a, b])
}

proof fn lemma_define_form_shape(name: Seq<char>, e: Val)
    ensures
        define_form(name, e) == Val::Cons(
            Box::new(Val::Sym("define"@)),
            Box::new(Val::Cons(Box::new(Val::Sym(name)), Box::new(Val::Cons(Box::new(e), Box::new(Val::Nil))))),
        ),
{
    let items = seq![Val::Sym("define"@), Val::Sym(name), e];
    assert(items.drop_first() =~= seq![Val::Sym(name), e]);
    assert(seq![Val::Sym(name), e].drop_first() =~= seq![e]);
    assert(seq![e].drop_first() =~= Seq::<Val>::empty());
    reveal_with_fuel(from_items, 4);
}

proof fn lemma_keywords()
    ensures
        keyword_of("if"@) == Some(Keyword::If),
        keyword_of("define"@) == Some(Keyword::Define),
{
    reveal_strlit("define");
    reveal_strlit("quote");
    reveal_strlit("lambda");
    reveal_strlit("if");
    assert("if"@.len() == 2);
    assert("quote"@.len() == 5);
    assert("define"@.len() == 6);
    assert("lambda"@.len() == 6);
    assert("define"@[0] != "lambda"@[0]);
}

proof fn lemma_if_form_shape(c: Val, a: Val, b: Val)
    ensures
        if_form(c, a, b) == Val::Cons(
            Box::new(Val::Sym("if"@)),
            Box::new(Val::Cons(Box::new(c), Box::new(Val::Cons(Box::new(a), Box::new(Val::Cons(Box::new(b), Box::new(Val::Nil))))))),
        ),
{
    let items = seq![Val::Sym("if"@), c, a, b];
    assert(items.drop_first() =~= seq![c, a, b]);
    assert(seq![c, a, b].drop_first() =~= seq![a, b]);
    assert(seq![a, b].drop_first() =~= seq![b]);
    assert(seq![b].drop_first() =~= Seq::<Val>::empty());
    reveal_with_fuel(from_items, 5);
}

/// Evaluation never removes a scope.
pub proof fn lemma_eval_grows(w: World, e: Val, path: Seq<usize>, fuel: nat)
    ensures
        eval_spec(w, e, path, fuel).0.scopes.len() >= w.scopes.len(),
    decreases fuel, 0nat, 0nat,
{
    if fuel > 0 {
        let f = (fuel - 1) as nat;
        if let Val::Cons(op, args) = e {
            if op_keyword(*op) is Some {
                lemma_special_grows(w, op_keyword(*op).unwrap(), *args, path, f);
            } else {
                lemma_call_grows(w, *op, *args, path, f);
            }
        }
    }
}

pub proof fn lemma_seq_grows(w: World, items: Seq<Val>, path: Seq<usize>, fuel: nat)
    ensures
        eval_seq(w, items, path, fuel).0.scopes.len() >= w.scopes.len(),
    decreases fuel, 1nat, items.len(),
{
    if items.len() > 0 {
        lemma_seq_grows(w, items.drop_last(), path, fuel);
        let (w1, r) = eval_seq(w, items.drop_last(), path, fuel);
        lemma_eval_grows(w1, items.last(), path, fuel);
    }
}

pub proof fn lemma_apply_grows(w: World, fv: Val, vals: Seq<Val>, fuel: nat)
    ensures
        apply_spec(w, fv, vals, fuel).0.scopes.len() >= w.scopes.len(),
    decreases fuel, 2nat, 0nat,
{
    if let Val::Closure(names, body, captured) = fv {
        if vals.len() == names.len() {
            lemma_eval_grows(
                with_scope(w, bind(names, vals)),
                *body,
                captured.push(w.scopes.len() as usize),
                fuel,
            );
        }
    }
}

pub proof fn lemma_special_grows(w: World, k: Keyword, ops: Val, path: Seq<usize>, fuel: nat)
    ensures
        special_spec(w, k, ops, path, fuel).0.scopes.len() >= w.scopes.len(),
    decreases fuel, 3nat, 0nat,
{
    match k {
        Keyword::Define => {
            if let Ok((name, rest)) = split_of(ops) {
                if let Ok(expr) = head_of(rest) {
                    lemma_eval_grows(w, expr, path, fuel);
                }
            }
        },
        Keyword::If => {
            if let Ok((c, t, e)) = take3_of(ops) {
                lemma_eval_grows(w, c, path, fuel);
                let w1 = eval_spec(w, c, path, fuel).0;
                lemma_eval_grows(w1, t, path, fuel);
                lemma_eval_grows(w1, e, path, fuel);
            }
        },
        _ => {},
    }
}

pub proof fn lemma_call_grows(w: World, op: Val, args: Val, path: Seq<usize>, fuel: nat)
    ensures
        call_spec(w, op, args, path, fuel).0.scopes.len() >= w.scopes.len(),
    decreases fuel, 4nat, 0nat,
{
    lemma_eval_grows(w, op, path, fuel);
    let (w1, r) = eval_spec(w, op, path, fuel);
    if let Some(items) = list_items(args) {
        lemma_seq_grows(w1, items, path, fuel);
        let (w2, rs) = eval_seq(w1, items, path, fuel);
        if let (Ok(Some(fv)), Ok(vals)) = (r, rs) {
            lemma_apply_grows(w2, fv, vals, fuel);
        }
    }
}

/// A binding made in scope `k` leaves every lookup along a path without `k` unchanged.
pub proof fn lemma_resolve_define_elsewhere(
    w: World,
    k: int,
    name: Seq<char>,
    v: Val,
    path: Seq<usize>,
    m: Seq<char>,
)
    requires
        0 <= k < w.scopes.len(),
        forall|i: int| 0 <= i < path.len() ==> path[i] != k,
    ensures
        resolve(define_in(w, k, name, v).scopes, path, m) == resolve(w.scopes, path, m),
    decreases path.len(),
{
    if path.len() > 0 {
        lemma_resolve_define_elsewhere(w, k, name, v, path.drop_last(), m);
    }
}

/// After `(define name e)` succeeds, evaluating `name` under the same path gives
/// the value that `e` evaluated to.
pub proof fn lemma_define_then_lookup(
    w: World,
    name: Seq<char>,
    e: Val,
    path: Seq<usize>,
    fuel: nat,
    fuel2: nat,
)
    requires
        fuel > 0,
        fuel2 > 0,
        builtin_of(name) is None,
        eval_spec(w, define_form(name, e), path, fuel).1 == Ok::<Option<Val>, Fault>(None),
    ensures
        ({
            let w1 = eval_spec(w, define_form(name, e), path, fuel).0;
            eval_spec(w1, Val::Sym(name), path, fuel2) == (
                w1,
                Ok::<Option<Val>, Fault>(eval_spec(w, e, path, (fuel - 1) as nat).1->Ok_0),
            )
        }),
{
    reveal_strlit("define");
    reveal_strlit("quote");
    reveal_strlit("lambda");
    reveal_strlit("if");
    lemma_define_form_shape(name, e);
    reveal_with_fuel(resolve, 2);
}

/// A `(define name e)` made in a scope `k` nested inside `path` leaves every
/// lookup along `path` as evaluating `e` left it: shadowing never rebinds an outer name.
pub proof fn lemma_define_keeps_outer(
    w: World,
    name: Seq<char>,
    e: Val,
    path: Seq<usize>,
    k: usize,
    fuel: nat,
    m: Seq<char>,
)
    requires
        fuel > 0,
        forall|i: int| 0 <= i < path.len() ==> path[i] != k,
    ensures
        resolve(eval_spec(w, define_form(name, e), path.push(k), fuel).0.scopes, path, m) == resolve(
            eval_spec(w, e, path.push(k), (fuel - 1) as nat).0.scopes,
            path,
            m,
        ),
{
    reveal_strlit("define");
    reveal_strlit("quote");
    reveal_strlit("lambda");
    reveal_strlit("if");
    lemma_keywords();
    lemma_define_form_shape(name, e);
    let inner = path.push(k);
    let ops = Val::Cons(Box::new(Val::Sym(name)), Box::new(Val::Cons(Box::new(e), Box::new(Val::Nil))));
    assert(op_keyword(Val::Sym("define"@)) == Some(Keyword::Define));
    assert(eval_spec(w, define_form(name, e), inner, fuel) == special_spec(w, Keyword::Define, ops, inner, (fuel - 1) as nat));
    assert(inner.last() == k);
    let (w1, r) = eval_spec(w, e, path.push(k), (fuel - 1) as nat);
    if let Ok(Some(v)) = r {
        if (k as int) < w1.scopes.len() {
            lemma_resolve_define_elsewhere(w1, k as int, name, v, path, m);
        }
    }
}

/// Each call of a closure binds its parameters in a scope of its own: a second
/// call runs its body in a new scope that holds exactly its own arguments, on a
/// path that does not hold the first call's scope.
pub proof fn lemma_fresh_invocation_scope(
    w: World,
    names: Seq<Seq<char>>,
    body: Val,
    captured: Seq<usize>,
    vals1: Seq<Val>,
    vals2: Seq<Val>,
    fuel: nat,
)
    requires
        vals1.len() == names.len(),
        vals2.len() == names.len(),
        forall|i: int| 0 <= i < captured.len() ==> captured[i] < w.scopes.len(),
        apply_spec(w, Val::Closure(names, Box::new(body), captured), vals1, fuel).0.scopes.len()
            < usize::MAX,
    ensures
        ({
            let clo = Val::Closure(names, Box::new(body), captured);
            let w1 = apply_spec(w, clo, vals1, fuel).0;
            let second = captured.push(w1.scopes.len() as usize);
            &&& w1.scopes.len() > w.scopes.len()
            &&& apply_spec(w1, clo, vals2, fuel) == eval_spec(
                with_scope(w1, bind(names, vals2)),
                body,
                second,
                fuel,
            )
            &&& with_scope(w1, bind(names, vals2)).scopes[w1.scopes.len() as int] == bind(names, vals2)
            &&& forall|i: int| 0 <= i < second.len() ==> second[i] != w.scopes.len()
        }),
{
    let clo = Val::Closure(names, Box::new(body), captured);
    lemma_eval_grows(
        with_scope(w, bind(names, vals1)),
        body,
        captured.push(w.scopes.len() as usize),
        fuel,
    );
    let w1 = apply_spec(w, clo, vals1, fuel).0;
    let second = captured.push(w1.scopes.len() as usize);
    assert forall|i: int| 0 <= i < second.len() implies second[i] != w.scopes.len() by {
        if i < captured.len() {
            assert(second[i] == captured[i]);
        }
    }
}

/// `(if c a b)` fails with a type mismatch when `c` evaluates to a non-boolean.
pub proof fn lemma_if_requires_boolean(w: World, c: Val, a: Val, b: Val, path: Seq<usize>, fuel: nat)
    requires
        fuel > 0,
        eval_spec(w, c, path, (fuel - 1) as nat).1 matches Ok(Some(v)) && !(v is Bool),
    ensures
        eval_spec(w, if_form(c, a, b), path, fuel).1 == Err::<Option<Val>, Fault>(Fault::TypeMismatch),
{
    lemma_keywords();
    lemma_if_form_shape(c, a, b);
    let ops = Val::Cons(Box::new(c), Box::new(Val::Cons(Box::new(a), Box::new(Val::Cons(Box::new(b), Box::new(Val::Nil))))));
    assert(op_keyword(Val::Sym("if"@)) == Some(Keyword::If));
    assert(take3_of(ops) == Ok::<(Val, Val, Val), Fault>((c, a, b)));
    assert(eval_spec(w, if_form(c, a, b), path, fuel) == special_spec(w, Keyword::If, ops, path, (fuel - 1) as nat));
}

/// `(if true a b)` is the evaluation of `a` alone: `b` plays no part.
pub proof fn lemma_if_true_skips_else(w: World, a: Val, b: Val, path: Seq<usize>, fuel: nat)
    requires
        fuel > 1,
    ensures
        eval_spec(w, if_form(Val::Bool(true), a, b), path, fuel) == eval_spec(w, a, path, (fuel - 1) as nat),
{
    let c = Val::Bool(true);
    lemma_keywords();
    lemma_if_form_shape(c, a, b);
    let ops = Val::Cons(Box::new(c), Box::new(Val::Cons(Box::new(a), Box::new(Val::Cons(Box::new(b), Box::new(Val::Nil))))));
    assert(op_keyword(Val::Sym("if"@)) == Some(Keyword::If));
    assert(take3_of(ops) == Ok::<(Val, Val, Val), Fault>((c, a, b)));
    assert(eval_spec(w, c, path, (fuel - 1) as nat) == (w, Ok::<Option<Val>, Fault>(Some(c))));
    assert(eval_spec(w, if_form(c, a, b), path, fuel) == special_spec(w, Keyword::If, ops, path, (fuel - 1) as nat));
}

} // verus!

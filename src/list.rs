use crate::error::{Fault, RuntimeError};
use crate::value::{Atom, Pair, Val, Value};
use std::rc::Rc;
use vstd::prelude::*;

verus! {

/// The elements of a proper list, or `None` when the spine does not end in nil.
pub open spec fn list_items(v: Val) -> Option<Seq<Val>>
    decreases v,
{
    match v {
        Val::Nil => Some(Seq::empty()),
        Val::Cons(h, t) => match list_items(*t) {
            Some(s) => Some(seq![*h] + s),
            None => None,
        },
        _ => None,
    }
}

/// The list whose elements are `items`, ending in `end`.
pub open spec fn from_items(items: Seq<Val>, end: Val) -> Val
    decreases items.len(),
{
    if items.len() == 0 {
        end
    } else {
        Val::Cons(Box::new(items[0]), Box::new(from_items(items.drop_first(), end)))
    }
}

/// The element references of a proper list, or `None` when the spine does not end in nil.
pub open spec fn list_rcs(v: &Value) -> Option<Seq<Rc<Value>>>
    decreases v,
{
    match v {
        Value::Atom(Atom::Nil) => Some(Seq::empty()),
        Value::Pair(Pair(h, t)) => match list_rcs(&**t) {
            Some(s) => Some(seq![*h] + s),
            None => None,
        },
        _ => None,
    }
}

/// The number of pairs along the spine.
pub open spec fn spine_len(v: Val) -> nat
    decreases v,
{
    match v {
        Val::Cons(_, t) => 1 + spine_len(*t),
        _ => 0,
    }
}

pub open spec fn views(s: Seq<Value>) -> Seq<Val> {
    s.map_values(|v: Value| v@)
}

pub open spec fn rc_views(s: Seq<Rc<Value>>) -> Seq<Val> {
    s.map_values(|v: Rc<Value>| (*v)@)
}

/// First element and the rest of a list.
pub open spec fn split_of(v: Val) -> Result<(Val, Val), Fault> {
    match v {
        Val::Nil => Err(Fault::EmptyList),
        Val::Cons(h, t) => Ok((*h, *t)),
        _ => Err(Fault::NotAList),
    }
}

pub open spec fn head_of(v: Val) -> Result<Val, Fault> {
    match split_of(v) {
        Ok((h, _)) => Ok(h),
        Err(f) => Err(f),
    }
}

pub open spec fn take2_of(v: Val) -> Result<(Val, Val), Fault> {
    match split_of(v) {
        Ok((a, rest)) => match head_of(rest) {
            Ok(b) => Ok((a, b)),
            Err(f) => Err(f),
        },
        Err(f) => Err(f),
    }
}

pub open spec fn take3_of(v: Val) -> Result<(Val, Val, Val), Fault> {
    match split_of(v) {
        Ok((a, rest)) => match take2_of(rest) {
            Ok((b, c)) => Ok((a, b, c)),
            Err(f) => Err(f),
        },
        Err(f) => Err(f),
    }
}

/// Appending to the front of a sequence prepends to the list built from it.
pub proof fn lemma_from_items_step(items: Seq<Val>, i: int, end: Val)
    requires
        0 <= i < items.len(),
    ensures
        from_items(items.subrange(i, items.len() as int), end) == Val::Cons(
            Box::new(items[i]),
            Box::new(from_items(items.subrange(i + 1, items.len() as int), end)),
        ),
{
    assert(items.subrange(i, items.len() as int).drop_first() =~= items.subrange(
        i + 1,
        items.len() as int,
    ));
}

/// Building a proper list from a sequence and reading it back gives the sequence.
pub proof fn lemma_items_of_from_items(items: Seq<Val>)
    ensures
        list_items(from_items(items, Val::Nil)) == Some(items),
    decreases items.len(),
{
    if items.len() > 0 {
        lemma_items_of_from_items(items.drop_first());
        assert(seq![items[0]] + items.drop_first() =~= items);
    }
}

/// For every proper list, reading its elements, building a proper list of
/// them and reading that back gives the same elements.
pub proof fn lemma_list_round_trip(l: Val)
    requires
        list_items(l) is Some,
    ensures
        list_items(from_items(list_items(l).unwrap(), Val::Nil)) == list_items(l),
{
    lemma_items_of_from_items(list_items(l).unwrap());
}

/// A non-empty proper list is a pair whose rest holds the remaining elements.
pub proof fn lemma_list_items_unfold(v: Val)
    requires
        list_items(v) is Some,
        list_items(v).unwrap().len() > 0,
    ensures
        v matches Val::Cons(h, t) && *h == list_items(v).unwrap()[0] && list_items(*t) == Some(
            list_items(v).unwrap().drop_first(),
        ),
{
    if let Val::Cons(h, t) = v {
        let s = list_items(*t).unwrap();
        assert((seq![*h] + s).drop_first() =~= s);
    }
}

/// Builds the list of `vec`'s elements, ending in `end`.
pub fn from_vec_with_end(vec: Vec<Value>, end: Value) -> (r: Value)
    ensures
        r@ == from_items(views(vec@), end@),
{
    let ghost all = views(vec@);
    let mut vec = vec;
    let mut list = end;
    while vec.len() > 0
        invariant
            views(vec@) == all.subrange(0, vec@.len() as int),
            list@ == from_items(all.subrange(vec@.len() as int, all.len() as int), end@),
            vec@.len() <= all.len(),
        decreases vec.len(),
    {
        let ghost n = vec@.len() as int;
        let ghost before = vec@;
        let value = vec.pop().unwrap();
        proof {
            lemma_from_items_step(all, n - 1, end@);
            assert(views(before)[n - 1] == all.subrange(0, n)[n - 1]);
            assert(views(vec@) =~= all.subrange(0, n - 1));
        }
        list = Value::Pair(Pair(Rc::new(value), Rc::new(list)));
    }
    proof {
        assert(all.subrange(0, all.len() as int) =~= all);
    }
    list
}

/// Builds the proper list of `vec`'s elements.
pub fn from_vec(vec: Vec<Value>) -> (r: Value)
    ensures
        r@ == from_items(views(vec@), Val::Nil),
{
    from_vec_with_end(vec, Value::Atom(Atom::Nil))
}

/// The references of a list view as its elements.
pub proof fn lemma_list_rcs_items(v: &Value)
    ensures
        list_rcs(v) is Some == list_items(v@) is Some,
        list_rcs(v) is Some ==> rc_views(list_rcs(v).unwrap()) == list_items(v@).unwrap(),
    decreases v,
{
    if let Value::Pair(Pair(h, t)) = v {
        lemma_list_rcs_items(&**t);
        if let Some(s) = list_rcs(&**t) {
            assert(rc_views(seq![*h] + s) =~= seq![(**h)@] + rc_views(s));
        }
    }
}

/// The elements of a proper list, in order.
pub fn to_vec(list: &Value) -> (r: Result<Vec<Rc<Value>>, RuntimeError>)
    ensures
        match list_items(list@) {
            Some(items) => r matches Ok(v) && rc_views(v@) == items && list_rcs(list) == Some(v@),
            None => r == Err::<Vec<Rc<Value>>, RuntimeError>(RuntimeError::NotAList),
        },
{
    proof {
        lemma_list_rcs_items(list);
    }
    let mut cur: &Value = list;
    let mut ret: Vec<Rc<Value>> = Vec::new();
    loop
        invariant
            list_items(list@) == match list_items(cur@) {
                Some(s) => Some(rc_views(ret@) + s),
                None => None::<Seq<Val>>,
            },
            list_rcs(list) == match list_rcs(cur) {
                Some(s) => Some(ret@ + s),
                None => None::<Seq<Rc<Value>>>,
            },
        decreases spine_len(cur@),
    {
        match cur {
            Value::Atom(Atom::Nil) => {
                proof {
                    assert(rc_views(ret@) + Seq::<Val>::empty() =~= rc_views(ret@));
                    assert(ret@ + Seq::<Rc<Value>>::empty() =~= ret@);
                }
                return Ok(ret);
            },
            Value::Pair(Pair(head, tail)) => {
                let ghost before = ret@;
                ret.push(head.clone());
                proof {
                    assert(rc_views(ret@) =~= rc_views(before) + seq![(**head)@]);
                    if let Some(s) = list_items((**tail)@) {
                        assert(rc_views(ret@) + s =~= rc_views(before) + (seq![(**head)@] + s));
                    }
                    if let Some(s) = list_rcs(&**tail) {
                        assert(ret@ + s =~= before + (seq![*head] + s));
                    }
                }
                cur = &**tail;
            },
            _ => {
                return Err(RuntimeError::NotAList);
            },
        }
    }
}

/// Whether `value` is a proper list.
pub fn is_list(value: &Rc<Value>) -> (r: bool)
    ensures
        r == list_items((**value)@).is_some(),
{
    to_vec(&**value).is_ok()
}

/// The number of elements of a proper list.
pub fn length(value: &Rc<Value>) -> (r: Result<usize, RuntimeError>)
    ensures
        match list_items((**value)@) {
            Some(items) => items.len() <= usize::MAX && r == Ok::<usize, RuntimeError>(
                items.len() as usize,
            ),
            None => r == Err::<usize, RuntimeError>(RuntimeError::NotAList),
        },
{
    match to_vec(&**value) {
        Ok(v) => Ok(v.len()),
        Err(e) => Err(e),
    }
}

/// The first element of a list and the list that follows it.
pub fn split_head(list: &Value) -> (r: Result<(Rc<Value>, Rc<Value>), RuntimeError>)
    ensures
        match split_of(list@) {
            Ok((a, b)) => r matches Ok((x, y)) && (*x)@ == a && (*y)@ == b,
            Err(f) => r matches Err(e) && e@ == f,
        },
{
    match list {
        Value::Atom(Atom::Nil) => Err(RuntimeError::EmptyList),
        Value::Pair(Pair(first, rest)) => Ok((first.clone(), rest.clone())),
        _ => Err(RuntimeError::NotAList),
    }
}

/// The first element of a list.
pub fn head(list: &Rc<Value>) -> (r: Result<Rc<Value>, RuntimeError>)
    ensures
        match head_of((**list)@) {
            Ok(a) => r matches Ok(x) && (*x)@ == a,
            Err(f) => r matches Err(e) && e@ == f,
        },
{
    match split_head(&**list) {
        Ok((first, _)) => Ok(first),
        Err(e) => Err(e),
    }
}

/// The first two elements of a list.
pub fn take2(list: &Value) -> (r: Result<(Rc<Value>, Rc<Value>), RuntimeError>)
    ensures
        match take2_of(list@) {
            Ok((a, b)) => r matches Ok((x, y)) && (*x)@ == a && (*y)@ == b,
            Err(f) => r matches Err(e) && e@ == f,
        },
{
    let (first, rest) = match split_head(list) {
        Ok(p) => p,
        Err(e) => return Err(e),
    };
    match head(&rest) {
        Ok(second) => Ok((first, second)),
        Err(e) => Err(e),
    }
}

/// The first three elements of a list.
pub fn take3(list: &Value) -> (r: Result<(Rc<Value>, Rc<Value>, Rc<Value>), RuntimeError>)
    ensures
        match take3_of(list@) {
            Ok((a, b, c)) => r matches Ok((x, y, z)) && (*x)@ == a && (*y)@ == b && (*z)@ == c,
            Err(f) => r matches Err(e) && e@ == f,
        },
{
    let (first, rest) = match split_head(list) {
        Ok(p) => p,
        Err(e) => return Err(e),
    };
    match take2(&rest) {
        Ok((second, third)) => Ok((first, second, third)),
        Err(e) => Err(e),
    }
}

/// The proper list of the given element references.
pub fn from_rc_vec(items: &Vec<Rc<Value>>) -> (r: Value)
    ensures
        r@ == from_items(rc_views(items@), Val::Nil),
        list_rcs(&r) == Some(items@),
{
    let ghost all = rc_views(items@);
    let mut list = Value::Atom(Atom::Nil);
    let mut i = items.len();
    proof {
        assert(all.subrange(i as int, all.len() as int) =~= Seq::<Val>::empty());
        assert(items@.subrange(i as int, i as int) =~= Seq::<Rc<Value>>::empty());
    }
    while i > 0
        invariant
            i <= items@.len(),
            all == rc_views(items@),
            list@ == from_items(all.subrange(i as int, all.len() as int), Val::Nil),
            list_rcs(&list) == Some(items@.subrange(i as int, items@.len() as int)),
        decreases i,
    {
        proof {
            lemma_from_items_step(all, i - 1, Val::Nil);
            assert(seq![items@[i - 1]] + items@.subrange(i as int, items@.len() as int) =~= items@.subrange(i - 1, items@.len() as int));
        }
        list = Value::Pair(Pair(items[i - 1].clone(), Rc::new(list)));
        i = i - 1;
    }
    proof {
        assert(all.subrange(0, all.len() as int) =~= all);
        assert(items@.subrange(0, items@.len() as int) =~= items@);
    }
    list
}

/// Applies `f` to every element of a proper list, giving the list of results;
/// the first failure of `f` is returned instead.
pub fn map<F: Fn(&Rc<Value>) -> Result<Rc<Value>, RuntimeError>>(list: &Rc<Value>, f: F) -> (r: Result<Rc<Value>, RuntimeError>)
    requires
        forall|x: &Rc<Value>| f.requires((x,)),
    ensures
        match list_rcs(&**list) {
            None => r == Err::<Rc<Value>, RuntimeError>(RuntimeError::NotAList),
            Some(items) => match r {
                Ok(l) => list_rcs(&*l) matches Some(out) && out.len() == items.len() && forall|i: int|
                    0 <= i < items.len() ==> f.ensures((&items[i],), Ok::<Rc<Value>, RuntimeError>(#[trigger] out[i])),
                Err(e) => exists|i: int|
                    0 <= i < items.len() && f.ensures((&items[i],), Err::<Rc<Value>, RuntimeError>(e)),
            },
        },
{
    proof {
        lemma_list_rcs_items(&**list);
    }
    let items = match to_vec(&**list) {
        Ok(v) => v,
        Err(e) => return Err(e),
    };
    let mut out: Vec<Rc<Value>> = Vec::new();
    let mut i: usize = 0;
    while i < items.len()
        invariant
            forall|x: &Rc<Value>| f.requires((x,)),
            list_rcs(&**list) == Some(items@),
            i <= items@.len(),
            out@.len() == i,
            forall|j: int| 0 <= j < i ==> f.ensures((&items@[j],), Ok::<Rc<Value>, RuntimeError>(#[trigger] out@[j])),
        decreases items.len() - i,
    {
        let res = f(&items[i]);
        match res {
            Ok(v) => out.push(v),
            Err(e) => {
                proof {
                    let k = i as int;
                    assert(f.ensures((&items@[k],), Err::<Rc<Value>, RuntimeError>(e)));
                    let ghost whole = list_rcs(&**list).unwrap();
                    assert(whole == items@);
                    assert(f.ensures((&whole[k],), Err::<Rc<Value>, RuntimeError>(e)));
                }
                return Err(e);
            },
        }
        i = i + 1;
    }
    Ok(Rc::new(from_rc_vec(&out)))
}

} // verus!

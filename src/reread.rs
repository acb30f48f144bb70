use crate::list::{from_items, list_items};
use crate::parse::{
    atom_at, digit_value, digits_from, is_digit, parse_spec, skip_ws, starts_with, string_body,
    symbol_end, symbol_first, symbol_rest, value_at, values_at,
};
use crate::pretty::{decimal, digit_char, escape_char, escaped, int_text, render, render_rest};
use crate::value::Val;
use vstd::prelude::*;

verus! {

/// Values whose text reads back as themselves: nil, booleans, integers, strings,
/// symbols with readable names, and proper lists of such values.
pub open spec fn readable(v: Val) -> bool
    decreases v, 1nat,
{
    match v {
        Val::Nil => true,
        Val::Bool(_) => true,
        Val::Int(_) => true,
        Val::Str(_) => true,
        Val::Sym(t) => readable_symbol(t),
        Val::Cons(a, b) => readable(*a) && readable_rest(*b),
        _ => false,
    }
}

pub open spec fn is_prefix(a: Seq<char>, t: Seq<char>) -> bool {
    a.len() <= t.len() && t.take(a.len() as int) == a
}

/// A symbol name that reads back as a symbol: made of symbol characters, and
/// not read first as a number, a boolean or nil.
pub open spec fn readable_symbol(t: Seq<char>) -> bool {
    &&& t.len() > 0
    &&& symbol_first(t[0]) && !is_digit(t[0])
    &&& forall|k: int| 1 <= k < t.len() ==> symbol_rest(#[trigger] t[k])
    &&& ((t[0] == '-' || t[0] == '+') && t.len() > 1) ==> !is_digit(t[1])
    &&& !is_prefix(seq!['t', 'r', 'u', 'e'], t)
    &&& !is_prefix(seq!['f', 'a', 'l', 's', 'e'], t)
    &&& !is_prefix(seq!['n', 'i', 'l'], t)
}

/// The rest of a proper list whose elements are all readable.
pub open spec fn readable_rest(v: Val) -> bool
    decreases v, 0nat,
{
    match v {
        Val::Nil => true,
        Val::Cons(a, b) => readable(*a) && readable_rest(*b),
        _ => false,
    }
}

/// Where a value's text may end: at the end of the input, before a space or a closing parenthesis.
pub open spec fn ends_value(s: Seq<char>, k: int) -> bool {
    k == s.len() || (0 <= k < s.len() && (s[k] == ' ' || s[k] == ')'))
}

proof fn lemma_split(s: Seq<char>, p: int, x: Seq<char>, y: Seq<char>)
    requires
        0 <= p,
        p + x.len() + y.len() <= s.len(),
        s.subrange(p, p + x.len() + y.len()) == x + y,
    ensures
        s.subrange(p, p + x.len()) == x,
        s.subrange(p + x.len(), p + x.len() + y.len()) == y,
        forall|k: int| 0 <= k < x.len() ==> s[p + k] == x[k],
        forall|k: int| 0 <= k < y.len() ==> s[p + x.len() + k] == y[k],
{
    assert(s.subrange(p, p + x.len()) =~= (x + y).subrange(0, x.len() as int));
    assert((x + y).subrange(0, x.len() as int) =~= x);
    assert(s.subrange(p + x.len(), p + x.len() + y.len()) =~= (x + y).subrange(
        x.len() as int,
        (x.len() + y.len()) as int,
    ));
    assert((x + y).subrange(x.len() as int, (x.len() + y.len()) as int) =~= y);
    assert forall|k: int| 0 <= k < x.len() implies s[p + k] == x[k] by {
        assert(s.subrange(p, p + x.len())[k] == s[p + k]);
    }
    assert forall|k: int| 0 <= k < y.len() implies s[p + x.len() + k] == y[k] by {
        assert(s.subrange(p + x.len(), p + x.len() + y.len())[k] == s[p + x.len() + k]);
    }
}

/// No atom starts at a parenthesis or at the end of the input.
proof fn lemma_no_atom(s: Seq<char>, i: nat)
    requires
        i == s.len() || (i < s.len() && (s[i as int] == '(' || s[i as int] == ')')),
    ensures
        atom_at(s, i) is None,
{
    assert(!starts_with(s, i as nat, seq!['t', 'r', 'u', 'e'])) by {
        if starts_with(s, i as nat, seq!['t', 'r', 'u', 'e']) {
            assert(s.subrange(i as int, i + 4int)[0] == s[i as int]);
        }
    }
    assert(!starts_with(s, i as nat, seq!['f', 'a', 'l', 's', 'e'])) by {
        if starts_with(s, i as nat, seq!['f', 'a', 'l', 's', 'e']) {
            assert(s.subrange(i as int, i + 5int)[0] == s[i as int]);
        }
    }
    assert(!starts_with(s, i, seq!['n', 'i', 'l'])) by {
        if starts_with(s, i, seq!['n', 'i', 'l']) {
            assert(s.subrange(i as int, i + 3int)[0] == s[i as int]);
        }
    }
    assert(digits_from(s, i, 0) == (0nat, i));
}

/// No value starts at a closing parenthesis or at the end of the input.
proof fn lemma_no_value(s: Seq<char>, i: nat)
    requires
        i == s.len() || (i < s.len() && s[i as int] == ')'),
    ensures
        value_at(s, i) is None,
        values_at(s, i) == (Seq::<Val>::empty(), i),
{
    assert(skip_ws(s, i) == i);
    lemma_no_atom(s, i);
}

/// A readable value's text starts with neither white space nor a closing parenthesis.
proof fn lemma_render_first(v: Val)
    requires
        readable(v),
    ensures
        render(v).len() > 0,
        render(v)[0] != ' ' && render(v)[0] != ')' && render(v)[0] != '\t' && render(v)[0] != '\n'
            && render(v)[0] != '\r',
{
    if let Val::Int(n) = v {
        if n < 0 {
            lemma_decimal((-n) as nat);
        } else {
            lemma_decimal(n as nat);
            assert(is_digit(decimal(n as nat)[0]));
        }
    }
}

/// The value of a run of decimal digits, most significant first.
pub open spec fn digits_value(t: Seq<char>) -> nat
    decreases t.len(),
{
    if t.len() == 0 {
        0
    } else {
        digits_value(t.drop_last()) * 10 + digit_value(t.last())
    }
}

proof fn lemma_digit_char(d: nat)
    requires
        d < 10,
    ensures
        is_digit(digit_char(d)),
        digit_value(digit_char(d)) == d,
{
}

/// The digits of `n` are decimal digits and read back as `n`.
proof fn lemma_decimal(n: nat)
    ensures
        decimal(n).len() > 0,
        forall|k: int| 0 <= k < decimal(n).len() ==> is_digit(#[trigger] decimal(n)[k]),
        digits_value(decimal(n)) == n,
    decreases n,
{
    lemma_digit_char(n % 10);
    if n >= 10 {
        lemma_decimal(n / 10);
        let t = decimal(n);
        assert(t.drop_last() =~= decimal(n / 10));
        assert(n == (n / 10) * 10 + n % 10) by (nonlinear_arith);
        assert(t.last() == digit_char(n % 10));
        assert(digits_value(t) == digits_value(decimal(n / 10)) * 10 + digit_value(digit_char(n % 10)));
        assert forall|k: int| 0 <= k < t.len() implies is_digit(#[trigger] t[k]) by {
            if k < t.len() - 1 {
                assert(t[k] == decimal(n / 10)[k]);
            }
        }
    } else {
        assert(decimal(n).drop_last() =~= Seq::<char>::empty());
        assert(n % 10 == n);
        assert(digits_value(decimal(n)) == digits_value(Seq::<char>::empty()) * 10 + digit_value(digit_char(n)));
    }
}

/// Reading a run of digits that ends where no digit follows.
proof fn lemma_digits_from(s: Seq<char>, j: int, t: Seq<char>, m: int)
    requires
        0 <= j,
        0 <= m <= t.len(),
        j + t.len() <= s.len(),
        s.subrange(j, j + t.len()) == t,
        forall|k: int| 0 <= k < t.len() ==> is_digit(#[trigger] t[k]),
    ensures
        digits_from(s, j as nat, 0) == digits_from(s, (j + m) as nat, digits_value(t.take(m))),
    decreases m,
{
    if m == 0 {
        assert(t.take(0) =~= Seq::<char>::empty());
    } else {
        lemma_digits_from(s, j, t, m - 1);
        assert(s[j + m - 1] == t[m - 1]) by {
            assert(s.subrange(j, j + t.len())[m - 1] == s[j + m - 1]);
        }
        assert(t.take(m).drop_last() =~= t.take(m - 1));
    }
}

/// The text of an integer, read where it stands, gives the integer back.
proof fn lemma_int_at(n: i64, s: Seq<char>, i: int)
    requires
        0 <= i,
        i + int_text(n).len() <= s.len(),
        s.subrange(i, i + int_text(n).len()) == int_text(n),
        ends_value(s, i + int_text(n).len()),
    ensures
        atom_at(s, i as nat) == Some((Val::Int(n), (i + int_text(n).len()) as nat)),
{
    let r = int_text(n);
    let mag: nat = if n < 0 {
        (-n) as nat
    } else {
        n as nat
    };
    let t = decimal(mag);
    lemma_decimal(mag);
    let j: int = if n < 0 {
        i + 1
    } else {
        i
    };
    if n < 0 {
        lemma_split(s, i, seq!['-'], t);
        assert(s[i + 0] == seq!['-'][0]);
    } else {
        assert(r == t);
    }
    assert(s.subrange(j, j + t.len()) == t);
    assert(s[i] == r[0]) by {
        assert(s.subrange(i, i + r.len())[0] == s[i]);
    }
    if n >= 0 {
        assert(is_digit(t[0]));
    }
    lemma_digits_from(s, j, t, t.len() as int);
    assert(t.take(t.len() as int) =~= t);
    assert(digits_from(s, (j + t.len()) as nat, mag) == (mag, (j + t.len()) as nat));
    assert(!starts_with(s, i as nat, seq!['t', 'r', 'u', 'e'])) by {
        if starts_with(s, i as nat, seq!['t', 'r', 'u', 'e']) {
            assert(s.subrange(i, i + 4)[0] == s[i]);
        }
    }
    assert(!starts_with(s, i as nat, seq!['f', 'a', 'l', 's', 'e'])) by {
        if starts_with(s, i as nat, seq!['f', 'a', 'l', 's', 'e']) {
            assert(s.subrange(i, i + 5)[0] == s[i]);
        }
    }
}

/// Reading the escaped text of `u` adds `u` to what was read so far.
proof fn lemma_string_body(s: Seq<char>, p: int, u: Seq<char>, acc: Seq<char>)
    requires
        0 <= p,
        p + escaped(u).len() <= s.len(),
        s.subrange(p, p + escaped(u).len()) == escaped(u),
    ensures
        string_body(s, p as nat, acc) == string_body(s, (p + escaped(u).len()) as nat, acc + u),
    decreases u.len(),
{
    if u.len() == 0 {
        assert(acc + u =~= acc);
    } else {
        let u1 = u.drop_last();
        let c = u.last();
        let e = escape_char(c);
        assert(escaped(u) == escaped(u1) + e);
        lemma_split(s, p, escaped(u1), e);
        lemma_string_body(s, p, u1, acc);
        let q = p + escaped(u1).len();
        assert(s[q + 0] == e[0]);
        if e.len() == 2 {
            assert(s[q + 1] == e[1]);
        }
        assert((acc + u1).push(c) =~= acc + u);
    }
}

/// The text of a string, read where it stands, gives the string back.
proof fn lemma_str_at(t: Seq<char>, s: Seq<char>, i: int)
    requires
        0 <= i,
        i + render(Val::Str(t)).len() <= s.len(),
        s.subrange(i, i + render(Val::Str(t)).len()) == render(Val::Str(t)),
    ensures
        atom_at(s, i as nat) == Some((Val::Str(t), (i + render(Val::Str(t)).len()) as nat)),
{
    let body = escaped(t);
    lemma_split(s, i, seq!['"'] + body, seq!['"']);
    lemma_split(s, i, seq!['"'], body);
    assert(s[i + 0] == seq!['"'][0]);
    assert(s[i + 1 + body.len() + 0] == seq!['"'][0]);
    lemma_string_body(s, i + 1, t, Seq::empty());
    assert(Seq::<char>::empty() + t =~= t);
    assert(!starts_with(s, i as nat, seq!['t', 'r', 'u', 'e'])) by {
        if starts_with(s, i as nat, seq!['t', 'r', 'u', 'e']) {
            assert(s.subrange(i, i + 4)[0] == s[i]);
        }
    }
    assert(!starts_with(s, i as nat, seq!['f', 'a', 'l', 's', 'e'])) by {
        if starts_with(s, i as nat, seq!['f', 'a', 'l', 's', 'e']) {
            assert(s.subrange(i, i + 5)[0] == s[i]);
        }
    }
    assert(!starts_with(s, i as nat, seq!['n', 'i', 'l'])) by {
        if starts_with(s, i as nat, seq!['n', 'i', 'l']) {
            assert(s.subrange(i, i + 3)[0] == s[i]);
        }
    }
    assert(digits_from(s, i as nat, 0) == (0nat, i as nat));
}

/// A word of letters does not start where a symbol name that lacks it as a prefix stands.
proof fn lemma_not_word(s: Seq<char>, i: int, t: Seq<char>, a: Seq<char>)
    requires
        0 <= i,
        i + t.len() <= s.len(),
        s.subrange(i, i + t.len()) == t,
        ends_value(s, i + t.len()),
        !is_prefix(a, t),
        forall|k: int| 0 <= k < a.len() ==> a[k] != ' ' && a[k] != ')',
    ensures
        !starts_with(s, i as nat, a),
{
    if starts_with(s, i as nat, a) {
        if a.len() <= t.len() {
            assert(t.take(a.len() as int) =~= a) by {
                assert forall|k: int| 0 <= k < a.len() implies t.take(a.len() as int)[k] == a[k] by {
                    assert(s.subrange(i, i + t.len())[k] == s[i + k]);
                    assert(s.subrange(i as int, i + a.len())[k] == s[i + k]);
                }
            }
        } else {
            let k = t.len() as int;
            assert(s.subrange(i as int, i + a.len())[k] == s[i + k]);
        }
    }
}

/// The text of a readable symbol, read where it stands, gives the symbol back.
proof fn lemma_sym_at(t: Seq<char>, s: Seq<char>, i: int)
    requires
        0 <= i,
        readable_symbol(t),
        i + t.len() <= s.len(),
        s.subrange(i, i + t.len()) == t,
        ends_value(s, i + t.len()),
    ensures
        atom_at(s, i as nat) == Some((Val::Sym(t), (i + t.len()) as nat)),
{
    assert forall|k: int| 0 <= k < t.len() implies s[i + k] == t[k] by {
        assert(s.subrange(i, i + t.len())[k] == s[i + k]);
    }
    lemma_not_word(s, i, t, seq!['t', 'r', 'u', 'e']);
    lemma_not_word(s, i, t, seq!['f', 'a', 'l', 's', 'e']);
    lemma_not_word(s, i, t, seq!['n', 'i', 'l']);
    let j: int = if t[0] == '-' || t[0] == '+' {
        i + 1
    } else {
        i
    };
    assert(digits_from(s, j as nat, 0) == (0nat, j as nat)) by {
        if j < s.len() && j < i + t.len() {
            assert(s[j] == t[j - i]);
        }
    }
    lemma_symbol_end(t, s, i, 1);
}

proof fn lemma_symbol_end(t: Seq<char>, s: Seq<char>, i: int, m: int)
    requires
        0 <= i,
        1 <= m <= t.len(),
        readable_symbol(t),
        i + t.len() <= s.len(),
        s.subrange(i, i + t.len()) == t,
        ends_value(s, i + t.len()),
    ensures
        symbol_end(s, (i + m) as nat) == i + t.len(),
    decreases t.len() - m,
{
    if m < t.len() {
        assert(s.subrange(i, i + t.len())[m] == s[i + m]);
        assert(symbol_rest(t[m]));
        lemma_symbol_end(t, s, i, m + 1);
    } else {
        assert(!symbol_rest(' ') && !symbol_rest(')'));
    }
}

/// A proper list is the list built from its elements.
proof fn lemma_from_list_items(v: Val)
    requires
        list_items(v) is Some,
    ensures
        from_items(list_items(v).unwrap(), Val::Nil) == v,
    decreases v,
{
    if let Val::Cons(h, t) = v {
        lemma_from_list_items(*t);
        let s = list_items(*t).unwrap();
        assert((seq![*h] + s).drop_first() =~= s);
    }
}

proof fn lemma_readable_rest_is_list(v: Val)
    requires
        readable_rest(v),
    ensures
        list_items(v) is Some,
    decreases v,
{
    if let Val::Cons(_, t) = v {
        lemma_readable_rest_is_list(*t);
    }
}

/// The text of a readable value, read where it stands, gives the value back.
pub proof fn lemma_value_at(v: Val, s: Seq<char>, i: int)
    requires
        readable(v),
        0 <= i,
        i + render(v).len() <= s.len(),
        s.subrange(i, i + render(v).len()) == render(v),
        ends_value(s, i + render(v).len()),
    ensures
        value_at(s, i as nat) == Some((v, skip_ws(s, (i + render(v).len()) as nat))),
    decreases v, 1nat,
{
    let r = render(v);
    lemma_render_first(v);
    assert(s[i] == r[0]) by {
        assert(s.subrange(i, i + r.len())[0] == s[i]);
    }
    assert(skip_ws(s, i as nat) == i);
    match v {
        Val::Nil => {
            assert(s[i + 1] == ')') by {
                assert(s.subrange(i, i + r.len())[1] == s[i + 1]);
            }
            lemma_no_atom(s, i as nat);
            lemma_no_value(s, (i + 1) as nat);
            assert(r.len() == 2);
            assert(values_at(s, (i + 1) as nat) == (Seq::<Val>::empty(), (i + 1) as nat));
            assert(from_items(Seq::<Val>::empty(), Val::Nil) == Val::Nil);
        },
        Val::Bool(b) => {
            if b {
                assert(starts_with(s, i as nat, seq!['t', 'r', 'u', 'e']));
            } else {
                assert(!starts_with(s, i as nat, seq!['t', 'r', 'u', 'e'])) by {
                    if starts_with(s, i as nat, seq!['t', 'r', 'u', 'e']) {
                        assert(s.subrange(i as int, i + 4int)[0] == s[i as int]);
                    }
                }
                assert(starts_with(s, i as nat, seq!['f', 'a', 'l', 's', 'e']));
            }
        },
        Val::Int(n) => {
            lemma_int_at(n, s, i);
        },
        Val::Str(t) => {
            lemma_str_at(t, s, i);
        },
        Val::Sym(t) => {
            lemma_sym_at(t, s, i);
        },
        Val::Cons(a, b) => {
            let body = render(*a) + render_rest(*b);
            assert(r == seq!['('] + body + seq![')']);
            lemma_split(s, i, seq!['('] + body, seq![')']);
            lemma_split(s, i, seq!['('], body);
            assert(s[i + (seq!['('] + body).len() + 0] == seq![')'][0]);
            assert(s.subrange(i + 1, i + 1 + body.len()) == body);
            lemma_no_atom(s, i as nat);
            lemma_list_body(v, s, i + 1);
            lemma_from_list_items(v);
        },
        _ => {},
    }
}

/// The text inside a readable list's parentheses reads back as its elements.
pub proof fn lemma_list_body(v: Val, s: Seq<char>, p: int)
    requires
        v is Cons,
        readable(v),
        0 <= p,
        p + render(*v->Cons_0).len() + render_rest(*v->Cons_1).len() < s.len(),
        s.subrange(p, p + render(*v->Cons_0).len() + render_rest(*v->Cons_1).len()) == render(*v->Cons_0) + render_rest(*v->Cons_1),
        s[p + render(*v->Cons_0).len() + render_rest(*v->Cons_1).len()] == ')',
    ensures
        list_items(v) is Some,
        values_at(s, p as nat) == (list_items(v).unwrap(), (p + render(*v->Cons_0).len() + render_rest(*v->Cons_1).len()) as nat),
    decreases v, 0nat,
{
    let a = *v->Cons_0;
    let b = *v->Cons_1;
    let la = render(a).len() as int;
    let lb = render_rest(b).len() as int;
    lemma_split(s, p, render(a), render_rest(b));
    lemma_readable_rest_is_list(b);
    match b {
        Val::Nil => {
            lemma_value_at(a, s, p);
            assert(skip_ws(s, (p + la) as nat) == p + la);
            lemma_no_value(s, (p + la) as nat);
            assert(seq![a] + Seq::<Val>::empty() =~= seq![a]);
        },
        Val::Cons(a2, b2) => {
            let rest = render(*a2) + render_rest(*b2);
            assert(render_rest(b) == seq![' '] + rest);
            lemma_split(s, p + la, seq![' '], rest);
            assert(s[p + la + 0] == seq![' '][0]);
            assert(readable_rest(b));
            assert(readable(*a2));
            lemma_render_first(*a2);
            assert(s[p + la + 1 + 0] == rest[0]);
            lemma_value_at(a, s, p);
            assert(skip_ws(s, (p + la + 1) as nat) == p + la + 1);
            assert(skip_ws(s, (p + la) as nat) == p + la + 1);
            lemma_list_body(b, s, p + la + 1);
        },
        _ => {},
    }
}

/// Every readable value's text parses back to exactly that value.
pub proof fn lemma_render_parse(v: Val)
    requires
        readable(v),
    ensures
        parse_spec(render(v)) == Some(seq![v]),
{
    let s = render(v);
    assert(s.subrange(0, s.len() as int) =~= s);
    lemma_value_at(v, s, 0);
    assert(skip_ws(s, s.len()) == s.len());
    lemma_no_value(s, s.len());
    assert(seq![v] + Seq::<Val>::empty() =~= seq![v]);
}

} // verus!

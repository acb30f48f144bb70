use crate::language::quote_value;
use crate::list::{from_items, from_vec, views};
use crate::text::{push_str, string_of};
use crate::value::{Atom, Val, Value};
use vstd::prelude::*;
use vstd::string::StrSliceExecFns;

verus! {

/// Whether `c` is alphabetic in Unicode's sense.
pub uninterp spec fn alphabetic(c: char) -> bool;

/// Whether `c` is numeric in Unicode's sense.
pub uninterp spec fn numeric(c: char) -> bool;

/// The characters that separate or delimit values.
pub open spec fn is_delimiter(c: char) -> bool {
    c == ' ' || c == '\t' || c == '\n' || c == '\r' || c == '(' || c == ')' || c == '"' || c == '\''
}

/// Relies on `char::is_alphabetic`, which depends on the character alone; no
/// white space, parenthesis or quote mark is alphabetic.
#[verifier::external_body]
fn is_alphabetic(c: char) -> (r: bool)
    ensures
        r == alphabetic(c),
        is_delimiter(c) ==> !r,
{
    c.is_alphabetic()
}

/// Relies on `char::is_numeric`, which depends on the character alone; no
/// white space, parenthesis or quote mark is numeric.
#[verifier::external_body]
fn is_numeric(c: char) -> (r: bool)
    ensures
        r == numeric(c),
        is_delimiter(c) ==> !r,
{
    c.is_numeric()
}

/// The text did not form a sequence of values.
#[derive(Clone, Debug, PartialEq, Eq)]
pub struct ParseError;

pub open spec fn is_space(c: char) -> bool {
    c == ' ' || c == '\t' || c == '\n' || c == '\r'
}

pub open spec fn symbol_first(c: char) -> bool {
    (alphabetic(c) && !is_delimiter(c)) || c == '_' || c == '-' || c == '+' || c == '*' || c == '?' || c == '='
        || c == '/' || c == '!' || c == '&' || c == '|'
}

pub open spec fn symbol_rest(c: char) -> bool {
    symbol_first(c) || (numeric(c) && !is_delimiter(c))
}

pub open spec fn is_digit(c: char) -> bool {
    '0' <= c && c <= '9'
}

pub open spec fn digit_value(c: char) -> nat {
    (c as u32 - '0' as u32) as nat
}

/// The position after the white space that starts at `i`.
pub open spec fn skip_ws(s: Seq<char>, i: nat) -> nat
    decreases s.len() - i,
{
    if i < s.len() && is_space(s[i as int]) {
        skip_ws(s, i + 1)
    } else {
        i
    }
}

/// The position after the symbol characters that start at `i`.
pub open spec fn symbol_end(s: Seq<char>, i: nat) -> nat
    decreases s.len() - i,
{
    if i < s.len() && symbol_rest(s[i as int]) {
        symbol_end(s, i + 1)
    } else {
        i
    }
}

/// The digits from `i` on, read into `acc`: their value and the position after them.
pub open spec fn digits_from(s: Seq<char>, i: nat, acc: nat) -> (nat, nat)
    decreases s.len() - i,
{
    if i < s.len() && is_digit(s[i as int]) {
        digits_from(s, i + 1, acc * 10 + digit_value(s[i as int]))
    } else {
        (acc, i)
    }
}

pub open spec fn starts_with(s: Seq<char>, i: nat, t: Seq<char>) -> bool {
    i + t.len() <= s.len() && s.subrange(i as int, (i + t.len()) as int) == t
}

/// An optionally signed decimal integer at `i` that fits in 64 bits.
pub open spec fn int_at(s: Seq<char>, i: nat) -> Option<(i64, nat)> {
    let neg = i < s.len() && s[i as int] == '-';
    let j = if i < s.len() && (s[i as int] == '-' || s[i as int] == '+') {
        i + 1
    } else {
        i
    };
    let (n, k) = digits_from(s, j, 0);
    if k == j {
        None
    } else if neg {
        if n <= 0x8000_0000_0000_0000 {
            Some(((-n) as i64, k))
        } else {
            None
        }
    } else if n <= 0x7fff_ffff_ffff_ffff {
        Some((n as i64, k))
    } else {
        None
    }
}

pub open spec fn unescape(c: char) -> Option<char> {
    if c == 'n' {
        Some('\n')
    } else if c == '\\' {
        Some('\\')
    } else if c == '"' {
        Some('"')
    } else {
        None
    }
}

/// The body of a string literal from `i` on, read onto `acc`: the text and the
/// position after the closing quote.
pub open spec fn string_body(s: Seq<char>, i: nat, acc: Seq<char>) -> Option<(Seq<char>, nat)>
    decreases s.len() - i,
{
    if i >= s.len() {
        None
    } else if s[i as int] == '"' {
        Some((acc, i + 1))
    } else if s[i as int] == '\\' {
        if i + 1 < s.len() && unescape(s[(i + 1) as int]) is Some {
            string_body(s, i + 2, acc.push(unescape(s[(i + 1) as int]).unwrap()))
        } else {
            None
        }
    } else {
        string_body(s, i + 1, acc.push(s[i as int]))
    }
}

/// An atom at `i`: a boolean, an integer, nil, a symbol or a string, tried in that order.
pub open spec fn atom_at(s: Seq<char>, i: nat) -> Option<(Val, nat)> {
    if starts_with(s, i, seq!['t', 'r', 'u', 'e']) {
        Some((Val::Bool(true), i + 4))
    } else if starts_with(s, i, seq!['f', 'a', 'l', 's', 'e']) {
        Some((Val::Bool(false), i + 5))
    } else if int_at(s, i) is Some {
        Some((Val::Int(int_at(s, i).unwrap().0), int_at(s, i).unwrap().1))
    } else if starts_with(s, i, seq!['n', 'i', 'l']) {
        Some((Val::Nil, i + 3))
    } else if i < s.len() && symbol_first(s[i as int]) {
        Some((Val::Sym(s.subrange(i as int, symbol_end(s, i + 1) as int)), symbol_end(s, i + 1)))
    } else if i < s.len() && s[i as int] == '"' {
        match string_body(s, i + 1, Seq::empty()) {
            Some((t, k)) => Some((Val::Str(t), k)),
            None => None,
        }
    } else {
        None
    }
}

pub open spec fn quote_form(v: Val) -> Val {
    Val::Cons(Box::new(Val::Sym("quote"@)), Box::new(Val::Cons(Box::new(v), Box::new(Val::Nil))))
}

/// A parenthesised list at `j`: the list and the position after the closing parenthesis.
pub open spec fn list_at(s: Seq<char>, j: nat) -> Option<(Val, nat)>
    decreases s.len() - j, 0nat,
{
    if j < s.len() && s[j as int] == '(' {
        let (vs, k) = values_at(s, j + 1);
        if k < s.len() && s[k as int] == ')' {
            Some((from_items(vs, Val::Nil), k + 1))
        } else {
            None
        }
    } else {
        None
    }
}

/// A quote mark and the value after it, at `j`: the form `(quote value)` and the position after it.
pub open spec fn quoted_at(s: Seq<char>, j: nat) -> Option<(Val, nat)>
    decreases s.len() - j, 0nat,
{
    if j < s.len() && s[j as int] == '\'' {
        match value_at(s, j + 1) {
            Some((v, k)) => Some((quote_form(v), k)),
            None => None,
        }
    } else {
        None
    }
}

/// A value at `i`, with the white space around it: the value and the position after it.
pub open spec fn value_at(s: Seq<char>, i: nat) -> Option<(Val, nat)>
    decreases s.len() - i, 1nat,
{
    let j = skip_ws(s, i);
    let r = if atom_at(s, j) is Some {
        atom_at(s, j)
    } else if i <= j <= s.len() && list_at(s, j) is Some {
        list_at(s, j)
    } else if i <= j <= s.len() {
        quoted_at(s, j)
    } else {
        None
    };
    match r {
        Some((v, k)) => Some((v, skip_ws(s, k))),
        None => None,
    }
}

/// As many values as follow one another from `i`, and the position after the last.
pub open spec fn values_at(s: Seq<char>, i: nat) -> (Seq<Val>, nat)
    decreases s.len() - i, 2nat,
{
    match value_at(s, i) {
        Some((v, k)) => if i < k <= s.len() {
            let (vs, m) = values_at(s, k);
            (seq![v] + vs, m)
        } else {
            (seq![v], k)
        },
        None => (Seq::empty(), i),
    }
}

/// The values that the whole text spells, or `None` if some of it is left over.
pub open spec fn parse_spec(s: Seq<char>) -> Option<Seq<Val>> {
    let (vs, k) = values_at(s, 0);
    if k == s.len() {
        Some(vs)
    } else {
        None
    }
}

proof fn lemma_digits_grow(s: Seq<char>, i: nat, acc: nat)
    ensures
        digits_from(s, i, acc).0 >= acc,
        digits_from(s, i, acc).1 >= i,
    decreases s.len() - i,
{
    if i < s.len() && is_digit(s[i as int]) {
        lemma_digits_grow(s, i + 1, acc * 10 + digit_value(s[i as int]));
    }
}

fn skip_space(s: &Vec<char>, i: usize) -> (r: usize)
    requires
        i <= s@.len(),
    ensures
        r == skip_ws(s@, i as nat),
        i <= r <= s@.len(),
{
    let mut j = i;
    while j < s.len() && (s[j] == ' ' || s[j] == '\t' || s[j] == '\n' || s[j] == '\r')
        invariant
            i <= j <= s@.len(),
            skip_ws(s@, i as nat) == skip_ws(s@, j as nat),
        decreases s.len() - j,
    {
        j = j + 1;
    }
    j
}

fn symbol_char(c: char, first: bool) -> (r: bool)
    ensures
        r == (if first {
            symbol_first(c)
        } else {
            symbol_rest(c)
        }),
{
    let f = is_alphabetic(c) || c == '_' || c == '-' || c == '+' || c == '*' || c == '?' || c
        == '=' || c == '/' || c == '!' || c == '&' || c == '|';
    if first {
        f
    } else {
        f || is_numeric(c)
    }
}

fn chars_between(s: &Vec<char>, i: usize, k: usize) -> (r: Vec<char>)
    requires
        i <= k <= s@.len(),
    ensures
        r@ == s@.subrange(i as int, k as int),
{
    let mut out: Vec<char> = Vec::new();
    let mut j = i;
    while j < k
        invariant
            i <= j <= k <= s@.len(),
            out@ == s@.subrange(i as int, j as int),
        decreases k - j,
    {
        out.push(s[j]);
        j = j + 1;
        proof {
            assert(out@ =~= s@.subrange(i as int, j as int));
        }
    }
    out
}

fn matches_at(s: &Vec<char>, i: usize, t: &str) -> (r: bool)
    requires
        i <= s@.len(),
    ensures
        r == starts_with(s@, i as nat, t@),
{
    let n = t.unicode_len();
    if n > s.len() - i {
        return false;
    }
    let mut j: usize = 0;
    while j < n
        invariant
            n == t@.len(),
            i + n <= s@.len(),
            s@.len() == s.len(),
            j <= n,
            forall|m: int| 0 <= m < j ==> s@[i + m] == t@[m],
        decreases n - j,
    {
        if s[i + j] != t.get_char(j) {
            return false;
        }
        j = j + 1;
    }
    proof {
        assert(s@.subrange(i as int, (i + t@.len()) as int) =~= t@);
    }
    true
}

fn parse_i64(s: &Vec<char>, i: usize) -> (r: Option<(i64, usize)>)
    requires
        i <= s@.len(),
    ensures
        match int_at(s@, i as nat) {
            Some((n, k)) => r matches Some((x, m)) && x == n && m == k && i < m <= s@.len(),
            None => r is None,
        },
{
    let neg = i < s.len() && s[i] == '-';
    let j = if i < s.len() && (s[i] == '-' || s[i] == '+') {
        i + 1
    } else {
        i
    };
    let mut mag: u128 = 0;
    let mut big = false;
    let mut pos = j;
    let ghost acc: nat = 0;
    while pos < s.len() && '0' <= s[pos] && s[pos] <= '9'
        invariant
            j <= pos <= s@.len(),
            digits_from(s@, j as nat, 0) == digits_from(s@, pos as nat, acc),
            big ==> acc > 0x8000_0000_0000_0000,
            !big ==> mag == acc && mag <= 0x8000_0000_0000_0000,
        decreases s.len() - pos,
    {
        let d = (s[pos] as u32 - '0' as u32) as u128;
        proof {
            acc = acc * 10 + digit_value(s@[pos as int]);
        }
        if !big {
            mag = mag * 10 + d;
            if mag > 0x8000_0000_0000_0000 {
                big = true;
            }
        }
        pos = pos + 1;
    }
    proof {
        lemma_digits_grow(s@, pos as nat, acc);
    }
    if pos == j || big {
        return None;
    }
    if neg {
        if mag <= 0x8000_0000_0000_0000 {
            Some(((-(mag as i128)) as i64, pos))
        } else {
            None
        }
    } else if mag <= 0x7fff_ffff_ffff_ffff {
        Some((mag as i64, pos))
    } else {
        None
    }
}

/// A string literal at `i`, quotes included: its text and the position after it.
pub fn parse_string(s: &Vec<char>, i: usize) -> (r: Option<(String, usize)>)
    requires
        i <= s@.len(),
    ensures
        match (if i < s@.len() && s@[i as int] == '"' {
            string_body(s@, (i + 1) as nat, Seq::empty())
        } else {
            None
        }) {
            Some((t, k)) => r matches Some((x, m)) && x@ == t && m == k && i < m <= s@.len(),
            None => r is None,
        },
{
    if i >= s.len() || s[i] != '"' {
        return None;
    }
    let mut acc: Vec<char> = Vec::new();
    let mut pos = i + 1;
    loop
        invariant
            i < s@.len(),
            s@[i as int] == '"',
            i < pos <= s@.len(),
            string_body(s@, (i + 1) as nat, Seq::empty()) == string_body(s@, pos as nat, acc@),
        decreases s.len() - pos,
    {
        if pos >= s.len() {
            return None;
        }
        let c = s[pos];
        if c == '"' {
            return Some((string_of(&acc), pos + 1));
        } else if c == '\\' {
            if pos + 1 < s.len() {
                let e = s[pos + 1];
                if e == 'n' {
                    acc.push('\n');
                } else if e == '\\' {
                    acc.push('\\');
                } else if e == '"' {
                    acc.push('"');
                } else {
                    return None;
                }
                pos = pos + 2;
            } else {
                return None;
            }
        } else {
            acc.push(c);
            pos = pos + 1;
        }
    }
}

/// An atom at `i`: a boolean, an integer, nil, a symbol or a string, tried in that order.
pub fn parse_atom(s: &Vec<char>, i: usize) -> (r: Option<(Value, usize)>)
    requires
        i <= s@.len(),
    ensures
        match atom_at(s@, i as nat) {
            Some((v, k)) => r matches Some((x, m)) && x@ == v && m == k && i < m <= s@.len(),
            None => r is None,
        },
{
    let len = s.len();
    proof {
        reveal_strlit("true");
        reveal_strlit("false");
        reveal_strlit("nil");
        assert("true"@ =~= seq!['t', 'r', 'u', 'e']);
        assert("false"@ =~= seq!['f', 'a', 'l', 's', 'e']);
        assert("nil"@ =~= seq!['n', 'i', 'l']);
    }
    if matches_at(s, i, "true") {
        return Some((Value::Atom(Atom::Bool(true)), i + 4));
    }
    if matches_at(s, i, "false") {
        return Some((Value::Atom(Atom::Bool(false)), i + 5));
    }
    if let Some((n, k)) = parse_i64(s, i) {
        return Some((Value::Atom(Atom::I64(n)), k));
    }
    if matches_at(s, i, "nil") {
        return Some((Value::Atom(Atom::Nil), i + 3));
    }
    if i < s.len() && symbol_char(s[i], true) {
        let mut k = i + 1;
        while k < s.len() && symbol_char(s[k], false)
            invariant
                i < k <= s@.len(),
                symbol_end(s@, (i + 1) as nat) == symbol_end(s@, k as nat),
            decreases s.len() - k,
        {
            k = k + 1;
        }
        let name = chars_between(s, i, k);
        return Some((Value::Atom(Atom::Symbol(string_of(&name))), k));
    }
    match parse_string(s, i) {
        Some((t, k)) => Some((Value::Atom(Atom::String(t)), k)),
        None => None,
    }
}

/// A parenthesised list at `j`.
pub fn parse_list(s: &Vec<char>, j: usize) -> (r: Option<(Value, usize)>)
    requires
        j <= s@.len(),
    ensures
        match list_at(s@, j as nat) {
            Some((v, k)) => r matches Some((x, m)) && x@ == v && m == k && j < m <= s@.len(),
            None => r is None,
        },
    decreases s@.len() - j, 0nat,
{
    if j < s.len() && s[j] == '(' {
        let (vs, k) = parse_values(s, j + 1);
        if k < s.len() && s[k] == ')' {
            Some((from_vec(vs), k + 1))
        } else {
            None
        }
    } else {
        None
    }
}

/// A quote mark at `j` and the value after it, read as `(quote value)`.
pub fn parse_quote(s: &Vec<char>, j: usize) -> (r: Option<(Value, usize)>)
    requires
        j <= s@.len(),
    ensures
        match quoted_at(s@, j as nat) {
            Some((v, k)) => r matches Some((x, m)) && x@ == v && m == k && j < m <= s@.len(),
            None => r is None,
        },
    decreases s@.len() - j, 0nat,
{
    if j < s.len() && s[j] == '\'' {
        match parse_value(s, j + 1) {
            Some((v, k)) => Some((quote_value(v), k)),
            None => None,
        }
    } else {
        None
    }
}

/// A value at `i`, with the white space around it.
pub fn parse_value(s: &Vec<char>, i: usize) -> (r: Option<(Value, usize)>)
    requires
        i <= s@.len(),
    ensures
        match value_at(s@, i as nat) {
            Some((v, k)) => r matches Some((x, m)) && x@ == v && m == k && i < m <= s@.len(),
            None => r is None,
        },
    decreases s@.len() - i, 1nat,
{
    let j = skip_space(s, i);
    let found = if let Some(a) = parse_atom(s, j) {
        Some(a)
    } else if let Some(l) = parse_list(s, j) {
        Some(l)
    } else {
        parse_quote(s, j)
    };
    match found {
        Some((v, k)) => Some((v, skip_space(s, k))),
        None => None,
    }
}

/// As many values as follow one another from `i`, and the position after the last.
pub fn parse_values(s: &Vec<char>, i: usize) -> (r: (Vec<Value>, usize))
    requires
        i <= s@.len(),
    ensures
        views(r.0@) == values_at(s@, i as nat).0,
        r.1 == values_at(s@, i as nat).1,
        i <= r.1 <= s@.len(),
    decreases s@.len() - i, 2nat,
{
    let mut out: Vec<Value> = Vec::new();
    let mut pos = i;
    loop
        invariant
            i <= pos <= s@.len(),
            values_at(s@, i as nat) == (views(out@) + values_at(s@, pos as nat).0, values_at(s@, pos as nat).1),
        decreases s@.len() - pos,
    {
        match parse_value(s, pos) {
            None => {
                proof {
                    assert(views(out@) + Seq::<Val>::empty() =~= views(out@));
                }
                return (out, pos);
            },
            Some((v, k)) => {
                let ghost before = out@;
                out.push(v);
                proof {
                    let rest = values_at(s@, k as nat).0;
                    assert(views(out@) =~= views(before).push(v@));
                    assert(views(out@) + rest =~= views(before) + (seq![v@] + rest));
                }
                pos = k;
            },
        }
    }
}

/// The values that the whole of `input` spells.
pub fn parse(input: &str) -> (r: Result<Vec<Value>, ParseError>)
    ensures
        match parse_spec(input@) {
            Some(vs) => r matches Ok(v) && views(v@) == vs,
            None => r == Err::<Vec<Value>, ParseError>(ParseError),
        },
{
    let mut chars: Vec<char> = Vec::new();
    push_str(&mut chars, input);
    proof {
        assert(chars@ =~= input@);
    }
    let (values, k) = parse_values(&chars, 0);
    if k == chars.len() {
        Ok(values)
    } else {
        Err(ParseError)
    }
}

} // verus!

use crate::text::{push_str, string_of};
use crate::value::{Atom, Function, Pair, Val, Value};
use vstd::prelude::*;

verus! {

pub open spec fn digit_char(d: nat) -> char {
    if d == 0 {
        '0'
    } else if d == 1 {
        '1'
    } else if d == 2 {
        '2'
    } else if d == 3 {
        '3'
    } else if d == 4 {
        '4'
    } else if d == 5 {
        '5'
    } else if d == 6 {
        '6'
    } else if d == 7 {
        '7'
    } else if d == 8 {
        '8'
    } else {
        '9'
    }
}

/// The decimal digits of `n`, most significant first.
pub open spec fn decimal(n: nat) -> Seq<char>
    decreases n,
{
    if n < 10 {
        seq![digit_char(n)]
    } else {
        decimal(n / 10).push(digit_char(n % 10))
    }
}

pub open spec fn int_text(i: i64) -> Seq<char> {
    if i < 0 {
        seq!['-'] + decimal((-i) as nat)
    } else {
        decimal(i as nat)
    }
}

pub open spec fn escape_char(c: char) -> Seq<char> {
    if c == '"' {
        seq!['\\', '"']
    } else if c == '\\' {
        seq!['\\', '\\']
    } else if c == '\n' {
        seq!['\\', 'n']
    } else {
        seq![c]
    }
}

/// The body of a string literal that reads back as `s`.
pub open spec fn escaped(s: Seq<char>) -> Seq<char>
    decreases s.len(),
{
    if s.len() == 0 {
        Seq::empty()
    } else {
        escaped(s.drop_last()) + escape_char(s.last())
    }
}

/// The canonical text of a value.
pub open spec fn render(v: Val) -> Seq<char>
    decreases v, 0nat,
{
    match v {
        Val::Nil => seq!['(', ')'],
        Val::Sym(s) => s,
        Val::Str(s) => seq!['"'] + escaped(s) + seq!['"'],
        Val::Int(i) => int_text(i),
        Val::Bool(b) => if b {
            seq!['t', 'r', 'u', 'e']
        } else {
            seq!['f', 'a', 'l', 's', 'e']
        },
        Val::Cons(a, b) => seq!['('] + render(*a) + render_rest(*b) + seq![')'],
        Val::Prim(_) => seq!['#', '<', 'b', 'u', 'i', 'l', 't', '-', 'i', 'n', '>'],
        Val::Closure(..) => seq!['#', '<', 'l', 'a', 'm', 'b', 'd', 'a', '>'],
    }
}

/// The text that follows the first element inside a list's parentheses.
pub open spec fn render_rest(v: Val) -> Seq<char>
    decreases v, 1nat,
{
    match v {
        Val::Nil => Seq::empty(),
        Val::Cons(a, b) => seq![' '] + render(*a) + render_rest(*b),
        _ => seq![' ', '.', ' '] + render(v),
    }
}

fn digit(d: u64) -> (c: char)
    requires
        d < 10,
    ensures
        c == digit_char(d as nat),
{
    if d == 0 {
        '0'
    } else if d == 1 {
        '1'
    } else if d == 2 {
        '2'
    } else if d == 3 {
        '3'
    } else if d == 4 {
        '4'
    } else if d == 5 {
        '5'
    } else if d == 6 {
        '6'
    } else if d == 7 {
        '7'
    } else if d == 8 {
        '8'
    } else {
        '9'
    }
}

fn push_decimal(out: &mut Vec<char>, n: u64)
    ensures
        final(out)@ == old(out)@ + decimal(n as nat),
    decreases n,
{
    if n >= 10 {
        push_decimal(out, n / 10);
    }
    out.push(digit(n % 10));
    proof {
        assert(out@ =~= old(out)@ + decimal(n as nat));
    }
}

fn push_escaped(out: &mut Vec<char>, s: &str)
    ensures
        final(out)@ == old(out)@ + escaped(s@),
{
    let mut chars: Vec<char> = Vec::new();
    push_str(&mut chars, s);
    let mut i: usize = 0;
    while i < chars.len()
        invariant
            chars@ == s@,
            i <= chars@.len(),
            out@ == old(out)@ + escaped(s@.subrange(0, i as int)),
        decreases chars.len() - i,
    {
        let c = chars[i];
        if c == '"' {
            out.push('\\');
            out.push('"');
        } else if c == '\\' {
            out.push('\\');
            out.push('\\');
        } else if c == '\n' {
            out.push('\\');
            out.push('n');
        } else {
            out.push(c);
        }
        proof {
            assert(s@.subrange(0, i + 1).drop_last() =~= s@.subrange(0, i as int));
            assert(out@ =~= old(out)@ + escaped(s@.subrange(0, i + 1)));
        }
        i = i + 1;
    }
    proof {
        assert(s@.subrange(0, i as int) =~= s@);
    }
}

/// Writes the text of an atom.
pub fn fmt_atom(atom: &Atom, out: &mut Vec<char>)
    ensures
        final(out)@ == old(out)@ + render(Value::Atom(*atom)@),
{
    match atom {
        Atom::Nil => {
            out.push('(');
            out.push(')');
        },
        Atom::Symbol(s) => push_str(out, s.as_str()),
        Atom::String(s) => {
            out.push('"');
            push_escaped(out, s.as_str());
            out.push('"');
        },
        Atom::I64(i) => {
            if *i < 0 {
                out.push('-');
                push_decimal(out, (-(*i as i128)) as u64);
            } else {
                push_decimal(out, *i as u64);
            }
        },
        Atom::Bool(b) => {
            if *b {
                push_str(out, "true");
            } else {
                push_str(out, "false");
            }
            proof {
                reveal_strlit("true");
                reveal_strlit("false");
            }
        },
    }
    proof {
        assert(out@ =~= old(out)@ + render(Value::Atom(*atom)@));
    }
}

/// Writes what follows the first element of `pair` inside its parentheses.
pub fn inner(pair: &Pair, out: &mut Vec<char>)
    ensures
        final(out)@ == old(out)@ + render((*pair.0)@) + render_rest((*pair.1)@),
    decreases pair, 0nat,
{
    fmt_value(&pair.0, out);
    let ghost mid = out@;
    match &*pair.1 {
        Value::Atom(Atom::Nil) => {},
        Value::Pair(rest) => {
            out.push(' ');
            inner(rest, out);
        },
        other => {
            push_str(out, " . ");
            proof {
                reveal_strlit(" . ");
            }
            fmt_value(other, out);
        },
    }
    proof {
        assert(out@ =~= old(out)@ + render((*pair.0)@) + render_rest((*pair.1)@));
    }
}

/// Writes a list in parentheses.
pub fn fmt_pair(pair: &Pair, out: &mut Vec<char>)
    ensures
        final(out)@ == old(out)@ + render(Value::Pair(*pair)@),
    decreases pair, 1nat,
{
    out.push('(');
    inner(pair, out);
    out.push(')');
    proof {
        assert(out@ =~= old(out)@ + render(Value::Pair(*pair)@));
    }
}

/// Writes the canonical text of a value.
pub fn fmt_value(value: &Value, out: &mut Vec<char>)
    ensures
        final(out)@ == old(out)@ + render(value@),
    decreases value, 2nat,
{
    match value {
        Value::Atom(atom) => fmt_atom(atom, out),
        Value::Pair(pair) => fmt_pair(pair, out),
        Value::Function(Function::BuiltIn(_)) => {
            push_str(out, "#<built-in>");
            proof {
                reveal_strlit("#<built-in>");
                assert(out@ =~= old(out)@ + render(value@));
            }
        },
        Value::Function(Function::Lambda(_)) => {
            push_str(out, "#<lambda>");
            proof {
                reveal_strlit("#<lambda>");
                assert(out@ =~= old(out)@ + render(value@));
            }
        },
    }
}

impl Value {
    /// The canonical text of this value.
    pub fn to_string(&self) -> (r: String)
        ensures
            r@ == render(self@),
    {
        let mut out: Vec<char> = Vec::new();
        fmt_value(self, &mut out);
        proof {
            assert(out@ =~= render(self@));
        }
        string_of(&out)
    }
}

} // verus!

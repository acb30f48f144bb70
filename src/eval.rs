use crate::built_in::{builtin_of, builtin_output, builtin_result, texts, BuiltIn};
use crate::error::{Fault, RuntimeError};
use crate::language::{keyword_of, Keyword};
use crate::list::{
    self, from_items, head_of, list_items, rc_views, split_of, take2_of, take3_of,
};
use crate::text::str_eq;
use crate::value::{Atom, Function, Pair, Val, Value};
use std::rc::Rc;
use vstd::prelude::*;
use vstd::string::StringExecFns;

verus! {

/// The state the evaluator works on: every scope ever created, by id, and the
/// lines written so far.
pub struct World {
    pub scopes: Seq<Map<Seq<char>, Val>>,
    pub output: Seq<Seq<char>>,
}

/// Walks `path` from its innermost id outwards and returns the first binding of `name`.
/// An id that names no scope binds nothing.
pub open spec fn resolve(scopes: Seq<Map<Seq<char>, Val>>, path: Seq<usize>, name: Seq<char>) -> Option<Val>
    decreases path.len(),
{
    if path.len() == 0 {
        None
    } else {
        let id = path.last() as int;
        if id < scopes.len() && scopes[id].contains_key(name) {
            Some(scopes[id][name])
        } else {
            resolve(scopes, path.drop_last(), name)
        }
    }
}

/// What a symbol evaluates to: a built-in first, then the innermost binding.
pub open spec fn lookup_symbol(scopes: Seq<Map<Seq<char>, Val>>, path: Seq<usize>, name: Seq<char>) -> Result<Option<Val>, Fault> {
    match builtin_of(name) {
        Some(b) => Ok(Some(Val::Prim(b))),
        None => match resolve(scopes, path, name) {
            Some(v) => Ok(Some(v)),
            None => Err(Fault::Unbound(name)),
        },
    }
}

/// Parameters bound positionally to arguments; a later parameter of the same name wins.
pub open spec fn bind(names: Seq<Seq<char>>, vals: Seq<Val>) -> Map<Seq<char>, Val>
    decreases names.len(),
{
    if names.len() == 0 {
        Map::empty()
    } else {
        bind(names.drop_last(), vals.drop_last()).insert(names.last(), vals.last())
    }
}

/// The names of a sequence of symbols, or `None` if one of them is not a symbol.
pub open spec fn symbol_names(items: Seq<Val>) -> Option<Seq<Seq<char>>>
    decreases items.len(),
{
    if items.len() == 0 {
        Some(Seq::empty())
    } else {
        match (symbol_names(items.drop_last()), items.last()) {
            (Some(names), Val::Sym(s)) => Some(names.push(s)),
            _ => None,
        }
    }
}

pub open spec fn with_scope(w: World, m: Map<Seq<char>, Val>) -> World {
    World { scopes: w.scopes.push(m), output: w.output }
}

pub open spec fn define_in(w: World, id: int, name: Seq<char>, v: Val) -> World {
    World { scopes: w.scopes.update(id, w.scopes[id].insert(name, v)), output: w.output }
}

/// The special form that heads a call form, if any.
pub open spec fn op_keyword(op: Val) -> Option<Keyword> {
    match op {
        Val::Sym(s) => keyword_of(s),
        _ => None,
    }
}

/// Evaluation of `e` under `path`, nested at most `fuel` deep: the new state and
/// the result (`None` for a definition).
pub open spec fn eval_spec(w: World, e: Val, path: Seq<usize>, fuel: nat) -> (World, Result<Option<Val>, Fault>)
    decreases fuel, 0nat, 0nat,
{
    if fuel == 0 {
        (w, Err(Fault::Exhausted))
    } else {
        let f = (fuel - 1) as nat;
        match e {
            Val::Sym(name) => (w, lookup_symbol(w.scopes, path, name)),
            Val::Cons(op, args) => if op_keyword(*op) is Some {
                special_spec(w, op_keyword(*op).unwrap(), *args, path, f)
            } else {
                call_spec(w, *op, *args, path, f)
            },
            _ => (w, Ok(Some(e))),
        }
    }
}

/// Evaluation of each of `items` in turn, left to right.
pub open spec fn eval_seq(w: World, items: Seq<Val>, path: Seq<usize>, fuel: nat) -> (World, Result<Seq<Val>, Fault>)
    decreases fuel, 1nat, items.len(),
{
    if items.len() == 0 {
        (w, Ok(Seq::empty()))
    } else {
        let (w1, r) = eval_seq(w, items.drop_last(), path, fuel);
        match r {
            Err(f) => (w1, Err(f)),
            Ok(vs) => {
                let (w2, r2) = eval_spec(w1, items.last(), path, fuel);
                match r2 {
                    Err(f) => (w2, Err(f)),
                    Ok(None) => (w2, Err(Fault::NoValue)),
                    Ok(Some(v)) => (w2, Ok(vs.push(v))),
                }
            },
        }
    }
}

/// A call of the function `fv` on the evaluated arguments `vals`.
pub open spec fn apply_spec(w: World, fv: Val, vals: Seq<Val>, fuel: nat) -> (World, Result<Option<Val>, Fault>)
    decreases fuel, 2nat, 0nat,
{
    match fv {
        Val::Prim(b) => {
            let args = from_items(vals, Val::Nil);
            (
                World { scopes: w.scopes, output: w.output + builtin_output(b, args) },
                match builtin_result(b, args) {
                    Ok(v) => Ok(Some(v)),
                    Err(f) => Err(f),
                },
            )
        },
        Val::Closure(names, body, captured) => if vals.len() != names.len() {
            (w, Err(Fault::Arity(names.len(), vals.len())))
        } else {
            eval_spec(
                with_scope(w, bind(names, vals)),
                *body,
                captured.push(w.scopes.len() as usize),
                fuel,
            )
        },
        _ => (w, Err(Fault::NotCallable)),
    }
}

/// A special form `k` with the unevaluated operands `ops`.
pub open spec fn special_spec(w: World, k: Keyword, ops: Val, path: Seq<usize>, fuel: nat) -> (World, Result<Option<Val>, Fault>)
    decreases fuel, 3nat, 0nat,
{
    match k {
        Keyword::Quote => (
            w,
            match head_of(ops) {
                Ok(v) => Ok(Some(v)),
                Err(f) => Err(f),
            },
        ),
        Keyword::Define => match split_of(ops) {
            Err(f) => (w, Err(f)),
            Ok((name, rest)) => match name {
                Val::Sym(n) => match head_of(rest) {
                    Err(f) => (w, Err(f)),
                    Ok(expr) => {
                        let (w1, r) = eval_spec(w, expr, path, fuel);
                        match r {
                            Err(f) => (w1, Err(f)),
                            Ok(None) => (w1, Err(Fault::NoValue)),
                            Ok(Some(v)) => if path.len() > 0 && path.last() < w1.scopes.len() {
                                (define_in(w1, path.last() as int, n, v), Ok(None))
                            } else {
                                (w1, Err(Fault::UnknownScope))
                            },
                        }
                    },
                },
                _ => (w, Err(Fault::NotASymbol)),
            },
        },
        Keyword::Lambda => match take2_of(ops) {
            Err(f) => (w, Err(f)),
            Ok((params, body)) => match list_items(params) {
                None => (w, Err(Fault::NotAList)),
                Some(items) => match symbol_names(items) {
                    None => (w, Err(Fault::NotASymbol)),
                    Some(names) => (
                        with_scope(w, Map::empty()),
                        Ok(
                            Some(
                                Val::Closure(
                                    names,
                                    Box::new(body),
                                    path.push(w.scopes.len() as usize),
                                ),
                            ),
                        ),
                    ),
                },
            },
        },
        Keyword::If => match take3_of(ops) {
            Err(f) => (w, Err(f)),
            Ok((c, t, e)) => {
                let (w1, r) = eval_spec(w, c, path, fuel);
                match r {
                    Err(f) => (w1, Err(f)),
                    Ok(None) => (w1, Err(Fault::NoValue)),
                    Ok(Some(Val::Bool(b))) => if b {
                        eval_spec(w1, t, path, fuel)
                    } else {
                        eval_spec(w1, e, path, fuel)
                    },
                    Ok(Some(_)) => (w1, Err(Fault::TypeMismatch)),
                }
            },
        },
    }
}

/// An ordinary call: the operator, then the arguments left to right, then the application.
pub open spec fn call_spec(w: World, op: Val, args: Val, path: Seq<usize>, fuel: nat) -> (World, Result<Option<Val>, Fault>)
    decreases fuel, 4nat, 0nat,
{
    let (w1, r) = eval_spec(w, op, path, fuel);
    match r {
        Err(f) => (w1, Err(f)),
        Ok(None) => (w1, Err(Fault::NoValue)),
        Ok(Some(fv)) => if !(fv is Prim || fv is Closure) {
            (w1, Err(Fault::NotCallable))
        } else {
            match list_items(args) {
                None => (w1, Err(Fault::NotAList)),
                Some(items) => {
                    let (w2, rs) = eval_seq(w1, items, path, fuel);
                    match rs {
                        Err(f) => (w2, Err(f)),
                        Ok(vals) => apply_spec(w2, fv, vals, fuel),
                    }
                },
            }
        },
    }
}

/// The bindings that a sequence of entries holds; a later entry for a name wins.
pub open spec fn entries_map(s: Seq<(String, Rc<Value>)>) -> Map<Seq<char>, Val>
    decreases s.len(),
{
    if s.len() == 0 {
        Map::empty()
    } else {
        entries_map(s.drop_last()).insert(s.last().0@, (*s.last().1)@)
    }
}

/// One level of name-to-value bindings.
#[derive(Debug)]
pub struct Scope {
    variables_by_name: Vec<(String, Rc<Value>)>,
}

impl View for Scope {
    type V = Map<Seq<char>, Val>;

    closed spec fn view(&self) -> Map<Seq<char>, Val> {
        entries_map(self.variables_by_name@)
    }
}

impl Scope {
    /// An empty scope.
    pub fn new() -> (r: Self)
        ensures
            r@ == Map::<Seq<char>, Val>::empty(),
    {
        Scope { variables_by_name: Vec::new() }
    }

    /// Binds `name` to `value`, replacing any earlier binding of it here.
    pub fn define_variable(&mut self, name: &str, value: Rc<Value>)
        ensures
            final(self)@ == old(self)@.insert(name@, (*value)@),
    {
        let ghost before = self.variables_by_name@;
        self.variables_by_name.push((String::from_str(name), value));
        proof {
            assert(self.variables_by_name@.drop_last() =~= before);
        }
    }

    /// The value bound to `name` here, if any.
    pub fn get(&self, name: &str) -> (r: Option<Rc<Value>>)
        ensures
            match r {
                Some(v) => self@.contains_key(name@) && self@[name@] == (*v)@,
                None => !self@.contains_key(name@),
            },
    {
        let ghost all = self.variables_by_name@;
        let mut i = self.variables_by_name.len();
        assert(all.take(i as int) =~= all);
        while i > 0
            invariant
                all == self.variables_by_name@,
                i <= all.len(),
                entries_map(all).contains_key(name@) == entries_map(all.take(i as int)).contains_key(name@),
                entries_map(all.take(i as int)).contains_key(name@) ==> entries_map(all)[name@] == entries_map(all.take(i as int))[name@],
            decreases i,
        {
            assert(all.take(i as int).drop_last() =~= all.take(i - 1));
            let entry = &self.variables_by_name[i - 1];
            if str_eq(entry.0.as_str(), name) {
                return Some(entry.1.clone());
            }
            i = i - 1;
        }
        None
    }
}

/// The chain of scope ids in effect, outermost first.
#[derive(Clone, Debug, PartialEq, Eq)]
pub struct ScopePath {
    indices: Vec<usize>,
}

impl View for ScopePath {
    type V = Seq<usize>;

    closed spec fn view(&self) -> Seq<usize> {
        self.indices@
    }
}

impl ScopePath {
    /// The path holding only the top-level scope.
    pub fn new() -> (r: Self)
        ensures
            r@ == seq![0usize],
    {
        let mut indices: Vec<usize> = Vec::new();
        indices.push(0);
        proof {
            assert(indices@ =~= seq![0usize]);
        }
        ScopePath { indices }
    }

    /// This path with `index` appended as the new innermost scope.
    pub fn push(&self, index: usize) -> (r: Self)
        ensures
            r@ == self@.push(index),
    {
        let mut indices: Vec<usize> = Vec::new();
        let mut i: usize = 0;
        while i < self.indices.len()
            invariant
                i <= self.indices@.len(),
                indices@ == self.indices@.take(i as int),
            decreases self.indices.len() - i,
        {
            indices.push(self.indices[i]);
            i = i + 1;
            proof {
                assert(indices@ =~= self.indices@.take(i as int));
            }
        }
        indices.push(index);
        proof {
            assert(indices@ =~= self@.push(index));
        }
        ScopePath { indices }
    }

    /// The innermost scope id.
    pub fn current(&self) -> (r: Option<usize>)
        ensures
            r == (if self@.len() > 0 {
                Some(self@.last())
            } else {
                None::<usize>
            }),
    {
        let n = self.indices.len();
        if n == 0 {
            None
        } else {
            Some(self.indices[n - 1])
        }
    }
}

/// A user-defined closure.
#[derive(Clone, Debug, PartialEq, Eq)]
pub struct Lambda {
    pub argument_names: Vec<String>,
    pub code_ast: Rc<Value>,
    pub scope_path: ScopePath,
}

/// How deep an evaluation started by [`Runtime::eval`] may nest.
pub const MAX_DEPTH: u64 = 400;

pub open spec fn outcome_view(r: Result<Option<Rc<Value>>, RuntimeError>) -> Result<Option<Val>, Fault> {
    match r {
        Ok(Some(v)) => Ok(Some((*v)@)),
        Ok(None) => Ok(None),
        Err(e) => Err(e@),
    }
}

pub open spec fn values_view(r: Result<Vec<Rc<Value>>, RuntimeError>) -> Result<Seq<Val>, Fault> {
    match r {
        Ok(v) => Ok(rc_views(v@)),
        Err(e) => Err(e@),
    }
}

/// The evaluator's state: every scope created so far, and what `println` wrote.
pub struct Runtime {
    scopes: Vec<Scope>,
    output: Vec<String>,
}

impl View for Runtime {
    type V = World;

    closed spec fn view(&self) -> World {
        World { scopes: self.scopes@.map_values(|s: Scope| s@), output: texts(self.output@) }
    }
}

impl Runtime {
    /// A runtime holding only the empty top-level scope.
    pub fn new() -> (r: Self)
        ensures
            r@ == (World { scopes: seq![Map::<Seq<char>, Val>::empty()], output: Seq::empty() }),
    {
        let mut scopes: Vec<Scope> = Vec::new();
        scopes.push(Scope::new());
        let r = Runtime { scopes, output: Vec::new() };
        proof {
            assert(r@.scopes =~= seq![Map::<Seq<char>, Val>::empty()]);
            assert(r@.output =~= Seq::<Seq<char>>::empty());
        }
        r
    }

    /// The lines written by `println` so far, oldest first.
    pub fn output(&self) -> (r: &Vec<String>)
        ensures
            texts(r@) == self@.output,
    {
        &self.output
    }

    /// Appends a new empty scope and returns its id.
    fn make_scope(&mut self) -> (id: usize)
        ensures
            id == old(self)@.scopes.len(),
            final(self)@ == with_scope(old(self)@, Map::empty()),
    {
        let id = self.scopes.len();
        self.scopes.push(Scope::new());
        proof {
            assert(self@.scopes =~= old(self)@.scopes.push(Map::empty()));
        }
        id
    }

    /// Binds `name` in the scope `id`.
    fn define_at(&mut self, id: usize, name: &str, value: Rc<Value>)
        requires
            id < old(self)@.scopes.len(),
        ensures
            final(self)@ == define_in(old(self)@, id as int, name@, (*value)@),
    {
        self.scopes[id].define_variable(name, value);
        proof {
            assert(self@.scopes =~= old(self)@.scopes.update(
                id as int,
                old(self)@.scopes[id as int].insert(name@, (*value)@),
            ));
        }
    }

    fn resolve_name(&self, name: &str, scope_path: &ScopePath) -> (r: Option<Rc<Value>>)
        ensures
            match resolve(self@.scopes, scope_path@, name@) {
                Some(v) => r matches Some(x) && (*x)@ == v,
                None => r is None,
            },
    {
        let mut i = scope_path.indices.len();
        assert(scope_path@.take(i as int) =~= scope_path@);
        while i > 0
            invariant
                i <= scope_path@.len(),
                resolve(self@.scopes, scope_path@, name@) == resolve(
                    self@.scopes,
                    scope_path@.take(i as int),
                    name@,
                ),
            decreases i,
        {
            let id = scope_path.indices[i - 1];
            proof {
                assert(scope_path@.take(i as int).drop_last() =~= scope_path@.take(i - 1));
            }
            if id < self.scopes.len() {
                if let Some(v) = self.scopes[id].get(name) {
                    return Some(v);
                }
            }
            i = i - 1;
        }
        None
    }

    fn lookup_symbol(&self, name: &str, scope_path: &ScopePath) -> (r: Result<Option<Rc<Value>>, RuntimeError>)
        ensures
            outcome_view(r) == lookup_symbol(self@.scopes, scope_path@, name@),
    {
        if let Some(built_in) = BuiltIn::from_str(name) {
            Ok(Some(Rc::new(Value::built_in(built_in))))
        } else if let Some(v) = self.resolve_name(name, scope_path) {
            Ok(Some(v))
        } else {
            Err(RuntimeError::Unbound(String::from_str(name)))
        }
    }
}

impl Runtime {
    /// Evaluates `value` under `scope_path`, nesting at most `fuel` deep.
    pub fn eval_with_scope_path(&mut self, value: &Rc<Value>, scope_path: &ScopePath, fuel: u64) -> (r: Result<Option<Rc<Value>>, RuntimeError>)
        ensures
            (final(self)@, outcome_view(r)) == eval_spec(old(self)@, (**value)@, scope_path@, fuel as nat),
        decreases fuel, 0nat,
    {
        if fuel == 0 {
            return Err(RuntimeError::Exhausted);
        }
        match &**value {
            Value::Function(_) => Ok(Some(value.clone())),
            Value::Atom(atom) => match atom.symbol() {
                Some(name) => self.lookup_symbol(name, scope_path),
                None => Ok(Some(value.clone())),
            },
            Value::Pair(Pair(op, args)) => {
                if let Value::Atom(Atom::Symbol(symbol_name)) = &**op {
                    if let Some(keyword) = Keyword::from_str(symbol_name.as_str()) {
                        proof {
                            assert(op_keyword((**op)@) == Some(keyword));
                        }
                        return self.eval_special(keyword, args, scope_path, fuel - 1);
                    }
                }
                self.eval_call(op, args, scope_path, fuel - 1)
            },
        }
    }

    fn eval_special(&mut self, keyword: Keyword, args: &Rc<Value>, scope_path: &ScopePath, fuel: u64) -> (r: Result<Option<Rc<Value>>, RuntimeError>)
        ensures
            (final(self)@, outcome_view(r)) == special_spec(old(self)@, keyword, (**args)@, scope_path@, fuel as nat),
        decreases fuel, 3nat,
    {
        match keyword {
            Keyword::Quote => match list::head(args) {
                Ok(v) => Ok(Some(v)),
                Err(e) => Err(e),
            },
            Keyword::Define => self.eval_define(&**args, scope_path, fuel),
            Keyword::Lambda => match self.define_lambda(&**args, scope_path) {
                Ok(lambda) => Ok(Some(Rc::new(Value::Function(Function::Lambda(lambda))))),
                Err(e) => Err(e),
            },
            Keyword::If => {
                let (condition, if_true, if_false) = match list::take3(&**args) {
                    Ok(t) => t,
                    Err(e) => return Err(e),
                };
                let condition_evalled = match self.eval_with_scope_path(&condition, scope_path, fuel) {
                    Ok(Some(v)) => v,
                    Ok(None) => return Err(RuntimeError::NoValue),
                    Err(e) => return Err(e),
                };
                match &*condition_evalled {
                    Value::Atom(Atom::Bool(b)) => {
                        if *b {
                            self.eval_with_scope_path(&if_true, scope_path, fuel)
                        } else {
                            self.eval_with_scope_path(&if_false, scope_path, fuel)
                        }
                    },
                    _ => Err(RuntimeError::TypeMismatch),
                }
            },
        }
    }

    fn eval_define(&mut self, args: &Value, scope_path: &ScopePath, fuel: u64) -> (r: Result<Option<Rc<Value>>, RuntimeError>)
        ensures
            (final(self)@, outcome_view(r)) == special_spec(old(self)@, Keyword::Define, args@, scope_path@, fuel as nat),
        decreases fuel, 1nat,
    {
        let (name, rest) = match list::split_head(args) {
            Ok(p) => p,
            Err(e) => return Err(e),
        };
        match &*name {
            Value::Atom(Atom::Symbol(symbol_name)) => {
                let expr = match list::head(&rest) {
                    Ok(v) => v,
                    Err(e) => return Err(e),
                };
                let result_value = match self.eval_with_scope_path(&expr, scope_path, fuel) {
                    Ok(Some(v)) => v,
                    Ok(None) => return Err(RuntimeError::NoValue),
                    Err(e) => return Err(e),
                };
                match scope_path.current() {
                    Some(scope_index) => {
                        if scope_index < self.scopes.len() {
                            self.define_at(scope_index, symbol_name.as_str(), result_value);
                            Ok(None)
                        } else {
                            Err(RuntimeError::UnknownScope)
                        }
                    },
                    None => Err(RuntimeError::UnknownScope),
                }
            },
            _ => Err(RuntimeError::NotASymbol),
        }
    }

    fn define_lambda(&mut self, args: &Value, scope_path: &ScopePath) -> (r: Result<Lambda, RuntimeError>)
        ensures
            (final(self)@, match r {
                Ok(l) => Ok(Some(Value::Function(Function::Lambda(l))@)),
                Err(e) => Err(e@),
            }) == special_spec(old(self)@, Keyword::Lambda, args@, scope_path@, 0),
    {
        let (params, code_ast) = match list::take2(args) {
            Ok(p) => p,
            Err(e) => return Err(e),
        };
        let items = match list::to_vec(&*params) {
            Ok(v) => v,
            Err(e) => return Err(e),
        };
        let ghost all = rc_views(items@);
        let mut argument_names: Vec<String> = Vec::new();
        let mut i: usize = 0;
        while i < items.len()
            invariant
                i <= items@.len(),
                all == rc_views(items@),
                symbol_names(all.take(i as int)) == Some(crate::value::names_view(argument_names@)),
                self@ == old(self)@,
                take2_of(args@) == Ok::<(Val, Val), Fault>(((*params)@, (*code_ast)@)),
                list_items((*params)@) == Some(all),
            decreases items.len() - i,
        {
            proof {
                assert(all.take(i + 1).drop_last() =~= all.take(i as int));
            }
            match &*items[i] {
                Value::Atom(Atom::Symbol(s)) => {
                    let ghost before = argument_names@;
                    argument_names.push(s.clone());
                    proof {
                        assert(crate::value::names_view(argument_names@) =~= crate::value::names_view(before).push(s@));
                    }
                },
                _ => {
                    proof {
                        assert(all.take(i + 1).last() == (*items@[i as int])@);
                        assert(symbol_names(all.take(i + 1)) is None);
                        lemma_symbol_names_prefix(all, i as int + 1);
                    }
                    return Err(RuntimeError::NotASymbol);
                },
            }
            i = i + 1;
        }
        proof {
            assert(all.take(i as int) =~= all);
        }
        let scope_index = self.make_scope();
        Ok(Lambda { argument_names, code_ast, scope_path: scope_path.push(scope_index) })
    }
}

impl Runtime {
    fn eval_call(&mut self, op: &Rc<Value>, args: &Rc<Value>, scope_path: &ScopePath, fuel: u64) -> (r: Result<Option<Rc<Value>>, RuntimeError>)
        ensures
            (final(self)@, outcome_view(r)) == call_spec(old(self)@, (**op)@, (**args)@, scope_path@, fuel as nat),
        decreases fuel, 4nat,
    {
        let op_value = match self.eval_with_scope_path(op, scope_path, fuel) {
            Ok(Some(v)) => v,
            Ok(None) => return Err(RuntimeError::NoValue),
            Err(e) => return Err(e),
        };
        match &*op_value {
            Value::Function(function) => {
                let items = match list::to_vec(&**args) {
                    Ok(v) => v,
                    Err(e) => return Err(e),
                };
                let values = match self.eval_args(&items, scope_path, fuel) {
                    Ok(v) => v,
                    Err(e) => return Err(e),
                };
                self.apply(function, &values, fuel)
            },
            _ => Err(RuntimeError::NotCallable),
        }
    }

    /// Evaluates each of `items`, left to right.
    fn eval_args(&mut self, items: &Vec<Rc<Value>>, scope_path: &ScopePath, fuel: u64) -> (r: Result<Vec<Rc<Value>>, RuntimeError>)
        ensures
            (final(self)@, values_view(r)) == eval_seq(old(self)@, rc_views(items@), scope_path@, fuel as nat),
        decreases fuel, 1nat,
    {
        let ghost all = rc_views(items@);
        let mut values: Vec<Rc<Value>> = Vec::new();
        let mut i: usize = 0;
        proof {
            assert(all.take(0) =~= Seq::<Val>::empty());
            assert(rc_views(values@) =~= Seq::<Val>::empty());
        }
        while i < items.len()
            invariant
                i <= items@.len(),
                all == rc_views(items@),
                eval_seq(old(self)@, all.take(i as int), scope_path@, fuel as nat) == (self@, Ok::<Seq<Val>, Fault>(rc_views(values@))),
            decreases items.len() - i,
        {
            proof {
                assert(all.take(i + 1).drop_last() =~= all.take(i as int));
            }
            let ghost prefix = all.take(i + 1);
            let v = match self.eval_with_scope_path(&items[i], scope_path, fuel) {
                Ok(Some(v)) => v,
                Ok(None) => {
                    proof {
                        lemma_eval_seq_prefix_err(old(self)@, all, i as int + 1, scope_path@, fuel as nat);
                    }
                    return Err(RuntimeError::NoValue);
                },
                Err(e) => {
                    proof {
                        lemma_eval_seq_prefix_err(old(self)@, all, i as int + 1, scope_path@, fuel as nat);
                    }
                    return Err(e);
                },
            };
            let ghost before = values@;
            values.push(v);
            proof {
                assert(rc_views(values@) =~= rc_views(before).push((*v)@));
            }
            i = i + 1;
        }
        proof {
            assert(all.take(i as int) =~= all);
        }
        Ok(values)
    }

    /// Calls `function` on the evaluated arguments `args`.
    fn apply(&mut self, function: &Function, args: &Vec<Rc<Value>>, fuel: u64) -> (r: Result<Option<Rc<Value>>, RuntimeError>)
        ensures
            (final(self)@, outcome_view(r)) == apply_spec(old(self)@, Value::Function(*function)@, rc_views(args@), fuel as nat),
        decreases fuel, 2nat,
    {
        match function {
            Function::BuiltIn(built_in) => {
                let list = Rc::new(list::from_rc_vec(args));
                match built_in.eval(&list, &mut self.output) {
                    Ok(v) => Ok(Some(v)),
                    Err(e) => Err(e),
                }
            },
            Function::Lambda(lambda) => self.call_lambda(lambda, args, fuel),
        }
    }

    fn call_lambda(&mut self, lambda: &Lambda, args: &Vec<Rc<Value>>, fuel: u64) -> (r: Result<Option<Rc<Value>>, RuntimeError>)
        ensures
            (final(self)@, outcome_view(r)) == apply_spec(old(self)@, Value::Function(Function::Lambda(*lambda))@, rc_views(args@), fuel as nat),
        decreases fuel, 1nat,
    {
        let n = lambda.argument_names.len();
        if args.len() != n {
            return Err(RuntimeError::ArityMismatch { expected: n, found: args.len() });
        }
        let ghost names = crate::value::names_view(lambda.argument_names@);
        let ghost vals = rc_views(args@);
        let arg_scope_index = self.make_scope();
        let ghost base = old(self)@;
        let mut i: usize = 0;
        proof {
            assert(names.take(0) =~= Seq::<Seq<char>>::empty());
            assert(vals.take(0) =~= Seq::<Val>::empty());
        }
        while i < n
            invariant
                n == lambda.argument_names@.len(),
                n == args@.len(),
                i <= n,
                names == crate::value::names_view(lambda.argument_names@),
                vals == rc_views(args@),
                arg_scope_index == base.scopes.len(),
                self@ == with_scope(base, bind(names.take(i as int), vals.take(i as int))),
            decreases n - i,
        {
            proof {
                assert(names.take(i + 1).drop_last() =~= names.take(i as int));
                assert(vals.take(i + 1).drop_last() =~= vals.take(i as int));
            }
            self.define_at(arg_scope_index, lambda.argument_names[i].as_str(), args[i].clone());
            i = i + 1;
            proof {
                assert(self@.scopes =~= with_scope(base, bind(names.take(i as int), vals.take(i as int))).scopes);
            }
        }
        proof {
            assert(names.take(n as int) =~= names);
            assert(vals.take(n as int) =~= vals);
        }
        let scope_path = lambda.scope_path.push(arg_scope_index);
        self.eval_with_scope_path(&lambda.code_ast, &scope_path, fuel)
    }
}

impl Runtime {
    /// Evaluates a top-level expression; `None` for a definition.
    pub fn eval(&mut self, value: &Rc<Value>) -> (r: Result<Option<Rc<Value>>, RuntimeError>)
        ensures
            (final(self)@, outcome_view(r)) == eval_spec(old(self)@, (**value)@, seq![0usize], MAX_DEPTH as nat),
    {
        let scope_path = ScopePath::new();
        self.eval_with_scope_path(value, &scope_path, MAX_DEPTH)
    }

    /// The value bound to `name` at top level, if any.
    pub fn get_top_level_variable(&self, name: &str) -> (r: Option<Rc<Value>>)
        ensures
            match resolve(self@.scopes, seq![0usize], name@) {
                Some(v) => r matches Some(x) && (*x)@ == v,
                None => r is None,
            },
    {
        proof {
            reveal_with_fuel(resolve, 2);
            assert(seq![0usize].drop_last() =~= Seq::<usize>::empty());
        }
        if self.scopes.len() == 0 {
            None
        } else {
            proof {
                assert(self@.scopes[0] == self.scopes@[0]@);
                assert(seq![0usize].last() == 0);
            }
            self.scopes[0].get(name)
        }
    }
}

/// Once a prefix of the arguments fails, the whole argument list fails the same way.
pub proof fn lemma_eval_seq_prefix_err(w: World, items: Seq<Val>, k: int, path: Seq<usize>, fuel: nat)
    requires
        0 <= k <= items.len(),
        eval_seq(w, items.take(k), path, fuel).1 is Err,
    ensures
        eval_seq(w, items, path, fuel) == eval_seq(w, items.take(k), path, fuel),
    decreases items.len() - k,
{
    if k < items.len() {
        assert(items.take(k + 1).drop_last() =~= items.take(k));
        lemma_eval_seq_prefix_err(w, items, k + 1, path, fuel);
    } else {
        assert(items.take(k) =~= items);
    }
}

/// If a prefix of `items` holds a non-symbol, so does the whole.
pub proof fn lemma_symbol_names_prefix(items: Seq<Val>, k: int)
    requires
        0 <= k <= items.len(),
        symbol_names(items.take(k)) is None,
    ensures
        symbol_names(items) is None,
    decreases items.len() - k,
{
    if k < items.len() {
        assert(items.take(k + 1).drop_last() =~= items.take(k));
        lemma_symbol_names_prefix(items, k + 1);
    } else {
        assert(items.take(k) =~= items);
    }
}

} // verus!

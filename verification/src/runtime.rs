//! The runtime support library: six synchronous entry points invoked by
//! generated code to enforce the language's dynamic semantics — type
//! assertion, structural pattern matching, arity checking,
//! variable-definedness checking, guarded-proposition evaluation, and
//! late-bound function dispatch.
//!
//! All entry points are pure: instead of raising they return a
//! [`RuntimeError`], which the embedding host propagates as its standard
//! error mechanism.

use vstd::prelude::*;
use crate::value::{Value, Val, ValueType, type_of, seq_model, lemma_seq_model_len,
    lemma_seq_model_index};

verus! {

/// A runtime pattern, as built by generated code: a wildcard, a binding
/// (or, when already bound, unifying) variable, an exact value compared
/// structurally, or a tuple matched element-wise, left to right.
#[derive(Debug, PartialEq)]
pub enum MatchPattern {
    Wildcard,
    Variable(String),
    Exact(Value),
    Tuple(Vec<MatchPattern>),
}

/// A guard expression evaluated under the current bindings when a clause's
/// propositions run. Equality is structural; conjunction and disjunction
/// short-circuit left to right.
#[derive(Debug, PartialEq)]
pub enum GuardExpr {
    Lit(Value),
    Var(String),
    Equals(Box<GuardExpr>, Box<GuardExpr>),
    Negate(Box<GuardExpr>),
    Conj(Box<GuardExpr>, Box<GuardExpr>),
    Disj(Box<GuardExpr>, Box<GuardExpr>),
}

/// One proposition of a clause body: a boolean constraint that must
/// evaluate true, or a pattern binding that introduces variables visible
/// to every later proposition.
#[derive(Debug, PartialEq)]
pub enum GuardProp {
    Constraint(GuardExpr),
    Binding(MatchPattern, GuardExpr),
}

/// One bound variable of the current scope.
#[derive(Debug, PartialEq)]
pub struct Binding {
    pub name: String,
    pub value: Value,
}

/// The accumulating binding scope of a clause attempt. Names are unique:
/// a variable is bound at most once, and matching an already-bound
/// variable unifies instead of rebinding.
#[derive(Debug, PartialEq)]
pub struct Bindings {
    pub entries: Vec<Binding>,
}

/// Model of one bound variable.
#[verifier::ext_equal]
pub struct Bnd {
    pub name: Seq<char>,
    pub value: Val,
}

pub open spec fn bnd_of(b: Binding) -> Bnd {
    Bnd { name: b.name@, value: b.value@ }
}

pub open spec fn bindings_model(s: Seq<Binding>) -> Seq<Bnd> {
    s.map_values(|b: Binding| bnd_of(b))
}

impl View for Bindings {
    type V = Seq<Bnd>;

    open spec fn view(&self) -> Seq<Bnd> {
        bindings_model(self.entries@)
    }
}

/// An error raised by the runtime library, modelled.
#[verifier::ext_equal]
pub enum RtErr {
    TypeMismatch { expected: ValueType, actual: ValueType, value: Val },
    MatchFailure,
    ArityMismatch { received: int, expected: int },
    UnboundVariable { name: Seq<char> },
    UnmetConstraint { index: int },
    NoClauseMatched { callee: Seq<char>, args: Seq<Val> },
    NoArmMatched,
    UnknownFunction { name: Seq<char> },
}

/// An error raised by the runtime library. The host treats it as fatal to
/// the running computation: the source language has no catch construct.
#[derive(Debug, PartialEq)]
pub enum RuntimeError {
    /// A value did not have the type the generated code asserted; the
    /// error carries the offending value.
    TypeMismatch { expected: ValueType, actual: ValueType, value: Value },
    /// A single-shot structural match failed; nothing was bound.
    MatchFailure,
    /// A call reached a callee declared with another parameter count.
    ArityMismatch { received: usize, expected: usize },
    /// A generated cross-module reference named an unbound variable.
    UnboundVariable { name: String },
    /// The proposition at this position (from zero) is the first unmet one.
    UnmetConstraint { index: usize },
    /// No clause of the callee matched the arguments; the error identifies
    /// both.
    NoClauseMatched { callee: String, args: Vec<Value> },
    /// Defensive fallback of a flow match whose arms were all tried.
    NoArmMatched,
    /// Late-bound dispatch found no function of this name.
    UnknownFunction { name: String },
}

pub open spec fn err_model(e: RuntimeError) -> RtErr {
    match e {
        RuntimeError::TypeMismatch { expected, actual, value } => RtErr::TypeMismatch {
            expected,
            actual,
            value: value@,
        },
        RuntimeError::MatchFailure => RtErr::MatchFailure,
        RuntimeError::ArityMismatch { received, expected } => RtErr::ArityMismatch {
            received: received as int,
            expected: expected as int,
        },
        RuntimeError::UnboundVariable { name } => RtErr::UnboundVariable { name: name@ },
        RuntimeError::UnmetConstraint { index } => RtErr::UnmetConstraint { index: index as int },
        RuntimeError::NoClauseMatched { callee, args } => RtErr::NoClauseMatched {
            callee: callee@,
            args: seq_model(args@),
        },
        RuntimeError::NoArmMatched => RtErr::NoArmMatched,
        RuntimeError::UnknownFunction { name } => RtErr::UnknownFunction { name: name@ },
    }
}

/// The value bound to `name`, scanning the scope from its oldest entry;
/// names are unique, so at most one entry can hold it.
pub open spec fn lookup(env: Seq<Bnd>, name: Seq<char>) -> Option<Val>
    decreases env.len(),
{
    if env.len() == 0 {
        None::<Val>
    } else if env[0].name == name {
        Some(env[0].value)
    } else {
        lookup(env.drop_first(), name)
    }
}

/// Structural unification of a value against a pattern under the current
/// scope: `None` on mismatch, otherwise the extended scope. A wildcard
/// matches anything and binds nothing; an unbound variable binds; a bound
/// variable requires structural equality; a tuple matches element-wise,
/// left to right, earlier bindings visible to later elements.
pub open spec fn pmatch(p: MatchPattern, v: Val, env: Seq<Bnd>) -> Option<Seq<Bnd>>
    decreases p,
{
    match p {
        MatchPattern::Wildcard => Some(env),
        MatchPattern::Variable(x) => match lookup(env, x@) {
            Some(w) => if w == v {
                Some(env)
            } else {
                None::<Seq<Bnd>>
            },
            None => Some(env.push(Bnd { name: x@, value: v })),
        },
        MatchPattern::Exact(lit) => if lit@ == v {
            Some(env)
        } else {
            None::<Seq<Bnd>>
        },
        MatchPattern::Tuple(_) => match v {
            Val::Tuple(vs) => pmatch_seq((p->Tuple_0)@, vs, env),
            _ => None::<Seq<Bnd>>,
        },
    }
}

pub open spec fn pmatch_seq(ps: Seq<MatchPattern>, vs: Seq<Val>, env: Seq<Bnd>) -> Option<Seq<Bnd>>
    decreases ps,
{
    if ps.len() != vs.len() {
        None::<Seq<Bnd>>
    } else if ps.len() == 0 {
        Some(env)
    } else {
        match pmatch(ps[0], vs[0], env) {
            Some(env2) => pmatch_seq(ps.drop_first(), vs.drop_first(), env2),
            None => None::<Seq<Bnd>>,
        }
    }
}

/// Evaluation of a guard expression under the current scope.
pub open spec fn geval(g: GuardExpr, env: Seq<Bnd>) -> Result<Val, RtErr>
    decreases g,
{
    match g {
        GuardExpr::Lit(v) => Ok(v@),
        GuardExpr::Var(x) => match lookup(env, x@) {
            Some(w) => Ok(w),
            None => Err(RtErr::UnboundVariable { name: x@ }),
        },
        GuardExpr::Equals(a, b) => match geval(*a, env) {
            Ok(va) => match geval(*b, env) {
                Ok(vb) => Ok(Val::Boolean(va == vb)),
                Err(e) => Err(e),
            },
            Err(e) => Err(e),
        },
        GuardExpr::Negate(a) => match geval(*a, env) {
            Ok(Val::Boolean(x)) => Ok(Val::Boolean(!x)),
            Ok(va) => Err(
                RtErr::TypeMismatch {
                    expected: ValueType::Boolean,
                    actual: type_of(va),
                    value: va,
                },
            ),
            Err(e) => Err(e),
        },
        GuardExpr::Conj(a, b) => match geval(*a, env) {
            Ok(Val::Boolean(false)) => Ok(Val::Boolean(false)),
            Ok(Val::Boolean(true)) => match geval(*b, env) {
                Ok(Val::Boolean(y)) => Ok(Val::Boolean(y)),
                Ok(vb) => Err(
                    RtErr::TypeMismatch {
                        expected: ValueType::Boolean,
                        actual: type_of(vb),
                        value: vb,
                    },
                ),
                Err(e) => Err(e),
            },
            Ok(va) => Err(
                RtErr::TypeMismatch {
                    expected: ValueType::Boolean,
                    actual: type_of(va),
                    value: va,
                },
            ),
            Err(e) => Err(e),
        },
        GuardExpr::Disj(a, b) => match geval(*a, env) {
            Ok(Val::Boolean(true)) => Ok(Val::Boolean(true)),
            Ok(Val::Boolean(false)) => match geval(*b, env) {
                Ok(Val::Boolean(y)) => Ok(Val::Boolean(y)),
                Ok(vb) => Err(
                    RtErr::TypeMismatch {
                        expected: ValueType::Boolean,
                        actual: type_of(vb),
                        value: vb,
                    },
                ),
                Err(e) => Err(e),
            },
            Ok(va) => Err(
                RtErr::TypeMismatch {
                    expected: ValueType::Boolean,
                    actual: type_of(va),
                    value: va,
                },
            ),
            Err(e) => Err(e),
        },
    }
}

/// One proposition, run under the current scope: a constraint holds only
/// if its guard evaluates to `true` (a non-boolean or an evaluation error
/// fails it); a binding evaluates its expression and unifies.
pub open spec fn prop_step(p: GuardProp, env: Seq<Bnd>) -> Option<Seq<Bnd>> {
    match p {
        GuardProp::Constraint(g) => match geval(g, env) {
            Ok(v) => if v == Val::Boolean(true) {
                Some(env)
            } else {
                None::<Seq<Bnd>>
            },
            Err(_) => None::<Seq<Bnd>>,
        },
        GuardProp::Binding(pat, g) => match geval(g, env) {
            Ok(v) => pmatch(pat, v, env),
            Err(_) => None::<Seq<Bnd>>,
        },
    }
}

/// Strict left-to-right evaluation of the propositions from position `k`:
/// the extended scope if all succeed, otherwise the position of the first
/// failing proposition. Evaluation short-circuits: nothing after the
/// failure is ever consulted.
pub open spec fn props_eval(props: Seq<GuardProp>, k: int, env: Seq<Bnd>) -> Result<Seq<Bnd>, int>
    decreases props.len() - k,
{
    if k < 0 || k >= props.len() {
        Ok(env)
    } else {
        match prop_step(props[k], env) {
            Some(env2) => props_eval(props, k + 1, env2),
            None => Err(k),
        }
    }
}

/// Raises a typed error — expected versus actual type, with the
/// offending value — if `value` is not of the `expected` type; otherwise
/// succeeds silently.
pub fn assert_type(value: &Value, expected: ValueType) -> (r: Result<(), RuntimeError>)
    ensures
        r is Ok <==> type_of(value@) == expected,
        r is Err ==> err_model(r->Err_0) == (RtErr::TypeMismatch {
            expected,
            actual: type_of(value@),
            value: value@,
        }),
{
    let actual = value.value_type();
    if actual == expected {
        Ok(())
    } else {
        Err(RuntimeError::TypeMismatch { expected, actual, value: value.duplicate() })
    }
}

/// Raises if the received and declared parameter counts differ; otherwise
/// succeeds.
pub fn assert_param_count(received: usize, expected: usize) -> (r: Result<(), RuntimeError>)
    ensures
        r is Ok <==> received == expected,
        r is Err ==> r->Err_0 == (RuntimeError::ArityMismatch { received, expected }),
{
    if received == expected {
        Ok(())
    } else {
        Err(RuntimeError::ArityMismatch { received, expected })
    }
}

impl Bindings {
    /// The empty scope every clause attempt starts from.
    pub fn empty() -> (r: Bindings)
        ensures
            r@ == Seq::<Bnd>::empty(),
    {
        let r = Bindings { entries: Vec::new() };
        proof {
            assert(r@ =~= Seq::<Bnd>::empty());
        }
        r
    }

    /// Looks a name up in the scope.
    pub fn get(&self, name: &String) -> (r: Option<&Value>)
        ensures
            match r {
                Some(v) => lookup(self@, name@) == Some(v@),
                None => lookup(self@, name@) is None,
            },
    {
        let n = self.entries.len();
        let mut i: usize = 0;
        proof {
            assert(self@.skip(0) =~= self@);
        }
        while i < n
            invariant
                n == self.entries@.len(),
                i <= n,
                lookup(self@, name@) == lookup(self@.skip(i as int), name@),
            decreases n - i,
        {
            proof {
                assert(self@.skip(i as int)[0] == bnd_of(self.entries@[i as int]));
            }
            if self.entries[i].name == *name {
                proof {
                    assert(lookup(self@.skip(i as int), name@) == Some(
                        self.entries@[i as int].value@,
                    ));
                }
                return Some(&self.entries[i].value);
            }
            proof {
                assert(self@.skip(i as int).drop_first() =~= self@.skip(i + 1));
            }
            i = i + 1;
        }
        proof {
            assert(self@.skip(n as int) =~= Seq::<Bnd>::empty());
        }
        None
    }
}

/// Raises if `symbol` is unbound in the current scope; a defensive check
/// for cross-module generated references.
pub fn assert_defined(bindings: &Bindings, symbol: &String) -> (r: Result<(), RuntimeError>)
    ensures
        r is Ok <==> lookup(bindings@, symbol@) is Some,
        r is Err ==> err_model(r->Err_0) == (RtErr::UnboundVariable { name: symbol@ }),
{
    match bindings.get(symbol) {
        Some(_) => Ok(()),
        None => Err(RuntimeError::UnboundVariable { name: symbol.clone() }),
    }
}

/// Attempts structural unification of `value` against `pattern` under the
/// given scope; returns the extended scope, or the unchanged error with
/// nothing bound.
fn match_pattern(
    pattern: &MatchPattern,
    value: &Value,
    env: Bindings,
    Ghost(env0): Ghost<Seq<Bnd>>,
) -> (r: Result<Bindings, RuntimeError>)
    requires
        env@ == env0,
    ensures
        r is Ok <==> pmatch(*pattern, value@, env0) is Some,
        r is Ok ==> r->Ok_0@ == pmatch(*pattern, value@, env0)->Some_0,
        r is Err ==> r->Err_0 == RuntimeError::MatchFailure,
    decreases *pattern,
{
    match pattern {
        MatchPattern::Wildcard => Ok(env),
        MatchPattern::Variable(x) => {
            let mut env = env;
            match env.get(x) {
                Some(w) => {
                    if w.deep_eq(value) {
                        Ok(env)
                    } else {
                        Err(RuntimeError::MatchFailure)
                    }
                },
                None => {
                    let ghost prev = env.entries@;
                    env.entries.push(Binding { name: x.clone(), value: value.duplicate() });
                    proof {
                        assert(bindings_model(env.entries@) =~= bindings_model(prev).push(
                            Bnd { name: x@, value: value@ },
                        ));
                    }
                    Ok(env)
                },
            }
        },
        MatchPattern::Exact(lit) => {
            if lit.deep_eq(value) {
                Ok(env)
            } else {
                Err(RuntimeError::MatchFailure)
            }
        },
        MatchPattern::Tuple(ps) => {
            match value {
                Value::Tuple(vs) => {
                    proof {
                        lemma_seq_model_len(vs@);
                        assert(value@ == Val::Tuple(seq_model(vs@)));
                        assert((pattern->Tuple_0)@ == ps@);
                    }
                    if ps.len() != vs.len() {
                        proof {
                            assert(pmatch(*pattern, value@, env0) is None);
                        }
                        return Err(RuntimeError::MatchFailure);
                    }
                    let n = ps.len();
                    let mut cur = env;
                    let mut i: usize = 0;
                    proof {
                        assert(ps@.skip(0) =~= ps@);
                        assert(seq_model(vs@).skip(0) =~= seq_model(vs@));
                    }
                    while i < n
                        invariant
                            *pattern == MatchPattern::Tuple(*ps),
                            *value == Value::Tuple(*vs),
                            n == ps@.len() == vs@.len(),
                            i <= n,
                            seq_model(vs@).len() == n,
                            pmatch_seq(ps@, seq_model(vs@), env0) == pmatch_seq(
                                ps@.skip(i as int),
                                seq_model(vs@).skip(i as int),
                                cur@,
                            ),
                        decreases n - i,
                    {
                        proof {
                            lemma_seq_model_len(vs@);
                            lemma_seq_model_index(vs@, i as int);
                            assert(ps@.skip(i as int)[0] == ps@[i as int]);
                            assert(seq_model(vs@).skip(i as int)[0] == seq_model(vs@)[i as int]);
                            vstd::std_specs::vec::axiom_vec_index_decreases(*ps, i as int);
                            assert(decreases_to!(*pattern => pattern->Tuple_0));
                            assert(pattern->Tuple_0 == *ps);
                        }
                        let ghost cur0 = cur@;
                        let stepped = match_pattern(&ps[i], &vs[i], cur, Ghost(cur0));
                        match stepped {
                            Ok(next) => {
                                proof {
                                    assert(pmatch(ps@[i as int], seq_model(vs@)[i as int], cur0)
                                        == Some(next@));
                                    assert(ps@.skip(i as int).drop_first() =~= ps@.skip(i + 1));
                                    assert(seq_model(vs@).skip(i as int).drop_first() =~= seq_model(
                                        vs@,
                                    ).skip(i + 1));
                                }
                                cur = next;
                            },
                            Err(e) => {
                                proof {
                                    assert(pmatch(ps@[i as int], seq_model(vs@)[i as int], cur0)
                                        is None);
                                    assert(pmatch_seq(
                                        ps@.skip(i as int),
                                        seq_model(vs@).skip(i as int),
                                        cur0,
                                    ) is None);
                                    assert(pmatch(*pattern, value@, env0) is None);
                                }
                                return Err(RuntimeError::MatchFailure);
                            },
                        }
                        i = i + 1;
                    }
                    proof {
                        assert(ps@.skip(n as int) =~= Seq::<MatchPattern>::empty());
                        assert(seq_model(vs@).skip(n as int) =~= Seq::<Val>::empty());
                        assert(pmatch_seq(ps@, seq_model(vs@), env0) == Some(cur@));
                        assert(pmatch(*pattern, value@, env0) == Some(cur@));
                    }
                    Ok(cur)
                },
                _ => {
                    proof {
                        crate::value::lemma_model_variant(*value);
                        assert(pmatch(*pattern, value@, env0) is None);
                    }
                    Err(RuntimeError::MatchFailure)
                },
            }
        },
    }
}

/// Attempts structural unification of `value` against `pattern`, starting
/// from a fresh scope; on success returns the new bindings, on failure
/// raises, binding nothing.
pub fn assert_match(value: &Value, pattern: &MatchPattern) -> (r: Result<Bindings, RuntimeError>)
    ensures
        r is Ok <==> pmatch(*pattern, value@, Seq::<Bnd>::empty()) is Some,
        r is Ok ==> r->Ok_0@ == pmatch(*pattern, value@, Seq::<Bnd>::empty())->Some_0,
        r is Err ==> r->Err_0 == RuntimeError::MatchFailure,
{
    let fresh = Bindings::empty();
    match_pattern(pattern, value, fresh, Ghost(Seq::<Bnd>::empty()))
}

/// Evaluates a guard expression under the current scope.
pub fn eval_guard(g: &GuardExpr, env: &Bindings) -> (r: Result<Value, RuntimeError>)
    ensures
        r is Ok <==> geval(*g, env@) is Ok,
        r is Ok ==> r->Ok_0@ == geval(*g, env@)->Ok_0,
        r is Err ==> err_model(r->Err_0) == geval(*g, env@)->Err_0,
    decreases *g,
{
    match g {
        GuardExpr::Lit(v) => Ok(v.duplicate()),
        GuardExpr::Var(x) => match env.get(x) {
            Some(w) => Ok(w.duplicate()),
            None => Err(RuntimeError::UnboundVariable { name: x.clone() }),
        },
        GuardExpr::Equals(a, b) => {
            proof {
                assert(decreases_to!(*g => g->Equals_0));
                assert(decreases_to!(*g => g->Equals_1));
            }
            match eval_guard(a, env) {
                Ok(va) => match eval_guard(b, env) {
                    Ok(vb) => Ok(Value::Boolean(va.deep_eq(&vb))),
                    Err(e) => Err(e),
                },
                Err(e) => Err(e),
            }
        },
        GuardExpr::Negate(a) => {
            proof {
                assert(decreases_to!(*g => g->Negate_0));
            }
            match eval_guard(a, env) {
                Ok(va) => match va {
                    Value::Boolean(x) => Ok(Value::Boolean(!x)),
                    _ => {
                        let actual = va.value_type();
                        Err(
                            RuntimeError::TypeMismatch {
                                expected: ValueType::Boolean,
                                actual,
                                value: va,
                            },
                        )
                    },
                },
                Err(e) => Err(e),
            }
        },
        GuardExpr::Conj(a, b) => {
            proof {
                assert(decreases_to!(*g => g->Conj_0));
                assert(decreases_to!(*g => g->Conj_1));
            }
            match eval_guard(a, env) {
                Ok(va) => match va {
                    Value::Boolean(false) => Ok(Value::Boolean(false)),
                    Value::Boolean(true) => match eval_guard(b, env) {
                        Ok(vb) => match vb {
                            Value::Boolean(y) => Ok(Value::Boolean(y)),
                            _ => {
                                let actual = vb.value_type();
                                Err(
                                    RuntimeError::TypeMismatch {
                                        expected: ValueType::Boolean,
                                        actual,
                                        value: vb,
                                    },
                                )
                            },
                        },
                        Err(e) => Err(e),
                    },
                    _ => {
                        let actual = va.value_type();
                        Err(
                            RuntimeError::TypeMismatch {
                                expected: ValueType::Boolean,
                                actual,
                                value: va,
                            },
                        )
                    },
                },
                Err(e) => Err(e),
            }
        },
        GuardExpr::Disj(a, b) => {
            proof {
                assert(decreases_to!(*g => g->Disj_0));
                assert(decreases_to!(*g => g->Disj_1));
            }
            match eval_guard(a, env) {
                Ok(va) => match va {
                    Value::Boolean(true) => Ok(Value::Boolean(true)),
                    Value::Boolean(false) => match eval_guard(b, env) {
                        Ok(vb) => match vb {
                            Value::Boolean(y) => Ok(Value::Boolean(y)),
                            _ => {
                                let actual = vb.value_type();
                                Err(
                                    RuntimeError::TypeMismatch {
                                        expected: ValueType::Boolean,
                                        actual,
                                        value: vb,
                                    },
                                )
                            },
                        },
                        Err(e) => Err(e),
                    },
                    _ => {
                        let actual = va.value_type();
                        Err(
                            RuntimeError::TypeMismatch {
                                expected: ValueType::Boolean,
                                actual,
                                value: va,
                            },
                        )
                    },
                },
                Err(e) => Err(e),
            }
        },
    }
}

/// Runs the guard evaluator against `propositions` under `bindings`:
/// strictly left to right, short-circuiting on the first failure, earlier
/// bindings visible to later propositions. Returns the extended bindings,
/// or an error identifying the first unmet proposition by position.
pub fn assert_constraints(bindings: Bindings, propositions: &Vec<GuardProp>) -> (r: Result<
    Bindings,
    RuntimeError,
>)
    ensures
        r is Ok <==> props_eval(propositions@, 0, bindings@) is Ok,
        r is Ok ==> r->Ok_0@ == props_eval(propositions@, 0, bindings@)->Ok_0,
        r is Err ==> err_model(r->Err_0) == (RtErr::UnmetConstraint {
            index: props_eval(propositions@, 0, bindings@)->Err_0,
        }),
{
    let ghost env0 = bindings@;
    run_props(bindings, propositions, Ghost(env0))
}

fn run_props(bindings: Bindings, propositions: &Vec<GuardProp>, Ghost(env0): Ghost<Seq<Bnd>>) -> (r:
    Result<Bindings, RuntimeError>)
    requires
        bindings@ == env0,
    ensures
        r is Ok <==> props_eval(propositions@, 0, env0) is Ok,
        r is Ok ==> r->Ok_0@ == props_eval(propositions@, 0, env0)->Ok_0,
        r is Err ==> err_model(r->Err_0) == (RtErr::UnmetConstraint {
            index: props_eval(propositions@, 0, env0)->Err_0,
        }),
{
    let n = propositions.len();
    let mut cur = bindings;
    let mut k: usize = 0;
    while k < n
        invariant
            n == propositions@.len(),
            k <= n,
            props_eval(propositions@, 0, env0) == props_eval(
                propositions@,
                k as int,
                cur@,
            ),
        decreases n - k,
    {
        let ghost cur0 = cur@;
        let prop = &propositions[k];
        proof {
            assert(propositions@[k as int] == *prop);
        }
        let passed: Result<Bindings, RuntimeError> = match prop {
            GuardProp::Constraint(g) => match eval_guard(g, &cur) {
                Ok(v) => {
                    proof {
                        crate::value::lemma_model_variant(v);
                    }
                    match v {
                        Value::Boolean(true) => Ok(cur),
                        _ => Err(RuntimeError::UnmetConstraint { index: k }),
                    }
                },
                Err(_) => Err(RuntimeError::UnmetConstraint { index: k }),
            },
            GuardProp::Binding(pat, g) => match eval_guard(g, &cur) {
                Ok(v) => match match_pattern(pat, &v, cur, Ghost(cur0)) {
                    Ok(next) => Ok(next),
                    Err(_) => Err(RuntimeError::UnmetConstraint { index: k }),
                },
                Err(_) => Err(RuntimeError::UnmetConstraint { index: k }),
            },
        };
        match passed {
            Ok(next) => {
                proof {
                    assert(prop_step(propositions@[k as int], cur0) == Some(next@));
                    assert(props_eval(propositions@, k as int, cur0) == props_eval(
                        propositions@,
                        k + 1,
                        next@,
                    ));
                }
                cur = next;
            },
            Err(e) => {
                proof {
                    assert(prop_step(propositions@[k as int], cur0) is None);
                    assert(props_eval(propositions@, k as int, cur0) == Err::<Seq<Bnd>, int>(
                        k as int,
                    ));
                }
                return Err(e);
            },
        }
        k = k + 1;
    }
    Ok(cur)
}

/// One alternative of a function: the parameter patterns the arguments
/// must match, and the ordered propositions that must then hold.
#[derive(Debug, PartialEq)]
pub struct FunctionClause {
    pub params: Vec<MatchPattern>,
    pub guards: Vec<GuardProp>,
}

/// A function as registered for late-bound dispatch.
#[derive(Debug, PartialEq)]
pub struct FunctionDef {
    pub name: String,
    pub arity: usize,
    pub clauses: Vec<FunctionClause>,
}

/// The functions visible to late-bound dispatch.
#[derive(Debug, PartialEq)]
pub struct FunctionTable {
    pub defs: Vec<FunctionDef>,
}

/// The outcome of a successful dispatch: which function, which clause, and
/// the bindings its pattern and propositions produced from a fresh scope.
#[derive(Debug, PartialEq)]
pub struct Dispatch {
    pub function_index: usize,
    pub clause_index: usize,
    pub bindings: Bindings,
}

/// Whether a clause applies to the arguments, and under which scope:
/// the arguments are structurally matched against the clause's parameter
/// patterns from a fresh scope, then the propositions run.
pub open spec fn clause_match(c: FunctionClause, args: Seq<Val>) -> Option<Seq<Bnd>> {
    match pmatch_seq(c.params@, args, Seq::<Bnd>::empty()) {
        Some(env) => match props_eval(c.guards@, 0, env) {
            Ok(env2) => Some(env2),
            Err(_) => None::<Seq<Bnd>>,
        },
        None => None::<Seq<Bnd>>,
    }
}

/// The first clause from position `k` that applies, with its scope;
/// clauses are tried strictly in declaration order.
pub open spec fn first_clause_from(clauses: Seq<FunctionClause>, args: Seq<Val>, k: int) -> Option<
    (int, Seq<Bnd>),
>
    decreases clauses.len() - k,
{
    if k < 0 || k >= clauses.len() {
        None::<(int, Seq<Bnd>)>
    } else {
        match clause_match(clauses[k], args) {
            Some(env) => Some((k, env)),
            None => first_clause_from(clauses, args, k + 1),
        }
    }
}

/// Tries the clauses strictly in declaration order, each attempt starting
/// from a fresh scope; the first clause whose pattern match and
/// propositions all succeed is selected. If none succeeds, raises
/// "no clause matched", identifying the callee and the arguments.
pub fn select_clause(callee: &String, clauses: &Vec<FunctionClause>, args: &Vec<Value>) -> (r:
    Result<(usize, Bindings), RuntimeError>)
    ensures
        r is Ok <==> first_clause_from(clauses@, seq_model(args@), 0) is Some,
        r is Ok ==> {
            &&& r->Ok_0.0 as int == first_clause_from(clauses@, seq_model(args@), 0)->Some_0.0
            &&& r->Ok_0.1@ == first_clause_from(clauses@, seq_model(args@), 0)->Some_0.1
        },
        r is Err ==> err_model(r->Err_0) == (RtErr::NoClauseMatched {
            callee: callee@,
            args: seq_model(args@),
        }),
{
    let n = clauses.len();
    let mut k: usize = 0;
    while k < n
        invariant
            n == clauses@.len(),
            k <= n,
            first_clause_from(clauses@, seq_model(args@), 0) == first_clause_from(
                clauses@,
                seq_model(args@),
                k as int,
            ),
        decreases n - k,
    {
        let c = &clauses[k];
        proof {
            assert(clauses@[k as int] == *c);
        }
        let mut matched: Result<Bindings, RuntimeError> = Err(RuntimeError::MatchFailure);
        if c.params.len() == args.len() {
            let np = c.params.len();
            let mut cur = Bindings::empty();
            let mut i: usize = 0;
            let mut failed = false;
            proof {
                lemma_seq_model_len(args@);
                assert(c.params@.skip(0) =~= c.params@);
                assert(seq_model(args@).skip(0) =~= seq_model(args@));
            }
            while i < np && !failed
                invariant
                    np == c.params@.len(),
                    np == args@.len(),
                    seq_model(args@).len() == np,
                    i <= np,
                    !failed ==> pmatch_seq(c.params@, seq_model(args@), Seq::<Bnd>::empty())
                        == pmatch_seq(
                        c.params@.skip(i as int),
                        seq_model(args@).skip(i as int),
                        cur@,
                    ),
                    failed ==> pmatch_seq(c.params@, seq_model(args@), Seq::<Bnd>::empty())
                        is None,
                decreases np - i,
            {
                proof {
                    lemma_seq_model_len(args@);
                    lemma_seq_model_index(args@, i as int);
                    assert(c.params@.skip(i as int)[0] == c.params@[i as int]);
                    assert(seq_model(args@).skip(i as int)[0] == seq_model(args@)[i as int]);
                }
                let ghost cur0 = cur@;
                match match_pattern(&c.params[i], &args[i], cur, Ghost(cur0)) {
                    Ok(next) => {
                        proof {
                            assert(pmatch(c.params@[i as int], seq_model(args@)[i as int], cur0)
                                == Some(next@));
                            assert(c.params@.skip(i as int).drop_first() =~= c.params@.skip(i + 1));
                            assert(seq_model(args@).skip(i as int).drop_first() =~= seq_model(
                                args@,
                            ).skip(i + 1));
                        }
                        cur = next;
                    },
                    Err(_) => {
                        proof {
                            assert(pmatch(c.params@[i as int], seq_model(args@)[i as int], cur0)
                                is None);
                            assert(pmatch_seq(
                                c.params@.skip(i as int),
                                seq_model(args@).skip(i as int),
                                cur0,
                            ) is None);
                        }
                        cur = Bindings::empty();
                        failed = true;
                    },
                }
                i = i + 1;
            }
            if failed {
                matched = Err(RuntimeError::MatchFailure);
            } else {
                proof {
                    assert(c.params@.skip(np as int) =~= Seq::<MatchPattern>::empty());
                    assert(seq_model(args@).skip(np as int) =~= Seq::<Val>::empty());
                }
                matched = Ok(cur);
            }
        } else {
            proof {
                lemma_seq_model_len(args@);
            }
            matched = Err(RuntimeError::MatchFailure);
        }
        let ghost pm = pmatch_seq(c.params@, seq_model(args@), Seq::<Bnd>::empty());
        let attempt: Result<Bindings, RuntimeError> = match matched {
            Ok(env) => {
                let ghost menv = env@;
                match assert_constraints(env, &c.guards) {
                    Ok(env2) => {
                        proof {
                            assert(pm == Some(menv));
                            assert(props_eval(c.guards@, 0, menv) == Ok::<Seq<Bnd>, int>(env2@));
                            assert(clause_match(clauses@[k as int], seq_model(args@)) == Some(
                                env2@,
                            ));
                        }
                        Ok(env2)
                    },
                    Err(_) => {
                        proof {
                            assert(clause_match(clauses@[k as int], seq_model(args@)) is None);
                        }
                        Err(RuntimeError::MatchFailure)
                    },
                }
            },
            Err(e) => {
                proof {
                    assert(pm is None);
                    assert(clause_match(clauses@[k as int], seq_model(args@)) is None);
                }
                Err(e)
            },
        };
        match attempt {
            Ok(env2) => {
                proof {
                    assert(first_clause_from(clauses@, seq_model(args@), k as int) == Some(
                        (k as int, env2@),
                    ));
                }
                return Ok((k, env2));
            },
            Err(_) => {
                proof {
                    assert(first_clause_from(clauses@, seq_model(args@), k as int)
                        == first_clause_from(clauses@, seq_model(args@), k + 1));
                }
            },
        }
        k = k + 1;
    }
    Err(RuntimeError::NoClauseMatched { callee: callee.clone(), args: copy_values(args) })
}

/// A structural copy of an argument list.
fn copy_values(args: &Vec<Value>) -> (r: Vec<Value>)
    ensures
        seq_model(r@) == seq_model(args@),
{
    let n = args.len();
    let mut out: Vec<Value> = Vec::new();
    let mut i: usize = 0;
    proof {
        lemma_seq_model_len(args@);
    }
    while i < n
        invariant
            n == args@.len(),
            i <= n,
            out@.len() == i,
            forall|j: int| 0 <= j < i ==> #[trigger] seq_model(out@)[j] == seq_model(args@)[j],
        decreases n - i,
    {
        proof {
            lemma_seq_model_len(args@);
            lemma_seq_model_len(out@);
            lemma_seq_model_index(args@, i as int);
        }
        let e = args[i].duplicate();
        let ghost prev = out@;
        out.push(e);
        proof {
            lemma_seq_model_len(prev);
            assert(out@.drop_last() =~= prev);
            assert(out@.last() == e);
            assert(seq_model(out@) == seq_model(prev).push(e@));
            assert(forall|j: int|
                0 <= j < i ==> #[trigger] seq_model(out@)[j] == seq_model(prev)[j]);
            lemma_seq_model_len(out@);
            lemma_seq_model_index(out@, i as int);
            assert(seq_model(out@)[i as int] == e@);
        }
        i = i + 1;
    }
    proof {
        lemma_seq_model_len(args@);
        lemma_seq_model_len(out@);
        assert(seq_model(out@) =~= seq_model(args@));
    }
    out
}

/// The first function of this name declared with this arity, from
/// position `k`: dispatch is by name and arity together.
pub open spec fn find_def(defs: Seq<FunctionDef>, name: Seq<char>, arity: int, k: int) -> Option<
    int,
>
    decreases defs.len() - k,
{
    if k < 0 || k >= defs.len() {
        None::<int>
    } else if defs[k].name@ == name && defs[k].arity as int == arity {
        Some(k)
    } else {
        find_def(defs, name, arity, k + 1)
    }
}

/// The first function of this name regardless of arity, from position
/// `k`: consulted only to report an arity mismatch.
pub open spec fn find_named(defs: Seq<FunctionDef>, name: Seq<char>, k: int) -> Option<int>
    decreases defs.len() - k,
{
    if k < 0 || k >= defs.len() {
        None::<int>
    } else if defs[k].name@ == name {
        Some(k)
    } else {
        find_named(defs, name, k + 1)
    }
}

/// Late-bound dispatch by name and arity, used where the callee is not
/// statically known: finds the first function of the callee's name whose
/// declared arity matches the received argument count, and selects its
/// first applicable clause. A name that exists only under other arities
/// raises an arity mismatch against the first such declaration; an
/// unknown name raises.
pub fn call_function(table: &FunctionTable, callee: &String, args: &Vec<Value>) -> (r: Result<
    Dispatch,
    RuntimeError,
>)
    ensures
        find_def(table.defs@, callee@, args@.len() as int, 0) matches Some(d) ==> {
            let sel = first_clause_from(table.defs@[d].clauses@, seq_model(args@), 0);
            &&& (sel is None ==> r is Err && err_model(r->Err_0) == (RtErr::NoClauseMatched {
                callee: callee@,
                args: seq_model(args@),
            }))
            &&& (sel matches Some(ke) ==> r is Ok && r->Ok_0.function_index as int == d
                && r->Ok_0.clause_index as int == ke.0 && r->Ok_0.bindings@ == ke.1)
        },
        find_def(table.defs@, callee@, args@.len() as int, 0) is None ==> {
            &&& (find_named(table.defs@, callee@, 0) matches Some(d0) ==> r is Err && err_model(
                r->Err_0,
            ) == (RtErr::ArityMismatch {
                received: args@.len() as int,
                expected: table.defs@[d0].arity as int,
            }))
            &&& (find_named(table.defs@, callee@, 0) is None ==> r is Err && err_model(r->Err_0)
                == (RtErr::UnknownFunction { name: callee@ }))
        },
{
    let nd = table.defs.len();
    let nargs = args.len();
    let mut d: usize = 0;
    while d < nd
        invariant
            nd == table.defs@.len(),
            nargs == args@.len(),
            d <= nd,
            find_def(table.defs@, callee@, nargs as int, 0) == find_def(
                table.defs@,
                callee@,
                nargs as int,
                d as int,
            ),
        decreases nd - d,
    {
        if table.defs[d].name == *callee && table.defs[d].arity == nargs {
            proof {
                assert(find_def(table.defs@, callee@, nargs as int, d as int) == Some(d as int));
            }
            let def = &table.defs[d];
            match select_clause(callee, &def.clauses, args) {
                Ok((k, env)) => {
                    return Ok(Dispatch { function_index: d, clause_index: k, bindings: env });
                },
                Err(e) => {
                    return Err(e);
                },
            }
        }
        proof {
            assert(find_def(table.defs@, callee@, nargs as int, d as int) == find_def(
                table.defs@,
                callee@,
                nargs as int,
                d + 1,
            ));
        }
        d = d + 1;
    }
    proof {
        assert(find_def(table.defs@, callee@, nargs as int, nd as int) is None);
    }
    let mut d0: usize = 0;
    while d0 < nd
        invariant
            nd == table.defs@.len(),
            nargs == args@.len(),
            d0 <= nd,
            find_def(table.defs@, callee@, nargs as int, 0) is None,
            find_named(table.defs@, callee@, 0) == find_named(table.defs@, callee@, d0 as int),
        decreases nd - d0,
    {
        if table.defs[d0].name == *callee {
            proof {
                assert(find_named(table.defs@, callee@, d0 as int) == Some(d0 as int));
            }
            return Err(
                RuntimeError::ArityMismatch { received: nargs, expected: table.defs[d0].arity },
            );
        }
        proof {
            assert(find_named(table.defs@, callee@, d0 as int) == find_named(
                table.defs@,
                callee@,
                d0 + 1,
            ));
        }
        d0 = d0 + 1;
    }
    proof {
        assert(find_named(table.defs@, callee@, nd as int) is None);
    }
    Err(RuntimeError::UnknownFunction { name: callee.clone() })
}

proof fn lemma_first_clause_step(clauses: Seq<FunctionClause>, args: Seq<Val>, i: int, k: int)
    requires
        0 <= i <= k < clauses.len(),
        clause_match(clauses[k], args) is Some,
        forall|j: int| i <= j < k ==> clause_match(#[trigger] clauses[j], args) is None,
    ensures
        first_clause_from(clauses, args, i) == Some((k, clause_match(clauses[k], args)->Some_0)),
    decreases k - i,
{
    if i < k {
        lemma_first_clause_step(clauses, args, i + 1, k);
    }
}

/// Clause selection: a function whose clauses are tried in declaration
/// order executes exactly the first applicable clause. If the arguments
/// match only clause `k`'s pattern and propositions, dispatch selects
/// exactly clause `k`, under the scope that clause alone produced.
pub proof fn lemma_clause_selection(clauses: Seq<FunctionClause>, args: Seq<Val>, k: int)
    requires
        0 <= k < clauses.len(),
        clause_match(clauses[k], args) is Some,
        forall|j: int| 0 <= j < k ==> clause_match(#[trigger] clauses[j], args) is None,
    ensures
        first_clause_from(clauses, args, 0) == Some((k, clause_match(clauses[k], args)->Some_0)),
{
    lemma_first_clause_step(clauses, args, 0, k);
}

proof fn lemma_no_clause_step(clauses: Seq<FunctionClause>, args: Seq<Val>, i: int)
    requires
        0 <= i,
        forall|j: int| 0 <= j < clauses.len() ==> clause_match(#[trigger] clauses[j], args)
            is None,
    ensures
        first_clause_from(clauses, args, i) is None,
    decreases clauses.len() - i,
{
    if i < clauses.len() {
        lemma_no_clause_step(clauses, args, i + 1);
    }
}

/// Clause selection, negative half: invoked with arguments matching no
/// clause's pattern and constraints, dispatch raises "no clause matched".
pub proof fn lemma_no_clause_selected(clauses: Seq<FunctionClause>, args: Seq<Val>)
    requires
        forall|j: int| 0 <= j < clauses.len() ==> clause_match(#[trigger] clauses[j], args)
            is None,
    ensures
        first_clause_from(clauses, args, 0) is None,
{
    lemma_no_clause_step(clauses, args, 0);
}

proof fn lemma_leak_free_step(clauses: Seq<FunctionClause>, args: Seq<Val>, i: int)
    requires
        0 <= i,
    ensures
        first_clause_from(clauses, args, i) matches Some(ke) ==> i <= ke.0 < clauses.len()
            && clause_match(clauses[ke.0], args) == Some(ke.1),
    decreases clauses.len() - i,
{
    if 0 <= i < clauses.len() {
        lemma_leak_free_step(clauses, args, i + 1);
    }
}

/// No partial binding leak: every clause attempt starts from a fresh
/// scope, so the scope the selected clause runs under is produced by that
/// clause alone from the arguments — no binding made by an earlier,
/// failing clause attempt survives into it. (A failing single-shot match
/// likewise binds nothing: `assert_match` returns bindings only on
/// success.)
pub proof fn lemma_no_binding_leak(clauses: Seq<FunctionClause>, args: Seq<Val>)
    ensures
        first_clause_from(clauses, args, 0) matches Some(ke) ==> 0 <= ke.0 < clauses.len()
            && clause_match(clauses[ke.0], args) == Some(ke.1),
{
    lemma_leak_free_step(clauses, args, 0);
}

/// A failing evaluation fails at a position it actually reached.
pub proof fn lemma_props_err_bounds(props: Seq<GuardProp>, env: Seq<Bnd>, i: int)
    requires
        0 <= i,
    ensures
        props_eval(props, i, env) is Err ==> i <= props_eval(props, i, env)->Err_0 < props.len(),
    decreases props.len() - i,
{
    if i < props.len() {
        match prop_step(props[i], env) {
            Some(env2) => {
                lemma_props_err_bounds(props, env2, i + 1);
            },
            None => {},
        }
    }
}

/// Once proposition evaluation has failed at position `k`, no later
/// proposition is ever consulted: replacing any proposition after `k`
/// changes nothing about the outcome.
pub proof fn lemma_props_short_circuit(
    props: Seq<GuardProp>,
    env: Seq<Bnd>,
    i: int,
    k: int,
    j: int,
    q: GuardProp,
)
    requires
        0 <= i,
        props_eval(props, i, env) == Err::<Seq<Bnd>, int>(k),
        k < j < props.len(),
    ensures
        props_eval(props.update(j, q), i, env) == Err::<Seq<Bnd>, int>(k),
    decreases props.len() - i,
{
    lemma_props_err_bounds(props, env, i);
    assert(i <= k);
    assert(props.update(j, q).len() == props.len());
    assert(props.update(j, q)[i] == props[i]);
    match prop_step(props[i], env) {
        Some(env2) => {
            lemma_props_short_circuit(props, env2, i + 1, k, j, q);
        },
        None => {},
    }
}

/// Guard ordering: given propositions [p1, p2, p3] where p1 succeeds and
/// p2 then fails, p1's bindings are visible while p2 is evaluated (p2 runs
/// under the scope p1 produced), evaluation stops at p2 — the raised error
/// identifies position 1 — and p3 is never evaluated: any proposition in
/// its place yields the same outcome.
pub proof fn lemma_guard_ordering(props: Seq<GuardProp>, env: Seq<Bnd>, q: GuardProp)
    requires
        props.len() == 3,
        prop_step(props[0], env) is Some,
        prop_step(props[1], prop_step(props[0], env)->Some_0) is None,
    ensures
        props_eval(props, 0, env) == Err::<Seq<Bnd>, int>(1),
        props_eval(props.update(2, q), 0, env) == Err::<Seq<Bnd>, int>(1),
{
    let env1 = prop_step(props[0], env)->Some_0;
    assert(props_eval(props, 1, env1) == Err::<Seq<Bnd>, int>(1));
    assert(props_eval(props, 0, env) == Err::<Seq<Bnd>, int>(1));
    lemma_props_short_circuit(props, env, 0, 1, 2, q);
}

} // verus!

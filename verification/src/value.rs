//! Runtime values of the generated code, and their mathematical model.
//!
//! Numbers are carried as their numeral text: the generator never computes
//! with them, and the target's host gives them IEEE double semantics when
//! the emitted code runs. Atoms and strings compare by value (structural)
//! equality, never by identity.

use vstd::prelude::*;

verus! {

/// A runtime value: a boolean, a number (as numeral text), an interned
/// atom, a string, or a tuple of values.
#[derive(Debug, PartialEq)]
pub enum Value {
    Boolean(bool),
    Number(String),
    Atom(String),
    Str(String),
    Tuple(Vec<Value>),
}

/// The mathematical model of a runtime value: text fields become character
/// sequences, tuples become sequences of models.
#[verifier::ext_equal]
pub enum Val {
    Boolean(bool),
    Number(Seq<char>),
    Atom(Seq<char>),
    Str(Seq<char>),
    Tuple(Seq<Val>),
}

/// The dynamic type of a runtime value, as checked by `assert_type`.
#[derive(Debug, Clone, Copy, PartialEq, Eq, Structural)]
pub enum ValueType {
    Boolean,
    Number,
    Atom,
    Str,
    Tuple,
}

pub open spec fn value_model(v: Value) -> Val
    decreases v,
{
    match v {
        Value::Boolean(b) => Val::Boolean(b),
        Value::Number(s) => Val::Number(s@),
        Value::Atom(s) => Val::Atom(s@),
        Value::Str(s) => Val::Str(s@),
        Value::Tuple(vs) => Val::Tuple(seq_model(vs@)),
    }
}

pub open spec fn seq_model(s: Seq<Value>) -> Seq<Val>
    decreases s,
{
    if s.len() == 0 {
        Seq::<Val>::empty()
    } else {
        seq_model(s.drop_last()).push(value_model(s.last()))
    }
}

impl View for Value {
    type V = Val;

    open spec fn view(&self) -> Val {
        value_model(*self)
    }
}

pub broadcast proof fn lemma_seq_model_len(s: Seq<Value>)
    ensures
        (#[trigger] seq_model(s)).len() == s.len(),
    decreases s,
{
    if s.len() > 0 {
        lemma_seq_model_len(s.drop_last());
    }
}

pub broadcast proof fn lemma_seq_model_index(s: Seq<Value>, i: int)
    requires
        0 <= i < s.len(),
    ensures
        #[trigger] seq_model(s)[i] == value_model(s[i]),
    decreases s,
{
    lemma_seq_model_len(s);
    if s.len() > 0 {
        lemma_seq_model_len(s.drop_last());
        if i < s.len() - 1 {
            lemma_seq_model_index(s.drop_last(), i);
        }
    }
}

/// A value and its model always fall under the same variant.
pub proof fn lemma_model_variant(v: Value)
    ensures
        (v matches Value::Boolean(_)) <==> (value_model(v) is Boolean),
        (v matches Value::Number(_)) <==> (value_model(v) is Number),
        (v matches Value::Atom(_)) <==> (value_model(v) is Atom),
        (v matches Value::Str(_)) <==> (value_model(v) is Str),
        (v matches Value::Tuple(_)) <==> (value_model(v) is Tuple),
{
    match v {
        Value::Boolean(_) => {},
        Value::Number(_) => {},
        Value::Atom(_) => {},
        Value::Str(_) => {},
        Value::Tuple(_) => {},
    }
}

/// The dynamic type of a value's model.
pub open spec fn type_of(v: Val) -> ValueType {
    match v {
        Val::Boolean(_) => ValueType::Boolean,
        Val::Number(_) => ValueType::Number,
        Val::Atom(_) => ValueType::Atom,
        Val::Str(_) => ValueType::Str,
        Val::Tuple(_) => ValueType::Tuple,
    }
}

impl Value {
    /// Reports the value's dynamic type.
    pub fn value_type(&self) -> (t: ValueType)
        ensures
            t == type_of(self@),
    {
        match self {
            Value::Boolean(_) => ValueType::Boolean,
            Value::Number(_) => ValueType::Number,
            Value::Atom(_) => ValueType::Atom,
            Value::Str(_) => ValueType::Str,
            Value::Tuple(_) => ValueType::Tuple,
        }
    }

    /// Structural (value) equality: booleans by value, numbers, atoms and
    /// strings by their text, tuples element-wise.
    pub fn deep_eq(&self, other: &Value) -> (r: bool)
        ensures
            r == (self@ == other@),
        decreases *self,
    {
        match (self, other) {
            (Value::Boolean(a), Value::Boolean(b)) => *a == *b,
            (Value::Number(a), Value::Number(b)) => *a == *b,
            (Value::Atom(a), Value::Atom(b)) => *a == *b,
            (Value::Str(a), Value::Str(b)) => *a == *b,
            (Value::Tuple(xs), Value::Tuple(ys)) => {
                proof {
                    lemma_seq_model_len(xs@);
                    lemma_seq_model_len(ys@);
                }
                if xs.len() != ys.len() {
                    assert(self@ != other@) by {
                        assert(seq_model(xs@).len() != seq_model(ys@).len());
                    };
                    return false;
                }
                let n = xs.len();
                let mut i: usize = 0;
                while i < n
                    invariant
                        *self == Value::Tuple(*xs),
                        *other == Value::Tuple(*ys),
                        n == xs.len() == ys.len(),
                        i <= n,
                        forall|j: int|
                            0 <= j < i ==> seq_model(xs@)[j] == #[trigger] seq_model(ys@)[j],
                    decreases n - i,
                {
                    proof {
                        lemma_seq_model_len(xs@);
                        lemma_seq_model_len(ys@);
                        lemma_seq_model_index(xs@, i as int);
                        lemma_seq_model_index(ys@, i as int);
                        vstd::std_specs::vec::axiom_vec_index_decreases(*xs, i as int);
                        assert(decreases_to!(*self => self->Tuple_0));
                        assert(self->Tuple_0 == *xs);
                    }
                    let e = xs[i].deep_eq(&ys[i]);
                    if !e {
                        proof {
                            assert(seq_model(xs@)[i as int] != seq_model(ys@)[i as int]);
                            assert(self@ == Val::Tuple(seq_model(xs@)));
                            assert(other@ == Val::Tuple(seq_model(ys@)));
                            if self@ == other@ {
                                assert(seq_model(xs@) == seq_model(ys@));
                            }
                            assert(self@ != other@);
                        }
                        return false;
                    }
                    i = i + 1;
                }
                proof {
                    assert(seq_model(xs@) =~= seq_model(ys@));
                    assert(self@ == Val::Tuple(seq_model(xs@)));
                    assert(other@ == Val::Tuple(seq_model(ys@)));
                    assert(self@ == other@);
                }
                true
            },
            _ => {
                assert(self@ != other@);
                false
            },
        }
    }

    /// A structural copy: the copy has the same model as the original.
    pub fn duplicate(&self) -> (r: Value)
        ensures
            r@ == self@,
        decreases *self,
    {
        match self {
            Value::Boolean(b) => Value::Boolean(*b),
            Value::Number(s) => Value::Number(s.clone()),
            Value::Atom(s) => Value::Atom(s.clone()),
            Value::Str(s) => Value::Str(s.clone()),
            Value::Tuple(vs) => {
                let n = vs.len();
                let mut out: Vec<Value> = Vec::new();
                let mut i: usize = 0;
                while i < n
                    invariant
                        *self == Value::Tuple(*vs),
                        n == vs.len(),
                        i <= n,
                        out@.len() == i,
                        forall|j: int|
                            0 <= j < i ==> #[trigger] seq_model(out@)[j] == seq_model(vs@)[j],
                    decreases n - i,
                {
                    proof {
                        lemma_seq_model_len(vs@);
                        lemma_seq_model_len(out@);
                        lemma_seq_model_index(vs@, i as int);
                        vstd::std_specs::vec::axiom_vec_index_decreases(*vs, i as int);
                        assert(decreases_to!(*self => self->Tuple_0));
                        assert(self->Tuple_0 == *vs);
                    }
                    let e = vs[i].duplicate();
                    let ghost prev = out@;
                    out.push(e);
                    proof {
                        lemma_seq_model_len(prev);
                        assert(out@.drop_last() =~= prev);
                        assert(out@.last() == e);
                        assert(seq_model(out@) == seq_model(prev).push(e@));
                        assert(forall|j: int|
                            0 <= j < i ==> #[trigger] seq_model(out@)[j] == seq_model(prev)[j]);
                        lemma_seq_model_len(out@);
                        lemma_seq_model_index(out@, i as int);
                        assert(seq_model(out@)[i as int] == e@);
                    }
                    i = i + 1;
                }
                proof {
                    lemma_seq_model_len(vs@);
                    lemma_seq_model_len(out@);
                    assert(seq_model(out@) =~= seq_model(vs@));
                }
                Value::Tuple(out)
            },
        }
    }
}

} // verus!

use letlang_backend::runtime::{assert_type, assert_match, assert_param_count, assert_defined,
    assert_constraints, call_function, eval_guard, select_clause, Bindings, MatchPattern,
    GuardExpr, GuardProp, RuntimeError, FunctionClause, FunctionDef, FunctionTable};
use letlang_backend::value::{Value, ValueType};

fn atom(s: &str) -> Value {
    Value::Atom(s.to_string())
}

#[test]
fn type_assertion_accepts_matching_type() {
    assert_eq!(assert_type(&Value::Boolean(true), ValueType::Boolean), Ok(()));
    assert_eq!(assert_type(&atom("ok"), ValueType::Atom), Ok(()));
}

#[test]
fn type_assertion_reports_expected_actual_and_value() {
    let r = assert_type(&Value::Number("3.5".to_string()), ValueType::Boolean);
    assert_eq!(
        r,
        Err(RuntimeError::TypeMismatch {
            expected: ValueType::Boolean,
            actual: ValueType::Number,
            value: Value::Number("3.5".to_string()),
        })
    );
}

#[test]
fn param_count_must_agree() {
    assert_eq!(assert_param_count(2, 2), Ok(()));
    assert_eq!(
        assert_param_count(3, 2),
        Err(RuntimeError::ArityMismatch { received: 3, expected: 2 })
    );
}

#[test]
fn match_binds_a_variable() {
    let pat = MatchPattern::Variable("x".to_string());
    let b = assert_match(&atom("ok"), &pat).unwrap();
    assert_eq!(b.entries.len(), 1);
    assert_eq!(b.entries[0].name, "x");
    assert_eq!(b.entries[0].value, atom("ok"));
}

#[test]
fn match_wildcard_binds_nothing() {
    let b = assert_match(&atom("ok"), &MatchPattern::Wildcard).unwrap();
    assert_eq!(b.entries.len(), 0);
}

#[test]
fn failing_match_raises_and_binds_nothing() {
    let pat = MatchPattern::Exact(atom("expected"));
    let r = assert_match(&atom("other"), &pat);
    assert_eq!(r, Err(RuntimeError::MatchFailure));
}

#[test]
fn tuple_match_unifies_repeated_variables() {
    let pat = MatchPattern::Tuple(vec![
        MatchPattern::Variable("x".to_string()),
        MatchPattern::Variable("x".to_string()),
    ]);
    let same = Value::Tuple(vec![atom("a"), atom("a")]);
    let b = assert_match(&same, &pat).unwrap();
    assert_eq!(b.entries.len(), 1);

    let different = Value::Tuple(vec![atom("a"), atom("b")]);
    assert_eq!(assert_match(&different, &pat), Err(RuntimeError::MatchFailure));
}

#[test]
fn tuple_match_requires_equal_lengths() {
    let pat = MatchPattern::Tuple(vec![MatchPattern::Wildcard]);
    let v = Value::Tuple(vec![atom("a"), atom("b")]);
    assert_eq!(assert_match(&v, &pat), Err(RuntimeError::MatchFailure));
}

#[test]
fn defined_check_sees_earlier_bindings() {
    let b = assert_match(&atom("ok"), &MatchPattern::Variable("x".to_string())).unwrap();
    assert_eq!(assert_defined(&b, &"x".to_string()), Ok(()));
    let missing = assert_defined(&b, &"y".to_string());
    assert_eq!(missing, Err(RuntimeError::UnboundVariable { name: "y".to_string() }));
}

#[test]
fn conjunction_short_circuits_left_to_right() {
    // The right operand names an unbound variable: it is never evaluated
    // once the left operand is false.
    let g = GuardExpr::Conj(
        Box::new(GuardExpr::Lit(Value::Boolean(false))),
        Box::new(GuardExpr::Var("missing".to_string())),
    );
    let env = Bindings { entries: vec![] };
    assert_eq!(eval_guard(&g, &env), Ok(Value::Boolean(false)));
}

#[test]
fn guard_equality_is_structural() {
    let g = GuardExpr::Equals(
        Box::new(GuardExpr::Lit(atom("ok"))),
        Box::new(GuardExpr::Lit(atom("ok"))),
    );
    let env = Bindings { entries: vec![] };
    assert_eq!(eval_guard(&g, &env), Ok(Value::Boolean(true)));
}

#[test]
fn guard_ordering_stops_at_first_failure() {
    // p1 binds x, p2 sees that binding and fails, p3 is never consulted.
    let p1 = GuardProp::Binding(
        MatchPattern::Variable("x".to_string()),
        GuardExpr::Lit(Value::Boolean(true)),
    );
    let p2 = GuardProp::Constraint(GuardExpr::Equals(
        Box::new(GuardExpr::Var("x".to_string())),
        Box::new(GuardExpr::Lit(Value::Boolean(false))),
    ));
    let p3 = GuardProp::Constraint(GuardExpr::Var("never_bound".to_string()));
    let props = vec![p1, p2, p3];
    let r = assert_constraints(Bindings { entries: vec![] }, &props);
    assert_eq!(r, Err(RuntimeError::UnmetConstraint { index: 1 }));
}

#[test]
fn constraints_extend_bindings_in_order() {
    let p1 = GuardProp::Binding(
        MatchPattern::Variable("x".to_string()),
        GuardExpr::Lit(atom("a")),
    );
    let p2 = GuardProp::Binding(
        MatchPattern::Variable("y".to_string()),
        GuardExpr::Var("x".to_string()),
    );
    let props = vec![p1, p2];
    let b = assert_constraints(Bindings { entries: vec![] }, &props).unwrap();
    assert_eq!(b.entries.len(), 2);
    assert_eq!(b.entries[0].name, "x");
    assert_eq!(b.entries[1].name, "y");
    assert_eq!(b.entries[1].value, atom("a"));
}

#[test]
fn first_matching_clause_wins() {
    let c0 = FunctionClause {
        params: vec![MatchPattern::Exact(atom("a"))],
        guards: vec![],
    };
    let c1 = FunctionClause {
        params: vec![MatchPattern::Variable("v".to_string())],
        guards: vec![],
    };
    let clauses = vec![c0, c1];
    let f = "f".to_string();

    let (k, _) = select_clause(&f, &clauses, &vec![atom("a")]).unwrap();
    assert_eq!(k, 0);

    let (k, b) = select_clause(&f, &clauses, &vec![atom("b")]).unwrap();
    assert_eq!(k, 1);
    assert_eq!(b.entries[0].name, "v");
    assert_eq!(b.entries[0].value, atom("b"));
}

#[test]
fn failed_clause_leaves_no_bindings_for_the_next() {
    // Clause 0 binds a variable and then fails its constraint; the scope
    // that clause 1 produces contains only clause 1's own binding.
    let c0 = FunctionClause {
        params: vec![MatchPattern::Variable("leak".to_string())],
        guards: vec![GuardProp::Constraint(GuardExpr::Lit(Value::Boolean(false)))],
    };
    let c1 = FunctionClause {
        params: vec![MatchPattern::Variable("v".to_string())],
        guards: vec![],
    };
    let clauses = vec![c0, c1];
    let (k, b) = select_clause(&"f".to_string(), &clauses, &vec![atom("z")]).unwrap();
    assert_eq!(k, 1);
    assert_eq!(b.entries.len(), 1);
    assert_eq!(b.entries[0].name, "v");
}

#[test]
fn no_clause_matched_identifies_callee_and_arguments() {
    let c0 = FunctionClause {
        params: vec![MatchPattern::Exact(atom("a"))],
        guards: vec![],
    };
    let r = select_clause(&"pick".to_string(), &vec![c0], &vec![atom("b")]);
    assert_eq!(
        r,
        Err(RuntimeError::NoClauseMatched { callee: "pick".to_string(), args: vec![atom("b")] })
    );
}

#[test]
fn dispatch_by_name_and_arity() {
    let table = FunctionTable {
        defs: vec![FunctionDef {
            name: "f".to_string(),
            arity: 1,
            clauses: vec![FunctionClause {
                params: vec![MatchPattern::Variable("v".to_string())],
                guards: vec![],
            }],
        }],
    };

    let ok = call_function(&table, &"f".to_string(), &vec![atom("x")]).unwrap();
    assert_eq!(ok.function_index, 0);
    assert_eq!(ok.clause_index, 0);
    assert_eq!(ok.bindings.entries[0].name, "v");

    let unknown = call_function(&table, &"g".to_string(), &vec![atom("x")]);
    assert_eq!(unknown, Err(RuntimeError::UnknownFunction { name: "g".to_string() }));

    let wrong_arity = call_function(&table, &"f".to_string(), &vec![atom("x"), atom("y")]);
    assert_eq!(wrong_arity, Err(RuntimeError::ArityMismatch { received: 2, expected: 1 }));
}

#[test]
fn dispatch_reaches_an_overload_of_the_right_arity() {
    // Two declarations share a name; the call reaches the one whose
    // declared arity matches the received count, wherever it stands.
    let table = FunctionTable {
        defs: vec![
            FunctionDef {
                name: "f".to_string(),
                arity: 1,
                clauses: vec![FunctionClause {
                    params: vec![MatchPattern::Variable("a".to_string())],
                    guards: vec![],
                }],
            },
            FunctionDef {
                name: "f".to_string(),
                arity: 2,
                clauses: vec![FunctionClause {
                    params: vec![
                        MatchPattern::Variable("a".to_string()),
                        MatchPattern::Variable("b".to_string()),
                    ],
                    guards: vec![],
                }],
            },
        ],
    };
    let ok = call_function(&table, &"f".to_string(), &vec![atom("x"), atom("y")]).unwrap();
    assert_eq!(ok.function_index, 1);
    assert_eq!(ok.clause_index, 0);
    assert_eq!(ok.bindings.entries.len(), 2);
}

#[test]
fn values_compare_structurally() {
    let a = Value::Tuple(vec![atom("x"), Value::Number("1".to_string())]);
    let b = Value::Tuple(vec![atom("x"), Value::Number("1".to_string())]);
    let c = Value::Tuple(vec![atom("x"), Value::Number("2".to_string())]);
    assert!(a.deep_eq(&b));
    assert!(!a.deep_eq(&c));
    let copy = a.duplicate();
    assert!(copy.deep_eq(&a));
}

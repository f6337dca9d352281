use letlang_backend::Location;
use letlang_backend::ast::{Node, Expression, Literal, Pattern, Proposition, Constraint, Statement,
    SymbolExpr, FunctionCallExpr, EffectCallExpr, UnaryOperationExpr, BinaryOperationExpr,
    PatternMatchExpr, FlowMatchArm, FlowMatchExpr, FlowConditionalExpr, FlowDoBlockExpr,
    TailRecFinalExpr, TailRecRecurseExpr, ExpressionAttributes, TypeRef, CallParam};
use letlang_backend::codegen::{Generator, CompileError};

fn loc() -> Location {
    Location { start: 0, end: 1 }
}

fn attrs(scope_id: usize) -> ExpressionAttributes {
    ExpressionAttributes { scope_id, type_ref: TypeRef { name: "any".to_string() } }
}

fn expr(data: Expression, scope_id: usize) -> Node<Expression> {
    Node { data: Box::new(data), location: loc(), stmt_attrs: None, attrs: Some(attrs(scope_id)) }
}

fn bare_expr(data: Expression) -> Node<Expression> {
    Node { data: Box::new(data), location: loc(), stmt_attrs: None, attrs: None }
}

fn lit_expr(l: Literal) -> Node<Expression> {
    let ln = Node { data: Box::new(l), location: loc(), stmt_attrs: None, attrs: None };
    expr(Expression::Literal(ln), 0)
}

fn pat_node(p: Pattern) -> Node<Pattern> {
    Node { data: Box::new(p), location: loc(), stmt_attrs: None, attrs: None }
}

fn var_pat(name: &str, scope_id: usize) -> Node<Pattern> {
    Node {
        data: Box::new(Pattern::Variable(name.to_string())),
        location: loc(),
        stmt_attrs: None,
        attrs: Some(attrs(scope_id)),
    }
}

fn type_node(name: &str) -> Node<TypeRef> {
    Node {
        data: Box::new(TypeRef { name: name.to_string() }),
        location: loc(),
        stmt_attrs: None,
        attrs: None,
    }
}

fn call_param(name: &str, ty: &str, scope_id: usize) -> Node<CallParam> {
    Node {
        data: Box::new(CallParam { name: name.to_string(), param_type: type_node(ty) }),
        location: loc(),
        stmt_attrs: None,
        attrs: Some(attrs(scope_id)),
    }
}

fn stmt_node(s: Box<Statement>) -> Node<Statement> {
    Node { data: s, location: loc(), stmt_attrs: None, attrs: None }
}

fn prop_expr_node(e: Node<Expression>) -> Node<Proposition> {
    Node {
        data: Box::new(Proposition::Constraint(Constraint { expr: e })),
        location: loc(),
        stmt_attrs: None,
        attrs: None,
    }
}

#[test]
fn literal_kinds_emit_their_exact_value() {
    let g = Generator::new();
    assert_eq!(g.gen_literal(&Literal::Boolean(true)), "llrt::boolean(true)");
    assert_eq!(g.gen_literal(&Literal::Boolean(false)), "llrt::boolean(false)");
    assert_eq!(g.gen_literal(&Literal::Number("3.5".to_string())), "llrt::number(\"3.5\")");
    assert_eq!(g.gen_literal(&Literal::Atom("ok".to_string())), "llrt::atom(\"ok\")");
    assert_eq!(g.gen_literal(&Literal::Str("x".to_string())), "llrt::string(\"x\")");
}

#[test]
fn string_payloads_are_escaped() {
    let g = Generator::new();
    assert_eq!(
        g.gen_literal(&Literal::Str("a\"b\\c".to_string())),
        "llrt::string(\"a\\\"b\\\\c\")"
    );
}

#[test]
fn symbols_read_their_scope_qualified_binding() {
    let g = Generator::new();
    let n = expr(Expression::Symbol(SymbolExpr { name: "x".to_string() }), 37);
    assert_eq!(g.gen_expression(&n).unwrap(), "llrt::get(&b, \"sym_37_x\")");
}

#[test]
fn shadowed_names_in_distinct_scopes_never_collide() {
    let g = Generator::new();
    let a = expr(Expression::Symbol(SymbolExpr { name: "x".to_string() }), 1);
    let b = expr(Expression::Symbol(SymbolExpr { name: "x".to_string() }), 2);
    assert_ne!(g.gen_expression(&a).unwrap(), g.gen_expression(&b).unwrap());
}

#[test]
fn missing_attributes_abort_generation() {
    let g = Generator::new();
    let n = bare_expr(Expression::Symbol(SymbolExpr { name: "x".to_string() }));
    assert_eq!(
        g.gen_expression(&n),
        Err(CompileError::MissingAttributes { location: loc() })
    );
}

#[test]
fn bare_variable_pattern_aborts_generation() {
    let g = Generator::new();
    let n = pat_node(Pattern::Variable("x".to_string()));
    assert_eq!(
        g.gen_pattern(&n),
        Err(CompileError::MissingAttributes { location: loc() })
    );
}

#[test]
fn function_call_goes_through_late_bound_dispatch() {
    let g = Generator::new();
    let callee = expr(Expression::Symbol(SymbolExpr { name: "f".to_string() }), 1);
    let call = expr(
        Expression::FunctionCall(FunctionCallExpr {
            func: Box::new(callee),
            args: vec![lit_expr(Literal::Number("1".to_string()))],
        }),
        0,
    );
    assert_eq!(
        g.gen_expression(&call).unwrap(),
        "llrt::call_function(llrt::get(&b, \"sym_1_f\"), &[llrt::number(\"1\"), ])"
    );
}

#[test]
fn effect_call_goes_through_its_checked_wrapper() {
    let g = Generator::new();
    let n = expr(
        Expression::EffectCall(EffectCallExpr {
            effect_name: "print".to_string(),
            args: vec![lit_expr(Literal::Str("hi".to_string()))],
        }),
        0,
    );
    assert_eq!(g.gen_expression(&n).unwrap(), "eff_print(&[llrt::string(\"hi\"), ])");
}

#[test]
fn operators_type_assert_their_operands() {
    let g = Generator::new();
    let un = expr(
        Expression::UnaryOperation(UnaryOperationExpr {
            op: "-".to_string(),
            expr: Box::new(lit_expr(Literal::Number("2".to_string()))),
        }),
        0,
    );
    assert_eq!(
        g.gen_expression(&un).unwrap(),
        "llrt::unop(\"-\", llrt::assert_type(llrt::number(\"2\"), \"number\"))"
    );

    let bin = expr(
        Expression::BinaryOperation(BinaryOperationExpr {
            op: "+".to_string(),
            lhs: Box::new(lit_expr(Literal::Number("1".to_string()))),
            rhs: Box::new(lit_expr(Literal::Number("2".to_string()))),
        }),
        0,
    );
    assert_eq!(
        g.gen_expression(&bin).unwrap(),
        "llrt::binop(\"+\", llrt::assert_type(llrt::number(\"1\"), \"number\"), llrt::assert_type(llrt::number(\"2\"), \"number\"))"
    );
}

#[test]
fn structural_equality_asserts_no_operand_type() {
    let g = Generator::new();
    let bin = expr(
        Expression::BinaryOperation(BinaryOperationExpr {
            op: "==".to_string(),
            lhs: Box::new(lit_expr(Literal::Atom("a".to_string()))),
            rhs: Box::new(lit_expr(Literal::Str("a".to_string()))),
        }),
        0,
    );
    assert_eq!(
        g.gen_expression(&bin).unwrap(),
        "llrt::binop(\"==\", llrt::atom(\"a\"), llrt::string(\"a\"))"
    );
}

#[test]
fn pattern_match_binds_into_the_enclosing_scope() {
    let g = Generator::new();
    let n = expr(
        Expression::PatternMatch(PatternMatchExpr {
            pattern: var_pat("x", 5),
            value: Box::new(lit_expr(Literal::Atom("ok".to_string()))),
        }),
        0,
    );
    assert_eq!(
        g.gen_expression(&n).unwrap(),
        "llrt::bind(&mut b, llrt::atom(\"ok\"), llrt::pat_var(\"sym_5_x\"))"
    );
}

#[test]
fn flow_match_tries_arms_lazily_with_a_fallback() {
    let g = Generator::new();
    let n = expr(
        Expression::FlowMatch(FlowMatchExpr {
            expr: Box::new(lit_expr(Literal::Atom("in".to_string()))),
            arms: vec![
                FlowMatchArm {
                    pattern: pat_node(Pattern::Literal(Literal::Atom("a".to_string()))),
                    body: lit_expr(Literal::Number("1".to_string())),
                },
                FlowMatchArm {
                    pattern: pat_node(Pattern::Wildcard),
                    body: lit_expr(Literal::Number("2".to_string())),
                },
            ],
        }),
        0,
    );
    assert_eq!(
        g.gen_expression(&n).unwrap(),
        "{ let s = llrt::atom(\"in\"); if llrt::matches(&mut b, &s, llrt::pat_lit(llrt::atom(\"a\"))) { llrt::number(\"1\") } else { if llrt::matches(&mut b, &s, llrt::pat_any()) { llrt::number(\"2\") } else { llrt::no_arm_matched() } } }"
    );
}

#[test]
fn conditional_asserts_its_guard_is_boolean() {
    let g = Generator::new();
    let n = expr(
        Expression::FlowConditional(FlowConditionalExpr {
            condition: Box::new(lit_expr(Literal::Boolean(true))),
            then_branch: Box::new(lit_expr(Literal::Number("1".to_string()))),
            else_branch: Box::new(lit_expr(Literal::Number("2".to_string()))),
        }),
        0,
    );
    assert_eq!(
        g.gen_expression(&n).unwrap(),
        "if llrt::assert_bool(llrt::boolean(true)) { llrt::number(\"1\") } else { llrt::number(\"2\") }"
    );
}

#[test]
fn do_block_keeps_order_and_returns_the_final_value() {
    let g = Generator::new();
    let n = expr(
        Expression::FlowDoBlock(FlowDoBlockExpr {
            body: vec![
                lit_expr(Literal::Number("1".to_string())),
                lit_expr(Literal::Number("2".to_string())),
                lit_expr(Literal::Number("3".to_string())),
            ],
        }),
        0,
    );
    assert_eq!(
        g.gen_expression(&n).unwrap(),
        "{ llrt::number(\"1\"); llrt::number(\"2\"); llrt::number(\"3\") }"
    );
}

#[test]
fn recurse_outside_tail_position_is_a_compile_error() {
    let g = Generator::new();
    let n = expr(Expression::TailRecRecurse(TailRecRecurseExpr { args: vec![] }), 0);
    assert_eq!(
        g.gen_expression(&n),
        Err(CompileError::MisplacedRecurse { location: loc() })
    );
}

#[test]
fn final_marker_has_no_runtime_behavior_outside_tailrec() {
    let g = Generator::new();
    let n = expr(
        Expression::TailRecFinal(TailRecFinalExpr {
            expr: Box::new(lit_expr(Literal::Number("7".to_string()))),
        }),
        0,
    );
    assert_eq!(g.gen_expression(&n).unwrap(), "llrt::number(\"7\")");
}

#[test]
fn import_emits_a_module_reference() {
    let g = Generator::new();
    let s = stmt_node(Statement::import(
        vec!["std".to_string(), "io".to_string()],
        Some("io2".to_string()),
    ));
    assert_eq!(g.gen_statement(&s).unwrap(), "use std::io as io2;");

    let plain = stmt_node(Statement::import(vec!["core".to_string()], None));
    assert_eq!(g.gen_statement(&plain).unwrap(), "use core;");
}

#[test]
fn effect_declaration_emits_a_checked_wrapper() {
    let g = Generator::new();
    let s = stmt_node(Statement::effect(
        true,
        "log".to_string(),
        vec![call_param("msg", "string", 11)],
        type_node("unit"),
    ));
    assert_eq!(
        g.gen_statement(&s).unwrap(),
        "pub fn eff_log(args: &[llrt::Value]) { llrt::assert_param_count(args.len(), 1); llrt::assert_types(args, &[\"string\", ]); llrt::assert_type(llrt::perform(\"log\", args), \"unit\") }"
    );
}

#[test]
fn function_declaration_compiles_to_a_dispatcher() {
    // The parameter binds the scope-qualified name the body reads back.
    let g = Generator::new();
    let body_expr = expr(Expression::Symbol(SymbolExpr { name: "x".to_string() }), 4);
    let s = stmt_node(Statement::function(
        false,
        "id".to_string(),
        vec![],
        vec![call_param("x", "any", 4)],
        type_node("any"),
        vec![prop_expr_node(body_expr)],
    ));
    assert_eq!(
        g.gen_statement(&s).unwrap(),
        "fn fn_id(args: &[llrt::Value]) { llrt::assert_param_count(args.len(), 1); let mut b = llrt::assert_match(llrt::tuple_of(args), llrt::pat_tuple(&[llrt::pat_var(\"sym_4_x\"), ])); b = llrt::assert_constraints(b, &[]); llrt::get(&b, \"sym_4_x\") }"
    );
}

#[test]
fn tailrec_function_compiles_to_a_trampoline_loop() {
    let g = Generator::new();
    let recurse = expr(
        Expression::TailRecRecurse(TailRecRecurseExpr {
            args: vec![lit_expr(Literal::Number("1".to_string()))],
        }),
        0,
    );
    let s = stmt_node(Statement::tailrec_function(
        true,
        "go".to_string(),
        vec![],
        vec![call_param("n", "number", 2)],
        type_node("number"),
        vec![prop_expr_node(recurse)],
    ));
    let text = g.gen_statement(&s).unwrap();
    assert!(text.starts_with("pub fn fn_go(args: &[llrt::Value]) { let mut args = args.to_vec(); loop {"));
    assert!(text.contains("llrt::pat_var(\"sym_2_n\")"));
    assert!(text.contains("llrt::trampoline_again(&[llrt::number(\"1\"), ])"));
    assert!(text.contains("llrt::Step::Done(v) => break v"));
    assert!(text.contains("llrt::Step::Again(next) => { args = next; }"));
}

#[test]
fn tailrec_function_rejects_recurse_under_an_operand() {
    // The recursive marker sits inside an operand, not in tail position.
    let g = Generator::new();
    let recurse = expr(Expression::TailRecRecurse(TailRecRecurseExpr { args: vec![] }), 0);
    let misplaced = expr(
        Expression::UnaryOperation(UnaryOperationExpr {
            op: "-".to_string(),
            expr: Box::new(recurse),
        }),
        0,
    );
    let s = stmt_node(Statement::tailrec_function(
        false,
        "bad".to_string(),
        vec![],
        vec![],
        type_node("number"),
        vec![prop_expr_node(misplaced)],
    ));
    assert_eq!(
        g.gen_statement(&s),
        Err(CompileError::MisplacedRecurse { location: loc() })
    );
}

#[test]
fn tailrec_branches_inherit_tail_position() {
    let g = Generator::new();
    let recurse = expr(Expression::TailRecRecurse(TailRecRecurseExpr { args: vec![] }), 0);
    let fin = expr(
        Expression::TailRecFinal(TailRecFinalExpr {
            expr: Box::new(lit_expr(Literal::Number("0".to_string()))),
        }),
        0,
    );
    let cond = expr(
        Expression::FlowConditional(FlowConditionalExpr {
            condition: Box::new(lit_expr(Literal::Boolean(true))),
            then_branch: Box::new(fin),
            else_branch: Box::new(recurse),
        }),
        0,
    );
    let s = stmt_node(Statement::tailrec_function(
        false,
        "steps".to_string(),
        vec![],
        vec![],
        type_node("number"),
        vec![prop_expr_node(cond)],
    ));
    let text = g.gen_statement(&s).unwrap();
    assert!(text.contains(
        "if llrt::assert_bool(llrt::boolean(true)) { llrt::trampoline_done(llrt::number(\"0\")) } else { llrt::trampoline_again(&[]) }"
    ));
}

#[test]
fn class_constraints_see_the_constructor_binding() {
    // The constructor pattern binds the same scope-qualified name the
    // constraint's guard variable looks up.
    let g = Generator::new();
    let guard = expr(
        Expression::BinaryOperation(BinaryOperationExpr {
            op: "==".to_string(),
            lhs: Box::new(expr(Expression::Symbol(SymbolExpr { name: "v".to_string() }), 9)),
            rhs: Box::new(lit_expr(Literal::Atom("ok".to_string()))),
        }),
        0,
    );
    let cons = Node {
        data: Box::new(letlang_backend::ast::ConsParam { pattern: var_pat("v", 9) }),
        location: loc(),
        stmt_attrs: None,
        attrs: None,
    };
    let s = stmt_node(Statement::class(
        true,
        "Valid".to_string(),
        vec![],
        cons,
        vec![prop_expr_node(guard)],
    ));
    assert_eq!(
        g.gen_statement(&s).unwrap(),
        "pub fn new_Valid(value: llrt::Value) { let b = llrt::assert_match(value, llrt::pat_var(\"sym_9_v\")); let b = llrt::assert_constraints(b, &[llrt::prop_check(llrt::g_eq(llrt::g_var(\"sym_9_v\"), llrt::g_lit(llrt::atom(\"ok\")))), ]); llrt::tag(value, \"Valid\") }"
    );
}

#[test]
fn unsupported_guard_shapes_fail_loudly() {
    let g = Generator::new();
    // A do block cannot stand in a class constraint: the guard compiler
    // reports it instead of silently passing it through.
    let guard = expr(Expression::FlowDoBlock(FlowDoBlockExpr { body: vec![] }), 0);
    let cons = Node {
        data: Box::new(letlang_backend::ast::ConsParam {
            pattern: pat_node(Pattern::Wildcard),
        }),
        location: loc(),
        stmt_attrs: None,
        attrs: None,
    };
    let s = stmt_node(Statement::class(
        false,
        "C".to_string(),
        vec![],
        cons,
        vec![prop_expr_node(guard)],
    ));
    assert_eq!(g.gen_statement(&s), Err(CompileError::NotImplemented { location: loc() }));
}

#[test]
fn tuple_patterns_nest() {
    let g = Generator::new();
    let p = pat_node(Pattern::Tuple(vec![
        var_pat("a", 3),
        pat_node(Pattern::Literal(Literal::Number("1".to_string()))),
    ]));
    assert_eq!(
        g.gen_pattern(&p).unwrap(),
        "llrt::pat_tuple(&[llrt::pat_var(\"sym_3_a\"), llrt::pat_lit(llrt::number(\"1\")), ])"
    );
}

#[test]
fn builders_construct_the_declared_variants() {
    let imp = Statement::import(vec!["m".to_string()], None);
    assert!(matches!(*imp, Statement::Import(_)));
    let eff = Statement::effect(false, "e".to_string(), vec![], type_node("unit"));
    assert!(matches!(*eff, Statement::EffectDecl(_)));
    let lit = Literal::number("2.5".to_string());
    assert!(matches!(*lit, Literal::Number(_)));
    let e = Expression::literal(Node {
        data: Literal::boolean(true),
        location: loc(),
        stmt_attrs: None,
        attrs: None,
    });
    assert!(matches!(*e, Expression::Literal(_)));
    let at = Literal::atom("a".to_string());
    assert!(matches!(*at, Literal::Atom(_)));
    let st = Literal::string("s".to_string());
    assert!(matches!(*st, Literal::Str(_)));
}

//! Code generation: turns the annotated tree into target source text.
//!
//! The emitted text calls the runtime support library by fixed names. Its
//! exact shape is pinned by the spec-level emission functions below: every
//! generator method returns precisely the text those functions describe,
//! and fails precisely where they do — on a missing attribute record, on a
//! tail-recursion marker outside tail position, or on a tree shape the
//! generator does not handle (an explicit failure, never a silent
//! pass-through).

use vstd::prelude::*;
use crate::Location;
use crate::ast::{Node, Expression, Literal, Pattern, Proposition, Statement, ImportStatement,
    EffectDeclStatement, ClassDeclStatement, FuncDeclStatement, TailRecFuncDeclStatement,
    CallParam};

verus! {

/// A failure that aborts generation of the enclosing module, reported with
/// the source location it arose at. Compile errors are fatal to the
/// module's build; no partial output is produced.
#[derive(Debug, Clone, Copy, PartialEq, Eq, Structural)]
pub enum CompileError {
    /// An expression node reached generation without its resolved
    /// attributes: an upstream pipeline bug, not user-facing input.
    MissingAttributes { location: Location },
    /// A tail-recursion marker stood outside tail position.
    MisplacedRecurse { location: Location },
    /// An unhandled tree shape: an explicit "not yet implemented" failure.
    NotImplemented { location: Location },
}

pub type CompilationResult<T> = Result<T, CompileError>;

/// The character of a single decimal digit.
pub open spec fn digit_char(d: nat) -> char {
    if d == 0 {
        '0'
    } else if d == 1 {
        '1'
    } else if d == 2 {
        '2'
    } else if d == 3 {
        '3'
    } else if d == 4 {
        '4'
    } else if d == 5 {
        '5'
    } else if d == 6 {
        '6'
    } else if d == 7 {
        '7'
    } else if d == 8 {
        '8'
    } else {
        '9'
    }
}

/// The decimal numeral of `n`, most significant digit first.
pub open spec fn dec_spec(n: nat) -> Seq<char>
    decreases n,
{
    if n < 10 {
        seq![digit_char(n)]
    } else {
        dec_spec(n / 10).push(digit_char(n % 10))
    }
}

/// Text with each `"` and `\` preceded by a backslash, so that it can
/// stand between quotes in the emitted source.
pub open spec fn esc_spec(s: Seq<char>) -> Seq<char>
    decreases s.len(),
{
    if s.len() == 0 {
        Seq::<char>::empty()
    } else {
        (if s[0] == '"' || s[0] == '\\' {
            seq!['\\', s[0]]
        } else {
            seq![s[0]]
        }) + esc_spec(s.drop_first())
    }
}

/// Escaping distributes over concatenation: it rewrites one character at a
/// time.
pub proof fn lemma_esc_app(a: Seq<char>, b: Seq<char>)
    ensures
        esc_spec(a + b) == esc_spec(a) + esc_spec(b),
    decreases a.len(),
{
    if a.len() == 0 {
        assert(a + b =~= b);
        assert(esc_spec(a) + esc_spec(b) =~= esc_spec(b));
    } else {
        assert((a + b).drop_first() =~= a.drop_first() + b);
        lemma_esc_app(a.drop_first(), b);
        assert(esc_spec(a + b) =~= esc_spec(a) + esc_spec(b));
    }
}

/// Escaping a single character either keeps it or prefixes a backslash.
pub proof fn lemma_esc_single(c: char)
    ensures
        c == '"' || c == '\\' ==> esc_spec(seq![c]) == seq!['\\', c],
        c != '"' && c != '\\' ==> esc_spec(seq![c]) == seq![c],
{
    reveal_with_fuel(esc_spec, 3);
    let s = seq![c];
    assert(s.drop_first() =~= Seq::<char>::empty());
    assert(esc_spec(Seq::<char>::empty()) =~= Seq::<char>::empty());
    if c == '"' || c == '\\' {
        assert(esc_spec(s) =~= seq!['\\', c]);
    } else {
        assert(esc_spec(s) =~= seq![c]);
    }
}

fn digit_str(d: usize) -> (r: &'static str)
    requires
        d < 10,
    ensures
        r@ == seq![digit_char(d as nat)],
{
    if d == 0 {
        proof {
            reveal_strlit("0");
            assert("0"@ =~= seq![digit_char(0)]);
        }
        "0"
    } else if d == 1 {
        proof {
            reveal_strlit("1");
            assert("1"@ =~= seq![digit_char(1)]);
        }
        "1"
    } else if d == 2 {
        proof {
            reveal_strlit("2");
            assert("2"@ =~= seq![digit_char(2)]);
        }
        "2"
    } else if d == 3 {
        proof {
            reveal_strlit("3");
            assert("3"@ =~= seq![digit_char(3)]);
        }
        "3"
    } else if d == 4 {
        proof {
            reveal_strlit("4");
            assert("4"@ =~= seq![digit_char(4)]);
        }
        "4"
    } else if d == 5 {
        proof {
            reveal_strlit("5");
            assert("5"@ =~= seq![digit_char(5)]);
        }
        "5"
    } else if d == 6 {
        proof {
            reveal_strlit("6");
            assert("6"@ =~= seq![digit_char(6)]);
        }
        "6"
    } else if d == 7 {
        proof {
            reveal_strlit("7");
            assert("7"@ =~= seq![digit_char(7)]);
        }
        "7"
    } else if d == 8 {
        proof {
            reveal_strlit("8");
            assert("8"@ =~= seq![digit_char(8)]);
        }
        "8"
    } else {
        proof {
            reveal_strlit("9");
            assert("9"@ =~= seq![digit_char(9)]);
        }
        "9"
    }
}

/// The decimal numeral of `n`.
fn dec_string(n: usize) -> (r: String)
    ensures
        r@ == dec_spec(n as nat),
    decreases n,
{
    if n < 10 {
        let mut out = String::new();
        out.append(digit_str(n));
        proof {
            assert(out@ =~= dec_spec(n as nat));
        }
        out
    } else {
        let mut out = dec_string(n / 10);
        out.append(digit_str(n % 10));
        proof {
            assert(out@ =~= dec_spec(n as nat));
        }
        out
    }
}

/// Escapes `s` for quoting in emitted source.
fn escape_text(s: &String) -> (r: String)
    ensures
        r@ == esc_spec(s@),
{
    let n = s.as_str().unicode_len();
    let mut out = String::new();
    let mut i: usize = 0;
    proof {
        assert(s@.subrange(0, 0) =~= Seq::<char>::empty());
        assert(out@ =~= esc_spec(s@.subrange(0, 0)));
    }
    while i < n
        invariant
            n == s@.len(),
            i <= n,
            out@ == esc_spec(s@.subrange(0, i as int)),
        decreases n - i,
    {
        let c = s.as_str().get_char(i);
        if c == '"' {
            out.append("\\");
        } else if c == '\\' {
            out.append("\\");
        }
        let piece = s.as_str().substring_char(i, i + 1);
        out.append(piece);
        proof {
            reveal_strlit("\\");
            let pre = s@.subrange(0, i as int);
            let one = s@.subrange(i as int, i + 1);
            assert(one =~= seq![c]);
            lemma_esc_app(pre, one);
            lemma_esc_single(c);
            assert(s@.subrange(0, i + 1) =~= pre + one);
            if c == '"' || c == '\\' {
                assert("\\"@ =~= seq!['\\']);
                assert(out@ =~= esc_spec(pre) + esc_spec(one));
            } else {
                assert(out@ =~= esc_spec(pre) + esc_spec(one));
            }
        }
        i = i + 1;
    }
    proof {
        assert(s@.subrange(0, n as int) =~= s@);
    }
    out
}

/// The emitted target text of a literal: a call to the runtime constructor
/// of the matching kind, text payloads quoted and escaped.
pub open spec fn emit_literal(lit: Literal) -> Seq<char> {
    match lit {
        Literal::Boolean(b) => if b {
            "llrt::boolean(true)"@
        } else {
            "llrt::boolean(false)"@
        },
        Literal::Number(s) => "llrt::number(\""@ + esc_spec(s@) + "\")"@,
        Literal::Atom(s) => "llrt::atom(\""@ + esc_spec(s@) + "\")"@,
        Literal::Str(s) => "llrt::string(\""@ + esc_spec(s@) + "\")"@,
    }
}

/// A scope-qualified variable name: distinct scope identifiers never
/// collide, even when the surface name is shadowed. Binders and
/// references go through this one function, so a pattern variable and the
/// symbols that read it agree on the name the runtime scope holds.
pub open spec fn emit_symbol(scope_id: nat, name: Seq<char>) -> Seq<char> {
    "sym_"@ + dec_spec(scope_id) + "_"@ + name
}

/// The emitted constructor text of a runtime pattern. A binding variable
/// carries the scope identifier its node was resolved with: the runtime
/// binds the qualified name, the very name emitted symbol references and
/// guard variables look up. A variable node the resolver left bare is a
/// compile-time error.
pub open spec fn emit_pattern(n: Node<Pattern>) -> Result<Seq<char>, CompileError>
    decreases n,
{
    match *n.data {
        Pattern::Wildcard => Ok("llrt::pat_any()"@),
        Pattern::Variable(x) => if n.attrs is None {
            Err(CompileError::MissingAttributes { location: n.location })
        } else {
            Ok("llrt::pat_var(\""@ + emit_symbol(n.attrs->0.scope_id as nat, x@) + "\")"@)
        },
        Pattern::Literal(l) => Ok("llrt::pat_lit("@ + emit_literal(l) + ")"@),
        Pattern::Tuple(_) => match emit_pat_list(((*n.data)->Tuple_0)@) {
            Err(e) => Err(e),
            Ok(t) => Ok("llrt::pat_tuple(&["@ + t + "])"@),
        },
    }
}

pub open spec fn emit_pat_list(ps: Seq<Node<Pattern>>) -> Result<Seq<char>, CompileError>
    decreases ps,
{
    if ps.len() == 0 {
        Ok(Seq::<char>::empty())
    } else {
        match emit_pattern(ps[0]) {
            Err(e) => Err(e),
            Ok(t) => match emit_pat_list(ps.drop_first()) {
                Err(e) => Err(e),
                Ok(rest) => Ok(t + ", "@ + rest),
            },
        }
    }
}

/// The runtime type an operator's operands are asserted against, by the
/// operator's declared domain: arithmetic and ordering need numbers,
/// logical connectives need booleans, and structural (value) equality
/// applies to any operands, so it asserts nothing.
pub open spec fn op_operand_type(op: Seq<char>) -> Option<Seq<char>> {
    if op == "+"@ || op == "-"@ || op == "*"@ || op == "/"@ || op == "<"@ || op == "<="@ || op
        == ">"@ || op == ">="@ {
        Some("number"@)
    } else if op == "and"@ || op == "or"@ || op == "not"@ {
        Some("boolean"@)
    } else {
        None::<Seq<char>>
    }
}

/// An operand, wrapped in the runtime type assertion its operator's
/// domain demands; left bare where the operator accepts any value.
pub open spec fn operand_guard(op: Seq<char>, t: Seq<char>) -> Seq<char> {
    match op_operand_type(op) {
        Some(ty) => "llrt::assert_type("@ + t + ", \""@ + ty + "\")"@,
        None => t,
    }
}

} // verus!

verus! {

/// In tail position of a tail-recursive clause, an ordinary value is
/// wrapped as the trampoline's final outcome.
pub open spec fn tail_wrap(tail: bool, t: Seq<char>) -> Seq<char> {
    if tail {
        "llrt::trampoline_done("@ + t + ")"@
    } else {
        t
    }
}

/// The emitted text of an expression. `tail` states whether the expression
/// stands in tail position of a tail-recursive clause body: only there may
/// a `TailRecRecurse` marker appear, compiled into a loop re-entry; found
/// anywhere else it is a compile-time error, before any code is emitted.
/// A missing attribute record on any expression node is likewise a
/// compile-time error.
///
/// Emitted expressions run inside a dispatcher that holds the clause's
/// accumulated scope in a mutable target variable `b`: symbol references
/// read their scope-qualified name back out of it (the target's
/// `llrt::get` raises the unbound-variable error for a name the scope
/// lacks), a single-shot pattern match extends it in place, and a flow
/// match binds its scrutinee to `s` and tries its arms against it in
/// order. A function call dispatches through `llrt::call_function`, whose
/// contract checks the received count against the callee's declared
/// arity before clause selection; an effect call goes through the
/// `eff_<name>` wrapper its declaration emitted, which checks arity and
/// argument types and type-checks the result, effects being the one
/// channel across the trust boundary.
pub open spec fn emit_expr(n: Node<Expression>, tail: bool) -> Result<Seq<char>, CompileError>
    decreases n, 1int,
{
    if n.attrs is None {
        Err(CompileError::MissingAttributes { location: n.location })
    } else {
        let a = n.attrs->0;
        match *n.data {
            Expression::Symbol(s) => Ok(
                tail_wrap(
                    tail,
                    "llrt::get(&b, \""@ + emit_symbol(a.scope_id as nat, s.name@) + "\")"@,
                ),
            ),
            Expression::Literal(ln) => Ok(tail_wrap(tail, emit_literal(*ln.data))),
            Expression::FunctionCall(_) => {
                let d = (*n.data)->FunctionCall_0;
                match emit_expr(*d.func, false) {
                    Err(e) => Err(e),
                    Ok(f) => match emit_args(d.args@) {
                        Err(e) => Err(e),
                        Ok(args) => Ok(
                            tail_wrap(
                                tail,
                                "llrt::call_function("@ + f + ", &["@ + args + "])"@,
                            ),
                        ),
                    },
                }
            },
            Expression::EffectCall(_) => {
                let d = (*n.data)->EffectCall_0;
                match emit_args(d.args@) {
                    Err(e) => Err(e),
                    Ok(args) => Ok(
                        tail_wrap(tail, "eff_"@ + d.effect_name@ + "(&["@ + args + "])"@),
                    ),
                }
            },
            Expression::UnaryOperation(u) => match emit_expr(*u.expr, false) {
                Err(e) => Err(e),
                Ok(t) => Ok(
                    tail_wrap(
                        tail,
                        "llrt::unop(\""@ + esc_spec(u.op@) + "\", "@ + operand_guard(u.op@, t)
                            + ")"@,
                    ),
                ),
            },
            Expression::BinaryOperation(b) => match emit_expr(*b.lhs, false) {
                Err(e) => Err(e),
                Ok(l) => match emit_expr(*b.rhs, false) {
                    Err(e) => Err(e),
                    Ok(r) => Ok(
                        tail_wrap(
                            tail,
                            "llrt::binop(\""@ + esc_spec(b.op@) + "\", "@ + operand_guard(
                                b.op@,
                                l,
                            ) + ", "@ + operand_guard(b.op@, r) + ")"@,
                        ),
                    ),
                },
            },
            Expression::PatternMatch(pm) => match emit_expr(*pm.value, false) {
                Err(e) => Err(e),
                Ok(v) => match emit_pattern(pm.pattern) {
                    Err(e) => Err(e),
                    Ok(pt) => Ok(
                        tail_wrap(tail, "llrt::bind(&mut b, "@ + v + ", "@ + pt + ")"@),
                    ),
                },
            },
            Expression::FlowMatch(_) => {
                let d = (*n.data)->FlowMatch_0;
                match emit_expr(*d.expr, false) {
                    Err(e) => Err(e),
                    Ok(scrut) => match emit_arms(d.arms@, tail) {
                        Err(e) => Err(e),
                        Ok(arms) => Ok("{ let s = "@ + scrut + "; "@ + arms + " }"@),
                    },
                }
            },
            Expression::FlowConditional(c) => match emit_expr(*c.condition, false) {
                Err(e) => Err(e),
                Ok(g) => match emit_expr(*c.then_branch, tail) {
                    Err(e) => Err(e),
                    Ok(t) => match emit_expr(*c.else_branch, tail) {
                        Err(e) => Err(e),
                        Ok(f) => Ok(
                            "if llrt::assert_bool("@ + g + ") { "@ + t + " } else { "@ + f
                                + " }"@,
                        ),
                    },
                },
            },
            Expression::FlowDoBlock(_) => {
                let d = (*n.data)->FlowDoBlock_0;
                if d.body@.len() == 0 {
                    Err(CompileError::NotImplemented { location: n.location })
                } else {
                    match emit_inits(d.body@.drop_last()) {
                        Err(e) => Err(e),
                        Ok(inits) => match emit_expr(d.body@[d.body@.len() - 1], tail) {
                            Err(e) => Err(e),
                            Ok(last) => Ok("{ "@ + inits + last + " }"@),
                        },
                    }
                }
            },
            Expression::TailRecFinal(f) => match emit_expr(*f.expr, false) {
                Err(e) => Err(e),
                Ok(t) => if tail {
                    Ok("llrt::trampoline_done("@ + t + ")"@)
                } else {
                    Ok(t)
                },
            },
            Expression::TailRecRecurse(_) => {
                if tail {
                    let d = (*n.data)->TailRecRecurse_0;
                    match emit_args(d.args@) {
                        Err(e) => Err(e),
                        Ok(args) => Ok("llrt::trampoline_again(&["@ + args + "])"@),
                    }
                } else {
                    Err(CompileError::MisplacedRecurse { location: n.location })
                }
            },
        }
    }
}

/// An argument list: each argument's text followed by a comma.
pub open spec fn emit_args(list: Seq<Node<Expression>>) -> Result<Seq<char>, CompileError>
    decreases list, 2int,
{
    if list.len() == 0 {
        Ok(Seq::<char>::empty())
    } else {
        match emit_expr(list[0], false) {
            Err(e) => Err(e),
            Ok(t) => match emit_args(list.drop_first()) {
                Err(e) => Err(e),
                Ok(rest) => Ok(t + ", "@ + rest),
            },
        }
    }
}

/// The non-final expressions of a do block, each followed by a semicolon:
/// evaluated in order for their effects alone, their values discarded.
pub open spec fn emit_inits(list: Seq<Node<Expression>>) -> Result<Seq<char>, CompileError>
    decreases list, 2int,
{
    if list.len() == 0 {
        Ok(Seq::<char>::empty())
    } else {
        match emit_expr(list[0], false) {
            Err(e) => Err(e),
            Ok(t) => match emit_inits(list.drop_first()) {
                Err(e) => Err(e),
                Ok(rest) => Ok(t + "; "@ + rest),
            },
        }
    }
}

/// The arms of a flow match, in declaration order, as a chain of
/// conditionals over the bound scrutinee `s`: the first arm whose pattern
/// matches extends the scope with its bindings and alone executes its
/// body — later arm bodies stand in untaken branches and are never
/// evaluated. After the last arm the chain ends in the defensive
/// "no arm matched" fallback.
pub open spec fn emit_arms(arms: Seq<crate::ast::FlowMatchArm>, tail: bool) -> Result<
    Seq<char>,
    CompileError,
>
    decreases arms, 2int,
{
    if arms.len() == 0 {
        Ok("llrt::no_arm_matched()"@)
    } else {
        match emit_pattern(arms[0].pattern) {
            Err(e) => Err(e),
            Ok(p) => match emit_expr(arms[0].body, tail) {
                Err(e) => Err(e),
                Ok(b) => match emit_arms(arms.drop_first(), tail) {
                    Err(e) => Err(e),
                    Ok(rest) => Ok(
                        "if llrt::matches(&mut b, &s, "@ + p + ") { "@ + b + " } else { "@ + rest
                            + " }"@,
                    ),
                },
            },
        }
    }
}

/// The compiled form of a guard expression: the emitted code builds the
/// runtime's guard-expression data, evaluated later under the clause's
/// accumulated bindings. Only literals, symbols, `not`, `==`, `and` and
/// `or` form guards; any other shape is an explicit unhandled-tree
/// failure.
pub open spec fn emit_guard(n: Node<Expression>) -> Result<Seq<char>, CompileError>
    decreases n,
{
    if n.attrs is None {
        Err(CompileError::MissingAttributes { location: n.location })
    } else {
        let a = n.attrs->0;
        match *n.data {
            Expression::Literal(ln) => Ok("llrt::g_lit("@ + emit_literal(*ln.data) + ")"@),
            Expression::Symbol(s) => Ok(
                "llrt::g_var(\""@ + emit_symbol(a.scope_id as nat, s.name@) + "\")"@,
            ),
            Expression::UnaryOperation(u) => {
                if u.op@ == "not"@ {
                    match emit_guard(*u.expr) {
                        Err(e) => Err(e),
                        Ok(t) => Ok("llrt::g_not("@ + t + ")"@),
                    }
                } else {
                    Err(CompileError::NotImplemented { location: n.location })
                }
            },
            Expression::BinaryOperation(b) => {
                if b.op@ == "=="@ || b.op@ == "and"@ || b.op@ == "or"@ {
                    match emit_guard(*b.lhs) {
                        Err(e) => Err(e),
                        Ok(l) => match emit_guard(*b.rhs) {
                            Err(e) => Err(e),
                            Ok(r) => if b.op@ == "=="@ {
                                Ok("llrt::g_eq("@ + l + ", "@ + r + ")"@)
                            } else if b.op@ == "and"@ {
                                Ok("llrt::g_and("@ + l + ", "@ + r + ")"@)
                            } else {
                                Ok("llrt::g_or("@ + l + ", "@ + r + ")"@)
                            },
                        },
                    }
                } else {
                    Err(CompileError::NotImplemented { location: n.location })
                }
            },
            _ => Err(CompileError::NotImplemented { location: n.location }),
        }
    }
}

/// The compiled proposition list of a clause or class body, in order:
/// a constraint becomes a runtime check, a pattern binding becomes a
/// runtime bind, each followed by a comma.
pub open spec fn emit_props(list: Seq<Node<Proposition>>) -> Result<Seq<char>, CompileError>
    decreases list,
{
    if list.len() == 0 {
        Ok(Seq::<char>::empty())
    } else {
        let step = match *list[0].data {
            Proposition::Constraint(_) => {
                match emit_guard(((*list[0].data)->Constraint_0).expr) {
                    Err(e) => Err(e),
                    Ok(g) => Ok("llrt::prop_check("@ + g + "), "@),
                }
            },
            Proposition::Binding(_) => {
                let pm = (*list[0].data)->Binding_0;
                match emit_pattern(pm.pattern) {
                    Err(e) => Err(e),
                    Ok(pt) => match emit_guard(*pm.value) {
                        Err(e) => Err(e),
                        Ok(g) => Ok("llrt::prop_bind("@ + pt + ", "@ + g + "), "@),
                    },
                }
            },
        };
        match step {
            Err(e) => Err(e),
            Ok(t) => match emit_props(list.drop_first()) {
                Err(e) => Err(e),
                Ok(rest) => Ok(t + rest),
            },
        }
    }
}

/// The parameter patterns of a declared function: one binding variable
/// per call parameter, each followed by a comma. The binder carries the
/// parameter node's scope identifier, so the clause body's symbol
/// references find it; a parameter node the resolver left bare is a
/// compile-time error.
pub open spec fn emit_params(list: Seq<Node<CallParam>>) -> Result<Seq<char>, CompileError>
    decreases list,
{
    if list.len() == 0 {
        Ok(Seq::<char>::empty())
    } else if list[0].attrs is None {
        Err(CompileError::MissingAttributes { location: list[0].location })
    } else {
        let one = "llrt::pat_var(\""@ + emit_symbol(
            list[0].attrs->0.scope_id as nat,
            ((*list[0].data).name)@,
        ) + "\"), "@;
        match emit_params(list.drop_first()) {
            Err(e) => Err(e),
            Ok(rest) => Ok(one + rest),
        }
    }
}

/// The declared parameter type names of an effect, quoted, each followed
/// by a comma.
pub open spec fn emit_types(list: Seq<Node<CallParam>>) -> Seq<char>
    decreases list,
{
    if list.len() == 0 {
        Seq::<char>::empty()
    } else {
        "\""@ + esc_spec((*(*list[0].data).param_type.data).name@) + "\", "@ + emit_types(
            list.drop_first(),
        )
    }
}

pub open spec fn emit_path_rest(path: Seq<String>) -> Seq<char>
    decreases path,
{
    if path.len() == 0 {
        Seq::<char>::empty()
    } else {
        "::"@ + path[0]@ + emit_path_rest(path.drop_first())
    }
}

/// A module path joined with `::`.
pub open spec fn emit_path(path: Seq<String>) -> Seq<char> {
    if path.len() == 0 {
        Seq::<char>::empty()
    } else {
        path[0]@ + emit_path_rest(path.drop_first())
    }
}

pub open spec fn emit_vis(public: bool) -> Seq<char> {
    if public {
        "pub "@
    } else {
        Seq::<char>::empty()
    }
}

/// The deterministic module reference an import compiles to; never fails.
pub open spec fn emit_import(d: ImportStatement) -> Seq<char> {
    "use "@ + emit_path(d.path@) + (match d.alias {
        Some(al) => " as "@ + al@,
        None => Seq::<char>::empty(),
    }) + ";"@
}

/// The typed wrapper an effect declaration compiles to: effects cross the
/// trust boundary, so the wrapper checks the received count, the argument
/// types, and the result type at runtime.
pub open spec fn emit_effect(d: EffectDeclStatement) -> Seq<char> {
    emit_vis(d.public) + "fn eff_"@ + d.symbol_name@
        + "(args: &[llrt::Value]) { llrt::assert_param_count(args.len(), "@ + dec_spec(
        d.call_params@.len(),
    ) + "); llrt::assert_types(args, &["@ + emit_types(d.call_params@)
        + "]); llrt::assert_type(llrt::perform(\""@ + esc_spec(d.symbol_name@) + "\", args), \""@
        + esc_spec((*d.return_type.data).name@) + "\") }"@
}

/// The constructor a class declaration compiles to: the incoming value is
/// matched against the constructor parameter pattern, the ordered
/// constraints run under the resulting bindings, and only then is the
/// value tagged as an instance; otherwise construction raises.
pub open spec fn emit_class(d: ClassDeclStatement) -> Result<Seq<char>, CompileError> {
    match emit_pattern((*d.cons_param.data).pattern) {
        Err(e) => Err(e),
        Ok(pt) => match emit_props(d.constraints@) {
            Err(e) => Err(e),
            Ok(props) => Ok(
                emit_vis(d.public) + "fn new_"@ + d.symbol_name@
                    + "(value: llrt::Value) { let b = llrt::assert_match(value, "@ + pt
                    + "); let b = llrt::assert_constraints(b, &["@ + props
                    + "]); llrt::tag(value, \""@ + esc_spec(d.symbol_name@) + "\") }"@,
            ),
        },
    }
}

/// The dispatcher body shared by plain and tail-recursive functions: an
/// arity check, the parameter pattern match from a fresh scope, and the
/// ordered propositions; the final proposition must be a constraint whose
/// expression supplies the clause's result.
pub open spec fn emit_func(d: FuncDeclStatement, loc: Location) -> Result<Seq<char>, CompileError> {
    if d.body@.len() == 0 {
        Err(CompileError::NotImplemented { location: loc })
    } else {
        let last = d.body@[d.body@.len() - 1];
        match *last.data {
            Proposition::Constraint(_) => {
                match emit_params(d.call_params@) {
                    Err(e) => Err(e),
                    Ok(params) => match emit_props(d.body@.drop_last()) {
                        Err(e) => Err(e),
                        Ok(props) => match emit_expr(((*last.data)->Constraint_0).expr, false) {
                            Err(e) => Err(e),
                            Ok(bodytext) => Ok(
                                emit_vis(d.public) + "fn fn_"@ + d.symbol_name@
                                    + "(args: &[llrt::Value]) { llrt::assert_param_count(args.len(), "@
                                    + dec_spec(d.call_params@.len())
                                    + "); let mut b = llrt::assert_match(llrt::tuple_of(args), llrt::pat_tuple(&["@
                                    + params + "])); b = llrt::assert_constraints(b, &["@ + props
                                    + "]); "@ + bodytext + " }"@,
                            ),
                        },
                    },
                }
            },
            Proposition::Binding(_) => Err(
                CompileError::NotImplemented { location: last.location },
            ),
        }
    }
}

/// As `emit_func`, with the dispatch wrapped in a trampoline loop: a
/// tail-position self-call rebinds the parameters and restarts clause
/// dispatch instead of issuing a nested call, so the stack depth does not
/// grow with the recursion count. The clause body is generated in tail
/// position: a `TailRecRecurse` anywhere else aborts compilation.
pub open spec fn emit_tailrec(d: TailRecFuncDeclStatement, loc: Location) -> Result<
    Seq<char>,
    CompileError,
> {
    if d.body@.len() == 0 {
        Err(CompileError::NotImplemented { location: loc })
    } else {
        let last = d.body@[d.body@.len() - 1];
        match *last.data {
            Proposition::Constraint(_) => {
                match emit_params(d.call_params@) {
                    Err(e) => Err(e),
                    Ok(params) => match emit_props(d.body@.drop_last()) {
                        Err(e) => Err(e),
                        Ok(props) => match emit_expr(((*last.data)->Constraint_0).expr, true) {
                            Err(e) => Err(e),
                            Ok(bodytext) => Ok(
                                emit_vis(d.public) + "fn fn_"@ + d.symbol_name@
                                    + "(args: &[llrt::Value]) { let mut args = args.to_vec(); loop { llrt::assert_param_count(args.len(), "@
                                    + dec_spec(d.call_params@.len())
                                    + "); let mut b = llrt::assert_match(llrt::tuple_of(&args), llrt::pat_tuple(&["@
                                    + params + "])); b = llrt::assert_constraints(b, &["@ + props
                                    + "]); match "@ + bodytext
                                    + " { llrt::Step::Done(v) => break v, llrt::Step::Again(next) => { args = next; } } } }"@,
                            ),
                        },
                    },
                }
            },
            Proposition::Binding(_) => Err(
                CompileError::NotImplemented { location: last.location },
            ),
        }
    }
}

/// The emitted text of a top-level declaration.
pub open spec fn emit_stmt(n: Node<Statement>) -> Result<Seq<char>, CompileError> {
    match *n.data {
        Statement::Import(d) => Ok(emit_import(d)),
        Statement::EffectDecl(d) => Ok(emit_effect(d)),
        Statement::ClassDecl(d) => emit_class(d),
        Statement::FuncDecl(d) => emit_func(d, n.location),
        Statement::TailRecFuncDecl(d) => emit_tailrec(d, n.location),
    }
}

} // verus!

verus! {

/// The source generator: a pure, single-threaded traversal of the
/// immutable tree. It consults but never mutates the tree, and emits calls
/// into the runtime support library rather than re-implementing its
/// semantics inline.
#[derive(Debug)]
pub struct Generator {
}

impl Generator {
    pub fn new() -> (r: Generator) {
        Generator {  }
    }

    /// Emits a literal: a runtime constructor call reproducing the
    /// literal's value exactly.
    pub fn gen_literal(&self, lit: &Literal) -> (r: String)
        ensures
            r@ == emit_literal(*lit),
    {
        match lit {
            Literal::Boolean(b) => {
                if *b {
                    String::from_str("llrt::boolean(true)")
                } else {
                    String::from_str("llrt::boolean(false)")
                }
            },
            Literal::Number(s) => {
                let mut out = String::from_str("llrt::number(\"");
                let e = escape_text(s);
                out.append(e.as_str());
                out.append("\")");
                out
            },
            Literal::Atom(s) => {
                let mut out = String::from_str("llrt::atom(\"");
                let e = escape_text(s);
                out.append(e.as_str());
                out.append("\")");
                out
            },
            Literal::Str(s) => {
                let mut out = String::from_str("llrt::string(\"");
                let e = escape_text(s);
                out.append(e.as_str());
                out.append("\")");
                out
            },
        }
    }

    /// Emits a scope-qualified variable reference.
    fn gen_symbol(&self, scope_id: usize, name: &String) -> (r: String)
        ensures
            r@ == emit_symbol(scope_id as nat, name@),
    {
        let mut out = String::from_str("sym_");
        let d = dec_string(scope_id);
        out.append(d.as_str());
        out.append("_");
        out.append(name.as_str());
        out
    }

    /// Emits the runtime constructor of a pattern; a binding variable
    /// carries its node's scope identifier.
    pub fn gen_pattern(&self, n: &Node<Pattern>) -> (r: CompilationResult<String>)
        ensures
            r is Ok <==> emit_pattern(*n) is Ok,
            r is Ok ==> r->Ok_0@ == emit_pattern(*n)->Ok_0,
            r is Err ==> emit_pattern(*n) == Err::<Seq<char>, CompileError>(r->Err_0),
        decreases *n, 1int,
    {
        match &*n.data {
            Pattern::Wildcard => Ok(String::from_str("llrt::pat_any()")),
            Pattern::Variable(x) => {
                let a = match &n.attrs {
                    None => {
                        return Err(CompileError::MissingAttributes { location: n.location });
                    },
                    Some(a) => a,
                };
                let mut out = String::from_str("llrt::pat_var(\"");
                let t = self.gen_symbol(a.scope_id, x);
                out.append(t.as_str());
                out.append("\")");
                Ok(out)
            },
            Pattern::Literal(l) => {
                let mut out = String::from_str("llrt::pat_lit(");
                let t = self.gen_literal(l);
                out.append(t.as_str());
                out.append(")");
                Ok(out)
            },
            Pattern::Tuple(ps) => {
                proof {
                    assert(decreases_to!(*n => n.data));
                    let ghost pd = *n.data;
                    assert(decreases_to!(pd => pd->Tuple_0));
                    assert(pd->Tuple_0 == *ps);
                    assert(decreases_to!(*ps => ps@));
                }
                let t = match self.gen_pat_list(ps) {
                    Ok(t) => t,
                    Err(e) => {
                        return Err(e);
                    },
                };
                let mut out = String::from_str("llrt::pat_tuple(&[");
                out.append(t.as_str());
                out.append("])");
                Ok(out)
            },
        }
    }

    fn gen_pat_list(&self, list: &Vec<Node<Pattern>>) -> (r: CompilationResult<String>)
        ensures
            r is Ok <==> emit_pat_list(list@) is Ok,
            r is Ok ==> r->Ok_0@ == emit_pat_list(list@)->Ok_0,
            r is Err ==> emit_pat_list(list@) == Err::<Seq<char>, CompileError>(r->Err_0),
        decreases list@, 2int,
    {
        let n = list.len();
        let mut out = String::new();
        let mut i: usize = 0;
        proof {
            assert(list@.skip(0) =~= list@);
        }
        while i < n
            invariant
                n == list@.len(),
                i <= n,
                (match emit_pat_list(list@.skip(i as int)) {
                    Ok(rest) => emit_pat_list(list@) == Ok::<Seq<char>, CompileError>(
                        out@ + rest,
                    ),
                    Err(e) => emit_pat_list(list@) == Err::<Seq<char>, CompileError>(e),
                }),
            decreases n - i,
        {
            proof {
                assert(list@.skip(i as int)[0] == list@[i as int]);
                vstd::std_specs::vec::axiom_vec_index_decreases(*list, i as int);
            }
            let ghost out0 = out@;
            match self.gen_pattern(&list[i]) {
                Ok(t) => {
                    out.append(t.as_str());
                    out.append(", ");
                    proof {
                        assert(list@.skip(i as int).drop_first() =~= list@.skip(i + 1));
                        match emit_pat_list(list@.skip(i + 1)) {
                            Ok(rest1) => {
                                assert(emit_pat_list(list@.skip(i as int)) == Ok::<
                                    Seq<char>,
                                    CompileError,
                                >((t@ + ", "@) + rest1));
                                assert(out0 + ((t@ + ", "@) + rest1) =~= out@ + rest1);
                            },
                            Err(_) => {},
                        }
                    }
                },
                Err(e) => {
                    return Err(e);
                },
            }
            i = i + 1;
        }
        proof {
            assert(list@.skip(n as int) =~= Seq::<Node<Pattern>>::empty());
            assert(out@ + Seq::<char>::empty() =~= out@);
        }
        Ok(out)
    }

    /// Wraps an operand in the type assertion its operator's domain
    /// demands.
    fn guard_operand(&self, op: &String, t: String) -> (r: String)
        ensures
            r@ == operand_guard(op@, t@),
    {
        let num1 = String::from_str("+");
        let num2 = String::from_str("-");
        let num3 = String::from_str("*");
        let num4 = String::from_str("/");
        let num5 = String::from_str("<");
        let num6 = String::from_str("<=");
        let num7 = String::from_str(">");
        let num8 = String::from_str(">=");
        let bool1 = String::from_str("and");
        let bool2 = String::from_str("or");
        let bool3 = String::from_str("not");
        let is_num = *op == num1 || *op == num2 || *op == num3 || *op == num4 || *op == num5
            || *op == num6 || *op == num7 || *op == num8;
        let is_bool = *op == bool1 || *op == bool2 || *op == bool3;
        if is_num {
            let mut out = String::from_str("llrt::assert_type(");
            out.append(t.as_str());
            out.append(", \"");
            out.append("number");
            out.append("\")");
            out
        } else if is_bool {
            let mut out = String::from_str("llrt::assert_type(");
            out.append(t.as_str());
            out.append(", \"");
            out.append("boolean");
            out.append("\")");
            out
        } else {
            t
        }
    }

    /// Compiles a guard expression to the emitted text that builds the
    /// runtime's guard data.
    pub fn gen_guard(&self, node: &Node<Expression>) -> (r: CompilationResult<String>)
        ensures
            r is Ok <==> emit_guard(*node) is Ok,
            r is Ok ==> r->Ok_0@ == emit_guard(*node)->Ok_0,
            r is Err ==> emit_guard(*node) == Err::<Seq<char>, CompileError>(r->Err_0),
        decreases *node,
    {
        let a = match &node.attrs {
            None => {
                return Err(CompileError::MissingAttributes { location: node.location });
            },
            Some(a) => a,
        };
        match &*node.data {
            Expression::Literal(ln) => {
                let mut out = String::from_str("llrt::g_lit(");
                let t = self.gen_literal(&ln.data);
                out.append(t.as_str());
                out.append(")");
                Ok(out)
            },
            Expression::Symbol(sy) => {
                let mut out = String::from_str("llrt::g_var(\"");
                let t = self.gen_symbol(a.scope_id, &sy.name);
                out.append(t.as_str());
                out.append("\")");
                Ok(out)
            },
            Expression::UnaryOperation(u) => {
                let not_name = String::from_str("not");
                if u.op == not_name {
                    proof {
                        assert(decreases_to!(*node => node.data));
                        let ghost ex = *node.data;
                        assert(decreases_to!(ex => ex->UnaryOperation_0));
                        assert(ex->UnaryOperation_0 == *u);
                        assert(decreases_to!(*u => u.expr));
                    }
                    match self.gen_guard(&u.expr) {
                        Ok(t) => {
                            let mut out = String::from_str("llrt::g_not(");
                            out.append(t.as_str());
                            out.append(")");
                            Ok(out)
                        },
                        Err(e) => Err(e),
                    }
                } else {
                    Err(CompileError::NotImplemented { location: node.location })
                }
            },
            Expression::BinaryOperation(b) => {
                let eq_name = String::from_str("==");
                let and_name = String::from_str("and");
                let or_name = String::from_str("or");
                let is_eq = b.op == eq_name;
                let is_and = b.op == and_name;
                let is_or = b.op == or_name;
                if is_eq || is_and || is_or {
                    proof {
                        assert(decreases_to!(*node => node.data));
                        let ghost ex = *node.data;
                        assert(decreases_to!(ex => ex->BinaryOperation_0));
                        assert(ex->BinaryOperation_0 == *b);
                        assert(decreases_to!(*b => b.lhs));
                        assert(decreases_to!(*b => b.rhs));
                    }
                    let l = match self.gen_guard(&b.lhs) {
                        Ok(l) => l,
                        Err(e) => {
                            return Err(e);
                        },
                    };
                    let rr = match self.gen_guard(&b.rhs) {
                        Ok(rr) => rr,
                        Err(e) => {
                            return Err(e);
                        },
                    };
                    let mut out = if is_eq {
                        String::from_str("llrt::g_eq(")
                    } else if is_and {
                        String::from_str("llrt::g_and(")
                    } else {
                        String::from_str("llrt::g_or(")
                    };
                    out.append(l.as_str());
                    out.append(", ");
                    out.append(rr.as_str());
                    out.append(")");
                    Ok(out)
                } else {
                    Err(CompileError::NotImplemented { location: node.location })
                }
            },
            _ => Err(CompileError::NotImplemented { location: node.location }),
        }
    }
}

} // verus!

verus! {

impl Generator {
    fn gen_args(&self, list: &Vec<Node<Expression>>) -> (r: CompilationResult<String>)
        ensures
            r is Ok <==> emit_args(list@) is Ok,
            r is Ok ==> r->Ok_0@ == emit_args(list@)->Ok_0,
            r is Err ==> emit_args(list@) == Err::<Seq<char>, CompileError>(r->Err_0),
        decreases list@, 2int,
    {
        let n = list.len();
        let mut out = String::new();
        let mut i: usize = 0;
        proof {
            assert(list@.skip(0) =~= list@);
        }
        while i < n
            invariant
                n == list@.len(),
                i <= n,
                (match emit_args(list@.skip(i as int)) {
                    Ok(rest) => emit_args(list@) == Ok::<Seq<char>, CompileError>(out@ + rest),
                    Err(e) => emit_args(list@) == Err::<Seq<char>, CompileError>(e),
                }),
            decreases n - i,
        {
            proof {
                assert(list@.skip(i as int)[0] == list@[i as int]);
                vstd::std_specs::vec::axiom_vec_index_decreases(*list, i as int);
            }
            let ghost out0 = out@;
            match self.gen_expr_ctx(&list[i], false) {
                Ok(t) => {
                    out.append(t.as_str());
                    out.append(", ");
                    proof {
                        assert(list@.skip(i as int).drop_first() =~= list@.skip(i + 1));
                        match emit_args(list@.skip(i + 1)) {
                            Ok(rest1) => {
                                assert(emit_args(list@.skip(i as int)) == Ok::<
                                    Seq<char>,
                                    CompileError,
                                >((t@ + ", "@) + rest1));
                                assert(out0 + ((t@ + ", "@) + rest1) =~= out@ + rest1);
                            },
                            Err(_) => {},
                        }
                    }
                },
                Err(e) => {
                    return Err(e);
                },
            }
            i = i + 1;
        }
        proof {
            assert(list@.skip(n as int) =~= Seq::<Node<Expression>>::empty());
            assert(out@ + Seq::<char>::empty() =~= out@);
        }
        Ok(out)
    }

    fn gen_inits(&self, list: &Vec<Node<Expression>>, m: usize) -> (r: CompilationResult<String>)
        requires
            m <= list@.len(),
        ensures
            r is Ok <==> emit_inits(list@.subrange(0, m as int)) is Ok,
            r is Ok ==> r->Ok_0@ == emit_inits(list@.subrange(0, m as int))->Ok_0,
            r is Err ==> emit_inits(list@.subrange(0, m as int)) == Err::<Seq<char>, CompileError>(
                r->Err_0,
            ),
        decreases list@, 2int,
    {
        let ghost pre = list@.subrange(0, m as int);
        let mut out = String::new();
        let mut i: usize = 0;
        proof {
            assert(pre.skip(0) =~= pre);
        }
        while i < m
            invariant
                m <= list@.len(),
                pre == list@.subrange(0, m as int),
                i <= m,
                (match emit_inits(pre.skip(i as int)) {
                    Ok(rest) => emit_inits(pre) == Ok::<Seq<char>, CompileError>(out@ + rest),
                    Err(e) => emit_inits(pre) == Err::<Seq<char>, CompileError>(e),
                }),
            decreases m - i,
        {
            proof {
                assert(pre.skip(i as int)[0] == pre[i as int]);
                assert(pre[i as int] == list@[i as int]);
                vstd::std_specs::vec::axiom_vec_index_decreases(*list, i as int);
            }
            let ghost out0 = out@;
            match self.gen_expr_ctx(&list[i], false) {
                Ok(t) => {
                    out.append(t.as_str());
                    out.append("; ");
                    proof {
                        assert(pre.skip(i as int).drop_first() =~= pre.skip(i + 1));
                        match emit_inits(pre.skip(i + 1)) {
                            Ok(rest1) => {
                                assert(emit_inits(pre.skip(i as int)) == Ok::<
                                    Seq<char>,
                                    CompileError,
                                >((t@ + "; "@) + rest1));
                                assert(out0 + ((t@ + "; "@) + rest1) =~= out@ + rest1);
                            },
                            Err(_) => {},
                        }
                    }
                },
                Err(e) => {
                    return Err(e);
                },
            }
            i = i + 1;
        }
        proof {
            assert(pre.skip(m as int) =~= Seq::<Node<Expression>>::empty());
            assert(out@ + Seq::<char>::empty() =~= out@);
        }
        Ok(out)
    }

    fn gen_arms(&self, arms: &Vec<crate::ast::FlowMatchArm>, i: usize, tail: bool) -> (r:
        CompilationResult<String>)
        requires
            i <= arms@.len(),
        ensures
            r is Ok <==> emit_arms(arms@.skip(i as int), tail) is Ok,
            r is Ok ==> r->Ok_0@ == emit_arms(arms@.skip(i as int), tail)->Ok_0,
            r is Err ==> emit_arms(arms@.skip(i as int), tail) == Err::<Seq<char>, CompileError>(
                r->Err_0,
            ),
        decreases arms@.skip(i as int), 2int,
    {
        let n = arms.len();
        if i == n {
            proof {
                assert(arms@.skip(i as int) =~= Seq::<crate::ast::FlowMatchArm>::empty());
            }
            return Ok(String::from_str("llrt::no_arm_matched()"));
        }
        proof {
            assert(arms@.skip(i as int)[0] == arms@[i as int]);
        }
        let arm = &arms[i];
        let pt = match self.gen_pattern(&arm.pattern) {
            Ok(pt) => pt,
            Err(e) => {
                return Err(e);
            },
        };
        proof {
            vstd::seq::axiom_seq_index_decreases(arms@.skip(i as int), 0);
            assert(decreases_to!(arms@.skip(i as int) => arms@[i as int]));
            assert(decreases_to!(arms@[i as int] => arms@[i as int].body));
        }
        let bd = match self.gen_expr_ctx(&arm.body, tail) {
            Ok(bd) => bd,
            Err(e) => {
                return Err(e);
            },
        };
        proof {
            vstd::seq::axiom_seq_subrange_decreases(
                arms@.skip(i as int),
                1,
                arms@.skip(i as int).len() as int,
            );
            assert(arms@.skip(i as int).subrange(1, arms@.skip(i as int).len() as int) =~= arms@.skip(
                i + 1,
            ));
            assert(arms@.skip(i as int).drop_first() =~= arms@.skip(i + 1));
        }
        let rest = match self.gen_arms(arms, i + 1, tail) {
            Ok(rest) => rest,
            Err(e) => {
                return Err(e);
            },
        };
        let mut out = String::from_str("if llrt::matches(&mut b, &s, ");
        out.append(pt.as_str());
        out.append(") { ");
        out.append(bd.as_str());
        out.append(" } else { ");
        out.append(rest.as_str());
        out.append(" }");
        Ok(out)
    }

    fn wrap_tail(&self, tail: bool, t: String) -> (r: String)
        ensures
            r@ == tail_wrap(tail, t@),
    {
        if tail {
            let mut out = String::from_str("llrt::trampoline_done(");
            out.append(t.as_str());
            out.append(")");
            out
        } else {
            t
        }
    }

    /// Emits an expression in the given tail context.
    fn gen_expr_ctx(&self, node: &Node<Expression>, tail: bool) -> (r: CompilationResult<String>)
        ensures
            r is Ok <==> emit_expr(*node, tail) is Ok,
            r is Ok ==> r->Ok_0@ == emit_expr(*node, tail)->Ok_0,
            r is Err ==> emit_expr(*node, tail) == Err::<Seq<char>, CompileError>(r->Err_0),
        decreases *node, 1int,
    {
        let a = match &node.attrs {
            None => {
                return Err(CompileError::MissingAttributes { location: node.location });
            },
            Some(a) => a,
        };
        proof {
            assert(decreases_to!(*node => node.data));
        }
        match &*node.data {
            Expression::Symbol(sy) => {
                let mut out = String::from_str("llrt::get(&b, \"");
                let t = self.gen_symbol(a.scope_id, &sy.name);
                out.append(t.as_str());
                out.append("\")");
                Ok(self.wrap_tail(tail, out))
            },
            Expression::Literal(ln) => {
                let t = self.gen_literal(&ln.data);
                Ok(self.wrap_tail(tail, t))
            },
            Expression::FunctionCall(d) => {
                proof {
                    let ghost ex = *node.data;
                    assert(decreases_to!(ex => ex->FunctionCall_0));
                    assert(ex->FunctionCall_0 == *d);
                    assert(decreases_to!(*d => d.func));
                    assert(decreases_to!(*d => d.args));
                    assert(decreases_to!(d.args => d.args@));
                }
                let f = match self.gen_expr_ctx(&d.func, false) {
                    Ok(f) => f,
                    Err(e) => {
                        return Err(e);
                    },
                };
                let args = match self.gen_args(&d.args) {
                    Ok(t) => t,
                    Err(e) => {
                        return Err(e);
                    },
                };
                let mut out = String::from_str("llrt::call_function(");
                out.append(f.as_str());
                out.append(", &[");
                out.append(args.as_str());
                out.append("])");
                Ok(self.wrap_tail(tail, out))
            },
            Expression::EffectCall(d) => {
                proof {
                    let ghost ex = *node.data;
                    assert(decreases_to!(ex => ex->EffectCall_0));
                    assert(ex->EffectCall_0 == *d);
                    assert(decreases_to!(*d => d.args));
                    assert(decreases_to!(d.args => d.args@));
                }
                let args = match self.gen_args(&d.args) {
                    Ok(t) => t,
                    Err(e) => {
                        return Err(e);
                    },
                };
                let mut out = String::from_str("eff_");
                out.append(d.effect_name.as_str());
                out.append("(&[");
                out.append(args.as_str());
                out.append("])");
                Ok(self.wrap_tail(tail, out))
            },
            Expression::UnaryOperation(u) => {
                proof {
                    let ghost ex = *node.data;
                    assert(decreases_to!(ex => ex->UnaryOperation_0));
                    assert(ex->UnaryOperation_0 == *u);
                    assert(decreases_to!(*u => u.expr));
                }
                let t = match self.gen_expr_ctx(&u.expr, false) {
                    Ok(t) => t,
                    Err(e) => {
                        return Err(e);
                    },
                };
                let mut out = String::from_str("llrt::unop(\"");
                let op = escape_text(&u.op);
                out.append(op.as_str());
                out.append("\", ");
                let gt = self.guard_operand(&u.op, t);
                out.append(gt.as_str());
                out.append(")");
                Ok(self.wrap_tail(tail, out))
            },
            Expression::BinaryOperation(b) => {
                proof {
                    let ghost ex = *node.data;
                    assert(decreases_to!(ex => ex->BinaryOperation_0));
                    assert(ex->BinaryOperation_0 == *b);
                    assert(decreases_to!(*b => b.lhs));
                    assert(decreases_to!(*b => b.rhs));
                }
                let l = match self.gen_expr_ctx(&b.lhs, false) {
                    Ok(l) => l,
                    Err(e) => {
                        return Err(e);
                    },
                };
                let rr = match self.gen_expr_ctx(&b.rhs, false) {
                    Ok(rr) => rr,
                    Err(e) => {
                        return Err(e);
                    },
                };
                let mut out = String::from_str("llrt::binop(\"");
                let op = escape_text(&b.op);
                out.append(op.as_str());
                out.append("\", ");
                let gl = self.guard_operand(&b.op, l);
                out.append(gl.as_str());
                out.append(", ");
                let gr = self.guard_operand(&b.op, rr);
                out.append(gr.as_str());
                out.append(")");
                Ok(self.wrap_tail(tail, out))
            },
            Expression::PatternMatch(pm) => {
                proof {
                    let ghost ex = *node.data;
                    assert(decreases_to!(ex => ex->PatternMatch_0));
                    assert(ex->PatternMatch_0 == *pm);
                    assert(decreases_to!(*pm => pm.value));
                }
                let v = match self.gen_expr_ctx(&pm.value, false) {
                    Ok(v) => v,
                    Err(e) => {
                        return Err(e);
                    },
                };
                let pt = match self.gen_pattern(&pm.pattern) {
                    Ok(pt) => pt,
                    Err(e) => {
                        return Err(e);
                    },
                };
                let mut out = String::from_str("llrt::bind(&mut b, ");
                out.append(v.as_str());
                out.append(", ");
                out.append(pt.as_str());
                out.append(")");
                Ok(self.wrap_tail(tail, out))
            },
            Expression::FlowMatch(d) => {
                proof {
                    let ghost ex = *node.data;
                    assert(decreases_to!(ex => ex->FlowMatch_0));
                    assert(ex->FlowMatch_0 == *d);
                    assert(decreases_to!(*d => d.expr));
                    assert(decreases_to!(*d => d.arms));
                    assert(decreases_to!(d.arms => d.arms@));
                }
                let scrut = match self.gen_expr_ctx(&d.expr, false) {
                    Ok(t) => t,
                    Err(e) => {
                        return Err(e);
                    },
                };
                proof {
                    assert(d.arms@.skip(0) =~= d.arms@);
                }
                let arms = match self.gen_arms(&d.arms, 0, tail) {
                    Ok(t) => t,
                    Err(e) => {
                        return Err(e);
                    },
                };
                let mut out = String::from_str("{ let s = ");
                out.append(scrut.as_str());
                out.append("; ");
                out.append(arms.as_str());
                out.append(" }");
                Ok(out)
            },
            Expression::FlowConditional(c) => {
                proof {
                    let ghost ex = *node.data;
                    assert(decreases_to!(ex => ex->FlowConditional_0));
                    assert(ex->FlowConditional_0 == *c);
                    assert(decreases_to!(*c => c.condition));
                    assert(decreases_to!(*c => c.then_branch));
                    assert(decreases_to!(*c => c.else_branch));
                }
                let g = match self.gen_expr_ctx(&c.condition, false) {
                    Ok(g) => g,
                    Err(e) => {
                        return Err(e);
                    },
                };
                let t = match self.gen_expr_ctx(&c.then_branch, tail) {
                    Ok(t) => t,
                    Err(e) => {
                        return Err(e);
                    },
                };
                let f = match self.gen_expr_ctx(&c.else_branch, tail) {
                    Ok(f) => f,
                    Err(e) => {
                        return Err(e);
                    },
                };
                let mut out = String::from_str("if llrt::assert_bool(");
                out.append(g.as_str());
                out.append(") { ");
                out.append(t.as_str());
                out.append(" } else { ");
                out.append(f.as_str());
                out.append(" }");
                Ok(out)
            },
            Expression::FlowDoBlock(d) => {
                proof {
                    let ghost ex = *node.data;
                    assert(decreases_to!(ex => ex->FlowDoBlock_0));
                    assert(ex->FlowDoBlock_0 == *d);
                    assert(decreases_to!(*d => d.body));
                    assert(decreases_to!(d.body => d.body@));
                }
                let len = d.body.len();
                if len == 0 {
                    return Err(CompileError::NotImplemented { location: node.location });
                }
                proof {
                    assert(d.body@.subrange(0, len - 1) =~= d.body@.drop_last());
                    vstd::std_specs::vec::axiom_vec_index_decreases(d.body, len - 1);
                }
                let inits = match self.gen_inits(&d.body, len - 1) {
                    Ok(t) => t,
                    Err(e) => {
                        return Err(e);
                    },
                };
                let last = match self.gen_expr_ctx(&d.body[len - 1], tail) {
                    Ok(t) => t,
                    Err(e) => {
                        return Err(e);
                    },
                };
                let mut out = String::from_str("{ ");
                out.append(inits.as_str());
                out.append(last.as_str());
                out.append(" }");
                Ok(out)
            },
            Expression::TailRecFinal(f) => {
                proof {
                    let ghost ex = *node.data;
                    assert(decreases_to!(ex => ex->TailRecFinal_0));
                    assert(ex->TailRecFinal_0 == *f);
                    assert(decreases_to!(*f => f.expr));
                }
                let t = match self.gen_expr_ctx(&f.expr, false) {
                    Ok(t) => t,
                    Err(e) => {
                        return Err(e);
                    },
                };
                if tail {
                    let mut out = String::from_str("llrt::trampoline_done(");
                    out.append(t.as_str());
                    out.append(")");
                    Ok(out)
                } else {
                    Ok(t)
                }
            },
            Expression::TailRecRecurse(d) => {
                if tail {
                    proof {
                        let ghost ex = *node.data;
                        assert(decreases_to!(ex => ex->TailRecRecurse_0));
                        assert(ex->TailRecRecurse_0 == *d);
                        assert(decreases_to!(*d => d.args));
                        assert(decreases_to!(d.args => d.args@));
                    }
                    let args = match self.gen_args(&d.args) {
                        Ok(t) => t,
                        Err(e) => {
                            return Err(e);
                        },
                    };
                    let mut out = String::from_str("llrt::trampoline_again(&[");
                    out.append(args.as_str());
                    out.append("])");
                    Ok(out)
                } else {
                    Err(CompileError::MisplacedRecurse { location: node.location })
                }
            },
        }
    }

    /// Emits an expression. Recursively emits its nested expressions; the
    /// expression stands outside any tail-recursive clause's tail
    /// position, so every tail-recursion self-call below it is rejected at
    /// compile time.
    pub fn gen_expression(&self, node: &Node<Expression>) -> (r: CompilationResult<String>)
        ensures
            r is Ok <==> emit_expr(*node, false) is Ok,
            r is Ok ==> r->Ok_0@ == emit_expr(*node, false)->Ok_0,
            r is Err ==> emit_expr(*node, false) == Err::<Seq<char>, CompileError>(r->Err_0),
    {
        self.gen_expr_ctx(node, false)
    }
}

} // verus!

verus! {

impl Generator {
    fn gen_props(&self, list: &Vec<Node<Proposition>>, m: usize) -> (r: CompilationResult<String>)
        requires
            m <= list@.len(),
        ensures
            r is Ok <==> emit_props(list@.subrange(0, m as int)) is Ok,
            r is Ok ==> r->Ok_0@ == emit_props(list@.subrange(0, m as int))->Ok_0,
            r is Err ==> emit_props(list@.subrange(0, m as int)) == Err::<Seq<char>, CompileError>(
                r->Err_0,
            ),
    {
        let ghost pre = list@.subrange(0, m as int);
        let mut out = String::new();
        let mut i: usize = 0;
        proof {
            assert(pre.skip(0) =~= pre);
        }
        while i < m
            invariant
                m <= list@.len(),
                pre == list@.subrange(0, m as int),
                i <= m,
                (match emit_props(pre.skip(i as int)) {
                    Ok(rest) => emit_props(pre) == Ok::<Seq<char>, CompileError>(out@ + rest),
                    Err(e) => emit_props(pre) == Err::<Seq<char>, CompileError>(e),
                }),
            decreases m - i,
        {
            proof {
                assert(pre.skip(i as int)[0] == pre[i as int]);
                assert(pre[i as int] == list@[i as int]);
            }
            let ghost out0 = out@;
            let ghost stepv = match *list@[i as int].data {
                Proposition::Constraint(_) => {
                    match emit_guard(((*list@[i as int].data)->Constraint_0).expr) {
                        Err(e) => Err::<Seq<char>, CompileError>(e),
                        Ok(g) => Ok("llrt::prop_check("@ + g + "), "@),
                    }
                },
                Proposition::Binding(_) => {
                    let pm = (*list@[i as int].data)->Binding_0;
                    match emit_pattern(pm.pattern) {
                        Err(e) => Err::<Seq<char>, CompileError>(e),
                        Ok(pt) => match emit_guard(*pm.value) {
                            Err(e) => Err::<Seq<char>, CompileError>(e),
                            Ok(g) => Ok("llrt::prop_bind("@ + pt + ", "@ + g + "), "@),
                        },
                    }
                },
            };
            match &*list[i].data {
                Proposition::Constraint(c) => {
                    match self.gen_guard(&c.expr) {
                        Ok(g) => {
                            out.append("llrt::prop_check(");
                            out.append(g.as_str());
                            out.append("), ");
                            proof {
                                assert(stepv == Ok::<Seq<char>, CompileError>(
                                    ("llrt::prop_check("@ + g@) + "), "@,
                                ));
                            }
                        },
                        Err(e) => {
                            return Err(e);
                        },
                    }
                },
                Proposition::Binding(pm) => {
                    let pt = match self.gen_pattern(&pm.pattern) {
                        Ok(pt) => pt,
                        Err(e) => {
                            return Err(e);
                        },
                    };
                    match self.gen_guard(&pm.value) {
                        Ok(g) => {
                            out.append("llrt::prop_bind(");
                            out.append(pt.as_str());
                            out.append(", ");
                            out.append(g.as_str());
                            out.append("), ");
                            proof {
                                assert(stepv == Ok::<Seq<char>, CompileError>(
                                    ((("llrt::prop_bind("@ + pt@) + ", "@) + g@) + "), "@,
                                ));
                            }
                        },
                        Err(e) => {
                            return Err(e);
                        },
                    }
                },
            }
            proof {
                assert(pre.skip(i as int).drop_first() =~= pre.skip(i + 1));
                match emit_props(pre.skip(i + 1)) {
                    Ok(rest1) => {
                        let stept = stepv->Ok_0;
                        assert(emit_props(pre.skip(i as int)) == Ok::<Seq<char>, CompileError>(
                            stept + rest1,
                        ));
                        assert(out0 + (stept + rest1) =~= out@ + rest1);
                    },
                    Err(_) => {},
                }
            }
            i = i + 1;
        }
        proof {
            assert(pre.skip(m as int) =~= Seq::<Node<Proposition>>::empty());
            assert(out@ + Seq::<char>::empty() =~= out@);
        }
        Ok(out)
    }

    fn gen_params(&self, list: &Vec<Node<CallParam>>) -> (r: CompilationResult<String>)
        ensures
            r is Ok <==> emit_params(list@) is Ok,
            r is Ok ==> r->Ok_0@ == emit_params(list@)->Ok_0,
            r is Err ==> emit_params(list@) == Err::<Seq<char>, CompileError>(r->Err_0),
    {
        let n = list.len();
        let mut out = String::new();
        let mut i: usize = 0;
        proof {
            assert(list@.skip(0) =~= list@);
        }
        while i < n
            invariant
                n == list@.len(),
                i <= n,
                (match emit_params(list@.skip(i as int)) {
                    Ok(rest) => emit_params(list@) == Ok::<Seq<char>, CompileError>(out@ + rest),
                    Err(e) => emit_params(list@) == Err::<Seq<char>, CompileError>(e),
                }),
            decreases n - i,
        {
            proof {
                assert(list@.skip(i as int)[0] == list@[i as int]);
            }
            let a = match &list[i].attrs {
                None => {
                    return Err(CompileError::MissingAttributes { location: list[i].location });
                },
                Some(a) => a,
            };
            let ghost out0 = out@;
            out.append("llrt::pat_var(\"");
            let t = self.gen_symbol(a.scope_id, &list[i].data.name);
            out.append(t.as_str());
            out.append("\"), ");
            proof {
                assert(list@.skip(i as int).drop_first() =~= list@.skip(i + 1));
                match emit_params(list@.skip(i + 1)) {
                    Ok(rest1) => {
                        let step = ("llrt::pat_var(\""@ + emit_symbol(
                            list@[i as int].attrs->0.scope_id as nat,
                            ((*list@[i as int].data).name)@,
                        )) + "\"), "@;
                        assert(emit_params(list@.skip(i as int)) == Ok::<Seq<char>, CompileError>(
                            step + rest1,
                        ));
                        assert(out0 + (step + rest1) =~= out@ + rest1);
                    },
                    Err(_) => {},
                }
            }
            i = i + 1;
        }
        proof {
            assert(list@.skip(n as int) =~= Seq::<Node<CallParam>>::empty());
            assert(out@ + Seq::<char>::empty() =~= out@);
        }
        Ok(out)
    }

    fn gen_types(&self, list: &Vec<Node<CallParam>>) -> (r: String)
        ensures
            r@ == emit_types(list@),
    {
        let n = list.len();
        let mut out = String::new();
        let mut i: usize = 0;
        proof {
            assert(list@.skip(0) =~= list@);
            assert(out@ + emit_types(list@) =~= emit_types(list@));
        }
        while i < n
            invariant
                n == list@.len(),
                i <= n,
                emit_types(list@) == out@ + emit_types(list@.skip(i as int)),
            decreases n - i,
        {
            proof {
                assert(list@.skip(i as int)[0] == list@[i as int]);
            }
            let ghost out0 = out@;
            out.append("\"");
            let e = escape_text(&list[i].data.param_type.data.name);
            out.append(e.as_str());
            out.append("\", ");
            proof {
                assert(list@.skip(i as int).drop_first() =~= list@.skip(i + 1));
                let rest1 = emit_types(list@.skip(i + 1));
                let step = ("\""@ + esc_spec((*(*list@[i as int].data).param_type.data).name@))
                    + "\", "@;
                assert(emit_types(list@.skip(i as int)) =~= step + rest1);
                assert(out0 + (step + rest1) =~= out@ + rest1);
            }
            i = i + 1;
        }
        proof {
            assert(list@.skip(n as int) =~= Seq::<Node<CallParam>>::empty());
            assert(out@ + emit_types(list@.skip(n as int)) =~= out@);
        }
        out
    }

    fn gen_path(&self, path: &Vec<String>) -> (r: String)
        ensures
            r@ == emit_path(path@),
    {
        let n = path.len();
        let mut out = String::new();
        if n == 0 {
            proof {
                assert(out@ =~= emit_path(path@));
            }
            return out;
        }
        out.append(path[0].as_str());
        let mut i: usize = 1;
        proof {
            assert(path@.skip(1)  =~= path@.drop_first());
            assert(out@ + emit_path_rest(path@.skip(1)) =~= path@[0]@ + emit_path_rest(
                path@.drop_first(),
            ));
        }
        while i < n
            invariant
                n == path@.len(),
                1 <= i <= n,
                emit_path(path@) == out@ + emit_path_rest(path@.skip(i as int)),
            decreases n - i,
        {
            proof {
                assert(path@.skip(i as int)[0] == path@[i as int]);
            }
            let ghost out0 = out@;
            out.append("::");
            out.append(path[i].as_str());
            proof {
                assert(path@.skip(i as int).drop_first() =~= path@.skip(i + 1));
                let rest1 = emit_path_rest(path@.skip(i + 1));
                let step = "::"@ + path@[i as int]@;
                assert(emit_path_rest(path@.skip(i as int)) =~= step + rest1);
                assert(out0 + (step + rest1) =~= out@ + rest1);
            }
            i = i + 1;
        }
        proof {
            assert(path@.skip(n as int) =~= Seq::<String>::empty());
            assert(out@ + emit_path_rest(path@.skip(n as int)) =~= out@);
        }
        out
    }

    fn gen_statement_import(&self, d: &ImportStatement) -> (r: String)
        ensures
            r@ == emit_import(*d),
    {
        let mut out = String::from_str("use ");
        let p = self.gen_path(&d.path);
        out.append(p.as_str());
        match &d.alias {
            Some(al) => {
                out.append(" as ");
                out.append(al.as_str());
            },
            None => {},
        }
        out.append(";");
        proof {
            assert(out@ =~= emit_import(*d));
        }
        out
    }

    fn gen_statement_effect(&self, d: &EffectDeclStatement) -> (r: String)
        ensures
            r@ == emit_effect(*d),
    {
        let mut out = if d.public {
            String::from_str("pub ")
        } else {
            String::new()
        };
        out.append("fn eff_");
        out.append(d.symbol_name.as_str());
        out.append("(args: &[llrt::Value]) { llrt::assert_param_count(args.len(), ");
        let cnt = dec_string(d.call_params.len());
        out.append(cnt.as_str());
        out.append("); llrt::assert_types(args, &[");
        let tys = self.gen_types(&d.call_params);
        out.append(tys.as_str());
        out.append("]); llrt::assert_type(llrt::perform(\"");
        let en = escape_text(&d.symbol_name);
        out.append(en.as_str());
        out.append("\", args), \"");
        let rn = escape_text(&d.return_type.data.name);
        out.append(rn.as_str());
        out.append("\") }");
        proof {
            assert(out@ =~= emit_effect(*d));
        }
        out
    }

    fn gen_statement_class(&self, d: &ClassDeclStatement) -> (r: CompilationResult<String>)
        ensures
            r is Ok <==> emit_class(*d) is Ok,
            r is Ok ==> r->Ok_0@ == emit_class(*d)->Ok_0,
            r is Err ==> emit_class(*d) == Err::<Seq<char>, CompileError>(r->Err_0),
    {
        let pt = match self.gen_pattern(&d.cons_param.data.pattern) {
            Ok(pt) => pt,
            Err(e) => {
                return Err(e);
            },
        };
        let m = d.constraints.len();
        proof {
            assert(d.constraints@.subrange(0, m as int) =~= d.constraints@);
        }
        let props = match self.gen_props(&d.constraints, m) {
            Ok(t) => t,
            Err(e) => {
                return Err(e);
            },
        };
        let mut out = if d.public {
            String::from_str("pub ")
        } else {
            String::new()
        };
        out.append("fn new_");
        out.append(d.symbol_name.as_str());
        out.append("(value: llrt::Value) { let b = llrt::assert_match(value, ");
        out.append(pt.as_str());
        out.append("); let b = llrt::assert_constraints(b, &[");
        out.append(props.as_str());
        out.append("]); llrt::tag(value, \"");
        let cn = escape_text(&d.symbol_name);
        out.append(cn.as_str());
        out.append("\") }");
        proof {
            assert(out@ =~= emit_class(*d)->Ok_0);
        }
        Ok(out)
    }

    fn gen_statement_func(&self, location: &Location, d: &FuncDeclStatement) -> (r:
        CompilationResult<String>)
        ensures
            r is Ok <==> emit_func(*d, *location) is Ok,
            r is Ok ==> r->Ok_0@ == emit_func(*d, *location)->Ok_0,
            r is Err ==> emit_func(*d, *location) == Err::<Seq<char>, CompileError>(r->Err_0),
    {
        let blen = d.body.len();
        if blen == 0 {
            return Err(CompileError::NotImplemented { location: *location });
        }
        let last = &d.body[blen - 1];
        match &*last.data {
            Proposition::Constraint(c) => {
                let ps = match self.gen_params(&d.call_params) {
                    Ok(t) => t,
                    Err(e) => {
                        return Err(e);
                    },
                };
                proof {
                    assert(d.body@.subrange(0, blen - 1) =~= d.body@.drop_last());
                }
                let props = match self.gen_props(&d.body, blen - 1) {
                    Ok(t) => t,
                    Err(e) => {
                        return Err(e);
                    },
                };
                let bodytext = match self.gen_expr_ctx(&c.expr, false) {
                    Ok(t) => t,
                    Err(e) => {
                        return Err(e);
                    },
                };
                let mut out = if d.public {
                    String::from_str("pub ")
                } else {
                    String::new()
                };
                out.append("fn fn_");
                out.append(d.symbol_name.as_str());
                out.append("(args: &[llrt::Value]) { llrt::assert_param_count(args.len(), ");
                let cnt = dec_string(d.call_params.len());
                out.append(cnt.as_str());
                out.append(
                    "); let mut b = llrt::assert_match(llrt::tuple_of(args), llrt::pat_tuple(&[",
                );
                out.append(ps.as_str());
                out.append("])); b = llrt::assert_constraints(b, &[");
                out.append(props.as_str());
                out.append("]); ");
                out.append(bodytext.as_str());
                out.append(" }");
                proof {
                    assert(out@ =~= emit_func(*d, *location)->Ok_0);
                }
                Ok(out)
            },
            Proposition::Binding(_) => Err(
                CompileError::NotImplemented { location: last.location },
            ),
        }
    }

    fn gen_statement_tailrec(&self, location: &Location, d: &TailRecFuncDeclStatement) -> (r:
        CompilationResult<String>)
        ensures
            r is Ok <==> emit_tailrec(*d, *location) is Ok,
            r is Ok ==> r->Ok_0@ == emit_tailrec(*d, *location)->Ok_0,
            r is Err ==> emit_tailrec(*d, *location) == Err::<Seq<char>, CompileError>(r->Err_0),
    {
        let blen = d.body.len();
        if blen == 0 {
            return Err(CompileError::NotImplemented { location: *location });
        }
        let last = &d.body[blen - 1];
        match &*last.data {
            Proposition::Constraint(c) => {
                let ps = match self.gen_params(&d.call_params) {
                    Ok(t) => t,
                    Err(e) => {
                        return Err(e);
                    },
                };
                proof {
                    assert(d.body@.subrange(0, blen - 1) =~= d.body@.drop_last());
                }
                let props = match self.gen_props(&d.body, blen - 1) {
                    Ok(t) => t,
                    Err(e) => {
                        return Err(e);
                    },
                };
                let bodytext = match self.gen_expr_ctx(&c.expr, true) {
                    Ok(t) => t,
                    Err(e) => {
                        return Err(e);
                    },
                };
                let mut out = if d.public {
                    String::from_str("pub ")
                } else {
                    String::new()
                };
                out.append("fn fn_");
                out.append(d.symbol_name.as_str());
                out.append(
                    "(args: &[llrt::Value]) { let mut args = args.to_vec(); loop { llrt::assert_param_count(args.len(), ",
                );
                let cnt = dec_string(d.call_params.len());
                out.append(cnt.as_str());
                out.append(
                    "); let mut b = llrt::assert_match(llrt::tuple_of(&args), llrt::pat_tuple(&[",
                );
                out.append(ps.as_str());
                out.append("])); b = llrt::assert_constraints(b, &[");
                out.append(props.as_str());
                out.append("]); match ");
                out.append(bodytext.as_str());
                out.append(
                    " { llrt::Step::Done(v) => break v, llrt::Step::Again(next) => { args = next; } } } }",
                );
                proof {
                    assert(out@ =~= emit_tailrec(*d, *location)->Ok_0);
                }
                Ok(out)
            },
            Proposition::Binding(_) => Err(
                CompileError::NotImplemented { location: last.location },
            ),
        }
    }

    /// Emits the text of a top-level declaration: an import, an effect
    /// wrapper, a class constructor, or a (possibly tail-recursive)
    /// function dispatcher. Declarations are generated one by one, in
    /// order; a compile error aborts with no partial output.
    pub fn gen_statement(&self, node: &Node<Statement>) -> (r: CompilationResult<String>)
        ensures
            r is Ok <==> emit_stmt(*node) is Ok,
            r is Ok ==> r->Ok_0@ == emit_stmt(*node)->Ok_0,
            r is Err ==> emit_stmt(*node) == Err::<Seq<char>, CompileError>(r->Err_0),
    {
        match &*node.data {
            Statement::Import(d) => Ok(self.gen_statement_import(d)),
            Statement::EffectDecl(d) => Ok(self.gen_statement_effect(d)),
            Statement::ClassDecl(d) => self.gen_statement_class(d),
            Statement::FuncDecl(d) => self.gen_statement_func(&node.location, d),
            Statement::TailRecFuncDecl(d) => self.gen_statement_tailrec(&node.location, d),
        }
    }
}

} // verus!

verus! {

/// The value of a literal, as the target host reproduces it when the
/// emitted code runs.
#[verifier::ext_equal]
pub enum LitVal {
    Boolean(bool),
    Number(Seq<char>),
    Atom(Seq<char>),
    Str(Seq<char>),
}

pub open spec fn literal_model(l: Literal) -> LitVal {
    match l {
        Literal::Boolean(b) => LitVal::Boolean(b),
        Literal::Number(s) => LitVal::Number(s@),
        Literal::Atom(s) => LitVal::Atom(s@),
        Literal::Str(s) => LitVal::Str(s@),
    }
}

/// Undoes `esc_spec` on escaped text.
pub open spec fn unesc_spec(s: Seq<char>) -> Seq<char>
    decreases s.len(),
{
    if s.len() == 0 {
        Seq::<char>::empty()
    } else if s[0] == '\\' && s.len() >= 2 {
        seq![s[1]] + unesc_spec(s.skip(2))
    } else {
        seq![s[0]] + unesc_spec(s.skip(1))
    }
}

/// Unescaping inverts escaping exactly.
pub proof fn lemma_unesc_esc(s: Seq<char>)
    ensures
        unesc_spec(esc_spec(s)) == s,
    decreases s.len(),
{
    if s.len() == 0 {
    } else {
        let rest = esc_spec(s.drop_first());
        lemma_unesc_esc(s.drop_first());
        if s[0] == '"' || s[0] == '\\' {
            let t = seq!['\\', s[0]] + rest;
            assert(esc_spec(s) == t);
            assert(t[0] == '\\' && t.len() >= 2 && t[1] == s[0]);
            assert(t.skip(2) =~= rest);
            assert(unesc_spec(t) == seq![s[0]] + unesc_spec(rest));
            assert(seq![s[0]] + s.drop_first() =~= s);
        } else {
            let t = seq![s[0]] + rest;
            assert(esc_spec(s) == t);
            assert(t[0] == s[0] && s[0] != '\\');
            assert(t.skip(1) =~= rest);
            assert(unesc_spec(t) == seq![s[0]] + unesc_spec(rest));
            assert(seq![s[0]] + s.drop_first() =~= s);
        }
    }
}

pub open spec fn starts_with(t: Seq<char>, p: Seq<char>) -> bool {
    t.len() >= p.len() && t.subrange(0, p.len() as int) == p
}

/// Reads a literal's value back from its emitted text: the decoder of the
/// literal emission. Quoted payloads sit between the constructor's opening
/// quote and the closing `")`, escaped.
pub open spec fn parse_literal(t: Seq<char>) -> Option<LitVal> {
    if t == "llrt::boolean(true)"@ {
        Some(LitVal::Boolean(true))
    } else if t == "llrt::boolean(false)"@ {
        Some(LitVal::Boolean(false))
    } else if starts_with(t, "llrt::number(\""@) && t.len() >= "llrt::number(\""@.len() + 2 {
        Some(
            LitVal::Number(
                unesc_spec(t.subrange("llrt::number(\""@.len() as int, t.len() - 2)),
            ),
        )
    } else if starts_with(t, "llrt::atom(\""@) && t.len() >= "llrt::atom(\""@.len() + 2 {
        Some(LitVal::Atom(unesc_spec(t.subrange("llrt::atom(\""@.len() as int, t.len() - 2))))
    } else if starts_with(t, "llrt::string(\""@) && t.len() >= "llrt::string(\""@.len() + 2 {
        Some(LitVal::Str(unesc_spec(t.subrange("llrt::string(\""@.len() as int, t.len() - 2))))
    } else {
        None::<LitVal>
    }
}

/// Round-trip: for every literal kind, the emitted code reproduces the
/// literal's value exactly — reading the emitted text back yields the
/// very value that was generated.
pub proof fn lemma_literal_round_trip(l: Literal)
    ensures
        parse_literal(emit_literal(l)) == Some(literal_model(l)),
{
    reveal_strlit("llrt::boolean(true)");
    reveal_strlit("llrt::boolean(false)");
    reveal_strlit("llrt::number(\"");
    reveal_strlit("llrt::atom(\"");
    reveal_strlit("llrt::string(\"");
    reveal_strlit("\")");
    match l {
        Literal::Boolean(b) => {
            if b {
                assert(emit_literal(l) == "llrt::boolean(true)"@);
                assert("llrt::boolean(true)"@ != "llrt::boolean(false)"@) by {
                    assert("llrt::boolean(true)"@.len() == 19);
                    assert("llrt::boolean(false)"@.len() == 20);
                }
            } else {
                assert(emit_literal(l) == "llrt::boolean(false)"@);
                assert("llrt::boolean(false)"@ != "llrt::boolean(true)"@) by {
                    assert("llrt::boolean(true)"@.len() == 19);
                    assert("llrt::boolean(false)"@.len() == 20);
                }
            }
        },
        Literal::Number(sv) => {
            let pre = "llrt::number(\""@;
            let body = esc_spec(sv@);
            let t = pre + body + "\")"@;
            assert(emit_literal(l) == t);
            assert(t.len() == pre.len() + body.len() + 2);
            assert(t != "llrt::boolean(true)"@) by {
                if t == "llrt::boolean(true)"@ {
                    assert(t[6] == 'b');
                    assert(t[6] == pre[6]);
                    assert(pre[6] == 'n');
                }
            }
            assert(t != "llrt::boolean(false)"@) by {
                if t == "llrt::boolean(false)"@ {
                    assert(t[6] == 'b');
                    assert(t[6] == pre[6]);
                    assert(pre[6] == 'n');
                }
            }
            assert(t.subrange(0, pre.len() as int) =~= pre);
            assert(starts_with(t, pre));
            assert(t.subrange(pre.len() as int, t.len() - 2) =~= body);
            lemma_unesc_esc(sv@);
        },
        Literal::Atom(sv) => {
            let pre = "llrt::atom(\""@;
            let body = esc_spec(sv@);
            let t = pre + body + "\")"@;
            assert(emit_literal(l) == t);
            assert(t.len() == pre.len() + body.len() + 2);
            assert(t != "llrt::boolean(true)"@) by {
                if t == "llrt::boolean(true)"@ {
                    assert(t[6] == 'b');
                    assert(t[6] == pre[6]);
                    assert(pre[6] == 'a');
                }
            }
            assert(t != "llrt::boolean(false)"@) by {
                if t == "llrt::boolean(false)"@ {
                    assert(t[6] == 'b');
                    assert(t[6] == pre[6]);
                    assert(pre[6] == 'a');
                }
            }
            assert(!starts_with(t, "llrt::number(\""@)) by {
                if starts_with(t, "llrt::number(\""@) {
                    assert(t.subrange(0, 14)[6] == 'n');
                    assert(t[6] == pre[6]);
                    assert(pre[6] == 'a');
                }
            }
            assert(t.subrange(0, pre.len() as int) =~= pre);
            assert(starts_with(t, pre));
            assert(t.subrange(pre.len() as int, t.len() - 2) =~= body);
            lemma_unesc_esc(sv@);
        },
        Literal::Str(sv) => {
            let pre = "llrt::string(\""@;
            let body = esc_spec(sv@);
            let t = pre + body + "\")"@;
            assert(emit_literal(l) == t);
            assert(t.len() == pre.len() + body.len() + 2);
            assert(t != "llrt::boolean(true)"@) by {
                if t == "llrt::boolean(true)"@ {
                    assert(t[6] == 'b');
                    assert(t[6] == pre[6]);
                    assert(pre[6] == 's');
                }
            }
            assert(t != "llrt::boolean(false)"@) by {
                if t == "llrt::boolean(false)"@ {
                    assert(t[6] == 'b');
                    assert(t[6] == pre[6]);
                    assert(pre[6] == 's');
                }
            }
            assert(!starts_with(t, "llrt::number(\""@)) by {
                if starts_with(t, "llrt::number(\""@) {
                    assert(t.subrange(0, 14)[6] == 'n');
                    assert(t[6] == pre[6]);
                    assert(pre[6] == 's');
                }
            }
            assert(!starts_with(t, "llrt::atom(\""@)) by {
                if starts_with(t, "llrt::atom(\""@) {
                    assert(t.subrange(0, 12)[6] == 'a');
                    assert(t[6] == pre[6]);
                    assert(pre[6] == 's');
                }
            }
            assert(t.subrange(0, pre.len() as int) =~= pre);
            assert(starts_with(t, pre));
            assert(t.subrange(pre.len() as int, t.len() - 2) =~= body);
            lemma_unesc_esc(sv@);
        },
    }
}

/// A tail-recursion self-call outside tail position is rejected at
/// compile time: generation of the enclosing expression returns the
/// misplaced-recurse error, and no code is emitted for it.
pub proof fn lemma_recurse_outside_tail_rejected(n: Node<Expression>)
    requires
        n.attrs is Some,
        *n.data matches Expression::TailRecRecurse(_),
    ensures
        emit_expr(n, false) == Err::<Seq<char>, CompileError>(
            CompileError::MisplacedRecurse { location: n.location },
        ),
{
}

/// Sequencing: a do block with expressions [e1, e2, e3] compiles to the
/// three emissions in order — e1 and e2 in discarded statement position,
/// each appearing exactly once (so a discarded effect call still fires
/// exactly once), and e3 in value position supplying the block's value.
pub proof fn lemma_do_block_sequencing(n: Node<Expression>, e1: Seq<char>, e2: Seq<char>, e3: Seq<
    char,
>)
    requires
        n.attrs is Some,
        *n.data matches Expression::FlowDoBlock(_),
        ((*n.data)->FlowDoBlock_0).body@.len() == 3,
        emit_expr(((*n.data)->FlowDoBlock_0).body@[0], false) == Ok::<Seq<char>, CompileError>(e1),
        emit_expr(((*n.data)->FlowDoBlock_0).body@[1], false) == Ok::<Seq<char>, CompileError>(e2),
        emit_expr(((*n.data)->FlowDoBlock_0).body@[2], false) == Ok::<Seq<char>, CompileError>(e3),
    ensures
        emit_expr(n, false) == Ok::<Seq<char>, CompileError>(
            "{ "@ + e1 + "; "@ + e2 + "; "@ + e3 + " }"@,
        ),
{
    let b = ((*n.data)->FlowDoBlock_0).body@;
    let inits = b.drop_last();
    assert(inits.len() == 2);
    assert(inits[0] == b[0]);
    assert(inits[1] == b[1]);
    assert(inits.drop_first() =~= seq![b[1]]);
    assert(inits.drop_first().drop_first() =~= Seq::<Node<Expression>>::empty());
    assert(emit_inits(inits.drop_first().drop_first()) == Ok::<Seq<char>, CompileError>(
        Seq::<char>::empty(),
    ));
    assert(inits.drop_first()[0] == b[1]);
    assert(emit_inits(inits.drop_first()) == Ok::<Seq<char>, CompileError>(
        (e2 + "; "@) + Seq::<char>::empty(),
    ));
    assert(emit_inits(inits) == Ok::<Seq<char>, CompileError>(
        (e1 + "; "@) + ((e2 + "; "@) + Seq::<char>::empty()),
    ));
    assert(b[b.len() - 1] == b[2]);
    assert("{ "@ + ((e1 + "; "@) + ((e2 + "; "@) + Seq::<char>::empty())) + e3 + " }"@ =~= "{ "@
        + e1 + "; "@ + e2 + "; "@ + e3 + " }"@);
}

} // verus!

verus! {

proof fn lemma_dec_len(n: nat)
    ensures
        dec_spec(n).len() >= 1,
        n >= 10 ==> dec_spec(n).len() >= 2,
    decreases n,
{
    if n >= 10 {
        lemma_dec_len(n / 10);
    }
}

proof fn lemma_digit_char_inj(a: nat, b: nat)
    requires
        a < 10,
        b < 10,
        digit_char(a) == digit_char(b),
    ensures
        a == b,
{
}

proof fn lemma_dec_inj(a: nat, b: nat)
    requires
        dec_spec(a) == dec_spec(b),
    ensures
        a == b,
    decreases a,
{
    lemma_dec_len(a);
    lemma_dec_len(b);
    if a < 10 && b < 10 {
        assert(dec_spec(a) == seq![digit_char(a)]);
        assert(dec_spec(b) == seq![digit_char(b)]);
        assert(digit_char(a) == dec_spec(a)[0]);
        assert(digit_char(b) == dec_spec(b)[0]);
        lemma_digit_char_inj(a, b);
    } else if a < 10 {
        assert(dec_spec(a).len() == 1);
        assert(false);
    } else if b < 10 {
        assert(dec_spec(b).len() == 1);
        assert(false);
    } else {
        let da = dec_spec(a / 10);
        let db = dec_spec(b / 10);
        assert(dec_spec(a) == da.push(digit_char(a % 10)));
        assert(dec_spec(b) == db.push(digit_char(b % 10)));
        assert(da.len() == db.len());
        assert(digit_char(a % 10) == da.push(digit_char(a % 10))[da.len() as int]);
        assert(digit_char(b % 10) == db.push(digit_char(b % 10))[db.len() as int]);
        assert(digit_char(a % 10) == digit_char(b % 10));
        lemma_digit_char_inj(a % 10, b % 10);
        assert(da =~= db) by {
            assert forall|k: int| 0 <= k < da.len() implies da[k] == db[k] by {
                assert(da[k] == da.push(digit_char(a % 10))[k]);
                assert(db[k] == db.push(digit_char(b % 10))[k]);
            }
        }
        lemma_dec_inj(a / 10, b / 10);
        vstd::arithmetic::div_mod::lemma_fundamental_div_mod(a as int, 10);
        vstd::arithmetic::div_mod::lemma_fundamental_div_mod(b as int, 10);
    }
}

/// Distinct scope identifiers never collide: two references to the same
/// surface name, resolved in different scopes, always emit different
/// scope-qualified text.
pub proof fn lemma_symbol_refs_distinct(i: nat, j: nat, name: Seq<char>)
    requires
        emit_symbol(i, name) == emit_symbol(j, name),
    ensures
        i == j,
{
    reveal_strlit("sym_");
    reveal_strlit("_");
    let a = dec_spec(i);
    let b = dec_spec(j);
    let ta = "sym_"@ + a + "_"@ + name;
    let tb = "sym_"@ + b + "_"@ + name;
    assert(ta.len() == 4 + a.len() + 1 + name.len());
    assert(tb.len() == 4 + b.len() + 1 + name.len());
    assert(a.len() == b.len());
    assert(a =~= b) by {
        assert forall|k: int| 0 <= k < a.len() implies a[k] == b[k] by {
            assert(ta[4 + k] == a[k]);
            assert(tb[4 + k] == b[k]);
        }
    }
    lemma_dec_inj(i, j);
}

} // verus!

verus! {

/// Whether a tail-recursion self-call stands anywhere outside tail
/// position in this expression, under the given tail context. Tail
/// position propagates exactly as generation propagates it: through the
/// branches of a conditional, the arm bodies of a flow match, and the
/// final expression of a do block; everywhere else children are plain.
pub open spec fn has_misplaced_recurse(n: Node<Expression>, tail: bool) -> bool
    decreases n, 1int,
{
    match *n.data {
        Expression::Symbol(_) => false,
        Expression::Literal(_) => false,
        Expression::FunctionCall(_) => {
            let d = (*n.data)->FunctionCall_0;
            has_misplaced_recurse(*d.func, false) || list_has_misplaced(d.args@)
        },
        Expression::EffectCall(_) => list_has_misplaced(((*n.data)->EffectCall_0).args@),
        Expression::UnaryOperation(u) => has_misplaced_recurse(*u.expr, false),
        Expression::BinaryOperation(b) => has_misplaced_recurse(*b.lhs, false)
            || has_misplaced_recurse(*b.rhs, false),
        Expression::PatternMatch(pm) => has_misplaced_recurse(*pm.value, false),
        Expression::FlowMatch(_) => {
            let d = (*n.data)->FlowMatch_0;
            has_misplaced_recurse(*d.expr, false) || arms_have_misplaced(d.arms@, tail)
        },
        Expression::FlowConditional(c) => has_misplaced_recurse(*c.condition, false)
            || has_misplaced_recurse(*c.then_branch, tail) || has_misplaced_recurse(
            *c.else_branch,
            tail,
        ),
        Expression::FlowDoBlock(_) => {
            let d = (*n.data)->FlowDoBlock_0;
            if d.body@.len() == 0 {
                false
            } else {
                list_has_misplaced(d.body@.drop_last()) || has_misplaced_recurse(
                    d.body@[d.body@.len() - 1],
                    tail,
                )
            }
        },
        Expression::TailRecFinal(f) => has_misplaced_recurse(*f.expr, false),
        Expression::TailRecRecurse(_) => !tail || list_has_misplaced(
            ((*n.data)->TailRecRecurse_0).args@,
        ),
    }
}

pub open spec fn list_has_misplaced(list: Seq<Node<Expression>>) -> bool
    decreases list, 2int,
{
    if list.len() == 0 {
        false
    } else {
        has_misplaced_recurse(list[0], false) || list_has_misplaced(list.drop_first())
    }
}

pub open spec fn arms_have_misplaced(arms: Seq<crate::ast::FlowMatchArm>, tail: bool) -> bool
    decreases arms, 2int,
{
    if arms.len() == 0 {
        false
    } else {
        has_misplaced_recurse(arms[0].body, tail) || arms_have_misplaced(arms.drop_first(), tail)
    }
}

/// A tail-recursion self-call outside tail position, anywhere in the
/// tree, is rejected at compile time: generation of the enclosing
/// expression returns an error and emits nothing.
pub proof fn lemma_misplaced_recurse_rejected(n: Node<Expression>, tail: bool)
    requires
        has_misplaced_recurse(n, tail),
    ensures
        emit_expr(n, tail) is Err,
    decreases n, 1int,
{
    if n.attrs is None {
    } else {
        match *n.data {
            Expression::Symbol(_) => {},
            Expression::Literal(_) => {},
            Expression::FunctionCall(_) => {
                let d = (*n.data)->FunctionCall_0;
                if has_misplaced_recurse(*d.func, false) {
                    lemma_misplaced_recurse_rejected(*d.func, false);
                } else {
                    lemma_list_misplaced_rejected(d.args@);
                }
            },
            Expression::EffectCall(_) => {
                lemma_list_misplaced_rejected(((*n.data)->EffectCall_0).args@);
            },
            Expression::UnaryOperation(u) => {
                lemma_misplaced_recurse_rejected(*u.expr, false);
            },
            Expression::BinaryOperation(b) => {
                if has_misplaced_recurse(*b.lhs, false) {
                    lemma_misplaced_recurse_rejected(*b.lhs, false);
                } else {
                    lemma_misplaced_recurse_rejected(*b.rhs, false);
                }
            },
            Expression::PatternMatch(pm) => {
                lemma_misplaced_recurse_rejected(*pm.value, false);
            },
            Expression::FlowMatch(_) => {
                let d = (*n.data)->FlowMatch_0;
                if has_misplaced_recurse(*d.expr, false) {
                    lemma_misplaced_recurse_rejected(*d.expr, false);
                } else {
                    lemma_arms_misplaced_rejected(d.arms@, tail);
                }
            },
            Expression::FlowConditional(c) => {
                if has_misplaced_recurse(*c.condition, false) {
                    lemma_misplaced_recurse_rejected(*c.condition, false);
                } else if has_misplaced_recurse(*c.then_branch, tail) {
                    lemma_misplaced_recurse_rejected(*c.then_branch, tail);
                } else {
                    lemma_misplaced_recurse_rejected(*c.else_branch, tail);
                }
            },
            Expression::FlowDoBlock(_) => {
                let d = (*n.data)->FlowDoBlock_0;
                if d.body@.len() > 0 {
                    if list_has_misplaced(d.body@.drop_last()) {
                        lemma_list_misplaced_rejected(d.body@.drop_last());
                    } else {
                        lemma_misplaced_recurse_rejected(d.body@[d.body@.len() - 1], tail);
                    }
                }
            },
            Expression::TailRecFinal(f) => {
                lemma_misplaced_recurse_rejected(*f.expr, false);
            },
            Expression::TailRecRecurse(_) => {
                if tail {
                    lemma_list_misplaced_rejected(((*n.data)->TailRecRecurse_0).args@);
                }
            },
        }
    }
}

proof fn lemma_list_misplaced_rejected(list: Seq<Node<Expression>>)
    requires
        list_has_misplaced(list),
    ensures
        emit_args(list) is Err,
        emit_inits(list) is Err,
    decreases list, 2int,
{
    if list.len() > 0 {
        if has_misplaced_recurse(list[0], false) {
            lemma_misplaced_recurse_rejected(list[0], false);
        } else {
            lemma_list_misplaced_rejected(list.drop_first());
        }
    }
}

proof fn lemma_arms_misplaced_rejected(arms: Seq<crate::ast::FlowMatchArm>, tail: bool)
    requires
        arms_have_misplaced(arms, tail),
    ensures
        emit_arms(arms, tail) is Err,
    decreases arms, 2int,
{
    if arms.len() > 0 {
        if has_misplaced_recurse(arms[0].body, tail) {
            lemma_misplaced_recurse_rejected(arms[0].body, tail);
        } else {
            lemma_arms_misplaced_rejected(arms.drop_first(), tail);
        }
    }
}

/// The statement-level half: a tail-recursive declaration whose clause
/// body holds a self-call outside tail position never generates — the
/// result is an error, with no partial output. (The body expression is
/// generated in tail position; a plain function generates its body with
/// no tail position at all, so there every self-call is rejected.)
pub proof fn lemma_tailrec_misplaced_rejected(d: TailRecFuncDeclStatement, loc: Location)
    requires
        d.body@.len() > 0,
        *d.body@[d.body@.len() - 1].data matches Proposition::Constraint(_),
        has_misplaced_recurse(
            ((*d.body@[d.body@.len() - 1].data)->Constraint_0).expr,
            true,
        ),
    ensures
        emit_tailrec(d, loc) is Err,
{
    lemma_misplaced_recurse_rejected(
        ((*d.body@[d.body@.len() - 1].data)->Constraint_0).expr,
        true,
    );
}

} // verus!

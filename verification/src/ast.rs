//! The annotated syntax tree consumed by code generation: statements and
//! expressions as tagged variants, each node carrying a source location and,
//! for expressions, an optional record of resolved semantic attributes.

use vstd::prelude::*;
use crate::Location;

verus! {

/// A tree node: exclusively owns its payload; the tree is acyclic.
/// The attribute records are populated by a resolution pass run strictly
/// before generation: statement nodes carry `stmt_attrs`, expression nodes
/// carry `attrs`. An expression node without `attrs` at generation time is a
/// precondition violation, not user-facing input.
#[derive(Debug, PartialEq)]
pub struct Node<T> {
    pub data: Box<T>,
    pub location: Location,
    pub stmt_attrs: Option<StatementAttributes>,
    pub attrs: Option<ExpressionAttributes>,
}

/// Attributes attached to a statement node by the resolution pass.
#[derive(Debug, Clone, PartialEq, Eq, Structural)]
pub struct StatementAttributes {
    pub scope_id: usize,
}

/// Attributes attached to an expression node by the resolution pass: the
/// identifier of the scope the expression was resolved in, and its resolved
/// type.
#[derive(Debug, PartialEq)]
pub struct ExpressionAttributes {
    pub scope_id: usize,
    pub type_ref: TypeRef,
}

/// A resolved reference to a type, by name.
#[derive(Debug, PartialEq)]
pub struct TypeRef {
    pub name: String,
}

/// A declared type parameter.
#[derive(Debug, PartialEq)]
pub struct TypeParam {
    pub name: String,
}

/// A call parameter: a typed declaration consumed when generating
/// arity and type checks.
#[derive(Debug, PartialEq)]
pub struct CallParam {
    pub name: String,
    pub param_type: Node<TypeRef>,
}

/// The constructor parameter of a class declaration: the pattern the
/// incoming value is matched against.
#[derive(Debug, PartialEq)]
pub struct ConsParam {
    pub pattern: Node<Pattern>,
}

/// A literal expression. Numbers are carried as their numeral text, exactly
/// as written in the source; the target's host gives them IEEE double
/// semantics when the emitted code is executed.
#[derive(Debug, PartialEq)]
pub enum Literal {
    Boolean(bool),
    Number(String),
    Atom(String),
    Str(String),
}

/// A structural pattern: a wildcard, a binding variable, a literal compared
/// by value equality, or a tuple matched element-wise.
#[derive(Debug, PartialEq)]
pub enum Pattern {
    Wildcard,
    Variable(String),
    Literal(Literal),
    Tuple(Vec<Node<Pattern>>),
}

/// A guard item of a clause or class body: either a boolean constraint that
/// must evaluate true, or a pattern binding that introduces variables
/// visible to later propositions. Order is semantically load-bearing.
#[derive(Debug, PartialEq)]
pub enum Proposition {
    Constraint(Constraint),
    Binding(PatternMatchExpr),
}

/// A boolean guard expression that must evaluate true for the enclosing
/// clause to apply.
#[derive(Debug, PartialEq)]
pub struct Constraint {
    pub expr: Node<Expression>,
}

#[derive(Debug, PartialEq)]
pub struct SymbolExpr {
    pub name: String,
}

#[derive(Debug, PartialEq)]
pub struct FunctionCallExpr {
    pub func: Box<Node<Expression>>,
    pub args: Vec<Node<Expression>>,
}

#[derive(Debug, PartialEq)]
pub struct EffectCallExpr {
    pub effect_name: String,
    pub args: Vec<Node<Expression>>,
}

#[derive(Debug, PartialEq)]
pub struct UnaryOperationExpr {
    pub op: String,
    pub expr: Box<Node<Expression>>,
}

#[derive(Debug, PartialEq)]
pub struct BinaryOperationExpr {
    pub op: String,
    pub lhs: Box<Node<Expression>>,
    pub rhs: Box<Node<Expression>>,
}

/// A single-shot structural match: the scrutinee is evaluated exactly once,
/// matched against one pattern, and match failure raises at runtime.
#[derive(Debug, PartialEq)]
pub struct PatternMatchExpr {
    pub pattern: Node<Pattern>,
    pub value: Box<Node<Expression>>,
}

/// One arm of a flow match: a pattern and the body the first matching arm
/// executes.
#[derive(Debug, PartialEq)]
pub struct FlowMatchArm {
    pub pattern: Node<Pattern>,
    pub body: Node<Expression>,
}

#[derive(Debug, PartialEq)]
pub struct FlowMatchExpr {
    pub expr: Box<Node<Expression>>,
    pub arms: Vec<FlowMatchArm>,
}

#[derive(Debug, PartialEq)]
pub struct FlowConditionalExpr {
    pub condition: Box<Node<Expression>>,
    pub then_branch: Box<Node<Expression>>,
    pub else_branch: Box<Node<Expression>>,
}

#[derive(Debug, PartialEq)]
pub struct FlowDoBlockExpr {
    pub body: Vec<Node<Expression>>,
}

/// Marks a clause's ordinary (non-recursive) exit value; purely a
/// compile-time marker with no distinct runtime behavior.
#[derive(Debug, PartialEq)]
pub struct TailRecFinalExpr {
    pub expr: Box<Node<Expression>>,
}

/// Marks a tail-position self-call, compiled into a loop re-entry.
#[derive(Debug, PartialEq)]
pub struct TailRecRecurseExpr {
    pub args: Vec<Node<Expression>>,
}

#[derive(Debug, PartialEq)]
pub enum Expression {
    Symbol(SymbolExpr),
    Literal(Node<Literal>),
    FunctionCall(FunctionCallExpr),
    EffectCall(EffectCallExpr),
    UnaryOperation(UnaryOperationExpr),
    BinaryOperation(BinaryOperationExpr),
    PatternMatch(PatternMatchExpr),
    FlowMatch(FlowMatchExpr),
    FlowConditional(FlowConditionalExpr),
    FlowDoBlock(FlowDoBlockExpr),
    TailRecFinal(TailRecFinalExpr),
    TailRecRecurse(TailRecRecurseExpr),
}

#[derive(Debug, PartialEq)]
pub struct ImportStatement {
    pub path: Vec<String>,
    pub alias: Option<String>,
}

#[derive(Debug, PartialEq)]
pub struct EffectDeclStatement {
    pub public: bool,
    pub symbol_name: String,
    pub call_params: Vec<Node<CallParam>>,
    pub return_type: Node<TypeRef>,
}

#[derive(Debug, PartialEq)]
pub struct ClassDeclStatement {
    pub public: bool,
    pub symbol_name: String,
    pub type_params: Vec<Node<TypeParam>>,
    pub cons_param: Node<ConsParam>,
    pub constraints: Vec<Node<Proposition>>,
}

#[derive(Debug, PartialEq)]
pub struct FuncDeclStatement {
    pub public: bool,
    pub symbol_name: String,
    pub type_params: Vec<Node<TypeParam>>,
    pub call_params: Vec<Node<CallParam>>,
    pub return_type: Node<TypeRef>,
    pub body: Vec<Node<Proposition>>,
}

#[derive(Debug, PartialEq)]
pub struct TailRecFuncDeclStatement {
    pub public: bool,
    pub symbol_name: String,
    pub type_params: Vec<Node<TypeParam>>,
    pub call_params: Vec<Node<CallParam>>,
    pub return_type: Node<TypeRef>,
    pub body: Vec<Node<Proposition>>,
}

/// A top-level declaration.
#[derive(Debug, PartialEq)]
pub enum Statement {
    Import(ImportStatement),
    EffectDecl(EffectDeclStatement),
    ClassDecl(ClassDeclStatement),
    FuncDecl(FuncDeclStatement),
    TailRecFuncDecl(TailRecFuncDeclStatement),
}

impl<T> Node<T> {
    /// Wraps a payload with its source location, with no attributes yet:
    /// resolution runs as a separate pass before generation.
    pub fn new(data: Box<T>, location: Location) -> (r: Node<T>)
        ensures
            r == (Node::<T> {
                data,
                location,
                stmt_attrs: None::<StatementAttributes>,
                attrs: None::<ExpressionAttributes>,
            }),
    {
        Node { data, location, stmt_attrs: None, attrs: None }
    }
}

impl Statement {
    pub fn import(path: Vec<String>, alias: Option<String>) -> (r: Box<Self>)
        ensures
            *r == Statement::Import(ImportStatement { path, alias }),
    {
        Box::new(Self::Import(ImportStatement { path, alias }))
    }

    pub fn effect(
        public: bool,
        symbol_name: String,
        call_params: Vec<Node<CallParam>>,
        return_type: Node<TypeRef>,
    ) -> (r: Box<Self>)
        ensures
            *r == Statement::EffectDecl(EffectDeclStatement {
                public,
                symbol_name,
                call_params,
                return_type,
            }),
    {
        Box::new(Self::EffectDecl(EffectDeclStatement {
            public,
            symbol_name,
            call_params,
            return_type,
        }))
    }

    pub fn class(
        public: bool,
        symbol_name: String,
        type_params: Vec<Node<TypeParam>>,
        cons_param: Node<ConsParam>,
        constraints: Vec<Node<Proposition>>,
    ) -> (r: Box<Self>)
        ensures
            *r == Statement::ClassDecl(ClassDeclStatement {
                public,
                symbol_name,
                type_params,
                cons_param,
                constraints,
            }),
    {
        Box::new(Self::ClassDecl(ClassDeclStatement {
            public,
            symbol_name,
            type_params,
            cons_param,
            constraints,
        }))
    }

    pub fn function(
        public: bool,
        symbol_name: String,
        type_params: Vec<Node<TypeParam>>,
        call_params: Vec<Node<CallParam>>,
        return_type: Node<TypeRef>,
        body: Vec<Node<Proposition>>,
    ) -> (r: Box<Self>)
        ensures
            *r == Statement::FuncDecl(FuncDeclStatement {
                public,
                symbol_name,
                type_params,
                call_params,
                return_type,
                body,
            }),
    {
        Box::new(Self::FuncDecl(FuncDeclStatement {
            public,
            symbol_name,
            type_params,
            call_params,
            return_type,
            body,
        }))
    }

    pub fn tailrec_function(
        public: bool,
        symbol_name: String,
        type_params: Vec<Node<TypeParam>>,
        call_params: Vec<Node<CallParam>>,
        return_type: Node<TypeRef>,
        body: Vec<Node<Proposition>>,
    ) -> (r: Box<Self>)
        ensures
            *r == Statement::TailRecFuncDecl(TailRecFuncDeclStatement {
                public,
                symbol_name,
                type_params,
                call_params,
                return_type,
                body,
            }),
    {
        Box::new(Self::TailRecFuncDecl(TailRecFuncDeclStatement {
            public,
            symbol_name,
            type_params,
            call_params,
            return_type,
            body,
        }))
    }
}

impl Literal {
    pub fn boolean(val: bool) -> (r: Box<Self>)
        ensures
            *r == Literal::Boolean(val),
    {
        Box::new(Self::Boolean(val))
    }

    /// A number literal carries its numeral text; the target's host reads it
    /// with IEEE double-precision semantics.
    pub fn number(repr: String) -> (r: Box<Self>)
        ensures
            *r == Literal::Number(repr),
    {
        Box::new(Self::Number(repr))
    }

    pub fn atom(repr: String) -> (r: Box<Self>)
        ensures
            *r == Literal::Atom(repr),
    {
        Box::new(Self::Atom(repr))
    }

    pub fn string(repr: String) -> (r: Box<Self>)
        ensures
            *r == Literal::Str(repr),
    {
        Box::new(Self::Str(repr))
    }
}

impl Expression {
    pub fn literal(node: Node<Literal>) -> (r: Box<Self>)
        ensures
            *r == Expression::Literal(node),
    {
        Box::new(Self::Literal(node))
    }
}

} // verus!

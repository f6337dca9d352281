//! Back end of a small functional language's compiler: an annotated syntax
//! tree is turned into target source text, alongside a runtime support
//! library that the generated code calls to enforce the language's dynamic
//! semantics (structural pattern matching, type assertions, guarded-clause
//! dispatch, and tail-call trampolining).

use vstd::prelude::*;

pub mod ast;
pub mod value;
pub mod runtime;
pub mod codegen;

verus! {

/// A half-open span into the source text that a tree node was parsed from.
#[derive(Clone, Copy, Debug, PartialEq, Eq, Structural)]
pub struct Location {
    pub start: usize,
    pub end: usize,
}

} // verus!

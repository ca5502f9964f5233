//! A declarative field-visitor code generator together with the small runtime
//! helpers that generated code leans on.
//!
//! Given the description of a record type (an ordered list of named fields,
//! each possibly carrying directives) and a set of requested visitor
//! functions, the engine produces, for each requested function, a dispatcher
//! that walks the record's fields in declaration order and applies a
//! caller-supplied callback to each field's value, short-circuiting as soon
//! as the callback signals completion.
//!
//! The engine is a pure, single-pass transform over plain data structures:
//! parse the directives ([`parse`]), build the job model ([`jobs`]), emit the
//! dispatcher text ([`emit`]). The semantics that the emitted dispatchers
//! follow is stated and proved in [`dispatch`].

use vstd::prelude::*;

pub mod clearable;
pub mod dispatch;
pub mod emit;
pub mod engine;
pub mod jobs;
pub mod meta;
pub mod parse;
pub mod typexpr;

verus! {

/// The placeholder type that name-shadowing helpers bind a moved-out
/// variable's name to, so that later uses of the old name fail to type-check.
pub struct HiddenVariable;

/// The outcome of running a reference ("slow") and an optimized ("fast")
/// variant of the same function on the same parameters.
pub struct OptimizeCheckOutput<T, P> {
    pub function_name: &'static str,
    pub params: P,
    pub slow: T,
    pub fast: T,
}

impl<T, P> OptimizeCheckOutput<T, P> {
    /// Returns the optimized variant's result once the two variants are known
    /// to agree. Callers must establish the agreement; a run whose variants
    /// disagree must be reported by the caller instead of reaching here.
    pub fn assert_equal(self) -> (r: T)
        requires
            self.slow == self.fast,
        ensures
            r == self.fast,
            r == self.slow,
    {
        self.fast
    }
}

} // verus!

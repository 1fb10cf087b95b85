//! The state that lowering carries along: the diagnostics found so far.

use crate::error::CompilationError;
use vstd::prelude::*;

verus! {

/// The converter of one compilation. It collects diagnostics in the order in
/// which they are reported, and never drops one.
pub struct BaseConverter {
    errors: Vec<CompilationError>,
}

impl View for BaseConverter {
    type V = Seq<CompilationError>;

    /// The diagnostics reported so far, oldest first.
    closed spec fn view(&self) -> Seq<CompilationError> {
        self.errors@
    }
}

impl BaseConverter {
    /// A converter that has reported nothing.
    pub fn new() -> (r: Self)
        ensures
            r@ == Seq::<CompilationError>::empty(),
    {
        BaseConverter { errors: Vec::new() }
    }

    /// Reports one diagnostic.
    pub fn emit_error(&mut self, error: CompilationError)
        ensures
            final(self)@ == old(self)@.push(error),
    {
        self.errors.push(error);
    }

    /// The diagnostics reported so far, oldest first.
    pub fn errors(&self) -> (r: &Vec<CompilationError>)
        ensures
            r@ == self@,
    {
        &self.errors
    }
}

} // verus!

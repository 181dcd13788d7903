//! The step iterator: a lazy sequence of reduction steps. Each step first
//! tries a beta (or alpha) rewrite; if none applies, a delta expansion;
//! if that fails too, iteration terminates.

use vstd::prelude::*;

use crate::evaluation::beta::{reduce_fits, reduce_impl, spec_reduce};
use crate::evaluation::church_encoding::{expand, spec_expand};
use crate::evaluation::model::SpecTerm;
use crate::evaluation::options::{Options, SpecDef};
use crate::evaluation::{Step, StepKind, Term};

verus! {

/// The next evaluation step of a term: a non-identity beta/alpha rewrite
/// if one applies, else a delta expansion, else nothing.
pub open spec fn spec_step(t: SpecTerm, defs: Seq<SpecDef>) -> Option<(StepKind, SpecTerm)> {
    let r = spec_reduce(t);
    if r.0 != StepKind::Id {
        Some((r.0, r.1))
    } else {
        match spec_expand(t, defs, Set::empty()) {
            Some(t2) => Some((StepKind::Delta, t2)),
            None => None,
        }
    }
}

/// The lazy sequence of evaluation steps of a term. The seed term itself
/// is never emitted; the iterator is finite exactly when the term has a
/// normal form under the leftmost-outermost strategy.
pub struct Evaluation {
    pub term: Term,
    pub options: Options,
}

impl Evaluation {
    /// Performs and returns the next step, or `None` on a normal form.
    ///
    /// When a fresh disambiguator needed by an alpha-renaming would not
    /// fit a machine word — on the order of `usize::MAX` same-named
    /// variables in scope, beyond any real program — evaluation stops as
    /// if in normal form.
    pub fn next(&mut self) -> (r: Option<Step>)
        ensures
            final(self).options == old(self).options,
            reduce_fits(old(self).term@) ==> match spec_step(
                old(self).term@,
                old(self).options@,
            ) {
                Some((k, t2)) => (match r {
                    Some(s) => s.kind == k && s.term@ == t2,
                    None => false,
                }) && final(self).term@ == t2,
                None => r is None && final(self).term == old(self).term,
            },
            !reduce_fits(old(self).term@) ==> r is None && final(self).term == old(self).term,
    {
        match reduce_impl(&self.term) {
            None => None,
            Some(s) => {
                if !matches!(s.kind, StepKind::Id) {
                    self.term = s.term.clone();
                    Some(s)
                } else {
                    let e = expand(self.term.clone(), &self.options);
                    if matches!(e.kind, StepKind::Delta) {
                        self.term = e.term.clone();
                        Some(e)
                    } else {
                        None
                    }
                }
            },
        }
    }
}

/// Begins evaluating a term under the given options.
pub fn evaluate(term: Term, options: Options) -> (e: Evaluation)
    ensures
        e.term == term,
        e.options == options,
{
    Evaluation { term, options }
}

} // verus!

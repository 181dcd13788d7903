//! The result of a rewrite that may or may not have changed the term.

use vstd::prelude::*;

use crate::evaluation::model::SpecTerm;
use crate::evaluation::Term;

verus! {

/// Distinguishes a term that a rewrite changed from one it returned
/// untouched.
#[derive(Debug)]
pub enum TermResult {
    /// The term was modified (e.g. an alpha conversion was performed).
    Modified(Term),
    /// The original term is returned unchanged.
    Original(Term),
}

impl TermResult {
    /// The carried term.
    pub open spec fn inner(self) -> Term {
        match self {
            TermResult::Modified(t) => t,
            TermResult::Original(t) => t,
        }
    }

    /// The mathematical value of the carried term.
    pub open spec fn spec_term(self) -> SpecTerm {
        self.inner()@
    }

    /// Whether the rewrite changed the term.
    pub open spec fn is_modified(self) -> bool {
        match self {
            TermResult::Modified(_) => true,
            TermResult::Original(_) => false,
        }
    }

    /// Whether the rewrite changed the term, as executable code.
    pub fn is_modified_exec(&self) -> (r: bool)
        ensures
            r == self.is_modified(),
    {
        matches!(self, TermResult::Modified(_))
    }

    /// Unwraps the carried term, however the rewrite went.
    pub fn term(self) -> (t: Term)
        ensures
            t == self.inner(),
    {
        match self {
            TermResult::Modified(t) => t,
            TermResult::Original(t) => t,
        }
    }

    /// Applies a function to the carried term, keeping the marker.
    pub fn map<F: FnOnce(Term) -> Term>(self, f: F) -> (r: TermResult)
        requires
            f.requires((self.inner(),)),
        ensures
            r.is_modified() == self.is_modified(),
            f.ensures((self.inner(),), r.inner()),
    {
        match self {
            TermResult::Modified(t) => TermResult::Modified(f(t)),
            TermResult::Original(t) => TermResult::Original(f(t)),
        }
    }
}

impl PartialEq for TermResult {
    fn eq(&self, other: &TermResult) -> (r: bool) {
        match (self, other) {
            (TermResult::Modified(a), TermResult::Modified(b)) => a == b,
            (TermResult::Original(a), TermResult::Original(b)) => a == b,
            _ => false,
        }
    }
}

impl Eq for TermResult {

}

impl vstd::std_specs::cmp::PartialEqSpecImpl for TermResult {
    open spec fn obeys_eq_spec() -> bool {
        true
    }

    open spec fn eq_spec(&self, other: &TermResult) -> bool {
        self.is_modified() == other.is_modified() && self.spec_term() == other.spec_term()
    }
}

} // verus!

//! Renaming of free variables.

use vstd::prelude::*;

use crate::evaluation::model::rename_free;
use crate::evaluation::{abs, app, Term, Variable};

verus! {

/// Renames every free occurrence of `old_var` in the given term to
/// `new_var`, never descending past an abstraction that rebinds `old_var`.
pub fn rename(old_var: &Variable, new_var: &Variable, term: Term) -> (r: Term)
    ensures
        r@ == rename_free(old_var@, new_var@, term@),
    decreases term,
{
    match term {
        Term::Var(v) => {
            if &v == old_var {
                Term::Var(new_var.clone())
            } else {
                Term::Var(v)
            }
        },
        Term::Abs(a) => {
            if &a.variable == old_var {
                Term::Abs(a)
            } else {
                let inner = *a;
                abs(inner.variable, rename(old_var, new_var, inner.term))
            }
        },
        Term::App(a) => {
            let inner = *a;
            app(
                rename(old_var, new_var, inner.left),
                rename(old_var, new_var, inner.right),
            )
        },
    }
}

} // verus!

//! Substitution of a free variable by a replacement term.

use vstd::prelude::*;

use crate::evaluation::model::subst;
use crate::evaluation::{abs, app, Term, Variable};

verus! {

/// Substitutes every free occurrence of `needle` in `input` with a clone of
/// `replacement`.
///
/// This is not capture-avoiding on its own: the caller must first rename
/// the bound variables of `input` (see [`super::rename_bound`]) so that no
/// binder of `input` captures a variable occurring free in `replacement`.
/// Descending past a binder equal to `needle` halts substitution in that
/// subtree (shadowing).
pub fn substitute(needle: &Variable, replacement: &Term, input: Term) -> (r: Term)
    ensures
        r@ == subst(needle@, replacement@, input@),
    decreases input,
{
    match input {
        Term::Var(v) => {
            if &v == needle {
                replacement.clone()
            } else {
                Term::Var(v)
            }
        },
        Term::Abs(a) => {
            if &a.variable == needle {
                Term::Abs(a)
            } else {
                let inner = *a;
                abs(inner.variable, substitute(needle, replacement, inner.term))
            }
        },
        Term::App(a) => {
            let inner = *a;
            app(
                substitute(needle, replacement, inner.left),
                substitute(needle, replacement, inner.right),
            )
        },
    }
}

} // verus!

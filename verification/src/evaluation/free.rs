//! Free-variable analysis: which variables occur in a term with no
//! enclosing binder for them.

use vstd::prelude::*;

use crate::evaluation::model::{free_vars, SpecTerm, SpecVar};
use crate::evaluation::{Term, Variable};

verus! {

/// The set of free variables of a term, as a list without duplicates.
pub type Variables = Vec<Variable>;

/// The set of mathematical values of the variables in a list.
pub open spec fn seq_var_set(s: Seq<Variable>) -> Set<SpecVar> {
    Set::new(|x: SpecVar| exists|i: int| 0 <= i < s.len() && s[i]@ == x)
}

/// No two variables of the list have the same mathematical value.
pub open spec fn no_dup_vars(s: Seq<Variable>) -> bool {
    forall|i: int, j: int| 0 <= i < j < s.len() ==> s[i]@ != s[j]@
}

/// Free variables of a term under an environment of enclosing binders.
pub open spec fn free_vars_in(t: SpecTerm, bound: Set<SpecVar>) -> Set<SpecVar>
    decreases t,
{
    match t {
        SpecTerm::Var(v) => if bound.contains(v) {
            Set::empty()
        } else {
            Set::empty().insert(v)
        },
        SpecTerm::Abs(v, body) => free_vars_in(*body, bound.insert(v)),
        SpecTerm::App(l, r) => free_vars_in(*l, bound).union(free_vars_in(*r, bound)),
    }
}

/// Appending a variable to a list inserts its value into the list's set.
pub proof fn lemma_seq_var_set_push(s: Seq<Variable>, v: Variable)
    ensures
        seq_var_set(s.push(v)) == seq_var_set(s).insert(v@),
{
    assert forall|x: SpecVar| seq_var_set(s.push(v)).contains(x) implies seq_var_set(s).insert(
        v@,
    ).contains(x) by {
        let i = choose|i: int| 0 <= i < s.push(v).len() && s.push(v)[i]@ == x;
        if i < s.len() {
            assert(s[i]@ == x);
        } else {
            assert(x == v@);
        }
    }
    assert forall|x: SpecVar| seq_var_set(s).insert(v@).contains(x) implies seq_var_set(
        s.push(v),
    ).contains(x) by {
        if x == v@ {
            assert(s.push(v)[s.len() as int]@ == x);
        } else {
            let i = choose|i: int| 0 <= i < s.len() && s[i]@ == x;
            assert(s.push(v)[i]@ == x);
        }
    }
    assert(seq_var_set(s.push(v)) =~= seq_var_set(s).insert(v@));
}

/// Traversing with a binder environment computes exactly the free
/// variables that the environment does not capture.
pub proof fn lemma_free_vars_in(t: SpecTerm, bound: Set<SpecVar>)
    ensures
        free_vars_in(t, bound) == free_vars(t).difference(bound),
    decreases t,
{
    match t {
        SpecTerm::Var(v) => {
            assert(free_vars_in(t, bound) =~= free_vars(t).difference(bound));
        },
        SpecTerm::Abs(v, body) => {
            lemma_free_vars_in(*body, bound.insert(v));
            assert(free_vars(*body).difference(bound.insert(v)) =~= free_vars(*body).remove(
                v,
            ).difference(bound));
        },
        SpecTerm::App(l, r) => {
            lemma_free_vars_in(*l, bound);
            lemma_free_vars_in(*r, bound);
            assert(free_vars_in(t, bound) =~= free_vars(t).difference(bound));
        },
    }
}

/// Whether some variable of the list has the value of `v`.
pub(crate) fn contains_var(vars: &Vec<Variable>, v: &Variable) -> (r: bool)
    ensures
        r == seq_var_set(vars@).contains(v@),
{
    let mut i: usize = 0;
    while i < vars.len()
        invariant
            i <= vars@.len(),
            forall|j: int| 0 <= j < i ==> vars@[j]@ != v@,
        decreases vars@.len() - i,
    {
        if &vars[i] == v {
            return true;
        }
        i += 1;
    }
    false
}

fn find_free_variables(term: &Term, bound: &mut Vec<Variable>, free: &mut Vec<Variable>)
    requires
        no_dup_vars(old(free)@),
    ensures
        final(bound)@ == old(bound)@,
        no_dup_vars(final(free)@),
        seq_var_set(final(free)@) == seq_var_set(old(free)@).union(
            free_vars_in(term@, seq_var_set(old(bound)@)),
        ),
    decreases term,
{
    match term {
        Term::Var(v) => {
            if !contains_var(bound, v) && !contains_var(free, v) {
                let cloned = v.clone();
                proof {
                    lemma_seq_var_set_push(free@, cloned);
                }
                free.push(cloned);
                proof {
                    assert(seq_var_set(free@) =~= seq_var_set(old(free)@).union(
                        free_vars_in(term@, seq_var_set(old(bound)@)),
                    ));
                }
            } else {
                proof {
                    assert(seq_var_set(free@) =~= seq_var_set(old(free)@).union(
                        free_vars_in(term@, seq_var_set(old(bound)@)),
                    ));
                }
            }
        },
        Term::Abs(a) => {
            let cloned = a.variable.clone();
            proof {
                lemma_seq_var_set_push(bound@, cloned);
            }
            bound.push(cloned);
            find_free_variables(&a.term, bound, free);
            bound.pop();
            proof {
                assert(bound@ =~= old(bound)@);
            }
        },
        Term::App(a) => {
            find_free_variables(&a.left, bound, free);
            find_free_variables(&a.right, bound, free);
            proof {
                assert(seq_var_set(free@) =~= seq_var_set(old(free)@).union(
                    free_vars_in(term@, seq_var_set(old(bound)@)),
                ));
            }
        },
    }
}

/// Finds the free variables of a given term. Variables are free if they
/// are not bound by an enclosing abstraction.
pub fn free_variables(term: &Term) -> (r: Vec<Variable>)
    ensures
        seq_var_set(r@) == free_vars(term@),
        no_dup_vars(r@),
{
    let mut bound: Vec<Variable> = Vec::new();
    let mut free: Vec<Variable> = Vec::new();
    find_free_variables(term, &mut bound, &mut free);
    proof {
        lemma_free_vars_in(term@, seq_var_set(bound@));
        assert(seq_var_set(free@) =~= free_vars(term@));
    }
    free
}

/// Whether `variable` occurs free in `term`.
pub fn is_free_in(variable: &Variable, term: &Term) -> (r: bool)
    ensures
        r == free_vars(term@).contains(variable@),
    decreases term,
{
    match term {
        Term::Var(v) => v == variable,
        Term::Abs(a) => !(&a.variable == variable) && is_free_in(variable, &a.term),
        Term::App(a) => is_free_in(variable, &a.left) || is_free_in(variable, &a.right),
    }
}

} // verus!

//! The reduction engine: the term algebra, free-variable analysis,
//! alpha-renaming, substitution, beta-reduction, delta-expansion and the
//! step iterator that ties them together.

pub mod beta;
pub mod church_booleans;
pub mod church_encoding;
pub mod evaluate;
pub mod church_numerals;
pub mod display;
pub mod encoding;
pub mod free;
pub mod laws;
pub mod model;
pub mod options;
pub mod rename;
pub mod rename_bound;
pub mod result;
pub mod side_effects;
pub mod substitute;
pub mod tuple;

pub use beta::reduce;
pub use church_booleans::church_boolean;
pub use church_encoding::expand;
pub use encoding::{Decode, Encode, Value};
pub use tuple::Tuple;
pub use evaluate::{evaluate, Evaluation};
pub use side_effects::{evaluate_with_side_effects, EffectOutcome, EffectsEvaluation};
pub use options::{Definition, Options};
pub use church_numerals::{church_numeral, ChurchNumeral};
pub use free::{free_variables, is_free_in, Variables};
pub use rename::rename;
pub use rename_bound::rename_bound;
pub use result::TermResult;
pub use substitute::substitute;

use vstd::prelude::*;

use crate::evaluation::model::{SpecTerm, SpecVar};

verus! {

/// What a single rewrite of the engine did.
#[derive(Clone, Copy, PartialEq, Eq, Structural, Debug)]
pub enum StepKind {
    /// No operation was performed.
    Id,
    /// An alpha-conversion (renaming of bound variables to avoid conflicts).
    Alpha,
    /// A beta-reduction (substitution of a bound variable with an applied term).
    Beta,
    /// A delta-reduction (expansion of a definition).
    Delta,
    /// A rewrite performed by an external side-effect handler.
    SideEffect,
}

/// One rewrite step: what was done, and the whole program afterwards.
#[derive(Debug)]
pub struct Step {
    pub term: Term,
    pub kind: StepKind,
}

impl Step {
    pub fn new(kind: StepKind, term: Term) -> (s: Step)
        ensures
            s.kind == kind,
            s.term == term,
    {
        Step { term, kind }
    }
}

impl Clone for Step {
    fn clone(&self) -> (s: Step)
        ensures
            s.kind == self.kind,
            s.term@ == self.term@,
    {
        Step { term: self.term.clone(), kind: self.kind }
    }
}

/// A free or bound variable. A variable carries a disambiguator that the
/// alpha-renamer increments to avoid conflicting names; user-written names
/// always carry disambiguator zero.
///
/// Example: `x`.
#[derive(Debug)]
pub struct Variable {
    pub name: String,
    pub disambiguator: usize,
}

impl View for Variable {
    type V = SpecVar;

    open spec fn view(&self) -> SpecVar {
        SpecVar { name: self.name@, dis: self.disambiguator as nat }
    }
}

impl Variable {
    pub fn new(name: &str) -> (v: Variable)
        ensures
            v@ == (SpecVar { name: name@, dis: 0 }),
    {
        Variable { name: name.to_owned(), disambiguator: 0 }
    }

    pub fn with_disambiguator(self, disambiguator: usize) -> (v: Variable)
        ensures
            v@ == (SpecVar { name: self@.name, dis: disambiguator as nat }),
    {
        Variable { name: self.name, disambiguator }
    }
}

impl Clone for Variable {
    fn clone(&self) -> (v: Variable)
        ensures
            v == *self,
    {
        Variable { name: self.name.clone(), disambiguator: self.disambiguator }
    }
}

impl PartialEq for Variable {
    #[verifier::spinoff_prover]
    #[verifier::rlimit(50)]
    fn eq(&self, other: &Variable) -> (r: bool) {
        let r = self.name == other.name && self.disambiguator == other.disambiguator;
        proof {
            if r {
                assert(self@ =~= other@);
            } else {
                if self@ == other@ {
                    assert(self@.name == other@.name);
                    assert(self@.dis == other@.dis);
                    assert(false);
                }
            }
            assert(r == (self@ == other@));
        }
        r
    }
}

impl Eq for Variable {

}

impl vstd::std_specs::cmp::PartialEqSpecImpl for Variable {
    open spec fn obeys_eq_spec() -> bool {
        true
    }

    open spec fn eq_spec(&self, other: &Variable) -> bool {
        self.name@ == other.name@ && self.disambiguator == other.disambiguator
    }
}

/// An abstraction (or anonymous function definition).
///
/// Example: `λx.x`.
#[derive(Debug)]
pub struct Abstraction {
    pub variable: Variable,
    pub term: Term,
}

impl Abstraction {
    pub fn new(variable: Variable, term: Term) -> (a: Abstraction)
        ensures
            a.variable == variable,
            a.term == term,
    {
        Abstraction { variable, term }
    }
}

/// A function application where the term on the right is applied to the
/// term on the left.
///
/// Example: `(λx.x) Y`.
#[derive(Debug)]
pub struct Application {
    pub left: Term,
    pub right: Term,
}

impl Application {
    pub fn new(left: Term, right: Term) -> (a: Application)
        ensures
            a.left == left,
            a.right == right,
    {
        Application { left, right }
    }
}

/// A lambda term: a variable, an abstraction, or an application.
#[derive(Debug)]
pub enum Term {
    Var(Variable),
    Abs(Box<Abstraction>),
    App(Box<Application>),
}

/// The mathematical value of a term.
pub open spec fn view_of_term(t: Term) -> SpecTerm
    decreases t,
{
    match t {
        Term::Var(v) => SpecTerm::Var(v@),
        Term::Abs(a) => SpecTerm::Abs(a.variable@, Box::new(view_of_term(a.term))),
        Term::App(a) => SpecTerm::App(
            Box::new(view_of_term(a.left)),
            Box::new(view_of_term(a.right)),
        ),
    }
}

impl View for Term {
    type V = SpecTerm;

    open spec fn view(&self) -> SpecTerm {
        view_of_term(*self)
    }
}

impl Clone for Term {
    fn clone(&self) -> (t: Term)
        ensures
            t@ == self@,
        decreases self,
    {
        match self {
            Term::Var(v) => Term::Var(v.clone()),
            Term::Abs(a) => Term::Abs(
                Box::new(Abstraction { variable: a.variable.clone(), term: a.term.clone() }),
            ),
            Term::App(a) => Term::App(
                Box::new(Application { left: a.left.clone(), right: a.right.clone() }),
            ),
        }
    }
}

impl PartialEq for Term {
    fn eq(&self, other: &Term) -> (r: bool)
        decreases self,
    {
        match (self, other) {
            (Term::Var(a), Term::Var(b)) => a == b,
            (Term::Abs(a), Term::Abs(b)) => &a.variable == &b.variable && a.term.eq(&b.term),
            (Term::App(a), Term::App(b)) => a.left.eq(&b.left) && a.right.eq(&b.right),
            _ => false,
        }
    }
}

impl Eq for Term {

}

impl vstd::std_specs::cmp::PartialEqSpecImpl for Term {
    open spec fn obeys_eq_spec() -> bool {
        true
    }

    open spec fn eq_spec(&self, other: &Term) -> bool {
        self@ == other@
    }
}

/// Builds a variable term with disambiguator zero.
pub fn var(name: &str) -> (t: Term)
    ensures
        t@ == SpecTerm::Var(SpecVar { name: name@, dis: 0 }),
{
    Term::Var(Variable::new(name))
}

/// Builds a variable term with an explicit disambiguator.
pub fn var_with(name: &str, disambiguator: usize) -> (t: Term)
    ensures
        t@ == SpecTerm::Var(SpecVar { name: name@, dis: disambiguator as nat }),
{
    Term::Var(Variable::new(name).with_disambiguator(disambiguator))
}

/// Builds an application term.
pub fn app(left: Term, right: Term) -> (t: Term)
    ensures
        t@ == SpecTerm::App(Box::new(left@), Box::new(right@)),
{
    Term::App(Box::new(Application::new(left, right)))
}

/// Builds an abstraction term.
pub fn abs(variable: Variable, term: Term) -> (t: Term)
    ensures
        t@ == SpecTerm::Abs(variable@, Box::new(term@)),
{
    Term::Abs(Box::new(Abstraction::new(variable, term)))
}

} // verus!

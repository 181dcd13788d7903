//! The surface syntax tree that the parser produces: formulas with
//! source spans, nominal definitions, and a program form. Two trees are
//! syntactically equal when they agree up to spans, which is what the
//! span-less mathematical view captures.

use vstd::prelude::*;

use crate::evaluation::model::{SpecTerm, SpecVar};
use crate::evaluation::{Term, Variable};

verus! {

/// A half-open range of character offsets into the source text.
#[derive(Debug, Clone, Copy, PartialEq, Eq, Structural)]
pub struct Span {
    pub start: usize,
    pub end: usize,
}

impl Span {
    /// The smallest span covering both inputs: it starts at the earlier
    /// start and ends at the later end.
    pub fn containing(a: &Span, b: &Span) -> (s: Span)
        ensures
            s.start == if a.start < b.start {
                a.start
            } else {
                b.start
            },
            s.end == if a.end > b.end {
                a.end
            } else {
                b.end
            },
    {
        Span {
            start: if a.start < b.start {
                a.start
            } else {
                b.start
            },
            end: if a.end > b.end {
                a.end
            } else {
                b.end
            },
        }
    }
}

/// A name as written in the source.
#[derive(Debug)]
pub struct Identifier {
    pub value: String,
    pub span: Span,
}

impl View for Identifier {
    type V = Seq<char>;

    open spec fn view(&self) -> Seq<char> {
        self.value@
    }
}

impl Clone for Identifier {
    fn clone(&self) -> (r: Identifier)
        ensures
            r@ == self@,
            r.span == self.span,
    {
        Identifier { value: self.value.clone(), span: self.span }
    }
}

/// A symbol: a name that is guaranteed to stay free, written `:name`.
#[derive(Debug)]
pub struct Symbol {
    pub ident: Identifier,
    pub span: Span,
}

/// An abstraction of the surface syntax.
#[derive(Debug)]
pub struct Abstraction {
    pub variable: Identifier,
    pub formula: Formula,
    pub span: Span,
}

/// An application of the surface syntax.
#[derive(Debug)]
pub struct Application {
    pub left: Formula,
    pub right: Formula,
    pub span: Span,
}

/// A parsed formula.
#[derive(Debug)]
pub enum Formula {
    Abs(Box<Abstraction>),
    App(Box<Application>),
    Var(Identifier),
}

/// The mathematical value of a formula: the term it denotes, every
/// variable carrying disambiguator zero, spans forgotten.
pub open spec fn view_of_formula(f: Formula) -> SpecTerm
    decreases f,
{
    match f {
        Formula::Var(v) => SpecTerm::Var(SpecVar { name: v@, dis: 0 }),
        Formula::Abs(a) => SpecTerm::Abs(
            SpecVar { name: a.variable@, dis: 0 },
            Box::new(view_of_formula(a.formula)),
        ),
        Formula::App(a) => SpecTerm::App(
            Box::new(view_of_formula(a.left)),
            Box::new(view_of_formula(a.right)),
        ),
    }
}

impl View for Formula {
    type V = SpecTerm;

    open spec fn view(&self) -> SpecTerm {
        view_of_formula(*self)
    }
}

impl Formula {
    /// Wraps an abstraction as a formula.
    pub fn abs(abstraction: Abstraction) -> (f: Formula)
        ensures
            f@ == SpecTerm::Abs(
                SpecVar { name: abstraction.variable@, dis: 0 },
                Box::new(abstraction.formula@),
            ),
    {
        Formula::Abs(Box::new(abstraction))
    }

    /// Wraps an application as a formula.
    pub fn app(application: Application) -> (f: Formula)
        ensures
            f@ == SpecTerm::App(Box::new(application.left@), Box::new(application.right@)),
    {
        Formula::App(Box::new(application))
    }

    /// The source span the formula covers.
    pub fn span(&self) -> (s: Span) {
        match self {
            Formula::Abs(a) => a.span,
            Formula::App(a) => a.span,
            Formula::Var(v) => v.span,
        }
    }
}

/// A named definition of the program form: `name = formula`.
#[derive(Debug)]
pub struct NominalDefinition {
    pub name: Identifier,
    pub formula: Formula,
    pub span: Span,
}

/// A parsed program: definitions followed by one formula.
#[derive(Debug)]
pub struct Program {
    pub definitions: Vec<NominalDefinition>,
    pub formula: Formula,
    pub span: Span,
}

/// The mathematical value of a program: the named definitions in order,
/// and the formula, spans forgotten.
pub open spec fn view_of_program(p: Program) -> (Seq<(Seq<char>, SpecTerm)>, SpecTerm) {
    (p.definitions@.map_values(|d: NominalDefinition| (d.name@, d.formula@)), p.formula@)
}

/// Structural equality of syntax trees up to source spans.
pub trait SyntaxEq {
    fn syntax_eq(&self, other: &Self) -> bool;
}

impl SyntaxEq for Identifier {
    fn syntax_eq(&self, other: &Self) -> (r: bool)
        ensures
            r == (self@ == other@),
    {
        self.value == other.value
    }
}

impl SyntaxEq for Symbol {
    fn syntax_eq(&self, other: &Self) -> (r: bool)
        ensures
            r == (self.ident@ == other.ident@),
    {
        self.ident.value == other.ident.value
    }
}

impl SyntaxEq for Formula {
    fn syntax_eq(&self, other: &Self) -> (r: bool)
        ensures
            r == (self@ == other@),
        decreases *self,
    {
        match (self, other) {
            (Formula::Var(a), Formula::Var(b)) => a.value == b.value,
            (Formula::Abs(a), Formula::Abs(b)) => a.variable.value == b.variable.value
                && a.formula.syntax_eq(&b.formula),
            (Formula::App(a), Formula::App(b)) => a.left.syntax_eq(&b.left) && a.right.syntax_eq(
                &b.right,
            ),
            _ => false,
        }
    }
}

impl SyntaxEq for Abstraction {
    fn syntax_eq(&self, other: &Self) -> (r: bool)
        ensures
            r == (self.variable@ == other.variable@ && self.formula@ == other.formula@),
    {
        self.variable.value == other.variable.value && self.formula.syntax_eq(&other.formula)
    }
}

impl SyntaxEq for Application {
    fn syntax_eq(&self, other: &Self) -> (r: bool)
        ensures
            r == (self.left@ == other.left@ && self.right@ == other.right@),
    {
        self.left.syntax_eq(&other.left) && self.right.syntax_eq(&other.right)
    }
}

impl SyntaxEq for NominalDefinition {
    fn syntax_eq(&self, other: &Self) -> (r: bool)
        ensures
            r == (self.name@ == other.name@ && self.formula@ == other.formula@),
    {
        self.name.value == other.name.value && self.formula.syntax_eq(&other.formula)
    }
}

impl SyntaxEq for Program {
    fn syntax_eq(&self, other: &Self) -> (r: bool)
        ensures
            r == (view_of_program(*self) == view_of_program(*other)),
    {
        if !self.formula.syntax_eq(&other.formula) {
            proof {
                assert(view_of_program(*self).1 != view_of_program(*other).1);
            }
            return false;
        }
        if self.definitions.len() != other.definitions.len() {
            proof {
                assert(view_of_program(*self).0.len() != view_of_program(*other).0.len());
            }
            return false;
        }
        let n = self.definitions.len();
        let mut i: usize = 0;
        while i < n
            invariant
                i <= n,
                n == self.definitions@.len(),
                n == other.definitions@.len(),
                forall|j: int|
                    #![trigger self.definitions@[j], other.definitions@[j]]
                    0 <= j < i ==> self.definitions@[j].name@ == other.definitions@[j].name@
                        && self.definitions@[j].formula@ == other.definitions@[j].formula@,
            decreases n - i,
        {
            if !self.definitions[i].syntax_eq(&other.definitions[i]) {
                proof {
                    assert(view_of_program(*self).0[i as int] != view_of_program(
                        *other,
                    ).0[i as int]);
                }
                return false;
            }
            proof {
                assert(self.definitions@[i as int].name@ == other.definitions@[i as int].name@);
                assert(self.definitions@[i as int].formula@
                    == other.definitions@[i as int].formula@);
            }
            i += 1;
        }
        proof {
            assert(view_of_program(*self).0 =~= view_of_program(*other).0);
        }
        true
    }
}

/// Converts a parsed formula to the term it denotes.
pub fn formula_to_term(f: &Formula) -> (t: Term)
    ensures
        t@ == f@,
    decreases *f,
{
    match f {
        Formula::Var(v) => Term::Var(
            Variable { name: v.value.clone(), disambiguator: 0 },
        ),
        Formula::Abs(a) => crate::evaluation::abs(
            Variable { name: a.variable.value.clone(), disambiguator: 0 },
            formula_to_term(&a.formula),
        ),
        Formula::App(a) => crate::evaluation::app(
            formula_to_term(&a.left),
            formula_to_term(&a.right),
        ),
    }
}

} // verus!

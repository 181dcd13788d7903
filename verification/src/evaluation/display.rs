//! Rendering terms back to the surface syntax with minimal parentheses:
//! an application wraps its left side iff it is an abstraction and its
//! right side iff it is an application or an abstraction; a variable with
//! a nonzero disambiguator carries it in Unicode subscript digits.

use vstd::prelude::*;

use crate::evaluation::model::{SpecTerm, SpecVar};
use crate::evaluation::{Step, StepKind, Term, Variable};

verus! {

/// The subscript digit for `d` (for `d` up to nine).
pub open spec fn spec_subscript_digit(d: nat) -> char {
    if d == 0 {
        '₀'
    } else if d == 1 {
        '₁'
    } else if d == 2 {
        '₂'
    } else if d == 3 {
        '₃'
    } else if d == 4 {
        '₄'
    } else if d == 5 {
        '₅'
    } else if d == 6 {
        '₆'
    } else if d == 7 {
        '₇'
    } else if d == 8 {
        '₈'
    } else {
        '₉'
    }
}

/// The decimal digits of `n` in subscript characters.
pub open spec fn spec_subscript(n: nat) -> Seq<char>
    decreases n,
{
    if n < 10 {
        seq![spec_subscript_digit(n)]
    } else {
        spec_subscript(n / 10) + seq![spec_subscript_digit(n % 10)]
    }
}

/// How a variable renders: its name, with the disambiguator in subscript
/// digits when it is nonzero.
pub open spec fn spec_display_var(v: SpecVar) -> Seq<char> {
    if v.dis > 0 {
        v.name + spec_subscript(v.dis)
    } else {
        v.name
    }
}

/// How a term renders, with minimal parentheses.
pub open spec fn spec_display(t: SpecTerm) -> Seq<char>
    decreases t,
{
    match t {
        SpecTerm::Var(v) => spec_display_var(v),
        SpecTerm::Abs(v, body) => seq!['λ'] + spec_display_var(v) + seq!['.'] + spec_display(
            *body,
        ),
        SpecTerm::App(l, r) => {
            let left = if *l is Abs {
                seq!['('] + spec_display(*l) + seq![')']
            } else {
                spec_display(*l)
            };
            let right = if (*r is App) || (*r is Abs) {
                seq!['('] + spec_display(*r) + seq![')']
            } else {
                spec_display(*r)
            };
            left + seq![' '] + right
        },
    }
}

fn subscript_digit(d: usize) -> (s: &'static str)
    requires
        d < 10,
    ensures
        s@ == seq![spec_subscript_digit(d as nat)],
{
    proof {
        reveal_strlit("₀");
        reveal_strlit("₁");
        reveal_strlit("₂");
        reveal_strlit("₃");
        reveal_strlit("₄");
        reveal_strlit("₅");
        reveal_strlit("₆");
        reveal_strlit("₇");
        reveal_strlit("₈");
        reveal_strlit("₉");
    }
    match d {
        0 => "₀",
        1 => "₁",
        2 => "₂",
        3 => "₃",
        4 => "₄",
        5 => "₅",
        6 => "₆",
        7 => "₇",
        8 => "₈",
        _ => "₉",
    }
}

fn subscript(n: usize) -> (s: String)
    ensures
        s@ == spec_subscript(n as nat),
    decreases n,
{
    if n < 10 {
        subscript_digit(n).to_owned()
    } else {
        let mut s = subscript(n / 10);
        s.append(subscript_digit(n % 10));
        s
    }
}

impl Variable {
    /// Renders the variable: its name, with a nonzero disambiguator in
    /// subscript digits.
    pub fn display(&self) -> (s: String)
        ensures
            s@ == spec_display_var(self@),
    {
        if self.disambiguator > 0 {
            let mut s = self.name.clone();
            let sub = subscript(self.disambiguator);
            s.append(sub.as_str());
            s
        } else {
            self.name.clone()
        }
    }
}

impl Term {
    /// Renders the term with minimal parentheses.
    pub fn display(&self) -> (s: String)
        ensures
            s@ == spec_display(self@),
        decreases *self,
    {
        proof {
            reveal_strlit("λ");
            reveal_strlit(".");
            reveal_strlit("(");
            reveal_strlit(")");
            reveal_strlit(" ");
        }
        match self {
            Term::Var(v) => v.display(),
            Term::Abs(a) => {
                let mut s: String = "λ".to_owned();
                let head = a.variable.display();
                s.append(head.as_str());
                s.append(".");
                let body = a.term.display();
                s.append(body.as_str());
                s
            },
            Term::App(a) => {
                let mut s = String::new();
                let wrap_left = matches!(a.left, Term::Abs(_));
                let wrap_right = matches!(a.right, Term::App(_) | Term::Abs(_));
                if wrap_left {
                    s.append("(");
                }
                let left = a.left.display();
                s.append(left.as_str());
                if wrap_left {
                    s.append(")");
                }
                s.append(" ");
                if wrap_right {
                    s.append("(");
                }
                let right = a.right.display();
                s.append(right.as_str());
                if wrap_right {
                    s.append(")");
                }
                s
            },
        }
    }
}

impl StepKind {
    /// The marker this step kind prints as: `α`, `β`, `δ`, or nothing for
    /// an identity or side-effect step.
    pub fn marker(&self) -> (s: &'static str)
        ensures
            self is Alpha ==> s@ == "α"@,
            self is Beta ==> s@ == "β"@,
            self is Delta ==> s@ == "δ"@,
            self is Id || self is SideEffect ==> s@ == ""@,
    {
        match self {
            StepKind::Id => "",
            StepKind::Alpha => "α",
            StepKind::Beta => "β",
            StepKind::Delta => "δ",
            StepKind::SideEffect => "",
        }
    }
}

impl Step {
    /// Renders the step as the CLI prints it: `->>`, the kind's marker, a
    /// space, and the whole program.
    pub fn display(&self) -> (s: String)
        ensures
            s@ == "->>"@ + self.kind.marker_spec() + " "@ + spec_display(self.term@),
    {
        let mut s: String = "->>".to_owned();
        s.append(self.kind.marker());
        s.append(" ");
        let t = self.term.display();
        s.append(t.as_str());
        s
    }
}

impl StepKind {
    /// What [`StepKind::marker`] returns.
    pub open spec fn marker_spec(&self) -> Seq<char> {
        match self {
            StepKind::Alpha => "α"@,
            StepKind::Beta => "β"@,
            StepKind::Delta => "δ"@,
            _ => ""@,
        }
    }
}

} // verus!

//! A name-free term representation: bound variables are de Bruijn
//! indices counted from one, free names are constants.

use vstd::prelude::*;

verus! {

/// A free name.
#[derive(Debug)]
pub struct Constant(pub String);

/// A bound variable: the de Bruijn index of its binder, counted from one
/// at the innermost binder.
#[derive(Debug, Clone, Copy, PartialEq, Eq, Structural)]
pub struct Variable(pub usize);

/// An abstraction; its body refers to it by index one.
#[derive(Debug)]
pub struct Abstraction(pub Expression);

/// An application of the right expression to the left one.
#[derive(Debug)]
pub struct Application(pub Expression, pub Expression);

/// A name-free expression.
#[derive(Debug)]
pub enum Expression {
    Const(Constant),
    Var(Variable),
    Abs(Box<Abstraction>),
    App(Box<Application>),
}

/// The mathematical value of a name-free expression.
#[verifier::ext_equal]
pub enum SpecExpr {
    Const(Seq<char>),
    Var(nat),
    Abs(Box<SpecExpr>),
    App(Box<SpecExpr>, Box<SpecExpr>),
}

/// The mathematical value of an expression.
pub open spec fn view_of_expression(e: Expression) -> SpecExpr
    decreases e,
{
    match e {
        Expression::Const(c) => SpecExpr::Const(c.0@),
        Expression::Var(v) => SpecExpr::Var(v.0 as nat),
        Expression::Abs(a) => SpecExpr::Abs(Box::new(view_of_expression(a.0))),
        Expression::App(a) => SpecExpr::App(
            Box::new(view_of_expression(a.0)),
            Box::new(view_of_expression(a.1)),
        ),
    }
}

impl View for Expression {
    type V = SpecExpr;

    open spec fn view(&self) -> SpecExpr {
        view_of_expression(*self)
    }
}

impl Clone for Expression {
    fn clone(&self) -> (e: Expression)
        ensures
            e@ == self@,
        decreases self,
    {
        match self {
            Expression::Const(c) => Expression::Const(Constant(c.0.clone())),
            Expression::Var(v) => Expression::Var(Variable(v.0)),
            Expression::Abs(a) => Expression::Abs(Box::new(Abstraction(a.0.clone()))),
            Expression::App(a) => Expression::App(
                Box::new(Application(a.0.clone(), a.1.clone())),
            ),
        }
    }
}

impl PartialEq for Expression {
    fn eq(&self, other: &Expression) -> (r: bool)
        decreases self,
    {
        match (self, other) {
            (Expression::Const(a), Expression::Const(b)) => a.0 == b.0,
            (Expression::Var(a), Expression::Var(b)) => a.0 == b.0,
            (Expression::Abs(a), Expression::Abs(b)) => a.0.eq(&b.0),
            (Expression::App(a), Expression::App(b)) => a.0.eq(&b.0) && a.1.eq(&b.1),
            _ => false,
        }
    }
}

impl Eq for Expression {

}

impl vstd::std_specs::cmp::PartialEqSpecImpl for Expression {
    open spec fn obeys_eq_spec() -> bool {
        true
    }

    open spec fn eq_spec(&self, other: &Expression) -> bool {
        self@ == other@
    }
}

/// Wraps an expression in an abstraction.
pub fn abs(expr: Expression) -> (e: Expression)
    ensures
        e@ == SpecExpr::Abs(Box::new(expr@)),
{
    Expression::Abs(Box::new(Abstraction(expr)))
}

/// A bound variable with the given de Bruijn index.
pub fn var(index: usize) -> (e: Expression)
    ensures
        e@ == SpecExpr::Var(index as nat),
{
    Expression::Var(Variable(index))
}

/// Applies `rhs` to `lhs`.
pub fn app(lhs: Expression, rhs: Expression) -> (e: Expression)
    ensures
        e@ == SpecExpr::App(Box::new(lhs@), Box::new(rhs@)),
{
    Expression::App(Box::new(Application(lhs, rhs)))
}

/// A free name.
pub fn constant(name: &str) -> (e: Expression)
    ensures
        e@ == SpecExpr::Const(name@),
{
    Expression::Const(Constant(name.to_owned()))
}

/// The decimal digit character for `d` (for `d` up to nine).
pub open spec fn spec_dec_digit(d: nat) -> char {
    if d == 0 {
        '0'
    } else if d == 1 {
        '1'
    } else if d == 2 {
        '2'
    } else if d == 3 {
        '3'
    } else if d == 4 {
        '4'
    } else if d == 5 {
        '5'
    } else if d == 6 {
        '6'
    } else if d == 7 {
        '7'
    } else if d == 8 {
        '8'
    } else {
        '9'
    }
}

/// The decimal digits of `n`.
pub open spec fn spec_dec_string(n: nat) -> Seq<char>
    decreases n,
{
    if n < 10 {
        seq![spec_dec_digit(n)]
    } else {
        spec_dec_string(n / 10) + seq![spec_dec_digit(n % 10)]
    }
}

fn dec_digit(d: usize) -> (s: &'static str)
    requires
        d < 10,
    ensures
        s@ == seq![spec_dec_digit(d as nat)],
{
    proof {
        reveal_strlit("0");
        reveal_strlit("1");
        reveal_strlit("2");
        reveal_strlit("3");
        reveal_strlit("4");
        reveal_strlit("5");
        reveal_strlit("6");
        reveal_strlit("7");
        reveal_strlit("8");
        reveal_strlit("9");
    }
    match d {
        0 => "0",
        1 => "1",
        2 => "2",
        3 => "3",
        4 => "4",
        5 => "5",
        6 => "6",
        7 => "7",
        8 => "8",
        _ => "9",
    }
}

/// Renders a number in decimal.
pub fn dec_string(n: usize) -> (s: String)
    ensures
        s@ == spec_dec_string(n as nat),
    decreases n,
{
    if n < 10 {
        dec_digit(n).to_owned()
    } else {
        let mut s = dec_string(n / 10);
        s.append(dec_digit(n % 10));
        s
    }
}

/// How a name-free expression renders: constants by name, variables by
/// index, abstractions as `(λbody)`, applications as `(left right)`.
pub open spec fn spec_display_expr(e: SpecExpr) -> Seq<char>
    decreases e,
{
    match e {
        SpecExpr::Const(name) => name,
        SpecExpr::Var(n) => spec_dec_string(n),
        SpecExpr::Abs(body) => seq!['(', 'λ'] + spec_display_expr(*body) + seq![')'],
        SpecExpr::App(l, r) => seq!['('] + spec_display_expr(*l) + seq![' '] + spec_display_expr(
            *r,
        ) + seq![')'],
    }
}

impl Expression {
    /// Renders the expression.
    pub fn display(&self) -> (s: String)
        ensures
            s@ == spec_display_expr(self@),
        decreases *self,
    {
        proof {
            reveal_strlit("(λ");
            reveal_strlit("(");
            reveal_strlit(")");
            reveal_strlit(" ");
        }
        match self {
            Expression::Const(c) => c.0.clone(),
            Expression::Var(v) => dec_string(v.0),
            Expression::Abs(a) => {
                let mut s: String = "(λ".to_owned();
                let body = a.0.display();
                s.append(body.as_str());
                s.append(")");
                s
            },
            Expression::App(a) => {
                let mut s: String = "(".to_owned();
                let left = a.0.display();
                s.append(left.as_str());
                s.append(" ");
                let right = a.1.display();
                s.append(right.as_str());
                s.append(")");
                s
            },
        }
    }
}

} // verus!

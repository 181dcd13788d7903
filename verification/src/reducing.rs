//! Leftmost-outermost (normal order) reduction of name-free expressions:
//! beta-reduction by index-adjusting substitution.

use vstd::prelude::*;

use crate::namefree::{abs, app, Expression, SpecExpr, Variable};

verus! {

/// Adds `amount` to every variable of `e` that points past `depth`
/// enclosing binders: the index adjustment for an expression inserted
/// under `amount` binders.
pub open spec fn spec_insert(e: SpecExpr, amount: nat, depth: nat) -> SpecExpr
    decreases e,
{
    match e {
        SpecExpr::Const(_) => e,
        SpecExpr::Var(n) => if n > depth {
            SpecExpr::Var(n + amount)
        } else {
            e
        },
        SpecExpr::Abs(b) => SpecExpr::Abs(Box::new(spec_insert(*b, amount, depth + 1))),
        SpecExpr::App(l, r) => SpecExpr::App(
            Box::new(spec_insert(*l, amount, depth)),
            Box::new(spec_insert(*r, amount, depth)),
        ),
    }
}

/// Substitutes `rep` for the variable bound `depth` binders up in `e`,
/// renumbering the variables that pointed past it.
pub open spec fn spec_subst(rep: SpecExpr, e: SpecExpr, depth: nat) -> SpecExpr
    decreases e,
{
    match e {
        SpecExpr::Const(_) => e,
        SpecExpr::Var(n) => if n < depth {
            e
        } else if n == depth {
            spec_insert(rep, (depth - 1) as nat, 0)
        } else {
            SpecExpr::Var((n - 1) as nat)
        },
        SpecExpr::Abs(b) => SpecExpr::Abs(Box::new(spec_subst(rep, *b, depth + 1))),
        SpecExpr::App(l, r) => SpecExpr::App(
            Box::new(spec_subst(rep, *l, depth)),
            Box::new(spec_subst(rep, *r, depth)),
        ),
    }
}

/// One leftmost-outermost reduction: a redex `(λbody) arg` rewrites by
/// substitution; otherwise the left of an application is tried before
/// the right, and the body of an abstraction after that. The flag says
/// whether anything was rewritten.
pub open spec fn spec_reduce_once(e: SpecExpr) -> (bool, SpecExpr)
    decreases e,
{
    match e {
        SpecExpr::App(l, r) => match *l {
            SpecExpr::Abs(b) => (true, spec_subst(*r, *b, 1)),
            _ => {
                let il = spec_reduce_once(*l);
                if il.0 {
                    (true, SpecExpr::App(Box::new(il.1), r))
                } else {
                    let ir = spec_reduce_once(*r);
                    (ir.0, SpecExpr::App(l, Box::new(ir.1)))
                }
            },
        },
        SpecExpr::Abs(b) => {
            let ib = spec_reduce_once(*b);
            (ib.0, SpecExpr::Abs(Box::new(ib.1)))
        },
        _ => (false, e),
    }
}

/// An unreduced result is the expression itself.
pub proof fn lemma_reduce_once_complete_same(e: SpecExpr)
    ensures
        !spec_reduce_once(e).0 ==> spec_reduce_once(e).1 == e,
    decreases e,
{
    match e {
        SpecExpr::App(l, r) => {
            match *l {
                SpecExpr::Abs(_) => {},
                _ => {
                    lemma_reduce_once_complete_same(*l);
                    lemma_reduce_once_complete_same(*r);
                },
            }
        },
        SpecExpr::Abs(b) => {
            lemma_reduce_once_complete_same(*b);
        },
        _ => {},
    }
}

/// Whether the index adjustments of this insertion fit a machine word.
pub open spec fn insert_fits(e: SpecExpr, amount: nat, depth: nat) -> bool
    decreases e,
{
    match e {
        SpecExpr::Const(_) => true,
        SpecExpr::Var(n) => n > depth ==> n + amount <= usize::MAX,
        SpecExpr::Abs(b) => depth + 1 <= usize::MAX && insert_fits(*b, amount, depth + 1),
        SpecExpr::App(l, r) => insert_fits(*l, amount, depth) && insert_fits(*r, amount, depth),
    }
}

/// Whether the index adjustments of this substitution fit a machine word.
pub open spec fn subst_fits(rep: SpecExpr, e: SpecExpr, depth: nat) -> bool
    decreases e,
{
    match e {
        SpecExpr::Const(_) => true,
        SpecExpr::Var(n) => n == depth ==> insert_fits(rep, (depth - 1) as nat, 0),
        SpecExpr::Abs(b) => depth + 1 <= usize::MAX && subst_fits(rep, *b, depth + 1),
        SpecExpr::App(l, r) => subst_fits(rep, *l, depth) && subst_fits(rep, *r, depth),
    }
}

/// Whether the index adjustments this reduction step may need fit a
/// machine word. Outside this predicate the executable reducer reports
/// the expression complete.
pub open spec fn reduce_once_fits(e: SpecExpr) -> bool
    decreases e,
{
    match e {
        SpecExpr::App(l, r) => match *l {
            SpecExpr::Abs(b) => subst_fits(*r, *b, 1),
            _ => reduce_once_fits(*l) && (!spec_reduce_once(*l).0 ==> reduce_once_fits(*r)),
        },
        SpecExpr::Abs(b) => reduce_once_fits(*b),
        _ => true,
    }
}

fn insert_expr(e: &Expression, amount: usize, depth: usize) -> (r: Option<Expression>)
    ensures
        (r is Some) == insert_fits(e@, amount as nat, depth as nat),
        match r {
            Some(out) => out@ == spec_insert(e@, amount as nat, depth as nat),
            None => true,
        },
    decreases *e,
{
    match e {
        Expression::Const(_) => Some(e.clone()),
        Expression::Var(v) => {
            if v.0 > depth {
                if v.0 <= usize::MAX - amount {
                    Some(Expression::Var(Variable(v.0 + amount)))
                } else {
                    None
                }
            } else {
                Some(e.clone())
            }
        },
        Expression::Abs(a) => {
            if depth == usize::MAX {
                return None;
            }
            match insert_expr(&a.0, amount, depth + 1) {
                Some(b) => Some(abs(b)),
                None => None,
            }
        },
        Expression::App(a) => {
            match insert_expr(&a.0, amount, depth) {
                None => None,
                Some(l) => match insert_expr(&a.1, amount, depth) {
                    None => None,
                    Some(r) => Some(app(l, r)),
                },
            }
        },
    }
}

fn subst_expr(rep: &Expression, e: &Expression, depth: usize) -> (r: Option<Expression>)
    requires
        depth >= 1,
    ensures
        (r is Some) == subst_fits(rep@, e@, depth as nat),
        match r {
            Some(out) => out@ == spec_subst(rep@, e@, depth as nat),
            None => true,
        },
    decreases *e,
{
    match e {
        Expression::Const(_) => Some(e.clone()),
        Expression::Var(v) => {
            if v.0 < depth {
                Some(e.clone())
            } else if v.0 == depth {
                insert_expr(rep, depth - 1, 0)
            } else {
                Some(Expression::Var(Variable(v.0 - 1)))
            }
        },
        Expression::Abs(a) => {
            if depth == usize::MAX {
                return None;
            }
            match subst_expr(rep, &a.0, depth + 1) {
                Some(b) => Some(abs(b)),
                None => None,
            }
        },
        Expression::App(a) => {
            match subst_expr(rep, &a.0, depth) {
                None => None,
                Some(l) => match subst_expr(rep, &a.1, depth) {
                    None => None,
                    Some(r) => Some(app(l, r)),
                },
            }
        },
    }
}

/// The result of one reduction attempt.
#[derive(Debug)]
pub enum ReduceResult {
    /// The expression has been reduced once and may or may not be
    /// reducible further.
    Reduced(Expression),
    /// The expression cannot be reduced further.
    Complete(Expression),
}

impl ReduceResult {
    /// The carried expression.
    pub open spec fn inner(self) -> Expression {
        match self {
            ReduceResult::Reduced(e) => e,
            ReduceResult::Complete(e) => e,
        }
    }

    /// Whether a reduction was performed.
    pub open spec fn is_reduced(self) -> bool {
        self is Reduced
    }

    /// The expression, when one reduction was performed.
    pub fn reduced(self) -> (r: Option<Expression>)
        ensures
            match r {
                Some(e) => self is Reduced && e == self.inner(),
                None => self is Complete,
            },
    {
        match self {
            ReduceResult::Reduced(e) => Some(e),
            ReduceResult::Complete(_) => None,
        }
    }
}

fn reduce_once_impl(e: &Expression) -> (r: Option<ReduceResult>)
    ensures
        (r is Some) == reduce_once_fits(e@),
        match r {
            Some(out) => out.is_reduced() == spec_reduce_once(e@).0 && out.inner()@
                == spec_reduce_once(e@).1,
            None => true,
        },
    decreases *e,
{
    match e {
        Expression::App(a) => {
            if let Expression::Abs(b) = &a.0 {
                match subst_expr(&a.1, &b.0, 1) {
                    Some(out) => Some(ReduceResult::Reduced(out)),
                    None => None,
                }
            } else {
                match reduce_once_impl(&a.0) {
                    None => None,
                    Some(ReduceResult::Reduced(l)) => Some(
                        ReduceResult::Reduced(app(l, a.1.clone())),
                    ),
                    Some(ReduceResult::Complete(_)) => match reduce_once_impl(&a.1) {
                        None => None,
                        Some(ReduceResult::Reduced(r)) => Some(
                            ReduceResult::Reduced(app(a.0.clone(), r)),
                        ),
                        Some(ReduceResult::Complete(r)) => Some(
                            ReduceResult::Complete(app(a.0.clone(), r)),
                        ),
                    },
                }
            }
        },
        Expression::Abs(a) => {
            match reduce_once_impl(&a.0) {
                None => None,
                Some(ReduceResult::Reduced(b)) => Some(ReduceResult::Reduced(abs(b))),
                Some(ReduceResult::Complete(b)) => Some(ReduceResult::Complete(abs(b))),
            }
        },
        _ => Some(ReduceResult::Complete(e.clone())),
    }
}

/// Reduces an expression once using the leftmost-outermost (normal
/// order) strategy, or reports it complete.
///
/// When an index adjustment would not fit a machine word — which
/// requires indices on the order of `usize::MAX`, beyond any real
/// program — the expression is reported complete instead.
pub fn reduce_once(expression: Expression) -> (r: ReduceResult)
    ensures
        reduce_once_fits(expression@) ==> r.is_reduced() == spec_reduce_once(expression@).0
            && r.inner()@ == spec_reduce_once(expression@).1,
        !reduce_once_fits(expression@) ==> r is Complete && r.inner() == expression,
{
    match reduce_once_impl(&expression) {
        Some(r) => r,
        None => ReduceResult::Complete(expression),
    }
}

/// The lazy sequence of reducts of an expression down to its normal
/// form, if it has one under the leftmost-outermost strategy.
pub struct Reduction {
    pub expression: Expression,
}

impl Reduction {
    /// Reduces once more, or reports that the normal form is reached.
    pub fn next(&mut self) -> (r: Option<Expression>)
        ensures
            reduce_once_fits(old(self).expression@) ==> {
                let spec = spec_reduce_once(old(self).expression@);
                match r {
                    Some(e) => spec.0 && e@ == spec.1 && final(self).expression@ == spec.1,
                    None => !spec.0 && final(self).expression == old(self).expression,
                }
            },
            !reduce_once_fits(old(self).expression@) ==> r is None && final(self).expression
                == old(self).expression,
    {
        match reduce_once_impl(&self.expression) {
            None => None,
            Some(ReduceResult::Reduced(e)) => {
                self.expression = e.clone();
                Some(e)
            },
            Some(ReduceResult::Complete(_)) => None,
        }
    }
}

/// Begins reducing an expression to its normal form.
pub fn reduce_to_normal_form(expression: Expression) -> (r: Reduction)
    ensures
        r.expression == expression,
{
    Reduction { expression }
}

} // verus!

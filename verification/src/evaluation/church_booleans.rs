//! Church booleans: `True = λa.λb.a`, `False = λa.λb.b`.

use vstd::prelude::*;

use crate::evaluation::model::{SpecTerm, SpecVar};
use crate::evaluation::{abs, var, Term, Variable};

verus! {

pub open spec fn boolean_a() -> SpecVar {
    SpecVar { name: "a"@, dis: 0 }
}

pub open spec fn boolean_b() -> SpecVar {
    SpecVar { name: "b"@, dis: 0 }
}

/// The Church boolean for `x`: `λa.λb.a` for true, `λa.λb.b` for false.
pub open spec fn spec_boolean(x: bool) -> SpecTerm {
    SpecTerm::Abs(
        boolean_a(),
        Box::new(
            SpecTerm::Abs(
                boolean_b(),
                Box::new(SpecTerm::Var(if x {
                    boolean_a()
                } else {
                    boolean_b()
                })),
            ),
        ),
    )
}

/// Builds the Church boolean for `x`.
pub fn church_boolean(x: bool) -> (t: Term)
    ensures
        t@ == spec_boolean(x),
{
    if x {
        abs(Variable::new("a"), abs(Variable::new("b"), var("a")))
    } else {
        abs(Variable::new("a"), abs(Variable::new("b"), var("b")))
    }
}

/// What a term decodes to as a Church boolean: `λt.λf.t` is true and
/// `λt.λf.f` is false, whatever the binders are called, the outer binder
/// winning when the two are equal.
pub open spec fn spec_decode_boolean(t: SpecTerm) -> Option<bool> {
    match t {
        SpecTerm::Abs(a, body) => match *body {
            SpecTerm::Abs(b, inner) => match *inner {
                SpecTerm::Var(v) => if v == a {
                    Some(true)
                } else if v == b {
                    Some(false)
                } else {
                    None
                },
                _ => None,
            },
            _ => None,
        },
        _ => None,
    }
}

/// Decodes a term of the shape `λt.λf.t` or `λt.λf.f` to a boolean.
pub fn decode_church_boolean(t: &Term) -> (r: Option<bool>)
    ensures
        r == spec_decode_boolean(t@),
{
    if let Term::Abs(a) = t {
        proof {
            assert(t@ == SpecTerm::Abs(a.variable@, Box::new(a.term@)));
        }
        if let Term::Abs(b) = &a.term {
            proof {
                assert(a.term@ == SpecTerm::Abs(b.variable@, Box::new(b.term@)));
            }
            if let Term::Var(v) = &b.term {
                proof {
                    assert(b.term@ == SpecTerm::Var(v@));
                }
                if v == &a.variable {
                    Some(true)
                } else if v == &b.variable {
                    Some(false)
                } else {
                    None
                }
            } else {
                None
            }
        } else {
            None
        }
    } else {
        None
    }
}

/// What a free variable resolves to under the Church-boolean rules: the
/// user-written names `True` and `False` resolve to their encodings.
pub open spec fn spec_boolean_for_var(v: SpecVar) -> Option<SpecTerm> {
    if v.dis == 0 && v.name == "True"@ {
        Some(spec_boolean(true))
    } else if v.dis == 0 && v.name == "False"@ {
        Some(spec_boolean(false))
    } else {
        None
    }
}

pub(crate) fn church_boolean_for_var(v: &Variable) -> (r: Option<Term>)
    ensures
        match r {
            Some(t) => spec_boolean_for_var(v@) == Some(t@),
            None => spec_boolean_for_var(v@) is None,
        },
{
    if v.disambiguator != 0 {
        return None;
    }
    let true_name: String = "True".to_owned();
    let false_name: String = "False".to_owned();
    if v.name == true_name {
        Some(church_boolean(true))
    } else if v.name == false_name {
        Some(church_boolean(false))
    } else {
        None
    }
}

} // verus!

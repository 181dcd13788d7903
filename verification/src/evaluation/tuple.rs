//! Pairs encode as `λs. s a b`; decoding matches that shape and requires
//! the binder to be fresh in the body, so that no component leaks a
//! variable the pair's own binder would capture.

use vstd::prelude::*;

use crate::evaluation::encoding::{Decode, Encode};
use crate::evaluation::free::is_free_in;
use crate::evaluation::model::{free_vars, SpecTerm, SpecVar};
use crate::evaluation::{abs, app, var, Term, Variable};

verus! {

/// A pair of values carried through the lambda encoding.
pub struct Tuple<T>(pub T);

pub open spec fn tuple_selector() -> SpecVar {
    SpecVar { name: "s"@, dis: 0 }
}

impl<T: Encode> Encode for Tuple<(T, T)> {
    open spec fn spec_encoded(&self) -> SpecTerm {
        SpecTerm::Abs(
            tuple_selector(),
            Box::new(
                SpecTerm::App(
                    Box::new(
                        SpecTerm::App(
                            Box::new(SpecTerm::Var(tuple_selector())),
                            Box::new(self.0.0.spec_encoded()),
                        ),
                    ),
                    Box::new(self.0.1.spec_encoded()),
                ),
            ),
        )
    }

    fn encode(&self) -> (t: Term) {
        abs(
            Variable::new("s"),
            app(app(var("s"), self.0.0.encode()), self.0.1.encode()),
        )
    }
}

impl<T: Decode> Decode for Tuple<(T, T)> {
    open spec fn spec_decoded(t: SpecTerm) -> Option<Tuple<(T, T)>> {
        match t {
            SpecTerm::Abs(s, body) => match *body {
                SpecTerm::App(left, b) => match *left {
                    SpecTerm::App(head, a) => match *head {
                        SpecTerm::Var(f) => if f == s && !free_vars(*a).contains(s)
                            && !free_vars(*b).contains(s) {
                            match (T::spec_decoded(*a), T::spec_decoded(*b)) {
                                (Some(x), Some(y)) => Some(Tuple((x, y))),
                                _ => None,
                            }
                        } else {
                            None
                        },
                        _ => None,
                    },
                    _ => None,
                },
                _ => None,
            },
            _ => None,
        }
    }

    fn decode(term: &Term) -> (r: Option<Tuple<(T, T)>>) {
        if let Term::Abs(outer) = term {
            proof {
                assert(term@ == SpecTerm::Abs(outer.variable@, Box::new(outer.term@)));
            }
            if let Term::App(body) = &outer.term {
                proof {
                    assert(outer.term@ == SpecTerm::App(
                        Box::new(body.left@),
                        Box::new(body.right@),
                    ));
                }
                if let Term::App(left) = &body.left {
                    proof {
                        assert(body.left@ == SpecTerm::App(
                            Box::new(left.left@),
                            Box::new(left.right@),
                        ));
                    }
                    if let Term::Var(f) = &left.left {
                        proof {
                            assert(left.left@ == SpecTerm::Var(f@));
                        }
                        if f == &outer.variable && !is_free_in(&outer.variable, &left.right)
                            && !is_free_in(&outer.variable, &body.right) {
                            match (T::decode(&left.right), T::decode(&body.right)) {
                                (Some(x), Some(y)) => Some(Tuple((x, y))),
                                _ => None,
                            }
                        } else {
                            None
                        }
                    } else {
                        None
                    }
                } else {
                    None
                }
            } else {
                None
            }
        } else {
            None
        }
    }
}

} // verus!

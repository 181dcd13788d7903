//! Encoding Rust values as lambda terms and decoding them back: Church
//! numerals and booleans, optionals (`λj.λn. j v` / `λj.λn. n`), and
//! results (`λo.λe. o v` / `λo.λe. e err`). Decoding is total: an
//! ill-formed term decodes to nothing.

use vstd::prelude::*;

use crate::evaluation::church_booleans::{church_boolean, decode_church_boolean, spec_boolean,
    spec_decode_boolean};
use crate::evaluation::church_numerals::{church_numeral, decode_church_numeral, spec_decode_numeral,
    spec_numeral, ChurchNumeral};
use crate::evaluation::model::{SpecTerm, SpecVar};
use crate::evaluation::{abs, app, var, Term, Variable};

verus! {

/// Encodes a value as a lambda term.
pub trait Encode {
    /// The term the value encodes to.
    spec fn spec_encoded(&self) -> SpecTerm;

    /// Builds the term the value encodes to.
    fn encode(&self) -> (t: Term)
        ensures
            t@ == self.spec_encoded(),
    ;
}

/// Decodes a value from a lambda term.
pub trait Decode where Self: Sized {
    /// What the term decodes to, if it has the right shape.
    spec fn spec_decoded(t: SpecTerm) -> Option<Self>;

    /// Decodes the term.
    fn decode(term: &Term) -> (r: Option<Self>)
        ensures
            r == Self::spec_decoded(term@),
    ;
}

impl Term {
    /// Decodes this term as a value of type `T`.
    pub fn decode<T: Decode>(&self) -> (r: Option<T>)
        ensures
            r == T::spec_decoded(self@),
    {
        T::decode(self)
    }
}

impl Encode for bool {
    open spec fn spec_encoded(&self) -> SpecTerm {
        spec_boolean(*self)
    }

    fn encode(&self) -> (t: Term) {
        church_boolean(*self)
    }
}

impl Decode for bool {
    open spec fn spec_decoded(t: SpecTerm) -> Option<bool> {
        spec_decode_boolean(t)
    }

    fn decode(term: &Term) -> (r: Option<bool>) {
        decode_church_boolean(term)
    }
}

impl Encode for ChurchNumeral {
    open spec fn spec_encoded(&self) -> SpecTerm {
        spec_numeral(self.0 as nat)
    }

    fn encode(&self) -> (t: Term) {
        church_numeral(self.0)
    }
}

impl Decode for ChurchNumeral {
    open spec fn spec_decoded(t: SpecTerm) -> Option<ChurchNumeral> {
        match spec_decode_numeral(t) {
            Some(n) => if n <= u64::MAX {
                Some(ChurchNumeral(n as u64))
            } else {
                None
            },
            None => None,
        }
    }

    fn decode(term: &Term) -> (r: Option<ChurchNumeral>) {
        decode_church_numeral(term)
    }
}

pub open spec fn option_just() -> SpecVar {
    SpecVar { name: "j"@, dis: 0 }
}

pub open spec fn option_nothing() -> SpecVar {
    SpecVar { name: "n"@, dis: 0 }
}

/// Optionals encode like Church booleans over two continuations:
/// `Some v` as `λj.λn. j v` and `None` as `λj.λn. n`.
impl<T: Encode> Encode for Option<T> {
    open spec fn spec_encoded(&self) -> SpecTerm {
        match self {
            Some(value) => SpecTerm::Abs(
                option_just(),
                Box::new(
                    SpecTerm::Abs(
                        option_nothing(),
                        Box::new(
                            SpecTerm::App(
                                Box::new(SpecTerm::Var(option_just())),
                                Box::new(value.spec_encoded()),
                            ),
                        ),
                    ),
                ),
            ),
            None => SpecTerm::Abs(
                option_just(),
                Box::new(
                    SpecTerm::Abs(
                        option_nothing(),
                        Box::new(SpecTerm::Var(option_nothing())),
                    ),
                ),
            ),
        }
    }

    fn encode(&self) -> (t: Term) {
        match self {
            Some(value) => abs(
                Variable::new("j"),
                abs(Variable::new("n"), app(var("j"), value.encode())),
            ),
            None => abs(Variable::new("j"), abs(Variable::new("n"), var("n"))),
        }
    }
}

pub open spec fn result_ok() -> SpecVar {
    SpecVar { name: "o"@, dis: 0 }
}

pub open spec fn result_err() -> SpecVar {
    SpecVar { name: "e"@, dis: 0 }
}

/// Results encode like optionals with a payload on both sides: `Ok v` as
/// `λo.λe. o v` and `Err err` as `λo.λe. e err`.
impl<T: Encode, E: Encode> Encode for Result<T, E> {
    open spec fn spec_encoded(&self) -> SpecTerm {
        match self {
            Ok(value) => SpecTerm::Abs(
                result_ok(),
                Box::new(
                    SpecTerm::Abs(
                        result_err(),
                        Box::new(
                            SpecTerm::App(
                                Box::new(SpecTerm::Var(result_ok())),
                                Box::new(value.spec_encoded()),
                            ),
                        ),
                    ),
                ),
            ),
            Err(error) => SpecTerm::Abs(
                result_ok(),
                Box::new(
                    SpecTerm::Abs(
                        result_err(),
                        Box::new(
                            SpecTerm::App(
                                Box::new(SpecTerm::Var(result_err())),
                                Box::new(error.spec_encoded()),
                            ),
                        ),
                    ),
                ),
            ),
        }
    }

    fn encode(&self) -> (t: Term) {
        match self {
            Ok(value) => abs(
                Variable::new("o"),
                abs(Variable::new("e"), app(var("o"), value.encode())),
            ),
            Err(error) => abs(
                Variable::new("o"),
                abs(Variable::new("e"), app(var("e"), error.encode())),
            ),
        }
    }
}

/// What a term of the optional shape decodes to: `λj.λn. j v` is
/// `Some v`, `λj.λn. n` is `None`.
impl<T: Decode> Decode for Option<T> {
    open spec fn spec_decoded(t: SpecTerm) -> Option<Option<T>> {
        match t {
            SpecTerm::Abs(j, body) => match *body {
                SpecTerm::Abs(n, inner) => match *inner {
                    SpecTerm::Var(v) => if v == n {
                        Some(None)
                    } else {
                        None
                    },
                    SpecTerm::App(h, payload) => match *h {
                        SpecTerm::Var(v) => if v == j {
                            match T::spec_decoded(*payload) {
                                Some(value) => Some(Some(value)),
                                None => None,
                            }
                        } else {
                            None
                        },
                        _ => None,
                    },
                    _ => None,
                },
                _ => None,
            },
            _ => None,
        }
    }

    fn decode(term: &Term) -> (r: Option<Option<T>>) {
        if let Term::Abs(a) = term {
            proof {
                assert(term@ == SpecTerm::Abs(a.variable@, Box::new(a.term@)));
            }
            if let Term::Abs(b) = &a.term {
                proof {
                    assert(a.term@ == SpecTerm::Abs(b.variable@, Box::new(b.term@)));
                }
                match &b.term {
                    Term::Var(v) => {
                        proof {
                            assert(b.term@ == SpecTerm::Var(v@));
                        }
                        if v == &b.variable {
                            Some(None)
                        } else {
                            None
                        }
                    },
                    Term::App(inner) => {
                        proof {
                            assert(b.term@ == SpecTerm::App(
                                Box::new(inner.left@),
                                Box::new(inner.right@),
                            ));
                        }
                        if let Term::Var(v) = &inner.left {
                            proof {
                                assert(inner.left@ == SpecTerm::Var(v@));
                            }
                            if v == &a.variable {
                                match T::decode(&inner.right) {
                                    Some(value) => Some(Some(value)),
                                    None => None,
                                }
                            } else {
                                None
                            }
                        } else {
                            None
                        }
                    },
                    _ => None,
                }
            } else {
                None
            }
        } else {
            None
        }
    }
}

/// What a term of the result shape decodes to: `λo.λe. o v` is `Ok v`,
/// `λo.λe. e err` is `Err err`, the `Ok` side winning when the two
/// binders are equal.
impl<T: Decode, E: Decode> Decode for Result<T, E> {
    open spec fn spec_decoded(t: SpecTerm) -> Option<Result<T, E>> {
        match t {
            SpecTerm::Abs(o, body) => match *body {
                SpecTerm::Abs(e, inner) => match *inner {
                    SpecTerm::App(h, payload) => match *h {
                        SpecTerm::Var(v) => if v == o {
                            match T::spec_decoded(*payload) {
                                Some(value) => Some(Ok(value)),
                                None => None,
                            }
                        } else if v == e {
                            match E::spec_decoded(*payload) {
                                Some(error) => Some(Err(error)),
                                None => None,
                            }
                        } else {
                            None
                        },
                        _ => None,
                    },
                    _ => None,
                },
                _ => None,
            },
            _ => None,
        }
    }

    fn decode(term: &Term) -> (r: Option<Result<T, E>>) {
        if let Term::Abs(a) = term {
            proof {
                assert(term@ == SpecTerm::Abs(a.variable@, Box::new(a.term@)));
            }
            if let Term::Abs(b) = &a.term {
                proof {
                    assert(a.term@ == SpecTerm::Abs(b.variable@, Box::new(b.term@)));
                }
                if let Term::App(inner) = &b.term {
                    proof {
                        assert(b.term@ == SpecTerm::App(
                            Box::new(inner.left@),
                            Box::new(inner.right@),
                        ));
                    }
                    if let Term::Var(v) = &inner.left {
                        proof {
                            assert(inner.left@ == SpecTerm::Var(v@));
                        }
                        if v == &a.variable {
                            match T::decode(&inner.right) {
                                Some(value) => Some(Ok(value)),
                                None => None,
                            }
                        } else if v == &b.variable {
                            match E::decode(&inner.right) {
                                Some(error) => Some(Err(error)),
                                None => None,
                            }
                        } else {
                            None
                        }
                    } else {
                        None
                    }
                } else {
                    None
                }
            } else {
                None
            }
        } else {
            None
        }
    }
}

/// A dynamically decodable value, guided by a type hint: a free atom `n`
/// or `b` applied to the payload says whether the payload is a Church
/// numeral or a Church boolean.
#[derive(Debug, Clone, Copy, PartialEq, Eq, Structural)]
pub enum Value {
    Integer(u64),
    Bool(bool),
}

fn hint_matches(name: &String, hint: &str) -> (r: bool)
    ensures
        r == (name@ == hint@),
{
    let h: String = hint.to_owned();
    name.eq(&h)
}

pub open spec fn integer_hint() -> Seq<char> {
    "n"@
}

pub open spec fn boolean_hint() -> Seq<char> {
    "b"@
}

impl Decode for Value {
    open spec fn spec_decoded(t: SpecTerm) -> Option<Value> {
        match t {
            SpecTerm::App(h, payload) => match *h {
                SpecTerm::Var(v) => if v.dis == 0 && v.name == integer_hint() {
                    match spec_decode_numeral(*payload) {
                        Some(n) => if n <= u64::MAX {
                            Some(Value::Integer(n as u64))
                        } else {
                            None
                        },
                        None => None,
                    }
                } else if v.dis == 0 && v.name == boolean_hint() {
                    match spec_decode_boolean(*payload) {
                        Some(b) => Some(Value::Bool(b)),
                        None => None,
                    }
                } else {
                    None
                },
                _ => None,
            },
            _ => None,
        }
    }

    fn decode(term: &Term) -> (r: Option<Value>) {
        if let Term::App(a) = term {
            proof {
                assert(term@ == SpecTerm::App(Box::new(a.left@), Box::new(a.right@)));
            }
            if let Term::Var(v) = &a.left {
                proof {
                    assert(a.left@ == SpecTerm::Var(v@));
                }
                if v.disambiguator == 0 && hint_matches(&v.name, "n") {
                    match decode_church_numeral(&a.right) {
                        Some(n) => Some(Value::Integer(n.0)),
                        None => None,
                    }
                } else if v.disambiguator == 0 && hint_matches(&v.name, "b") {
                    match decode_church_boolean(&a.right) {
                        Some(b) => Some(Value::Bool(b)),
                        None => None,
                    }
                } else {
                    None
                }
            } else {
                None
            }
        } else {
            None
        }
    }
}

} // verus!

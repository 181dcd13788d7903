//! Church numerals: building `λf.λx. f (f … (f x))`, counting the
//! applications back out, and recognising variable names that are decimal
//! numbers.

use vstd::prelude::*;

use crate::evaluation::model::{SpecTerm, SpecVar};
use crate::evaluation::{abs, app, var, Term, Variable};

verus! {

/// A natural number carried by a Church numeral.
#[derive(Debug, Clone, Copy, PartialEq, Eq, Structural)]
pub struct ChurchNumeral(pub u64);

pub open spec fn numeral_f() -> SpecVar {
    SpecVar { name: "f"@, dis: 0 }
}

pub open spec fn numeral_x() -> SpecVar {
    SpecVar { name: "x"@, dis: 0 }
}

/// `f` applied `n` times to `x`.
pub open spec fn spec_numeral_body(n: nat) -> SpecTerm
    decreases n,
{
    if n == 0 {
        SpecTerm::Var(numeral_x())
    } else {
        SpecTerm::App(
            Box::new(SpecTerm::Var(numeral_f())),
            Box::new(spec_numeral_body((n - 1) as nat)),
        )
    }
}

/// The Church numeral for `n`: `λf.λx. f (f … (f x))`.
pub open spec fn spec_numeral(n: nat) -> SpecTerm {
    SpecTerm::Abs(
        numeral_f(),
        Box::new(SpecTerm::Abs(numeral_x(), Box::new(spec_numeral_body(n)))),
    )
}

/// Builds the Church numeral for `n`.
pub fn church_numeral(n: u64) -> (t: Term)
    ensures
        t@ == spec_numeral(n as nat),
{
    let mut body = var("x");
    let mut i: u64 = 0;
    while i < n
        invariant
            i <= n,
            body@ == spec_numeral_body(i as nat),
        decreases n - i,
    {
        body = app(var("f"), body);
        i += 1;
    }
    abs(Variable::new("f"), abs(Variable::new("x"), body))
}

/// Counts how often `f` is applied down a spine ending in `x`.
pub open spec fn spec_count_apps(t: SpecTerm, f: SpecVar, x: SpecVar) -> Option<nat>
    decreases t,
{
    match t {
        SpecTerm::Var(v) => if v == x {
            Some(0)
        } else {
            None
        },
        SpecTerm::App(l, r) => match *l {
            SpecTerm::Var(v) => if v == f {
                match spec_count_apps(*r, f, x) {
                    Some(n) => Some((n + 1) as nat),
                    None => None,
                }
            } else {
                None
            },
            _ => None,
        },
        _ => None,
    }
}

/// What a term decodes to as a Church numeral: the application count of
/// `λf.λx. f^n x`, if the term has that shape.
pub open spec fn spec_decode_numeral(t: SpecTerm) -> Option<nat> {
    match t {
        SpecTerm::Abs(f, body) => match *body {
            SpecTerm::Abs(x, inner) => spec_count_apps(*inner, f, x),
            _ => None,
        },
        _ => None,
    }
}

pub(crate) fn count_apps(t: &Term, f: &Variable, x: &Variable) -> (r: Option<u64>)
    ensures
        match r {
            Some(m) => spec_count_apps(t@, f@, x@) == Some(m as nat),
            None => forall|n: nat| spec_count_apps(t@, f@, x@) == Some(n) ==> n > u64::MAX,
        },
    decreases *t,
{
    match t {
        Term::Var(v) => {
            if v == x {
                Some(0)
            } else {
                None
            }
        },
        Term::App(a) => {
            proof {
                assert(t@ == SpecTerm::App(Box::new(a.left@), Box::new(a.right@)));
            }
            if let Term::Var(v) = &a.left {
                proof {
                    assert(a.left@ == SpecTerm::Var(v@));
                }
                if v == f {
                    match count_apps(&a.right, f, x) {
                        Some(n) => {
                            if n < u64::MAX {
                                Some(n + 1)
                            } else {
                                None
                            }
                        },
                        None => None,
                    }
                } else {
                    None
                }
            } else {
                None
            }
        },
        _ => None,
    }
}

/// Decodes a term of the shape `λf.λx. f^n x` to `n`.
pub fn decode_church_numeral(t: &Term) -> (r: Option<ChurchNumeral>)
    ensures
        match r {
            Some(m) => spec_decode_numeral(t@) == Some(m.0 as nat),
            None => forall|n: nat| spec_decode_numeral(t@) == Some(n) ==> n > u64::MAX,
        },
{
    if let Term::Abs(a) = t {
        proof {
            assert(t@ == SpecTerm::Abs(a.variable@, Box::new(a.term@)));
        }
        if let Term::Abs(b) = &a.term {
            proof {
                assert(a.term@ == SpecTerm::Abs(b.variable@, Box::new(b.term@)));
            }
            match count_apps(&b.term, &a.variable, &b.variable) {
                Some(n) => Some(ChurchNumeral(n)),
                None => None,
            }
        } else {
            None
        }
    } else {
        None
    }
}

/// Whether `c` is a decimal digit.
pub open spec fn is_dec_digit(c: char) -> bool {
    '0' <= c && c <= '9'
}

/// The value of a decimal digit.
pub open spec fn digit_val(c: char) -> nat {
    (c as u32 - '0' as u32) as nat
}

/// Whether a name is a non-empty string of decimal digits.
pub open spec fn is_dec_name(s: Seq<char>) -> bool {
    s.len() >= 1 && forall|i: int| 0 <= i < s.len() ==> is_dec_digit(#[trigger] s[i])
}

/// The number a string of decimal digits denotes.
pub open spec fn dec_val(s: Seq<char>) -> nat
    decreases s.len(),
{
    if s.len() == 0 {
        0
    } else {
        dec_val(s.drop_last()) * 10 + digit_val(s.last())
    }
}

/// Extending a digit string never shrinks its value.
proof fn lemma_dec_val_monotone(s: Seq<char>, i: int, j: int)
    requires
        0 <= i <= j <= s.len(),
    ensures
        dec_val(s.take(i)) <= dec_val(s.take(j)),
    decreases j - i,
{
    if i < j {
        lemma_dec_val_monotone(s, i, j - 1);
        assert(s.take(j).drop_last() =~= s.take(j - 1));
        assert(dec_val(s.take(j - 1)) * 10 >= dec_val(s.take(j - 1)) * 1);
    }
}

/// Parses a name as a non-negative decimal integer that fits in a `u64`.
pub(crate) fn parse_decimal(s: &String) -> (r: Option<u64>)
    ensures
        match r {
            Some(n) => is_dec_name(s@) && dec_val(s@) == n as nat,
            None => !(is_dec_name(s@) && dec_val(s@) <= u64::MAX),
        },
{
    let len = s.as_str().unicode_len();
    if len == 0 {
        return None;
    }
    let mut i: usize = 0;
    let mut acc: u64 = 0;
    while i < len
        invariant
            0 <= i <= len,
            len == s@.len(),
            forall|j: int| 0 <= j < i ==> is_dec_digit(#[trigger] s@[j]),
            acc as nat == dec_val(s@.take(i as int)),
        decreases len - i,
    {
        let c = s.as_str().get_char(i);
        if !('0' <= c && c <= '9') {
            return None;
        }
        let d = (c as u32 - '0' as u32) as u64;
        proof {
            assert(s@.take(i + 1).drop_last() =~= s@.take(i as int));
            assert(s@.take(i + 1).last() == s@[i as int]);
        }
        if acc > (u64::MAX - d) / 10 {
            proof {
                assert(acc as nat * 10 + d as nat > u64::MAX) by (nonlinear_arith)
                    requires
                        acc as nat > ((u64::MAX - d) / 10) as nat,
                        d <= 9,
                ;
                lemma_dec_val_monotone(s@, i + 1, s@.len() as int);
                assert(s@.take(s@.len() as int) =~= s@);
            }
            return None;
        }
        proof {
            assert(acc as nat * 10 + d as nat <= u64::MAX) by (nonlinear_arith)
                requires
                    acc as nat <= ((u64::MAX - d) / 10) as nat,
                    d <= 9,
            ;
        }
        acc = acc * 10 + d;
        i += 1;
    }
    proof {
        assert(s@.take(len as int) =~= s@);
    }
    Some(acc)
}

/// What a free variable resolves to under the Church-numeral rules: a
/// user-written name (disambiguator zero) that is a decimal number
/// fitting a `u64` resolves to its Church numeral.
pub open spec fn spec_numeral_for_var(v: SpecVar) -> Option<SpecTerm> {
    if v.dis == 0 && is_dec_name(v.name) && dec_val(v.name) <= u64::MAX {
        Some(spec_numeral(dec_val(v.name)))
    } else {
        None
    }
}

pub(crate) fn church_numeral_for_var(v: &Variable) -> (r: Option<Term>)
    ensures
        match r {
            Some(t) => spec_numeral_for_var(v@) == Some(t@),
            None => spec_numeral_for_var(v@) is None,
        },
{
    if v.disambiguator != 0 {
        return None;
    }
    match parse_decimal(&v.name) {
        Some(n) => Some(church_numeral(n)),
        None => None,
    }
}

} // verus!

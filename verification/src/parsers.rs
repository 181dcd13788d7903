//! The parser for the surface syntax:
//!
//! ```text
//! formula      := app_formula
//! app_formula  := atom (trivia atom)*          (left-associative)
//! atom         := '(' formula ')' | abstraction | identifier
//! abstraction  := lambda trivia identifier_list '.' formula
//! identifier_list := identifier (trivia identifier)*
//! lambda       := '&' | 'λ' | '\'
//! trivia       := (whitespace | comment)*
//! comment      := '#' to end-of-line
//! ```
//!
//! A multi-variable abstraction is sugar for nested abstractions sharing
//! the source span of the whole. The program form is zero or more
//! `name '=' formula` definitions followed by a single formula; a
//! definition's formula stops in front of the next `name '='` head or a
//! line break.
//!
//! The whole grammar is written down once more as spec functions over
//! the input's character sequence, and every parsing function is proved
//! equal to its spec twin: which inputs parse, to which term, and at
//! which offset a failing parse stops are all pinned down. Offsets count
//! characters.

use vstd::prelude::*;

use crate::chars::{is_xid_continue, unicode_is_xid_start, xid_continue, xid_start, LAMBDA};
use crate::diagnostics::{
    Diagnostic, Diagnostics, DiagnosticsResult, Label, WithDiagnostics,
};
use crate::evaluation::model::{SpecTerm, SpecVar};
use crate::syntax::{Abstraction, Application, Formula, Identifier, NominalDefinition, Program,
    Span};

verus! {

/// Whether `c` may start an identifier: an `XID_Start` character other
/// than the lambda character, an ASCII digit, or an underscore.
pub open spec fn spec_identifier_start(c: char) -> bool {
    xid_start(c) && c != 'λ' || '0' <= c && c <= '9' || c == '_'
}

/// Whether `c` may continue an identifier: an `XID_Continue` character
/// other than the lambda character.
pub open spec fn spec_identifier_continue(c: char) -> bool {
    xid_continue(c) && c != 'λ'
}

/// The characters that may introduce an abstraction.
pub open spec fn spec_lambda_char(c: char) -> bool {
    c == '&' || c == 'λ' || c == '\\'
}

/// The whitespace characters of trivia.
pub open spec fn spec_trivia_space(c: char) -> bool {
    c == ' ' || c == '\t' || c == '\r' || c == '\n'
}

pub fn is_identifier_start(c: char) -> (r: bool)
    ensures
        r == spec_identifier_start(c),
{
    (unicode_is_xid_start(c) && c != LAMBDA) || matches!(c, '0'..='9') || c == '_'
}

pub fn is_identifier_continue(c: char) -> (r: bool)
    ensures
        r == spec_identifier_continue(c),
{
    is_xid_continue(c)
}

fn is_lambda(c: char) -> (r: bool)
    ensures
        r == spec_lambda_char(c),
{
    matches!(c, '&' | 'λ' | '\\')
}

fn is_trivia_space(c: char) -> (r: bool)
    ensures
        r == spec_trivia_space(c),
{
    matches!(c, ' ' | '\t' | '\r' | '\n')
}

/// The offset of the line break (or the end) that closes a comment
/// starting before `i`.
pub open spec fn spec_line_end(s: Seq<char>, i: nat) -> nat
    decreases s.len() - i,
{
    if i >= s.len() {
        i
    } else if s[i as int] == '\r' || s[i as int] == '\n' {
        i
    } else {
        spec_line_end(s, i + 1)
    }
}

proof fn lemma_line_end_bounds(s: Seq<char>, i: nat)
    ensures
        i <= spec_line_end(s, i),
        i <= s.len() ==> spec_line_end(s, i) <= s.len(),
    decreases s.len() - i,
{
    if i < s.len() && s[i as int] != '\r' && s[i as int] != '\n' {
        lemma_line_end_bounds(s, i + 1);
    }
}

/// The offset just past the trivia (whitespace and comments) at `i`.
pub open spec fn spec_trivia_end(s: Seq<char>, i: nat) -> nat
    decreases s.len() - i,
    via spec_trivia_end_decreases
{
    if i >= s.len() {
        i
    } else if spec_trivia_space(s[i as int]) {
        spec_trivia_end(s, i + 1)
    } else if s[i as int] == '#' {
        spec_trivia_end(s, spec_line_end(s, i + 1))
    } else {
        i
    }
}

#[via_fn]
proof fn spec_trivia_end_decreases(s: Seq<char>, i: nat) {
    if i < s.len() && !spec_trivia_space(s[i as int]) && s[i as int] == '#' {
        lemma_line_end_bounds(s, i + 1);
    }
}

proof fn lemma_trivia_end_bounds(s: Seq<char>, i: nat)
    ensures
        i <= spec_trivia_end(s, i),
        i <= s.len() ==> spec_trivia_end(s, i) <= s.len(),
    decreases s.len() - i,
{
    if i < s.len() {
        if spec_trivia_space(s[i as int]) {
            lemma_trivia_end_bounds(s, i + 1);
        } else if s[i as int] == '#' {
            lemma_line_end_bounds(s, i + 1);
            lemma_trivia_end_bounds(s, spec_line_end(s, i + 1));
        }
    }
}

/// The offset just past the identifier-continue characters at `j`.
pub open spec fn spec_ident_end(s: Seq<char>, j: nat) -> nat
    decreases s.len() - j,
{
    if j >= s.len() {
        j
    } else if spec_identifier_continue(s[j as int]) {
        spec_ident_end(s, j + 1)
    } else {
        j
    }
}

proof fn lemma_ident_end_bounds(s: Seq<char>, j: nat)
    ensures
        j <= spec_ident_end(s, j),
        j <= s.len() ==> spec_ident_end(s, j) <= s.len(),
    decreases s.len() - j,
{
    if j < s.len() && spec_identifier_continue(s[j as int]) {
        lemma_ident_end_bounds(s, j + 1);
    }
}

/// The identifier starting exactly at `i`: its text and end offset, if
/// an identifier-start character stands there.
pub open spec fn spec_parse_identifier(s: Seq<char>, i: nat) -> Option<(Seq<char>, nat)> {
    if i < s.len() && spec_identifier_start(s[i as int]) {
        let j = spec_ident_end(s, i + 1);
        Some((s.subrange(i as int, j as int), j))
    } else {
        None
    }
}

/// Whether a line break stands in `[from, to)`.
pub open spec fn spec_has_line_break(s: Seq<char>, from: nat, to: nat) -> bool {
    exists|k: int| from <= k < to && k < s.len() && (s[k] == '\n' || s[k] == '\r')
}

/// Whether a definition head — `identifier trivia '='` — stands at `i`,
/// after trivia.
pub open spec fn spec_looks_like_definition(s: Seq<char>, i: nat) -> bool {
    let j = spec_trivia_end(s, i);
    match spec_parse_identifier(s, j) {
        Some(p) => {
            let m = spec_trivia_end(s, p.1);
            m < s.len() && s[m as int] == '='
        },
        None => false,
    }
}

/// The identifiers of a multi-variable binder list starting at `j`
/// (which must already be past trivia), and the offset after them.
pub open spec fn spec_parse_var_list(s: Seq<char>, j: nat) -> (Seq<Seq<char>>, nat)
    decreases s.len() - j,
    via spec_parse_var_list_decreases
{
    if j > s.len() {
        (Seq::empty(), j)
    } else {
        match spec_parse_identifier(s, j) {
            None => (Seq::empty(), j),
            Some(p) => {
                let rest = spec_parse_var_list(s, spec_trivia_end(s, p.1));
                (seq![p.0] + rest.0, rest.1)
            },
        }
    }
}

#[via_fn]
proof fn spec_parse_var_list_decreases(s: Seq<char>, j: nat) {
    if j <= s.len() && spec_parse_identifier(s, j) is Some {
        lemma_ident_end_bounds(s, j + 1);
        lemma_trivia_end_bounds(s, spec_ident_end(s, j + 1));
    }
}

proof fn lemma_var_list_bounds(s: Seq<char>, j: nat)
    ensures
        j <= spec_parse_var_list(s, j).1,
        j <= s.len() ==> spec_parse_var_list(s, j).1 <= s.len(),
    decreases s.len() - j,
{
    if j <= s.len() && spec_parse_identifier(s, j) is Some {
        let k = spec_ident_end(s, j + 1);
        lemma_ident_end_bounds(s, j + 1);
        lemma_trivia_end_bounds(s, k);
        lemma_var_list_bounds(s, spec_trivia_end(s, k));
    }
}

/// The nested abstractions a multi-variable binder list desugars to.
pub open spec fn spec_nest_abs(vars: Seq<Seq<char>>, body: SpecTerm) -> SpecTerm
    decreases vars.len(),
{
    if vars.len() == 0 {
        body
    } else {
        SpecTerm::Abs(
            SpecVar { name: vars[0], dis: 0 },
            Box::new(spec_nest_abs(vars.drop_first(), body)),
        )
    }
}

/// One atom at `i`: a parenthesized formula, an abstraction, or an
/// identifier. `Ok` carries the atom's term and end offset; `Err` the
/// offset the parse could not get past.
pub open spec fn spec_parse_one(s: Seq<char>, i: nat, stop: bool) -> Result<(SpecTerm, nat), nat>
    decreases s.len() - i, 1int,
    via spec_parse_one_decreases
{
    if i >= s.len() {
        Err(i)
    } else if s[i as int] == '(' {
        let inner = spec_trivia_end(s, i + 1);
        match spec_parse_formula_at(s, inner, false) {
            Err(e) => Err(e),
            Ok(p) => {
                let k = spec_trivia_end(s, p.1);
                if k < s.len() && s[k as int] == ')' {
                    Ok((p.0, (k + 1) as nat))
                } else {
                    Err(k)
                }
            },
        }
    } else if spec_lambda_char(s[i as int]) {
        spec_parse_abstraction(s, i, stop)
    } else {
        match spec_parse_identifier(s, i) {
            Some(p) => Ok((SpecTerm::Var(SpecVar { name: p.0, dis: 0 }), p.1)),
            None => Err(i),
        }
    }
}

#[via_fn]
proof fn spec_parse_one_decreases(s: Seq<char>, i: nat, stop: bool) {
    if i < s.len() && s[i as int] == '(' {
        lemma_trivia_end_bounds(s, i + 1);
    }
}

/// An abstraction at the lambda character at `i`: the desugared nested
/// term and its end offset, or the failing offset.
pub open spec fn spec_parse_abstraction(s: Seq<char>, i: nat, stop: bool) -> Result<
    (SpecTerm, nat),
    nat,
>
    decreases s.len() - i, 0int,
    via spec_parse_abstraction_decreases
{
    if i >= s.len() {
        Err(i)
    } else {
        let p0 = spec_trivia_end(s, i + 1);
        let vl = spec_parse_var_list(s, p0);
        if vl.0.len() == 0 {
            Err(p0)
        } else {
            let p = vl.1;
            if p < s.len() && s[p as int] == '.' {
                match spec_parse_formula_at(s, p + 1, stop) {
                    Err(e) => Err(e),
                    Ok(b) => Ok((spec_nest_abs(vl.0, b.0), b.1)),
                }
            } else {
                Err(p)
            }
        }
    }
}

#[via_fn]
proof fn spec_parse_abstraction_decreases(s: Seq<char>, i: nat, stop: bool) {
    if i < s.len() {
        lemma_trivia_end_bounds(s, i + 1);
        lemma_var_list_bounds(s, spec_trivia_end(s, i + 1));
    }
}

/// The fold of further atoms onto `acc`, left-associatively, starting at
/// `p`: it ends at the first offset where no atom parses, or — with
/// `stop` — in front of a definition head or a line break.
pub open spec fn spec_parse_formula_rest(s: Seq<char>, acc: SpecTerm, p: nat, stop: bool) -> (
    SpecTerm,
    nat,
)
    decreases s.len() - p, 2int,
    via spec_parse_formula_rest_decreases
{
    if p > s.len() {
        (acc, p)
    } else {
        let next = spec_trivia_end(s, p);
        if stop && (spec_has_line_break(s, p, next) || spec_looks_like_definition(s, next)) {
            (acc, p)
        } else {
            match spec_parse_one(s, next, stop) {
                Err(_) => (acc, p),
                Ok(a) => if a.1 > next && a.1 <= s.len() {
                    spec_parse_formula_rest(
                        s,
                        SpecTerm::App(Box::new(acc), Box::new(a.0)),
                        a.1,
                        stop,
                    )
                } else {
                    (acc, p)
                },
            }
        }
    }
}

#[via_fn]
proof fn spec_parse_formula_rest_decreases(s: Seq<char>, acc: SpecTerm, p: nat, stop: bool) {
    if p <= s.len() {
        lemma_trivia_end_bounds(s, p);
    }
}

/// A whole formula at `i`: one or more atoms separated by trivia, folded
/// into left-associated applications.
pub open spec fn spec_parse_formula_at(s: Seq<char>, i: nat, stop: bool) -> Result<
    (SpecTerm, nat),
    nat,
>
    decreases s.len() - i, 3int,
    via spec_parse_formula_at_decreases
{
    if i > s.len() {
        Err(i)
    } else {
        let fs = spec_trivia_end(s, i);
        match spec_parse_one(s, fs, stop) {
            Err(e) => Err(e),
            Ok(p) => if p.1 > fs && p.1 <= s.len() {
                Ok(spec_parse_formula_rest(s, p.0, p.1, stop))
            } else {
                Ok((p.0, p.1))
            },
        }
    }
}

#[via_fn]
proof fn spec_parse_formula_at_decreases(s: Seq<char>, i: nat, stop: bool) {
    if i <= s.len() {
        lemma_trivia_end_bounds(s, i);
    }
}

/// What parsing the whole input as one formula gives: the term, or the
/// earliest offset the parse could not get past.
pub open spec fn spec_formula_of_source(s: Seq<char>) -> Result<SpecTerm, nat> {
    match spec_parse_formula_at(s, 0, false) {
        Err(e) => Err(e),
        Ok(p) => {
            let j = spec_trivia_end(s, p.1);
            if j == s.len() {
                Ok(p.0)
            } else {
                Err(j)
            }
        },
    }
}

/// The definitions at `pos`: each a `name '=' formula`, for as long as a
/// definition head stands there, and the offset after them.
pub open spec fn spec_parse_defs(s: Seq<char>, pos: nat) -> Result<
    (Seq<(Seq<char>, SpecTerm)>, nat),
    nat,
>
    decreases s.len() - pos,
{
    if pos > s.len() || !spec_looks_like_definition(s, pos) {
        Ok((Seq::empty(), pos))
    } else {
        let j = spec_trivia_end(s, pos);
        match spec_parse_identifier(s, j) {
            None => Err(j),
            Some(name) => {
                let m = spec_trivia_end(s, name.1);
                if m < s.len() && s[m as int] == '=' {
                    match spec_parse_formula_at(s, m + 1, true) {
                        Err(e) => Err(e),
                        Ok(f) => if pos < f.1 && f.1 <= s.len() {
                            match spec_parse_defs(s, f.1) {
                                Err(e) => Err(e),
                                Ok(rest) => Ok((seq![(name.0, f.0)] + rest.0, rest.1)),
                            }
                        } else {
                            Err(f.1)
                        },
                    }
                } else {
                    Err(m)
                }
            },
        }
    }
}

/// What parsing the whole input as a program gives: the named
/// definitions in order and the final formula, or the earliest offset
/// the parse could not get past.
pub open spec fn spec_program_of_source(s: Seq<char>) -> Result<
    (Seq<(Seq<char>, SpecTerm)>, SpecTerm),
    nat,
> {
    match spec_parse_defs(s, 0) {
        Err(e) => Err(e),
        Ok(d) => match spec_parse_formula_at(s, d.1, false) {
            Err(e) => Err(e),
            Ok(f) => {
                let j = spec_trivia_end(s, f.1);
                if j == s.len() {
                    Ok((d.0, f.0))
                } else {
                    Err(j)
                }
            },
        },
    }
}

/// The mathematical value of a formula-parse result: the term's view and
/// the end offset, or the failing offset.
pub open spec fn formula_result_view(r: Result<(Formula, usize), usize>) -> Result<
    (SpecTerm, nat),
    nat,
> {
    match r {
        Ok(p) => Ok((p.0@, p.1 as nat)),
        Err(e) => Err(e as nat),
    }
}

/// Collects the characters of the input, so that the parser can index
/// them in constant time.
fn str_chars(s: &str) -> (v: Vec<char>)
    ensures
        v@ == s@,
{
    let len = s.unicode_len();
    let mut v: Vec<char> = Vec::new();
    let mut i: usize = 0;
    while i < len
        invariant
            i <= len,
            len == s@.len(),
            v@ == s@.take(i as int),
        decreases len - i,
    {
        let c = s.get_char(i);
        v.push(c);
        proof {
            assert(v@ =~= s@.take(i + 1));
        }
        i += 1;
    }
    proof {
        assert(v@ =~= s@);
    }
    v
}

/// Skips whitespace and `#` comments, returning the next offset.
fn skip_trivia(cs: &Vec<char>, i: usize) -> (j: usize)
    requires
        i <= cs@.len(),
    ensures
        i <= j <= cs@.len(),
        j == spec_trivia_end(cs@, i as nat),
{
    let len = cs.len();
    let mut p = i;
    loop
        invariant
            i <= p <= len,
            len == cs@.len(),
            spec_trivia_end(cs@, i as nat) == spec_trivia_end(cs@, p as nat),
        decreases len - p,
    {
        if p == len {
            return p;
        }
        let ghost p_entry = p;
        let c = cs[p];
        if is_trivia_space(c) {
            p += 1;
        } else if c == '#' {
            p += 1;
            while p < len && cs[p] != '\r' && cs[p] != '\n'
                invariant
                    i <= p_entry < p <= len,
                    len == cs@.len(),
                    spec_line_end(cs@, (p_entry + 1) as nat) == spec_line_end(cs@, p as nat),
                decreases len - p,
            {
                p += 1;
            }
            proof {
                assert(spec_line_end(cs@, p as nat) == p);
                assert(spec_trivia_end(cs@, p_entry as nat) == spec_trivia_end(cs@, p as nat));
            }
        } else {
            return p;
        }
    }
}

/// Parses an identifier starting exactly at `i`. On success the
/// identifier's text is the consumed character range.
fn parse_identifier(s: &str, cs: &Vec<char>, i: usize) -> (r: Result<(Identifier, usize), usize>)
    requires
        cs@ == s@,
        i <= cs@.len(),
    ensures
        match r {
            Ok(p) => {
                &&& i < p.1 <= cs@.len()
                &&& spec_parse_identifier(cs@, i as nat) == Some((p.0@, p.1 as nat))
                &&& p.0@ == s@.subrange(i as int, p.1 as int)
                &&& p.0.span == (Span { start: i, end: p.1 })
            },
            Err(e) => e == i && spec_parse_identifier(cs@, i as nat) is None,
        },
{
    let len = cs.len();
    if i == len || !is_identifier_start(cs[i]) {
        return Err(i);
    }
    let mut j = i + 1;
    while j < len && is_identifier_continue(cs[j])
        invariant
            i < j <= len,
            len == cs@.len(),
            cs@ == s@,
            spec_ident_end(cs@, (i + 1) as nat) == spec_ident_end(cs@, j as nat),
        decreases len - j,
    {
        j += 1;
    }
    proof {
        assert(spec_ident_end(cs@, j as nat) == j);
    }
    let value = s.substring_char(i, j).to_owned();
    Ok((Identifier { value, span: Span { start: i, end: j } }, j))
}

/// Whether a definition head (`identifier trivia '='`) starts at `i`,
/// after trivia.
fn looks_like_definition(s: &str, cs: &Vec<char>, i: usize) -> (r: bool)
    requires
        cs@ == s@,
        i <= cs@.len(),
    ensures
        r == spec_looks_like_definition(cs@, i as nat),
{
    let j = skip_trivia(cs, i);
    match parse_identifier(s, cs, j) {
        Ok((_, k)) => {
            let m = skip_trivia(cs, k);
            m < cs.len() && cs[m] == '='
        },
        Err(_) => false,
    }
}

/// Whether a line break stands between the two offsets.
fn has_line_break(cs: &Vec<char>, from: usize, to: usize) -> (r: bool)
    requires
        from <= to <= cs@.len(),
    ensures
        r == spec_has_line_break(cs@, from as nat, to as nat),
{
    let mut p = from;
    while p < to
        invariant
            from <= p <= to <= cs@.len(),
            forall|k: int| from <= k < p ==> cs@[k] != '\n' && cs@[k] != '\r',
        decreases to - p,
    {
        if cs[p] == '\n' || cs[p] == '\r' {
            return true;
        }
        p += 1;
    }
    false
}

/// Parses one atom: a parenthesized formula, an abstraction, or an
/// identifier. With `stop_at_definition`, the formulas of abstraction
/// bodies stop where the enclosing definition does.
fn parse_one_formula(s: &str, cs: &Vec<char>, i: usize, stop_at_definition: bool) -> (r: Result<
    (Formula, usize),
    usize,
>)
    requires
        cs@ == s@,
        i <= cs@.len(),
    ensures
        formula_result_view(r) == spec_parse_one(cs@, i as nat, stop_at_definition),
        match r {
            Ok(p) => i < p.1 <= cs@.len(),
            Err(e) => e <= cs@.len(),
        },
    decreases cs@.len() - i, 1int,
{
    let len = cs.len();
    if i == len {
        return Err(i);
    }
    let c = cs[i];
    if c == '(' {
        let inner = skip_trivia(cs, i + 1);
        match parse_formula_at(s, cs, inner, false) {
            Err(e) => Err(e),
            Ok((f, j)) => {
                let k = skip_trivia(cs, j);
                if k < len && cs[k] == ')' {
                    Ok((f, k + 1))
                } else {
                    Err(k)
                }
            },
        }
    } else if is_lambda(c) {
        match parse_abstraction(s, cs, i, stop_at_definition) {
            Err(e) => Err(e),
            Ok((a, j)) => Ok((Formula::abs(a), j)),
        }
    } else {
        match parse_identifier(s, cs, i) {
            Err(e) => Err(e),
            Ok((id, j)) => Ok((Formula::Var(id), j)),
        }
    }
}

/// Parses an abstraction starting at the lambda character at `i`. After
/// the lambda, failures are final. The desugared nested abstractions all
/// carry the span of the whole abstraction.
fn parse_abstraction(s: &str, cs: &Vec<char>, i: usize, stop_at_definition: bool) -> (r: Result<
    (Abstraction, usize),
    usize,
>)
    requires
        cs@ == s@,
        i < cs@.len(),
        spec_lambda_char(cs@[i as int]),
    ensures
        (match r {
            Ok(p) => Ok::<(SpecTerm, nat), nat>(
                (
                    SpecTerm::Abs(
                        SpecVar { name: p.0.variable@, dis: 0 },
                        Box::new(p.0.formula@),
                    ),
                    p.1 as nat,
                ),
            ),
            Err(e) => Err(e as nat),
        }) == spec_parse_abstraction(cs@, i as nat, stop_at_definition),
        match r {
            Ok(p) => i < p.1 <= cs@.len(),
            Err(e) => e <= cs@.len(),
        },
    decreases cs@.len() - i, 0int,
{
    let len = cs.len();
    let mut variables: Vec<Identifier> = Vec::new();
    let ghost entry = spec_trivia_end(cs@, (i + 1) as nat);
    let mut p = skip_trivia(cs, i + 1);
    match parse_identifier(s, cs, p) {
        Err(e) => {
            return Err(e);
        },
        Ok((id, j)) => {
            variables.push(id);
            p = skip_trivia(cs, j);
        },
    }
    let mut done = false;
    while !done
        invariant
            cs@ == s@,
            i < p <= len,
            len == cs@.len(),
            variables@.len() >= 1,
            ({
                let whole = spec_parse_var_list(cs@, entry);
                let rem = spec_parse_var_list(cs@, p as nat);
                whole.0 == variables@.map_values(|id: Identifier| id@) + rem.0 && whole.1
                    == rem.1
            }),
            done ==> spec_parse_var_list(cs@, p as nat).0.len() == 0 && spec_parse_var_list(
                cs@,
                p as nat,
            ).1 == p,
        decreases len - p, if done { 0int } else { 1int },
    {
        match parse_identifier(s, cs, p) {
            Ok((id, j)) => {
                let ghost before = variables@;
                variables.push(id);
                proof {
                    assert(before.map_values(|id: Identifier| id@).push(id@)
                        =~= variables@.map_values(|id: Identifier| id@));
                    assert(before.map_values(|id: Identifier| id@).push(id@) + spec_parse_var_list(
                        cs@,
                        spec_trivia_end(cs@, j as nat),
                    ).0 =~= before.map_values(|id: Identifier| id@) + (seq![id@]
                        + spec_parse_var_list(cs@, spec_trivia_end(cs@, j as nat)).0));
                }
                p = skip_trivia(cs, j);
            },
            Err(_) => {
                done = true;
            },
        }
    }
    if !(p < len && cs[p] == '.') {
        proof {
            assert(spec_parse_var_list(cs@, entry).1 == p);
            assert(spec_parse_var_list(cs@, entry).0.len() == variables@.len());
        }
        return Err(p);
    }
    let dot = p;
    match parse_formula_at(s, cs, dot + 1, stop_at_definition) {
        Err(e) => Err(e),
        Ok((body, j)) => {
            let ghost names = variables@.map_values(|id: Identifier| id@);
            let ghost body_view = body@;
            let span = Span { start: i, end: j };
            let mut formula = body;
            let mut k = variables.len();
            while k > 1
                invariant
                    1 <= k <= variables@.len(),
                    names == variables@.map_values(|id: Identifier| id@),
                    formula@ == spec_nest_abs(names.skip(k as int), body_view),
                decreases k,
            {
                k -= 1;
                let variable = variables[k].clone();
                formula = Formula::abs(Abstraction { variable, formula, span });
                proof {
                    assert(names.skip(k as int).drop_first() =~= names.skip(k + 1));
                }
            }
            let variable = variables[0].clone();
            proof {
                assert(names.skip(0) =~= names);
                assert(names.drop_first() =~= names.skip(1));
                assert(spec_parse_var_list(cs@, entry).0 =~= names);
            }
            Ok((Abstraction { variable, formula, span }, j))
        },
    }
}

/// Parses a formula: one or more atoms separated by trivia, folded into
/// left-associated applications. With `stop_at_definition`, the fold
/// stops in front of a `name '='` head or a line break, so that the
/// program form can read several definitions in sequence.
fn parse_formula_at(s: &str, cs: &Vec<char>, i: usize, stop_at_definition: bool) -> (r: Result<
    (Formula, usize),
    usize,
>)
    requires
        cs@ == s@,
        i <= cs@.len(),
    ensures
        formula_result_view(r) == spec_parse_formula_at(cs@, i as nat, stop_at_definition),
        match r {
            Ok(p) => i <= p.1 <= cs@.len(),
            Err(e) => e <= cs@.len(),
        },
    decreases cs@.len() - i, 2int,
{
    let len = cs.len();
    let first_start = skip_trivia(cs, i);
    let (first, mut pos) = match parse_one_formula(s, cs, first_start, stop_at_definition) {
        Err(e) => {
            return Err(e);
        },
        Ok(p) => p,
    };
    let mut acc = first;
    loop
        invariant
            cs@ == s@,
            i < pos <= len,
            len == cs@.len(),
            spec_parse_formula_at(cs@, i as nat, stop_at_definition) == Ok::<
                (SpecTerm, nat),
                nat,
            >(spec_parse_formula_rest(cs@, acc@, pos as nat, stop_at_definition)),
        decreases len - pos,
    {
        let next_start = skip_trivia(cs, pos);
        if stop_at_definition && (has_line_break(cs, pos, next_start) || looks_like_definition(
            s,
            cs,
            next_start,
        )) {
            return Ok((acc, pos));
        }
        match parse_one_formula(s, cs, next_start, stop_at_definition) {
            Err(_) => {
                return Ok((acc, pos));
            },
            Ok((right, j)) => {
                let span = Span::containing(&acc.span(), &right.span());
                acc = Formula::app(Application { left: acc, right, span });
                pos = j;
            },
        }
    }
}

fn parse_error(offset: usize) -> (d: Diagnostics)
    ensures
        d.0@.len() == 1,
        d.0@[0].severity == crate::diagnostics::DiagnosticSeverity::Error,
        d.0@[0].labels@.len() == 1,
        d.0@[0].labels@[0].location == (Span { start: offset, end: offset }),
{
    let message: String = "Unexpected input".to_owned();
    let d = Diagnostic::new(crate::diagnostics::DiagnosticSeverity::Error, message).with_label(
        Label::new(Span { start: offset, end: offset }),
    );
    let mut list: Vec<Diagnostic> = Vec::new();
    list.push(d);
    Diagnostics(list)
}

/// Parses a single formula spanning the whole input. Exactly the inputs
/// that [`spec_formula_of_source`] accepts parse, to exactly that term;
/// a failing parse carries one error diagnostic labelled at the earliest
/// offset it could not get past.
pub fn parse_formula(input: &str) -> (r: DiagnosticsResult<Formula>)
    ensures
        match r {
            Ok(w) => spec_formula_of_source(input@) == Ok::<SpecTerm, nat>(w.value@)
                && w.diagnostics.0@.len() == 0,
            Err(d) => {
                &&& spec_formula_of_source(input@) matches Err(off) && d.0@[0].labels@[0].location
                    == (Span { start: off as usize, end: off as usize })
                &&& d.0@.len() == 1
                &&& d.0@[0].severity == crate::diagnostics::DiagnosticSeverity::Error
                &&& d.0@[0].labels@.len() == 1
            },
        },
{
    let cs = str_chars(input);
    match parse_formula_at(input, &cs, 0, false) {
        Err(e) => Err(parse_error(e)),
        Ok((f, pos)) => {
            let j = skip_trivia(&cs, pos);
            if j != cs.len() {
                Err(parse_error(j))
            } else {
                Ok(WithDiagnostics::with_empty_diagnostics(f))
            }
        },
    }
}

/// Parses a program: zero or more `name '=' formula` definitions
/// followed by a single formula, spanning the whole input. Exactly the
/// inputs that [`spec_program_of_source`] accepts parse, to exactly
/// those definitions and that formula; a failing parse carries one error
/// diagnostic labelled at the earliest offset it could not get past.
pub fn parse_program(input: &str) -> (r: DiagnosticsResult<Program>)
    ensures
        match r {
            Ok(w) => spec_program_of_source(input@) == Ok::<
                (Seq<(Seq<char>, SpecTerm)>, SpecTerm),
                nat,
            >(crate::syntax::view_of_program(w.value)) && w.diagnostics.0@.len() == 0,
            Err(d) => {
                &&& spec_program_of_source(input@) matches Err(off)
                    && d.0@[0].labels@[0].location == (
                Span { start: off as usize, end: off as usize })
                &&& d.0@.len() == 1
                &&& d.0@[0].severity == crate::diagnostics::DiagnosticSeverity::Error
                &&& d.0@[0].labels@.len() == 1
            },
        },
{
    let cs = str_chars(input);
    let len = cs.len();
    let mut definitions: Vec<NominalDefinition> = Vec::new();
    let mut pos: usize = 0;
    while looks_like_definition(input, &cs, pos)
        invariant
            cs@ == input@,
            pos <= len,
            len == cs@.len(),
            spec_parse_defs(cs@, 0) == (match spec_parse_defs(cs@, pos as nat) {
                Ok(rest) => Ok::<(Seq<(Seq<char>, SpecTerm)>, nat), nat>(
                    (
                        definitions@.map_values(|d: NominalDefinition| (d.name@, d.formula@))
                            + rest.0,
                        rest.1,
                    ),
                ),
                Err(e) => Err(e),
            }),
        decreases len - pos,
    {
        let ghost defs_before = definitions@.map_values(
            |d: NominalDefinition| (d.name@, d.formula@),
        );
        let j = skip_trivia(&cs, pos);
        let (name, k) = match parse_identifier(input, &cs, j) {
            Ok(p) => p,
            Err(e) => {
                return Err(parse_error(e));
            },
        };
        let m = skip_trivia(&cs, k);
        if !(m < len && cs[m] == '=') {
            return Err(parse_error(m));
        }
        match parse_formula_at(input, &cs, m + 1, true) {
            Err(e) => {
                return Err(parse_error(e));
            },
            Ok((formula, end)) => {
                if !(pos < end) {
                    return Err(parse_error(end));
                }
                let span = Span { start: j, end };
                let ghost def_view = (name@, formula@);
                definitions.push(NominalDefinition { name, formula, span });
                proof {
                    assert(definitions@.map_values(
                        |d: NominalDefinition| (d.name@, d.formula@),
                    ) =~= defs_before.push(def_view));
                    assert(forall|rest0: Seq<(Seq<char>, SpecTerm)>|
                        defs_before.push(def_view) + rest0 =~= defs_before + (seq![def_view]
                            + rest0));
                }
                pos = end;
            },
        }
    }
    proof {
        assert(spec_parse_defs(cs@, pos as nat) == Ok::<(Seq<(Seq<char>, SpecTerm)>, nat), nat>(
            (Seq::empty(), pos as nat),
        ));
        assert(definitions@.map_values(|d: NominalDefinition| (d.name@, d.formula@))
            + Seq::<(Seq<char>, SpecTerm)>::empty() =~= definitions@.map_values(
            |d: NominalDefinition| (d.name@, d.formula@),
        ));
    }
    match parse_formula_at(input, &cs, pos, false) {
        Err(e) => Err(parse_error(e)),
        Ok((formula, fend)) => {
            let j = skip_trivia(&cs, fend);
            if j != len {
                Err(parse_error(j))
            } else {
                let program = Program { definitions, formula, span: Span { start: 0, end: len } };
                proof {
                    assert(crate::syntax::view_of_program(program)
                        == (program.definitions@.map_values(
                        |d: NominalDefinition| (d.name@, d.formula@),
                    ), program.formula@));
                }
                Ok(WithDiagnostics::with_empty_diagnostics(program))
            }
        },
    }
}

} // verus!

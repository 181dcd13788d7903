//! Lowering a parsed formula to its name-free equivalent: bound names
//! become de Bruijn indices, free names that are decimal numbers become
//! Church numerals, other free names become constants. Lowering also
//! warns about unnecessary abstractions of the shape `λx. M x`.

use vstd::prelude::*;

use crate::diagnostics::{Diagnostic, DiagnosticSeverity, Diagnostics, Label, WithDiagnostics};
use crate::evaluation::church_numerals::{dec_val, is_dec_name, parse_decimal};
use crate::namefree::{abs, app, constant, var, Expression, SpecExpr};
use crate::syntax::{Formula, Identifier, Span};

verus! {

/// The de Bruijn index of a name in an environment of enclosing binder
/// names: one for the innermost binder, counting outward.
pub open spec fn spec_db_index(env: Seq<Seq<char>>, name: Seq<char>) -> Option<nat>
    decreases env.len(),
{
    if env.len() == 0 {
        None
    } else if env.last() == name {
        Some(1 as nat)
    } else {
        match spec_db_index(env.drop_last(), name) {
            Some(i) => Some((i + 1) as nat),
            None => None,
        }
    }
}

/// The body of the name-free Church numeral: `2` applied `n` times to
/// `1`.
pub open spec fn spec_nf_numeral_body(n: nat) -> SpecExpr
    decreases n,
{
    if n == 0 {
        SpecExpr::Var(1)
    } else {
        SpecExpr::App(
            Box::new(SpecExpr::Var(2)),
            Box::new(spec_nf_numeral_body((n - 1) as nat)),
        )
    }
}

/// The name-free Church numeral for `n`.
pub open spec fn spec_nf_numeral(n: nat) -> SpecExpr {
    SpecExpr::Abs(Box::new(SpecExpr::Abs(Box::new(spec_nf_numeral_body(n)))))
}

/// What a free or bound name lowers to: its de Bruijn index if some
/// enclosing binder binds it; else its Church numeral if it is a decimal
/// number; else a constant.
pub open spec fn spec_lower_name(name: Seq<char>, env: Seq<Seq<char>>) -> SpecExpr {
    match spec_db_index(env, name) {
        Some(i) => SpecExpr::Var(i),
        None => if is_dec_name(name) && dec_val(name) <= u64::MAX {
            spec_nf_numeral(dec_val(name))
        } else {
            SpecExpr::Const(name)
        },
    }
}

/// What a formula lowers to under an environment of enclosing binder
/// names.
pub open spec fn spec_lower(f: Formula, env: Seq<Seq<char>>) -> SpecExpr
    decreases f,
{
    match f {
        Formula::Var(id) => spec_lower_name(id@, env),
        Formula::Abs(a) => SpecExpr::Abs(
            Box::new(spec_lower(a.formula, env.push(a.variable@))),
        ),
        Formula::App(a) => SpecExpr::App(
            Box::new(spec_lower(a.left, env)),
            Box::new(spec_lower(a.right, env)),
        ),
    }
}

/// Whether the name occurs free in the formula: at a variable written
/// exactly so, under no abstraction that rebinds it.
pub open spec fn spec_formula_has_free(f: Formula, name: Seq<char>) -> bool
    decreases f,
{
    match f {
        Formula::Var(v) => v@ == name,
        Formula::Abs(a) => a.variable@ != name && spec_formula_has_free(a.formula, name),
        Formula::App(a) => spec_formula_has_free(a.left, name) || spec_formula_has_free(
            a.right,
            name,
        ),
    }
}

/// The site this node itself warns about, if any: a binder `λx. M x`
/// whose body applies something to exactly the bound name, with `x` not
/// occurring free in `M`, so that the abstraction is unnecessary. The
/// site carries the binder's span and the applied occurrence's span.
pub open spec fn spec_immediate_eta_site(f: Formula) -> Seq<(Span, Span)> {
    match f {
        Formula::Abs(a) => match a.formula {
            Formula::App(ap) => match ap.right {
                Formula::Var(v) => if v@ == a.variable@ && !spec_formula_has_free(
                    ap.left,
                    a.variable@,
                ) {
                    seq![(a.variable.span, v.span)]
                } else {
                    Seq::empty()
                },
                _ => Seq::empty(),
            },
            _ => Seq::empty(),
        },
        _ => Seq::empty(),
    }
}

fn formula_has_free(f: &Formula, name: &Identifier) -> (r: bool)
    ensures
        r == spec_formula_has_free(*f, name@),
    decreases *f,
{
    match f {
        Formula::Var(v) => v.value == name.value,
        Formula::Abs(a) => a.variable.value != name.value && formula_has_free(&a.formula, name),
        Formula::App(a) => formula_has_free(&a.left, name) || formula_has_free(&a.right, name),
    }
}

/// All the warning sites of a formula, in the order the traversal
/// visits them.
pub open spec fn spec_eta_sites(f: Formula) -> Seq<(Span, Span)>
    decreases f,
{
    match f {
        Formula::Var(_) => Seq::empty(),
        Formula::Abs(a) => spec_immediate_eta_site(f) + spec_eta_sites(a.formula),
        Formula::App(a) => spec_eta_sites(a.left) + spec_eta_sites(a.right),
    }
}

/// What an unnecessary-abstraction warning looks like.
pub open spec fn is_eta_warning(d: Diagnostic, binder: Span, occurrence: Span) -> bool {
    &&& d.severity == DiagnosticSeverity::Warning
    &&& d.message@ == "unnecessary abstraction"@
    &&& d.labels@.len() == 2
    &&& d.labels@[0].location == binder
    &&& d.labels@[0].message is None
    &&& d.labels@[1].location == occurrence
    &&& d.labels@[1].message matches Some(m) && m@
        == "help: remove the abstraction and this application"@
}

/// A list of warnings, one for each site in order.
pub open spec fn warnings_for_sites(ds: Seq<Diagnostic>, sites: Seq<(Span, Span)>) -> bool {
    ds.len() == sites.len() && forall|k: int|
        0 <= k < sites.len() ==> is_eta_warning(#[trigger] ds[k], sites[k].0, sites[k].1)
}

/// Two consecutive runs of warnings compose.
proof fn lemma_warning_chain(
    old_len: int,
    d1: Seq<Diagnostic>,
    d2: Seq<Diagnostic>,
    s1: Seq<(Span, Span)>,
    s2: Seq<(Span, Span)>,
)
    requires
        0 <= old_len <= d1.len() <= d2.len(),
        warnings_for_sites(d1.skip(old_len), s1),
        d2.take(d1.len() as int) == d1,
        warnings_for_sites(d2.skip(d1.len() as int), s2),
    ensures
        warnings_for_sites(d2.skip(old_len), s1 + s2),
        d2.take(old_len) == d1.take(old_len),
{
    assert(d1.len() == old_len + s1.len());
    assert(d2.len() == d1.len() + s2.len());
    assert forall|k: int| 0 <= k < (s1 + s2).len() implies is_eta_warning(
        #[trigger] d2.skip(old_len)[k],
        (s1 + s2)[k].0,
        (s1 + s2)[k].1,
    ) by {
        if k < s1.len() {
            assert(d2.skip(old_len)[k] == d2[old_len + k]);
            assert(d2.take(d1.len() as int)[old_len + k] == d2[old_len + k]);
            assert(d1.skip(old_len)[k] == d1[old_len + k]);
            assert((s1 + s2)[k] == s1[k]);
        } else {
            assert(d2.skip(old_len)[k] == d2[old_len + k]);
            assert(d2.skip(d1.len() as int)[k - s1.len()] == d2[old_len + k]);
            assert((s1 + s2)[k] == s2[k - s1.len()]);
        }
    }
    assert(d2.skip(old_len).len() == (s1 + s2).len());
    assert(d2.take(old_len) =~= d1.take(old_len));
}

struct Context {
    variables: Vec<Identifier>,
    diagnostics: Vec<Diagnostic>,
}

spec fn env_names(vs: Seq<Identifier>) -> Seq<Seq<char>> {
    vs.map_values(|id: Identifier| id@)
}

fn db_index(variables: &Vec<Identifier>, name: &Identifier) -> (r: Option<usize>)
    ensures
        match r {
            Some(i) => spec_db_index(env_names(variables@), name@) == Some(i as nat),
            None => spec_db_index(env_names(variables@), name@) is None,
        },
{
    let len = variables.len();
    let mut k = len;
    proof {
        assert(env_names(variables@.take(len as int)) =~= env_names(variables@));
    }
    while k > 0
        invariant
            k <= len,
            len == variables@.len(),
            spec_db_index(env_names(variables@), name@) == (match spec_db_index(
                env_names(variables@.take(k as int)),
                name@,
            ) {
                Some(i) => Some((i + (len - k)) as nat),
                None => None::<nat>,
            }),
        decreases k,
    {
        let ghost env_k = env_names(variables@.take(k as int));
        proof {
            assert(env_k.len() == k);
            assert(env_k.last() == variables@[k - 1]@);
            assert(env_k.drop_last() =~= env_names(variables@.take(k - 1)));
        }
        if variables[k - 1].value == name.value {
            return Some(len - (k - 1));
        }
        k -= 1;
    }
    proof {
        assert(env_names(variables@.take(0)).len() == 0);
    }
    None
}

/// Builds the name-free Church numeral for `n`.
fn nf_church_numeral(n: u64) -> (e: Expression)
    ensures
        e@ == spec_nf_numeral(n as nat),
{
    let mut body = var(1);
    let mut i: u64 = 0;
    while i < n
        invariant
            i <= n,
            body@ == spec_nf_numeral_body(i as nat),
        decreases n - i,
    {
        body = app(var(2), body);
        i += 1;
    }
    abs(abs(body))
}

fn lower_var(variable: &Identifier, context: &mut Context) -> (e: Expression)
    ensures
        final(context).variables@ == old(context).variables@,
        final(context).diagnostics@ == old(context).diagnostics@,
        e@ == spec_lower_name(variable@, env_names(old(context).variables@)),
{
    match db_index(&context.variables, variable) {
        Some(i) => var(i),
        None => {
            match parse_decimal(&variable.value) {
                Some(n) => nf_church_numeral(n),
                None => constant(variable.value.as_str()),
            }
        },
    }
}

fn analyze(formula: &Formula, context: &mut Context)
    ensures
        final(context).variables@ == old(context).variables@,
        final(context).diagnostics@.len() == old(context).diagnostics@.len()
            + spec_immediate_eta_site(*formula).len(),
        final(context).diagnostics@.take(old(context).diagnostics@.len() as int) == old(
            context,
        ).diagnostics@,
        warnings_for_sites(
            final(context).diagnostics@.skip(old(context).diagnostics@.len() as int),
            spec_immediate_eta_site(*formula),
        ),
{
    let ghost before = context.diagnostics@;
    if let Formula::Abs(a) = formula {
        if let Formula::App(ap) = &a.formula {
            if let Formula::Var(v) = &ap.right {
                if v.value == a.variable.value && !formula_has_free(&ap.left, &a.variable) {
                    let message: String = "unnecessary abstraction".to_owned();
                    let help: String =
                        "help: remove the abstraction and this application".to_owned();
                    let d = Diagnostic::new(DiagnosticSeverity::Warning, message).with_label(
                        Label::new(a.variable.span),
                    ).with_label(Label::new(v.span).with_message(help));
                    context.diagnostics.push(d);
                    proof {
                        assert(context.diagnostics@.take(before.len() as int) =~= before);
                        assert(context.diagnostics@.skip(before.len() as int) =~= seq![
                            context.diagnostics@[before.len() as int],
                        ]);
                    }
                    return ;
                }
            }
        }
    }
    proof {
        assert(context.diagnostics@.take(before.len() as int) =~= before);
        assert(context.diagnostics@.skip(before.len() as int) =~= Seq::<Diagnostic>::empty());
    }
}

fn lower(formula: &Formula, context: &mut Context) -> (e: Expression)
    ensures
        final(context).variables@ == old(context).variables@,
        e@ == spec_lower(*formula, env_names(old(context).variables@)),
        final(context).diagnostics@.len() == old(context).diagnostics@.len() + spec_eta_sites(
            *formula,
        ).len(),
        final(context).diagnostics@.take(old(context).diagnostics@.len() as int) == old(
            context,
        ).diagnostics@,
        warnings_for_sites(
            final(context).diagnostics@.skip(old(context).diagnostics@.len() as int),
            spec_eta_sites(*formula),
        ),
    decreases *formula,
{
    let ghost base = context.diagnostics@;
    analyze(formula, context);
    let ghost d1 = context.diagnostics@;
    match formula {
        Formula::Abs(a) => {
            context.variables.push(a.variable.clone());
            proof {
                assert(env_names(context.variables@) =~= env_names(old(context).variables@).push(
                    a.variable@,
                ));
            }
            let body = lower(&a.formula, context);
            context.variables.pop();
            proof {
                assert(context.variables@ =~= old(context).variables@);
                lemma_warning_chain(
                    base.len() as int,
                    d1,
                    context.diagnostics@,
                    spec_immediate_eta_site(*formula),
                    spec_eta_sites(a.formula),
                );
                assert(context.diagnostics@.take(base.len() as int) =~= base);
            }
            abs(body)
        },
        Formula::App(a) => {
            proof {
                assert(spec_immediate_eta_site(*formula).len() == 0);
                assert(d1 =~= base);
            }
            let left = lower(&a.left, context);
            let ghost d2 = context.diagnostics@;
            let right = lower(&a.right, context);
            proof {
                lemma_warning_chain(
                    base.len() as int,
                    d2,
                    context.diagnostics@,
                    spec_eta_sites(a.left),
                    spec_eta_sites(a.right),
                );
                assert(context.diagnostics@.take(base.len() as int) =~= base);
            }
            app(left, right)
        },
        Formula::Var(v) => {
            proof {
                assert(spec_immediate_eta_site(*formula).len() == 0);
                assert(d1 =~= base);
                assert(spec_eta_sites(*formula).len() == 0);
            }
            lower_var(v, context)
        },
    }
}

/// Lowers a formula to its name-free equivalent, collecting a warning
/// for each unnecessary abstraction the analysis finds.
pub fn lower_formula(formula: &Formula) -> (r: WithDiagnostics<Expression>)
    ensures
        r.value@ == spec_lower(*formula, Seq::empty()),
        warnings_for_sites(r.diagnostics.0@, spec_eta_sites(*formula)),
{
    let mut context = Context { variables: Vec::new(), diagnostics: Vec::new() };
    proof {
        assert(env_names(context.variables@) =~= Seq::<Seq<char>>::empty());
    }
    let value = lower(formula, &mut context);
    proof {
        assert(context.diagnostics@.skip(0) =~= context.diagnostics@);
    }
    WithDiagnostics { value, diagnostics: Diagnostics(context.diagnostics) }
}

} // verus!

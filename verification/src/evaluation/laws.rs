//! The general laws of the engine, stated and proved once and for all:
//! encoding round trips, shadowing of definitions, the guarantees of the
//! alpha-renamer, and what substitution does to free variables.

use vstd::prelude::*;

use crate::evaluation::church_booleans::{boolean_a, boolean_b, spec_boolean, spec_decode_boolean};
use crate::evaluation::church_numerals::{
    numeral_f, numeral_x, spec_count_apps, spec_decode_numeral, spec_numeral, spec_numeral_body,
};
use crate::evaluation::church_encoding::spec_expand;
use crate::evaluation::encoding::{option_just, option_nothing, result_err, result_ok, Decode,
    Encode};
use crate::evaluation::model::{free_vars, SpecTerm, SpecVar};
use crate::evaluation::options::{spec_resolve, SpecDef};
use crate::evaluation::tuple::{tuple_selector, Tuple};
use crate::evaluation::ChurchNumeral;

verus! {

proof fn lemma_distinct_numeral_vars()
    ensures
        numeral_f() != numeral_x(),
{
    reveal_strlit("f");
    reveal_strlit("x");
    assert(numeral_f().name[0] == 'f');
    assert(numeral_x().name[0] == 'x');
}

proof fn lemma_count_numeral_body(n: nat)
    ensures
        spec_count_apps(spec_numeral_body(n), numeral_f(), numeral_x()) == Some(n),
    decreases n,
{
    lemma_distinct_numeral_vars();
    if n > 0 {
        lemma_count_numeral_body((n - 1) as nat);
    }
}

/// Decoding the Church numeral of `n` gives back `n`.
pub proof fn lemma_numeral_roundtrip(n: u64)
    ensures
        <ChurchNumeral as Decode>::spec_decoded(
            (ChurchNumeral(n)).spec_encoded(),
        ) == Some(ChurchNumeral(n)),
{
    lemma_count_numeral_body(n as nat);
    assert(spec_decode_numeral(spec_numeral(n as nat)) == Some(n as nat));
}

/// Decoding the Church boolean of `x` gives back `x`.
pub proof fn lemma_boolean_roundtrip(x: bool)
    ensures
        <bool as Decode>::spec_decoded((x).spec_encoded()) == Some(x),
{
    reveal_strlit("a");
    reveal_strlit("b");
    assert(boolean_a().name[0] == 'a');
    assert(boolean_b().name[0] == 'b');
    assert(spec_decode_boolean(spec_boolean(x)) == Some(x));
}

/// Decoding the encoding of an optional gives it back, whenever the
/// payload's own encoding decodes back to it.
pub proof fn lemma_option_roundtrip<T: Encode + Decode>(value: Option<T>)
    requires
        value matches Some(x) ==> T::spec_decoded(x.spec_encoded()) == Some(x),
    ensures
        <Option<T> as Decode>::spec_decoded((value).spec_encoded()) == Some(value),
{
    reveal_strlit("j");
    reveal_strlit("n");
    assert(option_just().name[0] == 'j');
    assert(option_nothing().name[0] == 'n');
    assert(option_just() != option_nothing());
}

/// Decoding the encoding of a result gives it back, whenever the
/// payloads' own encodings decode back to them.
pub proof fn lemma_result_roundtrip<T: Encode + Decode, E: Encode + Decode>(value: Result<T, E>)
    requires
        value matches Ok(x) ==> T::spec_decoded(x.spec_encoded()) == Some(x),
        value matches Err(e) ==> E::spec_decoded(e.spec_encoded()) == Some(e),
    ensures
        <Result<T, E> as Decode>::spec_decoded((value).spec_encoded()) == Some(value),
{
    reveal_strlit("o");
    reveal_strlit("e");
    assert(result_ok().name[0] == 'o');
    assert(result_err().name[0] == 'e');
    assert(result_ok() != result_err());
}

/// Decoding the encoding of a pair gives it back, whenever the
/// components' own encodings decode back to them and are closed terms.
pub proof fn lemma_tuple_roundtrip<T: Encode + Decode>(a: T, b: T)
    requires
        T::spec_decoded(a.spec_encoded()) == Some(a),
        T::spec_decoded(b.spec_encoded()) == Some(b),
        free_vars(a.spec_encoded()) == Set::<SpecVar>::empty(),
        free_vars(b.spec_encoded()) == Set::<SpecVar>::empty(),
    ensures
        <Tuple<(T, T)> as Decode>::spec_decoded(
            (Tuple((a, b))).spec_encoded(),
        ) matches Some(t) && t.0.0 == a && t.0.1 == b,
{
    let ae = a.spec_encoded();
    let be = b.spec_encoded();
    assert(!Set::<SpecVar>::empty().contains(tuple_selector()));
    assert(!free_vars(ae).contains(tuple_selector()));
    assert(!free_vars(be).contains(tuple_selector()));
    let encoded = (Tuple((a, b))).spec_encoded();
    assert(encoded == SpecTerm::Abs(
        tuple_selector(),
        Box::new(
            SpecTerm::App(
                Box::new(
                    SpecTerm::App(Box::new(SpecTerm::Var(tuple_selector())), Box::new(ae)),
                ),
                Box::new(be),
            ),
        ),
    ));
}

/// Church numerals are closed terms.
pub proof fn lemma_numeral_closed(n: nat)
    ensures
        free_vars(spec_numeral(n)) == Set::<SpecVar>::empty(),
{
    lemma_numeral_body_free(n);
    lemma_distinct_numeral_vars();
    let inner = free_vars(spec_numeral_body(n));
    let inner_abs = SpecTerm::Abs(numeral_x(), Box::new(spec_numeral_body(n)));
    assert(spec_numeral(n) == SpecTerm::Abs(numeral_f(), Box::new(inner_abs)));
    assert(free_vars(inner_abs) == inner.remove(numeral_x()));
    assert(free_vars(spec_numeral(n)) == inner.remove(numeral_x()).remove(numeral_f()));
    assert forall|v: SpecVar| !free_vars(spec_numeral(n)).contains(v) by {
        if inner.remove(numeral_x()).remove(numeral_f()).contains(v) {
            assert(inner.contains(v) && v != numeral_x() && v != numeral_f());
        }
    }
    assert(free_vars(spec_numeral(n)) =~= Set::<SpecVar>::empty());
}

proof fn lemma_numeral_body_free(n: nat)
    ensures
        forall|v: SpecVar|
            free_vars(spec_numeral_body(n)).contains(v) ==> v == numeral_f() || v
                == numeral_x(),
    decreases n,
{
    if n > 0 {
        lemma_numeral_body_free((n - 1) as nat);
        assert(spec_numeral_body(n) == SpecTerm::App(
            Box::new(SpecTerm::Var(numeral_f())),
            Box::new(spec_numeral_body((n - 1) as nat)),
        ));
        let tail = spec_numeral_body((n - 1) as nat);
        assert(free_vars(
            SpecTerm::App(Box::new(SpecTerm::Var(numeral_f())), Box::new(tail)),
        ) == free_vars(SpecTerm::Var(numeral_f())).union(free_vars(tail)));
        assert(free_vars(SpecTerm::Var(numeral_f())) == Set::<SpecVar>::empty().insert(
            numeral_f(),
        ));
    }
}

/// Shadowing beats definition: expansion consults the registry only at
/// free occurrences, so two registries that agree on every variable not
/// bound by an enclosing binder drive expansion identically. In
/// particular, a definition for a name that an enclosing abstraction
/// binds never fires under that abstraction.
pub proof fn lemma_expand_ignores_shadowed_definitions(
    t: SpecTerm,
    defs1: Seq<SpecDef>,
    defs2: Seq<SpecDef>,
    bound: Set<SpecVar>,
)
    requires
        forall|v: SpecVar|
            !bound.contains(v) ==> spec_resolve(defs1, v) == spec_resolve(defs2, v),
    ensures
        spec_expand(t, defs1, bound) == spec_expand(t, defs2, bound),
    decreases t,
{
    match t {
        SpecTerm::Var(_) => {},
        SpecTerm::Abs(v, body) => {
            lemma_expand_ignores_shadowed_definitions(*body, defs1, defs2, bound.insert(v));
        },
        SpecTerm::App(l, r) => {
            lemma_expand_ignores_shadowed_definitions(*l, defs1, defs2, bound);
            lemma_expand_ignores_shadowed_definitions(*r, defs1, defs2, bound);
        },
    }
}

/// Free-variable sets are finite.
pub proof fn lemma_free_vars_finite(t: SpecTerm)
    ensures
        free_vars(t).finite(),
    decreases t,
{
    match t {
        SpecTerm::Var(_) => {},
        SpecTerm::Abs(v, body) => {
            lemma_free_vars_finite(*body);
        },
        SpecTerm::App(l, r) => {
            lemma_free_vars_finite(*l);
            lemma_free_vars_finite(*r);
            vstd::set_lib::lemma_set_union_finite_iff(free_vars(*l), free_vars(*r));
        },
    }
}

/// Every finite set of variables has a strict bound on its
/// disambiguators.
proof fn lemma_dis_bound(s: Set<SpecVar>) -> (b: nat)
    requires
        s.finite(),
    ensures
        forall|v: SpecVar| s.contains(v) ==> v.dis < b,
    decreases s.len(),
{
    if s.len() == 0 {
        assert forall|v: SpecVar| s.contains(v) implies v.dis < 0 by {
            assert(s.remove(v).len() + 1 == s.len());
        }
        0
    } else {
        let v = s.choose();
        assert(s.contains(v));
        let sub = s.remove(v);
        let b0 = lemma_dis_bound(sub);
        let b = if v.dis + 1 > b0 {
            v.dis + 1
        } else {
            b0
        };
        assert forall|w: SpecVar| s.contains(w) implies w.dis < b by {
            if w != v {
                assert(sub.contains(w));
            }
        }
        b
    }
}

proof fn lemma_ok_dis_exists(v: SpecVar, avoid: Set<SpecVar>, frees: Set<SpecVar>) -> (d: nat)
    requires
        avoid.finite(),
        frees.finite(),
    ensures
        crate::evaluation::rename_bound::fresh_dis_ok(v, avoid, frees, d),
{
    let b1 = lemma_dis_bound(avoid);
    let b2 = lemma_dis_bound(frees);
    let mut d: nat = 1;
    if b1 > d {
        d = b1;
    }
    if b2 > d {
        d = b2;
    }
    if v.dis + 1 > d {
        d = v.dis + 1;
    }
    assert(!avoid.contains(SpecVar { name: v.name, dis: d }));
    assert(!frees.contains(SpecVar { name: v.name, dis: d }));
    d
}

proof fn lemma_min_ok_exists(v: SpecVar, avoid: Set<SpecVar>, frees: Set<SpecVar>, d: nat)
    requires
        crate::evaluation::rename_bound::fresh_dis_ok(v, avoid, frees, d),
    ensures
        exists|m: nat|
            crate::evaluation::rename_bound::fresh_dis_ok(v, avoid, frees, m) && (forall|e: nat|
                e < m ==> !crate::evaluation::rename_bound::fresh_dis_ok(v, avoid, frees, e)),
    decreases d,
{
    if forall|e: nat| e < d ==> !crate::evaluation::rename_bound::fresh_dis_ok(v, avoid, frees, e) {
        assert(crate::evaluation::rename_bound::fresh_dis_ok(v, avoid, frees, d) && (forall|
            e: nat,
        |
            e < d ==> !crate::evaluation::rename_bound::fresh_dis_ok(v, avoid, frees, e)));
    } else {
        let e = choose|e: nat|
            e < d && crate::evaluation::rename_bound::fresh_dis_ok(v, avoid, frees, e);
        lemma_min_ok_exists(v, avoid, frees, e);
    }
}

/// With finite avoid- and free-sets, the smallest fresh disambiguator is
/// itself acceptable: positive, different from the original, not in the
/// avoid-set, and not free in the body.
pub proof fn lemma_fresh_dis_is_ok(v: SpecVar, avoid: Set<SpecVar>, frees: Set<SpecVar>)
    requires
        avoid.finite(),
        frees.finite(),
    ensures
        crate::evaluation::rename_bound::fresh_dis_ok(
            v,
            avoid,
            frees,
            crate::evaluation::rename_bound::fresh_dis(v, avoid, frees),
        ),
{
    let d = lemma_ok_dis_exists(v, avoid, frees);
    lemma_min_ok_exists(v, avoid, frees, d);
}

/// Whether no binder of `t` lies in `avoid`.
pub open spec fn binders_avoid(t: SpecTerm, avoid: Set<SpecVar>) -> bool
    decreases t,
{
    match t {
        SpecTerm::Var(_) => true,
        SpecTerm::Abs(v, body) => !avoid.contains(v) && binders_avoid(*body, avoid),
        SpecTerm::App(l, r) => binders_avoid(*l, avoid) && binders_avoid(*r, avoid),
    }
}

/// The alpha-renamer does what it promises: every binder of the renamed
/// term avoids the avoid-set.
pub proof fn lemma_rename_bound_binders(t: SpecTerm, avoid: Set<SpecVar>)
    requires
        avoid.finite(),
    ensures
        binders_avoid(crate::evaluation::rename_bound::spec_rename_bound(t, avoid).1, avoid),
    decreases crate::evaluation::model::term_size(t),
{
    match t {
        SpecTerm::Var(_) => {},
        SpecTerm::Abs(v, body) => {
            if avoid.contains(v) {
                lemma_free_vars_finite(*body);
                lemma_fresh_dis_is_ok(v, avoid, free_vars(*body));
                let nv = SpecVar {
                    name: v.name,
                    dis: crate::evaluation::rename_bound::fresh_dis(v, avoid, free_vars(*body)),
                };
                crate::evaluation::model::lemma_rename_free_size(v, nv, *body);
                lemma_rename_bound_binders(
                    crate::evaluation::model::rename_free(v, nv, *body),
                    avoid,
                );
            } else {
                lemma_rename_bound_binders(*body, avoid);
            }
        },
        SpecTerm::App(l, r) => {
            lemma_rename_bound_binders(*l, avoid);
            lemma_rename_bound_binders(*r, avoid);
        },
    }
}

/// Renaming a term whose binders already avoid the avoid-set changes
/// nothing: the alpha-renamer is idempotent.
pub proof fn lemma_rename_bound_idempotent(t: SpecTerm, avoid: Set<SpecVar>)
    requires
        binders_avoid(t, avoid),
    ensures
        crate::evaluation::rename_bound::spec_rename_bound(t, avoid) == (false, t),
    decreases t,
{
    match t {
        SpecTerm::Var(_) => {},
        SpecTerm::Abs(v, body) => {
            lemma_rename_bound_idempotent(*body, avoid);
        },
        SpecTerm::App(l, r) => {
            lemma_rename_bound_idempotent(*l, avoid);
            lemma_rename_bound_idempotent(*r, avoid);
        },
    }
}

/// Substituting a variable that does not occur free changes nothing.
pub proof fn lemma_subst_absent(needle: SpecVar, rep: SpecTerm, t: SpecTerm)
    requires
        !free_vars(t).contains(needle),
    ensures
        crate::evaluation::model::subst(needle, rep, t) == t,
    decreases t,
{
    match t {
        SpecTerm::Var(v) => {
            assert(free_vars(t).contains(v));
        },
        SpecTerm::Abs(v, body) => {
            if v != needle {
                assert(!free_vars(*body).contains(needle)) by {
                    if free_vars(*body).contains(needle) {
                        assert(free_vars(t).contains(needle));
                    }
                }
                lemma_subst_absent(needle, rep, *body);
            }
        },
        SpecTerm::App(l, r) => {
            lemma_subst_absent(needle, rep, *l);
            lemma_subst_absent(needle, rep, *r);
        },
    }
}

/// Capture-avoiding substitution does exactly what it should to free
/// variables: when no binder of the input lies among the replacement's
/// free variables — which the alpha-renamer establishes — the free
/// variables of the result are those of the input, less the substituted
/// variable, plus, where it occurred, those of the replacement. In
/// particular no free variable of the replacement is captured.
pub proof fn lemma_substitute_no_capture(needle: SpecVar, rep: SpecTerm, t: SpecTerm)
    requires
        binders_avoid(t, free_vars(rep)),
    ensures
        free_vars(crate::evaluation::model::subst(needle, rep, t)) == if free_vars(t).contains(
            needle,
        ) {
            free_vars(t).remove(needle).union(free_vars(rep))
        } else {
            free_vars(t)
        },
    decreases t,
{
    let sub = crate::evaluation::model::subst(needle, rep, t);
    match t {
        SpecTerm::Var(v) => {
            if v == needle {
                assert(free_vars(t).remove(needle).union(free_vars(rep)) =~= free_vars(rep));
            }
        },
        SpecTerm::Abs(v, body) => {
            if v == needle {
                assert(!free_vars(t).contains(needle));
            } else {
                lemma_substitute_no_capture(needle, rep, *body);
                if free_vars(*body).contains(needle) {
                    assert(free_vars(t).contains(needle));
                    assert(free_vars(sub) =~= free_vars(t).remove(needle).union(
                        free_vars(rep),
                    ));
                } else {
                    assert(!free_vars(t).contains(needle));
                }
            }
        },
        SpecTerm::App(l, r) => {
            lemma_substitute_no_capture(needle, rep, *l);
            lemma_substitute_no_capture(needle, rep, *r);
            if free_vars(t).contains(needle) {
                assert(free_vars(sub) =~= free_vars(t).remove(needle).union(free_vars(rep)));
            } else {
                assert(free_vars(sub) =~= free_vars(t));
            }
        },
    }
}

/// Whether every binder of `t` is source-written: its disambiguator is
/// zero. The parser only produces such terms; the renamer's fresh
/// binders are the only positive-disambiguator binders that ever arise.
pub open spec fn binders_source_written(t: SpecTerm) -> bool
    decreases t,
{
    match t {
        SpecTerm::Var(_) => true,
        SpecTerm::Abs(v, body) => v.dis == 0 && binders_source_written(*body),
        SpecTerm::App(l, r) => binders_source_written(*l) && binders_source_written(*r),
    }
}

proof fn lemma_rename_free_keeps_binders(o: SpecVar, n: SpecVar, t: SpecTerm)
    ensures
        binders_source_written(crate::evaluation::model::rename_free(o, n, t))
            == binders_source_written(t),
    decreases t,
{
    match t {
        SpecTerm::Var(_) => {},
        SpecTerm::Abs(v, body) => {
            if v != o {
                lemma_rename_free_keeps_binders(o, n, *body);
            }
        },
        SpecTerm::App(l, r) => {
            lemma_rename_free_keeps_binders(o, n, *l);
            lemma_rename_free_keeps_binders(o, n, *r);
        },
    }
}

/// Renaming a free variable to a name no binder captures moves exactly
/// that variable in the free-variable set.
proof fn lemma_rename_free_frees(o: SpecVar, n: SpecVar, t: SpecTerm)
    requires
        binders_avoid(t, Set::empty().insert(n)),
        o != n,
    ensures
        free_vars(crate::evaluation::model::rename_free(o, n, t)) == if free_vars(t).contains(
            o,
        ) {
            free_vars(t).remove(o).insert(n)
        } else {
            free_vars(t)
        },
    decreases t,
{
    let renamed = crate::evaluation::model::rename_free(o, n, t);
    match t {
        SpecTerm::Var(v) => {
            if v == o {
                assert(free_vars(renamed) =~= free_vars(t).remove(o).insert(n));
            }
        },
        SpecTerm::Abs(v, body) => {
            if v != o {
                lemma_rename_free_frees(o, n, *body);
                assert(v != n);
                if free_vars(*body).contains(o) {
                    assert(free_vars(t).contains(o));
                    assert(free_vars(renamed) =~= free_vars(t).remove(o).insert(n));
                } else {
                    assert(!free_vars(t).contains(o));
                }
            } else {
                assert(!free_vars(t).contains(o));
            }
        },
        SpecTerm::App(l, r) => {
            lemma_rename_free_frees(o, n, *l);
            lemma_rename_free_frees(o, n, *r);
            if free_vars(t).contains(o) {
                assert(free_vars(renamed) =~= free_vars(t).remove(o).insert(n));
            } else {
                assert(free_vars(renamed) =~= free_vars(t));
            }
        },
    }
}

/// The renamed term is alpha-equivalent to the input in as much as its
/// free variables are untouched: for a term whose binders are all
/// source-written, the alpha-renamer changes no free variable.
pub proof fn lemma_rename_bound_preserves_free_vars(t: SpecTerm, avoid: Set<SpecVar>)
    requires
        avoid.finite(),
        binders_source_written(t),
    ensures
        free_vars(crate::evaluation::rename_bound::spec_rename_bound(t, avoid).1)
            == free_vars(t),
    decreases crate::evaluation::model::term_size(t),
{
    match t {
        SpecTerm::Var(_) => {},
        SpecTerm::Abs(v, body) => {
            if avoid.contains(v) {
                lemma_free_vars_finite(*body);
                lemma_fresh_dis_is_ok(v, avoid, free_vars(*body));
                let nv = SpecVar {
                    name: v.name,
                    dis: crate::evaluation::rename_bound::fresh_dis(v, avoid, free_vars(*body)),
                };
                assert(nv.dis >= 1);
                assert(binders_avoid(*body, Set::empty().insert(nv))) by {
                    lemma_source_binders_avoid_fresh(*body, nv);
                }
                lemma_rename_free_frees(v, nv, *body);
                let renamed = crate::evaluation::model::rename_free(v, nv, *body);
                crate::evaluation::model::lemma_rename_free_size(v, nv, *body);
                lemma_rename_free_keeps_binders(v, nv, *body);
                lemma_rename_bound_preserves_free_vars(renamed, avoid);
                let inner = crate::evaluation::rename_bound::spec_rename_bound(renamed, avoid);
                if free_vars(*body).contains(v) {
                    assert(free_vars(inner.1).remove(nv) =~= free_vars(*body).remove(v));
                } else {
                    assert(free_vars(inner.1).remove(nv) =~= free_vars(*body).remove(v));
                }
            } else {
                lemma_rename_bound_preserves_free_vars(*body, avoid);
                let inner = crate::evaluation::rename_bound::spec_rename_bound(*body, avoid);
                assert(free_vars(inner.1).remove(v) =~= free_vars(*body).remove(v));
            }
        },
        SpecTerm::App(l, r) => {
            lemma_rename_bound_preserves_free_vars(*l, avoid);
            lemma_rename_bound_preserves_free_vars(*r, avoid);
            assert(free_vars(
                crate::evaluation::rename_bound::spec_rename_bound(t, avoid).1,
            ) =~= free_vars(t));
        },
    }
}

proof fn lemma_source_binders_avoid_fresh(t: SpecTerm, nv: SpecVar)
    requires
        binders_source_written(t),
        nv.dis >= 1,
    ensures
        binders_avoid(t, Set::empty().insert(nv)),
    decreases t,
{
    match t {
        SpecTerm::Var(_) => {},
        SpecTerm::Abs(v, body) => {
            lemma_source_binders_avoid_fresh(*body, nv);
        },
        SpecTerm::App(l, r) => {
            lemma_source_binders_avoid_fresh(*l, nv);
            lemma_source_binders_avoid_fresh(*r, nv);
        },
    }
}

/// A term the renamer reports unmodified already had every binder out of
/// the avoid-set.
proof fn lemma_unmodified_binders(t: SpecTerm, avoid: Set<SpecVar>)
    ensures
        !crate::evaluation::rename_bound::spec_rename_bound(t, avoid).0 ==> binders_avoid(
            t,
            avoid,
        ),
    decreases crate::evaluation::model::term_size(t),
{
    match t {
        SpecTerm::Var(_) => {},
        SpecTerm::Abs(v, body) => {
            if !avoid.contains(v) {
                lemma_unmodified_binders(*body, avoid);
            }
        },
        SpecTerm::App(l, r) => {
            lemma_unmodified_binders(*l, avoid);
            lemma_unmodified_binders(*r, avoid);
        },
    }
}

/// Alpha-safety of the beta step, composed: when the reducer fires a
/// beta on a redex `(λv.body) arg` — that is, the renamer reported the
/// body unmodified — no binder of the body lies among the argument's
/// free variables, and the substitution's free variables obey the exact
/// no-capture equation: those of the body, less the bound variable,
/// plus, where it occurred, those of the argument. No free variable of
/// the argument is captured by a binder that did not bind it before.
pub proof fn lemma_beta_fires_without_capture(v: SpecVar, body: SpecTerm, arg: SpecTerm)
    ensures
        ({
            let t = SpecTerm::App(
                Box::new(SpecTerm::Abs(v, Box::new(body))),
                Box::new(arg),
            );
            crate::evaluation::beta::spec_reduce(t).0 == crate::evaluation::StepKind::Beta ==> {
                &&& binders_avoid(body, free_vars(arg))
                &&& free_vars(crate::evaluation::beta::spec_reduce(t).1) == if free_vars(
                    body,
                ).contains(v) {
                    free_vars(body).remove(v).union(free_vars(arg))
                } else {
                    free_vars(body)
                }
            }
        }),
{
    let t = SpecTerm::App(Box::new(SpecTerm::Abs(v, Box::new(body))), Box::new(arg));
    if crate::evaluation::beta::spec_reduce(t).0 == crate::evaluation::StepKind::Beta {
        lemma_unmodified_binders(body, free_vars(arg));
        lemma_substitute_no_capture(v, arg, body);
    }
}

/// A beta step never invents a free variable: the free variables of the
/// rewritten program are among those of the program before.
pub proof fn lemma_beta_step_adds_no_free_vars(t: SpecTerm)
    ensures
        crate::evaluation::beta::spec_reduce(t).0 == crate::evaluation::StepKind::Beta
            ==> free_vars(crate::evaluation::beta::spec_reduce(t).1).subset_of(free_vars(t)),
    decreases t,
{
    let kind = crate::evaluation::beta::spec_reduce(t).0;
    let t1 = crate::evaluation::beta::spec_reduce(t).1;
    if kind == crate::evaluation::StepKind::Beta {
        match t {
            SpecTerm::App(l, r) => {
                match *l {
                    SpecTerm::Abs(v, body) => {
                        lemma_beta_fires_without_capture(v, *body, *r);
                        assert(free_vars(*l) == free_vars(*body).remove(v));
                        assert(free_vars(t) == free_vars(*l).union(free_vars(*r)));
                        assert(free_vars(t1).subset_of(free_vars(t))) by {
                            if !free_vars(*body).contains(v) {
                                assert(free_vars(*body) =~= free_vars(*body).remove(v));
                            }
                        }
                    },
                    _ => {
                        let il = crate::evaluation::beta::spec_reduce(*l);
                        if il.0 != crate::evaluation::StepKind::Id {
                            lemma_beta_step_adds_no_free_vars(*l);
                            let wrapped = SpecTerm::App(Box::new(il.1), r);
                            assert(t1 == wrapped);
                            assert(free_vars(wrapped) == free_vars(il.1).union(free_vars(*r)));
                            assert(free_vars(t1).subset_of(free_vars(t)));
                        } else {
                            let ir = crate::evaluation::beta::spec_reduce(*r);
                            lemma_beta_step_adds_no_free_vars(*r);
                            let wrapped = SpecTerm::App(l, Box::new(ir.1));
                            assert(t1 == wrapped);
                            assert(free_vars(wrapped) == free_vars(*l).union(free_vars(ir.1)));
                            assert(free_vars(t1).subset_of(free_vars(t)));
                        }
                    },
                }
            },
            SpecTerm::Abs(v, body) => {
                lemma_beta_step_adds_no_free_vars(*body);
                let ib = crate::evaluation::beta::spec_reduce(*body);
                let wrapped = SpecTerm::Abs(v, Box::new(ib.1));
                assert(t1 == wrapped);
                assert(free_vars(wrapped) == free_vars(ib.1).remove(v));
                assert(free_vars(t1).subset_of(free_vars(t)));
            },
            SpecTerm::Var(_) => {},
        }
    }
}

/// A rewrite of an application is an application, unless it was the beta
/// step itself; a rewrite of an abstraction is an abstraction.
proof fn lemma_reduce_shape(t: SpecTerm)
    ensures
        t is App && crate::evaluation::beta::spec_reduce(t).0 == crate::evaluation::StepKind::Alpha
            ==> crate::evaluation::beta::spec_reduce(t).1 is App,
        t is Abs ==> crate::evaluation::beta::spec_reduce(t).1 is Abs,
{
}

/// Beta-reduction is confluent on the diamond of alpha-steps: when a
/// reduction step is an alpha-renaming, the very next reduction step is
/// the beta-reduction it prepared. The renaming never needs a second
/// pass, because the renamed redex body's binders already avoid the
/// argument's free variables.
pub proof fn lemma_alpha_step_enables_beta(t: SpecTerm)
    ensures
        crate::evaluation::beta::spec_reduce(t).0 == crate::evaluation::StepKind::Alpha
            ==> crate::evaluation::beta::spec_reduce(
            crate::evaluation::beta::spec_reduce(t).1,
        ).0 == crate::evaluation::StepKind::Beta,
    decreases t,
{
    let kind = crate::evaluation::beta::spec_reduce(t).0;
    let t1 = crate::evaluation::beta::spec_reduce(t).1;
    if kind == crate::evaluation::StepKind::Alpha {
        match t {
            SpecTerm::App(l, r) => {
                match *l {
                    SpecTerm::Abs(v, body) => {
                        let avoid = free_vars(*r);
                        let rb = crate::evaluation::rename_bound::spec_rename_bound(*body, avoid);
                        lemma_free_vars_finite(*r);
                        lemma_rename_bound_binders(*body, avoid);
                        lemma_rename_bound_idempotent(rb.1, avoid);
                        let redex = SpecTerm::App(
                            Box::new(SpecTerm::Abs(v, Box::new(rb.1))),
                            r,
                        );
                        assert(t1 == redex);
                        assert(crate::evaluation::beta::spec_reduce(redex).0
                            == crate::evaluation::StepKind::Beta);
                    },
                    _ => {
                        let il = crate::evaluation::beta::spec_reduce(*l);
                        if il.0 == crate::evaluation::StepKind::Alpha {
                            lemma_alpha_step_enables_beta(*l);
                            lemma_reduce_shape(*l);
                            let wrapped = SpecTerm::App(Box::new(il.1), r);
                            assert(t1 == wrapped);
                            assert(crate::evaluation::beta::spec_reduce(il.1).0
                                == crate::evaluation::StepKind::Beta);
                            assert(crate::evaluation::beta::spec_reduce(wrapped).0
                                == crate::evaluation::StepKind::Beta);
                        } else {
                            let ir = crate::evaluation::beta::spec_reduce(*r);
                            lemma_alpha_step_enables_beta(*r);
                            let wrapped = SpecTerm::App(l, Box::new(ir.1));
                            assert(il.0 == crate::evaluation::StepKind::Id);
                            assert(ir.0 == crate::evaluation::StepKind::Alpha);
                            assert(t1 == wrapped);
                            assert(crate::evaluation::beta::spec_reduce(ir.1).0
                                == crate::evaluation::StepKind::Beta);
                            assert(crate::evaluation::beta::spec_reduce(wrapped).0
                                == crate::evaluation::StepKind::Beta);
                        }
                    },
                }
            },
            SpecTerm::Abs(v, body) => {
                lemma_alpha_step_enables_beta(*body);
                let ib = crate::evaluation::beta::spec_reduce(*body);
                let wrapped = SpecTerm::Abs(v, Box::new(ib.1));
                assert(t1 == wrapped);
                assert(crate::evaluation::beta::spec_reduce(ib.1).0
                    == crate::evaluation::StepKind::Beta);
                assert(crate::evaluation::beta::spec_reduce(wrapped).0
                    == crate::evaluation::StepKind::Beta);
            },
            SpecTerm::Var(_) => {},
        }
    }
}

} // verus!

use cauliflambda::evaluation::{
    abs, app, rename_bound, var, var_with, Term, TermResult, Variable,
};

fn named(name: &str) -> Variable {
    Variable::new(name)
}

fn with(name: &str, disambiguator: usize) -> Variable {
    Variable::new(name).with_disambiguator(disambiguator)
}

fn nested_abs(variables: Vec<Variable>, mut term: Term) -> Term {
    for v in variables.into_iter().rev() {
        term = abs(v, term);
    }
    term
}

#[test]
fn ignores_bound_variables_that_satisfy_predicate() {
    let term = abs(named("x"), var("x"));
    let avoid: Vec<Variable> = Vec::new();
    assert_eq!(TermResult::Original(term.clone()), rename_bound(term, &avoid));
}

#[test]
fn ignores_free_variables_that_do_not_satisfy_predicate() {
    let term = var("x");
    let avoid = vec![named("x")];
    assert_eq!(TermResult::Original(term.clone()), rename_bound(term, &avoid));
}

#[test]
fn renames_bound_variables() {
    let cases: Vec<(Term, Term, Vec<Variable>)> = vec![
        (
            abs(with("x", 1), var_with("x", 1)),
            abs(named("x"), var("x")),
            vec![named("x")],
        ),
        (
            abs(with("x", 2), var_with("x", 2)),
            abs(with("x", 1), var_with("x", 1)),
            vec![named("x"), with("x", 1)],
        ),
        (
            app(
                abs(with("x", 1), var_with("x", 1)),
                abs(with("x", 1), var_with("x", 1)),
            ),
            app(abs(named("x"), var("x")), abs(named("x"), var("x"))),
            vec![named("x")],
        ),
        (
            nested_abs(vec![with("x", 1), with("y", 1), with("z", 1)], var("free")),
            nested_abs(vec![named("x"), named("y"), named("z")], var("free")),
            vec![named("x"), named("y"), named("z")],
        ),
        (
            nested_abs(
                vec![with("x", 0), with("y", 0), with("z", 1)],
                var_with("z", 1),
            ),
            nested_abs(vec![named("x"), named("y"), named("z")], var("z")),
            vec![named("z")],
        ),
    ];
    for (expected_term, term, taken) in cases {
        assert_eq!(TermResult::Modified(expected_term), rename_bound(term, &taken));
    }
}

#[test]
fn skips_free_variables_in_abstraction_term_when_renaming() {
    let expected = abs(with("x", 2), app(var_with("x", 2), var_with("x", 1)));
    let term = abs(named("x"), app(var("x"), var_with("x", 1)));
    let avoid = vec![named("x")];
    assert_eq!(TermResult::Modified(expected), rename_bound(term, &avoid));
}

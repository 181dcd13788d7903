use cauliflambda::evaluation::{abs, reduce, var, StepKind, Term, Variable};
use cauliflambda::parse_formula;
use cauliflambda::syntax::formula_to_term;

fn t(source: &str) -> Term {
    formula_to_term(&parse_formula(source).unwrap().value)
}

#[test]
fn beta_detects_expressions_that_cannot_be_reduced_futher() {
    let expressions = [t("x"), t("λa.λb.λc.c"), t("λx.x x (x x)"), t("X(λx.λy.x)")];
    for expression in expressions {
        let result = reduce(expression.clone());
        assert_eq!(StepKind::Id, result.kind);
        assert_eq!(expression, result.term);
    }
}

#[test]
fn reduces_leftmost_application_first() {
    let expression = t("((λx.x) X) ((λx.x) Y)");
    let expected = t("X ((λx.x) Y)");
    assert_eq!(expected, reduce(expression).term);
}

#[test]
fn beta_reduces_outermost_application_first() {
    let expression = t("(λx.(λy.y) x) X");
    let expected = t("(λy.y) X");
    assert_eq!(expected, reduce(expression).term);
}

#[test]
fn reduces_leftmost_outermost_application_first() {
    let expression = t("((λx.(λy.y) x) X) ((λx.x) Y)");
    let expected = t("((λy.y) X) ((λx.x) Y)");
    assert_eq!(expected, reduce(expression).term);
}

#[test]
fn reduces_application_with_naming_conflict() {
    let expression = t("(λy.λx.y) x");
    let expected = abs(Variable::new("x").with_disambiguator(1), var("x"));
    assert_eq!(expected, reduce(reduce(expression).term).term);
}

use cauliflambda::evaluation::{abs, app, substitute, var, Term, Variable};

#[test]
fn substitutes_matching_free_variable() {
    let variable = Variable::new("x");
    let input = Term::Var(variable.clone());
    let replacement = var("R");
    assert_eq!(replacement.clone(), substitute(&variable, &replacement, input));
}

#[test]
fn substitutes_matching_free_variable_in_abstraction() {
    let variable = Variable::new("x");
    let input = abs(Variable::new("y"), Term::Var(variable.clone()));
    let replacement = var("R");
    assert_eq!(
        abs(Variable::new("y"), replacement.clone()),
        substitute(&variable, &replacement, input)
    );
}

#[test]
fn substitutes_matching_free_variable_in_application() {
    let variable = Variable::new("x");
    let input = app(Term::Var(variable.clone()), Term::Var(variable.clone()));
    let replacement = var("R");
    assert_eq!(
        app(replacement.clone(), replacement.clone()),
        substitute(&variable, &replacement, input)
    );
}

#[test]
fn does_not_substitutes_non_matching_free_variable() {
    let variable = Variable::new("x");
    let input = var("y");
    let replacement = var("R");
    assert_eq!(input.clone(), substitute(&variable, &replacement, input));
}

#[test]
fn does_not_substitute_matching_bound_variable() {
    let variable = Variable::new("x");
    let input = abs(variable.clone(), Term::Var(variable.clone()));
    let replacement = var("R");
    assert_eq!(input.clone(), substitute(&variable, &replacement, input));
}

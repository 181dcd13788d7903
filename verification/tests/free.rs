use cauliflambda::evaluation::{abs, app, free_variables, Term, Variable};

fn same_variables(actual: &[Variable], expected: &[Variable]) -> bool {
    actual.len() == expected.len() && expected.iter().all(|e| actual.iter().any(|a| a == e))
}

#[test]
fn variable_by_itself_is_free() {
    let variable = Variable::new("x");
    let term = Term::Var(variable.clone());
    let free = free_variables(&term);
    assert!(same_variables(&free, &[variable]));
}

#[test]
fn variable_in_abstraction_is_bound() {
    let variable = Variable::new("x");
    let term = abs(variable.clone(), Term::Var(variable));
    assert!(free_variables(&term).is_empty());
}

#[test]
fn variable_in_nested_abstraction_is_bound() {
    let variable = Variable::new("x");
    let occurrence = || Term::Var(Variable::new("x"));
    let term = abs(
        variable.clone(),
        app(abs(variable, occurrence()), occurrence()),
    );
    assert!(free_variables(&term).is_empty());
}

#[test]
fn variable_in_abstraction_is_free_if_it_has_a_different_name() {
    let bound = Variable::new("x");
    let free = Variable::new("y");
    let term = abs(
        bound.clone(),
        app(Term::Var(bound), Term::Var(free.clone())),
    );
    assert!(same_variables(&free_variables(&term), &[free]));
}

#[test]
fn variable_in_application_is_free_according_to_lhs_and_rhs() {
    let bound_1 = Variable::new("b1");
    let bound_2 = Variable::new("b2");
    let free_1 = Variable::new("f1");
    let free_2 = Variable::new("f2");
    let term = app(
        app(
            abs(bound_1.clone(), Term::Var(bound_1)),
            Term::Var(free_1.clone()),
        ),
        app(
            abs(bound_2.clone(), Term::Var(bound_2)),
            Term::Var(free_2.clone()),
        ),
    );
    assert!(same_variables(&free_variables(&term), &[free_1, free_2]));
}

#[test]
fn variable_on_right_side_of_application_is_not_bound() {
    let bound = Variable::new("x");
    let free = Variable::new("y");
    let term = app(
        abs(bound.clone(), Term::Var(bound)),
        Term::Var(free.clone()),
    );
    assert!(same_variables(&free_variables(&term), &[free]));
}

use cauliflambda::evaluation::{abs, app, rename, Term, Variable};

#[test]
fn renames_matching_variable() {
    let old = Variable::new("x");
    let new = Variable::new("x").with_disambiguator(1);
    assert_eq!(
        Term::Var(new.clone()),
        rename(&old, &new, Term::Var(old.clone()))
    );
}

#[test]
fn does_not_rename_non_matching_variable() {
    let old = Variable::new("x");
    let new = Variable::new("x").with_disambiguator(1);
    let term = Term::Var(Variable::new("y"));
    assert_eq!(term.clone(), rename(&old, &new, term));
}

#[test]
fn renames_matching_variables_in_application() {
    let old = Variable::new("x");
    let new = Variable::new("x").with_disambiguator(1);
    let term = app(Term::Var(old.clone()), Term::Var(old.clone()));
    assert_eq!(
        app(Term::Var(new.clone()), Term::Var(new.clone())),
        rename(&old, &new, term)
    );
}

#[test]
fn renames_matching_free_variables() {
    let old = Variable::new("x");
    let new = Variable::new("x").with_disambiguator(1);
    let bound = Variable::new("y");
    let term = abs(bound.clone(), Term::Var(old.clone()));
    assert_eq!(
        abs(bound, Term::Var(new.clone())),
        rename(&old, &new, term)
    );
}

#[test]
fn does_not_rename_matching_bound_variables() {
    let old = Variable::new("x");
    let new = Variable::new("x").with_disambiguator(1);
    let term = abs(old.clone(), Term::Var(old.clone()));
    assert_eq!(term.clone(), rename(&old, &new, term));
}

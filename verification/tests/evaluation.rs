use cauliflambda::evaluation::{abs, app, var, Term, Variable};

fn named(name: &str) -> Variable {
    Variable::new(name)
}

#[test]
fn only_adds_necessary_parenthesis() {
    let terms: Vec<(&str, Term)> = vec![
        ("x (y z)", app(var("x"), app(var("y"), var("z")))),
        ("x y z", app(app(var("x"), var("y")), var("z"))),
        (
            "λx.λy.λz.z",
            abs(named("x"), abs(named("y"), abs(named("z"), var("z")))),
        ),
        ("λx.x y", abs(named("x"), app(var("x"), var("y")))),
        (
            "X (λx.x y)",
            app(var("X"), abs(named("x"), app(var("x"), var("y")))),
        ),
        ("(λx.x) y", app(abs(named("x"), var("x")), var("y"))),
    ];

    for (syntax, term) in terms {
        assert_eq!(syntax, term.display().as_str());
    }
}

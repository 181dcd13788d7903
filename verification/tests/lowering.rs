use cauliflambda::lowering::lower_formula;
use cauliflambda::namefree::{abs, app, var, Expression};
use cauliflambda::parse_formula;
use cauliflambda::syntax::Formula;

fn parse(input: &str) -> Formula {
    parse_formula(input).unwrap().value
}

#[test]
fn lowers_unbound_variable_as_constant() {
    let expr = lower_formula(&parse("X")).value;
    assert!(matches!(&expr, Expression::Const(c) if c.0 == "X"));
}

#[test]
fn lowers_unbound_natural_numbers_as_church_numerals() {
    let numerals = [
        ("0", abs(abs(var(1)))),
        ("1", abs(abs(app(var(2), var(1))))),
        (
            "5",
            abs(abs(app(
                var(2),
                app(var(2), app(var(2), app(var(2), app(var(2), var(1))))),
            ))),
        ),
    ];

    for (input, expected) in numerals {
        let expr = lower_formula(&parse(input)).value;
        assert_eq!(expected, expr);
    }
}

#[test]
fn does_not_bound_natural_numbers_as_church_numerals() {
    let inputs = ["λ0.0", "λ1.1", "λ5.5"];
    for input in inputs {
        let expr = lower_formula(&parse(input)).value;
        assert_eq!(abs(var(1)), expr);
    }
}

#[test]
fn lowers_application() {
    let expr = lower_formula(&parse("A B")).value;
    assert!(
        matches!(&expr, Expression::App(a) if matches!(&a.0, Expression::Const(c) if c.0 == "A"))
    );
    assert!(
        matches!(&expr, Expression::App(a) if matches!(&a.1, Expression::Const(c) if c.0 == "B"))
    );
}

const ABSTRACTIONS: &[(&str, &str)] = &[
    ("λa.λb.λc. a b c", "(λ(λ(λ((3 2) 1))))"),
    ("λa.a(λb.b(λc.c))", "(λ(1 (λ(1 (λ1)))))"),
    ("λx.x(λx.x(λx.x))", "(λ(1 (λ(1 (λ1)))))"),
    ("λa. (λb. b a) (λc. c a)", "(λ((λ(1 2)) (λ(1 2))))"),
    ("λa. (λb. b a) (λc. b)", "(λ((λ(1 2)) (λb)))"),
];

#[test]
fn lowers_abstractions() {
    for (input, reference) in ABSTRACTIONS {
        assert_eq!(*reference, lower_formula(&parse(input)).value.display());
    }
}

use cauliflambda::namefree::{abs, app, constant, var, Expression};
use cauliflambda::reducing::{reduce_once, ReduceResult};

fn n_abs(abstractions: u64, expression: Expression) -> Expression {
    let mut e = expression;
    let mut i = 0;
    while i < abstractions {
        e = abs(e);
        i += 1;
    }
    e
}

fn id() -> Expression {
    abs(var(1))
}

fn unwrap_reduced(result: ReduceResult) -> Expression {
    match result {
        ReduceResult::Reduced(expression) => expression,
        ReduceResult::Complete(_) => {
            panic!("Expected a reduced expression, but the expression is not reducible")
        }
    }
}

#[test]
fn reducing_detects_expressions_that_cannot_be_reduced_futher() {
    let expressions = [
        constant("foo"),
        n_abs(3, var(3)),
        abs(app(app(var(1), var(1)), app(var(1), var(1)))),
        app(constant("A"), abs(abs(var(2)))),
    ];
    for expression in expressions {
        let result = reduce_once(expression);
        assert!(matches!(result, ReduceResult::Complete(_)));
    }
}

#[test]
fn reducing_reduces_outermost_application_first() {
    let expression = app(abs(app(id(), app(constant("Y"), var(1)))), constant("X"));

    let reduced = unwrap_reduced(reduce_once(expression));

    let expected = app(id(), app(constant("Y"), constant("X")));
    assert_eq!(expected, reduced);
}

#[test]
fn reduces_left_side_of_application_first_if_ambiguous() {
    let left = app(id(), constant("L"));
    let right = app(id(), constant("R"));
    let expression = app(left, right.clone());

    let reduced = unwrap_reduced(reduce_once(expression));

    let expected = app(constant("L"), right);
    assert_eq!(expected, reduced);
}

#[test]
fn reduces_left_side_of_application_first_recursively_if_ambiguous() {
    let left_left = app(id(), constant("LL"));
    let left_right = app(id(), constant("LR"));
    let left = app(left_left, left_right.clone());
    let right = app(id(), constant("R"));
    let expression = app(left, right.clone());

    let reduced = unwrap_reduced(reduce_once(expression));

    let expected = app(app(constant("LL"), left_right), right);
    assert_eq!(expected, reduced);
}

#[test]
fn adjusts_de_brujin_indexes_for_inserted_expression() {
    let target = n_abs(3, var(3));
    let replacement = n_abs(5, var(6));
    let expression = abs(app(target, replacement));

    let reduced = unwrap_reduced(reduce_once(expression));

    let expected = n_abs(8, var(8));
    assert_eq!(expected, reduced);
}

#[test]
fn adjusts_de_brujin_indexes_for_subsitution_target() {
    let expression = n_abs(3, app(n_abs(2, var(5)), constant("X")));

    let reduced = unwrap_reduced(reduce_once(expression));

    let expected = n_abs(4, var(4));
    assert_eq!(expected, reduced);
}

#[test]
fn subsitutes_at_all_depths() {
    let expression = app(
        abs(app(var(1), abs(app(var(2), abs(var(3)))))),
        constant("S"),
    );

    let reduced = unwrap_reduced(reduce_once(expression));

    let expected = app(constant("S"), abs(app(constant("S"), abs(constant("S")))));
    assert_eq!(expected, reduced);
}

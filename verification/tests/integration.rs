use cauliflambda::evaluation::{evaluate, Options, Term, Value};
use cauliflambda::parse_program;
use cauliflambda::syntax::formula_to_term;

const FACTORIAL_DEFINITIONS: &str = "isZero = &z.z (&w.False) True\nmul = &m.&q.&f.m (q f)\npred = &k.&f.&x.k (&g.&h.h (g f)) (&u.x) (&u.u)\nfac = &k.&a.(isZero k) a (fac (pred k) (mul k a))\n";

fn normal_form_of(source: &str, limit: usize) -> (Term, usize) {
    let program = parse_program(source).unwrap();
    assert!(program.diagnostics.0.is_empty());
    let program = program.value;
    let mut options = Options::default().add_church_encoding();
    for definition in &program.definitions {
        options = options.add_definitions(
            definition.name.value.clone(),
            formula_to_term(&definition.formula),
        );
    }
    let term = formula_to_term(&program.formula);
    let mut last = term.clone();
    let mut evaluation = evaluate(term, options);
    let mut count: usize = 0;
    while count < limit {
        match evaluation.next() {
            Some(step) => {
                count += 1;
                last = step.term;
            }
            None => break,
        }
    }
    (last, count)
}

#[test]
fn factorial_integration_test_factorial_of_four_can_be_computed() {
    let source = format!("{FACTORIAL_DEFINITIONS}fac 4 1");
    let (normal_form, count) = normal_form_of(&source, 100_000);
    assert!(count < 100_000);

    assert_eq!(
        "λf.λx.f (f (f (f (f (f (f (f (f (f (f (f (f (f (f (f (f (f (f (f (f (f (f (f x)))))))))))))))))))))))",
        normal_form.display().as_str()
    );
}

#[test]
fn integration_tests_factorial_of_four_can_be_computed() {
    let source = format!("{FACTORIAL_DEFINITIONS}n (fac 4 1)");
    let (normal_form, count) = normal_form_of(&source, 100_000);
    assert!(count < 100_000);

    assert_eq!(Some(Value::Integer(24)), normal_form.decode());
}

#[test]
fn three_is_not_even() {
    let source = "b ((&not.3 not True) (&q.&x.&y.q y x))";
    let (normal_form, count) = normal_form_of(source, 100_000);
    assert!(count < 100_000);

    assert_eq!(Some(Value::Bool(false)), normal_form.decode());
}

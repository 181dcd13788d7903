use cauliflambda::evaluation::{
    evaluate, evaluate_with_side_effects, reduce, var, ChurchNumeral, Decode, EffectOutcome,
    Encode, Options, Step, StepKind, Term, Tuple, Value,
};
use cauliflambda::parse_formula;
use cauliflambda::syntax::{formula_to_term, SyntaxEq};

fn t(source: &str) -> Term {
    formula_to_term(&parse_formula(source).unwrap().value)
}

fn steps_of(source: &str, options: Options, limit: usize) -> Vec<Step> {
    let mut evaluation = evaluate(t(source), options);
    let mut steps = Vec::new();
    while steps.len() < limit {
        match evaluation.next() {
            Some(step) => steps.push(step),
            None => break,
        }
    }
    steps
}

#[test]
fn identity_application_takes_one_beta_step() {
    let steps = steps_of("(λx.x) y", Options::default(), 10);
    assert_eq!(1, steps.len());
    assert_eq!(StepKind::Beta, steps[0].kind);
    assert_eq!("y", steps[0].term.display().as_str());
}

#[test]
fn naming_conflict_takes_an_alpha_then_a_beta_step() {
    let steps = steps_of("(λy.λx.y) x", Options::default(), 10);
    assert_eq!(2, steps.len());
    assert_eq!(StepKind::Alpha, steps[0].kind);
    assert_eq!("(λy.λx₁.y) x", steps[0].term.display().as_str());
    assert_eq!(StepKind::Beta, steps[1].kind);
    assert_eq!("λx₁.x", steps[1].term.display().as_str());
}

#[test]
fn two_redexes_reduce_left_to_right_in_two_steps() {
    let steps = steps_of("((λx.x) X) ((λx.x) Y)", Options::default(), 10);
    assert_eq!(2, steps.len());
    assert_eq!(StepKind::Beta, steps[0].kind);
    assert_eq!("X ((λx.x) Y)", steps[0].term.display().as_str());
    assert_eq!(StepKind::Beta, steps[1].kind);
    assert_eq!("X Y", steps[1].term.display().as_str());
}

#[test]
fn normal_form_term_yields_no_steps() {
    let expression = t("λx.x x (x x)");
    let result = reduce(expression.clone());
    assert_eq!(StepKind::Id, result.kind);
    assert_eq!(expression, result.term);

    let steps = steps_of("λx.x x (x x)", Options::default(), 10);
    assert_eq!(0, steps.len());
}

#[test]
fn zero_argument_abstraction_fails_to_parse() {
    assert!(parse_formula("λ.x").is_err());
}

#[test]
fn numeral_identifier_parses_as_variable_and_expands_to_church_zero() {
    let formula = parse_formula("0").unwrap().value;
    assert!(
        matches!(&formula, cauliflambda::syntax::Formula::Var(v) if v.value == "0")
    );

    let steps = steps_of("0", Options::default().add_church_encoding(), 10);
    assert_eq!(1, steps.len());
    assert_eq!(StepKind::Delta, steps[0].kind);
    assert_eq!("λf.λx.x", steps[0].term.display().as_str());
}

#[test]
fn identifier_named_like_a_lambda_character_is_rejected() {
    assert!(parse_formula("λ").is_err());
    assert!(parse_formula("&λ.x").is_err());
    assert!(parse_formula("&&.x").is_err());
}

#[test]
fn all_lambda_characters_are_equivalent() {
    let reference = parse_formula("λx.x").unwrap().value;
    for source in ["&x.x", "\\x.x"] {
        let other = parse_formula(source).unwrap().value;
        assert!(other.syntax_eq(&reference));
    }
}

#[test]
fn display_parse_round_trip_preserves_terms() {
    let sources = [
        "x",
        "x y z",
        "x (y z)",
        "λx.λy.λz.z",
        "λx.x y",
        "X (λx.x y)",
        "(λx.x) y",
        "λx y z.x z (y z)",
    ];
    for source in sources {
        let term = t(source);
        let redisplayed = term.display();
        let reparsed = t(&redisplayed);
        assert_eq!(term, reparsed);
    }
}

#[test]
fn numerals_decode_back_to_their_value() {
    for n in [0u64, 1, 2, 5, 24, 1000] {
        let encoded = ChurchNumeral(n).encode();
        assert_eq!(Some(ChurchNumeral(n)), encoded.decode());
    }
}

#[test]
fn booleans_decode_back_to_their_value() {
    for b in [true, false] {
        let encoded = b.encode();
        assert_eq!(Some(b), encoded.decode::<bool>());
    }
}

#[test]
fn pairs_decode_back_to_their_components() {
    let pair = Tuple((ChurchNumeral(3), ChurchNumeral(7)));
    let encoded = pair.encode();
    let decoded: Tuple<(ChurchNumeral, ChurchNumeral)> = encoded.decode().unwrap();
    assert_eq!(ChurchNumeral(3), decoded.0 .0);
    assert_eq!(ChurchNumeral(7), decoded.0 .1);
}

#[test]
fn optionals_decode_back_to_their_value() {
    let some = Some(ChurchNumeral(9));
    assert_eq!(Some(some), some.encode().decode());
    let none: Option<ChurchNumeral> = None;
    assert_eq!(Some(none), none.encode().decode());
}

#[test]
fn results_decode_back_to_their_value() {
    let ok: Result<ChurchNumeral, bool> = Ok(ChurchNumeral(2));
    assert_eq!(Some(ok), ok.encode().decode());
    let err: Result<ChurchNumeral, bool> = Err(true);
    assert_eq!(Some(err), err.encode().decode());
}

#[test]
fn value_decoding_needs_a_hint() {
    let unhinted = ChurchNumeral(1).encode();
    assert_eq!(None, unhinted.decode::<Value>());

    let hinted = cauliflambda::evaluation::app(var("n"), ChurchNumeral(1).encode());
    assert_eq!(Some(Value::Integer(1)), hinted.decode());

    let hinted_bool = cauliflambda::evaluation::app(var("b"), false.encode());
    assert_eq!(Some(Value::Bool(false)), hinted_bool.decode());
}

#[test]
fn true_selects_its_first_argument() {
    let steps = steps_of("True X Y", Options::default().add_church_encoding(), 10);
    let last = steps.last().unwrap();
    assert_eq!("X", last.term.display().as_str());
}

#[test]
fn shadowed_names_do_not_expand() {
    let steps = steps_of("λTrue.True", Options::default().add_church_encoding(), 10);
    assert_eq!(0, steps.len());
}

#[test]
fn side_effects_surface_at_the_spine_head() {
    let mut evaluation = evaluate_with_side_effects(t("beep x"), Options::default());
    match evaluation.next() {
        EffectOutcome::Effect { name, argument } => {
            assert_eq!("beep", name.name.as_str());
            assert_eq!("x", argument.display().as_str());
        }
        _ => panic!("expected a side-effect request"),
    }
    let step = evaluation.resume(var("x"));
    assert_eq!(StepKind::SideEffect, step.kind);
    assert_eq!("x", step.term.display().as_str());
    match evaluation.next() {
        EffectOutcome::Effect { name, argument } => {
            assert_eq!("x", name.name.as_str());
            assert_eq!("_", argument.display().as_str());
        }
        _ => panic!("expected a side-effect request for the bare atom"),
    }
}

#[test]
fn step_kinds_have_their_markers() {
    assert_eq!("α", StepKind::Alpha.marker());
    assert_eq!("β", StepKind::Beta.marker());
    assert_eq!("δ", StepKind::Delta.marker());
    assert_eq!("", StepKind::Id.marker());
    assert_eq!("", StepKind::SideEffect.marker());
}

#[test]
fn lowering_warns_about_unnecessary_abstractions() {
    let formula = parse_formula("λx.M x").unwrap().value;
    let lowered = cauliflambda::lowering::lower_formula(&formula);
    assert_eq!(1, lowered.diagnostics.0.len());
    let warning = &lowered.diagnostics.0[0];
    assert_eq!(
        cauliflambda::DiagnosticSeverity::Warning,
        warning.severity
    );
    assert_eq!("unnecessary abstraction", warning.message.as_str());
    assert_eq!(2, warning.labels.len());
}

#[test]
fn programs_carry_their_definitions() {
    let program = cauliflambda::parse_program("two = λf.λx.f (f x)\ntwo g y").unwrap().value;
    assert_eq!(1, program.definitions.len());
    assert_eq!("two", program.definitions[0].name.value.as_str());

    let mut options = Options::default().add_church_encoding();
    for definition in &program.definitions {
        options = options.add_definitions(
            definition.name.value.clone(),
            formula_to_term(&definition.formula),
        );
    }
    let term = formula_to_term(&program.formula);
    let mut evaluation = evaluate(term, options);
    let mut last: Option<Step> = None;
    for _ in 0..100 {
        match evaluation.next() {
            Some(step) => last = Some(step),
            None => break,
        }
    }
    assert_eq!("g (g y)", last.unwrap().term.display().as_str());
}

#[test]
fn subscripted_disambiguators_render_in_subscript_digits() {
    let v = cauliflambda::evaluation::Variable::new("x").with_disambiguator(12);
    assert_eq!("x₁₂", v.display().as_str());
}

use cauliflambda::parse_formula;
use cauliflambda::syntax::{Formula, Span, SyntaxEq};

fn parse(input: &str) -> Formula {
    parse_formula(input).unwrap().value
}

const IDENTIFIERS: &[&str] = &[
    "a", "A", "lower", "UPPER", "άμδα", "brötli", "0", "1", "42", "foo_bar", "_foo", "_",
];

#[test]
fn parses_identifiers() {
    for text in IDENTIFIERS {
        let formula = parse(text);
        assert!(matches!(&formula, Formula::Var(v) if v.value == *text));
    }
}

const NON_IDENTIFIERS: &[&str] = &["λ", "λλ", "λfoo", "fooλ", "foo-bar", "foo+bar", "-"];

#[test]
fn does_not_parse_invalid_identifers() {
    for text in NON_IDENTIFIERS {
        assert!(matches!(parse_formula(text), Err(_)));
    }
}

const ABSTRACTIONS: &[&str] = &["λx.x", "λx.y", "λ x . x", "&x.x", "\\x.x"];

#[test]
fn parses_abstraction() {
    for text in ABSTRACTIONS {
        let formula = parse(text);
        assert!(matches!(&formula, Formula::Abs(a) if a.variable.value == "x"));
    }
}

#[test]
fn parses_abstraction_with_more_than_one_variable() {
    let reference = parse("λx.(λy.(λz._))");
    assert!(parse("λx y z._").syntax_eq(&reference));
}

#[test]
fn trivia_can_be_placed_anywhere_in_formula() {
    let reference = parse("(λx.x) Y");

    let trivias = &["# comment\n", "# comment\r\n", "\t", "   ", "\r\n", "\n", "\r"];
    let inputs = &[
        "{trivia}(λx.x) Y",
        "({trivia}λx.x) Y",
        "(λ{trivia}x.x) Y",
        "(λx{trivia}.x) Y",
        "(λx.{trivia}x) Y",
        "(λx.x{trivia}) Y",
        "(λx.x){trivia} Y",
        "(λx.x) Y {trivia}",
    ];
    for input_template in inputs {
        for trivia in trivias {
            let input = input_template.replace("{trivia}", trivia);
            assert!(parse(&input).syntax_eq(&reference));
        }
    }
}

#[test]
fn parses_application() {
    let formula = parse("A B");
    assert!(
        matches!(&formula, Formula::App(a) if matches!(&a.left, Formula::Var(l) if l.value == "A"))
    );
    assert!(
        matches!(&formula, Formula::App(a) if matches!(&a.right, Formula::Var(r) if r.value == "B"))
    );
}

#[test]
fn parses_parenthesized_formulas() {
    let inputs = &["VAR", "A B", "λx.x"];
    for input in inputs {
        let parenthesized_input = format!("({input})");
        let reference = parse(input);
        let parenthesized = parse(&parenthesized_input);
        assert!(reference.syntax_eq(&parenthesized));
    }
}

#[test]
fn application_is_left_associative() {
    let reference = parse("((((((A B) C) D) E) F) G)");
    let input = "A B C D E F G";
    assert!(parse(input).syntax_eq(&reference));
}

#[test]
fn errors_are_reported_at_correct_location() {
    let inputs = &["!", "A!", "(A!)", "(A)!", "&!", "&x!", "&x.(!)", "&x.!", "&x.x!"];

    for input in inputs {
        let error_index = input.find('!').unwrap();
        let expected_span = Span { start: error_index, end: error_index };

        let diagnostics = parse_formula(input).unwrap_err().0;

        assert_eq!(1, diagnostics.len());
        assert_eq!(expected_span, diagnostics[0].labels[0].location);
    }
}

use jlox::interpreter::Interpreter;
use jlox::run::run;

fn run_fresh(source: &str) -> (Vec<String>, Vec<String>, Option<String>) {
    let mut interpreter = Interpreter::new();
    let outcome = run(source, &mut interpreter);
    let diags: Vec<String> = outcome.diagnostics.iter().map(|d| d.render()).collect();
    let err = outcome.runtime_error.map(|(_, m)| m);
    (diags, outcome.output, err)
}

#[test]
fn arithmetic_precedence_evaluates() {
    let (diags, out, err) = run_fresh("print 1 + 2 * 3;");
    assert!(diags.is_empty());
    assert!(err.is_none());
    assert_eq!(out, vec!["7".to_string()]);
}

#[test]
fn variable_declaration_assignment_print() {
    let (diags, out, err) = run_fresh("var x = 1; x = x + 1; print x;");
    assert!(diags.is_empty());
    assert!(err.is_none());
    assert_eq!(out, vec!["2".to_string()]);
}

#[test]
fn undefined_variable_raises_and_prints_nothing() {
    let (diags, out, err) = run_fresh("print x;");
    assert!(diags.is_empty());
    assert!(out.is_empty());
    assert_eq!(err.as_deref(), Some("Undefined variable 'x'."));
}

#[test]
fn assigning_undeclared_variable_raises() {
    let (_, out, err) = run_fresh("x = 1;");
    assert!(out.is_empty());
    assert_eq!(err.as_deref(), Some("Undefined variable 'x'."));
}

#[test]
fn plus_on_number_and_string_raises() {
    let (diags, out, err) = run_fresh("1 + \"a\";");
    assert!(diags.is_empty());
    assert!(out.is_empty());
    assert_eq!(err.as_deref(), Some("Operands must be two numbers or two strings."));
}

#[test]
fn string_concatenation() {
    let (_, out, err) = run_fresh("print \"foo\" + \"bar\";");
    assert!(err.is_none());
    assert_eq!(out, vec!["foobar".to_string()]);
}

#[test]
fn unary_minus_requires_number() {
    let (_, _, err) = run_fresh("print -\"a\";");
    assert_eq!(err.as_deref(), Some("Operand must be a number."));
}

#[test]
fn comparison_requires_numbers_with_shared_message() {
    let (_, _, err) = run_fresh("print 1 < \"a\";");
    assert_eq!(err.as_deref(), Some("Operand must be a number."));
}

#[test]
fn truthiness_of_nil_false_and_values() {
    let (_, out, err) = run_fresh("print !nil; print !false; print !0; print !\"\";");
    assert!(err.is_none());
    assert_eq!(out, vec!["true", "true", "false", "false"]);
}

#[test]
fn equality_rules() {
    let (_, out, err) = run_fresh(
        "print nil == nil; print 1 == 1; print 1 == 2; print 1 == \"1\"; print \"a\" == \"a\"; print true == true; print nil == false;",
    );
    assert!(err.is_none());
    assert_eq!(out, vec!["true", "true", "false", "false", "true", "true", "false"]);
}

#[test]
fn bang_equal_negates_equality() {
    let (_, out, _) = run_fresh("print 1 != 2; print 1 != 1;");
    assert_eq!(out, vec!["true", "false"]);
}

#[test]
fn comparisons_on_numbers() {
    let (_, out, _) = run_fresh("print 2 > 1; print 1 >= 1; print 1 < 1; print 0 <= 1;");
    assert_eq!(out, vec!["true", "true", "false", "true"]);
}

#[test]
fn nil_prints_as_empty_line() {
    let (_, out, err) = run_fresh("print nil;");
    assert!(err.is_none());
    assert_eq!(out, vec!["".to_string()]);
}

#[test]
fn var_without_initializer_is_nil() {
    let (_, out, err) = run_fresh("var a; print a;");
    assert!(err.is_none());
    assert_eq!(out, vec!["".to_string()]);
}

#[test]
fn grouping_overrides_precedence() {
    let (_, out, _) = run_fresh("print (1 + 2) * 3;");
    assert_eq!(out, vec!["9".to_string()]);
}

#[test]
fn fractional_literals_and_division() {
    let (_, out, _) = run_fresh("print 2.5; print 10 / 4; print 1 / 3;");
    assert_eq!(out, vec!["2.5", "2.5", "0.333333"]);
}

#[test]
fn negative_numbers_print_with_sign() {
    let (_, out, _) = run_fresh("print -2.5; print -0;");
    assert_eq!(out, vec!["-2.5", "0"]);
}

#[test]
fn division_by_zero_saturates() {
    let (_, out, _) = run_fresh("print 1 / 0; print 0 / 0; print -1 / 0;");
    assert_eq!(
        out,
        vec!["18446744073709.551615", "0", "-18446744073709.551615"]
    );
}

#[test]
fn runtime_error_stops_remaining_statements() {
    let (_, out, err) = run_fresh("print 1; print x; print 2;");
    assert_eq!(out, vec!["1".to_string()]);
    assert_eq!(err.as_deref(), Some("Undefined variable 'x'."));
}

#[test]
fn assignment_inside_expression_keeps_effect_before_error() {
    // the assignment on the left of `+` lands before the error on the right
    let (_, out, err) = run_fresh("var x = 1; var t = (x = 2) + y; print x;");
    assert!(out.is_empty());
    assert_eq!(err.as_deref(), Some("Undefined variable 'y'."));
    // and a fresh run still sees the statements before the error
    let (_, out2, _) = run_fresh("var x = 1; var t = x = 2; print x;");
    assert_eq!(out2, vec!["2".to_string()]);
}

#[test]
fn syntax_error_skips_interpretation() {
    let (diags, out, err) = run_fresh("1 = 2; print 3;");
    assert_eq!(diags.len(), 1);
    assert_eq!(diags[0], "[line 1] Error at '=': Invalid assignment target.");
    assert!(out.is_empty());
    assert!(err.is_none());
}

#[test]
fn missing_semicolon_reported_at_end() {
    let (diags, out, _) = run_fresh("print 1");
    assert_eq!(diags, vec!["[line 1] Error at end: Expect ';' after value.".to_string()]);
    assert!(out.is_empty());
}

#[test]
fn comments_and_whitespace_are_skipped() {
    let (diags, out, _) = run_fresh("// greeting\n\t print 1 ; // trailing\n");
    assert!(diags.is_empty());
    assert_eq!(out, vec!["1".to_string()]);
}

#[test]
fn running_twice_on_fresh_interpreters_is_identical() {
    let script = "var x = 1; x = x + 41; print x; print \"done\";";
    let first = run_fresh(script);
    let second = run_fresh(script);
    assert_eq!(first.0, second.0);
    assert_eq!(first.1, second.1);
    assert_eq!(first.2, second.2);
    assert_eq!(first.1, vec!["42", "done"]);
}

#[test]
fn no_state_leaks_between_runs() {
    let (_, out, err) = run_fresh("var x = 5; print x;");
    assert_eq!(out, vec!["5".to_string()]);
    assert!(err.is_none());
    // a fresh interpreter never saw that declaration
    let (_, out2, err2) = run_fresh("print x;");
    assert!(out2.is_empty());
    assert_eq!(err2.as_deref(), Some("Undefined variable 'x'."));
}

#[test]
fn one_interpreter_keeps_state_across_units() {
    let mut interpreter = Interpreter::new();
    let first = run("var x = 7;", &mut interpreter);
    assert!(first.diagnostics.is_empty());
    let second = run("print x;", &mut interpreter);
    assert_eq!(second.output, vec!["7".to_string()]);
}

#[test]
fn saturating_multiplication_caps_at_largest_number() {
    let (_, out, _) = run_fresh("print 99999999999999 * 99999999999999;");
    assert_eq!(out, vec!["18446744073709.551615".to_string()]);
}

use rust_calculator::calculator::Calculator;

fn text(c: &Calculator) -> String {
    c.buffer().iter().collect()
}

fn press_all(c: &mut Calculator, tokens: &[&str]) {
    for t in tokens {
        c.check_input(t);
    }
}

#[test]
fn scenario_digits_then_evaluate() {
    let mut c = Calculator::new();
    press_all(&mut c, &["1", "+", "2"]);
    assert_eq!(text(&c), "1+2");
    assert!(c.correct_input());
    let failure = c.evaluate();
    assert!(failure.is_none());
    assert_eq!(text(&c), "3");
}

#[test]
fn scenario_unary_minus_opens_expression() {
    let mut c = Calculator::new();
    press_all(&mut c, &["-", "5"]);
    assert_eq!(text(&c), "-5");
    assert!(c.correct_input());
}

#[test]
fn scenario_operator_cannot_follow_operator() {
    let mut c = Calculator::new();
    press_all(&mut c, &["3", "+"]);
    assert_eq!(text(&c), "3+");
    c.check_input("*");
    assert_eq!(text(&c), "3+");
}

#[test]
fn scenario_close_bracket_completes_group() {
    let mut c = Calculator::new();
    c.open_bracket();
    press_all(&mut c, &["2", "+", "3"]);
    assert_eq!(text(&c), "(2+3");
    assert!(!c.correct_input());
    c.close_bracket();
    assert_eq!(text(&c), "(2+3)");
    assert!(c.correct_input());
}

#[test]
fn scenario_single_decimal_point_per_number() {
    let mut c = Calculator::new();
    press_all(&mut c, &["4", "."]);
    assert_eq!(text(&c), "4.");
    c.check_input(".");
    assert_eq!(text(&c), "4.");
}

#[test]
fn scenario_zero_after_digit_but_not_after_close() {
    let mut c = Calculator::new();
    c.check_input("7");
    c.check_input("0");
    assert_eq!(text(&c), "70");

    let mut d = Calculator::new();
    d.append('7');
    d.append(')');
    d.check_input("0");
    assert_eq!(text(&d), "7)");
}

#[test]
fn zero_and_point_cannot_open_expression() {
    let mut c = Calculator::new();
    c.check_input("0");
    assert_eq!(text(&c), "");
    c.check_input(".");
    assert_eq!(text(&c), "");
}

#[test]
fn digit_cannot_follow_close_bracket() {
    let mut c = Calculator::new();
    c.open_bracket();
    c.check_input("2");
    c.close_bracket();
    assert_eq!(text(&c), "(2)");
    c.check_input("5");
    assert_eq!(text(&c), "(2)");
}

#[test]
fn open_bracket_rules() {
    let mut c = Calculator::new();
    c.open_bracket();
    assert_eq!(text(&c), "(");

    let mut d = Calculator::new();
    d.check_input("3");
    d.open_bracket();
    assert_eq!(text(&d), "3");
    d.check_input("*");
    d.open_bracket();
    assert_eq!(text(&d), "3*(");
}

#[test]
fn close_bracket_needs_open_and_operand() {
    let mut c = Calculator::new();
    c.check_input("2");
    c.close_bracket();
    assert_eq!(text(&c), "2");

    let mut d = Calculator::new();
    d.open_bracket();
    d.close_bracket();
    assert_eq!(text(&d), "(");
    d.check_input("8");
    d.check_input("+");
    d.close_bracket();
    assert_eq!(text(&d), "(8+");
}

#[test]
fn minus_allowed_once_after_binary_operator() {
    let mut c = Calculator::new();
    press_all(&mut c, &["3", "+", "-"]);
    assert_eq!(text(&c), "3+-");
    c.check_input("-");
    assert_eq!(text(&c), "3+-");
}

#[test]
fn clearing_twice_equals_clearing_once() {
    let mut c = Calculator::new();
    press_all(&mut c, &["9", "*", "3"]);
    c.clear();
    let once = text(&c);
    assert_eq!(once, "");
    assert!(!c.correct_input());
    c.clear();
    assert_eq!(text(&c), once);
    assert!(!c.correct_input());
}

#[test]
fn guard_parity_along_button_sequence() {
    let mut c = Calculator::new();
    let presses: &[&str] = &["-", "5", "*", "2", "+", "8", ".", "3"];
    assert!(c.is_input_valid());
    for p in presses {
        c.check_input(p);
        assert!(c.is_input_valid(), "after press {:?}: {:?}", p, text(&c));
    }
    c.open_bracket();
    assert_eq!(text(&c), "-5*2+8.3");

    let mut d = Calculator::new();
    d.open_bracket();
    assert!(d.is_input_valid());
    d.check_input("2");
    assert!(d.is_input_valid());
    d.close_bracket();
    assert!(d.is_input_valid());
    assert_eq!(text(&d), "(2)");
}

#[test]
fn bracket_balance_never_negative() {
    let mut c = Calculator::new();
    c.open_bracket();
    c.check_input("1");
    c.close_bracket();
    c.close_bracket();
    c.close_bracket();
    assert_eq!(text(&c), "(1)");
    assert!(c.close_count() <= c.open_count());
    c.pop_last();
    assert!(c.close_count() <= c.open_count());
    c.pop_last();
    assert!(c.close_count() <= c.open_count());
    c.pop_last();
    c.pop_last();
    assert_eq!(text(&c), "");
    assert!(c.close_count() <= c.open_count());
}

#[test]
fn completeness_requires_balance_and_operand_tail() {
    let mut c = Calculator::new();
    assert!(!c.correct_input());
    c.check_input("3");
    assert!(c.correct_input());
    c.check_input("+");
    assert!(!c.correct_input());
    let mut d = Calculator::new();
    d.open_bracket();
    d.check_input("2");
    assert!(!d.correct_input());
    d.close_bracket();
    assert!(d.correct_input());
}

#[test]
fn lookback_accessors() {
    let mut c = Calculator::new();
    assert_eq!(c.last_char(), None);
    assert_eq!(c.second_to_last(), None);
    assert_eq!(c.third_to_last(), None);
    press_all(&mut c, &["1", "+", "2"]);
    assert_eq!(c.last_char(), Some('2'));
    assert_eq!(c.second_to_last(), Some('+'));
    assert_eq!(c.third_to_last(), Some('1'));
}

#[test]
fn rollback_drops_invalid_typed_character() {
    let mut c = Calculator::new();
    c.append('3');
    c.append('+');
    c.append('+');
    assert!(!c.is_input_valid());
    c.rollback_invalid_input();
    assert_eq!(text(&c), "3+");
    c.rollback_invalid_input();
    assert_eq!(text(&c), "3+");
}

#[test]
fn rollback_drops_unmatched_close_bracket() {
    let mut c = Calculator::new();
    c.append(')');
    assert!(!c.is_input_valid());
    c.rollback_invalid_input();
    assert_eq!(text(&c), "");

    let mut d = Calculator::new();
    d.append('2');
    d.append(')');
    assert!(!d.is_input_valid());
    d.rollback_invalid_input();
    assert_eq!(text(&d), "2");
}

#[test]
fn rollback_drops_character_outside_alphabet() {
    let mut c = Calculator::new();
    c.append('5');
    c.append('x');
    assert!(!c.is_input_valid());
    c.rollback_invalid_input();
    assert_eq!(text(&c), "5");
}

#[test]
fn evaluate_ignores_incomplete_buffer() {
    let mut c = Calculator::new();
    press_all(&mut c, &["3", "+"]);
    let failure = c.evaluate();
    assert!(failure.is_none());
    assert_eq!(text(&c), "3+");
}

#[test]
fn evaluate_failure_leaves_buffer_and_reports() {
    let mut c = Calculator::new();
    c.append('(');
    c.append(')');
    assert!(c.correct_input());
    let failure = c.evaluate();
    let message = failure.expect("an empty group cannot be evaluated");
    assert!(message.starts_with("Calculation error:"));
    assert_eq!(text(&c), "()");
}

#[test]
fn evaluate_formats_fractional_result() {
    let mut c = Calculator::new();
    press_all(&mut c, &["5", "/", "2"]);
    assert!(c.evaluate().is_none());
    assert_eq!(text(&c), "2.5");
}

#[test]
fn result_starts_a_fresh_complete_session() {
    let mut c = Calculator::new();
    press_all(&mut c, &["8", "/", "2"]);
    assert!(c.evaluate().is_none());
    assert_eq!(text(&c), "4");
    assert!(c.correct_input());
    press_all(&mut c, &["+", "1"]);
    assert!(c.evaluate().is_none());
    assert_eq!(text(&c), "5");
}

#[test]
fn nested_expression_evaluates() {
    let mut c = Calculator::new();
    c.open_bracket();
    press_all(&mut c, &["1", "+", "2"]);
    c.close_bracket();
    press_all(&mut c, &["*", "4"]);
    assert_eq!(text(&c), "(1+2)*4");
    assert!(c.evaluate().is_none());
    assert_eq!(text(&c), "12");
}

#[test]
fn pop_last_on_empty_is_noop() {
    let mut c = Calculator::new();
    c.pop_last();
    assert_eq!(text(&c), "");
    c.check_input("4");
    c.pop_last();
    assert_eq!(text(&c), "");
}

#[test]
fn default_is_empty_session() {
    let c = Calculator::default();
    assert_eq!(text(&c), "");
    assert!(!c.correct_input());
}

#[test]
fn replace_with_installs_new_text() {
    let mut c = Calculator::new();
    c.check_input("9");
    c.replace_with(vec!['4', '2']);
    assert_eq!(text(&c), "42");
}

#[test]
fn operator_after_open_bracket_keeps_paths_agreeing() {
    // The insertion guard accepts a binary operator right after an open
    // parenthesis, and the retroactive validator accepts the resulting
    // buffer too: the two validation paths express one grammar.
    let mut c = Calculator::new();
    c.open_bracket();
    c.check_input("+");
    assert_eq!(text(&c), "(+");
    assert!(c.is_input_valid());
    c.rollback_invalid_input();
    assert_eq!(text(&c), "(+");
}

#[test]
fn minus_rejected_after_trailing_decimal_point() {
    let mut c = Calculator::new();
    c.append('.');
    c.check_input("-");
    assert_eq!(text(&c), ".");

    let mut d = Calculator::new();
    press_all(&mut d, &["4", "."]);
    d.check_input("-");
    assert_eq!(text(&d), "4.");
}

#[test]
fn rollback_drops_minus_typed_after_decimal_point() {
    let mut c = Calculator::new();
    c.append('.');
    c.append('-');
    assert!(!c.is_input_valid());
    c.rollback_invalid_input();
    assert_eq!(text(&c), ".");
}

use math_evaluator::error::Error;
use math_evaluator::evaluator::eval;
use math_evaluator::state::State;

fn store_with_x() -> State {
    let mut state = State::new();
    state.set("x".to_string(), 42);
    state
}

#[test]
fn constant() {
    let mut state = store_with_x();

    let result = eval("42", &mut state);
    assert_eq!(result, Ok(42));
}

#[test]
fn variable() {
    let mut state = store_with_x();

    let result = eval("x", &mut state);
    assert_eq!(result, Ok(42));
}

#[test]
fn unary_operator() {
    let mut state = State::new();

    let result = eval("-12", &mut state);
    assert_eq!(result, Ok(-12));
    let result = eval("22", &mut state);
    assert_eq!(result, Ok(22));
}

#[test]
fn binary_operator() {
    let mut state = State::new();

    let result = eval("12 + 12", &mut state);
    assert_eq!(result, Ok(24));
    let result = eval("12 - 2", &mut state);
    assert_eq!(result, Ok(10));
    let result = eval("12 * 4", &mut state);
    assert_eq!(result, Ok(48));
    let result = eval("12 / 8", &mut state);
    assert_eq!(result, Ok(1));
}

#[test]
fn order_of_operations() {
    let mut state = State::new();

    let result = eval("10 + 12 * 4", &mut state);
    assert_eq!(result, Ok(58));
    let result = eval("10 * 12 + 4", &mut state);
    assert_eq!(result, Ok(124));
}

#[test]
fn chained_operations() {
    let mut state = State::new();

    let result = eval("24 / 8 / 2", &mut state);
    assert_eq!(result, Ok(1));

    let result = eval("24 / 8 * 2", &mut state);
    assert_eq!(result, Ok(6));

    let result = eval("a = 1 + b = 2", &mut state);
    assert_eq!(result, Ok(3));
    let result = eval("a", &mut state);
    assert_eq!(result, Ok(3));
    let result = eval("b", &mut state);
    assert_eq!(result, Ok(2));
}

#[test]
fn parenthesis() {
    let mut state = State::new();

    let result = eval("(12 + 12) * 5 + 2 * 4 ", &mut state);
    assert_eq!(result, Ok(128));
}

#[test]
fn variables() {
    let mut state = State::new();

    let result = eval("x = 12", &mut state);
    assert_eq!(result, Ok(12));
    let result = eval("x + 1", &mut state);
    assert_eq!(result, Ok(13));
}

#[test]
fn variables_in_parenthesis() {
    let mut state = State::new();

    let result = eval("(x = 12) + (x = 7)", &mut state);
    assert_eq!(result, Ok(19));
    let result = eval("x", &mut state);
    assert_eq!(result, Ok(7));
}

#[test]
fn plus_sign_keeps_the_value() {
    let mut state = State::new();
    assert_eq!(eval("+17", &mut state), Ok(17));
    assert_eq!(eval("-0", &mut state), Ok(0));
    assert_eq!(eval("007", &mut state), Ok(7));
}

#[test]
fn sum_then_product() {
    let mut state = State::new();
    assert_eq!(eval("2 + 3 * 4", &mut state), Ok(14));
    assert_eq!(eval("2 * 3 + 4", &mut state), Ok(10));
    assert_eq!(eval("(2 + 3) * 4", &mut state), Ok(20));
}

#[test]
fn sign_after_operator() {
    let mut state = State::new();
    assert_eq!(eval("2 * -3", &mut state), Ok(-6));
    assert_eq!(eval("1 - -1", &mut state), Ok(2));
    assert_eq!(eval("--4", &mut state), Ok(4));
    assert_eq!(eval("-2 + 3", &mut state), Ok(1));
}

#[test]
fn division_truncates_toward_zero() {
    let mut state = State::new();
    assert_eq!(eval("7 / 2", &mut state), Ok(3));
    assert_eq!(eval("-7 / 2", &mut state), Ok(-3));
    assert_eq!(eval("7 / -2", &mut state), Ok(-3));
    assert_eq!(eval("-7 / -2", &mut state), Ok(3));
}

#[test]
fn arithmetic_wraps_around() {
    let mut state = State::new();
    assert_eq!(eval("2147483647 + 1", &mut state), Ok(i32::MIN));
    assert_eq!(eval("-2147483647 - 2", &mut state), Ok(i32::MAX));
    assert_eq!(eval("65536 * 65536", &mut state), Ok(0));
    assert_eq!(eval("(-2147483647 - 1) / -1", &mut state), Ok(i32::MIN));
    assert_eq!(eval("-(-2147483647 - 1)", &mut state), Ok(i32::MIN));
}

#[test]
fn literal_out_of_range_is_a_syntax_error() {
    let mut state = State::new();
    assert_eq!(eval("2147483647", &mut state), Ok(i32::MAX));
    assert_eq!(eval("2147483648", &mut state), Err(Error::InvalidSyntax));
    assert_eq!(eval("-2147483648", &mut state), Err(Error::InvalidSyntax));
}

#[test]
fn digits_absorb_letters() {
    let mut state = State::new();
    state.set("x".to_string(), 5);
    assert_eq!(eval("12x", &mut state), Err(Error::InvalidSyntax));
    state.set("x1".to_string(), 9);
    assert_eq!(eval("x1", &mut state), Ok(9));
}

#[test]
fn unexpected_character_is_a_syntax_error() {
    let mut state = State::new();
    assert_eq!(eval("1 % 2", &mut state), Err(Error::InvalidSyntax));
    assert_eq!(eval("", &mut state), Err(Error::InvalidSyntax));
    assert_eq!(eval("   ", &mut state), Err(Error::InvalidSyntax));
    assert_eq!(eval("1 2", &mut state), Err(Error::InvalidSyntax));
    assert_eq!(eval("()", &mut state), Err(Error::InvalidSyntax));
}

#[test]
fn whitespace_of_every_kind_is_skipped() {
    let mut state = State::new();
    assert_eq!(eval("\t1\n+\r2\x0C", &mut state), Ok(3));
}

#[test]
fn unassigned_variable() {
    let mut state = State::new();
    assert_eq!(
        eval("y + 1", &mut state),
        Err(Error::UninitializedVariable("y".to_string()))
    );
}

#[test]
fn assignment_to_non_variable() {
    let mut state = State::new();
    assert_eq!(eval("1 = 2", &mut state), Err(Error::CanOnlyAssignToVariable));
    assert_eq!(eval("(x) = 2", &mut state), Err(Error::CanOnlyAssignToVariable));
    assert_eq!(state.get("x"), None);
}

#[test]
fn unmatched_parentheses() {
    let mut state = State::new();
    assert_eq!(eval("(1 + 2", &mut state), Err(Error::InvalidSyntax));
    assert_eq!(eval("1 + 2)", &mut state), Err(Error::InvalidSyntax));
    assert_eq!(eval("((1)", &mut state), Err(Error::InvalidSyntax));
}

#[test]
fn dangling_operators() {
    let mut state = State::new();
    assert_eq!(eval("1 +", &mut state), Err(Error::InvalidSyntax));
    assert_eq!(eval("* 1", &mut state), Err(Error::InvalidSyntax));
    assert_eq!(eval("x =", &mut state), Err(Error::InvalidSyntax));
    assert_eq!(eval("= 1", &mut state), Err(Error::InvalidSyntax));
}

#[test]
fn division_by_zero_is_an_error() {
    let mut state = State::new();
    assert_eq!(eval("1 / 0", &mut state), Err(Error::DivisionByZero));
    assert_eq!(eval("1 / (2 - 2)", &mut state), Err(Error::DivisionByZero));
    assert_eq!(eval("1 + 1", &mut state), Ok(2));
}

#[test]
fn syntax_error_assigns_nothing() {
    let mut state = State::new();
    assert_eq!(eval("x = 1 +", &mut state), Err(Error::InvalidSyntax));
    assert_eq!(state.get("x"), None);
}

#[test]
fn assignments_before_a_failure_stay() {
    let mut state = State::new();
    assert_eq!(
        eval("(x = 5) + y", &mut state),
        Err(Error::UninitializedVariable("y".to_string()))
    );
    assert_eq!(state.get("x"), Some(5));
    assert_eq!(
        eval("z = 1 + w", &mut state),
        Err(Error::UninitializedVariable("w".to_string()))
    );
    assert_eq!(state.get("z"), None);
}

#[test]
fn names_are_case_sensitive() {
    let mut state = State::new();
    assert_eq!(eval("v = 3", &mut state), Ok(3));
    assert_eq!(
        eval("V", &mut state),
        Err(Error::UninitializedVariable("V".to_string()))
    );
}

#[test]
fn subtraction_groups_to_the_left() {
    let mut state = State::new();
    assert_eq!(eval("10 - 4 - 3", &mut state), Ok(3));
    assert_eq!(eval("100 / 10 / 5", &mut state), Ok(2));
}

#[test]
fn chained_assignment_to_one_name() {
    let mut state = State::new();
    assert_eq!(eval("p = 4 + p = 5", &mut state), Ok(9));
    assert_eq!(state.get("p"), Some(9));
}

#[test]
fn assignment_binds_only_the_operand_before_it() {
    let mut state = State::new();
    assert_eq!(eval("2 * y = 3", &mut state), Ok(6));
    assert_eq!(state.get("y"), Some(3));
    assert_eq!(eval("-z = 4", &mut state), Ok(-4));
    assert_eq!(state.get("z"), Some(4));
}

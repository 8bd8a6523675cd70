use math_evaluator::error::Error;
use math_evaluator::state::State;
use math_evaluator::token::{OperandsToken, OperationToken, Token, TokenIterator};

#[test]
fn store_get_and_set() {
    let mut state = State::new();
    assert_eq!(state.get("a"), None);
    state.set("a".to_string(), 1);
    state.set("b".to_string(), 2);
    state.set("a".to_string(), 3);
    assert_eq!(state.get("a"), Some(3));
    assert_eq!(state.get("b"), Some(2));
    assert_eq!(state.get("c"), None);
}

#[test]
fn error_messages() {
    assert_eq!(
        Error::UninitializedVariable("abc".to_string()).message(),
        "Uninitialized variable: abc"
    );
    assert_eq!(Error::InvalidSyntax.message(), "Invalid syntax");
    assert_eq!(
        Error::CanOnlyAssignToVariable.message(),
        "Can only assign to variable"
    );
    assert_eq!(Error::DivisionByZero.message(), "Division by zero");
}

#[test]
fn tokens_of_a_text() {
    let mut tokens = TokenIterator::new(" ab1 = (12 + x)*3/4-5 12y ?");
    let mut all = Vec::new();
    while let Some(t) = tokens.next() {
        all.push(t);
    }
    assert_eq!(
        all,
        vec![
            Token::Operand(OperandsToken::Variable("ab1".to_string())),
            Token::Operation(OperationToken::Assign),
            Token::OpenParenthesis,
            Token::Operand(OperandsToken::Constant(12)),
            Token::Operation(OperationToken::Plus),
            Token::Operand(OperandsToken::Variable("x".to_string())),
            Token::CloseParenthesis,
            Token::Operation(OperationToken::Multiply),
            Token::Operand(OperandsToken::Constant(3)),
            Token::Operation(OperationToken::Divide),
            Token::Operand(OperandsToken::Constant(4)),
            Token::Operation(OperationToken::Minus),
            Token::Operand(OperandsToken::Constant(5)),
            Token::Unexpected,
            Token::Unexpected,
        ]
    );
    assert_eq!(tokens.next(), None);
}

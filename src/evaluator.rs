use vstd::prelude::*;
use crate::error::{Error, ErrorView, result_view};
use crate::node::{BinaryOperator, Expr, Node, UnaryOperator, eval_expr};
use crate::state::State;
use crate::token::{
    OperandView, OperandsToken, OperationToken, Token, TokenIterator, TokenView, lex,
};

verus! {

/// An operator waiting on the operator stack, or the `(` that opened a group.
#[derive(Debug, Clone, Copy, PartialEq, Eq, Structural)]
pub enum Operation {
    UnaryPlus,
    UnaryMinus,
    BinaryPlus,
    BinaryMinus,
    Multiply,
    Divide,
    Assign,
    OpenParenthesis,
}

/// How tightly an operator binds: `*` and `/` tighter than the signs and
/// `+` and `-`, which bind tighter than `=`.
pub open spec fn precedence(op: Operation) -> int {
    match op {
        Operation::Multiply | Operation::Divide => 3,
        Operation::UnaryPlus | Operation::UnaryMinus | Operation::BinaryPlus
        | Operation::BinaryMinus => 2,
        Operation::Assign => 1,
        Operation::OpenParenthesis => 0,
    }
}

/// Whether the operator `top` on the stack is folded before `incoming` is
/// pushed.
///
/// An infix `+`, `-`, `*` or `/` folds the pending operators that bind at
/// least as tightly (left associativity), down to the nearest `(`. A sign and
/// `(` have no left operand and fold nothing. Nor does `=`: its target is the
/// operand just before it, and all that follows becomes its right side, so a
/// run of assignments groups to the right.
pub open spec fn folds_before(top: Operation, incoming: Operation) -> bool {
    &&& top != Operation::OpenParenthesis
    &&& (incoming == Operation::BinaryPlus || incoming == Operation::BinaryMinus || incoming
        == Operation::Multiply || incoming == Operation::Divide)
    &&& precedence(top) >= precedence(incoming)
}

pub open spec fn unary_operator(op: Operation) -> UnaryOperator {
    if op == Operation::UnaryMinus {
        UnaryOperator::Minus
    } else {
        UnaryOperator::Plus
    }
}

pub open spec fn binary_operator(op: Operation) -> BinaryOperator {
    match op {
        Operation::BinaryPlus => BinaryOperator::Add,
        Operation::BinaryMinus => BinaryOperator::Subtract,
        Operation::Multiply => BinaryOperator::Multiply,
        Operation::Divide => BinaryOperator::Divide,
        _ => BinaryOperator::Assign,
    }
}

/// Folds `op` into a node made of the operands on top of the operand stack;
/// `None` when they are missing, or when `op` is a `(` that is never closed.
pub open spec fn apply_operation(op: Operation, operands: Seq<Expr>) -> Option<Seq<Expr>> {
    let n = operands.len();
    match op {
        Operation::OpenParenthesis => None,
        Operation::UnaryPlus | Operation::UnaryMinus => if n >= 1 {
            Some(
                operands.drop_last().push(
                    Expr::Unary(unary_operator(op), Box::new(operands[n - 1])),
                ),
            )
        } else {
            None
        },
        _ => if n >= 2 {
            Some(
                operands.take(n - 2).push(
                    Expr::Binary(
                        binary_operator(op),
                        Box::new(operands[n - 2]),
                        Box::new(operands[n - 1]),
                    ),
                ),
            )
        } else {
            None
        },
    }
}

/// The two stacks of the parser, and whether an operand comes next.
pub struct ParseState {
    pub operands: Seq<Expr>,
    pub operators: Seq<Operation>,
    pub expect_operand: bool,
}

/// The state before the first token.
pub open spec fn initial_state() -> ParseState {
    ParseState { operands: Seq::empty(), operators: Seq::empty(), expect_operand: true }
}

/// Folds the operators on top of the stack that `folds_before` the operator
/// `incoming`.
pub open spec fn fold_while(operands: Seq<Expr>, operators: Seq<Operation>, incoming: Operation)
    -> Option<(Seq<Expr>, Seq<Operation>)>
    decreases operators.len(),
{
    if operators.len() > 0 && folds_before(operators.last(), incoming) {
        match apply_operation(operators.last(), operands) {
            Some(folded) => fold_while(folded, operators.drop_last(), incoming),
            None => None,
        }
    } else {
        Some((operands, operators))
    }
}

/// At a `)`: folds the operators down to the matching `(`, drops it and
/// wraps the operand on top in a group; `None` when there is no `(`.
pub open spec fn close_group(operands: Seq<Expr>, operators: Seq<Operation>) -> Option<
    (Seq<Expr>, Seq<Operation>),
>
    decreases operators.len(),
{
    if operators.len() == 0 {
        None
    } else if operators.last() == Operation::OpenParenthesis {
        if operands.len() >= 1 {
            Some(
                (
                    operands.drop_last().push(Expr::Group(Box::new(operands.last()))),
                    operators.drop_last(),
                ),
            )
        } else {
            None
        }
    } else {
        match apply_operation(operators.last(), operands) {
            Some(folded) => close_group(folded, operators.drop_last()),
            None => None,
        }
    }
}

/// At the end of the input: folds every operator left on the stack.
pub open spec fn fold_all(operands: Seq<Expr>, operators: Seq<Operation>) -> Option<Seq<Expr>>
    decreases operators.len(),
{
    if operators.len() == 0 {
        Some(operands)
    } else {
        match apply_operation(operators.last(), operands) {
            Some(folded) => fold_all(folded, operators.drop_last()),
            None => None,
        }
    }
}

/// Pushes `op` after folding what binds at least as tightly.
pub open spec fn push_operator(st: ParseState, op: Operation) -> Option<ParseState> {
    match fold_while(st.operands, st.operators, op) {
        Some((operands, operators)) => Some(
            ParseState { operands, operators: operators.push(op), expect_operand: true },
        ),
        None => None,
    }
}

pub open spec fn leaf(operand: OperandView) -> Expr {
    match operand {
        OperandView::Variable(name) => Expr::Variable(name),
        OperandView::Constant(value) => Expr::Constant(value),
    }
}

/// One token of the scan; `None` is a syntax error. `+` and `-` are signs
/// where an operand is expected and infix operators elsewhere.
pub open spec fn step(st: ParseState, t: TokenView) -> Option<ParseState> {
    match t {
        TokenView::Operand(operand) => if st.expect_operand {
            Some(
                ParseState {
                    operands: st.operands.push(leaf(operand)),
                    operators: st.operators,
                    expect_operand: false,
                },
            )
        } else {
            None
        },
        TokenView::Operation(OperationToken::Plus) => if st.expect_operand {
            push_operator(st, Operation::UnaryPlus)
        } else {
            push_operator(st, Operation::BinaryPlus)
        },
        TokenView::Operation(OperationToken::Minus) => if st.expect_operand {
            push_operator(st, Operation::UnaryMinus)
        } else {
            push_operator(st, Operation::BinaryMinus)
        },
        TokenView::Operation(OperationToken::Multiply) => if st.expect_operand {
            None
        } else {
            push_operator(st, Operation::Multiply)
        },
        TokenView::Operation(OperationToken::Divide) => if st.expect_operand {
            None
        } else {
            push_operator(st, Operation::Divide)
        },
        TokenView::Operation(OperationToken::Assign) => if st.expect_operand {
            None
        } else {
            push_operator(st, Operation::Assign)
        },
        TokenView::OpenParenthesis => if st.expect_operand {
            push_operator(st, Operation::OpenParenthesis)
        } else {
            None
        },
        TokenView::CloseParenthesis => if st.expect_operand {
            None
        } else {
            match close_group(st.operands, st.operators) {
                Some((operands, operators)) => Some(
                    ParseState { operands, operators, expect_operand: false },
                ),
                None => None,
            }
        },
        TokenView::Unexpected => None,
    }
}

/// After the last token: fold everything; exactly one operand must be left.
pub open spec fn finish(st: ParseState) -> Option<Expr> {
    match fold_all(st.operands, st.operators) {
        Some(operands) => if operands.len() == 1 {
            Some(operands[0])
        } else {
            None
        },
        None => None,
    }
}

pub open spec fn parse_from(st: ParseState, tokens: Seq<TokenView>) -> Option<Expr>
    decreases tokens.len(),
{
    if tokens.len() == 0 {
        finish(st)
    } else {
        match step(st, tokens[0]) {
            Some(next) => parse_from(next, tokens.drop_first()),
            None => None,
        }
    }
}

/// The syntax tree of a token sequence; `None` when it is not an expression.
pub open spec fn parse(tokens: Seq<TokenView>) -> Option<Expr> {
    parse_from(initial_state(), tokens)
}

/// The result of evaluating the text `text` against the variables `vars`,
/// and the variables afterwards. A syntax error leaves them as they were.
pub open spec fn evaluate(text: Seq<char>, vars: Map<Seq<char>, i32>) -> (
    Result<i32, ErrorView>,
    Map<Seq<char>, i32>,
) {
    match parse(lex(text)) {
        Some(e) => eval_expr(e, vars),
        None => (Err(ErrorView::InvalidSyntax), vars),
    }
}

pub open spec fn views(nodes: Seq<Node>) -> Seq<Expr> {
    nodes.map_values(|n: Node| n@)
}

proof fn lemma_views_push(nodes: Seq<Node>, n: Node)
    ensures
        views(nodes.push(n)) == views(nodes).push(n@),
{
    assert(views(nodes.push(n)) =~= views(nodes).push(n@));
}

proof fn lemma_views_drop_last(nodes: Seq<Node>)
    requires
        nodes.len() > 0,
    ensures
        views(nodes.drop_last()) == views(nodes).drop_last(),
{
    assert(views(nodes.drop_last()) =~= views(nodes).drop_last());
}

fn precedence_of(op: Operation) -> (r: u8)
    ensures
        r as int == precedence(op),
{
    match op {
        Operation::Multiply | Operation::Divide => 3,
        Operation::UnaryPlus | Operation::UnaryMinus | Operation::BinaryPlus
        | Operation::BinaryMinus => 2,
        Operation::Assign => 1,
        Operation::OpenParenthesis => 0,
    }
}

fn should_fold(top: Operation, incoming: Operation) -> (r: bool)
    ensures
        r == folds_before(top, incoming),
{
    let infix = match incoming {
        Operation::BinaryPlus | Operation::BinaryMinus | Operation::Multiply
        | Operation::Divide => true,
        _ => false,
    };
    top != Operation::OpenParenthesis && infix && precedence_of(top) >= precedence_of(incoming)
}

/// Pops the operands of `operation` and pushes the node that applies it to
/// them; `false` when the operands are missing or `operation` is a `(`.
fn collapse(operation: Operation, nodes: &mut Vec<Node>) -> (r: bool)
    ensures
        match apply_operation(operation, views(old(nodes)@)) {
            Some(folded) => r && views(final(nodes)@) == folded,
            None => !r,
        },
{
    let ghost before = views(nodes@);
    match operation {
        Operation::OpenParenthesis => false,
        Operation::UnaryPlus | Operation::UnaryMinus => {
            let sign = if operation == Operation::UnaryMinus {
                UnaryOperator::Minus
            } else {
                UnaryOperator::Plus
            };
            match nodes.pop() {
                Some(child) => {
                    proof {
                        lemma_views_drop_last(old(nodes)@);
                    }
                    let node = Node::Unary { sign, child: Box::new(child) };
                    nodes.push(node);
                    proof {
                        lemma_views_push(old(nodes)@.drop_last(), node);
                    }
                    true
                },
                None => false,
            }
        },
        _ => {
            if nodes.len() < 2 {
                return false;
            }
            let operator = match operation {
                Operation::BinaryPlus => BinaryOperator::Add,
                Operation::BinaryMinus => BinaryOperator::Subtract,
                Operation::Multiply => BinaryOperator::Multiply,
                Operation::Divide => BinaryOperator::Divide,
                _ => BinaryOperator::Assign,
            };
            let ghost n = nodes@.len();
            let right = nodes.pop().unwrap();
            let left = nodes.pop().unwrap();
            proof {
                assert(nodes@ =~= old(nodes)@.take(n - 2));
                assert(views(nodes@) =~= before.take(n - 2));
            }
            let node = Node::Binary { operator, left: Box::new(left), right: Box::new(right) };
            nodes.push(node);
            proof {
                lemma_views_push(old(nodes)@.take(n - 2), node);
            }
            true
        },
    }
}

/// Folds the operators that `folds_before` the operator `incoming`.
fn fold_before_push(incoming: Operation, nodes: &mut Vec<Node>, operations: &mut Vec<Operation>) -> (r:
    bool)
    ensures
        match fold_while(views(old(nodes)@), old(operations)@, incoming) {
            Some((operands, operators)) => r && views(final(nodes)@) == operands
                && final(operations)@ == operators,
            None => !r,
        },
{
    loop
        invariant
            fold_while(views(nodes@), operations@, incoming) == fold_while(
                views(old(nodes)@),
                old(operations)@,
                incoming,
            ),
        decreases operations@.len(),
    {
        let len = operations.len();
        if len == 0 || !should_fold(operations[len - 1], incoming) {
            return true;
        }
        let top = operations.pop().unwrap();
        if !collapse(top, nodes) {
            return false;
        }
    }
}

/// At a `)`: folds the operators down to the matching `(`, which goes, and
/// wraps the operand on top in a group.
fn close_parenthesis(nodes: &mut Vec<Node>, operations: &mut Vec<Operation>) -> (r: bool)
    ensures
        match close_group(views(old(nodes)@), old(operations)@) {
            Some((operands, operators)) => r && views(final(nodes)@) == operands
                && final(operations)@ == operators,
            None => !r,
        },
{
    loop
        invariant
            close_group(views(nodes@), operations@) == close_group(
                views(old(nodes)@),
                old(operations)@,
            ),
        decreases operations@.len(),
    {
        match operations.pop() {
            None => {
                return false;
            },
            Some(Operation::OpenParenthesis) => {
                let ghost before = nodes@;
                match nodes.pop() {
                    Some(child) => {
                        proof {
                            lemma_views_drop_last(before);
                        }
                        let node = Node::Parenthesis { child: Box::new(child) };
                        nodes.push(node);
                        proof {
                            lemma_views_push(before.drop_last(), node);
                        }
                        return true;
                    },
                    None => {
                        return false;
                    },
                }
            },
            Some(top) => {
                if !collapse(top, nodes) {
                    return false;
                }
            },
        }
    }
}

/// At the end of the input: folds every operator left.
fn fold_remaining(nodes: &mut Vec<Node>, operations: &mut Vec<Operation>) -> (r: bool)
    ensures
        match fold_all(views(old(nodes)@), old(operations)@) {
            Some(operands) => r && views(final(nodes)@) == operands,
            None => !r,
        },
{
    loop
        invariant
            fold_all(views(nodes@), operations@) == fold_all(views(old(nodes)@), old(operations)@),
        decreases operations@.len(),
    {
        match operations.pop() {
            None => {
                return true;
            },
            Some(top) => {
                if !collapse(top, nodes) {
                    return false;
                }
            },
        }
    }
}

/// The parser state that the two stacks and the flag stand for.
pub open spec fn model(nodes: Seq<Node>, operations: Seq<Operation>, expect_operand: bool) -> ParseState {
    ParseState { operands: views(nodes), operators: operations, expect_operand }
}

/// Pushes `operation` after folding what binds at least as tightly.
fn push_operation(
    operation: Operation,
    nodes: &mut Vec<Node>,
    operations: &mut Vec<Operation>,
    expect_operand: &mut bool,
) -> (r: bool)
    ensures
        match push_operator(model(old(nodes)@, old(operations)@, *old(expect_operand)), operation) {
            Some(st) => r && model(final(nodes)@, final(operations)@, *final(expect_operand)) == st,
            None => !r,
        },
{
    if !fold_before_push(operation, nodes, operations) {
        return false;
    }
    operations.push(operation);
    *expect_operand = true;
    true
}

/// Feeds one token to the parser; `false` on a syntax error.
fn feed(
    token: Token,
    nodes: &mut Vec<Node>,
    operations: &mut Vec<Operation>,
    expect_operand: &mut bool,
) -> (r: bool)
    ensures
        match step(model(old(nodes)@, old(operations)@, *old(expect_operand)), token@) {
            Some(st) => r && model(final(nodes)@, final(operations)@, *final(expect_operand)) == st,
            None => !r,
        },
{
    let expecting = *expect_operand;
    match token {
        Token::Operand(operand) => {
            if !expecting {
                return false;
            }
            let node = match operand {
                OperandsToken::Variable(name) => Node::Variable { name },
                OperandsToken::Constant(value) => Node::Constant { value },
            };
            proof {
                lemma_views_push(nodes@, node);
            }
            nodes.push(node);
            *expect_operand = false;
            true
        },
        Token::Operation(op) => {
            let operation = match op {
                OperationToken::Plus => if expecting {
                    Operation::UnaryPlus
                } else {
                    Operation::BinaryPlus
                },
                OperationToken::Minus => if expecting {
                    Operation::UnaryMinus
                } else {
                    Operation::BinaryMinus
                },
                OperationToken::Multiply => Operation::Multiply,
                OperationToken::Divide => Operation::Divide,
                OperationToken::Assign => Operation::Assign,
            };
            let infix_only = match op {
                OperationToken::Multiply | OperationToken::Divide | OperationToken::Assign => true,
                _ => false,
            };
            if infix_only && expecting {
                return false;
            }
            push_operation(operation, nodes, operations, expect_operand)
        },
        Token::OpenParenthesis => {
            if !expecting {
                return false;
            }
            push_operation(Operation::OpenParenthesis, nodes, operations, expect_operand)
        },
        Token::CloseParenthesis => {
            if expecting {
                return false;
            }
            close_parenthesis(nodes, operations)
        },
        Token::Unexpected => false,
    }
}

/// Evaluates the expression `expression` against the variables of `state`.
///
/// The text is lexed, parsed into a syntax tree in one left-to-right scan,
/// and the tree is evaluated; assignments are kept in `state`.
pub fn eval(expression: &str, state: &mut State) -> (r: Result<i32, Error>)
    requires
        old(state).wf(),
    ensures
        final(state).wf(),
        (result_view(r), final(state)@) == evaluate(expression@, old(state)@),
{
    let mut tokens = TokenIterator::new(expression);
    let mut nodes: Vec<Node> = Vec::new();
    let mut operations: Vec<Operation> = Vec::new();
    let mut expect_operand = true;
    let ghost all = lex(expression@);
    proof {
        assert(views(nodes@) =~= Seq::<Expr>::empty());
    }
    loop
        invariant
            tokens.wf(),
            *state == *old(state),
            old(state).wf(),
            all == lex(expression@),
            parse_from(model(nodes@, operations@, expect_operand), tokens.remaining()) == parse(all),
        ensures
            tokens.remaining() == Seq::<TokenView>::empty(),
            parse_from(model(nodes@, operations@, expect_operand), tokens.remaining()) == parse(all),
        decreases tokens.pending(),
    {
        let ghost st = model(nodes@, operations@, expect_operand);
        let ghost remaining = tokens.remaining();
        match tokens.next() {
            None => {
                break;
            },
            Some(token) => {
                proof {
                    assert(remaining[0] == token@);
                    assert(remaining.drop_first() == tokens.remaining());
                }
                if !feed(token, &mut nodes, &mut operations, &mut expect_operand) {
                    return Err(Error::InvalidSyntax);
                }
            },
        }
    }
    if !fold_remaining(&mut nodes, &mut operations) {
        return Err(Error::InvalidSyntax);
    }
    if nodes.len() != 1 {
        return Err(Error::InvalidSyntax);
    }
    let root = nodes.pop().unwrap();
    proof {
        assert(views(nodes@.push(root))[0] == root@);
    }
    root.eval(state)
}

} // verus!

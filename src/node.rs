use vstd::prelude::*;
use vstd::wrapping::i32_specs::{wrapping_add, wrapping_mul, wrapping_sub};
use crate::error::{Error, ErrorView, result_view};
use crate::state::State;

verus! {

/// A prefix sign.
#[derive(Debug, Clone, Copy, PartialEq, Eq, Structural)]
pub enum UnaryOperator {
    Plus,
    Minus,
}

/// An infix operator.
#[derive(Debug, Clone, Copy, PartialEq, Eq, Structural)]
pub enum BinaryOperator {
    Add,
    Subtract,
    Multiply,
    Divide,
    Assign,
}

/// A node of the syntax tree of an expression; each node owns its children.
pub enum Node {
    Variable { name: String },
    Constant { value: i32 },
    /// An explicit pair of parentheses around its child.
    Parenthesis { child: Box<Node> },
    Unary { sign: UnaryOperator, child: Box<Node> },
    /// For `Assign` the left side must be a variable; that is checked when
    /// the node is evaluated.
    Binary { operator: BinaryOperator, left: Box<Node>, right: Box<Node> },
}

/// Model of a [`Node`]: a variable is known by its characters.
pub enum Expr {
    Variable(Seq<char>),
    Constant(i32),
    Group(Box<Expr>),
    Unary(UnaryOperator, Box<Expr>),
    Binary(BinaryOperator, Box<Expr>, Box<Expr>),
}

pub open spec fn node_expr(n: Node) -> Expr
    decreases n,
{
    match n {
        Node::Variable { name } => Expr::Variable(name@),
        Node::Constant { value } => Expr::Constant(value),
        Node::Parenthesis { child } => Expr::Group(Box::new(node_expr(*child))),
        Node::Unary { sign, child } => Expr::Unary(sign, Box::new(node_expr(*child))),
        Node::Binary { operator, left, right } => Expr::Binary(
            operator,
            Box::new(node_expr(*left)),
            Box::new(node_expr(*right)),
        ),
    }
}

impl View for Node {
    type V = Expr;

    open spec fn view(&self) -> Expr {
        node_expr(*self)
    }
}

/// Division that rounds toward zero.
pub open spec fn trunc_div(a: int, b: int) -> int {
    let q = if a < 0 { -a } else { a } / if b < 0 { -b } else { b };
    if (a < 0) != (b < 0) {
        -q
    } else {
        q
    }
}

/// `a / b` rounded toward zero; the one quotient that does not fit,
/// `i32::MIN / -1`, wraps around to `i32::MIN`.
pub open spec fn quotient(a: i32, b: i32) -> i32 {
    let q = trunc_div(a as int, b as int);
    if q > i32::MAX {
        i32::MIN
    } else {
        q as i32
    }
}

/// A sign applied to a value; negation wraps around.
pub open spec fn apply_unary(operator: UnaryOperator, x: i32) -> i32 {
    match operator {
        UnaryOperator::Plus => x,
        UnaryOperator::Minus => wrapping_sub(0, x),
    }
}

/// An arithmetic operator applied to two values; `+`, `-` and `*` wrap
/// around, a division by zero fails.
pub open spec fn apply_binary(operator: BinaryOperator, a: i32, b: i32) -> Result<i32, ErrorView> {
    match operator {
        BinaryOperator::Add => Ok(wrapping_add(a, b)),
        BinaryOperator::Subtract => Ok(wrapping_sub(a, b)),
        BinaryOperator::Multiply => Ok(wrapping_mul(a, b)),
        BinaryOperator::Divide => if b == 0 {
            Err(ErrorView::DivisionByZero)
        } else {
            Ok(quotient(a, b))
        },
        BinaryOperator::Assign => Ok(b),
    }
}

/// The result of evaluating `e` against the variables `vars`, and the
/// variables afterwards.
///
/// Operands of an arithmetic operator are evaluated left before right; of an
/// assignment, the right side is evaluated first and its value is stored
/// under the variable on the left. Assignments made before a failure stay.
pub open spec fn eval_expr(e: Expr, vars: Map<Seq<char>, i32>) -> (Result<i32, ErrorView>, Map<Seq<char>, i32>)
    decreases e,
{
    match e {
        Expr::Constant(value) => (Ok(value), vars),
        Expr::Variable(name) => if vars.contains_key(name) {
            (Ok(vars[name]), vars)
        } else {
            (Err(ErrorView::UninitializedVariable(name)), vars)
        },
        Expr::Group(child) => eval_expr(*child, vars),
        Expr::Unary(operator, child) => {
            let (r, after) = eval_expr(*child, vars);
            match r {
                Ok(x) => (Ok(apply_unary(operator, x)), after),
                Err(err) => (Err(err), after),
            }
        },
        Expr::Binary(operator, left, right) => if operator == BinaryOperator::Assign {
            let (r, after) = eval_expr(*right, vars);
            match r {
                Ok(x) => match *left {
                    Expr::Variable(name) => (Ok(x), after.insert(name, x)),
                    _ => (Err(ErrorView::CanOnlyAssignToVariable), after),
                },
                Err(err) => (Err(err), after),
            }
        } else {
            let (l, middle) = eval_expr(*left, vars);
            match l {
                Ok(a) => {
                    let (r, after) = eval_expr(*right, middle);
                    match r {
                        Ok(b) => (apply_binary(operator, a, b), after),
                        Err(err) => (Err(err), after),
                    }
                },
                Err(err) => (Err(err), middle),
            }
        },
    }
}

fn unary(operator: UnaryOperator, x: i32) -> (r: i32)
    ensures
        r == apply_unary(operator, x),
{
    match operator {
        UnaryOperator::Plus => x,
        UnaryOperator::Minus => 0i32.wrapping_sub(x),
    }
}

fn binary(operator: BinaryOperator, a: i32, b: i32) -> (r: Result<i32, Error>)
    ensures
        result_view(r) == apply_binary(operator, a, b),
{
    match operator {
        BinaryOperator::Add => Ok(a.wrapping_add(b)),
        BinaryOperator::Subtract => Ok(a.wrapping_sub(b)),
        BinaryOperator::Multiply => Ok(a.wrapping_mul(b)),
        BinaryOperator::Divide => {
            if b == 0 {
                Err(Error::DivisionByZero)
            } else {
                match a.checked_div(b) {
                    Some(q) => Ok(q),
                    None => Ok(i32::MIN),
                }
            }
        },
        BinaryOperator::Assign => Ok(b),
    }
}

impl Node {
    /// Evaluates the tree against the variables of `state`, which keeps the
    /// assignments made.
    pub fn eval(&self, state: &mut State) -> (r: Result<i32, Error>)
        requires
            old(state).wf(),
        ensures
            final(state).wf(),
            (result_view(r), final(state)@) == eval_expr(self@, old(state)@),
        decreases self,
    {
        match self {
            Node::Variable { name } => match state.get(name.as_str()) {
                Some(value) => Ok(value),
                None => Err(Error::UninitializedVariable(name.clone())),
            },
            Node::Constant { value } => Ok(*value),
            Node::Parenthesis { child } => child.eval(state),
            Node::Unary { sign, child } => {
                let x = child.eval(state)?;
                Ok(unary(*sign, x))
            },
            Node::Binary { operator, left, right } => {
                if *operator == BinaryOperator::Assign {
                    let x = right.eval(state)?;
                    match &**left {
                        Node::Variable { name } => {
                            state.set(name.clone(), x);
                            Ok(x)
                        },
                        _ => Err(Error::CanOnlyAssignToVariable),
                    }
                } else {
                    let a = left.eval(state)?;
                    let b = right.eval(state)?;
                    binary(*operator, a, b)
                }
            },
        }
    }
}

} // verus!

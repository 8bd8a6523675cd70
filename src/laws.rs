//! Properties of evaluation, proved over the model that `eval` follows.
use vstd::prelude::*;
use crate::error::ErrorView;
use crate::evaluator::{evaluate, initial_state, parse, parse_from, step, ParseState};
use crate::node::{BinaryOperator, Expr, eval_expr, quotient};
use vstd::wrapping::i32_specs::{wrapping_add, wrapping_mul, wrapping_sub};
use crate::token::{
    OperandView, OperationToken, TokenView, all_digits, digits_value, is_digit, is_letter,
    is_space, is_word_char, lex, symbol_token, word_len, word_token,
};

verus! {

/// A decimal literal that lexes as an `i32` constant.
pub open spec fn is_literal(d: Seq<char>) -> bool {
    &&& d.len() > 0
    &&& all_digits(d)
    &&& digits_value(d) <= i32::MAX
}

pub open spec fn literal_value(d: Seq<char>) -> i32 {
    digits_value(d) as i32
}

/// A variable name: a letter, then letters and digits.
pub open spec fn is_name(v: Seq<char>) -> bool {
    &&& v.len() > 0
    &&& is_letter(v[0])
    &&& forall|i: int| 0 <= i < v.len() ==> is_word_char(#[trigger] v[i])
}

/// No word runs across the boundary between `p` and `q`.
pub open spec fn splits_words(p: Seq<char>, q: Seq<char>) -> bool {
    p.len() == 0 || q.len() == 0 || !is_word_char(p.last()) || !is_word_char(q[0])
}

proof fn lemma_word_len_concat(p: Seq<char>, q: Seq<char>)
    requires
        splits_words(p, q),
    ensures
        word_len(p) < p.len() ==> word_len(p + q) == word_len(p),
        0 < word_len(p) == p.len() ==> word_len(p + q) == p.len(),
    decreases p.len(),
{
    crate::token::lemma_word_len_bound(p);
    if p.len() > 0 {
        let s = p + q;
        assert(s[0] == p[0]);
        if is_word_char(p[0]) {
            assert(s.drop_first() =~= p.drop_first() + q);
            if p.len() > 1 {
                assert(p.drop_first().last() == p.last());
                lemma_word_len_concat(p.drop_first(), q);
            } else {
                assert(p.drop_first() + q =~= q);
                assert(p.last() == p[0]);
                assert(word_len(q) == 0);
                assert(word_len(s) == 1 + word_len(q));
            }
        }
    }
}

/// Lexing distributes over a concatenation that splits no word.
pub proof fn lemma_lex_concat(p: Seq<char>, q: Seq<char>)
    requires
        splits_words(p, q),
    ensures
        lex(p + q) == lex(p) + lex(q),
    decreases p.len(),
{
    if p.len() == 0 {
        assert(p + q =~= q);
        assert(lex(p) + lex(q) =~= lex(q));
    } else {
        let s = p + q;
        assert(s[0] == p[0]);
        if is_space(p[0]) || !is_word_char(p[0]) {
            assert(s.drop_first() =~= p.drop_first() + q);
            if p.len() > 1 {
                assert(p.drop_first().last() == p.last());
            }
            lemma_lex_concat(p.drop_first(), q);
            if is_space(p[0]) {
                assert(lex(s) == lex(p.drop_first() + q));
            } else {
                assert(lex(p) + lex(q) =~= seq![symbol_token(p[0])] + (lex(p.drop_first())
                    + lex(q)));
            }
        } else {
            lemma_word_len_concat(p, q);
            crate::token::lemma_word_len_bound(p);
            let n = word_len(p) as int;
            assert(n >= 1);
            assert(s.take(n) =~= p.take(n));
            if n < p.len() {
                assert(s.skip(n) =~= p.skip(n) + q);
                assert(p.skip(n).last() == p.last());
                assert(p.skip(n)[0] == p[n]);
                lemma_lex_concat(p.skip(n), q);
                assert(lex(p) + lex(q) =~= seq![word_token(p.take(n))] + (lex(p.skip(n))
                    + lex(q)));
            } else {
                assert(s.skip(n) =~= q);
                assert(p.skip(n) =~= Seq::<char>::empty());
                assert(lex(p) + lex(q) =~= seq![word_token(p.take(n))] + lex(q));
            }
        }
    }
}

proof fn lemma_word_len_whole(w: Seq<char>)
    requires
        forall|i: int| 0 <= i < w.len() ==> is_word_char(#[trigger] w[i]),
    ensures
        word_len(w) == w.len(),
    decreases w.len(),
{
    if w.len() > 0 {
        assert forall|i: int| 0 <= i < w.drop_first().len() implies is_word_char(
            #[trigger] w.drop_first()[i],
        ) by {
            assert(w.drop_first()[i] == w[i + 1]);
        }
        lemma_word_len_whole(w.drop_first());
    }
}

/// A literal is one constant token.
pub proof fn lemma_lex_literal(d: Seq<char>)
    requires
        is_literal(d),
    ensures
        lex(d) == seq![TokenView::Operand(OperandView::Constant(literal_value(d)))],
{
    lemma_word_len_whole(d);
    assert(d.take(d.len() as int) =~= d);
    assert(d.skip(d.len() as int) =~= Seq::<char>::empty());
    assert(lex(Seq::<char>::empty()) == Seq::<TokenView>::empty());
    assert(is_digit(d[0]));
    assert(word_token(d) == TokenView::Operand(OperandView::Constant(literal_value(d))));
}

/// A name is one variable token.
pub proof fn lemma_lex_name(v: Seq<char>)
    requires
        is_name(v),
    ensures
        lex(v) == seq![TokenView::Operand(OperandView::Variable(v))],
{
    lemma_word_len_whole(v);
    assert(v.take(v.len() as int) =~= v);
    assert(v.skip(v.len() as int) =~= Seq::<char>::empty());
    assert(lex(Seq::<char>::empty()) == Seq::<TokenView>::empty());
    assert(!is_digit(v[0]));
    assert(lex(v) == seq![word_token(v)] + lex(Seq::<char>::empty()));
}

/// The tokens of one character that is not part of a word.
pub proof fn lemma_lex_char(c: char)
    requires
        !is_word_char(c),
    ensures
        lex(seq![c]) == (if is_space(c) {
            Seq::<TokenView>::empty()
        } else {
            seq![symbol_token(c)]
        }),
{
    let s = seq![c];
    assert(s[0] == c);
    assert(s.drop_first() =~= Seq::<char>::empty());
    assert(lex(Seq::<char>::empty()) == Seq::<TokenView>::empty());
}

/// Parsing a token sequence takes its first token, then parses the rest.
proof fn lemma_parse_cons(st: ParseState, t: TokenView, rest: Seq<TokenView>)
    ensures
        parse_from(st, seq![t] + rest) == match step(st, t) {
            Some(next) => parse_from(next, rest),
            None => None,
        },
{
    let s = seq![t] + rest;
    assert(s[0] == t);
    assert(s.drop_first() =~= rest);
}

pub open spec fn constant(d: Seq<char>) -> TokenView {
    TokenView::Operand(OperandView::Constant(literal_value(d)))
}

pub open spec fn operation(op: OperationToken) -> TokenView {
    TokenView::Operation(op)
}

/// A literal evaluates to its value; after a `-` to its negation, after a
/// `+` to its value. The variables stay as they were.
pub proof fn law_literal(d: Seq<char>, vars: Map<Seq<char>, i32>)
    requires
        is_literal(d),
    ensures
        evaluate(d, vars) == (Ok::<i32, ErrorView>(literal_value(d)), vars),
        evaluate("-"@ + d, vars) == (Ok::<i32, ErrorView>((-digits_value(d)) as i32), vars),
        evaluate("+"@ + d, vars) == (Ok::<i32, ErrorView>(literal_value(d)), vars),
{
    reveal_strlit("-");
    reveal_strlit("+");
    reveal_with_fuel(crate::evaluator::fold_all, 3);
    reveal_with_fuel(eval_expr, 3);
    lemma_lex_literal(d);
    crate::token::lemma_digits_value_prefix(d, 0);
    let c = constant(d);
    lemma_parse_cons(initial_state(), c, Seq::empty());
    assert(seq![c] + Seq::<TokenView>::empty() =~= seq![c]);
    lemma_lex_char('-');
    lemma_lex_char('+');
    assert("-"@ =~= seq!['-']);
    assert("+"@ =~= seq!['+']);
    lemma_lex_concat("-"@, d);
    lemma_lex_concat("+"@, d);
    let minus = operation(OperationToken::Minus);
    let plus = operation(OperationToken::Plus);
    assert(lex("-"@ + d) =~= seq![minus] + seq![c]);
    assert(lex("+"@ + d) =~= seq![plus] + seq![c]);
    let st = step(initial_state(), minus)->0;
    lemma_parse_cons(initial_state(), minus, seq![c]);
    lemma_parse_cons(st, c, Seq::empty());
    let st = step(initial_state(), plus)->0;
    lemma_parse_cons(initial_state(), plus, seq![c]);
    lemma_parse_cons(st, c, Seq::empty());
}

/// An operator between two spaces is its one token.
proof fn lemma_lex_spaced(p: Seq<char>, op: char, q: Seq<char>)
    requires
        !is_word_char(op),
        !is_space(op),
    ensures
        lex(p + seq![' ', op, ' '] + q) == lex(p) + seq![symbol_token(op)] + lex(q),
{
    let s = seq![' ', op, ' '];
    assert(s =~= seq![' '] + seq![op] + seq![' ']);
    lemma_lex_char(' ');
    lemma_lex_char(op);
    lemma_lex_concat(seq![' '], seq![op]);
    lemma_lex_concat(seq![' '] + seq![op], seq![' ']);
    assert(lex(s) =~= seq![symbol_token(op)]);
    lemma_lex_concat(p, s);
    lemma_lex_concat(p + s, q);
}

/// `*` binds tighter than `+`, on either side.
pub proof fn law_product_before_sum(
    a: Seq<char>,
    b: Seq<char>,
    c: Seq<char>,
    vars: Map<Seq<char>, i32>,
)
    requires
        is_literal(a),
        is_literal(b),
        is_literal(c),
    ensures
        evaluate(a + " + "@ + b + " * "@ + c, vars) == (Ok::<i32, ErrorView>(
            wrapping_add(literal_value(a), wrapping_mul(literal_value(b), literal_value(c))),
        ), vars),
        evaluate(a + " * "@ + b + " + "@ + c, vars) == (Ok::<i32, ErrorView>(
            wrapping_add(wrapping_mul(literal_value(a), literal_value(b)), literal_value(c)),
        ), vars),
{
    reveal_strlit(" + ");
    reveal_strlit(" * ");
    reveal_with_fuel(parse_from, 6);
    reveal_with_fuel(crate::evaluator::fold_all, 4);
    reveal_with_fuel(crate::evaluator::fold_while, 3);
    reveal_with_fuel(eval_expr, 4);
    assert(" + "@ =~= seq![' ', '+', ' ']);
    assert(" * "@ =~= seq![' ', '*', ' ']);
    lemma_lex_literal(a);
    lemma_lex_literal(b);
    lemma_lex_literal(c);
    let plus = operation(OperationToken::Plus);
    let times = operation(OperationToken::Multiply);
    lemma_lex_spaced(a + " + "@ + b, '*', c);
    lemma_lex_spaced(a, '+', b);
    assert(lex(a + " + "@ + b + " * "@ + c) =~= seq![constant(a), plus, constant(b), times, constant(c)]);
    lemma_lex_spaced(a + " * "@ + b, '+', c);
    lemma_lex_spaced(a, '*', b);
    assert(lex(a + " * "@ + b + " + "@ + c) =~= seq![constant(a), times, constant(b), plus, constant(c)]);
}

/// `/`, `*` and `-` group to the left: `a / b / c` is `(a / b) / c`,
/// `a / b * c` is `(a / b) * c` and `a - b - c` is `(a - b) - c`.
pub proof fn law_left_associative(
    a: Seq<char>,
    b: Seq<char>,
    c: Seq<char>,
    vars: Map<Seq<char>, i32>,
)
    requires
        is_literal(a),
        is_literal(b),
        is_literal(c),
    ensures
        evaluate(a + " / "@ + b + " / "@ + c, vars) == (if literal_value(b) == 0
            || literal_value(c) == 0 {
            Err(ErrorView::DivisionByZero)
        } else {
            Ok(quotient(quotient(literal_value(a), literal_value(b)), literal_value(c)))
        }, vars),
        evaluate(a + " / "@ + b + " * "@ + c, vars) == (if literal_value(b) == 0 {
            Err(ErrorView::DivisionByZero)
        } else {
            Ok(wrapping_mul(quotient(literal_value(a), literal_value(b)), literal_value(c)))
        }, vars),
        evaluate(a + " - "@ + b + " - "@ + c, vars) == (Ok::<i32, ErrorView>(
            wrapping_sub(wrapping_sub(literal_value(a), literal_value(b)), literal_value(c)),
        ), vars),
{
    reveal_strlit(" / ");
    reveal_strlit(" * ");
    reveal_strlit(" - ");
    reveal_with_fuel(parse_from, 6);
    reveal_with_fuel(crate::evaluator::fold_all, 4);
    reveal_with_fuel(crate::evaluator::fold_while, 3);
    reveal_with_fuel(eval_expr, 4);
    assert(" / "@ =~= seq![' ', '/', ' ']);
    assert(" * "@ =~= seq![' ', '*', ' ']);
    assert(" - "@ =~= seq![' ', '-', ' ']);
    lemma_lex_literal(a);
    lemma_lex_literal(b);
    lemma_lex_literal(c);
    let over = operation(OperationToken::Divide);
    let times = operation(OperationToken::Multiply);
    let minus = operation(OperationToken::Minus);
    lemma_lex_spaced(a + " / "@ + b, '/', c);
    lemma_lex_spaced(a, '/', b);
    assert(lex(a + " / "@ + b + " / "@ + c) =~= seq![constant(a), over, constant(b), over, constant(c)]);
    lemma_lex_spaced(a + " / "@ + b, '*', c);
    assert(lex(a + " / "@ + b + " * "@ + c) =~= seq![constant(a), over, constant(b), times, constant(c)]);
    lemma_lex_spaced(a + " - "@ + b, '-', c);
    lemma_lex_spaced(a, '-', b);
    assert(lex(a + " - "@ + b + " - "@ + c) =~= seq![constant(a), minus, constant(b), minus, constant(c)]);
}

/// A division by zero is an error, and changes no variable.
pub proof fn law_division_by_zero(a: Seq<char>, vars: Map<Seq<char>, i32>)
    requires
        is_literal(a),
    ensures
        evaluate(a + " / 0"@, vars) == (Err::<i32, ErrorView>(ErrorView::DivisionByZero), vars),
{
    reveal_strlit(" / ");
    reveal_strlit(" / 0");
    reveal_strlit("0");
    reveal_with_fuel(parse_from, 4);
    reveal_with_fuel(crate::evaluator::fold_all, 3);
    reveal_with_fuel(eval_expr, 3);
    assert(" / 0"@ =~= seq![' ', '/', ' '] + "0"@);
    assert(a + " / 0"@ =~= a + seq![' ', '/', ' '] + "0"@);
    lemma_lex_literal(a);
    let zero = seq!['0'];
    assert("0"@ =~= zero);
    assert(zero.drop_last() =~= Seq::<char>::empty());
    assert(digits_value(Seq::<char>::empty()) == 0);
    assert(zero.last() == '0');
    assert(digits_value(zero) == 0);
    assert(is_literal(zero));
    lemma_lex_literal("0"@);
    lemma_lex_spaced(a, '/', "0"@);
    assert(literal_value("0"@) == 0);
    assert(lex(a + " / 0"@) =~= seq![constant(a), operation(OperationToken::Divide), constant("0"@)]);
}

/// Parentheses group a sum so that it is multiplied as a whole.
pub proof fn law_parentheses_group(
    a: Seq<char>,
    b: Seq<char>,
    c: Seq<char>,
    vars: Map<Seq<char>, i32>,
)
    requires
        is_literal(a),
        is_literal(b),
        is_literal(c),
    ensures
        evaluate("("@ + a + " + "@ + b + ") * "@ + c, vars) == (Ok::<i32, ErrorView>(
            wrapping_mul(wrapping_add(literal_value(a), literal_value(b)), literal_value(c)),
        ), vars),
{
    reveal_strlit("(");
    reveal_strlit(" + ");
    reveal_strlit(") * ");
    reveal_with_fuel(parse_from, 8);
    reveal_with_fuel(crate::evaluator::fold_all, 3);
    reveal_with_fuel(crate::evaluator::fold_while, 3);
    reveal_with_fuel(crate::evaluator::close_group, 3);
    reveal_with_fuel(eval_expr, 5);
    let open = seq!['('];
    let close = seq![')'];
    assert("("@ =~= open);
    assert(" + "@ =~= seq![' ', '+', ' ']);
    assert(") * "@ =~= close + seq![' ', '*', ' ']);
    lemma_lex_literal(a);
    lemma_lex_literal(b);
    lemma_lex_literal(c);
    lemma_lex_char('(');
    lemma_lex_char(')');
    lemma_lex_concat(open, a);
    lemma_lex_spaced(open + a, '+', b);
    lemma_lex_concat(open + a + " + "@ + b, close);
    assert(open + a + " + "@ + b + ") * "@ + c =~= (open + a + " + "@ + b + close) + seq![
        ' ',
        '*',
        ' ',
    ] + c);
    lemma_lex_spaced(open + a + " + "@ + b + close, '*', c);
    assert(lex("("@ + a + " + "@ + b + ") * "@ + c) =~= seq![
        TokenView::OpenParenthesis,
        constant(a),
        operation(OperationToken::Plus),
        constant(b),
        TokenView::CloseParenthesis,
        operation(OperationToken::Multiply),
        constant(c),
    ]);
}

pub open spec fn variable(v: Seq<char>) -> TokenView {
    TokenView::Operand(OperandView::Variable(v))
}

/// An assignment returns the value that it stores; the variable then reads
/// as that value.
pub proof fn law_assignment_persists(
    v: Seq<char>,
    d: Seq<char>,
    e: Seq<char>,
    vars: Map<Seq<char>, i32>,
)
    requires
        is_name(v),
        is_literal(d),
        is_literal(e),
    ensures
        evaluate(v + " = "@ + d, vars) == (Ok::<i32, ErrorView>(literal_value(d)), vars.insert(
            v,
            literal_value(d),
        )),
        evaluate(v + " + "@ + e, vars.insert(v, literal_value(d))) == (Ok::<i32, ErrorView>(
            wrapping_add(literal_value(d), literal_value(e)),
        ), vars.insert(v, literal_value(d))),
{
    reveal_strlit(" = ");
    reveal_strlit(" + ");
    reveal_with_fuel(parse_from, 4);
    reveal_with_fuel(crate::evaluator::fold_all, 3);
    reveal_with_fuel(eval_expr, 3);
    assert(" = "@ =~= seq![' ', '=', ' ']);
    assert(" + "@ =~= seq![' ', '+', ' ']);
    lemma_lex_name(v);
    lemma_lex_literal(d);
    lemma_lex_literal(e);
    lemma_lex_spaced(v, '=', d);
    lemma_lex_spaced(v, '+', e);
    assert(lex(v + " = "@ + d) =~= seq![variable(v), operation(OperationToken::Assign), constant(d)]);
    assert(lex(v + " + "@ + e) =~= seq![variable(v), operation(OperationToken::Plus), constant(e)]);
}

pub open spec fn chained_tree(x: Seq<char>, y: Seq<char>, c1: i32, c2: i32) -> Expr {
    Expr::Binary(
        BinaryOperator::Assign,
        Box::new(Expr::Variable(x)),
        Box::new(
            Expr::Binary(
                BinaryOperator::Add,
                Box::new(Expr::Constant(c1)),
                Box::new(
                    Expr::Binary(
                        BinaryOperator::Assign,
                        Box::new(Expr::Variable(y)),
                        Box::new(Expr::Constant(c2)),
                    ),
                ),
            ),
        ),
    )
}

proof fn lemma_lex_chained(x: Seq<char>, y: Seq<char>, d1: Seq<char>, d2: Seq<char>)
    requires
        is_name(x),
        is_name(y),
        is_literal(d1),
        is_literal(d2),
    ensures
        lex(x + " = "@ + d1 + " + "@ + y + " = "@ + d2) == seq![
            variable(x),
            operation(OperationToken::Assign),
            constant(d1),
            operation(OperationToken::Plus),
            variable(y),
            operation(OperationToken::Assign),
            constant(d2),
        ],
{
    reveal_strlit(" = ");
    reveal_strlit(" + ");
    assert(" = "@ =~= seq![' ', '=', ' ']);
    assert(" + "@ =~= seq![' ', '+', ' ']);
    lemma_lex_name(x);
    lemma_lex_name(y);
    lemma_lex_literal(d1);
    lemma_lex_literal(d2);
    lemma_lex_spaced(x + " = "@ + d1 + " + "@ + y, '=', d2);
    lemma_lex_spaced(x + " = "@ + d1, '+', y);
    lemma_lex_spaced(x, '=', d1);
    assert(lex(x + " = "@ + d1 + " + "@ + y + " = "@ + d2) =~= seq![
        variable(x),
        operation(OperationToken::Assign),
        constant(d1),
        operation(OperationToken::Plus),
        variable(y),
        operation(OperationToken::Assign),
        constant(d2),
    ]);
}

proof fn lemma_eval_chained(x: Seq<char>, y: Seq<char>, c1: i32, c2: i32, vars: Map<Seq<char>, i32>)
    ensures
        eval_expr(chained_tree(x, y, c1, c2), vars) == (Ok::<i32, ErrorView>(
            wrapping_add(c1, c2),
        ), vars.insert(y, c2).insert(x, wrapping_add(c1, c2))),
{
    reveal_with_fuel(eval_expr, 5);
}

/// Assignment groups to the right and takes just the variable before it:
/// `x = 1 + y = 2` is `x = (1 + (y = 2))`, which stores into `y` first.
pub proof fn law_chained_assignment(
    x: Seq<char>,
    y: Seq<char>,
    d1: Seq<char>,
    d2: Seq<char>,
    vars: Map<Seq<char>, i32>,
)
    requires
        is_name(x),
        is_name(y),
        is_literal(d1),
        is_literal(d2),
    ensures
        evaluate(x + " = "@ + d1 + " + "@ + y + " = "@ + d2, vars) == (Ok::<i32, ErrorView>(
            wrapping_add(literal_value(d1), literal_value(d2)),
        ), vars.insert(y, literal_value(d2)).insert(
            x,
            wrapping_add(literal_value(d1), literal_value(d2)),
        )),
        evaluate(
            x,
            vars.insert(y, literal_value(d2)).insert(
                x,
                wrapping_add(literal_value(d1), literal_value(d2)),
            ),
        ).0 == Ok::<i32, ErrorView>(wrapping_add(literal_value(d1), literal_value(d2))),
        x != y ==> evaluate(
            y,
            vars.insert(y, literal_value(d2)).insert(
                x,
                wrapping_add(literal_value(d1), literal_value(d2)),
            ),
        ).0 == Ok::<i32, ErrorView>(literal_value(d2)),
{
    let c1 = literal_value(d1);
    let c2 = literal_value(d2);
    lemma_lex_chained(x, y, d1, d2);
    lemma_parse_chained(x, y, c1, c2);
    lemma_eval_chained(x, y, c1, c2, vars);
    let after = vars.insert(y, c2).insert(x, wrapping_add(c1, c2));
    law_variable_read(x, after);
    law_variable_read(y, after);
}

proof fn lemma_parse_chained(x: Seq<char>, y: Seq<char>, c1: i32, c2: i32)
    ensures
        parse(
            seq![
                variable(x),
                operation(OperationToken::Assign),
                TokenView::Operand(OperandView::Constant(c1)),
                operation(OperationToken::Plus),
                variable(y),
                operation(OperationToken::Assign),
                TokenView::Operand(OperandView::Constant(c2)),
            ],
        ) == Some(chained_tree(x, y, c1, c2)),
{
    reveal_with_fuel(parse_from, 8);
    reveal_with_fuel(crate::evaluator::fold_all, 5);
    reveal_with_fuel(crate::evaluator::fold_while, 2);
}

/// A name reads as the variable's value, or fails when nothing was assigned
/// to it; either way the variables stay as they were.
pub proof fn law_variable_read(v: Seq<char>, vars: Map<Seq<char>, i32>)
    requires
        is_name(v),
    ensures
        evaluate(v, vars) == (if vars.contains_key(v) {
            Ok(vars[v])
        } else {
            Err(ErrorView::UninitializedVariable(v))
        }, vars),
{
    reveal_with_fuel(parse_from, 2);
    lemma_lex_name(v);
}

pub open spec fn group_assign(x: Seq<char>, c: i32) -> Expr {
    Expr::Group(
        Box::new(
            Expr::Binary(
                BinaryOperator::Assign,
                Box::new(Expr::Variable(x)),
                Box::new(Expr::Constant(c)),
            ),
        ),
    )
}

/// The tokens of `(x = d)`.
pub open spec fn group_assign_tokens(x: Seq<char>, c: i32) -> Seq<TokenView> {
    seq![
        TokenView::OpenParenthesis,
        variable(x),
        operation(OperationToken::Assign),
        TokenView::Operand(OperandView::Constant(c)),
        TokenView::CloseParenthesis,
    ]
}

proof fn lemma_lex_group_assign(x: Seq<char>, d: Seq<char>)
    requires
        is_name(x),
        is_literal(d),
    ensures
        lex(seq!['('] + x + " = "@ + d + seq![')']) == group_assign_tokens(x, literal_value(d)),
{
    reveal_strlit(" = ");
    let open = seq!['('];
    let close = seq![')'];
    assert(" = "@ =~= seq![' ', '=', ' ']);
    lemma_lex_name(x);
    lemma_lex_literal(d);
    lemma_lex_char('(');
    lemma_lex_char(')');
    lemma_lex_concat(open, x);
    lemma_lex_spaced(open + x, '=', d);
    lemma_lex_concat(open + x + " = "@ + d, close);
    assert(lex(open + x + " = "@ + d + close) =~= group_assign_tokens(x, literal_value(d)));
}

proof fn lemma_parse_group_sum(x: Seq<char>, c1: i32, c2: i32)
    ensures
        parse(
            group_assign_tokens(x, c1) + seq![operation(OperationToken::Plus)]
                + group_assign_tokens(x, c2),
        ) == Some(
            Expr::Binary(
                BinaryOperator::Add,
                Box::new(group_assign(x, c1)),
                Box::new(group_assign(x, c2)),
            ),
        ),
{
    reveal_with_fuel(parse_from, 12);
    reveal_with_fuel(crate::evaluator::fold_all, 2);
    reveal_with_fuel(crate::evaluator::fold_while, 2);
    reveal_with_fuel(crate::evaluator::close_group, 2);
    assert(group_assign_tokens(x, c1) + seq![operation(OperationToken::Plus)]
        + group_assign_tokens(x, c2) =~= seq![
        TokenView::OpenParenthesis,
        variable(x),
        operation(OperationToken::Assign),
        TokenView::Operand(OperandView::Constant(c1)),
        TokenView::CloseParenthesis,
        operation(OperationToken::Plus),
        TokenView::OpenParenthesis,
        variable(x),
        operation(OperationToken::Assign),
        TokenView::Operand(OperandView::Constant(c2)),
        TokenView::CloseParenthesis,
    ]);
}

/// Assignments in parentheses are made left to right: `(x = 1) + (x = 2)`
/// is 3, and `x` holds 2 afterwards.
pub proof fn law_assignments_in_parentheses(
    x: Seq<char>,
    d1: Seq<char>,
    d2: Seq<char>,
    vars: Map<Seq<char>, i32>,
)
    requires
        is_name(x),
        is_literal(d1),
        is_literal(d2),
    ensures
        evaluate("("@ + x + " = "@ + d1 + ") + ("@ + x + " = "@ + d2 + ")"@, vars) == (Ok::<
            i32,
            ErrorView,
        >(wrapping_add(literal_value(d1), literal_value(d2))), vars.insert(x, literal_value(d2))),
        evaluate(x, vars.insert(x, literal_value(d2))).0 == Ok::<i32, ErrorView>(
            literal_value(d2),
        ),
{
    reveal_strlit("(");
    reveal_strlit(")");
    reveal_strlit(") + (");
    let c1 = literal_value(d1);
    let c2 = literal_value(d2);
    let open = seq!['('];
    let close = seq![')'];
    let group1 = open + x + " = "@ + d1 + close;
    let group2 = open + x + " = "@ + d2 + close;
    assert("("@ + x + " = "@ + d1 + ") + ("@ + x + " = "@ + d2 + ")"@ =~= group1 + seq![
        ' ',
        '+',
        ' ',
    ] + group2);
    lemma_lex_group_assign(x, d1);
    lemma_lex_group_assign(x, d2);
    lemma_lex_spaced(group1, '+', group2);
    lemma_parse_group_sum(x, c1, c2);
    assert(eval_expr(group_assign(x, c1), vars) == (Ok::<i32, ErrorView>(c1), vars.insert(x, c1)))
        by {
        reveal_with_fuel(eval_expr, 3);
    }
    assert(eval_expr(group_assign(x, c2), vars.insert(x, c1)) == (Ok::<i32, ErrorView>(c2), vars.insert(x, c1).insert(x, c2)))
        by {
        reveal_with_fuel(eval_expr, 3);
    }
    assert(vars.insert(x, c1).insert(x, c2) =~= vars.insert(x, c2));
    law_variable_read(x, vars.insert(x, c2));
}

/// Only a variable can be assigned to: a literal on the left of `=` fails,
/// and changes no variable.
pub proof fn law_assignment_needs_variable(a: Seq<char>, b: Seq<char>, vars: Map<Seq<char>, i32>)
    requires
        is_literal(a),
        is_literal(b),
    ensures
        evaluate(a + " = "@ + b, vars) == (Err::<i32, ErrorView>(
            ErrorView::CanOnlyAssignToVariable,
        ), vars),
{
    reveal_strlit(" = ");
    reveal_with_fuel(parse_from, 4);
    reveal_with_fuel(crate::evaluator::fold_all, 3);
    reveal_with_fuel(eval_expr, 3);
    assert(" = "@ =~= seq![' ', '=', ' ']);
    lemma_lex_literal(a);
    lemma_lex_literal(b);
    lemma_lex_spaced(a, '=', b);
    assert(lex(a + " = "@ + b) =~= seq![constant(a), operation(OperationToken::Assign), constant(b)]);
}

/// An unmatched parenthesis, or an operator that lacks an operand, is a
/// syntax error, and changes no variable.
pub proof fn law_malformed(a: Seq<char>, b: Seq<char>, vars: Map<Seq<char>, i32>)
    requires
        is_literal(a),
        is_literal(b),
    ensures
        evaluate("("@ + a + " + "@ + b, vars) == (Err::<i32, ErrorView>(ErrorView::InvalidSyntax), vars),
        evaluate(a + " + "@ + b + ")"@, vars) == (Err::<i32, ErrorView>(ErrorView::InvalidSyntax), vars),
        evaluate(a + " +"@, vars) == (Err::<i32, ErrorView>(ErrorView::InvalidSyntax), vars),
        evaluate("* "@ + a, vars) == (Err::<i32, ErrorView>(ErrorView::InvalidSyntax), vars),
{
    reveal_strlit("(");
    reveal_strlit(")");
    reveal_strlit(" + ");
    reveal_strlit(" +");
    reveal_strlit("* ");
    reveal_with_fuel(parse_from, 5);
    reveal_with_fuel(crate::evaluator::fold_all, 3);
    reveal_with_fuel(crate::evaluator::close_group, 3);
    let open = seq!['('];
    let close = seq![')'];
    assert("("@ =~= open);
    assert(")"@ =~= close);
    assert(" + "@ =~= seq![' ', '+', ' ']);
    assert(" +"@ =~= seq![' '] + seq!['+']);
    assert("* "@ =~= seq!['*'] + seq![' ']);
    lemma_lex_literal(a);
    lemma_lex_literal(b);
    lemma_lex_char('(');
    lemma_lex_char(')');
    lemma_lex_char(' ');
    lemma_lex_char('+');
    lemma_lex_char('*');
    let plus = operation(OperationToken::Plus);
    lemma_lex_concat(open, a);
    lemma_lex_spaced(open + a, '+', b);
    assert(lex("("@ + a + " + "@ + b) =~= seq![TokenView::OpenParenthesis, constant(a), plus, constant(b)]);
    lemma_lex_spaced(a, '+', b);
    lemma_lex_concat(a + " + "@ + b, close);
    assert(lex(a + " + "@ + b + ")"@) =~= seq![constant(a), plus, constant(b), TokenView::CloseParenthesis]);
    lemma_lex_concat(seq![' '], seq!['+']);
    lemma_lex_concat(a, " +"@);
    assert(lex(a + " +"@) =~= seq![constant(a), plus]);
    lemma_lex_concat(seq!['*'], seq![' ']);
    lemma_lex_concat("* "@, a);
    assert(lex("* "@ + a) =~= seq![operation(OperationToken::Multiply), constant(a)]);
}

} // verus!

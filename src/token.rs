use vstd::prelude::*;
use vstd::std_specs::iter::IteratorSpec;
use vstd::string::StrSliceExecFns;

verus! {

/// A lexical unit of an expression.
#[derive(Debug, Clone, PartialEq, Eq, Hash)]
pub enum Token {
    Operand(OperandsToken),
    Operation(OperationToken),
    OpenParenthesis,
    CloseParenthesis,
    Unexpected,
}

/// A token that stands for a value.
#[derive(Debug, Clone, PartialEq, Eq, Hash)]
pub enum OperandsToken {
    Variable(String),
    Constant(i32),
}

/// A token that stands for an operator; `+` and `-` are unary or binary
/// depending on where they occur.
#[derive(Debug, Clone, Copy, PartialEq, Eq, Hash, Structural)]
pub enum OperationToken {
    Plus,
    Minus,
    Multiply,
    Divide,
    Assign,
}

/// Model of an [`OperandsToken`]: a variable is known by its characters.
pub enum OperandView {
    Variable(Seq<char>),
    Constant(i32),
}

/// Model of a [`Token`].
pub enum TokenView {
    Operand(OperandView),
    Operation(OperationToken),
    OpenParenthesis,
    CloseParenthesis,
    Unexpected,
}

impl View for OperandsToken {
    type V = OperandView;

    open spec fn view(&self) -> OperandView {
        match self {
            OperandsToken::Variable(name) => OperandView::Variable(name@),
            OperandsToken::Constant(value) => OperandView::Constant(*value),
        }
    }
}

impl View for Token {
    type V = TokenView;

    open spec fn view(&self) -> TokenView {
        match self {
            Token::Operand(operand) => TokenView::Operand(operand@),
            Token::Operation(operation) => TokenView::Operation(*operation),
            Token::OpenParenthesis => TokenView::OpenParenthesis,
            Token::CloseParenthesis => TokenView::CloseParenthesis,
            Token::Unexpected => TokenView::Unexpected,
        }
    }
}

/// ASCII whitespace: space, tab, line feed, form feed and carriage return.
pub open spec fn is_space(c: char) -> bool {
    c == ' ' || c == '\t' || c == '\n' || c == '\x0C' || c == '\r'
}

pub open spec fn is_digit(c: char) -> bool {
    '0' <= c && c <= '9'
}

pub open spec fn is_letter(c: char) -> bool {
    ('a' <= c && c <= 'z') || ('A' <= c && c <= 'Z')
}

/// Characters that make up a word: a number or a variable name.
pub open spec fn is_word_char(c: char) -> bool {
    is_digit(c) || is_letter(c)
}

pub open spec fn digit_of(c: char) -> int {
    (c as u32) as int - ('0' as u32) as int
}

pub open spec fn all_digits(s: Seq<char>) -> bool {
    forall|i: int| 0 <= i < s.len() ==> is_digit(#[trigger] s[i])
}

/// The base-10 value of a run of digits.
pub open spec fn digits_value(s: Seq<char>) -> int
    decreases s.len(),
{
    if s.len() == 0 {
        0
    } else {
        digits_value(s.drop_last()) * 10 + digit_of(s.last())
    }
}

/// The length of the run of word characters that starts `s`.
pub open spec fn word_len(s: Seq<char>) -> nat
    decreases s.len(),
{
    if s.len() > 0 && is_word_char(s[0]) {
        1 + word_len(s.drop_first())
    } else {
        0
    }
}

/// The token of a whole word: a number when it starts with a digit (and is
/// a valid `i32` literal), else a variable name.
pub open spec fn word_token(w: Seq<char>) -> TokenView {
    if is_digit(w[0]) {
        if all_digits(w) && digits_value(w) <= i32::MAX {
            TokenView::Operand(OperandView::Constant(digits_value(w) as i32))
        } else {
            TokenView::Unexpected
        }
    } else {
        TokenView::Operand(OperandView::Variable(w))
    }
}

/// The token of a character that is neither whitespace nor a word character.
pub open spec fn symbol_token(c: char) -> TokenView {
    if c == '+' {
        TokenView::Operation(OperationToken::Plus)
    } else if c == '-' {
        TokenView::Operation(OperationToken::Minus)
    } else if c == '*' {
        TokenView::Operation(OperationToken::Multiply)
    } else if c == '/' {
        TokenView::Operation(OperationToken::Divide)
    } else if c == '=' {
        TokenView::Operation(OperationToken::Assign)
    } else if c == '(' {
        TokenView::OpenParenthesis
    } else if c == ')' {
        TokenView::CloseParenthesis
    } else {
        TokenView::Unexpected
    }
}

/// The tokens of a text: whitespace separates and is dropped, a word is the
/// longest run of word characters, any other character is a token of its own.
pub open spec fn lex(s: Seq<char>) -> Seq<TokenView>
    decreases s.len(),
    via lex_decreases
{
    if s.len() == 0 {
        seq![]
    } else if is_space(s[0]) {
        lex(s.drop_first())
    } else if is_word_char(s[0]) {
        let n = word_len(s);
        seq![word_token(s.take(n as int))] + lex(s.skip(n as int))
    } else {
        seq![symbol_token(s[0])] + lex(s.drop_first())
    }
}

#[via_fn]
proof fn lex_decreases(s: Seq<char>) {
    lemma_word_len_bound(s);
    if s.len() > 0 && is_word_char(s[0]) {
        assert(word_len(s) >= 1);
    }
}

pub proof fn lemma_word_len_bound(s: Seq<char>)
    ensures
        word_len(s) <= s.len(),
    decreases s.len(),
{
    if s.len() > 0 && is_word_char(s[0]) {
        lemma_word_len_bound(s.drop_first());
    }
}

/// A digit run's value never falls as digits are added behind it.
pub proof fn lemma_digits_value_prefix(w: Seq<char>, j: int)
    requires
        all_digits(w),
        0 <= j <= w.len(),
    ensures
        0 <= digits_value(w.take(j)) <= digits_value(w),
    decreases w.len(),
{
    if w.len() > 0 {
        if j == w.len() {
            assert(w.take(j) =~= w);
            lemma_digits_value_prefix(w.drop_last(), j - 1);
            assert(w.drop_last().take(j - 1) =~= w.drop_last());
        } else {
            lemma_digits_value_prefix(w.drop_last(), j);
            assert(w.drop_last().take(j) =~= w.take(j));
        }
    }
}

fn is_space_char(c: char) -> (r: bool)
    ensures
        r == is_space(c),
{
    c == ' ' || c == '\t' || c == '\n' || c == '\x0C' || c == '\r'
}

fn is_digit_char(c: char) -> (r: bool)
    ensures
        r == is_digit(c),
{
    '0' <= c && c <= '9'
}

fn is_word_character(c: char) -> (r: bool)
    ensures
        r == is_word_char(c),
{
    ('0' <= c && c <= '9') || ('a' <= c && c <= 'z') || ('A' <= c && c <= 'Z')
}

/// The token of a character that is neither whitespace nor a word character.
fn symbol(c: char) -> (r: Token)
    ensures
        r@ == symbol_token(c),
{
    match c {
        '+' => Token::Operation(OperationToken::Plus),
        '-' => Token::Operation(OperationToken::Minus),
        '*' => Token::Operation(OperationToken::Multiply),
        '/' => Token::Operation(OperationToken::Divide),
        '=' => Token::Operation(OperationToken::Assign),
        '(' => Token::OpenParenthesis,
        ')' => Token::CloseParenthesis,
        _ => Token::Unexpected,
    }
}

/// Reads `chars[start..end]`, a word that starts with a digit, as an `i32`
/// literal.
fn number(chars: &Vec<char>, start: usize, end: usize) -> (r: Token)
    requires
        start < end <= chars@.len(),
        is_digit(chars@[start as int]),
    ensures
        r@ == word_token(chars@.subrange(start as int, end as int)),
{
    let ghost w = chars@.subrange(start as int, end as int);
    let mut value: i32 = 0;
    let mut k: usize = start;
    while k < end
        invariant
            start <= k <= end <= chars@.len(),
            w == chars@.subrange(start as int, end as int),
            all_digits(w.take(k - start)),
            value as int == digits_value(w.take(k - start)),
            0 <= value,
            is_digit(w[0]),
        decreases end - k,
    {
        let c = chars[k];
        assert(w[0] == chars@[start as int]);
        if !is_digit_char(c) {
            assert(w[k - start] == c);
            assert(!all_digits(w));
            assert(word_token(w) == TokenView::Unexpected);
            return Token::Unexpected;
        }
        let next: i64 = value as i64 * 10 + (c as u32 - '0' as u32) as i64;
        let ghost p = w.take(k - start + 1);
        proof {
            assert(p.drop_last() =~= w.take(k - start));
            assert(p.last() == c);
            assert(all_digits(p));
            assert(next == digits_value(p));
        }
        if next > i32::MAX as i64 {
            proof {
                if all_digits(w) {
                    lemma_digits_value_prefix(w, k - start + 1);
                }
            }
            return Token::Unexpected;
        }
        value = next as i32;
        k = k + 1;
    }
    assert(w.take(end - start) =~= w);
    Token::Operand(OperandsToken::Constant(value))
}

/// A lazy sequence of the tokens of a text.
pub struct TokenIterator<'a> {
    text: &'a str,
    chars: Vec<char>,
    pos: usize,
}

impl<'a> TokenIterator<'a> {
    pub closed spec fn wf(&self) -> bool {
        &&& self.chars@ == self.text@
        &&& self.pos <= self.chars@.len()
    }

    /// The tokens that are still to come.
    pub closed spec fn remaining(&self) -> Seq<TokenView> {
        lex(self.chars@.skip(self.pos as int))
    }

    /// How many characters are left to read.
    pub closed spec fn pending(&self) -> nat {
        (self.chars@.len() - self.pos) as nat
    }

    pub fn new(text: &'a str) -> (r: Self)
        ensures
            r.wf(),
            r.remaining() == lex(text@),
    {
        let mut chars: Vec<char> = Vec::new();
        let mut it = text.chars();
        loop
            invariant
                chars@ + it.remaining() == text@,
                it.decrease() is Some,
            ensures
                chars@ == text@,
            decreases it.decrease()->0,
        {
            match it.next() {
                Some(c) => chars.push(c),
                None => break,
            }
        }
        assert(chars@.skip(0) =~= chars@);
        TokenIterator { text, chars, pos: 0 }
    }

    pub fn next(&mut self) -> (r: Option<Token>)
        requires
            old(self).wf(),
        ensures
            final(self).wf(),
            match r {
                None => old(self).remaining() == Seq::<TokenView>::empty()
                    && final(self).remaining() == Seq::<TokenView>::empty(),
                Some(t) => old(self).remaining() == seq![t@] + final(self).remaining()
                    && final(self).pending() < old(self).pending(),
            },
    {
        let ghost s = self.chars@;
        let len = self.chars.len();
        while self.pos < len && is_space_char(self.chars[self.pos])
            invariant
                self.wf(),
                self.chars@ == s,
                len == s.len(),
                old(self).pos <= self.pos,
                lex(s.skip(old(self).pos as int)) == lex(s.skip(self.pos as int)),
            decreases len - self.pos,
        {
            assert(s.skip(self.pos as int).drop_first() =~= s.skip(self.pos + 1));
            self.pos = self.pos + 1;
        }
        if self.pos == len {
            return None;
        }
        let start = self.pos;
        let c = self.chars[start];
        let ghost rest = s.skip(start as int);
        assert(rest[0] == c);
        if is_word_character(c) {
            let mut end = start + 1;
            assert(rest.drop_first() =~= s.skip(end as int));
            while end < len && is_word_character(self.chars[end])
                invariant
                    start < end <= len,
                    len == s.len(),
                    self.chars@ == s,
                    word_len(rest) == (end - start) + word_len(s.skip(end as int)),
                decreases len - end,
            {
                assert(s.skip(end as int).drop_first() =~= s.skip(end + 1));
                end = end + 1;
            }
            let ghost n = (end - start) as int;
            assert(word_len(rest) == n);
            assert(rest.take(n) =~= s.subrange(start as int, end as int));
            assert(rest.skip(n) =~= s.skip(end as int));
            let t = if is_digit_char(c) {
                number(&self.chars, start, end)
            } else {
                let name = self.text.substring_char(start, end).to_owned();
                Token::Operand(OperandsToken::Variable(name))
            };
            self.pos = end;
            Some(t)
        } else {
            assert(rest.drop_first() =~= s.skip(start + 1));
            self.pos = start + 1;
            Some(symbol(c))
        }
    }
}

} // verus!

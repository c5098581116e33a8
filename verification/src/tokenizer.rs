//! The object-path tokenizer.
//!
//! Splits an ASCII object-path expression into tokens: punctuation,
//! two-character operators, numbers, booleans and identifiers. The
//! functional model ([`spec_next_token`]) gives every token, error and
//! cursor move exactly; the executable tokenizer is proved to follow it.

use vstd::prelude::*;

verus! {

/// A source range: where a token or error begins, and its width.
///
/// The recorded begin is the scan position after the token's first
/// character has been consumed.
#[derive(PartialEq, Eq, Structural, Clone, Copy, Debug)]
pub struct Span {
    pub begin: usize,
    pub len: usize,
}

impl Span {
    pub fn new(begin: usize, len: usize) -> (r: Self)
        ensures
            r.begin == begin,
            r.len == len,
    {
        Span { begin, len }
    }
}

/// One token of an object-path expression.
#[derive(Debug)]
pub enum Token {
    Root(Span),
    Dot(Span),
    At(Span),
    LParen(Span),
    RParen(Span),
    LBracket(Span),
    RBracket(Span),
    Comma(Span),
    Equal(Span),
    NotEqual(Span),
    Less(Span),
    LessEqual(Span),
    Greater(Span),
    GreaterEqual(Span),
    And(Span),
    Or(Span),
    DotDot(Span),
    Number(Span, u32),
    Bool(Span, bool),
    Identifier(Span, String),
    Neg(Span),
    Not(Span),
    PredicateStart(Span),
    Semicolon(Span),
    End,
}

/// Why tokenizing stopped.
#[derive(Clone, Debug)]
pub enum TokenizeError {
    UnexpectedEnd(Span),
    UnexpectedCharacter { expected: char, provided: char, pos: usize },
    UnknownCharacter { provided: char, pos: usize },
    IllegalNumber { provided: String, pos: usize },
}

pub type TokenizeResult<T> = Result<T, TokenizeError>;

/// A [`Span`] in the functional model.
pub struct SpanModel {
    pub begin: int,
    pub len: int,
}

/// A [`Token`] in the functional model: identifier text is a character
/// sequence.
pub enum TokenModel {
    Root(SpanModel),
    Dot(SpanModel),
    At(SpanModel),
    LParen(SpanModel),
    RParen(SpanModel),
    LBracket(SpanModel),
    RBracket(SpanModel),
    Comma(SpanModel),
    Equal(SpanModel),
    NotEqual(SpanModel),
    Less(SpanModel),
    LessEqual(SpanModel),
    Greater(SpanModel),
    GreaterEqual(SpanModel),
    And(SpanModel),
    Or(SpanModel),
    DotDot(SpanModel),
    Number(SpanModel, u32),
    Bool(SpanModel, bool),
    Identifier(SpanModel, Seq<char>),
    Neg(SpanModel),
    Not(SpanModel),
    PredicateStart(SpanModel),
    Semicolon(SpanModel),
    End,
}

/// A [`TokenizeError`] in the functional model.
pub enum ErrModel {
    UnexpectedEnd(SpanModel),
    UnexpectedCharacter { expected: char, provided: char, pos: int },
    UnknownCharacter { provided: char, pos: int },
    IllegalNumber { provided: Seq<char>, pos: int },
}

pub open spec fn span_model(sp: Span) -> SpanModel {
    SpanModel { begin: sp.begin as int, len: sp.len as int }
}

pub open spec fn token_model(t: Token) -> TokenModel {
    match t {
        Token::Root(sp) => TokenModel::Root(span_model(sp)),
        Token::Dot(sp) => TokenModel::Dot(span_model(sp)),
        Token::At(sp) => TokenModel::At(span_model(sp)),
        Token::LParen(sp) => TokenModel::LParen(span_model(sp)),
        Token::RParen(sp) => TokenModel::RParen(span_model(sp)),
        Token::LBracket(sp) => TokenModel::LBracket(span_model(sp)),
        Token::RBracket(sp) => TokenModel::RBracket(span_model(sp)),
        Token::Comma(sp) => TokenModel::Comma(span_model(sp)),
        Token::Equal(sp) => TokenModel::Equal(span_model(sp)),
        Token::NotEqual(sp) => TokenModel::NotEqual(span_model(sp)),
        Token::Less(sp) => TokenModel::Less(span_model(sp)),
        Token::LessEqual(sp) => TokenModel::LessEqual(span_model(sp)),
        Token::Greater(sp) => TokenModel::Greater(span_model(sp)),
        Token::GreaterEqual(sp) => TokenModel::GreaterEqual(span_model(sp)),
        Token::And(sp) => TokenModel::And(span_model(sp)),
        Token::Or(sp) => TokenModel::Or(span_model(sp)),
        Token::DotDot(sp) => TokenModel::DotDot(span_model(sp)),
        Token::Number(sp, n) => TokenModel::Number(span_model(sp), n),
        Token::Bool(sp, b) => TokenModel::Bool(span_model(sp), b),
        Token::Identifier(sp, s) => TokenModel::Identifier(span_model(sp), s@),
        Token::Neg(sp) => TokenModel::Neg(span_model(sp)),
        Token::Not(sp) => TokenModel::Not(span_model(sp)),
        Token::PredicateStart(sp) => TokenModel::PredicateStart(span_model(sp)),
        Token::Semicolon(sp) => TokenModel::Semicolon(span_model(sp)),
        Token::End => TokenModel::End,
    }
}

pub open spec fn err_model(e: TokenizeError) -> ErrModel {
    match e {
        TokenizeError::UnexpectedEnd(sp) => ErrModel::UnexpectedEnd(span_model(sp)),
        TokenizeError::UnexpectedCharacter { expected, provided, pos } => (
        ErrModel::UnexpectedCharacter { expected, provided, pos: pos as int }),
        TokenizeError::UnknownCharacter { provided, pos } => (ErrModel::UnknownCharacter {
            provided,
            pos: pos as int,
        }),
        TokenizeError::IllegalNumber { provided, pos } => (ErrModel::IllegalNumber {
            provided: provided@,
            pos: pos as int,
        }),
    }
}

pub open spec fn result_model(r: TokenizeResult<Token>) -> Result<TokenModel, ErrModel> {
    match r {
        Ok(t) => Ok(token_model(t)),
        Err(e) => Err(err_model(e)),
    }
}

/// ASCII whitespace, as the scanner swallows it.
pub open spec fn is_space_char(c: char) -> bool {
    c == ' ' || c == '\t' || c == '\n' || c == '\r' || (c as u32) == 12
}

/// An ASCII decimal digit.
pub open spec fn is_digit_char(c: char) -> bool {
    48 <= (c as u32) && (c as u32) <= 57
}

/// A character that may continue an identifier or number word.
pub open spec fn is_word_char(c: char) -> bool {
    is_digit_char(c) || (97 <= (c as u32) && (c as u32) <= 122) || (65 <= (c as u32) && (c as u32)
        <= 90) || c == '_'
}

fn is_space(c: char) -> (r: bool)
    ensures
        r == is_space_char(c),
{
    c == ' ' || c == '\t' || c == '\n' || c == '\r' || (c as u32) == 12
}

fn is_digit(c: char) -> (r: bool)
    ensures
        r == is_digit_char(c),
{
    let u = c as u32;
    48 <= u && u <= 57
}

fn is_word(c: char) -> (r: bool)
    ensures
        r == is_word_char(c),
{
    let u = c as u32;
    (48 <= u && u <= 57) || (97 <= u && u <= 122) || (65 <= u && u <= 90) || c == '_'
}

/// The first position at or after `pos` holding no whitespace.
pub open spec fn skip_ws(s: Seq<char>, pos: int) -> int
    decreases s.len() - pos,
{
    if pos < 0 || pos >= s.len() {
        pos
    } else if is_space_char(s[pos]) {
        skip_ws(s, pos + 1)
    } else {
        pos
    }
}

/// The first position at or after `pos` holding no word character.
pub open spec fn word_end(s: Seq<char>, pos: int) -> int
    decreases s.len() - pos,
{
    if pos < 0 || pos >= s.len() {
        pos
    } else if is_word_char(s[pos]) {
        word_end(s, pos + 1)
    } else {
        pos
    }
}

proof fn lemma_skip_ws(s: Seq<char>, a: int, b: int)
    requires
        0 <= a <= b <= s.len(),
        forall|j: int| a <= j < b ==> is_space_char(s[j]),
        b == s.len() || !is_space_char(s[b]),
    ensures
        skip_ws(s, a) == b,
    decreases b - a,
{
    if a < b {
        lemma_skip_ws(s, a + 1, b);
    }
}

proof fn lemma_word_end(s: Seq<char>, a: int, b: int)
    requires
        0 <= a <= b <= s.len(),
        forall|j: int| a <= j < b ==> is_word_char(s[j]),
        b == s.len() || !is_word_char(s[b]),
    ensures
        word_end(s, a) == b,
    decreases b - a,
{
    if a < b {
        lemma_word_end(s, a + 1, b);
    }
}

proof fn lemma_skip_ws_range(s: Seq<char>, pos: int)
    requires
        0 <= pos <= s.len(),
    ensures
        pos <= skip_ws(s, pos) <= s.len(),
    decreases s.len() - pos,
{
    if pos < s.len() && is_space_char(s[pos]) {
        lemma_skip_ws_range(s, pos + 1);
    }
}

proof fn lemma_word_end_range(s: Seq<char>, pos: int)
    requires
        0 <= pos <= s.len(),
    ensures
        pos <= word_end(s, pos) <= s.len(),
    decreases s.len() - pos,
{
    if pos < s.len() && is_word_char(s[pos]) {
        lemma_word_end_range(s, pos + 1);
    }
}

/// The numeric value of a digit word, most significant digit first.
pub open spec fn digits_value(s: Seq<char>) -> int
    decreases s.len(),
{
    if s.len() == 0 {
        0
    } else {
        digits_value(s.drop_last()) * 10 + ((s.last() as u32) - 48)
    }
}

/// Every character of the word is a decimal digit.
pub open spec fn all_digits(s: Seq<char>) -> bool {
    forall|i: int| 0 <= i < s.len() ==> is_digit_char(s[i])
}

/// Once a digit prefix exceeds the word size, the whole digit word does.
proof fn lemma_digits_prefix_overflow(s: Seq<char>, i: int)
    requires
        0 <= i <= s.len(),
        all_digits(s),
        digits_value(s.take(i)) > u32::MAX as int,
    ensures
        digits_value(s) > u32::MAX as int,
    decreases s.len() - i,
{
    if i < s.len() {
        assert(s.take(i + 1).drop_last() =~= s.take(i));
        assert(s.take(i + 1).last() == s[i]);
        assert(all_digits(s.take(i)) && all_digits(s.take(i + 1))) by {
            assert(forall|j: int| 0 <= j < i + 1 ==> s.take(i + 1)[j] == s[j]);
            assert(forall|j: int| 0 <= j < i ==> s.take(i)[j] == s[j]);
        }
        assert(digits_value(s.take(i + 1)) == digits_value(s.take(i)) * 10 + ((s[i] as u32) - 48));
        lemma_digits_prefix_overflow(s, i + 1);
    } else {
        assert(s.take(i) =~= s);
    }
}

/// The model's out-of-input error.
pub open spec fn spec_unexpected_end(s: Seq<char>) -> ErrModel {
    ErrModel::UnexpectedEnd(SpanModel { begin: 0, len: s.len() as int })
}

/// What scanning after a consumed `(` yields: `(?` is one predicate-start
/// token, anything else a left parenthesis.
pub open spec fn spec_lparen(s: Seq<char>, p: int) -> (Result<TokenModel, ErrModel>, int) {
    if p >= s.len() {
        (Err(spec_unexpected_end(s)), p)
    } else if s[p] == '?' {
        (Ok(TokenModel::PredicateStart(SpanModel { begin: p, len: 2 })), p + 1)
    } else {
        (Ok(TokenModel::LParen(SpanModel { begin: p, len: 1 })), p)
    }
}

/// What scanning after a consumed `.` yields: `..` or `.`.
pub open spec fn spec_dot(s: Seq<char>, p: int) -> (Result<TokenModel, ErrModel>, int) {
    if p >= s.len() {
        (Err(spec_unexpected_end(s)), p)
    } else if s[p] == '.' {
        (Ok(TokenModel::DotDot(SpanModel { begin: p, len: 2 })), p + 1)
    } else {
        (Ok(TokenModel::Dot(SpanModel { begin: p, len: 1 })), p)
    }
}

/// What scanning after a consumed `=` yields: only `==` is accepted.
pub open spec fn spec_equal(s: Seq<char>, p: int) -> (Result<TokenModel, ErrModel>, int) {
    if p >= s.len() {
        (Err(spec_unexpected_end(s)), p)
    } else if s[p] == '=' {
        (Ok(TokenModel::Equal(SpanModel { begin: p, len: 2 })), p + 1)
    } else {
        (Err(ErrModel::UnexpectedCharacter { expected: '=', provided: s[p], pos: p + 1 }), p)
    }
}

/// What scanning after a consumed `<` yields: `<=` or `<`.
pub open spec fn spec_less(s: Seq<char>, p: int) -> (Result<TokenModel, ErrModel>, int) {
    if p >= s.len() {
        (Err(spec_unexpected_end(s)), p)
    } else if s[p] == '=' {
        (Ok(TokenModel::LessEqual(SpanModel { begin: p, len: 2 })), p + 1)
    } else {
        (Ok(TokenModel::Less(SpanModel { begin: p, len: 1 })), p)
    }
}

/// What scanning after a consumed `>` yields: `>=` or `>`.
pub open spec fn spec_greater(s: Seq<char>, p: int) -> (Result<TokenModel, ErrModel>, int) {
    if p >= s.len() {
        (Err(spec_unexpected_end(s)), p)
    } else if s[p] == '=' {
        (Ok(TokenModel::GreaterEqual(SpanModel { begin: p, len: 2 })), p + 1)
    } else {
        (Ok(TokenModel::Greater(SpanModel { begin: p, len: 1 })), p)
    }
}

/// What scanning after a consumed `&` yields: only `&&` is accepted.
pub open spec fn spec_and(s: Seq<char>, p: int) -> (Result<TokenModel, ErrModel>, int) {
    if p >= s.len() {
        (Err(spec_unexpected_end(s)), p)
    } else if s[p] == '&' {
        (Ok(TokenModel::And(SpanModel { begin: p, len: 2 })), p + 1)
    } else {
        (Err(ErrModel::UnexpectedCharacter { expected: '&', provided: s[p], pos: p + 1 }), p)
    }
}

/// What scanning after a consumed `|` yields: only `||` is accepted.
pub open spec fn spec_or(s: Seq<char>, p: int) -> (Result<TokenModel, ErrModel>, int) {
    if p >= s.len() {
        (Err(spec_unexpected_end(s)), p)
    } else if s[p] == '|' {
        (Ok(TokenModel::Or(SpanModel { begin: p, len: 2 })), p + 1)
    } else {
        (Err(ErrModel::UnexpectedCharacter { expected: '|', provided: s[p], pos: p + 1 }), p)
    }
}

/// What scanning after a consumed `!` yields: `!=` or `!`.
pub open spec fn spec_not(s: Seq<char>, p: int) -> (Result<TokenModel, ErrModel>, int) {
    if p >= s.len() {
        (Err(spec_unexpected_end(s)), p)
    } else if s[p] == '=' {
        (Ok(TokenModel::NotEqual(SpanModel { begin: p, len: 2 })), p + 1)
    } else {
        (Ok(TokenModel::Not(SpanModel { begin: p, len: 1 })), p)
    }
}

/// What a word starting at `p0` yields: a number if it begins with a digit
/// (and is refused unless it is all digits and fits in the word size), the
/// two boolean literals, or an identifier.
pub open spec fn spec_ident_num(s: Seq<char>, p0: int) -> (Result<TokenModel, ErrModel>, int) {
    let e = word_end(s, p0);
    let item = s.subrange(p0, e);
    if is_digit_char(s[p0]) {
        if all_digits(item) && digits_value(item) <= u32::MAX as int {
            (
                Ok(
                    TokenModel::Number(
                        SpanModel { begin: p0 + 1, len: e - p0 },
                        digits_value(item) as u32,
                    ),
                ),
                e,
            )
        } else {
            (Err(ErrModel::IllegalNumber { provided: item, pos: p0 + 1 }), e)
        }
    } else if item == "true"@ {
        (Ok(TokenModel::Bool(SpanModel { begin: p0 + 1, len: e - p0 }, true)), e)
    } else if item == "false"@ {
        (Ok(TokenModel::Bool(SpanModel { begin: p0 + 1, len: e - p0 }, false)), e)
    } else {
        (Ok(TokenModel::Identifier(SpanModel { begin: p0 + 1, len: e - p0 }, item)), e)
    }
}

/// The functional model of one scan step from `pos`: the token or error,
/// and the cursor position after it.
pub open spec fn spec_next_token(s: Seq<char>, pos: int) -> (Result<TokenModel, ErrModel>, int) {
    let p = skip_ws(s, pos);
    if p >= s.len() {
        (Ok(TokenModel::End), p)
    } else {
        let c = s[p];
        let p1 = p + 1;
        if c == '$' {
            (Ok(TokenModel::Root(SpanModel { begin: p1, len: 1 })), p1)
        } else if c == '.' {
            spec_dot(s, p1)
        } else if c == '@' {
            (Ok(TokenModel::At(SpanModel { begin: p1, len: 1 })), p1)
        } else if c == '(' {
            spec_lparen(s, p1)
        } else if c == ')' {
            (Ok(TokenModel::RParen(SpanModel { begin: p1, len: 1 })), p1)
        } else if c == '[' {
            (Ok(TokenModel::LBracket(SpanModel { begin: p1, len: 1 })), p1)
        } else if c == ']' {
            (Ok(TokenModel::RBracket(SpanModel { begin: p1, len: 1 })), p1)
        } else if c == ',' {
            (Ok(TokenModel::Comma(SpanModel { begin: p1, len: 1 })), p1)
        } else if c == '=' {
            spec_equal(s, p1)
        } else if c == '<' {
            spec_less(s, p1)
        } else if c == '>' {
            spec_greater(s, p1)
        } else if c == '&' {
            spec_and(s, p1)
        } else if c == '|' {
            spec_or(s, p1)
        } else if c == ';' {
            (Ok(TokenModel::Semicolon(SpanModel { begin: p1, len: 1 })), p1)
        } else if c == '-' {
            (Ok(TokenModel::Neg(SpanModel { begin: p1, len: 1 })), p1)
        } else if c == '!' {
            spec_not(s, p1)
        } else if is_word_char(c) {
            spec_ident_num(s, p)
        } else {
            (Err(ErrModel::UnknownCharacter { provided: c, pos: p1 }), p1)
        }
    }
}

/// Character-exact string comparison.
fn str_eq(a: &str, b: &str) -> (r: bool)
    ensures
        r == (a@ == b@),
{
    let n = a.unicode_len();
    if n != b.unicode_len() {
        proof {
            assert(a@.len() != b@.len());
        }
        return false;
    }
    let mut i: usize = 0;
    while i < n
        invariant
            i <= n,
            n == a@.len(),
            n == b@.len(),
            forall|j: int| 0 <= j < i ==> a@[j] == b@[j],
        decreases n - i,
    {
        if a.get_char(i) != b.get_char(i) {
            proof {
                assert(a@[i as int] != b@[i as int]);
            }
            return false;
        }
        i = i + 1;
    }
    proof {
        assert(a@ =~= b@);
    }
    true
}

/// The scanner: the input expression and a cursor.
pub struct Tokenizer<'a> {
    input: &'a str,
    len: usize,
    cur_pos: usize,
}

impl<'a> Tokenizer<'a> {
    /// The characters being scanned.
    pub closed spec fn spec_input(&self) -> Seq<char> {
        self.input@
    }

    /// The cursor.
    pub closed spec fn spec_pos(&self) -> int {
        self.cur_pos as int
    }

    pub closed spec fn wf(&self) -> bool {
        &&& self.len == self.input@.len()
        &&& self.len < usize::MAX
        &&& self.cur_pos <= self.len
        &&& vstd::string::is_ascii(self.input)
    }

    /// A scanner at the start of `input`, which must be ASCII (and, as the
    /// machine forces, shorter than the address space).
    pub fn new(input: &'a str) -> (r: Self)
        requires
            input.is_ascii(),
            input@.len() < usize::MAX,
        ensures
            r.wf(),
            r.spec_input() == input@,
            r.spec_pos() == 0,
    {
        let len = input.unicode_len();
        Tokenizer { input, len, cur_pos: 0 }
    }

    fn peek_char(&self) -> (r: TokenizeResult<char>)
        requires
            self.wf(),
        ensures
            self.spec_pos() < self.spec_input().len() ==> r == Ok::<char, TokenizeError>(
                self.spec_input()[self.spec_pos()],
            ),
            self.spec_pos() >= self.spec_input().len() ==> (r matches Err(e) && err_model(e)
                == spec_unexpected_end(self.spec_input())),
    {
        if self.cur_pos >= self.len {
            return Err(TokenizeError::UnexpectedEnd(Span::new(0, self.len)));
        }
        Ok(self.input.get_char(self.cur_pos))
    }

    fn eat_char(&mut self)
        requires
            old(self).wf(),
            old(self).spec_pos() < old(self).spec_input().len(),
        ensures
            final(self).wf(),
            final(self).spec_input() == old(self).spec_input(),
            final(self).spec_pos() == old(self).spec_pos() + 1,
    {
        self.cur_pos = self.cur_pos + 1;
    }

    fn next_char(&mut self) -> (r: TokenizeResult<char>)
        requires
            old(self).wf(),
        ensures
            final(self).wf(),
            final(self).spec_input() == old(self).spec_input(),
            old(self).spec_pos() < old(self).spec_input().len() ==> r == Ok::<
                char,
                TokenizeError,
            >(old(self).spec_input()[old(self).spec_pos()]) && final(self).spec_pos()
                == old(self).spec_pos() + 1,
            old(self).spec_pos() >= old(self).spec_input().len() ==> (r matches Err(e)
                && err_model(e) == spec_unexpected_end(old(self).spec_input()))
                && final(self).spec_pos() == old(self).spec_pos(),
    {
        let ch = match self.peek_char() {
            Ok(c) => c,
            Err(e) => {
                return Err(e);
            },
        };
        self.eat_char();
        Ok(ch)
    }

    fn lparen(&mut self, cur_pos: usize) -> (r: TokenizeResult<Token>)
        requires
            old(self).wf(),
            cur_pos == old(self).spec_pos(),
        ensures
            final(self).wf(),
            final(self).spec_input() == old(self).spec_input(),
            result_model(r) == spec_lparen(old(self).spec_input(), cur_pos as int).0,
            final(self).spec_pos() == spec_lparen(old(self).spec_input(), cur_pos as int).1,
    {
        match self.peek_char() {
            Ok(next_ch) => {
                if next_ch == '?' {
                    self.eat_char();
                    Ok(Token::PredicateStart(Span::new(cur_pos, 2)))
                } else {
                    Ok(Token::LParen(Span::new(cur_pos, 1)))
                }
            },
            Err(e) => Err(e),
        }
    }

    fn dot(&mut self, cur_pos: usize) -> (r: TokenizeResult<Token>)
        requires
            old(self).wf(),
            cur_pos == old(self).spec_pos(),
        ensures
            final(self).wf(),
            final(self).spec_input() == old(self).spec_input(),
            result_model(r) == spec_dot(old(self).spec_input(), cur_pos as int).0,
            final(self).spec_pos() == spec_dot(old(self).spec_input(), cur_pos as int).1,
    {
        match self.peek_char() {
            Ok(next_ch) => {
                if next_ch == '.' {
                    self.eat_char();
                    Ok(Token::DotDot(Span::new(cur_pos, 2)))
                } else {
                    Ok(Token::Dot(Span::new(cur_pos, 1)))
                }
            },
            Err(e) => Err(e),
        }
    }

    fn equal(&mut self, cur_pos: usize) -> (r: TokenizeResult<Token>)
        requires
            old(self).wf(),
            cur_pos == old(self).spec_pos(),
            cur_pos < usize::MAX,
        ensures
            final(self).wf(),
            final(self).spec_input() == old(self).spec_input(),
            result_model(r) == spec_equal(old(self).spec_input(), cur_pos as int).0,
            final(self).spec_pos() == spec_equal(old(self).spec_input(), cur_pos as int).1,
    {
        match self.peek_char() {
            Ok(next_ch) => {
                if next_ch == '=' {
                    self.eat_char();
                    Ok(Token::Equal(Span::new(cur_pos, 2)))
                } else {
                    Err(
                        TokenizeError::UnexpectedCharacter {
                            expected: '=',
                            provided: next_ch,
                            pos: cur_pos + 1,
                        },
                    )
                }
            },
            Err(e) => Err(e),
        }
    }

    fn less(&mut self, cur_pos: usize) -> (r: TokenizeResult<Token>)
        requires
            old(self).wf(),
            cur_pos == old(self).spec_pos(),
        ensures
            final(self).wf(),
            final(self).spec_input() == old(self).spec_input(),
            result_model(r) == spec_less(old(self).spec_input(), cur_pos as int).0,
            final(self).spec_pos() == spec_less(old(self).spec_input(), cur_pos as int).1,
    {
        match self.peek_char() {
            Ok(next_ch) => {
                if next_ch == '=' {
                    self.eat_char();
                    Ok(Token::LessEqual(Span::new(cur_pos, 2)))
                } else {
                    Ok(Token::Less(Span::new(cur_pos, 1)))
                }
            },
            Err(e) => Err(e),
        }
    }

    fn greater(&mut self, cur_pos: usize) -> (r: TokenizeResult<Token>)
        requires
            old(self).wf(),
            cur_pos == old(self).spec_pos(),
        ensures
            final(self).wf(),
            final(self).spec_input() == old(self).spec_input(),
            result_model(r) == spec_greater(old(self).spec_input(), cur_pos as int).0,
            final(self).spec_pos() == spec_greater(old(self).spec_input(), cur_pos as int).1,
    {
        match self.peek_char() {
            Ok(next_ch) => {
                if next_ch == '=' {
                    self.eat_char();
                    Ok(Token::GreaterEqual(Span::new(cur_pos, 2)))
                } else {
                    Ok(Token::Greater(Span::new(cur_pos, 1)))
                }
            },
            Err(e) => Err(e),
        }
    }

    fn and(&mut self, cur_pos: usize) -> (r: TokenizeResult<Token>)
        requires
            old(self).wf(),
            cur_pos == old(self).spec_pos(),
            cur_pos < usize::MAX,
        ensures
            final(self).wf(),
            final(self).spec_input() == old(self).spec_input(),
            result_model(r) == spec_and(old(self).spec_input(), cur_pos as int).0,
            final(self).spec_pos() == spec_and(old(self).spec_input(), cur_pos as int).1,
    {
        match self.peek_char() {
            Ok(next_ch) => {
                if next_ch == '&' {
                    self.eat_char();
                    Ok(Token::And(Span::new(cur_pos, 2)))
                } else {
                    Err(
                        TokenizeError::UnexpectedCharacter {
                            expected: '&',
                            provided: next_ch,
                            pos: cur_pos + 1,
                        },
                    )
                }
            },
            Err(e) => Err(e),
        }
    }

    fn or(&mut self, cur_pos: usize) -> (r: TokenizeResult<Token>)
        requires
            old(self).wf(),
            cur_pos == old(self).spec_pos(),
            cur_pos < usize::MAX,
        ensures
            final(self).wf(),
            final(self).spec_input() == old(self).spec_input(),
            result_model(r) == spec_or(old(self).spec_input(), cur_pos as int).0,
            final(self).spec_pos() == spec_or(old(self).spec_input(), cur_pos as int).1,
    {
        match self.peek_char() {
            Ok(next_ch) => {
                if next_ch == '|' {
                    self.eat_char();
                    Ok(Token::Or(Span::new(cur_pos, 2)))
                } else {
                    Err(
                        TokenizeError::UnexpectedCharacter {
                            expected: '|',
                            provided: next_ch,
                            pos: cur_pos + 1,
                        },
                    )
                }
            },
            Err(e) => Err(e),
        }
    }

    fn not(&mut self, cur_pos: usize) -> (r: TokenizeResult<Token>)
        requires
            old(self).wf(),
            cur_pos == old(self).spec_pos(),
        ensures
            final(self).wf(),
            final(self).spec_input() == old(self).spec_input(),
            result_model(r) == spec_not(old(self).spec_input(), cur_pos as int).0,
            final(self).spec_pos() == spec_not(old(self).spec_input(), cur_pos as int).1,
    {
        match self.peek_char() {
            Ok(next_ch) => {
                if next_ch == '=' {
                    self.eat_char();
                    Ok(Token::NotEqual(Span::new(cur_pos, 2)))
                } else {
                    Ok(Token::Not(Span::new(cur_pos, 1)))
                }
            },
            Err(e) => Err(e),
        }
    }

    fn ident_num(&mut self, ch: char, cur_pos: usize) -> (r: TokenizeResult<Token>)
        requires
            old(self).wf(),
            cur_pos == old(self).spec_pos(),
            cur_pos >= 1,
            old(self).spec_input()[cur_pos - 1] == ch,
            is_word_char(ch),
        ensures
            final(self).wf(),
            final(self).spec_input() == old(self).spec_input(),
            result_model(r) == spec_ident_num(old(self).spec_input(), cur_pos - 1).0,
            final(self).spec_pos() == spec_ident_num(old(self).spec_input(), cur_pos - 1).1,
    {
        let ghost s = old(self).spec_input();
        let start = cur_pos - 1;
        loop
            invariant
                self.wf(),
                s == old(self).spec_input(),
                self.spec_input() == s,
                start < self.cur_pos <= self.len,
                forall|j: int| start <= j < self.spec_pos() ==> is_word_char(s[j]),
            ensures
                self.wf(),
                self.spec_input() == s,
                start < self.cur_pos <= self.len,
                forall|j: int| start <= j < self.spec_pos() ==> is_word_char(s[j]),
                self.spec_pos() == s.len() || !is_word_char(s[self.spec_pos()]),
            decreases self.len - self.cur_pos,
        {
            if self.cur_pos >= self.len {
                break ;
            }
            let c = self.input.get_char(self.cur_pos);
            if !is_word(c) {
                break ;
            }
            self.eat_char();
        }
        let e = self.cur_pos;
        proof {
            lemma_word_end(s, start as int, e as int);
        }
        let item = self.input.substring_ascii(start, e);
        let m = e - start;
        let ghost item_seq = s.subrange(start as int, e as int);
        if is_digit(ch) {
            let mut value: u32 = 0;
            let mut j: usize = 0;
            while j < m
                invariant
                    j <= m,
                    m == item_seq.len(),
                    item@ == item_seq,
                    all_digits(item_seq.take(j as int)),
                    value == digits_value(item_seq.take(j as int)),
                    self.wf(),
                    s == old(self).spec_input(),
                    self.spec_input() == s,
                    self.spec_pos() == e as int,
                    0 <= start <= e <= s.len(),
                    start + 1 == cur_pos,
                    m == e - start,
                    e as int == word_end(s, start as int),
                    is_digit_char(s[start as int]),
                    item_seq == s.subrange(start as int, e as int),
                decreases m - j,
            {
                let c = item.get_char(j);
                let d = c as u32;
                if d < 48 || d > 57 {
                    proof {
                        assert(!is_digit_char(item_seq[j as int]));
                        assert(!all_digits(item_seq));
                    }
                    return Err(
                        TokenizeError::IllegalNumber { provided: item.to_owned(), pos: cur_pos },
                    );
                }
                let digit = d - 48;
                let wide: u64 = (value as u64) * 10 + (digit as u64);
                proof {
                    assert(item_seq.take(j + 1 as int).drop_last() =~= item_seq.take(j as int));
                    assert(item_seq.take(j + 1 as int).last() == item_seq[j as int]);
                }
                if wide > 0xFFFF_FFFFu64 {
                    proof {
                        assert(digits_value(item_seq.take(j + 1 as int)) == wide);
                        if all_digits(item_seq) {
                            lemma_digits_prefix_overflow(item_seq, j + 1 as int);
                        }
                    }
                    return Err(
                        TokenizeError::IllegalNumber { provided: item.to_owned(), pos: cur_pos },
                    );
                }
                value = (wide as u32);
                j = j + 1;
            }
            proof {
                assert(item_seq.take(m as int) =~= item_seq);
            }
            Ok(Token::Number(Span::new(cur_pos, m), value))
        } else if str_eq(item, "true") {
            Ok(Token::Bool(Span::new(cur_pos, m), true))
        } else if str_eq(item, "false") {
            Ok(Token::Bool(Span::new(cur_pos, m), false))
        } else {
            Ok(Token::Identifier(Span::new(cur_pos, m), item.to_owned()))
        }
    }

    /// One scan step: the next token of the input, or why scanning stops.
    pub fn next_token(&mut self) -> (r: TokenizeResult<Token>)
        requires
            old(self).wf(),
        ensures
            final(self).wf(),
            final(self).spec_input() == old(self).spec_input(),
            result_model(r) == spec_next_token(old(self).spec_input(), old(self).spec_pos()).0,
            final(self).spec_pos() == spec_next_token(old(self).spec_input(), old(self).spec_pos()).1,
    {
        let ghost s = old(self).spec_input();
        let ghost pos0 = old(self).spec_pos();
        loop
            invariant
                self.wf(),
                s == old(self).spec_input(),
                pos0 == old(self).spec_pos(),
                self.spec_input() == s,
                pos0 <= self.spec_pos() <= s.len(),
                forall|j: int| pos0 <= j < self.spec_pos() ==> is_space_char(s[j]),
            ensures
                self.wf(),
                self.spec_input() == s,
                pos0 <= self.spec_pos() <= s.len(),
                forall|j: int| pos0 <= j < self.spec_pos() ==> is_space_char(s[j]),
                self.spec_pos() == s.len() || !is_space_char(s[self.spec_pos()]),
            decreases self.len - self.cur_pos,
        {
            if self.cur_pos >= self.len {
                break ;
            }
            let c = self.input.get_char(self.cur_pos);
            if !is_space(c) {
                break ;
            }
            self.cur_pos = self.cur_pos + 1;
        }
        proof {
            lemma_skip_ws(s, pos0, self.spec_pos());
        }
        if self.cur_pos >= self.len {
            return Ok(Token::End);
        }
        let next_ch = match self.next_char() {
            Ok(c) => c,
            Err(e) => {
                return Err(e);
            },
        };
        let cur_pos = self.cur_pos;
        if next_ch == '$' {
            Ok(Token::Root(Span::new(cur_pos, 1)))
        } else if next_ch == '.' {
            self.dot(cur_pos)
        } else if next_ch == '@' {
            Ok(Token::At(Span::new(cur_pos, 1)))
        } else if next_ch == '(' {
            self.lparen(cur_pos)
        } else if next_ch == ')' {
            Ok(Token::RParen(Span::new(cur_pos, 1)))
        } else if next_ch == '[' {
            Ok(Token::LBracket(Span::new(cur_pos, 1)))
        } else if next_ch == ']' {
            Ok(Token::RBracket(Span::new(cur_pos, 1)))
        } else if next_ch == ',' {
            Ok(Token::Comma(Span::new(cur_pos, 1)))
        } else if next_ch == '=' {
            self.equal(cur_pos)
        } else if next_ch == '<' {
            self.less(cur_pos)
        } else if next_ch == '>' {
            self.greater(cur_pos)
        } else if next_ch == '&' {
            self.and(cur_pos)
        } else if next_ch == '|' {
            self.or(cur_pos)
        } else if next_ch == ';' {
            Ok(Token::Semicolon(Span::new(cur_pos, 1)))
        } else if next_ch == '-' {
            Ok(Token::Neg(Span::new(cur_pos, 1)))
        } else if next_ch == '!' {
            self.not(cur_pos)
        } else if is_word(next_ch) {
            self.ident_num(next_ch, cur_pos)
        } else {
            Err(TokenizeError::UnknownCharacter { provided: next_ch, pos: cur_pos })
        }
    }
}

/// The scanner never runs backwards or out of the input, and advances
/// strictly on every token other than `End`.
proof fn lemma_next_token_advances(s: Seq<char>, pos: int)
    requires
        0 <= pos <= s.len(),
    ensures
        pos <= spec_next_token(s, pos).1 <= s.len(),
        (spec_next_token(s, pos).0 matches Ok(t) && t != TokenModel::End) ==> spec_next_token(
            s,
            pos,
        ).1 > pos,
{
    lemma_skip_ws_range(s, pos);
    let p = skip_ws(s, pos);
    if p < s.len() {
        if is_word_char(s[p]) {
            lemma_word_end_range(s, p + 1);
        }
    }
}

/// The whole token stream from `pos` on: every token up to and including
/// `End`, or the tokens scanned before the first error together with it.
pub open spec fn spec_tokenize(s: Seq<char>, pos: int) -> (Seq<TokenModel>, Option<ErrModel>)
    decreases s.len() - pos,
    when 0 <= pos <= s.len()
{
    let step = spec_next_token(s, pos);
    match step.0 {
        Ok(t) => {
            if t == TokenModel::End {
                (seq![TokenModel::End], None)
            } else if pos < step.1 <= s.len() {
                let rest = spec_tokenize(s, step.1);
                (seq![t] + rest.0, rest.1)
            } else {
                // does not arise: the scanner advances on every such token
                (seq![t], None)
            }
        },
        Err(e) => (Seq::empty(), Some(e)),
    }
}

/// The models of a token sequence.
pub open spec fn tokens_model(ts: Seq<Token>) -> Seq<TokenModel> {
    ts.map_values(|t: Token| token_model(t))
}

/// The model of a recorded error, if one was recorded.
pub open spec fn err_opt_model(e: Option<TokenizeError>) -> Option<ErrModel> {
    match e {
        Some(x) => Some(err_model(x)),
        None => None,
    }
}

/// The whole input tokenized up front, served token by token.
///
/// On a clean scan the tokens are kept reversed, so serving pops from the
/// back; when the scan stopped on an error, the error is recorded beside
/// the tokens scanned so far, which are kept in scan order.
pub struct TokenReader<'a> {
    input: &'a str,
    len: usize,
    tokens: Vec<Token>,
    pub err: Option<TokenizeError>,
}

impl<'a> TokenReader<'a> {
    /// The characters that were scanned.
    pub closed spec fn spec_input(&self) -> Seq<char> {
        self.input@
    }

    /// The tokens not yet served, innermost last.
    pub closed spec fn spec_tokens(&self) -> Seq<Token> {
        self.tokens@
    }

    /// The recorded scan error, if the scan stopped on one.
    pub closed spec fn spec_err(&self) -> Option<TokenizeError> {
        self.err
    }

    pub closed spec fn wf(&self) -> bool {
        &&& self.len == self.input@.len()
        &&& self.len < usize::MAX
        &&& vstd::string::is_ascii(self.input)
    }

    /// Scans the whole ASCII input. On success the stored tokens are the
    /// scanned ones reversed (ending, at index 0, with `End`); on an error
    /// they are the ones scanned before it, in scan order, beside the
    /// error.
    pub fn new(input: &'a str) -> (r: Self)
        requires
            input.is_ascii(),
            input@.len() < usize::MAX,
        ensures
            r.wf(),
            r.spec_input() == input@,
            err_opt_model(r.spec_err()) == spec_tokenize(input@, 0).1,
            r.spec_err() is None ==> tokens_model(r.spec_tokens()) == spec_tokenize(
                input@,
                0,
            ).0.reverse(),
            r.spec_err() is Some ==> tokens_model(r.spec_tokens()) == spec_tokenize(input@, 0).0,
    {
        let ghost s = input@;
        let len = input.unicode_len();
        let mut tokenizer = Tokenizer::new(input);
        let mut tokens: Vec<Token> = Vec::new();
        loop
            invariant
                s == input@,
                len == s.len(),
                len < usize::MAX,
                vstd::string::is_ascii(input),
                tokenizer.wf(),
                tokenizer.spec_input() == s,
                0 <= tokenizer.spec_pos() <= s.len(),
                spec_tokenize(s, 0).0 == tokens_model(tokens@) + spec_tokenize(
                    s,
                    tokenizer.spec_pos(),
                ).0,
                spec_tokenize(s, 0).1 == spec_tokenize(s, tokenizer.spec_pos()).1,
            decreases s.len() - tokenizer.spec_pos(),
        {
            let ghost pos = tokenizer.spec_pos();
            let next_token = tokenizer.next_token();
            proof {
                lemma_next_token_advances(s, pos);
            }
            match next_token {
                Ok(token) => {
                    let is_end = matches!(token, Token::End);
                    proof {
                        assert(is_end <==> token_model(token) == TokenModel::End);
                    }
                    if is_end {
                        tokens.push(token);
                        proof {
                            assert(tokens_model(tokens@) =~= tokens_model(tokens@.drop_last())
                                + seq![TokenModel::End]);
                            assert(tokens_model(tokens@) =~= spec_tokenize(s, 0).0);
                        }
                        let ghost orig = tokens@;
                        let mut rev: Vec<Token> = Vec::new();
                        while tokens.len() > 0
                            invariant
                                orig.len() == tokens@.len() + rev@.len(),
                                tokens@ == orig.take(tokens@.len() as int),
                                forall|i: int|
                                    0 <= i < rev@.len() ==> rev@[i] == orig[orig.len() - 1 - i],
                            decreases tokens@.len(),
                        {
                            let t = tokens.pop().unwrap();
                            rev.push(t);
                        }
                        proof {
                            assert(tokens_model(rev@) =~= tokens_model(orig).reverse());
                        }
                        return TokenReader { input, len, tokens: rev, err: None };
                    } else {
                        tokens.push(token);
                        proof {
                            assert(tokens_model(tokens@) =~= tokens_model(tokens@.drop_last())
                                + seq![token_model(token)]);
                            assert(spec_tokenize(s, 0).0 =~= tokens_model(tokens@)
                                + spec_tokenize(s, tokenizer.spec_pos()).0);
                        }
                    }
                },
                Err(err) => {
                    proof {
                        assert(spec_tokenize(s, 0).0 =~= tokens_model(tokens@));
                    }
                    return TokenReader { input, len, tokens, err: Some(err) };
                },
            }
        }
    }

    /// The next token to be served, left in place.
    pub fn peek_token(&self) -> (r: TokenizeResult<&Token>)
        requires
            self.wf(),
        ensures
            self.spec_tokens().len() > 0 ==> (r matches Ok(t) && *t == self.spec_tokens().last()),
            self.spec_tokens().len() == 0 ==> (r matches Err(e) && err_model(e)
                == spec_unexpected_end(self.spec_input())),
    {
        if self.tokens.len() > 0 {
            let n = self.tokens.len();
            Ok(&self.tokens[n - 1])
        } else {
            Err(TokenizeError::UnexpectedEnd(Span::new(0, self.len)))
        }
    }

    /// Serves the next token.
    pub fn next_token(&mut self) -> (r: TokenizeResult<Token>)
        requires
            old(self).wf(),
        ensures
            final(self).wf(),
            final(self).spec_input() == old(self).spec_input(),
            final(self).spec_err() == old(self).spec_err(),
            old(self).spec_tokens().len() > 0 ==> (r matches Ok(t) && t == old(
                self,
            ).spec_tokens().last()) && final(self).spec_tokens() == old(
                self,
            ).spec_tokens().drop_last(),
            old(self).spec_tokens().len() == 0 ==> (r matches Err(e) && err_model(e)
                == spec_unexpected_end(old(self).spec_input())) && final(self).spec_tokens()
                == old(self).spec_tokens(),
    {
        match self.tokens.pop() {
            Some(token) => Ok(token),
            None => Err(TokenizeError::UnexpectedEnd(Span::new(0, self.len))),
        }
    }
}

} // verus!

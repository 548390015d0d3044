//! The lexer: one forward pass over the source characters, producing the
//! token sequence and the lexical diagnostics.

use vstd::prelude::*;

use crate::diag::Diag;
use crate::diag::SpecDiag;
use crate::literal::SpecValue;
use crate::literal::Value;
use crate::numeric::is_digit_char;
use crate::numeric::num_lit_val;
use crate::numeric::Num;
use crate::text::string_of_range;
use crate::token::SpecToken;
use crate::token::Token;
use crate::token_type::TokenType;

verus! {

/// Whether a character can begin an identifier: an ASCII letter or an
/// underscore.
pub open spec fn is_ident_start(c: char) -> bool {
    ||| 65 <= c as int && c as int <= 90
    ||| 97 <= c as int && c as int <= 122
    ||| c == '_'
}

/// Whether a character can continue an identifier run.
pub open spec fn is_ident_char(c: char) -> bool {
    is_ident_start(c) || is_digit_char(c)
}

/// The reserved words, and the kind an identifier run classifies as.
pub open spec fn keyword_kind(s: Seq<char>) -> TokenType {
    if s == "and"@ {
        TokenType::AND
    } else if s == "class"@ {
        TokenType::CLASS
    } else if s == "else"@ {
        TokenType::ELSE
    } else if s == "false"@ {
        TokenType::FALSE
    } else if s == "for"@ {
        TokenType::FOR
    } else if s == "fun"@ {
        TokenType::FUN
    } else if s == "if"@ {
        TokenType::IF
    } else if s == "nil"@ {
        TokenType::NIL
    } else if s == "or"@ {
        TokenType::OR
    } else if s == "print"@ {
        TokenType::PRINT
    } else if s == "return"@ {
        TokenType::RETURN
    } else if s == "super"@ {
        TokenType::SUPER
    } else if s == "this"@ {
        TokenType::THIS
    } else if s == "true"@ {
        TokenType::TRUE
    } else if s == "var"@ {
        TokenType::VAR
    } else if s == "while"@ {
        TokenType::WHILE
    } else {
        TokenType::IDENTIFIER
    }
}

/// The first position at or after `i` that does not continue an identifier.
pub open spec fn ident_end(src: Seq<char>, i: int) -> int
    decreases src.len() - i,
{
    if 0 <= i < src.len() && is_ident_char(src[i]) {
        ident_end(src, i + 1)
    } else {
        i
    }
}

/// The first position at or after `i` that is not a decimal digit.
pub open spec fn digits_end(src: Seq<char>, i: int) -> int
    decreases src.len() - i,
{
    if 0 <= i < src.len() && is_digit_char(src[i]) {
        digits_end(src, i + 1)
    } else {
        i
    }
}

/// The first newline at or after `i`, or the end of the input.
pub open spec fn comment_end(src: Seq<char>, i: int) -> int
    decreases src.len() - i,
{
    if 0 <= i < src.len() && src[i] != '\n' {
        comment_end(src, i + 1)
    } else {
        i
    }
}

/// The first double quote at or after `i`, if there is one.
pub open spec fn string_close(src: Seq<char>, i: int) -> Option<int>
    decreases src.len() - i,
{
    if 0 <= i < src.len() {
        if src[i] == '"' {
            Some(i)
        } else {
            string_close(src, i + 1)
        }
    } else {
        None
    }
}

/// How many newlines lie in `src[a..b]`.
pub open spec fn count_newlines(src: Seq<char>, a: int, b: int) -> int
    decreases b - a,
{
    if a >= b {
        0
    } else {
        (if src[a] == '\n' {
            1int
        } else {
            0int
        }) + count_newlines(src, a + 1, b)
    }
}

/// A token with no literal payload, over the source text it came from.
pub open spec fn mk_token(kind: TokenType, src: Seq<char>, a: int, b: int, line: int) -> SpecToken {
    SpecToken { kind, lexeme: src.subrange(a, b), literal: SpecValue::Nil, line }
}

/// A lexical diagnostic: a bare line and a message.
pub open spec fn mk_lex_diag(line: int, message: Seq<char>) -> SpecDiag {
    SpecDiag { line, locus: Seq::empty(), message }
}

/// The end-of-input token that closes every scan: empty lexeme, no literal.
pub open spec fn eof_token(line: int) -> SpecToken {
    SpecToken { kind: TokenType::EOF, lexeme: Seq::empty(), literal: SpecValue::Nil, line }
}

/// One step of the scanner at position `i` (which must be in range): the
/// tokens and diagnostics it emits, the next position, and the next line.
pub open spec fn scan_step(src: Seq<char>, i: int, line: int) -> (
    Seq<SpecToken>,
    Seq<SpecDiag>,
    int,
    int,
) {
    let c = src[i];
    if c == '(' {
        (seq![mk_token(TokenType::LEFT_PAREN, src, i, i + 1, line)], seq![], i + 1, line)
    } else if c == ')' {
        (seq![mk_token(TokenType::RIGHT_PAREN, src, i, i + 1, line)], seq![], i + 1, line)
    } else if c == '{' {
        (seq![mk_token(TokenType::LEFT_BRACE, src, i, i + 1, line)], seq![], i + 1, line)
    } else if c == '}' {
        (seq![mk_token(TokenType::RIGHT_BRACE, src, i, i + 1, line)], seq![], i + 1, line)
    } else if c == ',' {
        (seq![mk_token(TokenType::COMMA, src, i, i + 1, line)], seq![], i + 1, line)
    } else if c == '.' {
        (seq![mk_token(TokenType::DOT, src, i, i + 1, line)], seq![], i + 1, line)
    } else if c == '-' {
        (seq![mk_token(TokenType::MINUS, src, i, i + 1, line)], seq![], i + 1, line)
    } else if c == '+' {
        (seq![mk_token(TokenType::PLUS, src, i, i + 1, line)], seq![], i + 1, line)
    } else if c == ';' {
        (seq![mk_token(TokenType::SEMICOLON, src, i, i + 1, line)], seq![], i + 1, line)
    } else if c == '*' {
        (seq![mk_token(TokenType::STAR, src, i, i + 1, line)], seq![], i + 1, line)
    } else if c == '!' {
        if i + 1 < src.len() && src[i + 1] == '=' {
            (seq![mk_token(TokenType::BANG_EQUAL, src, i, i + 2, line)], seq![], i + 2, line)
        } else {
            (seq![mk_token(TokenType::BANG, src, i, i + 1, line)], seq![], i + 1, line)
        }
    } else if c == '=' {
        if i + 1 < src.len() && src[i + 1] == '=' {
            (seq![mk_token(TokenType::EQUAL_EQUAL, src, i, i + 2, line)], seq![], i + 2, line)
        } else {
            (seq![mk_token(TokenType::EQUAL, src, i, i + 1, line)], seq![], i + 1, line)
        }
    } else if c == '<' {
        if i + 1 < src.len() && src[i + 1] == '=' {
            (seq![mk_token(TokenType::LESS_EQUAL, src, i, i + 2, line)], seq![], i + 2, line)
        } else {
            (seq![mk_token(TokenType::LESS, src, i, i + 1, line)], seq![], i + 1, line)
        }
    } else if c == '>' {
        if i + 1 < src.len() && src[i + 1] == '=' {
            (seq![mk_token(TokenType::GREATER_EQUAL, src, i, i + 2, line)], seq![], i + 2, line)
        } else {
            (seq![mk_token(TokenType::GREATER, src, i, i + 1, line)], seq![], i + 1, line)
        }
    } else if c == '/' {
        if i + 1 < src.len() && src[i + 1] == '/' {
            (seq![], seq![], comment_end(src, i + 2), line)
        } else {
            (seq![mk_token(TokenType::SLASH, src, i, i + 1, line)], seq![], i + 1, line)
        }
    } else if c == ' ' || c == '\r' || c == '\t' {
        (seq![], seq![], i + 1, line)
    } else if c == '\n' {
        (seq![], seq![], i + 1, line + 1)
    } else if c == '"' {
        match string_close(src, i + 1) {
            None => (
                seq![],
                seq![mk_lex_diag(line, "Unterminated string."@)],
                src.len() as int,
                line + count_newlines(src, i + 1, src.len() as int),
            ),
            Some(j) => {
                let l2 = line + count_newlines(src, i + 1, j);
                (
                    seq![
                        SpecToken {
                            kind: TokenType::STRING,
                            lexeme: src.subrange(i, j + 1),
                            literal: SpecValue::Str(src.subrange(i + 1, j)),
                            line: l2,
                        },
                    ],
                    seq![],
                    j + 1,
                    l2,
                )
            },
        }
    } else if is_digit_char(c) {
        let b = digits_end(src, i + 1);
        if b < src.len() && src[b] == '.' && b + 1 < src.len() && is_digit_char(src[b + 1]) {
            let d = digits_end(src, b + 1);
            (
                seq![
                    SpecToken {
                        kind: TokenType::NUMBER,
                        lexeme: src.subrange(i, d),
                        literal: SpecValue::Number(
                            num_lit_val(src.subrange(i, b), src.subrange(b + 1, d)),
                        ),
                        line,
                    },
                ],
                seq![],
                d,
                line,
            )
        } else {
            (
                seq![
                    SpecToken {
                        kind: TokenType::NUMBER,
                        lexeme: src.subrange(i, b),
                        literal: SpecValue::Number(num_lit_val(src.subrange(i, b), Seq::empty())),
                        line,
                    },
                ],
                seq![],
                b,
                line,
            )
        }
    } else if is_ident_start(c) {
        let b = ident_end(src, i + 1);
        (seq![mk_token(keyword_kind(src.subrange(i, b)), src, i, b, line)], seq![], b, line)
    } else {
        (seq![], seq![mk_lex_diag(line, "Unexpected character."@)], i + 1, line)
    }
}

/// The tokens and diagnostics of the whole scan from position `i` on line
/// `line`: the steps' output, closed by one end-of-input token.
pub open spec fn spec_scan(src: Seq<char>, i: int, line: int) -> (Seq<SpecToken>, Seq<SpecDiag>)
    decreases src.len() - i,
{
    if !(0 <= i < src.len()) {
        (seq![eof_token(line)], seq![])
    } else {
        let (toks, diags, j, line2) = scan_step(src, i, line);
        let jj = if j <= i {
            i + 1
        } else if j > src.len() {
            src.len() as int
        } else {
            j
        };
        let rest = spec_scan(src, jj, line2);
        (toks + rest.0, diags + rest.1)
    }
}

pub proof fn lemma_ident_end_bounds(src: Seq<char>, i: int)
    requires
        0 <= i <= src.len(),
    ensures
        i <= ident_end(src, i) <= src.len(),
    decreases src.len() - i,
{
    if i < src.len() && is_ident_char(src[i]) {
        lemma_ident_end_bounds(src, i + 1);
    }
}

pub proof fn lemma_digits_end_bounds(src: Seq<char>, i: int)
    requires
        0 <= i <= src.len(),
    ensures
        i <= digits_end(src, i) <= src.len(),
    decreases src.len() - i,
{
    if i < src.len() && is_digit_char(src[i]) {
        lemma_digits_end_bounds(src, i + 1);
    }
}

pub proof fn lemma_comment_end_bounds(src: Seq<char>, i: int)
    requires
        0 <= i <= src.len(),
    ensures
        i <= comment_end(src, i) <= src.len(),
    decreases src.len() - i,
{
    if i < src.len() && src[i] != '\n' {
        lemma_comment_end_bounds(src, i + 1);
    }
}

pub proof fn lemma_string_close_bounds(src: Seq<char>, i: int)
    requires
        0 <= i <= src.len(),
    ensures
        string_close(src, i) matches Some(j) ==> i <= j < src.len() && src[j] == '"',
    decreases src.len() - i,
{
    if i < src.len() && src[i] != '"' {
        lemma_string_close_bounds(src, i + 1);
    }
}

/// The next position after one scanner step always advances and stays
/// inside the input.
pub proof fn lemma_scan_step_bounds(src: Seq<char>, i: int, line: int)
    requires
        0 <= i < src.len(),
    ensures
        i < scan_step(src, i, line).2 <= src.len(),
{
    lemma_ident_end_bounds(src, i + 1);
    lemma_digits_end_bounds(src, i + 1);
    if i + 2 <= src.len() {
        lemma_comment_end_bounds(src, i + 2);
    }
    lemma_string_close_bounds(src, i + 1);
    let c = src[i];
    if is_digit_char(c) {
        let b = digits_end(src, i + 1);
        if b < src.len() && src[b] == '.' && b + 1 < src.len() && is_digit_char(src[b + 1]) {
            lemma_digits_end_bounds(src, b + 1);
        }
    }
}

/// Every scan ends with exactly one end-of-input token, whose lexeme is
/// empty.
pub proof fn lemma_scan_ends_eof(src: Seq<char>, i: int, line: int)
    ensures
        spec_scan(src, i, line).0.len() >= 1,
        spec_scan(src, i, line).0.last().kind == TokenType::EOF,
        spec_scan(src, i, line).0.last().lexeme == Seq::<char>::empty(),
        forall|k: int|
            0 <= k < spec_scan(src, i, line).0.len() - 1 ==> (#[trigger] spec_scan(
                src,
                i,
                line,
            ).0[k]).kind != TokenType::EOF,
    decreases src.len() - i,
{
    if !(0 <= i < src.len()) {
    } else {
        let (toks, diags, j, line2) = scan_step(src, i, line);
        let jj = if j <= i {
            i + 1
        } else if j > src.len() {
            src.len() as int
        } else {
            j
        };
        lemma_scan_ends_eof(src, jj, line2);
        lemma_scan_step_no_eof(src, i, line);
    }
}

/// No single step emits an end-of-input token.
proof fn lemma_scan_step_no_eof(src: Seq<char>, i: int, line: int)
    requires
        0 <= i < src.len(),
    ensures
        forall|k: int|
            0 <= k < scan_step(src, i, line).0.len() ==> (#[trigger] scan_step(
                src,
                i,
                line,
            ).0[k]).kind != TokenType::EOF,
{
}

/// One newline more at the end of a range counts once more.
proof fn lemma_count_newlines_snoc(src: Seq<char>, a: int, b: int)
    requires
        a <= b,
    ensures
        count_newlines(src, a, b + 1) == count_newlines(src, a, b) + (if src[b] == '\n' {
            1int
        } else {
            0int
        }),
    decreases b - a,
{
    if a < b {
        lemma_count_newlines_snoc(src, a + 1, b);
    } else {
        assert(count_newlines(src, a, b) == 0);
        assert(count_newlines(src, a + 1, b + 1) == 0);
        assert(count_newlines(src, a, b + 1) == (if src[a] == '\n' {
            1int
        } else {
            0int
        }) + count_newlines(src, a + 1, b + 1));
    }
}

fn exec_is_digit(c: char) -> (r: bool)
    ensures
        r == is_digit_char(c),
{
    let u = c as u32;
    48 <= u && u <= 57
}

fn exec_is_ident_start(c: char) -> (r: bool)
    ensures
        r == is_ident_start(c),
{
    let u = c as u32;
    (65 <= u && u <= 90) || (97 <= u && u <= 122) || c == '_'
}

fn exec_is_ident_char(c: char) -> (r: bool)
    ensures
        r == is_ident_char(c),
{
    exec_is_ident_start(c) || exec_is_digit(c)
}

/// Classify an identifier run against the reserved-word table.
fn keyword(text: &String) -> (r: TokenType)
    ensures
        r == keyword_kind(text@),
{
    if text.eq(&String::from_str("and")) {
        TokenType::AND
    } else if text.eq(&String::from_str("class")) {
        TokenType::CLASS
    } else if text.eq(&String::from_str("else")) {
        TokenType::ELSE
    } else if text.eq(&String::from_str("false")) {
        TokenType::FALSE
    } else if text.eq(&String::from_str("for")) {
        TokenType::FOR
    } else if text.eq(&String::from_str("fun")) {
        TokenType::FUN
    } else if text.eq(&String::from_str("if")) {
        TokenType::IF
    } else if text.eq(&String::from_str("nil")) {
        TokenType::NIL
    } else if text.eq(&String::from_str("or")) {
        TokenType::OR
    } else if text.eq(&String::from_str("print")) {
        TokenType::PRINT
    } else if text.eq(&String::from_str("return")) {
        TokenType::RETURN
    } else if text.eq(&String::from_str("super")) {
        TokenType::SUPER
    } else if text.eq(&String::from_str("this")) {
        TokenType::THIS
    } else if text.eq(&String::from_str("true")) {
        TokenType::TRUE
    } else if text.eq(&String::from_str("var")) {
        TokenType::VAR
    } else if text.eq(&String::from_str("while")) {
        TokenType::WHILE
    } else {
        TokenType::IDENTIFIER
    }
}

/// The lexer: the source split into characters, the tokens and diagnostics
/// gathered so far, the start of the token being scanned, the position, and
/// the 1-based line counter.
#[derive(Debug)]
pub struct Scanner {
    source: Vec<char>,
    tokens: Vec<Token>,
    errors: Vec<Diag>,
    start: usize,
    current: usize,
    line: usize,
}

impl Scanner {
    /// The source characters.
    pub closed spec fn src(self) -> Seq<char> {
        self.source@
    }

    /// The tokens scanned so far.
    pub closed spec fn spec_tokens(self) -> Seq<SpecToken> {
        self.tokens.deep_view()
    }

    /// The diagnostics reported so far.
    pub closed spec fn spec_errors(self) -> Seq<SpecDiag> {
        self.errors.deep_view()
    }

    /// A scanner that has not consumed anything yet.
    pub closed spec fn fresh(self) -> bool {
        &&& self.tokens@.len() == 0
        &&& self.errors@.len() == 0
        &&& self.start == 0
        &&& self.current == 0
        &&& self.line == 1
        &&& self.source@.len() < usize::MAX
    }

    spec fn wf(self) -> bool {
        &&& self.current <= self.source@.len()
        &&& 1 <= self.line <= self.current + 1
        &&& self.source@.len() < usize::MAX
    }

    /// A scanner over this source code. Call `scan_tokens` after this to
    /// run the lexer.
    pub fn new(source: &str) -> (r: Self)
        requires
            source@.len() < usize::MAX,
        ensures
            r.fresh(),
            r.src() == source@,
    {
        Scanner {
            source: crate::text::str_to_chars(source),
            tokens: Vec::new(),
            errors: Vec::new(),
            start: 0,
            current: 0,
            line: 1,
        }
    }

    fn is_at_end(&self) -> (r: bool)
        ensures
            r == (self.current >= self.source@.len()),
    {
        self.current >= self.source.len()
    }

    /// Look at the next character without consuming it.
    fn peek(&self) -> (r: char)
        requires
            self.wf(),
        ensures
            r == (if self.current < self.source@.len() {
                self.source@[self.current as int]
            } else {
                '\0'
            }),
    {
        if self.is_at_end() {
            '\0'
        } else {
            self.source[self.current]
        }
    }

    fn peek_next(&self) -> (r: char)
        requires
            self.wf(),
        ensures
            r == (if self.current + 1 < self.source@.len() {
                self.source@[self.current + 1]
            } else {
                '\0'
            }),
    {
        if self.current + 1 >= self.source.len() {
            '\0'
        } else {
            self.source[self.current + 1]
        }
    }

    /// Look at the next character; if it is the one given, consume it.
    fn matches(&mut self, c: char) -> (r: bool)
        requires
            old(self).wf(),
        ensures
            final(self).wf(),
            r == (old(self).current < old(self).source@.len() && old(self).source@[old(
                self,
            ).current as int] == c),
            final(self).current == if r {
                old(self).current + 1
            } else {
                old(self).current as int
            },
            final(self).source == old(self).source,
            final(self).tokens == old(self).tokens,
            final(self).errors == old(self).errors,
            final(self).start == old(self).start,
            final(self).line == old(self).line,
    {
        if self.is_at_end() || self.source[self.current] != c {
            false
        } else {
            self.current = self.current + 1;
            true
        }
    }

    /// Consume one character.
    fn advance(&mut self) -> (r: char)
        requires
            old(self).wf(),
            old(self).current < old(self).source@.len(),
        ensures
            final(self).wf(),
            r == old(self).source@[old(self).current as int],
            final(self).current == old(self).current + 1,
            final(self).source == old(self).source,
            final(self).tokens == old(self).tokens,
            final(self).errors == old(self).errors,
            final(self).start == old(self).start,
            final(self).line == old(self).line,
    {
        self.current = self.current + 1;
        self.source[self.current - 1]
    }

    /// Record a finished token whose lexeme is the text scanned since
    /// `start`.
    fn add_token(&mut self, kind: TokenType, literal: Value)
        requires
            old(self).wf(),
            old(self).start <= old(self).current,
        ensures
            final(self).wf(),
            final(self).tokens.deep_view() == old(self).tokens.deep_view() + seq![
                SpecToken {
                    kind,
                    lexeme: old(self).source@.subrange(
                        old(self).start as int,
                        old(self).current as int,
                    ),
                    literal: literal@,
                    line: old(self).line as int,
                },
            ],
            final(self).source == old(self).source,
            final(self).errors == old(self).errors,
            final(self).start == old(self).start,
            final(self).current == old(self).current,
            final(self).line == old(self).line,
    {
        let text = string_of_range(&self.source, self.start, self.current);
        let ghost before = self.tokens.deep_view();
        let line = self.line;
        self.tokens.push(Token::new(kind, text, literal, line));
        proof {
            assert(self.tokens.deep_view() =~= before + seq![
                SpecToken {
                    kind,
                    lexeme: old(self).source@.subrange(
                        old(self).start as int,
                        old(self).current as int,
                    ),
                    literal: literal@,
                    line: old(self).line as int,
                },
            ]);
        }
    }

    /// Scan an identifier run and classify it against the keyword table.
    fn identifier(&mut self)
        requires
            old(self).wf(),
            old(self).start < old(self).source@.len(),
            old(self).current == old(self).start + 1,
        ensures
            final(self).wf(),
            final(self).tokens.deep_view() == old(self).tokens.deep_view() + seq![
                mk_token(
                    keyword_kind(
                        old(self).source@.subrange(
                            old(self).start as int,
                            ident_end(old(self).source@, old(self).start + 1),
                        ),
                    ),
                    old(self).source@,
                    old(self).start as int,
                    ident_end(old(self).source@, old(self).start + 1),
                    old(self).line as int,
                ),
            ],
            final(self).source == old(self).source,
            final(self).errors == old(self).errors,
            final(self).start == old(self).start,
            final(self).current as int == ident_end(old(self).source@, old(self).start + 1),
            final(self).line == old(self).line,
    {
        let ghost src = self.source@;
        let ghost c0 = self.current as int;
        while self.current < self.source.len() && exec_is_ident_char(self.source[self.current])
            invariant
                self.wf(),
                self.source == old(self).source,
                self.source@ == src,
                self.tokens == old(self).tokens,
                self.errors == old(self).errors,
                self.start == old(self).start,
                self.line == old(self).line,
                c0 <= self.current as int,
                ident_end(src, c0) == ident_end(src, self.current as int),
            decreases self.source@.len() - self.current,
        {
            self.current = self.current + 1;
        }
        let text = string_of_range(&self.source, self.start, self.current);
        let kind = keyword(&text);
        self.add_token(kind, Value::Nil);
    }

    /// Scan a number: an integer run, then a fractional run only when a
    /// digit follows the dot, so a bare trailing dot is left unconsumed.
    fn number(&mut self)
        requires
            old(self).wf(),
            old(self).start < old(self).source@.len(),
            old(self).current == old(self).start + 1,
            is_digit_char(old(self).source@[old(self).start as int]),
        ensures
            final(self).wf(),
            ({
                let src = old(self).source@;
                let i = old(self).start as int;
                let line = old(self).line as int;
                let b = digits_end(src, i + 1);
                if b < src.len() && src[b] == '.' && b + 1 < src.len() && is_digit_char(
                    src[b + 1],
                ) {
                    let d = digits_end(src, b + 1);
                    final(self).tokens.deep_view() == old(self).tokens.deep_view() + seq![
                        SpecToken {
                            kind: TokenType::NUMBER,
                            lexeme: src.subrange(i, d),
                            literal: SpecValue::Number(
                                num_lit_val(src.subrange(i, b), src.subrange(b + 1, d)),
                            ),
                            line,
                        },
                    ] && final(self).current as int == d
                } else {
                    final(self).tokens.deep_view() == old(self).tokens.deep_view() + seq![
                        SpecToken {
                            kind: TokenType::NUMBER,
                            lexeme: src.subrange(i, b),
                            literal: SpecValue::Number(
                                num_lit_val(src.subrange(i, b), Seq::empty()),
                            ),
                            line,
                        },
                    ] && final(self).current as int == b
                }
            }),
            final(self).source == old(self).source,
            final(self).errors == old(self).errors,
            final(self).start == old(self).start,
            final(self).line == old(self).line,
    {
        let ghost src = self.source@;
        let ghost c0 = self.current as int;
        while self.current < self.source.len() && exec_is_digit(self.source[self.current])
            invariant
                self.wf(),
                self.source == old(self).source,
                self.source@ == src,
                self.tokens == old(self).tokens,
                self.errors == old(self).errors,
                self.start == old(self).start,
                self.line == old(self).line,
                c0 <= self.current as int,
                digits_end(src, c0) == digits_end(src, self.current as int),
                forall|k: int| c0 <= k < self.current as int ==> is_digit_char(#[trigger] src[k]),
            decreases self.source@.len() - self.current,
        {
            self.current = self.current + 1;
        }
        let ib = self.current;
        let take_fraction = if self.current < self.source.len() {
            if self.source[self.current] == '.' {
                self.peek_next() != '\0' && exec_is_digit(self.peek_next())
            } else {
                false
            }
        } else {
            false
        };
        proof {
            let b = digits_end(src, old(self).start + 1);
            if b + 1 < src.len() && is_digit_char(src[b + 1]) {
                assert(src[b + 1] != '\0');
            }
        }
        if take_fraction {
            // consume the dot
            self.current = self.current + 1;
            let fs = self.current;
            let ghost f0 = self.current as int;
            while self.current < self.source.len() && exec_is_digit(self.source[self.current])
                invariant
                    self.wf(),
                    self.source == old(self).source,
                    self.source@ == src,
                    self.tokens == old(self).tokens,
                    self.errors == old(self).errors,
                    self.start == old(self).start,
                    self.line == old(self).line,
                    f0 <= self.current as int,
                    digits_end(src, f0) == digits_end(src, self.current as int),
                    forall|k: int| f0 <= k < self.current as int ==> is_digit_char(#[trigger] src[k]),
                decreases self.source@.len() - self.current,
            {
                self.current = self.current + 1;
            }
            let value = Num::from_digits(&self.source, self.start, ib, fs, self.current);
            self.add_token(TokenType::NUMBER, Value::Number(value));
        } else {
            let value = Num::from_digits(&self.source, self.start, ib, 0, 0);
            proof {
                assert(src.subrange(0, 0) =~= Seq::<char>::empty());
            }
            self.add_token(TokenType::NUMBER, Value::Number(value));
        }
    }

    /// Scan a string literal: consume through the matching quote, tracking
    /// embedded newlines; reaching the end of the input first reports an
    /// unterminated string at the opening quote's line and emits no token.
    fn string(&mut self)
        requires
            old(self).wf(),
            old(self).start < old(self).source@.len(),
            old(self).current == old(self).start + 1,
        ensures
            final(self).wf(),
            ({
                let src = old(self).source@;
                let i = old(self).start as int;
                let line = old(self).line as int;
                match string_close(src, i + 1) {
                    None => {
                        &&& final(self).tokens == old(self).tokens
                        &&& final(self).errors.deep_view() == old(self).errors.deep_view() + seq![
                            mk_lex_diag(line, "Unterminated string."@),
                        ]
                        &&& final(self).current as int == src.len()
                        &&& final(self).line as int == line + count_newlines(src, i + 1, src.len() as int)
                    },
                    Some(j) => {
                        let l2 = line + count_newlines(src, i + 1, j);
                        &&& final(self).tokens.deep_view() == old(self).tokens.deep_view() + seq![
                            SpecToken {
                                kind: TokenType::STRING,
                                lexeme: src.subrange(i, j + 1),
                                literal: SpecValue::Str(src.subrange(i + 1, j)),
                                line: l2,
                            },
                        ]
                        &&& final(self).errors == old(self).errors
                        &&& final(self).current as int == j + 1
                        &&& final(self).line as int == l2
                    },
                }
            }),
            final(self).source == old(self).source,
            final(self).start == old(self).start,
    {
        let ghost src = self.source@;
        let ghost c0 = self.current as int;
        let ghost line0 = self.line as int;
        let opening_line = self.line;
        proof {
            lemma_string_close_bounds(src, c0);
        }
        while self.current < self.source.len() && self.source[self.current] != '"'
            invariant
                self.wf(),
                self.source == old(self).source,
                self.source@ == src,
                self.tokens == old(self).tokens,
                self.errors == old(self).errors,
                self.start == old(self).start,
                c0 <= self.current as int,
                string_close(src, c0) == string_close(src, self.current as int),
                self.line as int == line0 + count_newlines(src, c0, self.current as int),
            decreases self.source@.len() - self.current,
        {
            proof {
                lemma_count_newlines_snoc(src, c0, self.current as int);
            }
            if self.source[self.current] == '\n' {
                self.line = self.line + 1;
            }
            self.current = self.current + 1;
        }
        if self.current >= self.source.len() {
            let d = crate::diag::error(opening_line, String::from_str("Unterminated string."));
            let ghost before = self.errors.deep_view();
            self.errors.push(d);
            proof {
                assert(self.errors.deep_view() =~= before + seq![
                    mk_lex_diag(line0, "Unterminated string."@),
                ]);
            }
            return ;
        }
        // consume the closing quote
        self.current = self.current + 1;
        let value = string_of_range(&self.source, self.start + 1, self.current - 1);
        self.add_token(TokenType::STRING, Value::Str(value));
    }

    /// Scan one token starting at the current position.
    fn scan_token(&mut self)
        requires
            old(self).wf(),
            old(self).current < old(self).source@.len(),
            old(self).start == old(self).current,
        ensures
            final(self).wf(),
            ({
                let (tk, dg, j, l2) = scan_step(
                    old(self).source@,
                    old(self).current as int,
                    old(self).line as int,
                );
                &&& final(self).tokens.deep_view() == old(self).tokens.deep_view() + tk
                &&& final(self).errors.deep_view() == old(self).errors.deep_view() + dg
                &&& final(self).current as int == j
                &&& final(self).line as int == l2
            }),
            final(self).source == old(self).source,
    {
        let ghost no_tokens: Seq<SpecToken> = Seq::empty();
        let ghost no_diags: Seq<SpecDiag> = Seq::empty();
        proof {
            assert(old(self).tokens.deep_view() + no_tokens =~= old(self).tokens.deep_view());
            assert(old(self).errors.deep_view() + no_diags =~= old(self).errors.deep_view());
        }
        let c = self.advance();
        if c == '(' {
            self.add_token(TokenType::LEFT_PAREN, Value::Nil);
        } else if c == ')' {
            self.add_token(TokenType::RIGHT_PAREN, Value::Nil);
        } else if c == '{' {
            self.add_token(TokenType::LEFT_BRACE, Value::Nil);
        } else if c == '}' {
            self.add_token(TokenType::RIGHT_BRACE, Value::Nil);
        } else if c == ',' {
            self.add_token(TokenType::COMMA, Value::Nil);
        } else if c == '.' {
            self.add_token(TokenType::DOT, Value::Nil);
        } else if c == '-' {
            self.add_token(TokenType::MINUS, Value::Nil);
        } else if c == '+' {
            self.add_token(TokenType::PLUS, Value::Nil);
        } else if c == ';' {
            self.add_token(TokenType::SEMICOLON, Value::Nil);
        } else if c == '*' {
            self.add_token(TokenType::STAR, Value::Nil);
        } else if c == '!' {
            let kind = if self.matches('=') {
                TokenType::BANG_EQUAL
            } else {
                TokenType::BANG
            };
            self.add_token(kind, Value::Nil);
        } else if c == '=' {
            let kind = if self.matches('=') {
                TokenType::EQUAL_EQUAL
            } else {
                TokenType::EQUAL
            };
            self.add_token(kind, Value::Nil);
        } else if c == '<' {
            let kind = if self.matches('=') {
                TokenType::LESS_EQUAL
            } else {
                TokenType::LESS
            };
            self.add_token(kind, Value::Nil);
        } else if c == '>' {
            let kind = if self.matches('=') {
                TokenType::GREATER_EQUAL
            } else {
                TokenType::GREATER
            };
            self.add_token(kind, Value::Nil);
        } else if c == '/' {
            if self.matches('/') {
                // a line comment runs to the newline without emitting a token
                let ghost src = self.source@;
                let ghost c0 = self.current as int;
                while self.current < self.source.len() && self.source[self.current] != '\n'
                    invariant
                        self.wf(),
                        self.source == old(self).source,
                        self.source@ == src,
                        self.tokens == old(self).tokens,
                        self.errors == old(self).errors,
                        self.line == old(self).line,
                        c0 <= self.current as int,
                        comment_end(src, c0) == comment_end(src, self.current as int),
                    decreases self.source@.len() - self.current,
                {
                    self.current = self.current + 1;
                }
            } else {
                self.add_token(TokenType::SLASH, Value::Nil);
            }
        } else if c == ' ' || c == '\r' || c == '\t' {
            // skipped silently
        } else if c == '\n' {
            self.line = self.line + 1;
        } else if c == '"' {
            self.string();
        } else if exec_is_digit(c) {
            self.number();
        } else if exec_is_ident_start(c) {
            self.identifier();
        } else {
            let line = self.line;
            let d = crate::diag::error(line, String::from_str("Unexpected character."));
            let ghost before = self.errors.deep_view();
            self.errors.push(d);
            proof {
                assert(self.errors.deep_view() =~= before + seq![
                    mk_lex_diag(old(self).line as int, "Unexpected character."@),
                ]);
            }
        }
    }

    /// Run the lexer over the whole source: every token it finds, closed by
    /// one end-of-input token with an empty lexeme, beside the lexical
    /// diagnostics. The scan never gives up early: after an error it
    /// resumes at the next character.
    pub fn scan_tokens(&mut self) -> (r: Vec<Token>)
        requires
            old(self).fresh(),
        ensures
            r.deep_view() == spec_scan(old(self).src(), 0, 1).0,
            final(self).spec_errors() == spec_scan(old(self).src(), 0, 1).1,
            final(self).src() == old(self).src(),
            r.deep_view().len() >= 1,
            r.deep_view().last().kind == TokenType::EOF,
            r.deep_view().last().lexeme == Seq::<char>::empty(),
    {
        let ghost src = self.source@;
        let ghost goal = spec_scan(src, 0, 1);
        proof {
            assert(self.tokens.deep_view() =~= Seq::<SpecToken>::empty());
            assert(self.errors.deep_view() =~= Seq::<SpecDiag>::empty());
            assert(Seq::<SpecToken>::empty() + spec_scan(src, 0, 1).0 =~= spec_scan(src, 0, 1).0);
            assert(Seq::<SpecDiag>::empty() + spec_scan(src, 0, 1).1 =~= spec_scan(src, 0, 1).1);
        }
        while self.current < self.source.len()
            invariant
                self.wf(),
                self.source == old(self).source,
                self.source@ == src,
                goal == spec_scan(src, 0, 1),
                goal.0 == self.tokens.deep_view() + spec_scan(
                    src,
                    self.current as int,
                    self.line as int,
                ).0,
                goal.1 == self.errors.deep_view() + spec_scan(
                    src,
                    self.current as int,
                    self.line as int,
                ).1,
            decreases self.source@.len() - self.current,
        {
            let ghost cur = self.current as int;
            let ghost line = self.line as int;
            let ghost toks_b = self.tokens.deep_view();
            let ghost errs_b = self.errors.deep_view();
            proof {
                lemma_scan_step_bounds(src, cur, line);
            }
            self.start = self.current;
            self.scan_token();
            proof {
                let (tk, dg, j, l2) = scan_step(src, cur, line);
                assert(spec_scan(src, cur, line).0 =~= tk + spec_scan(src, j, l2).0);
                assert(spec_scan(src, cur, line).1 =~= dg + spec_scan(src, j, l2).1);
                assert(self.tokens.deep_view() == toks_b + tk);
                assert(self.errors.deep_view() == errs_b + dg);
                assert(toks_b + (tk + spec_scan(src, j, l2).0) =~= (toks_b + tk) + spec_scan(
                    src,
                    j,
                    l2,
                ).0);
                assert(errs_b + (dg + spec_scan(src, j, l2).1) =~= (errs_b + dg) + spec_scan(
                    src,
                    j,
                    l2,
                ).1);
                assert(goal.0 == self.tokens.deep_view() + spec_scan(src, j, l2).0);
                assert(goal.1 == self.errors.deep_view() + spec_scan(src, j, l2).1);
            }
        }
        let line = self.line;
        let ghost toks_before = self.tokens.deep_view();
        self.tokens.push(Token::new(TokenType::EOF, String::new(), Value::Nil, line));
        proof {
            assert(spec_scan(src, self.current as int, self.line as int).0 =~= seq![
                eof_token(self.line as int),
            ]);
            assert(spec_scan(src, self.current as int, self.line as int).1 =~= Seq::<
                SpecDiag,
            >::empty());
            assert(self.tokens.deep_view() =~= toks_before + seq![eof_token(self.line as int)]);
            assert(self.tokens.deep_view() =~= goal.0);
            assert(self.errors.deep_view() =~= goal.1);
        }
        let mut out: Vec<Token> = Vec::new();
        let mut k: usize = 0;
        while k < self.tokens.len()
            invariant
                k <= self.tokens.len(),
                out.deep_view() == self.tokens.deep_view().take(k as int),
                self.tokens.deep_view() == goal.0,
            decreases self.tokens.len() - k,
        {
            let tok = self.tokens[k].clone();
            let ghost prev = out.deep_view();
            out.push(tok);
            proof {
                assert(out.deep_view() =~= prev.push(tok@));
                assert(self.tokens.deep_view()[k as int] == self.tokens@[k as int].deep_view());
                assert(out.deep_view() =~= self.tokens.deep_view().take(k + 1));
            }
            k = k + 1;
        }
        proof {
            assert(out.deep_view() =~= self.tokens.deep_view());
            lemma_scan_ends_eof(src, 0, 1);
        }
        out
    }

    /// The lexical diagnostics gathered by the scan.
    pub fn diagnostics(&self) -> (r: &Vec<Diag>)
        ensures
            r.deep_view() == self.spec_errors(),
    {
        &self.errors
    }
}

} // verus!

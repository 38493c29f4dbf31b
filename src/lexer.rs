use vstd::prelude::*;
use crate::token::{Symbol, Token, TokenView, tokens_view};

verus! {

/// Whether `char::is_alphanumeric` holds of a character (Unicode
/// categories Alphabetic and Numeric).
pub uninterp spec fn alphanumeric(c: char) -> bool;

/// Relies on `char::is_alphanumeric`: its answer depends on the character alone.
#[verifier::external_body]
fn is_alphanumeric(c: char) -> (r: bool)
    ensures
        r == alphanumeric(c),
{
    c.is_alphanumeric()
}

#[derive(Debug, Clone, Copy, PartialEq, Eq, Structural)]
pub enum LexError {
    /// A `"` with no closing `"` after it.
    UnterminatedString,
    /// A digit run whose value does not fit in a 64-bit signed integer.
    MalformedNumber,
}

/// The kinds of character runs the lexer consumes in one go.
#[derive(Debug, Clone, Copy, PartialEq, Eq, Structural)]
pub enum Run {
    /// The rest of an identifier or keyword.
    Word,
    /// The rest of a number.
    Digits,
    /// The body of a string literal.
    Quoted,
    /// The rest of a line comment.
    Line,
}

pub open spec fn is_digit(c: char) -> bool {
    '0' <= c && c <= '9'
}

pub open spec fn word_start(c: char) -> bool {
    ('a' <= c && c <= 'z') || ('A' <= c && c <= 'Z') || c == '_'
}

pub open spec fn in_run(k: Run, c: char) -> bool {
    match k {
        Run::Word => alphanumeric(c) || c == '_' || c == '$',
        Run::Digits => is_digit(c),
        Run::Quoted => c != '"',
        Run::Line => c != '\n',
    }
}

/// The first position at or after `i` that does not continue a run of kind `k`.
pub open spec fn run_end(s: Seq<char>, i: int, k: Run) -> int
    decreases s.len() - i,
{
    if 0 <= i < s.len() && in_run(k, s[i]) {
        run_end(s, i + 1, k)
    } else {
        i
    }
}

pub open spec fn digit_value(c: char) -> int {
    (c as u32) as int - ('0' as u32) as int
}

/// The value of a run of decimal digits.
pub open spec fn digits_value(w: Seq<char>) -> int
    decreases w.len(),
{
    if w.len() == 0 {
        0
    } else {
        digits_value(w.drop_last()) * 10 + digit_value(w.last())
    }
}

pub open spec fn keyword(w: Seq<char>) -> Option<Symbol> {
    if w == "let"@ {
        Some(Symbol::Let)
    } else if w == "var"@ {
        Some(Symbol::Var)
    } else if w == "if"@ {
        Some(Symbol::If)
    } else if w == "else"@ {
        Some(Symbol::Else)
    } else if w == "while"@ {
        Some(Symbol::While)
    } else if w == "for"@ {
        Some(Symbol::For)
    } else if w == "do"@ {
        Some(Symbol::Do)
    } else if w == "continue"@ {
        Some(Symbol::Continue)
    } else if w == "break"@ {
        Some(Symbol::Break)
    } else if w == "return"@ {
        Some(Symbol::Return)
    } else if w == "function"@ {
        Some(Symbol::Function)
    } else if w == "true"@ {
        Some(Symbol::True)
    } else if w == "false"@ {
        Some(Symbol::False)
    } else if w == "null"@ {
        Some(Symbol::Null)
    } else if w == "undefined"@ {
        Some(Symbol::Undefined)
    } else {
        None
    }
}

pub open spec fn word_token(w: Seq<char>) -> TokenView {
    match keyword(w) {
        Some(k) => TokenView::Sym(k),
        None => TokenView::Identifier(w),
    }
}

/// Operators of two characters, which win over their one-character prefixes.
pub open spec fn pair_symbol(a: char, b: char) -> Option<Symbol> {
    if b == '=' {
        if a == '=' {
            Some(Symbol::EqualEqual)
        } else if a == '!' {
            Some(Symbol::BangEqual)
        } else if a == '<' {
            Some(Symbol::LessEqual)
        } else if a == '>' {
            Some(Symbol::GreaterEqual)
        } else if a == '+' {
            Some(Symbol::PlusEqual)
        } else if a == '-' {
            Some(Symbol::MinusEqual)
        } else if a == '*' {
            Some(Symbol::StarEqual)
        } else if a == '/' {
            Some(Symbol::SlashEqual)
        } else if a == '%' {
            Some(Symbol::PercentEqual)
        } else {
            None
        }
    } else if a == '&' && b == '&' {
        Some(Symbol::AmpAmp)
    } else if a == '|' && b == '|' {
        Some(Symbol::PipePipe)
    } else if a == '+' && b == '+' {
        Some(Symbol::PlusPlus)
    } else if a == '-' && b == '-' {
        Some(Symbol::MinusMinus)
    } else {
        None
    }
}

pub open spec fn single_symbol(a: char) -> Option<Symbol> {
    if a == '(' {
        Some(Symbol::LeftParen)
    } else if a == ')' {
        Some(Symbol::RightParen)
    } else if a == '{' {
        Some(Symbol::LeftBrace)
    } else if a == '}' {
        Some(Symbol::RightBrace)
    } else if a == '[' {
        Some(Symbol::LeftBracket)
    } else if a == ']' {
        Some(Symbol::RightBracket)
    } else if a == ',' {
        Some(Symbol::Comma)
    } else if a == '.' {
        Some(Symbol::Dot)
    } else if a == ':' {
        Some(Symbol::Colon)
    } else if a == ';' {
        Some(Symbol::Semicolon)
    } else if a == '/' {
        Some(Symbol::Slash)
    } else if a == '*' {
        Some(Symbol::Star)
    } else if a == '+' {
        Some(Symbol::Plus)
    } else if a == '-' {
        Some(Symbol::Minus)
    } else if a == '%' {
        Some(Symbol::Percent)
    } else if a == '=' {
        Some(Symbol::Equal)
    } else if a == '!' {
        Some(Symbol::Bang)
    } else if a == '<' {
        Some(Symbol::Less)
    } else if a == '>' {
        Some(Symbol::Greater)
    } else {
        None
    }
}

/// One step of the lexer at position `i` (which must be inside `s`): the
/// token found there, if any, and the position after it. Whitespace, line
/// comments and unrecognized characters give no token.
pub open spec fn scan(s: Seq<char>, i: int) -> (Result<Option<TokenView>, LexError>, int) {
    let c = s[i];
    if word_start(c) {
        let e = run_end(s, i + 1, Run::Word);
        (Ok(Some(word_token(s.subrange(i, e)))), e)
    } else if is_digit(c) {
        let e = run_end(s, i + 1, Run::Digits);
        let v = digits_value(s.subrange(i, e));
        if v <= i64::MAX {
            (Ok(Some(TokenView::Number(v as i64))), e)
        } else {
            (Err(LexError::MalformedNumber), e)
        }
    } else if c == '"' {
        let e = run_end(s, i + 1, Run::Quoted);
        if e < s.len() {
            (Ok(Some(TokenView::StringLiteral(s.subrange(i + 1, e)))), e + 1)
        } else {
            (Err(LexError::UnterminatedString), e)
        }
    } else if c == '/' && i + 1 < s.len() && s[i + 1] == '/' {
        (Ok(None), run_end(s, i + 2, Run::Line))
    } else if i + 1 < s.len() && pair_symbol(c, s[i + 1]) is Some {
        (Ok(Some(TokenView::Sym(pair_symbol(c, s[i + 1])->0))), i + 2)
    } else if single_symbol(c) is Some {
        (Ok(Some(TokenView::Sym(single_symbol(c)->0))), i + 1)
    } else {
        (Ok(None), i + 1)
    }
}

pub open spec fn prepend(t: Option<TokenView>, r: Result<Seq<TokenView>, LexError>) -> Result<
    Seq<TokenView>,
    LexError,
> {
    match (t, r) {
        (Some(t), Ok(ts)) => Ok(seq![t] + ts),
        _ => r,
    }
}

/// The tokens of `s` from position `i` on, ended by the end-of-stream token.
pub open spec fn lex_from(s: Seq<char>, i: int) -> Result<Seq<TokenView>, LexError>
    decreases s.len() - i,
{
    if i < 0 || i >= s.len() {
        Ok(seq![TokenView::Sym(Symbol::EOF)])
    } else {
        let (r, next) = scan(s, i);
        match r {
            Err(e) => Err(e),
            Ok(t) => {
                proof {
                    lemma_scan_advances(s, i);
                }
                prepend(t, lex_from(s, next))
            },
        }
    }
}

/// The tokens of a whole source text.
pub open spec fn lex_spec(s: Seq<char>) -> Result<Seq<TokenView>, LexError> {
    lex_from(s, 0)
}

pub proof fn lemma_run_end_bounds(s: Seq<char>, i: int, k: Run)
    requires
        0 <= i <= s.len(),
    ensures
        i <= run_end(s, i, k) <= s.len(),
        forall|j: int| i <= j < run_end(s, i, k) ==> in_run(k, #[trigger] s[j]),
        run_end(s, i, k) < s.len() ==> !in_run(k, s[run_end(s, i, k)]),
    decreases s.len() - i,
{
    if i < s.len() && in_run(k, s[i]) {
        lemma_run_end_bounds(s, i + 1, k);
    }
}

pub proof fn lemma_scan_advances(s: Seq<char>, i: int)
    requires
        0 <= i < s.len(),
    ensures
        scan(s, i).0 is Ok ==> i < scan(s, i).1 <= s.len(),
{
    lemma_run_end_bounds(s, i + 1, Run::Word);
    lemma_run_end_bounds(s, i + 1, Run::Digits);
    lemma_run_end_bounds(s, i + 1, Run::Quoted);
    if i + 2 <= s.len() {
        lemma_run_end_bounds(s, i + 2, Run::Line);
    }
}

/// Every source that lexes cleanly gives a token list that ends with the
/// end-of-stream token.
pub proof fn lemma_lex_ends_with_eof(s: Seq<char>, i: int)
    ensures
        lex_from(s, i) is Ok ==> ({
            let ts = lex_from(s, i)->Ok_0;
            ts.len() > 0 && ts.last() == TokenView::Sym(Symbol::EOF)
        }),
    decreases s.len() - i,
{
    if 0 <= i < s.len() {
        let (r, next) = scan(s, i);
        if r is Ok {
            lemma_scan_advances(s, i);
            lemma_lex_ends_with_eof(s, next);
            let rest = lex_from(s, next);
            if rest is Ok && r->Ok_0 is Some {
                let ts = seq![r->Ok_0->0] + rest->Ok_0;
                assert(ts.last() == rest->Ok_0.last());
            }
        }
    }
}

proof fn lemma_digits_step(w: Seq<char>, c: char)
    ensures
        digits_value(w.push(c)) == digits_value(w) * 10 + digit_value(c),
{
    assert(w.push(c).drop_last() =~= w);
}

proof fn lemma_digits_nonneg(w: Seq<char>)
    requires
        forall|j: int| 0 <= j < w.len() ==> is_digit(#[trigger] w[j]),
    ensures
        digits_value(w) >= 0,
    decreases w.len(),
{
    if w.len() > 0 {
        lemma_digits_nonneg(w.drop_last());
    }
}

pub struct Lexer {
    source: Vec<char>,
    text: String,
    pos: usize,
}

impl Lexer {
    /// The characters of the source text.
    pub closed spec fn input(&self) -> Seq<char> {
        self.source@
    }

    /// The position of the next character to read.
    pub closed spec fn position(&self) -> int {
        self.pos as int
    }

    pub closed spec fn wf(&self) -> bool {
        &&& self.text@ == self.source@
        &&& self.pos <= self.source@.len()
        &&& self.source@.len() <= usize::MAX
    }

    pub fn new(source: &str) -> (r: Self)
        ensures
            r.wf(),
            r.input() == source@,
            r.position() == 0,
    {
        let n = source.unicode_len();
        let mut chars: Vec<char> = Vec::new();
        let mut i: usize = 0;
        while i < n
            invariant
                n == source@.len(),
                i <= n,
                chars@ == source@.subrange(0, i as int),
            decreases n - i,
        {
            chars.push(source.get_char(i));
            i = i + 1;
            assert(chars@ =~= source@.subrange(0, i as int));
        }
        assert(chars@ =~= source@);
        Lexer { source: chars, text: String::from_str(source), pos: 0 }
    }

    /// The character at the current position, if any.
    pub fn peek(&self) -> (r: Option<char>)
        requires
            self.wf(),
        ensures
            r == (if self.position() < self.input().len() {
                Some(self.input()[self.position()])
            } else {
                None
            }),
    {
        self.peek_ahead(0)
    }

    /// The character `by` places after the current position, if any.
    pub fn peek_ahead(&self, by: usize) -> (r: Option<char>)
        requires
            self.wf(),
        ensures
            r == (if self.position() + by < self.input().len() {
                Some(self.input()[self.position() + by])
            } else {
                None
            }),
    {
        if by >= self.source.len() - self.pos {
            None
        } else {
            Some(self.source[self.pos + by])
        }
    }

    /// Reads the character at the current position and moves past it.
    pub fn consume(&mut self) -> (r: Option<char>)
        requires
            old(self).wf(),
        ensures
            final(self).wf(),
            final(self).input() == old(self).input(),
            r == (if old(self).position() < old(self).input().len() {
                Some(old(self).input()[old(self).position()])
            } else {
                None
            }),
            final(self).position() == (if old(self).position() < old(self).input().len() {
                old(self).position() + 1
            } else {
                old(self).position()
            }),
    {
        let r = self.peek();
        if self.pos < self.source.len() {
            self.pos = self.pos + 1;
        }
        r
    }

    /// Moves past the run of kind `k` that starts at the current position.
    pub fn consume_while(&mut self, k: Run)
        requires
            old(self).wf(),
        ensures
            final(self).wf(),
            final(self).input() == old(self).input(),
            final(self).position() == run_end(old(self).input(), old(self).position(), k),
    {
        let ghost s = self.source@;
        let ghost start = self.pos as int;
        proof {
            lemma_run_end_bounds(s, start, k);
        }
        while self.pos < self.source.len() && self.continues_run(k, self.source[self.pos])
            invariant
                self.wf(),
                self.source@ == s,
                start <= self.pos <= run_end(s, start, k),
                run_end(s, self.pos as int, k) == run_end(s, start, k),
            decreases self.source.len() - self.pos,
        {
            self.pos = self.pos + 1;
            proof {
                lemma_run_end_bounds(s, self.pos as int, k);
            }
        }
    }

    fn continues_run(&self, k: Run, c: char) -> (r: bool)
        ensures
            r == in_run(k, c),
    {
        match k {
            Run::Word => is_alphanumeric(c) || c == '_' || c == '$',
            Run::Digits => '0' <= c && c <= '9',
            Run::Quoted => c != '"',
            Run::Line => c != '\n',
        }
    }
}


pub open spec fn step_view(r: Result<Option<Token>, LexError>) -> Result<Option<TokenView>, LexError> {
    match r {
        Ok(Some(t)) => Ok(Some(t@)),
        Ok(None) => Ok(None),
        Err(e) => Err(e),
    }
}

pub open spec fn lexed_view(r: Result<Vec<Token>, LexError>) -> Result<Seq<TokenView>, LexError> {
    match r {
        Ok(ts) => Ok(tokens_view(ts@)),
        Err(e) => Err(e),
    }
}

pub open spec fn prepend_all(prefix: Seq<TokenView>, r: Result<Seq<TokenView>, LexError>) -> Result<
    Seq<TokenView>,
    LexError,
> {
    match r {
        Ok(ts) => Ok(prefix + ts),
        Err(e) => Err(e),
    }
}

fn pair_symbol_of(a: char, b: char) -> (r: Option<Symbol>)
    ensures
        r == pair_symbol(a, b),
{
    if b == '=' {
        match a {
            '=' => Some(Symbol::EqualEqual),
            '!' => Some(Symbol::BangEqual),
            '<' => Some(Symbol::LessEqual),
            '>' => Some(Symbol::GreaterEqual),
            '+' => Some(Symbol::PlusEqual),
            '-' => Some(Symbol::MinusEqual),
            '*' => Some(Symbol::StarEqual),
            '/' => Some(Symbol::SlashEqual),
            '%' => Some(Symbol::PercentEqual),
            _ => None,
        }
    } else if a == '&' && b == '&' {
        Some(Symbol::AmpAmp)
    } else if a == '|' && b == '|' {
        Some(Symbol::PipePipe)
    } else if a == '+' && b == '+' {
        Some(Symbol::PlusPlus)
    } else if a == '-' && b == '-' {
        Some(Symbol::MinusMinus)
    } else {
        None
    }
}

fn single_symbol_of(a: char) -> (r: Option<Symbol>)
    ensures
        r == single_symbol(a),
{
    match a {
        '(' => Some(Symbol::LeftParen),
        ')' => Some(Symbol::RightParen),
        '{' => Some(Symbol::LeftBrace),
        '}' => Some(Symbol::RightBrace),
        '[' => Some(Symbol::LeftBracket),
        ']' => Some(Symbol::RightBracket),
        ',' => Some(Symbol::Comma),
        '.' => Some(Symbol::Dot),
        ':' => Some(Symbol::Colon),
        ';' => Some(Symbol::Semicolon),
        '/' => Some(Symbol::Slash),
        '*' => Some(Symbol::Star),
        '+' => Some(Symbol::Plus),
        '-' => Some(Symbol::Minus),
        '%' => Some(Symbol::Percent),
        '=' => Some(Symbol::Equal),
        '!' => Some(Symbol::Bang),
        '<' => Some(Symbol::Less),
        '>' => Some(Symbol::Greater),
        _ => None,
    }
}

impl Lexer {
    fn word_is(&self, start: usize, end: usize, lit: &str) -> (r: bool)
        requires
            start <= end <= self.source@.len(),
        ensures
            r == (self.source@.subrange(start as int, end as int) == lit@),
    {
        let n = lit.unicode_len();
        if n != end - start {
            return false;
        }
        let mut i: usize = 0;
        while i < n
            invariant
                n == lit@.len(),
                n == end - start,
                start <= end <= self.source@.len(),
                i <= n,
                forall|j: int| 0 <= j < i ==> self.source@[start + j] == lit@[j],
            decreases n - i,
        {
            if self.source[start + i] != lit.get_char(i) {
                assert(self.source@.subrange(start as int, end as int)[i as int] != lit@[i as int]);
                return false;
            }
            i = i + 1;
        }
        assert(self.source@.subrange(start as int, end as int) =~= lit@);
        true
    }

    fn keyword_at(&self, start: usize, end: usize) -> (r: Option<Symbol>)
        requires
            start <= end <= self.source@.len(),
        ensures
            r == keyword(self.source@.subrange(start as int, end as int)),
    {
        if self.word_is(start, end, "let") {
            Some(Symbol::Let)
        } else if self.word_is(start, end, "var") {
            Some(Symbol::Var)
        } else if self.word_is(start, end, "if") {
            Some(Symbol::If)
        } else if self.word_is(start, end, "else") {
            Some(Symbol::Else)
        } else if self.word_is(start, end, "while") {
            Some(Symbol::While)
        } else if self.word_is(start, end, "for") {
            Some(Symbol::For)
        } else if self.word_is(start, end, "do") {
            Some(Symbol::Do)
        } else if self.word_is(start, end, "continue") {
            Some(Symbol::Continue)
        } else if self.word_is(start, end, "break") {
            Some(Symbol::Break)
        } else if self.word_is(start, end, "return") {
            Some(Symbol::Return)
        } else if self.word_is(start, end, "function") {
            Some(Symbol::Function)
        } else if self.word_is(start, end, "true") {
            Some(Symbol::True)
        } else if self.word_is(start, end, "false") {
            Some(Symbol::False)
        } else if self.word_is(start, end, "null") {
            Some(Symbol::Null)
        } else if self.word_is(start, end, "undefined") {
            Some(Symbol::Undefined)
        } else {
            None
        }
    }

    /// Reads an identifier or keyword.
    fn lex_identifier(&mut self) -> (r: Token)
        requires
            old(self).wf(),
            old(self).position() < old(self).input().len(),
            word_start(old(self).input()[old(self).position()]),
        ensures
            final(self).wf(),
            final(self).input() == old(self).input(),
            scan(old(self).input(), old(self).position()) == (
            Ok::<_, LexError>(Some(r@)),
            final(self).position(),
            ),
    {
        let start = self.pos;
        self.pos = self.pos + 1;
        self.consume_while(Run::Word);
        let end = self.pos;
        proof {
            lemma_run_end_bounds(self.source@, start + 1, Run::Word);
        }
        match self.keyword_at(start, end) {
            Some(k) => Token::Sym(k),
            None => Token::Identifier(String::from_str(self.text.as_str().substring_char(start, end))),
        }
    }

    /// Reads a run of decimal digits as a number.
    fn lex_numeric(&mut self) -> (r: Result<Token, LexError>)
        requires
            old(self).wf(),
            old(self).position() < old(self).input().len(),
            is_digit(old(self).input()[old(self).position()]),
        ensures
            final(self).wf(),
            final(self).input() == old(self).input(),
            scan(old(self).input(), old(self).position()) == (
            match r {
                Ok(t) => Ok::<_, LexError>(Some(t@)),
                Err(e) => Err(e),
            },
            final(self).position(),
            ),
    {
        let ghost s = self.source@;
        let start = self.pos;
        let first = self.source[start];
        let mut acc: i64 = (first as u32 - '0' as u32) as i64;
        let mut over = false;
        self.pos = self.pos + 1;
        proof {
            assert(s.subrange(start as int, start + 1) =~= seq![].push(first));
            lemma_digits_step(seq![], first);
            lemma_run_end_bounds(s, start + 1, Run::Digits);
        }
        while self.pos < self.source.len() && '0' <= self.source[self.pos] && self.source[self.pos] <= '9'
            invariant
                self.wf(),
                self.source@ == s,
                start < self.pos <= s.len(),
                forall|j: int| start <= j < self.pos ==> is_digit(#[trigger] s[j]),
                run_end(s, self.pos as int, Run::Digits) == run_end(s, start + 1, Run::Digits),
                acc >= 0,
                !over ==> acc == digits_value(s.subrange(start as int, self.pos as int)),
                over ==> digits_value(s.subrange(start as int, self.pos as int)) > i64::MAX,
            decreases s.len() - self.pos,
        {
            let c = self.source[self.pos];
            let d: i64 = (c as u32 - '0' as u32) as i64;
            let ghost w = s.subrange(start as int, self.pos as int);
            proof {
                assert(s.subrange(start as int, self.pos + 1) =~= w.push(c));
                lemma_digits_step(w, c);
                lemma_digits_nonneg(w);
            }
            if !over {
                if acc <= (i64::MAX - d) / 10 {
                    proof {
                        assert(acc * 10 + d <= i64::MAX) by (nonlinear_arith)
                            requires
                                acc <= (i64::MAX - d) / 10,
                                0 <= d <= 9,
                        ;
                    }
                    acc = acc * 10 + d;
                } else {
                    proof {
                        assert(acc * 10 + d > i64::MAX) by (nonlinear_arith)
                            requires
                                acc > (i64::MAX - d) / 10,
                                0 <= d <= 9,
                        ;
                    }
                    over = true;
                }
            } else {
                proof {
                    assert(digits_value(w) * 10 + d > i64::MAX) by (nonlinear_arith)
                        requires
                            digits_value(w) > i64::MAX,
                            0 <= d <= 9,
                    ;
                }
            }
            self.pos = self.pos + 1;
        }
        proof {
            lemma_run_end_bounds(s, self.pos as int, Run::Digits);
        }
        if over {
            Err(LexError::MalformedNumber)
        } else {
            Ok(Token::Number(acc))
        }
    }

    /// Reads a string literal, quotes included.
    fn lex_literal(&mut self) -> (r: Result<Token, LexError>)
        requires
            old(self).wf(),
            old(self).position() < old(self).input().len(),
            old(self).input()[old(self).position()] == '"',
        ensures
            final(self).wf(),
            final(self).input() == old(self).input(),
            scan(old(self).input(), old(self).position()) == (
            match r {
                Ok(t) => Ok::<_, LexError>(Some(t@)),
                Err(e) => Err(e),
            },
            final(self).position(),
            ),
    {
        let start = self.pos;
        self.pos = self.pos + 1;
        self.consume_while(Run::Quoted);
        proof {
            lemma_run_end_bounds(self.source@, start + 1, Run::Quoted);
        }
        if self.pos < self.source.len() {
            let body = String::from_str(self.text.as_str().substring_char(start + 1, self.pos));
            self.pos = self.pos + 1;
            Ok(Token::StringLiteral(body))
        } else {
            Err(LexError::UnterminatedString)
        }
    }

    /// One step of the lexer: the token at the current position, if any.
    fn next_token(&mut self) -> (r: Result<Option<Token>, LexError>)
        requires
            old(self).wf(),
            old(self).position() < old(self).input().len(),
        ensures
            final(self).wf(),
            final(self).input() == old(self).input(),
            scan(old(self).input(), old(self).position()) == (step_view(r), final(self).position()),
    {
        let c = self.source[self.pos];
        if ('a' <= c && c <= 'z') || ('A' <= c && c <= 'Z') || c == '_' {
            Ok(Some(self.lex_identifier()))
        } else if '0' <= c && c <= '9' {
            match self.lex_numeric() {
                Ok(t) => Ok(Some(t)),
                Err(e) => Err(e),
            }
        } else if c == '"' {
            match self.lex_literal() {
                Ok(t) => Ok(Some(t)),
                Err(e) => Err(e),
            }
        } else {
            let next = self.peek_ahead(1);
            if c == '/' && next == Some('/') {
                self.pos = self.pos + 2;
                self.consume_while(Run::Line);
                return Ok(None);
            }
            if let Some(n) = next {
                if let Some(sym) = pair_symbol_of(c, n) {
                    self.pos = self.pos + 2;
                    return Ok(Some(Token::Sym(sym)));
                }
            }
            self.pos = self.pos + 1;
            match single_symbol_of(c) {
                Some(sym) => Ok(Some(Token::Sym(sym))),
                None => Ok(None),
            }
        }
    }

    /// Lexes the rest of the source into tokens ended by the end-of-stream token.
    pub fn lex(&mut self) -> (r: Result<Vec<Token>, LexError>)
        requires
            old(self).wf(),
        ensures
            final(self).wf(),
            final(self).input() == old(self).input(),
            lexed_view(r) == lex_from(old(self).input(), old(self).position()),
    {
        let ghost s = self.source@;
        let ghost p0 = self.pos as int;
        let mut tokens: Vec<Token> = Vec::new();
        assert(tokens_view(tokens@) =~= Seq::<TokenView>::empty());
        assert(prepend_all(Seq::empty(), lex_from(s, p0)) == lex_from(s, p0)) by {
            if lex_from(s, p0) is Ok {
                assert(Seq::<TokenView>::empty() + lex_from(s, p0)->Ok_0 =~= lex_from(s, p0)->Ok_0);
            }
        }
        while self.pos < self.source.len()
            invariant
                self.wf(),
                self.source@ == s,
                s == old(self).input(),
                p0 == old(self).position(),
                lex_from(s, p0) == prepend_all(tokens_view(tokens@), lex_from(s, self.pos as int)),
            decreases s.len() - self.pos,
        {
            let ghost before = self.pos as int;
            let ghost prefix = tokens_view(tokens@);
            proof {
                lemma_scan_advances(s, before);
            }
            match self.next_token() {
                Err(e) => {
                    return Err(e);
                },
                Ok(Some(t)) => {
                    tokens.push(t);
                    proof {
                        assert(tokens_view(tokens@) =~= prefix.push(t@));
                        let rest = lex_from(s, self.pos as int);
                        if rest is Ok {
                            assert(prefix + (seq![t@] + rest->Ok_0) =~= prefix.push(t@) + rest->Ok_0);
                        }
                    }
                },
                Ok(None) => {},
            }
        }
        let ghost prefix = tokens_view(tokens@);
        tokens.push(Token::Sym(Symbol::EOF));
        proof {
            assert(tokens_view(tokens@) =~= prefix + seq![TokenView::Sym(Symbol::EOF)]);
        }
        Ok(tokens)
    }
}

/// Lexes a whole source text.
pub fn tokenize(source: &str) -> (r: Result<Vec<Token>, LexError>)
    ensures
        lexed_view(r) == lex_spec(source@),
        r is Ok ==> r->Ok_0@.len() > 0 && r->Ok_0@.last() == Token::Sym(Symbol::EOF),
{
    let mut lexer = Lexer::new(source);
    let r = lexer.lex();
    proof {
        lemma_lex_ends_with_eof(source@, 0);
        if r is Ok {
            let ts = r->Ok_0@;
            assert(tokens_view(ts).last() == ts.last()@);
        }
    }
    r
}

} // verus!

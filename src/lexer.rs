//! Lexer: turns source text into tokens, one at a time.
use vstd::prelude::*;
use crate::charclass::{
    alphabetic_class, ident_class, is_alphabetic, is_ident_char, is_numeric, is_whitespace,
    numeric_class, whitespace_class,
};

verus! {

/// Tokens of the language.
#[derive(Debug, Clone)]
pub enum Token {
    Ident(String),
    Number(i64),
    String(String),
    Fn,
    Let,
    Module,
    Use,
    Bang,
    LBrace,
    RBrace,
    IntentOpen,
    IntentClose,
    Arrow,
    LessThanEqual,
    Colon,
    Comma,
    LParen,
    RParen,
    Eof,
    Unknown(char),
}

/// Mathematical value of a token: texts become sequences of characters.
pub enum Lexeme {
    Ident(Seq<char>),
    Number(i64),
    Str(Seq<char>),
    Fn,
    Let,
    Module,
    Use,
    Bang,
    LBrace,
    RBrace,
    IntentOpen,
    IntentClose,
    Arrow,
    LessThanEqual,
    Colon,
    Comma,
    LParen,
    RParen,
    Eof,
    Unknown(char),
}

impl View for Token {
    type V = Lexeme;

    open spec fn view(&self) -> Lexeme {
        match self {
            Token::Ident(s) => Lexeme::Ident(s@),
            Token::Number(n) => Lexeme::Number(*n),
            Token::String(s) => Lexeme::Str(s@),
            Token::Fn => Lexeme::Fn,
            Token::Let => Lexeme::Let,
            Token::Module => Lexeme::Module,
            Token::Use => Lexeme::Use,
            Token::Bang => Lexeme::Bang,
            Token::LBrace => Lexeme::LBrace,
            Token::RBrace => Lexeme::RBrace,
            Token::IntentOpen => Lexeme::IntentOpen,
            Token::IntentClose => Lexeme::IntentClose,
            Token::Arrow => Lexeme::Arrow,
            Token::LessThanEqual => Lexeme::LessThanEqual,
            Token::Colon => Lexeme::Colon,
            Token::Comma => Lexeme::Comma,
            Token::LParen => Lexeme::LParen,
            Token::RParen => Lexeme::RParen,
            Token::Eof => Lexeme::Eof,
            Token::Unknown(c) => Lexeme::Unknown(*c),
        }
    }
}

impl Token {
    /// A copy of the token.
    pub fn duplicate(&self) -> (r: Token)
        ensures
            r@ == self@,
    {
        match self {
            Token::Ident(s) => Token::Ident(s.clone()),
            Token::Number(n) => Token::Number(*n),
            Token::String(s) => Token::String(s.clone()),
            Token::Fn => Token::Fn,
            Token::Let => Token::Let,
            Token::Module => Token::Module,
            Token::Use => Token::Use,
            Token::Bang => Token::Bang,
            Token::LBrace => Token::LBrace,
            Token::RBrace => Token::RBrace,
            Token::IntentOpen => Token::IntentOpen,
            Token::IntentClose => Token::IntentClose,
            Token::Arrow => Token::Arrow,
            Token::LessThanEqual => Token::LessThanEqual,
            Token::Colon => Token::Colon,
            Token::Comma => Token::Comma,
            Token::LParen => Token::LParen,
            Token::RParen => Token::RParen,
            Token::Eof => Token::Eof,
            Token::Unknown(c) => Token::Unknown(*c),
        }
    }

    /// Whether this is the end-of-input token.
    pub fn is_eof(&self) -> (r: bool)
        ensures
            r == (self@ is Eof),
    {
        match self {
            Token::Eof => true,
            _ => false,
        }
    }
}

impl PartialEq for Token {
    fn eq(&self, other: &Token) -> (r: bool) {
        match (self, other) {
            (Token::Ident(a), Token::Ident(b)) => a.eq(b),
            (Token::Number(a), Token::Number(b)) => *a == *b,
            (Token::String(a), Token::String(b)) => a.eq(b),
            (Token::Fn, Token::Fn) => true,
            (Token::Let, Token::Let) => true,
            (Token::Module, Token::Module) => true,
            (Token::Use, Token::Use) => true,
            (Token::Bang, Token::Bang) => true,
            (Token::LBrace, Token::LBrace) => true,
            (Token::RBrace, Token::RBrace) => true,
            (Token::IntentOpen, Token::IntentOpen) => true,
            (Token::IntentClose, Token::IntentClose) => true,
            (Token::Arrow, Token::Arrow) => true,
            (Token::LessThanEqual, Token::LessThanEqual) => true,
            (Token::Colon, Token::Colon) => true,
            (Token::Comma, Token::Comma) => true,
            (Token::LParen, Token::LParen) => true,
            (Token::RParen, Token::RParen) => true,
            (Token::Eof, Token::Eof) => true,
            (Token::Unknown(a), Token::Unknown(b)) => *a == *b,
            _ => false,
        }
    }
}

impl vstd::std_specs::cmp::PartialEqSpecImpl for Token {
    open spec fn obeys_eq_spec() -> bool {
        true
    }

    open spec fn eq_spec(&self, other: &Token) -> bool {
        self@ == other@
    }
}

/// Index of the first character at or after `i` that is not whitespace.
pub open spec fn skip_ws(s: Seq<char>, i: int) -> int
    decreases s.len() - i,
{
    if 0 <= i < s.len() && whitespace_class(s[i]) {
        skip_ws(s, i + 1)
    } else {
        i
    }
}

/// End of the run of identifier characters that starts at `i`.
pub open spec fn ident_end(s: Seq<char>, i: int) -> int
    decreases s.len() - i,
{
    if 0 <= i < s.len() && ident_class(s[i]) {
        ident_end(s, i + 1)
    } else {
        i
    }
}

/// End of the run of numeric characters that starts at `i`.
pub open spec fn digits_end(s: Seq<char>, i: int) -> int
    decreases s.len() - i,
{
    if 0 <= i < s.len() && numeric_class(s[i]) {
        digits_end(s, i + 1)
    } else {
        i
    }
}

/// Every character is an ASCII decimal digit.
pub open spec fn ascii_digits(d: Seq<char>) -> bool {
    forall|i: int| 0 <= i < d.len() ==> '0' <= #[trigger] d[i] <= '9'
}

/// Value of a string of ASCII decimal digits.
pub open spec fn decimal(d: Seq<char>) -> int
    decreases d.len(),
{
    if d.len() == 0 {
        0
    } else {
        decimal(d.drop_last()) * 10 + (d.last() as int - '0' as int)
    }
}

/// Value of a numeral: its decimal value when it is made of ASCII digits and
/// fits in an `i64`, zero otherwise.
pub open spec fn numeral_value(d: Seq<char>) -> i64 {
    if ascii_digits(d) && decimal(d) <= i64::MAX {
        decimal(d) as i64
    } else {
        0
    }
}

/// A word read as an identifier: a keyword token or an identifier token.
pub open spec fn word_token(w: Seq<char>) -> Lexeme {
    if w == "fn"@ {
        Lexeme::Fn
    } else if w == "let"@ {
        Lexeme::Let
    } else if w == "module"@ {
        Lexeme::Module
    } else if w == "use"@ {
        Lexeme::Use
    } else {
        Lexeme::Ident(w)
    }
}

/// The token that starts at `p` (no whitespace there), and where it ends.
pub open spec fn scan_at(s: Seq<char>, p: int) -> (Lexeme, int) {
    if p < 0 || p >= s.len() {
        (Lexeme::Eof, p)
    } else {
        let c = s[p];
        if c == '!' {
            (Lexeme::Bang, p + 1)
        } else if c == '{' {
            (Lexeme::LBrace, p + 1)
        } else if c == '}' {
            (Lexeme::RBrace, p + 1)
        } else if c == '(' {
            (Lexeme::LParen, p + 1)
        } else if c == ')' {
            (Lexeme::RParen, p + 1)
        } else if c == ':' {
            (Lexeme::Colon, p + 1)
        } else if c == ',' {
            (Lexeme::Comma, p + 1)
        } else if c == '-' {
            if p + 1 < s.len() && s[p + 1] == '>' {
                (Lexeme::Arrow, p + 2)
            } else {
                (Lexeme::Unknown('-'), p + 1)
            }
        } else if c == '\u{27E6}' {
            (Lexeme::IntentOpen, p + 1)
        } else if c == '\u{27E7}' {
            (Lexeme::IntentClose, p + 1)
        } else if c == '\u{2264}' {
            (Lexeme::LessThanEqual, p + 1)
        } else if alphabetic_class(c) {
            let e = ident_end(s, p);
            (word_token(s.subrange(p, e)), e)
        } else if numeric_class(c) {
            let e = digits_end(s, p);
            (Lexeme::Number(numeral_value(s.subrange(p, e))), e)
        } else {
            (Lexeme::Unknown(c), p + 1)
        }
    }
}

/// The next token of `s` from position `i`, whitespace skipped, and the
/// position after it.
pub open spec fn next_lexeme(s: Seq<char>, i: int) -> (Lexeme, int) {
    scan_at(s, skip_ws(s, i))
}

/// All tokens of `s` from position `i`, ending with one `Eof`.
pub open spec fn lex_from(s: Seq<char>, i: int) -> Seq<Lexeme>
    decreases s.len() - i,
{
    let (t, q) = next_lexeme(s, i);
    if t is Eof {
        seq![Lexeme::Eof]
    } else {
        proof {
            lemma_next_lexeme_advances(s, i);
        }
        seq![t] + lex_from(s, q)
    }
}

/// The tokens of a whole text.
pub open spec fn tokens_of(s: Seq<char>) -> Seq<Lexeme> {
    lex_from(s, 0)
}

/// Skipping whitespace stays within the text and stops at a character that
/// is not whitespace, or at the end.
pub proof fn lemma_skip_ws_bounds(s: Seq<char>, i: int)
    ensures
        skip_ws(s, i) >= i,
        0 <= i <= s.len() ==> skip_ws(s, i) <= s.len(),
        0 <= skip_ws(s, i) < s.len() ==> !whitespace_class(s[skip_ws(s, i)]),
    decreases s.len() - i,
{
    if 0 <= i < s.len() && whitespace_class(s[i]) {
        lemma_skip_ws_bounds(s, i + 1);
    }
}

proof fn lemma_ident_end_bounds(s: Seq<char>, i: int)
    ensures
        ident_end(s, i) >= i,
        0 <= i <= s.len() ==> ident_end(s, i) <= s.len(),
    decreases s.len() - i,
{
    if 0 <= i < s.len() && ident_class(s[i]) {
        lemma_ident_end_bounds(s, i + 1);
    }
}

proof fn lemma_digits_end_bounds(s: Seq<char>, i: int)
    ensures
        digits_end(s, i) >= i,
        0 <= i <= s.len() ==> digits_end(s, i) <= s.len(),
    decreases s.len() - i,
{
    if 0 <= i < s.len() && numeric_class(s[i]) {
        lemma_digits_end_bounds(s, i + 1);
    }
}

/// Each token but `Eof` moves the position forward and stays in the text;
/// `Eof` leaves the position at the end of the text.
pub proof fn lemma_next_lexeme_advances(s: Seq<char>, i: int)
    ensures
        0 <= i <= s.len() ==> 0 <= next_lexeme(s, i).1 <= s.len(),
        !(next_lexeme(s, i).0 is Eof) ==> next_lexeme(s, i).1 > i,
        0 <= i <= s.len() && next_lexeme(s, i).0 is Eof ==> next_lexeme(s, i).1 == s.len(),
{
    lemma_skip_ws_bounds(s, i);
    let p = skip_ws(s, i);
    lemma_ident_end_bounds(s, p);
    lemma_digits_end_bounds(s, p);
    lemma_ident_end_bounds(s, p + 1);
    lemma_digits_end_bounds(s, p + 1);
}

/// The tokens of a text from any position within it end with `Eof`, and
/// `Eof` occurs nowhere else.
pub proof fn lemma_lex_from_ends_with_one_eof(s: Seq<char>, i: int)
    requires
        0 <= i <= s.len(),
    ensures
        lex_from(s, i).len() >= 1,
        lex_from(s, i).last() is Eof,
        forall|j: int| 0 <= j < lex_from(s, i).len() - 1 ==> !(#[trigger] lex_from(s, i)[j] is Eof),
    decreases s.len() - i,
{
    let (t, q) = next_lexeme(s, i);
    lemma_next_lexeme_advances(s, i);
    if !(t is Eof) {
        lemma_lex_from_ends_with_one_eof(s, q);
        let rest = lex_from(s, q);
        let all = lex_from(s, i);
        assert(all == seq![t] + rest);
        assert forall|j: int| 0 <= j < all.len() - 1 implies !(#[trigger] all[j] is Eof) by {
            if j > 0 {
                assert(all[j] == rest[j - 1]);
            }
        }
    }
}

/// `tokenize` yields one `Eof`, at the end.
pub proof fn lemma_tokens_end_with_one_eof(s: Seq<char>)
    ensures
        tokens_of(s).len() >= 1,
        tokens_of(s).last() is Eof,
        forall|j: int| 0 <= j < tokens_of(s).len() - 1 ==> !(#[trigger] tokens_of(s)[j] is Eof),
{
    lemma_lex_from_ends_with_one_eof(s, 0);
}

/// At the end of the text the next token is `Eof`, and the position stays
/// there, however often it is asked for.
pub proof fn lemma_eof_repeats(s: Seq<char>)
    ensures
        next_lexeme(s, s.len() as int) == (Lexeme::Eof, s.len() as int),
{
}

proof fn lemma_decimal_nonneg(d: Seq<char>)
    requires
        ascii_digits(d),
    ensures
        decimal(d) >= 0,
    decreases d.len(),
{
    if d.len() > 0 {
        assert(ascii_digits(d.drop_last()));
        lemma_decimal_nonneg(d.drop_last());
    }
}

/// The characters of `input`, decoded.
pub(crate) fn chars_of(input: &str) -> (r: Vec<char>)
    ensures
        r@ == input@,
{
    let mut chars: Vec<char> = Vec::new();
    for c in it: input.chars()
        invariant
            it.seq() == input@,
            chars@ == input@.take(it.index() as int),
    {
        chars.push(c);
    }
    proof {
        assert(chars@ =~= input@);
    }
    chars
}

/// Relies on `String::push`: appends the character at the end of the string.
#[verifier::external_body]
pub(crate) fn push_char(s: &mut String, c: char)
    ensures
        final(s)@ == old(s)@.push(c),
{
    s.push(c);
}

/// Reads source text one token at a time, over the text decoded into
/// characters.
#[derive(Debug)]
pub struct Lexer {
    input: Vec<char>,
    position: usize,
}

impl Lexer {
    /// The characters of the text being read.
    pub closed spec fn text(&self) -> Seq<char> {
        self.input@
    }

    /// The read position: index of the next character to look at.
    pub closed spec fn cursor(&self) -> int {
        self.position as int
    }

    /// The read position lies within the text.
    pub closed spec fn wf(&self) -> bool {
        &&& self.position <= self.input.len()
    }

    /// A well-formed lexer's position lies within its text.
    pub proof fn lemma_cursor_in_text(&self)
        requires
            self.wf(),
        ensures
            0 <= self.cursor() <= self.text().len(),
    {
    }

    /// A lexer at the start of `input`.
    pub fn new(input: &str) -> (r: Lexer)
        ensures
            r.wf(),
            r.text() == input@,
            r.cursor() == 0,
    {
        Lexer { input: chars_of(input), position: 0 }
    }

    fn skip_whitespace(&mut self)
        requires
            old(self).wf(),
        ensures
            final(self).wf(),
            final(self).text() == old(self).text(),
            final(self).cursor() == skip_ws(old(self).text(), old(self).cursor()),
    {
        while self.position < self.input.len() && is_whitespace(self.input[self.position])
            invariant
                self.wf(),
                self.text() == old(self).text(),
                skip_ws(self.text(), self.cursor()) == skip_ws(old(self).text(), old(self).cursor()),
            decreases self.input.len() - self.position,
        {
            self.position = self.position + 1;
        }
    }

    fn read_identifier(&mut self) -> (r: String)
        requires
            old(self).wf(),
        ensures
            final(self).wf(),
            final(self).text() == old(self).text(),
            final(self).cursor() == ident_end(old(self).text(), old(self).cursor()),
            r@ == old(self).text().subrange(old(self).cursor(), final(self).cursor()),
    {
        let start = self.position;
        let mut word = String::new();
        while self.position < self.input.len() && is_ident_char(self.input[self.position])
            invariant
                self.wf(),
                self.text() == old(self).text(),
                start == old(self).position <= self.position,
                ident_end(self.text(), self.cursor()) == ident_end(old(self).text(), old(self).cursor()),
                word@ == self.text().subrange(start as int, self.cursor()),
            decreases self.input.len() - self.position,
        {
            push_char(&mut word, self.input[self.position]);
            self.position = self.position + 1;
            proof {
                assert(word@ =~= self.text().subrange(start as int, self.cursor()));
            }
        }
        word
    }

    fn read_number(&mut self) -> (r: i64)
        requires
            old(self).wf(),
        ensures
            final(self).wf(),
            final(self).text() == old(self).text(),
            final(self).cursor() == digits_end(old(self).text(), old(self).cursor()),
            r == numeral_value(old(self).text().subrange(old(self).cursor(), final(self).cursor())),
    {
        let start = self.position;
        let mut value: i64 = 0;
        let mut valid = true;
        while self.position < self.input.len() && is_numeric(self.input[self.position])
            invariant
                self.wf(),
                self.text() == old(self).text(),
                start == old(self).position <= self.position,
                digits_end(self.text(), self.cursor()) == digits_end(old(self).text(), old(self).cursor()),
                valid == (ascii_digits(self.text().subrange(start as int, self.cursor()))
                    && decimal(self.text().subrange(start as int, self.cursor())) <= i64::MAX),
                valid ==> value == decimal(self.text().subrange(start as int, self.cursor())),
                value >= 0,
            decreases self.input.len() - self.position,
        {
            let c = self.input[self.position];
            let ghost before = self.text().subrange(start as int, self.cursor());
            let ghost after = self.text().subrange(start as int, self.cursor() + 1);
            proof {
                assert(after.drop_last() =~= before);
                assert(after.last() == c);
                assert(ascii_digits(after) ==> ascii_digits(before)) by {
                    if ascii_digits(after) {
                        assert forall|i: int| 0 <= i < before.len() implies '0' <= #[trigger] before[i] <= '9' by {
                            assert(before[i] == after[i]);
                        }
                    }
                }
            }
            if valid {
                if '0' <= c && c <= '9' {
                    let d: i64 = (c as u32 - '0' as u32) as i64;
                    if value <= (i64::MAX - d) / 10 {
                        proof {
                            assert(value * 10 + d <= i64::MAX) by (nonlinear_arith)
                                requires value <= (i64::MAX - d) / 10, 0 <= d <= 9;
                        }
                        value = value * 10 + d;
                        proof {
                            assert forall|i: int| 0 <= i < after.len() implies '0' <= #[trigger] after[i] <= '9' by {
                                if i < before.len() {
                                    assert(after[i] == before[i]);
                                }
                            }
                        }
                    } else {
                        proof {
                            assert(value * 10 + d > i64::MAX) by (nonlinear_arith)
                                requires value > (i64::MAX - d) / 10, 0 <= d <= 9;
                        }
                        valid = false;
                    }
                } else {
                    valid = false;
                }
            } else {
                proof {
                    if ascii_digits(after) {
                        lemma_decimal_nonneg(before);
                        assert(0 <= after.last() as int - '0' as int);
                    }
                }
            }
            self.position = self.position + 1;
        }
        if valid {
            value
        } else {
            0
        }
    }

    fn word_token_of(w: String) -> (r: Token)
        ensures
            r@ == word_token(w@),
    {
        if w.eq(&"fn".to_owned()) {
            Token::Fn
        } else if w.eq(&"let".to_owned()) {
            Token::Let
        } else if w.eq(&"module".to_owned()) {
            Token::Module
        } else if w.eq(&"use".to_owned()) {
            Token::Use
        } else {
            Token::Ident(w)
        }
    }

    /// Consumes the longest token at the read position, after whitespace, and
    /// returns it; at the end of the text, returns `Eof` and stays there.
    pub fn next_token(&mut self) -> (r: Token)
        requires
            old(self).wf(),
        ensures
            final(self).wf(),
            final(self).text() == old(self).text(),
            (r@, final(self).cursor()) == next_lexeme(old(self).text(), old(self).cursor()),
            0 <= final(self).cursor() <= final(self).text().len(),
    {
        self.skip_whitespace();
        proof {
            lemma_skip_ws_bounds(self.text(), old(self).cursor());
        }
        if self.position >= self.input.len() {
            return Token::Eof;
        }
        let ch = self.input[self.position];
        let single = if ch == '!' {
            Some(Token::Bang)
        } else if ch == '{' {
            Some(Token::LBrace)
        } else if ch == '}' {
            Some(Token::RBrace)
        } else if ch == '(' {
            Some(Token::LParen)
        } else if ch == ')' {
            Some(Token::RParen)
        } else if ch == ':' {
            Some(Token::Colon)
        } else if ch == ',' {
            Some(Token::Comma)
        } else {
            None
        };
        if let Some(t) = single {
            self.position = self.position + 1;
            return t;
        }
        if ch == '-' {
            self.position = self.position + 1;
            if self.position < self.input.len() && self.input[self.position] == '>' {
                self.position = self.position + 1;
                return Token::Arrow;
            }
            return Token::Unknown('-');
        }
        let glyph = if ch == '\u{27E6}' {
            Some(Token::IntentOpen)
        } else if ch == '\u{27E7}' {
            Some(Token::IntentClose)
        } else if ch == '\u{2264}' {
            Some(Token::LessThanEqual)
        } else {
            None
        };
        if let Some(t) = glyph {
            self.position = self.position + 1;
            return t;
        }
        if is_alphabetic(ch) {
            let word = self.read_identifier();
            Lexer::word_token_of(word)
        } else if is_numeric(ch) {
            let n = self.read_number();
            Token::Number(n)
        } else {
            self.position = self.position + 1;
            Token::Unknown(ch)
        }
    }
}

/// The full token sequence of `input`, ending with exactly one `Eof`.
pub fn tokenize(input: &str) -> (r: Vec<Token>)
    ensures
        r@.map_values(|t: Token| t@) == tokens_of(input@),
{
    let mut lexer = Lexer::new(input);
    let mut tokens: Vec<Token> = Vec::new();
    let ghost s = input@;
    let mut done = false;
    while !done
        invariant
            lexer.wf(),
            lexer.text() == s,
            done ==> tokens@.map_values(|t: Token| t@) == tokens_of(s),
            !done ==> tokens@.map_values(|t: Token| t@) + lex_from(s, lexer.cursor()) == tokens_of(s),
        decreases s.len() - lexer.cursor() + (if done { 0int } else { 1int }),
    {
        let ghost before = tokens@.map_values(|t: Token| t@);
        let ghost c = lexer.cursor();
        let token = lexer.next_token();
        proof {
            lemma_next_lexeme_advances(s, c);
        }
        if token.is_eof() {
            tokens.push(token);
            done = true;
            proof {
                assert(tokens@.map_values(|t: Token| t@) =~= before + seq![Lexeme::Eof]);
            }
        } else {
            tokens.push(token);
            proof {
                assert(tokens@.map_values(|t: Token| t@) =~= before.push(token@));
                assert(before.push(token@) + lex_from(s, lexer.cursor()) =~= before + (seq![token@]
                    + lex_from(s, lexer.cursor())));
            }
        }
    }
    tokens
}

} // verus!

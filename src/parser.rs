//! Recursive-descent parser over the lexer, with one token of lookahead.
//!
//! The grammar is stated over the token sequence of the whole input
//! (`tokens_of`) and an index into it; past its end every token reads as
//! `Eof`. Each parse function either returns its node together with the index
//! after it, or the first error met.
use vstd::prelude::*;
use vstd::string::StringExecFns;
use crate::ast::{Capability, CapabilityView, Effect, Module, ResourceBudget, Stmt, Type};
use crate::lexer::{lemma_next_lexeme_advances, lex_from, tokens_of, Lexeme, Lexer, Token};

verus! {

/// Errors of the parser.
#[derive(Debug, Clone)]
pub enum ParseError {
    UnexpectedToken { expected: String, found: Token },
    UnexpectedEof,
    InvalidEffect(String),
    InvalidResourceBudget,
}

/// Mathematical value of a parse error.
pub enum ParseErrorView {
    UnexpectedToken { expected: Seq<char>, found: Lexeme },
    UnexpectedEof,
    InvalidEffect(Seq<char>),
    InvalidResourceBudget,
}

impl View for ParseError {
    type V = ParseErrorView;

    open spec fn view(&self) -> ParseErrorView {
        match self {
            ParseError::UnexpectedToken { expected, found } => ParseErrorView::UnexpectedToken {
                expected: expected@,
                found: found@,
            },
            ParseError::UnexpectedEof => ParseErrorView::UnexpectedEof,
            ParseError::InvalidEffect(name) => ParseErrorView::InvalidEffect(name@),
            ParseError::InvalidResourceBudget => ParseErrorView::InvalidResourceBudget,
        }
    }
}

/// The token at index `k`; `Eof` past the end.
pub open spec fn tok_at(toks: Seq<Lexeme>, k: int) -> Lexeme {
    if 0 <= k < toks.len() {
        toks[k]
    } else {
        Lexeme::Eof
    }
}

/// The name under which a token is reported as expected.
pub open spec fn token_name(t: Lexeme) -> Seq<char> {
    match t {
        Lexeme::Ident(_) => "Ident"@,
        Lexeme::Number(_) => "Number"@,
        Lexeme::Str(_) => "String"@,
        Lexeme::Fn => "Fn"@,
        Lexeme::Let => "Let"@,
        Lexeme::Module => "Module"@,
        Lexeme::Use => "Use"@,
        Lexeme::Bang => "Bang"@,
        Lexeme::LBrace => "LBrace"@,
        Lexeme::RBrace => "RBrace"@,
        Lexeme::IntentOpen => "IntentOpen"@,
        Lexeme::IntentClose => "IntentClose"@,
        Lexeme::Arrow => "Arrow"@,
        Lexeme::LessThanEqual => "LessThanEqual"@,
        Lexeme::Colon => "Colon"@,
        Lexeme::Comma => "Comma"@,
        Lexeme::LParen => "LParen"@,
        Lexeme::RParen => "RParen"@,
        Lexeme::Eof => "Eof"@,
        Lexeme::Unknown(_) => "Unknown"@,
    }
}

pub open spec fn unexpected(expected: Seq<char>, found: Lexeme) -> ParseErrorView {
    ParseErrorView::UnexpectedToken { expected, found }
}

/// The token `want` at `k`.
pub open spec fn expect_at(toks: Seq<Lexeme>, k: int, want: Lexeme) -> Result<int, ParseErrorView> {
    if tok_at(toks, k) == want {
        Ok(k + 1)
    } else {
        Err(unexpected(token_name(want), tok_at(toks, k)))
    }
}

/// An identifier at `k`.
pub open spec fn ident_at(toks: Seq<Lexeme>, k: int) -> Result<(Seq<char>, int), ParseErrorView> {
    match tok_at(toks, k) {
        Lexeme::Ident(name) => Ok((name, k + 1)),
        t => Err(unexpected("identifier"@, t)),
    }
}

/// A number at `k`, taken as a `u32` by truncation.
pub open spec fn number_at(toks: Seq<Lexeme>, k: int) -> Result<(u32, int), ParseErrorView> {
    match tok_at(toks, k) {
        Lexeme::Number(n) => Ok((n as u32, k + 1)),
        t => Err(unexpected("number"@, t)),
    }
}

/// The effect that a capability entry names, if it names one.
pub open spec fn effect_named(w: Seq<char>) -> Option<Effect> {
    if w == "pure"@ {
        Some(Effect::Pure)
    } else if w == "alloc"@ {
        Some(Effect::Alloc)
    } else if w == "io"@ {
        Some(Effect::Io)
    } else if w == "net"@ {
        Some(Effect::Net)
    } else {
        None
    }
}

/// `≤ number` at `k`.
pub open spec fn limit_at(toks: Seq<Lexeme>, k: int) -> Result<(u32, int), ParseErrorView> {
    match expect_at(toks, k, Lexeme::LessThanEqual) {
        Err(e) => Err(e),
        Ok(k1) => number_at(toks, k1),
    }
}

/// Index after an optional unit identifier `unit` at `k`.
pub open spec fn skip_unit(toks: Seq<Lexeme>, k: int, unit: Seq<char>) -> int {
    if tok_at(toks, k) == Lexeme::Ident(unit) {
        k + 1
    } else {
        k
    }
}

/// A capability entry whose name `name` is the identifier at `k`, added to
/// `acc`.
pub open spec fn cap_entry(toks: Seq<Lexeme>, k: int, name: Seq<char>, acc: CapabilityView) -> Result<
    (CapabilityView, int),
    ParseErrorView,
> {
    match effect_named(name) {
        Some(e) => Ok((CapabilityView { effects: acc.effects.push(e), budgets: acc.budgets }, k + 1)),
        None => if name == "tokens"@ {
            match limit_at(toks, k + 1) {
                Err(e) => Err(e),
                Ok((n, k1)) => Ok((
                    CapabilityView {
                        effects: acc.effects,
                        budgets: ResourceBudget { tokens: Some(n), ..acc.budgets },
                    },
                    k1,
                )),
            }
        } else if name == "latency"@ {
            match limit_at(toks, k + 1) {
                Err(e) => Err(e),
                Ok((n, k1)) => Ok((
                    CapabilityView {
                        effects: acc.effects,
                        budgets: ResourceBudget { latency_ms: Some(n), ..acc.budgets },
                    },
                    skip_unit(toks, k1, "ms"@),
                )),
            }
        } else if name == "energy"@ {
            match limit_at(toks, k + 1) {
                Err(e) => Err(e),
                Ok((n, k1)) => Ok((
                    CapabilityView {
                        effects: acc.effects,
                        budgets: ResourceBudget { energy_mj: Some(n), ..acc.budgets },
                    },
                    skip_unit(toks, k1, "mJ"@),
                )),
            }
        } else {
            Err(ParseErrorView::InvalidEffect(name))
        },
    }
}

/// An entry consumes at least its name.
pub proof fn lemma_cap_entry_advances(toks: Seq<Lexeme>, k: int, name: Seq<char>, acc: CapabilityView)
    ensures
        cap_entry(toks, k, name, acc) is Ok ==> cap_entry(toks, k, name, acc)->Ok_0.1 > k,
{
}

/// The entries of a capability from `k` up to and including its closing
/// brace, added to `acc`. Commas before an entry are skipped.
pub open spec fn cap_entries(toks: Seq<Lexeme>, k: int, acc: CapabilityView) -> Result<
    (CapabilityView, int),
    ParseErrorView,
>
    decreases toks.len() - k,
{
    match tok_at(toks, k) {
        Lexeme::RBrace => Ok((acc, k + 1)),
        Lexeme::Comma => cap_entries(toks, k + 1, acc),
        Lexeme::Ident(name) => match cap_entry(toks, k, name, acc) {
            Err(e) => Err(e),
            Ok((acc1, k1)) => match tok_at(toks, k1) {
                Lexeme::Comma => {
                    proof {
                        lemma_cap_entry_advances(toks, k, name, acc);
                    }
                    cap_entries(toks, k1 + 1, acc1)
                },
                Lexeme::RBrace => Ok((acc1, k1 + 1)),
                t => Err(unexpected(", or }"@, t)),
            },
        },
        t => Err(unexpected("effect or resource constraint"@, t)),
    }
}

/// The empty capability: no effects and no limits.
pub open spec fn empty_capability() -> CapabilityView {
    CapabilityView { effects: Seq::empty(), budgets: ResourceBudget::unconstrained() }
}

/// `!{ entry, ... }` at `k`.
pub open spec fn capability_at(toks: Seq<Lexeme>, k: int) -> Result<(CapabilityView, int), ParseErrorView> {
    match expect_at(toks, k, Lexeme::Bang) {
        Err(e) => Err(e),
        Ok(k1) => match expect_at(toks, k1, Lexeme::LBrace) {
            Err(e) => Err(e),
            Ok(k2) => cap_entries(toks, k2, empty_capability()),
        },
    }
}

/// An optional capability at `k`: present exactly when `k` holds `!`.
pub open spec fn opt_capability_at(toks: Seq<Lexeme>, k: int) -> Result<
    (Option<CapabilityView>, int),
    ParseErrorView,
> {
    if tok_at(toks, k) == Lexeme::Bang {
        match capability_at(toks, k) {
            Err(e) => Err(e),
            Ok((c, k1)) => Ok((Some(c), k1)),
        }
    } else {
        Ok((None, k))
    }
}

/// `t` is the type that the identifier `name` denotes: a built-in type or a
/// custom one of that name.
pub open spec fn type_named(t: Type, name: Seq<char>) -> bool {
    if name == "Int"@ {
        t is Int
    } else if name == "Text"@ {
        t is Text
    } else if name == "Bool"@ {
        t is Bool
    } else {
        t is Custom && t->Custom_0@ == name
    }
}

/// Parameters `name: Type` from `k` (one is owed there), separated by commas,
/// up to and including the closing parenthesis, added to `acc`.
pub open spec fn param_list(toks: Seq<Lexeme>, k: int, acc: Seq<(Seq<char>, Seq<char>)>) -> Result<
    (Seq<(Seq<char>, Seq<char>)>, int),
    ParseErrorView,
>
    decreases toks.len() - k,
{
    match ident_at(toks, k) {
        Err(e) => Err(e),
        Ok((name, k1)) => match expect_at(toks, k1, Lexeme::Colon) {
            Err(e) => Err(e),
            Ok(k2) => match ident_at(toks, k2) {
                Err(e) => Err(e),
                Ok((ty, k3)) => {
                    let acc1 = acc.push((name, ty));
                    match tok_at(toks, k3) {
                        Lexeme::Comma => param_list(toks, k3 + 1, acc1),
                        Lexeme::RParen => Ok((acc1, k3 + 1)),
                        t => Err(unexpected(", or )"@, t)),
                    }
                },
            },
        },
    }
}

/// `( params )` at `k`.
pub open spec fn params_at(toks: Seq<Lexeme>, k: int) -> Result<
    (Seq<(Seq<char>, Seq<char>)>, int),
    ParseErrorView,
> {
    match expect_at(toks, k, Lexeme::LParen) {
        Err(e) => Err(e),
        Ok(k1) => if tok_at(toks, k1) == Lexeme::RParen {
            Ok((Seq::empty(), k1 + 1))
        } else {
            param_list(toks, k1, Seq::empty())
        },
    }
}

/// What a function declaration states: its name, its parameters as (name,
/// type name) pairs, its return type name and its capability.
pub struct FunctionHeader {
    pub name: Seq<char>,
    pub params: Seq<(Seq<char>, Seq<char>)>,
    pub ret: Seq<char>,
    pub capability: Option<CapabilityView>,
}

/// `fn name ( params ) -> type capability?` at `k`.
pub open spec fn function_at(toks: Seq<Lexeme>, k: int) -> Result<(FunctionHeader, int), ParseErrorView> {
    match expect_at(toks, k, Lexeme::Fn) {
        Err(e) => Err(e),
        Ok(k1) => match ident_at(toks, k1) {
            Err(e) => Err(e),
            Ok((name, k2)) => match params_at(toks, k2) {
                Err(e) => Err(e),
                Ok((params, k3)) => match expect_at(toks, k3, Lexeme::Arrow) {
                    Err(e) => Err(e),
                    Ok(k4) => match ident_at(toks, k4) {
                        Err(e) => Err(e),
                        Ok((ret, k5)) => match opt_capability_at(toks, k5) {
                            Err(e) => Err(e),
                            Ok((capability, k6)) => Ok(
                                (FunctionHeader { name, params, ret, capability }, k6),
                            ),
                        },
                    },
                },
            },
        },
    }
}

/// The capability of the tree, as a value.
pub open spec fn opt_cap_view(c: Option<Capability>) -> Option<CapabilityView> {
    match c {
        Some(c) => Some(c@),
        None => None,
    }
}

/// Parsed parameters `ps` carry the names and types that `sp` states.
pub open spec fn params_match(ps: Seq<(String, Type)>, sp: Seq<(Seq<char>, Seq<char>)>) -> bool {
    &&& ps.len() == sp.len()
    &&& forall|i: int|
        0 <= i < ps.len() ==> (#[trigger] ps[i]).0@ == sp[i].0 && type_named(ps[i].1, sp[i].1)
}

/// `s` is the function statement that `h` describes, with an empty body.
pub open spec fn function_stmt_of(s: Stmt, h: FunctionHeader) -> bool {
    match s {
        Stmt::Function { name, params, return_type, capability, body } => {
            &&& name@ == h.name
            &&& params_match(params@, h.params)
            &&& type_named(return_type, h.ret)
            &&& opt_cap_view(capability) == h.capability
            &&& body.len() == 0
        },
        _ => false,
    }
}

/// The rest of a dotted name from `k`: each `.` (an unrecognised token) and
/// the identifier after it are appended to `name`.
pub open spec fn dotted_rest(toks: Seq<Lexeme>, k: int, name: Seq<char>) -> Result<
    (Seq<char>, int),
    ParseErrorView,
>
    decreases toks.len() - k,
{
    if tok_at(toks, k) == Lexeme::Unknown('.') {
        match ident_at(toks, k + 1) {
            Err(e) => Err(e),
            Ok((part, k1)) => dotted_rest(toks, k1, name + "."@ + part),
        }
    } else {
        Ok((name, k))
    }
}

/// What a module declaration states: its dotted name and its capability.
pub struct ModuleHeader {
    pub name: Seq<char>,
    pub capability: Option<CapabilityView>,
}

/// `module name(.name)* capability?` at `k`.
pub open spec fn module_at(toks: Seq<Lexeme>, k: int) -> Result<(ModuleHeader, int), ParseErrorView> {
    match expect_at(toks, k, Lexeme::Module) {
        Err(e) => Err(e),
        Ok(k1) => match ident_at(toks, k1) {
            Err(e) => Err(e),
            Ok((first, k2)) => match dotted_rest(toks, k2, first) {
                Err(e) => Err(e),
                Ok((name, k3)) => match opt_capability_at(toks, k3) {
                    Err(e) => Err(e),
                    Ok((capability, k4)) => Ok((ModuleHeader { name, capability }, k4)),
                },
            },
        },
    }
}

/// `!{}` is the empty capability: no effects and no limits.
pub proof fn lemma_empty_braces_parse_empty(toks: Seq<Lexeme>, k: int)
    requires
        tok_at(toks, k) == Lexeme::Bang,
        tok_at(toks, k + 1) == Lexeme::LBrace,
        tok_at(toks, k + 2) == Lexeme::RBrace,
    ensures
        capability_at(toks, k) == Ok::<(CapabilityView, int), ParseErrorView>(
            (empty_capability(), k + 3),
        ),
        empty_capability().effects.len() == 0,
        empty_capability().budgets.tokens is None,
        empty_capability().budgets.latency_ms is None,
        empty_capability().budgets.energy_mj is None,
{
}

/// An entry that names neither an effect nor a budget is reported as an
/// invalid effect, with its name.
pub proof fn lemma_unknown_entry_is_invalid_effect(toks: Seq<Lexeme>, k: int, name: Seq<char>)
    requires
        tok_at(toks, k) == Lexeme::Bang,
        tok_at(toks, k + 1) == Lexeme::LBrace,
        tok_at(toks, k + 2) == Lexeme::Ident(name),
        effect_named(name) is None,
        name != "tokens"@,
        name != "latency"@,
        name != "energy"@,
    ensures
        capability_at(toks, k) == Err::<(CapabilityView, int), ParseErrorView>(
            ParseErrorView::InvalidEffect(name),
        ),
{
}

/// `module a.b` names the module by the text `a.b`.
pub proof fn lemma_dotted_module_name(toks: Seq<Lexeme>, k: int, a: Seq<char>, b: Seq<char>)
    requires
        0 <= k,
        tok_at(toks, k) == Lexeme::Module,
        tok_at(toks, k + 1) == Lexeme::Ident(a),
        tok_at(toks, k + 2) == Lexeme::Unknown('.'),
        tok_at(toks, k + 3) == Lexeme::Ident(b),
        tok_at(toks, k + 4) != Lexeme::Unknown('.'),
        tok_at(toks, k + 4) != Lexeme::Bang,
    ensures
        module_at(toks, k) is Ok,
        module_at(toks, k)->Ok_0.0.name == a + "."@ + b,
        module_at(toks, k)->Ok_0.0.capability is None,
{
    reveal_with_fuel(dotted_rest, 2);
}

/// Parser state: a lexer, the current token, and (as a ghost) the index of
/// that token in the token sequence of the input.
pub struct Parser {
    lexer: Lexer,
    current_token: Token,
    index: Ghost<int>,
}

impl Parser {
    /// The token sequence of the whole input.
    pub closed spec fn tokens(&self) -> Seq<Lexeme> {
        tokens_of(self.lexer.text())
    }

    /// Index of the current token in `tokens()`.
    pub closed spec fn index(&self) -> int {
        self.index@
    }

    /// The current token is the one at `index()`, and the lexer stands right
    /// after it.
    pub closed spec fn wf(&self) -> bool {
        let toks = self.tokens();
        let k = self.index@;
        &&& self.lexer.wf()
        &&& 0 <= k
        &&& self.current_token@ == tok_at(toks, k)
        &&& !(self.current_token@ is Eof) ==> k + 1 <= toks.len() && lex_from(
            self.lexer.text(),
            self.lexer.cursor(),
        ) == toks.subrange(k + 1, toks.len() as int)
        &&& self.current_token@ is Eof ==> self.lexer.cursor() == self.lexer.text().len() && k + 1
            >= toks.len()
    }

    /// A parser at the first token of `input`.
    pub fn new(input: &str) -> (r: Parser)
        ensures
            r.wf(),
            r.tokens() == tokens_of(input@),
            r.index() == 0,
    {
        let mut lexer = Lexer::new(input);
        let current_token = lexer.next_token();
        proof {
            lemma_next_lexeme_advances(input@, 0);
            let toks = tokens_of(input@);
            if !(current_token@ is Eof) {
                assert(toks.subrange(1, toks.len() as int) =~= lex_from(input@, lexer.cursor()));
            }
        }
        Parser { lexer, current_token, index: Ghost(0) }
    }

    /// Moves to the next token.
    fn advance(&mut self)
        requires
            old(self).wf(),
        ensures
            final(self).wf(),
            final(self).tokens() == old(self).tokens(),
            final(self).index() == old(self).index() + 1,
    {
        let ghost toks = self.tokens();
        let ghost k = self.index@;
        let ghost s = self.lexer.text();
        let ghost c = self.lexer.cursor();
        proof {
            self.lexer.lemma_cursor_in_text();
            lemma_next_lexeme_advances(s, c);
        }
        self.current_token = self.lexer.next_token();
        self.index = Ghost(k + 1);
        proof {
            if !(old(self).current_token@ is Eof) {
                let rest = toks.subrange(k + 1, toks.len() as int);
                assert(lex_from(s, c).len() >= 1);
                assert(rest[0] == toks[k + 1]);
                assert(rest[0] == self.current_token@);
                if !(self.current_token@ is Eof) {
                    assert(lex_from(s, self.lexer.cursor()) =~= toks.subrange(k + 2, toks.len() as int)) by {
                        assert(rest =~= seq![rest[0]] + lex_from(s, self.lexer.cursor()));
                        assert(rest.subrange(1, rest.len() as int) =~= toks.subrange(k + 2, toks.len() as int));
                    }
                }
            }
        }
    }

    fn expected_name(t: &Token) -> (r: String)
        ensures
            r@ == token_name(t@),
    {
        match t {
            Token::Ident(_) => "Ident".to_owned(),
            Token::Number(_) => "Number".to_owned(),
            Token::String(_) => "String".to_owned(),
            Token::Fn => "Fn".to_owned(),
            Token::Let => "Let".to_owned(),
            Token::Module => "Module".to_owned(),
            Token::Use => "Use".to_owned(),
            Token::Bang => "Bang".to_owned(),
            Token::LBrace => "LBrace".to_owned(),
            Token::RBrace => "RBrace".to_owned(),
            Token::IntentOpen => "IntentOpen".to_owned(),
            Token::IntentClose => "IntentClose".to_owned(),
            Token::Arrow => "Arrow".to_owned(),
            Token::LessThanEqual => "LessThanEqual".to_owned(),
            Token::Colon => "Colon".to_owned(),
            Token::Comma => "Comma".to_owned(),
            Token::LParen => "LParen".to_owned(),
            Token::RParen => "RParen".to_owned(),
            Token::Eof => "Eof".to_owned(),
            Token::Unknown(_) => "Unknown".to_owned(),
        }
    }

    fn unexpected(&self, expected: &str) -> (r: ParseError)
        ensures
            r@ == unexpected(expected@, self.current_token@),
    {
        ParseError::UnexpectedToken { expected: expected.to_owned(), found: self.current_token.duplicate() }
    }

    fn expect(&mut self, expected: Token) -> (r: Result<(), ParseError>)
        requires
            old(self).wf(),
        ensures
            final(self).wf(),
            final(self).tokens() == old(self).tokens(),
            match r {
                Ok(_) => expect_at(old(self).tokens(), old(self).index(), expected@) == Ok::<
                    int,
                    ParseErrorView,
                >(final(self).index()),
                Err(e) => expect_at(old(self).tokens(), old(self).index(), expected@) == Err::<
                    int,
                    ParseErrorView,
                >(e@),
            },
    {
        if self.current_token.eq(&expected) {
            self.advance();
            Ok(())
        } else {
            Err(ParseError::UnexpectedToken {
                expected: Parser::expected_name(&expected),
                found: self.current_token.duplicate(),
            })
        }
    }

    fn expect_ident(&mut self) -> (r: Result<String, ParseError>)
        requires
            old(self).wf(),
        ensures
            final(self).wf(),
            final(self).tokens() == old(self).tokens(),
            match r {
                Ok(name) => ident_at(old(self).tokens(), old(self).index()) == Ok::<
                    (Seq<char>, int),
                    ParseErrorView,
                >((name@, final(self).index())),
                Err(e) => ident_at(old(self).tokens(), old(self).index()) == Err::<
                    (Seq<char>, int),
                    ParseErrorView,
                >(e@),
            },
    {
        let name = match &self.current_token {
            Token::Ident(name) => name.clone(),
            _ => {
                return Err(self.unexpected("identifier"));
            },
        };
        self.advance();
        Ok(name)
    }

    fn expect_number(&mut self) -> (r: Result<u32, ParseError>)
        requires
            old(self).wf(),
        ensures
            final(self).wf(),
            final(self).tokens() == old(self).tokens(),
            match r {
                Ok(n) => number_at(old(self).tokens(), old(self).index()) == Ok::<
                    (u32, int),
                    ParseErrorView,
                >((n, final(self).index())),
                Err(e) => number_at(old(self).tokens(), old(self).index()) == Err::<
                    (u32, int),
                    ParseErrorView,
                >(e@),
            },
    {
        let num = match &self.current_token {
            Token::Number(n) => #[verifier::truncate] (*n as u32),
            _ => {
                return Err(self.unexpected("number"));
            },
        };
        self.advance();
        Ok(num)
    }

    fn effect_of_name(name: &String) -> (r: Option<Effect>)
        ensures
            r == effect_named(name@),
    {
        if name.eq(&"pure".to_owned()) {
            Some(Effect::Pure)
        } else if name.eq(&"alloc".to_owned()) {
            Some(Effect::Alloc)
        } else if name.eq(&"io".to_owned()) {
            Some(Effect::Io)
        } else if name.eq(&"net".to_owned()) {
            Some(Effect::Net)
        } else {
            None
        }
    }

    fn parse_limit(&mut self) -> (r: Result<u32, ParseError>)
        requires
            old(self).wf(),
        ensures
            final(self).wf(),
            final(self).tokens() == old(self).tokens(),
            match r {
                Ok(n) => limit_at(old(self).tokens(), old(self).index()) == Ok::<
                    (u32, int),
                    ParseErrorView,
                >((n, final(self).index())),
                Err(e) => limit_at(old(self).tokens(), old(self).index()) == Err::<
                    (u32, int),
                    ParseErrorView,
                >(e@),
            },
    {
        match self.expect(Token::LessThanEqual) {
            Err(e) => Err(e),
            Ok(_) => self.expect_number(),
        }
    }

    fn skip_unit(&mut self, unit: &str)
        requires
            old(self).wf(),
        ensures
            final(self).wf(),
            final(self).tokens() == old(self).tokens(),
            final(self).index() == skip_unit(old(self).tokens(), old(self).index(), unit@),
    {
        let found = match &self.current_token {
            Token::Ident(s) => s.eq(&unit.to_owned()),
            _ => false,
        };
        if found {
            self.advance();
        }
    }

    /// Parses a capability annotation `!{entry, ...}`, where an entry is an
    /// effect (`pure`, `alloc`, `io`, `net`) or a limit `tokens ≤ n`,
    /// `latency ≤ n [ms]`, `energy ≤ n [mJ]`.
    pub fn parse_capability(&mut self) -> (r: Result<Capability, ParseError>)
        requires
            old(self).wf(),
        ensures
            final(self).wf(),
            final(self).tokens() == old(self).tokens(),
            match r {
                Ok(c) => capability_at(old(self).tokens(), old(self).index()) == Ok::<
                    (CapabilityView, int),
                    ParseErrorView,
                >((c@, final(self).index())),
                Err(e) => capability_at(old(self).tokens(), old(self).index()) == Err::<
                    (CapabilityView, int),
                    ParseErrorView,
                >(e@),
            },
    {
        match self.expect(Token::Bang) {
            Err(e) => return Err(e),
            Ok(_) => {},
        }
        match self.expect(Token::LBrace) {
            Err(e) => return Err(e),
            Ok(_) => {},
        }
        let ghost toks = self.tokens();
        let ghost start = self.index();
        let mut effects: Vec<Effect> = Vec::new();
        let mut budgets = ResourceBudget { tokens: None, latency_ms: None, energy_mj: None };
        proof {
            assert(CapabilityView { effects: effects@, budgets } == empty_capability());
        }
        loop
            invariant
                self.wf(),
                self.tokens() == toks,
                toks == old(self).tokens(),
                capability_at(toks, old(self).index()) == cap_entries(toks, start, empty_capability()),
                cap_entries(toks, self.index(), CapabilityView { effects: effects@, budgets })
                    == cap_entries(toks, start, empty_capability()),
            ensures
                self.wf(),
                self.tokens() == toks,
                toks == old(self).tokens(),
                capability_at(toks, old(self).index()) == cap_entries(toks, start, empty_capability()),
                self.current_token@ is RBrace,
                cap_entries(toks, self.index(), CapabilityView { effects: effects@, budgets })
                    == cap_entries(toks, start, empty_capability()),
            decreases toks.len() - self.index(),
        {
            let ghost k0 = self.index();
            let ghost acc0 = CapabilityView { effects: effects@, budgets };
            let name = match &self.current_token {
                Token::Ident(name) => Some(name.clone()),
                _ => None,
            };
            if name.is_none() {
                if self.current_token.eq(&Token::RBrace) {
                    break;
                } else if self.current_token.eq(&Token::Comma) {
                    self.advance();
                    continue;
                } else {
                    return Err(self.unexpected("effect or resource constraint"));
                }
            }
            let name = name.unwrap();
            match Parser::effect_of_name(&name) {
                Some(e) => {
                    effects.push(e);
                    self.advance();
                },
                None => {
                    if name.eq(&"tokens".to_owned()) {
                        self.advance();
                        match self.parse_limit() {
                            Err(e) => return Err(e),
                            Ok(n) => {
                                budgets.tokens = Some(n);
                            },
                        }
                    } else if name.eq(&"latency".to_owned()) {
                        self.advance();
                        match self.parse_limit() {
                            Err(e) => return Err(e),
                            Ok(n) => {
                                self.skip_unit("ms");
                                budgets.latency_ms = Some(n);
                            },
                        }
                    } else if name.eq(&"energy".to_owned()) {
                        self.advance();
                        match self.parse_limit() {
                            Err(e) => return Err(e),
                            Ok(n) => {
                                self.skip_unit("mJ");
                                budgets.energy_mj = Some(n);
                            },
                        }
                    } else {
                        return Err(ParseError::InvalidEffect(name));
                    }
                },
            }
            proof {
                assert(cap_entry(toks, k0, name@, acc0) == Ok::<(CapabilityView, int), ParseErrorView>(
                    (CapabilityView { effects: effects@, budgets }, self.index()),
                ));
            }
            match &self.current_token {
                Token::Comma => self.advance(),
                Token::RBrace => break,
                _ => return Err(self.unexpected(", or }")),
            }
        }
        match self.expect(Token::RBrace) {
            Err(e) => Err(e),
            Ok(_) => Ok(Capability { effects, budgets }),
        }
    }

    /// Parses a type: an identifier; `Int`, `Text` and `Bool` are built in,
    /// any other name is a custom type.
    pub fn parse_type(&mut self) -> (r: Result<Type, ParseError>)
        requires
            old(self).wf(),
        ensures
            final(self).wf(),
            final(self).tokens() == old(self).tokens(),
            match r {
                Ok(t) => {
                    let res = ident_at(old(self).tokens(), old(self).index());
                    &&& res is Ok
                    &&& type_named(t, res->Ok_0.0)
                    &&& final(self).index() == res->Ok_0.1
                },
                Err(e) => ident_at(old(self).tokens(), old(self).index()) == Err::<
                    (Seq<char>, int),
                    ParseErrorView,
                >(e@),
            },
    {
        let name = match self.expect_ident() {
            Err(e) => return Err(e),
            Ok(name) => name,
        };
        if name.eq(&"Int".to_owned()) {
            Ok(Type::Int)
        } else if name.eq(&"Text".to_owned()) {
            Ok(Type::Text)
        } else if name.eq(&"Bool".to_owned()) {
            Ok(Type::Bool)
        } else {
            Ok(Type::Custom(name))
        }
    }

    /// Parses a parameter list `( name: Type, ... )`; the list may be empty,
    /// and a comma must be followed by another parameter.
    pub fn parse_params(&mut self) -> (r: Result<Vec<(String, Type)>, ParseError>)
        requires
            old(self).wf(),
        ensures
            final(self).wf(),
            final(self).tokens() == old(self).tokens(),
            match r {
                Ok(ps) => {
                    let res = params_at(old(self).tokens(), old(self).index());
                    &&& res is Ok
                    &&& params_match(ps@, res->Ok_0.0)
                    &&& final(self).index() == res->Ok_0.1
                },
                Err(e) => params_at(old(self).tokens(), old(self).index()) == Err::<
                    (Seq<(Seq<char>, Seq<char>)>, int),
                    ParseErrorView,
                >(e@),
            },
    {
        match self.expect(Token::LParen) {
            Err(e) => return Err(e),
            Ok(_) => {},
        }
        let mut params: Vec<(String, Type)> = Vec::new();
        if self.current_token.eq(&Token::RParen) {
            self.advance();
            return Ok(params);
        }
        let ghost toks = self.tokens();
        let ghost start = self.index();
        let ghost mut acc: Seq<(Seq<char>, Seq<char>)> = Seq::empty();
        loop
            invariant
                self.wf(),
                self.tokens() == toks,
                toks == old(self).tokens(),
                params_at(toks, old(self).index()) == param_list(toks, start, Seq::empty()),
                param_list(toks, self.index(), acc) == param_list(toks, start, Seq::empty()),
                params_match(params@, acc),
            decreases toks.len() - self.index(),
        {
            let name = match self.expect_ident() {
                Err(e) => return Err(e),
                Ok(name) => name,
            };
            match self.expect(Token::Colon) {
                Err(e) => return Err(e),
                Ok(_) => {},
            }
            let ghost k2 = self.index();
            let ty = match self.parse_type() {
                Err(e) => return Err(e),
                Ok(ty) => ty,
            };
            let ghost ty_name = ident_at(toks, k2)->Ok_0.0;
            proof {
                acc = acc.push((name@, ty_name));
            }
            let ghost before = params@;
            params.push((name, ty));
            proof {
                assert(params_match(params@, acc)) by {
                    assert forall|i: int| 0 <= i < params@.len() implies (#[trigger] params@[i]).0@
                        == acc[i].0 && type_named(params@[i].1, acc[i].1) by {
                        if i < params@.len() - 1 {
                            assert(params@[i] == before[i]);
                        }
                    }
                }
            }
            if self.current_token.eq(&Token::Comma) {
                self.advance();
            } else if self.current_token.eq(&Token::RParen) {
                self.advance();
                return Ok(params);
            } else {
                return Err(self.unexpected(", or )"));
            }
        }
    }

    fn parse_opt_capability(&mut self) -> (r: Result<Option<Capability>, ParseError>)
        requires
            old(self).wf(),
        ensures
            final(self).wf(),
            final(self).tokens() == old(self).tokens(),
            match r {
                Ok(c) => opt_capability_at(old(self).tokens(), old(self).index()) == Ok::<
                    (Option<CapabilityView>, int),
                    ParseErrorView,
                >((opt_cap_view(c), final(self).index())),
                Err(e) => opt_capability_at(old(self).tokens(), old(self).index()) == Err::<
                    (Option<CapabilityView>, int),
                    ParseErrorView,
                >(e@),
            },
    {
        if self.current_token.eq(&Token::Bang) {
            match self.parse_capability() {
                Err(e) => Err(e),
                Ok(c) => Ok(Some(c)),
            }
        } else {
            Ok(None)
        }
    }

    /// Parses a function declaration `fn name(params) -> Type` with an
    /// optional capability. The body is not parsed and is left empty.
    pub fn parse_function(&mut self) -> (r: Result<Stmt, ParseError>)
        requires
            old(self).wf(),
        ensures
            final(self).wf(),
            final(self).tokens() == old(self).tokens(),
            match r {
                Ok(s) => {
                    let res = function_at(old(self).tokens(), old(self).index());
                    &&& res is Ok
                    &&& function_stmt_of(s, res->Ok_0.0)
                    &&& final(self).index() == res->Ok_0.1
                },
                Err(e) => function_at(old(self).tokens(), old(self).index()) == Err::<
                    (FunctionHeader, int),
                    ParseErrorView,
                >(e@),
            },
    {
        match self.expect(Token::Fn) {
            Err(e) => return Err(e),
            Ok(_) => {},
        }
        let name = match self.expect_ident() {
            Err(e) => return Err(e),
            Ok(name) => name,
        };
        let params = match self.parse_params() {
            Err(e) => return Err(e),
            Ok(params) => params,
        };
        match self.expect(Token::Arrow) {
            Err(e) => return Err(e),
            Ok(_) => {},
        }
        let return_type = match self.parse_type() {
            Err(e) => return Err(e),
            Ok(t) => t,
        };
        let capability = match self.parse_opt_capability() {
            Err(e) => return Err(e),
            Ok(c) => c,
        };
        Ok(Stmt::Function { name, params, return_type, capability, body: Vec::new() })
    }

    /// Parses a module declaration `module a.b.c` with an optional
    /// capability. The dots reach the parser as unrecognised tokens; the name
    /// is kept as one text.
    pub fn parse_module(&mut self) -> (r: Result<Module, ParseError>)
        requires
            old(self).wf(),
        ensures
            final(self).wf(),
            final(self).tokens() == old(self).tokens(),
            match r {
                Ok(m) => {
                    let res = module_at(old(self).tokens(), old(self).index());
                    &&& res is Ok
                    &&& m.name@ == res->Ok_0.0.name
                    &&& opt_cap_view(m.capability) == res->Ok_0.0.capability
                    &&& m.imports.len() == 0
                    &&& m.statements.len() == 0
                    &&& final(self).index() == res->Ok_0.1
                },
                Err(e) => module_at(old(self).tokens(), old(self).index()) == Err::<
                    (ModuleHeader, int),
                    ParseErrorView,
                >(e@),
            },
    {
        match self.expect(Token::Module) {
            Err(e) => return Err(e),
            Ok(_) => {},
        }
        let first = match self.expect_ident() {
            Err(e) => return Err(e),
            Ok(name) => name,
        };
        let ghost toks = self.tokens();
        let ghost start = self.index();
        let ghost first_view = first@;
        let mut full_name = first;
        loop
            invariant
                self.wf(),
                self.tokens() == toks,
                toks == old(self).tokens(),
                module_at(toks, old(self).index()) == (match dotted_rest(toks, start, first_view) {
                    Err(e) => Err(e),
                    Ok((name, k3)) => match opt_capability_at(toks, k3) {
                        Err(e) => Err(e),
                        Ok((capability, k4)) => Ok((ModuleHeader { name, capability }, k4)),
                    },
                }),
                dotted_rest(toks, self.index(), full_name@) == dotted_rest(toks, start, first_view),
            ensures
                self.wf(),
                self.tokens() == toks,
                toks == old(self).tokens(),
                module_at(toks, old(self).index()) == (match dotted_rest(toks, start, first_view) {
                    Err(e) => Err(e),
                    Ok((name, k3)) => match opt_capability_at(toks, k3) {
                        Err(e) => Err(e),
                        Ok((capability, k4)) => Ok((ModuleHeader { name, capability }, k4)),
                    },
                }),
                dotted_rest(toks, start, first_view) == Ok::<(Seq<char>, int), ParseErrorView>(
                    (full_name@, self.index()),
                ),
            decreases toks.len() - self.index(),
        {
            if !self.current_token.eq(&Token::Unknown('.')) {
                break;
            }
            self.advance();
            let part = match self.expect_ident() {
                Err(e) => return Err(e),
                Ok(part) => part,
            };
            full_name.append(".");
            full_name.append(part.as_str());
        }
        let capability = match self.parse_opt_capability() {
            Err(e) => return Err(e),
            Ok(c) => c,
        };
        Ok(Module { name: full_name, capability, imports: Vec::new(), statements: Vec::new() })
    }
}




} // verus!

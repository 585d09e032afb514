use vstd::prelude::*;
use vstd::string::StringExecFns;
use lib_lexin::Token as Lexed;
use self::TokenKind::{Enclosed, Float, Ident, Integer, Keyword, Symbol};

verus! {

/// The kind of a token, as the tokenizer tells them apart.
#[derive(Clone, Copy, Debug, PartialEq, Eq, Structural)]
pub enum TokenKind {
    Keyword,
    /// A delimited section, such as a quoted string; `name` tells which.
    Enclosed,
    Integer,
    Float,
    Symbol,
    Ident,
}

/// One token of shell source.
///
/// `name` is the section's name for an enclosed section and the symbol's tag
/// for a symbol, empty otherwise; `text` is the token's payload as text; `line` and
/// `column` locate it in the source.
#[derive(Clone, Debug)]
pub struct Token {
    pub kind: TokenKind,
    pub name: String,
    pub text: String,
    pub line: usize,
    pub column: usize,
}

/// Structural equality of tokens: kind, name and payload; the location is
/// not compared.
pub open spec fn same_token(a: Token, b: Token) -> bool {
    a.kind == b.kind && a.name@ == b.name@ && a.text@ == b.text@
}

/// Exact equality of two texts.
pub fn text_eq(a: &str, b: &str) -> (r: bool)
    ensures
        r == (a@ == b@),
{
    let n = a.unicode_len();
    let m = b.unicode_len();
    if n != m {
        return false;
    }
    let mut i: usize = 0;
    while i < n
        invariant
            n == a@.len(),
            m == b@.len(),
            n == m,
            i <= n,
            forall|j: int| 0 <= j < i ==> a@[j] == b@[j],
        decreases n - i,
    {
        if a.get_char(i) != b.get_char(i) {
            return false;
        }
        i = i + 1;
    }
    assert(a@ == b@);
    true
}

impl Token {
    /// A token without a section name or symbol tag.
    pub fn plain(kind: TokenKind, text: String, loc: (usize, usize)) -> (r: Token)
        ensures
            r.kind == kind,
            r.name@ == Seq::<char>::empty(),
            r.text == text,
            r.line == loc.0,
            r.column == loc.1,
    {
        Token { kind, name: String::new(), text, line: loc.0, column: loc.1 }
    }

    /// A token that carries a section name or a symbol tag.
    pub fn named(kind: TokenKind, name: String, text: String, loc: (usize, usize)) -> (r: Token)
        ensures
            r == (Token { kind, name, text, line: loc.0, column: loc.1 }),
    {
        Token { kind, name, text, line: loc.0, column: loc.1 }
    }

    /// A token as the tokenizer hands it over: its kind with the section name
    /// or symbol tag, if any, its payload and its location.
    pub fn outside(kind: (TokenKind, Option<&String>), text: String, loc: (usize, usize)) -> (r: Token)
        ensures
            r.kind == kind.0,
            kind.1 matches Some(n) ==> r.name == *n,
            kind.1 is None ==> r.name@ == Seq::<char>::empty(),
            r.text == text,
            r.line == loc.0,
            r.column == loc.1,
    {
        let name = match kind.1 {
            Some(n) => n.clone(),
            None => String::new(),
        };
        Token { kind: kind.0, name, text, line: loc.0, column: loc.1 }
    }

    /// A copy of the token.
    pub fn duplicate(&self) -> (r: Token)
        ensures
            r == *self,
    {
        Token { kind: self.kind, name: self.name.clone(), text: self.text.clone(), line: self.line, column: self.column }
    }

    /// The token's payload as text.
    pub fn as_string(&self) -> (r: String)
        ensures
            r@ == self.text@,
    {
        self.text.clone()
    }

    /// Structural equality: kind, name and payload.
    pub fn same(&self, other: &Token) -> (r: bool)
        ensures
            r == same_token(*self, *other),
    {
        self.kind == other.kind && text_eq(self.name.as_str(), other.name.as_str())
            && text_eq(self.text.as_str(), other.text.as_str())
    }

    /// Whether this is the symbol with the given tag.
    pub fn is_symbol(&self, tag: &str) -> (r: bool)
        ensures
            r == (self.kind == TokenKind::Symbol && self.name@ == tag@),
    {
        self.kind == TokenKind::Symbol && text_eq(self.name.as_str(), tag)
    }

    /// Whether this is a section with the given name.
    pub fn is_section(&self, section: &str) -> (r: bool)
        ensures
            r == (self.kind == TokenKind::Enclosed && self.name@ == section@),
    {
        self.kind == TokenKind::Enclosed && text_eq(self.name.as_str(), section)
    }

    /// Whether this is the given keyword.
    pub fn is_keyword(&self, keyword: &str) -> (r: bool)
        ensures
            r == (self.kind == TokenKind::Keyword && self.text@ == keyword@),
    {
        self.kind == TokenKind::Keyword && text_eq(self.text.as_str(), keyword)
    }
}

/// What a tokenizer recognises: keywords, sections, and single-character
/// symbols with their tags.
pub struct LexRules {
    pub keywords: Vec<&'static str>,
    pub sections: Vec<lib_lexin::Section>,
    pub symbols: Vec<(char, &'static str)>,
}

pub open spec fn keywords_view(r: &LexRules) -> Seq<Seq<char>> {
    r.keywords@.map_values(|k: &str| k@)
}

pub open spec fn sections_view(r: &LexRules) -> Seq<(Seq<char>, Seq<char>, Seq<char>)> {
    r.sections@.map_values(|s: lib_lexin::Section| (s.name@, s.start@, s.end@))
}

pub open spec fn symbols_view(r: &LexRules) -> Seq<(char, Seq<char>)> {
    r.symbols@.map_values(|s: (char, &str)| (s.0, s.1@))
}

/// The tokens that the tokenizer makes of `source` under the given rules, or
/// `None` where it fails.
pub uninterp spec fn lexed(
    keywords: Seq<Seq<char>>,
    sections: Seq<(Seq<char>, Seq<char>, Seq<char>)>,
    symbols: Seq<(char, Seq<char>)>,
    source: Seq<char>,
) -> Option<Seq<Token>>;

/// Relies on lib_lexin's `Lexer::new`, `Lexer::load_str` and `Lexer::tokenize`:
/// the tokens depend on the rules and the source alone, and each outside token
/// is carried over with its kind, name, text (`Token::as_string`) and location.
#[verifier::external_body]
fn lex(rules: &LexRules, source: &str) -> (r: Result<Vec<Token>, String>)
    ensures
        r is Ok <==> lexed(keywords_view(rules), sections_view(rules), symbols_view(rules), source@) is Some,
        r is Ok ==> r->Ok_0@ == lexed(keywords_view(rules), sections_view(rules), symbols_view(rules), source@)->0,
{
    let mut lexer = lib_lexin::Lexer::new(&rules.keywords, &rules.sections, &rules.symbols);
    lexer.load_str(source);
    let tokens = lexer.tokenize().map_err(|e| e.to_string())?;
    Ok(tokens.iter().map(|t| Token::outside(match t {
        Lexed::Keyword(..) => (Keyword, None),
        Lexed::Section(n, ..) => (Enclosed, Some(n)),
        Lexed::Integer(..) => (Integer, None),
        Lexed::Float(..) => (Float, None),
        Lexed::Symbol(_, n, _) => (Symbol, Some(n)),
        Lexed::Ident(..) => (Ident, None),
    }, t.as_string(), t.loc())).collect())
}

pub open spec fn shell_keywords() -> Seq<Seq<char>> {
    seq!["cd"@, "alias"@]
}

pub open spec fn shell_sections() -> Seq<(Seq<char>, Seq<char>, Seq<char>)> {
    seq![("string"@, "\""@, "\""@), ("env"@, "$"@, "$"@)]
}

pub open spec fn shell_symbols() -> Seq<(char, Seq<char>)> {
    seq![('&', "And"@), ('|', "Or"@), ('\n', "NewLine"@)]
}

/// The shell's tokens for `source`: keywords `cd` and `alias`, quoted
/// sections named `string`, `$...$` sections named `env`, and the symbols
/// `&`, `|` and newline tagged `And`, `Or` and `NewLine`.
pub open spec fn shell_lexed(source: Seq<char>) -> Option<Seq<Token>> {
    lexed(shell_keywords(), shell_sections(), shell_symbols(), source)
}

/// The tokenizer rules of the shell.
pub fn shell_rules() -> (r: LexRules)
    ensures
        keywords_view(&r) == shell_keywords(),
        sections_view(&r) == shell_sections(),
        symbols_view(&r) == shell_symbols(),
{
    let keywords = vec!["cd", "alias"];
    let sections = vec![
        lib_lexin::Section { name: String::from_str("string"), start: String::from_str("\""), end: String::from_str("\"") },
        lib_lexin::Section { name: String::from_str("env"), start: String::from_str("$"), end: String::from_str("$") },
    ];
    let symbols = vec![('&', "And"), ('|', "Or"), ('\n', "NewLine")];
    let r = LexRules { keywords, sections, symbols };
    assert(keywords_view(&r) =~= shell_keywords());
    assert(sections_view(&r) =~= shell_sections());
    assert(symbols_view(&r) =~= shell_symbols());
    r
}

/// Turns shell source into tokens.
pub fn tokenize(source: &str) -> (r: Result<Vec<Token>, String>)
    ensures
        r is Ok <==> shell_lexed(source@) is Some,
        r is Ok ==> r->Ok_0@ == shell_lexed(source@)->0,
{
    let rules = shell_rules();
    lex(&rules, source)
}

} // verus!

use vstd::prelude::*;
use vstd::string::StringExecFns;
use crate::config::{Config, substitute, substitute_aliases};
use crate::error::{NshError, NshErrorType, message_of};
use crate::escape::push_char;
use crate::token::{Token, TokenKind};

verus! {

/// An operand of an instruction, before it is resolved.
#[derive(Clone, Debug)]
pub enum Value {
    /// A literal, escape-decoded when resolved.
    Str(String),
    /// The name of an environment variable.
    Env(String),
    /// No value: a malformed operand.
    Nov,
}

impl Default for Value {
    fn default() -> (r: Value)
        ensures
            r == Value::Nov,
    {
        Value::Nov
    }
}

/// One instruction: what one statement asks for.
#[derive(Debug)]
pub enum Node {
    /// Run a program with arguments.
    Exec { file: String, args: Vec<Value> },
    /// Change the working directory.
    Cd(Value),
    /// Define an alias from a pattern and a replacement, both shell source.
    Alias(Value, Value),
    /// List every alias.
    AliasList,
    /// Set an environment variable.
    SetEnv(String, Value),
    /// Reserved; never built by the parser and without effect.
    Pipe(Box<Node>, Box<Node>),
    /// No operation.
    Nop,
}

impl Default for Node {
    fn default() -> (r: Node)
        ensures
            r is Nop,
    {
        Node::Nop
    }
}

/// The decimal digit for `d < 10`.
pub open spec fn digit(d: nat) -> char {
    if d == 0 { '0' } else if d == 1 { '1' } else if d == 2 { '2' } else if d == 3 { '3' }
    else if d == 4 { '4' } else if d == 5 { '5' } else if d == 6 { '6' } else if d == 7 { '7' }
    else if d == 8 { '8' } else { '9' }
}

/// The decimal notation of `n`.
pub open spec fn decimal(n: nat) -> Seq<char>
    decreases n,
{
    if n < 10 {
        seq![digit(n)]
    } else {
        decimal(n / 10).push(digit(n % 10))
    }
}

/// Writes `n` in decimal.
pub fn decimal_string(n: usize) -> (r: String)
    ensures
        r@ == decimal(n as nat),
    decreases n,
{
    let d = n % 10;
    let c = if d == 0 { '0' } else if d == 1 { '1' } else if d == 2 { '2' } else if d == 3 { '3' }
        else if d == 4 { '4' } else if d == 5 { '5' } else if d == 6 { '6' } else if d == 7 { '7' }
        else if d == 8 { '8' } else { '9' };
    let mut r = if n < 10 { String::new() } else { decimal_string(n / 10) };
    push_char(&mut r, c);
    proof {
        if n < 10 {
            assert(r@ =~= seq![digit(n as nat)]);
        }
    }
    r
}

/// A diagnostic located at a token: `line:column: message`.
pub open spec fn located(t: Token, message: Seq<char>) -> Seq<char> {
    decimal(t.line as nat) + ":"@ + decimal(t.column as nat) + ": "@ + message
}

fn located_message(t: &Token, message: &str) -> (r: String)
    ensures
        r@ == located(*t, message@),
{
    decimal_string(t.line).concat(":").concat(decimal_string(t.column).as_str()).concat(": ").concat(message)
}

/// The value that a token stands for as an operand, if it can be one: a plain
/// word or a quoted section is a literal, an `env` section names a variable.
pub open spec fn value_of(t: Token) -> Option<Value> {
    if t.kind == TokenKind::Ident {
        Some(Value::Str(t.text))
    } else if t.kind == TokenKind::Enclosed && t.name@ == "string"@ {
        Some(Value::Str(t.text))
    } else if t.kind == TokenKind::Enclosed && t.name@ == "env"@ {
        Some(Value::Env(t.text))
    } else {
        None
    }
}

/// The operand of a token; `Nov` where it cannot be one.
pub open spec fn operand(t: Token) -> Value {
    match value_of(t) {
        Some(v) => v,
        None => Value::Nov,
    }
}

/// The diagnostics of reading a token as an operand.
pub open spec fn operand_errors(t: Token) -> Seq<Seq<char>> {
    if value_of(t) is Some {
        Seq::empty()
    } else {
        seq![located(t, "expected value but got `"@ + t.text@ + "`"@)]
    }
}

pub open spec fn arg_values(ts: Seq<Token>) -> Seq<Value> {
    ts.map_values(|t: Token| operand(t))
}

pub open spec fn arg_errors(ts: Seq<Token>) -> Seq<Seq<char>>
    decreases ts.len(),
{
    if ts.len() == 0 {
        Seq::empty()
    } else {
        arg_errors(ts.drop_last()) + operand_errors(ts.last())
    }
}

/// `new` is `old` followed by one parser error for each message of `msgs`.
pub open spec fn extends_with(old: Seq<NshError>, new: Seq<NshError>, msgs: Seq<Seq<char>>) -> bool {
    &&& new.len() == old.len() + msgs.len()
    &&& new.subrange(0, old.len() as int) == old
    &&& forall|i: int| 0 <= i < msgs.len() ==> (#[trigger] new[old.len() + i]) is Parser
        && message_of(new[old.len() + i]) == msgs[i]
}

pub proof fn lemma_extends_trans(
    a: Seq<NshError>,
    b: Seq<NshError>,
    c: Seq<NshError>,
    m1: Seq<Seq<char>>,
    m2: Seq<Seq<char>>,
)
    requires
        extends_with(a, b, m1),
        extends_with(b, c, m2),
    ensures
        extends_with(a, c, m1 + m2),
{
    let m = m1 + m2;
    assert(c.subrange(0, a.len() as int) == b.subrange(0, a.len() as int));
    assert forall|i: int| 0 <= i < m.len() implies (#[trigger] c[a.len() + i]) is Parser
        && message_of(c[a.len() + i]) == m[i] by {
        if i < m1.len() {
            assert(c[a.len() + i] == b[a.len() + i]);
        } else {
            let k = i - m1.len();
            assert(c[b.len() + k] == c[a.len() + i]);
        }
    }
}

pub proof fn lemma_extends_refl(a: Seq<NshError>)
    ensures
        extends_with(a, a, Seq::empty()),
{
    assert(a.subrange(0, a.len() as int) == a);
}

/// The instruction that a statement (after alias substitution) is parsed to.
pub open spec fn node_of(s: Seq<Token>, n: Node) -> bool {
    if s.len() == 0 {
        n is Nop
    } else if s[0].kind == TokenKind::Ident {
        match n {
            Node::Exec { file, args } => file == s[0].text && args@ == arg_values(s.drop_first()),
            _ => false,
        }
    } else if s[0].kind == TokenKind::Keyword && s[0].text@ == "cd"@ {
        if s.len() < 2 {
            n is Nop
        } else {
            n == Node::Cd(operand(s[1]))
        }
    } else if s[0].kind == TokenKind::Keyword && s[0].text@ == "alias"@ {
        if s.len() == 1 {
            n is AliasList
        } else if s.len() == 2 {
            n is Nop
        } else {
            n == Node::Alias(operand(s[1]), operand(s[2]))
        }
    } else if s[0].kind == TokenKind::Enclosed && s[0].name@ == "env"@ {
        if s.len() != 3 || !(s[1].kind == TokenKind::Symbol && s[1].name@ == "Equal"@) {
            n is Nop
        } else {
            n == Node::SetEnv(s[0].text, operand(s[2]))
        }
    } else {
        n is Nop
    }
}

/// The diagnostics of parsing a statement (after alias substitution).
pub open spec fn node_errors(s: Seq<Token>) -> Seq<Seq<char>> {
    if s.len() == 0 {
        Seq::empty()
    } else if s[0].kind == TokenKind::Ident {
        arg_errors(s.drop_first())
    } else if s[0].kind == TokenKind::Keyword && s[0].text@ == "cd"@ {
        if s.len() < 2 {
            seq![located(s[0], "expected directory"@)]
        } else {
            operand_errors(s[1])
        }
    } else if s[0].kind == TokenKind::Keyword && s[0].text@ == "alias"@ {
        if s.len() == 1 {
            Seq::empty()
        } else if s.len() == 2 {
            seq![located(s[0], "alias expects 2 arguments"@)]
        } else {
            operand_errors(s[1]) + operand_errors(s[2])
        }
    } else if s[0].kind == TokenKind::Enclosed && s[0].name@ == "env"@ {
        if s.len() != 3 {
            seq![located(s[0], "env expected 2 arguments"@)]
        } else if !(s[1].kind == TokenKind::Symbol && s[1].name@ == "Equal"@) {
            seq![located(s[0], "expected `=` but got `"@ + s[1].text@ + "`"@)]
        } else {
            operand_errors(s[2])
        }
    } else {
        seq![located(s[0], "expected keyword but got `"@ + s[0].text@ + "`"@)]
    }
}

/// A token that ends a statement: the symbols tagged `And` and `NewLine`.
pub open spec fn is_separator(t: Token) -> bool {
    t.kind == TokenKind::Symbol && (t.name@ == "And"@ || t.name@ == "NewLine"@)
}

/// Reading tokens left to right: the statements completed so far and the
/// tokens of the statement still open.
pub open spec fn split(tokens: Seq<Token>) -> (Seq<Seq<Token>>, Seq<Token>)
    decreases tokens.len(),
{
    if tokens.len() == 0 {
        (Seq::empty(), Seq::empty())
    } else {
        let (done, open) = split(tokens.drop_last());
        if is_separator(tokens.last()) {
            (if open.len() > 0 { done.push(open) } else { done }, Seq::empty())
        } else {
            (done, open.push(tokens.last()))
        }
    }
}

/// The statements of a token sequence: the non-empty runs of tokens between
/// separators, separators left out.
pub open spec fn statements(tokens: Seq<Token>) -> Seq<Seq<Token>> {
    let (done, open) = split(tokens);
    if open.len() > 0 { done.push(open) } else { done }
}

/// Payloads of tokens, each preceded by a space.
pub open spec fn spaced(ts: Seq<Token>) -> Seq<char>
    decreases ts.len(),
{
    if ts.len() == 0 {
        Seq::empty()
    } else {
        spaced(ts.drop_last()) + " "@ + ts.last().text@
    }
}

/// The diagnostics of parsing each statement after alias substitution, in order.
pub open spec fn all_errors(stmts: Seq<Seq<Token>>, table: Seq<crate::config::AliasEntry>) -> Seq<Seq<char>>
    decreases stmts.len(),
{
    if stmts.len() == 0 {
        Seq::empty()
    } else {
        all_errors(stmts.drop_last(), table) + node_errors(substitute(stmts.last(), table))
    }
}

/// The parser of one line: its tokens and the errors it records.
pub struct Ast {
    pub tokens: Vec<Token>,
    pub errors: NshErrorType,
}

impl Ast {
    /// A parser of `tokens` with no errors recorded yet.
    pub fn new(tokens: Vec<Token>) -> (r: Ast)
        ensures
            r.tokens == tokens,
            r.errors@ == Seq::<NshError>::empty(),
    {
        Ast { tokens, errors: NshErrorType::new() }
    }

    fn error(&mut self, message: String)
        ensures
            extends_with(old(self).errors@, final(self).errors@, seq![message@]),
            final(self).tokens == old(self).tokens,
    {
        let ghost before = self.errors@;
        self.errors.push(NshError::Parser(message));
        assert(self.errors@.subrange(0, before.len() as int) == before);
        assert(self.errors@[before.len() + 0int] == NshError::Parser(message));
    }

    /// Reads a token as an operand; records an error where it cannot be one.
    fn value(&mut self, token: &Token) -> (r: Value)
        ensures
            r == operand(*token),
            extends_with(old(self).errors@, final(self).errors@, operand_errors(*token)),
            final(self).tokens == old(self).tokens,
    {
        if token.kind == TokenKind::Ident {
            proof { lemma_extends_refl(self.errors@); }
            Value::Str(token.text.clone())
        } else if token.is_section("string") {
            proof { lemma_extends_refl(self.errors@); }
            Value::Str(token.text.clone())
        } else if token.is_section("env") {
            proof { lemma_extends_refl(self.errors@); }
            Value::Env(token.text.clone())
        } else {
            let m = String::from_str("expected value but got `").concat(token.text.as_str()).concat("`");
            let message = located_message(token, m.as_str());
            self.error(message);
            Value::Nov
        }
    }

    /// Parses one statement, after alias substitution, into an instruction.
    pub fn parse_node(&mut self, node: &Vec<Token>) -> (r: Node)
        ensures
            node_of(node@, r),
            extends_with(old(self).errors@, final(self).errors@, node_errors(node@)),
            final(self).tokens == old(self).tokens,
    {
        let ghost e0 = self.errors@;
        if node.len() == 0 {
            proof { lemma_extends_refl(self.errors@); }
            return Node::Nop;
        }
        let first = &node[0];
        if first.kind == TokenKind::Ident {
            let mut args: Vec<Value> = Vec::new();
            let mut index: usize = 1;
            proof {
                lemma_extends_refl(self.errors@);
                assert(node@.subrange(1, 1) =~= Seq::<Token>::empty());
            }
            while index < node.len()
                invariant
                    1 <= index <= node@.len(),
                    args@ == arg_values(node@.subrange(1, index as int)),
                    extends_with(e0, self.errors@, arg_errors(node@.subrange(1, index as int))),
                    self.tokens == old(self).tokens,
                decreases node@.len() - index,
            {
                let ghost e1 = self.errors@;
                let arg = self.value(&node[index]);
                args.push(arg);
                proof {
                    let sub = node@.subrange(1, index + 1);
                    assert(sub.drop_last() == node@.subrange(1, index as int));
                    assert(sub.last() == node@[index as int]);
                    lemma_extends_trans(e0, e1, self.errors@, arg_errors(sub.drop_last()), operand_errors(sub.last()));
                    assert(args@ =~= arg_values(sub));
                }
                index = index + 1;
            }
            assert(node@.subrange(1, node@.len() as int) == node@.drop_first());
            return Node::Exec { file: first.text.clone(), args };
        } else if first.is_keyword("cd") {
            if node.len() < 2 {
                let message = located_message(first, "expected directory");
                self.error(message);
                return Node::Nop;
            }
            let dir = self.value(&node[1]);
            return Node::Cd(dir);
        } else if first.is_keyword("alias") {
            if node.len() == 1 {
                proof { lemma_extends_refl(self.errors@); }
                return Node::AliasList;
            } else if node.len() < 3 {
                let message = located_message(first, "alias expects 2 arguments");
                self.error(message);
                return Node::Nop;
            }
            let pattern = self.value(&node[1]);
            let ghost e1 = self.errors@;
            let replacement = self.value(&node[2]);
            proof {
                lemma_extends_trans(e0, e1, self.errors@, operand_errors(node@[1]), operand_errors(node@[2]));
            }
            return Node::Alias(pattern, replacement);
        } else if first.is_section("env") {
            if node.len() != 3 {
                let message = located_message(first, "env expected 2 arguments");
                self.error(message);
                return Node::Nop;
            } else if !node[1].is_symbol("Equal") {
                let m = String::from_str("expected `=` but got `").concat(node[1].text.as_str()).concat("`");
                let message = located_message(first, m.as_str());
                self.error(message);
                return Node::Nop;
            }
            let value = self.value(&node[2]);
            return Node::SetEnv(first.text.clone(), value);
        } else {
            let m = String::from_str("expected keyword but got `").concat(first.text.as_str()).concat("`");
            let message = located_message(first, m.as_str());
            self.error(message);
            return Node::Nop;
        }
    }

    /// The payloads of `tokens`, each preceded by a space.
    pub fn tokens_to_string(tokens: &Vec<Token>) -> (r: String)
        ensures
            r@ == spaced(tokens@),
    {
        let mut string = String::new();
        let mut i: usize = 0;
        while i < tokens.len()
            invariant
                i <= tokens@.len(),
                string@ == spaced(tokens@.subrange(0, i as int)),
            decreases tokens@.len() - i,
        {
            string.append(" ");
            string.append(tokens[i].text.as_str());
            proof {
                let sub = tokens@.subrange(0, i + 1);
                assert(sub.drop_last() == tokens@.subrange(0, i as int));
            }
            i = i + 1;
        }
        assert(tokens@.subrange(0, tokens@.len() as int) == tokens@);
        string
    }

    /// Parses the line into instructions, one per statement: statements are
    /// split at `And` and `NewLine` symbols, empty ones are skipped, and each
    /// is parsed after alias substitution. The errors of every statement are
    /// recorded in order.
    pub fn parse(&mut self, config: &Config) -> (r: Vec<Node>)
        ensures
            r@.len() == statements(old(self).tokens@).len(),
            forall|i: int| 0 <= i < r@.len()
                ==> node_of(substitute(statements(old(self).tokens@)[i], config.alias@), #[trigger] r@[i]),
            extends_with(old(self).errors@, final(self).errors@,
                all_errors(statements(old(self).tokens@), config.alias@)),
            final(self).tokens == old(self).tokens,
    {
        let ghost e0 = self.errors@;
        let ghost table = config.alias@;
        let ghost toks = self.tokens@;
        let mut ast: Vec<Node> = Vec::new();
        let mut node: Vec<Token> = Vec::new();
        let mut index: usize = 0;
        proof {
            lemma_extends_refl(e0);
            assert(toks.subrange(0, 0) =~= Seq::<Token>::empty());
        }
        while index < self.tokens.len()
            invariant
                self.tokens == old(self).tokens,
                toks == self.tokens@,
                index <= toks.len(),
                node@ == split(toks.subrange(0, index as int)).1,
                ast@.len() == split(toks.subrange(0, index as int)).0.len(),
                forall|i: int| 0 <= i < ast@.len()
                    ==> node_of(substitute(split(toks.subrange(0, index as int)).0[i], table), #[trigger] ast@[i]),
                extends_with(e0, self.errors@, all_errors(split(toks.subrange(0, index as int)).0, table)),
                table == config.alias@,
            decreases toks.len() - index,
        {
            let ghost prefix = toks.subrange(0, index + 1);
            proof {
                assert(prefix.drop_last() == toks.subrange(0, index as int));
                assert(prefix.last() == toks[index as int]);
            }
            let ghost done = split(toks.subrange(0, index as int)).0;
            let ghost e1 = self.errors@;
            let ghost ast0 = ast@;
            let t = &self.tokens[index];
            if t.is_symbol("And") || t.is_symbol("NewLine") {
                self.push(&node, config, &mut ast);
                proof {
                    if node@.len() > 0 {
                        let d2 = done.push(node@);
                        assert(d2.drop_last() == done);
                        lemma_extends_trans(e0, e1, self.errors@, all_errors(done, table),
                            node_errors(substitute(node@, table)));
                        assert forall|i: int| 0 <= i < ast@.len()
                            implies node_of(substitute(d2[i], table), #[trigger] ast@[i]) by {
                            if i < ast0.len() {
                                assert(ast@[i] == ast@.subrange(0, ast0.len() as int)[i]);
                            }
                        }
                    }
                }
                node = Vec::new();
            } else {
                node.push(t.duplicate());
            }
            index = index + 1;
        }
        assert(toks.subrange(0, toks.len() as int) == toks);
        let ghost done = split(toks).0;
        let ghost e1 = self.errors@;
        let ghost ast0 = ast@;
        self.push(&node, config, &mut ast);
        proof {
            if node@.len() > 0 {
                let d2 = done.push(node@);
                assert(d2.drop_last() == done);
                lemma_extends_trans(e0, e1, self.errors@, all_errors(done, table),
                    node_errors(substitute(node@, table)));
                assert forall|i: int| 0 <= i < ast@.len()
                    implies node_of(substitute(d2[i], table), #[trigger] ast@[i]) by {
                    if i < ast0.len() {
                        assert(ast@[i] == ast@.subrange(0, ast0.len() as int)[i]);
                    }
                }
            }
        }
        ast
    }

    /// Parses one statement, if it is not empty, and adds its instruction.
    fn push(&mut self, node: &Vec<Token>, config: &Config, ast: &mut Vec<Node>)
        ensures
            final(self).tokens == old(self).tokens,
            node@.len() == 0 ==> final(ast)@ == old(ast)@ && final(self).errors@ == old(self).errors@,
            node@.len() > 0 ==> final(ast)@.len() == old(ast)@.len() + 1
                && final(ast)@.subrange(0, old(ast)@.len() as int) == old(ast)@
                && node_of(substitute(node@, config.alias@), final(ast)@.last())
                && extends_with(old(self).errors@, final(self).errors@,
                    node_errors(substitute(node@, config.alias@))),
    {
        if node.len() > 0 {
            let substituted = substitute_aliases(node, config);
            let n = self.parse_node(&substituted);
            ast.push(n);
            assert(ast@.subrange(0, ast@.len() - 1) == old(ast)@);
        }
    }
}

} // verus!

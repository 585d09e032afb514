use vstd::prelude::*;
use crate::token::{Token, same_token};

verus! {

/// One alias: a single pattern token and the tokens that replace it.
pub type AliasEntry = (Token, Vec<Token>);

/// The shell's mutable configuration: its aliases, in the order they were
/// defined.
pub struct Config {
    pub alias: Vec<AliasEntry>,
}

impl Config {
    /// A configuration without aliases.
    pub fn new() -> (r: Config)
        ensures
            r.alias@.len() == 0,
    {
        Config { alias: Vec::new() }
    }
}

/// `i` is the first position of `s` whose token equals `p`.
pub open spec fn is_first_match(s: Seq<Token>, p: Token, i: int) -> bool {
    &&& 0 <= i < s.len()
    &&& same_token(s[i], p)
    &&& forall|j: int| 0 <= j < i ==> !same_token(#[trigger] s[j], p)
}

/// Some token of `s` equals `p`.
pub open spec fn has_match(s: Seq<Token>, p: Token) -> bool {
    exists|i: int| 0 <= i < s.len() && same_token(#[trigger] s[i], p)
}

/// `s` with the token at `i` replaced by the sequence `r`.
pub open spec fn splice(s: Seq<Token>, i: int, r: Seq<Token>) -> Seq<Token> {
    s.subrange(0, i) + r + s.subrange(i + 1, s.len() as int)
}

/// One alias applied to a statement: the first token equal to its pattern is
/// replaced by its replacement; without such a token the statement stays.
pub open spec fn apply_alias(s: Seq<Token>, e: AliasEntry) -> Seq<Token> {
    if has_match(s, e.0) {
        splice(s, choose|i: int| is_first_match(s, e.0, i), e.1@)
    } else {
        s
    }
}

/// Every alias of the table applied to a statement, in table order, each on
/// the result of the ones before it.
pub open spec fn substitute(s: Seq<Token>, table: Seq<AliasEntry>) -> Seq<Token>
    decreases table.len(),
{
    if table.len() == 0 {
        s
    } else {
        apply_alias(substitute(s, table.drop_last()), table.last())
    }
}

/// A first match, where there is one, is the only one.
pub proof fn lemma_first_match_unique(s: Seq<Token>, p: Token, i: int, k: int)
    requires
        is_first_match(s, p, i),
        is_first_match(s, p, k),
    ensures
        i == k,
{
    if i < k {
        assert(!same_token(s[i], p));
    } else if k < i {
        assert(!same_token(s[k], p));
    }
}

/// A statement in which no alias pattern of the table occurs, before or after
/// any of the table's replacements, is left token for token as it was.
pub proof fn lemma_substitute_unmatched(s: Seq<Token>, table: Seq<AliasEntry>)
    requires
        forall|k: int| 0 <= k < table.len() ==> !has_match(s, #[trigger] table[k].0),
    ensures
        substitute(s, table) == s,
    decreases table.len(),
{
    if table.len() > 0 {
        let front = table.drop_last();
        assert forall|k: int| 0 <= k < front.len() implies !has_match(s, #[trigger] front[k].0) by {
            assert(front[k] == table[k]);
        }
        lemma_substitute_unmatched(s, front);
        assert(!has_match(s, table[table.len() - 1].0));
    }
}

/// A copy of `v` with the token at `idx` replaced by the tokens of `repl`.
pub fn splice_tokens(v: &Vec<Token>, idx: usize, repl: &Vec<Token>) -> (r: Vec<Token>)
    requires
        idx < v@.len(),
    ensures
        r@ == splice(v@, idx as int, repl@),
{
    let mut r: Vec<Token> = Vec::new();
    let mut i: usize = 0;
    while i < idx
        invariant
            idx < v@.len(),
            i <= idx,
            r@ == v@.subrange(0, i as int),
        decreases idx - i,
    {
        r.push(v[i].duplicate());
        i = i + 1;
        assert(r@ == v@.subrange(0, i as int));
    }
    let mut j: usize = 0;
    while j < repl.len()
        invariant
            idx < v@.len(),
            j <= repl@.len(),
            r@ == v@.subrange(0, idx as int) + repl@.subrange(0, j as int),
        decreases repl@.len() - j,
    {
        r.push(repl[j].duplicate());
        j = j + 1;
        assert(r@ == v@.subrange(0, idx as int) + repl@.subrange(0, j as int));
    }
    assert(repl@.subrange(0, repl@.len() as int) == repl@);
    let n = v.len();
    let mut k: usize = idx + 1;
    while k < v.len()
        invariant
            idx < k <= v@.len(),
            r@ == v@.subrange(0, idx as int) + repl@ + v@.subrange(idx + 1, k as int),
        decreases v@.len() - k,
    {
        r.push(v[k].duplicate());
        k = k + 1;
        assert(r@ == v@.subrange(0, idx as int) + repl@ + v@.subrange(idx + 1, k as int));
    }
    r
}

/// One alias applied to a statement (see `apply_alias`).
pub fn apply_entry(s: Vec<Token>, entry: &AliasEntry) -> (r: Vec<Token>)
    ensures
        r@ == apply_alias(s@, *entry),
{
    let mut i: usize = 0;
    while i < s.len()
        invariant
            i <= s@.len(),
            forall|j: int| 0 <= j < i ==> !same_token(#[trigger] s@[j], entry.0),
        decreases s@.len() - i,
    {
        if s[i].same(&entry.0) {
            proof {
                assert(is_first_match(s@, entry.0, i as int));
                let k = choose|k: int| is_first_match(s@, entry.0, k);
                lemma_first_match_unique(s@, entry.0, i as int, k);
            }
            return splice_tokens(&s, i, &entry.1);
        }
        i = i + 1;
    }
    s
}

/// Alias substitution of one statement: each alias of the table, in table
/// order, replaces the first token equal to its pattern, if any.
pub fn substitute_aliases(node: &Vec<Token>, config: &Config) -> (r: Vec<Token>)
    ensures
        r@ == substitute(node@, config.alias@),
{
    let mut output: Vec<Token> = Vec::new();
    let mut i: usize = 0;
    while i < node.len()
        invariant
            i <= node@.len(),
            output@ == node@.subrange(0, i as int),
        decreases node@.len() - i,
    {
        output.push(node[i].duplicate());
        i = i + 1;
        assert(output@ == node@.subrange(0, i as int));
    }
    assert(node@.subrange(0, node@.len() as int) == node@);
    let mut k: usize = 0;
    while k < config.alias.len()
        invariant
            k <= config.alias@.len(),
            output@ == substitute(node@, config.alias@.subrange(0, k as int)),
        decreases config.alias@.len() - k,
    {
        output = apply_entry(output, &config.alias[k]);
        k = k + 1;
        assert(config.alias@.subrange(0, k as int).drop_last() == config.alias@.subrange(0, k - 1));
    }
    assert(config.alias@.subrange(0, config.alias@.len() as int) == config.alias@);
    output
}

} // verus!

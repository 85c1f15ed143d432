//! Tokens, token spans, and how a run of tokens is laid out on one line.
use vstd::prelude::*;

verus! {

/// The lexical class of a token, as far as layout needs to know it.
#[derive(Clone, Copy, Debug, PartialEq, Eq, Structural)]
pub enum Kind {
    Identifier,
    Keyword,
    Literal,
    Comma,
    Dot,
    Colon,
    SemiColon,
    LeftPar,
    RightPar,
    Arrow,
    Tick,
    Other,
}

/// One lexical token: its class and its exact source text.
#[derive(Clone, Debug)]
pub struct Token {
    pub kind: Kind,
    pub text: String,
}

/// The closed range of token ids `[start_token, end_token]` a node was parsed from.
#[derive(Clone, Copy, Debug, PartialEq, Eq, Structural)]
pub struct TokenSpan {
    pub start_token: usize,
    pub end_token: usize,
}

impl TokenSpan {
    pub fn new(start_token: usize, end_token: usize) -> (r: TokenSpan)
        ensures
            r.start_token == start_token,
            r.end_token == end_token,
    {
        TokenSpan { start_token, end_token }
    }
}

/// Identifiers, keywords and literals: tokens that need a space between them.
pub open spec fn is_word(k: Kind) -> bool {
    k is Identifier || k is Keyword || k is Literal
}

/// Whether canonical layout puts one space between adjacent tokens of kinds `a` and `b`.
pub open spec fn spaced(a: Kind, b: Kind) -> bool {
    ||| a is Comma
    ||| a is Arrow
    ||| b is Arrow
    ||| (is_word(a) && is_word(b))
    ||| (a is Keyword && b is LeftPar)
}

pub fn needs_space(a: Kind, b: Kind) -> (r: bool)
    ensures
        r == spaced(a, b),
{
    let a_word = matches!(a, Kind::Identifier | Kind::Keyword | Kind::Literal);
    let b_word = matches!(b, Kind::Identifier | Kind::Keyword | Kind::Literal);
    matches!(a, Kind::Comma | Kind::Arrow) || matches!(b, Kind::Arrow) || (a_word && b_word) || (
    matches!(a, Kind::Keyword) && matches!(b, Kind::LeftPar))
}

/// The source text of token `i`.
pub open spec fn tok_text(toks: Seq<Token>, i: int) -> Seq<char> {
    toks[i].text@
}

/// What separates token `i` from token `i - 1` in canonical layout.
pub open spec fn gap(toks: Seq<Token>, i: int) -> Seq<char> {
    if spaced(toks[i - 1].kind, toks[i].kind) {
        seq![' ']
    } else {
        seq![]
    }
}

/// Tokens `s..=e` on one line, each separated from the one before by `gap`.
pub open spec fn span_text(toks: Seq<Token>, s: int, e: int) -> Seq<char>
    decreases e - s,
{
    if e <= s {
        tok_text(toks, s)
    } else {
        span_text(toks, s, e - 1) + gap(toks, e) + tok_text(toks, e)
    }
}

/// The span is non-empty and lies inside the token stream.
pub open spec fn span_in(toks: Seq<Token>, span: TokenSpan) -> bool {
    span.start_token <= span.end_token < toks.len()
}

/// The token after `i` exists and is a comma.
pub open spec fn comma_after(toks: Seq<Token>, i: int) -> bool {
    0 <= i + 1 < toks.len() && toks[i + 1].kind is Comma
}

} // verus!

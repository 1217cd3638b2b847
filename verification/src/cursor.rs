//! Looking at a token stream the way the section parsers do: positions, the
//! tokens found there, and the errors raised at a position.
use vstd::prelude::*;

use crate::tokens::{Ident, IdentModel, Spacing, SpanId, Tok, TokenTree, toks_of, lemma_toks_of_map};

verus! {

/// The outcome of a section parser that did not fail outright.
#[derive(Debug)]
pub enum ParseOutcome<T> {
    /// The input starts with such a section.
    Valid(T),
    /// The input does not start with such a section; another parser may try.
    RecoverableError,
}

/// What went wrong in a parse.
#[derive(Clone, Copy, Debug, PartialEq, Eq, Structural)]
pub enum ErrorKind {
    ExpectedIdentifier,
    KeywordNotIdentifier,
    ExpectedIn,
    ExpectedIntegerLiteral,
    ExpectedUsizeBase10,
    ExpectedDotDot,
    UnableToParseAsAnything,
    UnexpectedToken,
    GroupUnableToParse,
    RepeatGroupUnableToParse,
    NoNestRepeatGroupUnableToParse,
    ExpectedStar,
    ExpectedTokenAfterTilde,
    CannotConcatenateHash,
    ExpectedNonGroupToken,
}

/// Where an error was raised: at the end of a token stream, or at a token
/// (whose span, and whether it is a group, are recorded).
#[derive(Clone, Copy, Debug, PartialEq, Eq, Structural)]
pub enum ErrorSite {
    EndOfInput,
    Token { span: SpanId, group: bool },
}

/// A parse error: its kind and where it was raised.
#[derive(Clone, Copy, Debug, PartialEq, Eq, Structural)]
pub struct ParseError {
    pub kind: ErrorKind,
    pub site: ErrorSite,
}

/// The span of a token.
pub open spec fn tok_span(t: Tok) -> SpanId {
    match t {
        Tok::Group { span, .. } => span,
        Tok::Ident(id) => id.span,
        Tok::Punct { span, .. } => span,
        Tok::Literal { span, .. } => span,
    }
}

/// The site of position `p` of `ts`.
pub open spec fn site_at(ts: Seq<Tok>, p: nat) -> ErrorSite {
    if p < ts.len() {
        ErrorSite::Token { span: tok_span(ts[p as int]), group: ts[p as int] is Group }
    } else {
        ErrorSite::EndOfInput
    }
}

/// The error of kind `kind` raised at position `p` of `ts`.
pub open spec fn error_at(kind: ErrorKind, ts: Seq<Tok>, p: nat) -> ParseError {
    ParseError { kind, site: site_at(ts, p) }
}

/// Position `p` holds the punctuation character `c`.
pub open spec fn punct_at(ts: Seq<Tok>, p: nat, c: char) -> bool {
    &&& p < ts.len()
    &&& ts[p as int] matches Tok::Punct { ch, .. }
    &&& ch == c
}

/// Position `p` holds a group.
pub open spec fn group_at(ts: Seq<Tok>, p: nat) -> bool {
    p < ts.len() && ts[p as int] is Group
}

/// Position `p` starts a lifetime: a joint `'` followed by an identifier.
pub open spec fn lifetime_at(ts: Seq<Tok>, p: nat) -> bool {
    &&& p + 1 < ts.len()
    &&& ts[p as int] matches Tok::Punct { ch, spacing, .. }
    &&& ch == '\''
    &&& spacing == Spacing::Joint
    &&& ts[p + 1int] is Ident
}

/// The position after the token at `p`, a lifetime counting as one token.
pub open spec fn after_one(ts: Seq<Tok>, p: nat) -> nat {
    if lifetime_at(ts, p) {
        p + 2
    } else {
        p + 1
    }
}

/// The token after the one at `p` is the punctuation character `c`.
pub open spec fn punct_second(ts: Seq<Tok>, p: nat, c: char) -> bool {
    p < ts.len() && punct_at(ts, after_one(ts, p), c)
}

/// Two identifiers are the same identifier.
pub open spec fn same_ident(a: IdentModel, b: IdentModel) -> bool {
    a.name == b.name && a.raw == b.raw
}

/// Position `p` holds the identifier `var`.
pub open spec fn ident_at(ts: Seq<Tok>, p: nat, var: IdentModel) -> bool {
    &&& p < ts.len()
    &&& ts[p as int] matches Tok::Ident(id)
    &&& same_ident(id, var)
}

/// The text of an identifier as written, with `r#` in front of a raw one.
pub open spec fn ident_text(id: IdentModel) -> Seq<char> {
    if id.raw {
        seq!['r', '#'] + id.name
    } else {
        id.name
    }
}

/// Two character sequences are equal.
pub fn chars_eq(a: &Vec<char>, b: &Vec<char>) -> (r: bool)
    ensures
        r == (a@ == b@),
{
    if a.len() != b.len() {
        return false;
    }
    let mut i: usize = 0;
    while i < a.len()
        invariant
            i <= a.len(),
            a.len() == b.len(),
            forall|j: int| 0 <= j < i ==> a@[j] == b@[j],
        decreases a.len() - i,
    {
        if a[i] != b[i] {
            return false;
        }
        i = i + 1;
    }
    assert(a@ =~= b@);
    true
}

/// The span of a token.
pub fn span_of(t: &TokenTree) -> (r: SpanId)
    ensures
        r == tok_span(t@),
{
    match t {
        TokenTree::Group { span, .. } => *span,
        TokenTree::Ident(id) => id.span,
        TokenTree::Punct { span, .. } => *span,
        TokenTree::Literal { span, .. } => *span,
    }
}

/// The error of kind `kind` raised at position `p` of `input`.
pub fn error_here(kind: ErrorKind, input: &Vec<TokenTree>, p: usize) -> (r: ParseError)
    ensures
        r == error_at(kind, toks_of(input@), p as nat),
{
    proof {
        lemma_toks_of_map(input@);
    }
    if p < input.len() {
        let group = match &input[p] {
            TokenTree::Group { .. } => true,
            _ => false,
        };
        ParseError { kind, site: ErrorSite::Token { span: span_of(&input[p]), group } }
    } else {
        ParseError { kind, site: ErrorSite::EndOfInput }
    }
}

/// Whether position `p` of `input` holds the punctuation character `c`.
pub fn is_punct(input: &Vec<TokenTree>, p: usize, c: char) -> (r: bool)
    ensures
        r == punct_at(toks_of(input@), p as nat, c),
{
    proof {
        lemma_toks_of_map(input@);
    }
    if p < input.len() {
        match &input[p] {
            TokenTree::Punct { ch, .. } => *ch == c,
            _ => false,
        }
    } else {
        false
    }
}

/// Whether position `p` of `input` holds a group.
pub fn is_group(input: &Vec<TokenTree>, p: usize) -> (r: bool)
    ensures
        r == group_at(toks_of(input@), p as nat),
{
    proof {
        lemma_toks_of_map(input@);
    }
    if p < input.len() {
        match &input[p] {
            TokenTree::Group { .. } => true,
            _ => false,
        }
    } else {
        false
    }
}

/// The position after the token at `p < input.len()`, a lifetime counting as one token.
pub fn skip_one(input: &Vec<TokenTree>, p: usize) -> (r: usize)
    requires
        p < input.len(),
    ensures
        r == after_one(toks_of(input@), p as nat),
{
    proof {
        lemma_toks_of_map(input@);
    }
    if p + 1 < input.len() {
        let lifetime = match &input[p] {
            TokenTree::Punct { ch, spacing, .. } => *ch == '\'' && *spacing == Spacing::Joint,
            _ => false,
        };
        let next_ident = match &input[p + 1] {
            TokenTree::Ident(_) => true,
            _ => false,
        };
        if lifetime && next_ident {
            return p + 2;
        }
    }
    p + 1
}

/// Whether the token after the one at `p` is the punctuation character `c`.
pub fn is_punct_second(input: &Vec<TokenTree>, p: usize, c: char) -> (r: bool)
    ensures
        r == punct_second(toks_of(input@), p as nat, c),
{
    proof {
        lemma_toks_of_map(input@);
    }
    if p < input.len() {
        let q = skip_one(input, p);
        is_punct(input, q, c)
    } else {
        false
    }
}

/// Two identifiers are the same identifier.
pub fn ident_eq(a: &Ident, b: &Ident) -> (r: bool)
    ensures
        r == same_ident(a@, b@),
{
    a.raw == b.raw && chars_eq(&a.name, &b.name)
}

/// Whether position `p` of `input` holds the identifier `var`.
pub fn is_ident(input: &Vec<TokenTree>, p: usize, var: &Ident) -> (r: bool)
    ensures
        r == ident_at(toks_of(input@), p as nat, var@),
{
    proof {
        lemma_toks_of_map(input@);
    }
    if p < input.len() {
        match &input[p] {
            TokenTree::Ident(id) => ident_eq(id, var),
            _ => false,
        }
    } else {
        false
    }
}

} // verus!

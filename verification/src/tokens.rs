//! The token model the library reads and writes: token trees as plain values.
use vstd::prelude::*;

verus! {

/// The delimiter of a token group.
#[derive(Clone, Copy, Debug, PartialEq, Eq, Structural)]
pub enum Delimiter {
    Parenthesis,
    Brace,
    Bracket,
}

/// Whether a punctuation character is immediately followed by another one.
#[derive(Clone, Copy, Debug, PartialEq, Eq, Structural)]
pub enum Spacing {
    Alone,
    Joint,
}

/// Where a token comes from: the macro's call site, or an opaque handle that
/// the caller of the library uses to find the token's span in its input.
#[derive(Clone, Copy, Debug, PartialEq, Eq, Structural)]
pub enum SpanId {
    CallSite,
    Source(usize),
}

/// An identifier: its name, whether it was written as a raw identifier
/// (`r#name`), and its span.
#[derive(Debug)]
pub struct Ident {
    pub name: Vec<char>,
    pub raw: bool,
    pub span: SpanId,
}

/// A token tree.
#[derive(Debug)]
pub enum TokenTree {
    Group { delimiter: Delimiter, stream: Vec<TokenTree>, span: SpanId },
    Ident(Ident),
    Punct { ch: char, spacing: Spacing, span: SpanId },
    Literal { text: Vec<char>, span: SpanId },
}

/// The mathematical model of an identifier.
pub struct IdentModel {
    pub name: Seq<char>,
    pub raw: bool,
    pub span: SpanId,
}

/// The mathematical model of a token tree.
pub enum Tok {
    Group { delimiter: Delimiter, stream: Seq<Tok>, span: SpanId },
    Ident(IdentModel),
    Punct { ch: char, spacing: Spacing, span: SpanId },
    Literal { text: Seq<char>, span: SpanId },
}

impl View for Ident {
    type V = IdentModel;

    open spec fn view(&self) -> IdentModel {
        IdentModel { name: self.name@, raw: self.raw, span: self.span }
    }
}

/// The model of one token tree.
pub open spec fn tok_of(t: TokenTree) -> Tok
    decreases t, 0nat,
{
    match t {
        TokenTree::Group { delimiter, stream, span } => {
            proof {
                assert(decreases_to!(stream => stream@));
            }
            Tok::Group { delimiter, stream: toks_of(stream@), span }
        },
        TokenTree::Ident(id) => Tok::Ident(id@),
        TokenTree::Punct { ch, spacing, span } => Tok::Punct { ch, spacing, span },
        TokenTree::Literal { text, span } => Tok::Literal { text: text@, span },
    }
}

/// The model of a sequence of token trees, element by element.
pub open spec fn toks_of(s: Seq<TokenTree>) -> Seq<Tok>
    decreases s, 1nat,
{
    if s.len() == 0 {
        Seq::empty()
    } else {
        seq![tok_of(s[0])] + toks_of(s.drop_first())
    }
}

impl View for TokenTree {
    type V = Tok;

    open spec fn view(&self) -> Tok {
        tok_of(*self)
    }
}

pub proof fn lemma_toks_of_len(s: Seq<TokenTree>)
    ensures
        toks_of(s).len() == s.len(),
    decreases s.len(),
{
    if s.len() > 0 {
        lemma_toks_of_len(s.drop_first());
    }
}

pub proof fn lemma_toks_of_index(s: Seq<TokenTree>, i: int)
    requires
        0 <= i < s.len(),
    ensures
        toks_of(s).len() == s.len(),
        toks_of(s)[i] == tok_of(s[i]),
    decreases s.len(),
{
    lemma_toks_of_len(s);
    if i > 0 {
        lemma_toks_of_index(s.drop_first(), i - 1);
    }
}

/// The model of a sequence is the model of each of its elements.
pub proof fn lemma_toks_of_map(s: Seq<TokenTree>)
    ensures
        toks_of(s) == s.map_values(|t: TokenTree| tok_of(t)),
{
    lemma_toks_of_len(s);
    assert forall|i: int| 0 <= i < s.len() implies toks_of(s)[i] == tok_of(s[i]) by {
        lemma_toks_of_index(s, i);
    }
    assert(toks_of(s) =~= s.map_values(|t: TokenTree| tok_of(t)));
}

/// Appending a token appends its model.
pub proof fn lemma_toks_of_push(s: Seq<TokenTree>, t: TokenTree)
    ensures
        toks_of(s.push(t)) == toks_of(s).push(tok_of(t)),
{
    lemma_toks_of_map(s);
    lemma_toks_of_map(s.push(t));
    assert(toks_of(s.push(t)) =~= toks_of(s).push(tok_of(t)));
}

/// The model of a concatenation is the concatenation of the models.
pub proof fn lemma_toks_of_add(a: Seq<TokenTree>, b: Seq<TokenTree>)
    ensures
        toks_of(a + b) == toks_of(a) + toks_of(b),
{
    lemma_toks_of_map(a);
    lemma_toks_of_map(b);
    lemma_toks_of_map(a + b);
    assert(toks_of(a + b) =~= toks_of(a) + toks_of(b));
}

/// Copies a sequence of characters.
pub fn copy_chars(v: &Vec<char>) -> (r: Vec<char>)
    ensures
        r@ == v@,
{
    let mut r: Vec<char> = Vec::new();
    let mut i: usize = 0;
    while i < v.len()
        invariant
            i <= v.len(),
            r@ == v@.subrange(0, i as int),
        decreases v.len() - i,
    {
        r.push(v[i]);
        i = i + 1;
    }
    assert(r@ =~= v@);
    r
}

impl Ident {
    /// A copy of this identifier.
    pub fn duplicate(&self) -> (r: Ident)
        ensures
            r@ == self@,
    {
        Ident { name: copy_chars(&self.name), raw: self.raw, span: self.span }
    }
}

impl TokenTree {
    /// A deep copy of this token tree.
    pub fn duplicate(&self) -> (r: TokenTree)
        ensures
            r@ == self@,
        decreases self, 0nat,
    {
        match self {
            TokenTree::Group { delimiter, stream, span } => {
                proof {
                    assert(decreases_to!(stream => stream@));
                }
                let copied = duplicate_tokens(stream);
                TokenTree::Group { delimiter: *delimiter, stream: copied, span: *span }
            },
            TokenTree::Ident(id) => TokenTree::Ident(id.duplicate()),
            TokenTree::Punct { ch, spacing, span } => TokenTree::Punct {
                ch: *ch,
                spacing: *spacing,
                span: *span,
            },
            TokenTree::Literal { text, span } => TokenTree::Literal {
                text: copy_chars(text),
                span: *span,
            },
        }
    }
}

/// A deep copy of a sequence of token trees.
pub fn duplicate_tokens(v: &Vec<TokenTree>) -> (r: Vec<TokenTree>)
    ensures
        toks_of(r@) == toks_of(v@),
    decreases v@, 1nat,
{
    let mut r: Vec<TokenTree> = Vec::new();
    let mut i: usize = 0;
    while i < v.len()
        invariant
            i <= v.len(),
            r@.len() == i,
            forall|j: int| 0 <= j < i ==> tok_of(#[trigger] r@[j]) == tok_of(v@[j]),
        decreases v.len() - i,
    {
        proof {
            assert(decreases_to!(v@ => v@[i as int]));
        }
        let t = v[i].duplicate();
        r.push(t);
        i = i + 1;
    }
    proof {
        lemma_toks_of_map(r@);
        lemma_toks_of_map(v@);
        assert(r@.map_values(|t: TokenTree| tok_of(t)) =~= v@.map_values(|t: TokenTree| tok_of(t)));
    }
    r
}

} // verus!

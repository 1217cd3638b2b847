//! Expanding sections into tokens.
use vstd::prelude::*;

use crate::context::{ExpandContext, ExpandModel};
use crate::cursor::{ident_eq, ident_text, same_ident};
use crate::sections::{
    BaseNestRepeatGroup, BaseNoNestRepeatGroup, ConcatSection, Group, IdentityGroup,
    IdentitySection, NoNestRepeatGroup, RepeatGroup, ReplaceSection, Section, SectionTree,
    lemma_sects_of_map, sect_of, sects_of,
};
use crate::syntax::{decimal_text, usize_unsuffixed_text};
use crate::tokens::{
    Ident, IdentModel, SpanId, Tok, TokenTree, duplicate_tokens, lemma_toks_of_add,
    lemma_toks_of_map, lemma_toks_of_push, tok_of, toks_of,
};

verus! {

/// The text a token is written as, for a token that is no group.
pub open spec fn token_text(t: Tok) -> Seq<char> {
    match t {
        Tok::Ident(id) => ident_text(id),
        Tok::Punct { ch, .. } => seq![ch],
        Tok::Literal { text, .. } => text,
        Tok::Group { .. } => Seq::empty(),
    }
}

/// The token that stands in an expansion for `t`: the target for the loop
/// variable, `t` itself otherwise.
pub open spec fn substitute(t: Tok, cx: ExpandModel) -> Tok {
    if t matches Tok::Ident(id) && same_ident(id, cx.var) {
        cx.target
    } else {
        t
    }
}

/// The text of the identifier a concatenation of `ts` expands to.
pub open spec fn concat_text(ts: Seq<Tok>, cx: ExpandModel) -> Seq<char>
    decreases ts.len(),
{
    if ts.len() == 0 {
        Seq::empty()
    } else {
        token_text(substitute(ts[0], cx)) + concat_text(ts.drop_first(), cx)
    }
}

/// The unsuffixed integer literal `n`.
pub open spec fn literal_token(n: usize) -> Tok {
    Tok::Literal { text: decimal_text(n as nat), span: SpanId::CallSite }
}

/// The context `cx` with the loop variable standing for `n`.
pub open spec fn with_value(cx: ExpandModel, n: usize) -> ExpandModel {
    ExpandModel { target: literal_token(n), ..cx }
}

/// The expansion of section `s` in context `cx`.
pub open spec fn expand(s: Section, cx: ExpandModel) -> Seq<Tok>
    decreases s, 0nat, 0nat,
{
    match s {
        Section::Identity { tokens } => tokens,
        Section::Concat { tokens, span } => seq![
            Tok::Ident(IdentModel { name: concat_text(tokens, cx), raw: false, span }),
        ],
        Section::Replace => seq![cx.target],
        Section::Group { sections, delimiter, span } => seq![
            Tok::Group { delimiter, stream: expand_all(sections, cx), span },
        ],
        Section::IdentityGroup { sections, delimiter, span } => seq![
            Tok::Group { delimiter, stream: expand_all(sections, cx), span },
        ],
        Section::RepeatGroup { sections } => expand_repeat(sections, cx, cx.start as nat),
        Section::BaseNoNestRepeatGroup { sections } => expand_repeat(
            sections,
            cx,
            cx.start as nat,
        ),
        Section::NoNestRepeatGroup { sections } => expand_all(sections, cx),
        Section::BaseNestRepeatGroup { sections } => expand_all(sections, cx),
    }
}

/// The expansions of the sections of `ss`, one after the other.
pub open spec fn expand_all(ss: Seq<Section>, cx: ExpandModel) -> Seq<Tok>
    decreases ss, 1nat, 0nat,
{
    if ss.len() == 0 {
        Seq::empty()
    } else {
        expand(ss[0], cx) + expand_all(ss.drop_first(), cx)
    }
}

/// The expansions of `ss` with the loop variable standing for `n`, `n + 1`,
/// ... up to the end of the range (exclusive).
pub open spec fn expand_repeat(ss: Seq<Section>, cx: ExpandModel, n: nat) -> Seq<Tok>
    decreases ss, 2nat, cx.end - n,
{
    if n >= cx.end {
        Seq::empty()
    } else {
        expand_all(ss, with_value(cx, n as usize)) + expand_repeat(ss, cx, n + 1)
    }
}

/// The unsuffixed integer literal `n`, spanned at the call site.
pub fn literal_tree(n: usize) -> (r: TokenTree)
    ensures
        r@ == literal_token(n),
{
    TokenTree::Literal { text: usize_unsuffixed_text(n), span: SpanId::CallSite }
}

/// The context `ctx` with the loop variable standing for `n`.
fn context_with_value(ctx: &ExpandContext, n: usize) -> (r: ExpandContext)
    ensures
        r@ == with_value(ctx@, n),
{
    ExpandContext {
        target: literal_tree(n),
        iter_ident: ctx.iter_ident.duplicate(),
        start: ctx.start,
        end: ctx.end,
    }
}

/// Appends the characters of `chars` to `out`.
fn push_chars(out: &mut Vec<char>, chars: &Vec<char>)
    ensures
        final(out)@ == old(out)@ + chars@,
{
    let mut i: usize = 0;
    while i < chars.len()
        invariant
            i <= chars.len(),
            out@ == old(out)@ + chars@.subrange(0, i as int),
        decreases chars.len() - i,
    {
        out.push(chars[i]);
        i = i + 1;
        assert(out@ =~= old(out)@ + chars@.subrange(0, i as int));
    }
    assert(chars@.subrange(0, i as int) =~= chars@);
}

/// Appends the text token `t` is written as to `out`.
fn push_plain_text(out: &mut Vec<char>, t: &TokenTree)
    ensures
        final(out)@ == old(out)@ + token_text(t@),
        t@ matches Tok::Literal { text, .. } ==> final(out)@ == old(out)@ + text,
{
    match t {
        TokenTree::Ident(id) => {
            let ghost before = out@;
            if id.raw {
                out.push('r');
                out.push('#');
            }
            push_chars(out, &id.name);
            assert(out@ =~= before + ident_text(id@));
        },
        TokenTree::Punct { ch, .. } => {
            out.push(*ch);
        },
        TokenTree::Literal { text, .. } => {
            push_chars(out, text);
        },
        TokenTree::Group { .. } => {
            assert(out@ =~= old(out)@ + Seq::<char>::empty());
        },
    }
}

/// Appends the text of token `t`, with the loop variable replaced, to `out`.
fn push_text(out: &mut Vec<char>, t: &TokenTree, ctx: &ExpandContext)
    ensures
        final(out)@ == old(out)@ + token_text(substitute(t@, ctx@)),
{
    let replaced = match t {
        TokenTree::Ident(id) => ident_eq(id, &ctx.iter_ident),
        _ => false,
    };
    if replaced {
        push_plain_text(out, &ctx.target);
    } else {
        push_plain_text(out, t);
    }
}

impl IdentitySection {
    /// The tokens of the section, unchanged.
    pub fn expand(&self, _ctx: &ExpandContext) -> (r: Vec<TokenTree>)
        ensures
            toks_of(r@) == expand(self@, _ctx@),
    {
        duplicate_tokens(&self.tokens)
    }
}

impl ConcatSection {
    /// The identifier spelled by the section's tokens, the loop variable
    /// replaced, spanned where the section starts.  Whether the spelled name is
    /// an identifier is checked by `seq_tree::seq` over the whole expansion,
    /// which refuses it with `SeqError::NotAnIdentifier`.
    pub fn expand(&self, ctx: &ExpandContext) -> (r: Vec<TokenTree>)
        ensures
            toks_of(r@) == expand(self@, ctx@),
    {
        let ghost ts = toks_of(self.tokens@);
        proof {
            lemma_toks_of_map(self.tokens@);
        }
        let mut concat: Vec<char> = Vec::new();
        let mut i: usize = 0;
        assert(ts.skip(0) =~= ts);
        assert(concat@ + concat_text(ts, ctx@) =~= concat_text(ts, ctx@));
        while i < self.tokens.len()
            invariant
                i <= self.tokens.len(),
                ts == toks_of(self.tokens@),
                ts == self.tokens@.map_values(|t: TokenTree| tok_of(t)),
                concat_text(ts, ctx@) == concat@ + concat_text(ts.skip(i as int), ctx@),
            decreases self.tokens.len() - i,
        {
            let ghost before = concat@;
            push_text(&mut concat, &self.tokens[i], ctx);
            proof {
                assert(ts.skip(i as int).drop_first() =~= ts.skip(i + 1));
                assert(ts.skip(i as int)[0] == ts[i as int]);
                assert(before + (token_text(substitute(ts[i as int], ctx@)) + concat_text(
                    ts.skip(i + 1),
                    ctx@,
                )) =~= concat@ + concat_text(ts.skip(i + 1), ctx@));
            }
            i = i + 1;
        }
        assert(ts.skip(i as int).len() == 0);
        assert(concat@ + Seq::<char>::empty() =~= concat@);
        let mut r: Vec<TokenTree> = Vec::new();
        let ident = TokenTree::Ident(Ident { name: concat, raw: false, span: self.src_span });
        proof {
            lemma_toks_of_push(r@, ident);
            assert(toks_of(r@) =~= Seq::<Tok>::empty());
        }
        r.push(ident);
        r
    }
}

impl ReplaceSection {
    /// The token the loop variable stands for.
    pub fn expand(&self, ctx: &ExpandContext) -> (r: Vec<TokenTree>)
        ensures
            toks_of(r@) == expand(self@, ctx@),
    {
        let mut r: Vec<TokenTree> = Vec::new();
        let t = ctx.target.duplicate();
        proof {
            lemma_toks_of_push(r@, t);
            assert(toks_of(r@) =~= Seq::<Tok>::empty());
        }
        r.push(t);
        r
    }
}

/// The expansions of `sections`, one after the other.
pub(crate) fn expand_sections(sections: &Vec<SectionTree>, ctx: &ExpandContext) -> (r: Vec<TokenTree>)
    ensures
        toks_of(r@) == expand_all(sects_of(sections@), ctx@),
    decreases sections@, 1nat,
{
    let ghost ss = sects_of(sections@);
    proof {
        lemma_sects_of_map(sections@);
    }
    let mut out: Vec<TokenTree> = Vec::new();
    let mut i: usize = 0;
    assert(ss.skip(0) =~= ss);
    assert(toks_of(out@) =~= Seq::<Tok>::empty());
    assert(Seq::<Tok>::empty() + expand_all(ss, ctx@) =~= expand_all(ss, ctx@));
    while i < sections.len()
        invariant
            i <= sections.len(),
            ss == sects_of(sections@),
            ss == sections@.map_values(|t: SectionTree| sect_of(t)),
            expand_all(ss, ctx@) == toks_of(out@) + expand_all(ss.skip(i as int), ctx@),
        decreases sections.len() - i,
    {
        proof {
            assert(decreases_to!(sections@ => sections@[i as int]));
        }
        let mut piece = sections[i].expand(ctx);
        let ghost before = out@;
        let ghost p = piece@;
        out.append(&mut piece);
        proof {
            lemma_toks_of_add(before, p);
            assert(ss.skip(i as int).drop_first() =~= ss.skip(i + 1));
            assert(ss.skip(i as int)[0] == ss[i as int]);
            assert(toks_of(before) + (toks_of(p) + expand_all(ss.skip(i + 1), ctx@)) =~= toks_of(
                out@,
            ) + expand_all(ss.skip(i + 1), ctx@));
        }
        i = i + 1;
    }
    assert(ss.skip(i as int).len() == 0);
    assert(toks_of(out@) + Seq::<Tok>::empty() =~= toks_of(out@));
    out
}

/// The expansions of `sections` once per value of the loop variable, in order.
pub(crate) fn expand_repeat_sections(sections: &Vec<SectionTree>, ctx: &ExpandContext) -> (r: Vec<TokenTree>)
    ensures
        toks_of(r@) == expand_repeat(sects_of(sections@), ctx@, ctx.start as nat),
    decreases sections@, 2nat,
{
    let ghost ss = sects_of(sections@);
    let mut out: Vec<TokenTree> = Vec::new();
    let mut n: usize = ctx.start;
    assert(toks_of(out@) =~= Seq::<Tok>::empty());
    assert(Seq::<Tok>::empty() + expand_repeat(ss, ctx@, n as nat) =~= expand_repeat(
        ss,
        ctx@,
        n as nat,
    ));
    while n < ctx.end
        invariant
            ctx.start <= n || ctx.end <= ctx.start,
            ss == sects_of(sections@),
            expand_repeat(ss, ctx@, ctx.start as nat) == toks_of(out@) + expand_repeat(
                ss,
                ctx@,
                n as nat,
            ),
        decreases ctx.end - n,
    {
        let inner = context_with_value(ctx, n);
        let mut piece = expand_sections(sections, &inner);
        let ghost before = out@;
        let ghost p = piece@;
        out.append(&mut piece);
        proof {
            lemma_toks_of_add(before, p);
            assert(toks_of(before) + (toks_of(p) + expand_repeat(ss, ctx@, (n + 1) as nat))
                =~= toks_of(out@) + expand_repeat(ss, ctx@, (n + 1) as nat));
        }
        n = n + 1;
    }
    assert(toks_of(out@) + Seq::<Tok>::empty() =~= toks_of(out@));
    out
}

/// A one-token sequence: the group `delimiter`, `stream`, spanned at `span`.
fn group_of(delimiter: crate::tokens::Delimiter, stream: Vec<TokenTree>, span: SpanId) -> (r: Vec<
    TokenTree,
>)
    ensures
        toks_of(r@) == seq![Tok::Group { delimiter, stream: toks_of(stream@), span }],
{
    let mut r: Vec<TokenTree> = Vec::new();
    let g = TokenTree::Group { delimiter, stream, span };
    proof {
        lemma_toks_of_push(r@, g);
        assert(toks_of(r@) =~= Seq::<Tok>::empty());
    }
    r.push(g);
    r
}

impl Group {
    /// The group, its contents expanded.
    pub fn expand(&self, ctx: &ExpandContext) -> (r: Vec<TokenTree>)
        ensures
            toks_of(r@) == expand(self@, ctx@),
        decreases self, 0nat,
    {
        let stream = expand_sections(&self.sections, ctx);
        group_of(self.delimiter, stream, self.span)
    }
}

impl IdentityGroup {
    /// The group, its contents expanded.
    pub fn expand(&self, ctx: &ExpandContext) -> (r: Vec<TokenTree>)
        ensures
            toks_of(r@) == expand(self@, ctx@),
        decreases self, 0nat,
    {
        let stream = expand_sections(&self.sections, ctx);
        group_of(self.delimiter, stream, self.span)
    }
}

impl RepeatGroup {
    /// The contents, once per value of the loop variable.
    pub fn expand(&self, ctx: &ExpandContext) -> (r: Vec<TokenTree>)
        ensures
            toks_of(r@) == expand(self@, ctx@),
        decreases self, 0nat,
    {
        expand_repeat_sections(&self.sections, ctx)
    }
}

impl BaseNoNestRepeatGroup {
    /// The contents, once per value of the loop variable.
    pub fn expand(&self, ctx: &ExpandContext) -> (r: Vec<TokenTree>)
        ensures
            toks_of(r@) == expand(self@, ctx@),
        decreases self, 0nat,
    {
        expand_repeat_sections(&self.sections, ctx)
    }
}

impl NoNestRepeatGroup {
    /// The contents expanded, without the group's delimiters.
    pub fn expand(&self, ctx: &ExpandContext) -> (r: Vec<TokenTree>)
        ensures
            toks_of(r@) == expand(self@, ctx@),
        decreases self, 0nat,
    {
        expand_sections(&self.sections, ctx)
    }
}

impl BaseNestRepeatGroup {
    /// The contents expanded, without the group's delimiters.
    pub fn expand(&self, ctx: &ExpandContext) -> (r: Vec<TokenTree>)
        ensures
            toks_of(r@) == expand(self@, ctx@),
        decreases self, 0nat,
    {
        expand_sections(&self.sections, ctx)
    }
}

impl SectionTree {
    /// The expansion of the section in context `ctx`.
    pub fn expand(&self, ctx: &ExpandContext) -> (r: Vec<TokenTree>)
        ensures
            toks_of(r@) == expand(self@, ctx@),
        decreases self, 1nat,
    {
        match self {
            SectionTree::Identity(sect) => sect.expand(ctx),
            SectionTree::Concat(sect) => sect.expand(ctx),
            SectionTree::Replace(sect) => sect.expand(ctx),
            SectionTree::Group(sect) => sect.expand(ctx),
            SectionTree::RepeatGroup(sect) => sect.expand(ctx),
            SectionTree::NoNestRepeatGroup(sect) => sect.expand(ctx),
            SectionTree::IdentityGroup(sect) => sect.expand(ctx),
            SectionTree::BaseNestRepeatGroup(sect) => sect.expand(ctx),
            SectionTree::BaseNoNestRepeatGroup(sect) => sect.expand(ctx),
        }
    }
}

} // verus!

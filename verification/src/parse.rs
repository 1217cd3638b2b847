//! Splitting a macro body into sections.
//!
//! Each section parser looks at a position of a token stream and either
//! recognises its section there (consuming at least one token), declines so
//! that another parser may try, or fails.  A group's contents are parsed in
//! rounds: each round offers the position to a fixed list of parsers in turn,
//! and a round that consumes nothing ends the group.
use vstd::prelude::*;

use crate::context::ParseContext;
use crate::cursor::{
    ErrorKind, ParseError, ParseOutcome, error_at, error_here, group_at, ident_at, is_group,
    is_ident, is_punct, is_punct_second, punct_at, punct_second, span_of, tok_span,
};
use crate::sections::{
    BaseNestRepeatGroup, BaseNoNestRepeatGroup, ConcatSection, Group, IdentityGroup,
    IdentitySection, NoNestRepeatGroup, RepeatGroup, ReplaceSection, Section, SectionTree,
    lemma_sects_of_push, sects_of,
};
use crate::tokens::{
    Delimiter, IdentModel, Tok, TokenTree, lemma_toks_of_map, lemma_toks_of_push, toks_of,
};

verus! {

/// The kinds of section parsers; a kind also names the list of parsers used
/// inside a section of that kind.
#[derive(Clone, Copy, Debug, PartialEq, Eq, Structural)]
pub enum PartKind {
    Identity,
    Concat,
    Replace,
    Group,
    RepeatGroup,
    NoNestRepeatGroup,
    IdentityGroup,
    BaseNestRepeatGroup,
    BaseNoNestRepeatGroup,
}

/// The parsers tried, in order, inside a section of kind `c`.
pub open spec fn parts_of(c: PartKind) -> Seq<PartKind> {
    match c {
        PartKind::Group => seq![
            PartKind::Identity,
            PartKind::Concat,
            PartKind::Replace,
            PartKind::RepeatGroup,
            PartKind::Group,
        ],
        PartKind::RepeatGroup => seq![
            PartKind::Identity,
            PartKind::Concat,
            PartKind::Replace,
            PartKind::NoNestRepeatGroup,
        ],
        PartKind::BaseNoNestRepeatGroup => seq![
            PartKind::Identity,
            PartKind::Concat,
            PartKind::Replace,
            PartKind::Group,
        ],
        PartKind::IdentityGroup => seq![
            PartKind::Identity,
            PartKind::RepeatGroup,
            PartKind::IdentityGroup,
        ],
        PartKind::BaseNestRepeatGroup => seq![
            PartKind::Identity,
            PartKind::IdentityGroup,
            PartKind::RepeatGroup,
        ],
        _ => seq![
            PartKind::Identity,
            PartKind::Concat,
            PartKind::Replace,
            PartKind::NoNestRepeatGroup,
        ],
    }
}

/// The number of tokens of `ts` from position `q` on.
pub open spec fn left(ts: Seq<Tok>, q: nat) -> nat {
    if q < ts.len() {
        (ts.len() - q) as nat
    } else {
        0
    }
}

/// The result of a section parser in the model: a section and the number of
/// tokens it consumed, a refusal, or an error.
pub type PartResult = Result<ParseOutcome<(Section, nat)>, ParseError>;

/// The result of parsing a group's contents: its sections, or `Abandoned`
/// where the group kind gives up quietly on contents it cannot read.
pub enum BodyOutcome {
    Sections(Seq<Section>),
    Abandoned,
}

/// A run of plain tokens ends at the end of input, before a token followed by
/// `~`, at `#`, at a group and at the loop variable.
pub open spec fn identity_stop(ts: Seq<Tok>, p: nat, var: IdentModel) -> bool {
    ||| p >= ts.len()
    ||| punct_second(ts, p, '~')
    ||| punct_at(ts, p, '#')
    ||| group_at(ts, p)
    ||| ident_at(ts, p, var)
}

/// The length of the run of plain tokens from `p`.
pub open spec fn identity_run(ts: Seq<Tok>, p: nat, var: IdentModel) -> nat
    decreases ts.len() - p,
{
    if identity_stop(ts, p, var) {
        0
    } else {
        1 + identity_run(ts, p + 1, var)
    }
}

/// The plain-token section at `p`.
pub open spec fn parse_identity(ts: Seq<Tok>, p: nat, var: IdentModel) -> PartResult {
    if identity_stop(ts, p, var) {
        Ok(ParseOutcome::RecoverableError)
    } else {
        let n = identity_run(ts, p, var);
        Ok(ParseOutcome::Valid((Section::Identity { tokens: ts.subrange(p as int, (p + n) as int) }, n)))
    }
}

/// A concatenation starts at a token that is no `#` and no group and is
/// followed by `~`.
pub open spec fn concat_start(ts: Seq<Tok>, p: nat) -> bool {
    &&& p < ts.len()
    &&& !punct_at(ts, p, '#')
    &&& punct_second(ts, p, '~')
    &&& !group_at(ts, p)
}

/// The `~ token` links of a concatenation from `q`: the tokens joined, and
/// the number of tokens consumed.
pub open spec fn concat_links(ts: Seq<Tok>, q: nat) -> Result<(Seq<Tok>, nat), ParseError>
    decreases ts.len() - q,
{
    if !punct_at(ts, q, '~') {
        Ok((Seq::empty(), 0))
    } else if q + 1 >= ts.len() {
        Err(error_at(ErrorKind::ExpectedTokenAfterTilde, ts, q))
    } else if punct_at(ts, q + 1, '#') {
        Err(error_at(ErrorKind::CannotConcatenateHash, ts, q + 1))
    } else if group_at(ts, q + 1) {
        Err(error_at(ErrorKind::ExpectedNonGroupToken, ts, q + 1))
    } else {
        match concat_links(ts, q + 2) {
            Ok((rest, n)) => Ok((seq![ts[q + 1int]] + rest, n + 2)),
            Err(e) => Err(e),
        }
    }
}

/// The concatenation section at `p`.
pub open spec fn parse_concat(ts: Seq<Tok>, p: nat) -> PartResult {
    if !concat_start(ts, p) {
        Ok(ParseOutcome::RecoverableError)
    } else {
        match concat_links(ts, p + 1) {
            Ok((links, n)) => Ok(
                ParseOutcome::Valid(
                    (
                        Section::Concat {
                            tokens: seq![ts[p as int]] + links,
                            span: tok_span(ts[p as int]),
                        },
                        n + 1,
                    ),
                ),
            ),
            Err(e) => Err(e),
        }
    }
}

/// The loop-variable section at `p`: the loop variable, not followed by `~`.
pub open spec fn parse_replace(ts: Seq<Tok>, p: nat, var: IdentModel) -> PartResult {
    if p >= ts.len() || punct_at(ts, p, '#') || punct_second(ts, p, '~') || !ident_at(ts, p, var) {
        Ok(ParseOutcome::RecoverableError)
    } else {
        Ok(ParseOutcome::Valid((Section::Replace, 1)))
    }
}

/// How a round that consumes nothing ends the contents of a section of kind `c`.
pub open spec fn body_stuck(c: PartKind, ts: Seq<Tok>, q: nat) -> Result<BodyOutcome, ParseError> {
    match c {
        PartKind::RepeatGroup => Err(error_at(ErrorKind::RepeatGroupUnableToParse, ts, q)),
        PartKind::NoNestRepeatGroup => Err(
            error_at(ErrorKind::NoNestRepeatGroupUnableToParse, ts, q),
        ),
        PartKind::IdentityGroup => Ok(BodyOutcome::Abandoned),
        PartKind::BaseNestRepeatGroup => Ok(BodyOutcome::Abandoned),
        _ => Err(error_at(ErrorKind::GroupUnableToParse, ts, q)),
    }
}

/// The contents of a section of kind `c`, read from position `q` of `ts`.
pub open spec fn parse_body(ts: Seq<Tok>, q: nat, c: PartKind, var: IdentModel) -> Result<
    BodyOutcome,
    ParseError,
>
    decreases ts, left(ts, q), 20nat,
{
    if q >= ts.len() {
        Ok(BodyOutcome::Sections(Seq::empty()))
    } else {
        match parse_round(ts, q, c, 0, var) {
            Err(e) => Err(e),
            Ok((secs, n)) => if n == 0 {
                body_stuck(c, ts, q)
            } else {
                match parse_body(ts, q + n, c, var) {
                    Ok(BodyOutcome::Sections(rest)) => Ok(BodyOutcome::Sections(secs + rest)),
                    other => other,
                }
            },
        }
    }
}

/// One round from position `q`: the parsers of `c` from the `i`-th on, each
/// tried where the previous one left off.  The sections found and the number
/// of tokens consumed.
pub open spec fn parse_round(ts: Seq<Tok>, q: nat, c: PartKind, i: nat, var: IdentModel) -> Result<
    (Seq<Section>, nat),
    ParseError,
>
    decreases ts, left(ts, q), (15 - i) as nat,
{
    if i >= parts_of(c).len() {
        Ok((Seq::empty(), 0))
    } else {
        match parse_part(parts_of(c)[i as int], ts, q, var) {
            Err(e) => Err(e),
            Ok(ParseOutcome::RecoverableError) => parse_round(ts, q, c, i + 1, var),
            Ok(ParseOutcome::Valid((s, n))) => match parse_round(ts, q + n, c, i + 1, var) {
                Ok((rest, m)) => Ok((seq![s] + rest, n + m)),
                Err(e) => Err(e),
            },
        }
    }
}

/// The section parser of kind `k` at position `p`.
pub open spec fn parse_part(k: PartKind, ts: Seq<Tok>, p: nat, var: IdentModel) -> PartResult
    decreases ts, left(ts, p), 3nat,
{
    match k {
        PartKind::Identity => parse_identity(ts, p, var),
        PartKind::Concat => parse_concat(ts, p),
        PartKind::Replace => parse_replace(ts, p, var),
        PartKind::Group => parse_group(ts, p, var),
        PartKind::RepeatGroup => parse_repeat_group(ts, p, var),
        PartKind::NoNestRepeatGroup => parse_no_nest_repeat_group(ts, p, var),
        PartKind::IdentityGroup => parse_identity_group(ts, p, var),
        PartKind::BaseNestRepeatGroup => parse_base_nest_repeat_group(ts, p, var),
        PartKind::BaseNoNestRepeatGroup => parse_base_no_nest_repeat_group(ts, p, var),
    }
}

/// The group section at `p`: a group whose contents parse as sections.
pub open spec fn parse_group(ts: Seq<Tok>, p: nat, var: IdentModel) -> PartResult
    decreases ts, left(ts, p), 2nat,
{
    if !group_at(ts, p) {
        Ok(ParseOutcome::RecoverableError)
    } else {
        match ts[p as int] {
            Tok::Group { delimiter, stream, span } => {
                proof {
                    assert(decreases_to!(ts => ts[p as int]));
                }
                match parse_body(stream, 0, PartKind::Group, var) {
                    Err(e) => Err(e),
                    Ok(BodyOutcome::Sections(sections)) => Ok(
                        ParseOutcome::Valid((Section::Group { sections, delimiter, span }, 1)),
                    ),
                    Ok(BodyOutcome::Abandoned) => Ok(ParseOutcome::RecoverableError),
                }
            },
            _ => Ok(ParseOutcome::RecoverableError),
        }
    }
}

/// `#` followed by a parenthesized group starts a repetition group.
pub open spec fn repeat_start(ts: Seq<Tok>, p: nat) -> bool {
    &&& punct_at(ts, p, '#')
    &&& p + 1 < ts.len()
    &&& ts[p + 1int] matches Tok::Group { delimiter, .. }
    &&& delimiter == Delimiter::Parenthesis
}

/// The repetition section `#( ... )*` at `p`.
pub open spec fn parse_repeat_group(ts: Seq<Tok>, p: nat, var: IdentModel) -> PartResult
    decreases ts, left(ts, p), 2nat,
{
    if !repeat_start(ts, p) {
        Ok(ParseOutcome::RecoverableError)
    } else if !punct_at(ts, p + 2, '*') {
        Err(error_at(ErrorKind::ExpectedStar, ts, p + 1))
    } else {
        match ts[p + 1int] {
            Tok::Group { stream, .. } => {
                proof {
                    assert(decreases_to!(ts => ts[p + 1int]));
                }
                match parse_body(stream, 0, PartKind::RepeatGroup, var) {
                    Err(e) => Err(e),
                    Ok(BodyOutcome::Sections(sections)) => Ok(
                        ParseOutcome::Valid((Section::RepeatGroup { sections }, 3)),
                    ),
                    Ok(BodyOutcome::Abandoned) => Ok(ParseOutcome::RecoverableError),
                }
            },
            _ => Ok(ParseOutcome::RecoverableError),
        }
    }
}

/// The group inside a repetition group at `p`.
pub open spec fn parse_no_nest_repeat_group(ts: Seq<Tok>, p: nat, var: IdentModel) -> PartResult
    decreases ts, left(ts, p), 2nat,
{
    if !group_at(ts, p) {
        Ok(ParseOutcome::RecoverableError)
    } else {
        match ts[p as int] {
            Tok::Group { stream, .. } => {
                proof {
                    assert(decreases_to!(ts => ts[p as int]));
                }
                match parse_body(stream, 0, PartKind::NoNestRepeatGroup, var) {
                    Err(e) => Err(e),
                    Ok(BodyOutcome::Sections(sections)) => Ok(
                        ParseOutcome::Valid((Section::NoNestRepeatGroup { sections }, 1)),
                    ),
                    Ok(BodyOutcome::Abandoned) => Ok(ParseOutcome::RecoverableError),
                }
            },
            _ => Ok(ParseOutcome::RecoverableError),
        }
    }
}

/// The identity group at `p`: a group of plain tokens, repetition groups and
/// identity groups; a group with other contents is declined.
pub open spec fn parse_identity_group(ts: Seq<Tok>, p: nat, var: IdentModel) -> PartResult
    decreases ts, left(ts, p), 2nat,
{
    if !group_at(ts, p) {
        Ok(ParseOutcome::RecoverableError)
    } else {
        match ts[p as int] {
            Tok::Group { delimiter, stream, span } => {
                proof {
                    assert(decreases_to!(ts => ts[p as int]));
                }
                match parse_body(stream, 0, PartKind::IdentityGroup, var) {
                    Err(e) => Err(e),
                    Ok(BodyOutcome::Sections(sections)) => Ok(
                        ParseOutcome::Valid(
                            (Section::IdentityGroup { sections, delimiter, span }, 1),
                        ),
                    ),
                    Ok(BodyOutcome::Abandoned) => Ok(ParseOutcome::RecoverableError),
                }
            },
            _ => Ok(ParseOutcome::RecoverableError),
        }
    }
}

/// Some section of `s` is an identity group.
pub open spec fn has_identity_group(s: Seq<Section>) -> bool {
    exists|i: int| 0 <= i < s.len() && s[i] is IdentityGroup
}

/// The body at `p` made of plain tokens, identity groups and repetition
/// groups, holding at least one identity group.
pub open spec fn parse_base_nest_repeat_group(ts: Seq<Tok>, p: nat, var: IdentModel) -> PartResult
    decreases ts, left(ts, p), 2nat,
{
    if !group_at(ts, p) {
        Ok(ParseOutcome::RecoverableError)
    } else {
        match ts[p as int] {
            Tok::Group { stream, .. } => {
                proof {
                    assert(decreases_to!(ts => ts[p as int]));
                }
                match parse_body(stream, 0, PartKind::BaseNestRepeatGroup, var) {
                    Err(e) => Err(e),
                    Ok(BodyOutcome::Sections(sections)) => if has_identity_group(sections) {
                        Ok(ParseOutcome::Valid((Section::BaseNestRepeatGroup { sections }, 1)))
                    } else {
                        Ok(ParseOutcome::RecoverableError)
                    },
                    Ok(BodyOutcome::Abandoned) => Ok(ParseOutcome::RecoverableError),
                }
            },
            _ => Ok(ParseOutcome::RecoverableError),
        }
    }
}

/// The body at `p` without repetition groups; a body that does not parse is
/// declined.
pub open spec fn parse_base_no_nest_repeat_group(
    ts: Seq<Tok>,
    p: nat,
    var: IdentModel,
) -> PartResult
    decreases ts, left(ts, p), 2nat,
{
    if !group_at(ts, p) {
        Ok(ParseOutcome::RecoverableError)
    } else {
        match ts[p as int] {
            Tok::Group { stream, .. } => {
                proof {
                    assert(decreases_to!(ts => ts[p as int]));
                }
                match parse_body(stream, 0, PartKind::BaseNoNestRepeatGroup, var) {
                    Ok(BodyOutcome::Sections(sections)) => Ok(
                        ParseOutcome::Valid((Section::BaseNoNestRepeatGroup { sections }, 1)),
                    ),
                    _ => Ok(ParseOutcome::RecoverableError),
                }
            },
            _ => Ok(ParseOutcome::RecoverableError),
        }
    }
}

/// An executable parse result agrees with the model's: the same section,
/// ending where the model's consumption ends, the same refusal or the same error.
pub open spec fn agrees<T: View<V = Section>>(
    r: Result<ParseOutcome<(T, usize)>, ParseError>,
    p: nat,
    s: PartResult,
) -> bool {
    match (r, s) {
        (Ok(ParseOutcome::Valid((t, q))), Ok(ParseOutcome::Valid((sec, n)))) => t@ == sec && q
            == p + n,
        (Ok(ParseOutcome::RecoverableError), Ok(ParseOutcome::RecoverableError)) => true,
        (Err(e), Err(f)) => e == f,
        _ => false,
    }
}

proof fn lemma_identity_run(ts: Seq<Tok>, p: nat, var: IdentModel)
    ensures
        p + identity_run(ts, p, var) <= ts.len() || identity_run(ts, p, var) == 0,
    decreases ts.len() - p,
{
    if !identity_stop(ts, p, var) {
        lemma_identity_run(ts, p + 1, var);
    }
}

proof fn lemma_concat_links(ts: Seq<Tok>, q: nat)
    ensures
        concat_links(ts, q) matches Ok((_, n)) ==> (n == 0 || q + n <= ts.len()),
    decreases ts.len() - q,
{
    if punct_at(ts, q, '~') && q + 1 < ts.len() {
        lemma_concat_links(ts, q + 2);
    }
}

/// A section parser that recognises its section consumes at least one token
/// and no more than there are.
pub proof fn lemma_part_consumes(k: PartKind, ts: Seq<Tok>, p: nat, var: IdentModel)
    ensures
        parse_part(k, ts, p, var) matches Ok(ParseOutcome::Valid((_, n))) ==> 1 <= n && p + n
            <= ts.len(),
{
    match k {
        PartKind::Identity => {
            lemma_identity_run(ts, p, var);
            if !identity_stop(ts, p, var) {
                lemma_identity_run(ts, p + 1, var);
            }
        },
        PartKind::Concat => {
            lemma_concat_links(ts, p + 1);
        },
        _ => {},
    }
}

impl IdentitySection {
    /// Whether a run of plain tokens ends at position `p`.
    fn stops(ctx: &ParseContext, input: &Vec<TokenTree>, p: usize) -> (r: bool)
        ensures
            r == identity_stop(toks_of(input@), p as nat, ctx.var()),
    {
        proof {
            lemma_toks_of_map(input@);
        }
        p >= input.len() || is_punct_second(input, p, '~') || is_punct(input, p, '#') || is_group(
            input,
            p,
        ) || is_ident(input, p, &ctx.iter_ident)
    }

    /// The run of plain tokens at position `pos` of `input`.
    pub fn parse(ctx: &ParseContext, input: &Vec<TokenTree>, pos: usize) -> (r: Result<
        ParseOutcome<(IdentitySection, usize)>,
        ParseError,
    >)
        requires
            pos <= input.len(),
        ensures
            agrees(r, pos as nat, parse_identity(toks_of(input@), pos as nat, ctx.var())),
    {
        let ghost ts = toks_of(input@);
        proof {
            lemma_toks_of_map(input@);
        }
        if Self::stops(ctx, input, pos) {
            return Ok(ParseOutcome::RecoverableError);
        }
        let mut tokens: Vec<TokenTree> = Vec::new();
        let mut q = pos;
        while !Self::stops(ctx, input, q)
            invariant
                pos <= q <= input.len(),
                ts == toks_of(input@),
                ts.len() == input.len(),
                identity_run(ts, pos as nat, ctx.var()) == (q - pos) + identity_run(
                    ts,
                    q as nat,
                    ctx.var(),
                ),
                toks_of(tokens@) == ts.subrange(pos as int, q as int),
            decreases input.len() - q,
        {
            let t = input[q].duplicate();
            proof {
                lemma_toks_of_map(input@);
                lemma_toks_of_push(tokens@, t);
            }
            tokens.push(t);
            q = q + 1;
            assert(toks_of(tokens@) =~= ts.subrange(pos as int, q as int));
        }
        Ok(ParseOutcome::Valid((IdentitySection { tokens }, q)))
    }
}

impl ConcatSection {
    /// Whether a concatenation starts at position `p`.
    fn starts(input: &Vec<TokenTree>, p: usize) -> (r: bool)
        ensures
            r == concat_start(toks_of(input@), p as nat),
    {
        proof {
            lemma_toks_of_map(input@);
        }
        p < input.len() && !is_punct(input, p, '#') && is_punct_second(input, p, '~')
            && !is_group(input, p)
    }

    /// The token after the `~` at position `q`.
    fn parse_link(input: &Vec<TokenTree>, q: usize) -> (r: Result<TokenTree, ParseError>)
        requires
            punct_at(toks_of(input@), q as nat, '~'),
        ensures
            match r {
                Ok(t) => {
                    &&& q + 1 < input.len()
                    &&& t@ == toks_of(input@)[q + 1int]
                    &&& !punct_at(toks_of(input@), (q + 1) as nat, '#')
                    &&& !group_at(toks_of(input@), (q + 1) as nat)
                },
                Err(e) => concat_links(toks_of(input@), q as nat) == Err::<(Seq<Tok>, nat), _>(e),
            },
    {
        proof {
            lemma_toks_of_map(input@);
        }
        assert(toks_of(input@).len() == input@.len());
        assert(q < input.len());
        if q + 1 >= input.len() {
            return Err(error_here(ErrorKind::ExpectedTokenAfterTilde, input, q));
        }
        if is_punct(input, q + 1, '#') {
            return Err(error_here(ErrorKind::CannotConcatenateHash, input, q + 1));
        }
        if is_group(input, q + 1) {
            return Err(error_here(ErrorKind::ExpectedNonGroupToken, input, q + 1));
        }
        Ok(input[q + 1].duplicate())
    }

    /// The concatenation section at position `pos` of `input`.
    pub fn parse(ctx: &ParseContext, input: &Vec<TokenTree>, pos: usize) -> (r: Result<
        ParseOutcome<(ConcatSection, usize)>,
        ParseError,
    >)
        requires
            pos <= input.len(),
        ensures
            agrees(r, pos as nat, parse_concat(toks_of(input@), pos as nat)),
    {
        let ghost ts = toks_of(input@);
        proof {
            lemma_toks_of_map(input@);
        }
        if !Self::starts(input, pos) {
            return Ok(ParseOutcome::RecoverableError);
        }
        let src_span = span_of(&input[pos]);
        let mut tokens: Vec<TokenTree> = Vec::new();
        let first = input[pos].duplicate();
        proof {
            lemma_toks_of_push(tokens@, first);
            assert(toks_of(tokens@) =~= Seq::<Tok>::empty());
        }
        tokens.push(first);
        let mut q = pos + 1;
        assert(toks_of(tokens@).drop_first() =~= Seq::<Tok>::empty());
        while q < input.len() && is_punct(input, q, '~')
            invariant
                pos + 1 <= q <= input.len(),
                concat_start(ts, pos as nat),
                ts == toks_of(input@),
                ts.len() == input.len(),
                tokens@.len() >= 1,
                toks_of(tokens@)[0] == ts[pos as int],
                concat_links(ts, (pos + 1) as nat) == link_combine(
                    toks_of(tokens@).drop_first(),
                    (q - pos - 1) as nat,
                    concat_links(ts, q as nat),
                ),
            decreases input.len() - q,
        {
            match Self::parse_link(input, q) {
                Ok(t) => {
                    let ghost before = toks_of(tokens@);
                    proof {
                        lemma_toks_of_push(tokens@, t);
                    }
                    tokens.push(t);
                    assert(toks_of(tokens@).drop_first() =~= before.drop_first().push(
                        ts[q + 1int],
                    ));
                    proof {
                        let r = concat_links(ts, (q + 2) as nat);
                        if let Ok((rest, n)) = r {
                            assert(before.drop_first() + (seq![ts[q + 1int]] + rest)
                                =~= before.drop_first().push(ts[q + 1int]) + rest);
                        }
                    }
                    q = q + 2;
                },
                Err(e) => {
                    assert(concat_links(ts, (pos + 1) as nat) == Err::<(Seq<Tok>, nat), _>(e));
                    return Err(e);
                },
            }
        }
        assert(!punct_at(ts, q as nat, '~'));
        assert(toks_of(tokens@) =~= seq![ts[pos as int]] + toks_of(tokens@).drop_first());
        Ok(ParseOutcome::Valid((ConcatSection { tokens, src_span }, q)))
    }
}

/// Prefixes the links already read to the result for the rest.
pub open spec fn link_combine(
    acc: Seq<Tok>,
    k: nat,
    r: Result<(Seq<Tok>, nat), ParseError>,
) -> Result<(Seq<Tok>, nat), ParseError> {
    match r {
        Ok((rest, n)) => Ok((acc + rest, k + n)),
        Err(e) => Err(e),
    }
}

impl ReplaceSection {
    /// The loop-variable section at position `pos` of `input`.
    pub fn parse(ctx: &ParseContext, input: &Vec<TokenTree>, pos: usize) -> (r: Result<
        ParseOutcome<(ReplaceSection, usize)>,
        ParseError,
    >)
        requires
            pos <= input.len(),
        ensures
            agrees(r, pos as nat, parse_replace(toks_of(input@), pos as nat, ctx.var())),
    {
        proof {
            lemma_toks_of_map(input@);
        }
        if pos >= input.len() || is_punct(input, pos, '#') || is_punct_second(input, pos, '~')
            || !is_ident(input, pos, &ctx.iter_ident) {
            Ok(ParseOutcome::RecoverableError)
        } else {
            Ok(ParseOutcome::Valid((ReplaceSection, pos + 1)))
        }
    }
}


/// An executable result for a group's contents agrees with the model's.
pub open spec fn body_agrees(
    r: Result<ParseOutcome<Vec<SectionTree>>, ParseError>,
    s: Result<BodyOutcome, ParseError>,
) -> bool {
    match (r, s) {
        (Ok(ParseOutcome::Valid(v)), Ok(BodyOutcome::Sections(secs))) => sects_of(v@) == secs,
        (Ok(ParseOutcome::RecoverableError), Ok(BodyOutcome::Abandoned)) => true,
        (Err(e), Err(f)) => e == f,
        _ => false,
    }
}

/// Prefixes the sections already read to the result for the rest of a group.
pub open spec fn body_combine(acc: Seq<Section>, r: Result<BodyOutcome, ParseError>) -> Result<
    BodyOutcome,
    ParseError,
> {
    match r {
        Ok(BodyOutcome::Sections(rest)) => Ok(BodyOutcome::Sections(acc + rest)),
        other => other,
    }
}

/// Prefixes the sections already read in a round to the rest of the round.
pub open spec fn round_combine(
    acc: Seq<Section>,
    k: nat,
    r: Result<(Seq<Section>, nat), ParseError>,
) -> Result<(Seq<Section>, nat), ParseError> {
    match r {
        Ok((rest, n)) => Ok((acc + rest, k + n)),
        Err(e) => Err(e),
    }
}

/// The parsers tried, in order, inside a section of kind `c`.
fn parsers_of(c: PartKind) -> (r: Vec<PartKind>)
    ensures
        r@ == parts_of(c),
{
    let mut r: Vec<PartKind> = Vec::new();
    match c {
        PartKind::Group => {
            r.push(PartKind::Identity);
            r.push(PartKind::Concat);
            r.push(PartKind::Replace);
            r.push(PartKind::RepeatGroup);
            r.push(PartKind::Group);
        },
        PartKind::BaseNoNestRepeatGroup => {
            r.push(PartKind::Identity);
            r.push(PartKind::Concat);
            r.push(PartKind::Replace);
            r.push(PartKind::Group);
        },
        PartKind::IdentityGroup => {
            r.push(PartKind::Identity);
            r.push(PartKind::RepeatGroup);
            r.push(PartKind::IdentityGroup);
        },
        PartKind::BaseNestRepeatGroup => {
            r.push(PartKind::Identity);
            r.push(PartKind::IdentityGroup);
            r.push(PartKind::RepeatGroup);
        },
        _ => {
            r.push(PartKind::Identity);
            r.push(PartKind::Concat);
            r.push(PartKind::Replace);
            r.push(PartKind::NoNestRepeatGroup);
        },
    }
    assert(r@ =~= parts_of(c));
    r
}

/// How a round that consumes nothing at position `q` ends a section of kind `c`.
fn stuck(c: PartKind, input: &Vec<TokenTree>, q: usize) -> (r: Result<
    ParseOutcome<Vec<SectionTree>>,
    ParseError,
>)
    ensures
        body_agrees(r, body_stuck(c, toks_of(input@), q as nat)),
{
    match c {
        PartKind::RepeatGroup => Err(error_here(ErrorKind::RepeatGroupUnableToParse, input, q)),
        PartKind::NoNestRepeatGroup => Err(
            error_here(ErrorKind::NoNestRepeatGroupUnableToParse, input, q),
        ),
        PartKind::IdentityGroup => Ok(ParseOutcome::RecoverableError),
        PartKind::BaseNestRepeatGroup => Ok(ParseOutcome::RecoverableError),
        _ => Err(error_here(ErrorKind::GroupUnableToParse, input, q)),
    }
}

/// Whether some section of `v` is an identity group.
fn has_identity_group_section(v: &Vec<SectionTree>) -> (r: bool)
    ensures
        r == has_identity_group(sects_of(v@)),
{
    proof {
        crate::sections::lemma_sects_of_map(v@);
    }
    let mut i: usize = 0;
    while i < v.len()
        invariant
            i <= v.len(),
            sects_of(v@) == v@.map_values(|t: SectionTree| crate::sections::sect_of(t)),
            forall|j: int| 0 <= j < i ==> !(sects_of(v@)[j] is IdentityGroup),
        decreases v.len() - i,
    {
        match &v[i] {
            SectionTree::IdentityGroup(_) => {
                assert(sects_of(v@)[i as int] is IdentityGroup);
                return true;
            },
            _ => {},
        }
        i = i + 1;
    }
    false
}

/// The section parser of kind `kind` at position `pos` of `input`.
pub fn try_extract_section_tree(
    kind: PartKind,
    ctx: &ParseContext,
    input: &Vec<TokenTree>,
    pos: usize,
) -> (r: Result<ParseOutcome<(SectionTree, usize)>, ParseError>)
    requires
        pos <= input.len(),
    ensures
        agrees(r, pos as nat, parse_part(kind, toks_of(input@), pos as nat, ctx.var())),
        r matches Ok(ParseOutcome::Valid((_, q))) ==> pos < q <= input.len(),
    decreases input@, (input@.len() - pos) as nat, 3nat,
{
    proof {
        lemma_toks_of_map(input@);
        lemma_part_consumes(kind, toks_of(input@), pos as nat, ctx.var());
    }
    match kind {
        PartKind::Identity => match IdentitySection::parse(ctx, input, pos) {
            Ok(ParseOutcome::Valid((s, q))) => Ok(ParseOutcome::Valid((SectionTree::from(s), q))),
            Ok(ParseOutcome::RecoverableError) => Ok(ParseOutcome::RecoverableError),
            Err(e) => Err(e),
        },
        PartKind::Concat => match ConcatSection::parse(ctx, input, pos) {
            Ok(ParseOutcome::Valid((s, q))) => Ok(ParseOutcome::Valid((SectionTree::from(s), q))),
            Ok(ParseOutcome::RecoverableError) => Ok(ParseOutcome::RecoverableError),
            Err(e) => Err(e),
        },
        PartKind::Replace => match ReplaceSection::parse(ctx, input, pos) {
            Ok(ParseOutcome::Valid((s, q))) => Ok(ParseOutcome::Valid((SectionTree::from(s), q))),
            Ok(ParseOutcome::RecoverableError) => Ok(ParseOutcome::RecoverableError),
            Err(e) => Err(e),
        },
        PartKind::Group => match Group::parse(ctx, input, pos) {
            Ok(ParseOutcome::Valid((s, q))) => Ok(ParseOutcome::Valid((SectionTree::from(s), q))),
            Ok(ParseOutcome::RecoverableError) => Ok(ParseOutcome::RecoverableError),
            Err(e) => Err(e),
        },
        PartKind::RepeatGroup => match RepeatGroup::parse(ctx, input, pos) {
            Ok(ParseOutcome::Valid((s, q))) => Ok(ParseOutcome::Valid((SectionTree::from(s), q))),
            Ok(ParseOutcome::RecoverableError) => Ok(ParseOutcome::RecoverableError),
            Err(e) => Err(e),
        },
        PartKind::NoNestRepeatGroup => match NoNestRepeatGroup::parse(ctx, input, pos) {
            Ok(ParseOutcome::Valid((s, q))) => Ok(ParseOutcome::Valid((SectionTree::from(s), q))),
            Ok(ParseOutcome::RecoverableError) => Ok(ParseOutcome::RecoverableError),
            Err(e) => Err(e),
        },
        PartKind::IdentityGroup => match IdentityGroup::parse(ctx, input, pos) {
            Ok(ParseOutcome::Valid((s, q))) => Ok(ParseOutcome::Valid((SectionTree::from(s), q))),
            Ok(ParseOutcome::RecoverableError) => Ok(ParseOutcome::RecoverableError),
            Err(e) => Err(e),
        },
        PartKind::BaseNestRepeatGroup => match BaseNestRepeatGroup::parse(ctx, input, pos) {
            Ok(ParseOutcome::Valid((s, q))) => Ok(ParseOutcome::Valid((SectionTree::from(s), q))),
            Ok(ParseOutcome::RecoverableError) => Ok(ParseOutcome::RecoverableError),
            Err(e) => Err(e),
        },
        PartKind::BaseNoNestRepeatGroup => match BaseNoNestRepeatGroup::parse(ctx, input, pos) {
            Ok(ParseOutcome::Valid((s, q))) => Ok(ParseOutcome::Valid((SectionTree::from(s), q))),
            Ok(ParseOutcome::RecoverableError) => Ok(ParseOutcome::RecoverableError),
            Err(e) => Err(e),
        },
    }
}

/// The contents of a section of kind `c`: `input` read as sections, round by round.
pub fn parse_sections(ctx: &ParseContext, c: PartKind, input: &Vec<TokenTree>) -> (r: Result<
    ParseOutcome<Vec<SectionTree>>,
    ParseError,
>)
    ensures
        body_agrees(r, parse_body(toks_of(input@), 0, c, ctx.var())),
    decreases input@, input@.len(), 20nat,
{
    let ghost ts = toks_of(input@);
    let ghost var = ctx.var();
    proof {
        lemma_toks_of_map(input@);
    }
    let parsers = parsers_of(c);
    let mut sections: Vec<SectionTree> = Vec::new();
    let mut q: usize = 0;
    assert(sects_of(sections@) =~= Seq::<Section>::empty());
    assert(parse_body(ts, 0, c, var) matches Ok(BodyOutcome::Sections(s)) ==> Seq::<Section>::empty() + s =~= s);
    while q < input.len()
        invariant
            q <= input.len(),
            ts == toks_of(input@),
            ts.len() == input.len(),
            var == ctx.var(),
            parsers@ == parts_of(c),
            parse_body(ts, 0, c, var) == body_combine(sects_of(sections@), parse_body(ts, q as nat, c, var)),
        decreases input.len() - q,
    {
        let ghost q0 = q;
        let ghost before = sects_of(sections@);
        let mut parsed_smth = false;
        let mut i: usize = 0;
        proof {
            crate::sections::lemma_sects_of_len(sections@);
            assert(sects_of(sections@).skip(before.len() as int) =~= Seq::<Section>::empty());
            let rr = parse_round(ts, q as nat, c, 0, var);
            if let Ok((s0, n0)) = rr {
                assert(Seq::<Section>::empty() + s0 =~= s0);
            }
        }
        while i < parsers.len()
            invariant
                q0 <= q <= input.len(),
                q0 < input.len(),
                i <= parsers.len(),
                ts == toks_of(input@),
                ts.len() == input.len(),
                var == ctx.var(),
                parsers@ == parts_of(c),
                sections@.len() >= before.len(),
                sects_of(sections@).len() == sections@.len(),
                sects_of(sections@).subrange(0, before.len() as int) == before,
                parse_body(ts, 0, c, var) == body_combine(before, parse_body(ts, q0 as nat, c, var)),
                parse_round(ts, q0 as nat, c, 0, var) == round_combine(
                    sects_of(sections@).skip(before.len() as int),
                    (q - q0) as nat,
                    parse_round(ts, q as nat, c, i as nat, var),
                ),
                parsed_smth == (q > q0),
                !parsed_smth ==> sections@.len() == before.len(),
            decreases parsers.len() - i,
        {
            let kind = parsers[i];
            match try_extract_section_tree(kind, ctx, input, q) {
                Ok(ParseOutcome::Valid((sect, q2))) => {
                    let ghost old_secs = sects_of(sections@);
                    proof {
                        lemma_sects_of_push(sections@, sect);
                        crate::sections::lemma_sects_of_len(sections@.push(sect));
                    }
                    sections.push(sect);
                    proof {
                        let acc = old_secs.skip(before.len() as int);
                        assert(sects_of(sections@).skip(before.len() as int) =~= acc.push(sect@));
                        assert(sects_of(sections@).subrange(0, before.len() as int) =~= old_secs.subrange(0, before.len() as int));
                        let rest = parse_round(ts, q2 as nat, c, (i + 1) as nat, var);
                        if let Ok((r2, m)) = rest {
                            assert(acc + (seq![sect@] + r2) =~= acc.push(sect@) + r2);
                        }
                    }
                    q = q2;
                    parsed_smth = true;
                },
                Err(e) => {
                    return Err(e);
                },
                Ok(ParseOutcome::RecoverableError) => {},
            }
            i = i + 1;
        }
        proof {
            crate::sections::lemma_sects_of_len(sections@);
        }
        if !parsed_smth {
            assert(sects_of(sections@).skip(before.len() as int) =~= Seq::<Section>::empty());
            return stuck(c, input, q);
        }
        proof {
            let acc = sects_of(sections@).skip(before.len() as int);
            assert(before + acc =~= sects_of(sections@));
            let rest = parse_body(ts, q as nat, c, var);
            if let Ok(BodyOutcome::Sections(r2)) = rest {
                assert(before + (acc + r2) =~= sects_of(sections@) + r2);
            }
        }
    }
    proof {
        assert(sects_of(sections@) + Seq::<Section>::empty() =~= sects_of(sections@));
    }
    Ok(ParseOutcome::Valid(sections))
}

impl RepeatGroup {
    /// The repetition section `#( ... )*` at position `pos` of `input`.
    pub fn parse(ctx: &ParseContext, input: &Vec<TokenTree>, pos: usize) -> (r: Result<
        ParseOutcome<(RepeatGroup, usize)>,
        ParseError,
    >)
        requires
            pos <= input.len(),
        ensures
            agrees(r, pos as nat, parse_repeat_group(toks_of(input@), pos as nat, ctx.var())),
        decreases input@, (input@.len() - pos) as nat, 2nat,
    {
        proof {
            lemma_toks_of_map(input@);
        }
        if !is_punct(input, pos, '#') || pos + 1 >= input.len() {
            return Ok(ParseOutcome::RecoverableError);
        }
        match &input[pos + 1] {
            TokenTree::Group { delimiter, stream, .. } => {
                if *delimiter != Delimiter::Parenthesis {
                    return Ok(ParseOutcome::RecoverableError);
                }
                if !is_punct(input, pos + 2, '*') {
                    return Err(error_here(ErrorKind::ExpectedStar, input, pos + 1));
                }
                proof {
                    assert(decreases_to!(input@ => input@[pos + 1]));
                    assert(decreases_to!(stream => stream@));
                }
                match parse_sections(ctx, PartKind::RepeatGroup, stream) {
                    Ok(ParseOutcome::Valid(sections)) => Ok(
                        ParseOutcome::Valid((RepeatGroup { sections }, pos + 3)),
                    ),
                    Ok(ParseOutcome::RecoverableError) => Ok(ParseOutcome::RecoverableError),
                    Err(e) => Err(e),
                }
            },
            _ => Ok(ParseOutcome::RecoverableError),
        }
    }
}

impl Group {
    /// The group section at position `pos` of `input`.
    pub fn parse(ctx: &ParseContext, input: &Vec<TokenTree>, pos: usize) -> (r: Result<
        ParseOutcome<(Group, usize)>,
        ParseError,
    >)
        requires
            pos <= input.len(),
        ensures
            agrees(r, pos as nat, parse_group(toks_of(input@), pos as nat, ctx.var())),
        decreases input@, (input@.len() - pos) as nat, 2nat,
    {
        proof {
            lemma_toks_of_map(input@);
        }
        if !is_group(input, pos) {
            return Ok(ParseOutcome::RecoverableError);
        }
        match &input[pos] {
            TokenTree::Group { delimiter, stream, span } => {
                proof {
                    assert(decreases_to!(input@ => input@[pos as int]));
                    assert(decreases_to!(stream => stream@));
                }
                match parse_sections(ctx, PartKind::Group, stream) {
                    Ok(ParseOutcome::Valid(sections)) => Ok(ParseOutcome::Valid((Group { sections, delimiter: *delimiter, span: *span }, pos + 1))),
                    Ok(ParseOutcome::RecoverableError) => Ok(ParseOutcome::RecoverableError),
                    Err(e) => Err(e),
                }
            },
            _ => Ok(ParseOutcome::RecoverableError),
        }
    }
}

impl NoNestRepeatGroup {
    /// The group at position `pos` of `input`, inside a repetition group.
    pub fn parse(ctx: &ParseContext, input: &Vec<TokenTree>, pos: usize) -> (r: Result<
        ParseOutcome<(NoNestRepeatGroup, usize)>,
        ParseError,
    >)
        requires
            pos <= input.len(),
        ensures
            agrees(r, pos as nat, parse_no_nest_repeat_group(toks_of(input@), pos as nat, ctx.var())),
        decreases input@, (input@.len() - pos) as nat, 2nat,
    {
        proof {
            lemma_toks_of_map(input@);
        }
        if !is_group(input, pos) {
            return Ok(ParseOutcome::RecoverableError);
        }
        match &input[pos] {
            TokenTree::Group { stream, .. } => {
                proof {
                    assert(decreases_to!(input@ => input@[pos as int]));
                    assert(decreases_to!(stream => stream@));
                }
                match parse_sections(ctx, PartKind::NoNestRepeatGroup, stream) {
                    Ok(ParseOutcome::Valid(sections)) => Ok(ParseOutcome::Valid((NoNestRepeatGroup { sections }, pos + 1))),
                    Ok(ParseOutcome::RecoverableError) => Ok(ParseOutcome::RecoverableError),
                    Err(e) => Err(e),
                }
            },
            _ => Ok(ParseOutcome::RecoverableError),
        }
    }
}

impl IdentityGroup {
    /// The identity group at position `pos` of `input`.
    pub fn parse(ctx: &ParseContext, input: &Vec<TokenTree>, pos: usize) -> (r: Result<
        ParseOutcome<(IdentityGroup, usize)>,
        ParseError,
    >)
        requires
            pos <= input.len(),
        ensures
            agrees(r, pos as nat, parse_identity_group(toks_of(input@), pos as nat, ctx.var())),
        decreases input@, (input@.len() - pos) as nat, 2nat,
    {
        proof {
            lemma_toks_of_map(input@);
        }
        if !is_group(input, pos) {
            return Ok(ParseOutcome::RecoverableError);
        }
        match &input[pos] {
            TokenTree::Group { delimiter, stream, span } => {
                proof {
                    assert(decreases_to!(input@ => input@[pos as int]));
                    assert(decreases_to!(stream => stream@));
                }
                match parse_sections(ctx, PartKind::IdentityGroup, stream) {
                    Ok(ParseOutcome::Valid(sections)) => Ok(ParseOutcome::Valid((IdentityGroup { sections, delimiter: *delimiter, span: *span }, pos + 1))),
                    Ok(ParseOutcome::RecoverableError) => Ok(ParseOutcome::RecoverableError),
                    Err(e) => Err(e),
                }
            },
            _ => Ok(ParseOutcome::RecoverableError),
        }
    }
}

impl BaseNestRepeatGroup {
    /// The body at position `pos` of `input` holding identity groups.
    pub fn parse(ctx: &ParseContext, input: &Vec<TokenTree>, pos: usize) -> (r: Result<
        ParseOutcome<(BaseNestRepeatGroup, usize)>,
        ParseError,
    >)
        requires
            pos <= input.len(),
        ensures
            agrees(r, pos as nat, parse_base_nest_repeat_group(toks_of(input@), pos as nat, ctx.var())),
        decreases input@, (input@.len() - pos) as nat, 2nat,
    {
        proof {
            lemma_toks_of_map(input@);
        }
        if !is_group(input, pos) {
            return Ok(ParseOutcome::RecoverableError);
        }
        match &input[pos] {
            TokenTree::Group { stream, .. } => {
                proof {
                    assert(decreases_to!(input@ => input@[pos as int]));
                    assert(decreases_to!(stream => stream@));
                }
                match parse_sections(ctx, PartKind::BaseNestRepeatGroup, stream) {
                    Ok(ParseOutcome::Valid(sections)) => {
                        if has_identity_group_section(&sections) {
                            Ok(ParseOutcome::Valid((BaseNestRepeatGroup { sections }, pos + 1)))
                        } else {
                            Ok(ParseOutcome::RecoverableError)
                        }
                    },
                    Ok(ParseOutcome::RecoverableError) => Ok(ParseOutcome::RecoverableError),
                    Err(e) => Err(e),
                }
            },
            _ => Ok(ParseOutcome::RecoverableError),
        }
    }
}

impl BaseNoNestRepeatGroup {
    /// The body at position `pos` of `input` without repetition groups.
    pub fn parse(ctx: &ParseContext, input: &Vec<TokenTree>, pos: usize) -> (r: Result<
        ParseOutcome<(BaseNoNestRepeatGroup, usize)>,
        ParseError,
    >)
        requires
            pos <= input.len(),
        ensures
            agrees(r, pos as nat, parse_base_no_nest_repeat_group(toks_of(input@), pos as nat, ctx.var())),
        decreases input@, (input@.len() - pos) as nat, 2nat,
    {
        proof {
            lemma_toks_of_map(input@);
        }
        if !is_group(input, pos) {
            return Ok(ParseOutcome::RecoverableError);
        }
        match &input[pos] {
            TokenTree::Group { stream, .. } => {
                proof {
                    assert(decreases_to!(input@ => input@[pos as int]));
                    assert(decreases_to!(stream => stream@));
                }
                match parse_sections(ctx, PartKind::BaseNoNestRepeatGroup, stream) {
                    Ok(ParseOutcome::Valid(sections)) => Ok(ParseOutcome::Valid((BaseNoNestRepeatGroup { sections }, pos + 1))),
                    _ => Ok(ParseOutcome::RecoverableError),
                }
            },
            _ => Ok(ParseOutcome::RecoverableError),
        }
    }
}

} // verus!

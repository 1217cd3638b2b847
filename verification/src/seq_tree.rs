//! A whole macro invocation: the loop header followed by the body group, and
//! its expansion.
use vstd::prelude::*;

use crate::context::{ExpandContext, ExpandModel, HeaderModel, ParseContext, SeqError, parse_header};
use crate::cursor::{ErrorKind, ParseOutcome, error_at, error_here};
use crate::expand::{expand_all, expand_repeat, literal_token, literal_tree};
use crate::parse::parse_group;
use crate::sections::{Group, Section};
use crate::syntax::{ident_name_is_valid, ident_name_valid, raw_forbidden};
use crate::tokens::{TokenTree, Tok, lemma_toks_of_map, tok_of, toks_of};
use crate::visit::{CheckRepeatSection, SectionSanitizer, contains_repeat, sanitize};

verus! {

/// The value the loop variable stands for in a body with repetition groups,
/// outside them (where the check lets no loop variable stand).
pub const PLACEHOLDER_VALUE: usize = 69;

/// A parsed macro invocation.
#[derive(Debug)]
pub struct SeqTree {
    pub parse_ctx: ParseContext,
    pub base_section: Group,
    pub has_repeat_group: bool,
}

/// The model of a parsed invocation: header, body group, and whether the
/// body holds a repetition group.
pub struct SeqModel {
    pub header: HeaderModel,
    pub base: Section,
    pub has_repeat: bool,
}

/// A macro invocation in the model: the header, then one group whose
/// contents parse as sections and pass the placement check, then nothing.
pub open spec fn parse_seq(ts: Seq<Tok>) -> Result<SeqModel, SeqError> {
    match parse_header(ts) {
        Err(e) => Err(e),
        Ok((h, p)) => match parse_group(ts, p, h.var) {
            Err(e) => Err(SeqError::Parse(e)),
            Ok(ParseOutcome::RecoverableError) => Err(
                SeqError::Parse(error_at(ErrorKind::UnableToParseAsAnything, ts, p)),
            ),
            Ok(ParseOutcome::Valid((g, n))) => {
                let has = contains_repeat(g);
                if !sanitize(g, has, false).0 {
                    Err(SeqError::CannotSanitize)
                } else if p + n < ts.len() {
                    Err(SeqError::Parse(error_at(ErrorKind::UnexpectedToken, ts, p + n)))
                } else {
                    Ok(SeqModel { header: h, base: g, has_repeat: has })
                }
            },
        },
    }
}

/// The sections of a group.
pub open spec fn group_sections(g: Section) -> Seq<Section> {
    match g {
        Section::Group { sections, .. } => sections,
        _ => Seq::empty(),
    }
}

/// The expansion context a body starts in.
pub open spec fn base_context(h: HeaderModel) -> ExpandModel {
    ExpandModel { target: literal_token(PLACEHOLDER_VALUE), var: h.var, start: h.start, end: h.end }
}

/// The expansion of a parsed invocation: with repetition groups, the body's
/// sections expanded once (the repetition groups repeating themselves);
/// without, the body's sections expanded once per value of the loop variable.
pub open spec fn seq_expansion(m: SeqModel) -> Seq<Tok> {
    if m.has_repeat {
        expand_all(group_sections(m.base), base_context(m.header))
    } else {
        expand_repeat(group_sections(m.base), base_context(m.header), m.header.start as nat)
    }
}

/// What a macro invocation expands to, or why it is refused.
pub open spec fn seq_output(ts: Seq<Tok>) -> Result<Seq<Tok>, SeqError> {
    match parse_seq(ts) {
        Ok(m) => if idents_valid(seq_expansion(m)) {
            Ok(seq_expansion(m))
        } else {
            Err(SeqError::NotAnIdentifier)
        },
        Err(e) => Err(e),
    }
}

/// Every identifier of the token, at any depth, has a valid name (and a raw
/// one a name that may be raw).
pub open spec fn tok_idents_valid(t: Tok) -> bool
    decreases t, 0nat,
{
    match t {
        Tok::Group { stream, .. } => idents_valid(stream),
        Tok::Ident(id) => ident_name_valid(id.name) && (id.raw ==> !raw_forbidden(id.name)),
        _ => true,
    }
}

/// Every identifier of `ts`, at any depth, has a valid name.
pub open spec fn idents_valid(ts: Seq<Tok>) -> bool
    decreases ts, 1nat,
{
    ts.len() == 0 || (tok_idents_valid(ts[0]) && idents_valid(ts.drop_first()))
}

/// Whether every identifier of `t`, at any depth, has a valid name.
fn token_idents_valid(t: &TokenTree) -> (r: bool)
    ensures
        r == tok_idents_valid(t@),
    decreases t, 0nat,
{
    match t {
        TokenTree::Group { stream, .. } => {
            proof {
                assert(decreases_to!(stream => stream@));
            }
            tokens_idents_valid(stream)
        },
        TokenTree::Ident(id) => ident_name_is_valid(&id.name, id.raw),
        _ => true,
    }
}

/// Whether every identifier of `v`, at any depth, has a valid name.
fn tokens_idents_valid(v: &Vec<TokenTree>) -> (r: bool)
    ensures
        r == idents_valid(toks_of(v@)),
    decreases v@, 1nat,
{
    let ghost ts = toks_of(v@);
    proof {
        lemma_toks_of_map(v@);
    }
    let mut i: usize = 0;
    assert(ts.skip(0) =~= ts);
    while i < v.len()
        invariant
            i <= v.len(),
            ts == toks_of(v@),
            ts == v@.map_values(|t: TokenTree| tok_of(t)),
            idents_valid(ts) == idents_valid(ts.skip(i as int)),
        decreases v.len() - i,
    {
        proof {
            assert(decreases_to!(v@ => v@[i as int]));
            assert(ts.skip(i as int).drop_first() =~= ts.skip(i + 1));
            assert(ts.skip(i as int)[0] == ts[i as int]);
        }
        if !token_idents_valid(&v[i]) {
            return false;
        }
        i = i + 1;
    }
    assert(ts.skip(i as int).len() == 0);
    true
}

impl SeqTree {
    /// The model of the parsed invocation.
    pub open spec fn model(&self) -> SeqModel {
        SeqModel {
            header: HeaderModel {
                var: self.parse_ctx.var(),
                start: self.parse_ctx.start,
                end: self.parse_ctx.end,
            },
            base: self.base_section@,
            has_repeat: self.has_repeat_group,
        }
    }

    /// Parses a macro invocation.  A body that the placement check refuses is
    /// reported as `SeqError::CannotSanitize`, where the macro panics with
    /// "Cannot sanitize".
    pub fn parse(input: &Vec<TokenTree>) -> (r: Result<SeqTree, SeqError>)
        ensures
            match (r, parse_seq(toks_of(input@))) {
                (Ok(t), Ok(m)) => t.model() == m,
                (Err(e), Err(f)) => e == f,
                _ => false,
            },
    {
        proof {
            lemma_toks_of_map(input@);
        }
        let (parse_ctx, p) = ParseContext::parse(input)?;
        match Group::parse(&parse_ctx, input, p) {
            Ok(ParseOutcome::Valid((sect, q))) => {
                let mut check = CheckRepeatSection;
                let has_repeat_group = check.visit_group(&sect);
                let mut sanitizer = SectionSanitizer::new(has_repeat_group);
                if !sanitizer.visit_group(&sect) {
                    return Err(SeqError::CannotSanitize);
                }
                if q < input.len() {
                    return Err(SeqError::Parse(error_here(ErrorKind::UnexpectedToken, input, q)));
                }
                Ok(SeqTree { parse_ctx, base_section: sect, has_repeat_group })
            },
            Ok(ParseOutcome::RecoverableError) => Err(
                SeqError::Parse(error_here(ErrorKind::UnableToParseAsAnything, input, p)),
            ),
            Err(e) => Err(SeqError::Parse(e)),
        }
    }

    /// The expansion of the invocation.
    pub fn expand(&self) -> (r: Vec<TokenTree>)
        ensures
            toks_of(r@) == seq_expansion(self.model()),
    {
        let ctx = ExpandContext {
            target: literal_tree(PLACEHOLDER_VALUE),
            iter_ident: self.parse_ctx.iter_ident.duplicate(),
            start: self.parse_ctx.start,
            end: self.parse_ctx.end,
        };
        if self.has_repeat_group {
            crate::expand::expand_sections(&self.base_section.sections, &ctx)
        } else {
            crate::expand::expand_repeat_sections(&self.base_section.sections, &ctx)
        }
    }
}

/// Expands a macro invocation `N in a..b { body }` (or `a..=b`).  Every input
/// gets an answer: the expansion, a parse error, or one of the refusals where
/// the macro panics (`CannotSanitize`, `EndOverflow`, `NotAnIdentifier`),
/// which are returned as values.
pub fn seq(input: &Vec<TokenTree>) -> (r: Result<Vec<TokenTree>, SeqError>)
    ensures
        match (r, seq_output(toks_of(input@))) {
            (Ok(out), Ok(expected)) => toks_of(out@) == expected,
            (Err(e), Err(f)) => e == f,
            _ => false,
        },
        r matches Ok(out) ==> idents_valid(toks_of(out@)),
{
    let tree = SeqTree::parse(input)?;
    let out = tree.expand();
    if !tokens_idents_valid(&out) {
        return Err(SeqError::NotAnIdentifier);
    }
    Ok(out)
}

} // verus!

//! The loop header of a macro invocation (`N in 0..4` or `N in 0..=3`).
use vstd::prelude::*;

use crate::cursor::{ErrorKind, ParseError, error_at, error_here, is_punct, punct_at};
use crate::syntax::{accepts_as_ident, int_literal_value, syn_accepts_ident, syn_int_literal};
use crate::tokens::{Ident, IdentModel, Spacing, Tok, TokenTree, lemma_toks_of_map, toks_of};
use crate::cursor::ident_text;

verus! {

/// The loop variable and the range it runs over (`end` exclusive).
#[derive(Debug)]
pub struct ParseContext {
    pub iter_ident: Ident,
    pub start: usize,
    pub end: usize,
}

impl ParseContext {
    /// The loop variable.
    pub open spec fn var(&self) -> IdentModel {
        self.iter_ident@
    }
}

/// The context a section is expanded in: the token that stands for the loop
/// variable, the loop variable, and the range.
#[derive(Debug)]
pub struct ExpandContext {
    pub target: TokenTree,
    pub iter_ident: Ident,
    pub start: usize,
    pub end: usize,
}

/// The model of an expansion context.
pub struct ExpandModel {
    pub target: Tok,
    pub var: IdentModel,
    pub start: usize,
    pub end: usize,
}

impl View for ExpandContext {
    type V = ExpandModel;

    open spec fn view(&self) -> ExpandModel {
        ExpandModel { target: self.target@, var: self.iter_ident@, start: self.start, end: self.end }
    }
}

/// Why a macro invocation is refused.  A parse error is reported as a
/// compile error; the other three are refusals where the macro panics
/// (`Cannot sanitize`, an overflowing `end + 1`, `proc_macro2::Ident::new` on
/// a pasted text that is no identifier): the library reports them as values
/// and leaves the panic to its caller.
#[derive(Clone, Copy, Debug, PartialEq, Eq, Structural)]
pub enum SeqError {
    /// The input does not parse.
    Parse(ParseError),
    /// The body breaks the rules on where the loop variable and repetition
    /// groups may stand.
    CannotSanitize,
    /// An inclusive range ends at `usize::MAX`, so its exclusive end overflows.
    EndOverflow,
    /// The expansion holds an identifier whose name is no identifier (a
    /// concatenation such as `1 ~ N` pasted into `10`).
    NotAnIdentifier,
}

/// The model of a loop header.
pub struct HeaderModel {
    pub var: IdentModel,
    pub start: usize,
    pub end: usize,
}

/// How `syn` reads an integer literal at position `p`: a literal token, or
/// `-` followed by one.  `None` where there is no integer literal; otherwise
/// its value (if it is a `usize`) and the number of tokens it takes.
pub open spec fn int_literal_at(ts: Seq<Tok>, p: nat) -> Option<(Option<usize>, nat)> {
    if p < ts.len() && ts[p as int] is Literal {
        match syn_int_literal(ts[p as int]->text) {
            None => None,
            Some(v) => Some((v, 1)),
        }
    } else if punct_at(ts, p, '-') && p + 1 < ts.len() && ts[p + 1int] is Literal {
        match syn_int_literal(seq!['-'] + ts[p + 1int]->text) {
            None => None,
            Some(v) => Some((v, 2)),
        }
    } else {
        None
    }
}

/// Position `p` holds the keyword `in`.
pub open spec fn in_at(ts: Seq<Tok>, p: nat) -> bool {
    &&& p < ts.len()
    &&& ts[p as int] matches Tok::Ident(id)
    &&& !id.raw
    &&& id.name == seq!['i', 'n']
}

/// Position `p` holds `..`: a joint `.` followed by `.`.
pub open spec fn dot_dot_at(ts: Seq<Tok>, p: nat) -> bool {
    &&& punct_at(ts, p, '.')
    &&& ts[p as int]->spacing == Spacing::Joint
    &&& punct_at(ts, p + 1, '.')
}

/// The end bound at position `r` of an exclusive (`..`) or inclusive (`..=`)
/// range starting at `start`.
pub open spec fn parse_range_end(ts: Seq<Tok>, var: IdentModel, start: usize, r: nat, inclusive: bool) -> Result<
    (HeaderModel, nat),
    SeqError,
> {
    match int_literal_at(ts, r) {
        None => Err(SeqError::Parse(error_at(ErrorKind::ExpectedIntegerLiteral, ts, r))),
        Some((None, k)) => Err(SeqError::Parse(error_at(ErrorKind::ExpectedUsizeBase10, ts, r + k))),
        Some((Some(e), k)) => if inclusive && e == usize::MAX {
            Err(SeqError::EndOverflow)
        } else {
            Ok((HeaderModel { var, start, end: if inclusive { (e + 1) as usize } else { e } }, r + k))
        },
    }
}

/// The loop header at the start of `ts`: the header and the number of tokens it takes.
pub open spec fn parse_header(ts: Seq<Tok>) -> Result<(HeaderModel, nat), SeqError> {
    if !(0 < ts.len() && ts[0] is Ident) {
        Err(SeqError::Parse(error_at(ErrorKind::ExpectedIdentifier, ts, 0)))
    } else if !syn_accepts_ident(ident_text(ts[0]->Ident_0)) {
        Err(SeqError::Parse(error_at(ErrorKind::KeywordNotIdentifier, ts, 0)))
    } else if !in_at(ts, 1) {
        Err(SeqError::Parse(error_at(ErrorKind::ExpectedIn, ts, 1)))
    } else {
        match int_literal_at(ts, 2) {
            None => Err(SeqError::Parse(error_at(ErrorKind::ExpectedIntegerLiteral, ts, 2))),
            Some((None, k)) => Err(SeqError::Parse(error_at(ErrorKind::ExpectedUsizeBase10, ts, 2 + k))),
            Some((Some(start), k)) => {
                let q = 2 + k;
                if !dot_dot_at(ts, q) {
                    Err(SeqError::Parse(error_at(ErrorKind::ExpectedDotDot, ts, q)))
                } else if punct_at(ts, q + 2, '=') {
                    parse_range_end(ts, ts[0]->Ident_0, start, q + 3, true)
                } else {
                    parse_range_end(ts, ts[0]->Ident_0, start, q + 2, false)
                }
            },
        }
    }
}

/// The text of an identifier as written, `r#` in front of a raw one.
fn written_text(id: &Ident) -> (r: Vec<char>)
    ensures
        r@ == ident_text(id@),
{
    let mut r: Vec<char> = Vec::new();
    if id.raw {
        r.push('r');
        r.push('#');
    }
    let mut i: usize = 0;
    while i < id.name.len()
        invariant
            i <= id.name.len(),
            r@ == (if id.raw { seq!['r', '#'] } else { Seq::empty() }) + id.name@.subrange(0, i as int),
        decreases id.name.len() - i,
    {
        r.push(id.name[i]);
        i = i + 1;
        assert(r@ =~= (if id.raw { seq!['r', '#'] } else { Seq::empty() }) + id.name@.subrange(0, i as int));
    }
    assert(id.name@.subrange(0, i as int) =~= id.name@);
    proof {
        if !id.raw {
            assert(Seq::<char>::empty() + id.name@ =~= id.name@);
        }
    }
    r
}

/// Reads the integer literal at position `p` of `input` as `syn` does.
fn int_literal(input: &Vec<TokenTree>, p: usize) -> (r: Option<(Option<usize>, usize)>)
    ensures
        match (r, int_literal_at(toks_of(input@), p as nat)) {
            (None, None) => true,
            (Some((v, k)), Some((w, n))) => v == w && k == n,
            _ => false,
        },
        r matches Some((_, k)) ==> p + k <= input.len(),
{
    proof {
        lemma_toks_of_map(input@);
    }
    if p < input.len() {
        if let TokenTree::Literal { text, .. } = &input[p] {
            return match int_literal_value(text) {
                None => None,
                Some(v) => Some((v, 1)),
            };
        }
    }
    if is_punct(input, p, '-') && p + 1 < input.len() {
        if let TokenTree::Literal { text, .. } = &input[p + 1] {
            let mut negated: Vec<char> = Vec::new();
            negated.push('-');
            let mut i: usize = 0;
            while i < text.len()
                invariant
                    i <= text.len(),
                    negated@ == seq!['-'] + text@.subrange(0, i as int),
                decreases text.len() - i,
            {
                negated.push(text[i]);
                i = i + 1;
                assert(negated@ =~= seq!['-'] + text@.subrange(0, i as int));
            }
            assert(text@.subrange(0, i as int) =~= text@);
            return match int_literal_value(&negated) {
                None => None,
                Some(v) => Some((v, 2)),
            };
        }
    }
    None
}

impl ParseContext {
    /// The end bound at position `r` of a range starting at `start`.
    fn parse_end(input: &Vec<TokenTree>, iter_ident: Ident, start: usize, r: usize, inclusive: bool) -> (res: Result<
        (ParseContext, usize),
        SeqError,
    >)
        ensures
            match (res, parse_range_end(toks_of(input@), iter_ident@, start, r as nat, inclusive)) {
                (Ok((ctx, p)), Ok((h, n))) => ctx.var() == h.var && ctx.start == h.start && ctx.end
                    == h.end && p == n,
                (Err(e), Err(f)) => e == f,
                _ => false,
            },
    {
        match int_literal(input, r) {
            None => Err(SeqError::Parse(error_here(ErrorKind::ExpectedIntegerLiteral, input, r))),
            Some((None, k)) => Err(
                SeqError::Parse(error_here(ErrorKind::ExpectedUsizeBase10, input, r + k)),
            ),
            Some((Some(e), k)) => {
                if inclusive && e == usize::MAX {
                    return Err(SeqError::EndOverflow);
                }
                let end = if inclusive { e + 1 } else { e };
                proof {
                    lemma_toks_of_map(input@);
                }
                Ok((ParseContext { iter_ident, start, end }, r + k))
            },
        }
    }

    /// The loop header at the start of `input`, and the position after it.
    pub fn parse(input: &Vec<TokenTree>) -> (res: Result<(ParseContext, usize), SeqError>)
        ensures
            match (res, parse_header(toks_of(input@))) {
                (Ok((ctx, p)), Ok((h, n))) => ctx.var() == h.var && ctx.start == h.start && ctx.end
                    == h.end && p == n,
                (Err(e), Err(f)) => e == f,
                _ => false,
            },
    {
        proof {
            lemma_toks_of_map(input@);
        }
        let ghost ts = toks_of(input@);
        if input.len() == 0 {
            return Err(SeqError::Parse(error_here(ErrorKind::ExpectedIdentifier, input, 0)));
        }
        let iter_ident = match &input[0] {
            TokenTree::Ident(id) => id.duplicate(),
            _ => {
                return Err(SeqError::Parse(error_here(ErrorKind::ExpectedIdentifier, input, 0)));
            },
        };
        if !accepts_as_ident(&written_text(&iter_ident)) {
            return Err(SeqError::Parse(error_here(ErrorKind::KeywordNotIdentifier, input, 0)));
        }
        let is_in = input.len() > 1 && match &input[1] {
            TokenTree::Ident(id) => !id.raw && id.name.len() == 2 && id.name[0] == 'i' && id.name[1] == 'n',
            _ => false,
        };
        if !is_in {
            assert(!in_at(ts, 1)) by {
                if in_at(ts, 1) {
                    assert(ts[1]->Ident_0.name =~= seq!['i', 'n']);
                }
            }
            return Err(SeqError::Parse(error_here(ErrorKind::ExpectedIn, input, 1)));
        }
        assert(in_at(ts, 1)) by {
            assert(ts[1]->Ident_0.name =~= seq!['i', 'n']);
        }
        match int_literal(input, 2) {
            None => Err(SeqError::Parse(error_here(ErrorKind::ExpectedIntegerLiteral, input, 2))),
            Some((None, k)) => Err(SeqError::Parse(error_here(ErrorKind::ExpectedUsizeBase10, input, 2 + k))),
            Some((Some(start), k)) => {
                let q = 2 + k;
                let dot_dot = is_punct(input, q, '.') && match &input[q] {
                    TokenTree::Punct { spacing, .. } => *spacing == Spacing::Joint,
                    _ => false,
                } && is_punct(input, q + 1, '.');
                if !dot_dot {
                    return Err(SeqError::Parse(error_here(ErrorKind::ExpectedDotDot, input, q)));
                }
                if is_punct(input, q + 2, '=') {
                    Self::parse_end(input, iter_ident, start, q + 3, true)
                } else {
                    Self::parse_end(input, iter_ident, start, q + 2, false)
                }
            },
        }
    }
}

} // verus!

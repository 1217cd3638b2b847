//! What a body without `#` and `~` expands to: itself, with the loop variable
//! replaced by the value, once per value of the range.
use vstd::prelude::*;

use crate::context::{ExpandModel, HeaderModel, SeqError, parse_header};
use crate::cursor::{ParseOutcome, after_one, group_at, ident_at, punct_at, punct_second, same_ident};
use crate::expand::{expand, expand_all, expand_repeat, literal_token, with_value};
use crate::laws::{all_well_placed, lemma_sanitize, well_placed};
use crate::parse::{
    BodyOutcome, PartKind, concat_start, identity_run, identity_stop, left, parse_body, parse_group,
    parse_part, parse_repeat_group, parse_round, parts_of, repeat_start,
};
use crate::sections::Section;
use crate::seq_tree::{base_context, group_sections, idents_valid, seq_output, tok_idents_valid};
use crate::tokens::{IdentModel, Tok};
use crate::visit::{any_contains_repeat, contains_repeat};

verus! {

/// The token holds no `#` and no `~`, at any depth.
pub open spec fn plain_tok(t: Tok) -> bool
    decreases t, 0nat,
{
    match t {
        Tok::Group { stream, .. } => plain(stream),
        Tok::Punct { ch, .. } => ch != '#' && ch != '~',
        _ => true,
    }
}

/// No token of `ts` holds `#` or `~`, at any depth.
pub open spec fn plain(ts: Seq<Tok>) -> bool
    decreases ts, 1nat,
{
    ts.len() == 0 || (plain_tok(ts[0]) && plain(ts.drop_first()))
}

/// The token `t` with every occurrence of the identifier `var`, at any
/// depth, replaced by `target`.
pub open spec fn subst_tok(t: Tok, var: IdentModel, target: Tok) -> Tok
    decreases t, 0nat,
{
    match t {
        Tok::Group { delimiter, stream, span } => Tok::Group {
            delimiter,
            stream: subst(stream, var, target),
            span,
        },
        Tok::Ident(id) => if same_ident(id, var) {
            target
        } else {
            t
        },
        _ => t,
    }
}

/// The tokens of `ts` with every occurrence of `var` replaced by `target`.
pub open spec fn subst(ts: Seq<Tok>, var: IdentModel, target: Tok) -> Seq<Tok>
    decreases ts, 1nat,
{
    if ts.len() == 0 {
        Seq::empty()
    } else {
        seq![subst_tok(ts[0], var, target)] + subst(ts.drop_first(), var, target)
    }
}

/// `body` with `var` replaced by `n`, for each `n` from `n` up to `end`
/// (exclusive), one after the other.
pub open spec fn repeat_subst(body: Seq<Tok>, var: IdentModel, n: nat, end: usize) -> Seq<Tok>
    decreases end - n,
{
    if n >= end {
        Seq::empty()
    } else {
        subst(body, var, literal_token(n as usize)) + repeat_subst(body, var, n + 1, end)
    }
}

proof fn lemma_plain_index(ts: Seq<Tok>, i: int)
    requires
        plain(ts),
        0 <= i < ts.len(),
    ensures
        plain_tok(ts[i]),
    decreases ts.len(),
{
    if i > 0 {
        lemma_plain_index(ts.drop_first(), i - 1);
    }
}

proof fn lemma_subst_index(ts: Seq<Tok>, var: IdentModel, target: Tok)
    ensures
        subst(ts, var, target).len() == ts.len(),
        forall|i: int|
            0 <= i < ts.len() ==> #[trigger] subst(ts, var, target)[i] == subst_tok(ts[i], var, target),
    decreases ts.len(),
{
    if ts.len() > 0 {
        lemma_subst_index(ts.drop_first(), var, target);
        assert forall|i: int| 0 <= i < ts.len() implies #[trigger] subst(ts, var, target)[i]
            == subst_tok(ts[i], var, target) by {
            if i > 0 {
                assert(subst(ts.drop_first(), var, target)[i - 1] == subst_tok(
                    ts.drop_first()[i - 1],
                    var,
                    target,
                ));
            }
        }
    }
}

/// Replacing in a piece of `ts` is the piece of the replaced `ts`.
proof fn lemma_subst_subrange(ts: Seq<Tok>, a: int, b: int, var: IdentModel, target: Tok)
    requires
        0 <= a <= b <= ts.len(),
    ensures
        subst(ts.subrange(a, b), var, target) == subst(ts, var, target).subrange(a, b),
{
    lemma_subst_index(ts, var, target);
    lemma_subst_index(ts.subrange(a, b), var, target);
    assert(subst(ts.subrange(a, b), var, target) =~= subst(ts, var, target).subrange(a, b));
}

proof fn lemma_subst_single(t: Tok, var: IdentModel, target: Tok)
    ensures
        subst(seq![t], var, target) == seq![subst_tok(t, var, target)],
{
    assert(seq![t].drop_first() =~= Seq::<Tok>::empty());
    assert(subst(Seq::<Tok>::empty(), var, target) =~= Seq::<Tok>::empty());
    assert(seq![t][0] == t);
    assert(subst(seq![t], var, target) =~= seq![subst_tok(t, var, target)]);
}

proof fn lemma_expand_all_single(s: Section, cx: ExpandModel)
    ensures
        expand_all(seq![s], cx) == expand(s, cx),
{
    assert(seq![s].drop_first() =~= Seq::<Section>::empty());
    assert(expand_all(Seq::<Section>::empty(), cx) =~= Seq::<Tok>::empty());
    assert(seq![s][0] == s);
    assert(expand_all(seq![s], cx) =~= expand(s, cx));
}

/// Replacing in two adjacent pieces of `ts`.
proof fn lemma_subst_split(ts: Seq<Tok>, a: int, b: int, c: int, var: IdentModel, target: Tok)
    requires
        0 <= a <= b <= c <= ts.len(),
    ensures
        subst(ts.subrange(a, c), var, target) == subst(ts.subrange(a, b), var, target) + subst(
            ts.subrange(b, c),
            var,
            target,
        ),
{
    lemma_subst_index(ts, var, target);
    lemma_subst_subrange(ts, a, b, var, target);
    lemma_subst_subrange(ts, b, c, var, target);
    lemma_subst_subrange(ts, a, c, var, target);
    assert(subst(ts, var, target).subrange(a, c) =~= subst(ts, var, target).subrange(a, b) + subst(
        ts,
        var,
        target,
    ).subrange(b, c));
}

/// Expanding two lists of sections one after the other.
proof fn lemma_expand_all_add(a: Seq<Section>, b: Seq<Section>, cx: ExpandModel)
    ensures
        expand_all(a + b, cx) == expand_all(a, cx) + expand_all(b, cx),
    decreases a.len(),
{
    if a.len() == 0 {
        assert(a + b =~= b);
    } else {
        lemma_expand_all_add(a.drop_first(), b, cx);
        assert((a + b).drop_first() =~= a.drop_first() + b);
        assert(expand_all(a, cx) + expand_all(b, cx) =~= expand(a[0], cx) + (expand_all(
            a.drop_first(),
            cx,
        ) + expand_all(b, cx)));
    }
}

proof fn lemma_any_repeat_add(a: Seq<Section>, b: Seq<Section>)
    ensures
        any_contains_repeat(a + b) == (any_contains_repeat(a) || any_contains_repeat(b)),
    decreases a.len(),
{
    if a.len() == 0 {
        assert(a + b =~= b);
    } else {
        lemma_any_repeat_add(a.drop_first(), b);
        assert((a + b).drop_first() =~= a.drop_first() + b);
    }
}

proof fn lemma_identity_run_plain(ts: Seq<Tok>, p: nat, var: IdentModel, target: Tok)
    requires
        p <= ts.len(),
    ensures
        p + identity_run(ts, p, var) <= ts.len(),
        subst(ts.subrange(p as int, (p + identity_run(ts, p, var)) as int), var, target) == ts.subrange(
            p as int,
            (p + identity_run(ts, p, var)) as int,
        ),
    decreases ts.len() - p,
{
    let n = identity_run(ts, p, var);
    if identity_stop(ts, p, var) {
        assert(ts.subrange(p as int, p as int) =~= Seq::<Tok>::empty());
    } else {
        lemma_identity_run_plain(ts, p + 1, var, target);
        let rest = ts.subrange((p + 1) as int, (p + n) as int);
        assert(ts.subrange(p as int, (p + n) as int).drop_first() =~= rest);
        assert(ts.subrange(p as int, (p + n) as int)[0] == ts[p as int]);
        assert(subst_tok(ts[p as int], var, target) == ts[p as int]);
        assert(ts.subrange(p as int, (p + n) as int) =~= seq![ts[p as int]] + rest);
    }
}

/// A part parser of the group kind at position `q` of plain tokens either
/// declines or recognises a section without repetition groups that expands
/// to the tokens it consumed, the loop variable replaced.
proof fn lemma_part_plain(k: PartKind, ts: Seq<Tok>, q: nat, cx: ExpandModel)
    requires
        plain(ts),
        q <= ts.len(),
        parts_of(PartKind::Group).contains(k),
    ensures
        parse_part(k, ts, q, cx.var) matches Ok(r) && (r matches ParseOutcome::Valid((s, n)) ==> {
            &&& 1 <= n
            &&& q + n <= ts.len()
            &&& !contains_repeat(s)
            &&& expand(s, cx) == subst(ts.subrange(q as int, (q + n) as int), cx.var, cx.target)
        }),
        k == PartKind::Group && group_at(ts, q) ==> parse_part(k, ts, q, cx.var) is Ok && parse_part(
            k,
            ts,
            q,
            cx.var,
        )->Ok_0 is Valid,
        k == PartKind::Replace && ident_at(ts, q, cx.var) ==> parse_part(k, ts, q, cx.var) is Ok
            && parse_part(k, ts, q, cx.var)->Ok_0 is Valid,
        k == PartKind::Identity && q < ts.len() && !group_at(ts, q) && !ident_at(ts, q, cx.var)
            ==> parse_part(k, ts, q, cx.var) is Ok && parse_part(k, ts, q, cx.var)->Ok_0 is Valid,
    decreases ts, left(ts, q), 3nat,
{
    let var = cx.var;
    if q < ts.len() {
        lemma_plain_index(ts, q as int);
    }
    if punct_second(ts, q, '~') {
        lemma_plain_index(ts, after_one(ts, q) as int);
    }
    assert(!punct_second(ts, q, '~'));
    assert(!punct_at(ts, q, '#'));
    match k {
        PartKind::Identity => {
            lemma_identity_run_plain(ts, q, var, cx.target);
        },
        PartKind::Concat => {
            assert(!concat_start(ts, q));
        },
        PartKind::Replace => {
            if ident_at(ts, q, var) {
                assert(ts.subrange(q as int, (q + 1) as int) =~= seq![ts[q as int]]);
                lemma_subst_single(ts[q as int], var, cx.target);
            }
        },
        PartKind::RepeatGroup => {
            assert(!repeat_start(ts, q));
        },
        PartKind::Group => {
            if group_at(ts, q) {
                match ts[q as int] {
                    Tok::Group { delimiter, stream, span } => {
                        assert(decreases_to!(ts => ts[q as int]));
                        lemma_body_plain(stream, 0, cx);
                        assert(stream.skip(0) =~= stream);
                        assert(ts.subrange(q as int, (q + 1) as int) =~= seq![ts[q as int]]);
                        lemma_subst_single(ts[q as int], var, cx.target);
                        let ss = parse_body(stream, 0, PartKind::Group, var)->Ok_0->Sections_0;
                        assert(any_contains_repeat(ss) == false);
                        assert(!contains_repeat(Section::Group { sections: ss, delimiter, span }));
                    },
                    _ => {},
                }
            }
        },
        _ => {
            assert(false);
        },
    }
}

/// A round of the group kind over plain tokens from the `i`-th parser on
/// recognises sections that expand to the tokens consumed, the loop variable
/// replaced.
proof fn lemma_round_plain(ts: Seq<Tok>, q: nat, i: nat, cx: ExpandModel)
    requires
        plain(ts),
        q <= ts.len(),
    ensures
        parse_round(ts, q, PartKind::Group, i, cx.var) matches Ok((secs, n)) && {
            &&& q + n <= ts.len()
            &&& !any_contains_repeat(secs)
            &&& expand_all(secs, cx) == subst(ts.subrange(q as int, (q + n) as int), cx.var, cx.target)
        },
    decreases ts, left(ts, q), (15 - i) as nat,
{
    let var = cx.var;
    if i >= parts_of(PartKind::Group).len() {
        assert(ts.subrange(q as int, q as int) =~= Seq::<Tok>::empty());
        assert(subst(Seq::<Tok>::empty(), var, cx.target) =~= Seq::<Tok>::empty());
        assert(expand_all(Seq::<Section>::empty(), cx) =~= Seq::<Tok>::empty());
    } else {
        let k = parts_of(PartKind::Group)[i as int];
        assert(parts_of(PartKind::Group).contains(k));
        lemma_part_plain(k, ts, q, cx);
        match parse_part(k, ts, q, var) {
            Ok(ParseOutcome::RecoverableError) => {
                lemma_round_plain(ts, q, i + 1, cx);
            },
            Ok(ParseOutcome::Valid((s, n))) => {
                lemma_round_plain(ts, q + n, i + 1, cx);
                let (rest, m) = parse_round(ts, q + n, PartKind::Group, i + 1, var)->Ok_0;
                lemma_expand_all_add(seq![s], rest, cx);
                lemma_any_repeat_add(seq![s], rest);
                lemma_expand_all_single(s, cx);
                assert(seq![s].drop_first() =~= Seq::<Section>::empty());
                assert(!any_contains_repeat(Seq::<Section>::empty()));
                assert(seq![s][0] == s);
                assert(any_contains_repeat(seq![s]) == contains_repeat(s));
                lemma_subst_split(ts, q as int, (q + n) as int, (q + n + m) as int, var, cx.target);
            },
            _ => {},
        }
    }
}

/// A round of the group kind at a position inside plain tokens consumes
/// something.
proof fn lemma_round_progress(ts: Seq<Tok>, q: nat, cx: ExpandModel)
    requires
        plain(ts),
        q < ts.len(),
    ensures
        parse_round(ts, q, PartKind::Group, 0, cx.var) matches Ok((_, n)) && n > 0,
    decreases ts, left(ts, q), 16nat,
{
    let var = cx.var;
    let g = PartKind::Group;
    assert(parts_of(g)[0] == PartKind::Identity);
    assert(parts_of(g)[1] == PartKind::Concat);
    assert(parts_of(g)[2] == PartKind::Replace);
    assert(parts_of(g)[3] == PartKind::RepeatGroup);
    assert(parts_of(g)[4] == PartKind::Group);
    assert(parts_of(g).contains(PartKind::Identity));
    assert(parts_of(g).contains(PartKind::Concat));
    assert(parts_of(g).contains(PartKind::Replace));
    assert(parts_of(g).contains(PartKind::RepeatGroup));
    assert(parts_of(g).contains(PartKind::Group));
    lemma_part_plain(PartKind::Identity, ts, q, cx);
    lemma_part_plain(PartKind::Concat, ts, q, cx);
    lemma_part_plain(PartKind::Replace, ts, q, cx);
    lemma_part_plain(PartKind::RepeatGroup, ts, q, cx);
    lemma_part_plain(PartKind::Group, ts, q, cx);
    lemma_round_plain(ts, q, 0, cx);
    lemma_plain_index(ts, q as int);
    if punct_second(ts, q, '~') {
        lemma_plain_index(ts, after_one(ts, q) as int);
    }
    match parse_part(PartKind::Identity, ts, q, var) {
        Ok(ParseOutcome::Valid((_, n))) => {
            lemma_round_plain(ts, q + n, 1, cx);
        },
        _ => {
            lemma_round_plain(ts, q, 1, cx);
            assert(parse_part(PartKind::Concat, ts, q, var) == Ok::<_, crate::cursor::ParseError>(
                ParseOutcome::<(Section, nat)>::RecoverableError,
            ));
            lemma_round_plain(ts, q, 2, cx);
            if ident_at(ts, q, var) {
                let n = 1nat;
                lemma_round_plain(ts, q + 1, 3, cx);
            } else {
                assert(group_at(ts, q));
                lemma_round_plain(ts, q, 3, cx);
                lemma_round_plain(ts, q, 4, cx);
                lemma_round_plain(ts, q + 1, 5, cx);
            }
        },
    }
}

/// The contents of a group, plain tokens from position `q` on, parse as
/// sections without repetition groups that expand to those tokens, the loop
/// variable replaced.
proof fn lemma_body_plain(ts: Seq<Tok>, q: nat, cx: ExpandModel)
    requires
        plain(ts),
        q <= ts.len(),
    ensures
        parse_body(ts, q, PartKind::Group, cx.var) matches Ok(BodyOutcome::Sections(ss)) && {
            &&& !any_contains_repeat(ss)
            &&& expand_all(ss, cx) == subst(ts.skip(q as int), cx.var, cx.target)
        },
    decreases ts, left(ts, q), 20nat,
{
    let var = cx.var;
    if q >= ts.len() {
        assert(ts.skip(q as int) =~= Seq::<Tok>::empty());
    } else {
        lemma_round_plain(ts, q, 0, cx);
        lemma_round_progress(ts, q, cx);
        let (secs, n) = parse_round(ts, q, PartKind::Group, 0, var)->Ok_0;
        lemma_body_plain(ts, q + n, cx);
        let rest = parse_body(ts, q + n, PartKind::Group, var)->Ok_0->Sections_0;
        lemma_expand_all_add(secs, rest, cx);
        lemma_any_repeat_add(secs, rest);
        lemma_subst_split(ts, q as int, (q + n) as int, ts.len() as int, var, cx.target);
        assert(ts.skip(q as int) =~= ts.subrange(q as int, ts.len() as int));
        assert(ts.skip((q + n) as int) =~= ts.subrange((q + n) as int, ts.len() as int));
    }
}

proof fn lemma_no_repeat_well_placed(s: Section, inside: bool)
    requires
        !contains_repeat(s),
    ensures
        well_placed(s, false, inside),
    decreases s, 0nat,
{
    match s {
        Section::Group { sections, .. } => lemma_all_no_repeat(sections, inside),
        Section::NoNestRepeatGroup { sections } => lemma_all_no_repeat(sections, inside),
        Section::IdentityGroup { sections, .. } => lemma_all_no_repeat(sections, inside),
        Section::BaseNestRepeatGroup { sections } => lemma_all_no_repeat(sections, inside),
        _ => {},
    }
}

proof fn lemma_all_no_repeat(ss: Seq<Section>, inside: bool)
    requires
        !any_contains_repeat(ss),
    ensures
        all_well_placed(ss, false, inside),
    decreases ss, 1nat,
{
    if ss.len() > 0 {
        lemma_no_repeat_well_placed(ss[0], inside);
        lemma_all_no_repeat(ss.drop_first(), inside);
    }
}

proof fn lemma_repeat_plain(stream: Seq<Tok>, ss: Seq<Section>, h: HeaderModel, n: nat)
    requires
        plain(stream),
        parse_body(stream, 0, PartKind::Group, h.var) == Ok::<_, crate::cursor::ParseError>(
            BodyOutcome::Sections(ss),
        ),
    ensures
        expand_repeat(ss, base_context(h), n) == repeat_subst(stream, h.var, n, h.end),
    decreases h.end - n,
{
    if n < h.end {
        let cx = with_value(base_context(h), n as usize);
        lemma_body_plain(stream, 0, cx);
        assert(stream.skip(0) =~= stream);
        lemma_repeat_plain(stream, ss, h, n + 1);
    }
}

/// Identifiers stay valid across a concatenation.
proof fn lemma_idents_valid_add(a: Seq<Tok>, b: Seq<Tok>)
    ensures
        idents_valid(a + b) == (idents_valid(a) && idents_valid(b)),
    decreases a.len(),
{
    if a.len() == 0 {
        assert(a + b =~= b);
    } else {
        lemma_idents_valid_add(a.drop_first(), b);
        assert((a + b).drop_first() =~= a.drop_first() + b);
        assert((a + b)[0] == a[0]);
    }
}

proof fn lemma_subst_tok_valid(t: Tok, var: IdentModel, target: Tok)
    requires
        tok_idents_valid(t),
        tok_idents_valid(target),
    ensures
        tok_idents_valid(subst_tok(t, var, target)),
    decreases t, 0nat,
{
    if let Tok::Group { stream, .. } = t {
        lemma_subst_valid(stream, var, target);
    }
}

/// Replacing identifiers by a token whose identifiers are valid keeps all
/// identifiers valid.
proof fn lemma_subst_valid(ts: Seq<Tok>, var: IdentModel, target: Tok)
    requires
        idents_valid(ts),
        tok_idents_valid(target),
    ensures
        idents_valid(subst(ts, var, target)),
    decreases ts, 1nat,
{
    if ts.len() > 0 {
        lemma_subst_tok_valid(ts[0], var, target);
        lemma_subst_valid(ts.drop_first(), var, target);
        let head = seq![subst_tok(ts[0], var, target)];
        lemma_idents_valid_add(head, subst(ts.drop_first(), var, target));
        assert(head.drop_first() =~= Seq::<Tok>::empty());
        assert(idents_valid(Seq::<Tok>::empty()));
        assert(head[0] == subst_tok(ts[0], var, target));
        assert(idents_valid(head));
    } else {
        assert(subst(ts, var, target) =~= Seq::<Tok>::empty());
    }
}

proof fn lemma_repeat_subst_valid(body: Seq<Tok>, var: IdentModel, n: nat, end: usize)
    requires
        idents_valid(body),
    ensures
        idents_valid(repeat_subst(body, var, n, end)),
    decreases end - n,
{
    if n < end {
        lemma_subst_valid(body, var, literal_token(n as usize));
        lemma_repeat_subst_valid(body, var, n + 1, end);
        lemma_idents_valid_add(
            subst(body, var, literal_token(n as usize)),
            repeat_subst(body, var, n + 1, end),
        );
    }
}

/// The central promise of the macro: an invocation `N in a..b { body }` whose
/// body holds neither `#` nor `~` (and, as any real token stream, only valid
/// identifiers) expands to the body once per value of the
/// range, in order, with every `N` (at any depth) replaced by the value.
pub proof fn law_plain_body_repeated(ts: Seq<Tok>, p: nat)
    requires
        parse_header(ts) matches Ok((_, q)) && q == p,
        p + 1 == ts.len(),
        ts[p as int] is Group,
        plain(ts[p as int]->stream),
        idents_valid(ts[p as int]->stream),
    ensures
        seq_output(ts) == Ok::<_, SeqError>(
            repeat_subst(
                ts[p as int]->stream,
                parse_header(ts)->Ok_0.0.var,
                parse_header(ts)->Ok_0.0.start as nat,
                parse_header(ts)->Ok_0.0.end,
            ),
        ),
{
    let h = parse_header(ts)->Ok_0.0;
    let stream = ts[p as int]->stream;
    lemma_body_plain(stream, 0, base_context(h));
    let ss = parse_body(stream, 0, PartKind::Group, h.var)->Ok_0->Sections_0;
    let g = parse_group(ts, p, h.var)->Ok_0->Valid_0.0;
    assert(g == Section::Group { sections: ss, delimiter: ts[p as int]->delimiter, span: ts[p as int]->Group_span });
    assert(!contains_repeat(g));
    lemma_all_no_repeat(ss, false);
    lemma_sanitize(g, false, false);
    lemma_repeat_plain(stream, ss, h, h.start as nat);
    lemma_repeat_subst_valid(stream, h.var, h.start as nat, h.end);
    assert(group_sections(g) == ss);
}

/// No token of `ts` is a group.
pub open spec fn flat(ts: Seq<Tok>) -> bool {
    forall|i: int| 0 <= i < ts.len() ==> !(#[trigger] ts[i] is Group)
}

/// Inside a repetition group, a part parser at position `q` of flat plain
/// tokens either declines or recognises a section that expands to the tokens
/// it consumed, the loop variable replaced.
proof fn lemma_part_flat(k: PartKind, ts: Seq<Tok>, q: nat, cx: ExpandModel)
    requires
        plain(ts),
        flat(ts),
        q <= ts.len(),
        parts_of(PartKind::RepeatGroup).contains(k),
    ensures
        parse_part(k, ts, q, cx.var) matches Ok(r) && (r matches ParseOutcome::Valid((s, n)) ==> {
            &&& 1 <= n
            &&& q + n <= ts.len()
            &&& expand(s, cx) == subst(ts.subrange(q as int, (q + n) as int), cx.var, cx.target)
        }),
        k == PartKind::Replace && ident_at(ts, q, cx.var) ==> parse_part(k, ts, q, cx.var) is Ok
            && parse_part(k, ts, q, cx.var)->Ok_0 is Valid,
        k == PartKind::Identity && q < ts.len() && !ident_at(ts, q, cx.var) ==> parse_part(
            k,
            ts,
            q,
            cx.var,
        ) is Ok && parse_part(k, ts, q, cx.var)->Ok_0 is Valid,
{
    let var = cx.var;
    if q < ts.len() {
        lemma_plain_index(ts, q as int);
    }
    if punct_second(ts, q, '~') {
        lemma_plain_index(ts, after_one(ts, q) as int);
    }
    assert(!group_at(ts, q));
    match k {
        PartKind::Identity => {
            lemma_identity_run_plain(ts, q, var, cx.target);
        },
        PartKind::Concat => {
            assert(!concat_start(ts, q));
        },
        PartKind::Replace => {
            if ident_at(ts, q, var) {
                assert(ts.subrange(q as int, (q + 1) as int) =~= seq![ts[q as int]]);
                lemma_subst_single(ts[q as int], var, cx.target);
            }
        },
        PartKind::NoNestRepeatGroup => {},
        _ => {
            assert(false);
        },
    }
}

proof fn lemma_round_flat(ts: Seq<Tok>, q: nat, i: nat, cx: ExpandModel)
    requires
        plain(ts),
        flat(ts),
        q <= ts.len(),
    ensures
        parse_round(ts, q, PartKind::RepeatGroup, i, cx.var) matches Ok((secs, n)) && {
            &&& q + n <= ts.len()
            &&& expand_all(secs, cx) == subst(ts.subrange(q as int, (q + n) as int), cx.var, cx.target)
        },
    decreases ts.len() - q, 15 - i,
{
    let var = cx.var;
    let c = PartKind::RepeatGroup;
    if i >= parts_of(c).len() {
        assert(ts.subrange(q as int, q as int) =~= Seq::<Tok>::empty());
        assert(subst(Seq::<Tok>::empty(), var, cx.target) =~= Seq::<Tok>::empty());
        assert(expand_all(Seq::<Section>::empty(), cx) =~= Seq::<Tok>::empty());
    } else {
        let k = parts_of(c)[i as int];
        assert(parts_of(c).contains(k));
        lemma_part_flat(k, ts, q, cx);
        match parse_part(k, ts, q, var) {
            Ok(ParseOutcome::RecoverableError) => {
                lemma_round_flat(ts, q, i + 1, cx);
            },
            Ok(ParseOutcome::Valid((s, n))) => {
                lemma_round_flat(ts, q + n, i + 1, cx);
                let (rest, m) = parse_round(ts, q + n, c, i + 1, var)->Ok_0;
                lemma_expand_all_add(seq![s], rest, cx);
                lemma_expand_all_single(s, cx);
                lemma_subst_split(ts, q as int, (q + n) as int, (q + n + m) as int, var, cx.target);
            },
            _ => {},
        }
    }
}

proof fn lemma_body_flat(ts: Seq<Tok>, q: nat, cx: ExpandModel)
    requires
        plain(ts),
        flat(ts),
        q <= ts.len(),
    ensures
        parse_body(ts, q, PartKind::RepeatGroup, cx.var) matches Ok(BodyOutcome::Sections(ss))
            && expand_all(ss, cx) == subst(ts.skip(q as int), cx.var, cx.target),
    decreases ts.len() - q,
{
    let var = cx.var;
    let c = PartKind::RepeatGroup;
    if q >= ts.len() {
        assert(ts.skip(q as int) =~= Seq::<Tok>::empty());
        assert(subst(Seq::<Tok>::empty(), var, cx.target) =~= Seq::<Tok>::empty());
    } else {
        lemma_round_flat(ts, q, 0, cx);
        assert(parts_of(c)[0] == PartKind::Identity);
        assert(parts_of(c)[1] == PartKind::Concat);
        assert(parts_of(c)[2] == PartKind::Replace);
        assert(parts_of(c).contains(PartKind::Identity));
        assert(parts_of(c).contains(PartKind::Concat));
        assert(parts_of(c).contains(PartKind::Replace));
        lemma_part_flat(PartKind::Identity, ts, q, cx);
        lemma_part_flat(PartKind::Concat, ts, q, cx);
        lemma_part_flat(PartKind::Replace, ts, q, cx);
        lemma_plain_index(ts, q as int);
        if punct_second(ts, q, '~') {
            lemma_plain_index(ts, after_one(ts, q) as int);
        }
        match parse_part(PartKind::Identity, ts, q, var) {
            Ok(ParseOutcome::Valid((_, n))) => {
                lemma_round_flat(ts, q + n, 1, cx);
            },
            _ => {
                lemma_round_flat(ts, q, 1, cx);
                lemma_round_flat(ts, q, 2, cx);
                lemma_round_flat(ts, q + 1, 3, cx);
            },
        }
        let (secs, n) = parse_round(ts, q, c, 0, var)->Ok_0;
        assert(n > 0);
        lemma_body_flat(ts, q + n, cx);
        let rest = parse_body(ts, q + n, c, var)->Ok_0->Sections_0;
        lemma_expand_all_add(secs, rest, cx);
        lemma_subst_split(ts, q as int, (q + n) as int, ts.len() as int, var, cx.target);
        assert(ts.skip(q as int) =~= ts.subrange(q as int, ts.len() as int));
        assert(ts.skip((q + n) as int) =~= ts.subrange((q + n) as int, ts.len() as int));
    }
}

proof fn lemma_repeat_flat(body: Seq<Tok>, ss: Seq<Section>, cx: ExpandModel, n: nat)
    requires
        plain(body),
        flat(body),
        parse_body(body, 0, PartKind::RepeatGroup, cx.var) == Ok::<_, crate::cursor::ParseError>(
            BodyOutcome::Sections(ss),
        ),
    ensures
        expand_repeat(ss, cx, n) == repeat_subst(body, cx.var, n, cx.end),
    decreases cx.end - n,
{
    if n < cx.end {
        lemma_body_flat(body, 0, with_value(cx, n as usize));
        assert(body.skip(0) =~= body);
        lemma_repeat_flat(body, ss, cx, n + 1);
    }
}

/// A repetition group `#( body )*` whose body holds no group, no `#` and no
/// `~` expands to the body once per value of the range, in order, with the
/// loop variable replaced by the value.
pub proof fn law_repetition_group_repeats_body(ts: Seq<Tok>, p: nat, cx: ExpandModel)
    requires
        repeat_start(ts, p),
        punct_at(ts, p + 2, '*'),
        plain(ts[p + 1int]->stream),
        flat(ts[p + 1int]->stream),
    ensures
        parse_repeat_group(ts, p, cx.var) matches Ok(ParseOutcome::Valid((s, n))) && n == 3
            && expand(s, cx) == repeat_subst(ts[p + 1int]->stream, cx.var, cx.start as nat, cx.end),
{
    let body = ts[p + 1int]->stream;
    lemma_body_flat(body, 0, cx);
    let ss = parse_body(body, 0, PartKind::RepeatGroup, cx.var)->Ok_0->Sections_0;
    lemma_repeat_flat(body, ss, cx, cx.start as nat);
}

/// The token does not mention the identifier `var`, at any depth.
pub open spec fn tok_free_of(t: Tok, var: IdentModel) -> bool
    decreases t, 0nat,
{
    match t {
        Tok::Group { stream, .. } => free_of(stream, var),
        Tok::Ident(id) => !same_ident(id, var),
        _ => true,
    }
}

/// No token of `ts` mentions the identifier `var`, at any depth.
pub open spec fn free_of(ts: Seq<Tok>, var: IdentModel) -> bool
    decreases ts, 1nat,
{
    ts.len() == 0 || (tok_free_of(ts[0], var) && free_of(ts.drop_first(), var))
}

proof fn lemma_subst_tok_free(t: Tok, var: IdentModel, target: Tok)
    requires
        tok_free_of(t, var),
    ensures
        subst_tok(t, var, target) == t,
    decreases t, 0nat,
{
    if let Tok::Group { stream, .. } = t {
        lemma_subst_free(stream, var, target);
    }
}

/// Replacing an identifier that does not occur changes nothing.
proof fn lemma_subst_free(ts: Seq<Tok>, var: IdentModel, target: Tok)
    requires
        free_of(ts, var),
    ensures
        subst(ts, var, target) == ts,
    decreases ts, 1nat,
{
    if ts.len() > 0 {
        lemma_subst_tok_free(ts[0], var, target);
        lemma_subst_free(ts.drop_first(), var, target);
        assert(ts =~= seq![ts[0]] + ts.drop_first());
    } else {
        assert(subst(ts, var, target) =~= ts);
    }
}

/// Parsing a group that holds no `#`, no `~` and no loop variable, at any
/// depth, and expanding it gives the group back, token for token, with the
/// same delimiters and spans at every depth.
pub proof fn law_group_round_trip(ts: Seq<Tok>, p: nat, cx: ExpandModel)
    requires
        group_at(ts, p),
        plain(ts[p as int]->stream),
        free_of(ts[p as int]->stream, cx.var),
    ensures
        parse_group(ts, p, cx.var) matches Ok(ParseOutcome::Valid((g, n))) && n == 1 && expand(g, cx)
            == seq![ts[p as int]],
{
    let stream = ts[p as int]->stream;
    lemma_body_plain(stream, 0, cx);
    assert(stream.skip(0) =~= stream);
    lemma_subst_free(stream, cx.var, cx.target);
}

} // verus!

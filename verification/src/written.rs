//! What the library writes: the text of a loop value, the name a
//! concatenation pastes, and the identifiers of an accepted expansion.
use vstd::prelude::*;

use crate::context::ExpandModel;
use crate::cursor::same_ident;
use crate::expand::{concat_text, literal_token, with_value};
use crate::seq_tree::{idents_valid, seq_output, tok_idents_valid};
use crate::syntax::{decimal_text, ident_name_valid, raw_forbidden};
use crate::tokens::{IdentModel, SpanId, Tok};

verus! {

/// The value of a decimal digit character.
pub open spec fn digit_value(c: char) -> int {
    (c as int) - ('0' as int)
}

/// The character is one of `0` to `9`.
pub open spec fn is_digit(c: char) -> bool {
    '0' <= c && c <= '9'
}

/// The number the decimal digits `s` denote, most significant first.
pub open spec fn decimal_value(s: Seq<char>) -> int
    decreases s.len(),
{
    if s.len() == 0 {
        0
    } else {
        decimal_value(s.drop_last()) * 10 + digit_value(s.last())
    }
}

/// The text written for the loop value `n` is a decimal numeral that denotes
/// `n`: digits only, denoting `n`, and without a leading zero (so two values
/// are never written alike).
pub proof fn law_value_written_in_decimal(n: nat)
    ensures
        decimal_text(n).len() > 0,
        forall|i: int| 0 <= i < decimal_text(n).len() ==> is_digit(#[trigger] decimal_text(n)[i]),
        decimal_value(decimal_text(n)) == n,
        decimal_text(n).len() > 1 ==> decimal_text(n)[0] != '0',
        n > 0 ==> decimal_text(n)[0] != '0',
    decreases n,
{
    if n < 10 {
        let t = decimal_text(n);
        assert(t.len() == 1);
        assert(t.drop_last() =~= Seq::<char>::empty());
        assert(digit_value(t.last()) == n) by {
            if n == 0 {} else if n == 1 {} else if n == 2 {} else if n == 3 {} else if n == 4 {}
            else if n == 5 {} else if n == 6 {} else if n == 7 {} else if n == 8 {} else {}
        }
        assert(is_digit(t[0])) by {
            if n == 0 {} else if n == 1 {} else if n == 2 {} else if n == 3 {} else if n == 4 {}
            else if n == 5 {} else if n == 6 {} else if n == 7 {} else if n == 8 {} else {}
        }
        assert(decimal_value(t.drop_last()) == 0);
        assert(decimal_value(t) == decimal_value(t.drop_last()) * 10 + digit_value(t.last()));
    } else {
        let q = n / 10;
        let r = n % 10;
        law_value_written_in_decimal(q);
        let head = decimal_text(q);
        let t = decimal_text(n);
        assert(t == head + seq![crate::syntax::digit_char(r)]);
        assert(t.drop_last() =~= head);
        assert(t.last() == crate::syntax::digit_char(r));
        assert(digit_value(crate::syntax::digit_char(r)) == r && is_digit(crate::syntax::digit_char(r))) by {
            if r == 0 {} else if r == 1 {} else if r == 2 {} else if r == 3 {} else if r == 4 {}
            else if r == 5 {} else if r == 6 {} else if r == 7 {} else if r == 8 {} else {}
        }
        assert(n == q * 10 + r);
        assert(decimal_value(t) == decimal_value(t.drop_last()) * 10 + digit_value(t.last()));
        assert(decimal_value(t) == q * 10 + r);
        assert forall|i: int| 0 <= i < t.len() implies is_digit(#[trigger] t[i]) by {
            if i < head.len() {
                assert(t[i] == head[i]);
            }
        }
        assert(t[0] == head[0]);
    }
}

/// Pasting two runs of pieces one after the other pastes their names one
/// after the other.
pub proof fn law_concat_text_append(a: Seq<Tok>, b: Seq<Tok>, cx: ExpandModel)
    ensures
        concat_text(a + b, cx) == concat_text(a, cx) + concat_text(b, cx),
    decreases a.len(),
{
    if a.len() == 0 {
        assert(a + b =~= b);
        assert(concat_text(a, cx) + concat_text(b, cx) =~= concat_text(b, cx));
    } else {
        law_concat_text_append(a.drop_first(), b, cx);
        assert((a + b).drop_first() =~= a.drop_first() + b);
        assert((a + b)[0] == a[0]);
        let h = crate::expand::token_text(crate::expand::substitute(a[0], cx));
        assert(h + (concat_text(a.drop_first(), cx) + concat_text(b, cx)) =~= (h + concat_text(
            a.drop_first(),
            cx,
        )) + concat_text(b, cx));
    }
}

/// A single piece pasted on its own: a literal gives its whole text, a
/// punctuation character itself, an identifier other than the loop variable
/// its name as written (with `r#` for a raw one), and the loop variable the
/// decimal digits of the value it stands for.
pub proof fn law_concat_single_piece(t: Tok, cx: ExpandModel, n: usize)
    ensures
        t matches Tok::Literal { text, .. } ==> concat_text(seq![t], cx) == text,
        t matches Tok::Punct { ch, .. } ==> concat_text(seq![t], cx) == seq![ch],
        t matches Tok::Ident(id) ==> (!same_ident(id, cx.var) && !id.raw ==> concat_text(
            seq![t],
            cx,
        ) == id.name),
        t matches Tok::Ident(id) ==> (!same_ident(id, cx.var) && id.raw ==> concat_text(
            seq![t],
            cx,
        ) == seq!['r', '#'] + id.name),
        t matches Tok::Ident(id) ==> (same_ident(id, cx.var) ==> concat_text(
            seq![t],
            with_value(cx, n),
        ) == decimal_text(n as nat)),
{
    assert(seq![t].drop_first() =~= Seq::<Tok>::empty());
    assert(seq![t][0] == t);
    let e = concat_text(Seq::<Tok>::empty(), cx);
    assert(e =~= Seq::<char>::empty());
    assert(concat_text(Seq::<Tok>::empty(), with_value(cx, n)) =~= Seq::<char>::empty());
    let c = concat_text(seq![t], cx);
    match t {
        Tok::Literal { text, .. } => {
            assert(c =~= text);
        },
        Tok::Punct { ch, .. } => {
            assert(c =~= seq![ch]);
        },
        Tok::Ident(id) => {
            if !same_ident(id, cx.var) {
                if id.raw {
                    assert(c =~= seq!['r', '#'] + id.name);
                } else {
                    assert(c =~= id.name);
                }
            } else {
                assert(concat_text(seq![t], with_value(cx, n)) =~= decimal_text(n as nat));
            }
        },
        _ => {},
    }
}

/// `x ~ N` with `N` standing for `n` pastes the name of `x` followed by the
/// decimal digits of `n`.
pub proof fn law_concat_ident_value(x: IdentModel, v: IdentModel, cx: ExpandModel, n: usize)
    requires
        !x.raw,
        !same_ident(x, cx.var),
        same_ident(v, cx.var),
    ensures
        concat_text(seq![Tok::Ident(x), Tok::Ident(v)], with_value(cx, n)) == x.name + decimal_text(
            n as nat,
        ),
{
    let cxn = with_value(cx, n);
    let pieces = seq![Tok::Ident(x), Tok::Ident(v)];
    assert(pieces =~= seq![Tok::Ident(x)] + seq![Tok::Ident(v)]);
    law_concat_text_append(seq![Tok::Ident(x)], seq![Tok::Ident(v)], cxn);
    law_concat_single_piece(Tok::Ident(x), cxn, n);
    law_concat_single_piece(Tok::Ident(v), cx, n);
}

/// The identifier `id` occurs in the token, at any depth.
pub open spec fn tok_mentions(t: Tok, id: IdentModel) -> bool
    decreases t, 0nat,
{
    match t {
        Tok::Group { stream, .. } => mentions(stream, id),
        Tok::Ident(x) => x == id,
        _ => false,
    }
}

/// The identifier `id` occurs in `ts`, at any depth.
pub open spec fn mentions(ts: Seq<Tok>, id: IdentModel) -> bool
    decreases ts, 1nat,
{
    ts.len() > 0 && (tok_mentions(ts[0], id) || mentions(ts.drop_first(), id))
}

proof fn lemma_tok_valid_mentions(t: Tok, id: IdentModel)
    requires
        tok_idents_valid(t),
        tok_mentions(t, id),
    ensures
        ident_name_valid(id.name),
        id.raw ==> !raw_forbidden(id.name),
    decreases t, 0nat,
{
    if let Tok::Group { stream, .. } = t {
        lemma_valid_mentions(stream, id);
    }
}

proof fn lemma_valid_mentions(ts: Seq<Tok>, id: IdentModel)
    requires
        idents_valid(ts),
        mentions(ts, id),
    ensures
        ident_name_valid(id.name),
        id.raw ==> !raw_forbidden(id.name),
    decreases ts, 1nat,
{
    if tok_mentions(ts[0], id) {
        lemma_tok_valid_mentions(ts[0], id);
    } else {
        lemma_valid_mentions(ts.drop_first(), id);
    }
}

/// Every identifier anywhere in an accepted expansion, with repetition groups
/// or without, has a name `proc_macro2::Ident::new` accepts (and a raw one a
/// name `Ident::new_raw` accepts).
pub proof fn law_output_identifiers_valid(ts: Seq<Tok>, id: IdentModel)
    ensures
        seq_output(ts) matches Ok(out) ==> (mentions(out, id) ==> ident_name_valid(id.name) && (id.raw
            ==> !raw_forbidden(id.name))),
{
    if let Ok(out) = seq_output(ts) {
        if mentions(out, id) {
            lemma_valid_mentions(out, id);
        }
    }
}

} // verus!

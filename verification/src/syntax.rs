//! What the library takes from `syn` and `unicode-ident`: the reading of
//! integer literals, the check that a word may serve as an identifier, and the
//! character classes of identifiers; and the text of an unsuffixed integer
//! literal and the identifier check of `proc-macro2`.
use vstd::prelude::*;

verus! {

/// How `syn` reads `text` as an integer literal: `None` where `syn` does not
/// take it for an integer literal, `Some(None)` where it does but the literal's
/// base-10 value is no `usize`, and `Some(Some(v))` where that value is `v`.
pub uninterp spec fn syn_int_literal(text: Seq<char>) -> Option<Option<usize>>;

/// Whether `syn` accepts the identifier written `text` where it expects an
/// identifier (it refuses keywords and `_`).
pub uninterp spec fn syn_accepts_ident(text: Seq<char>) -> bool;

/// The decimal digit for `d < 10`.
pub open spec fn digit_char(d: nat) -> char {
    if d == 0 {
        '0'
    } else if d == 1 {
        '1'
    } else if d == 2 {
        '2'
    } else if d == 3 {
        '3'
    } else if d == 4 {
        '4'
    } else if d == 5 {
        '5'
    } else if d == 6 {
        '6'
    } else if d == 7 {
        '7'
    } else if d == 8 {
        '8'
    } else {
        '9'
    }
}

/// The decimal representation of `n`, without leading zeros.
pub open spec fn decimal_text(n: nat) -> Seq<char>
    decreases n,
{
    if n < 10 {
        seq![digit_char(n)]
    } else {
        decimal_text(n / 10) + seq![digit_char(n % 10)]
    }
}

/// Reads `text` the way `syn` reads an integer literal
/// (`syn::parse_str::<syn::LitInt>` then `LitInt::base10_parse::<usize>`).
/// The contract claims only that the result is `syn_int_literal(text)`.
#[verifier::external_body]
pub(crate) fn int_literal_value(text: &Vec<char>) -> (r: Option<Option<usize>>)
    ensures
        r == syn_int_literal(text@),
{
    let s: String = text.iter().collect();
    match syn::parse_str::<syn::LitInt>(&s) {
        Ok(lit) => Some(lit.base10_parse::<usize>().ok()),
        Err(_) => None,
    }
}

/// Whether `syn` parses the identifier written `text` as a `syn::Ident`
/// (`syn::parse_str::<syn::Ident>`). The contract claims only that the result
/// is `syn_accepts_ident(text)`.
#[verifier::external_body]
pub(crate) fn accepts_as_ident(text: &Vec<char>) -> (r: bool)
    ensures
        r == syn_accepts_ident(text@),
{
    let s: String = text.iter().collect();
    syn::parse_str::<syn::Ident>(&s).is_ok()
}

/// The decimal digit for `d < 10`.
fn digit(d: usize) -> (r: char)
    requires
        d < 10,
    ensures
        r == digit_char(d as nat),
{
    match d {
        0 => '0',
        1 => '1',
        2 => '2',
        3 => '3',
        4 => '4',
        5 => '5',
        6 => '6',
        7 => '7',
        8 => '8',
        _ => '9',
    }
}

/// The text of the unsuffixed integer literal `n`: its decimal digits.
pub fn usize_unsuffixed_text(n: usize) -> (r: Vec<char>)
    ensures
        r@ == decimal_text(n as nat),
        crate::written::decimal_value(r@) == n,
        r@.len() > 1 ==> r@[0] != '0',
    decreases n,
{
    proof {
        crate::written::law_value_written_in_decimal(n as nat);
    }
    if n < 10 {
        let mut r: Vec<char> = Vec::new();
        r.push(digit(n));
        assert(r@ =~= seq![digit_char(n as nat)]);
        r
    } else {
        let mut r = usize_unsuffixed_text(n / 10);
        r.push(digit(n % 10));
        assert(r@ =~= decimal_text((n / 10) as nat) + seq![digit_char((n % 10) as nat)]);
        r
    }
}

/// Whether `unicode-ident` counts `c` as `XID_Start`.
pub uninterp spec fn xid_start(c: char) -> bool;

/// Whether `unicode-ident` counts `c` as `XID_Continue`.
pub uninterp spec fn xid_continue(c: char) -> bool;

/// `unicode_ident::is_xid_start`: the contract claims only that the result
/// is `xid_start(c)`.
#[verifier::external_body]
pub(crate) fn is_xid_start(c: char) -> (r: bool)
    ensures
        r == xid_start(c),
{
    unicode_ident::is_xid_start(c)
}

/// `unicode_ident::is_xid_continue`: the contract claims only that the result
/// is `xid_continue(c)`.
#[verifier::external_body]
pub(crate) fn is_xid_continue(c: char) -> (r: bool)
    ensures
        r == xid_continue(c),
{
    unicode_ident::is_xid_continue(c)
}

/// A character an identifier may start with.
pub open spec fn ident_start(c: char) -> bool {
    c == '_' || xid_start(c)
}

/// Every character of `s` is an ASCII digit.
pub open spec fn all_digits(s: Seq<char>) -> bool {
    forall|i: int| 0 <= i < s.len() ==> '0' <= #[trigger] s[i] <= '9'
}

/// The text `proc_macro2::Ident::new` accepts as an identifier: not empty,
/// not a number, an identifier-start character followed by
/// identifier-continue characters.
pub open spec fn ident_name_valid(s: Seq<char>) -> bool {
    &&& s.len() > 0
    &&& !all_digits(s)
    &&& ident_start(s[0])
    &&& forall|i: int| 1 <= i < s.len() ==> xid_continue(#[trigger] s[i])
}

/// The names `proc_macro2::Ident::new_raw` refuses besides those `new` refuses.
pub open spec fn raw_forbidden(s: Seq<char>) -> bool {
    ||| s == seq!['_']
    ||| s == seq!['s', 'u', 'p', 'e', 'r']
    ||| s == seq!['s', 'e', 'l', 'f']
    ||| s == seq!['S', 'e', 'l', 'f']
    ||| s == seq!['c', 'r', 'a', 't', 'e']
}

/// Whether `name` is a valid identifier, written raw or not.
pub fn ident_name_is_valid(name: &Vec<char>, raw: bool) -> (r: bool)
    ensures
        r == (ident_name_valid(name@) && (raw ==> !raw_forbidden(name@))),
{
    if name.len() == 0 {
        return false;
    }
    let mut digits = true;
    let mut i: usize = 0;
    while i < name.len()
        invariant
            i <= name.len(),
            digits == (forall|j: int| 0 <= j < i ==> '0' <= #[trigger] name@[j] <= '9'),
        decreases name.len() - i,
    {
        digits = digits && '0' <= name[i] && name[i] <= '9';
        i = i + 1;
    }
    if digits {
        return false;
    }
    if !(name[0] == '_' || is_xid_start(name[0])) {
        return false;
    }
    let mut j: usize = 1;
    while j < name.len()
        invariant
            1 <= j <= name.len(),
            forall|k: int| 1 <= k < j ==> xid_continue(#[trigger] name@[k]),
        decreases name.len() - j,
    {
        if !is_xid_continue(name[j]) {
            return false;
        }
        j = j + 1;
    }
    if raw {
        let n = name.len();
        let forbidden = (n == 1 && name[0] == '_')
            || (n == 5 && name[0] == 's' && name[1] == 'u' && name[2] == 'p' && name[3] == 'e' && name[4] == 'r')
            || (n == 4 && name[0] == 's' && name[1] == 'e' && name[2] == 'l' && name[3] == 'f')
            || (n == 4 && name[0] == 'S' && name[1] == 'e' && name[2] == 'l' && name[3] == 'f')
            || (n == 5 && name[0] == 'c' && name[1] == 'r' && name[2] == 'a' && name[3] == 't' && name[4] == 'e');
        assert(forbidden == raw_forbidden(name@)) by {
            if n == 1 { assert(name@ =~= seq!['_'] <==> name@[0] == '_'); }
            if n == 5 {
                assert((name@ =~= seq!['s', 'u', 'p', 'e', 'r']) <==> (name@[0] == 's' && name@[1] == 'u' && name@[2] == 'p' && name@[3] == 'e' && name@[4] == 'r'));
                assert((name@ =~= seq!['c', 'r', 'a', 't', 'e']) <==> (name@[0] == 'c' && name@[1] == 'r' && name@[2] == 'a' && name@[3] == 't' && name@[4] == 'e'));
            }
            if n == 4 {
                assert((name@ =~= seq!['s', 'e', 'l', 'f']) <==> (name@[0] == 's' && name@[1] == 'e' && name@[2] == 'l' && name@[3] == 'f'));
                assert((name@ =~= seq!['S', 'e', 'l', 'f']) <==> (name@[0] == 'S' && name@[1] == 'e' && name@[2] == 'l' && name@[3] == 'f'));
            }
        }
        if forbidden {
            return false;
        }
    }
    true
}

} // verus!

//! Properties of the library as a whole.
use vstd::prelude::*;

use crate::context::ExpandModel;
use crate::expand::{expand, expand_all, expand_repeat, with_value};
use crate::sections::Section;
use crate::context::HeaderModel;
use crate::context::parse_header;
use crate::seq_tree::{SeqModel, base_context, group_sections, seq_expansion, seq_output};
use crate::tokens::Tok;
use crate::visit::{sanitize, sanitize_all};

verus! {

/// The placement rule the check enforces, stated without the walk's flag:
/// no repeating section inside another, and, where the body holds a
/// repeating section (`repeats`), the loop variable and concatenations only
/// inside one.  `inside` tells whether `s` lies inside a repeating section.
pub open spec fn well_placed(s: Section, repeats: bool, inside: bool) -> bool
    decreases s, 0nat,
{
    match s {
        Section::Identity { .. } => true,
        Section::Concat { .. } => !repeats || inside,
        Section::Replace => !repeats || inside,
        Section::RepeatGroup { sections } => !inside && all_well_placed(sections, repeats, true),
        Section::BaseNoNestRepeatGroup { sections } => !inside && all_well_placed(
            sections,
            repeats,
            true,
        ),
        Section::Group { sections, .. } => all_well_placed(sections, repeats, inside),
        Section::NoNestRepeatGroup { sections } => all_well_placed(sections, repeats, inside),
        Section::IdentityGroup { sections, .. } => all_well_placed(sections, repeats, inside),
        Section::BaseNestRepeatGroup { sections } => all_well_placed(sections, repeats, inside),
    }
}

/// Every section of `ss` is well placed.
pub open spec fn all_well_placed(ss: Seq<Section>, repeats: bool, inside: bool) -> bool
    decreases ss, 1nat,
{
    if ss.len() == 0 {
        true
    } else {
        well_placed(ss[0], repeats, inside) && all_well_placed(ss.drop_first(), repeats, inside)
    }
}

/// `all_well_placed` holds exactly when every element is well placed.
pub proof fn lemma_all_well_placed(ss: Seq<Section>, repeats: bool, inside: bool)
    ensures
        all_well_placed(ss, repeats, inside) <==> forall|k: int|
            0 <= k < ss.len() ==> #[trigger] well_placed(ss[k], repeats, inside),
    decreases ss.len(),
{
    if ss.len() > 0 {
        lemma_all_well_placed(ss.drop_first(), repeats, inside);
        if forall|k: int| 0 <= k < ss.len() ==> #[trigger] well_placed(ss[k], repeats, inside) {
            assert forall|k: int| 0 <= k < ss.drop_first().len() implies #[trigger] well_placed(
                ss.drop_first()[k],
                repeats,
                inside,
            ) by {
                assert(ss.drop_first()[k] == ss[k + 1]);
                assert(well_placed(ss[k + 1], repeats, inside));
            }
            assert(well_placed(ss[0], repeats, inside));
        }
        if all_well_placed(ss, repeats, inside) {
            assert forall|k: int| 0 <= k < ss.len() implies #[trigger] well_placed(
                ss[k],
                repeats,
                inside,
            ) by {
                if k > 0 {
                    assert(ss[k] == ss.drop_first()[k - 1]);
                    assert(well_placed(ss.drop_first()[k - 1], repeats, inside));
                }
            }
        }
    }
}

proof fn lemma_sanitize_all(ss: Seq<Section>, repeats: bool, inside: bool)
    ensures
        sanitize_all(ss, repeats, inside).0 == all_well_placed(ss, repeats, inside),
        all_well_placed(ss, repeats, inside) ==> sanitize_all(ss, repeats, inside).1 == inside,
    decreases ss, 1nat,
{
    if ss.len() > 0 {
        lemma_sanitize(ss[0], repeats, inside);
        lemma_sanitize_all(ss.drop_first(), repeats, inside);
    }
}

/// The walk of the placement check accepts a section exactly when it is
/// well placed, and then leaves its flag as it found it.
pub proof fn lemma_sanitize(s: Section, repeats: bool, inside: bool)
    ensures
        sanitize(s, repeats, inside).0 == well_placed(s, repeats, inside),
        well_placed(s, repeats, inside) ==> sanitize(s, repeats, inside).1 == inside,
    decreases s, 0nat,
{
    match s {
        Section::RepeatGroup { sections } => {
            lemma_sanitize_all(sections, repeats, true);
        },
        Section::BaseNoNestRepeatGroup { sections } => {
            lemma_sanitize_all(sections, repeats, true);
        },
        Section::Group { sections, .. } => {
            lemma_sanitize_all(sections, repeats, inside);
        },
        Section::NoNestRepeatGroup { sections } => {
            lemma_sanitize_all(sections, repeats, inside);
        },
        Section::IdentityGroup { sections, .. } => {
            lemma_sanitize_all(sections, repeats, inside);
        },
        Section::BaseNestRepeatGroup { sections } => {
            lemma_sanitize_all(sections, repeats, inside);
        },
        _ => {},
    }
}

/// Two expansion contexts that differ at most in the token the loop variable
/// stands for.
pub open spec fn same_range(a: ExpandModel, b: ExpandModel) -> bool {
    a.var == b.var && a.start == b.start && a.end == b.end
}

proof fn lemma_repeat_ignores_target(ss: Seq<Section>, a: ExpandModel, b: ExpandModel, n: nat)
    requires
        same_range(a, b),
    ensures
        expand_repeat(ss, a, n) == expand_repeat(ss, b, n),
    decreases a.end - n,
{
    if n < a.end {
        assert(with_value(a, n as usize) == with_value(b, n as usize));
        lemma_repeat_ignores_target(ss, a, b, n + 1);
    }
}

proof fn lemma_expand_all_ignores_target(ss: Seq<Section>, a: ExpandModel, b: ExpandModel)
    requires
        same_range(a, b),
        all_well_placed(ss, true, false),
    ensures
        expand_all(ss, a) == expand_all(ss, b),
    decreases ss, 1nat,
{
    if ss.len() > 0 {
        lemma_expand_ignores_target(ss[0], a, b);
        lemma_expand_all_ignores_target(ss.drop_first(), a, b);
    }
}

/// Outside repeating sections a well-placed section of a body with
/// repeating sections never shows the token the loop variable stands for:
/// its expansion is the same whatever that token is.
pub proof fn lemma_expand_ignores_target(s: Section, a: ExpandModel, b: ExpandModel)
    requires
        same_range(a, b),
        well_placed(s, true, false),
    ensures
        expand(s, a) == expand(s, b),
    decreases s, 0nat,
{
    match s {
        Section::RepeatGroup { sections } => {
            lemma_repeat_ignores_target(sections, a, b, a.start as nat);
        },
        Section::BaseNoNestRepeatGroup { sections } => {
            lemma_repeat_ignores_target(sections, a, b, a.start as nat);
        },
        Section::Group { sections, .. } => {
            lemma_expand_all_ignores_target(sections, a, b);
        },
        Section::NoNestRepeatGroup { sections } => {
            lemma_expand_all_ignores_target(sections, a, b);
        },
        Section::IdentityGroup { sections, .. } => {
            lemma_expand_all_ignores_target(sections, a, b);
        },
        Section::BaseNestRepeatGroup { sections } => {
            lemma_expand_all_ignores_target(sections, a, b);
        },
        _ => {},
    }
}

/// In an invocation whose body holds a repetition group and passes the
/// placement check, the placeholder value never reaches the output: the
/// expansion is the same whatever token the loop variable stands for outside
/// the repetition groups.
pub proof fn law_placeholder_unseen(base: Section, header: HeaderModel, t: Tok)
    requires
        base is Group,
        sanitize(base, true, false).0,
    ensures
        seq_expansion(SeqModel { header, base, has_repeat: true }) == expand_all(
            group_sections(base),
            ExpandModel { target: t, var: header.var, start: header.start, end: header.end },
        ),
{
    lemma_sanitize(base, true, false);
    lemma_expand_all_ignores_target(
        group_sections(base),
        base_context(header),
        ExpandModel { target: t, var: header.var, start: header.start, end: header.end },
    );
}

/// The placement check accepts a body exactly when no repeating section lies
/// inside another and, if the body holds a repeating section, every loop
/// variable and concatenation lies inside one.
pub proof fn law_sanitizer_accepts_well_placed(base: Section, repeats: bool)
    ensures
        sanitize(base, repeats, false).0 == well_placed(base, repeats, false),
{
    lemma_sanitize(base, repeats, false);
}

/// An invocation whose range is empty and whose body holds no repetition
/// group expands to nothing.
pub proof fn law_empty_range(m: SeqModel)
    requires
        !m.has_repeat,
        m.header.end <= m.header.start,
    ensures
        seq_expansion(m) == Seq::<Tok>::empty(),
{
}

/// The shape of an invocation: a loop header, then one group, then nothing.
pub open spec fn invocation_shape(ts: Seq<Tok>) -> bool {
    &&& parse_header(ts) matches Ok((_, p))
    &&& p + 1 == ts.len()
    &&& ts[p as int] is Group
}

/// Every input that is not a loop header followed by exactly one group is
/// refused with an error (`seq`, which has no precondition, returns it and
/// does not panic).
pub proof fn law_malformed_is_error(ts: Seq<Tok>)
    requires
        !invocation_shape(ts),
    ensures
        seq_output(ts) is Err,
{
}

} // verus!

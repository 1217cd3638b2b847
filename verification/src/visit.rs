//! Two checks over a parsed body: whether it holds a repetition group, and
//! whether the loop variable and repetition groups stand where they may.
use vstd::prelude::*;

use crate::sections::{
    BaseNestRepeatGroup, BaseNoNestRepeatGroup, ConcatSection, Group, IdentityGroup,
    IdentitySection, NoNestRepeatGroup, RepeatGroup, ReplaceSection, Section, SectionTree,
    lemma_sects_of_map, sect_of, sects_of,
};

verus! {

/// The sections a section holds directly (none for a leaf section).
pub open spec fn children(s: Section) -> Seq<Section> {
    match s {
        Section::Group { sections, .. } => sections,
        Section::RepeatGroup { sections } => sections,
        Section::NoNestRepeatGroup { sections } => sections,
        Section::IdentityGroup { sections, .. } => sections,
        Section::BaseNestRepeatGroup { sections } => sections,
        Section::BaseNoNestRepeatGroup { sections } => sections,
        _ => Seq::empty(),
    }
}

/// The section repeats its contents once per value of the loop variable.
pub open spec fn is_repeating(s: Section) -> bool {
    s is RepeatGroup || s is BaseNoNestRepeatGroup
}

/// The section is, or holds, a repeating section.
pub open spec fn contains_repeat(s: Section) -> bool
    decreases s, 0nat,
{
    if is_repeating(s) {
        true
    } else {
        match s {
            Section::Group { sections, .. } => any_contains_repeat(sections),
            Section::NoNestRepeatGroup { sections } => any_contains_repeat(sections),
            Section::IdentityGroup { sections, .. } => any_contains_repeat(sections),
            Section::BaseNestRepeatGroup { sections } => any_contains_repeat(sections),
            _ => false,
        }
    }
}

/// Some section of `ss` is, or holds, a repeating section.
pub open spec fn any_contains_repeat(ss: Seq<Section>) -> bool
    decreases ss, 1nat,
{
    if ss.len() == 0 {
        false
    } else {
        contains_repeat(ss[0]) || any_contains_repeat(ss.drop_first())
    }
}

/// The check of where the loop variable and repetition groups stand, as a
/// walk over the section with a flag that is set inside a repeating section.
/// `repeats` tells whether the body holds a repeating section at all; `inside`
/// is the flag on entry.  The result and the flag on exit.
pub open spec fn sanitize(s: Section, repeats: bool, inside: bool) -> (bool, bool)
    decreases s, 0nat,
{
    match s {
        Section::Identity { .. } => (true, inside),
        Section::Concat { .. } => (!repeats || inside, inside),
        Section::Replace => (!repeats || inside, inside),
        Section::RepeatGroup { sections } => if inside {
            (false, inside)
        } else {
            let (ok, flag) = sanitize_all(sections, repeats, true);
            if ok {
                (true, false)
            } else {
                (false, flag)
            }
        },
        Section::BaseNoNestRepeatGroup { sections } => if inside {
            (false, inside)
        } else {
            let (ok, flag) = sanitize_all(sections, repeats, true);
            if ok {
                (true, false)
            } else {
                (false, flag)
            }
        },
        Section::Group { sections, .. } => sanitize_all(sections, repeats, inside),
        Section::NoNestRepeatGroup { sections } => sanitize_all(sections, repeats, inside),
        Section::IdentityGroup { sections, .. } => sanitize_all(sections, repeats, inside),
        Section::BaseNestRepeatGroup { sections } => sanitize_all(sections, repeats, inside),
    }
}

/// The check over the sections of `ss` in order, stopping at the first refusal.
pub open spec fn sanitize_all(ss: Seq<Section>, repeats: bool, inside: bool) -> (bool, bool)
    decreases ss, 1nat,
{
    if ss.len() == 0 {
        (true, inside)
    } else {
        let (ok, flag) = sanitize(ss[0], repeats, inside);
        if !ok {
            (false, flag)
        } else {
            sanitize_all(ss.drop_first(), repeats, flag)
        }
    }
}

/// Finds out whether a body holds a repetition group.
pub struct CheckRepeatSection;

impl CheckRepeatSection {
    /// Whether the section `tree` is, or holds, a repeating section.
    pub fn visit(&mut self, tree: &SectionTree) -> (r: bool)
        ensures
            r == contains_repeat(tree@),
        decreases tree, 0nat,
    {
        match tree {
            SectionTree::Identity(sect) => self.visit_identity(sect),
            SectionTree::Concat(sect) => self.visit_concat(sect),
            SectionTree::Replace(sect) => self.visit_replace(sect),
            SectionTree::Group(sect) => self.visit_group(sect),
            SectionTree::RepeatGroup(sect) => self.visit_repeat_group(sect),
            SectionTree::NoNestRepeatGroup(sect) => self.visit_sections(&sect.sections),
            SectionTree::IdentityGroup(sect) => self.visit_sections(&sect.sections),
            SectionTree::BaseNestRepeatGroup(sect) => self.visit_sections(&sect.sections),
            SectionTree::BaseNoNestRepeatGroup(_) => true,
        }
    }

    /// A run of plain tokens holds no repetition group.
    pub fn visit_identity(&mut self, _sect: &IdentitySection) -> (r: bool)
        ensures
            !r,
    {
        false
    }

    /// A concatenation holds no repetition group.
    pub fn visit_concat(&mut self, _sect: &ConcatSection) -> (r: bool)
        ensures
            !r,
    {
        false
    }

    /// The loop variable holds no repetition group.
    pub fn visit_replace(&mut self, _sect: &ReplaceSection) -> (r: bool)
        ensures
            !r,
    {
        false
    }

    /// A repetition group is one.
    pub fn visit_repeat_group(&mut self, _sect: &RepeatGroup) -> (r: bool)
        ensures
            r,
    {
        true
    }

    /// Whether a group holds a repeating section.
    pub fn visit_group(&mut self, sect: &Group) -> (r: bool)
        ensures
            r == contains_repeat(sect@),
        decreases sect, 1nat,
    {
        self.visit_sections(&sect.sections)
    }

    /// Whether some section of `sections` is, or holds, a repeating section.
    fn visit_sections(&mut self, sections: &Vec<SectionTree>) -> (r: bool)
        ensures
            r == any_contains_repeat(sects_of(sections@)),
        decreases sections@, 2nat,
    {
        let ghost ss = sects_of(sections@);
        proof {
            lemma_sects_of_map(sections@);
        }
        let mut ret = false;
        let mut i: usize = 0;
        assert(ss.skip(0) =~= ss);
        while i < sections.len()
            invariant
                i <= sections.len(),
                ss == sects_of(sections@),
                ss == sections@.map_values(|t: SectionTree| sect_of(t)),
                any_contains_repeat(ss) == (ret || any_contains_repeat(ss.skip(i as int))),
            decreases sections.len() - i,
        {
            proof {
                assert(decreases_to!(sections@ => sections@[i as int]));
                assert(ss.skip(i as int).drop_first() =~= ss.skip(i + 1));
            }
            assert(ss.skip(i as int)[0] == ss[i as int]);
            let found = self.visit(&sections[i]);
            ret = ret || found;
            i = i + 1;
        }
        assert(ss.skip(i as int).len() == 0);
        ret
    }
}

/// Checks where the loop variable and repetition groups stand in a body.
pub struct SectionSanitizer {
    pub has_repeat_group: bool,
    pub in_repeat_group: bool,
}

impl SectionSanitizer {
    /// A check for a body that does, or does not, hold a repetition group.
    pub fn new(has_repeat_group: bool) -> (r: Self)
        ensures
            r.has_repeat_group == has_repeat_group,
            !r.in_repeat_group,
    {
        SectionSanitizer { has_repeat_group, in_repeat_group: false }
    }

    /// The check of the section `tree`.
    pub fn visit(&mut self, tree: &SectionTree) -> (r: bool)
        ensures
            (r, final(self).in_repeat_group) == sanitize(
                tree@,
                old(self).has_repeat_group,
                old(self).in_repeat_group,
            ),
            final(self).has_repeat_group == old(self).has_repeat_group,
        decreases tree, 0nat,
    {
        match tree {
            SectionTree::Identity(sect) => self.visit_identity(sect),
            SectionTree::Concat(sect) => self.visit_concat(sect),
            SectionTree::Replace(sect) => self.visit_replace(sect),
            SectionTree::Group(sect) => self.visit_group(sect),
            SectionTree::RepeatGroup(sect) => self.visit_repeat_group(sect),
            SectionTree::NoNestRepeatGroup(sect) => self.visit_sections(&sect.sections),
            SectionTree::IdentityGroup(sect) => self.visit_sections(&sect.sections),
            SectionTree::BaseNestRepeatGroup(sect) => self.visit_sections(&sect.sections),
            SectionTree::BaseNoNestRepeatGroup(sect) => self.visit_repeating(&sect.sections),
        }
    }

    /// Plain tokens may stand anywhere.
    pub fn visit_identity(&mut self, _sect: &IdentitySection) -> (r: bool)
        ensures
            r,
            *final(self) == *old(self),
    {
        true
    }

    /// A concatenation may stand outside a repetition group only in a body without one.
    pub fn visit_concat(&mut self, _sect: &ConcatSection) -> (r: bool)
        ensures
            r == (!old(self).has_repeat_group || old(self).in_repeat_group),
            *final(self) == *old(self),
    {
        !self.has_repeat_group || self.in_repeat_group
    }

    /// The loop variable may stand outside a repetition group only in a body without one.
    pub fn visit_replace(&mut self, _sect: &ReplaceSection) -> (r: bool)
        ensures
            r == (!old(self).has_repeat_group || old(self).in_repeat_group),
            *final(self) == *old(self),
    {
        !self.has_repeat_group || self.in_repeat_group
    }

    /// The check of a repetition group: refused inside another one; its
    /// sections are checked with the flag set.
    pub fn visit_repeat_group(&mut self, sect: &RepeatGroup) -> (r: bool)
        ensures
            (r, final(self).in_repeat_group) == sanitize(
                sect@,
                old(self).has_repeat_group,
                old(self).in_repeat_group,
            ),
            final(self).has_repeat_group == old(self).has_repeat_group,
        decreases sect, 1nat,
    {
        self.visit_repeating(&sect.sections)
    }

    /// The check of a group.
    pub fn visit_group(&mut self, sect: &Group) -> (r: bool)
        ensures
            (r, final(self).in_repeat_group) == sanitize(
                sect@,
                old(self).has_repeat_group,
                old(self).in_repeat_group,
            ),
            final(self).has_repeat_group == old(self).has_repeat_group,
        decreases sect, 1nat,
    {
        self.visit_sections(&sect.sections)
    }

    /// The check of the sections of a repeating section.
    fn visit_repeating(&mut self, sections: &Vec<SectionTree>) -> (r: bool)
        ensures
            r == (!old(self).in_repeat_group && sanitize_all(
                sects_of(sections@),
                old(self).has_repeat_group,
                true,
            ).0),
            final(self).in_repeat_group == if old(self).in_repeat_group {
                true
            } else if sanitize_all(sects_of(sections@), old(self).has_repeat_group, true).0 {
                false
            } else {
                sanitize_all(sects_of(sections@), old(self).has_repeat_group, true).1
            },
            final(self).has_repeat_group == old(self).has_repeat_group,
        decreases sections@, 3nat,
    {
        if self.in_repeat_group {
            return false;
        }
        self.in_repeat_group = true;
        if !self.visit_sections(sections) {
            return false;
        }
        self.in_repeat_group = false;
        true
    }

    /// The check of the sections of `sections` in order.
    fn visit_sections(&mut self, sections: &Vec<SectionTree>) -> (r: bool)
        ensures
            (r, final(self).in_repeat_group) == sanitize_all(
                sects_of(sections@),
                old(self).has_repeat_group,
                old(self).in_repeat_group,
            ),
            final(self).has_repeat_group == old(self).has_repeat_group,
        decreases sections@, 2nat,
    {
        let ghost ss = sects_of(sections@);
        let ghost repeats = self.has_repeat_group;
        let ghost start = self.in_repeat_group;
        proof {
            lemma_sects_of_map(sections@);
        }
        let mut i: usize = 0;
        assert(ss.skip(0) =~= ss);
        while i < sections.len()
            invariant
                i <= sections.len(),
                ss == sects_of(sections@),
                ss == sections@.map_values(|t: SectionTree| sect_of(t)),
                self.has_repeat_group == repeats,
                repeats == old(self).has_repeat_group,
                start == old(self).in_repeat_group,
                sanitize_all(ss, repeats, start) == sanitize_all(
                    ss.skip(i as int),
                    repeats,
                    self.in_repeat_group,
                ),
            decreases sections.len() - i,
        {
            proof {
                assert(decreases_to!(sections@ => sections@[i as int]));
                assert(ss.skip(i as int).drop_first() =~= ss.skip(i + 1));
            }
            assert(ss.skip(i as int)[0] == ss[i as int]);
            if !self.visit(&sections[i]) {
                return false;
            }
            i = i + 1;
        }
        assert(ss.skip(i as int).len() == 0);
        true
    }
}

} // verus!

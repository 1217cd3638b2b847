//! The sections a macro body is split into, and their mathematical model.
use vstd::prelude::*;

use crate::tokens::{Delimiter, SpanId, Tok, TokenTree, toks_of};

verus! {

/// A run of tokens that is copied to the output unchanged.
#[derive(Debug)]
pub struct IdentitySection {
    pub tokens: Vec<TokenTree>,
}

/// Tokens joined by `~` (as in `f ~ N`), pasted into one identifier.
#[derive(Debug)]
pub struct ConcatSection {
    pub tokens: Vec<TokenTree>,
    pub src_span: SpanId,
}

/// One occurrence of the loop variable, replaced by the current value.
#[derive(Debug)]
pub struct ReplaceSection;

/// A delimited group whose contents are sections in turn.
#[derive(Debug)]
pub struct Group {
    pub sections: Vec<SectionTree>,
    pub delimiter: Delimiter,
    pub span: SpanId,
}

/// A `#( ... )*` group, expanded once per value of the loop variable.
#[derive(Debug)]
pub struct RepeatGroup {
    pub sections: Vec<SectionTree>,
}

/// A group inside a repetition group; its contents are expanded in place.
#[derive(Debug)]
pub struct NoNestRepeatGroup {
    pub sections: Vec<SectionTree>,
}

/// A delimited group made of plain tokens and repetition groups only.
#[derive(Debug)]
pub struct IdentityGroup {
    pub sections: Vec<SectionTree>,
    pub delimiter: Delimiter,
    pub span: SpanId,
}

/// A body holding at least one identity group; its contents are expanded in place.
#[derive(Debug)]
pub struct BaseNestRepeatGroup {
    pub sections: Vec<SectionTree>,
}

/// A body without repetition groups, expanded once per value of the loop variable.
#[derive(Debug)]
pub struct BaseNoNestRepeatGroup {
    pub sections: Vec<SectionTree>,
}

/// A parsed section of a macro body.
#[derive(Debug)]
pub enum SectionTree {
    Identity(IdentitySection),
    Concat(ConcatSection),
    Replace(ReplaceSection),
    Group(Group),
    RepeatGroup(RepeatGroup),
    NoNestRepeatGroup(NoNestRepeatGroup),
    IdentityGroup(IdentityGroup),
    BaseNestRepeatGroup(BaseNestRepeatGroup),
    BaseNoNestRepeatGroup(BaseNoNestRepeatGroup),
}

/// The mathematical model of a section.
pub enum Section {
    Identity { tokens: Seq<Tok> },
    Concat { tokens: Seq<Tok>, span: SpanId },
    Replace,
    Group { sections: Seq<Section>, delimiter: Delimiter, span: SpanId },
    RepeatGroup { sections: Seq<Section> },
    NoNestRepeatGroup { sections: Seq<Section> },
    IdentityGroup { sections: Seq<Section>, delimiter: Delimiter, span: SpanId },
    BaseNestRepeatGroup { sections: Seq<Section> },
    BaseNoNestRepeatGroup { sections: Seq<Section> },
}

/// The model of one section.
pub open spec fn sect_of(t: SectionTree) -> Section
    decreases t, 0nat,
{
    match t {
        SectionTree::Identity(s) => Section::Identity { tokens: toks_of(s.tokens@) },
        SectionTree::Concat(s) => Section::Concat { tokens: toks_of(s.tokens@), span: s.src_span },
        SectionTree::Replace(_) => Section::Replace,
        SectionTree::Group(g) => {
            proof {
                assert(decreases_to!(g.sections => g.sections@));
            }
            Section::Group {
                sections: sects_of(g.sections@),
                delimiter: g.delimiter,
                span: g.span,
            }
        },
        SectionTree::RepeatGroup(g) => {
            proof {
                assert(decreases_to!(g.sections => g.sections@));
            }
            Section::RepeatGroup { sections: sects_of(g.sections@) }
        },
        SectionTree::NoNestRepeatGroup(g) => {
            proof {
                assert(decreases_to!(g.sections => g.sections@));
            }
            Section::NoNestRepeatGroup { sections: sects_of(g.sections@) }
        },
        SectionTree::IdentityGroup(g) => {
            proof {
                assert(decreases_to!(g.sections => g.sections@));
            }
            Section::IdentityGroup {
                sections: sects_of(g.sections@),
                delimiter: g.delimiter,
                span: g.span,
            }
        },
        SectionTree::BaseNestRepeatGroup(g) => {
            proof {
                assert(decreases_to!(g.sections => g.sections@));
            }
            Section::BaseNestRepeatGroup { sections: sects_of(g.sections@) }
        },
        SectionTree::BaseNoNestRepeatGroup(g) => {
            proof {
                assert(decreases_to!(g.sections => g.sections@));
            }
            Section::BaseNoNestRepeatGroup { sections: sects_of(g.sections@) }
        },
    }
}

/// The model of a sequence of sections, element by element.
pub open spec fn sects_of(s: Seq<SectionTree>) -> Seq<Section>
    decreases s, 1nat,
{
    if s.len() == 0 {
        Seq::empty()
    } else {
        seq![sect_of(s[0])] + sects_of(s.drop_first())
    }
}

pub proof fn lemma_sects_of_len(s: Seq<SectionTree>)
    ensures
        sects_of(s).len() == s.len(),
    decreases s.len(),
{
    if s.len() > 0 {
        lemma_sects_of_len(s.drop_first());
    }
}

pub proof fn lemma_sects_of_index(s: Seq<SectionTree>, i: int)
    requires
        0 <= i < s.len(),
    ensures
        sects_of(s)[i] == sect_of(s[i]),
    decreases s.len(),
{
    lemma_sects_of_len(s);
    if i > 0 {
        lemma_sects_of_index(s.drop_first(), i - 1);
    }
}

/// The model of a sequence of sections is the model of each of its elements.
pub proof fn lemma_sects_of_map(s: Seq<SectionTree>)
    ensures
        sects_of(s) == s.map_values(|t: SectionTree| sect_of(t)),
{
    lemma_sects_of_len(s);
    assert forall|i: int| 0 <= i < s.len() implies sects_of(s)[i] == sect_of(s[i]) by {
        lemma_sects_of_index(s, i);
    }
    assert(sects_of(s) =~= s.map_values(|t: SectionTree| sect_of(t)));
}

/// Appending a section appends its model.
pub proof fn lemma_sects_of_push(s: Seq<SectionTree>, t: SectionTree)
    ensures
        sects_of(s.push(t)) == sects_of(s).push(sect_of(t)),
{
    lemma_sects_of_map(s);
    lemma_sects_of_map(s.push(t));
    assert(sects_of(s.push(t)) =~= sects_of(s).push(sect_of(t)));
}

impl View for SectionTree {
    type V = Section;

    open spec fn view(&self) -> Section {
        sect_of(*self)
    }
}

impl View for IdentitySection {
    type V = Section;

    open spec fn view(&self) -> Section {
        Section::Identity { tokens: toks_of(self.tokens@) }
    }
}

impl View for ConcatSection {
    type V = Section;

    open spec fn view(&self) -> Section {
        Section::Concat { tokens: toks_of(self.tokens@), span: self.src_span }
    }
}

impl View for ReplaceSection {
    type V = Section;

    open spec fn view(&self) -> Section {
        Section::Replace
    }
}

impl View for Group {
    type V = Section;

    open spec fn view(&self) -> Section {
        Section::Group { sections: sects_of(self.sections@), delimiter: self.delimiter, span: self.span }
    }
}

impl View for RepeatGroup {
    type V = Section;

    open spec fn view(&self) -> Section {
        Section::RepeatGroup { sections: sects_of(self.sections@) }
    }
}

impl View for NoNestRepeatGroup {
    type V = Section;

    open spec fn view(&self) -> Section {
        Section::NoNestRepeatGroup { sections: sects_of(self.sections@) }
    }
}

impl View for IdentityGroup {
    type V = Section;

    open spec fn view(&self) -> Section {
        Section::IdentityGroup {
            sections: sects_of(self.sections@),
            delimiter: self.delimiter,
            span: self.span,
        }
    }
}

impl View for BaseNestRepeatGroup {
    type V = Section;

    open spec fn view(&self) -> Section {
        Section::BaseNestRepeatGroup { sections: sects_of(self.sections@) }
    }
}

impl View for BaseNoNestRepeatGroup {
    type V = Section;

    open spec fn view(&self) -> Section {
        Section::BaseNoNestRepeatGroup { sections: sects_of(self.sections@) }
    }
}


impl From<IdentitySection> for SectionTree {
    fn from(section: IdentitySection) -> (r: SectionTree) {
        SectionTree::Identity(section)
    }
}

impl vstd::std_specs::convert::FromSpecImpl<IdentitySection> for SectionTree {
    open spec fn obeys_from_spec() -> bool {
        true
    }

    open spec fn from_spec(section: IdentitySection) -> SectionTree {
        SectionTree::Identity(section)
    }
}

impl From<ConcatSection> for SectionTree {
    fn from(section: ConcatSection) -> (r: SectionTree) {
        SectionTree::Concat(section)
    }
}

impl vstd::std_specs::convert::FromSpecImpl<ConcatSection> for SectionTree {
    open spec fn obeys_from_spec() -> bool {
        true
    }

    open spec fn from_spec(section: ConcatSection) -> SectionTree {
        SectionTree::Concat(section)
    }
}

impl From<ReplaceSection> for SectionTree {
    fn from(section: ReplaceSection) -> (r: SectionTree) {
        SectionTree::Replace(section)
    }
}

impl vstd::std_specs::convert::FromSpecImpl<ReplaceSection> for SectionTree {
    open spec fn obeys_from_spec() -> bool {
        true
    }

    open spec fn from_spec(section: ReplaceSection) -> SectionTree {
        SectionTree::Replace(section)
    }
}

impl From<Group> for SectionTree {
    fn from(section: Group) -> (r: SectionTree) {
        SectionTree::Group(section)
    }
}

impl vstd::std_specs::convert::FromSpecImpl<Group> for SectionTree {
    open spec fn obeys_from_spec() -> bool {
        true
    }

    open spec fn from_spec(section: Group) -> SectionTree {
        SectionTree::Group(section)
    }
}

impl From<RepeatGroup> for SectionTree {
    fn from(section: RepeatGroup) -> (r: SectionTree) {
        SectionTree::RepeatGroup(section)
    }
}

impl vstd::std_specs::convert::FromSpecImpl<RepeatGroup> for SectionTree {
    open spec fn obeys_from_spec() -> bool {
        true
    }

    open spec fn from_spec(section: RepeatGroup) -> SectionTree {
        SectionTree::RepeatGroup(section)
    }
}

impl From<NoNestRepeatGroup> for SectionTree {
    fn from(section: NoNestRepeatGroup) -> (r: SectionTree) {
        SectionTree::NoNestRepeatGroup(section)
    }
}

impl vstd::std_specs::convert::FromSpecImpl<NoNestRepeatGroup> for SectionTree {
    open spec fn obeys_from_spec() -> bool {
        true
    }

    open spec fn from_spec(section: NoNestRepeatGroup) -> SectionTree {
        SectionTree::NoNestRepeatGroup(section)
    }
}

impl From<IdentityGroup> for SectionTree {
    fn from(section: IdentityGroup) -> (r: SectionTree) {
        SectionTree::IdentityGroup(section)
    }
}

impl vstd::std_specs::convert::FromSpecImpl<IdentityGroup> for SectionTree {
    open spec fn obeys_from_spec() -> bool {
        true
    }

    open spec fn from_spec(section: IdentityGroup) -> SectionTree {
        SectionTree::IdentityGroup(section)
    }
}

impl From<BaseNestRepeatGroup> for SectionTree {
    fn from(section: BaseNestRepeatGroup) -> (r: SectionTree) {
        SectionTree::BaseNestRepeatGroup(section)
    }
}

impl vstd::std_specs::convert::FromSpecImpl<BaseNestRepeatGroup> for SectionTree {
    open spec fn obeys_from_spec() -> bool {
        true
    }

    open spec fn from_spec(section: BaseNestRepeatGroup) -> SectionTree {
        SectionTree::BaseNestRepeatGroup(section)
    }
}

impl From<BaseNoNestRepeatGroup> for SectionTree {
    fn from(section: BaseNoNestRepeatGroup) -> (r: SectionTree) {
        SectionTree::BaseNoNestRepeatGroup(section)
    }
}

impl vstd::std_specs::convert::FromSpecImpl<BaseNoNestRepeatGroup> for SectionTree {
    open spec fn obeys_from_spec() -> bool {
        true
    }

    open spec fn from_spec(section: BaseNoNestRepeatGroup) -> SectionTree {
        SectionTree::BaseNoNestRepeatGroup(section)
    }
}

} // verus!

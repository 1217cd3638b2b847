use seq_expand::context::{ExpandContext, ParseContext};
use seq_expand::cursor::{ErrorKind, ErrorSite, ParseError, ParseOutcome};
use seq_expand::expand::literal_tree;
use seq_expand::parse::{parse_sections, try_extract_section_tree, PartKind};
use seq_expand::sections::{
    BaseNestRepeatGroup, BaseNoNestRepeatGroup, ConcatSection, IdentityGroup, IdentitySection,
    NoNestRepeatGroup, ReplaceSection, SectionTree,
};
use seq_expand::tokens::{Delimiter, Ident, Spacing, SpanId, TokenTree};
use seq_expand::visit::{CheckRepeatSection, SectionSanitizer};

fn ident(name: &str) -> Ident {
    Ident { name: name.chars().collect(), raw: false, span: SpanId::CallSite }
}

fn id(name: &str) -> TokenTree {
    TokenTree::Ident(ident(name))
}

fn p(ch: char) -> TokenTree {
    TokenTree::Punct { ch, spacing: Spacing::Alone, span: SpanId::CallSite }
}

fn group(delimiter: Delimiter, stream: Vec<TokenTree>) -> TokenTree {
    TokenTree::Group { delimiter, stream, span: SpanId::Source(9) }
}

fn paren(stream: Vec<TokenTree>) -> TokenTree {
    group(Delimiter::Parenthesis, stream)
}

fn bracket(stream: Vec<TokenTree>) -> TokenTree {
    group(Delimiter::Bracket, stream)
}

fn ctx() -> ParseContext {
    ParseContext { iter_ident: ident("N"), start: 0, end: 2 }
}

fn expand_ctx(target: usize) -> ExpandContext {
    ExpandContext { target: literal_tree(target), iter_ident: ident("N"), start: 0, end: 2 }
}

fn render(ts: &[TokenTree]) -> String {
    let mut out = Vec::new();
    for t in ts {
        out.push(match t {
            TokenTree::Ident(i) => i.name.iter().collect(),
            TokenTree::Punct { ch, .. } => ch.to_string(),
            TokenTree::Literal { text, .. } => text.iter().collect(),
            TokenTree::Group { delimiter, stream, .. } => {
                let (o, c) = match delimiter {
                    Delimiter::Parenthesis => ("(", ")"),
                    Delimiter::Brace => ("{", "}"),
                    Delimiter::Bracket => ("[", "]"),
                };
                format!("{} {} {}", o, render(stream), c)
            }
        });
    }
    out.join(" ")
}

fn valid(r: Result<ParseOutcome<(SectionTree, usize)>, ParseError>) -> (SectionTree, usize) {
    match r {
        Ok(ParseOutcome::Valid(v)) => v,
        Ok(ParseOutcome::RecoverableError) => panic!("declined"),
        Err(e) => panic!("error {:?}", e),
    }
}

fn declined(r: Result<ParseOutcome<(SectionTree, usize)>, ParseError>) -> bool {
    matches!(r, Ok(ParseOutcome::RecoverableError))
}

#[test]
fn identity_section_stops_before_special_tokens() {
    let input = vec![id("a"), id("b"), id("N"), id("c")];
    match IdentitySection::parse(&ctx(), &input, 0) {
        Ok(ParseOutcome::Valid((s, q))) => {
            assert_eq!(q, 2);
            assert_eq!(render(&s.tokens), "a b");
        }
        _ => panic!("expected a section"),
    }
    // a token followed by `~` starts no plain run
    let input = vec![id("a"), p('~'), id("N")];
    assert!(matches!(IdentitySection::parse(&ctx(), &input, 0), Ok(ParseOutcome::RecoverableError)));
}

#[test]
fn concat_section_collects_links() {
    let input = vec![id("a"), p('~'), id("N"), p('~'), id("b"), id("c")];
    match ConcatSection::parse(&ctx(), &input, 0) {
        Ok(ParseOutcome::Valid((s, q))) => {
            assert_eq!(q, 5);
            assert_eq!(render(&s.tokens), "a N b");
            let out = s.expand(&expand_ctx(7));
            assert_eq!(render(&out), "a7b");
        }
        _ => panic!("expected a section"),
    }
}

#[test]
fn replace_section_takes_the_loop_variable() {
    let input = vec![id("N")];
    assert!(matches!(ReplaceSection::parse(&ctx(), &input, 0), Ok(ParseOutcome::Valid((_, 1)))));
    let input = vec![id("M")];
    assert!(matches!(ReplaceSection::parse(&ctx(), &input, 0), Ok(ParseOutcome::RecoverableError)));
    assert_eq!(render(&ReplaceSection.expand(&expand_ctx(5))), "5");
}

#[test]
fn identity_group_holds_plain_tokens_and_repetition_groups() {
    let input = vec![bracket(vec![id("x"), p('#'), paren(vec![id("N")]), p('*')])];
    let (s, q) = valid(try_extract_section_tree(PartKind::IdentityGroup, &ctx(), &input, 0));
    assert_eq!(q, 1);
    assert_eq!(render(&s.expand(&expand_ctx(0))), "[ x 0 1 ]");
    // a concatenation inside makes the group decline
    let input = vec![bracket(vec![id("a"), p('~'), id("N")])];
    assert!(declined(try_extract_section_tree(PartKind::IdentityGroup, &ctx(), &input, 0)));
    let input = vec![bracket(vec![id("x")])];
    match IdentityGroup::parse(&ctx(), &input, 0) {
        Ok(ParseOutcome::Valid((g, 1))) => assert_eq!(g.delimiter, Delimiter::Bracket),
        _ => panic!("expected an identity group"),
    }
}

#[test]
fn base_nest_repeat_group_needs_an_identity_group() {
    let input = vec![bracket(vec![paren(vec![id("x")]), p('#'), paren(vec![id("N")]), p('*')])];
    let (s, _) = valid(try_extract_section_tree(PartKind::BaseNestRepeatGroup, &ctx(), &input, 0));
    assert_eq!(render(&s.expand(&expand_ctx(0))), "( x ) 0 1");
    let input = vec![bracket(vec![id("x")])];
    assert!(matches!(BaseNestRepeatGroup::parse(&ctx(), &input, 0), Ok(ParseOutcome::RecoverableError)));
}

#[test]
fn base_no_nest_repeat_group_repeats_and_swallows_errors() {
    let input = vec![bracket(vec![id("f"), p('~'), id("N"), paren(vec![id("N")])])];
    let (s, _) = valid(try_extract_section_tree(PartKind::BaseNoNestRepeatGroup, &ctx(), &input, 0));
    assert_eq!(render(&s.expand(&expand_ctx(9))), "f0 ( 0 ) f1 ( 1 )");
    let input = vec![bracket(vec![p('#')])];
    assert!(matches!(BaseNoNestRepeatGroup::parse(&ctx(), &input, 0), Ok(ParseOutcome::RecoverableError)));
}

#[test]
fn no_nest_repeat_group_expands_in_place() {
    let input = vec![paren(vec![id("N"), p(',')])];
    match NoNestRepeatGroup::parse(&ctx(), &input, 0) {
        Ok(ParseOutcome::Valid((g, 1))) => {
            assert_eq!(render(&g.expand(&expand_ctx(4))), "4 ,");
        }
        _ => panic!("expected a group"),
    }
}

#[test]
fn parse_sections_reports_where_it_is_stuck() {
    let input = vec![id("x"), p('#'), id("y")];
    match parse_sections(&ctx(), PartKind::Group, &input) {
        Err(e) => assert_eq!(e, ParseError {
            kind: ErrorKind::GroupUnableToParse,
            site: ErrorSite::Token { span: SpanId::CallSite, group: false },
        }),
        _ => panic!("expected an error"),
    }
    match parse_sections(&ctx(), PartKind::IdentityGroup, &input) {
        Ok(ParseOutcome::RecoverableError) => {}
        _ => panic!("expected the identity group to give up"),
    }
}

#[test]
fn repeat_check_and_sanitizer() {
    let body = vec![id("x"), p('#'), paren(vec![id("N")]), p('*')];
    let sections = match parse_sections(&ctx(), PartKind::Group, &body) {
        Ok(ParseOutcome::Valid(s)) => s,
        _ => panic!("expected sections"),
    };
    let mut check = CheckRepeatSection;
    assert!(!check.visit(&sections[0]));
    assert!(check.visit(&sections[1]));
    let mut sanitizer = SectionSanitizer::new(true);
    assert!(sanitizer.visit(&sections[1]));
    assert!(!sanitizer.in_repeat_group);
    // a repetition group inside a repetition group is refused
    let mut inside = SectionSanitizer::new(true);
    inside.in_repeat_group = true;
    assert!(!inside.visit(&sections[1]));
    // the loop variable outside a repetition group, in a body that has one
    let body = vec![id("N")];
    let sections = match parse_sections(&ctx(), PartKind::Group, &body) {
        Ok(ParseOutcome::Valid(s)) => s,
        _ => panic!("expected sections"),
    };
    assert!(!SectionSanitizer::new(true).visit(&sections[0]));
    assert!(SectionSanitizer::new(false).visit(&sections[0]));
}

use seq_expand::context::{ParseContext, SeqError};
use seq_expand::cursor::{ErrorKind, ErrorSite, ParseError};
use seq_expand::seq_tree::SeqTree;
use seq_expand::tokens::{Delimiter, Ident, Spacing, SpanId, TokenTree};

fn id(name: &str) -> TokenTree {
    TokenTree::Ident(Ident { name: name.chars().collect(), raw: false, span: SpanId::CallSite })
}

fn id_at(name: &str, span: usize) -> TokenTree {
    TokenTree::Ident(Ident { name: name.chars().collect(), raw: false, span: SpanId::Source(span) })
}

fn raw_id(name: &str) -> TokenTree {
    TokenTree::Ident(Ident { name: name.chars().collect(), raw: true, span: SpanId::CallSite })
}

fn p(ch: char) -> TokenTree {
    TokenTree::Punct { ch, spacing: Spacing::Alone, span: SpanId::CallSite }
}

fn pj(ch: char) -> TokenTree {
    TokenTree::Punct { ch, spacing: Spacing::Joint, span: SpanId::CallSite }
}

fn lit(text: &str) -> TokenTree {
    TokenTree::Literal { text: text.chars().collect(), span: SpanId::CallSite }
}

fn group(delimiter: Delimiter, stream: Vec<TokenTree>) -> TokenTree {
    TokenTree::Group { delimiter, stream, span: SpanId::CallSite }
}

fn paren(stream: Vec<TokenTree>) -> TokenTree {
    group(Delimiter::Parenthesis, stream)
}

fn brace(stream: Vec<TokenTree>) -> TokenTree {
    group(Delimiter::Brace, stream)
}

/// `N in a..b` followed by `body`.
fn invocation(start: &str, end: &str, inclusive: bool, body: TokenTree) -> Vec<TokenTree> {
    let mut v = vec![id("N"), id("in"), lit(start), pj('.'), p('.')];
    if inclusive {
        v.pop();
        v.push(pj('.'));
        v.push(p('='));
    }
    v.push(lit(end));
    v.push(body);
    v
}

fn render(ts: &[TokenTree]) -> String {
    let mut out = Vec::new();
    for t in ts {
        out.push(render_one(t));
    }
    out.join(" ")
}

fn render_one(t: &TokenTree) -> String {
    match t {
        TokenTree::Ident(i) => {
            let name: String = i.name.iter().collect();
            if i.raw {
                format!("r#{}", name)
            } else {
                name
            }
        }
        TokenTree::Punct { ch, .. } => ch.to_string(),
        TokenTree::Literal { text, .. } => text.iter().collect(),
        TokenTree::Group { delimiter, stream, .. } => {
            let (o, c) = match delimiter {
                Delimiter::Parenthesis => ("(", ")"),
                Delimiter::Brace => ("{", "}"),
                Delimiter::Bracket => ("[", "]"),
            };
            let inner = render(stream);
            if inner.is_empty() {
                format!("{}{}", o, c)
            } else {
                format!("{} {} {}", o, inner, c)
            }
        }
    }
}

fn expand_ok(input: Vec<TokenTree>) -> String {
    render(&seq_expand::seq_tree::seq(&input).expect("expansion succeeds"))
}

fn expand_err(input: Vec<TokenTree>) -> SeqError {
    match seq_expand::seq_tree::seq(&input) {
        Ok(out) => panic!("expected an error, got {}", render(&out)),
        Err(e) => e,
    }
}

#[test]
fn body_repeated_once_per_value() {
    // seq!(N in 0..4 { compile_error!(concat!("error number ", stringify!(N))); })
    let body = brace(vec![
        id("compile_error"),
        p('!'),
        paren(vec![
            id("concat"),
            p('!'),
            paren(vec![lit("\"error number \""), p(','), id("stringify"), p('!'), paren(vec![id("N")])]),
        ]),
        p(';'),
    ]);
    let out = expand_ok(invocation("0", "4", false, body));
    let one = |n: &str| {
        format!("compile_error ! ( concat ! ( \"error number \" , stringify ! ( {} ) ) ) ;", n)
    };
    assert_eq!(out, [one("0"), one("1"), one("2"), one("3")].join(" "));
}

#[test]
fn concatenation_pastes_identifiers() {
    // seq!(N in 1..4 { fn f~N () -> u64 { N * 2 } })
    let body = brace(vec![
        id("fn"),
        id("f"),
        p('~'),
        id("N"),
        paren(vec![]),
        pj('-'),
        p('>'),
        id("u64"),
        brace(vec![id("N"), p('*'), lit("2")]),
    ]);
    let out = expand_ok(invocation("1", "4", false, body));
    assert_eq!(
        out,
        "fn f1 () - > u64 { 1 * 2 } fn f2 () - > u64 { 2 * 2 } fn f3 () - > u64 { 3 * 2 }"
    );
}

#[test]
fn repetition_group_repeats_only_itself() {
    // seq!(N in 0..3 { enum Interrupt { #(Irq~N,)* } })
    let body = brace(vec![
        id("enum"),
        id("Interrupt"),
        brace(vec![p('#'), paren(vec![id("Irq"), p('~'), id("N"), p(',')]), p('*')]),
    ]);
    let out = expand_ok(invocation("0", "3", false, body));
    assert_eq!(out, "enum Interrupt { Irq0 , Irq1 , Irq2 , }");
}

#[test]
fn inclusive_range_includes_its_end() {
    let body = brace(vec![id("N"), p(',')]);
    let out = expand_ok(invocation("2", "4", true, body));
    assert_eq!(out, "2 , 3 , 4 ,");
}

#[test]
fn empty_range_expands_to_nothing() {
    let body = brace(vec![id("N")]);
    assert_eq!(expand_ok(invocation("3", "3", false, body)), "");
    let body = brace(vec![id("x")]);
    assert_eq!(expand_ok(invocation("5", "2", false, body)), "");
}

#[test]
fn inner_group_of_a_repetition_group_loses_its_delimiters() {
    // #( f(N); )* : the parenthesized group inside the repetition is expanded in place
    let body = brace(vec![p('#'), paren(vec![id("f"), paren(vec![id("N")]), p(';')]), p('*')]);
    let out = expand_ok(invocation("0", "2", false, body));
    assert_eq!(out, "f 0 ; f 1 ;");
}

#[test]
fn concatenation_with_literal_and_raw_identifier() {
    let body = brace(vec![id("x"), p('~'), lit("7"), p('~'), id("N")]);
    assert_eq!(expand_ok(invocation("0", "1", false, body)), "x70");
    // a raw identifier pastes as `r#fn0`, which is no identifier name
    let body = brace(vec![raw_id("fn"), p('~'), id("N")]);
    assert_eq!(expand_err(invocation("0", "1", false, body)), SeqError::NotAnIdentifier);
    // a raw identifier copied as it is stays valid
    let body = brace(vec![raw_id("fn"), id("N")]);
    assert_eq!(expand_ok(invocation("0", "1", false, body)), "r#fn 0");
}

#[test]
fn lifetime_before_tilde_is_one_token() {
    // 'a ~ N: the lifetime counts as one token when looking for `~`, so the
    // apostrophe alone makes a concatenation, and `a ~ N` another; the
    // apostrophe is no identifier, so the invocation is refused.
    let body = || brace(vec![pj('\''), id("a"), p('~'), id("N")]);
    let tree = SeqTree::parse(&invocation("0", "1", false, body())).ok().expect("parses");
    let out = tree.expand();
    assert_eq!(out.len(), 2);
    assert_eq!(render(&out), "' a0");
    assert_eq!(expand_err(invocation("0", "1", false, body())), SeqError::NotAnIdentifier);
}

#[test]
fn parse_context_reads_header() {
    let input = invocation("0", "8", true, brace(vec![]));
    let (ctx, pos) = ParseContext::parse(&input).ok().expect("header parses");
    assert_eq!(ctx.start, 0);
    assert_eq!(ctx.end, 9);
    assert_eq!(pos, 7);
    let name: String = ctx.iter_ident.name.iter().collect();
    assert_eq!(name, "N");
}

#[test]
fn header_literal_forms() {
    // hexadecimal and suffixed literals are read through syn
    let body = brace(vec![id("N")]);
    assert_eq!(expand_ok(invocation("0x2", "4usize", false, body)), "2 3");
    // a negative bound is an integer literal that is no usize
    let negative = || vec![id("N"), id("in"), p('-'), lit("1"), pj('.'), p('.'), lit("2"), brace(vec![])];
    let err = expand_err(negative());
    assert_eq!(err, SeqError::Parse(ParseError {
        kind: ErrorKind::ExpectedUsizeBase10,
        site: ErrorSite::Token { span: SpanId::CallSite, group: false },
    }));
    let mut input = negative();
    input[3] = lit("\"s\"");
    assert_eq!(expand_err(input), SeqError::Parse(ParseError {
        kind: ErrorKind::ExpectedIntegerLiteral,
        site: ErrorSite::Token { span: SpanId::CallSite, group: false },
    }));
}

#[test]
fn header_errors() {
    let err = expand_err(vec![]);
    assert_eq!(err, SeqError::Parse(ParseError { kind: ErrorKind::ExpectedIdentifier, site: ErrorSite::EndOfInput }));
    let err = expand_err(vec![id_at("fn", 3), id("in"), lit("0"), pj('.'), p('.'), lit("2"), brace(vec![])]);
    assert_eq!(err, SeqError::Parse(ParseError {
        kind: ErrorKind::KeywordNotIdentifier,
        site: ErrorSite::Token { span: SpanId::Source(3), group: false },
    }));
    let err = expand_err(vec![id("N"), id("on"), lit("0")]);
    assert_eq!(err, SeqError::Parse(ParseError {
        kind: ErrorKind::ExpectedIn,
        site: ErrorSite::Token { span: SpanId::CallSite, group: false },
    }));
    let err = expand_err(vec![id("N"), id("in"), lit("0"), p('.'), p('.'), lit("2")]);
    assert_eq!(err, SeqError::Parse(ParseError {
        kind: ErrorKind::ExpectedDotDot,
        site: ErrorSite::Token { span: SpanId::CallSite, group: false },
    }));
    let err = expand_err(invocation("0", "99999999999999999999999", false, brace(vec![])));
    assert_eq!(err, SeqError::Parse(ParseError {
        kind: ErrorKind::ExpectedUsizeBase10,
        site: ErrorSite::Token { span: SpanId::CallSite, group: true },
    }));
    let max = usize::MAX.to_string();
    assert_eq!(expand_err(invocation("0", &max, true, brace(vec![]))), SeqError::EndOverflow);
}

#[test]
fn body_errors() {
    // no group after the header
    let mut input = invocation("0", "2", false, brace(vec![]));
    input.pop();
    input.push(id_at("x", 1));
    assert_eq!(expand_err(input), SeqError::Parse(ParseError {
        kind: ErrorKind::UnableToParseAsAnything,
        site: ErrorSite::Token { span: SpanId::Source(1), group: false },
    }));
    // a token after the body
    let mut input = invocation("0", "2", false, brace(vec![]));
    input.push(id_at("y", 2));
    assert_eq!(expand_err(input), SeqError::Parse(ParseError {
        kind: ErrorKind::UnexpectedToken,
        site: ErrorSite::Token { span: SpanId::Source(2), group: false },
    }));
    // `#( ... )` without `*`
    let body = brace(vec![p('#'), paren(vec![id("x")]), id("y")]);
    assert_eq!(expand_err(invocation("0", "2", false, body)), SeqError::Parse(ParseError {
        kind: ErrorKind::ExpectedStar,
        site: ErrorSite::Token { span: SpanId::CallSite, group: true },
    }));
    // `~` at the end
    let body = brace(vec![id("x"), p('~')]);
    assert_eq!(expand_err(invocation("0", "2", false, body)), SeqError::Parse(ParseError {
        kind: ErrorKind::ExpectedTokenAfterTilde,
        site: ErrorSite::Token { span: SpanId::CallSite, group: false },
    }));
    // `~ #`
    let body = brace(vec![id("x"), p('~'), p('#')]);
    assert_eq!(expand_err(invocation("0", "2", false, body)), SeqError::Parse(ParseError {
        kind: ErrorKind::CannotConcatenateHash,
        site: ErrorSite::Token { span: SpanId::CallSite, group: false },
    }));
    // `~ ( )`
    let body = brace(vec![id("x"), p('~'), paren(vec![])]);
    assert_eq!(expand_err(invocation("0", "2", false, body)), SeqError::Parse(ParseError {
        kind: ErrorKind::ExpectedNonGroupToken,
        site: ErrorSite::Token { span: SpanId::CallSite, group: true },
    }));
    // a lone `#`
    let body = brace(vec![id("x"), p('#')]);
    assert_eq!(expand_err(invocation("0", "2", false, body)), SeqError::Parse(ParseError {
        kind: ErrorKind::GroupUnableToParse,
        site: ErrorSite::Token { span: SpanId::CallSite, group: false },
    }));
    // a `#` inside a repetition group
    let body = brace(vec![p('#'), paren(vec![p('#')]), p('*')]);
    assert_eq!(expand_err(invocation("0", "2", false, body)), SeqError::Parse(ParseError {
        kind: ErrorKind::RepeatGroupUnableToParse,
        site: ErrorSite::Token { span: SpanId::CallSite, group: false },
    }));
    // a `#` inside a group inside a repetition group
    let body = brace(vec![p('#'), paren(vec![paren(vec![p('#')])]), p('*')]);
    assert_eq!(expand_err(invocation("0", "2", false, body)), SeqError::Parse(ParseError {
        kind: ErrorKind::NoNestRepeatGroupUnableToParse,
        site: ErrorSite::Token { span: SpanId::CallSite, group: false },
    }));
}

#[test]
fn misplaced_loop_variable_is_refused() {
    // the loop variable outside the repetition group of a body that has one
    let body = brace(vec![id("N"), p('#'), paren(vec![id("N")]), p('*')]);
    assert_eq!(expand_err(invocation("0", "2", false, body)), SeqError::CannotSanitize);
    // a concatenation outside the repetition group
    let body = brace(vec![id("f"), p('~'), id("N"), p('#'), paren(vec![id("x")]), p('*')]);
    assert_eq!(expand_err(invocation("0", "2", false, body)), SeqError::CannotSanitize);
}

#[test]
fn seq_tree_records_repetition_groups() {
    let with = invocation("0", "2", false, brace(vec![p('#'), paren(vec![id("N")]), p('*')]));
    let tree = SeqTree::parse(&with).ok().expect("parses");
    assert!(tree.has_repeat_group);
    let without = invocation("0", "2", false, brace(vec![id("N")]));
    let tree = SeqTree::parse(&without).ok().expect("parses");
    assert!(!tree.has_repeat_group);
    assert_eq!(render(&tree.expand()), "0 1");
}

#[test]
fn placeholder_never_reaches_the_output() {
    // with a repetition group, what is outside it is copied once
    let body = brace(vec![id("x"), brace(vec![p('#'), paren(vec![id("N")]), p('*')]), id("y")]);
    assert_eq!(expand_ok(invocation("0", "3", false, body)), "x { 0 1 2 } y");
}

#[test]
fn pasted_text_that_is_no_identifier_is_refused() {
    let body = brace(vec![lit("1"), p('~'), id("N")]);
    assert_eq!(expand_err(invocation("0", "2", false, body)), SeqError::NotAnIdentifier);
    let body = brace(vec![id("x"), p('~'), id("N")]);
    assert_eq!(expand_ok(invocation("0", "2", false, body)), "x0 x1");
}

#[test]
fn group_without_loop_variable_comes_back_unchanged() {
    let body = || brace(vec![id("x"), paren(vec![id("y"), group(Delimiter::Bracket, vec![id("z"), p(',')])])]);
    let tree = SeqTree::parse(&invocation("0", "1", false, body())).ok().expect("parses");
    assert_eq!(render(&tree.expand()), "x ( y [ z , ] )");
}

#[test]
fn values_are_written_in_decimal() {
    let body = brace(vec![id("N")]);
    assert_eq!(expand_ok(invocation("1234", "1236", false, body)), "1234 1235");
}

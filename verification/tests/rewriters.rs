//! Tests for the rewriters: the streaming pipeline and the range-buffered
//! transform.

use markedit::{
    change_text, insert_before, insert_markdown_before, parse, rewrite, rewrite_between,
    HeadingClose, HeadingOpen, Heading, Identity, KeepTextOnly, Kind, Matcher, RewriteBetween,
    Rewritten, TextPredicate, TextTransform, Token, UppercaseAllText,
};

fn text(s: &str) -> Token {
    Token::Text(s.to_string())
}

#[test]
fn insert_markdown_after_a_heading() {
    let src = "# Heading\n Some text\n some more text \n\n # Another Heading";

    // first we need to construct our predicate
    let matcher = Heading::with_level(1).falling_edge();

    // we also need a rewriting rule
    let rule = insert_markdown_before("## Sub-Heading", matcher);

    let events = parse(src);
    let mutated = rewrite(events, rule);

    // the heading before the insertion point
    assert_eq!(mutated[1], text("Heading"));
    // our inserted tokens
    assert_eq!(mutated[3], Token::StructureOpen(Kind::Heading(2)));
    assert_eq!(mutated[4], text("Sub-Heading"));
    assert_eq!(mutated[5], Token::StructureClose(Kind::Heading(2)));
    // "Some text" is the line after
    assert_eq!(mutated[7], text("Some text"));
}

#[test]
fn uppercase_text_matching_a_predicate() {
    let src = "# Heading\n Some text \n some more text \n\n # Another Heading";

    let rule = change_text(
        TextPredicate::Contains("Heading".to_string()),
        TextTransform::Uppercase,
    );

    let events_before = parse(src);

    // some sanity checks on the initial input
    assert_eq!(events_before[1], text("Heading"));
    assert_eq!(events_before[9], text("Another Heading"));

    let events_after = rewrite(events_before.clone(), rule);

    assert_eq!(events_after[1], text("HEADING"));
    assert_eq!(events_after[9], text("ANOTHER HEADING"));
    // the "Some text" run does not contain the needle and is untouched
    assert_eq!(events_after[4], events_before[4]);
}

#[test]
fn uppercase_text_in_a_heading() {
    let src = "# This is a heading\nand a normal line";

    let got = rewrite_between(
        parse(src),
        HeadingOpen::any_level(),
        HeadingClose::any_level(),
        UppercaseAllText,
    );

    let should_be = parse("# THIS IS A HEADING\nand a normal line");

    assert_eq!(got, should_be);
}

#[test]
fn ignore_some_events() {
    let events = vec![
        Token::StructureOpen(Kind::Paragraph),
        text("This is some text."),
        Token::StructureOpen(Kind::Heading(2)),
        text("This is some more text."),
    ];

    let rewritten = rewrite(events, KeepTextOnly);

    assert_eq!(
        rewritten,
        vec![text("This is some text."), text("This is some more text.")]
    );
}

#[test]
fn identity_rewriter_reproduces_the_input() {
    let events = vec![
        Token::StructureOpen(Kind::Paragraph),
        text("one"),
        Token::SoftBreak,
        text("two"),
        Token::StructureClose(Kind::Paragraph),
        Token::Rule,
        Token::TaskMarker(true),
        Token::FootnoteRef("note".to_string()),
    ];

    let rewritten = rewrite(events.clone(), Identity);

    assert_eq!(rewritten, events);
}

#[test]
fn identity_rewriter_on_empty_input() {
    let events: Vec<Token> = Vec::new();
    assert_eq!(rewrite(events, Identity), Vec::<Token>::new());
}

#[test]
fn insert_before_every_match() {
    let to_insert = vec![Token::Rule];
    let rule = insert_before(to_insert, markedit::exact_text("x"));

    let events = vec![text("x"), text("y"), text("x")];
    let rewritten = rewrite(events, rule);

    assert_eq!(
        rewritten,
        vec![Token::Rule, text("x"), text("y"), Token::Rule, text("x")]
    );
}

#[test]
fn change_text_with_a_fixed_replacement() {
    let rule = change_text(
        TextPredicate::Equals("old".to_string()),
        TextTransform::SetTo("new".to_string()),
    );

    let events = vec![text("old"), text("older"), Token::Rule];
    let rewritten = rewrite(events, rule);

    assert_eq!(rewritten, vec![text("new"), text("older"), Token::Rule]);
}

#[test]
fn rewritten_stream_hands_tokens_out_one_by_one() {
    let events = vec![text("a"), Token::Rule, text("b")];
    let mut stream = Rewritten::new(events.clone(), Identity);

    assert_eq!(stream.next(), Some(text("a")));
    assert_eq!(stream.next(), Some(Token::Rule));
    assert_eq!(stream.next(), Some(text("b")));
    assert_eq!(stream.next(), None);
    assert_eq!(stream.next(), None);
}

#[test]
fn rewritten_stream_skips_dropped_tokens() {
    let events = vec![
        Token::StructureOpen(Kind::Paragraph),
        text("kept"),
        Token::StructureClose(Kind::Paragraph),
    ];
    let mut stream = Rewritten::new(events, KeepTextOnly);

    assert_eq!(stream.next(), Some(text("kept")));
    assert_eq!(stream.next(), None);
}

#[test]
fn unterminated_region_is_flushed_verbatim() {
    // the region opens at "start" and never closes: the captured tokens
    // come out exactly as they went in, with no transform applied
    let events = vec![text("a"), text("start"), text("b")];

    let got = rewrite_between(
        events.clone(),
        markedit::exact_text("start"),
        markedit::exact_text("end"),
        UppercaseAllText,
    );

    assert_eq!(got, events);
}

#[test]
fn rewrite_between_leaves_the_outside_alone() {
    let events = vec![
        text("before"),
        Token::StructureOpen(Kind::Heading(1)),
        text("inside"),
        Token::StructureClose(Kind::Heading(1)),
        text("after"),
    ];

    let got = rewrite_between(
        events,
        HeadingOpen::any_level(),
        HeadingClose::any_level(),
        UppercaseAllText,
    );

    assert_eq!(
        got,
        vec![
            text("before"),
            Token::StructureOpen(Kind::Heading(1)),
            text("INSIDE"),
            Token::StructureClose(Kind::Heading(1)),
            text("after"),
        ]
    );
}

#[test]
fn rewrite_between_stream_pulls_lazily() {
    let events = vec![
        text("before"),
        Token::StructureOpen(Kind::Heading(1)),
        text("inside"),
        Token::StructureClose(Kind::Heading(1)),
    ];
    let mut stream = RewriteBetween::new(
        events,
        HeadingOpen::any_level(),
        HeadingClose::any_level(),
        UppercaseAllText,
    );

    assert_eq!(stream.next(), Some(text("before")));
    assert_eq!(stream.next(), Some(Token::StructureOpen(Kind::Heading(1))));
    assert_eq!(stream.next(), Some(text("INSIDE")));
    assert_eq!(stream.next(), Some(Token::StructureClose(Kind::Heading(1))));
    assert_eq!(stream.next(), None);
}

#[test]
fn rewrite_between_captures_each_region_separately() {
    let events = vec![
        Token::StructureOpen(Kind::Heading(1)),
        text("one"),
        Token::StructureClose(Kind::Heading(1)),
        text("mid"),
        Token::StructureOpen(Kind::Heading(2)),
        text("two"),
        Token::StructureClose(Kind::Heading(2)),
    ];

    let got = rewrite_between(
        events,
        HeadingOpen::any_level(),
        HeadingClose::any_level(),
        UppercaseAllText,
    );

    assert_eq!(
        got,
        vec![
            Token::StructureOpen(Kind::Heading(1)),
            text("ONE"),
            Token::StructureClose(Kind::Heading(1)),
            text("mid"),
            Token::StructureOpen(Kind::Heading(2)),
            text("TWO"),
            Token::StructureClose(Kind::Heading(2)),
        ]
    );
}

#[test]
fn insert_markdown_before_parses_the_fragment_once_up_front() {
    let rule = insert_markdown_before("*emphasised*", markedit::exact_text("x"));
    assert_eq!(
        rule.to_insert,
        vec![
            Token::StructureOpen(Kind::Paragraph),
            Token::StructureOpen(Kind::Emphasis),
            text("emphasised"),
            Token::StructureClose(Kind::Emphasis),
            Token::StructureClose(Kind::Paragraph),
        ]
    );
}

//! Tests for the matchers: leaf matchers, combinators, and the free search
//! functions.

use markedit::{
    between, exact_text, first_match, is_in, link_with_url_containing, match_indices, parse,
    text_containing, Always, And, FallingEdge, Heading, Kind, Matcher, OneShot, Phase,
    StartOfNextLine, Text, Token,
};

fn text(s: &str) -> Token {
    Token::Text(s.to_string())
}

#[test]
fn match_everything_inside_a_header() {
    // The original text for these events was:
    //
    // This is some text.
    //
    // ## Then a *header*
    //
    // [And a link](https://example.com)
    let inputs = vec![
        (Token::StructureOpen(Kind::Paragraph), false),
        (text("This is some text."), false),
        (Token::StructureClose(Kind::Paragraph), false),
        (Token::StructureOpen(Kind::Heading(2)), true),
        (text("Then a "), true),
        (Token::StructureOpen(Kind::Emphasis), true),
        (text("header"), true),
        (Token::StructureClose(Kind::Emphasis), true),
        (Token::StructureClose(Kind::Heading(2)), true),
        (Token::StructureOpen(Kind::Paragraph), false),
        (
            Token::StructureOpen(Kind::Link("https://example.com".to_string())),
            false,
        ),
        (text("And a link"), false),
        (
            Token::StructureClose(Kind::Link("https://example.com".to_string())),
            false,
        ),
        (Token::StructureClose(Kind::Paragraph), false),
    ];

    let mut matcher = Heading::any_level();

    for (tag, should_be) in inputs {
        let got = matcher.matches_event(&tag);
        assert_eq!(got, should_be, "{:?}", tag);
    }
}

#[test]
fn match_start_of_line_after_heading() {
    let src = "# Heading \nSome Text";
    let events = parse(src);
    let mut matcher = StartOfNextLine::new(exact_text("Heading"));

    let got = first_match(&mut matcher, &events).unwrap();

    assert_eq!(got, 3);
    // we're on the first start tag, so at nesting level 1
    assert_eq!(matcher.current_nesting_level, 1);
    assert_eq!(matcher.state, Phase::WaitingForFirstMatch);
}

#[test]
fn match_exact_text() {
    let src = "Hello, World!";
    let events = parse(src);
    let mut matcher = Text::literal(src);

    assert_eq!(matcher.matches_event(&events[0]), false);
    assert_eq!(matcher.matches_event(&events[1]), true);
    assert_eq!(matcher.matches_event(&events[2]), false);
}

#[test]
fn exact_text_against_looser_content() {
    assert_eq!(is_in(exact_text("Something"), &parse("Something")), true);
    assert_eq!(
        is_in(exact_text("Something"), &parse("Something Else")),
        false
    );
}

#[test]
fn text_containing_matches_superstrings() {
    assert_eq!(is_in(text_containing("Something"), &parse("Something")), true);
    assert_eq!(
        is_in(text_containing("Something"), &parse("Something Else")),
        true
    );
}

#[test]
fn always_matches_everything() {
    let mut matcher = Always;
    assert!(matcher.matches_event(&text("anything")));
    assert!(matcher.matches_event(&Token::Rule));
    assert!(matcher.matches_event(&Token::SoftBreak));
}

#[test]
fn link_url_matching() {
    let src = "Some text containing [a link to google](https://google.com/).";
    let mut matcher = link_with_url_containing("google.com");

    let events = parse(src);
    let ix = first_match(&mut matcher, &events).unwrap();

    match &events[ix] {
        Token::StructureOpen(Kind::Link(url)) => assert_eq!(url, "https://google.com/"),
        other => panic!("expected a link-open token, got {:?}", other),
    }
}

#[test]
fn match_indices_are_strictly_increasing_and_in_bounds() {
    let matcher = exact_text("Header");
    let src = "# Header\nsome text\n# Header";
    let events = parse(src);

    let indices = match_indices(matcher, &events);

    assert_eq!(indices.len(), 2);
    for window in indices.windows(2) {
        assert!(window[0] < window[1]);
    }
    for ix in indices {
        assert!(ix < events.len());
        assert_eq!(events[ix], text("Header"));
    }
}

#[test]
fn match_indices_of_empty_input() {
    let events: Vec<Token> = Vec::new();
    assert!(match_indices(Always, &events).is_empty());
}

#[test]
fn between_two_text_matchers() {
    let src = "# Header\nnormal text\n# End";

    let events = parse(src);
    let start = exact_text("Header");
    let end = exact_text("End");

    let got = between(start, end, &events).unwrap();

    assert_eq!(got.first().unwrap(), &text("Header"));
    assert_eq!(got.last().unwrap(), &text("End"));
    assert_eq!(got.len(), 7);
}

#[test]
fn between_runs_to_end_of_input_when_end_never_matches() {
    let src = "# Header\nnormal text";
    let events = parse(src);

    let got = between(exact_text("Header"), exact_text("missing"), &events).unwrap();

    assert_eq!(got.first().unwrap(), &text("Header"));
    assert_eq!(got.len(), events.len() - 1);
}

#[test]
fn between_without_a_start_match() {
    let events = parse("plain text");
    assert!(between(exact_text("missing"), Always, &events).is_none());
}

#[test]
fn falling_edge_fires_when_the_match_ends() {
    let matches_something = exact_text("Something");
    let mut matcher = FallingEdge::new(matches_something);

    // enter the paragraph
    assert_eq!(
        matcher.matches_event(&Token::StructureOpen(Kind::Paragraph)),
        false
    );
    // some text: the inner matcher goes false -> true
    assert_eq!(matcher.matches_event(&text("Something")), false);
    // leave the paragraph: the inner matcher goes true -> false
    assert_eq!(
        matcher.matches_event(&Token::StructureClose(Kind::Paragraph)),
        true
    );
}

#[test]
fn falling_edge_never_fires_twice_in_a_row() {
    let tokens = vec![
        text("x"),
        text("y"),
        text("x"),
        text("x"),
        text("z"),
        Token::Rule,
    ];
    let mut matcher = FallingEdge::new(exact_text("x"));
    let mut previous_fired = false;
    for token in &tokens {
        let fired = matcher.matches_event(token);
        assert!(!(fired && previous_fired));
        previous_fired = fired;
    }
}

#[test]
fn one_shot_fires_at_most_once() {
    let mut matcher = OneShot::new(Always);
    let tokens = vec![text("a"), text("b"), text("c")];
    let mut fired = 0;
    for token in &tokens {
        if matcher.matches_event(token) {
            fired += 1;
        }
    }
    assert_eq!(fired, 1);
    assert!(matcher.already_triggered);
}

#[test]
fn one_shot_freezes_its_inner_matcher() {
    // once latched, the inner matcher stops observing the stream
    let mut matcher = OneShot::new(FallingEdge::new(exact_text("x")));
    assert_eq!(matcher.matches_event(&text("x")), false);
    assert_eq!(matcher.matches_event(&text("y")), true);
    let frozen = matcher.inner.clone();
    matcher.matches_event(&text("x"));
    matcher.matches_event(&text("y"));
    assert_eq!(matcher.inner, frozen);
}

#[test]
fn and_advances_both_sides_without_short_circuiting() {
    // the left side never matches, yet the right side must still observe
    // every token to keep its edge detector in sync
    let mut matcher = And::new(exact_text("never"), FallingEdge::new(exact_text("A")));
    assert_eq!(matcher.matches_event(&text("A")), false);
    assert!(matcher.right.previous_was_matched);
    assert_eq!(matcher.matches_event(&text("B")), false);
    assert!(!matcher.right.previous_was_matched);
}

#[test]
fn and_requires_both_sides_on_the_same_token() {
    let mut both = And::new(text_containing("He"), text_containing("ding"));
    assert_eq!(both.matches_event(&text("Heading")), true);
    assert_eq!(both.matches_event(&text("He")), false);
    assert_eq!(both.matches_event(&text("ding")), false);
}

#[test]
fn heading_with_level_ignores_other_levels() {
    let mut matcher = Heading::with_level(1);
    assert_eq!(
        matcher.matches_event(&Token::StructureOpen(Kind::Heading(2))),
        false
    );
    assert_eq!(matcher.matches_event(&text("second-level")), false);
    assert_eq!(
        matcher.matches_event(&Token::StructureClose(Kind::Heading(2))),
        false
    );
    assert_eq!(
        matcher.matches_event(&Token::StructureOpen(Kind::Heading(1))),
        true
    );
    assert_eq!(
        matcher.matches_event(&Token::StructureClose(Kind::Heading(1))),
        true
    );
}

#[test]
fn text_matcher_from_an_owned_string() {
    let mut matcher = Text::new("Hello".to_string());
    assert_eq!(matcher.matches_event(&text("Hello")), true);
    assert_eq!(matcher.matches_event(&text("Hello there")), false);
}

#[test]
fn parse_models_inline_code_and_rules() {
    let events = parse("a `code` b\n\n---");
    assert!(events.contains(&Token::CodeSpan("code".to_string())));
    assert!(events.contains(&Token::Rule));
    assert_eq!(events[0], Token::StructureOpen(Kind::Paragraph));
}

#[test]
fn parse_models_lists_and_block_quotes() {
    let events = parse("- one\n- two");
    assert_eq!(events[0], Token::StructureOpen(Kind::List(None)));
    assert!(events.contains(&Token::StructureOpen(Kind::Item)));
    assert!(events.contains(&text("two")));

    let ordered = parse("3. first");
    assert_eq!(ordered[0], Token::StructureOpen(Kind::List(Some(3))));

    let quoted = parse("> quoted");
    assert_eq!(quoted[0], Token::StructureOpen(Kind::BlockQuote));
}

#[test]
fn start_of_next_line_tolerates_unbalanced_closes() {
    // the nesting counter saturates at zero instead of failing on a stream
    // whose tags are not balanced
    let mut matcher = StartOfNextLine::new(exact_text("x"));
    assert_eq!(
        matcher.matches_event(&Token::StructureClose(Kind::Paragraph)),
        false
    );
    assert_eq!(matcher.current_nesting_level, 0);
    assert_eq!(matcher.matches_event(&text("x")), false);
    assert_eq!(matcher.matches_event(&text("y")), false);
    // the enclosing element is already closed, so the very next token fires
    assert_eq!(matcher.matches_event(&text("z")), true);
    assert_eq!(matcher.state, Phase::WaitingForFirstMatch);
}

#[test]
fn combinators_build_through_the_trait_methods() {
    let fused = exact_text("x").fuse();
    assert!(!fused.already_triggered);
    let edge = exact_text("x").falling_edge();
    assert!(!edge.previous_was_matched);
    let next_line = exact_text("x").then_start_of_next_line();
    assert_eq!(next_line.state, Phase::WaitingForFirstMatch);
    assert_eq!(next_line.current_nesting_level, 0);
}

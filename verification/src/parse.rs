//! The boundary to the markdown parser: `parse` turns raw markdown text into
//! the library's tokens by driving `pulldown_cmark`'s event iterator.

use vstd::prelude::*;

use crate::token::{Kind, Token, TokenView};
use pulldown_cmark::{Event, Parser, Tag};

verus! {

/// The declaration of `pulldown_cmark::Tag`, so that the conversion below may
/// name it. Values of it are opaque here.
#[verifier::external_type_specification]
#[verifier::external_body]
pub struct ExTag<'a>(Tag<'a>);

/// The token stream that parsing a markdown text yields: a function of the
/// text alone.
pub uninterp spec fn parse_of(text: Seq<char>) -> Seq<TokenView>;

/// Converts one `pulldown_cmark::Tag` into the library's structure kind,
/// keeping the fields the matchers read: one arm per variant, moving fields.
#[verifier::external_body]
fn kind_of_tag(tag: Tag<'_>) -> (k: Kind) {
    match tag {
        Tag::Paragraph => Kind::Paragraph,
        Tag::Heading(level, _, _) => Kind::Heading(level as u32),
        Tag::BlockQuote => Kind::BlockQuote,
        Tag::CodeBlock(_) => Kind::CodeBlock,
        Tag::List(first) => Kind::List(first),
        Tag::Item => Kind::Item,
        Tag::FootnoteDefinition(label) => Kind::FootnoteDefinition(label.into_string()),
        Tag::Table(_) => Kind::Table, Tag::TableHead => Kind::TableHead,
        Tag::TableRow => Kind::TableRow, Tag::TableCell => Kind::TableCell,
        Tag::Emphasis => Kind::Emphasis, Tag::Strong => Kind::Strong,
        Tag::Strikethrough => Kind::Strikethrough,
        Tag::Link(_, url, _) => Kind::Link(url.into_string()),
        Tag::Image(_, url, _) => Kind::Image(url.into_string()),
    }
}

/// A convenience function for parsing some text into [`Token`]s.
///
/// Relies on `pulldown_cmark::Parser::new`, whose event stream is a
/// deterministic function of the text alone; each event is converted to the
/// matching [`Token`], one arm per variant, moving fields.
#[verifier::external_body]
pub fn parse(text: &str) -> (r: Vec<Token>)
    ensures
        r.deep_view() == parse_of(text@),
{
    Parser::new(text)
        .map(|ev| match ev {
            Event::Start(tag) => Token::StructureOpen(kind_of_tag(tag)),
            Event::End(tag) => Token::StructureClose(kind_of_tag(tag)),
            Event::Text(text) => Token::Text(text.into_string()),
            Event::Code(text) => Token::CodeSpan(text.into_string()),
            Event::Html(text) => Token::RawMarkup(text.into_string()),
            Event::FootnoteReference(label) => Token::FootnoteRef(label.into_string()),
            Event::SoftBreak => Token::SoftBreak, Event::HardBreak => Token::HardBreak,
            Event::Rule => Token::Rule,
            Event::TaskListMarker(checked) => Token::TaskMarker(checked),
        })
        .collect()
}

} // verus!

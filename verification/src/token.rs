//! The token model: one structural unit of a parsed markdown document.

use vstd::prelude::*;

verus! {

/// The mathematical model of a [`Kind`]: text fields become sequences of
/// characters.
pub enum KindView {
    Paragraph,
    Heading(u32),
    BlockQuote,
    CodeBlock,
    List(Option<u64>),
    Item,
    FootnoteDefinition(Seq<char>),
    Table,
    TableHead,
    TableRow,
    TableCell,
    Emphasis,
    Strong,
    Strikethrough,
    Link(Seq<char>),
    Image(Seq<char>),
}

/// The mathematical model of a [`Token`].
pub enum TokenView {
    StructureOpen(KindView),
    StructureClose(KindView),
    Text(Seq<char>),
    CodeSpan(Seq<char>),
    RawMarkup(Seq<char>),
    SoftBreak,
    HardBreak,
    Rule,
    FootnoteRef(Seq<char>),
    TaskMarker(bool),
}

/// The kind of a block or inline element whose open and close tags appear in
/// the stream.
///
/// Each kind carries the fields that matchers read: the level of a heading,
/// the destination URL of a link or image, the starting number of an ordered
/// list, the label of a footnote definition.
#[derive(Debug, PartialEq, Eq)]
pub enum Kind {
    /// A paragraph of text and other inline elements.
    Paragraph,
    /// A heading, with its level (1 through 6).
    Heading(u32),
    /// A block quote.
    BlockQuote,
    /// A code block.
    CodeBlock,
    /// A list; for an ordered list the field holds the number of the first
    /// item.
    List(Option<u64>),
    /// A list item.
    Item,
    /// A footnote definition, with its label.
    FootnoteDefinition(String),
    /// A table.
    Table,
    /// A table header row.
    TableHead,
    /// A table row.
    TableRow,
    /// A table cell.
    TableCell,
    /// Emphasised (usually italic) inline text.
    Emphasis,
    /// Strong (usually bold) inline text.
    Strong,
    /// Struck-through inline text.
    Strikethrough,
    /// A link, with its destination URL.
    Link(String),
    /// An image, with its destination URL.
    Image(String),
}

/// One structural unit of a parsed markdown document.
#[derive(Debug, PartialEq, Eq)]
pub enum Token {
    /// The opening tag of a block or inline element.
    StructureOpen(Kind),
    /// The closing tag of a block or inline element.
    StructureClose(Kind),
    /// A run of text.
    Text(String),
    /// An inline code span.
    CodeSpan(String),
    /// A run of raw markup passed through unparsed.
    RawMarkup(String),
    /// A soft line break.
    SoftBreak,
    /// A hard line break.
    HardBreak,
    /// A horizontal rule.
    Rule,
    /// A reference to a footnote, with its label.
    FootnoteRef(String),
    /// A task-list marker, checked or not.
    TaskMarker(bool),
}

impl View for Kind {
    type V = KindView;

    open spec fn view(&self) -> KindView {
        match self {
            Kind::Paragraph => KindView::Paragraph,
            Kind::Heading(level) => KindView::Heading(*level),
            Kind::BlockQuote => KindView::BlockQuote,
            Kind::CodeBlock => KindView::CodeBlock,
            Kind::List(first) => KindView::List(*first),
            Kind::Item => KindView::Item,
            Kind::FootnoteDefinition(label) => KindView::FootnoteDefinition(label@),
            Kind::Table => KindView::Table,
            Kind::TableHead => KindView::TableHead,
            Kind::TableRow => KindView::TableRow,
            Kind::TableCell => KindView::TableCell,
            Kind::Emphasis => KindView::Emphasis,
            Kind::Strong => KindView::Strong,
            Kind::Strikethrough => KindView::Strikethrough,
            Kind::Link(url) => KindView::Link(url@),
            Kind::Image(url) => KindView::Image(url@),
        }
    }
}

impl DeepView for Kind {
    type V = KindView;

    open spec fn deep_view(&self) -> KindView {
        self.view()
    }
}

impl View for Token {
    type V = TokenView;

    open spec fn view(&self) -> TokenView {
        match self {
            Token::StructureOpen(kind) => TokenView::StructureOpen(kind@),
            Token::StructureClose(kind) => TokenView::StructureClose(kind@),
            Token::Text(text) => TokenView::Text(text@),
            Token::CodeSpan(text) => TokenView::CodeSpan(text@),
            Token::RawMarkup(text) => TokenView::RawMarkup(text@),
            Token::SoftBreak => TokenView::SoftBreak,
            Token::HardBreak => TokenView::HardBreak,
            Token::Rule => TokenView::Rule,
            Token::FootnoteRef(label) => TokenView::FootnoteRef(label@),
            Token::TaskMarker(checked) => TokenView::TaskMarker(*checked),
        }
    }
}

impl DeepView for Token {
    type V = TokenView;

    open spec fn deep_view(&self) -> TokenView {
        self.view()
    }
}

impl Clone for Kind {
    /// A deep copy: the copy models the same value as the original.
    fn clone(&self) -> (r: Self)
        ensures
            r == *self,
    {
        match self {
            Kind::Paragraph => Kind::Paragraph,
            Kind::Heading(level) => Kind::Heading(*level),
            Kind::BlockQuote => Kind::BlockQuote,
            Kind::CodeBlock => Kind::CodeBlock,
            Kind::List(first) => Kind::List(*first),
            Kind::Item => Kind::Item,
            Kind::FootnoteDefinition(label) => Kind::FootnoteDefinition(label.clone()),
            Kind::Table => Kind::Table,
            Kind::TableHead => Kind::TableHead,
            Kind::TableRow => Kind::TableRow,
            Kind::TableCell => Kind::TableCell,
            Kind::Emphasis => Kind::Emphasis,
            Kind::Strong => Kind::Strong,
            Kind::Strikethrough => Kind::Strikethrough,
            Kind::Link(url) => Kind::Link(url.clone()),
            Kind::Image(url) => Kind::Image(url.clone()),
        }
    }
}

impl Clone for Token {
    /// A deep copy: the copy models the same value as the original.
    fn clone(&self) -> (r: Self)
        ensures
            r == *self,
    {
        match self {
            Token::StructureOpen(kind) => Token::StructureOpen(kind.clone()),
            Token::StructureClose(kind) => Token::StructureClose(kind.clone()),
            Token::Text(text) => Token::Text(text.clone()),
            Token::CodeSpan(text) => Token::CodeSpan(text.clone()),
            Token::RawMarkup(text) => Token::RawMarkup(text.clone()),
            Token::SoftBreak => Token::SoftBreak,
            Token::HardBreak => Token::HardBreak,
            Token::Rule => Token::Rule,
            Token::FootnoteRef(label) => Token::FootnoteRef(label.clone()),
            Token::TaskMarker(checked) => Token::TaskMarker(*checked),
        }
    }
}

} // verus!

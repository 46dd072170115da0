//! A matcher for text runs, by exact equality or by substring.

use vstd::prelude::*;

use crate::matchers::Matcher;
use crate::strutil::{seq_contains_sub, str_contains};
use crate::token::{Token, TokenView};

verus! {

/// How a [`Text`] matcher compares a text run against its needle.
#[derive(Debug, Clone, Copy, PartialEq, Eq)]
pub enum TextMode {
    /// The text must equal the needle exactly.
    Exact,
    /// The text must contain the needle as a contiguous run of characters.
    Contains,
}

/// A [`Matcher`] that matches a text run against a fixed needle: either the
/// *exact* string, or any text *containing* it. Stateless.
#[derive(Debug, Clone, PartialEq, Eq)]
pub struct Text {
    pub needle: String,
    pub mode: TextMode,
}

impl Text {
    /// The matcher's verdict on the content of one text run.
    pub open spec fn spec_text_matches(&self, s: Seq<char>) -> bool {
        match self.mode {
            TextMode::Exact => s == self.needle@,
            TextMode::Contains => seq_contains_sub(s, self.needle@),
        }
    }

    /// Match a text run with this *exact* text.
    pub fn literal(text: &str) -> (r: Self)
        ensures
            r.needle@ == text@,
            r.mode == TextMode::Exact,
    {
        Text { needle: text.to_owned(), mode: TextMode::Exact }
    }

    /// Match a text run with this *exact* text.
    pub fn new(text: String) -> (r: Self)
        ensures
            r.needle@ == text@,
            r.mode == TextMode::Exact,
    {
        Text { needle: text, mode: TextMode::Exact }
    }

    /// Match any text run that contains `text`.
    pub fn containing(text: String) -> (r: Self)
        ensures
            r.needle@ == text@,
            r.mode == TextMode::Contains,
    {
        Text { needle: text, mode: TextMode::Contains }
    }
}

impl Matcher for Text {
    open spec fn spec_matches(&self, t: TokenView) -> bool {
        match t {
            TokenView::Text(s) => self.spec_text_matches(s),
            _ => false,
        }
    }

    open spec fn spec_after(&self, t: TokenView) -> Self {
        *self
    }

    fn matches_event(&mut self, event: &Token) -> (matched: bool) {
        match event {
            Token::Text(s) => match self.mode {
                TextMode::Exact => self.needle.eq(s),
                TextMode::Contains => str_contains(s.as_str(), self.needle.as_str()),
            },
            _ => false,
        }
    }
}

} // verus!

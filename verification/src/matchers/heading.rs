//! Matchers for heading regions and heading tags.

use vstd::prelude::*;

use crate::matchers::Matcher;
use crate::token::{Kind, KindView, Token, TokenView};

verus! {

/// Whether a heading of level `level` meets the request `requested`: any
/// heading if no level was requested, else only that level.
pub open spec fn spec_level_matches(requested: Option<u32>, level: u32) -> bool {
    match requested {
        Some(expected) => level == expected,
        None => true,
    }
}

fn level_matches(requested: &Option<u32>, level: u32) -> (r: bool)
    ensures
        r == spec_level_matches(*requested, level),
{
    match requested {
        Some(expected) => level == *expected,
        None => true,
    }
}

/// Matches the items inside a heading region, including the start and end
/// tags themselves.
#[derive(Debug, Clone, PartialEq, Eq)]
pub struct Heading {
    pub inside_heading: bool,
    pub level: Option<u32>,
}

impl Heading {
    fn new(level: Option<u32>) -> (r: Self)
        ensures
            r.level == level,
            !r.inside_heading,
    {
        Heading { level, inside_heading: false }
    }

    /// Matches any heading.
    pub fn any_level() -> (r: Self)
        ensures
            r.level is None,
            !r.inside_heading,
    {
        Heading::new(None)
    }

    /// Matches only headings with the desired level.
    pub fn with_level(level: u32) -> (r: Self)
        ensures
            r.level == Some(level),
            !r.inside_heading,
    {
        Heading::new(Some(level))
    }
}

impl Matcher for Heading {
    open spec fn spec_matches(&self, t: TokenView) -> bool {
        match t {
            TokenView::StructureOpen(KindView::Heading(l)) => if spec_level_matches(
                self.level,
                l,
            ) {
                true
            } else {
                self.inside_heading
            },
            TokenView::StructureClose(KindView::Heading(l)) => if spec_level_matches(
                self.level,
                l,
            ) {
                true
            } else {
                self.inside_heading
            },
            _ => self.inside_heading,
        }
    }

    open spec fn spec_after(&self, t: TokenView) -> Self {
        match t {
            TokenView::StructureOpen(KindView::Heading(l)) => if spec_level_matches(
                self.level,
                l,
            ) {
                Heading { inside_heading: true, level: self.level }
            } else {
                *self
            },
            TokenView::StructureClose(KindView::Heading(l)) => if spec_level_matches(
                self.level,
                l,
            ) {
                Heading { inside_heading: false, level: self.level }
            } else {
                *self
            },
            _ => *self,
        }
    }

    fn matches_event(&mut self, event: &Token) -> (matched: bool) {
        match event {
            Token::StructureOpen(Kind::Heading(l)) => {
                if level_matches(&self.level, *l) {
                    self.inside_heading = true;
                    true
                } else {
                    self.inside_heading
                }
            },
            Token::StructureClose(Kind::Heading(l)) => {
                if level_matches(&self.level, *l) {
                    // make sure the end tag is also matched
                    self.inside_heading = false;
                    true
                } else {
                    self.inside_heading
                }
            },
            _ => self.inside_heading,
        }
    }
}

/// A stateless [`Matcher`] which matches the opening tag of a heading,
/// optionally of one fixed level, and nothing else.
#[derive(Debug, Clone, PartialEq, Eq)]
pub struct HeadingOpen {
    pub level: Option<u32>,
}

impl HeadingOpen {
    /// Matches the opening tag of any heading.
    pub fn any_level() -> (r: Self)
        ensures
            r.level is None,
    {
        HeadingOpen { level: None }
    }

    /// Matches the opening tag of a heading with the desired level.
    pub fn with_level(level: u32) -> (r: Self)
        ensures
            r.level == Some(level),
    {
        HeadingOpen { level: Some(level) }
    }
}

impl Matcher for HeadingOpen {
    open spec fn spec_matches(&self, t: TokenView) -> bool {
        match t {
            TokenView::StructureOpen(KindView::Heading(l)) => spec_level_matches(self.level, l),
            _ => false,
        }
    }

    open spec fn spec_after(&self, t: TokenView) -> Self {
        *self
    }

    fn matches_event(&mut self, event: &Token) -> (matched: bool) {
        match event {
            Token::StructureOpen(Kind::Heading(l)) => level_matches(&self.level, *l),
            _ => false,
        }
    }
}

/// A stateless [`Matcher`] which matches the closing tag of a heading,
/// optionally of one fixed level, and nothing else.
#[derive(Debug, Clone, PartialEq, Eq)]
pub struct HeadingClose {
    pub level: Option<u32>,
}

impl HeadingClose {
    /// Matches the closing tag of any heading.
    pub fn any_level() -> (r: Self)
        ensures
            r.level is None,
    {
        HeadingClose { level: None }
    }

    /// Matches the closing tag of a heading with the desired level.
    pub fn with_level(level: u32) -> (r: Self)
        ensures
            r.level == Some(level),
    {
        HeadingClose { level: Some(level) }
    }
}

impl Matcher for HeadingClose {
    open spec fn spec_matches(&self, t: TokenView) -> bool {
        match t {
            TokenView::StructureClose(KindView::Heading(l)) => spec_level_matches(self.level, l),
            _ => false,
        }
    }

    open spec fn spec_after(&self, t: TokenView) -> Self {
        *self
    }

    fn matches_event(&mut self, event: &Token) -> (matched: bool) {
        match event {
            Token::StructureClose(Kind::Heading(l)) => level_matches(&self.level, *l),
            _ => false,
        }
    }
}

} // verus!

//! Matching the first token of the block after the one that contained a
//! match.

use vstd::prelude::*;

use crate::matchers::Matcher;
use crate::token::{Token, TokenView};

verus! {

/// The progress of a [`StartOfNextLine`] matcher.
#[derive(Debug, Copy, Clone, PartialEq, Eq)]
pub enum Phase {
    /// Feeding every token to the inner matcher, waiting for it to match.
    WaitingForFirstMatch,
    /// The inner matcher has matched; waiting for the enclosing top-level
    /// element to close (nesting back at zero).
    LookingForLastEndTag,
    /// The enclosing element has closed; fire on the next token.
    FoundLastEndTag,
}

/// The nesting counter after one token: up on every opening tag, down on
/// every closing tag, saturating at the ends of its range. A parsed stream
/// keeps its tags balanced, so saturation is never reached on one.
pub open spec fn spec_nesting_after(n: usize, t: TokenView) -> usize {
    match t {
        TokenView::StructureOpen(_) => if n < usize::MAX {
            (n + 1) as usize
        } else {
            n
        },
        TokenView::StructureClose(_) => if n > 0 {
            (n - 1) as usize
        } else {
            n
        },
        _ => n,
    }
}

/// A [`Matcher`] which will match the start of the next top-level element
/// after some inner [`Matcher`] matches.
///
/// While waiting it feeds every token to the inner matcher and tracks the
/// nesting depth; once the inner matcher has matched and the enclosing
/// top-level element has fully closed, it fires on the following token and
/// resets.
#[derive(Debug, Clone, PartialEq, Eq)]
pub struct StartOfNextLine<M> {
    pub inner: M,
    pub state: Phase,
    pub current_nesting_level: usize,
}

impl<M> StartOfNextLine<M> {
    /// Create a new [`StartOfNextLine`] matcher.
    pub fn new(inner: M) -> (r: Self)
        ensures
            r.inner == inner,
            r.state == Phase::WaitingForFirstMatch,
            r.current_nesting_level == 0,
    {
        StartOfNextLine { inner, state: Phase::WaitingForFirstMatch, current_nesting_level: 0 }
    }

    fn update_nesting(&mut self, event: &Token)
        ensures
            final(self).current_nesting_level == spec_nesting_after(
                old(self).current_nesting_level,
                event@,
            ),
            final(self).inner == old(self).inner,
            final(self).state == old(self).state,
    {
        match event {
            Token::StructureOpen(_) => {
                if self.current_nesting_level < usize::MAX {
                    self.current_nesting_level = self.current_nesting_level + 1;
                }
            },
            Token::StructureClose(_) => {
                if self.current_nesting_level > 0 {
                    self.current_nesting_level = self.current_nesting_level - 1;
                }
            },
            _ => {},
        }
    }
}

impl<M: Matcher> StartOfNextLine<M> {
    fn process_with_inner(&mut self, event: &Token)
        ensures
            final(self).inner == old(self).inner.spec_after(event@),
            final(self).state == if old(self).inner.spec_matches(event@) {
                Phase::LookingForLastEndTag
            } else {
                old(self).state
            },
            final(self).current_nesting_level == old(self).current_nesting_level,
    {
        if self.inner.matches_event(event) {
            self.state = Phase::LookingForLastEndTag;
        }
    }
}

impl<M: Matcher> Matcher for StartOfNextLine<M> {
    open spec fn spec_matches(&self, t: TokenView) -> bool {
        self.state == Phase::FoundLastEndTag
    }

    open spec fn spec_after(&self, t: TokenView) -> Self {
        let n = spec_nesting_after(self.current_nesting_level, t);
        match self.state {
            Phase::WaitingForFirstMatch => StartOfNextLine {
                inner: self.inner.spec_after(t),
                state: if self.inner.spec_matches(t) {
                    Phase::LookingForLastEndTag
                } else {
                    Phase::WaitingForFirstMatch
                },
                current_nesting_level: n,
            },
            Phase::LookingForLastEndTag => StartOfNextLine {
                inner: self.inner,
                state: if n == 0 {
                    Phase::FoundLastEndTag
                } else {
                    Phase::LookingForLastEndTag
                },
                current_nesting_level: n,
            },
            Phase::FoundLastEndTag => StartOfNextLine {
                inner: self.inner,
                state: Phase::WaitingForFirstMatch,
                current_nesting_level: n,
            },
        }
    }

    fn matches_event(&mut self, event: &Token) -> (matched: bool) {
        self.update_nesting(event);
        match self.state {
            Phase::WaitingForFirstMatch => {
                self.process_with_inner(event);
                false
            },
            Phase::LookingForLastEndTag => {
                if self.current_nesting_level == 0 {
                    self.state = Phase::FoundLastEndTag;
                }
                false
            },
            Phase::FoundLastEndTag => {
                self.state = Phase::WaitingForFirstMatch;
                true
            },
        }
    }
}

} // verus!

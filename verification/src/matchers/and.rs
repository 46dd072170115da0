//! Conjunction of two matchers.

use vstd::prelude::*;

use crate::matchers::Matcher;
use crate::token::{Token, TokenView};

verus! {

/// A [`Matcher`] which only returns `true` when both inner [`Matcher`]s do,
/// on the **same** token.
#[derive(Debug, Clone, PartialEq, Eq)]
pub struct And<L, R> {
    pub left: L,
    pub right: R,
}

impl<L, R> And<L, R> {
    /// Create a new [`And`] matcher.
    pub fn new(left: L, right: R) -> (r: Self)
        ensures
            r == (And { left, right }),
    {
        And { left, right }
    }
}

impl<L: Matcher, R: Matcher> Matcher for And<L, R> {
    open spec fn spec_matches(&self, t: TokenView) -> bool {
        self.left.spec_matches(t) && self.right.spec_matches(t)
    }

    open spec fn spec_after(&self, t: TokenView) -> Self {
        And { left: self.left.spec_after(t), right: self.right.spec_after(t) }
    }

    fn matches_event(&mut self, event: &Token) -> (matched: bool) {
        // both sides are evaluated unconditionally - no short-circuit -
        // because each side may carry state that must observe every token
        let left = self.left.matches_event(event);
        let right = self.right.matches_event(event);
        left && right
    }
}

} // verus!

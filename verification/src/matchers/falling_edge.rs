//! Edge detection: firing on the token where an inner matcher stops
//! matching.

use vstd::prelude::*;

use crate::matchers::{lemma_spec_run_snoc, spec_matches_at, Matcher};
use crate::token::{Token, TokenView};

verus! {

/// A [`Matcher`] which will detect the falling edge of another: it returns
/// `true` exactly on the token where the inner matcher goes from `true` to
/// `false`.
#[derive(Debug, Clone, PartialEq, Eq)]
pub struct FallingEdge<M> {
    pub inner: M,
    pub previous_was_matched: bool,
}

impl<M> FallingEdge<M> {
    /// Create a new [`FallingEdge`] matcher.
    pub fn new(inner: M) -> (r: Self)
        ensures
            r.inner == inner,
            !r.previous_was_matched,
    {
        FallingEdge { inner, previous_was_matched: false }
    }
}

impl<M: Matcher> Matcher for FallingEdge<M> {
    open spec fn spec_matches(&self, t: TokenView) -> bool {
        self.previous_was_matched && !self.inner.spec_matches(t)
    }

    open spec fn spec_after(&self, t: TokenView) -> Self {
        FallingEdge {
            inner: self.inner.spec_after(t),
            previous_was_matched: self.inner.spec_matches(t),
        }
    }

    fn matches_event(&mut self, event: &Token) -> (matched: bool) {
        let current_is_matched = self.inner.matches_event(event);
        let is_falling_edge = self.previous_was_matched && !current_is_matched;
        self.previous_was_matched = current_is_matched;
        is_falling_edge
    }
}

/// An edge, not a level: a falling edge can never fire on two consecutive
/// tokens. Firing at `i` means the inner matcher answered `false` there,
/// while firing at `i + 1` would need it to have answered `true` at `i`.
pub proof fn lemma_falling_edge_not_consecutive<M: Matcher>(
    m: FallingEdge<M>,
    toks: Seq<TokenView>,
    i: int,
)
    requires
        0 <= i,
        i + 1 < toks.len(),
        spec_matches_at(m, toks, i),
    ensures
        !spec_matches_at(m, toks, i + 1),
{
    lemma_spec_run_snoc(m, toks, i);
}

} // verus!

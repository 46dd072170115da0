//! One-shot latching: a matcher wrapper that can only ever fire once.

use vstd::prelude::*;

use crate::matchers::{lemma_spec_run_snoc, spec_matches_at, spec_run, Matcher};
use crate::token::{Token, TokenView};

verus! {

/// A [`Matcher`] which will only ever return `true` once.
///
/// It delegates to the inner matcher until that first returns `true`; from
/// then on it permanently returns `false` and stops invoking the inner
/// matcher entirely, freezing its state at the moment of latching.
#[derive(Debug, Clone, PartialEq, Eq)]
pub struct OneShot<M> {
    pub inner: M,
    pub already_triggered: bool,
}

impl<M> OneShot<M> {
    /// Create a [`OneShot`] matcher.
    pub fn new(inner: M) -> (r: Self)
        ensures
            r.inner == inner,
            !r.already_triggered,
    {
        OneShot { inner, already_triggered: false }
    }
}

impl<M: Matcher> Matcher for OneShot<M> {
    open spec fn spec_matches(&self, t: TokenView) -> bool {
        !self.already_triggered && self.inner.spec_matches(t)
    }

    open spec fn spec_after(&self, t: TokenView) -> Self {
        if self.already_triggered {
            *self
        } else {
            OneShot {
                inner: self.inner.spec_after(t),
                already_triggered: self.inner.spec_matches(t),
            }
        }
    }

    fn matches_event(&mut self, event: &Token) -> (matched: bool) {
        if self.already_triggered {
            return false;
        }
        let got = self.inner.matches_event(event);
        if got {
            self.already_triggered = true;
        }
        got
    }
}

/// Once latched, a one-shot matcher stays latched for the rest of the
/// traversal.
proof fn lemma_one_shot_latch_stays<M: Matcher>(
    m: OneShot<M>,
    toks: Seq<TokenView>,
    i: int,
    j: int,
)
    requires
        0 <= i <= j <= toks.len(),
        spec_run(m, toks.take(i)).already_triggered,
    ensures
        spec_run(m, toks.take(j)).already_triggered,
    decreases j - i,
{
    if i < j {
        lemma_one_shot_latch_stays(m, toks, i, j - 1);
        lemma_spec_run_snoc(m, toks, j - 1);
    }
}

/// At most one shot: over any stream, a one-shot matcher answers `true` on
/// at most one token. Firing latches it, and a latched matcher never fires.
pub proof fn lemma_one_shot_at_most_once<M: Matcher>(
    m: OneShot<M>,
    toks: Seq<TokenView>,
    i: int,
    j: int,
)
    requires
        0 <= i < j < toks.len(),
        spec_matches_at(m, toks, i),
    ensures
        !spec_matches_at(m, toks, j),
{
    lemma_spec_run_snoc(m, toks, i);
    assert(spec_run(m, toks.take(i + 1)).already_triggered);
    lemma_one_shot_latch_stays(m, toks, i + 1, j);
}

} // verus!

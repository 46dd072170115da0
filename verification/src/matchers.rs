//! Matchers: stateful single-pass predicates over a token stream.

pub mod and;
pub mod falling_edge;
pub mod heading;
pub mod one_shot;
pub mod start_of_next_line;
pub mod text;

use vstd::prelude::*;

use crate::strutil::{seq_contains_sub, str_contains};
use crate::token::{Kind, KindView, Token, TokenView};
use vstd::slice::slice_index_get;
use vstd::slice::slice_subrange;

verus! {

/// A predicate which can be fed a stream of [`Token`]s, one at a time, and
/// tell you whether the current token matches a desired condition.
///
/// A matcher must observe every token of the stream exactly once, in order;
/// its answer on a token is a function of its current state and that token,
/// pinned down by [`Matcher::spec_matches`] and [`Matcher::spec_after`].
pub trait Matcher: Sized {
    /// The answer this matcher gives when it observes `t` in its current
    /// state.
    spec fn spec_matches(&self, t: TokenView) -> bool;

    /// The state this matcher is left in after observing `t`.
    spec fn spec_after(&self, t: TokenView) -> Self;

    /// Evaluate this predicate against one token of the stream.
    fn matches_event(&mut self, event: &Token) -> (matched: bool)
        ensures
            matched == old(self).spec_matches(event@),
            *final(self) == old(self).spec_after(event@),
    ;

    /// Returns a [`Matcher`] which will wait until `self` matches, then
    /// return `true` at the start of the next top-level element.
    fn then_start_of_next_line(self) -> (r: start_of_next_line::StartOfNextLine<Self>)
        ensures
            r.inner == self,
            r.state == start_of_next_line::Phase::WaitingForFirstMatch,
            r.current_nesting_level == 0,
    {
        start_of_next_line::StartOfNextLine::new(self)
    }

    /// Wraps `self` in a [`Matcher`] which will only ever return `true`
    /// once.
    fn fuse(self) -> (r: one_shot::OneShot<Self>)
        ensures
            r.inner == self,
            !r.already_triggered,
    {
        one_shot::OneShot::new(self)
    }

    /// Get a [`Matcher`] which returns `true` when `self` goes from `true`
    /// to `false`.
    fn falling_edge(self) -> (r: falling_edge::FallingEdge<Self>)
        ensures
            r.inner == self,
            !r.previous_was_matched,
    {
        falling_edge::FallingEdge::new(self)
    }
}

/// A [`Matcher`] which matches everything.
#[derive(Debug, Default, Copy, Clone, PartialEq, Eq, Hash)]
pub struct Always;

impl Matcher for Always {
    open spec fn spec_matches(&self, t: TokenView) -> bool {
        true
    }

    open spec fn spec_after(&self, t: TokenView) -> Self {
        *self
    }

    fn matches_event(&mut self, event: &Token) -> (matched: bool) {
        true
    }
}

/// The state a matcher starting in state `m` is left in after observing
/// every token of `toks`, in order.
pub open spec fn spec_run<M: Matcher>(m: M, toks: Seq<TokenView>) -> M
    decreases toks.len(),
{
    if toks.len() == 0 {
        m
    } else {
        spec_run(m, toks.drop_last()).spec_after(toks.last())
    }
}

/// Whether a matcher starting in state `m` answers true on token `i` of
/// `toks`, having observed every earlier token.
pub open spec fn spec_matches_at<M: Matcher>(m: M, toks: Seq<TokenView>, i: int) -> bool {
    spec_run(m, toks.take(i)).spec_matches(toks[i])
}

/// The first index at or after `i` on which the matcher answers true, given
/// that it arrives at `i` in state `m`.
pub open spec fn spec_first_match_from<M: Matcher>(
    m: M,
    toks: Seq<TokenView>,
    i: int,
) -> Option<int>
    decreases toks.len() - i,
    when 0 <= i <= toks.len()
{
    if i >= toks.len() {
        None
    } else if m.spec_matches(toks[i]) {
        Some(i)
    } else {
        spec_first_match_from(m.spec_after(toks[i]), toks, i + 1)
    }
}

/// The index of the first token of `toks` on which a matcher starting in
/// state `m` answers true.
pub open spec fn spec_first_match<M: Matcher>(m: M, toks: Seq<TokenView>) -> Option<int> {
    spec_first_match_from(m, toks, 0)
}

/// Running a matcher over one more token steps its state once.
pub proof fn lemma_spec_run_snoc<M: Matcher>(m: M, toks: Seq<TokenView>, i: int)
    requires
        0 <= i < toks.len(),
    ensures
        spec_run(m, toks.take(i + 1)) == spec_run(m, toks.take(i)).spec_after(toks[i]),
{
    assert(toks.take(i + 1).drop_last() =~= toks.take(i));
    assert(toks.take(i + 1).last() == toks[i]);
}

proof fn lemma_first_match_from_characterises<M: Matcher>(m: M, toks: Seq<TokenView>, i: int)
    requires
        0 <= i <= toks.len(),
    ensures
        match spec_first_match_from(spec_run(m, toks.take(i)), toks, i) {
            Some(k) => i <= k < toks.len() && spec_matches_at(m, toks, k) && (forall|j: int|
                i <= j < k ==> !spec_matches_at(m, toks, j)),
            None => forall|j: int| i <= j < toks.len() ==> !spec_matches_at(m, toks, j),
        },
    decreases toks.len() - i,
{
    if i < toks.len() {
        let mi = spec_run(m, toks.take(i));
        if mi.spec_matches(toks[i]) {
        } else {
            lemma_spec_run_snoc(m, toks, i);
            lemma_first_match_from_characterises(m, toks, i + 1);
        }
    }
}

/// What the first-match index means: the matcher answers true there, and on
/// no earlier token.
pub proof fn lemma_first_match_characterises<M: Matcher>(m: M, toks: Seq<TokenView>)
    ensures
        match spec_first_match(m, toks) {
            Some(k) => 0 <= k < toks.len() && spec_matches_at(m, toks, k) && (forall|j: int|
                0 <= j < k ==> !spec_matches_at(m, toks, j)),
            None => forall|j: int| 0 <= j < toks.len() ==> !spec_matches_at(m, toks, j),
        },
{
    assert(toks.take(0) =~= Seq::<TokenView>::empty());
    lemma_first_match_from_characterises(m, toks, 0);
}

/// Find the index of the first [`Token`] which is matched by this predicate,
/// driving the matcher over the stream up to and including that index.
pub fn first_match<M: Matcher>(matcher: &mut M, tokens: &[Token]) -> (r: Option<usize>)
    ensures
        match spec_first_match(*old(matcher), tokens.deep_view()) {
            Some(k) => r == Some(k as usize) && *final(matcher) == spec_run(
                *old(matcher),
                tokens.deep_view().take(k + 1),
            ),
            None => r is None && *final(matcher) == spec_run(*old(matcher), tokens.deep_view()),
        },
{
    let ghost tv = tokens.deep_view();
    let n = tokens.len();
    proof {
        assert(tv.take(0) =~= Seq::<TokenView>::empty());
    }
    let mut i: usize = 0;
    while i < n
        invariant
            i <= n,
            n == tokens@.len(),
            tv == tokens.deep_view(),
            *matcher == spec_run(*old(matcher), tv.take(i as int)),
            spec_first_match(*old(matcher), tv) == spec_first_match_from(
                *matcher,
                tv,
                i as int,
            ),
        decreases n - i,
    {
        let t = slice_index_get(tokens, i);
        let matched = matcher.matches_event(t);
        proof {
            assert(t@ == tv[i as int]);
            lemma_spec_run_snoc(*old(matcher), tv, i as int);
        }
        if matched {
            return Some(i);
        }
        i += 1;
    }
    proof {
        assert(tv.take(n as int) =~= tv);
    }
    None
}

/// Checks whether this [`Matcher`] matches anything in a stream of
/// [`Token`]s.
pub fn is_in<M: Matcher>(matcher: M, tokens: &[Token]) -> (r: bool)
    ensures
        r == (spec_first_match(matcher, tokens.deep_view()) is Some),
{
    let mut m = matcher;
    match first_match(&mut m, tokens) {
        Some(_) => true,
        None => false,
    }
}

/// The indices of all matching tokens, in order, driving the matcher over
/// the whole stream exactly once.
///
/// The indices come out strictly increasing, each within bounds: exactly the
/// positions on which the matcher answers true.
pub fn match_indices<M: Matcher>(matcher: M, tokens: &[Token]) -> (r: Vec<usize>)
    ensures
        forall|k: int|
            0 <= k < r@.len() ==> (#[trigger] r@[k]) < tokens@.len() && spec_matches_at(
                matcher,
                tokens.deep_view(),
                r@[k] as int,
            ),
        forall|k1: int, k2: int| 0 <= k1 < k2 < r@.len() ==> r@[k1] < r@[k2],
        forall|j: int|
            0 <= j < tokens@.len() && spec_matches_at(matcher, tokens.deep_view(), j)
                ==> r@.contains(j as usize),
{
    let ghost tv = tokens.deep_view();
    let n = tokens.len();
    proof {
        assert(tv.take(0) =~= Seq::<TokenView>::empty());
    }
    let mut m = matcher;
    let mut out: Vec<usize> = Vec::new();
    let mut i: usize = 0;
    while i < n
        invariant
            i <= n,
            n == tokens@.len(),
            tv == tokens.deep_view(),
            m == spec_run(matcher, tv.take(i as int)),
            forall|k: int|
                0 <= k < out@.len() ==> (#[trigger] out@[k]) < i && spec_matches_at(
                    matcher,
                    tv,
                    out@[k] as int,
                ),
            forall|k1: int, k2: int| 0 <= k1 < k2 < out@.len() ==> out@[k1] < out@[k2],
            forall|j: int|
                0 <= j < i && spec_matches_at(matcher, tv, j) ==> out@.contains(j as usize),
        decreases n - i,
    {
        let t = slice_index_get(tokens, i);
        let matched = m.matches_event(t);
        proof {
            assert(t@ == tv[i as int]);
            lemma_spec_run_snoc(matcher, tv, i as int);
            assert(spec_matches_at(matcher, tv, i as int) == matched);
        }
        let ghost old_out = out@;
        if matched {
            out.push(i);
            proof {
                assert(out@[old_out.len() as int] == i);
            }
        }
        proof {
            assert forall|j: int|
                0 <= j < i + 1 && spec_matches_at(matcher, tv, j) implies out@.contains(
                j as usize,
            ) by {
                if j < i {
                    let w = choose|w: int| 0 <= w < old_out.len() && old_out[w] == j as usize;
                    assert(out@[w] == j as usize);
                } else {
                    assert(out@[old_out.len() as int] == i);
                }
            }
        }
        i += 1;
    }
    out
}

/// All [`Token`]s between (inclusive) two matchers: the sub-range from the
/// first token matched by `start` through the first token of the remainder
/// matched by `end`, or through the end of input if `end` never matches.
pub fn between<'t, S: Matcher, E: Matcher>(start: S, end: E, tokens: &'t [Token]) -> (r: Option<
    &'t [Token],
>)
    ensures
        match spec_first_match(start, tokens.deep_view()) {
            None => r is None,
            Some(s_ix) => match r {
                Some(sub) => sub.deep_view() == {
                    let rest = tokens.deep_view().skip(s_ix);
                    match spec_first_match(end, rest) {
                        Some(e_ix) => rest.take(e_ix + 1),
                        None => rest,
                    }
                },
                None => false,
            },
        },
{
    let ghost tv = tokens.deep_view();
    let n = tokens.len();
    let mut s = start;
    let start_ix = match first_match(&mut s, tokens) {
        Some(ix) => ix,
        None => {
            return None;
        },
    };
    proof {
        lemma_first_match_characterises(start, tv);
    }
    let rest = slice_subrange(tokens, start_ix, n);
    proof {
        lemma_deep_view_subrange(rest, tokens, start_ix as int, n as int);
        assert(tv.subrange(start_ix as int, n as int) =~= tv.skip(start_ix as int));
    }
    let mut e = end;
    match first_match(&mut e, rest) {
        Some(end_ix) => {
            proof {
                lemma_first_match_characterises(end, rest.deep_view());
            }
            let sub = slice_subrange(rest, 0, end_ix + 1);
            proof {
                lemma_deep_view_subrange(sub, rest, 0, end_ix + 1);
                assert(rest.deep_view().subrange(0, end_ix + 1) =~= rest.deep_view().take(
                    end_ix + 1,
                ));
            }
            Some(sub)
        },
        None => Some(rest),
    }
}

/// A sub-slice models the matching sub-range of its parent's model.
proof fn lemma_deep_view_subrange(sub: &[Token], parent: &[Token], lo: int, hi: int)
    requires
        0 <= lo <= hi <= parent@.len(),
        sub@ == parent@.subrange(lo, hi),
    ensures
        sub.deep_view() == parent.deep_view().subrange(lo, hi),
{
    assert(sub.deep_view() =~= parent.deep_view().subrange(lo, hi));
}

/// Match a text run with this *exact* text. Not to be confused with
/// [`text_containing`].
pub fn exact_text(needle: &str) -> (r: text::Text)
    ensures
        r.needle@ == needle@,
        r.mode == text::TextMode::Exact,
{
    text::Text::literal(needle)
}

/// Match a text run which *contains* the provided string. Not to be
/// confused with [`exact_text`].
pub fn text_containing(needle: &str) -> (r: text::Text)
    ensures
        r.needle@ == needle@,
        r.mode == text::TextMode::Contains,
{
    text::Text::containing(needle.to_owned())
}

/// A stateless [`Matcher`] which matches the opening tag of a link whose
/// destination URL contains a fixed needle.
#[derive(Debug, Clone, PartialEq, Eq)]
pub struct LinkUrlContains {
    pub needle: String,
}

impl Matcher for LinkUrlContains {
    open spec fn spec_matches(&self, t: TokenView) -> bool {
        match t {
            TokenView::StructureOpen(KindView::Link(url)) => seq_contains_sub(url, self.needle@),
            _ => false,
        }
    }

    open spec fn spec_after(&self, t: TokenView) -> Self {
        *self
    }

    fn matches_event(&mut self, event: &Token) -> (matched: bool) {
        match event {
            Token::StructureOpen(Kind::Link(url)) => str_contains(
                url.as_str(),
                self.needle.as_str(),
            ),
            _ => false,
        }
    }
}

/// Matches the start of a link whose URL contains a certain string.
pub fn link_with_url_containing(needle: &str) -> (r: LinkUrlContains)
    ensures
        r.needle@ == needle@,
{
    LinkUrlContains { needle: needle.to_owned() }
}

} // verus!

//! The range-buffered transform: capture a whole matched region into a
//! working buffer, rewrite it in one batch, then flush it downstream.

use vstd::prelude::*;

use crate::matchers::Matcher;
use crate::strutil::{to_uppercase, upper_of};
use crate::token::{Token, TokenView};
use vstd::pervasive::VecAdditionalExecFns;

verus! {

/// Something which can rewrite a whole captured region of tokens at once:
/// unlike a per-token rewriter, it receives the entire region as a mutable
/// buffer and may reorder, resize or replace it arbitrarily.
pub trait Transform: Sized {
    /// What the transform turns a captured region into.
    spec fn spec_transform(&self, toks: Seq<TokenView>) -> Seq<TokenView>;

    /// Rewrite a captured region in place.
    fn apply(&self, buffer: &mut Vec<Token>)
        ensures
            final(buffer).deep_view() == self.spec_transform(old(buffer).deep_view()),
    ;
}

/// The uppercase form of one token: the content of a text run goes
/// uppercase, every other token stays as it is.
pub open spec fn spec_uppercase_token(t: TokenView) -> TokenView {
    match t {
        TokenView::Text(s) => TokenView::Text(upper_of(s)),
        _ => t,
    }
}

/// A [`Transform`] which uppercases the content of every text run in the
/// captured region and leaves every other token unchanged.
#[derive(Debug, Default, Copy, Clone, PartialEq, Eq)]
pub struct UppercaseAllText;

impl Transform for UppercaseAllText {
    open spec fn spec_transform(&self, toks: Seq<TokenView>) -> Seq<TokenView> {
        Seq::new(toks.len(), |i: int| spec_uppercase_token(toks[i]))
    }

    fn apply(&self, buffer: &mut Vec<Token>) {
        let n = buffer.len();
        let mut i: usize = 0;
        while i < n
            invariant
                i <= n,
                n == buffer@.len(),
                n == old(buffer)@.len(),
                forall|k: int|
                    0 <= k < i ==> (#[trigger] buffer.deep_view()[k]) == spec_uppercase_token(
                        old(buffer).deep_view()[k],
                    ),
                forall|k: int| i <= k < n ==> (#[trigger] buffer@[k]) == old(buffer)@[k],
            decreases n - i,
        {
            let ghost b0 = *buffer;
            let ghost prev = buffer@[i as int];
            let replacement = match &buffer[i] {
                Token::Text(s) => Some(to_uppercase(s.as_str())),
                _ => None,
            };
            match replacement {
                Some(up) => {
                    proof {
                        assert(prev matches Token::Text(s) && up@ == upper_of(s@));
                        assert(Token::Text(up)@ == spec_uppercase_token(prev@));
                    }
                    buffer.set(i, Token::Text(up));
                },
                None => {
                    proof {
                        assert(!(prev is Text));
                        assert(spec_uppercase_token(prev@) == prev@);
                    }
                },
            }
            proof {
                assert(prev == old(buffer)@[i as int]);
                assert(buffer@[i as int].deep_view() == spec_uppercase_token(prev@));
                assert forall|k: int| 0 <= k < i + 1 implies (#[trigger] buffer.deep_view()[k])
                    == spec_uppercase_token(old(buffer).deep_view()[k]) by {
                    assert(buffer.deep_view()[k] == buffer@[k].deep_view());
                    assert(old(buffer).deep_view()[k] == old(buffer)@[k].deep_view());
                    if k < i {
                        assert(buffer@[k] == b0@[k]);
                        assert(b0.deep_view()[k] == b0@[k].deep_view());
                    }
                }
            }
            i += 1;
        }
        proof {
            assert(buffer.deep_view() =~= self.spec_transform(old(buffer).deep_view()));
        }
    }
}

/// The region machine's state, as the mathematics sees it: waiting for a
/// start match, or reading a region whose captured tokens so far are given.
pub enum RegionView {
    Waiting,
    Reading(Seq<TokenView>),
}

/// The region machine's executable state.
#[derive(Debug)]
pub enum Region {
    /// No region is open; tokens pass straight through.
    Waiting,
    /// A region is open; every token is appended to the captured buffer.
    Reading(Vec<Token>),
}

impl View for Region {
    type V = RegionView;

    open spec fn view(&self) -> RegionView {
        match self {
            Region::Waiting => RegionView::Waiting,
            Region::Reading(buffer) => RegionView::Reading(buffer.deep_view()),
        }
    }
}

/// The whole machine between two tokens: the two matchers' states, the
/// region state, and everything flushed downstream so far.
pub struct RbState<S, E> {
    pub start: S,
    pub end: E,
    pub region: RegionView,
    pub out: Seq<TokenView>,
}

/// One step of the machine over one token. Both matchers advance on every
/// token, whatever the state; a token that opens a region is captured, a
/// token that closes one is captured and the transformed buffer is flushed,
/// and every other token is either passed through (waiting) or captured
/// (reading).
pub open spec fn spec_rb_step<S: Matcher, E: Matcher, F: Transform>(
    st: RbState<S, E>,
    f: F,
    t: TokenView,
) -> RbState<S, E> {
    let s2 = st.start.spec_after(t);
    let e2 = st.end.spec_after(t);
    match st.region {
        RegionView::Waiting => if st.start.spec_matches(t) {
            RbState { start: s2, end: e2, region: RegionView::Reading(seq![t]), out: st.out }
        } else {
            RbState { start: s2, end: e2, region: RegionView::Waiting, out: st.out.push(t) }
        },
        RegionView::Reading(buf) => if st.end.spec_matches(t) {
            RbState {
                start: s2,
                end: e2,
                region: RegionView::Waiting,
                out: st.out + f.spec_transform(buf.push(t)),
            }
        } else {
            RbState { start: s2, end: e2, region: RegionView::Reading(buf.push(t)), out: st.out }
        },
    }
}

/// The machine folded over a whole stream, token by token.
pub open spec fn spec_rb_run<S: Matcher, E: Matcher, F: Transform>(
    st: RbState<S, E>,
    f: F,
    toks: Seq<TokenView>,
) -> RbState<S, E>
    decreases toks.len(),
{
    if toks.len() == 0 {
        st
    } else {
        spec_rb_run(spec_rb_step(st, f, toks.first()), f, toks.drop_first())
    }
}

/// What the machine has sent downstream once the input ends: a region still
/// open at end of input is flushed verbatim, with no transform applied.
pub open spec fn spec_rb_finish<S, E>(st: RbState<S, E>) -> Seq<TokenView> {
    match st.region {
        RegionView::Waiting => st.out,
        RegionView::Reading(buf) => st.out + buf,
    }
}

/// The machine's starting state.
pub open spec fn spec_rb_init<S: Matcher, E: Matcher>(start: S, end: E) -> RbState<S, E> {
    RbState { start, end, region: RegionView::Waiting, out: Seq::empty() }
}

/// The full output of the range-buffered transform over a stream.
pub open spec fn spec_rewrite_between<S: Matcher, E: Matcher, F: Transform>(
    start: S,
    end: E,
    f: F,
    toks: Seq<TokenView>,
) -> Seq<TokenView> {
    spec_rb_finish(spec_rb_run(spec_rb_init(start, end), f, toks))
}

/// Folding one more token steps the machine once.
pub proof fn lemma_rb_run_snoc<S: Matcher, E: Matcher, F: Transform>(
    st: RbState<S, E>,
    f: F,
    toks: Seq<TokenView>,
    t: TokenView,
)
    ensures
        spec_rb_run(st, f, toks.push(t)) == spec_rb_step(spec_rb_run(st, f, toks), f, t),
    decreases toks.len(),
{
    let s = toks.push(t);
    if toks.len() == 0 {
        assert(s.first() == t);
        assert(s.drop_first() =~= Seq::<TokenView>::empty());
        assert(spec_rb_run(spec_rb_step(st, f, t), f, s.drop_first()) == spec_rb_step(st, f, t));
    } else {
        assert(s.first() == toks.first());
        assert(s.drop_first() =~= toks.drop_first().push(t));
        lemma_rb_run_snoc(spec_rb_step(st, f, toks.first()), f, toks.drop_first(), t);
    }
}

/// One step only appends to the downstream output.
proof fn lemma_rb_step_out_extends<S: Matcher, E: Matcher, F: Transform>(
    st: RbState<S, E>,
    f: F,
    t: TokenView,
)
    ensures
        spec_rb_step(st, f, t).out.len() >= st.out.len(),
        spec_rb_step(st, f, t).out.take(st.out.len() as int) == st.out,
{
    let st2 = spec_rb_step(st, f, t);
    assert(st2.out.take(st.out.len() as int) =~= st.out);
}

/// What the machine has flushed after a prefix of the stream is a prefix of
/// the full output over the whole stream.
pub proof fn lemma_rb_out_prefix<S: Matcher, E: Matcher, F: Transform>(
    st: RbState<S, E>,
    f: F,
    toks: Seq<TokenView>,
    i: int,
)
    requires
        0 <= i <= toks.len(),
    ensures
        spec_rb_run(st, f, toks.take(i)).out.len() <= spec_rb_finish(
            spec_rb_run(st, f, toks),
        ).len(),
        spec_rb_run(st, f, toks.take(i)).out == spec_rb_finish(spec_rb_run(st, f, toks)).take(
            spec_rb_run(st, f, toks.take(i)).out.len() as int,
        ),
    decreases toks.len() - i,
{
    let full = spec_rb_finish(spec_rb_run(st, f, toks));
    if i < toks.len() {
        let cur = spec_rb_run(st, f, toks.take(i));
        assert(toks.take(i).push(toks[i]) =~= toks.take(i + 1));
        lemma_rb_run_snoc(st, f, toks.take(i), toks[i]);
        lemma_rb_step_out_extends(cur, f, toks[i]);
        lemma_rb_out_prefix(st, f, toks, i + 1);
        assert(cur.out =~= full.take(cur.out.len() as int));
    } else {
        assert(toks.take(i) =~= toks);
        let fin = spec_rb_run(st, f, toks);
        assert(fin.out =~= spec_rb_finish(fin).take(fin.out.len() as int));
    }
}

fn handle_waiting_for_start<S: Matcher, E: Matcher>(
    event: Token,
    start: &mut S,
    end: &mut E,
    processed: &mut Vec<Token>,
) -> (next_state: Region)
    ensures
        *final(start) == old(start).spec_after(event@),
        *final(end) == old(end).spec_after(event@),
        ({
            if old(start).spec_matches(event@) {
                &&& next_state@ == RegionView::Reading(seq![event@])
                &&& *final(processed) == *old(processed)
            } else {
                &&& next_state@ == RegionView::Waiting
                &&& final(processed).deep_view() == old(processed).deep_view().push(event@)
            }
        }),
{
    let start_matched = start.matches_event(&event);
    // the end matcher must observe this token too, to keep its state in step
    end.matches_event(&event);
    if start_matched {
        let mut buffer: Vec<Token> = Vec::new();
        buffer.push(event);
        proof {
            assert(buffer.deep_view() =~= seq![event@]);
        }
        Region::Reading(buffer)
    } else {
        let ghost before = processed.deep_view();
        processed.push(event);
        proof {
            assert(processed.deep_view() =~= before.push(event@));
        }
        Region::Waiting
    }
}

fn handle_reading_codeblock<S: Matcher, E: Matcher, F: Transform>(
    buffer: Vec<Token>,
    event: Token,
    start: &mut S,
    end: &mut E,
    processed: &mut Vec<Token>,
    transform: &F,
) -> (next_state: Region)
    ensures
        *final(start) == old(start).spec_after(event@),
        *final(end) == old(end).spec_after(event@),
        ({
            if old(end).spec_matches(event@) {
                &&& next_state@ == RegionView::Waiting
                &&& final(processed).deep_view() == old(processed).deep_view()
                    + transform.spec_transform(buffer.deep_view().push(event@))
            } else {
                &&& next_state@ == RegionView::Reading(buffer.deep_view().push(event@))
                &&& *final(processed) == *old(processed)
            }
        }),
{
    // the start matcher must observe this token too, to keep its state in step
    start.matches_event(&event);
    let end_matches = end.matches_event(&event);
    let ghost captured = buffer.deep_view();
    let mut buffer = buffer;
    buffer.push(event);
    proof {
        assert(buffer.deep_view() =~= captured.push(event@));
    }
    if end_matches {
        transform.apply(&mut buffer);
        let ghost before = processed.deep_view();
        let ghost emitted = buffer.deep_view();
        processed.append(&mut buffer);
        proof {
            assert(processed.deep_view() =~= before + emitted);
        }
        Region::Waiting
    } else {
        Region::Reading(buffer)
    }
}

/// Feed one token to the machine: both matchers advance, the region state
/// steps, and whatever is flushed lands at the back of `processed`.
fn handle_event<S: Matcher, E: Matcher, F: Transform>(
    current_state: Region,
    start: &mut S,
    end: &mut E,
    event: Token,
    processed: &mut Vec<Token>,
    transform: &F,
) -> (next_state: Region)
    ensures
        ({
            let st = RbState {
                start: *old(start),
                end: *old(end),
                region: current_state@,
                out: old(processed).deep_view(),
            };
            let st2 = spec_rb_step(st, *transform, event@);
            &&& *final(start) == st2.start
            &&& *final(end) == st2.end
            &&& next_state@ == st2.region
            &&& final(processed).deep_view() == st2.out
        }),
{
    match current_state {
        Region::Waiting => handle_waiting_for_start(event, start, end, processed),
        Region::Reading(buffer) => handle_reading_codeblock(
            buffer,
            event,
            start,
            end,
            processed,
            transform,
        ),
    }
}

/// The stream behind [`rewrite_between`]: tokens outside any matched region
/// pass through one by one; a region from the first `start` match through
/// the first subsequent `end` match (inclusive) is captured whole,
/// transformed in one batch, and flushed; a region still open when the
/// input ends is flushed verbatim, with no transform applied.
pub struct RewriteBetween<S, E, F> {
    pub input: Vec<Token>,
    pub pos: usize,
    pub start: S,
    pub end: E,
    pub rewrite: F,
    pub state: Region,
    pub buffer: Vec<Token>,
    pub init: Ghost<(S, E)>,
    pub flushed: Ghost<bool>,
}

impl<S: Matcher, E: Matcher, F: Transform> RewriteBetween<S, E, F> {
    /// The machine's state after the consumed prefix of the input.
    pub open spec fn spec_state_now(&self) -> RbState<S, E> {
        spec_rb_run(
            spec_rb_init(self.init@.0, self.init@.1),
            self.rewrite,
            self.input.deep_view().take(self.pos as int),
        )
    }

    /// The full stream this value will have handed out once drained.
    pub open spec fn spec_full(&self) -> Seq<TokenView> {
        spec_rewrite_between(self.init@.0, self.init@.1, self.rewrite, self.input.deep_view())
    }

    /// Everything flushed downstream so far, the end-of-input flush
    /// included once it has happened.
    pub open spec fn spec_produced(&self) -> Seq<TokenView> {
        if self.flushed@ {
            self.spec_full()
        } else {
            self.spec_state_now().out
        }
    }

    /// The tokens already handed out: everything flushed downstream so far,
    /// except what still waits in the queue.
    pub open spec fn spec_emitted(&self) -> Seq<TokenView> {
        self.spec_produced().take(self.spec_produced().len() - self.buffer.deep_view().len())
    }

    /// Well-formed: the position is in range, the matchers and the region
    /// state match the machine run over the consumed prefix (until the
    /// end-of-input flush), and the queue holds exactly the not yet emitted
    /// tail of what was flushed downstream.
    pub open spec fn wf(&self) -> bool {
        &&& self.pos <= self.input.len()
        &&& self.buffer.deep_view().len() <= self.spec_produced().len()
        &&& self.buffer.deep_view() == self.spec_produced().skip(
            self.spec_produced().len() - self.buffer.deep_view().len(),
        )
        &&& if self.flushed@ {
            &&& self.pos == self.input.len()
            &&& self.state@ is Waiting
        } else {
            &&& self.start == self.spec_state_now().start
            &&& self.end == self.spec_state_now().end
            &&& self.state@ == self.spec_state_now().region
        }
    }

    /// Create a new [`RewriteBetween`] stream over `events`.
    pub fn new(events: Vec<Token>, start: S, end: E, rewrite: F) -> (r: Self)
        ensures
            r.wf(),
            r.init@ == (start, end),
            r.rewrite == rewrite,
            r.input == events,
            r.spec_emitted() == Seq::<TokenView>::empty(),
            r.spec_full() == spec_rewrite_between(start, end, rewrite, events.deep_view()),
    {
        let ghost gs = start;
        let ghost ge = end;
        let r = RewriteBetween {
            input: events,
            pos: 0,
            start,
            end,
            rewrite,
            state: Region::Waiting,
            buffer: Vec::new(),
            init: Ghost((gs, ge)),
            flushed: Ghost(false),
        };
        proof {
            assert(r.input.deep_view().take(0) =~= Seq::<TokenView>::empty());
            assert(r.buffer.deep_view() =~= Seq::<TokenView>::empty());
            assert(r.spec_emitted() =~= Seq::<TokenView>::empty());
        }
        r
    }

    /// Pull the next token, or `None` once the input is exhausted and every
    /// pending output has been handed out.
    pub fn next(&mut self) -> (r: Option<Token>)
        requires
            old(self).wf(),
        ensures
            final(self).wf(),
            final(self).init == old(self).init,
            final(self).input == old(self).input,
            final(self).rewrite == old(self).rewrite,
            final(self).spec_full() == old(self).spec_full(),
            ({
                let e = old(self).spec_emitted();
                let full = old(self).spec_full();
                if e.len() < full.len() {
                    match r {
                        Some(t) => t@ == full[e.len() as int] && final(self).spec_emitted()
                            == e.push(full[e.len() as int]),
                        None => false,
                    }
                } else {
                    r is None && e == full && final(self).spec_emitted() == e
                }
            }),
    {
        loop
            invariant
                self.wf(),
                self.init == old(self).init,
                self.input == old(self).input,
                self.rewrite == old(self).rewrite,
                self.spec_emitted() == old(self).spec_emitted(),
            decreases self.input.len() - self.pos, (if self.flushed@ {
                0int
            } else {
                1int
            }),
        {
            let ghost e = self.spec_emitted();
            let ghost produced = self.spec_produced();
            let ghost full = self.spec_full();
            if self.buffer.len() > 0 {
                proof {
                    if !self.flushed@ {
                        lemma_rb_out_prefix(
                            spec_rb_init(self.init@.0, self.init@.1),
                            self.rewrite,
                            self.input.deep_view(),
                            self.pos as int,
                        );
                    }
                    assert(produced == full.take(produced.len() as int));
                }
                let ghost w0 = self.buffer.deep_view();
                let ghost q0 = self.buffer@;
                let t = self.buffer.remove(0);
                proof {
                    assert(w0.len() == q0.len());
                    assert(t == q0[0]);
                    assert(w0[0] == q0[0].deep_view());
                    assert(e.len() == produced.len() - w0.len());
                    assert(w0[0] == produced[e.len() as int]);
                    assert(t@ == produced[e.len() as int]);
                    assert(produced[e.len() as int] == full[e.len() as int]);
                    assert(self.buffer.deep_view() =~= w0.drop_first());
                    assert(self.buffer.deep_view() =~= produced.skip(
                        produced.len() - self.buffer.deep_view().len(),
                    ));
                    assert(self.spec_emitted() =~= e.push(full[e.len() as int]));
                }
                return Some(t);
            }
            if self.pos == self.input.len() {
                proof {
                    assert(self.input.deep_view().take(self.pos as int) =~= self
                        .input
                        .deep_view());
                }
                let mut taken = Region::Waiting;
                core::mem::swap(&mut self.state, &mut taken);
                match taken {
                    Region::Reading(mut region_buffer) => {
                        let ghost captured = region_buffer.deep_view();
                        self.buffer.append(&mut region_buffer);
                        proof {
                            self.flushed@ = true;
                            assert(self.buffer.deep_view() =~= captured);
                            assert(self.spec_produced() == produced + captured);
                            assert(self.buffer.deep_view() =~= self.spec_produced().skip(
                                self.spec_produced().len() - self.buffer.deep_view().len(),
                            ));
                            assert(self.spec_emitted() =~= e);
                        }
                    },
                    Region::Waiting => {
                        proof {
                            if !self.flushed@ {
                                assert(full == produced);
                            }
                            assert(self.spec_emitted() =~= e);
                            assert(e =~= full);
                        }
                        return None;
                    },
                }
            } else {
                let t = self.input[self.pos].clone();
                let ghost tv = self.input.deep_view();
                let ghost p = self.pos as int;
                self.pos = self.pos + 1;
                let mut taken = Region::Waiting;
                core::mem::swap(&mut self.state, &mut taken);
                let next_state = handle_event(
                    taken,
                    &mut self.start,
                    &mut self.end,
                    t,
                    &mut self.buffer,
                    &self.rewrite,
                );
                self.state = next_state;
                proof {
                    assert(t@ == tv[p]);
                    assert(tv.take(p).push(tv[p]) =~= tv.take(p + 1));
                    lemma_rb_run_snoc(
                        spec_rb_init(self.init@.0, self.init@.1),
                        self.rewrite,
                        tv.take(p),
                        tv[p],
                    );
                    assert(self.buffer.deep_view() =~= self.spec_produced().skip(
                        self.spec_produced().len() - self.buffer.deep_view().len(),
                    ));
                    assert(self.spec_emitted() =~= e);
                }
            }
        }
    }
}

/// Get a new stream of [`Token`]s where the region between `start` and
/// `end` (inclusive) is rewritten in one batch by `rewrite`.
///
/// A region still open when the input ends is flushed verbatim, with no
/// transform applied.
pub fn rewrite_between<S: Matcher, E: Matcher, F: Transform>(
    events: Vec<Token>,
    start: S,
    end: E,
    rewrite: F,
) -> (r: Vec<Token>)
    ensures
        r.deep_view() == spec_rewrite_between(start, end, rewrite, events.deep_view()),
{
    let mut stream = RewriteBetween::new(events, start, end, rewrite);
    let ghost full = stream.spec_full();
    let mut out: Vec<Token> = Vec::new();
    proof {
        assert(out.deep_view() =~= Seq::<TokenView>::empty());
    }
    loop
        invariant
            stream.wf(),
            stream.spec_full() == full,
            full == spec_rewrite_between(start, end, rewrite, events.deep_view()),
            out.deep_view() == stream.spec_emitted(),
            stream.spec_emitted().len() <= full.len(),
        decreases full.len() - stream.spec_emitted().len(),
    {
        match stream.next() {
            Some(t) => {
                let ghost before = out.deep_view();
                out.push(t);
                proof {
                    assert(out.deep_view() =~= before.push(t@));
                }
            },
            None => {
                proof {
                    assert(out.deep_view() == full);
                }
                return out;
            },
        }
    }
}

} // verus!

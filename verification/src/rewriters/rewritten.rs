//! The streaming rewrite pipeline: a lazy, pull-based stream of rewritten
//! tokens.

use vstd::prelude::*;

use crate::rewriters::writer::Writer;
use crate::rewriters::{lemma_spec_rewrite_snoc, spec_rewrite, spec_rewriter_run, Rewriter};
use crate::token::{Token, TokenView};

verus! {

/// What a rewriter emits over a prefix of the stream is a prefix of what it
/// emits over the whole stream.
proof fn lemma_rewrite_prefix<R: Rewriter>(r: R, toks: Seq<TokenView>, i: int)
    requires
        0 <= i <= toks.len(),
    ensures
        spec_rewrite(r, toks.take(i)).len() <= spec_rewrite(r, toks).len(),
        spec_rewrite(r, toks.take(i)) == spec_rewrite(r, toks).take(
            spec_rewrite(r, toks.take(i)).len() as int,
        ),
    decreases toks.len() - i,
{
    if i < toks.len() {
        lemma_spec_rewrite_snoc(r, toks.take(i), toks[i]);
        assert(toks.take(i).push(toks[i]) =~= toks.take(i + 1));
        lemma_rewrite_prefix(r, toks, i + 1);
        assert(spec_rewrite(r, toks.take(i)) =~= spec_rewrite(r, toks).take(
            spec_rewrite(r, toks.take(i)).len() as int,
        ));
    } else {
        assert(toks.take(i) =~= toks);
        assert(spec_rewrite(r, toks.take(i)) =~= spec_rewrite(r, toks).take(
            spec_rewrite(r, toks.take(i)).len() as int,
        ));
    }
}

/// A stream of [`Token`]s that are modified by a [`Rewriter`] as they are
/// pulled out, one at a time.
///
/// On each pull, the pending outputs of the last consumed input token are
/// drained first; only when they run out is the next input token consumed.
/// The stream never holds more output than the rewriter produced for the
/// single most recently consumed input token, and never reads ahead in the
/// input.
pub struct Rewritten<R> {
    pub input: Vec<Token>,
    pub pos: usize,
    pub rewriter: R,
    pub writer: Writer,
    pub init: Ghost<R>,
}

impl<R: Rewriter> Rewritten<R> {
    /// The full rewritten stream this value will have handed out once
    /// drained: what the initial rewriter emits over the whole input.
    pub open spec fn spec_full(&self) -> Seq<TokenView> {
        spec_rewrite(self.init@, self.input.deep_view())
    }

    /// What the rewriter has produced for the consumed prefix of the input.
    pub open spec fn spec_produced(&self) -> Seq<TokenView> {
        spec_rewrite(self.init@, self.input.deep_view().take(self.pos as int))
    }

    /// The tokens already handed out: everything produced for the consumed
    /// prefix, except what still waits in the queue.
    pub open spec fn spec_emitted(&self) -> Seq<TokenView> {
        self.spec_produced().take(self.spec_produced().len() - self.writer@.len())
    }

    /// Well-formed: the position is in range, the rewriter's state is the
    /// run over the consumed prefix, and the queue holds exactly the not
    /// yet emitted tail of what was produced for that prefix.
    pub open spec fn wf(&self) -> bool {
        &&& self.pos <= self.input.len()
        &&& self.rewriter == spec_rewriter_run(
            self.init@,
            self.input.deep_view().take(self.pos as int),
        )
        &&& self.writer@.len() <= self.spec_produced().len()
        &&& self.writer@ == self.spec_produced().skip(
            self.spec_produced().len() - self.writer@.len(),
        )
    }

    /// Create a new [`Rewritten`] stream over `events`.
    pub fn new(events: Vec<Token>, rewriter: R) -> (r: Self)
        ensures
            r.wf(),
            r.init@ == rewriter,
            r.input == events,
            r.spec_emitted() == Seq::<TokenView>::empty(),
            r.spec_full() == spec_rewrite(rewriter, events.deep_view()),
    {
        let ghost g = rewriter;
        let r = Rewritten {
            input: events,
            pos: 0,
            rewriter,
            writer: Writer::new(),
            init: Ghost(g),
        };
        proof {
            assert(r.input.deep_view().take(0) =~= Seq::<TokenView>::empty());
            assert(r.spec_emitted() =~= Seq::<TokenView>::empty());
        }
        r
    }

    /// Pull the next rewritten token, or `None` once the input is exhausted
    /// and every pending output has been handed out.
    pub fn next(&mut self) -> (r: Option<Token>)
        requires
            old(self).wf(),
        ensures
            final(self).wf(),
            final(self).init == old(self).init,
            final(self).input == old(self).input,
            final(self).spec_full() == old(self).spec_full(),
            ({
                let e = old(self).spec_emitted();
                let full = old(self).spec_full();
                if e.len() < full.len() {
                    match r {
                        Some(t) => t@ == full[e.len() as int] && final(self).spec_emitted()
                            == e.push(full[e.len() as int]),
                        None => false,
                    }
                } else {
                    r is None && e == full && final(self).spec_emitted() == e
                }
            }),
    {
        loop
            invariant
                self.wf(),
                self.init == old(self).init,
                self.input == old(self).input,
                self.spec_emitted() == old(self).spec_emitted(),
            decreases self.input.len() - self.pos,
        {
            let ghost e = self.spec_emitted();
            let ghost produced = self.spec_produced();
            let ghost full = self.spec_full();
            if self.writer.buffer.len() > 0 {
                proof {
                    lemma_rewrite_prefix(self.init@, self.input.deep_view(), self.pos as int);
                }
                let ghost w0 = self.writer@;
                let ghost q0 = self.writer.buffer@;
                let t = self.writer.buffer.remove(0);
                proof {
                    assert(w0.len() == q0.len());
                    assert(t == q0[0]);
                    assert(w0[0] == q0[0].deep_view());
                    assert(e.len() == produced.len() - w0.len());
                    assert(w0[0] == produced[e.len() as int]);
                    assert(t@ == produced[e.len() as int]);
                    assert(produced == full.take(produced.len() as int));
                    assert(produced[e.len() as int] == full[e.len() as int]);
                    assert(self.writer@ =~= w0.drop_first());
                    assert(self.writer@ =~= produced.skip(
                        produced.len() - self.writer@.len(),
                    ));
                    assert(self.spec_emitted() =~= e.push(full[e.len() as int]));
                }
                return Some(t);
            }
            if self.pos == self.input.len() {
                proof {
                    assert(self.input.deep_view().take(self.pos as int) =~= self
                        .input
                        .deep_view());
                    assert(self.spec_emitted() =~= full);
                }
                return None;
            }
            let t = self.input[self.pos].clone();
            let ghost tv = self.input.deep_view();
            let ghost p = self.pos as int;
            let ghost rw = self.rewriter;
            let ghost emit = rw.spec_emit(tv[p]);
            self.pos = self.pos + 1;
            self.rewriter.rewrite_event(t, &mut self.writer);
            proof {
                assert(t@ == tv[p]);
                assert(tv.take(p).push(tv[p]) =~= tv.take(p + 1));
                lemma_spec_rewrite_snoc(self.init@, tv.take(p), tv[p]);
                assert(self.spec_produced() == produced + emit);
                assert(self.writer@ =~= emit);
                assert(self.writer@ =~= self.spec_produced().skip(
                    self.spec_produced().len() - self.writer@.len(),
                ));
                assert(self.spec_emitted() =~= e);
            }
        }
    }
}

/// The whole point.
///
/// This function takes a stream of [`Token`]s and a [`Rewriter`], and gives
/// you the rewritten stream: for each input token, in order, exactly the
/// tokens the rewriter emits for it.
pub fn rewrite<R: Rewriter>(events: Vec<Token>, rewriter: R) -> (r: Vec<Token>)
    ensures
        r.deep_view() == spec_rewrite(rewriter, events.deep_view()),
{
    let mut stream = Rewritten::new(events, rewriter);
    let ghost full = stream.spec_full();
    let mut out: Vec<Token> = Vec::new();
    proof {
        assert(out.deep_view() =~= Seq::<TokenView>::empty());
    }
    loop
        invariant
            stream.wf(),
            stream.spec_full() == full,
            full == spec_rewrite(rewriter, events.deep_view()),
            out.deep_view() == stream.spec_emitted(),
            stream.spec_emitted().len() <= full.len(),
        decreases full.len() - stream.spec_emitted().len(),
    {
        match stream.next() {
            Some(t) => {
                let ghost before = out.deep_view();
                out.push(t);
                proof {
                    assert(out.deep_view() =~= before.push(t@));
                }
            },
            None => {
                proof {
                    assert(out.deep_view() == full);
                }
                return out;
            },
        }
    }
}

} // verus!

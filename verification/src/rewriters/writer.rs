//! The output queue a rewriter pushes its replacement tokens into.

use vstd::prelude::*;

use crate::token::{Token, TokenView};

verus! {

/// The output buffer given to a rewriter: an ordered queue of the tokens
/// produced in response to one input token, drained before the next input
/// token is processed.
#[derive(Debug)]
pub struct Writer {
    pub buffer: Vec<Token>,
}

impl View for Writer {
    type V = Seq<TokenView>;

    open spec fn view(&self) -> Seq<TokenView> {
        self.buffer.deep_view()
    }
}

impl Writer {
    pub(crate) fn new() -> (r: Writer)
        ensures
            r@ == Seq::<TokenView>::empty(),
    {
        let r = Writer { buffer: Vec::new() };
        proof {
            assert(r@ =~= Seq::<TokenView>::empty());
        }
        r
    }

    /// Queue a [`Token`] to be emitted.
    pub fn push(&mut self, event: Token)
        ensures
            final(self)@ == old(self)@.push(event@),
    {
        let ghost before = self@;
        self.buffer.push(event);
        proof {
            assert(self@ =~= before.push(event@));
        }
    }

    /// Queue a deep copy of every token of `events`, in order.
    pub fn extend(&mut self, events: &Vec<Token>)
        ensures
            final(self)@ == old(self)@ + events.deep_view(),
    {
        let ghost before = self@;
        let ghost ev = events.deep_view();
        let n = events.len();
        let mut i: usize = 0;
        proof {
            assert(self@ =~= before + ev.take(0));
        }
        while i < n
            invariant
                i <= n,
                n == events@.len(),
                ev == events.deep_view(),
                self@ == before + ev.take(i as int),
            decreases n - i,
        {
            let copy = events[i].clone();
            let ghost mid = self@;
            self.buffer.push(copy);
            proof {
                assert(self@ =~= mid.push(ev[i as int]));
                assert(self@ =~= before + ev.take(i as int + 1));
            }
            i += 1;
        }
        proof {
            assert(ev.take(n as int) =~= ev);
        }
    }
}

} // verus!

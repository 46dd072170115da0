//! Rewriters: stateful single-pass transforms that consume one token and
//! emit zero, one, or many tokens in its place.

pub mod rewrite_between;
pub mod rewritten;
pub mod writer;

use vstd::prelude::*;

use crate::matchers::Matcher;
use crate::parse::{parse, parse_of};
use crate::rewriters::writer::Writer;
use crate::strutil::{seq_contains_sub, str_contains, to_uppercase, upper_of};
use crate::token::{Token, TokenView};

verus! {

/// Something which can rewrite a stream of [`Token`]s, one token at a time.
///
/// What it emits for a token, and how its state steps, are pinned down by
/// [`Rewriter::spec_emit`] and [`Rewriter::spec_after`].
pub trait Rewriter: Sized {
    /// The tokens this rewriter emits in response to `t` in its current
    /// state, in order.
    spec fn spec_emit(&self, t: TokenView) -> Seq<TokenView>;

    /// The state this rewriter is left in after processing `t`.
    spec fn spec_after(&self, t: TokenView) -> Self;

    /// Process a single [`Token`]: push zero or more replacement tokens
    /// onto the [`Writer`]'s queue, in the order they must appear
    /// downstream.
    fn rewrite_event(&mut self, event: Token, writer: &mut Writer)
        ensures
            final(writer)@ == old(writer)@ + old(self).spec_emit(event@),
            *final(self) == old(self).spec_after(event@),
    ;
}

/// The state a rewriter starting in state `r` is left in after processing
/// every token of `toks`, in order.
pub open spec fn spec_rewriter_run<R: Rewriter>(r: R, toks: Seq<TokenView>) -> R
    decreases toks.len(),
{
    if toks.len() == 0 {
        r
    } else {
        spec_rewriter_run(r.spec_after(toks.first()), toks.drop_first())
    }
}

/// Everything a rewriter starting in state `r` emits over the stream
/// `toks`: the concatenation, in order, of what it emits for each token.
pub open spec fn spec_rewrite<R: Rewriter>(r: R, toks: Seq<TokenView>) -> Seq<TokenView>
    decreases toks.len(),
{
    if toks.len() == 0 {
        Seq::empty()
    } else {
        r.spec_emit(toks.first()) + spec_rewrite(r.spec_after(toks.first()), toks.drop_first())
    }
}

/// Processing one more token extends the output by what the rewriter's
/// state at that point emits for it, and steps the state once.
pub proof fn lemma_spec_rewrite_snoc<R: Rewriter>(r: R, toks: Seq<TokenView>, t: TokenView)
    ensures
        spec_rewrite(r, toks.push(t)) == spec_rewrite(r, toks) + spec_rewriter_run(
            r,
            toks,
        ).spec_emit(t),
        spec_rewriter_run(r, toks.push(t)) == spec_rewriter_run(r, toks).spec_after(t),
    decreases toks.len(),
{
    let s = toks.push(t);
    if toks.len() == 0 {
        assert(s.first() == t);
        assert(s.drop_first() =~= Seq::<TokenView>::empty());
        assert(spec_rewrite(r.spec_after(t), s.drop_first()) == Seq::<TokenView>::empty());
        assert(spec_rewriter_run(r.spec_after(t), s.drop_first()) == r.spec_after(t));
        assert(spec_rewrite(r, s) =~= spec_rewrite(r, toks) + spec_rewriter_run(r, toks).spec_emit(
            t,
        ));
    } else {
        assert(s.first() == toks.first());
        assert(s.drop_first() =~= toks.drop_first().push(t));
        lemma_spec_rewrite_snoc(r.spec_after(toks.first()), toks.drop_first(), t);
        assert(spec_rewrite(r, s) == r.spec_emit(toks.first()) + spec_rewrite(
            r.spec_after(toks.first()),
            toks.drop_first().push(t),
        ));
        assert(spec_rewriter_run(r, s) == spec_rewriter_run(
            r.spec_after(toks.first()),
            toks.drop_first().push(t),
        ));
        assert(spec_rewrite(r, s) =~= spec_rewrite(r, toks) + spec_rewriter_run(r, toks).spec_emit(
            t,
        ));
    }
}

/// A [`Rewriter`] which emits every token unchanged.
#[derive(Debug, Default, Copy, Clone, PartialEq, Eq)]
pub struct Identity;

impl Rewriter for Identity {
    open spec fn spec_emit(&self, t: TokenView) -> Seq<TokenView> {
        seq![t]
    }

    open spec fn spec_after(&self, t: TokenView) -> Self {
        *self
    }

    fn rewrite_event(&mut self, event: Token, writer: &mut Writer) {
        let ghost before = writer@;
        writer.push(event);
        proof {
            assert(writer@ =~= before + seq![event@]);
        }
    }
}

/// The identity law: rewriting any stream with [`Identity`] reproduces the
/// stream exactly.
pub proof fn lemma_rewrite_identity(toks: Seq<TokenView>)
    ensures
        spec_rewrite(Identity, toks) == toks,
    decreases toks.len(),
{
    if toks.len() == 0 {
        assert(spec_rewrite(Identity, toks) =~= toks);
    } else {
        lemma_rewrite_identity(toks.drop_first());
        assert(spec_rewrite(Identity, toks) =~= toks);
    }
}

/// A [`Rewriter`] which keeps text runs and drops every other token.
#[derive(Debug, Default, Copy, Clone, PartialEq, Eq)]
pub struct KeepTextOnly;

impl Rewriter for KeepTextOnly {
    open spec fn spec_emit(&self, t: TokenView) -> Seq<TokenView> {
        match t {
            TokenView::Text(_) => seq![t],
            _ => Seq::empty(),
        }
    }

    open spec fn spec_after(&self, t: TokenView) -> Self {
        *self
    }

    fn rewrite_event(&mut self, event: Token, writer: &mut Writer) {
        let ghost before = writer@;
        match event {
            Token::Text(text) => {
                writer.push(Token::Text(text));
                proof {
                    assert(writer@ =~= before + old(self).spec_emit(event@));
                }
            },
            _ => {
                proof {
                    assert(writer@ =~= before + old(self).spec_emit(event@));
                }
            },
        }
    }
}

/// Splices a fixed, pre-rendered sequence of tokens into the stream before
/// every token the matcher fires on.
#[derive(Debug, Clone, PartialEq, Eq)]
pub struct InsertBefore<M> {
    pub to_insert: Vec<Token>,
    pub matcher: M,
}

impl<M: Matcher> Rewriter for InsertBefore<M> {
    open spec fn spec_emit(&self, t: TokenView) -> Seq<TokenView> {
        if self.matcher.spec_matches(t) {
            self.to_insert.deep_view().push(t)
        } else {
            seq![t]
        }
    }

    open spec fn spec_after(&self, t: TokenView) -> Self {
        InsertBefore { to_insert: self.to_insert, matcher: self.matcher.spec_after(t) }
    }

    fn rewrite_event(&mut self, event: Token, writer: &mut Writer) {
        let ghost before = writer@;
        if self.matcher.matches_event(&event) {
            writer.extend(&self.to_insert);
            writer.push(event);
            proof {
                assert(writer@ =~= before + (self.to_insert.deep_view().push(event@)));
            }
        } else {
            writer.push(event);
            proof {
                assert(writer@ =~= before + seq![event@]);
            }
        }
    }
}

/// Splice some tokens into the resulting stream before every match.
pub fn insert_before<M: Matcher>(to_insert: Vec<Token>, matcher: M) -> (r: InsertBefore<M>)
    ensures
        r.to_insert == to_insert,
        r.matcher == matcher,
{
    InsertBefore { to_insert, matcher }
}

/// Inserts some markdown text before whatever is matched by the matcher.
///
/// The fragment is parsed once, up front, into fully owned tokens which are
/// then deep-copied at every insertion point.
pub fn insert_markdown_before<M: Matcher>(markdown_text: &str, matcher: M) -> (r: InsertBefore<
    M,
>)
    ensures
        r.to_insert.deep_view() == parse_of(markdown_text@),
        r.matcher == matcher,
{
    insert_before(parse(markdown_text), matcher)
}

/// The stock predicates a [`ChangeText`] rewriter can test a text run with.
#[derive(Debug, Clone, PartialEq, Eq)]
pub enum TextPredicate {
    /// The text contains this needle.
    Contains(String),
    /// The text equals this needle exactly.
    Equals(String),
    /// Any text run.
    Any,
}

/// The stock transforms a [`ChangeText`] rewriter can apply to a text run.
#[derive(Debug, Clone, PartialEq, Eq)]
pub enum TextTransform {
    /// Replace the text with its uppercase form.
    Uppercase,
    /// Replace the text with this fixed string.
    SetTo(String),
}

/// Whether the content `s` of a text run satisfies the predicate.
pub open spec fn spec_predicate_holds(p: TextPredicate, s: Seq<char>) -> bool {
    match p {
        TextPredicate::Contains(needle) => seq_contains_sub(s, needle@),
        TextPredicate::Equals(needle) => s == needle@,
        TextPredicate::Any => true,
    }
}

/// What the transform turns the content `s` of a text run into.
pub open spec fn spec_transformed(f: TextTransform, s: Seq<char>) -> Seq<char> {
    match f {
        TextTransform::Uppercase => upper_of(s),
        TextTransform::SetTo(replacement) => replacement@,
    }
}

fn predicate_holds(p: &TextPredicate, text: &String) -> (r: bool)
    ensures
        r == spec_predicate_holds(*p, text@),
{
    match p {
        TextPredicate::Contains(needle) => str_contains(text.as_str(), needle.as_str()),
        TextPredicate::Equals(needle) => needle.eq(text),
        TextPredicate::Any => true,
    }
}

fn transformed(f: &TextTransform, text: &String) -> (r: String)
    ensures
        r@ == spec_transformed(*f, text@),
{
    match f {
        TextTransform::Uppercase => to_uppercase(text.as_str()),
        TextTransform::SetTo(replacement) => replacement.clone(),
    }
}

/// A [`Rewriter`] which updates the text runs whose content satisfies a
/// predicate, applying a transform; every other token, and every
/// non-satisfying text run, passes through unchanged. Stateless.
#[derive(Debug, Clone, PartialEq, Eq)]
pub struct ChangeText {
    pub predicate: TextPredicate,
    pub transform: TextTransform,
}

impl Rewriter for ChangeText {
    open spec fn spec_emit(&self, t: TokenView) -> Seq<TokenView> {
        match t {
            TokenView::Text(s) => if spec_predicate_holds(self.predicate, s) {
                seq![TokenView::Text(spec_transformed(self.transform, s))]
            } else {
                seq![t]
            },
            _ => seq![t],
        }
    }

    open spec fn spec_after(&self, t: TokenView) -> Self {
        *self
    }

    fn rewrite_event(&mut self, event: Token, writer: &mut Writer) {
        let ghost before = writer@;
        let ghost tv = event@;
        match event {
            Token::Text(text) => {
                if predicate_holds(&self.predicate, &text) {
                    let replaced = transformed(&self.transform, &text);
                    writer.push(Token::Text(replaced));
                } else {
                    writer.push(Token::Text(text));
                }
                proof {
                    assert(writer@ =~= before + old(self).spec_emit(tv));
                }
            },
            other => {
                writer.push(other);
                proof {
                    assert(writer@ =~= before + old(self).spec_emit(tv));
                }
            },
        }
    }
}

/// A [`Rewriter`] which lets you update text runs based on a predicate.
pub fn change_text(predicate: TextPredicate, transform: TextTransform) -> (r: ChangeText)
    ensures
        r.predicate == predicate,
        r.transform == transform,
{
    ChangeText { predicate, transform }
}

} // verus!

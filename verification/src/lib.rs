//! A library for manipulating streams of markdown structure tokens.
//!
//! There are two fundamental concepts here:
//!
//! - `Matcher` - a stateful single-pass predicate which can recognise
//!   positions and regions in a token stream
//! - `Rewriter` - a stateful single-pass transform which consumes one token
//!   and emits zero or more tokens in its place
//!
//! Together these transform a stream of tokens on the fly, in one forward
//! pass, without ever materialising a document tree.

pub mod matchers;
pub mod parse;
pub mod rewriters;
pub mod strutil;
pub mod token;

pub use crate::matchers::and::And;
pub use crate::matchers::falling_edge::{lemma_falling_edge_not_consecutive, FallingEdge};
pub use crate::matchers::heading::{Heading, HeadingClose, HeadingOpen};
pub use crate::matchers::one_shot::{lemma_one_shot_at_most_once, OneShot};
pub use crate::matchers::start_of_next_line::{Phase, StartOfNextLine};
pub use crate::matchers::text::{Text, TextMode};
pub use crate::matchers::{
    between, exact_text, first_match, is_in, link_with_url_containing, match_indices,
    text_containing, Always, LinkUrlContains, Matcher,
};
pub use crate::parse::parse;
pub use crate::rewriters::rewrite_between::{
    rewrite_between, RewriteBetween, Transform, UppercaseAllText,
};
pub use crate::rewriters::rewritten::{rewrite, Rewritten};
pub use crate::rewriters::writer::Writer;
pub use crate::rewriters::{
    change_text, insert_before, insert_markdown_before, lemma_rewrite_identity, ChangeText,
    Identity, InsertBefore, KeepTextOnly, Rewriter, TextPredicate, TextTransform,
};
pub use crate::token::{Kind, Token};

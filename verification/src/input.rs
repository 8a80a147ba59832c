//! Example phrases and the normal form of text.
//!
//! Text is brought into normal form before it is used as a cache key or
//! embedded: lower case, every character that is neither alphanumeric nor
//! white space replaced by a space, runs of white space collapsed to one
//! space, no space at either end. Examples hold their text in normal form
//! from the start, and the engine brings every query into it, so that the
//! two meet in the cache.

use vstd::prelude::*;

use crate::text::{
    collapse, mark_words, tidied, tidied_is_collapsed, tidied_is_idempotent, tidied_is_tidy, tidy,
};

verus! {

/// An embedding: the bits of its single-precision coordinates, in order.
pub type Embedding = Vec<u32>;

/// The lower-case form of a text, as `str::to_lowercase` gives it. Nothing
/// is known of it here.
pub uninterp spec fn lowercase_of(s: Seq<char>) -> Seq<char>;

/// The normal form of a text: its lower-case form, tidied.
pub open spec fn normal_form(s: Seq<char>) -> Seq<char> {
    tidied(lowercase_of(s))
}

/// Trusted: calls `str::to_lowercase`. Its result is taken to depend on the
/// characters of the argument alone; nothing else is claimed of it.
#[verifier::external_body]
fn to_lowercase(s: &str) -> (lowered: String)
    ensures
        lowered@ == lowercase_of(s@),
{
    s.to_lowercase()
}

/// Normalizing twice is normalizing once, for every text whose normal form
/// lower-casing leaves as it is.
pub proof fn normal_form_is_idempotent_where_case_is_settled(s: Seq<char>)
    ensures
        lowercase_of(normal_form(s)) == normal_form(s) ==> normal_form(normal_form(s))
            == normal_form(s),
{
    tidied_is_idempotent(lowercase_of(s));
}

/// The normal form of a text: lower case, punctuation blanked, white space
/// collapsed and trimmed.
pub fn normalize(s: &str) -> (text: String)
    ensures
        text@ == normal_form(s@),
        tidy(text@),
{
    let lowered = to_lowercase(s);
    let marks = mark_words(lowered.as_str());
    proof {
        tidied_is_collapsed(lowered@);
        tidied_is_tidy(lowered@);
    }
    collapse(lowered.as_str(), &marks)
}

/// An example phrase bound to a command.
///
/// The text is in normal form. The embedding is missing until a dispatch
/// needs it and is then filled once.
#[derive(Debug)]
pub struct Input {
    pub text: String,
    pub embedding: Option<Embedding>,
}

impl Input {
    /// The example for a phrase: its normal form, with no embedding yet.
    pub fn new(text: &str) -> (input: Input)
        ensures
            input.text@ == normal_form(text@),
            tidy(input.text@),
            input.embedding is None,
    {
        Input { text: normalize(text), embedding: None }
    }
}

impl Default for Input {
    /// The example with the empty text and no embedding.
    fn default() -> (input: Input)
        ensures
            input.text@ == Seq::<char>::empty(),
            input.embedding is None,
    {
        Input { text: String::new(), embedding: None }
    }
}

} // verus!

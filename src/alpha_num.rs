//! The ASCII alphanumeric tokenizer as a trait of its own.
use vstd::prelude::*;
use crate::essential::chars_of;
use crate::token::{texts, tokenize_chars, tokens};

verus! {

/// Splitting into ASCII alphanumeric tokens.
pub trait AlphaNumTokenizer {
    spec fn token_text(&self) -> Seq<char>;

    /// Tokens matching `[A-Z]*[a-z]*[0-9]*`, split at case changes; other characters only
    /// separate tokens.
    fn tokenize_ascii_alpha_num(&self) -> (r: Vec<String>)
        ensures
            texts(r@) == tokens(self.token_text()),
    ;
}

impl AlphaNumTokenizer for str {
    open spec fn token_text(&self) -> Seq<char> {
        self@
    }

    fn tokenize_ascii_alpha_num(&self) -> (r: Vec<String>) {
        let cs = chars_of(self);
        tokenize_chars(cs.as_slice())
    }
}

} // verus!

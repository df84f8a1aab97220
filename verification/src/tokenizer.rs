//! Tokenizer holders for TDT models.

use vstd::prelude::*;

verus! {

#[verifier::external_type_specification]
#[verifier::external_body]
pub struct ExTokenizer(tokenizers::Tokenizer);

/// The vocabulary size `Tokenizer::get_vocab_size` reports for `tokenizer`,
/// counting the added tokens or not.
pub uninterp spec fn tokenizer_vocab_size(tokenizer: tokenizers::Tokenizer, with_added_tokens: bool) -> usize;

/// Calls `tokenizers::Tokenizer::get_vocab_size`.
/// Claimed: the count is `tokenizer_vocab_size(tokenizer, with_added_tokens)`,
/// a function of the tokenizer (its model's vocabulary and its added tokens)
/// and of the flag alone. How the count is made up is left unsaid.
#[verifier::external_body]
fn vocab_size_of(tokenizer: &tokenizers::Tokenizer, with_added_tokens: bool) -> (n: usize)
    ensures
        n == tokenizer_vocab_size(*tokenizer, with_added_tokens),
{
    tokenizer.get_vocab_size(with_added_tokens)
}

/// Tokenizer of a TDT model with its blank token ID, which is the size of the
/// vocabulary (added tokens included).
pub struct TdtTokenizer {
    pub tokenizer: Box<tokenizers::Tokenizer>,
    /// Blank token ID (equal to vocab size).
    pub blank_id: usize,
}

impl TdtTokenizer {
    /// Wraps `tokenizer`, taking its vocabulary size (added tokens included)
    /// as the blank token ID.
    pub fn new(tokenizer: tokenizers::Tokenizer) -> (t: Self)
        ensures
            *t.tokenizer == tokenizer,
            t.blank_id == tokenizer_vocab_size(tokenizer, true),
    {
        let blank_id = vocab_size_of(&tokenizer, true);
        TdtTokenizer { tokenizer: Box::new(tokenizer), blank_id }
    }

    /// Get vocabulary size: the blank token ID.
    pub fn vocab_size(&self) -> (n: usize)
        ensures
            n == self.blank_id,
    {
        self.blank_id
    }
}

/// Detokenizer for TDT models.
pub struct TdtDetokenizer {
    pub tokenizer: tokenizers::Tokenizer,
}

impl TdtDetokenizer {
    pub fn new(tokenizer: tokenizers::Tokenizer) -> (d: Self)
        ensures
            d.tokenizer == tokenizer,
    {
        TdtDetokenizer { tokenizer }
    }

    /// Get vocabulary size, added tokens included.
    pub fn vocab_size(&self) -> (n: usize)
        ensures
            n == tokenizer_vocab_size(self.tokenizer, true),
    {
        vocab_size_of(&self.tokenizer, true)
    }
}

} // verus!

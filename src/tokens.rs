use vstd::prelude::*;

verus! {

/// The number of tokens that the `gpt-4` model's cl100k BPE vocabulary, special tokens allowed, encodes `text`
/// into, or `None` where the tokenizer's splitting regex gives up on `text` (its
/// backtracking limit), which depends on `text` alone.
pub uninterp spec fn bpe_encoding_len(text: Seq<char>) -> Option<nat>;

/// Relies on `tiktoken_rs::cl100k_base_singleton` and `CoreBPE::encode` with the
/// vocabulary's special tokens allowed: `Err` when the splitting regex fails, else the
/// encoding, whose length is returned; empty text encodes to no tokens.
#[verifier::external_body]
fn encoded_len(text: &str) -> (r: Option<usize>)
    ensures
        r is Some <==> bpe_encoding_len(text@) is Some,
        r is Some ==> r->0 as nat == bpe_encoding_len(text@)->0,
        text@.len() == 0 ==> r == Some(0usize),
{
    let bpe = tiktoken_rs::cl100k_base_singleton();
    bpe.encode(text, &bpe.special_tokens()).ok().map(|(tokens, _)| tokens.len())
}

/// The number of tokens in `text`, or `None` where the tokenizer cannot split it.
pub fn count_tokens(text: &str) -> (r: Option<usize>)
    ensures
        r is Some <==> bpe_encoding_len(text@) is Some,
        r is Some ==> r->0 as nat == bpe_encoding_len(text@)->0,
        text@.len() == 0 ==> r == Some(0usize),
{
    encoded_len(text)
}

} // verus!

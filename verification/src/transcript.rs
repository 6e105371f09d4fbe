//! Final-read path: renders the last completed run's token sequence to
//! text.  Whether there is anything to render is the library's decision;
//! the rendering itself is the tokenizer collaborator's.

use vstd::prelude::*;

verus! {

use crate::store::TemporaryData;
use crate::vocab::decode_or_empty;

/// Reads the last completed token sequence from the store and renders it
/// to text, skipping special tokens.  Errs exactly when no run has
/// completed yet — the stored sequence is empty — and succeeds otherwise,
/// with the empty string standing in for a tokenizer failure.
pub fn final_decode(store: &TemporaryData, tokenizer: &tokenizers::Tokenizer) -> (r: Result<
    String,
    String,
>)
    ensures
        r is Err <==> store@.tokens.len() == 0,
{
    let ids = store.token_id_array();
    if ids.len() == 0 {
        Err(no_tokens_message())
    } else {
        Ok(decode_or_empty(tokenizer, ids))
    }
}

/// The client-error message of a final read before any completed run.
pub fn no_tokens_message() -> String {
    let message: &str = "no completed generation run to decode yet";
    message.to_string()
}

} // verus!

//! Vocabulary access: the tokenizer is an external collaborator that maps
//! between text and token ids.  The library consults it for the sequence
//! markers and for rendering token ids back to text; what it answers is
//! its own business, so the wrappers promise nothing about the values that
//! come back.

use vstd::prelude::*;

verus! {

#[verifier::external_type_specification]
#[verifier::external_body]
pub struct ExTokenizer(tokenizers::Tokenizer);

/// Relies on tokenizers::Tokenizer::token_to_id to look one token string
/// up in the vocabulary.
#[verifier::external_body]
pub(crate) fn token_to_id(tokenizer: &tokenizers::Tokenizer, token: &str) -> Option<u32> {
    tokenizer.token_to_id(token)
}

/// Relies on tokenizers::Tokenizer::decode to render token ids as text;
/// a decoding error is folded into `None`.
#[verifier::external_body]
pub(crate) fn decode_token_ids(
    tokenizer: &tokenizers::Tokenizer,
    ids: &Vec<u32>,
    skip_special_tokens: bool,
) -> Option<String> {
    match tokenizer.decode(ids.as_slice(), skip_special_tokens) {
        Ok(text) => Some(text),
        Err(_) => None,
    }
}

/// The id a marker lookup resolved to: the found id, or the fallback when
/// the vocabulary does not define the marker.
pub fn resolve_marker(found: Option<u32>, fallback: u32) -> (r: u32)
    ensures
        r == (match found {
            Some(id) => id,
            None => fallback,
        }),
{
    match found {
        Some(id) => id,
        None => fallback,
    }
}

/// Looks the sequence-start and sequence-end markers up in the vocabulary
/// and resolves each against its fallback id.  What the tokenizer answers
/// depends on the loaded vocabulary, so nothing is promised of the ids.
pub fn sequence_markers(tokenizer: &tokenizers::Tokenizer) -> (u32, u32) {
    let bos = token_to_id(tokenizer, "<s>");
    let eos = token_to_id(tokenizer, "</s>");
    (
        resolve_marker(bos, crate::orchestrator::FALLBACK_BOS_TOKEN),
        resolve_marker(eos, crate::orchestrator::FALLBACK_EOS_TOKEN),
    )
}

/// Renders token ids as text, as the streaming path does for each event:
/// a tokenizer failure yields the empty string rather than an error.
pub fn decode_or_empty(tokenizer: &tokenizers::Tokenizer, ids: &Vec<u32>) -> String {
    match decode_token_ids(tokenizer, ids, true) {
        Some(text) => text,
        None => String::new(),
    }
}

} // verus!

//! Shared per-process generation store: holds the one uploaded image and
//! the token sequence of the most recently completed generation run.  The
//! upload path replaces the image, the orchestrator replaces the token
//! sequence on completion, and the final-read path snapshots the tokens.
//! Callers that share one store across tasks guard it with a
//! mutual-exclusion primitive outside the library and keep every critical
//! section to a single operation.

use vstd::prelude::*;

verus! {

#[verifier::external_type_specification]
#[verifier::external_body]
pub struct ExDynamicImage(image::DynamicImage);

/// Relies on image::DynamicImage::new_rgba8 to create the 1x1 transparent
/// placeholder bitmap that a fresh store holds before any upload.
#[verifier::external_body]
pub(crate) fn placeholder_image() -> image::DynamicImage {
    image::DynamicImage::new_rgba8(1, 1)
}

/// The abstract content of a store: the stored bitmap, whether it came
/// from an upload, and the last completed token sequence.
pub ghost struct StoreView {
    pub image: image::DynamicImage,
    pub uploaded: bool,
    pub tokens: Seq<u32>,
}

/// The abstract effect of replacing the stored token sequence: the image
/// slot is untouched.
pub open spec fn set_tokens_spec(v: StoreView, tokens: Seq<u32>) -> StoreView {
    StoreView { image: v.image, uploaded: v.uploaded, tokens }
}

/// The abstract result of snapshotting the stored token sequence.
pub open spec fn snapshot_tokens_spec(v: StoreView) -> Seq<u32> {
    v.tokens
}

/// Law: replacing the token sequence and then snapshotting it returns
/// exactly the sequence that was stored, for any prior store content and
/// any sequence, the empty one included.
pub proof fn lemma_tokens_round_trip(v: StoreView, tokens: Seq<u32>)
    ensures
        snapshot_tokens_spec(set_tokens_spec(v, tokens)) == tokens,
{
}

pub struct TemporaryData {
    image: image::DynamicImage,
    uploaded: bool,
    token_id_array: Vec<u32>,
}

impl View for TemporaryData {
    type V = StoreView;

    closed spec fn view(&self) -> StoreView {
        StoreView { image: self.image, uploaded: self.uploaded, tokens: self.token_id_array@ }
    }
}

impl TemporaryData {
    /// A fresh store: a placeholder image that does not count as an
    /// upload, and an empty token sequence.
    pub fn new() -> (s: Self)
        ensures
            !s@.uploaded,
            s@.tokens == Seq::<u32>::empty(),
    {
        TemporaryData { image: placeholder_image(), uploaded: false, token_id_array: Vec::new() }
    }

    /// The current image, or nothing if no image was ever uploaded (the
    /// placeholder does not count).
    pub fn get_image(&self) -> (r: Option<&image::DynamicImage>)
        ensures
            r is Some <==> self@.uploaded,
            r matches Some(i) ==> *i == self@.image,
    {
        if self.uploaded {
            Some(&self.image)
        } else {
            None
        }
    }

    /// Replaces the stored image with the given bitmap; the token
    /// sequence is untouched.
    pub fn set_image(&mut self, image: image::DynamicImage)
        ensures
            final(self)@.uploaded,
            final(self)@.image == image,
            final(self)@.tokens == old(self)@.tokens,
    {
        self.image = image;
        self.uploaded = true;
    }

    /// Replaces the stored token sequence with `token_id_array`.
    pub fn set_token_id_array(&mut self, token_id_array: Vec<u32>)
        ensures
            final(self)@ == set_tokens_spec(old(self)@, token_id_array@),
    {
        self.token_id_array = token_id_array;
    }

    /// A view of the stored token sequence.
    pub fn token_id_array(&self) -> (r: &Vec<u32>)
        ensures
            r@ == snapshot_tokens_spec(self@),
    {
        &self.token_id_array
    }

    /// Appends one token id to the stored sequence; the image slot is
    /// untouched.
    pub fn add_token_id(&mut self, token_id: u32)
        ensures
            final(self)@.tokens == old(self)@.tokens.push(token_id),
            final(self)@.uploaded == old(self)@.uploaded,
            final(self)@.image == old(self)@.image,
    {
        self.token_id_array.push(token_id);
    }

    /// Removes all stored token ids; the image slot is untouched.
    pub fn clear_token_ids(&mut self)
        ensures
            final(self)@.tokens == Seq::<u32>::empty(),
            final(self)@.uploaded == old(self)@.uploaded,
            final(self)@.image == old(self)@.image,
    {
        self.token_id_array.clear();
    }

    /// The number of stored token ids.
    pub fn token_count(&self) -> (n: usize)
        ensures
            n == self@.tokens.len(),
    {
        self.token_id_array.len()
    }
}

} // verus!

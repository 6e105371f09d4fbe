//! Upload path: decoding the uploaded bytes into a bitmap is delegated to
//! the image collaborator; the library decides what the outcome means for
//! the shared store.

use vstd::prelude::*;

verus! {

use crate::store::TemporaryData;

pub uninterp spec fn decodes_ok(bytes: Seq<u8>) -> bool;

/// Relies on image::load_from_memory: whether a byte string decodes into
/// a bitmap is a function of the bytes alone; the error text of a failed
/// decode is returned as the message.
#[verifier::external_body]
pub(crate) fn decode_image(bytes: &[u8]) -> (r: Result<image::DynamicImage, String>)
    ensures
        r is Ok <==> decodes_ok(bytes@),
{
    match image::load_from_memory(bytes) {
        Ok(img) => Ok(img),
        Err(e) => Err(format!("{}", e)),
    }
}

/// Stores the uploaded image: the bytes are decoded by the image
/// collaborator and, exactly when that succeeds, the decoded bitmap
/// replaces the stored image; a failed decode reports its message and
/// leaves the store untouched.  The stored token sequence is never
/// affected by an upload.
pub fn upload_image(store: &mut TemporaryData, data: &[u8]) -> (r: Result<(), String>)
    ensures
        r is Ok <==> decodes_ok(data@),
        r is Ok ==> final(store)@.uploaded && final(store)@.tokens == old(store)@.tokens,
        r is Err ==> final(store)@ == old(store)@,
{
    match decode_image(data) {
        Ok(img) => {
            store.set_image(img);
            Ok(())
        },
        Err(message) => Err(message),
    }
}

} // verus!

//! Cover images: the downloaded bytes decoded with the `image` crate before
//! they are saved next to the song.
use vstd::prelude::*;
use image::DynamicImage;

verus! {

#[verifier::external_type_specification]
#[verifier::external_body]
pub struct ExDynamicImage(image::DynamicImage);

/// Name for whether `image::load_from_memory` decodes the given bytes (it
/// guesses the format from them).
pub uninterp spec fn decodes_as_image(bytes: Seq<u8>) -> bool;

/// Calls `image::load_from_memory`. Claimed: it yields an image exactly when
/// the bytes decode, which depends on the bytes alone; the decoded pixels
/// are not described. Left open: that every decoder it dispatches to answers
/// malformed bytes with an error rather than a panic.
#[verifier::external_body]
fn load_from_memory(bytes: &[u8]) -> (r: Option<DynamicImage>)
    ensures
        r is Some == decodes_as_image(bytes@),
{
    image::load_from_memory(bytes).ok()
}

/// The cover image the downloaded bytes hold, if they decode as an image.
pub fn decode_cover(bytes: &[u8]) -> (r: Option<DynamicImage>)
    ensures
        r is Some == decodes_as_image(bytes@),
{
    load_from_memory(bytes)
}

} // verus!

//! Lossless transcoding of raster images to WebP for the asset store.

use vstd::prelude::*;

verus! {

/// Why transcoding failed.
#[derive(Clone, Copy, PartialEq, Eq, Debug)]
pub enum TranscodeFailure {
    /// The image bytes could not be decoded.
    Decode,
    /// The decoded image could not be re-encoded.
    Encode,
}

/// The decoded pixel content of an image file; it depends on the file bytes
/// alone, and two files with equal decoded content decode to the same value.
pub uninterp spec fn decoded_image(bytes: Seq<u8>) -> Result<Seq<u8>, ()>;

/// The lossless WebP encoding of decoded pixel content; it depends on the
/// pixel content alone.
pub uninterp spec fn webp_encoding(pixels: Seq<u8>) -> Seq<u8>;

/// Whether decoded pixel content can be encoded as lossless WebP; the
/// encoder accepts or rejects a given pixel layout deterministically.
pub uninterp spec fn webp_encodable(pixels: Seq<u8>) -> bool;

/// Relies on `image::load_from_memory` and on
/// `image::codecs::webp::WebPEncoder::new_lossless` with
/// `DynamicImage::write_with_encoder`: the bytes decode to pixel content, and
/// the pixel content is encoded losslessly as WebP; both are deterministic in
/// their input.
#[verifier::external_body]
pub(crate) fn transcode_webp(bytes: &Vec<u8>) -> (r: Result<Vec<u8>, TranscodeFailure>)
    ensures
        ({
            let d = decoded_image(bytes@);
            match r {
                Result::Ok(w) => d matches Result::Ok(p) && webp_encodable(p) && w@
                    == webp_encoding(p),
                Result::Err(TranscodeFailure::Decode) => d is Err,
                Result::Err(TranscodeFailure::Encode) => d matches Result::Ok(p)
                    && !webp_encodable(p),
            }
        }),
{
    let im = match image::load_from_memory(bytes.as_slice()) {
        Ok(im) => im,
        Err(_) => {
            return Err(TranscodeFailure::Decode);
        },
    };
    let mut out = Vec::new();
    let codec = image::codecs::webp::WebPEncoder::new_lossless(&mut out);
    match im.write_with_encoder(codec) {
        Ok(()) => Ok(out),
        Err(_) => Err(TranscodeFailure::Encode),
    }
}

} // verus!

verus! {

/// Dedup of embedded raster images: two image files with identical decoded
/// pixel content transcode to the same WebP bytes, so storing the second
/// returns the path of the first and adds nothing to the store.
pub proof fn lemma_raster_dedup(
    m: vstd::prelude::Map<u64, (Seq<u8>, Seq<char>)>,
    a: Seq<u8>,
    b: Seq<u8>,
)
    requires
        decoded_image(a) is Ok,
        decoded_image(b) == decoded_image(a),
    ensures
        ({
            let wa = webp_encoding(decoded_image(a)->Ok_0);
            let wb = webp_encoding(decoded_image(b)->Ok_0);
            &&& wb == wa
            &&& crate::store::store_path(crate::store::store_after(m, wa, "webp"@), wb, "webp"@)
                == crate::store::store_path(m, wa, "webp"@)
            &&& crate::store::store_after(crate::store::store_after(m, wa, "webp"@), wb, "webp"@)
                == crate::store::store_after(m, wa, "webp"@)
        }),
{
    crate::store::lemma_store_dedup(m, webp_encoding(decoded_image(a)->Ok_0), "webp"@);
}

} // verus!

//! Images inside endpoint-encrypted content.

use super::policy::CorrespondenceError;
use crate::bytes::{copy_bytes, same_bytes};
use vstd::prelude::*;

verus! {

/// The most bytes that the images of a message may have.
pub const MAX_IMAGE_BYTES: usize = 4_194_304;

/// Declared encoding, not evidence that an image decoder has accepted the bytes.
#[derive(Clone, Copy, Debug, PartialEq, Eq, Structural)]
pub enum ImageFormat {
    Png,
    Jpeg,
    WebP,
}

/// Independently retained image bytes inside endpoint-encrypted content. External URLs are text; no
/// remote resource is fetched implicitly.
#[derive(Debug, PartialEq, Eq)]
pub struct ImageContent {
    format: ImageFormat,
    bytes: Vec<u8>,
}

pub ghost struct ImageModel {
    pub format: ImageFormat,
    pub bytes: Seq<u8>,
}

impl View for ImageContent {
    type V = ImageModel;

    closed spec fn view(&self) -> ImageModel {
        ImageModel { format: self.format, bytes: self.bytes@ }
    }
}

impl ImageContent {
    #[verifier::type_invariant]
    spec fn bounded(self) -> bool {
        1 <= self@.bytes.len() <= MAX_IMAGE_BYTES
    }

    /// Refuses empty or oversized payloads. Image decoding belongs to the endpoint.
    pub fn new(format: ImageFormat, bytes: Vec<u8>) -> (result: Result<Self, CorrespondenceError>)
        ensures
            if 1 <= bytes@.len() <= MAX_IMAGE_BYTES {
                result matches Ok(image) && image@ == (ImageModel { format, bytes: bytes@ })
            } else {
                result == Err::<Self, CorrespondenceError>(CorrespondenceError::Invalid)
            },
    {
        if bytes.len() == 0 || bytes.len() > MAX_IMAGE_BYTES {
            return Err(CorrespondenceError::Invalid);
        }
        Ok(ImageContent { format, bytes })
    }

    pub fn format(&self) -> (format: ImageFormat)
        ensures
            format == self@.format,
    {
        self.format
    }

    pub fn bytes(&self) -> (bytes: &[u8])
        ensures
            bytes@ == self@.bytes,
            1 <= bytes@.len() <= MAX_IMAGE_BYTES,
    {
        proof {
            use_type_invariant(self);
        }
        self.bytes.as_slice()
    }

    /// Whether two images are the same.
    pub fn same(&self, other: &Self) -> (same: bool)
        ensures
            same == (self@ == other@),
    {
        self.format == other.format && same_bytes(self.bytes.as_slice(), other.bytes.as_slice())
    }
}

impl Clone for ImageContent {
    fn clone(&self) -> (copy: Self)
        ensures
            copy@ == self@,
    {
        proof {
            use_type_invariant(self);
        }
        ImageContent { format: self.format, bytes: copy_bytes(&self.bytes) }
    }
}

} // verus!

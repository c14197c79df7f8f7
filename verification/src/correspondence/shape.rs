//! The nonplaintext shape of a message.

use super::image::MAX_IMAGE_BYTES;
use super::policy::CorrespondenceError;
use vstd::prelude::*;

verus! {

/// The most parts that a document may have.
pub const MAX_PARTS: usize = 128;

/// The most content blocks that a message may have.
pub const MAX_BLOCKS: usize = 128;

/// The most bytes that the texts of a message may have.
pub const MAX_TEXT_BYTES: usize = 1_048_576;

/// Bounds the compact JSON representation, including escaped text and image arrays.
pub const MAX_ENCODED_DOCUMENT_BYTES: usize = 25_165_824;

#[derive(Clone, Copy, Debug, PartialEq, Eq)]
pub struct MessageVersion(pub [u8; 32]);

impl MessageVersion {
    /// Whether two versions are the same.
    pub fn same(&self, other: &Self) -> (same: bool)
        ensures
            same == (*self == *other),
    {
        crate::bytes::same_32(&self.0, &other.0)
    }
}

/// Nonplaintext shape used to check selection types and bounds at the service.
#[derive(Clone, Copy, Debug, PartialEq, Eq, Structural)]
pub enum BlockDescriptor {
    Text { bytes: u32 },
    Image { bytes: u32 },
    Reference,
}

/// The bytes of text in the first `n` blocks.
pub open spec fn text_total(blocks: Seq<BlockDescriptor>, n: nat) -> int
    decreases n,
{
    if n == 0 {
        0
    } else {
        text_total(blocks, (n - 1) as nat) + match blocks[n - 1] {
            BlockDescriptor::Text { bytes } => bytes as int,
            _ => 0,
        }
    }
}

/// The bytes of images in the first `n` blocks.
pub open spec fn image_total(blocks: Seq<BlockDescriptor>, n: nat) -> int
    decreases n,
{
    if n == 0 {
        0
    } else {
        image_total(blocks, (n - 1) as nat) + match blocks[n - 1] {
            BlockDescriptor::Image { bytes } => bytes as int,
            _ => 0,
        }
    }
}

/// A message has blocks, not too many, no empty images, and bounded text and images.
pub open spec fn valid_shape(blocks: Seq<BlockDescriptor>) -> bool {
    &&& 1 <= blocks.len() <= MAX_BLOCKS
    &&& forall|i: int|
        0 <= i < blocks.len() ==> #[trigger] blocks[i] != (BlockDescriptor::Image { bytes: 0 })
    &&& text_total(blocks, blocks.len()) <= MAX_TEXT_BYTES
    &&& image_total(blocks, blocks.len()) <= MAX_IMAGE_BYTES
}

/// Refuses shapes that no message can have.
pub fn validate_blocks(blocks: &[BlockDescriptor]) -> (result: Result<(), CorrespondenceError>)
    ensures
        result == (if valid_shape(blocks@) {
            Ok(())
        } else {
            Err(CorrespondenceError::Invalid)
        }),
{
    if blocks.len() == 0 || blocks.len() > MAX_BLOCKS {
        return Err(CorrespondenceError::Invalid);
    }
    let mut text: u64 = 0;
    let mut images: u64 = 0;
    let mut i: usize = 0;
    while i < blocks.len()
        invariant
            0 <= i <= blocks@.len() <= MAX_BLOCKS,
            text as int == text_total(blocks@, i as nat),
            images as int == image_total(blocks@, i as nat),
            text <= i * 0x1_0000_0000,
            images <= i * 0x1_0000_0000,
            forall|j: int|
                0 <= j < i ==> #[trigger] blocks@[j] != (BlockDescriptor::Image { bytes: 0 }),
        decreases blocks@.len() - i,
    {
        match blocks[i] {
            BlockDescriptor::Text { bytes } => {
                text = text + bytes as u64;
            },
            BlockDescriptor::Image { bytes } => {
                if bytes == 0 {
                    assert(blocks@[i as int] == (BlockDescriptor::Image { bytes: 0 }));
                    return Err(CorrespondenceError::Invalid);
                }
                images = images + bytes as u64;
            },
            BlockDescriptor::Reference => {},
        }
        i += 1;
    }
    if text > MAX_TEXT_BYTES as u64 || images > MAX_IMAGE_BYTES as u64 {
        return Err(CorrespondenceError::Invalid);
    }
    Ok(())
}

/// Whether two shapes are the same.
pub fn same_shape(a: &[BlockDescriptor], b: &[BlockDescriptor]) -> (same: bool)
    ensures
        same == (a@ == b@),
{
    if a.len() != b.len() {
        return false;
    }
    let mut i: usize = 0;
    while i < a.len()
        invariant
            a@.len() == b@.len(),
            0 <= i <= a@.len(),
            forall|j: int| 0 <= j < i ==> a@[j] == b@[j],
        decreases a@.len() - i,
    {
        if a[i] != b[i] {
            return false;
        }
        i += 1;
    }
    assert(a@ =~= b@);
    true
}

/// Whether a shape is one that a message can have: between one and 128 blocks, no image among them
/// empty, at most a mebibyte of text and four of images in all.
pub proof fn shapes_are_bounded(blocks: Seq<BlockDescriptor>, i: int)
    requires
        valid_shape(blocks),
        0 <= i < blocks.len(),
    ensures
        1 <= blocks.len() <= 128,
        match blocks[i] {
            BlockDescriptor::Text { bytes } => bytes <= 1024 * 1024,
            BlockDescriptor::Image { bytes } => 0 < bytes && bytes <= 4 * 1024 * 1024,
            BlockDescriptor::Reference => true,
        },
{
    lemma_totals(blocks, blocks.len(), i);
}

proof fn lemma_totals(blocks: Seq<BlockDescriptor>, n: nat, i: int)
    requires
        n <= blocks.len(),
        0 <= i < blocks.len(),
    ensures
        text_total(blocks, n) >= 0,
        image_total(blocks, n) >= 0,
        i < n && blocks[i] is Text ==> blocks[i]->Text_bytes <= text_total(blocks, n),
        i < n && blocks[i] is Image ==> blocks[i]->Image_bytes <= image_total(blocks, n),
    decreases n,
{
    if n > 0 {
        lemma_totals(blocks, (n - 1) as nat, i);
    }
}

/// Totals go by kind of block: one more block adds its bytes to the total of its own kind, and none
/// to the other.
pub proof fn totals_go_by_block(blocks: Seq<BlockDescriptor>, block: BlockDescriptor)
    ensures
        ({
            let more = blocks.push(block);
            let n = blocks.len();
            &&& text_total(more, n + 1) == text_total(blocks, n) + match block {
                BlockDescriptor::Text { bytes } => bytes as int,
                _ => 0,
            }
            &&& image_total(more, n + 1) == image_total(blocks, n) + match block {
                BlockDescriptor::Image { bytes } => bytes as int,
                _ => 0,
            }
        }),
{
    lemma_same_totals(blocks, blocks.push(block), blocks.len());
}

proof fn lemma_same_totals(a: Seq<BlockDescriptor>, b: Seq<BlockDescriptor>, n: nat)
    requires
        n <= a.len(),
        n <= b.len(),
        forall|i: int| 0 <= i < n ==> a[i] == b[i],
    ensures
        text_total(a, n) == text_total(b, n),
        image_total(a, n) == image_total(b, n),
    decreases n,
{
    if n > 0 {
        lemma_same_totals(a, b, (n - 1) as nat);
    }
}

} // verus!

//! Selections of parts of a message.

use super::policy::CorrespondenceError;
use super::shape::{BlockDescriptor, MessageVersion, MAX_BLOCKS, MAX_TEXT_BYTES};
use crate::bytes::same_bytes;
use crate::primitives::ids::MessageId;
use vstd::prelude::*;

verus! {

/// Coordinates in the message's ordered, flattened content blocks. A reference occupies a
/// nonselectable block; a quotation contributes its retained blocks.
#[derive(Clone, Copy, Debug, PartialEq, Eq, Structural)]
pub enum SelectionElement {
    TextRange { block: u32, start: u32, end: u32 },
    ImageBlock { block: u32 },
}

impl SelectionElement {
    pub open spec fn position(self) -> u32 {
        match self {
            SelectionElement::TextRange { block, .. } => block,
            SelectionElement::ImageBlock { block } => block,
        }
    }

    /// A block there can be, and a text range that is not empty.
    pub open spec fn bounded(self) -> bool {
        &&& self.position() < MAX_BLOCKS
        &&& self matches SelectionElement::TextRange { start, end, .. } ==> start < end
            <= MAX_TEXT_BYTES
    }

    /// The element comes after another: in a later block, or later in the same text.
    pub open spec fn follows(self, prior: Self) -> bool {
        prior.position() < self.position() || match (prior, self) {
            (
                SelectionElement::TextRange { block: a, end, .. },
                SelectionElement::TextRange { block: b, start, .. },
            ) => a == b && end <= start,
            _ => false,
        }
    }

    /// The element is of the type, and within the bounds, of the block it names.
    pub open spec fn fits(self, blocks: Seq<BlockDescriptor>) -> bool {
        &&& (self.position() as int) < blocks.len()
        &&& match (self, blocks[self.position() as int]) {
            (SelectionElement::TextRange { end, .. }, BlockDescriptor::Text { bytes }) => end
                <= bytes,
            (SelectionElement::ImageBlock { .. }, BlockDescriptor::Image { .. }) => true,
            _ => false,
        }
    }

    pub fn block(&self) -> (block: u32)
        ensures
            block == self.position(),
    {
        match self {
            SelectionElement::TextRange { block, .. } => *block,
            SelectionElement::ImageBlock { block } => *block,
        }
    }
}

/// Nonempty ordered selection bound to exactly one immutable message version.
#[derive(Debug, PartialEq, Eq)]
pub struct MessageSelection {
    message: MessageId,
    version: MessageVersion,
    elements: Vec<SelectionElement>,
}

pub ghost struct SelectionModel {
    pub message: MessageId,
    pub version: Seq<u8>,
    pub elements: Seq<SelectionElement>,
}

impl SelectionModel {
    /// A selection: of an identified message, neither empty nor unbounded, each element after the
    /// one before it.
    pub open spec fn valid(self) -> bool {
        &&& self.message.0 != 0
        &&& 1 <= self.elements.len() <= MAX_BLOCKS
        &&& forall|i: int| 0 <= i < self.elements.len() ==> (#[trigger] self.elements[i]).bounded()
        &&& forall|i: int|
            0 < i < self.elements.len() ==> (#[trigger] self.elements[i]).follows(
                self.elements[i - 1],
            )
    }

    /// The selection is of this version of this message, and each element fits its shape.
    pub open spec fn targets(
        self,
        message: MessageId,
        version: Seq<u8>,
        blocks: Seq<BlockDescriptor>,
    ) -> bool {
        &&& self.message == message
        &&& self.version == version
        &&& forall|i: int| 0 <= i < self.elements.len() ==> (#[trigger] self.elements[i]).fits(
            blocks,
        )
    }
}

impl View for MessageSelection {
    type V = SelectionModel;

    closed spec fn view(&self) -> SelectionModel {
        SelectionModel {
            message: self.message,
            version: self.version.0@,
            elements: self.elements@,
        }
    }
}

impl MessageSelection {
    #[verifier::type_invariant]
    spec fn well_formed(self) -> bool {
        self@.valid()
    }

    /// Refuses empty, overlapping, duplicate, out-of-order or unbounded elements. Target types and
    /// bounds require the manifest; UTF-8 requires endpoint plaintext.
    pub fn new(message: MessageId, version: MessageVersion, elements: Vec<SelectionElement>) -> (result:
        Result<Self, CorrespondenceError>)
        ensures
            ({
                let model = SelectionModel { message, version: version.0@, elements: elements@ };
                if model.valid() {
                    result matches Ok(selection) && selection@ == model
                } else {
                    result == Err::<Self, CorrespondenceError>(CorrespondenceError::Invalid)
                }
            }),
    {
        let ghost model = SelectionModel { message, version: version.0@, elements: elements@ };
        if message.0 == 0 || elements.len() == 0 || elements.len() > MAX_BLOCKS {
            return Err(CorrespondenceError::Invalid);
        }
        let mut i: usize = 0;
        while i < elements.len()
            invariant
                model == (SelectionModel { message, version: version.0@, elements: elements@ }),
                0 <= i <= elements@.len(),
                forall|j: int| 0 <= j < i ==> (#[trigger] model.elements[j]).bounded(),
                forall|j: int|
                    0 < j < i ==> (#[trigger] model.elements[j]).follows(model.elements[j - 1]),
            decreases elements@.len() - i,
        {
            let element = elements[i];
            let out_of_bounds = match element {
                SelectionElement::TextRange { start, end, .. } => start >= end || end as usize
                    > MAX_TEXT_BYTES,
                SelectionElement::ImageBlock { .. } => false,
            };
            if element.block() as usize >= MAX_BLOCKS || out_of_bounds {
                assert(!model.elements[i as int].bounded());
                return Err(CorrespondenceError::Invalid);
            }
            if i > 0 {
                let prior = elements[i - 1];
                let later_in_text = match (prior, element) {
                    (
                        SelectionElement::TextRange { block: a, end, .. },
                        SelectionElement::TextRange { block: b, start, .. },
                    ) => a == b && end <= start,
                    _ => false,
                };
                if prior.block() >= element.block() && !later_in_text {
                    assert(!model.elements[i as int].follows(model.elements[i - 1]));
                    return Err(CorrespondenceError::Invalid);
                }
            }
            i += 1;
        }
        Ok(MessageSelection { message, version, elements })
    }

    pub fn message(&self) -> (message: MessageId)
        ensures
            message == self@.message,
    {
        self.message
    }

    pub fn version(&self) -> (version: MessageVersion)
        ensures
            version.0@ == self@.version,
    {
        self.version
    }

    pub fn elements(&self) -> (elements: &[SelectionElement])
        ensures
            elements@ == self@.elements,
            self@.valid(),
    {
        proof {
            use_type_invariant(self);
        }
        self.elements.as_slice()
    }

    /// Refuses substituted versions, missing blocks, type mismatches and invalid bounds.
    pub(crate) fn validate_shape(
        &self,
        message: MessageId,
        version: MessageVersion,
        blocks: &[BlockDescriptor],
    ) -> (result: Result<(), CorrespondenceError>)
        ensures
            result == (if self@.targets(message, version.0@, blocks@) {
                Ok(())
            } else {
                Err(CorrespondenceError::Invalid)
            }),
    {
        if self.message != message || !same_bytes(
            self.version.0.as_slice(),
            version.0.as_slice(),
        ) {
            return Err(CorrespondenceError::Invalid);
        }
        let mut i: usize = 0;
        while i < self.elements.len()
            invariant
                0 <= i <= self.elements@.len(),
                self@.message == message,
                self@.version == version.0@,
                forall|j: int| 0 <= j < i ==> (#[trigger] self@.elements[j]).fits(blocks@),
            decreases self.elements@.len() - i,
        {
            let element = self.elements[i];
            let at = element.block() as usize;
            let fits = if at < blocks.len() {
                match (element, blocks[at]) {
                    (SelectionElement::TextRange { end, .. }, BlockDescriptor::Text { bytes }) => {
                        end <= bytes
                    },
                    (SelectionElement::ImageBlock { .. }, BlockDescriptor::Image { .. }) => true,
                    _ => false,
                }
            } else {
                false
            };
            if !fits {
                assert(!self@.elements[i as int].fits(blocks@));
                return Err(CorrespondenceError::Invalid);
            }
            i += 1;
        }
        Ok(())
    }

    /// Whether two selections are the same.
    pub fn same(&self, other: &Self) -> (same: bool)
        ensures
            same == (self@ == other@),
    {
        if self.message != other.message || !same_bytes(
            self.version.0.as_slice(),
            other.version.0.as_slice(),
        ) || self.elements.len() != other.elements.len() {
            return false;
        }
        let mut i: usize = 0;
        while i < self.elements.len()
            invariant
                self.message == other.message,
                self.version.0@ == other.version.0@,
                self.elements@.len() == other.elements@.len(),
                0 <= i <= self.elements@.len(),
                forall|j: int| 0 <= j < i ==> self.elements@[j] == other.elements@[j],
            decreases self.elements@.len() - i,
        {
            if self.elements[i] != other.elements[i] {
                assert(self@.elements[i as int] != other@.elements[i as int]);
                return false;
            }
            i += 1;
        }
        assert(self.elements@ =~= other.elements@);
        true
    }
}

impl Clone for MessageSelection {
    fn clone(&self) -> (copy: Self)
        ensures
            copy@ == self@,
    {
        proof {
            use_type_invariant(self);
        }
        MessageSelection {
            message: self.message,
            version: self.version,
            elements: self.elements.clone(),
        }
    }
}

/// The elements of a selection are in order throughout: blocks never go back, and ranges in one
/// text never overlap.
pub proof fn selections_are_ordered(selection: SelectionModel, i: int, j: int)
    requires
        selection.valid(),
        0 <= i < j < selection.elements.len(),
    ensures
        selection.elements[j].follows(selection.elements[i]),
    decreases j - i,
{
    assert(selection.elements[j].follows(selection.elements[j - 1]));
    if i < j - 1 {
        selections_are_ordered(selection, i, j - 1);
        assert(selection.elements[j - 1].bounded());
    }
}

/// A valid selection names a message and selects no byte of a text twice and no image twice: where
/// two of its elements are in one block, both are text ranges and share no byte.
pub proof fn selections_select_nothing_twice(selection: SelectionModel, i: int, j: int, byte: u32)
    requires
        selection.valid(),
        0 <= i < selection.elements.len(),
        0 <= j < selection.elements.len(),
        i != j,
    ensures
        selection.message.0 != 0,
        match (selection.elements[i], selection.elements[j]) {
            (
                SelectionElement::TextRange { block: a, start: s, end: e },
                SelectionElement::TextRange { block: b, start: t, end: f },
            ) => s < e && t < f && (a == b ==> !(s <= byte && byte < e && t <= byte && byte < f))
                && (i < j ==> a < b || (a == b && e <= t)),
            (
                SelectionElement::TextRange { block: a, .. },
                SelectionElement::ImageBlock { block: b },
            ) => a != b && (i < j ==> a < b),
            (
                SelectionElement::ImageBlock { block: a },
                SelectionElement::TextRange { block: b, .. },
            ) => a != b && (i < j ==> a < b),
            (
                SelectionElement::ImageBlock { block: a },
                SelectionElement::ImageBlock { block: b },
            ) => a != b && (i < j ==> a < b),
        },
{
    if i < j {
        selections_are_ordered(selection, i, j);
    } else {
        selections_are_ordered(selection, j, i);
    }
    assert(selection.elements[i].bounded());
    assert(selection.elements[j].bounded());
}

/// A selection is of a message exactly if it names the message and its version, and each element is
/// of a block of the message: a text range within the bytes of a text, or an image.
pub proof fn selections_lie_within_their_message(
    selection: SelectionModel,
    message: MessageId,
    version: Seq<u8>,
    blocks: Seq<BlockDescriptor>,
)
    ensures
        selection.targets(message, version, blocks) <==> selection.message == message
            && selection.version == version && forall|i: int|
            0 <= i < selection.elements.len() ==> match #[trigger] selection.elements[i] {
                SelectionElement::TextRange { block, end, .. } => (block as int) < blocks.len()
                    && blocks[block as int] is Text && end <= blocks[block as int]->Text_bytes,
                SelectionElement::ImageBlock { block } => (block as int) < blocks.len()
                    && blocks[block as int] is Image,
            },
{
    if selection.targets(message, version, blocks) {
        assert forall|i: int| 0 <= i < selection.elements.len() implies match #[trigger]
        selection.elements[i] {
            SelectionElement::TextRange { block, end, .. } => (block as int) < blocks.len()
                && blocks[block as int] is Text && end <= blocks[block as int]->Text_bytes,
            SelectionElement::ImageBlock { block } => (block as int) < blocks.len()
                && blocks[block as int] is Image,
        } by {
            assert(selection.elements[i].fits(blocks));
        }
    } else {
        if selection.message == message && selection.version == version {
            let i = choose|i: int|
                0 <= i < selection.elements.len() && !(#[trigger] selection.elements[i]).fits(
                    blocks,
                );
            assert(!selection.elements[i].fits(blocks));
        }
    }
}

/// A valid selection has between one and 128 elements, each in one of the first 128 blocks, and its
/// text ranges are not empty and end within a mebibyte.
pub proof fn selections_are_bounded(selection: SelectionModel, i: int)
    requires
        selection.valid(),
        0 <= i < selection.elements.len(),
    ensures
        1 <= selection.elements.len() <= 128,
        match selection.elements[i] {
            SelectionElement::TextRange { block, start, end } => block < 128 && start < end && end
                <= 1024 * 1024,
            SelectionElement::ImageBlock { block } => block < 128,
        },
{
    assert(selection.elements[i].bounded());
}

} // verus!

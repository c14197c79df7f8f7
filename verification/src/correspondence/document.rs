//! Documents, their versions, and what can be taken from them.

use super::image::{ImageContent, ImageFormat, ImageModel};
use super::policy::{ConversationId, CorrespondenceError};
use super::selection::{MessageSelection, SelectionElement, SelectionModel};
use super::shape::{
    same_shape, valid_shape, validate_blocks, BlockDescriptor, MessageVersion,
    MAX_ENCODED_DOCUMENT_BYTES, MAX_PARTS,
};
use crate::bytes::{is_zero_32, push_all, push_text, same_bytes, text_bytes, utf8, zero_32};
use crate::crypto::{sha256, sha256_of};
use crate::json::{
    json_array, json_bytes, json_joined, json_number, json_string, push_byte_array, push_item,
    push_number, push_string,
};
use crate::primitives::ids::MessageId;
use vstd::prelude::*;
use vstd::utf8::{decode_utf8, is_char_boundary};

verus! {

/// A content block by what is in it.
pub ghost enum BlockModel {
    Text(Seq<char>),
    Image(ImageModel),
    Reference,
}

impl BlockModel {
    /// The size of the block can be told.
    pub open spec fn describable(self) -> bool {
        match self {
            BlockModel::Text(text) => utf8(text).len() <= u32::MAX,
            BlockModel::Image(image) => image.bytes.len() <= u32::MAX,
            BlockModel::Reference => true,
        }
    }

    pub open spec fn descriptor(self) -> BlockDescriptor {
        match self {
            BlockModel::Text(text) => BlockDescriptor::Text { bytes: utf8(text).len() as u32 },
            BlockModel::Image(image) => BlockDescriptor::Image { bytes: image.bytes.len() as u32 },
            BlockModel::Reference => BlockDescriptor::Reference,
        }
    }

    /// The part of the block that a selection element names.
    pub open spec fn extract(self, element: SelectionElement) -> Option<BlockModel> {
        match (element, self) {
            (SelectionElement::TextRange { start, end, .. }, BlockModel::Text(text)) => {
                let bytes = utf8(text);
                if start <= end <= bytes.len() && is_char_boundary(bytes, start as int)
                    && is_char_boundary(bytes, end as int) {
                    Some(BlockModel::Text(decode_utf8(bytes.subrange(start as int, end as int))))
                } else {
                    None
                }
            },
            (SelectionElement::ImageBlock { .. }, BlockModel::Image(image)) => Some(
                BlockModel::Image(image),
            ),
            _ => None,
        }
    }
}

/// The shape of content.
pub open spec fn shape_of(blocks: Seq<BlockModel>) -> Seq<BlockDescriptor> {
    Seq::new(blocks.len(), |i: int| blocks[i].descriptor())
}

/// Content that a message can have.
pub open spec fn valid_content(blocks: Seq<BlockModel>) -> bool {
    &&& forall|i: int| 0 <= i < blocks.len() ==> (#[trigger] blocks[i]).describable()
    &&& valid_shape(shape_of(blocks))
}

/// Retained selected content; references cannot masquerade as retained image bytes.
#[derive(Debug, PartialEq, Eq)]
pub enum ContentBlock {
    Text(String),
    Image(ImageContent),
}

impl View for ContentBlock {
    type V = BlockModel;

    open spec fn view(&self) -> BlockModel {
        match self {
            ContentBlock::Text(text) => BlockModel::Text(text@),
            ContentBlock::Image(image) => BlockModel::Image(image@),
        }
    }
}

impl Clone for ContentBlock {
    fn clone(&self) -> (copy: Self)
        ensures
            copy@ == self@,
    {
        match self {
            ContentBlock::Text(text) => ContentBlock::Text(text.clone()),
            ContentBlock::Image(image) => ContentBlock::Image(image.clone()),
        }
    }
}

/// Retained blocks by what is in them.
pub open spec fn block_models(blocks: Seq<ContentBlock>) -> Seq<BlockModel> {
    Seq::new(blocks.len(), |i: int| blocks[i]@)
}

/// A content block where it stands.
#[derive(Clone, Copy)]
enum BlockRef<'a> {
    Text(&'a str),
    Image(&'a ImageContent),
    Reference,
}

impl<'a> BlockRef<'a> {
    spec fn model(self) -> BlockModel {
        match self {
            BlockRef::Text(text) => BlockModel::Text(text@),
            BlockRef::Image(image) => BlockModel::Image(image@),
            BlockRef::Reference => BlockModel::Reference,
        }
    }

    fn descriptor(self) -> (result: Result<BlockDescriptor, CorrespondenceError>)
        ensures
            result == (if self.model().describable() {
                Ok(self.model().descriptor())
            } else {
                Err(CorrespondenceError::Invalid)
            }),
    {
        match self {
            BlockRef::Text(text) => {
                let n: usize = text.as_bytes().len();
                if n > 4294967295 {
                    return Err(CorrespondenceError::Invalid);
                }
                Ok(BlockDescriptor::Text { bytes: n as u32 })
            },
            BlockRef::Image(image) => {
                let n: usize = image.bytes().len();
                if n > 4294967295 {
                    return Err(CorrespondenceError::Invalid);
                }
                Ok(BlockDescriptor::Image { bytes: n as u32 })
            },
            BlockRef::Reference => Ok(BlockDescriptor::Reference),
        }
    }
}

spec fn ref_models(blocks: Seq<BlockRef>) -> Seq<BlockModel> {
    Seq::new(blocks.len(), |i: int| blocks[i].model())
}

fn describe(blocks: &Vec<BlockRef>) -> (result: Result<Vec<BlockDescriptor>, CorrespondenceError>)
    ensures
        ({
            let models = ref_models(blocks@);
            if forall|i: int| 0 <= i < models.len() ==> (#[trigger] models[i]).describable() {
                result matches Ok(shape) && shape@ == shape_of(models)
            } else {
                result == Err::<Vec<BlockDescriptor>, CorrespondenceError>(
                    CorrespondenceError::Invalid,
                )
            }
        }),
{
    let ghost models = ref_models(blocks@);
    let mut shape: Vec<BlockDescriptor> = Vec::new();
    let mut i: usize = 0;
    while i < blocks.len()
        invariant
            models == ref_models(blocks@),
            0 <= i <= blocks@.len(),
            shape@.len() == i,
            forall|j: int|
                0 <= j < i ==> (#[trigger] models[j]).describable() && shape@[j]
                    == models[j].descriptor(),
        decreases blocks@.len() - i,
    {
        match blocks[i].descriptor() {
            Ok(descriptor) => shape.push(descriptor),
            Err(e) => {
                assert(!models[i as int].describable());
                return Err(e);
            },
        }
        i += 1;
    }
    assert(shape@ =~= shape_of(models));
    Ok(shape)
}

fn borrow_blocks<'a>(blocks: &'a Vec<ContentBlock>) -> (refs: Vec<BlockRef<'a>>)
    ensures
        ref_models(refs@) == block_models(blocks@),
{
    let mut refs: Vec<BlockRef<'a>> = Vec::new();
    let mut i: usize = 0;
    while i < blocks.len()
        invariant
            0 <= i <= blocks@.len(),
            refs@.len() == i,
            forall|j: int| 0 <= j < i ==> (#[trigger] refs@[j]).model() == blocks@[j]@,
        decreases blocks@.len() - i,
    {
        match &blocks[i] {
            ContentBlock::Text(text) => refs.push(BlockRef::Text(text.as_str())),
            ContentBlock::Image(image) => refs.push(BlockRef::Image(image)),
        }
        i += 1;
    }
    assert(ref_models(refs@) =~= block_models(blocks@));
    refs
}

pub ghost struct ExcerptModel {
    pub source: SelectionModel,
    pub blocks: Seq<BlockModel>,
}

/// A retained block is of the type, and a retained text of the length, that an element selects.
pub open spec fn retains(element: SelectionElement, block: BlockModel) -> bool {
    match (element, block) {
        (SelectionElement::TextRange { start, end, .. }, BlockModel::Text(text)) => utf8(text).len()
            == end - start,
        (SelectionElement::ImageBlock { .. }, BlockModel::Image(_)) => true,
        _ => false,
    }
}

impl ExcerptModel {
    /// An excerpt retains one block for each selected element, and content that a message can have.
    pub open spec fn valid(self) -> bool {
        &&& self.blocks.len() == self.source.elements.len()
        &&& forall|i: int|
            0 <= i < self.blocks.len() ==> retains(
                self.source.elements[i],
                #[trigger] self.blocks[i],
            )
        &&& valid_content(self.blocks)
    }
}

/// A selection of a message with the content it selects.
#[derive(Debug, PartialEq, Eq)]
pub struct QuotedExcerpt {
    source: MessageSelection,
    blocks: Vec<ContentBlock>,
}

impl View for QuotedExcerpt {
    type V = ExcerptModel;

    closed spec fn view(&self) -> ExcerptModel {
        ExcerptModel { source: self.source@, blocks: block_models(self.blocks@) }
    }
}

impl QuotedExcerpt {
    #[verifier::type_invariant]
    spec fn well_formed(self) -> bool {
        self@.valid()
    }

    /// Refuses blocks that do not match the selection, and content that no message can have.
    pub fn new(source: MessageSelection, blocks: Vec<ContentBlock>) -> (result: Result<
        Self,
        CorrespondenceError,
    >)
        ensures
            ({
                let model = ExcerptModel { source: source@, blocks: block_models(blocks@) };
                if model.valid() {
                    result matches Ok(excerpt) && excerpt@ == model
                } else {
                    result == Err::<Self, CorrespondenceError>(CorrespondenceError::Invalid)
                }
            }),
    {
        let ghost model = ExcerptModel { source: source@, blocks: block_models(blocks@) };
        if blocks.len() != source.elements().len() {
            return Err(CorrespondenceError::Invalid);
        }
        let mut i: usize = 0;
        while i < blocks.len()
            invariant
                model == (ExcerptModel { source: source@, blocks: block_models(blocks@) }),
                0 <= i <= blocks@.len(),
                blocks@.len() == source@.elements.len(),
                forall|j: int|
                    0 <= j < i ==> retains(
                        model.source.elements[j],
                        #[trigger] model.blocks[j],
                    ),
            decreases blocks@.len() - i,
        {
            let elements = source.elements();
            let matching = match (elements[i], &blocks[i]) {
                (SelectionElement::TextRange { start, end, .. }, ContentBlock::Text(text)) => {
                    assert(source@.elements[i as int].bounded());
                    text.as_str().as_bytes().len() == (end - start) as usize
                },
                (SelectionElement::ImageBlock { .. }, ContentBlock::Image(_)) => true,
                _ => false,
            };
            if !matching {
                assert(!retains(model.source.elements[i as int], model.blocks[i as int]));
                return Err(CorrespondenceError::Invalid);
            }
            i += 1;
        }
        let refs = borrow_blocks(&blocks);
        let shape = match describe(&refs) {
            Ok(shape) => shape,
            Err(e) => return Err(e),
        };
        match validate_blocks(shape.as_slice()) {
            Ok(()) => {},
            Err(e) => return Err(e),
        }
        Ok(QuotedExcerpt { source, blocks })
    }

    pub fn source(&self) -> (source: &MessageSelection)
        ensures
            source@ == self@.source,
    {
        &self.source
    }

    pub fn blocks(&self) -> (blocks: &[ContentBlock])
        ensures
            block_models(blocks@) == self@.blocks,
    {
        self.blocks.as_slice()
    }
}

impl Clone for QuotedExcerpt {
    fn clone(&self) -> (copy: Self)
        ensures
            copy@ == self@,
    {
        proof {
            use_type_invariant(self);
        }
        let mut blocks: Vec<ContentBlock> = Vec::new();
        let mut i: usize = 0;
        while i < self.blocks.len()
            invariant
                0 <= i <= self.blocks@.len(),
                blocks@.len() == i,
                forall|j: int| 0 <= j < i ==> (#[trigger] blocks@[j])@ == self.blocks@[j]@,
            decreases self.blocks@.len() - i,
        {
            blocks.push(self.blocks[i].clone());
            i += 1;
        }
        assert(block_models(blocks@) =~= block_models(self.blocks@));
        QuotedExcerpt { source: self.source.clone(), blocks }
    }
}

#[derive(Debug, PartialEq, Eq)]
pub struct SourceReference(pub MessageSelection);

#[derive(Debug, PartialEq, Eq)]
pub struct SharedCopy(pub QuotedExcerpt);

#[derive(Debug, PartialEq, Eq)]
pub enum DocumentPart {
    Text(String),
    Image(ImageContent),
    Reference(SourceReference),
    Quotation(QuotedExcerpt),
    Share(SharedCopy),
}

pub ghost enum PartModel {
    Text(Seq<char>),
    Image(ImageModel),
    Reference(SelectionModel),
    Quotation(ExcerptModel),
    Share(ExcerptModel),
}

impl View for DocumentPart {
    type V = PartModel;

    open spec fn view(&self) -> PartModel {
        match self {
            DocumentPart::Text(text) => PartModel::Text(text@),
            DocumentPart::Image(image) => PartModel::Image(image@),
            DocumentPart::Reference(reference) => PartModel::Reference(reference.0@),
            DocumentPart::Quotation(quotation) => PartModel::Quotation(quotation@),
            DocumentPart::Share(share) => PartModel::Share(share.0@),
        }
    }
}

impl Clone for DocumentPart {
    fn clone(&self) -> (copy: Self)
        ensures
            copy@ == self@,
    {
        match self {
            DocumentPart::Text(text) => DocumentPart::Text(text.clone()),
            DocumentPart::Image(image) => DocumentPart::Image(image.clone()),
            DocumentPart::Reference(reference) => DocumentPart::Reference(
                SourceReference(reference.0.clone()),
            ),
            DocumentPart::Quotation(quotation) => DocumentPart::Quotation(quotation.clone()),
            DocumentPart::Share(share) => DocumentPart::Share(SharedCopy(share.0.clone())),
        }
    }
}

/// How a document draws on another message.
#[derive(Debug, PartialEq, Eq)]
pub enum SourceUse {
    Reference(MessageSelection),
    Quotation(MessageSelection),
    Sharing(MessageSelection),
}

pub ghost enum SourceModel {
    Reference(SelectionModel),
    Quotation(SelectionModel),
    Sharing(SelectionModel),
}

impl SourceModel {
    pub open spec fn selection(self) -> SelectionModel {
        match self {
            SourceModel::Reference(s) => s,
            SourceModel::Quotation(s) => s,
            SourceModel::Sharing(s) => s,
        }
    }
}

impl View for SourceUse {
    type V = SourceModel;

    open spec fn view(&self) -> SourceModel {
        match self {
            SourceUse::Reference(s) => SourceModel::Reference(s@),
            SourceUse::Quotation(s) => SourceModel::Quotation(s@),
            SourceUse::Sharing(s) => SourceModel::Sharing(s@),
        }
    }
}

impl Clone for SourceUse {
    fn clone(&self) -> (copy: Self)
        ensures
            copy@ == self@,
    {
        match self {
            SourceUse::Reference(s) => SourceUse::Reference(s.clone()),
            SourceUse::Quotation(s) => SourceUse::Quotation(s.clone()),
            SourceUse::Sharing(s) => SourceUse::Sharing(s.clone()),
        }
    }
}

impl SourceUse {
    pub fn selection(&self) -> (selection: &MessageSelection)
        ensures
            selection@ == self@.selection(),
    {
        match self {
            SourceUse::Reference(s) => s,
            SourceUse::Quotation(s) => s,
            SourceUse::Sharing(s) => s,
        }
    }

    fn same(&self, other: &Self) -> (same: bool)
        ensures
            same == (self@ == other@),
    {
        match (self, other) {
            (SourceUse::Reference(a), SourceUse::Reference(b)) => a.same(b),
            (SourceUse::Quotation(a), SourceUse::Quotation(b)) => a.same(b),
            (SourceUse::Sharing(a), SourceUse::Sharing(b)) => a.same(b),
            _ => false,
        }
    }
}

pub open spec fn source_models(sources: Seq<SourceUse>) -> Seq<SourceModel> {
    Seq::new(sources.len(), |i: int| sources[i]@)
}

impl PartModel {
    /// The content blocks of a part: a quotation's or a copy's are those it retains.
    pub open spec fn blocks(self) -> Seq<BlockModel> {
        match self {
            PartModel::Text(text) => seq![BlockModel::Text(text)],
            PartModel::Image(image) => seq![BlockModel::Image(image)],
            PartModel::Reference(_) => seq![BlockModel::Reference],
            PartModel::Quotation(excerpt) => excerpt.blocks,
            PartModel::Share(excerpt) => excerpt.blocks,
        }
    }

    pub open spec fn source(self) -> Option<SourceModel> {
        match self {
            PartModel::Text(_) => None,
            PartModel::Image(_) => None,
            PartModel::Reference(selection) => Some(SourceModel::Reference(selection)),
            PartModel::Quotation(excerpt) => Some(SourceModel::Quotation(excerpt.source)),
            PartModel::Share(excerpt) => Some(SourceModel::Sharing(excerpt.source)),
        }
    }
}

impl DocumentPart {
    /// How the part draws on another message, if it does.
    pub fn source(&self) -> (source: Option<SourceUse>)
        ensures
            match source {
                Some(s) => self@.source() == Some(s@),
                None => self@.source() is None,
            },
    {
        match self {
            DocumentPart::Text(_) => None,
            DocumentPart::Image(_) => None,
            DocumentPart::Reference(reference) => Some(SourceUse::Reference(reference.0.clone())),
            DocumentPart::Quotation(quotation) => Some(
                SourceUse::Quotation(quotation.source().clone()),
            ),
            DocumentPart::Share(share) => Some(SourceUse::Sharing(share.0.source().clone())),
        }
    }
}

pub open spec fn part_models(parts: Seq<DocumentPart>) -> Seq<PartModel> {
    Seq::new(parts.len(), |i: int| parts[i]@)
}

/// The content blocks of parts, in order.
pub open spec fn flattened(parts: Seq<PartModel>) -> Seq<BlockModel>
    decreases parts.len(),
{
    if parts.len() == 0 {
        Seq::empty()
    } else {
        flattened(parts.drop_last()) + parts.last().blocks()
    }
}

/// What parts draw on, in order.
pub open spec fn drawn(parts: Seq<PartModel>) -> Seq<SourceModel>
    decreases parts.len(),
{
    if parts.len() == 0 {
        Seq::empty()
    } else {
        match parts.last().source() {
            Some(source) => drawn(parts.drop_last()).push(source),
            None => drawn(parts.drop_last()),
        }
    }
}

impl ImageFormat {
    pub open spec fn json(self) -> Seq<u8> {
        match self {
            ImageFormat::Png => utf8("\"Png\""@),
            ImageFormat::Jpeg => utf8("\"Jpeg\""@),
            ImageFormat::WebP => utf8("\"WebP\""@),
        }
    }
}

impl ImageModel {
    pub open spec fn json(self) -> Seq<u8> {
        utf8("{\"format\":"@) + self.format.json() + utf8(",\"bytes\":"@) + json_bytes(self.bytes)
            + utf8("}"@)
    }
}

fn image_json(image: &ImageContent) -> (bytes: Vec<u8>)
    ensures
        bytes@ == image@.json(),
{
    let mut out = text_bytes("{\"format\":");
    match image.format() {
        ImageFormat::Png => push_text(&mut out, "\"Png\""),
        ImageFormat::Jpeg => push_text(&mut out, "\"Jpeg\""),
        ImageFormat::WebP => push_text(&mut out, "\"WebP\""),
    }
    push_text(&mut out, ",\"bytes\":");
    push_byte_array(&mut out, image.bytes());
    push_text(&mut out, "}");
    out
}

impl SelectionElement {
    pub open spec fn json(self) -> Seq<u8> {
        match self {
            SelectionElement::TextRange { block, start, end } => utf8("{\"TextRange\":{\"block\":"@)
                + json_number(block as nat) + utf8(",\"start\":"@) + json_number(start as nat)
                + utf8(",\"end\":"@) + json_number(end as nat) + utf8("}}"@),
            SelectionElement::ImageBlock { block } => utf8("{\"ImageBlock\":{\"block\":"@)
                + json_number(block as nat) + utf8("}}"@),
        }
    }
}

fn element_json(element: SelectionElement) -> (bytes: Vec<u8>)
    ensures
        bytes@ == element.json(),
{
    match element {
        SelectionElement::TextRange { block, start, end } => {
            let mut out = text_bytes("{\"TextRange\":{\"block\":");
            push_number(&mut out, block as u128);
            push_text(&mut out, ",\"start\":");
            push_number(&mut out, start as u128);
            push_text(&mut out, ",\"end\":");
            push_number(&mut out, end as u128);
            push_text(&mut out, "}}");
            out
        },
        SelectionElement::ImageBlock { block } => {
            let mut out = text_bytes("{\"ImageBlock\":{\"block\":");
            push_number(&mut out, block as u128);
            push_text(&mut out, "}}");
            out
        },
    }
}

impl SelectionModel {
    pub open spec fn elements_json(self) -> Seq<Seq<u8>> {
        Seq::new(self.elements.len(), |i: int| self.elements[i].json())
    }

    pub open spec fn json(self) -> Seq<u8> {
        utf8("{\"message\":"@) + json_number(self.message.0 as nat) + utf8(",\"version\":"@)
            + json_bytes(self.version) + utf8(",\"elements\":"@) + json_array(self.elements_json())
            + utf8("}"@)
    }
}

fn elements_array(selection: &MessageSelection) -> (bytes: Vec<u8>)
    ensures
        bytes@ == json_array(selection@.elements_json()),
{
    let elements = selection.elements();
    let ghost items = selection@.elements_json();
    let mut out = text_bytes("[");
    let ghost opened = out@;
    let mut i: usize = 0;
    assert(out@ =~= opened + json_joined(items.take(0)));
    while i < elements.len()
        invariant
            elements@ == selection@.elements,
            items == selection@.elements_json(),
            0 <= i <= elements@.len(),
            out@ == opened + json_joined(items.take(i as int)),
        decreases elements@.len() - i,
    {
        let item = element_json(elements[i]);
        assert(items.take(i + 1) =~= items.take(i as int).push(item@));
        push_item(&mut out, i, item.as_slice(), Ghost(items.take(i as int)), Ghost(opened));
        i += 1;
    }
    assert(items.take(i as int) =~= items);
    push_text(&mut out, "]");
    out
}

/// A selection as JSON.
pub fn selection_json(selection: &MessageSelection) -> (bytes: Vec<u8>)
    ensures
        bytes@ == selection@.json(),
{
    let mut out = text_bytes("{\"message\":");
    push_number(&mut out, selection.message().0);
    push_text(&mut out, ",\"version\":");
    push_byte_array(&mut out, selection.version().0.as_slice());
    push_text(&mut out, ",\"elements\":");
    push_all(&mut out, elements_array(selection).as_slice());
    push_text(&mut out, "}");
    out
}

impl BlockModel {
    pub open spec fn json(self) -> Seq<u8> {
        match self {
            BlockModel::Text(text) => utf8("{\"Text\":"@) + json_string(text) + utf8("}"@),
            BlockModel::Image(image) => utf8("{\"Image\":"@) + image.json() + utf8("}"@),
            BlockModel::Reference => Seq::empty(),
        }
    }
}

fn block_json(block: &ContentBlock) -> (bytes: Vec<u8>)
    ensures
        bytes@ == block@.json(),
{
    match block {
        ContentBlock::Text(text) => {
            let mut out = text_bytes("{\"Text\":");
            push_string(&mut out, text.as_str());
            push_text(&mut out, "}");
            out
        },
        ContentBlock::Image(image) => {
            let mut out = text_bytes("{\"Image\":");
            push_all(&mut out, image_json(image).as_slice());
            push_text(&mut out, "}");
            out
        },
    }
}

impl ExcerptModel {
    pub open spec fn blocks_json(self) -> Seq<Seq<u8>> {
        Seq::new(self.blocks.len(), |i: int| self.blocks[i].json())
    }

    pub open spec fn json(self) -> Seq<u8> {
        utf8("{\"source\":"@) + self.source.json() + utf8(",\"blocks\":"@) + json_array(
            self.blocks_json(),
        ) + utf8("}"@)
    }
}

fn blocks_array(excerpt: &QuotedExcerpt) -> (bytes: Vec<u8>)
    ensures
        bytes@ == json_array(excerpt@.blocks_json()),
{
    let blocks = excerpt.blocks();
    let ghost items = excerpt@.blocks_json();
    let mut out = text_bytes("[");
    let ghost opened = out@;
    let mut i: usize = 0;
    assert(out@ =~= opened + json_joined(items.take(0)));
    while i < blocks.len()
        invariant
            block_models(blocks@) == excerpt@.blocks,
            items == excerpt@.blocks_json(),
            0 <= i <= blocks@.len(),
            out@ == opened + json_joined(items.take(i as int)),
        decreases blocks@.len() - i,
    {
        let item = block_json(&blocks[i]);
        assert(excerpt@.blocks[i as int] == blocks@[i as int]@);
        assert(items.take(i + 1) =~= items.take(i as int).push(item@));
        push_item(&mut out, i, item.as_slice(), Ghost(items.take(i as int)), Ghost(opened));
        i += 1;
    }
    assert(items.take(i as int) =~= items);
    push_text(&mut out, "]");
    out
}

fn excerpt_json(excerpt: &QuotedExcerpt) -> (bytes: Vec<u8>)
    ensures
        bytes@ == excerpt@.json(),
{
    let mut out = text_bytes("{\"source\":");
    push_all(&mut out, selection_json(excerpt.source()).as_slice());
    push_text(&mut out, ",\"blocks\":");
    push_all(&mut out, blocks_array(excerpt).as_slice());
    push_text(&mut out, "}");
    out
}

impl PartModel {
    pub open spec fn json(self) -> Seq<u8> {
        match self {
            PartModel::Text(text) => utf8("{\"Text\":"@) + json_string(text) + utf8("}"@),
            PartModel::Image(image) => utf8("{\"Image\":"@) + image.json() + utf8("}"@),
            PartModel::Reference(selection) => utf8("{\"Reference\":"@) + selection.json() + utf8(
                "}"@,
            ),
            PartModel::Quotation(excerpt) => utf8("{\"Quotation\":"@) + excerpt.json() + utf8(
                "}"@,
            ),
            PartModel::Share(excerpt) => utf8("{\"Share\":"@) + excerpt.json() + utf8("}"@),
        }
    }
}

fn part_json(part: &DocumentPart) -> (bytes: Vec<u8>)
    ensures
        bytes@ == part@.json(),
{
    match part {
        DocumentPart::Text(text) => {
            let mut out = text_bytes("{\"Text\":");
            push_string(&mut out, text.as_str());
            push_text(&mut out, "}");
            out
        },
        DocumentPart::Image(image) => {
            let mut out = text_bytes("{\"Image\":");
            push_all(&mut out, image_json(image).as_slice());
            push_text(&mut out, "}");
            out
        },
        DocumentPart::Reference(reference) => {
            let mut out = text_bytes("{\"Reference\":");
            push_all(&mut out, selection_json(&reference.0).as_slice());
            push_text(&mut out, "}");
            out
        },
        DocumentPart::Quotation(excerpt) => {
            let mut out = text_bytes("{\"Quotation\":");
            push_all(&mut out, excerpt_json(excerpt).as_slice());
            push_text(&mut out, "}");
            out
        },
        DocumentPart::Share(share) => {
            let mut out = text_bytes("{\"Share\":");
            push_all(&mut out, excerpt_json(&share.0).as_slice());
            push_text(&mut out, "}");
            out
        },
    }
}

pub ghost struct ManifestModel {
    pub message: MessageId,
    pub conversation: ConversationId,
    pub version: Seq<u8>,
    pub blocks: Seq<BlockDescriptor>,
    pub sources: Seq<SourceModel>,
}

impl ManifestModel {
    /// A manifest that a message can have: an identified message with a valid shape, that does not
    /// draw on itself.
    pub open spec fn valid(self) -> bool {
        &&& valid_shape(self.blocks)
        &&& self.message.0 != 0
        &&& self.sources.len() <= MAX_PARTS
        &&& forall|i: int|
            0 <= i < self.sources.len() ==> (#[trigger] self.sources[i]).selection().message
                != self.message
    }
}

/// What a service sees of a message: its version, its shape, and what it draws on.
#[derive(Debug, PartialEq, Eq)]
pub struct MessageManifest {
    message: MessageId,
    conversation: ConversationId,
    version: MessageVersion,
    blocks: Vec<BlockDescriptor>,
    sources: Vec<SourceUse>,
}

impl View for MessageManifest {
    type V = ManifestModel;

    closed spec fn view(&self) -> ManifestModel {
        ManifestModel {
            message: self.message,
            conversation: self.conversation,
            version: self.version.0@,
            blocks: self.blocks@,
            sources: source_models(self.sources@),
        }
    }
}

impl MessageManifest {
    #[verifier::type_invariant]
    spec fn well_formed(self) -> bool {
        self@.valid()
    }

    /// Refuses shapes that no message can have, unidentified messages, and messages that draw on
    /// themselves.
    pub fn new(
        message: MessageId,
        conversation: ConversationId,
        version: MessageVersion,
        blocks: Vec<BlockDescriptor>,
        sources: Vec<SourceUse>,
    ) -> (result: Result<Self, CorrespondenceError>)
        ensures
            ({
                let model = ManifestModel {
                    message,
                    conversation,
                    version: version.0@,
                    blocks: blocks@,
                    sources: source_models(sources@),
                };
                if model.valid() {
                    result matches Ok(manifest) && manifest@ == model
                } else {
                    result == Err::<Self, CorrespondenceError>(CorrespondenceError::Invalid)
                }
            }),
    {
        match validate_blocks(blocks.as_slice()) {
            Ok(()) => {},
            Err(e) => return Err(e),
        }
        if message.0 == 0 || sources.len() > MAX_PARTS {
            return Err(CorrespondenceError::Invalid);
        }
        let ghost models = source_models(sources@);
        let mut i: usize = 0;
        while i < sources.len()
            invariant
                models == source_models(sources@),
                0 <= i <= sources@.len(),
                forall|j: int|
                    0 <= j < i ==> (#[trigger] models[j]).selection().message != message,
            decreases sources@.len() - i,
        {
            if sources[i].selection().message() == message {
                assert(models[i as int].selection().message == message);
                return Err(CorrespondenceError::Invalid);
            }
            i += 1;
        }
        Ok(MessageManifest { message, conversation, version, blocks, sources })
    }

    pub fn message(&self) -> (message: MessageId)
        ensures
            message == self@.message,
    {
        self.message
    }

    pub fn conversation(&self) -> (conversation: ConversationId)
        ensures
            conversation == self@.conversation,
    {
        self.conversation
    }

    pub fn version(&self) -> (version: MessageVersion)
        ensures
            version.0@ == self@.version,
    {
        self.version
    }

    pub fn blocks(&self) -> (blocks: &[BlockDescriptor])
        ensures
            blocks@ == self@.blocks,
            self@.valid(),
    {
        proof {
            use_type_invariant(self);
        }
        self.blocks.as_slice()
    }

    pub fn sources(&self) -> (sources: &[SourceUse])
        ensures
            source_models(sources@) == self@.sources,
            self@.valid(),
    {
        proof {
            use_type_invariant(self);
        }
        self.sources.as_slice()
    }

    /// Whether two manifests are the same.
    pub fn same(&self, other: &Self) -> (same: bool)
        ensures
            same == (self@ == other@),
    {
        if self.message != other.message || self.conversation != other.conversation || !same_bytes(
            self.version.0.as_slice(),
            other.version.0.as_slice(),
        ) || !same_shape(self.blocks.as_slice(), other.blocks.as_slice()) || self.sources.len()
            != other.sources.len() {
            assert(self.sources@.len() != other.sources@.len() ==> self@.sources.len()
                != other@.sources.len());
            return false;
        }
        let mut i: usize = 0;
        while i < self.sources.len()
            invariant
                self.message == other.message,
                self.conversation == other.conversation,
                self.version.0@ == other.version.0@,
                self.blocks@ == other.blocks@,
                self.sources@.len() == other.sources@.len(),
                0 <= i <= self.sources@.len(),
                forall|j: int|
                    0 <= j < i ==> (#[trigger] self@.sources[j]) == other@.sources[j],
            decreases self.sources@.len() - i,
        {
            if !self.sources[i].same(&other.sources[i]) {
                assert(self@.sources[i as int] != other@.sources[i as int]);
                return false;
            }
            i += 1;
        }
        assert(self@.sources =~= other@.sources);
        true
    }
}

impl Clone for MessageManifest {
    fn clone(&self) -> (copy: Self)
        ensures
            copy@ == self@,
    {
        proof {
            use_type_invariant(self);
        }
        let mut sources: Vec<SourceUse> = Vec::new();
        let mut i: usize = 0;
        while i < self.sources.len()
            invariant
                0 <= i <= self.sources@.len(),
                sources@.len() == i,
                forall|j: int| 0 <= j < i ==> (#[trigger] sources@[j])@ == self.sources@[j]@,
            decreases self.sources@.len() - i,
        {
            sources.push(self.sources[i].clone());
            i += 1;
        }
        assert(source_models(sources@) =~= source_models(self.sources@));
        MessageManifest {
            message: self.message,
            conversation: self.conversation,
            version: self.version,
            blocks: self.blocks.clone(),
            sources,
        }
    }
}

impl MessageSelection {
    /// Refuses substituted versions, missing blocks, type mismatches and invalid bounds.
    pub fn validate_target(&self, manifest: &MessageManifest) -> (result: Result<
        (),
        CorrespondenceError,
    >)
        ensures
            result == (if self@.targets(manifest@.message, manifest@.version, manifest@.blocks) {
                Ok(())
            } else {
                Err(CorrespondenceError::Invalid)
            }),
    {
        self.validate_shape(manifest.message, manifest.version, manifest.blocks.as_slice())
    }
}

pub ghost struct DocumentModel {
    pub version_secret: Seq<u8>,
    pub parts: Seq<PartModel>,
}

impl DocumentModel {
    pub open spec fn parts_json(self) -> Seq<Seq<u8>> {
        Seq::new(self.parts.len(), |i: int| self.parts[i].json())
    }

    /// The document as JSON.
    pub open spec fn json(self) -> Seq<u8> {
        utf8("{\"version_secret\":"@) + json_bytes(self.version_secret) + utf8(",\"parts\":"@)
            + json_array(self.parts_json()) + utf8("}"@)
    }

    /// The manifest of the document as a message of a conversation.
    pub open spec fn manifest(self, message: MessageId, conversation: ConversationId) -> Result<
        ManifestModel,
        CorrespondenceError,
    > {
        let model = ManifestModel {
            message,
            conversation,
            version: sha256_of(utf8("cs-mail/correspondence-document/v2"@) + self.json()),
            blocks: shape_of(flattened(self.parts)),
            sources: drawn(self.parts),
        };
        if self.json().len() > MAX_ENCODED_DOCUMENT_BYTES || !model.valid() {
            Err(CorrespondenceError::Invalid)
        } else {
            Ok(model)
        }
    }

    /// What each element of a selection selects.
    pub open spec fn extracts(self, selection: SelectionModel, i: int) -> Option<BlockModel> {
        let blocks = flattened(self.parts);
        let element = selection.elements[i];
        if (element.position() as int) < blocks.len() {
            blocks[element.position() as int].extract(element)
        } else {
            None
        }
    }

    /// The content that a selection selects of the document with this manifest.
    pub open spec fn selected(self, manifest: ManifestModel, selection: SelectionModel) -> Result<
        Seq<BlockModel>,
        CorrespondenceError,
    > {
        match self.manifest(manifest.message, manifest.conversation) {
            Err(e) => Err(e),
            Ok(own) => if own != manifest || !selection.targets(
                manifest.message,
                manifest.version,
                manifest.blocks,
            ) || exists|i: int|
                0 <= i < selection.elements.len() && #[trigger] self.extracts(selection, i) is None {
                Err(CorrespondenceError::Invalid)
            } else {
                Ok(
                    Seq::new(
                        selection.elements.len(),
                        |i: int| self.extracts(selection, i)->Some_0,
                    ),
                )
            },
        }
    }
}

/// A message's content, with the secret that its version is made with.
#[derive(Debug, PartialEq, Eq)]
pub struct Document {
    version_secret: [u8; 32],
    parts: Vec<DocumentPart>,
}

impl View for Document {
    type V = DocumentModel;

    closed spec fn view(&self) -> DocumentModel {
        DocumentModel { version_secret: self.version_secret@, parts: part_models(self.parts@) }
    }
}

impl Document {
    #[verifier::type_invariant]
    spec fn well_formed(self) -> bool {
        valid_content(flattened(self@.parts))
    }

    /// Supply a fresh cryptographically random secret per document. The secret stays encrypted so
    /// public versions cannot fingerprint guessable content. Preserve the document for exact
    /// retries. Zero secrets, empty documents and oversized content or block counts are refused.
    pub fn new(parts: Vec<DocumentPart>, version_secret: [u8; 32]) -> (result: Result<
        Self,
        CorrespondenceError,
    >)
        ensures
            ({
                let models = part_models(parts@);
                if !zero_32(version_secret) && 1 <= parts@.len() <= MAX_PARTS && valid_content(
                    flattened(models),
                ) {
                    result matches Ok(document) && document@ == (DocumentModel {
                        version_secret: version_secret@,
                        parts: models,
                    })
                } else {
                    result == Err::<Self, CorrespondenceError>(CorrespondenceError::Invalid)
                }
            }),
    {
        if is_zero_32(&version_secret) || parts.len() == 0 || parts.len() > MAX_PARTS {
            return Err(CorrespondenceError::Invalid);
        }
        let refs = flatten(&parts);
        let shape = match describe(&refs) {
            Ok(shape) => shape,
            Err(e) => return Err(e),
        };
        match validate_blocks(shape.as_slice()) {
            Ok(()) => {},
            Err(e) => return Err(e),
        }
        Ok(Document { version_secret, parts })
    }

    pub fn parts(&self) -> (parts: &[DocumentPart])
        ensures
            part_models(parts@) == self@.parts,
    {
        self.parts.as_slice()
    }

    fn parts_array(&self) -> (bytes: Vec<u8>)
        ensures
            bytes@ == json_array(self@.parts_json()),
    {
        let ghost items = self@.parts_json();
        let mut out = text_bytes("[");
        let ghost opened = out@;
        let mut i: usize = 0;
        assert(out@ =~= opened + json_joined(items.take(0)));
        while i < self.parts.len()
            invariant
                items == self@.parts_json(),
                0 <= i <= self.parts@.len(),
                out@ == opened + json_joined(items.take(i as int)),
            decreases self.parts@.len() - i,
        {
            let item = part_json(&self.parts[i]);
            assert(self@.parts[i as int] == self.parts@[i as int]@);
            assert(items.take(i + 1) =~= items.take(i as int).push(item@));
            push_item(&mut out, i, item.as_slice(), Ghost(items.take(i as int)), Ghost(opened));
            i += 1;
        }
        assert(items.take(i as int) =~= items);
        push_text(&mut out, "]");
        out
    }

    /// The document as JSON.
    pub fn json_bytes(&self) -> (bytes: Vec<u8>)
        ensures
            bytes@ == self@.json(),
    {
        let mut out = text_bytes("{\"version_secret\":");
        push_byte_array(&mut out, self.version_secret.as_slice());
        push_text(&mut out, ",\"parts\":");
        push_all(&mut out, self.parts_array().as_slice());
        push_text(&mut out, "}");
        out
    }

    fn sources(&self) -> (sources: Vec<SourceUse>)
        ensures
            source_models(sources@) == drawn(self@.parts),
    {
        let ghost parts = self@.parts;
        let mut sources: Vec<SourceUse> = Vec::new();
        let mut i: usize = 0;
        assert(source_models(sources@) =~= drawn(parts.take(0)));
        while i < self.parts.len()
            invariant
                parts == self@.parts,
                0 <= i <= self.parts@.len(),
                source_models(sources@) == drawn(parts.take(i as int)),
            decreases self.parts@.len() - i,
        {
            let ghost before = sources@;
            match self.parts[i].source() {
                Some(source) => {
                    sources.push(source);
                    assert(source_models(sources@) =~= source_models(before).push(source@));
                },
                None => {},
            }
            proof {
                assert(parts[i as int] == self.parts@[i as int]@);
                assert(parts.take(i + 1).drop_last() =~= parts.take(i as int));
                assert(parts.take(i + 1).last() == parts[i as int]);
            }
            i += 1;
        }
        assert(parts.take(i as int) =~= parts);
        sources
    }

    /// What a service sees of the document as a message of a conversation. Oversized encodings and
    /// invalid message identities are refused.
    pub fn manifest(&self, message: MessageId, conversation: ConversationId) -> (result: Result<
        MessageManifest,
        CorrespondenceError,
    >)
        ensures
            match self@.manifest(message, conversation) {
                Ok(model) => result matches Ok(manifest) && manifest@ == model,
                Err(e) => result == Err::<MessageManifest, CorrespondenceError>(e),
            },
    {
        proof {
            use_type_invariant(self);
        }
        let bytes = self.json_bytes();
        if bytes.len() > MAX_ENCODED_DOCUMENT_BYTES {
            return Err(CorrespondenceError::Invalid);
        }
        let mut preimage = text_bytes("cs-mail/correspondence-document/v2");
        push_all(&mut preimage, bytes.as_slice());
        let version = MessageVersion(sha256(preimage.as_slice()));
        let refs = flatten(&self.parts);
        let blocks = match describe(&refs) {
            Ok(shape) => shape,
            Err(e) => return Err(e),
        };
        MessageManifest::new(message, conversation, version, blocks, self.sources())
    }

    /// Resolve a selection locally after decrypting an authorized source message. The same
    /// extraction path supplies quotations and reference rendering. Substituted content, mismatched
    /// block types and split UTF-8 characters are refused.
    pub fn select(&self, manifest: &MessageManifest, selection: &MessageSelection) -> (result: Result<
        Vec<ContentBlock>,
        CorrespondenceError,
    >)
        ensures
            match self@.selected(manifest@, selection@) {
                Ok(blocks) => result matches Ok(found) && block_models(found@) == blocks,
                Err(e) => result == Err::<Vec<ContentBlock>, CorrespondenceError>(e),
            },
    {
        let own = match self.manifest(manifest.message(), manifest.conversation()) {
            Ok(own) => own,
            Err(e) => return Err(e),
        };
        if !own.same(manifest) {
            return Err(CorrespondenceError::Invalid);
        }
        match selection.validate_target(manifest) {
            Ok(()) => {},
            Err(e) => return Err(e),
        }
        let refs = flatten(&self.parts);
        let elements = selection.elements();
        let ghost (document, wanted) = (self@, selection@);
        let mut found: Vec<ContentBlock> = Vec::new();
        let mut i: usize = 0;
        while i < elements.len()
            invariant
                document == self@,
                wanted == selection@,
                elements@ == wanted.elements,
                ref_models(refs@) == flattened(document.parts),
                0 <= i <= elements@.len(),
                found@.len() == i,
                document.manifest(manifest@.message, manifest@.conversation) == Ok::<
                    ManifestModel,
                    CorrespondenceError,
                >(manifest@),
                wanted.targets(manifest@.message, manifest@.version, manifest@.blocks),
                forall|j: int|
                    0 <= j < i ==> #[trigger] document.extracts(wanted, j) == Some(found@[j]@),
            decreases elements@.len() - i,
        {
            let element = elements[i];
            let at = element.block() as usize;
            let block = if at < refs.len() {
                assert(ref_models(refs@)[at as int] == refs@[at as int].model());
                extract(refs[at], element)
            } else {
                None
            };
            match block {
                Some(block) => found.push(block),
                None => {
                    assert(document.extracts(wanted, i as int) is None);
                    return Err(CorrespondenceError::Invalid);
                },
            }
            i += 1;
        }
        assert(block_models(found@) =~= document.selected(manifest@, wanted)->Ok_0);
        Ok(found)
    }

    /// Validates the selection and independently retains its text and image bytes.
    pub fn quote(&self, manifest: &MessageManifest, selection: MessageSelection) -> (result: Result<
        QuotedExcerpt,
        CorrespondenceError,
    >)
        ensures
            match self@.selected(manifest@, selection@) {
                Err(e) => result == Err::<QuotedExcerpt, CorrespondenceError>(e),
                Ok(blocks) => {
                    let excerpt = ExcerptModel { source: selection@, blocks };
                    if excerpt.valid() {
                        result matches Ok(quoted) && quoted@ == excerpt
                    } else {
                        result == Err::<QuotedExcerpt, CorrespondenceError>(
                            CorrespondenceError::Invalid,
                        )
                    }
                },
            },
    {
        let blocks = match self.select(manifest, &selection) {
            Ok(blocks) => blocks,
            Err(e) => return Err(e),
        };
        QuotedExcerpt::new(selection, blocks)
    }
}

impl Clone for Document {
    fn clone(&self) -> (copy: Self)
        ensures
            copy@ == self@,
    {
        proof {
            use_type_invariant(self);
        }
        let mut parts: Vec<DocumentPart> = Vec::new();
        let mut i: usize = 0;
        while i < self.parts.len()
            invariant
                0 <= i <= self.parts@.len(),
                parts@.len() == i,
                forall|j: int| 0 <= j < i ==> (#[trigger] parts@[j])@ == self.parts@[j]@,
            decreases self.parts@.len() - i,
        {
            parts.push(self.parts[i].clone());
            i += 1;
        }
        assert(part_models(parts@) =~= part_models(self.parts@));
        Document { version_secret: self.version_secret, parts }
    }
}

fn flatten<'a>(parts: &'a Vec<DocumentPart>) -> (refs: Vec<BlockRef<'a>>)
    ensures
        ref_models(refs@) == flattened(part_models(parts@)),
{
    let ghost models = part_models(parts@);
    let mut refs: Vec<BlockRef<'a>> = Vec::new();
    let mut i: usize = 0;
    assert(ref_models(refs@) =~= flattened(models.take(0)));
    while i < parts.len()
        invariant
            models == part_models(parts@),
            0 <= i <= parts@.len(),
            ref_models(refs@) == flattened(models.take(i as int)),
        decreases parts@.len() - i,
    {
        let ghost before = refs@;
        match &parts[i] {
            DocumentPart::Text(text) => {
                refs.push(BlockRef::Text(text.as_str()));
            },
            DocumentPart::Image(image) => {
                refs.push(BlockRef::Image(image));
            },
            DocumentPart::Reference(_) => {
                refs.push(BlockRef::Reference);
            },
            DocumentPart::Quotation(excerpt) => {
                append_blocks(&mut refs, excerpt.blocks());
            },
            DocumentPart::Share(share) => {
                append_blocks(&mut refs, share.0.blocks());
            },
        }
        proof {
            assert(models[i as int] == parts@[i as int]@);
            assert(models.take(i + 1).drop_last() =~= models.take(i as int));
            assert(models.take(i + 1).last() == models[i as int]);
            assert(ref_models(refs@) =~= ref_models(before) + models[i as int].blocks());
        }
        i += 1;
    }
    assert(models.take(i as int) =~= models);
    refs
}

fn append_blocks<'a>(refs: &mut Vec<BlockRef<'a>>, blocks: &'a [ContentBlock])
    ensures
        ref_models(final(refs)@) == ref_models(old(refs)@) + block_models(blocks@),
{
    let ghost before = refs@;
    let mut i: usize = 0;
    assert(ref_models(refs@) =~= ref_models(before) + block_models(blocks@).take(0));
    while i < blocks.len()
        invariant
            0 <= i <= blocks@.len(),
            before == old(refs)@,
            ref_models(refs@) == ref_models(before) + block_models(blocks@).take(i as int),
        decreases blocks@.len() - i,
    {
        let ghost now = refs@;
        match &blocks[i] {
            ContentBlock::Text(text) => refs.push(BlockRef::Text(text.as_str())),
            ContentBlock::Image(image) => refs.push(BlockRef::Image(image)),
        }
        proof {
            let all = block_models(blocks@);
            assert(all.take(i + 1) =~= all.take(i as int).push(all[i as int]));
            assert(ref_models(refs@) =~= ref_models(now).push(all[i as int]));
            assert(ref_models(refs@) =~= ref_models(before) + all.take(i + 1));
        }
        i += 1;
    }
    assert(block_models(blocks@).take(i as int) =~= block_models(blocks@));
}

/// The part of a text between two byte positions, if both are between characters.
fn text_between(text: &str, start: usize, end: usize) -> (part: Option<String>)
    ensures
        ({
            let bytes = utf8(text@);
            match part {
                Some(found) => start <= end <= bytes.len() && is_char_boundary(bytes, start as int)
                    && is_char_boundary(bytes, end as int) && found@ == decode_utf8(
                    bytes.subrange(start as int, end as int),
                ),
                None => !(start <= end <= bytes.len() && is_char_boundary(bytes, start as int)
                    && is_char_boundary(bytes, end as int)),
            }
        }),
{
    broadcast use vstd::utf8::encode_utf8_valid_utf8;

    let ghost bytes = utf8(text@);
    if start > end || end > text.as_bytes().len() {
        return None;
    }
    if !text.is_char_boundary(start) {
        return None;
    }
    let (_, rest) = text.split_at(start);
    proof {
        lemma_boundary_in_rest(bytes, start as int, end as int);
    }
    if !rest.is_char_boundary(end - start) {
        return None;
    }
    let (part, _) = rest.split_at(end - start);
    proof {
        assert(utf8(part@) =~= bytes.subrange(start as int, end as int));
        vstd::utf8::encode_utf8_decode_utf8(part@);
    }
    Some(part.to_owned())
}

proof fn lemma_boundary_in_rest(bytes: Seq<u8>, start: int, end: int)
    requires
        vstd::utf8::valid_utf8(bytes),
        0 <= start <= end <= bytes.len(),
        is_char_boundary(bytes, start),
    ensures
        is_char_boundary(bytes.subrange(start, bytes.len() as int), end - start)
            == is_char_boundary(bytes, end),
{
    let rest = bytes.subrange(start, bytes.len() as int);
    vstd::utf8::valid_utf8_split(bytes, start);
    if end == bytes.len() {
        vstd::utf8::is_char_boundary_start_end_of_seq(bytes);
        vstd::utf8::is_char_boundary_start_end_of_seq(rest);
    } else {
        vstd::utf8::is_char_boundary_iff_not_is_continuation_byte(bytes, end);
        vstd::utf8::is_char_boundary_iff_not_is_continuation_byte(rest, end - start);
        assert(rest[end - start] == bytes[end]);
    }
}

fn extract(block: BlockRef, element: SelectionElement) -> (part: Option<ContentBlock>)
    ensures
        match part {
            Some(found) => block.model().extract(element) == Some(found@),
            None => block.model().extract(element) is None,
        },
{
    match (element, block) {
        (SelectionElement::TextRange { start, end, .. }, BlockRef::Text(text)) => {
            match text_between(text, start as usize, end as usize) {
                Some(part) => Some(ContentBlock::Text(part)),
                None => None,
            }
        },
        (SelectionElement::ImageBlock { .. }, BlockRef::Image(image)) => Some(
            ContentBlock::Image(image.clone()),
        ),
        _ => None,
    }
}

/// A document is never taken for another message's: what a selection gives was selected under the
/// version that the manifest names.
pub proof fn selection_binds_the_version(
    document: DocumentModel,
    manifest: ManifestModel,
    selection: SelectionModel,
)
    requires
        document.selected(manifest, selection) is Ok,
    ensures
        selection.version == sha256_of(
            utf8("cs-mail/correspondence-document/v2"@) + document.json(),
        ),
        selection.message == manifest.message,
        document.selected(manifest, selection)->Ok_0.len() == selection.elements.len(),
{
}

proof fn lemma_flattened_joins(a: Seq<PartModel>, b: Seq<PartModel>)
    ensures
        flattened(a + b) == flattened(a) + flattened(b),
        drawn(a + b) == drawn(a) + drawn(b),
    decreases b.len(),
{
    if b.len() == 0 {
        assert(a + b =~= a);
        assert(flattened(a) + flattened(b) =~= flattened(a));
        assert(drawn(a) + drawn(b) =~= drawn(a));
    } else {
        lemma_flattened_joins(a, b.drop_last());
        assert((a + b).drop_last() =~= a + b.drop_last());
        assert((a + b).last() == b.last());
        assert(flattened(a) + flattened(b) =~= (flattened(a) + flattened(b.drop_last()))
            + b.last().blocks());
        assert(drawn(a + b) =~= drawn(a) + drawn(b));
    }
}

/// A document's blocks and sources are those of its parts, in their order: a text and an image are
/// one block each; a reference is one block and a source; and a quotation and a shared copy have the
/// blocks that they retain, and a source each.
pub proof fn documents_are_their_parts_in_order(a: Seq<PartModel>, b: Seq<PartModel>, part: PartModel)
    ensures
        flattened(a + b) == flattened(a) + flattened(b),
        drawn(a + b) == drawn(a) + drawn(b),
        match part {
            PartModel::Text(text) => flattened(seq![part]) == seq![BlockModel::Text(text)] && drawn(
                seq![part],
            ).len() == 0,
            PartModel::Image(image) => flattened(seq![part]) == seq![BlockModel::Image(image)]
                && drawn(seq![part]).len() == 0,
            PartModel::Reference(selection) => flattened(seq![part]) == seq![BlockModel::Reference]
                && drawn(seq![part]) == seq![SourceModel::Reference(selection)],
            PartModel::Quotation(excerpt) => flattened(seq![part]) == excerpt.blocks && drawn(
                seq![part],
            ) == seq![SourceModel::Quotation(excerpt.source)],
            PartModel::Share(excerpt) => flattened(seq![part]) == excerpt.blocks && drawn(
                seq![part],
            ) == seq![SourceModel::Sharing(excerpt.source)],
        },
{
    lemma_flattened_joins(a, b);
    assert(seq![part].drop_last() =~= Seq::empty());
    reveal_with_fuel(flattened, 2);
    reveal_with_fuel(drawn, 2);
    assert(flattened(seq![part]) =~= part.blocks());
    match part.source() {
        Some(source) => {
            assert(drawn(seq![part]) =~= seq![source]);
        },
        None => {},
    }
}

/// What a selection gives is what it selects: for a text range exactly the bytes between its ends of
/// the text in its block, and for an image block that image.
pub proof fn selections_give_what_they_select(
    document: DocumentModel,
    manifest: ManifestModel,
    selection: SelectionModel,
    i: int,
)
    requires
        document.selected(manifest, selection) is Ok,
        0 <= i < selection.elements.len(),
    ensures
        ({
            let given = document.selected(manifest, selection)->Ok_0;
            let blocks = flattened(document.parts);
            &&& given.len() == selection.elements.len()
            &&& match selection.elements[i] {
                SelectionElement::TextRange { block, start, end } => {
                    &&& (block as int) < blocks.len()
                    &&& blocks[block as int] is Text
                    &&& given[i] is Text
                    &&& start <= end && end <= utf8(blocks[block as int]->Text_0).len()
                    &&& utf8(given[i]->Text_0) == utf8(blocks[block as int]->Text_0).subrange(
                        start as int,
                        end as int,
                    )
                },
                SelectionElement::ImageBlock { block } => {
                    &&& (block as int) < blocks.len()
                    &&& blocks[block as int] is Image
                    &&& given[i] == blocks[block as int]
                },
            }
        }),
{
    broadcast use vstd::utf8::encode_utf8_valid_utf8;

    let blocks = flattened(document.parts);
    assert(document.extracts(selection, i) is Some);
    match selection.elements[i] {
        SelectionElement::TextRange { block, start, end } => {
            let bytes = utf8(blocks[block as int]->Text_0);
            let rest = bytes.subrange(start as int, bytes.len() as int);
            vstd::utf8::valid_utf8_split(bytes, start as int);
            lemma_boundary_in_rest(bytes, start as int, end as int);
            vstd::utf8::valid_utf8_split(rest, end - start);
            assert(rest.subrange(0, end - start) =~= bytes.subrange(start as int, end as int));
            vstd::utf8::decode_utf8_encode_utf8(bytes.subrange(start as int, end as int));
        },
        SelectionElement::ImageBlock { block } => {},
    }
}

/// A manifest tells of each block of a document whether it is a text, an image or a reference and how
/// many bytes it has, and of each source what it draws on; it names its message, which draws on
/// itself nowhere.
pub proof fn manifests_describe_their_document(
    document: DocumentModel,
    message: MessageId,
    conversation: ConversationId,
    i: int,
)
    requires
        document.manifest(message, conversation) is Ok,
    ensures
        ({
            let manifest = document.manifest(message, conversation)->Ok_0;
            let blocks = flattened(document.parts);
            &&& manifest.message == message && message.0 != 0
            &&& manifest.conversation == conversation
            &&& manifest.version == sha256_of(
                utf8("cs-mail/correspondence-document/v2"@) + document.json(),
            )
            &&& manifest.blocks.len() == blocks.len()
            &&& 0 <= i < blocks.len() ==> match blocks[i] {
                BlockModel::Text(text) => manifest.blocks[i] is Text && (utf8(text).len()
                    <= u32::MAX ==> manifest.blocks[i]->Text_bytes == utf8(text).len()),
                BlockModel::Image(image) => manifest.blocks[i] is Image && (image.bytes.len()
                    <= u32::MAX ==> manifest.blocks[i]->Image_bytes == image.bytes.len()),
                BlockModel::Reference => manifest.blocks[i] is Reference,
            }
            &&& manifest.sources == drawn(document.parts)
            &&& 0 <= i < manifest.sources.len() ==> match manifest.sources[i] {
                SourceModel::Reference(s) => s.message != message,
                SourceModel::Quotation(s) => s.message != message,
                SourceModel::Sharing(s) => s.message != message,
            }
        }),
{
    let manifest = document.manifest(message, conversation)->Ok_0;
    if 0 <= i < manifest.sources.len() {
        assert(manifest.sources[i].selection().message != message);
    }
}

/// An excerpt retains, for each element of its selection, a text as long as the range or an image.
pub proof fn excerpts_retain_what_was_selected(excerpt: ExcerptModel, i: int)
    requires
        excerpt.valid(),
        0 <= i < excerpt.source.elements.len(),
    ensures
        excerpt.blocks.len() == excerpt.source.elements.len(),
        match excerpt.source.elements[i] {
            SelectionElement::TextRange { start, end, .. } => excerpt.blocks[i] is Text && utf8(
                excerpt.blocks[i]->Text_0,
            ).len() == end - start,
            SelectionElement::ImageBlock { .. } => excerpt.blocks[i] is Image,
        },
{
    assert(retains(excerpt.source.elements[i], excerpt.blocks[i]));
}

} // verus!

//! Encoded documents and manifests determine what they hold: nothing in them can be changed without
//! changing the encoding, which a document's version is a digest of.

use super::document::{
    BlockModel, DocumentModel, ExcerptModel, ManifestModel, PartModel, SourceModel,
};
use super::image::{ImageFormat, ImageModel};
use super::selection::{SelectionElement, SelectionModel};
use super::shape::BlockDescriptor;
use crate::bytes::utf8;
use crate::json::json_array;
use crate::lines::{
    differ, lemma_all_like, lemma_byte_values, lemma_lines, lemma_listed, lemma_values_injective,
    line, written_list, Line,
};
use vstd::prelude::*;

verus! {

/// What tells one element from another.
proof fn lemma_element_heads()
    ensures
        utf8("{\"TextRange\":{\"block\":"@).len() > 2,
        utf8("{\"TextRange\":{\"block\":"@)[0] == 0x7b,
        utf8("{\"TextRange\":{\"block\":"@)[2] == 0x54,
        utf8("{\"ImageBlock\":{\"block\":"@).len() > 2,
        utf8("{\"ImageBlock\":{\"block\":"@)[0] == 0x7b,
        utf8("{\"ImageBlock\":{\"block\":"@)[2] == 0x49,
{
    reveal_strlit("{\"TextRange\":{\"block\":");
    reveal_strlit("{\"ImageBlock\":{\"block\":");
    vstd::utf8::is_ascii_chars_encode_utf8("{\"TextRange\":{\"block\":"@);
    vstd::utf8::is_ascii_chars_encode_utf8("{\"ImageBlock\":{\"block\":"@);
}

/// What tells one description of a block from another.
proof fn lemma_descriptor_heads()
    ensures
        utf8("{\"Text\":{\"bytes\":"@).len() > 2,
        utf8("{\"Text\":{\"bytes\":"@)[0] == 0x7b,
        utf8("{\"Text\":{\"bytes\":"@)[2] == 0x54,
        utf8("{\"Image\":{\"bytes\":"@).len() > 2,
        utf8("{\"Image\":{\"bytes\":"@)[0] == 0x7b,
        utf8("{\"Image\":{\"bytes\":"@)[2] == 0x49,
        utf8("\"Reference\""@).len() > 2,
        utf8("\"Reference\""@)[0] == 0x22,
        utf8("\"Reference\""@)[2] == 0x65,
{
    reveal_strlit("{\"Text\":{\"bytes\":");
    reveal_strlit("{\"Image\":{\"bytes\":");
    reveal_strlit("\"Reference\"");
    vstd::utf8::is_ascii_chars_encode_utf8("{\"Text\":{\"bytes\":"@);
    vstd::utf8::is_ascii_chars_encode_utf8("{\"Image\":{\"bytes\":"@);
    vstd::utf8::is_ascii_chars_encode_utf8("\"Reference\""@);
}

/// What tells one use of a source from another.
proof fn lemma_source_heads()
    ensures
        utf8("{\"Reference\":"@).len() > 2,
        utf8("{\"Reference\":"@)[0] == 0x7b,
        utf8("{\"Reference\":"@)[2] == 0x52,
        utf8("{\"Quotation\":"@).len() > 2,
        utf8("{\"Quotation\":"@)[0] == 0x7b,
        utf8("{\"Quotation\":"@)[2] == 0x51,
        utf8("{\"Sharing\":"@).len() > 2,
        utf8("{\"Sharing\":"@)[0] == 0x7b,
        utf8("{\"Sharing\":"@)[2] == 0x53,
{
    reveal_strlit("{\"Reference\":");
    reveal_strlit("{\"Quotation\":");
    reveal_strlit("{\"Sharing\":");
    vstd::utf8::is_ascii_chars_encode_utf8("{\"Reference\":"@);
    vstd::utf8::is_ascii_chars_encode_utf8("{\"Quotation\":"@);
    vstd::utf8::is_ascii_chars_encode_utf8("{\"Sharing\":"@);
}

/// What tells one format from another.
proof fn lemma_format_heads()
    ensures
        utf8("\"Png\""@).len() > 1,
        utf8("\"Png\""@)[1] == 0x50,
        utf8("\"Jpeg\""@).len() > 1,
        utf8("\"Jpeg\""@)[1] == 0x4a,
        utf8("\"WebP\""@).len() > 1,
        utf8("\"WebP\""@)[1] == 0x57,
{
    reveal_strlit("\"Png\"");
    reveal_strlit("\"Jpeg\"");
    reveal_strlit("\"WebP\"");
    vstd::utf8::is_ascii_chars_encode_utf8("\"Png\""@);
    vstd::utf8::is_ascii_chars_encode_utf8("\"Jpeg\""@);
    vstd::utf8::is_ascii_chars_encode_utf8("\"WebP\""@);
}

/// What tells one block from another.
proof fn lemma_block_heads()
    ensures
        utf8("{\"Text\":"@).len() > 2,
        utf8("{\"Text\":"@)[0] == 0x7b,
        utf8("{\"Text\":"@)[2] == 0x54,
        utf8("{\"Image\":"@).len() > 2,
        utf8("{\"Image\":"@)[0] == 0x7b,
        utf8("{\"Image\":"@)[2] == 0x49,
{
    reveal_strlit("{\"Text\":");
    reveal_strlit("{\"Image\":");
    vstd::utf8::is_ascii_chars_encode_utf8("{\"Text\":"@);
    vstd::utf8::is_ascii_chars_encode_utf8("{\"Image\":"@);
}

/// What tells one part from another.
proof fn lemma_part_heads()
    ensures
        utf8("{\"Text\":"@).len() > 2,
        utf8("{\"Text\":"@)[0] == 0x7b,
        utf8("{\"Text\":"@)[2] == 0x54,
        utf8("{\"Image\":"@).len() > 2,
        utf8("{\"Image\":"@)[0] == 0x7b,
        utf8("{\"Image\":"@)[2] == 0x49,
        utf8("{\"Reference\":"@).len() > 2,
        utf8("{\"Reference\":"@)[0] == 0x7b,
        utf8("{\"Reference\":"@)[2] == 0x52,
        utf8("{\"Quotation\":"@).len() > 2,
        utf8("{\"Quotation\":"@)[0] == 0x7b,
        utf8("{\"Quotation\":"@)[2] == 0x51,
        utf8("{\"Share\":"@).len() > 2,
        utf8("{\"Share\":"@)[0] == 0x7b,
        utf8("{\"Share\":"@)[2] == 0x53,
{
    reveal_strlit("{\"Text\":");
    reveal_strlit("{\"Image\":");
    reveal_strlit("{\"Reference\":");
    reveal_strlit("{\"Quotation\":");
    reveal_strlit("{\"Share\":");
    vstd::utf8::is_ascii_chars_encode_utf8("{\"Text\":"@);
    vstd::utf8::is_ascii_chars_encode_utf8("{\"Image\":"@);
    vstd::utf8::is_ascii_chars_encode_utf8("{\"Reference\":"@);
    vstd::utf8::is_ascii_chars_encode_utf8("{\"Quotation\":"@);
    vstd::utf8::is_ascii_chars_encode_utf8("{\"Share\":"@);
}

/// What ends a number.
proof fn lemma_ends()
    ensures
        utf8(",\"start\":"@).len() > 0 && utf8(",\"start\":"@)[0] == 0x2c,
        utf8(",\"end\":"@).len() > 0 && utf8(",\"end\":"@)[0] == 0x2c,
        utf8("}}"@).len() > 0 && utf8("}}"@)[0] == 0x7d,
        utf8(",\"version\":"@).len() > 0 && utf8(",\"version\":"@)[0] == 0x2c,
        utf8(",\"conversation\":"@).len() > 0 && utf8(",\"conversation\":"@)[0] == 0x2c,
{
    reveal_strlit(",\"start\":");
    reveal_strlit(",\"end\":");
    reveal_strlit("}}");
    reveal_strlit(",\"version\":");
    reveal_strlit(",\"conversation\":");
    vstd::utf8::is_ascii_chars_encode_utf8(",\"start\":"@);
    vstd::utf8::is_ascii_chars_encode_utf8(",\"end\":"@);
    vstd::utf8::is_ascii_chars_encode_utf8("}}"@);
    vstd::utf8::is_ascii_chars_encode_utf8(",\"version\":"@);
    vstd::utf8::is_ascii_chars_encode_utf8(",\"conversation\":"@);
}

spec fn element_line(value: SelectionElement) -> Line {
    match value {
        SelectionElement::TextRange { block, start, end } => line(
            "{\"TextRange\":{\"block\":"@,
        ).number(block as nat, ",\"start\":"@).number(start as nat, ",\"end\":"@).number(
            end as nat,
            "}}"@,
        ),
        SelectionElement::ImageBlock { block } => line("{\"ImageBlock\":{\"block\":"@).number(
            block as nat,
            "}}"@,
        ),
    }
}

proof fn lemma_elements(a: SelectionElement, b: SelectionElement)
    ensures
        element_line(a).written() == a.json(),
        element_line(a).like(element_line(b)) || differ(element_line(a).head(), element_line(b).head()),
        element_line(a).head().len() > 0 && element_line(a).head()[0] != 0x5d,
        element_line(a) == element_line(b) ==> a == b,
{
    lemma_ends();
    lemma_element_heads();
    reveal_with_fuel(Line::written, 5);
    reveal_with_fuel(Line::head, 5);
    reveal_with_fuel(Line::like, 5);
    let (x, y) = (element_line(a).head(), element_line(b).head());
    assert(x[2] == y[2] || differ(x, y));
}

spec fn element_lines(values: Seq<SelectionElement>) -> Seq<Line> {
    Seq::new(values.len(), |i: int| element_line(values[i]))
}

proof fn lemma_element_lines(xs: Seq<SelectionElement>, ys: Seq<SelectionElement>, parts: Seq<Seq<u8>>, before: Line, other: Line)
    requires
        parts == Seq::new(xs.len(), |i: int| xs[i].json()),
        before.like(other),
    ensures
        json_array(parts) == utf8("["@) + written_list(element_lines(xs), 0) + utf8("]"@),
        before.listed(element_lines(xs)).like(other.listed(element_lines(ys))),
        element_lines(xs) == element_lines(ys) ==> xs == ys,
{
    let (a, b) = (element_lines(xs), element_lines(ys));
    assert forall|i: int| 0 <= i < xs.len() implies #[trigger] parts[i] == a[i].written() by {
        lemma_elements(xs[i], xs[i]);
    }
    lemma_listed(a, parts);
    let n: nat = if a.len() < b.len() {
        a.len()
    } else {
        b.len()
    };
    assert forall|i: int| 0 <= i < n implies (#[trigger] a[i]).like(b[i]) || differ(
        a[i].head(),
        b[i].head(),
    ) by {
        lemma_elements(xs[i], ys[i]);
    }
    lemma_all_like(a, b, n);
    if xs.len() > 0 {
        lemma_elements(xs[0], xs[0]);
    }
    if ys.len() > 0 {
        lemma_elements(ys[0], ys[0]);
    }
    reveal_with_fuel(Line::like, 2);
    if a == b {
        assert(xs.len() == a.len() && ys.len() == b.len());
        assert forall|i: int| 0 <= i < xs.len() implies xs[i] == ys[i] by {
            assert(a[i] == b[i]);
            lemma_elements(xs[i], ys[i]);
        }
        assert(xs =~= ys);
    }
}

spec fn selection_start(value: SelectionModel) -> Line {
    line("{\"message\":"@).number(value.message.0 as nat, ",\"version\":"@).bytes(
        value.version,
    ).text(",\"elements\":"@)
}

/// A selection, piece by piece.
pub closed spec fn selection_line(value: SelectionModel) -> Line {
    selection_start(value).listed(element_lines(value.elements)).text("}"@)
}

/// Selections are written piece by piece, and are equal where their pieces are the same.
pub proof fn lemma_selections(a: SelectionModel, b: SelectionModel)
    ensures
        selection_line(a).written() == a.json(),
        selection_line(a).like(selection_line(b)),
        selection_line(a) == selection_line(b) ==> a == b,
{
    lemma_ends();
    let (x, y) = (selection_start(a), selection_start(b));
    assert(x.like(y)) by {
        reveal_with_fuel(Line::like, 5);
    }
    lemma_element_lines(a.elements, b.elements, a.elements_json(), x, y);
    lemma_byte_values(a.version);
    reveal_with_fuel(Line::written, 8);
    reveal_with_fuel(Line::like, 2);
    if selection_line(a) == selection_line(b) {
        lemma_values_injective(a.version, b.version);
    }
}

spec fn descriptor_line(value: BlockDescriptor) -> Line {
    match value {
        BlockDescriptor::Text { bytes } => line("{\"Text\":{\"bytes\":"@).number(
            bytes as nat,
            "}}"@,
        ),
        BlockDescriptor::Image { bytes } => line("{\"Image\":{\"bytes\":"@).number(
            bytes as nat,
            "}}"@,
        ),
        BlockDescriptor::Reference => line("\"Reference\""@),
    }
}

proof fn lemma_descriptors(a: BlockDescriptor, b: BlockDescriptor)
    ensures
        descriptor_line(a).written() == a.json(),
        descriptor_line(a).like(descriptor_line(b)) || differ(descriptor_line(a).head(), descriptor_line(b).head()),
        descriptor_line(a).head().len() > 0 && descriptor_line(a).head()[0] != 0x5d,
        descriptor_line(a) == descriptor_line(b) ==> a == b,
{
    lemma_ends();
    lemma_descriptor_heads();
    reveal_with_fuel(Line::written, 3);
    reveal_with_fuel(Line::head, 3);
    reveal_with_fuel(Line::like, 3);
    let (x, y) = (descriptor_line(a).head(), descriptor_line(b).head());
    assert(x[0] == y[0] || differ(x, y));
    assert(x[2] == y[2] || differ(x, y));
}

spec fn descriptor_lines(values: Seq<BlockDescriptor>) -> Seq<Line> {
    Seq::new(values.len(), |i: int| descriptor_line(values[i]))
}

proof fn lemma_descriptor_lines(xs: Seq<BlockDescriptor>, ys: Seq<BlockDescriptor>, parts: Seq<Seq<u8>>, before: Line, other: Line)
    requires
        parts == Seq::new(xs.len(), |i: int| xs[i].json()),
        before.like(other),
    ensures
        json_array(parts) == utf8("["@) + written_list(descriptor_lines(xs), 0) + utf8("]"@),
        before.listed(descriptor_lines(xs)).like(other.listed(descriptor_lines(ys))),
        descriptor_lines(xs) == descriptor_lines(ys) ==> xs == ys,
{
    let (a, b) = (descriptor_lines(xs), descriptor_lines(ys));
    assert forall|i: int| 0 <= i < xs.len() implies #[trigger] parts[i] == a[i].written() by {
        lemma_descriptors(xs[i], xs[i]);
    }
    lemma_listed(a, parts);
    let n: nat = if a.len() < b.len() {
        a.len()
    } else {
        b.len()
    };
    assert forall|i: int| 0 <= i < n implies (#[trigger] a[i]).like(b[i]) || differ(
        a[i].head(),
        b[i].head(),
    ) by {
        lemma_descriptors(xs[i], ys[i]);
    }
    lemma_all_like(a, b, n);
    if xs.len() > 0 {
        lemma_descriptors(xs[0], xs[0]);
    }
    if ys.len() > 0 {
        lemma_descriptors(ys[0], ys[0]);
    }
    reveal_with_fuel(Line::like, 2);
    if a == b {
        assert(xs.len() == a.len() && ys.len() == b.len());
        assert forall|i: int| 0 <= i < xs.len() implies xs[i] == ys[i] by {
            assert(a[i] == b[i]);
            lemma_descriptors(xs[i], ys[i]);
        }
        assert(xs =~= ys);
    }
}

spec fn source_line(value: SourceModel) -> Line {
    match value {
        SourceModel::Reference(selection) => line("{\"Reference\":"@).within(
            selection_line(selection),
        ).text("}"@),
        SourceModel::Quotation(selection) => line("{\"Quotation\":"@).within(
            selection_line(selection),
        ).text("}"@),
        SourceModel::Sharing(selection) => line("{\"Sharing\":"@).within(
            selection_line(selection),
        ).text("}"@),
    }
}

proof fn lemma_sources(a: SourceModel, b: SourceModel)
    ensures
        source_line(a).written() == a.json(),
        source_line(a).like(source_line(b)) || differ(source_line(a).head(), source_line(b).head()),
        source_line(a).head().len() > 0 && source_line(a).head()[0] != 0x5d,
        source_line(a) == source_line(b) ==> a == b,
{
    lemma_selections(a.selection(), b.selection());
    lemma_source_heads();
    reveal_with_fuel(Line::written, 4);
    reveal_with_fuel(Line::head, 4);
    reveal_with_fuel(Line::like, 4);
    let (x, y) = (source_line(a).head(), source_line(b).head());
    assert(x[2] == y[2] || differ(x, y));
}

spec fn source_lines(values: Seq<SourceModel>) -> Seq<Line> {
    Seq::new(values.len(), |i: int| source_line(values[i]))
}

proof fn lemma_source_lines(xs: Seq<SourceModel>, ys: Seq<SourceModel>, parts: Seq<Seq<u8>>, before: Line, other: Line)
    requires
        parts == Seq::new(xs.len(), |i: int| xs[i].json()),
        before.like(other),
    ensures
        json_array(parts) == utf8("["@) + written_list(source_lines(xs), 0) + utf8("]"@),
        before.listed(source_lines(xs)).like(other.listed(source_lines(ys))),
        source_lines(xs) == source_lines(ys) ==> xs == ys,
{
    let (a, b) = (source_lines(xs), source_lines(ys));
    assert forall|i: int| 0 <= i < xs.len() implies #[trigger] parts[i] == a[i].written() by {
        lemma_sources(xs[i], xs[i]);
    }
    lemma_listed(a, parts);
    let n: nat = if a.len() < b.len() {
        a.len()
    } else {
        b.len()
    };
    assert forall|i: int| 0 <= i < n implies (#[trigger] a[i]).like(b[i]) || differ(
        a[i].head(),
        b[i].head(),
    ) by {
        lemma_sources(xs[i], ys[i]);
    }
    lemma_all_like(a, b, n);
    if xs.len() > 0 {
        lemma_sources(xs[0], xs[0]);
    }
    if ys.len() > 0 {
        lemma_sources(ys[0], ys[0]);
    }
    reveal_with_fuel(Line::like, 2);
    if a == b {
        assert(xs.len() == a.len() && ys.len() == b.len());
        assert forall|i: int| 0 <= i < xs.len() implies xs[i] == ys[i] by {
            assert(a[i] == b[i]);
            lemma_sources(xs[i], ys[i]);
        }
        assert(xs =~= ys);
    }
}

spec fn manifest_start(value: ManifestModel) -> Line {
    line("{\"message\":"@).number(value.message.0 as nat, ",\"conversation\":"@).number(
        value.conversation.0 as nat,
        ",\"version\":"@,
    ).bytes(value.version).text(",\"blocks\":"@)
}

/// A manifest, piece by piece.
pub closed spec fn manifest_line(value: ManifestModel) -> Line {
    manifest_start(value).listed(descriptor_lines(value.blocks)).text(",\"sources\":"@).listed(
        source_lines(value.sources),
    ).text("}"@)
}

/// Manifests are written piece by piece, and are equal where their pieces are the same.
pub proof fn lemma_manifests(a: ManifestModel, b: ManifestModel)
    ensures
        manifest_line(a).written() == a.json(),
        manifest_line(a).like(manifest_line(b)),
        manifest_line(a) == manifest_line(b) ==> a == b,
{
    lemma_ends();
    reveal(ManifestModel::json);
    let (x, y) = (manifest_start(a), manifest_start(b));
    assert(x.like(y)) by {
        reveal_with_fuel(Line::like, 6);
    }
    lemma_descriptor_lines(a.blocks, b.blocks, a.blocks_json(), x, y);
    let (u, v) = (
        x.listed(descriptor_lines(a.blocks)).text(",\"sources\":"@),
        y.listed(descriptor_lines(b.blocks)).text(",\"sources\":"@),
    );
    assert(u.like(v)) by {
        reveal_with_fuel(Line::like, 2);
    }
    lemma_source_lines(a.sources, b.sources, a.sources_json(), u, v);
    lemma_byte_values(a.version);
    assert(manifest_line(a).written() == a.json()) by {
        reveal_with_fuel(Line::written, 10);
    }
    assert(manifest_line(a).like(manifest_line(b))) by {
        reveal_with_fuel(Line::like, 2);
    }
    if manifest_line(a) == manifest_line(b) {
        lemma_values_injective(a.version, b.version);
    }
}

/// A manifest's encoding determines the manifest.
pub proof fn manifests_are_bound(a: ManifestModel, b: ManifestModel)
    requires
        a.json() == b.json(),
    ensures
        a == b,
{
    lemma_manifests(a, b);
    lemma_manifests(b, a);
    lemma_lines(manifest_line(a), Seq::empty(), manifest_line(b), Seq::empty());
}

spec fn format_line(value: ImageFormat) -> Line {
    match value {
        ImageFormat::Png => line("\"Png\""@),
        ImageFormat::Jpeg => line("\"Jpeg\""@),
        ImageFormat::WebP => line("\"WebP\""@),
    }
}

proof fn lemma_formats(a: ImageFormat, b: ImageFormat)
    ensures
        format_line(a).written() == a.json(),
        format_line(a).like(format_line(b)) || differ(format_line(a).head(), format_line(b).head()),
        format_line(a) == format_line(b) ==> a == b,
{
    lemma_format_heads();
    reveal_with_fuel(Line::written, 2);
    reveal_with_fuel(Line::head, 2);
    reveal_with_fuel(Line::like, 2);
    let (x, y) = (format_line(a).head(), format_line(b).head());
    assert(x[1] == y[1] || differ(x, y));
}

spec fn image_line(value: ImageModel) -> Line {
    line("{\"format\":"@).within(format_line(value.format)).text(",\"bytes\":"@).bytes(
        value.bytes,
    ).text("}"@)
}

proof fn lemma_images(a: ImageModel, b: ImageModel)
    ensures
        image_line(a).written() == a.json(),
        image_line(a).like(image_line(b)),
        image_line(a) == image_line(b) ==> a == b,
{
    lemma_formats(a.format, b.format);
    lemma_byte_values(a.bytes);
    if image_line(a) == image_line(b) {
        lemma_values_injective(a.bytes, b.bytes);
    }
    reveal_with_fuel(Line::written, 6);
    reveal_with_fuel(Line::like, 6);
}

spec fn block_line(value: BlockModel) -> Line {
    match value {
        BlockModel::Text(text) => line("{\"Text\":"@).quoted(text).text("}"@),
        BlockModel::Image(image) => line("{\"Image\":"@).within(image_line(image)).text("}"@),
        BlockModel::Reference => Line::Start(Seq::empty()),
    }
}

proof fn lemma_blocks(a: BlockModel, b: BlockModel)
    requires
        !(a is Reference),
        !(b is Reference),
    ensures
        block_line(a).written() == a.json(),
        block_line(a).like(block_line(b)) || differ(block_line(a).head(), block_line(b).head()),
        block_line(a).head().len() > 0 && block_line(a).head()[0] != 0x5d,
        block_line(a) == block_line(b) ==> a == b,
{
    if let BlockModel::Image(i) = a {
        lemma_images(i, i);
        if let BlockModel::Image(j) = b {
            lemma_images(i, j);
        }
    }
    lemma_block_heads();
    reveal_with_fuel(Line::written, 4);
    reveal_with_fuel(Line::head, 4);
    reveal_with_fuel(Line::like, 4);
    let (x, y) = (block_line(a).head(), block_line(b).head());
    assert(x[2] == y[2] || differ(x, y));
}

spec fn block_lines(values: Seq<BlockModel>) -> Seq<Line> {
    Seq::new(values.len(), |i: int| block_line(values[i]))
}

proof fn lemma_block_lines(xs: Seq<BlockModel>, ys: Seq<BlockModel>, parts: Seq<Seq<u8>>, before: Line, other: Line)
    requires
        parts == Seq::new(xs.len(), |i: int| xs[i].json()),
        before.like(other),
        forall|i: int| 0 <= i < xs.len() ==> !((#[trigger] xs[i]) is Reference),
        forall|i: int| 0 <= i < ys.len() ==> !((#[trigger] ys[i]) is Reference),
    ensures
        json_array(parts) == utf8("["@) + written_list(block_lines(xs), 0) + utf8("]"@),
        before.listed(block_lines(xs)).like(other.listed(block_lines(ys))),
        block_lines(xs) == block_lines(ys) ==> xs == ys,
{
    let (a, b) = (block_lines(xs), block_lines(ys));
    assert forall|i: int| 0 <= i < xs.len() implies #[trigger] parts[i] == a[i].written() by {
        lemma_blocks(xs[i], xs[i]);
    }
    lemma_listed(a, parts);
    let n: nat = if a.len() < b.len() {
        a.len()
    } else {
        b.len()
    };
    assert forall|i: int| 0 <= i < n implies (#[trigger] a[i]).like(b[i]) || differ(
        a[i].head(),
        b[i].head(),
    ) by {
        lemma_blocks(xs[i], ys[i]);
    }
    lemma_all_like(a, b, n);
    if xs.len() > 0 {
        lemma_blocks(xs[0], xs[0]);
    }
    if ys.len() > 0 {
        lemma_blocks(ys[0], ys[0]);
    }
    reveal_with_fuel(Line::like, 2);
    if a == b {
        assert(xs.len() == a.len() && ys.len() == b.len());
        assert forall|i: int| 0 <= i < xs.len() implies xs[i] == ys[i] by {
            assert(a[i] == b[i]);
            lemma_blocks(xs[i], ys[i]);
        }
        assert(xs =~= ys);
    }
}

spec fn excerpt_start(value: ExcerptModel) -> Line {
    line("{\"source\":"@).within(selection_line(value.source)).text(",\"blocks\":"@)
}

spec fn excerpt_line(value: ExcerptModel) -> Line {
    excerpt_start(value).listed(block_lines(value.blocks)).text("}"@)
}

proof fn lemma_excerpts(a: ExcerptModel, b: ExcerptModel)
    requires
        a.valid(),
        b.valid(),
    ensures
        excerpt_line(a).written() == a.json(),
        excerpt_line(a).like(excerpt_line(b)),
        excerpt_line(a) == excerpt_line(b) ==> a == b,
{
    lemma_selections(a.source, b.source);
    let (x, y) = (excerpt_start(a), excerpt_start(b));
    assert(x.like(y)) by {
        reveal_with_fuel(Line::like, 4);
    }
    lemma_block_lines(a.blocks, b.blocks, a.blocks_json(), x, y);
    reveal_with_fuel(Line::written, 6);
    reveal_with_fuel(Line::like, 2);
}

spec fn part_line(value: PartModel) -> Line {
    match value {
        PartModel::Text(text) => line("{\"Text\":"@).quoted(text).text("}"@),
        PartModel::Image(image) => line("{\"Image\":"@).within(image_line(image)).text("}"@),
        PartModel::Reference(selection) => line("{\"Reference\":"@).within(
            selection_line(selection),
        ).text("}"@),
        PartModel::Quotation(excerpt) => line("{\"Quotation\":"@).within(
            excerpt_line(excerpt),
        ).text("}"@),
        PartModel::Share(excerpt) => line("{\"Share\":"@).within(excerpt_line(excerpt)).text("}"@),
    }
}

impl PartModel {
    /// What a part quotes or shares is an excerpt.
    pub open spec fn well_quoted(self) -> bool {
        match self {
            PartModel::Quotation(excerpt) => excerpt.valid(),
            PartModel::Share(excerpt) => excerpt.valid(),
            _ => true,
        }
    }
}

proof fn lemma_parts(a: PartModel, b: PartModel)
    requires
        a.well_quoted(),
        b.well_quoted(),
    ensures
        part_line(a).written() == a.json(),
        part_line(a).like(part_line(b)) || differ(part_line(a).head(), part_line(b).head()),
        part_line(a).head().len() > 0 && part_line(a).head()[0] != 0x5d,
        part_line(a) == part_line(b) ==> a == b,
{
    match (a, b) {
        (PartModel::Image(i), PartModel::Image(j)) => lemma_images(i, j),
        (PartModel::Reference(i), PartModel::Reference(j)) => lemma_selections(i, j),
        (PartModel::Quotation(i), PartModel::Quotation(j)) => lemma_excerpts(i, j),
        (PartModel::Share(i), PartModel::Share(j)) => lemma_excerpts(i, j),
        (PartModel::Image(i), _) => lemma_images(i, i),
        (PartModel::Reference(i), _) => lemma_selections(i, i),
        (PartModel::Quotation(i), _) => lemma_excerpts(i, i),
        (PartModel::Share(i), _) => lemma_excerpts(i, i),
        _ => {},
    }
    lemma_part_heads();
    reveal_with_fuel(Line::written, 4);
    reveal_with_fuel(Line::head, 4);
    reveal_with_fuel(Line::like, 4);
    let (x, y) = (part_line(a).head(), part_line(b).head());
    assert(x[2] == y[2] || differ(x, y));
}

spec fn part_lines(values: Seq<PartModel>) -> Seq<Line> {
    Seq::new(values.len(), |i: int| part_line(values[i]))
}

proof fn lemma_part_lines(xs: Seq<PartModel>, ys: Seq<PartModel>, parts: Seq<Seq<u8>>, before: Line, other: Line)
    requires
        parts == Seq::new(xs.len(), |i: int| xs[i].json()),
        before.like(other),
        forall|i: int| 0 <= i < xs.len() ==> (#[trigger] xs[i]).well_quoted(),
        forall|i: int| 0 <= i < ys.len() ==> (#[trigger] ys[i]).well_quoted(),
    ensures
        json_array(parts) == utf8("["@) + written_list(part_lines(xs), 0) + utf8("]"@),
        before.listed(part_lines(xs)).like(other.listed(part_lines(ys))),
        part_lines(xs) == part_lines(ys) ==> xs == ys,
{
    let (a, b) = (part_lines(xs), part_lines(ys));
    assert forall|i: int| 0 <= i < xs.len() implies #[trigger] parts[i] == a[i].written() by {
        lemma_parts(xs[i], xs[i]);
    }
    lemma_listed(a, parts);
    let n: nat = if a.len() < b.len() {
        a.len()
    } else {
        b.len()
    };
    assert forall|i: int| 0 <= i < n implies (#[trigger] a[i]).like(b[i]) || differ(
        a[i].head(),
        b[i].head(),
    ) by {
        lemma_parts(xs[i], ys[i]);
    }
    lemma_all_like(a, b, n);
    if xs.len() > 0 {
        lemma_parts(xs[0], xs[0]);
    }
    if ys.len() > 0 {
        lemma_parts(ys[0], ys[0]);
    }
    reveal_with_fuel(Line::like, 2);
    if a == b {
        assert(xs.len() == a.len() && ys.len() == b.len());
        assert forall|i: int| 0 <= i < xs.len() implies xs[i] == ys[i] by {
            assert(a[i] == b[i]);
            lemma_parts(xs[i], ys[i]);
        }
        assert(xs =~= ys);
    }
}

spec fn document_start(value: DocumentModel) -> Line {
    line("{\"version_secret\":"@).bytes(value.version_secret).text(",\"parts\":"@)
}

spec fn document_line(value: DocumentModel) -> Line {
    document_start(value).listed(part_lines(value.parts)).text("}"@)
}

proof fn lemma_documents(a: DocumentModel, b: DocumentModel)
    requires
        forall|i: int| 0 <= i < a.parts.len() ==> (#[trigger] a.parts[i]).well_quoted(),
        forall|i: int| 0 <= i < b.parts.len() ==> (#[trigger] b.parts[i]).well_quoted(),
    ensures
        document_line(a).written() == a.json(),
        document_line(a).like(document_line(b)),
        document_line(a) == document_line(b) ==> a == b,
{
    let (x, y) = (document_start(a), document_start(b));
    assert(x.like(y)) by {
        reveal_with_fuel(Line::like, 4);
    }
    lemma_part_lines(a.parts, b.parts, a.parts_json(), x, y);
    lemma_byte_values(a.version_secret);
    reveal_with_fuel(Line::written, 6);
    reveal_with_fuel(Line::like, 2);
    if document_line(a) == document_line(b) {
        lemma_values_injective(a.version_secret, b.version_secret);
    }
}

/// A document's encoding determines the document: its secret and every part, with what it quotes
/// and shares.
pub proof fn documents_are_bound(a: DocumentModel, b: DocumentModel)
    requires
        forall|i: int| 0 <= i < a.parts.len() ==> (#[trigger] a.parts[i]).well_quoted(),
        forall|i: int| 0 <= i < b.parts.len() ==> (#[trigger] b.parts[i]).well_quoted(),
        a.json() == b.json(),
    ensures
        a == b,
{
    lemma_documents(a, b);
    lemma_documents(b, a);
    lemma_lines(document_line(a), Seq::empty(), document_line(b), Seq::empty());
}

} // verus!

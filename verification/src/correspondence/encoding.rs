//! Manifests and policy actions as signed requests write them out.

use super::document::{
    selection_json, source_models, ManifestModel, MessageManifest, SourceModel, SourceUse,
};
use super::policy::PolicyAction;
use super::shape::BlockDescriptor;
use crate::bytes::{push_all, push_text, text_bytes, utf8};
use crate::json::{
    json_array, json_bytes, json_joined, json_number, push_byte_array, push_item, push_number,
};
use vstd::prelude::*;

verus! {

impl PolicyAction {
    pub open spec fn json(self) -> Seq<u8> {
        match self {
            PolicyAction::Restrict => utf8("\"Restrict\""@),
            PolicyAction::ProposeRelaxation => utf8("\"ProposeRelaxation\""@),
            PolicyAction::ApproveRelaxation => utf8("\"ApproveRelaxation\""@),
        }
    }
}

/// Appends a policy action as JSON.
pub fn push_action(out: &mut Vec<u8>, action: PolicyAction)
    ensures
        final(out)@ == old(out)@ + action.json(),
{
    match action {
        PolicyAction::Restrict => push_text(out, "\"Restrict\""),
        PolicyAction::ProposeRelaxation => push_text(out, "\"ProposeRelaxation\""),
        PolicyAction::ApproveRelaxation => push_text(out, "\"ApproveRelaxation\""),
    }
}

impl BlockDescriptor {
    pub open spec fn json(self) -> Seq<u8> {
        match self {
            BlockDescriptor::Text { bytes } => utf8("{\"Text\":{\"bytes\":"@) + json_number(
                bytes as nat,
            ) + utf8("}}"@),
            BlockDescriptor::Image { bytes } => utf8("{\"Image\":{\"bytes\":"@) + json_number(
                bytes as nat,
            ) + utf8("}}"@),
            BlockDescriptor::Reference => utf8("\"Reference\""@),
        }
    }
}

fn descriptor_json(block: BlockDescriptor) -> (json: Vec<u8>)
    ensures
        json@ == block.json(),
{
    match block {
        BlockDescriptor::Text { bytes } => {
            let mut out = text_bytes("{\"Text\":{\"bytes\":");
            push_number(&mut out, bytes as u128);
            push_text(&mut out, "}}");
            out
        },
        BlockDescriptor::Image { bytes } => {
            let mut out = text_bytes("{\"Image\":{\"bytes\":");
            push_number(&mut out, bytes as u128);
            push_text(&mut out, "}}");
            out
        },
        BlockDescriptor::Reference => text_bytes("\"Reference\""),
    }
}

impl SourceModel {
    pub open spec fn json(self) -> Seq<u8> {
        match self {
            SourceModel::Reference(selection) => utf8("{\"Reference\":"@) + selection.json() + utf8(
                "}"@,
            ),
            SourceModel::Quotation(selection) => utf8("{\"Quotation\":"@) + selection.json() + utf8(
                "}"@,
            ),
            SourceModel::Sharing(selection) => utf8("{\"Sharing\":"@) + selection.json() + utf8(
                "}"@,
            ),
        }
    }
}

fn source_json(source: &SourceUse) -> (json: Vec<u8>)
    ensures
        json@ == source@.json(),
{
    let (mut out, selection) = match source {
        SourceUse::Reference(selection) => (text_bytes("{\"Reference\":"), selection),
        SourceUse::Quotation(selection) => (text_bytes("{\"Quotation\":"), selection),
        SourceUse::Sharing(selection) => (text_bytes("{\"Sharing\":"), selection),
    };
    push_all(&mut out, selection_json(selection).as_slice());
    push_text(&mut out, "}");
    out
}

impl ManifestModel {
    pub open spec fn blocks_json(self) -> Seq<Seq<u8>> {
        Seq::new(self.blocks.len(), |i: int| self.blocks[i].json())
    }

    pub open spec fn sources_json(self) -> Seq<Seq<u8>> {
        Seq::new(self.sources.len(), |i: int| self.sources[i].json())
    }

    /// The manifest as a JSON object.
    #[verifier::opaque]
    pub open spec fn json(self) -> Seq<u8> {
        utf8("{\"message\":"@) + json_number(self.message.0 as nat) + utf8(",\"conversation\":"@)
            + json_number(self.conversation.0 as nat) + utf8(",\"version\":"@) + json_bytes(
            self.version,
        ) + utf8(",\"blocks\":"@) + json_array(self.blocks_json()) + utf8(",\"sources\":"@)
            + json_array(self.sources_json()) + utf8("}"@)
    }
}

fn blocks_array(manifest: &MessageManifest) -> (bytes: Vec<u8>)
    ensures
        bytes@ == json_array(manifest@.blocks_json()),
{
    let blocks = manifest.blocks();
    let ghost items = manifest@.blocks_json();
    let mut out = text_bytes("[");
    let ghost opened = out@;
    let mut i: usize = 0;
    assert(out@ =~= opened + json_joined(items.take(0)));
    while i < blocks.len()
        invariant
            blocks@ == manifest@.blocks,
            items == manifest@.blocks_json(),
            0 <= i <= blocks@.len(),
            out@ == opened + json_joined(items.take(i as int)),
        decreases blocks@.len() - i,
    {
        let item = descriptor_json(blocks[i]);
        assert(items.take(i + 1) =~= items.take(i as int).push(item@));
        push_item(&mut out, i, item.as_slice(), Ghost(items.take(i as int)), Ghost(opened));
        i += 1;
    }
    assert(items.take(i as int) =~= items);
    push_text(&mut out, "]");
    out
}

fn sources_array(manifest: &MessageManifest) -> (bytes: Vec<u8>)
    ensures
        bytes@ == json_array(manifest@.sources_json()),
{
    let sources = manifest.sources();
    let ghost items = manifest@.sources_json();
    let mut out = text_bytes("[");
    let ghost opened = out@;
    let mut i: usize = 0;
    assert(out@ =~= opened + json_joined(items.take(0)));
    while i < sources.len()
        invariant
            source_models(sources@) == manifest@.sources,
            items == manifest@.sources_json(),
            0 <= i <= sources@.len(),
            out@ == opened + json_joined(items.take(i as int)),
        decreases sources@.len() - i,
    {
        let item = source_json(&sources[i]);
        assert(item@ == source_models(sources@)[i as int].json());
        assert(items.take(i + 1) =~= items.take(i as int).push(item@));
        push_item(&mut out, i, item.as_slice(), Ghost(items.take(i as int)), Ghost(opened));
        i += 1;
    }
    assert(sources@.len() == source_models(sources@).len());
    assert(items.take(i as int) =~= items);
    push_text(&mut out, "]");
    out
}

/// A manifest as JSON.
pub fn manifest_json(manifest: &MessageManifest) -> (bytes: Vec<u8>)
    ensures
        bytes@ == manifest@.json(),
{
    reveal(ManifestModel::json);
    let mut out = text_bytes("{\"message\":");
    push_number(&mut out, manifest.message().0);
    push_text(&mut out, ",\"conversation\":");
    push_number(&mut out, manifest.conversation().0);
    push_text(&mut out, ",\"version\":");
    push_byte_array(&mut out, manifest.version().0.as_slice());
    push_text(&mut out, ",\"blocks\":");
    push_all(&mut out, blocks_array(manifest).as_slice());
    push_text(&mut out, ",\"sources\":");
    push_all(&mut out, sources_array(manifest).as_slice());
    push_text(&mut out, "}");
    out
}

} // verus!

use cs_mail::correspondence::document::{
    ContentBlock, Document, DocumentPart, MessageManifest, QuotedExcerpt, SourceReference,
    SourceUse,
};
use cs_mail::correspondence::encoding::manifest_json;
use cs_mail::correspondence::image::{ImageContent, ImageFormat};
use cs_mail::correspondence::policy::{
    Conversation, ConversationId, CorrespondenceError, CorrespondenceRef, PolicyAction, ReusePolicy,
};
use cs_mail::correspondence::selection::{MessageSelection, SelectionElement};
use cs_mail::correspondence::shape::{BlockDescriptor, MessageVersion};
use cs_mail::primitives::ids::{MessageId, ProtocolIdentity};

/// A grey pixel.
const PIXEL: [u8; 67] = [
    137, 80, 78, 71, 13, 10, 26, 10, 0, 0, 0, 13, 73, 72, 68, 82, 0, 0, 0, 1, 0, 0, 0, 1, 8, 0, 0,
    0, 0, 58, 126, 155, 85, 0, 0, 0, 10, 73, 68, 65, 84, 120, 156, 99, 96, 0, 0, 0, 2, 0, 1, 72,
    175, 164, 113, 0, 0, 0, 0, 73, 69, 78, 68, 174, 66, 96, 130,
];

fn image() -> ImageContent {
    ImageContent::new(ImageFormat::Png, PIXEL.to_vec()).unwrap()
}
fn document() -> (Document, MessageManifest) {
    let d = Document::new(
        vec![
            DocumentPart::Text("before café".into()),
            DocumentPart::Image(image()),
            DocumentPart::Text("after https://example.test".into()),
        ],
        [7; 32],
    )
    .unwrap();
    let m = d
        .manifest(MessageId(1), ConversationId::new(1).unwrap())
        .unwrap();
    (d, m)
}
fn selection(manifest: &MessageManifest, elements: Vec<SelectionElement>) -> MessageSelection {
    MessageSelection::new(manifest.message(), manifest.version(), elements).unwrap()
}

// Claim: hostile restored selections cannot reorder/duplicate content, switch a
// text range to an image, or split a Unicode character during endpoint extraction.
// Any accepted malformed selection would misrepresent what the user selected.
#[test]
fn hostile_selection_input_cannot_change_order_types_or_character_boundaries() {
    let (d, m) = document();
    let text = |block, start, end| SelectionElement::TextRange { block, start, end };
    let picture = |block| SelectionElement::ImageBlock { block };
    for elements in [
        vec![],
        vec![picture(1), text(0, 0, 1)],
        vec![picture(1), picture(1)],
        vec![text(0, 0, 4), text(0, 3, 5)],
        vec![text(0, 1, 1)],
        vec![text(128, 0, 1)],
    ] {
        assert!(MessageSelection::new(MessageId(1), m.version(), elements).is_err());
    }
    for element in [
        SelectionElement::TextRange {
            block: 1,
            start: 0,
            end: 1,
        },
        SelectionElement::ImageBlock { block: 0 },
        SelectionElement::ImageBlock { block: 3 },
        SelectionElement::TextRange {
            block: 0,
            start: 0,
            end: 13,
        },
    ] {
        assert!(selection(&m, vec![element]).validate_target(&m).is_err());
    }
    // The server can check byte bounds, but only the endpoint can reject half of é.
    let split = selection(
        &m,
        vec![SelectionElement::TextRange {
            block: 0,
            start: 10,
            end: 11,
        }],
    );
    assert!(split.validate_target(&m).is_ok());
    assert!(d.select(&m, &split).is_err());
    let stale = MessageSelection::new(
        m.message(),
        MessageVersion([0; 32]),
        vec![SelectionElement::ImageBlock { block: 1 }],
    )
    .unwrap();
    assert!(stale.validate_target(&m).is_err());
}

// Claim: a compound quote preserves precisely the chosen ordered content, and a
// selection of that quote addresses its retained blocks rather than its wrapper.
// Wrong text/image extraction would falsify stable quotation and reference semantics.
#[test]
fn mixed_selection_and_selection_of_a_quote_preserve_exact_content() {
    let (d, m) = document();
    let s = selection(
        &m,
        vec![
            SelectionElement::TextRange {
                block: 0,
                start: 7,
                end: 12,
            },
            SelectionElement::ImageBlock { block: 1 },
            SelectionElement::TextRange {
                block: 2,
                start: 0,
                end: 5,
            },
        ],
    );
    let expected = vec![
        ContentBlock::Text("café".into()),
        ContentBlock::Image(image()),
        ContentBlock::Text("after".into()),
    ];
    assert_eq!(d.select(&m, &s).unwrap(), expected);
    let q = d.quote(&m, s.clone()).unwrap();
    assert_eq!(q.blocks(), expected);
    assert_eq!(q.source(), &s);
    let copy = Document::new(
        vec![
            DocumentPart::Reference(SourceReference(s)),
            DocumentPart::Quotation(q),
        ],
        [8; 32],
    )
    .unwrap();
    let cm = copy.manifest(MessageId(2), m.conversation()).unwrap();
    assert_eq!(cm.blocks()[0], BlockDescriptor::Reference);
    let nested = selection(&cm, vec![SelectionElement::ImageBlock { block: 2 }]);
    assert_eq!(
        copy.quote(&cm, nested).unwrap().blocks(),
        [ContentBlock::Image(image())]
    );
    assert!(
        selection(
            &cm,
            vec![SelectionElement::TextRange {
                block: 0,
                start: 0,
                end: 1
            }]
        )
        .validate_target(&cm)
        .is_err()
    );
    let excerpt = match &copy.parts()[1] {
        DocumentPart::Quotation(excerpt) => excerpt,
        _ => panic!("the second part is a quotation"),
    };
    let mut blocks = excerpt.blocks().to_vec();
    blocks[1] = ContentBlock::Text("substituted image".into());
    assert!(QuotedExcerpt::new(excerpt.source().clone(), blocks).is_err());
}

#[test]
fn manifests_change_with_their_documents_and_are_written_as_json() {
    let (_, m) = document();
    let other = Document::new(vec![DocumentPart::Text("before café".into())], [7; 32])
        .unwrap()
        .manifest(MessageId(1), m.conversation())
        .unwrap();
    assert_ne!(other.version(), m.version());
    let secret = Document::new(vec![DocumentPart::Text("before café".into())], [8; 32])
        .unwrap()
        .manifest(MessageId(1), m.conversation())
        .unwrap();
    assert_ne!(other.version(), secret.version());
    let value: serde_json::Value = serde_json::from_slice(&manifest_json(&m)).unwrap();
    assert_eq!(value["message"], 1);
    assert_eq!(value["conversation"], 1);
    assert_eq!(value["blocks"][0]["Text"]["bytes"], 12);
    assert_eq!(value["blocks"][1]["Image"]["bytes"], 67);
    assert_eq!(value["sources"].as_array().unwrap().len(), 0);
    assert!(Document::new(vec![], [7; 32]).is_err());
    assert!(Document::new(vec![DocumentPart::Text("x".into())], [0; 32]).is_err());
}

#[test]
fn messages_cannot_draw_on_themselves() {
    let (_, m) = document();
    let own = selection(&m, vec![SelectionElement::ImageBlock { block: 1 }]);
    assert_eq!(
        MessageManifest::new(
            m.message(),
            m.conversation(),
            m.version(),
            m.blocks().to_vec(),
            vec![SourceUse::Reference(own.clone())],
        )
        .err(),
        Some(CorrespondenceError::Invalid)
    );
    assert!(
        MessageManifest::new(
            MessageId(2),
            m.conversation(),
            m.version(),
            m.blocks().to_vec(),
            vec![SourceUse::Reference(own)],
        )
        .is_ok()
    );
}

#[test]
fn relaxing_a_conversation_takes_both_and_restricting_takes_one() {
    let (a, b) = (ProtocolIdentity(1), ProtocolIdentity(2));
    let scope = CorrespondenceRef::new(b, a).unwrap();
    assert_eq!(scope, CorrespondenceRef::new(a, b).unwrap());
    assert_eq!(scope.other(a), Ok(b));
    assert_eq!(
        scope.other(ProtocolIdentity(3)),
        Err(CorrespondenceError::Unauthorized)
    );
    let open = Conversation::new(ConversationId::new(1).unwrap(), scope);
    let closed = open.change(a, 0, PolicyAction::Restrict).unwrap();
    assert_eq!(closed.policy(), ReusePolicy::OriginatingRelationshipOnly);
    assert!(!closed.permits(CorrespondenceRef::new(a, ProtocolIdentity(3)).unwrap()));
    assert!(closed.permits(scope));
    let proposed = closed.change(a, 1, PolicyAction::ProposeRelaxation).unwrap();
    assert_eq!(
        proposed.change(a, 2, PolicyAction::ApproveRelaxation),
        Err(CorrespondenceError::Conflict)
    );
    assert_eq!(
        proposed.change(b, 1, PolicyAction::ApproveRelaxation),
        Err(CorrespondenceError::Conflict)
    );
    let relaxed = proposed.change(b, 2, PolicyAction::ApproveRelaxation).unwrap();
    assert_eq!(relaxed.policy(), ReusePolicy::AcrossRelationships);
    assert_eq!(Conversation::restore(relaxed), Ok(relaxed));
}

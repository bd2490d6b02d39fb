//! Extraction is all or nothing.

use muzak::library::extract::{scan_file_with_provider, DecoderReply, Extraction, ExtractionStage};
use muzak::media::metadata::Metadata;

fn tags() -> Metadata {
    Metadata { name: Some("Y".to_string()), ..Metadata::default() }
}

fn answers() -> Vec<DecoderReply> {
    vec![
        DecoderReply::Done,
        DecoderReply::Done,
        DecoderReply::Metadata(tags()),
        DecoderReply::Image(Some(vec![1, 2, 3])),
        DecoderReply::Duration(215),
        DecoderReply::Done,
    ]
}

#[test]
fn six_answers_in_order_give_the_information() {
    assert_eq!(scan_file_with_provider(answers()), Some((tags(), 215, Some(vec![1, 2, 3]))));
}

#[test]
fn a_file_without_artwork_is_extracted_too() {
    let mut replies = answers();
    replies[3] = DecoderReply::Image(None);
    assert_eq!(scan_file_with_provider(replies), Some((tags(), 215, None)));
}

#[test]
fn the_questions_come_in_a_fixed_order() {
    let mut extraction = Extraction::new();
    let expected = [
        ExtractionStage::Open,
        ExtractionStage::StartPlayback,
        ExtractionStage::ReadMetadata,
        ExtractionStage::ReadImage,
        ExtractionStage::DurationSecs,
        ExtractionStage::Close,
    ];
    for (stage, reply) in expected.iter().zip(answers()) {
        assert!(extraction.is_pending());
        assert_eq!(extraction.stage(), *stage);
        extraction.advance(reply);
    }
    assert!(!extraction.is_pending());
    assert_eq!(extraction.stage(), ExtractionStage::Finished);
}

#[test]
fn a_failure_at_any_step_gives_nothing() {
    for failing in 0..6 {
        let mut replies = answers();
        replies[failing] = DecoderReply::Failed;
        assert_eq!(scan_file_with_provider(replies), None, "failure at step {}", failing);
    }
}

#[test]
fn too_few_answers_give_nothing() {
    for kept in 0..6 {
        let replies: Vec<DecoderReply> = answers().into_iter().take(kept).collect();
        assert_eq!(scan_file_with_provider(replies), None, "{} answers", kept);
    }
}

#[test]
fn an_answer_that_does_not_fit_the_question_abandons_the_extraction() {
    let mut extraction = Extraction::new();
    extraction.advance(DecoderReply::Duration(3));
    assert_eq!(extraction.stage(), ExtractionStage::Abandoned);
    extraction.advance(DecoderReply::Done);
    assert_eq!(extraction.stage(), ExtractionStage::Abandoned);
    assert_eq!(extraction.finish(), None);
}

#[test]
fn answers_after_the_end_change_nothing() {
    let mut replies = answers();
    replies.push(DecoderReply::Failed);
    replies.push(DecoderReply::Duration(1));
    assert_eq!(scan_file_with_provider(replies), Some((tags(), 215, Some(vec![1, 2, 3]))));
}

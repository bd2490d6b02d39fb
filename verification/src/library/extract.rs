//! Extracting the metadata of one file.
//!
//! A decoder is asked six things in a fixed order: to open the file, to
//! start decoding, for the tags, for the embedded artwork, for the duration,
//! and to close. The decoder is outside the library. What the library
//! decides is what to ask next and what the answers add up to: all six must
//! succeed, or nothing is extracted.

use crate::library::sync::FileInformation;
use crate::media::metadata::{empty_metadata, Metadata, MetadataView};
use vstd::prelude::*;

verus! {

/// What a decoder answered.
#[derive(Debug, Clone, PartialEq, Eq)]
pub enum DecoderReply {
    /// It did what was asked; there is nothing to hand back.
    Done,
    /// The tags of the file.
    Metadata(Metadata),
    /// The bytes of the embedded artwork; `None` where the file has none.
    Image(Option<Vec<u8>>),
    /// The duration of the file, in seconds.
    Duration(u64),
    /// It failed.
    Failed,
}

/// Mathematical value of a [`DecoderReply`].
pub enum DecoderReplyView {
    Done,
    Metadata(MetadataView),
    Image(Option<Seq<u8>>),
    Duration(u64),
    Failed,
}

impl View for DecoderReply {
    type V = DecoderReplyView;

    open spec fn view(&self) -> DecoderReplyView {
        match self {
            DecoderReply::Done => DecoderReplyView::Done,
            DecoderReply::Metadata(metadata) => DecoderReplyView::Metadata(metadata@),
            DecoderReply::Image(image) => DecoderReplyView::Image(image.deep_view()),
            DecoderReply::Duration(seconds) => DecoderReplyView::Duration(*seconds),
            DecoderReply::Failed => DecoderReplyView::Failed,
        }
    }
}

impl DeepView for DecoderReply {
    type V = DecoderReplyView;

    open spec fn deep_view(&self) -> DecoderReplyView {
        self@
    }
}

/// How far an extraction has come. The first six name what is to be asked of
/// the decoder next.
#[derive(Debug, PartialEq, Eq, Structural, Clone, Copy)]
pub enum ExtractionStage {
    Open,
    StartPlayback,
    ReadMetadata,
    ReadImage,
    DurationSecs,
    Close,
    /// All six succeeded.
    Finished,
    /// One of them failed; nothing more is asked.
    Abandoned,
}

/// An extraction under way: its stage and what has been read so far.
#[derive(Debug, Clone, PartialEq, Eq)]
pub struct Extraction {
    stage: ExtractionStage,
    metadata: Metadata,
    image: Option<Vec<u8>>,
    length: u64,
}

/// Mathematical value of an [`Extraction`].
pub struct ExtractionView {
    pub stage: ExtractionStage,
    pub metadata: MetadataView,
    pub image: Option<Seq<u8>>,
    pub length: u64,
}

impl View for Extraction {
    type V = ExtractionView;

    closed spec fn view(&self) -> ExtractionView {
        ExtractionView {
            stage: self.stage,
            metadata: self.metadata@,
            image: self.image.deep_view(),
            length: self.length,
        }
    }
}

/// An extraction before the first question.
pub open spec fn unopened() -> ExtractionView {
    ExtractionView {
        stage: ExtractionStage::Open,
        metadata: empty_metadata(),
        image: None,
        length: 0,
    }
}

/// The extraction after the decoder gave `reply` to what was asked. The
/// answer that fits the question moves the extraction on and is kept; any
/// other answer abandons it. Once finished or abandoned it stays so.
pub open spec fn after_decoder_reply(e: ExtractionView, reply: DecoderReplyView) -> ExtractionView {
    match (e.stage, reply) {
        (ExtractionStage::Finished, _) => e,
        (ExtractionStage::Abandoned, _) => e,
        (ExtractionStage::Open, DecoderReplyView::Done) => ExtractionView {
            stage: ExtractionStage::StartPlayback,
            ..e
        },
        (ExtractionStage::StartPlayback, DecoderReplyView::Done) => ExtractionView {
            stage: ExtractionStage::ReadMetadata,
            ..e
        },
        (ExtractionStage::ReadMetadata, DecoderReplyView::Metadata(metadata)) => ExtractionView {
            stage: ExtractionStage::ReadImage,
            metadata,
            ..e
        },
        (ExtractionStage::ReadImage, DecoderReplyView::Image(image)) => ExtractionView {
            stage: ExtractionStage::DurationSecs,
            image,
            ..e
        },
        (ExtractionStage::DurationSecs, DecoderReplyView::Duration(length)) => ExtractionView {
            stage: ExtractionStage::Close,
            length,
            ..e
        },
        (ExtractionStage::Close, DecoderReplyView::Done) => ExtractionView {
            stage: ExtractionStage::Finished,
            ..e
        },
        _ => ExtractionView { stage: ExtractionStage::Abandoned, ..e },
    }
}

/// What an extraction has to show: the tags, the duration and the artwork
/// if it is finished, and nothing otherwise.
pub open spec fn extracted(e: ExtractionView) -> Option<(MetadataView, u64, Option<Seq<u8>>)> {
    if e.stage == ExtractionStage::Finished {
        Some((e.metadata, e.length, e.image))
    } else {
        None
    }
}

/// The extraction after a sequence of replies, taken in order.
pub open spec fn after_decoder_replies(
    e: ExtractionView,
    replies: Seq<DecoderReplyView>,
) -> ExtractionView
    decreases replies.len(),
{
    if replies.len() == 0 {
        e
    } else {
        after_decoder_reply(after_decoder_replies(e, replies.drop_last()), replies.last())
    }
}

impl Extraction {
    /// An extraction before the first question.
    pub fn new() -> (extraction: Self)
        ensures
            extraction@ == unopened(),
    {
        Extraction {
            stage: ExtractionStage::Open,
            metadata: Metadata::default(),
            image: None,
            length: 0,
        }
    }

    /// How far the extraction has come.
    pub fn stage(&self) -> (stage: ExtractionStage)
        ensures
            stage == self@.stage,
    {
        self.stage
    }

    /// Whether there is something left to ask of the decoder.
    pub fn is_pending(&self) -> (pending: bool)
        ensures
            pending == (self@.stage != ExtractionStage::Finished && self@.stage
                != ExtractionStage::Abandoned),
    {
        match self.stage {
            ExtractionStage::Finished => false,
            ExtractionStage::Abandoned => false,
            _ => true,
        }
    }

    /// Takes the decoder's reply to what was asked.
    pub fn advance(&mut self, reply: DecoderReply)
        ensures
            final(self)@ == after_decoder_reply(old(self)@, reply@),
    {
        match self.stage {
            ExtractionStage::Finished => {},
            ExtractionStage::Abandoned => {},
            ExtractionStage::Open => {
                self.stage = match reply {
                    DecoderReply::Done => ExtractionStage::StartPlayback,
                    _ => ExtractionStage::Abandoned,
                };
            },
            ExtractionStage::StartPlayback => {
                self.stage = match reply {
                    DecoderReply::Done => ExtractionStage::ReadMetadata,
                    _ => ExtractionStage::Abandoned,
                };
            },
            ExtractionStage::ReadMetadata => {
                match reply {
                    DecoderReply::Metadata(metadata) => {
                        self.metadata = metadata;
                        self.stage = ExtractionStage::ReadImage;
                    },
                    _ => {
                        self.stage = ExtractionStage::Abandoned;
                    },
                }
            },
            ExtractionStage::ReadImage => {
                match reply {
                    DecoderReply::Image(image) => {
                        self.image = image;
                        self.stage = ExtractionStage::DurationSecs;
                    },
                    _ => {
                        self.stage = ExtractionStage::Abandoned;
                    },
                }
            },
            ExtractionStage::DurationSecs => {
                match reply {
                    DecoderReply::Duration(length) => {
                        self.length = length;
                        self.stage = ExtractionStage::Close;
                    },
                    _ => {
                        self.stage = ExtractionStage::Abandoned;
                    },
                }
            },
            ExtractionStage::Close => {
                self.stage = match reply {
                    DecoderReply::Done => ExtractionStage::Finished,
                    _ => ExtractionStage::Abandoned,
                };
            },
        }
    }

    /// What the extraction has to show: everything, if all six questions
    /// were answered, and nothing otherwise.
    pub fn finish(self) -> (information: Option<FileInformation>)
        ensures
            information.deep_view() == extracted(self@),
    {
        match self.stage {
            ExtractionStage::Finished => Some((self.metadata, self.length, self.image)),
            _ => None,
        }
    }
}

/// Extracts from a file what the decoder answered to the six questions, in
/// the order in which they were asked: the tags, the duration and the
/// artwork if every answer is there and fits, and nothing otherwise.
pub fn scan_file_with_provider(replies: Vec<DecoderReply>) -> (information: Option<FileInformation>)
    ensures
        information.deep_view() == extracted(after_decoder_replies(unopened(), replies.deep_view())),
{
    let mut extraction = Extraction::new();
    let mut replies = replies;
    let ghost all = replies.deep_view();
    // Replies are taken from the front, so the vector is turned round first.
    let mut rest: Vec<DecoderReply> = Vec::new();
    while replies.len() > 0
        invariant
            replies.deep_view() + rest.deep_view().reverse() =~= all,
        decreases replies.len(),
    {
        let ghost before_rest = rest.deep_view();
        let ghost before_replies = replies.deep_view();
        let reply = replies.pop().unwrap();
        rest.push(reply);
        proof {
            assert(rest.deep_view() =~= before_rest.push(reply@));
            assert(replies.deep_view() =~= before_replies.drop_last());
            assert(reply@ == before_replies.last());
            assert(rest.deep_view().reverse() =~= seq![reply@] + before_rest.reverse());
            assert(before_replies =~= before_replies.drop_last().push(reply@));
        }
    }
    let ghost mut taken: Seq<DecoderReplyView> = Seq::empty();
    while rest.len() > 0
        invariant
            taken + rest.deep_view().reverse() =~= all,
            extraction@ == after_decoder_replies(unopened(), taken),
        decreases rest.len(),
    {
        let ghost before = rest.deep_view();
        let reply = rest.pop().unwrap();
        proof {
            assert(rest.deep_view() =~= before.drop_last());
            assert(reply@ == before.last());
            assert(before.reverse() =~= seq![reply@] + rest.deep_view().reverse());
            assert(taken.push(reply@).drop_last() =~= taken);
            taken = taken.push(reply@);
        }
        extraction.advance(reply);
    }
    assert(taken =~= all);
    extraction.finish()
}

/// How many questions have been answered at a stage that still asks one.
pub open spec fn answered(stage: ExtractionStage) -> int {
    match stage {
        ExtractionStage::Open => 0,
        ExtractionStage::StartPlayback => 1,
        ExtractionStage::ReadMetadata => 2,
        ExtractionStage::ReadImage => 3,
        ExtractionStage::DurationSecs => 4,
        ExtractionStage::Close => 5,
        ExtractionStage::Finished => 6,
        ExtractionStage::Abandoned => 6,
    }
}

/// Replies taken in two parts are replies taken in one.
pub proof fn lemma_replies_in_two_parts(
    e: ExtractionView,
    first: Seq<DecoderReplyView>,
    second: Seq<DecoderReplyView>,
)
    ensures
        after_decoder_replies(e, first + second) == after_decoder_replies(
            after_decoder_replies(e, first),
            second,
        ),
    decreases second.len(),
{
    if second.len() == 0 {
        assert(first + second =~= first);
    } else {
        lemma_replies_in_two_parts(e, first, second.drop_last());
        assert((first + second).drop_last() =~= first + second.drop_last());
        assert((first + second).last() == second.last());
    }
}

/// An extraction that is finished or abandoned stays as it is, whatever
/// comes after.
pub proof fn lemma_extraction_settles(e: ExtractionView, replies: Seq<DecoderReplyView>)
    requires
        e.stage == ExtractionStage::Finished || e.stage == ExtractionStage::Abandoned,
    ensures
        after_decoder_replies(e, replies) == e,
    decreases replies.len(),
{
    if replies.len() > 0 {
        lemma_extraction_settles(e, replies.drop_last());
    }
}

/// Each answer answers one question: after so many replies the extraction
/// is abandoned, or it has had that many answers, or all six.
pub proof fn lemma_one_answer_per_question(replies: Seq<DecoderReplyView>)
    ensures
        ({
            let e = after_decoder_replies(unopened(), replies);
            ||| e.stage == ExtractionStage::Abandoned
            ||| (replies.len() < 6 && answered(e.stage) == replies.len() && e.stage
                != ExtractionStage::Finished)
            ||| (replies.len() >= 6 && e.stage == ExtractionStage::Finished)
        }),
    decreases replies.len(),
{
    if replies.len() > 0 {
        lemma_one_answer_per_question(replies.drop_last());
    }
}

/// Fewer than six answers extract nothing.
pub proof fn lemma_too_few_answers_extract_nothing(replies: Seq<DecoderReplyView>)
    requires
        replies.len() < 6,
    ensures
        extracted(after_decoder_replies(unopened(), replies)) is None,
{
    lemma_one_answer_per_question(replies);
}

/// One failure among the six answers and nothing is extracted, whatever the
/// other answers are.
pub proof fn lemma_failure_extracts_nothing(replies: Seq<DecoderReplyView>, k: int)
    requires
        0 <= k < replies.len(),
        k < 6,
        replies[k] is Failed,
    ensures
        extracted(after_decoder_replies(unopened(), replies)) is None,
{
    let before = replies.take(k);
    let rest = replies.skip(k + 1);
    assert(replies =~= before.push(replies[k]) + rest);
    lemma_replies_in_two_parts(unopened(), before.push(replies[k]), rest);
    lemma_one_answer_per_question(before);
    assert(before.push(replies[k]).drop_last() =~= before);
    let failed = after_decoder_replies(unopened(), before.push(replies[k]));
    assert(failed.stage == ExtractionStage::Abandoned);
    lemma_extraction_settles(failed, rest);
}

/// Six answers that fit extract exactly what they hold: the tags, the
/// duration and the artwork.
pub proof fn lemma_six_answers_extract(metadata: MetadataView, image: Option<Seq<u8>>, length: u64)
    ensures
        extracted(
            after_decoder_replies(
                unopened(),
                seq![
                    DecoderReplyView::Done,
                    DecoderReplyView::Done,
                    DecoderReplyView::Metadata(metadata),
                    DecoderReplyView::Image(image),
                    DecoderReplyView::Duration(length),
                    DecoderReplyView::Done,
                ],
            ),
        ) == Some((metadata, length, image)),
{
    let all = seq![
        DecoderReplyView::Done,
        DecoderReplyView::Done,
        DecoderReplyView::Metadata(metadata),
        DecoderReplyView::Image(image),
        DecoderReplyView::Duration(length),
        DecoderReplyView::Done,
    ];
    let e0 = unopened();
    let e1 = after_decoder_reply(e0, all[0]);
    let e2 = after_decoder_reply(e1, all[1]);
    let e3 = after_decoder_reply(e2, all[2]);
    let e4 = after_decoder_reply(e3, all[3]);
    let e5 = after_decoder_reply(e4, all[4]);
    let e6 = after_decoder_reply(e5, all[5]);
    assert(all.take(0) =~= Seq::<DecoderReplyView>::empty());
    assert(after_decoder_replies(e0, all.take(0)) == e0);
    assert(all.take(1).drop_last() =~= all.take(0));
    assert(after_decoder_replies(e0, all.take(1)) == e1);
    assert(all.take(2).drop_last() =~= all.take(1));
    assert(after_decoder_replies(e0, all.take(2)) == e2);
    assert(all.take(3).drop_last() =~= all.take(2));
    assert(after_decoder_replies(e0, all.take(3)) == e3);
    assert(all.take(4).drop_last() =~= all.take(3));
    assert(after_decoder_replies(e0, all.take(4)) == e4);
    assert(all.take(5).drop_last() =~= all.take(4));
    assert(after_decoder_replies(e0, all.take(5)) == e5);
    assert(all.take(6) =~= all);
    assert(all.drop_last() =~= all.take(5));
    assert(after_decoder_replies(e0, all) == e6);
}

} // verus!

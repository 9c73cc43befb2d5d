//! Videos are tagged one after the other: frames are extracted, sent in one
//! call, and removed.
use vstd::prelude::*;

use crate::frames::select_frames;
use crate::metadata::StockMetadata;
use crate::photos::{keep_readable, pause_after};
use crate::prompt::{build_video_prompt, FRAME_LABEL};

verus! {

use crate::frames::{chosen_frames, chosen_frames_keep_to_the_cap, has_frame};
use crate::metadata::MetadataText;
use crate::photos::{lemma_readable_lengths, pause_before_next, readable_texts};
use crate::prompt::video_prompt;
use crate::text::texts;

/// How wide a frame may be.
pub const FRAME_MAX_DIM: u32 = 1024;

/// How many frames of a video are sent at most.
pub const MAX_FRAMES: usize = 15;

/// What comes next.
#[derive(Debug, PartialEq, Eq)]
pub enum VideoStage {
    /// Frames of the video are extracted into a folder of their own.
    Extract,
    /// The frames at these places among the extracted files are read.
    Read(Vec<usize>),
    /// The folder holds no frames, for the given reason, and is removed.
    Discard(String),
    /// The service is asked about the frames, which are sent under a label.
    Ask { label: &'static str, images: Vec<String>, prompt: String },
    /// The metadata is embedded.
    Embed(StockMetadata),
    /// The folder with the frames is removed; whether a call was made.
    Remove(bool),
    /// Before the next video there is a pause, in milliseconds.
    Pause(u64),
    /// There is nothing left to do.
    Finished,
}

/// What happened.
#[derive(Debug, PartialEq, Eq)]
pub enum VideoEvent {
    /// Frames were extracted into a folder, which holds files with these names.
    Extracted(Vec<Vec<u8>>),
    /// The extraction failed, and left no folder.
    ExtractionFailed,
    /// The frames were read, each or not.
    FramesRead(Vec<Option<String>>),
    /// The service answered with results.
    Answered(Vec<StockMetadata>),
    /// The call failed.
    CallFailed,
    /// The metadata was embedded, or could not be.
    Embedded,
    /// The folder with the frames was removed.
    Removed,
    /// The pause is over.
    Paused,
}

/// The text of a `VideoStage`.
pub ghost enum VideoStageText {
    Extract,
    Read(Seq<usize>),
    Discard(Seq<char>),
    Ask { label: Seq<char>, images: Seq<Seq<char>>, prompt: Seq<char> },
    Embed(MetadataText),
    Remove(bool),
    Pause(u64),
    Finished,
}

impl View for VideoStage {
    type V = VideoStageText;

    open spec fn view(&self) -> VideoStageText {
        match self {
            VideoStage::Extract => VideoStageText::Extract,
            VideoStage::Read(frames) => VideoStageText::Read(frames@),
            VideoStage::Discard(reason) => VideoStageText::Discard(reason@),
            VideoStage::Ask { label, images, prompt } => VideoStageText::Ask {
                label: label@,
                images: texts(images@),
                prompt: prompt@,
            },
            VideoStage::Embed(m) => VideoStageText::Embed(m@),
            VideoStage::Remove(asked) => VideoStageText::Remove(*asked),
            VideoStage::Pause(ms) => VideoStageText::Pause(*ms),
            VideoStage::Finished => VideoStageText::Finished,
        }
    }
}

/// The tagging of a list of videos.
#[derive(Debug, PartialEq, Eq)]
pub struct VideoRun {
    index: usize,
    total: usize,
    rate_limit_ms: u64,
    stage: VideoStage,
}

/// The text of a `VideoRun`.
pub ghost struct VideoState {
    /// The place of the video that is worked on.
    pub index: int,
    pub total: int,
    pub rate_limit_ms: u64,
    pub stage: VideoStageText,
}

impl View for VideoRun {
    type V = VideoState;

    closed spec fn view(&self) -> VideoState {
        VideoState {
            index: self.index as int,
            total: self.total as int,
            rate_limit_ms: self.rate_limit_ms,
            stage: self.stage@,
        }
    }
}

impl VideoState {
    /// The video that is worked on is one of the list, and no more of its frames
    /// are read and sent than are allowed.
    pub open spec fn wf(self) -> bool {
        &&& 0 <= self.index && (self.stage is Finished || self.index < self.total)
        &&& self.stage matches VideoStageText::Read(frames) ==> frames.len() <= MAX_FRAMES
        &&& self.stage matches VideoStageText::Ask { images, .. } ==> images.len() <= MAX_FRAMES
    }

    /// A folder with frames exists.
    pub open spec fn holds_frames(self) -> bool {
        !(self.stage is Extract || self.stage is Pause || self.stage is Finished)
    }

    /// The video at place `video` is behind.
    pub open spec fn passed(self, video: int) -> bool {
        video < self.index || (video == self.index && self.stage is Finished)
    }
}

/// Where the tagging of `total` videos starts.
pub open spec fn video_start(total: int, rate_limit_ms: u64) -> VideoState {
    VideoState {
        index: 0,
        total,
        rate_limit_ms,
        stage: if total > 0 {
            VideoStageText::Extract
        } else {
            VideoStageText::Finished
        },
    }
}

/// The next video, or the end.
pub open spec fn next_video(st: VideoState) -> VideoState {
    if st.index + 1 < st.total {
        VideoState { index: st.index + 1, stage: VideoStageText::Extract, ..st }
    } else {
        VideoState { stage: VideoStageText::Finished, ..st }
    }
}

/// What an event leads to; one that does not belong to the stage leads nowhere.
/// To the reading of frames belongs one outcome for each of them.
pub open spec fn after_event(st: VideoState, event: VideoEvent) -> VideoState {
    match (st.stage, event) {
        (VideoStageText::Extract, VideoEvent::Extracted(names)) => VideoState {
            stage: if has_frame(names@) {
                VideoStageText::Read(chosen_frames(names@, MAX_FRAMES as int))
            } else {
                VideoStageText::Discard("ffmpeg produced no frames"@)
            },
            ..st
        },
        (VideoStageText::Extract, VideoEvent::ExtractionFailed) => next_video(st),
        (VideoStageText::Discard(_), VideoEvent::Removed) => next_video(st),
        (VideoStageText::Read(frames), VideoEvent::FramesRead(reads)) => {
            let images = readable_texts(reads@);
            if reads@.len() != frames.len() {
                st
            } else if images.len() == 0 {
                VideoState { stage: VideoStageText::Remove(false), ..st }
            } else {
                VideoState {
                    stage: VideoStageText::Ask {
                        label: FRAME_LABEL@,
                        images,
                        prompt: video_prompt(images.len()),
                    },
                    ..st
                }
            }
        },
        (VideoStageText::Ask { .. }, VideoEvent::Answered(results)) => VideoState {
            stage: if results@.len() == 0 {
                VideoStageText::Remove(true)
            } else {
                VideoStageText::Embed(results@[0]@)
            },
            ..st
        },
        (VideoStageText::Ask { .. }, VideoEvent::CallFailed) => VideoState {
            stage: VideoStageText::Remove(true),
            ..st
        },
        (VideoStageText::Embed(_), VideoEvent::Embedded) => VideoState {
            stage: VideoStageText::Remove(true),
            ..st
        },
        (VideoStageText::Remove(asked), VideoEvent::Removed) => match pause_before_next(
            st.index,
            st.total,
            asked,
            st.rate_limit_ms,
        ) {
            Some(ms) => VideoState { stage: VideoStageText::Pause(ms), ..st },
            None => next_video(st),
        },
        (VideoStageText::Pause(_), VideoEvent::Paused) => next_video(st),
        _ => st,
    }
}

impl VideoRun {
    #[verifier::type_invariant]
    spec fn inv(self) -> bool {
        self@.wf()
    }

    /// Starts the tagging of `total` videos.
    pub fn new(total: usize, rate_limit_ms: u64) -> (r: Self)
        ensures
            r@ == video_start(total as int, rate_limit_ms),
    {
        let stage = if total > 0 {
            VideoStage::Extract
        } else {
            VideoStage::Finished
        };
        VideoRun { index: 0, total, rate_limit_ms, stage }
    }

    /// The place of the video that is worked on.
    pub fn index(&self) -> (r: usize)
        ensures
            r == self@.index,
    {
        self.index
    }

    pub fn total(&self) -> (r: usize)
        ensures
            r == self@.total,
    {
        self.total
    }

    pub fn stage(&self) -> (r: &VideoStage)
        ensures
            r@ == self@.stage,
    {
        &self.stage
    }

    fn go_on(&mut self)
        requires
            old(self)@.index < old(self)@.total,
        ensures
            final(self)@ == next_video(old(self)@),
    {
        proof {
            use_type_invariant(&*self);
        }
        if self.total - self.index > 1 {
            self.index = self.index + 1;
            self.stage = VideoStage::Extract;
        } else {
            self.stage = VideoStage::Finished;
        }
    }

    /// Takes in what happened.
    pub fn advance(&mut self, event: &VideoEvent)
        ensures
            final(self)@ == after_event(old(self)@, *event),
            final(self)@.wf(),
    {
        proof {
            use_type_invariant(&*self);
        }
        match (&self.stage, event) {
            (VideoStage::Extract, VideoEvent::Extracted(names)) => {
                match select_frames(names, MAX_FRAMES) {
                    Ok(frames) => {
                        proof {
                            assert(names@.len() == names.len());
                            chosen_frames_keep_to_the_cap(names@, MAX_FRAMES as int);
                        }
                        self.stage = VideoStage::Read(frames);
                    },
                    Err(reason) => {
                        self.stage = VideoStage::Discard(reason);
                    },
                }
            },
            (VideoStage::Extract, VideoEvent::ExtractionFailed) => self.go_on(),
            (VideoStage::Discard(_), VideoEvent::Removed) => self.go_on(),
            (VideoStage::Read(frames), VideoEvent::FramesRead(reads)) => {
                if reads.len() == frames.len() {
                    let images = keep_readable(reads).1;
                    proof {
                        lemma_readable_lengths(reads@);
                        assert(texts(images@).len() == images@.len());
                    }
                    self.stage = if images.len() == 0 {
                        VideoStage::Remove(false)
                    } else {
                        let prompt = build_video_prompt(images.len());
                        VideoStage::Ask { label: FRAME_LABEL, images, prompt }
                    };
                }
            },
            (VideoStage::Ask { .. }, VideoEvent::Answered(results)) => {
                self.stage = if results.len() == 0 {
                    VideoStage::Remove(true)
                } else {
                    VideoStage::Embed(results[0].clone())
                };
            },
            (VideoStage::Ask { .. }, VideoEvent::CallFailed) => {
                self.stage = VideoStage::Remove(true);
            },
            (VideoStage::Embed(_), VideoEvent::Embedded) => {
                self.stage = VideoStage::Remove(true);
            },
            (VideoStage::Remove(asked), VideoEvent::Removed) => {
                match pause_after(self.index, self.total, *asked, self.rate_limit_ms) {
                    Some(ms) => {
                        self.stage = VideoStage::Pause(ms);
                    },
                    None => self.go_on(),
                }
            },
            (VideoStage::Pause(_), VideoEvent::Paused) => self.go_on(),
            _ => {},
        }
    }
}

/// Extracted frames never stay behind: the folder that an extraction made is
/// there until it is removed, and no video is left, nor is the end reached,
/// before that.
pub proof fn frames_are_removed(st: VideoState, event: VideoEvent)
    requires
        st.wf(),
    ensures
        !st.holds_frames() && after_event(st, event).holds_frames() <==> st.stage is Extract
            && event is Extracted,
        st.holds_frames() && !after_event(st, event).holds_frames() <==> (st.stage is Remove
            || st.stage is Discard) && event == VideoEvent::Removed,
        after_event(st, event).index != st.index || (after_event(st, event).stage is Finished
            && !(st.stage is Finished)) ==> !st.holds_frames() || event == VideoEvent::Removed,
{
}

/// Where the events lead.
pub open spec fn after_events(st: VideoState, events: Seq<VideoEvent>) -> VideoState
    decreases events.len(),
{
    if events.len() == 0 {
        st
    } else {
        after_event(after_events(st, events.drop_last()), events.last())
    }
}

/// Whatever happens, the videos are taken in their order and none is taken
/// twice: the place only moves on, one at a time, to the extraction of the next.
/// No more frames than allowed are read or sent.
pub proof fn videos_are_taken_in_order(st: VideoState, event: VideoEvent)
    requires
        st.wf(),
    ensures
        after_event(st, event).wf(),
        after_event(st, event).total == st.total,
        after_event(st, event).rate_limit_ms == st.rate_limit_ms,
        after_event(st, event).index == st.index || after_event(st, event).index == st.index + 1,
        after_event(st, event).index == st.index + 1 ==> after_event(st, event).stage is Extract,
{
    match event {
        VideoEvent::Extracted(names) => {
            assert(names@.len() == names.len());
            chosen_frames_keep_to_the_cap(names@, MAX_FRAMES as int);
        },
        VideoEvent::FramesRead(reads) => lemma_readable_lengths(reads@),
        _ => {},
    }
}

/// Whatever happens, the work ends only behind the last video.
pub proof fn no_video_is_left_out(total: int, rate_limit_ms: u64, events: Seq<VideoEvent>)
    requires
        0 <= total,
    ensures
        ({
            let end = after_events(video_start(total, rate_limit_ms), events);
            &&& end.wf()
            &&& end.total == total
            &&& end.stage is Finished ==> total == 0 || end.index == total - 1
        }),
    decreases events.len(),
{
    if events.len() > 0 {
        let before = after_events(video_start(total, rate_limit_ms), events.drop_last());
        no_video_is_left_out(total, rate_limit_ms, events.drop_last());
        videos_are_taken_in_order(before, events.last());
    }
}

/// A call for a video: what is sent, and under which label.
pub ghost struct VideoCall {
    pub label: Seq<char>,
    pub images: Seq<Seq<char>>,
    pub prompt: Seq<char>,
}

/// How often the events extract frames of the video at place `video`.
pub open spec fn extractions(st: VideoState, events: Seq<VideoEvent>, video: int) -> nat
    decreases events.len(),
{
    if events.len() == 0 {
        0
    } else {
        let before = after_events(st, events.drop_last());
        let ended = before.stage is Extract && before.index == video && (events.last() is Extracted
            || events.last() is ExtractionFailed);
        extractions(st, events.drop_last(), video) + if ended {
            1nat
        } else {
            0
        }
    }
}

/// The frames of the video at place `video` that could be read.
pub open spec fn frames_read(
    st: VideoState,
    events: Seq<VideoEvent>,
    video: int,
) -> Seq<Seq<char>>
    decreases events.len(),
{
    if events.len() == 0 {
        Seq::empty()
    } else {
        let before = after_events(st, events.drop_last());
        match (before.stage, events.last()) {
            (VideoStageText::Read(frames), VideoEvent::FramesRead(reads)) if before.index == video
                && reads@.len() == frames.len() => readable_texts(reads@),
            _ => frames_read(st, events.drop_last(), video),
        }
    }
}

/// The calls that the events end for the video at place `video`.
pub open spec fn calls(st: VideoState, events: Seq<VideoEvent>, video: int) -> Seq<VideoCall>
    decreases events.len(),
{
    if events.len() == 0 {
        Seq::empty()
    } else {
        let before = after_events(st, events.drop_last());
        let earlier = calls(st, events.drop_last(), video);
        match before.stage {
            VideoStageText::Ask { label, images, prompt } if before.index == video && (
            events.last() is Answered || events.last() is CallFailed) => earlier.push(
                VideoCall { label, images, prompt },
            ),
            _ => earlier,
        }
    }
}

/// The first result of the answer for the video at place `video`, if there was an
/// answer that held one.
pub open spec fn first_result(
    st: VideoState,
    events: Seq<VideoEvent>,
    video: int,
) -> Option<MetadataText>
    decreases events.len(),
{
    if events.len() == 0 {
        None
    } else {
        let before = after_events(st, events.drop_last());
        match events.last() {
            VideoEvent::Answered(results) if before.stage is Ask && before.index == video
                && results@.len() > 0 => Some(results@[0]@),
            _ => first_result(st, events.drop_last(), video),
        }
    }
}

/// What the events embed in the video at place `video`.
pub open spec fn embedded(
    st: VideoState,
    events: Seq<VideoEvent>,
    video: int,
) -> Seq<MetadataText>
    decreases events.len(),
{
    if events.len() == 0 {
        Seq::empty()
    } else {
        let before = after_events(st, events.drop_last());
        let earlier = embedded(st, events.drop_last(), video);
        match before.stage {
            VideoStageText::Embed(m) if before.index == video && events.last()
                == VideoEvent::Embedded => earlier.push(m),
            _ => earlier,
        }
    }
}

/// The calls that are due for a video of which these frames could be read.
pub open spec fn calls_due(images: Seq<Seq<char>>) -> Seq<VideoCall> {
    if images.len() == 0 {
        Seq::empty()
    } else {
        seq![VideoCall { label: FRAME_LABEL@, images, prompt: video_prompt(images.len()) }]
    }
}

/// What is due to be embedded in a video with this first result.
pub open spec fn embeddings_due(result: Option<MetadataText>) -> Seq<MetadataText> {
    match result {
        Some(m) => seq![m],
        None => Seq::empty(),
    }
}

/// Each video is its own call, whatever happened to it and to the others: its
/// frames are extracted once; there is one call if a frame could be read, with
/// just its readable frames in their order, and none otherwise; and the first
/// result of the answer is embedded once, if there is one.
pub proof fn one_call_for_each_video(
    total: int,
    rate_limit_ms: u64,
    events: Seq<VideoEvent>,
    video: int,
)
    requires
        0 <= video < total,
    ensures
        ({
            let start = video_start(total, rate_limit_ms);
            let read = frames_read(start, events, video);
            after_events(start, events).passed(video) ==> {
                &&& extractions(start, events, video) == 1
                &&& calls(start, events, video) == calls_due(read)
                &&& embedded(start, events, video) == embeddings_due(
                    first_result(start, events, video),
                )
            }
        }),
{
    lemma_progress(total, rate_limit_ms, events, video);
}

/// What has been done for a video, by the stage that was reached.
spec fn progress(start: VideoState, events: Seq<VideoEvent>, video: int) -> bool {
    let end = after_events(start, events);
    let read = frames_read(start, events, video);
    let called = calls(start, events, video);
    let result = first_result(start, events, video);
    let written = embedded(start, events, video);
    let unasked = called == Seq::<VideoCall>::empty() && result is None && written
        == Seq::<MetadataText>::empty();
    if end.index < video || (end.index == video && end.stage is Extract) {
        extractions(start, events, video) == 0 && read.len() == 0 && unasked
    } else {
        &&& extractions(start, events, video) == 1
        &&& if end.index == video && (end.stage is Read || end.stage is Discard) {
            read.len() == 0 && unasked
        } else if end.index == video && end.stage is Ask {
            &&& read.len() > 0 && unasked
            &&& end.stage->label == FRAME_LABEL@
            &&& end.stage->images == read
            &&& end.stage->prompt == video_prompt(read.len())
        } else if end.index == video && end.stage is Embed {
            &&& called == calls_due(read)
            &&& result == Some(end.stage->Embed_0)
            &&& written == Seq::<MetadataText>::empty()
        } else {
            called == calls_due(read) && written == embeddings_due(result)
        }
    }
}

proof fn lemma_progress(total: int, rate_limit_ms: u64, events: Seq<VideoEvent>, video: int)
    requires
        0 <= video < total,
    ensures
        progress(video_start(total, rate_limit_ms), events, video),
    decreases events.len(),
{
    let start = video_start(total, rate_limit_ms);
    if events.len() > 0 {
        let rest = events.drop_last();
        let before = after_events(start, rest);
        lemma_progress(total, rate_limit_ms, rest, video);
        no_video_is_left_out(total, rate_limit_ms, rest);
        if before.index == video {
            match before.stage {
                VideoStageText::Ask { label, images, prompt } => {
                    assert(Seq::empty().push(VideoCall { label, images, prompt }) =~= calls_due(
                        images,
                    ));
                },
                VideoStageText::Embed(m) => {
                    assert(Seq::empty().push(m) =~= embeddings_due(Some(m)));
                },
                _ => {},
            }
        }
    }
}

/// How much work is left.
pub open spec fn work_left(st: VideoState) -> int {
    (st.total - st.index) * 7 + match st.stage {
        VideoStageText::Extract => 6int,
        VideoStageText::Read(_) => 5,
        VideoStageText::Ask { .. } => 4,
        VideoStageText::Embed(_) => 3,
        VideoStageText::Remove(_) => 2,
        VideoStageText::Discard(_) => 2,
        VideoStageText::Pause(_) => 1,
        VideoStageText::Finished => 0,
    }
}

/// The work comes to an end: an event that belongs to the stage brings it nearer.
pub proof fn videos_come_to_an_end(st: VideoState, event: VideoEvent)
    requires
        st.wf(),
        st.index < st.total,
    ensures
        after_event(st, event) != st ==> 0 <= work_left(after_event(st, event)) < work_left(st),
{
}

/// A call is followed by a pause unless it was for the last video; where no call
/// was made there is none.
pub proof fn pauses_separate_calls(st: VideoState, event: VideoEvent)
    requires
        st.wf(),
        !(st.stage is Pause),
    ensures
        after_event(st, event).stage is Pause <==> st.stage == VideoStageText::Remove(true)
            && event == VideoEvent::Removed && st.index + 1 < st.total,
        after_event(st, event).stage is Pause ==> after_event(st, event).stage
            == VideoStageText::Pause(st.rate_limit_ms),
        after_event(st, event).stage == VideoStageText::Remove(true) && st.stage
            != after_event(st, event).stage ==> st.stage is Ask || st.stage is Embed,
{
}

/// The course of a video. Of the extracted files the chosen frames are read; a
/// folder without frames is removed. Of the frames that could be read all are
/// sent, behind a prompt for their number and under their label. The first result
/// is embedded. The folder is removed whatever happened. Behind a video for which
/// a call was made comes a pause, and then the next video; behind the last video
/// comes the end.
pub proof fn a_video_takes_its_course(
    st: VideoState,
    names: Vec<Vec<u8>>,
    reads: Vec<Option<String>>,
    results: Vec<StockMetadata>,
)
    requires
        0 <= st.index < st.total,
    ensures
        st.stage is Extract ==> after_event(st, VideoEvent::Extracted(names)).stage == (
        if has_frame(names@) {
            VideoStageText::Read(chosen_frames(names@, 15))
        } else {
            VideoStageText::Discard("ffmpeg produced no frames"@)
        }),
        st.stage matches VideoStageText::Read(frames) ==> reads@.len() == frames.len()
            ==> after_event(st, VideoEvent::FramesRead(reads)).stage == (if readable_texts(
            reads@,
        ).len() > 0 {
            VideoStageText::Ask {
                label: "Frame"@,
                images: readable_texts(reads@),
                prompt: video_prompt(readable_texts(reads@).len()),
            }
        } else {
            VideoStageText::Remove(false)
        }),
        st.stage is Ask ==> after_event(st, VideoEvent::Answered(results)).stage == (
        if results@.len() > 0 {
            VideoStageText::Embed(results@[0]@)
        } else {
            VideoStageText::Remove(true)
        }),
        st.stage is Ask ==> after_event(st, VideoEvent::CallFailed).stage
            == VideoStageText::Remove(true),
        st.stage is Embed ==> after_event(st, VideoEvent::Embedded).stage
            == VideoStageText::Remove(true),
        st.stage == VideoStageText::Remove(true) && st.index + 1 < st.total ==> after_event(
            st,
            VideoEvent::Removed,
        ).stage == VideoStageText::Pause(st.rate_limit_ms) && after_event(
            st,
            VideoEvent::Removed,
        ).index == st.index,
        (st.stage is Extract ==> goes_to_next(st, after_event(st, VideoEvent::ExtractionFailed))),
        (st.stage is Discard || st.stage == VideoStageText::Remove(false) ==> goes_to_next(
            st,
            after_event(st, VideoEvent::Removed),
        )),
        (st.stage is Pause ==> goes_to_next(st, after_event(st, VideoEvent::Paused))),
        st.stage is Remove && st.index + 1 == st.total ==> after_event(
            st,
            VideoEvent::Removed,
        ).stage is Finished,
{
}

/// `after` is at the extraction of the video behind the one of `before`, or at the
/// end if there is none.
pub open spec fn goes_to_next(before: VideoState, after: VideoState) -> bool {
    if before.index + 1 < before.total {
        after.index == before.index + 1 && after.stage is Extract
    } else {
        after.stage is Finished
    }
}

/// The work starts with the extraction of the first video, if there is one.
pub proof fn the_first_video_comes_first(total: int, rate_limit_ms: u64)
    requires
        0 <= total,
    ensures
        video_start(total, rate_limit_ms).index == 0,
        video_start(total, rate_limit_ms).total == total,
        video_start(total, rate_limit_ms).rate_limit_ms == rate_limit_ms,
        total > 0 ==> video_start(total, rate_limit_ms).stage is Extract,
        total == 0 ==> video_start(total, rate_limit_ms).stage is Finished,
{
}

/// The stages in which videos are tagged are seen as they are.
pub proof fn video_stages_are_seen_whole(stage: VideoStage)
    ensures
        stage matches VideoStage::Read(frames) ==> stage@ == VideoStageText::Read(frames@),
        stage matches VideoStage::Discard(reason) ==> stage@ == VideoStageText::Discard(reason@),
        stage matches VideoStage::Ask { label, images, prompt } ==> stage@ is Ask && stage@->label
            == label@ && stage@->images == texts(images@) && stage@->prompt == prompt@,
        stage matches VideoStage::Embed(m) ==> stage@ == VideoStageText::Embed(m@),
        stage matches VideoStage::Remove(asked) ==> stage@ == VideoStageText::Remove(asked),
        stage matches VideoStage::Pause(ms) ==> stage@ == VideoStageText::Pause(ms),
        stage is Extract <==> stage@ is Extract,
        stage is Finished <==> stage@ is Finished,
{
}

} // verus!

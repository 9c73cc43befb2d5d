//! Photos are tagged in batches: one call for each batch.
use vstd::prelude::*;

use crate::metadata::StockMetadata;
use crate::prompt::{build_prompt, PHOTO_LABEL};

verus! {

use crate::metadata::{metadata_texts, MetadataText};
use crate::prompt::photo_prompt;
use crate::text::{text_of, texts};

/// How many batches `count` photos take.
pub open spec fn batch_count(count: int, batch_size: int) -> int {
    (count + batch_size - 1) / batch_size
}

/// Where the batch at place `i` starts.
pub open spec fn batch_start(i: int, batch_size: int) -> int {
    i * batch_size
}

/// Where the batch at place `i` ends.
pub open spec fn batch_end(i: int, batch_size: int, count: int) -> int {
    if (i + 1) * batch_size < count {
        (i + 1) * batch_size
    } else {
        count
    }
}

/// The batches of `count` photos, each given by its first place and the place
/// behind its last.
pub open spec fn batch_list(count: int, batch_size: int) -> Seq<(int, int)> {
    Seq::new(
        batch_count(count, batch_size) as nat,
        |i: int| (batch_start(i, batch_size), batch_end(i, batch_size, count)),
    )
}

/// The places that are given by a list of pairs.
pub open spec fn bounds(parts: Seq<(usize, usize)>) -> Seq<(int, int)> {
    parts.map_values(|p: (usize, usize)| (p.0 as int, p.1 as int))
}

proof fn lemma_batch_count(count: int, batch_size: int)
    requires
        0 <= count,
        0 < batch_size,
    ensures
        0 <= batch_count(count, batch_size),
        forall|i: int|
            0 <= i ==> (#[trigger] batch_start(i, batch_size) < count <==> i < batch_count(
                count,
                batch_size,
            )),
{
    let n = batch_count(count, batch_size);
    assert(0 <= n && n * batch_size <= count + batch_size - 1 && count + batch_size - 1 < (n + 1)
        * batch_size) by (nonlinear_arith)
        requires
            n == (count + batch_size - 1) / batch_size,
            0 <= count,
            0 < batch_size,
    ;
    assert forall|i: int| 0 <= i implies (#[trigger] batch_start(i, batch_size) < count <==> i
        < n) by {
        assert(i * batch_size < count <==> i < n) by (nonlinear_arith)
            requires
                0 < batch_size,
                n * batch_size <= count + batch_size - 1,
                count + batch_size - 1 < (n + 1) * batch_size,
        ;
    }
}

/// Parts `count` photos, in their order, into batches of `batch_size`; the last
/// may be smaller. Each batch is given by its first place and the place behind
/// its last.
pub fn batches(count: usize, batch_size: usize) -> (r: Vec<(usize, usize)>)
    requires
        batch_size > 0,
    ensures
        bounds(r@) == batch_list(count as int, batch_size as int),
{
    let mut out: Vec<(usize, usize)> = Vec::new();
    let mut start: usize = 0;
    proof {
        lemma_batch_count(count as int, batch_size as int);
        assert(batch_start(0, batch_size as int) == 0) by (nonlinear_arith);
    }
    while start < count
        invariant
            batch_size > 0,
            start <= count,
            out@.len() <= batch_count(count as int, batch_size as int),
            start < count ==> start == batch_start(out@.len() as int, batch_size as int),
            start == count ==> out@.len() == batch_count(count as int, batch_size as int),
            forall|i: int|
                0 <= i < out@.len() ==> (#[trigger] out@[i]).0 == batch_start(i, batch_size as int)
                    && out@[i].1 == batch_end(i, batch_size as int, count as int),
            forall|i: int|
                0 <= i ==> (#[trigger] batch_start(i, batch_size as int) < count <==> i
                    < batch_count(count as int, batch_size as int)),
        decreases count - start,
    {
        let ghost n = out@.len() as int;
        assert((n + 1) * batch_size == n * batch_size + batch_size) by (nonlinear_arith);
        assert(batch_start(n + 1, batch_size as int) == (n + 1) * batch_size);
        let end: usize = if count - start > batch_size {
            start + batch_size
        } else {
            count
        };
        out.push((start, end));
        start = end;
    }
    assert(bounds(out@) =~= batch_list(count as int, batch_size as int));
    out
}

/// Every photo is in one batch and in no other, and a batch holds at least one
/// photo and at most `batch_size`.
pub proof fn every_photo_is_in_one_batch(count: int, batch_size: int, photo: int, i: int)
    requires
        0 < batch_size,
        0 <= photo < count,
        0 <= i < batch_count(count, batch_size),
    ensures
        0 <= photo / batch_size < batch_count(count, batch_size),
        batch_start(i, batch_size) <= photo < batch_end(i, batch_size, count) <==> i == photo
            / batch_size,
        batch_start(i, batch_size) < batch_end(i, batch_size, count) <= batch_start(i, batch_size)
            + batch_size,
{
    lemma_batch_count(count, batch_size);
    let b = photo / batch_size;
    assert(0 <= b && b * batch_size <= photo < (b + 1) * batch_size) by (nonlinear_arith)
        requires
            b == photo / batch_size,
            0 < batch_size,
            0 <= photo,
    ;
    assert(batch_start(b, batch_size) < count);
    assert(batch_start(i, batch_size) < count);
    assert((i + 1) * batch_size == i * batch_size + batch_size) by (nonlinear_arith);
    assert(i * batch_size <= photo < (i + 1) * batch_size <==> i == b) by (nonlinear_arith)
        requires
            0 < batch_size,
            b * batch_size <= photo < (b + 1) * batch_size,
    ;
}

/// The places of the readings that succeeded, in their order.
pub open spec fn readable_places(reads: Seq<Option<String>>) -> Seq<usize>
    decreases reads.len(),
{
    if reads.len() == 0 {
        Seq::empty()
    } else {
        let before = readable_places(reads.drop_last());
        if reads.last() is Some {
            before.push((reads.len() - 1) as usize)
        } else {
            before
        }
    }
}

/// What was read where a reading succeeded, in the same order.
pub open spec fn readable_texts(reads: Seq<Option<String>>) -> Seq<Seq<char>>
    decreases reads.len(),
{
    if reads.len() == 0 {
        Seq::empty()
    } else {
        let before = readable_texts(reads.drop_last());
        match text_of(reads.last()) {
            Some(t) => before.push(t),
            None => before,
        }
    }
}

/// Keeps the photos (or frames) that could be read. A file that could not is
/// left out, and the others are tagged all the same. The result is their places
/// and what was read, in the same order.
pub fn keep_readable(reads: &Vec<Option<String>>) -> (r: (Vec<usize>, Vec<String>))
    ensures
        r.0@ == readable_places(reads@),
        texts(r.1@) == readable_texts(reads@),
{
    let mut kept: Vec<usize> = Vec::new();
    let mut images: Vec<String> = Vec::new();
    for i in 0..reads.len()
        invariant
            kept@ == readable_places(reads@.take(i as int)),
            texts(images@) == readable_texts(reads@.take(i as int)),
    {
        assert(reads@.take(i + 1).drop_last() == reads@.take(i as int));
        assert(reads@.take(i + 1).last() == reads@[i as int]);
        if let Some(data) = &reads[i] {
            let ghost before = texts(images@);
            kept.push(i);
            images.push(data.clone());
            assert(texts(images@) =~= before.push(data@));
        }
    }
    assert(reads@.take(reads@.len() as int) == reads@);
    (kept, images)
}

/// The place of the reading at `i` among those that succeeded.
pub open spec fn rank(reads: Seq<Option<String>>, i: int) -> int {
    readable_places(reads.take(i)).len() as int
}

/// Exactly the files that could be read are kept, in their order: each stands
/// behind those before it that could be read, together with what was read.
pub proof fn readable_files_are_kept(reads: Seq<Option<String>>, i: int)
    requires
        reads.len() <= usize::MAX,
        0 <= i < reads.len(),
    ensures
        readable_places(reads).contains(i as usize) <==> reads[i] is Some,
        forall|k: int|
            0 <= k < readable_places(reads).len() ==> #[trigger] readable_places(reads)[k]
                < reads.len(),
        forall|a: int, b: int|
            0 <= a < b < readable_places(reads).len() ==> #[trigger] readable_places(reads)[a]
                < #[trigger] readable_places(reads)[b],
        readable_texts(reads).len() == readable_places(reads).len(),
        reads[i] is Some ==> 0 <= rank(reads, i) < readable_places(reads).len()
            && readable_places(reads)[rank(reads, i)] == i && Some(
            readable_texts(reads)[rank(reads, i)],
        ) == text_of(reads[i]),
    decreases reads.len(),
{
    let rest = reads.drop_last();
    lemma_places_below(reads);
    lemma_readable_lengths(reads);
    lemma_readable_lengths(rest);
    assert(reads.take(reads.len() - 1) =~= rest);
    if i < reads.len() - 1 {
        readable_files_are_kept(rest, i);
        assert(reads.take(i) =~= rest.take(i));
        if readable_places(rest).contains(i as usize) {
            let k = choose|k: int|
                0 <= k < readable_places(rest).len() && readable_places(rest)[k] == i as usize;
            assert(readable_places(reads)[k] == i as usize);
        }
        if readable_places(reads).contains(i as usize) {
            let k = choose|k: int|
                0 <= k < readable_places(reads).len() && readable_places(reads)[k] == i as usize;
            assert(readable_places(rest)[k] == i as usize);
        }
    } else if reads[i] is Some {
        assert(readable_places(reads)[rank(reads, i)] == i as usize);
    }
}

pub(crate) proof fn lemma_readable_lengths(reads: Seq<Option<String>>)
    ensures
        readable_texts(reads).len() == readable_places(reads).len() <= reads.len(),
    decreases reads.len(),
{
    if reads.len() > 0 {
        lemma_readable_lengths(reads.drop_last());
    }
}

proof fn lemma_places_below(reads: Seq<Option<String>>)
    requires
        reads.len() <= usize::MAX,
    ensures
        forall|k: int|
            0 <= k < readable_places(reads).len() ==> #[trigger] readable_places(reads)[k]
                < reads.len() && reads[readable_places(reads)[k] as int] is Some,
        forall|a: int, b: int|
            0 <= a < b < readable_places(reads).len() ==> #[trigger] readable_places(reads)[a]
                < #[trigger] readable_places(reads)[b],
    decreases reads.len(),
{
    if reads.len() > 0 {
        lemma_places_below(reads.drop_last());
        assert forall|k: int| 0 <= k < readable_places(reads).len() implies #[trigger] readable_places(
            reads,
        )[k] < reads.len() && reads[readable_places(reads)[k] as int] is Some by {
            if k < readable_places(reads.drop_last()).len() {
                assert(readable_places(reads)[k] == readable_places(reads.drop_last())[k]);
            }
        }
    }
}

/// The question for a batch of which `readable` photos could be read: none if
/// there is nothing to ask about.
pub fn batch_question(readable: usize) -> (r: Option<String>)
    ensures
        readable == 0 ==> r is None,
        readable > 0 ==> r is Some && r->0@ == photo_prompt(readable as nat),
{
    if readable == 0 {
        None
    } else {
        Some(build_prompt(readable))
    }
}

/// How a batch's photos and the results of the call belong together.
#[derive(Debug, PartialEq, Eq)]
pub struct Pairing {
    /// Each photo that gets a result, with it.
    pub paired: Vec<(usize, StockMetadata)>,
    /// The photos that get none.
    pub missing: Vec<usize>,
    /// Whether there were not as many results as photos.
    pub mismatch: bool,
}

/// The text of a `Pairing`.
pub ghost struct PairingText {
    pub paired: Seq<(usize, MetadataText)>,
    pub missing: Seq<usize>,
    pub mismatch: bool,
}

impl View for Pairing {
    type V = PairingText;

    open spec fn view(&self) -> PairingText {
        PairingText {
            paired: self.paired@.map_values(|p: (usize, StockMetadata)| (p.0, p.1@)),
            missing: self.missing@,
            mismatch: self.mismatch,
        }
    }
}

pub open spec fn pair_count(photos: int, results: int) -> int {
    if photos < results {
        photos
    } else {
        results
    }
}

/// Each photo with the result at its place, as far as there are results.
pub open spec fn pairing(photos: Seq<usize>, results: Seq<MetadataText>) -> PairingText {
    let n = pair_count(photos.len() as int, results.len() as int);
    PairingText {
        paired: Seq::new(n as nat, |i: int| (photos[i], results[i])),
        missing: photos.skip(n),
        mismatch: photos.len() != results.len(),
    }
}

/// Gives each photo the result at its place, as far as there are results.
/// Results beyond the last photo are dropped.
pub fn pair_by_order(photos: &Vec<usize>, results: &Vec<StockMetadata>) -> (r: Pairing)
    ensures
        r@ == pairing(photos@, metadata_texts(results@)),
{
    let mut paired: Vec<(usize, StockMetadata)> = Vec::new();
    let mut missing: Vec<usize> = Vec::new();
    for i in 0..photos.len()
        invariant
            paired@.len() == pair_count(i as int, results@.len() as int),
            forall|j: int|
                0 <= j < paired@.len() ==> (#[trigger] paired@[j]).0 == photos@[j]
                    && paired@[j].1@ == results@[j]@,
            missing@ == photos@.subrange(paired@.len() as int, i as int),
    {
        if i < results.len() {
            paired.push((photos[i], results[i].clone()));
        } else {
            missing.push(photos[i]);
        }
        assert(missing@ =~= photos@.subrange(paired@.len() as int, i + 1));
    }
    let r = Pairing { paired, missing, mismatch: photos.len() != results.len() };
    let ghost expected = pairing(photos@, metadata_texts(results@));
    assert(r@.paired =~= expected.paired);
    assert(r@.missing =~= expected.missing);
    r
}

/// The pause before the next call: only where a call was made, and not after the
/// last batch (or video).
pub open spec fn pause_before_next(
    index: int,
    total: int,
    asked: bool,
    rate_limit_ms: u64,
) -> Option<u64> {
    if asked && index + 1 < total {
        Some(rate_limit_ms)
    } else {
        None
    }
}

/// Tells how long to wait after the batch at place `index` of `total`.
pub fn pause_after(index: usize, total: usize, asked: bool, rate_limit_ms: u64) -> (r: Option<u64>)
    ensures
        r == pause_before_next(index as int, total as int, asked, rate_limit_ms),
{
    if asked && index < total && total - index > 1 {
        Some(rate_limit_ms)
    } else {
        None
    }
}

/// No photo of a batch is lost: it gets the result at its place or is reported
/// to have none, and it is reported only where there are too few results.
pub proof fn every_photo_is_accounted_for(
    photos: Seq<usize>,
    results: Seq<MetadataText>,
    i: int,
)
    requires
        0 <= i < photos.len(),
    ensures
        i < results.len() ==> pairing(photos, results).paired[i] == (photos[i], results[i]),
        i >= results.len() ==> pairing(photos, results).missing[i - results.len()] == photos[i],
        pairing(photos, results).paired.len() + pairing(photos, results).missing.len()
            == photos.len(),
        results.len() >= photos.len() ==> pairing(photos, results).missing.len() == 0,
{
}

/// What comes next.
#[derive(Debug, PartialEq, Eq)]
pub enum PhotoStage {
    /// The photos of the batch are read.
    Read,
    /// The service is asked about the photos at `places` in the batch, which are
    /// sent under a label.
    Ask { places: Vec<usize>, label: &'static str, images: Vec<String>, prompt: String },
    /// The results are embedded.
    Embed(Pairing),
    /// Before the next batch there is a pause, in milliseconds.
    Pause(u64),
    /// There is nothing left to do.
    Finished,
}

/// What happened.
#[derive(Debug, PartialEq, Eq)]
pub enum PhotoEvent {
    /// The photos of the batch were read, each or not.
    BatchRead(Vec<Option<String>>),
    /// The service answered with results.
    Answered(Vec<StockMetadata>),
    /// The call failed.
    CallFailed,
    /// The results were embedded, as far as they could be.
    Embedded,
    /// The pause is over.
    Paused,
}

/// The text of a `PhotoStage`.
pub ghost enum PhotoStageText {
    Read,
    Ask { places: Seq<usize>, label: Seq<char>, images: Seq<Seq<char>>, prompt: Seq<char> },
    Embed(PairingText),
    Pause(u64),
    Finished,
}

impl View for PhotoStage {
    type V = PhotoStageText;

    open spec fn view(&self) -> PhotoStageText {
        match self {
            PhotoStage::Read => PhotoStageText::Read,
            PhotoStage::Ask { places, label, images, prompt } => PhotoStageText::Ask {
                places: places@,
                label: label@,
                images: texts(images@),
                prompt: prompt@,
            },
            PhotoStage::Embed(p) => PhotoStageText::Embed(p@),
            PhotoStage::Pause(ms) => PhotoStageText::Pause(*ms),
            PhotoStage::Finished => PhotoStageText::Finished,
        }
    }
}

/// The tagging of a list of photos.
#[derive(Debug, PartialEq, Eq)]
pub struct PhotoRun {
    parts: Vec<(usize, usize)>,
    index: usize,
    rate_limit_ms: u64,
    stage: PhotoStage,
}

/// The text of a `PhotoRun`.
pub ghost struct PhotoState {
    /// The batches.
    pub parts: Seq<(int, int)>,
    /// The place of the batch that is worked on.
    pub index: int,
    pub rate_limit_ms: u64,
    pub stage: PhotoStageText,
}

impl View for PhotoRun {
    type V = PhotoState;

    closed spec fn view(&self) -> PhotoState {
        PhotoState {
            parts: bounds(self.parts@),
            index: self.index as int,
            rate_limit_ms: self.rate_limit_ms,
            stage: self.stage@,
        }
    }
}

impl PhotoState {
    /// The batch that is worked on is one of the list.
    pub open spec fn wf(self) -> bool {
        0 <= self.index && (self.stage is Finished || self.index < self.parts.len())
    }

    /// The batch at place `batch` is behind.
    pub open spec fn passed(self, batch: int) -> bool {
        batch < self.index || (batch == self.index && self.stage is Finished)
    }
}

/// Where the tagging of `count` photos starts.
pub open spec fn photo_start(count: int, batch_size: int, rate_limit_ms: u64) -> PhotoState {
    let parts = batch_list(count, batch_size);
    PhotoState {
        parts,
        index: 0,
        rate_limit_ms,
        stage: if parts.len() > 0 {
            PhotoStageText::Read
        } else {
            PhotoStageText::Finished
        },
    }
}

/// The next batch, or the end.
pub open spec fn next_batch(st: PhotoState) -> PhotoState {
    if st.index + 1 < st.parts.len() {
        PhotoState { index: st.index + 1, stage: PhotoStageText::Read, ..st }
    } else {
        PhotoState { stage: PhotoStageText::Finished, ..st }
    }
}

/// What comes behind a batch for which a call was made.
pub open spec fn behind_call(st: PhotoState) -> PhotoState {
    match pause_before_next(st.index, st.parts.len() as int, true, st.rate_limit_ms) {
        Some(ms) => PhotoState { stage: PhotoStageText::Pause(ms), ..st },
        None => next_batch(st),
    }
}

/// What an event leads to; one that does not belong to the stage leads nowhere.
/// To the reading of a batch belongs one outcome for each of its photos.
pub open spec fn after_photo_event(st: PhotoState, event: PhotoEvent) -> PhotoState {
    match (st.stage, event) {
        (PhotoStageText::Read, PhotoEvent::BatchRead(reads)) => {
            let places = readable_places(reads@);
            if reads@.len() != st.parts[st.index].1 - st.parts[st.index].0 {
                st
            } else if places.len() == 0 {
                next_batch(st)
            } else {
                PhotoState {
                    stage: PhotoStageText::Ask {
                        places,
                        label: PHOTO_LABEL@,
                        images: readable_texts(reads@),
                        prompt: photo_prompt(places.len()),
                    },
                    ..st
                }
            }
        },
        (PhotoStageText::Ask { places, .. }, PhotoEvent::Answered(results)) => PhotoState {
            stage: PhotoStageText::Embed(pairing(places, metadata_texts(results@))),
            ..st
        },
        (PhotoStageText::Ask { .. }, PhotoEvent::CallFailed) => behind_call(st),
        (PhotoStageText::Embed(_), PhotoEvent::Embedded) => behind_call(st),
        (PhotoStageText::Pause(_), PhotoEvent::Paused) => next_batch(st),
        _ => st,
    }
}

impl PhotoRun {
    #[verifier::type_invariant]
    spec fn inv(self) -> bool {
        self@.wf()
    }

    /// Starts the tagging of `count` photos.
    pub fn new(count: usize, batch_size: usize, rate_limit_ms: u64) -> (r: Self)
        requires
            batch_size > 0,
        ensures
            r@ == photo_start(count as int, batch_size as int, rate_limit_ms),
    {
        let parts = batches(count, batch_size);
        assert(bounds(parts@).len() == parts@.len());
        let stage = if parts.len() > 0 {
            PhotoStage::Read
        } else {
            PhotoStage::Finished
        };
        PhotoRun { parts, index: 0, rate_limit_ms, stage }
    }

    /// The place of the batch that is worked on.
    pub fn index(&self) -> (r: usize)
        ensures
            r == self@.index,
    {
        self.index
    }

    /// How many batches there are.
    pub fn total(&self) -> (r: usize)
        ensures
            r == self@.parts.len(),
    {
        self.parts.len()
    }

    /// The first place of the batch that is worked on and the place behind its
    /// last; none if there is no batch.
    pub fn batch(&self) -> (r: Option<(usize, usize)>)
        ensures
            self@.index >= self@.parts.len() ==> r is None,
            self@.index < self@.parts.len() ==> (r matches Some(p) && (p.0 as int, p.1 as int)
                == self@.parts[self@.index]),
    {
        if self.index < self.parts.len() {
            Some(self.parts[self.index])
        } else {
            None
        }
    }

    pub fn stage(&self) -> (r: &PhotoStage)
        ensures
            r@ == self@.stage,
    {
        &self.stage
    }

    fn go_on(&mut self)
        requires
            old(self)@.index < old(self)@.parts.len(),
        ensures
            final(self)@ == next_batch(old(self)@),
    {
        proof {
            use_type_invariant(&*self);
        }
        if self.parts.len() - self.index > 1 {
            self.index = self.index + 1;
            self.stage = PhotoStage::Read;
        } else {
            self.stage = PhotoStage::Finished;
        }
    }

    fn leave_batch(&mut self)
        requires
            old(self)@.index < old(self)@.parts.len(),
        ensures
            final(self)@ == behind_call(old(self)@),
    {
        proof {
            use_type_invariant(&*self);
        }
        match pause_after(self.index, self.parts.len(), true, self.rate_limit_ms) {
            Some(ms) => {
                self.stage = PhotoStage::Pause(ms);
            },
            None => self.go_on(),
        }
    }

    /// Takes in what happened.
    pub fn advance(&mut self, event: &PhotoEvent)
        ensures
            final(self)@ == after_photo_event(old(self)@, *event),
            final(self)@.wf(),
    {
        proof {
            use_type_invariant(&*self);
        }
        match (&self.stage, event) {
            (PhotoStage::Read, PhotoEvent::BatchRead(reads)) => {
                let (start, end) = self.parts[self.index];
                if start <= end && reads.len() == end - start {
                    let (places, images) = keep_readable(reads);
                    match batch_question(places.len()) {
                        Some(prompt) => {
                            self.stage =
                            PhotoStage::Ask { places, label: PHOTO_LABEL, images, prompt };
                        },
                        None => self.go_on(),
                    }
                }
            },
            (PhotoStage::Ask { places, .. }, PhotoEvent::Answered(results)) => {
                self.stage = PhotoStage::Embed(pair_by_order(places, results));
            },
            (PhotoStage::Ask { .. }, PhotoEvent::CallFailed) => self.leave_batch(),
            (PhotoStage::Embed(_), PhotoEvent::Embedded) => self.leave_batch(),
            (PhotoStage::Pause(_), PhotoEvent::Paused) => self.go_on(),
            _ => {},
        }
    }
}

/// A photo that cannot be read costs no other photo its tags: whichever of a
/// batch fail, each photo that was read is sent, and gets the result at its place
/// among those that were sent.
pub proof fn readable_photos_get_their_results(
    st: PhotoState,
    reads: Vec<Option<String>>,
    results: Vec<StockMetadata>,
    i: int,
)
    requires
        st.stage is Read,
        reads@.len() == st.parts[st.index].1 - st.parts[st.index].0,
        0 <= i < reads@.len(),
        reads@[i] is Some,
    ensures
        ({
            let asked = after_photo_event(st, PhotoEvent::BatchRead(reads)).stage;
            let told = after_photo_event(
                after_photo_event(st, PhotoEvent::BatchRead(reads)),
                PhotoEvent::Answered(results),
            ).stage;
            let k = rank(reads@, i);
            &&& asked is Ask
            &&& asked->label == PHOTO_LABEL@
            &&& 0 <= k < asked->images.len()
            &&& Some(asked->images[k]) == text_of(reads@[i])
            &&& told is Embed
            &&& k < results@.len() ==> told->Embed_0.paired[k] == (i as usize, results@[k]@)
            &&& k >= results@.len() ==> told->Embed_0.missing[k - results@.len()] == i as usize
        }),
{
    assert(reads@.len() == reads.len());
    readable_files_are_kept(reads@, i);
    every_photo_is_accounted_for(
        readable_places(reads@),
        metadata_texts(results@),
        rank(reads@, i),
    );
}

/// Where the events lead.
pub open spec fn after_photo_events(st: PhotoState, events: Seq<PhotoEvent>) -> PhotoState
    decreases events.len(),
{
    if events.len() == 0 {
        st
    } else {
        after_photo_event(after_photo_events(st, events.drop_last()), events.last())
    }
}

/// Whatever happens, the batches are taken in their order and none is taken
/// twice: the place only moves on, one at a time, to the reading of the next.
pub proof fn batches_are_taken_in_order(st: PhotoState, event: PhotoEvent)
    requires
        st.wf(),
    ensures
        after_photo_event(st, event).wf(),
        after_photo_event(st, event).parts == st.parts,
        after_photo_event(st, event).rate_limit_ms == st.rate_limit_ms,
        after_photo_event(st, event).index == st.index || (after_photo_event(st, event).index
            == st.index + 1 && after_photo_event(st, event).stage is Read),
        after_photo_event(st, event).stage is Read && after_photo_event(st, event) != st
            ==> after_photo_event(st, event).index == st.index + 1,
{
}

/// Whatever happens, the work ends only behind the last batch.
pub proof fn no_batch_is_left_out(
    count: int,
    batch_size: int,
    rate_limit_ms: u64,
    events: Seq<PhotoEvent>,
)
    requires
        0 <= count,
        0 < batch_size,
    ensures
        ({
            let end = after_photo_events(photo_start(count, batch_size, rate_limit_ms), events);
            &&& end.wf()
            &&& end.parts == batch_list(count, batch_size)
            &&& end.stage is Finished ==> count == 0 || end.index == batch_count(count, batch_size)
                - 1
        }),
    decreases events.len(),
{
    lemma_batch_count(count, batch_size);
    assert(batch_start(0, batch_size) == 0) by (nonlinear_arith);
    if events.len() > 0 {
        no_batch_is_left_out(count, batch_size, rate_limit_ms, events.drop_last());
    }
}

/// How many calls the events end for the batch at place `batch`.
pub open spec fn calls_for(st: PhotoState, events: Seq<PhotoEvent>, batch: int) -> nat
    decreases events.len(),
{
    if events.len() == 0 {
        0
    } else {
        let before = after_photo_events(st, events.drop_last());
        let ended = before.stage is Ask && before.index == batch && (events.last() is Answered
            || events.last() is CallFailed);
        calls_for(st, events.drop_last(), batch) + if ended {
            1nat
        } else {
            0
        }
    }
}

/// Whether one of the photos of the batch at place `batch` could be read.
pub open spec fn could_be_read(st: PhotoState, events: Seq<PhotoEvent>, batch: int) -> bool
    decreases events.len(),
{
    if events.len() == 0 {
        false
    } else {
        let before = after_photo_events(st, events.drop_last());
        ||| could_be_read(st, events.drop_last(), batch)
        ||| before.stage is Read && before.index == batch && (events.last() matches
            PhotoEvent::BatchRead(reads) && reads@.len() == before.parts[batch].1
            - before.parts[batch].0 && readable_places(reads@).len() > 0)
    }
}

/// There is one call for each batch of which a photo could be read, and none for
/// another, whatever happened to it and to the other batches.
pub proof fn one_call_for_each_batch(
    count: int,
    batch_size: int,
    rate_limit_ms: u64,
    events: Seq<PhotoEvent>,
    batch: int,
)
    requires
        0 <= count,
        0 < batch_size,
        0 <= batch < batch_count(count, batch_size),
    ensures
        ({
            let start = photo_start(count, batch_size, rate_limit_ms);
            let end = after_photo_events(start, events);
            &&& calls_for(start, events, batch) <= 1
            &&& end.passed(batch) ==> (calls_for(start, events, batch) == 1 <==> could_be_read(
                start,
                events,
                batch,
            ))
        }),
{
    lemma_calls(count, batch_size, rate_limit_ms, events, batch);
}

proof fn lemma_calls(
    count: int,
    batch_size: int,
    rate_limit_ms: u64,
    events: Seq<PhotoEvent>,
    batch: int,
)
    requires
        0 <= count,
        0 < batch_size,
        0 <= batch < batch_count(count, batch_size),
    ensures
        ({
            let start = photo_start(count, batch_size, rate_limit_ms);
            let end = after_photo_events(start, events);
            let calls = calls_for(start, events, batch);
            let readable = could_be_read(start, events, batch);
            if end.index < batch || (end.index == batch && end.stage is Read) {
                calls == 0 && !readable
            } else if end.index == batch && end.stage is Ask {
                calls == 0 && readable
            } else if end.index == batch && !(end.stage is Finished) {
                calls == 1 && readable
            } else {
                calls <= 1 && (calls == 1 <==> readable)
            }
        }),
    decreases events.len(),
{
    if events.len() > 0 {
        let rest = events.drop_last();
        lemma_calls(count, batch_size, rate_limit_ms, rest, batch);
        no_batch_is_left_out(count, batch_size, rate_limit_ms, rest);
    }
}

/// How much work is left.
pub open spec fn photo_work_left(st: PhotoState) -> int {
    (st.parts.len() - st.index) * 5 + match st.stage {
        PhotoStageText::Read => 4int,
        PhotoStageText::Ask { .. } => 3,
        PhotoStageText::Embed(_) => 2,
        PhotoStageText::Pause(_) => 1,
        PhotoStageText::Finished => 0,
    }
}

/// The work comes to an end: an event that belongs to the stage brings it nearer.
pub proof fn batches_come_to_an_end(st: PhotoState, event: PhotoEvent)
    requires
        st.wf(),
        st.index < st.parts.len(),
    ensures
        after_photo_event(st, event) != st ==> 0 <= photo_work_left(after_photo_event(st, event))
            < photo_work_left(st),
{
}

/// A call is followed by a pause unless it was for the last batch; where no call
/// was made there is none.
pub proof fn pauses_separate_batches(st: PhotoState, event: PhotoEvent)
    requires
        st.wf(),
        !(st.stage is Pause),
    ensures
        after_photo_event(st, event).stage is Pause ==> after_photo_event(st, event).stage
            == PhotoStageText::Pause(st.rate_limit_ms),
        after_photo_event(st, event).stage is Pause <==> st.index + 1 < st.parts.len() && ((
        st.stage is Ask && event is CallFailed) || (st.stage is Embed && event is Embedded)),
{
}

/// The batches follow one another without a gap: the first starts with the first
/// photo, each of the others starts where the one before it ends, and the last
/// ends with the last photo. All hold `batch_size` photos but the last, which
/// holds no more. These are the batches that are worked on.
pub proof fn batches_follow_one_another(
    count: int,
    batch_size: int,
    rate_limit_ms: u64,
    i: int,
)
    requires
        0 <= count,
        0 < batch_size,
    ensures
        ({
            let list = batch_list(count, batch_size);
            let n = list.len() as int;
            &&& n == 0 <==> count == 0
            &&& count > 0 ==> list[0].0 == 0 && list[n - 1].1 == count
            &&& 0 <= i < n - 1 ==> list[i].1 == list[i + 1].0 && list[i].1 - list[i].0 == batch_size
            &&& 0 <= i < n ==> 0 < list[i].1 - list[i].0 <= batch_size && 0 <= list[i].0
                && list[i].1 <= count
            &&& photo_start(count, batch_size, rate_limit_ms).parts == list
            &&& photo_start(count, batch_size, rate_limit_ms).index == 0
            &&& photo_start(count, batch_size, rate_limit_ms).stage is Read <==> count > 0
        }),
{
    lemma_batch_count(count, batch_size);
    let n = batch_count(count, batch_size);
    assert(batch_start(0, batch_size) == 0) by (nonlinear_arith);
    if count > 0 {
        assert(batch_start(0, batch_size) < count);
        assert(!(batch_start(n, batch_size) < count));
        assert(n - 1 + 1 == n);
    }
    if 0 <= i < n {
        assert(batch_start(i, batch_size) < count);
        assert((i + 1) * batch_size == i * batch_size + batch_size) by (nonlinear_arith);
        assert(0 <= i * batch_size) by (nonlinear_arith)
            requires
                0 <= i,
                0 < batch_size,
        ;
        if i < n - 1 {
            assert(batch_start(i + 1, batch_size) < count);
        }
    }
}

/// Every photo is in one batch of the list that is worked on, and in no other.
pub proof fn every_photo_is_worked_on(count: int, batch_size: int, photo: int) -> (b: int)
    requires
        0 < batch_size,
        0 <= photo < count,
    ensures
        0 <= b < batch_list(count, batch_size).len(),
        forall|i: int|
            0 <= i < batch_list(count, batch_size).len() ==> ((#[trigger] batch_list(
                count,
                batch_size,
            )[i]).0 <= photo < batch_list(count, batch_size)[i].1 <==> i == b),
{
    lemma_batch_count(count, batch_size);
    assert(batch_start(0, batch_size) == 0) by (nonlinear_arith);
    assert(batch_start(0, batch_size) < count);
    every_photo_is_in_one_batch(count, batch_size, photo, 0);
    assert forall|i: int| 0 <= i < batch_list(count, batch_size).len() implies ((
    #[trigger] batch_list(count, batch_size)[i]).0 <= photo < batch_list(count, batch_size)[i].1
        <==> i == photo / batch_size) by {
        every_photo_is_in_one_batch(count, batch_size, photo, i);
    }
    photo / batch_size
}

/// The list of batches is seen as it is.
pub proof fn batches_are_seen_whole(parts: Seq<(usize, usize)>, i: int)
    ensures
        bounds(parts).len() == parts.len(),
        0 <= i < parts.len() ==> bounds(parts)[i] == (parts[i].0 as int, parts[i].1 as int),
{
}

/// As many photos get a result as there are both photos and results, each the one
/// at its place, whole. A difference in number is noticed.
pub proof fn results_go_to_photos_in_order(photos: Seq<usize>, results: Seq<MetadataText>, i: int)
    ensures
        ({
            let r = pairing(photos, results);
            &&& photos.len() <= results.len() ==> r.paired.len() == photos.len() && r.missing.len()
                == 0
            &&& results.len() <= photos.len() ==> r.paired.len() == results.len() && r.missing
                == photos.subrange(results.len() as int, photos.len() as int)
            &&& 0 <= i < photos.len() && i < results.len() ==> r.paired[i] == (photos[i], results[i])
            &&& r.mismatch <==> photos.len() != results.len()
        }),
{
    let r = pairing(photos, results);
    if results.len() <= photos.len() {
        assert(r.missing =~= photos.subrange(results.len() as int, photos.len() as int));
    }
}

/// There is a pause of the configured length exactly if a call was made and
/// another batch (or video) follows.
pub proof fn pauses_are_as_long_as_configured(
    index: int,
    total: int,
    asked: bool,
    rate_limit_ms: u64,
)
    ensures
        pause_before_next(index, total, asked, rate_limit_ms) is Some <==> asked && index + 1
            < total,
        pause_before_next(index, total, asked, rate_limit_ms) matches Some(ms) ==> ms
            == rate_limit_ms,
{
}

/// The files that could be read, one file more: one that could be read is added
/// behind the rest, with its place and all that was read, and one that could not
/// adds nothing.
pub proof fn readable_files_are_taken_one_by_one(reads: Seq<Option<String>>, s: String)
    requires
        reads.len() < usize::MAX,
    ensures
        readable_places(Seq::empty()) == Seq::<usize>::empty(),
        readable_texts(Seq::empty()) == Seq::<Seq<char>>::empty(),
        readable_places(reads.push(None)) == readable_places(reads),
        readable_texts(reads.push(None)) == readable_texts(reads),
        readable_places(reads.push(Some(s))) == readable_places(reads).push(reads.len() as usize),
        readable_texts(reads.push(Some(s))) == readable_texts(reads).push(s@),
{
    assert(reads.push(None).drop_last() =~= reads);
    assert(reads.push(Some(s)).drop_last() =~= reads);
}

/// The course of a batch. Of the photos that could be read all are sent, behind a
/// prompt for their number and under their label; if there is none, the next batch
/// is read. Behind a call that failed and behind the embedding of results comes a
/// pause, and then the next batch; behind the last batch comes the end.
pub proof fn a_batch_takes_its_course(
    st: PhotoState,
    reads: Vec<Option<String>>,
    results: Vec<StockMetadata>,
)
    requires
        0 <= st.index < st.parts.len(),
    ensures
        st.stage is Read && reads@.len() == st.parts[st.index].1 - st.parts[st.index].0 ==> ({
            let next = after_photo_event(st, PhotoEvent::BatchRead(reads));
            if readable_texts(reads@).len() > 0 {
                &&& next.index == st.index
                &&& next.stage == (PhotoStageText::Ask {
                    places: readable_places(reads@),
                    label: "Image"@,
                    images: readable_texts(reads@),
                    prompt: photo_prompt(readable_texts(reads@).len()),
                })
            } else if st.index + 1 < st.parts.len() {
                next.index == st.index + 1 && next.stage is Read
            } else {
                next.stage is Finished
            }
        }),
        st.stage is Ask ==> after_photo_event(st, PhotoEvent::Answered(results)).stage
            == PhotoStageText::Embed(pairing(st.stage->places, metadata_texts(results@)))
            && after_photo_event(st, PhotoEvent::Answered(results)).index == st.index,
        st.stage is Ask ==> ({
            let next = after_photo_event(st, PhotoEvent::CallFailed);
            if st.index + 1 < st.parts.len() {
                next.index == st.index && next.stage == PhotoStageText::Pause(st.rate_limit_ms)
            } else {
                next.stage is Finished
            }
        }),
        st.stage is Embed ==> ({
            let next = after_photo_event(st, PhotoEvent::Embedded);
            if st.index + 1 < st.parts.len() {
                next.index == st.index && next.stage == PhotoStageText::Pause(st.rate_limit_ms)
            } else {
                next.stage is Finished
            }
        }),
        st.stage is Pause ==> ({
            let next = after_photo_event(st, PhotoEvent::Paused);
            if st.index + 1 < st.parts.len() {
                next.index == st.index + 1 && next.stage is Read
            } else {
                next.stage is Finished
            }
        }),
{
    lemma_readable_lengths(reads@);
}

/// The stages in which photos are tagged are seen as they are.
pub proof fn photo_stages_are_seen_whole(stage: PhotoStage, p: Pairing, i: int)
    ensures
        stage matches PhotoStage::Ask { places, label, images, prompt } ==> stage@ is Ask
            && stage@->places == places@ && stage@->label == label@ && stage@->images == texts(
            images@,
        ) && stage@->prompt == prompt@,
        stage matches PhotoStage::Embed(q) ==> stage@ == PhotoStageText::Embed(q@),
        stage matches PhotoStage::Pause(ms) ==> stage@ == PhotoStageText::Pause(ms),
        stage is Read <==> stage@ is Read,
        stage is Finished <==> stage@ is Finished,
        p@.missing == p.missing@,
        p@.mismatch == p.mismatch,
        p@.paired.len() == p.paired@.len(),
        0 <= i < p.paired@.len() ==> p@.paired[i] == (p.paired@[i].0, p.paired@[i].1@),
{
}

} // verus!

//! How metadata gets into a file: the runs of `exiftool`, one after the other.
use vstd::prelude::*;

use crate::config::ExtraTags;
use crate::metadata::StockMetadata;
use crate::tools::{
    push_file, push_flag, push_text, read_queried_value, tool_result, Arg, ToolOutcome,
};

verus! {

use crate::config::ExtraText;
use crate::metadata::{
    distinct_keywords, keyword_form, keywords_are_kept, keywords_never_grow, MetadataText,
};
use crate::text::{
    ascii_lowercase_is_stable, has_prefix, is_ascii_text, text_of, texts, trimmed,
};
use crate::tools::{
    command_line, queried_value, tells_something, tool_failure, what_is_told_is_read, ArgText,
};

/// How many keywords a file gets at most.
pub const MAX_KEYWORDS: usize = 25;

/// The two kinds of files that are tagged.
#[derive(Clone, Copy, Debug, PartialEq, Eq, Structural)]
pub enum MediaKind {
    /// A JPEG photo: IPTC, XMP and EXIF tags.
    Photo,
    /// A QuickTime video: XMP tags and QuickTime keys.
    Video,
}

/// The next run of the tool, or how the runs ended.
#[derive(Debug, PartialEq, Eq)]
pub enum EmbedStep {
    /// Clears the keywords. A list of keywords cannot be cleared and filled in
    /// one run, so this is a run of its own; that it fails stops nothing.
    Clear,
    /// Reads the maker of the camera.
    ReadMake,
    /// Reads the model of the camera.
    ReadModel,
    /// Writes the tags and keeps all others.
    Write,
    /// Writes the tags and rebuilds the block that holds a photo's IPTC tags,
    /// which may lose others. Some photos come with a malformed block.
    Rebuild,
    /// The tags are written.
    Done,
    /// The tags could not be written, for the given reason.
    Failed(String),
}

/// What there is to warn of after a run.
#[derive(Debug, PartialEq, Eq)]
pub enum Notice {
    /// The keywords could not be cleared, for the given reason.
    NotCleared(String),
    /// The photo's IPTC tags could not be written without a rebuild.
    Rebuilding,
}

/// The runs by which one file gets its metadata.
#[derive(Debug, PartialEq, Eq)]
pub struct Embedding {
    pub kind: MediaKind,
    pub metadata: StockMetadata,
    pub extras: ExtraTags,
    /// The maker of the camera, if it is to be added.
    pub make: Option<String>,
    /// The model of the camera, if it is to be added.
    pub model: Option<String>,
    pub step: EmbedStep,
}

/// The text of an `EmbedStep`.
pub ghost enum StepText {
    Clear,
    ReadMake,
    ReadModel,
    Write,
    Rebuild,
    Done,
    Failed(Seq<char>),
}

/// The text of a `Notice`.
pub ghost enum NoticeText {
    NotCleared(Seq<char>),
    Rebuilding,
}

/// The text of an `Embedding`.
pub ghost struct EmbedState {
    pub kind: MediaKind,
    pub metadata: MetadataText,
    pub extras: ExtraText,
    pub make: Option<Seq<char>>,
    pub model: Option<Seq<char>>,
    pub step: StepText,
}

impl View for EmbedStep {
    type V = StepText;

    open spec fn view(&self) -> StepText {
        match self {
            EmbedStep::Clear => StepText::Clear,
            EmbedStep::ReadMake => StepText::ReadMake,
            EmbedStep::ReadModel => StepText::ReadModel,
            EmbedStep::Write => StepText::Write,
            EmbedStep::Rebuild => StepText::Rebuild,
            EmbedStep::Done => StepText::Done,
            EmbedStep::Failed(e) => StepText::Failed(e@),
        }
    }
}

impl View for Embedding {
    type V = EmbedState;

    open spec fn view(&self) -> EmbedState {
        EmbedState {
            kind: self.kind,
            metadata: self.metadata@,
            extras: self.extras@,
            make: text_of(self.make),
            model: text_of(self.model),
            step: self.step@,
        }
    }
}

pub open spec fn notice_text(n: Option<Notice>) -> Option<NoticeText> {
    match n {
        Some(Notice::NotCleared(e)) => Some(NoticeText::NotCleared(e@)),
        Some(Notice::Rebuilding) => Some(NoticeText::Rebuilding),
        None => None,
    }
}

/// An argument of two parts.
pub open spec fn tag(option: Seq<char>, value: Seq<char>) -> ArgText {
    ArgText::Text(option + value)
}

/// The argument for a tag that is only written if there is a value for it.
pub open spec fn optional_tag(option: Seq<char>, value: Option<Seq<char>>) -> Seq<ArgText> {
    match value {
        Some(v) => seq![tag(option, v)],
        None => Seq::empty(),
    }
}

/// The keywords without the white space around them, and without blank ones.
pub open spec fn filled_keywords(ks: Seq<Seq<char>>) -> Seq<Seq<char>>
    decreases ks.len(),
{
    if ks.len() == 0 {
        Seq::empty()
    } else {
        let before = filled_keywords(ks.drop_last());
        if trimmed(ks.last()).len() == 0 {
            before
        } else {
            before.push(trimmed(ks.last()))
        }
    }
}

/// The keywords that are written into a file: the first of the filled ones, up to
/// the limit.
pub open spec fn embedded_keywords(ks: Seq<Seq<char>>) -> Seq<Seq<char>> {
    let filled = filled_keywords(ks);
    if filled.len() <= MAX_KEYWORDS {
        filled
    } else {
        filled.take(MAX_KEYWORDS as int)
    }
}

/// The command line that clears a file's keywords.
pub open spec fn clear_line(kind: MediaKind) -> Seq<ArgText> {
    seq![
        ArgText::Text("-overwrite_original"@),
        ArgText::Text("-m"@),
        ArgText::Text("-XMP-dc:Subject="@),
        match kind {
            MediaKind::Photo => ArgText::Text("-IPTC:Keywords="@),
            MediaKind::Video => ArgText::Text("-Keys:Keywords="@),
        },
        ArgText::File,
    ]
}

/// The command line that reads one field of a file.
pub open spec fn query_line(field: Seq<char>) -> Seq<ArgText> {
    seq![ArgText::Text("-s3"@), tag("-"@, field), ArgText::File]
}

/// The field that holds the maker of the camera.
pub open spec fn make_field(kind: MediaKind) -> Seq<char> {
    match kind {
        MediaKind::Photo => "EXIF:Make"@,
        MediaKind::Video => "Make"@,
    }
}

/// The field that holds the model of the camera.
pub open spec fn model_field(kind: MediaKind) -> Seq<char> {
    match kind {
        MediaKind::Photo => "EXIF:Model"@,
        MediaKind::Video => "Model"@,
    }
}

/// The arguments that add keywords to a photo, each as IPTC and as XMP.
pub open spec fn photo_keyword_tags(ks: Seq<Seq<char>>) -> Seq<ArgText>
    decreases ks.len(),
{
    if ks.len() == 0 {
        Seq::empty()
    } else {
        photo_keyword_tags(ks.drop_last()).push(tag("-IPTC:Keywords+="@, ks.last())).push(
            tag("-XMP-dc:Subject+="@, ks.last()),
        )
    }
}

/// The arguments for the country of a photo.
pub open spec fn photo_country_tags(country: Option<Seq<char>>) -> Seq<ArgText> {
    match country {
        Some(c) => seq![
            tag("-IPTC:Country-PrimaryLocationName="@, c),
            tag("-XMP-photoshop:Country="@, c),
            tag("-XMP-iptcExt:LocationCreatedCountryName="@, c),
            tag("-XMP-iptcExt:LocationShownCountryName="@, c),
        ],
        None => Seq::empty(),
    }
}

/// The arguments with which the writing of a photo's tags starts.
pub open spec fn photo_head(rebuild: bool) -> Seq<ArgText> {
    seq![
        ArgText::Text("-overwrite_original"@),
        ArgText::Text("-m"@),
        ArgText::Text("-codedcharacterset=utf8"@),
    ] + (if rebuild {
        seq![ArgText::Text("-Photoshop:all="@)]
    } else {
        Seq::empty()
    })
}

/// The arguments for the title and the caption of a photo.
pub open spec fn photo_text_tags(m: MetadataText) -> Seq<ArgText> {
    seq![
        tag("-IPTC:ObjectName="@, m.title),
        tag("-IPTC:Caption-Abstract="@, m.description),
        tag("-XMP-dc:Title="@, m.title),
        tag("-XMP-dc:Description="@, m.description),
    ]
}

/// The command line that writes a photo's tags. It keeps all other tags unless
/// the block of the IPTC tags is rebuilt.
pub open spec fn photo_line(st: EmbedState, rebuild: bool) -> Seq<ArgText> {
    (photo_head(rebuild) + photo_text_tags(st.metadata) + photo_keyword_tags(
        embedded_keywords(st.metadata.keywords),
    ) + photo_country_tags(st.extras.country) + optional_tag("-EXIF:Make="@, st.make)
        + optional_tag("-EXIF:Model="@, st.model)).push(ArgText::File)
}

/// The arguments that add keywords to a video's XMP tags.
pub open spec fn video_keyword_tags(ks: Seq<Seq<char>>) -> Seq<ArgText> {
    ks.map_values(|k: Seq<char>| tag("-XMP-dc:Subject+="@, k))
}

/// The keywords in one text, with commas between them.
pub open spec fn comma_list(ks: Seq<Seq<char>>) -> Seq<char>
    decreases ks.len(),
{
    if ks.len() == 0 {
        Seq::empty()
    } else if ks.len() == 1 {
        ks[0]
    } else {
        comma_list(ks.drop_last()) + ", "@ + ks.last()
    }
}

/// The argument for a video's QuickTime keywords, which are one text.
pub open spec fn video_keyword_list(ks: Seq<Seq<char>>) -> Seq<ArgText> {
    if ks.len() == 0 {
        Seq::empty()
    } else {
        seq![tag("-Keys:Keywords="@, comma_list(ks))]
    }
}

/// The arguments for the country of a video.
pub open spec fn video_country_tags(country: Option<Seq<char>>) -> Seq<ArgText> {
    match country {
        Some(c) => seq![
            tag("-XMP-photoshop:Country="@, c),
            tag("-XMP-iptcExt:LocationCreatedCountryName="@, c),
            tag("-XMP-iptcExt:LocationShownCountryName="@, c),
        ],
        None => Seq::empty(),
    }
}

/// The arguments with which the writing of a video's tags starts, up to its
/// title and caption.
pub open spec fn video_head(m: MetadataText) -> Seq<ArgText> {
    seq![
        ArgText::Text("-overwrite_original"@),
        ArgText::Text("-m"@),
        tag("-XMP-dc:Title="@, m.title),
        tag("-XMP-dc:Description="@, m.description),
        tag("-Keys:Title="@, m.title),
        tag("-Keys:Description="@, m.description),
    ]
}

/// The command line that writes a video's tags.
pub open spec fn video_line(st: EmbedState) -> Seq<ArgText> {
    let ks = embedded_keywords(st.metadata.keywords);
    (video_head(st.metadata) + video_keyword_tags(ks) + video_keyword_list(ks)
        + video_country_tags(st.extras.country) + optional_tag("-Keys:Make="@, st.make)
        + optional_tag("-Keys:Model="@, st.model)).push(ArgText::File)
}

/// The command line that writes a file's tags.
pub open spec fn write_line(st: EmbedState, rebuild: bool) -> Seq<ArgText> {
    match st.kind {
        MediaKind::Photo => photo_line(st, rebuild),
        MediaKind::Video => video_line(st),
    }
}

/// Where the runs for a file start.
pub open spec fn embed_start(
    kind: MediaKind,
    metadata: MetadataText,
    extras: ExtraText,
) -> EmbedState {
    EmbedState { kind, metadata, extras, make: None, model: None, step: StepText::Clear }
}

/// The command line of the next run; none after the last.
pub open spec fn next_line(st: EmbedState) -> Option<Seq<ArgText>> {
    match st.step {
        StepText::Clear => Some(clear_line(st.kind)),
        StepText::ReadMake => Some(query_line(make_field(st.kind))),
        StepText::ReadModel => Some(query_line(model_field(st.kind))),
        StepText::Write => Some(write_line(st, false)),
        StepText::Rebuild => Some(write_line(st, true)),
        StepText::Done => None,
        StepText::Failed(_) => None,
    }
}

/// The step behind the reading of the maker: a model is read only if there is
/// one to add.
pub open spec fn step_to_model(extras: ExtraText) -> StepText {
    if extras.camera_model is Some {
        StepText::ReadModel
    } else {
        StepText::Write
    }
}

/// The step behind the clearing of the keywords: a maker is read only if there
/// is one to add.
pub open spec fn step_to_make(extras: ExtraText) -> StepText {
    if extras.camera_make is Some {
        StepText::ReadMake
    } else {
        step_to_model(extras)
    }
}

/// What a run that ended with `outcome` leads to.
pub open spec fn after_run(st: EmbedState, outcome: ToolOutcome) -> EmbedState {
    match st.step {
        StepText::Clear => EmbedState { step: step_to_make(st.extras), ..st },
        StepText::ReadMake => EmbedState {
            make: if queried_value(outcome) is None {
                st.extras.camera_make
            } else {
                None
            },
            step: step_to_model(st.extras),
            ..st
        },
        StepText::ReadModel => EmbedState {
            model: if queried_value(outcome) is None {
                st.extras.camera_model
            } else {
                None
            },
            step: StepText::Write,
            ..st
        },
        StepText::Write => EmbedState {
            step: match tool_failure("exiftool"@, outcome) {
                None => StepText::Done,
                Some(e) => match st.kind {
                    MediaKind::Photo => StepText::Rebuild,
                    MediaKind::Video => StepText::Failed(e),
                },
            },
            ..st
        },
        StepText::Rebuild => EmbedState {
            step: match tool_failure("exiftool"@, outcome) {
                None => StepText::Done,
                Some(e) => StepText::Failed(e),
            },
            ..st
        },
        StepText::Done => st,
        StepText::Failed(_) => st,
    }
}

/// What there is to warn of after a run.
pub open spec fn warning(st: EmbedState, outcome: ToolOutcome) -> Option<NoticeText> {
    match (st.step, tool_failure("exiftool"@, outcome)) {
        (StepText::Clear, Some(e)) => Some(NoticeText::NotCleared(e)),
        (StepText::Write, Some(_)) => match st.kind {
            MediaKind::Photo => Some(NoticeText::Rebuilding),
            MediaKind::Video => None,
        },
        _ => None,
    }
}

fn clear_args(kind: MediaKind) -> (r: Vec<Arg>)
    ensures
        command_line(r@) == clear_line(kind),
{
    let mut args: Vec<Arg> = Vec::new();
    push_flag(&mut args, "-overwrite_original");
    push_flag(&mut args, "-m");
    push_flag(&mut args, "-XMP-dc:Subject=");
    match kind {
        MediaKind::Photo => push_flag(&mut args, "-IPTC:Keywords="),
        MediaKind::Video => push_flag(&mut args, "-Keys:Keywords="),
    }
    push_file(&mut args);
    assert(command_line(args@) =~= clear_line(kind));
    args
}

fn query_args(field: &str) -> (r: Vec<Arg>)
    ensures
        command_line(r@) == query_line(field@),
{
    let mut args: Vec<Arg> = Vec::new();
    push_flag(&mut args, "-s3");
    push_text(&mut args, "-", field);
    push_file(&mut args);
    assert(command_line(args@) =~= query_line(field@));
    args
}

fn push_optional(args: &mut Vec<Arg>, option: &str, value: &Option<String>)
    ensures
        command_line(final(args)@) == command_line(old(args)@) + optional_tag(
            option@,
            text_of(*value),
        ),
{
    match value {
        Some(v) => push_text(args, option, v.as_str()),
        None => {},
    }
    assert(command_line(args@) =~= command_line(old(args)@) + optional_tag(
        option@,
        text_of(*value),
    ));
}

/// Trims keywords, drops blank ones, and stops at the limit.
fn embed_keywords(keywords: &Vec<String>) -> (r: Vec<String>)
    ensures
        texts(r@) == embedded_keywords(texts(keywords@)),
{
    let mut kept: Vec<String> = Vec::new();
    for i in 0..keywords.len()
        invariant
            texts(kept@) == embedded_keywords(texts(keywords@).take(i as int)),
    {
        let k = keywords[i].as_str().trim();
        let ghost filled = filled_keywords(texts(keywords@).take(i as int));
        assert(texts(keywords@).take(i + 1).drop_last() == texts(keywords@).take(i as int));
        assert(texts(keywords@).take(i + 1).last() == keywords@[i as int]@);
        assert(texts(kept@).len() == kept@.len());
        if !k.is_empty() && kept.len() < MAX_KEYWORDS {
            let ghost before = texts(kept@);
            kept.push(k.to_owned());
            assert(texts(kept@) =~= before.push(k@));
        }
        proof {
            if filled.len() >= MAX_KEYWORDS {
                assert(filled.push(k@).take(MAX_KEYWORDS as int) =~= filled.take(
                    MAX_KEYWORDS as int,
                ));
                assert(filled.take(filled.len() as int) =~= filled);
            }
        }
    }
    assert(texts(keywords@).take(keywords@.len() as int) == texts(keywords@));
    kept
}

fn push_photo_keywords(args: &mut Vec<Arg>, kept: &Vec<String>)
    ensures
        command_line(final(args)@) == command_line(old(args)@) + photo_keyword_tags(texts(kept@)),
{
    for i in 0..kept.len()
        invariant
            command_line(args@) == command_line(old(args)@) + photo_keyword_tags(
                texts(kept@).take(i as int),
            ),
    {
        assert(texts(kept@).take(i + 1).drop_last() == texts(kept@).take(i as int));
        assert(texts(kept@).take(i + 1).last() == kept@[i as int]@);
        push_text(args, "-IPTC:Keywords+=", kept[i].as_str());
        push_text(args, "-XMP-dc:Subject+=", kept[i].as_str());
        assert(command_line(args@) =~= command_line(old(args)@) + photo_keyword_tags(
            texts(kept@).take(i + 1),
        ));
    }
    assert(texts(kept@).take(kept@.len() as int) == texts(kept@));
}

fn push_video_keywords(args: &mut Vec<Arg>, kept: &Vec<String>)
    ensures
        command_line(final(args)@) == command_line(old(args)@) + video_keyword_tags(texts(kept@)),
{
    for i in 0..kept.len()
        invariant
            command_line(args@) == command_line(old(args)@) + video_keyword_tags(
                texts(kept@).take(i as int),
            ),
    {
        push_text(args, "-XMP-dc:Subject+=", kept[i].as_str());
        assert(command_line(args@) =~= command_line(old(args)@) + video_keyword_tags(
            texts(kept@).take(i + 1),
        ));
    }
    assert(texts(kept@).take(kept@.len() as int) == texts(kept@));
}

/// Joins keywords with commas.
fn join_keywords(kept: &Vec<String>) -> (r: String)
    ensures
        r@ == comma_list(texts(kept@)),
{
    let mut s = String::new();
    for i in 0..kept.len()
        invariant
            s@ == comma_list(texts(kept@).take(i as int)),
    {
        assert(texts(kept@).take(i + 1).drop_last() == texts(kept@).take(i as int));
        assert(texts(kept@).take(i + 1).last() == kept@[i as int]@);
        if i > 0 {
            s.append(", ");
        }
        let ghost before = s@;
        s.append(kept[i].as_str());
        assert(i == 0 ==> s@ =~= kept@[0]@);
    }
    assert(texts(kept@).take(kept@.len() as int) == texts(kept@));
    s
}

fn photo_head_args(rebuild: bool) -> (r: Vec<Arg>)
    ensures
        command_line(r@) == photo_head(rebuild),
{
    let mut args: Vec<Arg> = Vec::new();
    push_flag(&mut args, "-overwrite_original");
    push_flag(&mut args, "-m");
    push_flag(&mut args, "-codedcharacterset=utf8");
    if rebuild {
        push_flag(&mut args, "-Photoshop:all=");
    }
    assert(command_line(args@) =~= photo_head(rebuild));
    args
}

fn push_photo_texts(args: &mut Vec<Arg>, metadata: &StockMetadata)
    ensures
        command_line(final(args)@) == command_line(old(args)@) + photo_text_tags(metadata@),
{
    push_text(args, "-IPTC:ObjectName=", metadata.title.as_str());
    push_text(args, "-IPTC:Caption-Abstract=", metadata.description.as_str());
    push_text(args, "-XMP-dc:Title=", metadata.title.as_str());
    push_text(args, "-XMP-dc:Description=", metadata.description.as_str());
    assert(command_line(args@) =~= command_line(old(args)@) + photo_text_tags(metadata@));
}

fn push_photo_country(args: &mut Vec<Arg>, country: &Option<String>)
    ensures
        command_line(final(args)@) == command_line(old(args)@) + photo_country_tags(
            text_of(*country),
        ),
{
    if let Some(c) = country {
        push_text(args, "-IPTC:Country-PrimaryLocationName=", c.as_str());
        push_text(args, "-XMP-photoshop:Country=", c.as_str());
        push_text(args, "-XMP-iptcExt:LocationCreatedCountryName=", c.as_str());
        push_text(args, "-XMP-iptcExt:LocationShownCountryName=", c.as_str());
    }
    assert(command_line(args@) =~= command_line(old(args)@) + photo_country_tags(
        text_of(*country),
    ));
}

fn video_head_args(metadata: &StockMetadata) -> (r: Vec<Arg>)
    ensures
        command_line(r@) == video_head(metadata@),
{
    let mut args: Vec<Arg> = Vec::new();
    push_flag(&mut args, "-overwrite_original");
    push_flag(&mut args, "-m");
    push_text(&mut args, "-XMP-dc:Title=", metadata.title.as_str());
    push_text(&mut args, "-XMP-dc:Description=", metadata.description.as_str());
    push_text(&mut args, "-Keys:Title=", metadata.title.as_str());
    push_text(&mut args, "-Keys:Description=", metadata.description.as_str());
    assert(command_line(args@) =~= video_head(metadata@));
    args
}

fn push_video_keyword_list(args: &mut Vec<Arg>, kept: &Vec<String>)
    ensures
        command_line(final(args)@) == command_line(old(args)@) + video_keyword_list(texts(kept@)),
{
    if kept.len() > 0 {
        push_text(args, "-Keys:Keywords=", join_keywords(kept).as_str());
    }
    assert(command_line(args@) =~= command_line(old(args)@) + video_keyword_list(texts(kept@)));
}

fn push_video_country(args: &mut Vec<Arg>, country: &Option<String>)
    ensures
        command_line(final(args)@) == command_line(old(args)@) + video_country_tags(
            text_of(*country),
        ),
{
    if let Some(c) = country {
        push_text(args, "-XMP-photoshop:Country=", c.as_str());
        push_text(args, "-XMP-iptcExt:LocationCreatedCountryName=", c.as_str());
        push_text(args, "-XMP-iptcExt:LocationShownCountryName=", c.as_str());
    }
    assert(command_line(args@) =~= command_line(old(args)@) + video_country_tags(
        text_of(*country),
    ));
}

impl Embedding {
    /// Starts the runs for a file.
    pub fn new(kind: MediaKind, metadata: StockMetadata, extras: ExtraTags) -> (r: Self)
        ensures
            r@ == embed_start(kind, metadata@, extras@),
    {
        Embedding { kind, metadata, extras, make: None, model: None, step: EmbedStep::Clear }
    }

    fn photo_args(&self, rebuild: bool) -> (r: Vec<Arg>)
        ensures
            command_line(r@) == photo_line(self@, rebuild),
    {
        let kept = embed_keywords(&self.metadata.keywords);
        let mut args = photo_head_args(rebuild);
        push_photo_texts(&mut args, &self.metadata);
        push_photo_keywords(&mut args, &kept);
        push_photo_country(&mut args, &self.extras.country);
        push_optional(&mut args, "-EXIF:Make=", &self.make);
        push_optional(&mut args, "-EXIF:Model=", &self.model);
        push_file(&mut args);
        args
    }

    fn video_args(&self) -> (r: Vec<Arg>)
        ensures
            command_line(r@) == video_line(self@),
    {
        let kept = embed_keywords(&self.metadata.keywords);
        let mut args = video_head_args(&self.metadata);
        push_video_keywords(&mut args, &kept);
        push_video_keyword_list(&mut args, &kept);
        push_video_country(&mut args, &self.extras.country);
        push_optional(&mut args, "-Keys:Make=", &self.make);
        push_optional(&mut args, "-Keys:Model=", &self.model);
        push_file(&mut args);
        args
    }

    /// The command line of the next run; none after the last.
    pub fn next_run(&self) -> (r: Option<Vec<Arg>>)
        ensures
            next_line(self@) is None ==> r is None,
            next_line(self@) matches Some(line) ==> r is Some && command_line(r->0@) == line,
    {
        match &self.step {
            EmbedStep::Clear => Some(clear_args(self.kind)),
            EmbedStep::ReadMake => match self.kind {
                MediaKind::Photo => Some(query_args("EXIF:Make")),
                MediaKind::Video => Some(query_args("Make")),
            },
            EmbedStep::ReadModel => match self.kind {
                MediaKind::Photo => Some(query_args("EXIF:Model")),
                MediaKind::Video => Some(query_args("Model")),
            },
            EmbedStep::Write => match self.kind {
                MediaKind::Photo => Some(self.photo_args(false)),
                MediaKind::Video => Some(self.video_args()),
            },
            EmbedStep::Rebuild => match self.kind {
                MediaKind::Photo => Some(self.photo_args(true)),
                MediaKind::Video => Some(self.video_args()),
            },
            EmbedStep::Done => None,
            EmbedStep::Failed(_) => None,
        }
    }

    fn model_step(&self) -> (r: EmbedStep)
        ensures
            r@ == step_to_model(self@.extras),
    {
        match &self.extras.camera_model {
            Some(_) => EmbedStep::ReadModel,
            None => EmbedStep::Write,
        }
    }

    /// Takes in how the run ended, and tells what there is to warn of.
    pub fn advance(&mut self, outcome: &ToolOutcome) -> (r: Option<Notice>)
        ensures
            final(self)@ == after_run(old(self)@, *outcome),
            notice_text(r) == warning(old(self)@, *outcome),
    {
        match &self.step {
            EmbedStep::Clear => {
                self.step = match &self.extras.camera_make {
                    Some(_) => EmbedStep::ReadMake,
                    None => self.model_step(),
                };
                match tool_result("exiftool", outcome) {
                    Ok(_) => None,
                    Err(e) => Some(Notice::NotCleared(e)),
                }
            },
            EmbedStep::ReadMake => {
                self.make = match read_queried_value(outcome) {
                    Some(_) => None,
                    None => self.extras.camera_make.clone(),
                };
                self.step = self.model_step();
                None
            },
            EmbedStep::ReadModel => {
                self.model = match read_queried_value(outcome) {
                    Some(_) => None,
                    None => self.extras.camera_model.clone(),
                };
                self.step = EmbedStep::Write;
                None
            },
            EmbedStep::Write => match tool_result("exiftool", outcome) {
                Ok(_) => {
                    self.step = EmbedStep::Done;
                    None
                },
                Err(e) => match self.kind {
                    MediaKind::Photo => {
                        self.step = EmbedStep::Rebuild;
                        Some(Notice::Rebuilding)
                    },
                    MediaKind::Video => {
                        self.step = EmbedStep::Failed(e);
                        None
                    },
                },
            },
            EmbedStep::Rebuild => {
                self.step = match tool_result("exiftool", outcome) {
                    Ok(_) => EmbedStep::Done,
                    Err(e) => EmbedStep::Failed(e),
                };
                None
            },
            EmbedStep::Done => None,
            EmbedStep::Failed(_) => None,
        }
    }
}

/// How many runs can still come.
pub open spec fn runs_left(step: StepText) -> nat {
    match step {
        StepText::Clear => 5,
        StepText::ReadMake => 4,
        StepText::ReadModel => 3,
        StepText::Write => 2,
        StepText::Rebuild => 1,
        StepText::Done => 0,
        StepText::Failed(_) => 0,
    }
}

/// The runs for a file come to an end, whatever each of them reports: there are
/// at most five.
pub proof fn runs_come_to_an_end(st: EmbedState, outcome: ToolOutcome)
    ensures
        runs_left(st.step) <= 5,
        next_line(st) is Some ==> runs_left(after_run(st, outcome).step) < runs_left(st.step),
        next_line(st) is None <==> runs_left(st.step) == 0,
        next_line(st) is None <==> st.step is Done || st.step is Failed,
{
}

/// Keywords do not pile up when a file is tagged again: the first run clears
/// them, and whatever it reports the runs go on, without clearing them again.
pub proof fn keywords_are_cleared_first(
    kind: MediaKind,
    metadata: MetadataText,
    extras: ExtraText,
    st: EmbedState,
    outcome: ToolOutcome,
)
    ensures
        next_line(embed_start(kind, metadata, extras)) == Some(clear_line(kind)),
        next_line(after_run(embed_start(kind, metadata, extras), outcome)) is Some,
        !(after_run(st, outcome).step is Clear),
{
}

/// Tags are written in place: every run that writes changes the file itself, and
/// leaves no copy.
pub proof fn tags_are_written_in_place(st: EmbedState)
    requires
        st.step is Clear || st.step is Write || st.step is Rebuild,
    ensures
        next_line(st) matches Some(line) && line[0] == ArgText::Text("-overwrite_original"@)
            && line.last() == ArgText::File,
{
}

/// A file is reported as tagged only where a run that wrote its tags succeeded,
/// and as failed only where the last such run failed.
pub proof fn the_end_is_reported(st: EmbedState, outcome: ToolOutcome)
    requires
        next_line(st) is Some,
    ensures
        after_run(st, outcome).step is Done <==> (st.step is Write || st.step is Rebuild)
            && tool_failure("exiftool"@, outcome) is None,
        after_run(st, outcome).step matches StepText::Failed(e) ==> tool_failure(
            "exiftool"@,
            outcome,
        ) == Some(e) && next_line(st) == Some(
            write_line(st, st.kind == MediaKind::Photo),
        ),
{
}

/// A photo's other tags are at risk only where they cannot be kept: the block
/// of the IPTC tags is rebuilt only after a run without a rebuild failed, and
/// never for a video.
pub proof fn rebuild_is_a_last_resort(st: EmbedState, outcome: ToolOutcome)
    requires
        !(st.step is Rebuild),
    ensures
        after_run(st, outcome).step is Rebuild <==> st.kind == MediaKind::Photo && st.step is Write
            && tool_failure("exiftool"@, outcome) is Some,
{
}

/// A rebuild writes the same tags: its command line has one argument more.
pub proof fn rebuild_writes_the_same_tags(st: EmbedState)
    ensures
        photo_line(st, true) == photo_line(st, false).insert(3, ArgText::Text("-Photoshop:all="@)),
{
    assert(photo_line(st, true) =~= photo_line(st, false).insert(
        3,
        ArgText::Text("-Photoshop:all="@),
    ));
}

proof fn lemma_photo_keyword_tags(ks: Seq<Seq<char>>, i: int)
    requires
        0 <= i < ks.len(),
    ensures
        photo_keyword_tags(ks).len() == 2 * ks.len(),
        photo_keyword_tags(ks)[2 * i] == tag("-IPTC:Keywords+="@, ks[i]),
        photo_keyword_tags(ks)[2 * i + 1] == tag("-XMP-dc:Subject+="@, ks[i]),
    decreases ks.len(),
{
    if ks.len() > 1 {
        lemma_photo_keyword_tags(
            ks.drop_last(),
            if i < ks.len() - 1 {
                i
            } else {
                0
            },
        );
    } else {
        assert(photo_keyword_tags(ks.drop_last()).len() == 0);
    }
}

/// A photo's title, caption and keywords are written both as IPTC and as XMP.
pub proof fn photo_fields_are_populated(st: EmbedState, rebuild: bool, i: int)
    ensures
        photo_line(st, rebuild).contains(tag("-IPTC:ObjectName="@, st.metadata.title)),
        photo_line(st, rebuild).contains(tag("-IPTC:Caption-Abstract="@, st.metadata.description)),
        photo_line(st, rebuild).contains(tag("-XMP-dc:Title="@, st.metadata.title)),
        photo_line(st, rebuild).contains(tag("-XMP-dc:Description="@, st.metadata.description)),
        0 <= i < embedded_keywords(st.metadata.keywords).len() ==> photo_line(st, rebuild).contains(
            tag("-IPTC:Keywords+="@, embedded_keywords(st.metadata.keywords)[i]),
        ) && photo_line(st, rebuild).contains(
            tag("-XMP-dc:Subject+="@, embedded_keywords(st.metadata.keywords)[i]),
        ),
        photo_line(st, rebuild).last() == ArgText::File,
{
    let ks = embedded_keywords(st.metadata.keywords);
    let line = photo_line(st, rebuild);
    let at: int = if rebuild {
        4
    } else {
        3
    };
    assert(line[at] == tag("-IPTC:ObjectName="@, st.metadata.title));
    assert(line[at + 1] == tag("-IPTC:Caption-Abstract="@, st.metadata.description));
    assert(line[at + 2] == tag("-XMP-dc:Title="@, st.metadata.title));
    assert(line[at + 3] == tag("-XMP-dc:Description="@, st.metadata.description));
    if 0 <= i < ks.len() {
        lemma_photo_keyword_tags(ks, i);
        assert(line[at + 4 + 2 * i] == photo_keyword_tags(ks)[2 * i]);
        assert(line[at + 4 + 2 * i + 1] == photo_keyword_tags(ks)[2 * i + 1]);
    }
}

/// A video's title, caption and keywords are written both as XMP and as
/// QuickTime keys.
pub proof fn video_fields_are_populated(st: EmbedState, i: int)
    ensures
        video_line(st).contains(tag("-XMP-dc:Title="@, st.metadata.title)),
        video_line(st).contains(tag("-XMP-dc:Description="@, st.metadata.description)),
        video_line(st).contains(tag("-Keys:Title="@, st.metadata.title)),
        video_line(st).contains(tag("-Keys:Description="@, st.metadata.description)),
        0 <= i < embedded_keywords(st.metadata.keywords).len() ==> video_line(st).contains(
            tag("-XMP-dc:Subject+="@, embedded_keywords(st.metadata.keywords)[i]),
        ) && video_line(st).contains(
            tag("-Keys:Keywords="@, comma_list(embedded_keywords(st.metadata.keywords))),
        ),
        video_line(st).last() == ArgText::File,
{
    let ks = embedded_keywords(st.metadata.keywords);
    let line = video_line(st);
    assert(line[2] == tag("-XMP-dc:Title="@, st.metadata.title));
    assert(line[3] == tag("-XMP-dc:Description="@, st.metadata.description));
    assert(line[4] == tag("-Keys:Title="@, st.metadata.title));
    assert(line[5] == tag("-Keys:Description="@, st.metadata.description));
    if 0 <= i < ks.len() {
        assert(line[6 + i] == video_keyword_tags(ks)[i]);
        assert(line[6int + ks.len()] == video_keyword_list(ks)[0]);
    }
}

/// No argument starts with `option`.
pub open spec fn lacks(line: Seq<ArgText>, option: Seq<char>) -> bool {
    forall|i: int|
        0 <= i < line.len() ==> ((#[trigger] line[i]) matches ArgText::Text(t) ==> !has_prefix(
            t,
            option,
        ))
}

/// How many arguments start with `option`.
pub open spec fn occurrences(line: Seq<ArgText>, option: Seq<char>) -> nat
    decreases line.len(),
{
    if line.len() == 0 {
        0
    } else {
        let here: nat = match line.last() {
            ArgText::Text(t) => if has_prefix(t, option) {
                1
            } else {
                0
            },
            _ => 0,
        };
        occurrences(line.drop_last(), option) + here
    }
}

/// What an argument for a photo can be about, where a law speaks of it.
ghost enum PhotoSubject {
    Rebuild,
    Make,
    Model,
    ClearSubjects,
    ClearKeywords,
    AddSubject,
    AddKeyword,
}

/// What an argument for a video can be about, where a law speaks of it.
ghost enum VideoSubject {
    Make,
    Model,
    ClearSubjects,
    AddSubject,
    Keywords,
    Iptc,
    Exif,
    Photoshop,
}

spec fn photo_option(subject: PhotoSubject) -> Seq<char> {
    match subject {
        PhotoSubject::Rebuild => "-Photoshop:all="@,
        PhotoSubject::Make => "-EXIF:Make="@,
        PhotoSubject::Model => "-EXIF:Model="@,
        PhotoSubject::ClearSubjects => "-XMP-dc:Subject="@,
        PhotoSubject::ClearKeywords => "-IPTC:Keywords="@,
        PhotoSubject::AddSubject => "-XMP-dc:Subject+="@,
        PhotoSubject::AddKeyword => "-IPTC:Keywords+="@,
    }
}

spec fn video_option(subject: VideoSubject) -> Seq<char> {
    match subject {
        VideoSubject::Make => "-Keys:Make="@,
        VideoSubject::Model => "-Keys:Model="@,
        VideoSubject::ClearSubjects => "-XMP-dc:Subject="@,
        VideoSubject::AddSubject => "-XMP-dc:Subject+="@,
        VideoSubject::Keywords => "-Keys:Keywords="@,
        VideoSubject::Iptc => "-IPTC:"@,
        VideoSubject::Exif => "-EXIF:"@,
        VideoSubject::Photoshop => "-Photoshop:"@,
    }
}

spec fn differ_at(a: Seq<char>, b: Seq<char>, k: int) -> bool {
    k < a.len() && k < b.len() && a[k] != b[k]
}

/// Two options differ in one of the characters that tell the options apart.
spec fn differ(a: Seq<char>, b: Seq<char>) -> bool {
    ||| differ_at(a, b, 1)
    ||| differ_at(a, b, 5)
    ||| differ_at(a, b, 6)
    ||| differ_at(a, b, 7)
    ||| differ_at(a, b, 8)
    ||| differ_at(a, b, 14)
    ||| differ_at(a, b, 15)
}

proof fn lemma_tag_lacks(name: Seq<char>, value: Seq<char>, option: Seq<char>)
    requires
        differ(name, option),
    ensures
        !has_prefix(name + value, option),
        !has_prefix(name, option),
{
    let k = choose|k: int|
        0 <= k < name.len() && k < option.len() && #[trigger] name[k] != option[k];
    if has_prefix(name + value, option) {
        assert((name + value).take(option.len() as int)[k] == option[k]);
    }
    if has_prefix(name, option) {
        assert(name.take(option.len() as int)[k] == option[k]);
    }
}

/// What stands in front of a photo's keywords.
spec fn photo_front(st: EmbedState, rebuild: bool) -> Seq<ArgText> {
    photo_head(rebuild) + photo_text_tags(st.metadata)
}

/// What stands behind a photo's keywords.
spec fn photo_back(st: EmbedState) -> Seq<ArgText> {
    (photo_country_tags(st.extras.country) + optional_tag("-EXIF:Make="@, st.make) + optional_tag(
        "-EXIF:Model="@,
        st.model,
    )).push(ArgText::File)
}

/// What stands behind a video's keywords.
spec fn video_back(st: EmbedState) -> Seq<ArgText> {
    (video_country_tags(st.extras.country) + optional_tag("-Keys:Make="@, st.make) + optional_tag(
        "-Keys:Model="@,
        st.model,
    )).push(ArgText::File)
}

proof fn lemma_photo_parts(st: EmbedState, rebuild: bool)
    ensures
        photo_line(st, rebuild) == photo_front(st, rebuild) + photo_keyword_tags(
            embedded_keywords(st.metadata.keywords),
        ) + photo_back(st),
{
    assert(photo_line(st, rebuild) =~= photo_front(st, rebuild) + photo_keyword_tags(
        embedded_keywords(st.metadata.keywords),
    ) + photo_back(st));
}

proof fn lemma_video_parts(st: EmbedState)
    ensures
        video_line(st) == video_head(st.metadata) + video_keyword_tags(
            embedded_keywords(st.metadata.keywords),
        ) + video_keyword_list(embedded_keywords(st.metadata.keywords)) + video_back(st),
{
    assert(video_line(st) =~= video_head(st.metadata) + video_keyword_tags(
        embedded_keywords(st.metadata.keywords),
    ) + video_keyword_list(embedded_keywords(st.metadata.keywords)) + video_back(st));
}

/// Around its keywords a photo's line has each option at its own place only.
proof fn lemma_photo_rest_lacks(st: EmbedState, rebuild: bool, subject: PhotoSubject)
    requires
        subject is Rebuild ==> !rebuild,
        subject is Make ==> st.make is None,
        subject is Model ==> st.model is None,
    ensures
        lacks(photo_front(st, rebuild), photo_option(subject)),
        lacks(photo_back(st), photo_option(subject)),
{
    reveal_strlit("-Photoshop:all=");
    reveal_strlit("-EXIF:Make=");
    reveal_strlit("-EXIF:Model=");
    reveal_strlit("-XMP-dc:Subject=");
    reveal_strlit("-IPTC:Keywords=");
    reveal_strlit("-XMP-dc:Subject+=");
    reveal_strlit("-IPTC:Keywords+=");
    reveal_strlit("-overwrite_original");
    reveal_strlit("-m");
    reveal_strlit("-codedcharacterset=utf8");
    reveal_strlit("-IPTC:ObjectName=");
    reveal_strlit("-IPTC:Caption-Abstract=");
    reveal_strlit("-XMP-dc:Title=");
    reveal_strlit("-XMP-dc:Description=");
    reveal_strlit("-IPTC:Country-PrimaryLocationName=");
    reveal_strlit("-XMP-photoshop:Country=");
    reveal_strlit("-XMP-iptcExt:LocationCreatedCountryName=");
    reveal_strlit("-XMP-iptcExt:LocationShownCountryName=");
    let option = photo_option(subject);
    let m = st.metadata;
    let none = Seq::<char>::empty();
    lemma_tag_lacks("-overwrite_original"@, none, option);
    lemma_tag_lacks("-m"@, none, option);
    lemma_tag_lacks("-codedcharacterset=utf8"@, none, option);
    if rebuild {
        lemma_tag_lacks("-Photoshop:all="@, none, option);
    }
    lemma_tag_lacks("-IPTC:ObjectName="@, m.title, option);
    lemma_tag_lacks("-IPTC:Caption-Abstract="@, m.description, option);
    lemma_tag_lacks("-XMP-dc:Title="@, m.title, option);
    lemma_tag_lacks("-XMP-dc:Description="@, m.description, option);
    if let Some(c) = st.extras.country {
        lemma_tag_lacks("-IPTC:Country-PrimaryLocationName="@, c, option);
        lemma_tag_lacks("-XMP-photoshop:Country="@, c, option);
        lemma_tag_lacks("-XMP-iptcExt:LocationCreatedCountryName="@, c, option);
        lemma_tag_lacks("-XMP-iptcExt:LocationShownCountryName="@, c, option);
    }
    if let Some(v) = st.make {
        lemma_tag_lacks("-EXIF:Make="@, v, option);
    }
    if let Some(v) = st.model {
        lemma_tag_lacks("-EXIF:Model="@, v, option);
    }
}

/// Around its keywords a video's line has each option at its own place only.
proof fn lemma_video_rest_lacks(st: EmbedState, subject: VideoSubject)
    requires
        subject is Make ==> st.make is None,
        subject is Model ==> st.model is None,
    ensures
        lacks(video_head(st.metadata), video_option(subject)),
        lacks(video_back(st), video_option(subject)),
{
    reveal_strlit("-Keys:Make=");
    reveal_strlit("-Keys:Model=");
    reveal_strlit("-XMP-dc:Subject=");
    reveal_strlit("-XMP-dc:Subject+=");
    reveal_strlit("-Keys:Keywords=");
    reveal_strlit("-IPTC:");
    reveal_strlit("-EXIF:");
    reveal_strlit("-Photoshop:");
    reveal_strlit("-overwrite_original");
    reveal_strlit("-m");
    reveal_strlit("-XMP-dc:Title=");
    reveal_strlit("-XMP-dc:Description=");
    reveal_strlit("-Keys:Title=");
    reveal_strlit("-Keys:Description=");
    reveal_strlit("-XMP-photoshop:Country=");
    reveal_strlit("-XMP-iptcExt:LocationCreatedCountryName=");
    reveal_strlit("-XMP-iptcExt:LocationShownCountryName=");
    let option = video_option(subject);
    let m = st.metadata;
    let none = Seq::<char>::empty();
    lemma_tag_lacks("-overwrite_original"@, none, option);
    lemma_tag_lacks("-m"@, none, option);
    lemma_tag_lacks("-XMP-dc:Title="@, m.title, option);
    lemma_tag_lacks("-XMP-dc:Description="@, m.description, option);
    lemma_tag_lacks("-Keys:Title="@, m.title, option);
    lemma_tag_lacks("-Keys:Description="@, m.description, option);
    if let Some(c) = st.extras.country {
        lemma_tag_lacks("-XMP-photoshop:Country="@, c, option);
        lemma_tag_lacks("-XMP-iptcExt:LocationCreatedCountryName="@, c, option);
        lemma_tag_lacks("-XMP-iptcExt:LocationShownCountryName="@, c, option);
    }
    if let Some(v) = st.make {
        lemma_tag_lacks("-Keys:Make="@, v, option);
    }
    if let Some(v) = st.model {
        lemma_tag_lacks("-Keys:Model="@, v, option);
    }
}

proof fn lemma_photo_keywords_lack(ks: Seq<Seq<char>>, option: Seq<char>)
    requires
        differ("-IPTC:Keywords+="@, option),
        differ("-XMP-dc:Subject+="@, option),
    ensures
        lacks(photo_keyword_tags(ks), option),
    decreases ks.len(),
{
    if ks.len() > 0 {
        lemma_photo_keywords_lack(ks.drop_last(), option);
        lemma_tag_lacks("-IPTC:Keywords+="@, ks.last(), option);
        lemma_tag_lacks("-XMP-dc:Subject+="@, ks.last(), option);
    }
}

proof fn lemma_video_keywords_lack(ks: Seq<Seq<char>>, option: Seq<char>)
    requires
        differ("-XMP-dc:Subject+="@, option),
    ensures
        lacks(video_keyword_tags(ks), option),
{
    assert forall|i: int| 0 <= i < ks.len() implies !has_prefix(
        "-XMP-dc:Subject+="@ + #[trigger] ks[i],
        option,
    ) by {
        lemma_tag_lacks("-XMP-dc:Subject+="@, ks[i], option);
    }
}

proof fn lemma_photo_line_lacks(st: EmbedState, rebuild: bool, subject: PhotoSubject)
    requires
        subject is Rebuild ==> !rebuild,
        subject is Make ==> st.make is None,
        subject is Model ==> st.model is None,
        !(subject is AddSubject) && !(subject is AddKeyword),
    ensures
        lacks(photo_line(st, rebuild), photo_option(subject)),
{
    reveal_strlit("-Photoshop:all=");
    reveal_strlit("-EXIF:Make=");
    reveal_strlit("-EXIF:Model=");
    reveal_strlit("-XMP-dc:Subject=");
    reveal_strlit("-IPTC:Keywords=");
    reveal_strlit("-XMP-dc:Subject+=");
    reveal_strlit("-IPTC:Keywords+=");
    lemma_photo_parts(st, rebuild);
    lemma_photo_rest_lacks(st, rebuild, subject);
    lemma_photo_keywords_lack(embedded_keywords(st.metadata.keywords), photo_option(subject));
}

proof fn lemma_video_line_lacks(st: EmbedState, subject: VideoSubject)
    requires
        subject is Make ==> st.make is None,
        subject is Model ==> st.model is None,
        !(subject is AddSubject) && !(subject is Keywords),
    ensures
        lacks(video_line(st), video_option(subject)),
{
    reveal_strlit("-Keys:Make=");
    reveal_strlit("-Keys:Model=");
    reveal_strlit("-XMP-dc:Subject=");
    reveal_strlit("-XMP-dc:Subject+=");
    reveal_strlit("-Keys:Keywords=");
    reveal_strlit("-IPTC:");
    reveal_strlit("-EXIF:");
    reveal_strlit("-Photoshop:");
    let ks = embedded_keywords(st.metadata.keywords);
    lemma_video_parts(st);
    lemma_video_rest_lacks(st, subject);
    lemma_video_keywords_lack(ks, video_option(subject));
    lemma_tag_lacks("-Keys:Keywords="@, comma_list(ks), video_option(subject));
}

/// The run that writes a photo's tags first leaves all its other tags alone: it
/// does not rebuild the block of the IPTC tags.
pub proof fn first_write_rebuilds_nothing(st: EmbedState)
    ensures
        lacks(photo_line(st, false), "-Photoshop:all="@),
{
    lemma_photo_line_lacks(st, false, PhotoSubject::Rebuild);
}

/// A photo's camera is only written where there is one to add.
pub proof fn photo_without_camera_to_add(st: EmbedState, rebuild: bool)
    ensures
        st.make is None ==> lacks(photo_line(st, rebuild), "-EXIF:Make="@),
        st.model is None ==> lacks(photo_line(st, rebuild), "-EXIF:Model="@),
{
    if st.make is None {
        lemma_photo_line_lacks(st, rebuild, PhotoSubject::Make);
    }
    if st.model is None {
        lemma_photo_line_lacks(st, rebuild, PhotoSubject::Model);
    }
}

/// A video's camera is only written where there is one to add.
pub proof fn video_without_camera_to_add(st: EmbedState)
    ensures
        st.make is None ==> lacks(video_line(st), "-Keys:Make="@),
        st.model is None ==> lacks(video_line(st), "-Keys:Model="@),
{
    if st.make is None {
        lemma_video_line_lacks(st, VideoSubject::Make);
    }
    if st.model is None {
        lemma_video_line_lacks(st, VideoSubject::Model);
    }
}

proof fn lemma_queries_lack(kind: MediaKind, option: Seq<char>)
    requires
        option == "-XMP-dc:Subject="@ || option == "-IPTC:Keywords="@ || option
            == "-Keys:Keywords="@ || option == "-IPTC:"@ || option == "-Photoshop:"@ || (option
            == "-EXIF:"@ && kind == MediaKind::Video),
    ensures
        lacks(query_line(make_field(kind)), option),
        lacks(query_line(model_field(kind)), option),
{
    reveal_strlit("-XMP-dc:Subject=");
    reveal_strlit("-IPTC:Keywords=");
    reveal_strlit("-Keys:Keywords=");
    reveal_strlit("-IPTC:");
    reveal_strlit("-EXIF:");
    reveal_strlit("-Photoshop:");
    reveal_strlit("-s3");
    reveal_strlit("-");
    reveal_strlit("EXIF:Make");
    reveal_strlit("EXIF:Model");
    reveal_strlit("Make");
    reveal_strlit("Model");
    let none = Seq::<char>::empty();
    lemma_tag_lacks("-s3"@, none, option);
    lemma_tag_lacks("-"@ + make_field(kind), none, option);
    lemma_tag_lacks("-"@ + model_field(kind), none, option);
}

/// No run behind the first clears the keywords that were written: none assigns a
/// list of subjects or of IPTC keywords, and a video's QuickTime keywords, which
/// are one text, are assigned as the list of those that are written.
pub proof fn later_runs_clear_nothing(st: EmbedState)
    requires
        !(st.step is Clear),
    ensures
        next_line(st) matches Some(line) ==> lacks(line, "-XMP-dc:Subject="@),
        st.kind == MediaKind::Photo ==> (next_line(st) matches Some(line) ==> lacks(
            line,
            "-IPTC:Keywords="@,
        )),
        st.kind == MediaKind::Video ==> (next_line(st) matches Some(line) ==> forall|i: int|
            0 <= i < line.len() ==> ((#[trigger] line[i]) matches ArgText::Text(t) && has_prefix(
                t,
                "-Keys:Keywords="@,
            ) ==> video_keyword_list(embedded_keywords(st.metadata.keywords)) == seq![line[i]])),
{
    lemma_queries_lack(st.kind, "-XMP-dc:Subject="@);
    lemma_queries_lack(st.kind, "-IPTC:Keywords="@);
    lemma_queries_lack(st.kind, "-Keys:Keywords="@);
    match st.kind {
        MediaKind::Photo => {
            lemma_photo_line_lacks(st, st.step is Rebuild, PhotoSubject::ClearSubjects);
            lemma_photo_line_lacks(st, st.step is Rebuild, PhotoSubject::ClearKeywords);
        },
        MediaKind::Video => {
            let ks = embedded_keywords(st.metadata.keywords);
            lemma_video_line_lacks(st, VideoSubject::ClearSubjects);
            lemma_video_parts(st);
            lemma_video_rest_lacks(st, VideoSubject::Keywords);
            reveal_strlit("-Keys:Keywords=");
            reveal_strlit("-XMP-dc:Subject+=");
            lemma_video_keywords_lack(ks, "-Keys:Keywords="@);
            let line = video_line(st);
            let front = video_head(st.metadata) + video_keyword_tags(ks);
            let list = video_keyword_list(ks);
            assert(lacks(front, "-Keys:Keywords="@));
            assert forall|i: int|
                0 <= i < line.len() && (#[trigger] line[i]) is Text && has_prefix(
                    line[i]->Text_0,
                    "-Keys:Keywords="@,
                ) implies list == seq![line[i]] by {
                if i < front.len() {
                    assert(line[i] == front[i]);
                } else if i >= front.len() + list.len() {
                    assert(line[i] == video_back(st)[i - front.len() - list.len()]);
                } else {
                    assert(line[i] == list[0]);
                }
            }
        },
    }
}

proof fn lemma_video_clear_lacks(option: Seq<char>)
    requires
        option == "-IPTC:"@ || option == "-EXIF:"@ || option == "-Photoshop:"@,
    ensures
        lacks(clear_line(MediaKind::Video), option),
{
    reveal_strlit("-IPTC:");
    reveal_strlit("-EXIF:");
    reveal_strlit("-Photoshop:");
    reveal_strlit("-overwrite_original");
    reveal_strlit("-m");
    reveal_strlit("-XMP-dc:Subject=");
    reveal_strlit("-Keys:Keywords=");
    let none = Seq::<char>::empty();
    lemma_tag_lacks("-overwrite_original"@, none, option);
    lemma_tag_lacks("-m"@, none, option);
    lemma_tag_lacks("-XMP-dc:Subject="@, none, option);
    lemma_tag_lacks("-Keys:Keywords="@, none, option);
}

/// A video has no IPTC, EXIF or Photoshop tags, and no run for one names such a
/// tag.
pub proof fn videos_keep_to_their_groups(st: EmbedState)
    requires
        st.kind == MediaKind::Video,
    ensures
        next_line(st) matches Some(line) ==> lacks(line, "-IPTC:"@) && lacks(line, "-EXIF:"@)
            && lacks(line, "-Photoshop:"@),
{
    lemma_video_line_lacks(st, VideoSubject::Iptc);
    lemma_video_line_lacks(st, VideoSubject::Exif);
    lemma_video_line_lacks(st, VideoSubject::Photoshop);
    lemma_queries_lack(st.kind, "-IPTC:"@);
    lemma_queries_lack(st.kind, "-EXIF:"@);
    lemma_queries_lack(st.kind, "-Photoshop:"@);
    lemma_video_clear_lacks("-IPTC:"@);
    lemma_video_clear_lacks("-EXIF:"@);
    lemma_video_clear_lacks("-Photoshop:"@);
}

proof fn lemma_occurrences_add(a: Seq<ArgText>, b: Seq<ArgText>, option: Seq<char>)
    ensures
        occurrences(a + b, option) == occurrences(a, option) + occurrences(b, option),
    decreases b.len(),
{
    if b.len() == 0 {
        assert(a + b =~= a);
    } else {
        lemma_occurrences_add(a, b.drop_last(), option);
        assert((a + b).drop_last() =~= a + b.drop_last());
    }
}

proof fn lemma_lacks_none(line: Seq<ArgText>, option: Seq<char>)
    requires
        lacks(line, option),
    ensures
        occurrences(line, option) == 0,
    decreases line.len(),
{
    if line.len() > 0 {
        assert(lacks(line.drop_last(), option));
        lemma_lacks_none(line.drop_last(), option);
        assert(line[line.len() - 1] == line.last());
    }
}

proof fn lemma_occurrences_in_photo_keywords(ks: Seq<Seq<char>>)
    ensures
        occurrences(photo_keyword_tags(ks), "-IPTC:Keywords+="@) <= ks.len(),
        occurrences(photo_keyword_tags(ks), "-XMP-dc:Subject+="@) <= ks.len(),
    decreases ks.len(),
{
    if ks.len() > 0 {
        reveal_with_fuel(occurrences, 3);
        reveal_strlit("-XMP-dc:Subject+=");
        reveal_strlit("-IPTC:Keywords+=");
        let before = photo_keyword_tags(ks.drop_last());
        let both = photo_keyword_tags(ks);
        lemma_occurrences_in_photo_keywords(ks.drop_last());
        lemma_tag_lacks("-IPTC:Keywords+="@, ks.last(), "-XMP-dc:Subject+="@);
        lemma_tag_lacks("-XMP-dc:Subject+="@, ks.last(), "-IPTC:Keywords+="@);
        assert(both.drop_last() =~= before.push(tag("-IPTC:Keywords+="@, ks.last())));
        assert(both.drop_last().drop_last() =~= before);
    }
}

proof fn lemma_occurrences_at_most(line: Seq<ArgText>, option: Seq<char>)
    ensures
        occurrences(line, option) <= line.len(),
    decreases line.len(),
{
    if line.len() > 0 {
        lemma_occurrences_at_most(line.drop_last(), option);
    }
}

/// A file gets no more keywords than the limit: they are the first of those that
/// normalization left, and no write names more, whichever list it fills.
pub proof fn embedded_keywords_keep_to_the_limit(st: EmbedState, rebuild: bool)
    ensures
        embedded_keywords(st.metadata.keywords).len() <= MAX_KEYWORDS,
        embedded_keywords(st.metadata.keywords).is_prefix_of(
            filled_keywords(st.metadata.keywords),
        ),
        occurrences(photo_line(st, rebuild), "-IPTC:Keywords+="@) <= MAX_KEYWORDS,
        occurrences(photo_line(st, rebuild), "-XMP-dc:Subject+="@) <= MAX_KEYWORDS,
        occurrences(video_line(st), "-XMP-dc:Subject+="@) <= MAX_KEYWORDS,
{
    let ks = embedded_keywords(st.metadata.keywords);
    let tags = photo_keyword_tags(ks);
    lemma_photo_parts(st, rebuild);
    lemma_occurrences_in_photo_keywords(ks);
    lemma_photo_rest_lacks(st, rebuild, PhotoSubject::AddKeyword);
    lemma_lacks_none(photo_front(st, rebuild), "-IPTC:Keywords+="@);
    lemma_lacks_none(photo_back(st), "-IPTC:Keywords+="@);
    lemma_occurrences_add(photo_front(st, rebuild), tags, "-IPTC:Keywords+="@);
    lemma_occurrences_add(photo_front(st, rebuild) + tags, photo_back(st), "-IPTC:Keywords+="@);
    lemma_photo_rest_lacks(st, rebuild, PhotoSubject::AddSubject);
    lemma_lacks_none(photo_front(st, rebuild), "-XMP-dc:Subject+="@);
    lemma_lacks_none(photo_back(st), "-XMP-dc:Subject+="@);
    lemma_occurrences_add(photo_front(st, rebuild), tags, "-XMP-dc:Subject+="@);
    lemma_occurrences_add(photo_front(st, rebuild) + tags, photo_back(st), "-XMP-dc:Subject+="@);
    let front = video_head(st.metadata);
    let list = video_keyword_list(ks);
    reveal_strlit("-XMP-dc:Subject+=");
    reveal_strlit("-Keys:Keywords=");
    lemma_video_parts(st);
    lemma_video_rest_lacks(st, VideoSubject::AddSubject);
    lemma_tag_lacks("-Keys:Keywords="@, comma_list(ks), "-XMP-dc:Subject+="@);
    lemma_lacks_none(front, "-XMP-dc:Subject+="@);
    lemma_occurrences_at_most(video_keyword_tags(ks), "-XMP-dc:Subject+="@);
    lemma_lacks_none(list, "-XMP-dc:Subject+="@);
    lemma_lacks_none(video_back(st), "-XMP-dc:Subject+="@);
    lemma_occurrences_add(front, video_keyword_tags(ks), "-XMP-dc:Subject+="@);
    lemma_occurrences_add(front + video_keyword_tags(ks), list, "-XMP-dc:Subject+="@);
    lemma_occurrences_add(
        front + video_keyword_tags(ks) + list,
        video_back(st),
        "-XMP-dc:Subject+="@,
    );
}

/// Where the runs with the given outcomes lead.
pub open spec fn after_runs(st: EmbedState, outcomes: Seq<ToolOutcome>) -> EmbedState
    decreases outcomes.len(),
{
    if outcomes.len() == 0 {
        st
    } else {
        after_run(after_runs(st, outcomes.drop_last()), outcomes.last())
    }
}

/// Whatever the runs report, they are about the same file, metadata and
/// defaults, and a camera is added only as the defaults have it.
pub proof fn runs_keep_their_subject(
    kind: MediaKind,
    metadata: MetadataText,
    extras: ExtraText,
    outcomes: Seq<ToolOutcome>,
)
    ensures
        ({
            let st = after_runs(embed_start(kind, metadata, extras), outcomes);
            &&& st.kind == kind
            &&& st.metadata == metadata
            &&& st.extras == extras
            &&& st.make is None || st.make == extras.camera_make
            &&& st.model is None || st.model == extras.camera_model
            &&& st.step is Clear || st.step is ReadMake ==> st.make is None
            &&& st.step is Clear || st.step is ReadMake || st.step is ReadModel ==> st.model is None
        }),
    decreases outcomes.len(),
{
    if outcomes.len() > 0 {
        runs_keep_their_subject(kind, metadata, extras, outcomes.drop_last());
    }
}

proof fn lemma_own_camera(st: EmbedState, found: ToolOutcome, later: Seq<ToolOutcome>)
    requires
        queried_value(found) is Some,
        st.step is ReadMake || st.step is ReadModel,
    ensures
        after_runs(after_run(st, found), later).kind == st.kind,
        st.step is ReadMake ==> after_runs(after_run(st, found), later).make is None,
        st.step is ReadModel ==> after_runs(after_run(st, found), later).model is None,
        !(after_runs(after_run(st, found), later).step is Clear),
        !(after_runs(after_run(st, found), later).step is ReadMake),
        st.step is ReadModel ==> !(after_runs(after_run(st, found), later).step is ReadModel),
    decreases later.len(),
{
    if later.len() > 0 {
        lemma_own_camera(st, found, later.drop_last());
    }
}

/// The option that writes the maker of the camera.
pub open spec fn make_option(kind: MediaKind) -> Seq<char> {
    match kind {
        MediaKind::Photo => "-EXIF:Make="@,
        MediaKind::Video => "-Keys:Make="@,
    }
}

/// The option that writes the model of the camera.
pub open spec fn model_option(kind: MediaKind) -> Seq<char> {
    match kind {
        MediaKind::Photo => "-EXIF:Model="@,
        MediaKind::Video => "-Keys:Model="@,
    }
}

/// A file's own camera is kept: once a run has found the maker (or the model) of
/// the camera in the file, no later run writes it, whatever the runs report.
pub proof fn own_camera_is_kept(st: EmbedState, found: ToolOutcome, later: Seq<ToolOutcome>)
    requires
        queried_value(found) is Some,
        st.step is ReadMake || st.step is ReadModel,
    ensures
        next_line(after_runs(after_run(st, found), later)) matches Some(line) ==> lacks(
            line,
            if st.step is ReadMake {
                make_option(st.kind)
            } else {
                model_option(st.kind)
            },
        ),
{
    reveal_strlit("-s3");
    reveal_strlit("-");
    reveal_strlit("EXIF:Model");
    reveal_strlit("Model");
    reveal_strlit("-EXIF:Make=");
    reveal_strlit("-Keys:Make=");
    let end = after_runs(after_run(st, found), later);
    lemma_own_camera(st, found, later);
    photo_without_camera_to_add(end, end.step is Rebuild);
    video_without_camera_to_add(end);
    if st.step is ReadMake && end.step is ReadModel {
        lemma_tag_lacks("-s3"@, Seq::empty(), make_option(st.kind));
        lemma_tag_lacks("-"@ + model_field(st.kind), Seq::empty(), make_option(st.kind));
    }
}

/// The keywords that normalization leaves are written as they are, if they are
/// ASCII: none is blank and none has white space around it, so all of them are
/// written up to the limit.
pub proof fn ascii_normalized_keywords_are_written(ks: Seq<Seq<char>>)
    requires
        forall|i: int| 0 <= i < ks.len() ==> is_ascii_text(#[trigger] ks[i]),
    ensures
        filled_keywords(distinct_keywords(ks)) == distinct_keywords(ks),
        distinct_keywords(ks).len() <= MAX_KEYWORDS ==> embedded_keywords(distinct_keywords(ks))
            == distinct_keywords(ks),
        distinct_keywords(ks).len() > MAX_KEYWORDS ==> embedded_keywords(distinct_keywords(ks))
            == distinct_keywords(ks).take(MAX_KEYWORDS as int),
{
    let d = distinct_keywords(ks);
    assert forall|i: int| 0 <= i < d.len() implies trimmed(#[trigger] d[i]) == d[i] && d[i].len()
        > 0 by {
        assert(d.contains(d[i]));
        keywords_are_kept(ks, d[i]);
        let k = choose|k: int| 0 <= k < ks.len() && keyword_form(#[trigger] ks[k]) == d[i];
        assert(is_ascii_text(ks[k]));
        ascii_lowercase_is_stable(ks[k]);
    }
    lemma_filled_stays(d);
}

proof fn lemma_filled_stays(d: Seq<Seq<char>>)
    requires
        forall|i: int| 0 <= i < d.len() ==> trimmed(#[trigger] d[i]) == d[i] && d[i].len() > 0,
    ensures
        filled_keywords(d) == d,
    decreases d.len(),
{
    if d.len() > 0 {
        let rest = d.drop_last();
        assert forall|i: int| 0 <= i < rest.len() implies trimmed(#[trigger] rest[i]) == rest[i]
            && rest[i].len() > 0 by {
            assert(trimmed(d[i]) == d[i]);
        }
        lemma_filled_stays(rest);
        assert(trimmed(d[d.len() - 1]) == d.last());
        assert(rest.push(d.last()) == d);
    }
}

/// A file never gets more keywords than the reply held.
pub proof fn embedded_keywords_never_outnumber_the_reply(ks: Seq<Seq<char>>)
    ensures
        embedded_keywords(ks).len() <= ks.len(),
        embedded_keywords(distinct_keywords(ks)).len() <= ks.len(),
{
    lemma_filled_len(ks);
    lemma_filled_len(distinct_keywords(ks));
    keywords_never_grow(ks);
}

proof fn lemma_filled_len(ks: Seq<Seq<char>>)
    ensures
        filled_keywords(ks).len() <= ks.len(),
    decreases ks.len(),
{
    if ks.len() > 0 {
        lemma_filled_len(ks.drop_last());
    }
}

/// The keywords that are written, one keyword more: a blank one adds nothing, and
/// any other is added behind the rest without the white space around it, however
/// long it is. All are written up to the twenty-fifth, and the others are not.
pub proof fn written_keywords_are_taken_one_by_one(ks: Seq<Seq<char>>, k: Seq<char>)
    ensures
        filled_keywords(Seq::empty()) == Seq::<Seq<char>>::empty(),
        filled_keywords(ks.push(k)) == (if trimmed(k).len() == 0 {
            filled_keywords(ks)
        } else {
            filled_keywords(ks).push(trimmed(k))
        }),
        filled_keywords(ks).len() <= 25 ==> embedded_keywords(ks) == filled_keywords(ks),
        filled_keywords(ks).len() > 25 ==> embedded_keywords(ks) == filled_keywords(ks).take(25),
{
    assert(ks.push(k).drop_last() =~= ks);
}

/// What a write of a photo's tags says, argument by argument: title and
/// description whole and twice, each keyword twice, the country four times if
/// there is one, the camera if it is to be added, and nothing else.
#[verifier::rlimit(50)]
pub proof fn photo_writes_say_it_all(st: EmbedState, rebuild: bool, i: int)
    ensures
        ({
            let line = photo_line(st, rebuild);
            let ks = embedded_keywords(st.metadata.keywords);
            let head: int = if rebuild {
                4
            } else {
                3
            };
            let place: int = head + 4 + 2 * ks.len();
            let make: int = place + if st.extras.country is Some {
                4int
            } else {
                0
            };
            let model: int = make + if st.make is Some {
                1int
            } else {
                0
            };
            let end: int = model + if st.model is Some {
                1int
            } else {
                0
            };
            &&& line.len() == end + 1
            &&& line[0] == ArgText::Text("-overwrite_original"@)
            &&& line[1] == ArgText::Text("-m"@)
            &&& line[2] == ArgText::Text("-codedcharacterset=utf8"@)
            &&& rebuild ==> line[3] == ArgText::Text("-Photoshop:all="@)
            &&& line[head] == ArgText::Text("-IPTC:ObjectName="@ + st.metadata.title)
            &&& line[head + 1] == ArgText::Text(
                "-IPTC:Caption-Abstract="@ + st.metadata.description,
            )
            &&& line[head + 2] == ArgText::Text("-XMP-dc:Title="@ + st.metadata.title)
            &&& line[head + 3] == ArgText::Text("-XMP-dc:Description="@ + st.metadata.description)
            &&& 0 <= i < ks.len() ==> line[head + 4 + 2 * i] == ArgText::Text(
                "-IPTC:Keywords+="@ + ks[i],
            ) && line[head + 5 + 2 * i] == ArgText::Text("-XMP-dc:Subject+="@ + ks[i])
            &&& st.extras.country matches Some(c) ==> {
                &&& line[place] == ArgText::Text("-IPTC:Country-PrimaryLocationName="@ + c)
                &&& line[place + 1] == ArgText::Text("-XMP-photoshop:Country="@ + c)
                &&& line[place + 2] == ArgText::Text(
                    "-XMP-iptcExt:LocationCreatedCountryName="@ + c,
                )
                &&& line[place + 3] == ArgText::Text("-XMP-iptcExt:LocationShownCountryName="@ + c)
            }
            &&& st.make matches Some(v) ==> line[make] == ArgText::Text("-EXIF:Make="@ + v)
            &&& st.model matches Some(v) ==> line[model] == ArgText::Text("-EXIF:Model="@ + v)
            &&& line[end] == ArgText::File
        }),
{
    let ks = embedded_keywords(st.metadata.keywords);
    lemma_photo_parts(st, rebuild);
    if ks.len() > 0 {
        lemma_photo_keyword_tags(ks, 0);
    }
    let head: int = if rebuild {
        4
    } else {
        3
    };
    let place: int = head + 4 + 2 * ks.len();
    let line = photo_line(st, rebuild);
    let front = photo_front(st, rebuild);
    let tags = photo_keyword_tags(ks);
    let back = photo_back(st);
    assert(front.len() == head + 4);
    assert(tags.len() == 2 * ks.len());
    assert forall|m: int| 0 <= m < back.len() implies line[place + m] == #[trigger] back[m] by {}
    if 0 <= i < ks.len() {
        lemma_photo_keyword_tags(ks, i);
        assert(line[head + 4 + 2 * i] == tags[2 * i]);
        assert(line[head + 5 + 2 * i] == tags[2 * i + 1]);
    }
    assert(line[head] == front[head]);
    assert(line[head + 1] == front[head + 1]);
    assert(line[head + 2] == front[head + 2]);
    assert(line[head + 3] == front[head + 3]);
    let c: int = if st.extras.country is Some {
        4
    } else {
        0
    };
    assert(line[place] == back[0]);
    if st.extras.country is Some {
        assert(line[place + 1] == back[1]);
        assert(line[place + 2] == back[2]);
        assert(line[place + 3] == back[3]);
    }
    if st.make is Some {
        assert(line[place + c] == back[c]);
        if st.model is Some {
            assert(line[place + c + 1] == back[c + 1]);
        }
    } else if st.model is Some {
        assert(line[place + c] == back[c]);
    }
    assert(line[line.len() - 1] == back[back.len() - 1]);
}

/// What a write of a video's tags says, argument by argument: title and
/// description whole and twice, each keyword once and all of them in one list, the
/// country three times if there is one, the camera if it is to be added, and
/// nothing else.
#[verifier::rlimit(50)]
pub proof fn video_writes_say_it_all(st: EmbedState, i: int)
    ensures
        ({
            let line = video_line(st);
            let ks = embedded_keywords(st.metadata.keywords);
            let list: int = 6int + ks.len();
            let place: int = list + if ks.len() > 0 {
                1int
            } else {
                0
            };
            let make: int = place + if st.extras.country is Some {
                3int
            } else {
                0
            };
            let model: int = make + if st.make is Some {
                1int
            } else {
                0
            };
            let end: int = model + if st.model is Some {
                1int
            } else {
                0
            };
            &&& line.len() == end + 1
            &&& line[0] == ArgText::Text("-overwrite_original"@)
            &&& line[1] == ArgText::Text("-m"@)
            &&& line[2] == ArgText::Text("-XMP-dc:Title="@ + st.metadata.title)
            &&& line[3] == ArgText::Text("-XMP-dc:Description="@ + st.metadata.description)
            &&& line[4] == ArgText::Text("-Keys:Title="@ + st.metadata.title)
            &&& line[5] == ArgText::Text("-Keys:Description="@ + st.metadata.description)
            &&& 0 <= i < ks.len() ==> line[6 + i] == ArgText::Text("-XMP-dc:Subject+="@ + ks[i])
            &&& ks.len() > 0 ==> line[list] == ArgText::Text("-Keys:Keywords="@ + comma_list(ks))
            &&& st.extras.country matches Some(c) ==> {
                &&& line[place] == ArgText::Text("-XMP-photoshop:Country="@ + c)
                &&& line[place + 1] == ArgText::Text(
                    "-XMP-iptcExt:LocationCreatedCountryName="@ + c,
                )
                &&& line[place + 2] == ArgText::Text("-XMP-iptcExt:LocationShownCountryName="@ + c)
            }
            &&& st.make matches Some(v) ==> line[make] == ArgText::Text("-Keys:Make="@ + v)
            &&& st.model matches Some(v) ==> line[model] == ArgText::Text("-Keys:Model="@ + v)
            &&& line[end] == ArgText::File
        }),
{
    let ks = embedded_keywords(st.metadata.keywords);
    lemma_video_parts(st);
    let line = video_line(st);
    let front = video_head(st.metadata) + video_keyword_tags(ks) + video_keyword_list(ks);
    let back = video_back(st);
    let place: int = front.len() as int;
    assert forall|m: int| 0 <= m < front.len() implies line[m] == #[trigger] front[m] by {}
    assert forall|m: int| 0 <= m < back.len() implies line[place + m] == #[trigger] back[m] by {}
    if 0 <= i < ks.len() {
        assert(front[6 + i] == video_keyword_tags(ks)[i]);
    }
    if ks.len() > 0 {
        assert(front[6int + ks.len()] == video_keyword_list(ks)[0]);
    }
    let c: int = if st.extras.country is Some {
        3
    } else {
        0
    };
    assert(line[place] == back[0]);
    if st.extras.country is Some {
        assert(line[place + 1] == back[1]);
        assert(line[place + 2] == back[2]);
    }
    if st.make is Some {
        assert(line[place + c] == back[c]);
        if st.model is Some {
            assert(line[place + c + 1] == back[c + 1]);
        }
    } else if st.model is Some {
        assert(line[place + c] == back[c]);
    }
    assert(line[line.len() - 1] == back[back.len() - 1]);
}

/// A list of keywords is their texts with a comma and a space between any two.
pub proof fn listed_keywords_are_all_there(ks: Seq<Seq<char>>, k: Seq<char>)
    ensures
        comma_list(Seq::empty()) == Seq::<char>::empty(),
        comma_list(seq![k]) == k,
        ks.len() > 0 ==> comma_list(ks.push(k)) == comma_list(ks) + ", "@ + k,
{
    assert(ks.push(k).drop_last() =~= ks);
}

/// What each run is: which keywords the first clears, which field is read, and
/// that the writes are those of the kind of file.
pub proof fn each_run_is_for_its_step(st: EmbedState)
    ensures
        st.step is Clear ==> next_line(st) == Some(
            seq![
                ArgText::Text("-overwrite_original"@),
                ArgText::Text("-m"@),
                ArgText::Text("-XMP-dc:Subject="@),
                ArgText::Text(
                    if st.kind == MediaKind::Photo {
                        "-IPTC:Keywords="@
                    } else {
                        "-Keys:Keywords="@
                    },
                ),
                ArgText::File,
            ],
        ),
        st.step is ReadMake ==> next_line(st) == Some(
            seq![
                ArgText::Text("-s3"@),
                ArgText::Text(
                    "-"@ + if st.kind == MediaKind::Photo {
                        "EXIF:Make"@
                    } else {
                        "Make"@
                    },
                ),
                ArgText::File,
            ],
        ),
        st.step is ReadModel ==> next_line(st) == Some(
            seq![
                ArgText::Text("-s3"@),
                ArgText::Text(
                    "-"@ + if st.kind == MediaKind::Photo {
                        "EXIF:Model"@
                    } else {
                        "Model"@
                    },
                ),
                ArgText::File,
            ],
        ),
        st.step is Write ==> next_line(st) == Some(
            if st.kind == MediaKind::Photo {
                photo_line(st, false)
            } else {
                video_line(st)
            },
        ),
        st.step is Rebuild && st.kind == MediaKind::Photo ==> next_line(st) == Some(
            photo_line(st, true),
        ),
        st.step is Done || st.step is Failed ==> next_line(st) is None,
{
}

/// The course of the runs, whatever they report: the keywords are cleared; the
/// maker and the model are asked for, each if there is one to add; and each is
/// added exactly if the file told none. A write that succeeds ends the runs. Where
/// it fails, a photo's is made again with a rebuild, of the same tags, and a
/// video's is reported; and so is the failure of a rebuild.
pub proof fn the_runs_take_their_course(
    kind: MediaKind,
    metadata: MetadataText,
    extras: ExtraText,
    cleared: ToolOutcome,
    make_read: ToolOutcome,
    model_read: ToolOutcome,
    written: ToolOutcome,
    rebuilt: ToolOutcome,
)
    ensures
        ({
            let s0 = embed_start(kind, metadata, extras);
            let s1 = after_run(s0, cleared);
            let s2 = if extras.camera_make is Some {
                after_run(s1, make_read)
            } else {
                s1
            };
            let s3 = if extras.camera_model is Some {
                after_run(s2, model_read)
            } else {
                s2
            };
            let s4 = after_run(s3, written);
            let s5 = after_run(s4, rebuilt);
            &&& s0.step is Clear && s0.kind == kind
            &&& extras.camera_make is Some ==> s1.step is ReadMake && s1.kind == kind
            &&& extras.camera_model is Some ==> s2.step is ReadModel && s2.kind == kind
            &&& s3.step is Write && s3.kind == kind && s3.metadata == metadata && s3.extras
                == extras
            &&& s3.make == (if tells_something(make_read) {
                None
            } else {
                extras.camera_make
            })
            &&& s3.model == (if tells_something(model_read) {
                None
            } else {
                extras.camera_model
            })
            &&& match tool_failure("exiftool"@, written) {
                None => s4.step is Done,
                Some(e) => if kind == MediaKind::Photo {
                    s4.step is Rebuild && s4.kind == kind && s4.metadata == metadata && s4.extras
                        == extras && s4.make == s3.make && s4.model == s3.model && match tool_failure(
                        "exiftool"@,
                        rebuilt,
                    ) {
                        None => s5.step is Done,
                        Some(f) => s5.step == StepText::Failed(f),
                    }
                } else {
                    s4.step == StepText::Failed(e)
                },
            }
        }),
{
    what_is_told_is_read(make_read);
    what_is_told_is_read(model_read);
}

/// The camera that a file carries is kept: once a run has printed something other
/// than white space for the maker (or the model), no later run has an argument
/// that writes it, whatever the runs report.
pub proof fn a_printed_camera_is_kept(
    st: EmbedState,
    found: ToolOutcome,
    later: Seq<ToolOutcome>,
    i: int,
    rest: Seq<char>,
)
    requires
        tells_something(found),
        st.step is ReadMake || st.step is ReadModel,
    ensures
        next_line(after_runs(after_run(st, found), later)) matches Some(line) ==> (0 <= i
            < line.len() ==> line[i] != ArgText::Text(
            (if st.step is ReadMake {
                if st.kind == MediaKind::Photo {
                    "-EXIF:Make="@
                } else {
                    "-Keys:Make="@
                }
            } else {
                if st.kind == MediaKind::Photo {
                    "-EXIF:Model="@
                } else {
                    "-Keys:Model="@
                }
            }) + rest,
        )),
{
    what_is_told_is_read(found);
    own_camera_is_kept(st, found, later);
    let option = if st.step is ReadMake {
        make_option(st.kind)
    } else {
        model_option(st.kind)
    };
    assert((option + rest).take(option.len() as int) =~= option);
}

/// There is a warning exactly where the keywords could not be cleared, with the
/// reason, and where a photo is to be rebuilt.
pub proof fn warnings_are_given_where_due(st: EmbedState, outcome: ToolOutcome)
    ensures
        warning(st, outcome) == (match tool_failure("exiftool"@, outcome) {
            Some(e) => if st.step is Clear {
                Some(NoticeText::NotCleared(e))
            } else if st.step is Write && st.kind == MediaKind::Photo {
                Some(NoticeText::Rebuilding)
            } else {
                None
            },
            None => None,
        }),
{
}

/// The runs for a file are seen as they are.
pub proof fn embeddings_are_seen_whole(e: Embedding, step: EmbedStep, notice: Notice)
    ensures
        e@.kind == e.kind,
        e@.metadata == e.metadata@,
        e@.extras == e.extras@,
        e@.make == (match e.make {
            Some(s) => Some(s@),
            None => None,
        }),
        e@.model == (match e.model {
            Some(s) => Some(s@),
            None => None,
        }),
        e@.step == e.step@,
        step matches EmbedStep::Failed(m) ==> step@ == StepText::Failed(m@),
        step is Clear <==> step@ is Clear,
        step is ReadMake <==> step@ is ReadMake,
        step is ReadModel <==> step@ is ReadModel,
        step is Write <==> step@ is Write,
        step is Rebuild <==> step@ is Rebuild,
        step is Done <==> step@ is Done,
        notice matches Notice::NotCleared(m) ==> notice_text(Some(notice)) == Some(
            NoticeText::NotCleared(m@),
        ),
        notice is Rebuilding ==> notice_text(Some(notice)) == Some(NoticeText::Rebuilding),
        notice_text(None) is None,
{
}

} // verus!

//! What the model is asked.
use vstd::prelude::*;

use crate::numbers::decimal_text;

verus! {

use crate::numbers::decimal;

/// The rules for title, description and keywords, which are the same for a
/// photo and for the frames of a video.
pub const METADATA_RULES: &'static str = "1. A catchy, highly relevant Title of 5-7 words that reads as ONE coherent, grammatical sentence: the words must connect into a natural, readable phrase describing the scene, NOT a list of loosely related keywords. The title must never exceed 200 characters. Write it to drive sales: lead with the terms commercial buyers actually search for and the concept the image sells.\n\
     2. A detailed Description/Caption (1-2 sentences describing the scene), also written to drive sales: highlight the commercial concepts and use cases buyers search for, while staying factual to what is visible.\n\
     3. Up to 25 keywords strictly sorted in ORDER OF PRECEDENCE (the most important, visible subjects must come first, followed by broader categories, with abstract moods at the very end).\n\
     STRICT RULE FOR KEYWORDS: Only include elements that are directly visible or explicitly factual to the scene. Do not guess locations (e.g., 'Tokyo'), seasons, or industries unless there is undeniable visual proof in the image. Avoid fluff.\n\
     CRITICAL GETTY IMAGES CONSTRAINT: Every keyword must be a single, standalone word or a universally standard two-word term (e.g., 'digital tablet', 'golden retriever'). Avoid descriptive phrases, sentences, or action-statements in the keywords array. Keep them literal, concrete, and distinct.";

/// What a photo is called in a prompt and in front of it.
pub const PHOTO_LABEL: &'static str = "Image";

/// What a frame is called in a prompt and in front of it.
pub const FRAME_LABEL: &'static str = "Frame";

/// What follows a label in a prompt; each image has its number in place of the
/// letter.
pub const LABEL_NUMBER: &'static str = " N:";

pub const PHOTO_OPENING: &'static str = "Analyze the following ";

pub const PHOTO_TASK: &'static str = " image(s) for stock photography optimization. \
     The images are provided in order, each preceded by a text label like '";

pub const PHOTO_STEPS: &'static str = "'. For EACH image independently, provide:\n";

pub const PHOTO_FORMAT: &'static str = "\n\
     You must return the response STRICTLY as a JSON object with a single key 'results', whose value is an array of exactly ";

pub const PHOTO_CLOSING: &'static str = " object(s), one per image IN THE SAME ORDER as the images were provided. Each object must have keys: 'title', 'description', and 'keywords'.";

pub const VIDEO_OPENING: &'static str = "You are given ";

pub const VIDEO_TASK: &'static str = " still frame(s) extracted in chronological order from a SINGLE short video clip, \
     each preceded by a text label like '";

pub const VIDEO_STEPS: &'static str = "'. Treat them together as ONE video (not separate images) and \
     analyze the clip as a whole for stock footage optimization. Provide:\n";

pub const VIDEO_CLOSING: &'static str = "\n\
     You must return the response STRICTLY as a JSON object with a single key 'results', whose value is an array \
     containing EXACTLY ONE object with keys 'title', 'description', and 'keywords', describing the video as a whole.";

/// The prompt for `count` photos, which asks for one result per photo.
pub open spec fn photo_prompt(count: nat) -> Seq<char> {
    PHOTO_OPENING@ + decimal(count) + PHOTO_TASK@ + PHOTO_LABEL@ + LABEL_NUMBER@ + PHOTO_STEPS@
        + METADATA_RULES@ + PHOTO_FORMAT@ + decimal(count) + PHOTO_CLOSING@
}

/// The prompt for `frame_count` frames of one video, which asks for one result.
pub open spec fn video_prompt(frame_count: nat) -> Seq<char> {
    VIDEO_OPENING@ + decimal(frame_count) + VIDEO_TASK@ + FRAME_LABEL@ + LABEL_NUMBER@
        + VIDEO_STEPS@ + METADATA_RULES@ + VIDEO_CLOSING@
}

/// Asks for the metadata of `count` photos.
pub fn build_prompt(count: usize) -> (r: String)
    ensures
        r@ == photo_prompt(count as nat),
{
    let number = decimal_text(count as u64);
    let mut prompt = PHOTO_OPENING.to_owned();
    prompt.append(number.as_str());
    prompt.append(PHOTO_TASK);
    prompt.append(PHOTO_LABEL);
    prompt.append(LABEL_NUMBER);
    prompt.append(PHOTO_STEPS);
    prompt.append(METADATA_RULES);
    prompt.append(PHOTO_FORMAT);
    prompt.append(number.as_str());
    prompt.append(PHOTO_CLOSING);
    prompt
}

/// Asks for the metadata of one video by its frames. The frames are reasoned
/// about together, so the prompt asks for one result.
pub fn build_video_prompt(frame_count: usize) -> (r: String)
    ensures
        r@ == video_prompt(frame_count as nat),
{
    let mut prompt = VIDEO_OPENING.to_owned();
    prompt.append(decimal_text(frame_count as u64).as_str());
    prompt.append(VIDEO_TASK);
    prompt.append(FRAME_LABEL);
    prompt.append(LABEL_NUMBER);
    prompt.append(VIDEO_STEPS);
    prompt.append(METADATA_RULES);
    prompt.append(VIDEO_CLOSING);
    prompt
}

/// The prompt says that images come behind the given label and a number.
pub open spec fn announces(prompt: Seq<char>, label: Seq<char>) -> bool {
    exists|before: Seq<char>, behind: Seq<char>|
        prompt == #[trigger] (before + label + LABEL_NUMBER@ + behind)
}

/// Each prompt announces the label under which its images are sent.
pub proof fn prompts_announce_their_labels(count: nat)
    ensures
        announces(photo_prompt(count), PHOTO_LABEL@),
        announces(video_prompt(count), FRAME_LABEL@),
{
    let before = PHOTO_OPENING@ + decimal(count) + PHOTO_TASK@;
    let behind = PHOTO_STEPS@ + METADATA_RULES@ + PHOTO_FORMAT@ + decimal(count) + PHOTO_CLOSING@;
    assert(photo_prompt(count) =~= before + PHOTO_LABEL@ + LABEL_NUMBER@ + behind);
    let before = VIDEO_OPENING@ + decimal(count) + VIDEO_TASK@;
    let behind = VIDEO_STEPS@ + METADATA_RULES@ + VIDEO_CLOSING@;
    assert(video_prompt(count) =~= before + FRAME_LABEL@ + LABEL_NUMBER@ + behind);
}

/// Two prompts for photos differ in the number of photos only, which stands at two
/// places; two for videos differ in the number of frames only, which stands at
/// one.
pub proof fn prompts_differ_in_the_number_only(n: nat, m: nat) -> (parts: Seq<Seq<char>>)
    ensures
        photo_prompt(n) == parts[0] + decimal(n) + parts[1] + decimal(n) + parts[2],
        photo_prompt(m) == parts[0] + decimal(m) + parts[1] + decimal(m) + parts[2],
        video_prompt(n) == parts[3] + decimal(n) + parts[4],
        video_prompt(m) == parts[3] + decimal(m) + parts[4],
{
    let rules = PHOTO_TASK@ + PHOTO_LABEL@ + LABEL_NUMBER@ + PHOTO_STEPS@ + METADATA_RULES@
        + PHOTO_FORMAT@;
    let rest = VIDEO_TASK@ + FRAME_LABEL@ + LABEL_NUMBER@ + VIDEO_STEPS@ + METADATA_RULES@
        + VIDEO_CLOSING@;
    assert(photo_prompt(n) =~= PHOTO_OPENING@ + decimal(n) + rules + decimal(n) + PHOTO_CLOSING@);
    assert(photo_prompt(m) =~= PHOTO_OPENING@ + decimal(m) + rules + decimal(m) + PHOTO_CLOSING@);
    assert(video_prompt(n) =~= VIDEO_OPENING@ + decimal(n) + rest);
    assert(video_prompt(m) =~= VIDEO_OPENING@ + decimal(m) + rest);
    seq![PHOTO_OPENING@, rules, PHOTO_CLOSING@, VIDEO_OPENING@, rest]
}

/// Photos and videos are asked about by the same rules, which stand whole in every
/// prompt.
pub proof fn the_rules_are_in_every_prompt(count: nat) -> (around: Seq<Seq<char>>)
    ensures
        photo_prompt(count) == around[0] + METADATA_RULES@ + around[1],
        video_prompt(count) == around[2] + METADATA_RULES@ + around[3],
{
    let a = PHOTO_OPENING@ + decimal(count) + PHOTO_TASK@ + PHOTO_LABEL@ + LABEL_NUMBER@
        + PHOTO_STEPS@;
    let b = PHOTO_FORMAT@ + decimal(count) + PHOTO_CLOSING@;
    let c = VIDEO_OPENING@ + decimal(count) + VIDEO_TASK@ + FRAME_LABEL@ + LABEL_NUMBER@
        + VIDEO_STEPS@;
    assert(photo_prompt(count) =~= a + METADATA_RULES@ + b);
    assert(video_prompt(count) =~= c + METADATA_RULES@ + VIDEO_CLOSING@);
    seq![a, b, c, VIDEO_CLOSING@]
}

} // verus!

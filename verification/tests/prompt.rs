use photo_tagger::prompt::{
    build_prompt, build_video_prompt, FRAME_LABEL, METADATA_RULES, PHOTO_LABEL,
};

const RULES: &str = "1. A catchy, highly relevant Title of 5-7 words that reads as ONE coherent, grammatical sentence: the words must connect into a natural, readable phrase describing the scene, NOT a list of loosely related keywords. The title must never exceed 200 characters. Write it to drive sales: lead with the terms commercial buyers actually search for and the concept the image sells.\n\
     2. A detailed Description/Caption (1-2 sentences describing the scene), also written to drive sales: highlight the commercial concepts and use cases buyers search for, while staying factual to what is visible.\n\
     3. Up to 25 keywords strictly sorted in ORDER OF PRECEDENCE (the most important, visible subjects must come first, followed by broader categories, with abstract moods at the very end).\n\
     STRICT RULE FOR KEYWORDS: Only include elements that are directly visible or explicitly factual to the scene. Do not guess locations (e.g., 'Tokyo'), seasons, or industries unless there is undeniable visual proof in the image. Avoid fluff.\n\
     CRITICAL GETTY IMAGES CONSTRAINT: Every keyword must be a single, standalone word or a universally standard two-word term (e.g., 'digital tablet', 'golden retriever'). Avoid descriptive phrases, sentences, or action-statements in the keywords array. Keep them literal, concrete, and distinct.";

fn photo_prompt(count: usize) -> String {
    format!(
        "Analyze the following {count} image(s) for stock photography optimization. \
         The images are provided in order, each preceded by a text label like 'Image N:'. \
         For EACH image independently, provide:\n{rules}\n\
         You must return the response STRICTLY as a JSON object with a single key 'results', whose value is an array of exactly {count} object(s), one per image IN THE SAME ORDER as the images were provided. Each object must have keys: 'title', 'description', and 'keywords'.",
        count = count,
        rules = RULES
    )
}

fn video_prompt(frame_count: usize) -> String {
    format!(
        "You are given {frame_count} still frame(s) extracted in chronological order from a SINGLE short video clip, \
         each preceded by a text label like 'Frame N:'. Treat them together as ONE video (not separate images) and \
         analyze the clip as a whole for stock footage optimization. Provide:\n{rules}\n\
         You must return the response STRICTLY as a JSON object with a single key 'results', whose value is an array \
         containing EXACTLY ONE object with keys 'title', 'description', and 'keywords', describing the video as a whole.",
        frame_count = frame_count,
        rules = RULES
    )
}

#[test]
fn the_rules_are_the_same_for_photos_and_videos() {
    assert_eq!(METADATA_RULES, RULES);
    assert!(build_prompt(1).contains(METADATA_RULES));
    assert!(build_video_prompt(1).contains(METADATA_RULES));
}

#[test]
fn the_photo_prompt_asks_for_one_result_per_photo() {
    for count in [0, 1, 9, 10, 123] {
        assert_eq!(build_prompt(count), photo_prompt(count));
    }
    assert!(build_prompt(12).starts_with("Analyze the following 12 image(s) for stock"));
    assert!(build_prompt(12).contains("an array of exactly 12 object(s), one per image"));
}

#[test]
fn the_video_prompt_asks_for_one_result() {
    for frames in [1, 15, 100] {
        assert_eq!(build_video_prompt(frames), video_prompt(frames));
    }
    assert!(build_video_prompt(3).starts_with("You are given 3 still frame(s) extracted"));
    assert!(build_video_prompt(3).contains("EXACTLY ONE object"));
}

#[test]
fn the_prompts_announce_the_labels() {
    assert_eq!((PHOTO_LABEL, FRAME_LABEL), ("Image", "Frame"));
    assert!(build_prompt(2).contains(&format!("'{} N:'", PHOTO_LABEL)));
    assert!(build_video_prompt(2).contains(&format!("'{} N:'", FRAME_LABEL)));
}

use photo_tagger::metadata::StockMetadata;
use photo_tagger::prompt::build_video_prompt;
use photo_tagger::videos::{VideoEvent, VideoRun, VideoStage, FRAME_MAX_DIM, MAX_FRAMES};

fn names(list: &[&str]) -> VideoEvent {
    VideoEvent::Extracted(list.iter().map(|s| s.as_bytes().to_vec()).collect())
}

fn extracted(count: usize) -> VideoEvent {
    VideoEvent::Extracted((1..=count).map(|i| format!("frame_{:04}.jpg", i).into_bytes()).collect())
}

fn read(list: &[Option<&str>]) -> VideoEvent {
    VideoEvent::FramesRead(list.iter().map(|o| o.map(|s| s.to_string())).collect())
}

fn entry(title: &str) -> StockMetadata {
    StockMetadata { title: title.to_string(), description: String::new(), keywords: Vec::new() }
}

#[test]
fn limits_on_frames() {
    assert_eq!(FRAME_MAX_DIM, 1024);
    assert_eq!(MAX_FRAMES, 15);
}

#[test]
fn a_video_is_tagged_step_by_step() {
    let mut run = VideoRun::new(2, 500);
    assert_eq!(*run.stage(), VideoStage::Extract);
    run.advance(&names(&["b.jpg", "notes.txt", "a.jpg", "c.jpg"]));
    assert_eq!(*run.stage(), VideoStage::Read(vec![2, 0, 3]));
    run.advance(&read(&[Some("a"), None, Some("c")]));
    assert_eq!(
        *run.stage(),
        VideoStage::Ask {
            label: "Frame",
            images: vec!["a".to_string(), "c".to_string()],
            prompt: build_video_prompt(2),
        }
    );
    run.advance(&VideoEvent::Answered(vec![entry("a"), entry("b")]));
    assert_eq!(*run.stage(), VideoStage::Embed(entry("a")));
    run.advance(&VideoEvent::Embedded);
    assert_eq!(*run.stage(), VideoStage::Remove(true));
    run.advance(&VideoEvent::Removed);
    assert_eq!(*run.stage(), VideoStage::Pause(500));
    run.advance(&VideoEvent::Paused);
    assert_eq!((run.index(), run.stage()), (1, &VideoStage::Extract));
}

#[test]
fn the_last_video_ends_the_work() {
    let mut run = VideoRun::new(1, 500);
    run.advance(&extracted(1));
    run.advance(&read(&[Some("a")]));
    run.advance(&VideoEvent::CallFailed);
    assert_eq!(*run.stage(), VideoStage::Remove(true));
    run.advance(&VideoEvent::Removed);
    assert_eq!(*run.stage(), VideoStage::Finished);
    run.advance(&VideoEvent::Paused);
    assert_eq!(*run.stage(), VideoStage::Finished);
}

#[test]
fn a_failed_extraction_goes_on_without_a_pause() {
    let mut run = VideoRun::new(2, 500);
    run.advance(&VideoEvent::ExtractionFailed);
    assert_eq!((run.index(), run.stage()), (1, &VideoStage::Extract));
    run.advance(&VideoEvent::ExtractionFailed);
    assert_eq!(*run.stage(), VideoStage::Finished);
}

#[test]
fn unreadable_frames_are_removed_without_a_call() {
    let mut run = VideoRun::new(2, 500);
    run.advance(&extracted(2));
    run.advance(&read(&[None, None]));
    assert_eq!(*run.stage(), VideoStage::Remove(false));
    run.advance(&VideoEvent::Removed);
    assert_eq!((run.index(), run.stage()), (1, &VideoStage::Extract));
}

#[test]
fn an_answer_without_results_embeds_nothing() {
    let mut run = VideoRun::new(2, 500);
    run.advance(&extracted(2));
    run.advance(&read(&[Some("a"), Some("b")]));
    run.advance(&VideoEvent::Answered(Vec::new()));
    assert_eq!(*run.stage(), VideoStage::Remove(true));
}

#[test]
fn events_out_of_place_change_nothing() {
    let mut run = VideoRun::new(1, 500);
    run.advance(&VideoEvent::Removed);
    run.advance(&read(&[Some("a")]));
    assert_eq!((run.index(), run.stage()), (0, &VideoStage::Extract));
    assert_eq!(*VideoRun::new(0, 500).stage(), VideoStage::Finished);
}

#[test]
fn frames_are_removed_whatever_happens() {
    for code in 0..4096u32 {
        let mut run = VideoRun::new(3, 9);
        let mut folders: i32 = 0;
        let mut step: u32 = 0;
        while *run.stage() != VideoStage::Finished {
            let choice = code >> (step % 12) & 1 == 0;
            let event = match run.stage() {
                VideoStage::Extract => {
                    assert_eq!(folders, 0);
                    folders += if choice { 1 } else { 0 };
                    if choice {
                        extracted(2)
                    } else {
                        VideoEvent::ExtractionFailed
                    }
                }
                VideoStage::Read(_) => read(&[None, if choice { Some("a") } else { None }]),
                VideoStage::Ask { .. } => {
                    if choice {
                        VideoEvent::Answered(vec![entry("a")])
                    } else {
                        VideoEvent::CallFailed
                    }
                }
                VideoStage::Embed(_) => VideoEvent::Embedded,
                VideoStage::Remove(_) | VideoStage::Discard(_) => {
                    folders -= 1;
                    VideoEvent::Removed
                }
                _ => VideoEvent::Paused,
            };
            run.advance(&event);
            step += 1;
            assert!(step <= 18);
        }
        assert_eq!(folders, 0);
        assert_eq!(run.index(), 2);
    }
}

#[test]
fn a_folder_without_frames_is_discarded() {
    let mut run = VideoRun::new(2, 500);
    run.advance(&names(&["notes.txt"]));
    assert_eq!(*run.stage(), VideoStage::Discard("ffmpeg produced no frames".to_string()));
    run.advance(&VideoEvent::Removed);
    assert_eq!((run.index(), run.stage()), (1, &VideoStage::Extract));
}

#[test]
fn no_more_frames_are_read_than_allowed() {
    let mut run = VideoRun::new(1, 500);
    run.advance(&extracted(40));
    match run.stage() {
        VideoStage::Read(frames) => {
            assert_eq!(frames.len(), MAX_FRAMES);
            assert_eq!((frames[0], frames[14]), (0, 39));
        }
        _ => unreachable!(),
    }
    run.advance(&read(&[Some("a"); 16]));
    assert!(matches!(run.stage(), VideoStage::Read(_)));
    run.advance(&read(&[Some("a"); 15]));
    match run.stage() {
        VideoStage::Ask { images, .. } => assert_eq!(images.len(), MAX_FRAMES),
        _ => unreachable!(),
    }
}

#[test]
fn each_video_is_its_own_call() {
    let mut run = VideoRun::new(3, 0);
    let mut sent: Vec<Vec<String>> = vec![Vec::new(); 3];
    let mut written: Vec<Vec<StockMetadata>> = vec![Vec::new(), Vec::new(), Vec::new()];
    while *run.stage() != VideoStage::Finished {
        let i = run.index();
        let event = match run.stage() {
            VideoStage::Extract => extracted(2),
            VideoStage::Read(_) => match i {
                0 => read(&[Some("a0"), Some("a1")]),
                1 => read(&[None, None]),
                _ => read(&[None, Some("c1")]),
            },
            VideoStage::Ask { images, .. } => {
                sent[i].extend(images.iter().cloned());
                if i == 0 {
                    VideoEvent::Answered(Vec::new())
                } else {
                    VideoEvent::Answered(vec![entry("c"), entry("d")])
                }
            }
            VideoStage::Embed(m) => {
                written[i].push(m.clone());
                VideoEvent::Embedded
            }
            VideoStage::Remove(_) | VideoStage::Discard(_) => VideoEvent::Removed,
            _ => VideoEvent::Paused,
        };
        run.advance(&event);
    }
    assert_eq!(sent, vec![
        vec!["a0".to_string(), "a1".to_string()],
        Vec::new(),
        vec!["c1".to_string()],
    ]);
    assert_eq!(written, vec![Vec::new(), Vec::new(), vec![entry("c")]]);
}

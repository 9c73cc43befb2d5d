use photo_tagger::metadata::StockMetadata;
use photo_tagger::photos::{
    batch_question, batches, keep_readable, pair_by_order, pause_after, Pairing, PhotoEvent,
    PhotoRun, PhotoStage,
};
use photo_tagger::prompt::build_prompt;

fn entry(title: &str) -> StockMetadata {
    StockMetadata {
        title: title.to_string(),
        description: String::new(),
        keywords: vec!["k".to_string()],
    }
}

#[test]
fn photos_are_parted_into_batches() {
    assert_eq!(batches(7, 3), vec![(0, 3), (3, 6), (6, 7)]);
    assert_eq!(batches(6, 3), vec![(0, 3), (3, 6)]);
    assert_eq!(batches(2, 10), vec![(0, 2)]);
    assert_eq!(batches(0, 10), Vec::new());
    assert_eq!(batches(5, usize::MAX), vec![(0, 5)]);
}

#[test]
fn batches_are_the_chunks_of_the_standard_library() {
    for count in 0..40usize {
        let items: Vec<usize> = (0..count).collect();
        for size in 1..12usize {
            let parts: Vec<Vec<usize>> =
                batches(count, size).into_iter().map(|(a, b)| items[a..b].to_vec()).collect();
            let chunks: Vec<Vec<usize>> = items.chunks(size).map(|c| c.to_vec()).collect();
            assert_eq!(parts, chunks);
        }
    }
}

#[test]
fn unreadable_photos_are_left_out() {
    let reads = vec![Some("a".to_string()), None, Some("c".to_string()), None];
    let (places, images) = keep_readable(&reads);
    assert_eq!(places, vec![0, 2]);
    assert_eq!(images, vec!["a".to_string(), "c".to_string()]);
    let (places, images) = keep_readable(&vec![None, None]);
    assert!(places.is_empty() && images.is_empty());
}

#[test]
fn a_batch_without_photos_asks_nothing() {
    assert_eq!(batch_question(0), None);
    assert_eq!(batch_question(2), Some(build_prompt(2)));
}

#[test]
fn results_are_paired_by_order() {
    let p = pair_by_order(&vec![4, 7], &vec![entry("a"), entry("b")]);
    assert_eq!(p.paired, vec![(4, entry("a")), (7, entry("b"))]);
    assert!(p.missing.is_empty());
    assert!(!p.mismatch);
}

#[test]
fn too_few_results_leave_photos_without() {
    let p = pair_by_order(&vec![1, 2, 5], &vec![entry("a")]);
    assert_eq!(p.paired, vec![(1, entry("a"))]);
    assert_eq!(p.missing, vec![2, 5]);
    assert!(p.mismatch);
}

#[test]
fn too_many_results_are_dropped() {
    let p = pair_by_order(&vec![1], &vec![entry("a"), entry("b")]);
    assert_eq!(p.paired, vec![(1, entry("a"))]);
    assert!(p.missing.is_empty());
    assert!(p.mismatch);
}

#[test]
fn calls_are_separated_by_pauses() {
    assert_eq!(pause_after(0, 2, true, 2000), Some(2000));
    assert_eq!(pause_after(1, 2, true, 2000), None);
    assert_eq!(pause_after(0, 2, false, 2000), None);
    assert_eq!(pause_after(usize::MAX, 1, true, 2000), None);
}

fn read(list: &[Option<&str>]) -> PhotoEvent {
    PhotoEvent::BatchRead(list.iter().map(|o| o.map(|s| s.to_string())).collect())
}

#[test]
fn batches_are_tagged_one_after_the_other() {
    let mut run = PhotoRun::new(5, 3, 2000);
    assert_eq!((run.total(), run.batch()), (2, Some((0, 3))));
    assert_eq!((run.index(), run.stage()), (0, &PhotoStage::Read));
    run.advance(&read(&[Some("a"), None, Some("c")]));
    assert_eq!(
        *run.stage(),
        PhotoStage::Ask {
            places: vec![0, 2],
            label: "Image",
            images: vec!["a".to_string(), "c".to_string()],
            prompt: build_prompt(2),
        }
    );
    run.advance(&PhotoEvent::Answered(vec![entry("x"), entry("y")]));
    assert_eq!(
        *run.stage(),
        PhotoStage::Embed(Pairing {
            paired: vec![(0, entry("x")), (2, entry("y"))],
            missing: vec![],
            mismatch: false,
        })
    );
    run.advance(&PhotoEvent::Embedded);
    assert_eq!((run.index(), run.stage()), (0, &PhotoStage::Pause(2000)));
    run.advance(&PhotoEvent::Paused);
    assert_eq!((run.index(), run.stage()), (1, &PhotoStage::Read));
    assert_eq!(run.batch(), Some((3, 5)));
    run.advance(&read(&[Some("d"), Some("e")]));
    run.advance(&PhotoEvent::CallFailed);
    assert_eq!((run.index(), run.stage()), (1, &PhotoStage::Finished));
    run.advance(&PhotoEvent::Paused);
    assert_eq!(*run.stage(), PhotoStage::Finished);
}

#[test]
fn an_unreadable_batch_is_passed_without_call_or_pause() {
    let mut run = PhotoRun::new(3, 1, 2000);
    run.advance(&read(&[None]));
    assert_eq!((run.index(), run.stage()), (1, &PhotoStage::Read));
    run.advance(&read(&[Some("b")]));
    run.advance(&PhotoEvent::CallFailed);
    assert_eq!((run.index(), run.stage()), (1, &PhotoStage::Pause(2000)));
    run.advance(&PhotoEvent::Paused);
    run.advance(&read(&[None]));
    assert_eq!((run.index(), run.stage()), (2, &PhotoStage::Finished));
}

#[test]
fn there_is_one_call_for_each_readable_batch() {
    let readable = [true, false, true, true, false];
    let mut run = PhotoRun::new(10, 2, 7);
    let mut calls = vec![0; 5];
    while *run.stage() != PhotoStage::Finished {
        let event = match run.stage() {
            PhotoStage::Read => read(&[None, if readable[run.index()] { Some("x") } else { None }]),
            PhotoStage::Ask { .. } => {
                calls[run.index()] += 1;
                if run.index() == 0 {
                    PhotoEvent::CallFailed
                } else {
                    PhotoEvent::Answered(vec![])
                }
            }
            PhotoStage::Embed(p) => {
                assert_eq!((p.paired.len(), &p.missing, p.mismatch), (0, &vec![1], true));
                PhotoEvent::Embedded
            }
            PhotoStage::Pause(ms) => {
                assert_eq!(*ms, 7);
                PhotoEvent::Paused
            }
            PhotoStage::Finished => unreachable!(),
        };
        run.advance(&event);
    }
    assert_eq!(calls, vec![1, 0, 1, 1, 0]);
}

#[test]
fn batch_events_out_of_place_change_nothing() {
    let mut run = PhotoRun::new(1, 1, 0);
    for event in [
        read(&[Some("a"), Some("b")]),
        PhotoEvent::Answered(vec![entry("x")]),
        PhotoEvent::CallFailed,
        PhotoEvent::Embedded,
        PhotoEvent::Paused,
    ] {
        run.advance(&event);
        assert_eq!(run, PhotoRun::new(1, 1, 0));
    }
    assert_eq!(PhotoRun::new(0, 4, 0).batch(), None);
    assert_eq!(*PhotoRun::new(0, 4, 0).stage(), PhotoStage::Finished);
}

#[test]
fn a_readable_photo_gets_the_result_at_its_rank() {
    for mask in 1..32usize {
        let reads: Vec<Option<String>> =
            (0..5).map(|i| if mask >> i & 1 == 1 { Some(i.to_string()) } else { None }).collect();
        let count = reads.iter().flatten().count();
        let results: Vec<StockMetadata> = (0..count).map(|i| entry(&format!("r{}", i))).collect();
        let mut run = PhotoRun::new(5, 5, 0);
        run.advance(&PhotoEvent::BatchRead(reads.clone()));
        run.advance(&PhotoEvent::Answered(results));
        match run.stage() {
            PhotoStage::Embed(p) => {
                for i in 0..5 {
                    let rank = reads[..i].iter().flatten().count();
                    let got = p.paired.iter().find(|(place, _)| *place == i);
                    match &reads[i] {
                        Some(_) => assert_eq!(got.unwrap().1, entry(&format!("r{}", rank))),
                        None => assert!(got.is_none()),
                    }
                }
            }
            _ => unreachable!(),
        }
    }
}

use std::path::PathBuf;

use photo_tagger::frames::{extraction_args, pick_evenly, select_frames};
use photo_tagger::tools::Arg;

fn names(list: &[&str]) -> Vec<Vec<u8>> {
    list.iter().map(|s| s.as_bytes().to_vec()).collect()
}

#[test]
fn picks_are_spread_evenly() {
    let items: Vec<u32> = (0..10).collect();
    assert_eq!(pick_evenly(&items, 2), vec![0, 9]);
    assert_eq!(pick_evenly(&items, 3), vec![0, 4, 9]);
    assert_eq!(pick_evenly(&items, 4), vec![0, 3, 6, 9]);
    assert_eq!(pick_evenly(&items, 9), vec![0, 1, 2, 3, 4, 5, 6, 7, 9]);
}

#[test]
fn few_items_are_all_picked() {
    let items: Vec<u32> = (0..3).collect();
    assert_eq!(pick_evenly(&items, 3), items);
    assert_eq!(pick_evenly(&items, 100), items);
    assert_eq!(pick_evenly(&items[..1], 1), vec![0]);
    assert_eq!(pick_evenly(&items[..0], 1), Vec::<u32>::new());
}

#[test]
fn none_of_the_items_can_be_asked_for() {
    let items: Vec<u32> = (0..3).collect();
    assert_eq!(pick_evenly(&items, 0), Vec::<u32>::new());
}

#[test]
fn a_single_pick_is_the_first_item() {
    let items: Vec<u32> = (5..15).collect();
    assert_eq!(pick_evenly(&items, 1), vec![5]);
    assert_eq!(pick_evenly(&items[..2], 1), vec![5]);
    assert_eq!(select_frames(&names(&["b.jpg", "a.jpg", "c.jpg"]), 1), Ok(vec![1]));
}

#[test]
fn paths_can_be_picked() {
    let items: Vec<PathBuf> = vec![PathBuf::from("a"), PathBuf::from("b"), PathBuf::from("c")];
    assert_eq!(pick_evenly(&items, 2), vec![PathBuf::from("a"), PathBuf::from("c")]);
}

#[test]
fn the_extraction_command_line() {
    let text = |s: &str| Arg::Text(s.to_string());
    assert_eq!(
        extraction_args("2", 1024),
        vec![
            text("-hide_banner"),
            text("-loglevel"),
            text("error"),
            text("-i"),
            Arg::File,
            text("-vf"),
            text("fps=2,scale='min(1024,iw)':-2"),
            text("-q:v"),
            text("3"),
            Arg::Frames,
        ]
    );
}

#[test]
fn frames_are_sorted_and_capped() {
    let list: Vec<Vec<u8>> =
        (1..=40).rev().map(|i| format!("frame_{:04}.jpg", i).into_bytes()).collect();
    let chosen = select_frames(&list, 15).unwrap();
    let numbers: Vec<usize> = chosen.iter().map(|&i| 40 - i).collect();
    assert_eq!(numbers, vec![1, 3, 6, 9, 12, 14, 17, 20, 23, 26, 28, 31, 34, 37, 40]);
}

#[test]
fn other_files_are_no_frames() {
    assert_eq!(select_frames(&names(&["b.jpg", "x.txt", "a.jpg"]), 15), Ok(vec![2, 0]));
    assert_eq!(select_frames(&names(&["b.jpg", "x.txt"]), 1), Ok(vec![0]));
    assert_eq!(
        select_frames(&names(&["x.txt"]), 15),
        Err("ffmpeg produced no frames".to_string())
    );
}

#[test]
fn gaps_between_picks_differ_by_at_most_one() {
    for n in 3..60usize {
        let items: Vec<usize> = (0..n).collect();
        for k in 2..n {
            let picks = pick_evenly(&items, k);
            assert_eq!((picks[0], picks[k - 1]), (0, n - 1));
            let gaps: Vec<usize> = picks.windows(2).map(|w| w[1] - w[0]).collect();
            let widest = *gaps.iter().max().unwrap();
            let narrowest = *gaps.iter().min().unwrap();
            assert!(narrowest > 0 && widest - narrowest <= 1);
        }
    }
}

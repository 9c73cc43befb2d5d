use photo_tagger::config::ExtraTags;
use photo_tagger::exiftool::{EmbedStep, Embedding, MediaKind, Notice, MAX_KEYWORDS};
use photo_tagger::metadata::StockMetadata;
use photo_tagger::tools::{
    read_printed_value, read_queried_value, report_run_failure, tool_result, Arg, ToolOutcome,
};

fn text(s: &str) -> Arg {
    Arg::Text(s.to_string())
}

fn some(s: &str) -> Option<String> {
    Some(s.to_string())
}

fn metadata() -> StockMetadata {
    StockMetadata {
        title: "A dog".to_string(),
        description: "A dog runs.".to_string(),
        keywords: vec!["dog".to_string(), " ".to_string(), " beach ".to_string()],
    }
}

fn extras() -> ExtraTags {
    ExtraTags {
        country: some("United Kingdom"),
        camera_make: some("Panasonic"),
        camera_model: some("DC-S5M2X"),
    }
}

fn good(stdout: &str) -> ToolOutcome {
    ToolOutcome::Finished {
        success: true,
        stdout: stdout.as_bytes().to_vec(),
        stderr: Vec::new(),
    }
}

fn bad(stderr: &str) -> ToolOutcome {
    ToolOutcome::Finished {
        success: false,
        stdout: Vec::new(),
        stderr: stderr.as_bytes().to_vec(),
    }
}

fn photo_line(rebuild: bool, camera: &[&str]) -> Vec<Arg> {
    let mut line = vec![text("-overwrite_original"), text("-m"), text("-codedcharacterset=utf8")];
    if rebuild {
        line.push(text("-Photoshop:all="));
    }
    for s in [
        "-IPTC:ObjectName=A dog",
        "-IPTC:Caption-Abstract=A dog runs.",
        "-XMP-dc:Title=A dog",
        "-XMP-dc:Description=A dog runs.",
        "-IPTC:Keywords+=dog",
        "-XMP-dc:Subject+=dog",
        "-IPTC:Keywords+=beach",
        "-XMP-dc:Subject+=beach",
        "-IPTC:Country-PrimaryLocationName=United Kingdom",
        "-XMP-photoshop:Country=United Kingdom",
        "-XMP-iptcExt:LocationCreatedCountryName=United Kingdom",
        "-XMP-iptcExt:LocationShownCountryName=United Kingdom",
    ] {
        line.push(text(s));
    }
    for s in camera {
        line.push(text(s));
    }
    line.push(Arg::File);
    line
}

#[test]
fn a_photo_is_tagged_in_four_runs() {
    let mut e = Embedding::new(MediaKind::Photo, metadata(), extras());
    assert_eq!(
        e.next_run(),
        Some(vec![
            text("-overwrite_original"),
            text("-m"),
            text("-XMP-dc:Subject="),
            text("-IPTC:Keywords="),
            Arg::File
        ])
    );
    assert_eq!(e.advance(&good("")), None);
    assert_eq!(e.next_run(), Some(vec![text("-s3"), text("-EXIF:Make"), Arg::File]));
    assert_eq!(e.advance(&good("\n")), None);
    assert_eq!(e.next_run(), Some(vec![text("-s3"), text("-EXIF:Model"), Arg::File]));
    assert_eq!(e.advance(&good("")), None);
    assert_eq!(
        e.next_run(),
        Some(photo_line(false, &["-EXIF:Make=Panasonic", "-EXIF:Model=DC-S5M2X"]))
    );
    assert_eq!(e.advance(&good("1 image files updated")), None);
    assert_eq!(e.next_run(), None);
    assert_eq!(e.step, EmbedStep::Done);
}

#[test]
fn a_photo_keeps_its_own_camera() {
    let mut e = Embedding::new(MediaKind::Photo, metadata(), extras());
    e.advance(&good(""));
    e.advance(&good("Apple\n"));
    e.advance(&good("iPhone 15 Pro\n"));
    assert_eq!(e.next_run(), Some(photo_line(false, &[])));
    assert_eq!(e.advance(&bad("x")), Some(Notice::Rebuilding));
    assert_eq!(e.next_run(), Some(photo_line(true, &[])));
}

#[test]
fn a_photo_is_rebuilt_when_it_cannot_be_written() {
    let mut e = Embedding::new(MediaKind::Photo, metadata(), extras());
    assert_eq!(
        e.advance(&bad(" malformed \n")),
        Some(Notice::NotCleared("exiftool failed: malformed".to_string()))
    );
    e.advance(&bad("x"));
    e.advance(&ToolOutcome::NotFound);
    assert_eq!(e.step, EmbedStep::Write);
    assert_eq!(e.advance(&bad("first")), Some(Notice::Rebuilding));
    assert_eq!(
        e.next_run(),
        Some(photo_line(true, &["-EXIF:Make=Panasonic", "-EXIF:Model=DC-S5M2X"]))
    );
    assert_eq!(e.advance(&bad("second")), None);
    assert_eq!(e.step, EmbedStep::Failed("exiftool failed: second".to_string()));
    assert_eq!(e.next_run(), None);
    assert_eq!(e.advance(&good("")), None);
    assert_eq!(e.step, EmbedStep::Failed("exiftool failed: second".to_string()));
}

#[test]
fn a_rebuild_can_succeed() {
    let mut e = Embedding::new(MediaKind::Photo, metadata(), ExtraTags::default());
    e.advance(&good(""));
    assert_eq!(e.step, EmbedStep::Write);
    e.advance(&bad("x"));
    assert_eq!(e.step, EmbedStep::Rebuild);
    e.advance(&good(""));
    assert_eq!(e.step, EmbedStep::Done);
}

#[test]
fn only_a_camera_that_is_to_be_added_is_read() {
    let only_model = ExtraTags { country: None, camera_make: None, camera_model: some("X") };
    let mut e = Embedding::new(MediaKind::Photo, metadata(), only_model);
    e.advance(&good(""));
    assert_eq!(e.step, EmbedStep::ReadModel);
    let only_make = ExtraTags { country: None, camera_make: some("Y"), camera_model: None };
    let mut e = Embedding::new(MediaKind::Video, metadata(), only_make);
    e.advance(&good(""));
    assert_eq!(e.step, EmbedStep::ReadMake);
    assert_eq!(e.next_run(), Some(vec![text("-s3"), text("-Make"), Arg::File]));
    e.advance(&good(""));
    assert_eq!(e.step, EmbedStep::Write);
    assert_eq!(e.make, some("Y"));
}

#[test]
fn a_video_gets_xmp_tags_and_quicktime_keys() {
    let mut e = Embedding::new(MediaKind::Video, metadata(), extras());
    assert_eq!(
        e.next_run(),
        Some(vec![
            text("-overwrite_original"),
            text("-m"),
            text("-XMP-dc:Subject="),
            text("-Keys:Keywords="),
            Arg::File
        ])
    );
    e.advance(&good(""));
    e.advance(&good("Apple"));
    assert_eq!(e.next_run(), Some(vec![text("-s3"), text("-Model"), Arg::File]));
    e.advance(&good(""));
    let mut line: Vec<Arg> = Vec::new();
    for s in [
        "-overwrite_original",
        "-m",
        "-XMP-dc:Title=A dog",
        "-XMP-dc:Description=A dog runs.",
        "-Keys:Title=A dog",
        "-Keys:Description=A dog runs.",
        "-XMP-dc:Subject+=dog",
        "-XMP-dc:Subject+=beach",
        "-Keys:Keywords=dog, beach",
        "-XMP-photoshop:Country=United Kingdom",
        "-XMP-iptcExt:LocationCreatedCountryName=United Kingdom",
        "-XMP-iptcExt:LocationShownCountryName=United Kingdom",
        "-Keys:Model=DC-S5M2X",
    ] {
        line.push(text(s));
    }
    line.push(Arg::File);
    assert_eq!(e.next_run(), Some(line));
    assert_eq!(e.advance(&bad("no")), None);
    assert_eq!(e.step, EmbedStep::Failed("exiftool failed: no".to_string()));
}

#[test]
fn a_video_without_keywords_gets_none() {
    let plain = StockMetadata {
        title: "t".to_string(),
        description: "d".to_string(),
        keywords: vec![" ".to_string()],
    };
    let mut e = Embedding::new(MediaKind::Video, plain, ExtraTags::default());
    e.advance(&good(""));
    assert_eq!(
        e.next_run(),
        Some(vec![
            text("-overwrite_original"),
            text("-m"),
            text("-XMP-dc:Title=t"),
            text("-XMP-dc:Description=d"),
            text("-Keys:Title=t"),
            text("-Keys:Description=d"),
            Arg::File
        ])
    );
}

#[test]
fn a_missing_tool_is_reported_clearly() {
    assert_eq!(
        tool_result("exiftool", &ToolOutcome::NotFound),
        Err("exiftool not found on PATH (install via `brew install exiftool`)".to_string())
    );
    assert_eq!(
        tool_result("ffmpeg", &ToolOutcome::NotFound),
        Err("ffmpeg not found on PATH (install via `brew install ffmpeg`)".to_string())
    );
}

#[test]
fn a_run_that_went_wrong_is_reported() {
    assert_eq!(
        tool_result("ffmpeg", &ToolOutcome::NotStarted("denied".to_string())),
        Err("failed to invoke ffmpeg: denied".to_string())
    );
    assert_eq!(tool_result("ffmpeg", &bad("\n oh \n")), Err("ffmpeg failed: oh".to_string()));
    assert_eq!(tool_result("ffmpeg", &good("")), Ok(()));
    assert_eq!(report_run_failure("x", " y "), "x failed: y");
}

#[test]
fn bytes_that_are_no_text_are_repaired() {
    let outcome = ToolOutcome::Finished {
        success: false,
        stdout: Vec::new(),
        stderr: vec![b'a', 0xff, b'b'],
    };
    assert_eq!(tool_result("t", &outcome), Err("t failed: a\u{fffd}b".to_string()));
    assert_eq!(tool_result("t", &bad("été")), Err("t failed: été".to_string()));
}

#[test]
fn fields_are_read_from_what_is_printed() {
    assert_eq!(read_queried_value(&good(" Apple \n")), some("Apple"));
    assert_eq!(read_queried_value(&good(" \n")), None);
    assert_eq!(read_queried_value(&bad("x")), None);
    assert_eq!(read_queried_value(&ToolOutcome::NotFound), None);
    assert_eq!(read_queried_value(&ToolOutcome::NotStarted("x".to_string())), None);
    assert_eq!(read_printed_value(" a b "), some("a b"));
    assert_eq!(read_printed_value(""), None);
}

#[test]
fn the_runs_end_whatever_they_report() {
    for kind in [MediaKind::Photo, MediaKind::Video] {
        for code in 0..1024u32 {
            let mut e = Embedding::new(kind, metadata(), extras());
            let mut runs: u32 = 0;
            let mut found = false;
            while let Some(line) = e.next_run() {
                let outcome = match code >> (2 * runs) & 3 {
                    0 => good(""),
                    1 => good("Own"),
                    2 => bad("x"),
                    _ => ToolOutcome::NotFound,
                };
                if e.step == EmbedStep::ReadMake && outcome == good("Own") {
                    found = true;
                }
                let writes_make = line.iter().any(|a| match a {
                    Arg::Text(t) => t.starts_with("-EXIF:Make=") || t.starts_with("-Keys:Make="),
                    _ => false,
                });
                assert!(!found || !writes_make);
                e.advance(&outcome);
                assert_eq!(e.metadata, metadata());
                runs += 1;
            }
            assert!(runs <= 5);
            assert!(matches!(e.step, EmbedStep::Done | EmbedStep::Failed(_)));
        }
    }
}

fn starting_with(line: &[Arg], option: &str) -> Vec<String> {
    line.iter()
        .filter_map(|a| match a {
            Arg::Text(t) => t.strip_prefix(option).map(|v| v.to_string()),
            _ => None,
        })
        .collect()
}

fn keywords(count: usize) -> Vec<String> {
    (0..count).map(|i| format!("word{}", i)).collect()
}

fn write_runs(kind: MediaKind, keywords: Vec<String>) -> Vec<Vec<Arg>> {
    let metadata = StockMetadata {
        title: "T".to_string(),
        description: "D".to_string(),
        keywords,
    };
    let none = ExtraTags { country: None, camera_make: None, camera_model: None };
    let mut e = Embedding::new(kind, metadata, none);
    e.advance(&good(""));
    let mut lines = Vec::new();
    while let Some(line) = e.next_run() {
        lines.push(line);
        e.advance(&bad("x"));
    }
    lines
}

#[test]
fn a_photo_gets_no_more_keywords_than_the_limit() {
    assert_eq!(MAX_KEYWORDS, 25);
    for count in [24, 25, 26, 60] {
        let lines = write_runs(MediaKind::Photo, keywords(count));
        assert_eq!(lines.len(), 2);
        let expected = keywords(count.min(25));
        for line in &lines {
            assert_eq!(starting_with(line, "-IPTC:Keywords+="), expected);
            assert_eq!(starting_with(line, "-XMP-dc:Subject+="), expected);
        }
    }
}

#[test]
fn a_video_gets_no_more_keywords_than_the_limit() {
    for count in [24, 25, 26, 60] {
        let lines = write_runs(MediaKind::Video, keywords(count));
        assert_eq!(lines.len(), 1);
        let expected = keywords(count.min(25));
        assert_eq!(starting_with(&lines[0], "-XMP-dc:Subject+="), expected);
        assert_eq!(starting_with(&lines[0], "-Keys:Keywords="), vec![expected.join(", ")]);
    }
}

#[test]
fn blank_keywords_take_no_place_within_the_limit() {
    let mut list = vec![" ".to_string(); 10];
    list.extend(keywords(30));
    let lines = write_runs(MediaKind::Photo, list);
    assert_eq!(starting_with(&lines[0], "-IPTC:Keywords+="), keywords(25));
}

#[test]
fn only_the_first_run_clears_keywords() {
    for line in write_runs(MediaKind::Photo, keywords(3)) {
        assert!(starting_with(&line, "-XMP-dc:Subject=").is_empty());
        assert!(starting_with(&line, "-IPTC:Keywords=").is_empty());
    }
    for line in write_runs(MediaKind::Video, keywords(3)) {
        assert!(starting_with(&line, "-XMP-dc:Subject=").is_empty());
        assert_eq!(starting_with(&line, "-Keys:Keywords="), vec!["word0, word1, word2".to_string()]);
    }
}

#[test]
fn no_run_for_a_video_names_a_group_of_photos() {
    let mut e = Embedding::new(MediaKind::Video, metadata(), extras());
    let mut runs = 0;
    while let Some(line) = e.next_run() {
        for group in ["-IPTC:", "-EXIF:", "-Photoshop:"] {
            assert!(starting_with(&line, group).is_empty());
        }
        e.advance(&good(""));
        runs += 1;
    }
    assert_eq!(runs, 4);
}

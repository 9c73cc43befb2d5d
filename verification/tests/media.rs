use std::path::Path;

use photo_tagger::media::{
    collect_targets, has_jpeg_extension, has_mov_extension, is_supported_media, split_targets,
    Input,
};

fn names(list: &[&str]) -> Vec<Vec<u8>> {
    list.iter().map(|s| s.as_bytes().to_vec()).collect()
}

#[test]
fn jpeg_extensions() {
    for p in ["a.jpg", "a.JPG", "a.jpeg", "a.JpEg", "dir.x/a.b.jpg", "/x/a.jpg/", "a.jpg/.", "...jpg"] {
        assert!(has_jpeg_extension(p.as_bytes()), "{}", p);
    }
    for p in ["", "a", "jpg", ".jpg", "a.jpg.png", "a.jpgx", "a.jpg/b", "a.", "..", "a.jpg/..", "dir/.jpg", "/"] {
        assert!(!has_jpeg_extension(p.as_bytes()), "{}", p);
    }
}

#[test]
fn mov_extensions() {
    assert!(has_mov_extension(b"clip.mov"));
    assert!(has_mov_extension(b"clip.MOV"));
    assert!(!has_mov_extension(b"clip.mp4"));
    assert!(!has_mov_extension(b".mov"));
    assert!(is_supported_media(b"clip.Mov"));
    assert!(is_supported_media(b"a.jpeg"));
    assert!(!is_supported_media(b"a.png"));
}

#[test]
fn extensions_are_those_of_the_standard_library() {
    let parts = ["", ".", "..", "a", "a.jpg", ".jpg", "b.JPEG", "c.mov", "d.", "e.jpg.", "..jpg"];
    for x in parts {
        for y in parts {
            for z in parts {
                let p = format!("{}/{}/{}", x, y, z);
                let e = Path::new(&p).extension().and_then(|e| e.to_str()).map(|e| e.to_lowercase());
                let jpeg = e == Some("jpg".to_string()) || e == Some("jpeg".to_string());
                let mov = e == Some("mov".to_string());
                assert_eq!(has_jpeg_extension(p.as_bytes()), jpeg, "{}", p);
                assert_eq!(has_mov_extension(p.as_bytes()), mov, "{}", p);
            }
        }
    }
}

#[test]
fn names_need_not_be_text() {
    assert!(has_jpeg_extension(&[0xff, 0xfe, b'.', b'j', b'p', b'g']));
    assert!(!has_jpeg_extension(&[b'a', b'.', b'j', 0xff, b'g']));
}

#[test]
fn a_file_is_its_own_target() {
    assert_eq!(collect_targets(&Input::File(b"x/a.JPG".to_vec()), "x/a.JPG"), Ok(vec![0]));
    assert_eq!(collect_targets(&Input::File(b"x/a.png".to_vec()), "x/a.png"), Ok(Vec::new()));
}

#[test]
fn a_folder_is_sorted_by_name() {
    let list = names(&["b.jpg", "a.mov", "notes.txt", "B.jpg", "a.jpg", "a-1.jpeg", "é.jpg"]);
    let r = collect_targets(&Input::Folder(list.clone()), "x").unwrap();
    let sorted: Vec<&str> = r.iter().map(|&i| std::str::from_utf8(&list[i]).unwrap()).collect();
    assert_eq!(sorted, vec!["B.jpg", "a-1.jpeg", "a.jpg", "a.mov", "b.jpg", "é.jpg"]);
}

#[test]
fn a_large_folder_is_sorted_as_the_standard_library_sorts() {
    let list: Vec<Vec<u8>> =
        (0..500u32).map(|i| format!("{}.jpg", i * 7919 % 1009).into_bytes()).collect();
    let r = collect_targets(&Input::Folder(list.clone()), "x").unwrap();
    let mut expected: Vec<usize> = (0..500).collect();
    expected.sort_by(|&a, &b| Path::new(std::str::from_utf8(&list[a]).unwrap())
        .cmp(Path::new(std::str::from_utf8(&list[b]).unwrap())));
    assert_eq!(r, expected);
}

#[test]
fn equal_names_keep_their_order() {
    let list = names(&["b.jpg", "a.jpg", "b.jpg", "a.jpg"]);
    assert_eq!(collect_targets(&Input::Folder(list), "x"), Ok(vec![1, 3, 0, 2]));
}

#[test]
fn an_empty_folder_has_no_targets() {
    assert_eq!(collect_targets(&Input::Folder(Vec::new()), "x"), Ok(Vec::new()));
}

#[test]
fn a_missing_path_is_an_error() {
    assert_eq!(
        collect_targets(&Input::Missing, "some/where"),
        Err("Path does not exist as a file or folder: some/where".to_string())
    );
}

#[test]
fn photos_and_videos_part() {
    let (photos, videos) = split_targets(&names(&["a.jpg", "b.mov", "c.JPEG", "d.MOV", "e.jpg"]));
    assert_eq!(photos, vec![0, 2, 4]);
    assert_eq!(videos, vec![1, 3]);
}

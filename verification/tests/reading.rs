use base64::engine::general_purpose::STANDARD;
use base64::Engine;
use photo_tagger::reading::{
    after_failed_read, encode_image, ReadDecision, ReadOutcome, ReadStage, Reading, MAX_ATTEMPTS,
};

#[test]
fn images_are_encoded() {
    assert_eq!(encode_image(b""), "");
    assert_eq!(encode_image(b"f"), "Zg==");
    assert_eq!(encode_image(b"fo"), "Zm8=");
    assert_eq!(encode_image(b"foo"), "Zm9v");
    assert_eq!(encode_image(b"foob"), "Zm9vYg==");
    assert_eq!(encode_image(b"fooba"), "Zm9vYmE=");
    assert_eq!(encode_image(b"foobar"), "Zm9vYmFy");
    assert_eq!(encode_image(&[0xff, 0xfe, 0xfd, 0xfb, 0xef, 0xbe]), "//79++++");
}

/// The encoding, six bits at a time.
fn symbols(bytes: &[u8]) -> String {
    let mut out = String::new();
    let n = bytes.len();
    for k in 0..4 * ((n + 2) / 3) {
        if 6 * k < 8 * n {
            let first = 6 * k / 8;
            let next = if first + 1 < n { bytes[first + 1] as u32 } else { 0 };
            let pair = bytes[first] as u32 * 256 + next;
            let behind = match 6 * k % 8 {
                0 => 1024,
                2 => 256,
                4 => 64,
                _ => 16,
            };
            let v = (pair / behind % 64) as u8;
            let c = match v {
                0..=25 => 65 + v,
                26..=51 => 97 + v - 26,
                52..=61 => 48 + v - 52,
                62 => b'+',
                _ => b'/',
            };
            out.push(c as char);
        } else {
            out.push('=');
        }
    }
    out
}

#[test]
fn every_length_is_encoded_six_bits_at_a_time() {
    for n in 0..200usize {
        let bytes: Vec<u8> = (0..n).map(|i| (i * 151 + n * 7) as u8).collect();
        let text = encode_image(&bytes);
        assert_eq!(text, symbols(&bytes));
        assert_eq!(STANDARD.decode(&text).unwrap(), bytes);
    }
}

#[test]
fn reading_is_tried_three_times() {
    assert_eq!(MAX_ATTEMPTS, 3);
    assert_eq!(after_failed_read(1, "p", "e"), ReadDecision::Retry { pause_ms: 300 });
    assert_eq!(after_failed_read(2, "p", "e"), ReadDecision::Retry { pause_ms: 600 });
    assert_eq!(
        after_failed_read(3, "a/b.jpg", "locked"),
        ReadDecision::GiveUp("failed to read a/b.jpg after 3 attempts: locked".to_string())
    );
}

fn failed(e: &str) -> ReadOutcome {
    ReadOutcome::Failed(e.to_string())
}

fn bytes(b: &[u8]) -> ReadOutcome {
    ReadOutcome::Bytes(b.to_vec())
}

#[test]
fn the_first_success_is_the_result() {
    for k in 0..3usize {
        let mut r = Reading::new("p".to_string());
        for i in 0..k {
            assert_eq!(*r.stage(), ReadStage::Attempt { pause_ms: 300 * i as u64 });
            assert_eq!(r.attempt() as usize, i + 1);
            r.advance(&failed("held"));
        }
        r.advance(&bytes(b"foo"));
        assert_eq!(*r.stage(), ReadStage::Encoded("Zm9v".to_string()));
        r.advance(&bytes(b"bar"));
        r.advance(&failed("late"));
        assert_eq!(*r.stage(), ReadStage::Encoded("Zm9v".to_string()));
    }
}

#[test]
fn three_failures_end_the_reading() {
    let mut r = Reading::new("a/b.jpg".to_string());
    r.advance(&failed("one"));
    r.advance(&failed("two"));
    assert_eq!(*r.stage(), ReadStage::Attempt { pause_ms: 600 });
    r.advance(&failed("three"));
    let end = ReadStage::GaveUp("failed to read a/b.jpg after 3 attempts: three".to_string());
    assert_eq!(*r.stage(), end);
    r.advance(&bytes(b"foo"));
    assert_eq!(*r.stage(), end);
}

//! UTF-8 well-formedness of file contents.

use csvcheck::batch::process_csv_files;
use csvcheck::batch::EntryOutcome;
use csvcheck::batch::PatternItem;
use csvcheck::batch::PatternOutcome;
use csvcheck::encoding::scan_utf8;

fn single(path: &str, content: &[u8]) -> Vec<PatternItem> {
    vec![PatternItem {
        pattern: path.to_string(),
        outcome: PatternOutcome::Entries {
            entries: vec![EntryOutcome::Loaded {
                path: path.to_string(),
                content: content.to_vec(),
            }],
        },
    }]
}

#[test]
fn test_scan_utf8_accepts_ascii() {
    assert_eq!(scan_utf8(&b"h1,h2\nv1,v2\n".to_vec()), None);
}

#[test]
fn test_scan_utf8_accepts_multibyte() {
    let content = "héäder,h2\nv1,v2\n".as_bytes().to_vec();
    assert_eq!(scan_utf8(&content), None);
    let emoji = "a,\u{1F600}\nb,c\n".as_bytes().to_vec();
    assert_eq!(scan_utf8(&emoji), None);
}

#[test]
fn test_scan_utf8_rejects_stray_byte() {
    assert_eq!(scan_utf8(&b"h1,h2\nv\xff,v2\n".to_vec()), Some(7));
}

#[test]
fn test_scan_utf8_rejects_truncated_sequence() {
    assert_eq!(scan_utf8(&b"h1,h2\nv1,\xc3".to_vec()), Some(9));
}

#[test]
fn test_scan_utf8_rejects_overlong_form() {
    assert_eq!(scan_utf8(&b"\xc0\x80".to_vec()), Some(0));
}

#[test]
fn test_scan_utf8_rejects_surrogate() {
    assert_eq!(scan_utf8(&b"\xed\xa0\x80".to_vec()), Some(0));
}

#[test]
fn test_scan_utf8_agrees_with_std() {
    let samples: Vec<&[u8]> = vec![
        b"",
        b"plain ascii, nothing else\n",
        "h\u{00e9},\u{00df}\n".as_bytes(),
        "\u{0800},\u{ffff}\n".as_bytes(),
        "\u{10000},\u{10FFFF}".as_bytes(),
        b"\x80",
        b"\xbf",
        b"\xc1\x80",
        b"\xc2",
        b"\xc2\x7f",
        b"\xc2\x80",
        b"\xe0\x80\x80",
        b"\xe0\xa0\x80",
        b"\xed\x9f\xbf",
        b"\xed\xa0\x80",
        b"\xf0\x80\x80\x80",
        b"\xf0\x90\x80\x80",
        b"\xf4\x8f\xbf\xbf",
        b"\xf4\x90\x80\x80",
        b"\xf5\x80\x80\x80",
        b"ok\xffbad",
        b"\xe2\x82",
        b"\xe2\x82\xac",
    ];
    for sample in samples {
        let mine = scan_utf8(&sample.to_vec()).is_none();
        let stds = std::str::from_utf8(sample).is_ok();
        assert_eq!(mine, stds, "disagreement on {:?}", sample);
    }
}

#[test]
fn test_invalid_encoding_fails_validation() {
    let errors = process_csv_files(single("a.csv", b"h1,h2\nv\xff,v2\n")).unwrap_err();
    assert_eq!(errors.len(), 1);
    assert_eq!(errors[0], "Failed to load a.csv: invalid UTF-8 at byte 7");
}

#[test]
fn test_encoding_reported_before_shape() {
    let errors = process_csv_files(single("a.csv", b"h1,h2\nv1,v2,\xffv3\n")).unwrap_err();
    assert_eq!(errors.len(), 1);
    assert_eq!(errors[0], "Failed to load a.csv: invalid UTF-8 at byte 12");
}

#[test]
fn test_multibyte_text_validates() {
    let items = single("a.csv", "h\u{00e9}1,h2\nv1,v\u{00e4}2\n".as_bytes());
    assert!(process_csv_files(items).is_ok());
}

//! Whole-batch orchestration.

use csvcheck::batch::process_csv_files;
use csvcheck::batch::EntryOutcome;
use csvcheck::batch::PatternItem;
use csvcheck::batch::PatternOutcome;

fn loaded(pattern: &str, path: &str, content: &[u8]) -> PatternItem {
    PatternItem {
        pattern: pattern.to_string(),
        outcome: PatternOutcome::Entries {
            entries: vec![EntryOutcome::Loaded {
                path: path.to_string(),
                content: content.to_vec(),
            }],
        },
    }
}

#[test]
fn test_process_csv_files_success() {
    let items = vec![
        loaded("a.csv", "a.csv", b"header1,header2\nvalue1,value2\n"),
        loaded("b.csv", "b.csv", b"header3,header4\nvalue3,value4\n"),
    ];
    assert!(process_csv_files(items).is_ok());
}

#[test]
fn test_process_csv_files_failure() {
    let items = vec![
        loaded("a.csv", "a.csv", b"header1,header2\nvalue1,value2\n"),
        loaded("b.csv", "b.csv", b"header3,header4\nvalue3,value4,value5\n"),
    ];
    let result = process_csv_files(items);
    assert!(result.is_err());
    let errors = result.unwrap_err();
    assert_eq!(errors.len(), 1);
}

#[test]
fn test_process_csv_files_multiple_failures() {
    let items = vec![
        loaded("a.csv", "a.csv", b"header1,header2\nvalue1,value2,value3\n"),
        loaded("b.csv", "b.csv", b"header3,header4\nvalue4,value5\nx\n"),
    ];
    let result = process_csv_files(items);
    assert!(result.is_err());
    let errors = result.unwrap_err();
    assert_eq!(errors.len(), 2);
}

#[test]
fn test_single_well_formed_file() {
    let items = vec![loaded("a.csv", "a.csv", b"h1,h2\nv1,v2\n")];
    assert!(process_csv_files(items).is_ok());
}

#[test]
fn test_single_malformed_file() {
    let items = vec![loaded("a.csv", "a.csv", b"h1,h2\nv1,v2,v3\n")];
    let errors = process_csv_files(items).unwrap_err();
    assert_eq!(errors.len(), 1);
    assert_eq!(
        errors[0],
        "Failed to load a.csv: record 1 has 3 fields, but the first record has 2 fields"
    );
}

#[test]
fn test_well_formed_and_malformed() {
    let items = vec![
        loaded("a.csv", "a.csv", b"h1,h2\nv1,v2\n"),
        loaded("b.csv", "b.csv", b"h1,h2\nv1,v2,v3\n"),
    ];
    let errors = process_csv_files(items).unwrap_err();
    assert_eq!(errors.len(), 1);
    assert_eq!(
        errors[0],
        "Failed to load b.csv: record 1 has 3 fields, but the first record has 2 fields"
    );
}

#[test]
fn test_glob_matching_two_malformed_files() {
    let items = vec![PatternItem {
        pattern: "*.csv".to_string(),
        outcome: PatternOutcome::Entries {
            entries: vec![
                EntryOutcome::Loaded {
                    path: "one.csv".to_string(),
                    content: b"h1,h2\nv1,v2,v3\n".to_vec(),
                },
                EntryOutcome::Loaded {
                    path: "two.csv".to_string(),
                    content: b"h1\nv1,v2\n".to_vec(),
                },
            ],
        },
    }];
    let errors = process_csv_files(items).unwrap_err();
    assert_eq!(errors.len(), 2);
    assert_eq!(
        errors[0],
        "Failed to load one.csv: record 1 has 3 fields, but the first record has 2 fields"
    );
    assert_eq!(
        errors[1],
        "Failed to load two.csv: record 1 has 2 fields, but the first record has 1 fields"
    );
}

#[test]
fn test_empty_batch_is_success() {
    assert!(process_csv_files(Vec::new()).is_ok());
}

#[test]
fn test_empty_expansion_is_success() {
    let items = vec![PatternItem {
        pattern: "nothing-here-*.csv".to_string(),
        outcome: PatternOutcome::Entries { entries: Vec::new() },
    }];
    assert!(process_csv_files(items).is_ok());
}

#[test]
fn test_bad_pattern_message() {
    let items = vec![PatternItem {
        pattern: "[".to_string(),
        outcome: PatternOutcome::BadPattern {
            reason: "invalid range pattern".to_string(),
        },
    }];
    let errors = process_csv_files(items).unwrap_err();
    assert_eq!(errors.len(), 1);
    assert_eq!(errors[0], "Invalid file pattern [: invalid range pattern");
}

#[test]
fn test_enumeration_error_message() {
    let items = vec![PatternItem {
        pattern: "locked/*.csv".to_string(),
        outcome: PatternOutcome::Entries {
            entries: vec![EntryOutcome::EnumFailed {
                reason: "permission denied".to_string(),
            }],
        },
    }];
    let errors = process_csv_files(items).unwrap_err();
    assert_eq!(errors.len(), 1);
    assert_eq!(
        errors[0],
        "Error reading file locked/*.csv: permission denied"
    );
}

#[test]
fn test_read_error_message() {
    let items = vec![PatternItem {
        pattern: "a.csv".to_string(),
        outcome: PatternOutcome::Entries {
            entries: vec![EntryOutcome::ReadFailed {
                path: "a.csv".to_string(),
                reason: "No such file or directory".to_string(),
            }],
        },
    }];
    let errors = process_csv_files(items).unwrap_err();
    assert_eq!(errors.len(), 1);
    assert_eq!(
        errors[0],
        "Failed to load a.csv: No such file or directory"
    );
}

#[test]
fn test_failure_kinds_keep_encounter_order() {
    let items = vec![
        PatternItem {
            pattern: "[".to_string(),
            outcome: PatternOutcome::BadPattern {
                reason: "invalid range pattern".to_string(),
            },
        },
        PatternItem {
            pattern: "*.csv".to_string(),
            outcome: PatternOutcome::Entries {
                entries: vec![
                    EntryOutcome::EnumFailed {
                        reason: "permission denied".to_string(),
                    },
                    EntryOutcome::Loaded {
                        path: "good.csv".to_string(),
                        content: b"h1,h2\nv1,v2\n".to_vec(),
                    },
                    EntryOutcome::Loaded {
                        path: "bad.csv".to_string(),
                        content: b"h1,h2\nv1\n".to_vec(),
                    },
                ],
            },
        },
    ];
    let errors = process_csv_files(items).unwrap_err();
    assert_eq!(errors.len(), 3);
    assert_eq!(errors[0], "Invalid file pattern [: invalid range pattern");
    assert_eq!(errors[1], "Error reading file *.csv: permission denied");
    assert_eq!(
        errors[2],
        "Failed to load bad.csv: record 1 has 1 fields, but the first record has 2 fields"
    );
}

#[test]
fn test_batch_is_idempotent() {
    let build = || {
        vec![loaded("a.csv", "a.csv", b"h1,h2\nv1,v2,v3\n")]
    };
    let first = process_csv_files(build());
    let second = process_csv_files(build());
    assert_eq!(first.unwrap_err(), second.unwrap_err());
}

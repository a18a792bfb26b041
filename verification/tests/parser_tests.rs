use yawns::jobs::{
    file_name_of, join_key, parse_copy_line, parse_key_val, parse_metadata, parse_upload_line,
    plan_copy_jobs, plan_upload_jobs, ParsedLine, TransferJob,
};

fn no_metadata() -> Vec<(String, String)> {
    Vec::new()
}

#[test]
fn copy_line_two_fields_rejected() {
    let r = parse_copy_line("file.txt,prefix", "bkt", &no_metadata());
    match r {
        ParsedLine::Invalid(msg) => assert_eq!(msg, "file.txt,prefix"),
        _ => panic!("a 2-field copy line must be rejected"),
    }
}

#[test]
fn copy_line_three_fields_accepted() {
    let r = parse_copy_line("file.txt,in,out", "bkt", &no_metadata());
    match r {
        ParsedLine::Job(TransferJob::Copy { source_key, destination_key, metadata }, bad) => {
            assert_eq!(source_key, "bkt/in/file.txt");
            assert_eq!(destination_key, "out/file.txt");
            assert!(metadata.is_empty());
            assert!(bad.is_empty());
        }
        _ => panic!("a 3-field copy line must be accepted"),
    }
}

#[test]
fn copy_line_four_fields_accepted_with_metadata() {
    let r = parse_copy_line("f,in,out,k=v x=y", "bkt", &no_metadata());
    match r {
        ParsedLine::Job(TransferJob::Copy { metadata, .. }, _) => {
            assert_eq!(
                metadata,
                vec![
                    ("k".to_string(), "v".to_string()),
                    ("x".to_string(), "y".to_string())
                ]
            );
        }
        _ => panic!("a 4-field copy line must be accepted"),
    }
}

#[test]
fn copy_line_extra_fields_ignored() {
    // with five fields the fourth is not treated as metadata
    let r = parse_copy_line("f,in,out,k=v,extra", "bkt", &no_metadata());
    match r {
        ParsedLine::Job(TransferJob::Copy { metadata, .. }, _) => {
            assert!(metadata.is_empty());
        }
        _ => panic!("a 5-field copy line must still be accepted"),
    }
}

#[test]
fn copy_line_blank_dropped() {
    assert!(matches!(parse_copy_line("", "bkt", &no_metadata()), ParsedLine::Blank));
    assert!(matches!(parse_copy_line("  \t ", "bkt", &no_metadata()), ParsedLine::Blank));
}

#[test]
fn copy_line_base_metadata_comes_first() {
    let base = vec![("cli".to_string(), "1".to_string())];
    let r = parse_copy_line("f,in,out,k=v", "bkt", &base);
    match r {
        ParsedLine::Job(TransferJob::Copy { metadata, .. }, _) => {
            assert_eq!(
                metadata,
                vec![
                    ("cli".to_string(), "1".to_string()),
                    ("k".to_string(), "v".to_string())
                ]
            );
        }
        _ => panic!("expected a job"),
    }
}

#[test]
fn copy_prefix_join_rules() {
    // a prefix already ending in '/' gets no second separator; an empty
    // destination prefix contributes nothing
    let r = parse_copy_line("file.txt,in/,", "bkt", &no_metadata());
    match r {
        ParsedLine::Job(TransferJob::Copy { source_key, destination_key, .. }, _) => {
            assert_eq!(source_key, "bkt/in/file.txt");
            assert_eq!(destination_key, "file.txt");
        }
        _ => panic!("expected a job"),
    }
}

#[test]
fn upload_line_without_file_name_rejected() {
    match parse_upload_line("///,pre", "") {
        ParsedLine::Invalid(msg) => assert_eq!(msg, "///,pre"),
        _ => panic!("a path of slashes has no file name"),
    }
    assert!(matches!(parse_upload_line("..", ""), ParsedLine::Invalid(_)));
    assert!(matches!(parse_upload_line(".", ""), ParsedLine::Invalid(_)));
}

#[test]
fn upload_line_minimal() {
    match parse_upload_line("dir/file.bin", "") {
        ParsedLine::Job(TransferJob::Upload { local_path, destination_key, metadata }, bad) => {
            assert_eq!(local_path, "dir/file.bin");
            assert_eq!(destination_key, "file.bin");
            assert!(metadata.is_empty());
            assert!(bad.is_empty());
        }
        _ => panic!("a 1-field upload line must be accepted"),
    }
}

#[test]
fn upload_line_uses_line_prefix_over_default() {
    match parse_upload_line("dir/file.bin,special", "default") {
        ParsedLine::Job(TransferJob::Upload { destination_key, .. }, _) => {
            assert_eq!(destination_key, "special/file.bin");
        }
        _ => panic!("expected a job"),
    }
    match parse_upload_line("dir/file.bin", "default") {
        ParsedLine::Job(TransferJob::Upload { destination_key, .. }, _) => {
            assert_eq!(destination_key, "default/file.bin");
        }
        _ => panic!("expected a job"),
    }
}

#[test]
fn upload_line_trims_local_path() {
    match parse_upload_line("  dir/file.bin  ,pre", "") {
        ParsedLine::Job(TransferJob::Upload { local_path, .. }, _) => {
            assert_eq!(local_path, "dir/file.bin");
        }
        _ => panic!("expected a job"),
    }
}

#[test]
fn upload_line_metadata_third_field() {
    match parse_upload_line("f.bin,pre,a=1 b=2", "") {
        ParsedLine::Job(TransferJob::Upload { metadata, .. }, bad) => {
            assert_eq!(
                metadata,
                vec![
                    ("a".to_string(), "1".to_string()),
                    ("b".to_string(), "2".to_string())
                ]
            );
            assert!(bad.is_empty());
        }
        _ => panic!("expected a job"),
    }
}

#[test]
fn metadata_two_pairs() {
    let (pairs, bad) = parse_metadata("a=1 b=2");
    assert_eq!(
        pairs,
        vec![
            ("a".to_string(), "1".to_string()),
            ("b".to_string(), "2".to_string())
        ]
    );
    assert!(bad.is_empty());
}

#[test]
fn metadata_bad_token_skipped_with_warning() {
    let (pairs, bad) = parse_metadata("a=1 bad c=3");
    assert_eq!(
        pairs,
        vec![
            ("a".to_string(), "1".to_string()),
            ("c".to_string(), "3".to_string())
        ]
    );
    assert_eq!(bad, vec!["bad".to_string()]);
}

#[test]
fn metadata_value_may_hold_equals() {
    let (pairs, bad) = parse_metadata("k=a=b");
    assert_eq!(pairs, vec![("k".to_string(), "a=b".to_string())]);
    assert!(bad.is_empty());
}

#[test]
fn metadata_repeated_spaces_ignored() {
    let (pairs, bad) = parse_metadata("  a=1   b=2 ");
    assert_eq!(pairs.len(), 2);
    assert!(bad.is_empty());
}

#[test]
fn key_val_splits_at_first_equals() {
    assert_eq!(
        parse_key_val("key=val=ue"),
        Ok(("key".to_string(), "val=ue".to_string()))
    );
}

#[test]
fn key_val_without_equals_is_an_error() {
    let e = parse_key_val("noequals").unwrap_err();
    assert_eq!(e, "invalid KEY=value: no `=` found in `noequals`");
}

#[test]
fn file_names() {
    assert_eq!(file_name_of("dir/file.txt"), Some("file.txt".to_string()));
    assert_eq!(file_name_of("file"), Some("file".to_string()));
    assert_eq!(file_name_of("dir/sub/"), Some("sub".to_string()));
    assert_eq!(file_name_of("/"), None);
    assert_eq!(file_name_of(""), None);
    assert_eq!(file_name_of(".."), None);
    assert_eq!(file_name_of("a/.."), None);
}

#[test]
fn join_key_rules() {
    assert_eq!(join_key("", "f"), "f");
    assert_eq!(join_key("p", "f"), "p/f");
    assert_eq!(join_key("p/", "f"), "p/f");
}

#[test]
fn copy_plan_counts_rejects_and_keeps_order() {
    let lines = vec![
        "a.txt,in,out".to_string(),
        "short,line".to_string(),
        "".to_string(),
        "b.txt,in,out".to_string(),
    ];
    let plan = plan_copy_jobs(&lines, "bkt", &no_metadata());
    assert_eq!(plan.jobs.len(), 2);
    assert_eq!(plan.rejected, vec!["short,line".to_string()]);
    match &plan.jobs[0] {
        TransferJob::Copy { source_key, .. } => assert_eq!(source_key, "bkt/in/a.txt"),
        _ => panic!("expected a copy job"),
    }
    match &plan.jobs[1] {
        TransferJob::Copy { source_key, .. } => assert_eq!(source_key, "bkt/in/b.txt"),
        _ => panic!("expected a copy job"),
    }
}

#[test]
fn upload_plan_never_aborts_on_bad_path() {
    let lines = vec![
        "one.bin,p".to_string(),
        "//,p".to_string(),
        "two.bin,p".to_string(),
    ];
    let plan = plan_upload_jobs(&lines, "");
    assert_eq!(plan.jobs.len(), 2);
    assert_eq!(plan.rejected, vec!["//,p".to_string()]);
}

#[test]
fn upload_plan_collects_metadata_warnings() {
    let lines = vec!["f.bin,p,a=1 oops".to_string()];
    let plan = plan_upload_jobs(&lines, "");
    assert_eq!(plan.jobs.len(), 1);
    assert_eq!(plan.skipped_metadata, vec!["oops".to_string()]);
}

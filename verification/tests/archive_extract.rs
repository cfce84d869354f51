use std::io::{Cursor, Write};

use modcrafter::archive::{archive_len, extract_plan, open_archive, sanitize_entry_name};
use modcrafter::fsops::FsOp;
use zip::write::SimpleFileOptions;
use zip::ZipWriter;

fn sample_zip(entries: &[(&str, Option<&[u8]>)]) -> Vec<u8> {
    let mut writer = ZipWriter::new(Cursor::new(Vec::new()));
    for (name, data) in entries {
        match data {
            Some(bytes) => {
                writer
                    .start_file(*name, SimpleFileOptions::default())
                    .unwrap();
                writer.write_all(bytes).unwrap();
            }
            None => {
                writer
                    .add_directory(*name, SimpleFileOptions::default())
                    .unwrap();
            }
        }
    }
    writer.finish().unwrap().into_inner()
}

#[test]
fn nested_entry_lands_under_destination_with_same_bytes() {
    let bytes = sample_zip(&[("a/", None), ("a/b/c.txt", Some(b"payload bytes"))]);
    let mut archive = open_archive(bytes).unwrap();
    assert_eq!(archive_len(&archive), 2);
    let ops = extract_plan(&mut archive, "dest").unwrap();
    let mut saw_dir = false;
    let mut saw_file = false;
    for op in &ops {
        match op {
            FsOp::MkDirAll(p) => {
                assert_eq!(p, "dest/a");
                saw_dir = true;
            }
            FsOp::WriteFile(p, data, _) => {
                assert_eq!(p, "dest/a/b/c.txt");
                assert_eq!(data.as_slice(), b"payload bytes");
                saw_file = true;
            }
            _ => panic!("unexpected operation in extraction plan"),
        }
    }
    assert!(saw_dir && saw_file);
}

#[test]
fn directory_entry_makes_no_file() {
    let bytes = sample_zip(&[("only_dir/", None)]);
    let mut archive = open_archive(bytes).unwrap();
    let ops = extract_plan(&mut archive, "dest").unwrap();
    assert_eq!(ops.len(), 1);
    match &ops[0] {
        FsOp::MkDirAll(p) => assert_eq!(p, "dest/only_dir"),
        _ => panic!("a directory entry must only create a directory"),
    }
}

#[test]
fn escaping_entry_stays_inside_destination() {
    let bytes = sample_zip(&[("../escape.txt", Some(b"gotcha"))]);
    let mut archive = open_archive(bytes).unwrap();
    let ops = extract_plan(&mut archive, "dest").unwrap();
    assert_eq!(ops.len(), 1);
    match &ops[0] {
        FsOp::WriteFile(p, _, _) => {
            assert_eq!(p, "dest/escape.txt");
            assert!(!p.contains(".."));
            assert!(p.starts_with("dest/"));
        }
        _ => panic!("expected a neutralized file write"),
    }
}

#[test]
fn sanitize_drops_dangerous_components() {
    assert_eq!(sanitize_entry_name("a/b/c.txt"), vec!["a", "b", "c.txt"]);
    assert_eq!(sanitize_entry_name("../escape.txt"), vec!["escape.txt"]);
    assert_eq!(sanitize_entry_name("/abs/path"), vec!["abs", "path"]);
    assert_eq!(sanitize_entry_name("./x/../y/."), vec!["x", "y"]);
    assert_eq!(sanitize_entry_name("..").len(), 0);
    assert_eq!(sanitize_entry_name("").len(), 0);
}

#[test]
fn corrupt_bytes_are_rejected() {
    assert!(open_archive(b"this is no archive".to_vec()).is_err());
}

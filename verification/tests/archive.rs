use std::io::{Cursor, Write};

use cargo_soteria::archive::{
    extract_zip, plan_entry, write_entry, EntryPlan, EntryRead, ExtractError, ExtractStep,
};
use zip::write::SimpleFileOptions;
use zip::{CompressionMethod, ZipWriter};

/// An archive with these entries, in order: a directory where there is no text.
fn zipped(entries: &[(&str, Option<&str>)], method: CompressionMethod) -> Vec<u8> {
    let mut writer = ZipWriter::new(Cursor::new(Vec::new()));
    let options = SimpleFileOptions::default().compression_method(method);
    for (name, contents) in entries {
        match contents {
            Some(text) => {
                writer.start_file(*name, options).unwrap();
                writer.write_all(text.as_bytes()).unwrap();
            }
            None => writer.add_directory(*name, options).unwrap(),
        }
    }
    writer.finish().unwrap().into_inner()
}

fn shown(steps: &[ExtractStep]) -> Vec<String> {
    steps
        .iter()
        .map(|step| match step {
            ExtractStep::MakeDirs(path) => format!("mkdir {path}"),
            ExtractStep::WriteFile(path, contents) => {
                format!("write {path}: {}", String::from_utf8_lossy(contents))
            }
        })
        .collect()
}

#[test]
fn the_top_level_directory_is_stripped() {
    for method in [CompressionMethod::Stored, CompressionMethod::Deflated] {
        let data = zipped(
            &[
                ("soteria-rust/", None),
                ("soteria-rust/bin/", None),
                ("soteria-rust/bin/z3", Some("solver")),
                ("soteria-rust/VERSION", Some("1")),
                ("soteria-rust/lib/deep/empty", Some("")),
            ],
            method,
        );
        let extraction = extract_zip(data, "/dest");
        assert!(extraction.failure.is_none());
        assert_eq!(
            shown(&extraction.steps),
            [
                "mkdir /dest/bin",
                "mkdir /dest/bin",
                "write /dest/bin/z3: solver",
                "mkdir /dest",
                "write /dest/VERSION: 1",
                "mkdir /dest/lib/deep",
                "write /dest/lib/deep/empty: ",
            ]
        );
    }
}

#[test]
fn entries_without_a_directory_are_dropped() {
    let data = zipped(&[("top", Some("x")), ("a/b", Some("y"))], CompressionMethod::Stored);
    let extraction = extract_zip(data, "d");
    assert!(extraction.failure.is_none());
    assert_eq!(shown(&extraction.steps), ["mkdir d", "write d/b: y"]);
}

#[test]
fn nothing_is_written_outside_the_destination() {
    let data = zipped(
        &[("a/../../etc/x", Some("1")), ("/abs/y", Some("2")), ("a/./z", Some("3"))],
        CompressionMethod::Stored,
    );
    let extraction = extract_zip(data, "/dest");
    assert!(extraction.failure.is_none());
    for step in &extraction.steps {
        let path = match step {
            ExtractStep::MakeDirs(path) => path,
            ExtractStep::WriteFile(path, _) => path,
        };
        assert!(path == "/dest" || path.starts_with("/dest/"), "{path}");
        assert!(!path.contains(".."), "{path}");
    }
}

#[test]
fn bytes_that_are_no_archive_are_refused() {
    for data in [vec![], b"not a zip archive".to_vec()] {
        let extraction = extract_zip(data, "/dest");
        assert!(extraction.steps.is_empty());
        assert!(matches!(extraction.failure, Some(ExtractError::Open(_))));
    }
}

#[test]
fn a_damaged_entry_stops_the_extraction() {
    let text = "some text that is stored as it is";
    let mut data = zipped(
        &[("p/first", Some("fine")), ("p/second", Some(text)), ("p/third", Some("never"))],
        CompressionMethod::Stored,
    );
    let at = data.windows(text.len()).position(|w| w == text.as_bytes()).unwrap();
    data[at] ^= 1;
    let extraction = extract_zip(data, "/dest");
    assert!(matches!(extraction.failure, Some(ExtractError::Contents(_))));
    // The checksum is wrong, which comes out when all of the file has been read.
    assert_eq!(
        shown(&extraction.steps),
        [
            "mkdir /dest",
            "write /dest/first: fine",
            "mkdir /dest",
            "write /dest/second: rome text that is stored as it is",
        ]
    );
}

#[test]
fn what_was_read_is_written() {
    let read = |failure| EntryRead { bytes: b"part".to_vec(), failure };
    let (step, failure) = write_entry("t".to_string(), read(None));
    assert_eq!(shown(&[step]), ["write t: part"]);
    assert!(failure.is_none());
    let (step, failure) = write_entry("t".to_string(), read(Some(std::io::Error::other("broken"))));
    assert_eq!(shown(&[step]), ["write t: part"]);
    assert!(matches!(failure, Some(ExtractError::Contents(e)) if e.to_string() == "broken"));
}

#[test]
fn an_entry_that_cannot_be_opened_stops_the_extraction() {
    let mut data = zipped(&[("p/first", Some("fine")), ("p/second", Some("x"))], CompressionMethod::Stored);
    // Spoil the signature of the second local header.
    let at = data.windows(4).enumerate().filter(|(_, w)| *w == b"PK\x03\x04").map(|(i, _)| i).nth(1).unwrap();
    data[at + 3] = b'!';
    let extraction = extract_zip(data, "/dest");
    assert!(matches!(extraction.failure, Some(ExtractError::Entry(_))));
    assert_eq!(shown(&extraction.steps), ["mkdir /dest", "write /dest/first: fine"]);
}

#[test]
fn plans_follow_the_path() {
    assert!(matches!(plan_entry("d", "", false), EntryPlan::Nothing));
    assert!(matches!(plan_entry("d", "top", false), EntryPlan::Nothing));
    assert!(matches!(plan_entry("d", "top/a", true), EntryPlan::Directory(t) if t == "d/a"));
    assert!(matches!(
        plan_entry("d", "top/a/b", false),
        EntryPlan::File { parent, target } if parent == "d/a" && target == "d/a/b"
    ));
}

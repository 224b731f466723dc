use std::io::Write;
use jport::jar::load_jar;

fn utf8_entry(s: &str) -> Vec<u8> {
    let mut e = vec![1u8];
    e.extend((s.len() as u16).to_be_bytes());
    e.extend(s.as_bytes());
    e
}

fn class_entry(name_index: u16) -> Vec<u8> {
    let mut e = vec![7u8];
    e.extend(name_index.to_be_bytes());
    e
}

fn minimal_class(name: &str) -> Vec<u8> {
    let mut b: Vec<u8> = vec![0xCA, 0xFE, 0xBA, 0xBE, 0, 0, 0, 52];
    b.extend(3u16.to_be_bytes());
    b.extend(utf8_entry(name));
    b.extend(class_entry(1));
    b.extend(0u16.to_be_bytes());
    b.extend(2u16.to_be_bytes());
    b.extend(0u16.to_be_bytes());
    b.extend(0u16.to_be_bytes());
    b.extend(0u16.to_be_bytes());
    b.extend(0u16.to_be_bytes());
    b.extend(0u16.to_be_bytes());
    b
}

fn build_zip(entries: Vec<(&str, Vec<u8>)>) -> Vec<u8> {
    let cursor = std::io::Cursor::new(Vec::new());
    let mut writer = zip::ZipWriter::new(cursor);
    let options = zip::write::SimpleFileOptions::default();
    for (name, bytes) in entries {
        writer.start_file(name, options).unwrap();
        writer.write_all(&bytes).unwrap();
    }
    writer.finish().unwrap().into_inner()
}

#[test]
fn loads_class_entries_from_an_archive() {
    let data = build_zip(vec![
        ("a/First.class", minimal_class("a/First")),
        ("readme.txt", b"not a class".to_vec()),
        ("a/Second.class", minimal_class("a/Second")),
    ]);
    let classes = load_jar(data).unwrap();
    assert_eq!(classes.len(), 2);
    let first = &classes[0];
    let name = first.get_class_info(first.this_class()).unwrap();
    assert_eq!(first.get_utf8(name), Some("a/First"));
    let second = &classes[1];
    let name = second.get_class_info(second.this_class()).unwrap();
    assert_eq!(second.get_utf8(name), Some("a/Second"));
}

#[test]
fn expands_nested_archives() {
    let inner = build_zip(vec![("deep/Inner.class", minimal_class("deep/Inner"))]);
    let outer = build_zip(vec![
        ("outer/Outer.class", minimal_class("outer/Outer")),
        ("nested.jar", inner),
    ]);
    let classes = load_jar(outer).unwrap();
    assert_eq!(classes.len(), 2);
}

#[test]
fn broken_class_entry_aborts_the_load() {
    let data = build_zip(vec![
        ("Bad.class", vec![1, 2, 3]),
        ("ok/Good.class", minimal_class("ok/Good")),
    ]);
    assert!(load_jar(data).is_err());
}

#[test]
fn non_class_entries_are_skipped_silently() {
    let data = build_zip(vec![
        ("notes.txt", vec![1, 2, 3]),
        ("ok/Good.class", minimal_class("ok/Good")),
    ]);
    assert_eq!(load_jar(data).unwrap().len(), 1);
}

#[test]
fn rejects_bytes_that_are_no_archive() {
    assert!(load_jar(vec![0, 1, 2, 3]).is_err());
}

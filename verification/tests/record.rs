//! The scan record and its stored form.

use muzak::library::record::ScanRecord;

fn path(s: &str) -> String {
    s.to_string()
}

#[test]
fn a_new_record_knows_nothing() {
    let record = ScanRecord::new();
    assert!(record.paths().is_empty());
    assert_eq!(record.get(&path("/a.flac")), None);
    assert!(!record.is_unchanged(&path("/a.flac"), 0));
}

#[test]
fn unchanged_means_the_very_same_time() {
    let mut record = ScanRecord::new();
    record.insert(path("/a.flac"), 100);
    assert!(record.is_unchanged(&path("/a.flac"), 100));
    assert!(!record.is_unchanged(&path("/a.flac"), 99));
    assert!(!record.is_unchanged(&path("/a.flac"), 101));
    assert!(!record.is_unchanged(&path("/b.flac"), 100));
}

#[test]
fn a_later_time_replaces_the_earlier() {
    let mut record = ScanRecord::new();
    record.insert(path("/a.flac"), 100);
    record.insert(path("/a.flac"), 200);
    assert_eq!(record.get(&path("/a.flac")), Some(200));
    assert_eq!(record.paths(), vec![path("/a.flac")]);
}

#[test]
fn removing_tells_whether_there_was_an_entry() {
    let mut record = ScanRecord::new();
    record.insert(path("/a.flac"), 1);
    record.insert(path("/b.flac"), 2);
    assert!(record.remove(&path("/a.flac")));
    assert!(!record.remove(&path("/a.flac")));
    assert_eq!(record.get(&path("/a.flac")), None);
    assert_eq!(record.get(&path("/b.flac")), Some(2));
}

#[test]
fn paths_lists_each_entry_once() {
    let mut record = ScanRecord::new();
    for i in 0..50u64 {
        record.insert(format!("/m/{}.mp3", i), i);
        record.insert(format!("/m/{}.mp3", i), i + 1);
    }
    let mut paths = record.paths();
    paths.sort();
    let mut expected: Vec<String> = (0..50u64).map(|i| format!("/m/{}.mp3", i)).collect();
    expected.sort();
    assert_eq!(paths, expected);
}

#[test]
fn a_record_is_read_from_json() {
    let record = ScanRecord::from_json("{\"/music/a.flac\": 1700000000, \"/b.mp3\": 5}")
        .expect("a record");
    assert_eq!(record.get(&path("/music/a.flac")), Some(1_700_000_000));
    assert_eq!(record.get(&path("/b.mp3")), Some(5));
    assert_eq!(record.paths().len(), 2);
}

#[test]
fn what_is_no_record_is_refused() {
    assert!(ScanRecord::from_json("").is_none());
    assert!(ScanRecord::from_json("[1, 2]").is_none());
    assert!(ScanRecord::from_json("{\"/a.flac\": -1}").is_none());
    assert!(ScanRecord::from_json("{\"/a.flac\": \"soon\"}").is_none());
    assert!(ScanRecord::from_json("{\"/a.flac\": 1").is_none());
}

#[test]
fn loading_falls_back_to_the_empty_record() {
    assert!(ScanRecord::load(None).paths().is_empty());
    assert!(ScanRecord::load(Some("not json")).paths().is_empty());
    assert_eq!(ScanRecord::load(Some("{\"/a.flac\": 3}")).get(&path("/a.flac")), Some(3));
    assert!(ScanRecord::load(Some("{}")).paths().is_empty());
}

#[test]
fn a_written_record_reads_back_the_same() {
    let mut record = ScanRecord::new();
    record.insert(path("/music/a \"quoted\" name.flac"), 1_700_000_000);
    record.insert(path("/music/ü/b\\c.mp3"), u64::MAX);
    record.insert(path("/music/line\nbreak.mp3"), 0);

    let text = record.to_json().expect("the record encodes");
    let back = ScanRecord::from_json(&text).expect("the text is a record");

    assert_ne!(text, "");
    let mut written = record.paths();
    let mut read = back.paths();
    written.sort();
    read.sort();
    assert_eq!(written, read);
    for p in &written {
        assert_eq!(back.get(p), record.get(p));
    }
}

#[test]
fn the_empty_record_is_written_as_an_empty_object() {
    assert_eq!(ScanRecord::new().to_json(), Some("{}".to_string()));
}

#[test]
fn a_text_passes_only_if_it_reads_back_as_the_record() {
    let mut record = ScanRecord::new();
    record.insert(path("/a.flac"), 1);
    record.insert(path("/b.flac"), 2);

    let right = "{\"/b.flac\": 2, \"/a.flac\": 1}".to_string();
    assert_eq!(record.accept_text(Some(right.clone())), Some(right));

    assert_eq!(record.accept_text(None), None);
    assert_eq!(record.accept_text(Some("{\"/a.flac\": 1}".to_string())), None);
    assert_eq!(record.accept_text(Some("{\"/a.flac\": 1, \"/b.flac\": 3}".to_string())), None);
    assert_eq!(
        record.accept_text(Some("{\"/a.flac\": 1, \"/b.flac\": 2, \"/c.flac\": 3}".to_string())),
        None
    );
    assert_eq!(record.accept_text(Some("not json".to_string())), None);
    assert_eq!(record.accept_text(Some(String::new())), None);
}

#[test]
fn records_are_the_same_if_their_entries_are() {
    let mut one = ScanRecord::new();
    let mut other = ScanRecord::new();
    assert!(one.holds_same(&other));
    one.insert(path("/a.flac"), 1);
    assert!(!one.holds_same(&other));
    assert!(!other.holds_same(&one));
    other.insert(path("/a.flac"), 2);
    assert!(!one.holds_same(&other));
    other.insert(path("/a.flac"), 1);
    assert!(one.holds_same(&other));
    other.insert(path("/b.flac"), 1);
    assert!(!one.holds_same(&other));
    assert!(!other.holds_same(&one));
}

#[test]
fn a_large_record_is_written_whole() {
    let mut record = ScanRecord::new();
    for i in 0..500u64 {
        record.insert(format!("/music/{}/track {}.flac", i % 7, i), 1_700_000_000 + i);
    }
    let text = record.to_json().expect("the record encodes");
    let back = ScanRecord::from_json(&text).expect("the text is a record");
    assert!(back.holds_same(&record));
    assert_eq!(back.paths().len(), 500);
}

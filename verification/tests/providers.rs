//! Which provider takes which file.

use muzak::library::scan::{
    build_provider_table, extension_matches, file_is_scannable_with_provider, find_provider,
    republish, ScanEvent, ScanThread,
};
use muzak::settings::scan::ScanSettings;

fn exts(list: &[&str]) -> Vec<String> {
    list.iter().map(|e| e.to_string()).collect()
}

#[test]
fn the_extension_of_the_path_decides() {
    let flac = exts(&["flac", "mp3"]);
    assert!(file_is_scannable_with_provider("/music/a.flac", &flac));
    assert!(file_is_scannable_with_provider("song.mp3", &flac));
    assert!(file_is_scannable_with_provider("/music/archive.tar.mp3", &flac));
    assert!(!file_is_scannable_with_provider("/music/a.ogg", &flac));
    assert!(!file_is_scannable_with_provider("/music/flac", &flac));
    assert!(!file_is_scannable_with_provider("/music.flac/readme", &flac));
    assert!(!file_is_scannable_with_provider("/music/.flac", &flac));
    assert!(!file_is_scannable_with_provider("", &flac));
}

#[test]
fn extensions_are_compared_letter_for_letter() {
    let flac = exts(&["flac"]);
    assert!(!file_is_scannable_with_provider("/music/a.FLAC", &flac));
    assert!(!file_is_scannable_with_provider("/music/a.Flac", &flac));
    assert!(!file_is_scannable_with_provider("/music/a.flac ", &flac));
    assert!(!file_is_scannable_with_provider("/music/a.fla", &flac));
    assert!(!file_is_scannable_with_provider("/music/a.flacs", &flac));
}

#[test]
fn a_provider_without_extensions_takes_nothing() {
    assert!(!file_is_scannable_with_provider("/music/a.flac", &exts(&[])));
}

#[test]
fn a_missing_extension_matches_nothing() {
    assert!(!extension_matches(&None, &exts(&["flac", ""])));
    assert!(extension_matches(&Some("flac".to_string()), &exts(&["mp3", "flac"])));
    assert!(!extension_matches(&Some("wav".to_string()), &exts(&["mp3", "flac"])));
}

#[test]
fn the_first_provider_that_matches_is_used() {
    let table = vec![exts(&["mp3"]), exts(&["flac", "mp3"]), exts(&["flac"])];
    assert_eq!(find_provider(&table, &Some("mp3".to_string())), Some(0));
    assert_eq!(find_provider(&table, &Some("flac".to_string())), Some(1));
    assert_eq!(find_provider(&table, &Some("ogg".to_string())), None);
    assert_eq!(find_provider(&table, &None), None);
    assert_eq!(find_provider(&Vec::new(), &Some("mp3".to_string())), None);
}

#[test]
fn the_table_keeps_the_order_of_registration() {
    let declared = vec![exts(&["mp3"]), exts(&[]), exts(&["flac", "wav"])];
    assert_eq!(build_provider_table(&declared), declared);
}

#[test]
fn the_engine_names_the_provider_for_a_path() {
    let settings = ScanSettings { paths: Vec::new() };
    let (engine, _) =
        ScanThread::start(settings, &vec![exts(&["mp3"]), exts(&["flac", "mp3"])], None);
    assert_eq!(engine.read_metadata_for_path(&"/a/b.flac".to_string()), Some(1));
    assert_eq!(engine.read_metadata_for_path(&"/a/b.mp3".to_string()), Some(0));
    assert_eq!(engine.read_metadata_for_path(&"/a/b.txt".to_string()), None);
    assert_eq!(engine.read_metadata_for_path(&"/a/b".to_string()), None);
}

#[test]
fn a_file_is_taken_up_once_per_time() {
    let settings = ScanSettings { paths: Vec::new() };
    let (mut engine, _) = ScanThread::start(settings, &vec![exts(&["mp3"])], None);
    let path = "/a/b.mp3".to_string();

    assert!(engine.file_is_scannable(&path, Some(10)));
    assert!(!engine.file_is_scannable(&path, Some(10)));
    assert!(engine.file_is_scannable(&path, Some(11)));
    assert!(!engine.file_is_scannable(&path, Some(11)));
    assert_eq!(engine.scan_record().get(&path), Some(11));
}

#[test]
fn a_file_whose_time_cannot_be_read_is_not_taken_up() {
    let settings = ScanSettings { paths: Vec::new() };
    let (mut engine, _) = ScanThread::start(settings, &vec![exts(&["mp3"])], None);
    assert!(!engine.file_is_scannable(&"/a/b.mp3".to_string(), None));
    assert!(engine.scan_record().paths().is_empty());
}

#[test]
fn a_file_without_provider_is_not_recorded() {
    let settings = ScanSettings { paths: Vec::new() };
    let (mut engine, _) = ScanThread::start(settings, &vec![exts(&["mp3"])], None);
    assert!(!engine.file_is_scannable(&"/a/b.txt".to_string(), Some(10)));
    assert!(engine.scan_record().paths().is_empty());
}

#[test]
fn deleting_a_track_forgets_its_file() {
    let settings = ScanSettings { paths: Vec::new() };
    let (mut engine, _) =
        ScanThread::start(settings, &vec![exts(&["mp3"])], Some("{\"/a.mp3\": 1, \"/b.mp3\": 2}"));

    let request = engine.delete_track(&"/a.mp3".to_string());

    assert_eq!(
        request,
        Some(muzak::library::sync::StoreRequest::DeleteTrack { location: "/a.mp3".to_string() })
    );
    assert_eq!(engine.delete_track(&"/a.mp3".to_string()), None);
    assert_eq!(engine.scan_record().paths(), vec!["/b.mp3".to_string()]);
}

#[test]
fn the_last_event_is_the_one_that_shows() {
    let shown = ScanEvent::Cleaning;
    assert_eq!(republish(shown, &vec![]), ScanEvent::Cleaning);
    assert_eq!(
        republish(shown, &vec![ScanEvent::DiscoverProgress(20), ScanEvent::ScanCompleteIdle]),
        ScanEvent::ScanCompleteIdle
    );
}

#[test]
fn taking_up_needs_a_provider_a_time_and_a_change() {
    let settings = ScanSettings { paths: Vec::new() };
    let (mut engine, _) = ScanThread::start(settings, &Vec::new(), Some("{\"/a.mp3\": 7}"));
    let a = "/a.mp3".to_string();
    let b = "/b.mp3".to_string();

    assert!(!engine.take_up(&a, true, Some(7)));
    assert!(!engine.take_up(&a, false, Some(8)));
    assert!(!engine.take_up(&a, true, None));
    assert_eq!(engine.scan_record().get(&a), Some(7));
    assert!(engine.take_up(&a, true, Some(8)));
    assert_eq!(engine.scan_record().get(&a), Some(8));
    assert!(engine.take_up(&b, true, Some(0)));
    assert_eq!(engine.scan_record().get(&b), Some(0));
}

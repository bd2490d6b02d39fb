//! The requests that bring the store in step with one file.

use muzak::library::sync::{
    accept_thumbnail, delete_track_request, derive_thumbnail, is_bitmap_of_side, find_album, find_artist, insert_album, insert_artist,
    insert_track, insert_track_named, store_number, StoreReply, StoreRequest, SyncStage,
    UpdateMetadata, THUMBNAIL_SIDE,
};
use muzak::media::metadata::Metadata;
use std::io::Cursor;

fn text(s: &str) -> Option<String> {
    Some(s.to_string())
}

fn full() -> Metadata {
    Metadata {
        name: text("Y"),
        artist: text("X"),
        album_artist: text("Various"),
        artist_sort: text("Various, The"),
        album: text("Z"),
        sort_album: text("Z, The"),
        genre: text("Jazz"),
        date: Some(946_684_800),
        track_current: Some(3),
        disc_current: Some(1),
        label: text("Blue"),
        catalog: text("BL-1"),
        isrc: text("USXXX0000001"),
    }
}

fn png(width: u32, height: u32) -> Vec<u8> {
    let picture = image::RgbaImage::from_pixel(width, height, image::Rgba([200, 10, 10, 255]));
    let mut out = Cursor::new(Vec::new());
    picture.write_to(&mut out, image::ImageFormat::Png).expect("png encodes");
    out.into_inner()
}

/// Drives an update with the given replies and returns the requests it made.
fn drive(mut update: UpdateMetadata, replies: &[StoreReply]) -> (Vec<StoreRequest>, UpdateMetadata) {
    let mut asked = Vec::new();
    let mut replies = replies.iter();
    while let Some(request) = update.request() {
        asked.push(request);
        update.advance(*replies.next().expect("a reply for every request"));
    }
    assert!(replies.next().is_none(), "more replies than requests");
    (asked, update)
}

#[test]
fn the_album_artist_comes_before_the_track_artist() {
    assert_eq!(
        insert_artist(&full()),
        Some(StoreRequest::CreateArtist {
            name: "Various".to_string(),
            sort_name: "Various, The".to_string(),
        })
    );
}

#[test]
fn the_track_artist_stands_in_for_a_missing_album_artist() {
    let metadata = Metadata { album_artist: None, artist_sort: None, ..full() };
    assert_eq!(
        insert_artist(&metadata),
        Some(StoreRequest::CreateArtist { name: "X".to_string(), sort_name: "X".to_string() })
    );
    assert_eq!(find_artist(&metadata), Some(StoreRequest::GetArtistId { name: "X".to_string() }));
}

#[test]
fn no_artist_name_means_no_artist_request() {
    let metadata = Metadata { album_artist: None, artist: None, ..full() };
    assert_eq!(insert_artist(&metadata), None);
    assert_eq!(find_artist(&metadata), None);
}

#[test]
fn an_album_needs_a_title_that_is_not_empty() {
    assert_eq!(find_album(&full()), Some(StoreRequest::GetAlbumId { title: "Z".to_string() }));
    assert_eq!(find_album(&Metadata { album: None, ..full() }), None);
    assert_eq!(find_album(&Metadata { album: text(""), ..full() }), None);
    assert_eq!(insert_album(&Metadata { album: text(""), ..full() }, Some(1), &None, &None), None);
}

#[test]
fn an_album_is_created_with_all_it_is_known_by() {
    let request = insert_album(&full(), Some(7), &Some(vec![1, 2, 3]), &Some(vec![9]));
    assert_eq!(
        request,
        Some(StoreRequest::CreateAlbum {
            title: "Z".to_string(),
            sort_title: "Z, The".to_string(),
            artist_id: Some(7),
            image: Some(vec![1, 2, 3]),
            thumbnail: Some(vec![9]),
            release_date: Some(946_684_800),
            label: text("Blue"),
            catalog_number: text("BL-1"),
            isrc: text("USXXX0000001"),
        })
    );
}

#[test]
fn an_album_without_sort_title_is_sorted_by_its_title() {
    let request = insert_album(&Metadata { sort_album: None, ..full() }, None, &None, &None);
    match request {
        Some(StoreRequest::CreateAlbum { title, sort_title, artist_id, .. }) => {
            assert_eq!(title, "Z");
            assert_eq!(sort_title, "Z");
            assert_eq!(artist_id, None);
        }
        other => panic!("not an album: {:?}", other),
    }
}

#[test]
fn a_track_takes_its_title_from_the_tags() {
    let request = insert_track(&full(), Some(4), &"/music/a.flac".to_string(), 180);
    assert_eq!(
        request,
        Some(StoreRequest::CreateTrack {
            title: "Y".to_string(),
            title_sort: "Y".to_string(),
            album_id: Some(4),
            track_number: Some(3),
            disc_number: Some(1),
            duration: 180,
            location: "/music/a.flac".to_string(),
            genre: text("Jazz"),
        })
    );
}

#[test]
fn a_track_without_title_tag_is_named_after_its_file() {
    let request = insert_track(&Metadata::default(), None, &"/music/sub/b.flac".to_string(), 60);
    assert_eq!(
        request,
        Some(StoreRequest::CreateTrack {
            title: "b.flac".to_string(),
            title_sort: "b.flac".to_string(),
            album_id: None,
            track_number: None,
            disc_number: None,
            duration: 60,
            location: "/music/sub/b.flac".to_string(),
            genre: None,
        })
    );
}

#[test]
fn a_track_with_neither_title_nor_file_name_is_not_created() {
    assert_eq!(insert_track(&Metadata::default(), None, &"/".to_string(), 60), None);
    assert_eq!(
        insert_track_named(&Metadata::default(), None, &"/music/a.flac".to_string(), None, 60),
        None
    );
}

#[test]
fn numbers_are_stored_in_thirty_two_bits() {
    assert_eq!(store_number(None), None);
    assert_eq!(store_number(Some(12)), Some(12));
    assert_eq!(store_number(Some(2_147_483_647)), Some(i32::MAX));
    assert_eq!(store_number(Some(2_147_483_648)), Some(i32::MIN));
    assert_eq!(store_number(Some(4_294_967_296 + 5)), Some(5));
    let request = insert_track(&full(), None, &"/a.mp3".to_string(), 4_294_967_295);
    match request {
        Some(StoreRequest::CreateTrack { duration, .. }) => assert_eq!(duration, -1),
        other => panic!("not a track: {:?}", other),
    }
}

#[test]
fn deleting_names_the_location() {
    assert_eq!(
        delete_track_request(&"/music/a.flac".to_string()),
        StoreRequest::DeleteTrack { location: "/music/a.flac".to_string() }
    );
}

#[test]
fn a_new_artist_a_new_album_and_the_track() {
    let update = UpdateMetadata::begin((full(), 180, None), "/music/a.flac".to_string());
    assert_eq!(update.stage(), SyncStage::Artist);

    let (asked, update) = drive(
        update,
        &[StoreReply::Row(1), StoreReply::RowNotFound, StoreReply::Row(2), StoreReply::Row(3)],
    );

    assert_eq!(asked.len(), 4);
    assert!(matches!(asked[0], StoreRequest::CreateArtist { .. }));
    assert_eq!(asked[1], StoreRequest::GetAlbumId { title: "Z".to_string() });
    match &asked[2] {
        StoreRequest::CreateAlbum { artist_id, image, thumbnail, .. } => {
            assert_eq!(*artist_id, Some(1));
            assert_eq!(*image, None);
            assert_eq!(*thumbnail, None);
        }
        other => panic!("not an album: {:?}", other),
    }
    match &asked[3] {
        StoreRequest::CreateTrack { album_id, location, .. } => {
            assert_eq!(*album_id, Some(2));
            assert_eq!(location, "/music/a.flac");
        }
        other => panic!("not a track: {:?}", other),
    }
    assert_eq!(update.artist_id(), Some(1));
    assert_eq!(update.album_id(), Some(2));
    assert!(update.is_done());
}

#[test]
fn an_artist_that_exists_is_looked_up() {
    let update = UpdateMetadata::begin((full(), 180, None), "/music/a.flac".to_string());

    let (asked, update) = drive(
        update,
        &[StoreReply::RowNotFound, StoreReply::Row(11), StoreReply::Row(5), StoreReply::RowNotFound],
    );

    assert_eq!(asked[1], StoreRequest::GetArtistId { name: "Various".to_string() });
    assert_eq!(asked[2], StoreRequest::GetAlbumId { title: "Z".to_string() });
    assert!(matches!(asked[3], StoreRequest::CreateTrack { album_id: Some(5), .. }));
    assert_eq!(asked.len(), 4);
    assert_eq!(update.artist_id(), Some(11));
    assert_eq!(update.album_id(), Some(5));
}

#[test]
fn a_failing_store_leaves_the_track_without_links() {
    let update = UpdateMetadata::begin((full(), 180, None), "/music/a.flac".to_string());

    let (asked, update) =
        drive(update, &[StoreReply::Failed, StoreReply::Failed, StoreReply::Failed]);

    assert!(matches!(asked[0], StoreRequest::CreateArtist { .. }));
    assert!(matches!(asked[1], StoreRequest::GetAlbumId { .. }));
    assert!(matches!(asked[2], StoreRequest::CreateTrack { album_id: None, .. }));
    assert_eq!(update.artist_id(), None);
    assert_eq!(update.album_id(), None);
    assert!(update.is_done());
}

#[test]
fn an_album_that_cannot_be_created_leaves_the_track_without_album() {
    let update = UpdateMetadata::begin((full(), 180, None), "/music/a.flac".to_string());

    let (asked, _) = drive(
        update,
        &[StoreReply::Row(1), StoreReply::RowNotFound, StoreReply::Failed, StoreReply::Row(9)],
    );

    assert!(matches!(asked[2], StoreRequest::CreateAlbum { artist_id: Some(1), .. }));
    assert!(matches!(asked[3], StoreRequest::CreateTrack { album_id: None, .. }));
}

#[test]
fn an_untagged_file_gives_a_track_and_nothing_else() {
    let update =
        UpdateMetadata::begin((Metadata::default(), 60, None), "/music/sub/b.flac".to_string());
    assert_eq!(update.stage(), SyncStage::Track);

    let (asked, update) = drive(update, &[StoreReply::Row(1)]);

    assert_eq!(asked.len(), 1);
    assert!(matches!(asked[0], StoreRequest::CreateTrack { album_id: None, .. }));
    assert!(update.is_done());
}

#[test]
fn a_file_with_nothing_to_go_by_asks_nothing() {
    let update = UpdateMetadata::begin((Metadata::default(), 60, None), "/".to_string());
    assert!(update.is_done());
    assert_eq!(update.request(), None);
}

#[test]
fn replies_after_the_end_change_nothing() {
    let update = UpdateMetadata::begin((Metadata::default(), 60, None), "/a.mp3".to_string());
    let (_, mut update) = drive(update, &[StoreReply::Row(1)]);
    let before = update.clone();
    update.advance(StoreReply::Row(99));
    assert_eq!(update, before);
}

#[test]
fn a_thumbnail_is_a_bitmap_of_seventy_pixels_a_side() {
    assert_eq!(THUMBNAIL_SIDE, 70);
    let artwork = png(300, 200);

    let thumbnail = derive_thumbnail(&Some(artwork.clone())).expect("a thumbnail");

    assert_ne!(thumbnail, artwork);
    assert_eq!(&thumbnail[0..2], b"BM");
    let decoded = image::load_from_memory_with_format(&thumbnail, image::ImageFormat::Bmp)
        .expect("the thumbnail decodes")
        .into_rgba8();
    assert_eq!(decoded.dimensions(), (70, 70));
    assert_eq!(decoded.get_pixel(35, 35), &image::Rgba([200, 10, 10, 255]));
}

#[test]
fn no_artwork_no_thumbnail() {
    assert_eq!(derive_thumbnail(&None), None);
}

#[test]
fn artwork_that_is_no_picture_gives_no_thumbnail() {
    assert_eq!(derive_thumbnail(&Some(vec![1, 2, 3, 4, 5])), None);
    assert_eq!(derive_thumbnail(&Some(Vec::new())), None);
}

#[test]
fn a_new_album_is_created_with_artwork_and_thumbnail() {
    let artwork = png(80, 80);
    let update =
        UpdateMetadata::begin((full(), 180, Some(artwork.clone())), "/music/a.flac".to_string());

    let (asked, _) = drive(
        update,
        &[StoreReply::Row(1), StoreReply::RowNotFound, StoreReply::Row(2), StoreReply::Row(3)],
    );

    match &asked[2] {
        StoreRequest::CreateAlbum { image, thumbnail, .. } => {
            assert_eq!(image.as_ref(), Some(&artwork));
            let thumbnail = thumbnail.as_ref().expect("a thumbnail");
            assert_eq!(&thumbnail[0..2], b"BM");
        }
        other => panic!("not an album: {:?}", other),
    }
}

#[test]
fn artwork_that_cannot_be_read_does_not_keep_the_album_from_being_created() {
    let update =
        UpdateMetadata::begin((full(), 180, Some(vec![0, 1, 2])), "/music/a.flac".to_string());

    let (asked, update) = drive(
        update,
        &[StoreReply::Row(1), StoreReply::RowNotFound, StoreReply::Row(2), StoreReply::Row(3)],
    );

    match &asked[2] {
        StoreRequest::CreateAlbum { title, artist_id, image, thumbnail, .. } => {
            assert_eq!(title, "Z");
            assert_eq!(*artist_id, Some(1));
            assert_eq!(image, &None);
            assert_eq!(thumbnail, &None);
        }
        other => panic!("not an album: {:?}", other),
    }
    assert_eq!(update.album_id(), Some(2));
}

#[test]
fn an_album_that_exists_needs_no_thumbnail() {
    let mut update =
        UpdateMetadata::begin((full(), 180, Some(png(10, 10))), "/music/a.flac".to_string());
    update.advance(StoreReply::Row(1));
    update.advance(StoreReply::Row(2));
    assert_eq!(update.stage(), SyncStage::Track);
    assert_eq!(update.album_id(), Some(2));
}

#[test]
fn a_thumbnail_made_elsewhere_is_taken_as_it_is() {
    let mut update =
        UpdateMetadata::begin((full(), 180, Some(vec![7, 7])), "/music/a.flac".to_string());
    update.advance_with(StoreReply::Row(1), None);
    update.advance_with(StoreReply::RowNotFound, Some(vec![4, 2]));
    match update.request() {
        Some(StoreRequest::CreateAlbum { image, thumbnail, .. }) => {
            assert_eq!(image, Some(vec![7, 7]));
            assert_eq!(thumbnail, Some(vec![4, 2]));
        }
        other => panic!("not an album: {:?}", other),
    }
}

#[test]
fn a_thumbnail_without_artwork_is_dropped() {
    let mut update = UpdateMetadata::begin((full(), 180, None), "/music/a.flac".to_string());
    update.advance_with(StoreReply::Row(1), None);
    update.advance_with(StoreReply::RowNotFound, Some(vec![4, 2]));
    match update.request() {
        Some(StoreRequest::CreateAlbum { thumbnail, .. }) => assert_eq!(thumbnail, None),
        other => panic!("not an album: {:?}", other),
    }
}

/// The first twenty-six bytes of a bitmap file whose header names these
/// dimensions, followed by nothing.
fn bitmap_header(width: u32, height: u32) -> Vec<u8> {
    let mut bytes = vec![b'B', b'M'];
    bytes.extend_from_slice(&[0; 12]);
    bytes.extend_from_slice(&108u32.to_le_bytes());
    bytes.extend_from_slice(&width.to_le_bytes());
    bytes.extend_from_slice(&height.to_le_bytes());
    bytes
}

#[test]
fn a_bitmap_is_known_by_its_header() {
    assert!(is_bitmap_of_side(&bitmap_header(70, 70), 70));
    assert!(is_bitmap_of_side(&bitmap_header(300, 300), 300));
    assert!(is_bitmap_of_side(&bitmap_header(70_000, 70_000), 70_000));
    assert!(!is_bitmap_of_side(&bitmap_header(70, 71), 70));
    assert!(!is_bitmap_of_side(&bitmap_header(71, 70), 70));
    assert!(!is_bitmap_of_side(&bitmap_header(70, 70), 7));
    assert!(!is_bitmap_of_side(&bitmap_header(70 + 256, 70), 70));
    assert!(!is_bitmap_of_side(&Vec::new(), 0));

    let mut short = bitmap_header(70, 70);
    short.pop();
    assert!(!is_bitmap_of_side(&short, 70));

    let mut other = bitmap_header(70, 70);
    other[0] = b'P';
    assert!(!is_bitmap_of_side(&other, 70));
    let mut other = bitmap_header(70, 70);
    other[1] = b'N';
    assert!(!is_bitmap_of_side(&other, 70));
}

#[test]
fn a_rendered_thumbnail_passes_only_as_a_square_bitmap_of_its_side() {
    let good = bitmap_header(70, 70);
    assert_eq!(accept_thumbnail(Some(good.clone()), 70), Some(good));
    assert_eq!(accept_thumbnail(Some(bitmap_header(70, 35)), 70), None);
    assert_eq!(accept_thumbnail(Some(png(70, 70)), 70), None);
    assert_eq!(accept_thumbnail(Some(Vec::new()), 70), None);
    assert_eq!(accept_thumbnail(None, 70), None);
}

#[test]
fn what_the_renderer_makes_passes() {
    for (width, height) in [(1u32, 1u32), (70, 70), (640, 480), (33, 900)] {
        let thumbnail = derive_thumbnail(&Some(png(width, height))).expect("a thumbnail");
        assert!(is_bitmap_of_side(&thumbnail, THUMBNAIL_SIDE));
        assert_eq!(thumbnail.len(), 14 + 108 + 4 * 70 * 70);
    }
}

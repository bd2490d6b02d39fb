//! Bringing the track store in step with one extracted file.
//!
//! The store is outside the library. What the library decides is which
//! request goes to it next and what a reply means: an artist is created or
//! else looked up, an album looked up or else created, then the track is
//! created. No failure of the store stops the sequence; it only leaves the
//! track without the link that the failed request would have made.

use crate::library::path::{file_name_of, path_file_name};
use crate::media::metadata::{copy_bytes, copy_text, Metadata, MetadataView};
use vstd::prelude::*;

verus! {

/// What was extracted from one file: its tags, its duration in seconds and
/// the bytes of its embedded artwork, if it has any.
pub type FileInformation = (Metadata, u64, Option<Vec<u8>>);

/// Side of the square album thumbnail, in pixels.
pub const THUMBNAIL_SIDE: u32 = 70;

/// A request to the track store.
#[derive(Debug, Clone, PartialEq, Eq)]
pub enum StoreRequest {
    /// Create the artist and answer its id; answer no row if an artist of
    /// that name exists already.
    CreateArtist { name: String, sort_name: String },
    /// Answer the id of the artist of that name.
    GetArtistId { name: String },
    /// Answer the id of the album of that title.
    GetAlbumId { title: String },
    /// Create the album and answer its id.
    CreateAlbum {
        title: String,
        sort_title: String,
        artist_id: Option<i64>,
        image: Option<Vec<u8>>,
        thumbnail: Option<Vec<u8>>,
        release_date: Option<i64>,
        label: Option<String>,
        catalog_number: Option<String>,
        isrc: Option<String>,
    },
    /// Create the track; a track that exists already at that location is
    /// left as it is.
    CreateTrack {
        title: String,
        title_sort: String,
        album_id: Option<i64>,
        track_number: Option<i32>,
        disc_number: Option<i32>,
        duration: i32,
        location: String,
        genre: Option<String>,
    },
    /// Delete the track at that location.
    DeleteTrack { location: String },
}

/// Mathematical value of a [`StoreRequest`].
pub enum StoreRequestView {
    CreateArtist { name: Seq<char>, sort_name: Seq<char> },
    GetArtistId { name: Seq<char> },
    GetAlbumId { title: Seq<char> },
    CreateAlbum {
        title: Seq<char>,
        sort_title: Seq<char>,
        artist_id: Option<i64>,
        image: Option<Seq<u8>>,
        thumbnail: Option<Seq<u8>>,
        release_date: Option<i64>,
        label: Option<Seq<char>>,
        catalog_number: Option<Seq<char>>,
        isrc: Option<Seq<char>>,
    },
    CreateTrack {
        title: Seq<char>,
        title_sort: Seq<char>,
        album_id: Option<i64>,
        track_number: Option<i32>,
        disc_number: Option<i32>,
        duration: i32,
        location: Seq<char>,
        genre: Option<Seq<char>>,
    },
    DeleteTrack { location: Seq<char> },
}

impl View for StoreRequest {
    type V = StoreRequestView;

    open spec fn view(&self) -> StoreRequestView {
        match self {
            StoreRequest::CreateArtist { name, sort_name } => StoreRequestView::CreateArtist {
                name: name@,
                sort_name: sort_name@,
            },
            StoreRequest::GetArtistId { name } => StoreRequestView::GetArtistId { name: name@ },
            StoreRequest::GetAlbumId { title } => StoreRequestView::GetAlbumId { title: title@ },
            StoreRequest::CreateAlbum {
                title,
                sort_title,
                artist_id,
                image,
                thumbnail,
                release_date,
                label,
                catalog_number,
                isrc,
            } => StoreRequestView::CreateAlbum {
                title: title@,
                sort_title: sort_title@,
                artist_id: *artist_id,
                image: image.deep_view(),
                thumbnail: thumbnail.deep_view(),
                release_date: *release_date,
                label: label.deep_view(),
                catalog_number: catalog_number.deep_view(),
                isrc: isrc.deep_view(),
            },
            StoreRequest::CreateTrack {
                title,
                title_sort,
                album_id,
                track_number,
                disc_number,
                duration,
                location,
                genre,
            } => StoreRequestView::CreateTrack {
                title: title@,
                title_sort: title_sort@,
                album_id: *album_id,
                track_number: *track_number,
                disc_number: *disc_number,
                duration: *duration,
                location: location@,
                genre: genre.deep_view(),
            },
            StoreRequest::DeleteTrack { location } => StoreRequestView::DeleteTrack {
                location: location@,
            },
        }
    }
}

impl DeepView for StoreRequest {
    type V = StoreRequestView;

    open spec fn deep_view(&self) -> StoreRequestView {
        self@
    }
}

/// What the store answered.
#[derive(Debug, PartialEq, Eq, Structural, Clone, Copy)]
pub enum StoreReply {
    /// The row asked for, by its id.
    Row(i64),
    /// The request went through and gave no row: nothing was found, or what
    /// was to be created exists already.
    RowNotFound,
    /// The store failed.
    Failed,
}

/// The name under which a file's artist is kept: the album artist, or else
/// the track artist.
pub open spec fn artist_name(m: MetadataView) -> Option<Seq<char>> {
    if m.album_artist is Some {
        m.album_artist
    } else {
        m.artist
    }
}

/// The request that creates a file's artist, where the tags name one.
pub open spec fn artist_creation(m: MetadataView) -> Option<StoreRequestView> {
    match artist_name(m) {
        Some(name) => Some(
            StoreRequestView::CreateArtist {
                name,
                sort_name: if m.artist_sort is Some {
                    m.artist_sort->0
                } else {
                    name
                },
            },
        ),
        None => None,
    }
}

/// The request that looks a file's artist up, where the tags name one.
pub open spec fn artist_lookup(m: MetadataView) -> Option<StoreRequestView> {
    match artist_name(m) {
        Some(name) => Some(StoreRequestView::GetArtistId { name }),
        None => None,
    }
}

/// The title of a file's album: the album tag, unless it is missing or empty.
pub open spec fn album_title(m: MetadataView) -> Option<Seq<char>> {
    if m.album is Some && m.album->0.len() > 0 {
        m.album
    } else {
        None
    }
}

/// The request that looks a file's album up, where the tags give a title.
pub open spec fn album_lookup(m: MetadataView) -> Option<StoreRequestView> {
    match album_title(m) {
        Some(title) => Some(StoreRequestView::GetAlbumId { title }),
        None => None,
    }
}

/// The request that creates a file's album, where the tags give a title.
pub open spec fn album_creation(
    m: MetadataView,
    artist_id: Option<i64>,
    image: Option<Seq<u8>>,
    thumbnail: Option<Seq<u8>>,
) -> Option<StoreRequestView> {
    match album_title(m) {
        Some(title) => Some(
            StoreRequestView::CreateAlbum {
                title,
                sort_title: if m.sort_album is Some {
                    m.sort_album->0
                } else {
                    title
                },
                artist_id,
                image,
                thumbnail,
                release_date: m.date,
                label: m.label,
                catalog_number: m.catalog,
                isrc: m.isrc,
            },
        ),
        None => None,
    }
}

/// The title of a file's track: the title tag, or else the file's name.
pub open spec fn track_title(m: MetadataView, file_name: Option<Seq<char>>) -> Option<Seq<char>> {
    if m.name is Some {
        m.name
    } else {
        file_name
    }
}

/// A number as the store keeps it: its low 32 bits, read as signed.
pub open spec fn stored_number(n: Option<u64>) -> Option<i32> {
    match n {
        Some(v) => Some(v as i32),
        None => None,
    }
}

/// The request that creates a file's track, given the name that the file has
/// on disk. There is none where neither the tags nor the path give a title.
pub open spec fn track_creation_named(
    m: MetadataView,
    album_id: Option<i64>,
    location: Seq<char>,
    file_name: Option<Seq<char>>,
    duration: u64,
) -> Option<StoreRequestView> {
    match track_title(m, file_name) {
        Some(title) => Some(
            StoreRequestView::CreateTrack {
                title,
                title_sort: title,
                album_id,
                track_number: stored_number(m.track_current),
                disc_number: stored_number(m.disc_current),
                duration: duration as i32,
                location,
                genre: m.genre,
            },
        ),
        None => None,
    }
}

/// The request that creates the track of the file at `location`.
pub open spec fn track_creation(
    m: MetadataView,
    album_id: Option<i64>,
    location: Seq<char>,
    duration: u64,
) -> Option<StoreRequestView> {
    track_creation_named(m, album_id, location, path_file_name(location), duration)
}

/// The request that creates the artist of a file: the album artist, or else
/// the track artist, sorted under the sort name where the tags give one.
/// `None` where the tags name no artist; the track then has none.
pub fn insert_artist(metadata: &Metadata) -> (request: Option<StoreRequest>)
    ensures
        request.deep_view() == artist_creation(metadata@),
{
    let name = match &metadata.album_artist {
        Some(n) => Some(n.clone()),
        None => copy_text(&metadata.artist),
    };
    match name {
        Some(name) => {
            let sort_name = match &metadata.artist_sort {
                Some(s) => s.clone(),
                None => name.clone(),
            };
            Some(StoreRequest::CreateArtist { name, sort_name })
        },
        None => None,
    }
}

/// The request that looks up the artist of a file by name, for when creating
/// it met an artist of that name.
pub fn find_artist(metadata: &Metadata) -> (request: Option<StoreRequest>)
    ensures
        request.deep_view() == artist_lookup(metadata@),
{
    let name = match &metadata.album_artist {
        Some(n) => Some(n.clone()),
        None => copy_text(&metadata.artist),
    };
    match name {
        Some(name) => Some(StoreRequest::GetArtistId { name }),
        None => None,
    }
}

/// The request that looks up the album of a file by title. `None` where the
/// tags give no title, or an empty one; the track then has no album.
pub fn find_album(metadata: &Metadata) -> (request: Option<StoreRequest>)
    ensures
        request.deep_view() == album_lookup(metadata@),
{
    match &metadata.album {
        Some(title) => {
            if title.as_str().unicode_len() > 0 {
                Some(StoreRequest::GetAlbumId { title: title.clone() })
            } else {
                None
            }
        },
        None => None,
    }
}

/// The request that creates the album of a file, linked to `artist_id`, with
/// the artwork and the thumbnail made of it, the release date, the label, the
/// catalogue number and the ISRC. `None` where the tags give no title.
pub fn insert_album(
    metadata: &Metadata,
    artist_id: Option<i64>,
    image: &Option<Vec<u8>>,
    thumbnail: &Option<Vec<u8>>,
) -> (request: Option<StoreRequest>)
    ensures
        request.deep_view() == album_creation(
            metadata@,
            artist_id,
            image.deep_view(),
            thumbnail.deep_view(),
        ),
{
    match &metadata.album {
        Some(title) => {
            if title.as_str().unicode_len() > 0 {
                let sort_title = match &metadata.sort_album {
                    Some(s) => s.clone(),
                    None => title.clone(),
                };
                Some(
                    StoreRequest::CreateAlbum {
                        title: title.clone(),
                        sort_title,
                        artist_id,
                        image: copy_bytes(image),
                        thumbnail: copy_bytes(thumbnail),
                        release_date: metadata.date,
                        label: copy_text(&metadata.label),
                        catalog_number: copy_text(&metadata.catalog),
                        isrc: copy_text(&metadata.isrc),
                    },
                )
            } else {
                None
            }
        },
        None => None,
    }
}

/// A track or disc number as the store keeps it.
pub fn store_number(n: Option<u64>) -> (stored: Option<i32>)
    ensures
        stored == stored_number(n),
{
    match n {
        Some(v) => Some(#[verifier::truncate] (v as i32)),
        None => None,
    }
}

/// The request that creates the track of a file whose name on disk is
/// `file_name`, linked to `album_id`: the title is the title tag, or else the
/// file's name. `None` where there is neither.
pub fn insert_track_named(
    metadata: &Metadata,
    album_id: Option<i64>,
    location: &String,
    file_name: Option<String>,
    length: u64,
) -> (request: Option<StoreRequest>)
    ensures
        request.deep_view() == track_creation_named(
            metadata@,
            album_id,
            location@,
            file_name.deep_view(),
            length,
        ),
{
    let title = match &metadata.name {
        Some(n) => Some(n.clone()),
        None => file_name,
    };
    match title {
        Some(title) => Some(
            StoreRequest::CreateTrack {
                title_sort: title.clone(),
                title,
                album_id,
                track_number: store_number(metadata.track_current),
                disc_number: store_number(metadata.disc_current),
                duration: #[verifier::truncate] (length as i32),
                location: location.clone(),
                genre: copy_text(&metadata.genre),
            },
        ),
        None => None,
    }
}

/// The request that creates the track of the file at `location`.
pub fn insert_track(
    metadata: &Metadata,
    album_id: Option<i64>,
    location: &String,
    length: u64,
) -> (request: Option<StoreRequest>)
    ensures
        request.deep_view() == track_creation(metadata@, album_id, location@, length),
{
    let file_name = file_name_of(location.as_str());
    insert_track_named(metadata, album_id, location, file_name, length)
}

/// The request that deletes the track at `location`.
pub fn delete_track_request(location: &String) -> (request: StoreRequest)
    ensures
        request@ == (StoreRequestView::DeleteTrack { location: location@ }),
{
    StoreRequest::DeleteTrack { location: location.clone() }
}

/// The request that an update waits on.
#[derive(Debug, PartialEq, Eq, Structural, Clone, Copy)]
pub enum SyncStage {
    /// The artist is being created.
    Artist,
    /// The artist existed already and is being looked up.
    ArtistLookup,
    /// The album is being looked up.
    Album,
    /// There was no such album and it is being created.
    AlbumCreation,
    /// The track is being created.
    Track,
    /// Nothing is left to ask.
    Done,
}

/// The synchronisation of one extracted file with the store: what was
/// extracted, where the file is, and how far the sequence of requests has
/// come.
#[derive(Debug, Clone, PartialEq, Eq)]
pub struct UpdateMetadata {
    metadata: Metadata,
    length: u64,
    image: Option<Vec<u8>>,
    location: String,
    file_name: Option<String>,
    stage: SyncStage,
    artist_id: Option<i64>,
    album_id: Option<i64>,
    thumbnail: Option<Vec<u8>>,
}

/// Mathematical value of an [`UpdateMetadata`].
pub struct UpdateView {
    pub metadata: MetadataView,
    pub length: u64,
    pub image: Option<Seq<u8>>,
    pub location: Seq<char>,
    pub file_name: Option<Seq<char>>,
    pub stage: SyncStage,
    pub artist_id: Option<i64>,
    pub album_id: Option<i64>,
    pub thumbnail: Option<Seq<u8>>,
}

impl View for UpdateMetadata {
    type V = UpdateView;

    closed spec fn view(&self) -> UpdateView {
        UpdateView {
            metadata: self.metadata@,
            length: self.length,
            image: self.image.deep_view(),
            location: self.location@,
            file_name: self.file_name.deep_view(),
            stage: self.stage,
            artist_id: self.artist_id,
            album_id: self.album_id,
            thumbnail: self.thumbnail.deep_view(),
        }
    }
}

impl DeepView for UpdateMetadata {
    type V = UpdateView;

    open spec fn deep_view(&self) -> UpdateView {
        self@
    }
}

/// Where the sequence stands once artist and album are settled: at the
/// track, or at its end where the file has no title to go by.
pub open spec fn stage_at_track(m: MetadataView, file_name: Option<Seq<char>>) -> SyncStage {
    if track_title(m, file_name) is Some {
        SyncStage::Track
    } else {
        SyncStage::Done
    }
}

/// Where the sequence stands once the artist is settled: at the album, where
/// the tags give one, or else further on.
pub open spec fn stage_at_album(m: MetadataView, file_name: Option<Seq<char>>) -> SyncStage {
    if album_title(m) is Some {
        SyncStage::Album
    } else {
        stage_at_track(m, file_name)
    }
}

/// Where the sequence begins: at the artist, where the tags name one, or else
/// further on.
pub open spec fn stage_at_start(m: MetadataView, file_name: Option<Seq<char>>) -> SyncStage {
    if artist_name(m) is Some {
        SyncStage::Artist
    } else {
        stage_at_album(m, file_name)
    }
}

/// The update of the file at `location` from which `info` was extracted,
/// before any request.
pub open spec fn begun(info: (MetadataView, u64, Option<Seq<u8>>), location: Seq<char>) -> UpdateView {
    UpdateView {
        metadata: info.0,
        length: info.1,
        image: info.2,
        location,
        file_name: path_file_name(location),
        stage: stage_at_start(info.0, path_file_name(location)),
        artist_id: None,
        album_id: None,
        thumbnail: None,
    }
}

/// The artwork that an album is created with: the embedded artwork where a
/// thumbnail could be made of it, and none otherwise. Artwork that cannot be
/// read is dropped; the album is created all the same.
pub open spec fn kept_artwork(image: Option<Seq<u8>>, thumbnail: Option<Seq<u8>>) -> Option<Seq<u8>> {
    if thumbnail is Some {
        image
    } else {
        None
    }
}

/// The request that the update waits on; `None` once it is done.
pub open spec fn pending_request(u: UpdateView) -> Option<StoreRequestView> {
    match u.stage {
        SyncStage::Artist => artist_creation(u.metadata),
        SyncStage::ArtistLookup => artist_lookup(u.metadata),
        SyncStage::Album => album_lookup(u.metadata),
        SyncStage::AlbumCreation => album_creation(
            u.metadata,
            u.artist_id,
            kept_artwork(u.image, u.thumbnail),
            u.thumbnail,
        ),
        SyncStage::Track => track_creation_named(
            u.metadata,
            u.album_id,
            u.location,
            u.file_name,
            u.length,
        ),
        SyncStage::Done => None,
    }
}

/// The id that a reply carries, if it carries one.
pub open spec fn reply_id(reply: StoreReply) -> Option<i64> {
    match reply {
        StoreReply::Row(id) => Some(id),
        _ => None,
    }
}

/// The update after the store answered `reply` to the pending request.
/// `thumbnail` is what was made of the artwork, and counts only where the
/// album turns out to be new and the file has artwork.
///
/// An artist that exists already is looked up; one that cannot be had leaves
/// the album without artist. An album that is not found is created; one that
/// cannot be had leaves the track without album. Whatever the store answers
/// to the track, the update is done.
pub open spec fn after_reply(u: UpdateView, reply: StoreReply, thumbnail: Option<Seq<u8>>) -> UpdateView {
    match u.stage {
        SyncStage::Artist => if reply == StoreReply::RowNotFound {
            UpdateView { stage: SyncStage::ArtistLookup, ..u }
        } else {
            UpdateView {
                artist_id: reply_id(reply),
                stage: stage_at_album(u.metadata, u.file_name),
                ..u
            }
        },
        SyncStage::ArtistLookup => UpdateView {
            artist_id: reply_id(reply),
            stage: stage_at_album(u.metadata, u.file_name),
            ..u
        },
        SyncStage::Album => if reply == StoreReply::RowNotFound {
            UpdateView {
                stage: SyncStage::AlbumCreation,
                thumbnail: if u.image is Some {
                    thumbnail
                } else {
                    None
                },
                ..u
            }
        } else {
            UpdateView {
                album_id: reply_id(reply),
                stage: stage_at_track(u.metadata, u.file_name),
                ..u
            }
        },
        SyncStage::AlbumCreation => UpdateView {
            album_id: reply_id(reply),
            stage: stage_at_track(u.metadata, u.file_name),
            ..u
        },
        SyncStage::Track => UpdateView { stage: SyncStage::Done, ..u },
        SyncStage::Done => u,
    }
}

/// Decodes `artwork` with `image::ImageReader` (format guessed from the
/// bytes), converts it to RGBA, shrinks it with `image::imageops::thumbnail`
/// to `side` by `side` pixels and encodes that as BMP. `None` where the
/// bytes cannot be decoded or the result cannot be encoded. Nothing is
/// claimed of the bytes that come back.
#[verifier::external_body]
fn render_thumbnail(artwork: &[u8], side: u32) -> (thumbnail: Option<Vec<u8>>)
    requires
        4 * side * side <= usize::MAX,
{
    let reader = image::ImageReader::new(std::io::Cursor::new(artwork));
    let decoded = reader.with_guessed_format().ok()?.decode().ok()?.into_rgba8();
    let small = image::imageops::thumbnail(&decoded, side, side);
    let mut out = std::io::Cursor::new(Vec::new());
    small.write_to(&mut out, image::ImageFormat::Bmp).ok()?;
    Some(out.into_inner())
}

/// The thumbnail of an album, made of the artwork embedded in a file: a
/// square bitmap of [`THUMBNAIL_SIDE`] pixels. `None` where there is no
/// artwork or none can be made of it; the album is then created without.
pub fn derive_thumbnail(image: &Option<Vec<u8>>) -> (thumbnail: Option<Vec<u8>>)
    ensures
        image is None ==> thumbnail is None,
        thumbnail matches Some(bytes) ==> is_square_bitmap(bytes@, THUMBNAIL_SIDE),
{
    match image {
        Some(bytes) => accept_thumbnail(
            render_thumbnail(bytes.as_slice(), THUMBNAIL_SIDE),
            THUMBNAIL_SIDE,
        ),
        None => None,
    }
}

/// The number that four bytes of `bytes` from `at` on stand for, the lowest
/// byte first.
pub open spec fn little_endian(bytes: Seq<u8>, at: int) -> int {
    bytes[at] + 256 * bytes[at + 1] + 65536 * bytes[at + 2] + 16777216 * bytes[at + 3]
}

/// Whether `bytes` begin as a bitmap file does whose picture is `side`
/// pixels wide and as many high: with the letters `BM`, and with `side` as
/// the width and as the height in the header that follows the file header.
pub open spec fn is_square_bitmap(bytes: Seq<u8>, side: u32) -> bool {
    &&& bytes.len() >= 26
    &&& bytes[0] == 0x42
    &&& bytes[1] == 0x4d
    &&& little_endian(bytes, 18) == side
    &&& little_endian(bytes, 22) == side
}

/// The number that four bytes from `at` on stand for, the lowest byte
/// first.
fn little_endian_at(bytes: &Vec<u8>, at: usize) -> (value: u64)
    requires
        at + 4 <= bytes.len(),
    ensures
        value == little_endian(bytes@, at as int),
{
    let b0: u64 = bytes[at] as u64;
    let b1: u64 = bytes[at + 1] as u64;
    let b2: u64 = bytes[at + 2] as u64;
    let b3: u64 = bytes[at + 3] as u64;
    b0 + 256 * b1 + 65536 * b2 + 16777216 * b3
}

/// Whether `bytes` begin as the bitmap file of a picture of `side` by `side`
/// pixels does.
pub fn is_bitmap_of_side(bytes: &Vec<u8>, side: u32) -> (fits: bool)
    ensures
        fits == is_square_bitmap(bytes@, side),
{
    if bytes.len() < 26 {
        return false;
    }
    bytes[0] == 0x42 && bytes[1] == 0x4d && little_endian_at(bytes, 18) == side as u64
        && little_endian_at(bytes, 22) == side as u64
}

/// Lets a rendered thumbnail pass if it is the bitmap of a square picture of
/// the side that was asked for, and holds it back otherwise. What the
/// renderer makes of a given artwork is its own; what is known of a
/// thumbnail that passed is its header.
pub fn accept_thumbnail(rendered: Option<Vec<u8>>, side: u32) -> (accepted: Option<Vec<u8>>)
    ensures
        accepted == if rendered is Some && is_square_bitmap(rendered->0@, side) {
            rendered
        } else {
            None
        },
{
    match rendered {
        Some(bytes) => {
            if is_bitmap_of_side(&bytes, side) {
                Some(bytes)
            } else {
                None
            }
        },
        None => None,
    }
}

impl UpdateMetadata {
    /// Begins the update of the file at `location` from which `info` was
    /// extracted.
    pub fn begin(info: FileInformation, location: String) -> (update: Self)
        ensures
            update@ == begun(info.deep_view(), location@),
    {
        let file_name = file_name_of(location.as_str());
        let (metadata, length, image) = info;
        let mut update = UpdateMetadata {
            metadata,
            length,
            image,
            location,
            file_name,
            stage: SyncStage::Done,
            artist_id: None,
            album_id: None,
            thumbnail: None,
        };
        update.stage = update.starting_stage();
        update
    }

    fn has_artist(&self) -> (has: bool)
        ensures
            has == artist_name(self@.metadata) is Some,
    {
        self.metadata.album_artist.is_some() || self.metadata.artist.is_some()
    }

    fn has_album(&self) -> (has: bool)
        ensures
            has == album_title(self@.metadata) is Some,
    {
        match &self.metadata.album {
            Some(title) => title.as_str().unicode_len() > 0,
            None => false,
        }
    }

    fn track_stage(&self) -> (stage: SyncStage)
        ensures
            stage == stage_at_track(self@.metadata, self@.file_name),
    {
        if self.metadata.name.is_some() || self.file_name.is_some() {
            SyncStage::Track
        } else {
            SyncStage::Done
        }
    }

    fn album_stage(&self) -> (stage: SyncStage)
        ensures
            stage == stage_at_album(self@.metadata, self@.file_name),
    {
        if self.has_album() {
            SyncStage::Album
        } else {
            self.track_stage()
        }
    }

    fn starting_stage(&self) -> (stage: SyncStage)
        ensures
            stage == stage_at_start(self@.metadata, self@.file_name),
    {
        if self.has_artist() {
            SyncStage::Artist
        } else {
            self.album_stage()
        }
    }

    /// The request that the update waits on.
    pub fn stage(&self) -> (stage: SyncStage)
        ensures
            stage == self@.stage,
    {
        self.stage
    }

    /// Whether nothing is left to ask.
    pub fn is_done(&self) -> (done: bool)
        ensures
            done == (self@.stage == SyncStage::Done),
    {
        self.stage == SyncStage::Done
    }

    /// The id of the artist, once the store gave one.
    pub fn artist_id(&self) -> (id: Option<i64>)
        ensures
            id == self@.artist_id,
    {
        self.artist_id
    }

    /// The id of the album, once the store gave one.
    pub fn album_id(&self) -> (id: Option<i64>)
        ensures
            id == self@.album_id,
    {
        self.album_id
    }

    /// The request to send next; `None` once the update is done.
    pub fn request(&self) -> (request: Option<StoreRequest>)
        ensures
            request.deep_view() == pending_request(self@),
    {
        match self.stage {
            SyncStage::Artist => insert_artist(&self.metadata),
            SyncStage::ArtistLookup => find_artist(&self.metadata),
            SyncStage::Album => find_album(&self.metadata),
            SyncStage::AlbumCreation => {
                if self.thumbnail.is_some() {
                    insert_album(&self.metadata, self.artist_id, &self.image, &self.thumbnail)
                } else {
                    insert_album(&self.metadata, self.artist_id, &None, &self.thumbnail)
                }
            },
            SyncStage::Track => insert_track_named(
                &self.metadata,
                self.album_id,
                &self.location,
                copy_text(&self.file_name),
                self.length,
            ),
            SyncStage::Done => None,
        }
    }

    /// Takes the store's reply to the pending request, with the thumbnail
    /// already made.
    pub fn advance_with(&mut self, reply: StoreReply, thumbnail: Option<Vec<u8>>)
        ensures
            final(self)@ == after_reply(old(self)@, reply, thumbnail.deep_view()),
    {
        let id = match reply {
            StoreReply::Row(id) => Some(id),
            _ => None,
        };
        let missing = match reply {
            StoreReply::RowNotFound => true,
            _ => false,
        };
        match self.stage {
            SyncStage::Artist => {
                if missing {
                    self.stage = SyncStage::ArtistLookup;
                } else {
                    self.artist_id = id;
                    self.stage = self.album_stage();
                }
            },
            SyncStage::ArtistLookup => {
                self.artist_id = id;
                self.stage = self.album_stage();
            },
            SyncStage::Album => {
                if missing {
                    self.stage = SyncStage::AlbumCreation;
                    self.thumbnail = if self.image.is_some() {
                        thumbnail
                    } else {
                        None
                    };
                } else {
                    self.album_id = id;
                    self.stage = self.track_stage();
                }
            },
            SyncStage::AlbumCreation => {
                self.album_id = id;
                self.stage = self.track_stage();
            },
            SyncStage::Track => {
                self.stage = SyncStage::Done;
            },
            SyncStage::Done => {},
        }
    }

    /// Takes the store's reply to the pending request. Where the reply says
    /// that the album is new, the thumbnail is made of the artwork here;
    /// whatever comes of that, the update goes on as [`after_reply`] says
    /// for the thumbnail that it then holds, which is a square bitmap of
    /// [`THUMBNAIL_SIDE`] pixels if there is one.
    pub fn advance(&mut self, reply: StoreReply)
        ensures
            final(self)@ == after_reply(old(self)@, reply, final(self)@.thumbnail),
            old(self)@.stage == SyncStage::Album && reply == StoreReply::RowNotFound ==> (
            final(self)@.thumbnail matches Some(bytes) ==> is_square_bitmap(bytes, THUMBNAIL_SIDE)),
    {
        let new_album = match (self.stage, reply) {
            (SyncStage::Album, StoreReply::RowNotFound) => true,
            _ => false,
        };
        let thumbnail = if new_album {
            derive_thumbnail(&self.image)
        } else {
            None
        };
        proof {
            if thumbnail is Some {
                assert(thumbnail.deep_view()->0 =~= thumbnail->0@);
            }
        }
        self.advance_with(reply, thumbnail);
    }
}

/// The place of a stage in the order of the requests: artist before album
/// before track.
pub open spec fn stage_order(stage: SyncStage) -> int {
    match stage {
        SyncStage::Artist => 0,
        SyncStage::ArtistLookup => 1,
        SyncStage::Album => 2,
        SyncStage::AlbumCreation => 3,
        SyncStage::Track => 4,
        SyncStage::Done => 5,
    }
}

/// The requests go out in the order of their dependencies and none goes out
/// twice: every reply moves the update to a later stage, so that it is done
/// after five replies at the most.
pub proof fn lemma_update_moves_on(u: UpdateView, reply: StoreReply, thumbnail: Option<Seq<u8>>)
    requires
        u.stage != SyncStage::Done,
    ensures
        stage_order(after_reply(u, reply, thumbnail).stage) > stage_order(u.stage),
{
}

/// No failure of the store keeps the track from being asked for: an update
/// that is not done yet comes to its end only through the track request,
/// unless the file has no title to go by.
pub proof fn lemma_update_ends_with_the_track(
    u: UpdateView,
    reply: StoreReply,
    thumbnail: Option<Seq<u8>>,
)
    requires
        u.stage != SyncStage::Done,
        after_reply(u, reply, thumbnail).stage == SyncStage::Done,
    ensures
        u.stage == SyncStage::Track || track_title(u.metadata, u.file_name) is None,
{
}

/// A reply changes nothing but the stage, the ids and the thumbnail: what
/// was extracted from the file and where the file is stay as they are.
pub proof fn lemma_update_keeps_the_file(u: UpdateView, reply: StoreReply, thumbnail: Option<Seq<u8>>)
    ensures
        after_reply(u, reply, thumbnail).metadata == u.metadata,
        after_reply(u, reply, thumbnail).length == u.length,
        after_reply(u, reply, thumbnail).image == u.image,
        after_reply(u, reply, thumbnail).location == u.location,
        after_reply(u, reply, thumbnail).file_name == u.file_name,
{
}

} // verus!

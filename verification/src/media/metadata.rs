//! Tag metadata of one audio file, as far as the library reads it.

use vstd::prelude::*;

verus! {

/// The tags that a decoder found in a file. Every field is optional: a file
/// may carry none of them.
#[derive(Debug, Clone, PartialEq, Eq)]
pub struct Metadata {
    /// Track title.
    pub name: Option<String>,
    /// Track artist.
    pub artist: Option<String>,
    /// Artist of the album that the track belongs to.
    pub album_artist: Option<String>,
    /// Name under which the artist is sorted.
    pub artist_sort: Option<String>,
    /// Album title.
    pub album: Option<String>,
    /// Title under which the album is sorted.
    pub sort_album: Option<String>,
    pub genre: Option<String>,
    /// Release date, in seconds since the Unix epoch.
    pub date: Option<i64>,
    /// Number of the track on its disc.
    pub track_current: Option<u64>,
    /// Number of the disc in its set.
    pub disc_current: Option<u64>,
    pub label: Option<String>,
    /// Catalogue number of the release.
    pub catalog: Option<String>,
    pub isrc: Option<String>,
}

/// Mathematical value of [`Metadata`]: every text is its sequence of
/// characters.
pub struct MetadataView {
    pub name: Option<Seq<char>>,
    pub artist: Option<Seq<char>>,
    pub album_artist: Option<Seq<char>>,
    pub artist_sort: Option<Seq<char>>,
    pub album: Option<Seq<char>>,
    pub sort_album: Option<Seq<char>>,
    pub genre: Option<Seq<char>>,
    pub date: Option<i64>,
    pub track_current: Option<u64>,
    pub disc_current: Option<u64>,
    pub label: Option<Seq<char>>,
    pub catalog: Option<Seq<char>>,
    pub isrc: Option<Seq<char>>,
}

impl View for Metadata {
    type V = MetadataView;

    open spec fn view(&self) -> MetadataView {
        MetadataView {
            name: self.name.deep_view(),
            artist: self.artist.deep_view(),
            album_artist: self.album_artist.deep_view(),
            artist_sort: self.artist_sort.deep_view(),
            album: self.album.deep_view(),
            sort_album: self.sort_album.deep_view(),
            genre: self.genre.deep_view(),
            date: self.date,
            track_current: self.track_current,
            disc_current: self.disc_current,
            label: self.label.deep_view(),
            catalog: self.catalog.deep_view(),
            isrc: self.isrc.deep_view(),
        }
    }
}

impl DeepView for Metadata {
    type V = MetadataView;

    open spec fn deep_view(&self) -> MetadataView {
        self@
    }
}

/// No tag at all.
pub open spec fn empty_metadata() -> MetadataView {
    MetadataView {
        name: None,
        artist: None,
        album_artist: None,
        artist_sort: None,
        album: None,
        sort_album: None,
        genre: None,
        date: None,
        track_current: None,
        disc_current: None,
        label: None,
        catalog: None,
        isrc: None,
    }
}

impl Default for Metadata {
    fn default() -> (metadata: Self)
        ensures
            metadata@ == empty_metadata(),
    {
        Metadata {
            name: None,
            artist: None,
            album_artist: None,
            artist_sort: None,
            album: None,
            sort_album: None,
            genre: None,
            date: None,
            track_current: None,
            disc_current: None,
            label: None,
            catalog: None,
            isrc: None,
        }
    }
}

/// A copy of an optional text.
pub fn copy_text(text: &Option<String>) -> (copy: Option<String>)
    ensures
        copy.deep_view() == text.deep_view(),
{
    match text {
        Some(s) => Some(s.clone()),
        None => None,
    }
}

/// A copy of a list of texts, in the same order.
pub fn copy_texts(texts: &Vec<String>) -> (copy: Vec<String>)
    ensures
        copy.deep_view() == texts.deep_view(),
{
    let mut copy: Vec<String> = Vec::new();
    let mut i: usize = 0;
    while i < texts.len()
        invariant
            i <= texts.len(),
            copy@.len() == i,
            forall|k: int| 0 <= k < i ==> copy@[k]@ == texts@[k]@,
        decreases texts.len() - i,
    {
        copy.push(texts[i].clone());
        i += 1;
    }
    assert(copy.deep_view() =~= texts.deep_view());
    copy
}

/// A copy of optional bytes.
pub fn copy_bytes(bytes: &Option<Vec<u8>>) -> (copy: Option<Vec<u8>>)
    ensures
        copy.deep_view() == bytes.deep_view(),
{
    match bytes {
        Some(b) => {
            let c = b.clone();
            assert(c@ =~= b@);
            assert(c.deep_view() =~= b.deep_view());
            Some(c)
        },
        None => None,
    }
}

} // verus!

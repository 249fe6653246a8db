//! Policies of the background library worker.
//!
//! The worker owns the database, the file watcher and the network lookups;
//! those stay outside this crate. What it decides stands here: which
//! metadata an organisation preview uses, which library folder a track
//! belongs to, which albums still need a lookup and with which search terms,
//! how a lookup pass is accounted for, and when a scan batch is flushed.

use vstd::prelude::*;

use crate::metadata::{blank, is_blank};
use crate::models::{copy_opt_string, Album, TrackDisplay, TrackMetadata};
use crate::organization::plan::{
    law_plan_moves_are_safe, moves_avoid_disk, moves_distinct, planned, target_path,
    OrganizationPlan,
};
use crate::organization::template::Template;
use crate::paths::{path_starts_with, spec_path_starts_with};
use crate::text::{chars_of, decimal, push_all, push_decimal, string_of};
use vstd::utf8::encode_utf8;

verus! {

// ---------------------------------------------------------------------------
// Events and summaries
// ---------------------------------------------------------------------------

/// Events pushed from the worker to the UI thread.
#[derive(Debug, Clone)]
pub enum LibraryEvent {
    ScanProgress { done: usize, total: usize },
    ScanFinished { imported: usize },
    /// Progress while filling missing metadata / artist photos.
    LookupProgress { phase: String, done: usize, total: usize },
    LibraryChanged,
    Error(String),
}

/// Summary from a library-wide "Find Missing Metadata" pass.
#[derive(Debug, Clone, Copy, PartialEq, Eq, Structural)]
pub struct LookupSummary {
    pub albums_scanned: u32,
    pub artwork_updated: u32,
    pub genres_fixed: u32,
    pub metadata_updated: u32,
    pub artist_photos: u32,
    pub needs_review: u32,
    pub network_lookups: u32,
}

impl Default for LookupSummary {
    fn default() -> (r: Self)
        ensures
            r == (LookupSummary {
                albums_scanned: 0,
                artwork_updated: 0,
                genres_fixed: 0,
                metadata_updated: 0,
                artist_photos: 0,
                needs_review: 0,
                network_lookups: 0,
            }),
    {
        LookupSummary {
            albums_scanned: 0,
            artwork_updated: 0,
            genres_fixed: 0,
            metadata_updated: 0,
            artist_photos: 0,
            needs_review: 0,
            network_lookups: 0,
        }
    }
}

/// What became of one album during a lookup pass.
#[derive(Debug, Clone, Copy, PartialEq, Eq, Structural)]
pub enum AlbumOutcome {
    /// The album had nothing missing after all.
    Complete,
    /// The album's tracks could not be listed, or it has none.
    NoTrack,
    /// No artist or no title to search with.
    MissingTerms,
    /// A network lookup was made and found nothing (or failed).
    NoMatch,
    /// A network lookup found a match and it was applied.
    Matched {
        /// A blank genre became non-blank.
        genre_fixed: bool,
        /// Cover art was downloaded, cached and attached to the album.
        artwork_saved: bool,
        /// The filled tags were written back to the file.
        written: bool,
    },
}

/// The summary after one more album's outcome is counted.
pub open spec fn counted(s: LookupSummary, o: AlbumOutcome) -> LookupSummary {
    match o {
        AlbumOutcome::Complete => s,
        AlbumOutcome::NoTrack | AlbumOutcome::MissingTerms => LookupSummary {
            needs_review: (s.needs_review + 1) as u32,
            ..s
        },
        AlbumOutcome::NoMatch => LookupSummary {
            network_lookups: (s.network_lookups + 1) as u32,
            needs_review: (s.needs_review + 1) as u32,
            ..s
        },
        AlbumOutcome::Matched { genre_fixed, artwork_saved, written } => LookupSummary {
            network_lookups: (s.network_lookups + 1) as u32,
            genres_fixed: (s.genres_fixed + if genre_fixed {
                1int
            } else {
                0int
            }) as u32,
            artwork_updated: (s.artwork_updated + if artwork_saved {
                1int
            } else {
                0int
            }) as u32,
            metadata_updated: (s.metadata_updated + if written {
                1int
            } else {
                0int
            }) as u32,
            needs_review: (s.needs_review + if written {
                0int
            } else {
                1int
            }) as u32,
            ..s
        },
    }
}

/// Whether every counter has room for one more.
pub open spec fn has_room(s: LookupSummary) -> bool {
    &&& s.artwork_updated < u32::MAX
    &&& s.genres_fixed < u32::MAX
    &&& s.metadata_updated < u32::MAX
    &&& s.needs_review < u32::MAX
    &&& s.network_lookups < u32::MAX
}

impl LookupSummary {
    /// Whether every counter has room for one more, so that any outcome can
    /// be recorded.
    pub fn has_room_for_one_more(&self) -> (r: bool)
        ensures
            r == has_room(*self),
    {
        self.artwork_updated < u32::MAX && self.genres_fixed < u32::MAX && self.metadata_updated
            < u32::MAX && self.needs_review < u32::MAX && self.network_lookups < u32::MAX
    }

    /// The summary of a pass over `albums` albums, before any is looked at.
    pub fn starting(albums: u32) -> (r: Self)
        ensures
            r == (LookupSummary {
                albums_scanned: albums,
                artwork_updated: 0,
                genres_fixed: 0,
                metadata_updated: 0,
                artist_photos: 0,
                needs_review: 0,
                network_lookups: 0,
            }),
    {
        LookupSummary { albums_scanned: albums, ..Default::default() }
    }

    /// Count one album's outcome.
    pub fn record(&mut self, outcome: AlbumOutcome)
        requires
            has_room(*old(self)),
        ensures
            *final(self) == counted(*old(self), outcome),
    {
        match outcome {
            AlbumOutcome::Complete => {},
            AlbumOutcome::NoTrack | AlbumOutcome::MissingTerms => {
                self.needs_review = self.needs_review + 1;
            },
            AlbumOutcome::NoMatch => {
                self.network_lookups = self.network_lookups + 1;
                self.needs_review = self.needs_review + 1;
            },
            AlbumOutcome::Matched { genre_fixed, artwork_saved, written } => {
                self.network_lookups = self.network_lookups + 1;
                if genre_fixed {
                    self.genres_fixed = self.genres_fixed + 1;
                }
                if artwork_saved {
                    self.artwork_updated = self.artwork_updated + 1;
                }
                if written {
                    self.metadata_updated = self.metadata_updated + 1;
                } else {
                    self.needs_review = self.needs_review + 1;
                }
            },
        }
    }

    /// Whether the pass changed the library, so that views must reload.
    pub fn changed_library(&self) -> (r: bool)
        requires
            self.metadata_updated + self.artwork_updated + self.artist_photos <= u32::MAX,
        ensures
            r == (self.metadata_updated + self.artwork_updated + self.artist_photos > 0),
    {
        self.metadata_updated + self.artwork_updated + self.artist_photos > 0
    }
}

/// Every album looked at ends up counted exactly once as either updated or
/// needing review, unless it turned out to have nothing missing.
pub proof fn law_each_album_accounted(s: LookupSummary, o: AlbumOutcome)
    requires
        has_room(s),
    ensures
        o != AlbumOutcome::Complete ==> counted(s, o).metadata_updated + counted(s, o).needs_review
            == s.metadata_updated + s.needs_review + 1,
        o == AlbumOutcome::Complete ==> counted(s, o) == s,
        counted(s, o).albums_scanned == s.albums_scanned,
        counted(s, o).artist_photos == s.artist_photos,
{
}

/// Whether a lookup turned a blank genre into a non-blank one.
pub fn genre_was_fixed(before: &Option<String>, after: &Option<String>) -> (r: bool)
    ensures
        r == (is_blank(*before) && !is_blank(*after)),
{
    blank(before) && !blank(after)
}

// ---------------------------------------------------------------------------
// Lookup progress
// ---------------------------------------------------------------------------

/// The progress total of a pass over `n` albums: never zero.
pub fn progress_total(n: usize) -> (r: usize)
    ensures
        r == if n == 0 {
            1
        } else {
            n
        },
{
    if n == 0 {
        1
    } else {
        n
    }
}

/// The phase text announced before a pass over `n` albums.
pub open spec fn queued_phase_text(n: nat) -> Seq<char> {
    if n == 0 {
        "Nothing missing — library looks complete"@
    } else {
        "Queued "@ + decimal(n) + " albums with missing metadata"@
    }
}

/// The phase announced before a pass over `n` albums.
pub fn queued_phase(n: usize) -> (r: String)
    ensures
        r@ == queued_phase_text(n as nat),
{
    if n == 0 {
        "Nothing missing — library looks complete".to_owned()
    } else {
        let mut out = chars_of("Queued ");
        push_decimal(n as u64, &mut out);
        push_all(&mut out, &chars_of(" albums with missing metadata"));
        string_of(&out)
    }
}

/// The phase announced while one album is being looked up.
pub fn album_phase(album_name: &str) -> (r: String)
    ensures
        r@ == "Album · "@ + album_name@,
{
    let mut out = chars_of("Album · ");
    push_all(&mut out, &chars_of(album_name));
    string_of(&out)
}

/// The phase announced when a pass is over.
pub const FINISHED_PHASE: &'static str = "Finished";

// ---------------------------------------------------------------------------
// Which albums need a lookup
// ---------------------------------------------------------------------------

/// An album still has a gap: no artwork, a blank genre, or no year.
pub open spec fn album_has_gap(a: Album) -> bool {
    a.artwork_path is None || is_blank(a.genre) || a.year is None
}

/// Whether an album still has a gap worth a lookup.
pub fn album_needs_lookup(album: &Album) -> (r: bool)
    ensures
        r == album_has_gap(*album),
{
    album.artwork_path.is_none() || blank(&album.genre) || album.year.is_none()
}

/// The albums of `s` that have a gap, in order.
pub open spec fn albums_with_gaps(s: Seq<Album>) -> Seq<Album>
    decreases s.len(),
{
    if s.len() == 0 {
        s
    } else if album_has_gap(s.last()) {
        albums_with_gaps(s.drop_last()).push(s.last())
    } else {
        albums_with_gaps(s.drop_last())
    }
}

/// The albums that still have a gap, in library order. Completed albums are
/// skipped, so running a lookup again is incremental.
pub fn albums_needing_lookup(albums: &Vec<Album>) -> (r: Vec<Album>)
    ensures
        r@ == albums_with_gaps(albums@),
{
    let mut out: Vec<Album> = Vec::new();
    for i in 0..albums.len()
        invariant
            out@ == albums_with_gaps(albums@.take(i as int)),
    {
        assert(albums@.take(i + 1).drop_last() =~= albums@.take(i as int));
        if album_needs_lookup(&albums[i]) {
            out.push(albums[i].copy());
        }
    }
    assert(albums@.take(albums@.len() as int) =~= albums@);
    out
}

// ---------------------------------------------------------------------------
// Search terms
// ---------------------------------------------------------------------------

/// The terms a single-track lookup searches with: the artist tag, or the
/// album artist when there is no artist tag, or nothing; and the title tag,
/// or the stored title when there is no title tag. A lookup needs both to
/// be non-empty.
pub open spec fn track_terms(meta: TrackMetadata, stored_title: Seq<char>) -> Option<(Seq<char>, Seq<char>)> {
    let artist = match meta.artist {
        Some(a) => a@,
        None => match meta.album_artist {
            Some(b) => b@,
            None => Seq::empty(),
        },
    };
    let title = match meta.title {
        Some(t) => t@,
        None => stored_title,
    };
    if artist.len() == 0 || title.len() == 0 {
        None
    } else {
        Some((artist, title))
    }
}

/// The text of an optional string, or the empty text.
fn text_or_empty(o: &Option<String>) -> (r: String)
    ensures
        r@ == match *o {
            Some(s) => s@,
            None => Seq::<char>::empty(),
        },
{
    match o {
        Some(s) => s.clone(),
        None => String::new(),
    }
}

/// The artist and title to look a track up with, or `None` when the track
/// needs an artist and a title first (the caller reports
/// [`MISSING_TERMS_MESSAGE`]).
pub fn track_lookup_terms(meta: &TrackMetadata, stored_title: &str) -> (r: Option<(String, String)>)
    ensures
        match r {
            Some((a, t)) => track_terms(*meta, stored_title@) == Some((a@, t@)),
            None => track_terms(*meta, stored_title@) is None,
        },
{
    let artist = if meta.artist.is_some() {
        text_or_empty(&meta.artist)
    } else {
        text_or_empty(&meta.album_artist)
    };
    let title = match &meta.title {
        Some(t) => t.clone(),
        None => stored_title.to_owned(),
    };
    if artist.as_str().is_empty() || title.as_str().is_empty() {
        None
    } else {
        Some((artist, title))
    }
}

/// What a single-track lookup reports when it has nothing to search with.
pub const MISSING_TERMS_MESSAGE: &'static str = "Track needs an artist and title before lookup";

/// What a single-track lookup reports when nothing matched.
pub const NO_MATCH_MESSAGE: &'static str = "No MusicBrainz match for this track";

/// What a library-wide lookup reports when one is already running.
pub const ALREADY_RUNNING_MESSAGE: &'static str = "A metadata lookup is already running";

/// Metadata whose blank title is filled with the stored one.
pub open spec fn with_title_filled(meta: TrackMetadata, stored_title: String) -> TrackMetadata {
    if is_blank(meta.title) {
        TrackMetadata { title: Some(stored_title), ..meta }
    } else {
        meta
    }
}

/// Fill a blank title with the title stored in the library.
pub fn fill_blank_title(meta: &mut TrackMetadata, stored_title: &String)
    ensures
        *final(meta) == with_title_filled(*old(meta), *stored_title),
{
    if blank(&meta.title) {
        meta.title = Some(stored_title.clone());
    }
}

/// The terms an album lookup searches with: the artist tag (or, when there
/// is none, the album artist) and the title tag, each only when non-empty.
pub open spec fn album_terms(meta: TrackMetadata) -> Option<(Seq<char>, Seq<char>)> {
    let artist = match meta.artist {
        Some(a) => Some(a),
        None => meta.album_artist,
    };
    match (artist, meta.title) {
        (Some(a), Some(t)) => if a@.len() > 0 && t@.len() > 0 {
            Some((a@, t@))
        } else {
            None
        },
        _ => None,
    }
}

/// The artist and title to look an album up with, from its first track's
/// metadata; `None` when the album needs review instead.
pub fn album_lookup_terms(meta: &TrackMetadata) -> (r: Option<(String, String)>)
    ensures
        match r {
            Some((a, t)) => album_terms(*meta) == Some((a@, t@)),
            None => album_terms(*meta) is None,
        },
{
    let artist = if meta.artist.is_some() {
        copy_opt_string(&meta.artist)
    } else {
        copy_opt_string(&meta.album_artist)
    };
    match (artist, copy_opt_string(&meta.title)) {
        (Some(a), Some(t)) => {
            if !a.as_str().is_empty() && !t.as_str().is_empty() {
                Some((a, t))
            } else {
                None
            }
        },
        _ => None,
    }
}

/// The album name an album lookup narrows the search with: the album tag,
/// or the library's album name when there is none.
pub fn album_hint(meta: &TrackMetadata, album_name: &String) -> (r: String)
    ensures
        r@ == match meta.album {
            Some(a) => a@,
            None => album_name@,
        },
{
    match &meta.album {
        Some(a) => a.clone(),
        None => album_name.clone(),
    }
}

// ---------------------------------------------------------------------------
// Artwork naming
// ---------------------------------------------------------------------------

/// The artist an album's artwork is filed under: the album artist tag, else
/// the artist tag, else "Unknown Artist".
pub open spec fn artwork_artist_of(meta: TrackMetadata) -> Seq<char> {
    match meta.album_artist {
        Some(a) => a@,
        None => match meta.artist {
            Some(b) => b@,
            None => "Unknown Artist"@,
        },
    }
}

/// The album an album's artwork is filed under: the album tag, else
/// "Unknown Album".
pub open spec fn artwork_album_of(meta: TrackMetadata) -> Seq<char> {
    match meta.album {
        Some(a) => a@,
        None => "Unknown Album"@,
    }
}

/// The artist an album's artwork is filed under.
pub fn artwork_artist(meta: &TrackMetadata) -> (r: String)
    ensures
        r@ == artwork_artist_of(*meta),
{
    match &meta.album_artist {
        Some(a) => a.clone(),
        None => match &meta.artist {
            Some(b) => b.clone(),
            None => "Unknown Artist".to_owned(),
        },
    }
}

/// The album an album's artwork is filed under.
pub fn artwork_album(meta: &TrackMetadata) -> (r: String)
    ensures
        r@ == artwork_album_of(*meta),
{
    match &meta.album {
        Some(a) => a.clone(),
        None => "Unknown Album".to_owned(),
    }
}

// ---------------------------------------------------------------------------
// Organisation preview
// ---------------------------------------------------------------------------

/// A name as an optional tag: absent when empty.
pub open spec fn tag_of_name(name: String) -> Option<String> {
    if name@.len() == 0 {
        None
    } else {
        Some(name)
    }
}

/// The metadata a library row stands for when its file cannot be read.
pub open spec fn display_meta(item: TrackDisplay) -> TrackMetadata {
    TrackMetadata {
        title: Some(item.track.title),
        artist: tag_of_name(item.artist_name),
        album: tag_of_name(item.album_name),
        album_artist: tag_of_name(item.artist_name),
        genre: item.track.genre,
        year: item.track.year,
        track_number: item.track.track_number,
        disc_number: item.track.disc_number,
        duration_ms: item.track.duration_ms,
        ..TrackMetadata::spec_empty()
    }
}

fn name_tag(name: &String) -> (r: Option<String>)
    ensures
        r == tag_of_name(*name),
{
    if name.as_str().is_empty() {
        None
    } else {
        Some(name.clone())
    }
}

/// The metadata a library row stands for, built from its stored fields.
pub fn track_display_meta(item: &TrackDisplay) -> (r: TrackMetadata)
    ensures
        r == display_meta(*item),
{
    let mut meta = TrackMetadata::default();
    meta.title = Some(item.track.title.clone());
    meta.artist = name_tag(&item.artist_name);
    meta.album = name_tag(&item.album_name);
    meta.album_artist = name_tag(&item.artist_name);
    meta.genre = copy_opt_string(&item.track.genre);
    meta.year = item.track.year;
    meta.track_number = item.track.track_number;
    meta.disc_number = item.track.disc_number;
    meta.duration_ms = item.track.duration_ms;
    meta
}

/// The metadata an organisation preview renders a library row with: the
/// file's tags when they could be read (else the row's stored fields), with
/// every gap filled from the row, and a blank album artist taken from the
/// artist.
pub open spec fn preview_meta(read: Option<TrackMetadata>, item: TrackDisplay) -> TrackMetadata {
    let m0 = match read {
        Some(m) => m,
        None => display_meta(item),
    };
    let m1 = if is_blank(m0.title) {
        TrackMetadata { title: Some(item.track.title), ..m0 }
    } else {
        m0
    };
    let m2 = if is_blank(m1.artist) && item.artist_name@.len() > 0 {
        TrackMetadata { artist: Some(item.artist_name), ..m1 }
    } else {
        m1
    };
    let m3 = if is_blank(m2.album) && item.album_name@.len() > 0 {
        TrackMetadata { album: Some(item.album_name), ..m2 }
    } else {
        m2
    };
    let m4 = if is_blank(m3.album_artist) {
        TrackMetadata { album_artist: m3.artist, ..m3 }
    } else {
        m3
    };
    TrackMetadata {
        track_number: if m4.track_number is None {
            item.track.track_number
        } else {
            m4.track_number
        },
        disc_number: if m4.disc_number is None {
            item.track.disc_number
        } else {
            m4.disc_number
        },
        genre: if m4.genre is None {
            item.track.genre
        } else {
            m4.genre
        },
        year: if m4.year is None {
            item.track.year
        } else {
            m4.year
        },
        ..m4
    }
}

/// The metadata to render a library row with in an organisation preview;
/// `read` is what the file's tags gave, if they could be read.
pub fn organize_metadata(read: Option<TrackMetadata>, item: &TrackDisplay) -> (r: TrackMetadata)
    ensures
        r == preview_meta(read, *item),
{
    let mut meta = match read {
        Some(m) => m,
        None => track_display_meta(item),
    };
    if blank(&meta.title) {
        meta.title = Some(item.track.title.clone());
    }
    if blank(&meta.artist) && !item.artist_name.as_str().is_empty() {
        meta.artist = Some(item.artist_name.clone());
    }
    if blank(&meta.album) && !item.album_name.as_str().is_empty() {
        meta.album = Some(item.album_name.clone());
    }
    if blank(&meta.album_artist) {
        meta.album_artist = copy_opt_string(&meta.artist);
    }
    if meta.track_number.is_none() {
        meta.track_number = item.track.track_number;
    }
    if meta.disc_number.is_none() {
        meta.disc_number = item.track.disc_number;
    }
    if meta.genre.is_none() {
        meta.genre = copy_opt_string(&item.track.genre);
    }
    if meta.year.is_none() {
        meta.year = item.track.year;
    }
    meta
}

/// The byte length of a path's text, by which library folders are ranked,
/// as `str::len` reports it.
pub open spec fn byte_len(s: Seq<char>) -> usize {
    encode_utf8(s).len() as usize
}

/// The folder a track is organised under, given for each library folder
/// whether the track's path lies below it: the longest such folder by byte
/// length (the last of equally long ones), if any.
pub open spec fn deepest_folder(folders: Seq<String>, below: Seq<bool>) -> Option<String>
    decreases folders.len(),
{
    if folders.len() == 0 {
        None
    } else {
        let prev = deepest_folder(folders.drop_last(), below.drop_last());
        let f = folders.last();
        if below[folders.len() - 1] {
            match prev {
                Some(p) => if byte_len(f@) >= byte_len(p@) {
                    Some(f)
                } else {
                    prev
                },
                None => Some(f),
            }
        } else {
            prev
        }
    }
}

/// The folder chosen for a track holds it, and no folder holding it is
/// longer; when none is chosen, no folder holds it.
pub proof fn law_deepest_folder_is_deepest(folders: Seq<String>, below: Seq<bool>)
    requires
        below.len() == folders.len(),
    ensures
        match deepest_folder(folders, below) {
            Some(f) => (exists|i: int| 0 <= i < folders.len() && below[i] && #[trigger] folders[i] == f)
                && forall|i: int|
                0 <= i < folders.len() && below[i] ==> byte_len(#[trigger] folders[i]@) <= byte_len(f@),
            None => forall|i: int| 0 <= i < folders.len() ==> !#[trigger] below[i],
        },
    decreases folders.len(),
{
    if folders.len() > 0 {
        let fs = folders.drop_last();
        let bs = below.drop_last();
        law_deepest_folder_is_deepest(fs, bs);
        let n = folders.len() - 1;
        assert forall|i: int| 0 <= i < n implies fs[i] == folders[i] && bs[i] == below[i] by {}
        match deepest_folder(fs, bs) {
            Some(p) => {
                let j = choose|j: int| 0 <= j < fs.len() && bs[j] && #[trigger] fs[j] == p;
                assert(folders[j] == p && below[j]);
            },
            None => {},
        }
    }
}

/// The root a track is organised under: the deepest library folder that
/// holds it, where `below[i]` says whether the track lies below
/// `folders[i]`; the preview's root when none does.
pub fn pick_track_root(folders: &Vec<String>, below: &Vec<bool>, root: &String) -> (r: String)
    requires
        below@.len() == folders@.len(),
    ensures
        r@ == match deepest_folder(folders@, below@) {
            Some(f) => f@,
            None => root@,
        },
{
    let mut best: Option<usize> = None;
    let mut best_len: usize = 0;
    for i in 0..folders.len()
        invariant
            below@.len() == folders@.len(),
            match best {
                Some(b) => b < i && deepest_folder(folders@.take(i as int), below@.take(i as int))
                    == Some(folders@[b as int]) && best_len == byte_len(folders@[b as int]@),
                None => deepest_folder(folders@.take(i as int), below@.take(i as int)) is None,
            },
    {
        assert(folders@.take(i + 1).drop_last() =~= folders@.take(i as int));
        assert(below@.take(i + 1).drop_last() =~= below@.take(i as int));
        assert(below@.take(i + 1)[i as int] == below@[i as int]);
        assert(folders@.take(i + 1).last() == folders@[i as int]);
        if below[i] {
            let len = folders[i].as_str().len();
            match best {
                Some(_) => {
                    if len >= best_len {
                        best = Some(i);
                        best_len = len;
                    }
                },
                None => {
                    best = Some(i);
                    best_len = len;
                },
            }
        }
    }
    assert(folders@.take(folders@.len() as int) =~= folders@);
    assert(below@.take(below@.len() as int) =~= below@);
    match best {
        Some(b) => folders[b].clone(),
        None => root.clone(),
    }
}

/// For each library folder, whether `path` lies below it, as
/// `Path::starts_with` decides.
pub open spec fn holding(folders: Seq<String>, path: Seq<char>) -> Seq<bool> {
    Seq::new(folders.len(), |i: int| spec_path_starts_with(path, folders[i]@))
}

/// For each library folder, whether `path` lies below it.
pub fn folders_holding(folders: &Vec<String>, path: &str) -> (r: Vec<bool>)
    ensures
        r@ == holding(folders@, path@),
{
    let mut out: Vec<bool> = Vec::new();
    for i in 0..folders.len()
        invariant
            out@ == holding(folders@, path@).take(i as int),
    {
        out.push(path_starts_with(path, folders[i].as_str()));
        assert(out@ =~= holding(folders@, path@).take(i + 1));
    }
    assert(holding(folders@, path@).take(folders@.len() as int) =~= holding(folders@, path@));
    out
}

/// The root a track at `path` is organised under: the deepest library
/// folder holding it, else `root`.
pub fn track_root(folders: &Vec<String>, path: &str, root: &String) -> (r: String)
    ensures
        r@ == match deepest_folder(folders@, holding(folders@, path@)) {
            Some(f) => f@,
            None => root@,
        },
{
    let below = folders_holding(folders, path);
    pick_track_root(folders, &below, root)
}

// ---------------------------------------------------------------------------
// Organising the whole library
// ---------------------------------------------------------------------------

/// The root a track at `path` is organised under (see [`track_root`]).
pub open spec fn root_for(folders: Seq<String>, path: Seq<char>, root: Seq<char>) -> Seq<char> {
    match deepest_folder(folders, holding(folders, path)) {
        Some(f) => f@,
        None => root,
    }
}

/// The move an organisation preview asks for a library row, given what its
/// file's tags gave (`read`): from its path to where the template puts it
/// under the deepest library folder holding it.
pub open spec fn library_move(
    root: Seq<char>,
    t: Template,
    folders: Seq<String>,
    item: TrackDisplay,
    read: Option<TrackMetadata>,
) -> (Seq<char>, Seq<char>) {
    let from = item.track.path@;
    (from, target_path(root_for(folders, from, root), t, from, preview_meta(read, item)))
}

/// The moves an organisation preview asks for every library row, in order.
pub open spec fn library_move_list(
    root: Seq<char>,
    t: Template,
    folders: Seq<String>,
    items: Seq<(TrackDisplay, Option<TrackMetadata>)>,
) -> Seq<(Seq<char>, Seq<char>)> {
    items.map_values(
        |p: (TrackDisplay, Option<TrackMetadata>)| library_move(root, t, folders, p.0, p.1),
    )
}

/// The move `(from, to)` of every library row, in order; `items` pairs each
/// row with what its file's tags gave, if they could be read. The `to` paths
/// are those whose existence on disk [`library_plan`] needs to be told.
pub fn library_moves(
    root: &String,
    template: &Template,
    folders: &Vec<String>,
    items: &Vec<(TrackDisplay, Option<TrackMetadata>)>,
) -> (r: Vec<(String, String)>)
    ensures
        r@.map_values(|p: (String, String)| (p.0@, p.1@)) == library_move_list(
            root@,
            *template,
            folders@,
            items@,
        ),
{
    let mut out: Vec<(String, String)> = Vec::new();
    assert(out@.map_values(|p: (String, String)| (p.0@, p.1@)) =~= library_move_list(
        root@,
        *template,
        folders@,
        items@.take(0),
    ));
    for i in 0..items.len()
        invariant
            out@.len() == i,
            out@.map_values(|p: (String, String)| (p.0@, p.1@)) == library_move_list(
                root@,
                *template,
                folders@,
                items@.take(i as int),
            ),
    {
        let item = &items[i].0;
        let read = match &items[i].1 {
            Some(m) => Some(m.copy()),
            None => None,
        };
        let base = track_root(folders, item.track.path.as_str(), root);
        let meta = organize_metadata(read, item);
        let to = OrganizationPlan::target_for(base.as_str(), template, item.track.path.as_str(), &meta);
        let ghost before = out@;
        out.push((item.track.path.clone(), to));
        proof {
            let want = library_move_list(root@, *template, folders@, items@.take(i + 1));
            let prev = library_move_list(root@, *template, folders@, items@.take(i as int));
            let got = out@.map_values(|p: (String, String)| (p.0@, p.1@));
            assert(items@.take(i + 1)[i as int] == items@[i as int]);
            assert forall|k: int| 0 <= k < i implies got[k] == want[k] by {
                assert(out@[k] == before[k]);
                assert(items@.take(i + 1)[k] == items@.take(i as int)[k]);
                assert(prev[k] == before.map_values(|p: (String, String)| (p.0@, p.1@))[k]);
            }
            assert(got =~= want);
        }
    }
    assert(items@.take(items@.len() as int) =~= items@);
    out
}

/// Plan the organisation of the whole library at once, so that two rows
/// going to one destination are caught as a conflict and never both moved.
/// `on_disk[i]` says whether the destination of the `i`-th row (see
/// [`library_moves`]) already exists.
pub fn library_plan(
    root: &String,
    template: &Template,
    folders: &Vec<String>,
    items: &Vec<(TrackDisplay, Option<TrackMetadata>)>,
    on_disk: &Vec<bool>,
) -> (r: OrganizationPlan)
    requires
        on_disk@.len() == items@.len(),
    ensures
        r.entries@.len() == items@.len(),
        planned(r.entries@, library_move_list(root@, *template, folders@, items@), on_disk@),
        moves_distinct(r.entries@),
        moves_avoid_disk(
            r.entries@,
            library_move_list(root@, *template, folders@, items@),
            on_disk@,
        ),
{
    let moves = library_moves(root, template, folders, items);
    let ghost want = library_move_list(root@, *template, folders@, items@);
    assert(moves@.len() == want.len());
    let r = OrganizationPlan::classify(moves, on_disk);
    proof {
        law_plan_moves_are_safe(r.entries@, want, on_disk@);
    }
    r
}

// ---------------------------------------------------------------------------
// Scanning
// ---------------------------------------------------------------------------

/// How many changed files a scan parses and stores at once.
pub const SCAN_BATCH: usize = 64;

/// Whether a scan flushes its batch after looking at file `index` of
/// `total`: when the batch is full, and after the last file.
pub fn scan_batch_ready(batch_len: usize, index: usize, total: usize) -> (r: bool)
    requires
        index < total,
    ensures
        r == (batch_len >= SCAN_BATCH || index + 1 == total),
{
    batch_len >= SCAN_BATCH || index + 1 == total
}

/// Whether `p` is one of the paths listed.
pub open spec fn listed(paths: Seq<String>, p: Seq<char>) -> bool {
    exists|i: int| 0 <= i < paths.len() && #[trigger] paths[i]@ == p
}

/// The stored paths below `folder` (as `Path::starts_with` decides) that a
/// scan of the folder no longer found, in stored order.
pub open spec fn vanished(stored: Seq<String>, folder: Seq<char>, found: Seq<String>) -> Seq<String>
    decreases stored.len(),
{
    if stored.len() == 0 {
        stored
    } else {
        let p = stored.last();
        let prev = vanished(stored.drop_last(), folder, found);
        if spec_path_starts_with(p@, folder) && !listed(found, p@) {
            prev.push(p)
        } else {
            prev
        }
    }
}

fn is_listed(paths: &Vec<String>, p: &String) -> (r: bool)
    ensures
        r == listed(paths@, p@),
{
    for i in 0..paths.len()
        invariant
            forall|j: int| 0 <= j < i ==> #[trigger] paths@[j]@ != p@,
    {
        if paths[i] == *p {
            assert(paths@[i as int]@ == p@);
            return true;
        }
    }
    false
}

/// The tracks a scan of `folder` removes from the library: the stored
/// paths below the folder whose files the scan did not find.
pub fn vanished_paths(stored: &Vec<String>, folder: &str, found: &Vec<String>) -> (r: Vec<String>)
    ensures
        r@ == vanished(stored@, folder@, found@),
{
    let mut out: Vec<String> = Vec::new();
    for i in 0..stored.len()
        invariant
            out@ == vanished(stored@.take(i as int), folder@, found@),
    {
        assert(stored@.take(i + 1).drop_last() =~= stored@.take(i as int));
        assert(stored@.take(i + 1).last() == stored@[i as int]);
        if path_starts_with(stored[i].as_str(), folder) && !is_listed(found, &stored[i]) {
            out.push(stored[i].clone());
        }
    }
    assert(stored@.take(stored@.len() as int) =~= stored@);
    out
}

/// The name shown for an album's artist: the name when there is a non-empty
/// one, else "Unknown Artist".
pub fn album_artist_label(name: Option<String>) -> (r: String)
    ensures
        r@ == match name {
            Some(n) => if n@.len() > 0 {
                n@
            } else {
                "Unknown Artist"@
            },
            None => "Unknown Artist"@,
        },
{
    match name {
        Some(n) => {
            if n.as_str().is_empty() {
                "Unknown Artist".to_owned()
            } else {
                n
            }
        },
        None => "Unknown Artist".to_owned(),
    }
}

} // verus!

//! Plain data types that model the music library.
//!
//! These types are free of any GUI, database, or audio dependency so they can
//! be shared between every layer of the application. File-system paths are
//! carried as `String`s.

use vstd::prelude::*;

use crate::text::{ascii_lower_seq, ascii_lowercase, chars_equal, chars_of};

verus! {

/// Primary key of a track row.
#[derive(Debug, Clone, Copy, PartialEq, Eq, Structural, PartialOrd, Ord, Hash)]
pub struct TrackId(pub i64);

/// Primary key of an album row.
#[derive(Debug, Clone, Copy, PartialEq, Eq, Structural, PartialOrd, Ord, Hash)]
pub struct AlbumId(pub i64);

/// Primary key of an artist row.
#[derive(Debug, Clone, Copy, PartialEq, Eq, Structural, PartialOrd, Ord, Hash)]
pub struct ArtistId(pub i64);

impl From<i64> for TrackId {
    fn from(value: i64) -> (r: Self) {
        TrackId(value)
    }
}

impl vstd::std_specs::convert::FromSpecImpl<i64> for TrackId {
    open spec fn obeys_from_spec() -> bool {
        true
    }

    open spec fn from_spec(v: i64) -> Self {
        TrackId(v)
    }
}

impl From<TrackId> for i64 {
    fn from(value: TrackId) -> (r: Self) {
        value.0
    }
}

impl vstd::std_specs::convert::FromSpecImpl<TrackId> for i64 {
    open spec fn obeys_from_spec() -> bool {
        true
    }

    open spec fn from_spec(v: TrackId) -> Self {
        v.0
    }
}

impl From<i64> for AlbumId {
    fn from(value: i64) -> (r: Self) {
        AlbumId(value)
    }
}

impl vstd::std_specs::convert::FromSpecImpl<i64> for AlbumId {
    open spec fn obeys_from_spec() -> bool {
        true
    }

    open spec fn from_spec(v: i64) -> Self {
        AlbumId(v)
    }
}

impl From<AlbumId> for i64 {
    fn from(value: AlbumId) -> (r: Self) {
        value.0
    }
}

impl vstd::std_specs::convert::FromSpecImpl<AlbumId> for i64 {
    open spec fn obeys_from_spec() -> bool {
        true
    }

    open spec fn from_spec(v: AlbumId) -> Self {
        v.0
    }
}

impl From<i64> for ArtistId {
    fn from(value: i64) -> (r: Self) {
        ArtistId(value)
    }
}

impl vstd::std_specs::convert::FromSpecImpl<i64> for ArtistId {
    open spec fn obeys_from_spec() -> bool {
        true
    }

    open spec fn from_spec(v: i64) -> Self {
        ArtistId(v)
    }
}

impl From<ArtistId> for i64 {
    fn from(value: ArtistId) -> (r: Self) {
        value.0
    }
}

impl vstd::std_specs::convert::FromSpecImpl<ArtistId> for i64 {
    open spec fn obeys_from_spec() -> bool {
        true
    }

    open spec fn from_spec(v: ArtistId) -> Self {
        v.0
    }
}

/// Audio container formats Cadence knows how to index and play.
#[derive(Debug, Clone, Copy, PartialEq, Eq, Structural)]
pub enum AudioFormat {
    Flac,
    Mp3,
    Aac,
    M4a,
    Ogg,
    Opus,
    Wav,
    Aiff,
    Alac,
}

/// The format that an extension names, compared without regard to ASCII case.
pub open spec fn format_of_extension(ext: Seq<char>) -> Option<AudioFormat> {
    let e = ascii_lower_seq(ext);
    if e == "flac"@ {
        Some(AudioFormat::Flac)
    } else if e == "mp3"@ {
        Some(AudioFormat::Mp3)
    } else if e == "aac"@ {
        Some(AudioFormat::Aac)
    } else if e == "m4a"@ || e == "m4b"@ {
        Some(AudioFormat::M4a)
    } else if e == "ogg"@ || e == "oga"@ {
        Some(AudioFormat::Ogg)
    } else if e == "opus"@ {
        Some(AudioFormat::Opus)
    } else if e == "wav"@ || e == "wave"@ {
        Some(AudioFormat::Wav)
    } else if e == "aif"@ || e == "aiff"@ || e == "aifc"@ {
        Some(AudioFormat::Aiff)
    } else if e == "alac"@ {
        Some(AudioFormat::Alac)
    } else {
        None
    }
}

/// The canonical lower-case extension of a format.
pub open spec fn extension_of(f: AudioFormat) -> Seq<char> {
    match f {
        AudioFormat::Flac => "flac"@,
        AudioFormat::Mp3 => "mp3"@,
        AudioFormat::Aac => "aac"@,
        AudioFormat::M4a => "m4a"@,
        AudioFormat::Ogg => "ogg"@,
        AudioFormat::Opus => "opus"@,
        AudioFormat::Wav => "wav"@,
        AudioFormat::Aiff => "aiff"@,
        AudioFormat::Alac => "alac"@,
    }
}

/// Every format's canonical extension names that format again.
pub proof fn law_extension_round_trip(f: AudioFormat)
    ensures
        format_of_extension(extension_of(f)) == Some(f),
{
    reveal_strlit("flac");
    reveal_strlit("mp3");
    reveal_strlit("aac");
    reveal_strlit("m4a");
    reveal_strlit("m4b");
    reveal_strlit("ogg");
    reveal_strlit("oga");
    reveal_strlit("opus");
    reveal_strlit("wav");
    reveal_strlit("wave");
    reveal_strlit("aif");
    reveal_strlit("aiff");
    reveal_strlit("aifc");
    reveal_strlit("alac");
    assert("flac"@.len() == 4 && "flac"@[0] == 'f' && "flac"@[1] == 'l' && "flac"@[2] == 'a');
    assert("mp3"@.len() == 3 && "mp3"@[0] == 'm' && "mp3"@[1] == 'p' && "mp3"@[2] == '3');
    assert("aac"@.len() == 3 && "aac"@[0] == 'a' && "aac"@[1] == 'a' && "aac"@[2] == 'c');
    assert("m4a"@.len() == 3 && "m4a"@[0] == 'm' && "m4a"@[1] == '4' && "m4a"@[2] == 'a');
    assert("m4b"@.len() == 3 && "m4b"@[0] == 'm' && "m4b"@[1] == '4' && "m4b"@[2] == 'b');
    assert("ogg"@.len() == 3 && "ogg"@[0] == 'o' && "ogg"@[1] == 'g' && "ogg"@[2] == 'g');
    assert("oga"@.len() == 3 && "oga"@[0] == 'o' && "oga"@[1] == 'g' && "oga"@[2] == 'a');
    assert("opus"@.len() == 4 && "opus"@[0] == 'o' && "opus"@[1] == 'p' && "opus"@[2] == 'u');
    assert("wav"@.len() == 3 && "wav"@[0] == 'w' && "wav"@[1] == 'a' && "wav"@[2] == 'v');
    assert("wave"@.len() == 4 && "wave"@[0] == 'w' && "wave"@[1] == 'a' && "wave"@[2] == 'v');
    assert("aif"@.len() == 3 && "aif"@[0] == 'a' && "aif"@[1] == 'i' && "aif"@[2] == 'f');
    assert("aiff"@.len() == 4 && "aiff"@[0] == 'a' && "aiff"@[1] == 'i' && "aiff"@[2] == 'f');
    assert("aifc"@.len() == 4 && "aifc"@[0] == 'a' && "aifc"@[1] == 'i' && "aifc"@[2] == 'f');
    assert("alac"@.len() == 4 && "alac"@[0] == 'a' && "alac"@[1] == 'l' && "alac"@[2] == 'a');
    let e = extension_of(f);
    assert(ascii_lower_seq(e) =~= e);
}

/// Whether `v` holds exactly the characters of `lit`.
pub(crate) fn eq_lit(v: &Vec<char>, lit: &str) -> (r: bool)
    ensures
        r == (v@ == lit@),
{
    let l = chars_of(lit);
    chars_equal(v, &l)
}

impl AudioFormat {
    /// Detect a format from a file extension (case-insensitive, no dot).
    pub fn from_extension(ext: &str) -> (r: Option<Self>)
        ensures
            r == format_of_extension(ext@),
    {
        let raw = chars_of(ext);
        let e = ascii_lowercase(&raw);
        if eq_lit(&e, "flac") {
            Some(AudioFormat::Flac)
        } else if eq_lit(&e, "mp3") {
            Some(AudioFormat::Mp3)
        } else if eq_lit(&e, "aac") {
            Some(AudioFormat::Aac)
        } else if eq_lit(&e, "m4a") || eq_lit(&e, "m4b") {
            Some(AudioFormat::M4a)
        } else if eq_lit(&e, "ogg") || eq_lit(&e, "oga") {
            Some(AudioFormat::Ogg)
        } else if eq_lit(&e, "opus") {
            Some(AudioFormat::Opus)
        } else if eq_lit(&e, "wav") || eq_lit(&e, "wave") {
            Some(AudioFormat::Wav)
        } else if eq_lit(&e, "aif") || eq_lit(&e, "aiff") || eq_lit(&e, "aifc") {
            Some(AudioFormat::Aiff)
        } else if eq_lit(&e, "alac") {
            Some(AudioFormat::Alac)
        } else {
            None
        }
    }

    /// The canonical lower-case extension for this format.
    pub fn extension(self) -> (r: &'static str)
        ensures
            r@ == extension_of(self),
    {
        match self {
            AudioFormat::Flac => "flac",
            AudioFormat::Mp3 => "mp3",
            AudioFormat::Aac => "aac",
            AudioFormat::M4a => "m4a",
            AudioFormat::Ogg => "ogg",
            AudioFormat::Opus => "opus",
            AudioFormat::Wav => "wav",
            AudioFormat::Aiff => "aiff",
            AudioFormat::Alac => "alac",
        }
    }

    /// Whether the format supports lossless audio. Used purely for display.
    pub fn is_lossless(self) -> (r: bool)
        ensures
            r == (self is Flac || self is Wav || self is Aiff || self is Alac),
    {
        match self {
            AudioFormat::Flac | AudioFormat::Wav | AudioFormat::Aiff | AudioFormat::Alac => true,
            _ => false,
        }
    }
}

/// An exact copy of an optional string.
pub fn copy_opt_string(o: &Option<String>) -> (r: Option<String>)
    ensures
        r == *o,
{
    match o {
        Some(s) => Some(s.clone()),
        None => None,
    }
}

/// Metadata extracted from an audio file, before it is persisted.
///
/// Every field is optional because real-world files are frequently missing
/// tags. The scanner fills in sensible fallbacks (for example deriving a title
/// from the file stem) at persistence time.
#[derive(Debug, Clone, PartialEq)]
pub struct TrackMetadata {
    pub title: Option<String>,
    pub artist: Option<String>,
    pub album: Option<String>,
    pub album_artist: Option<String>,
    pub composer: Option<String>,
    pub genre: Option<String>,
    pub year: Option<i32>,
    pub track_number: Option<u32>,
    pub track_total: Option<u32>,
    pub disc_number: Option<u32>,
    pub disc_total: Option<u32>,
    /// Whether this track belongs to a compilation (various-artists album).
    pub compilation: bool,
    /// Duration in milliseconds.
    pub duration_ms: Option<u64>,
    /// MusicBrainz recording/track/release identifiers, when present.
    pub musicbrainz_track_id: Option<String>,
    pub musicbrainz_album_id: Option<String>,
}

impl TrackMetadata {
    /// Metadata with every tag absent.
    pub open spec fn spec_empty() -> TrackMetadata {
        TrackMetadata {
            title: None,
            artist: None,
            album: None,
            album_artist: None,
            composer: None,
            genre: None,
            year: None,
            track_number: None,
            track_total: None,
            disc_number: None,
            disc_total: None,
            compilation: false,
            duration_ms: None,
            musicbrainz_track_id: None,
            musicbrainz_album_id: None,
        }
    }

    /// An exact copy.
    pub fn copy(&self) -> (r: Self)
        ensures
            r == *self,
    {
        TrackMetadata {
            title: copy_opt_string(&self.title),
            artist: copy_opt_string(&self.artist),
            album: copy_opt_string(&self.album),
            album_artist: copy_opt_string(&self.album_artist),
            composer: copy_opt_string(&self.composer),
            genre: copy_opt_string(&self.genre),
            year: self.year,
            track_number: self.track_number,
            track_total: self.track_total,
            disc_number: self.disc_number,
            disc_total: self.disc_total,
            compilation: self.compilation,
            duration_ms: self.duration_ms,
            musicbrainz_track_id: copy_opt_string(&self.musicbrainz_track_id),
            musicbrainz_album_id: copy_opt_string(&self.musicbrainz_album_id),
        }
    }
}

impl Default for TrackMetadata {
    fn default() -> (r: Self)
        ensures
            r == TrackMetadata::spec_empty(),
    {
        TrackMetadata {
            title: None,
            artist: None,
            album: None,
            album_artist: None,
            composer: None,
            genre: None,
            year: None,
            track_number: None,
            track_total: None,
            disc_number: None,
            disc_total: None,
            compilation: false,
            duration_ms: None,
            musicbrainz_track_id: None,
            musicbrainz_album_id: None,
        }
    }
}

/// A fully indexed track as stored in the database.
#[derive(Debug, Clone, PartialEq)]
pub struct Track {
    pub id: TrackId,
    pub path: String,
    pub title: String,
    pub album_id: Option<AlbumId>,
    pub artist_id: Option<ArtistId>,
    pub album_artist_id: Option<ArtistId>,
    pub composer: Option<String>,
    pub genre: Option<String>,
    pub year: Option<i32>,
    pub track_number: Option<u32>,
    pub disc_number: Option<u32>,
    pub duration_ms: Option<u64>,
    pub format: Option<AudioFormat>,
    /// File size in bytes; used to cheaply detect changes on rescans.
    pub file_size: u64,
    /// File modification time as a Unix timestamp (seconds).
    pub modified_at: i64,
    /// When the track was first added to the library (Unix seconds).
    pub added_at: i64,
    pub play_count: u32,
    pub favorite: bool,
}

impl Track {
    /// An exact copy.
    pub fn copy(&self) -> (r: Self)
        ensures
            r == *self,
    {
        Track {
            id: self.id,
            path: self.path.clone(),
            title: self.title.clone(),
            album_id: self.album_id,
            artist_id: self.artist_id,
            album_artist_id: self.album_artist_id,
            composer: copy_opt_string(&self.composer),
            genre: copy_opt_string(&self.genre),
            year: self.year,
            track_number: self.track_number,
            disc_number: self.disc_number,
            duration_ms: self.duration_ms,
            format: self.format,
            file_size: self.file_size,
            modified_at: self.modified_at,
            added_at: self.added_at,
            play_count: self.play_count,
            favorite: self.favorite,
        }
    }
}

/// An album aggregate.
#[derive(Debug, Clone, PartialEq)]
pub struct Album {
    pub id: AlbumId,
    pub name: String,
    pub album_artist_id: Option<ArtistId>,
    pub year: Option<i32>,
    pub genre: Option<String>,
    pub is_compilation: bool,
    pub track_count: u32,
    /// Path to a cached cover-art image, if one has been extracted/fetched.
    pub artwork_path: Option<String>,
}

impl Album {
    /// An exact copy.
    pub fn copy(&self) -> (r: Self)
        ensures
            r == *self,
    {
        Album {
            id: self.id,
            name: self.name.clone(),
            album_artist_id: self.album_artist_id,
            year: self.year,
            genre: copy_opt_string(&self.genre),
            is_compilation: self.is_compilation,
            track_count: self.track_count,
            artwork_path: copy_opt_string(&self.artwork_path),
        }
    }
}

/// An artist aggregate.
#[derive(Debug, Clone, PartialEq)]
pub struct Artist {
    pub id: ArtistId,
    pub name: String,
    pub album_count: u32,
    pub track_count: u32,
    /// Cached portrait on disk, if one has been downloaded.
    pub image_path: Option<String>,
    /// MusicBrainz artist MBID, when known.
    pub mbid: Option<String>,
}

impl Artist {
    /// An exact copy.
    pub fn copy(&self) -> (r: Self)
        ensures
            r == *self,
    {
        Artist {
            id: self.id,
            name: self.name.clone(),
            album_count: self.album_count,
            track_count: self.track_count,
            image_path: copy_opt_string(&self.image_path),
            mbid: copy_opt_string(&self.mbid),
        }
    }
}

/// A named group of tracks in a user-defined order.
#[derive(Debug, Clone, PartialEq)]
pub struct Playlist {
    pub id: i64,
    pub name: String,
    pub track_ids: Vec<TrackId>,
}

/// A track plus joined display fields for list UIs.
#[derive(Debug, Clone, PartialEq)]
pub struct TrackDisplay {
    pub track: Track,
    pub artist_name: String,
    pub album_name: String,
    pub artwork_path: Option<String>,
}

/// A name, or the given fallback when the name is empty.
pub open spec fn or_fallback(name: Seq<char>, fallback: Seq<char>) -> Seq<char> {
    if name.len() == 0 {
        fallback
    } else {
        name
    }
}

impl TrackDisplay {
    /// Human-readable artist, never empty.
    pub fn artist_label(&self) -> (r: &str)
        ensures
            r@ == or_fallback(self.artist_name@, "Unknown Artist"@),
    {
        if self.artist_name.as_str().is_empty() {
            "Unknown Artist"
        } else {
            self.artist_name.as_str()
        }
    }

    /// Human-readable album, never empty.
    pub fn album_label(&self) -> (r: &str)
        ensures
            r@ == or_fallback(self.album_name@, "Unknown Album"@),
    {
        if self.album_name.as_str().is_empty() {
            "Unknown Album"
        } else {
            self.album_name.as_str()
        }
    }
}

} // verus!

//! Metadata completeness checks.
//!
//! Reading and writing tags is file I/O and happens outside this crate; what
//! is decided here is which important tags are missing from a set of
//! metadata.

use vstd::prelude::*;

use crate::models::TrackMetadata;
use crate::lookup::{parse_i32, parse_i32_text, parse_u32, parse_u32_text};
use crate::text::{ascii_lower_seq, ascii_lowercase, chars_equal, chars_of, opt_text};

verus! {

/// A single field on [`TrackMetadata`], used to describe batch edits and to
/// report which fields are missing during validation.
#[derive(Debug, Clone, Copy, PartialEq, Eq, Structural, Hash)]
pub enum MetadataField {
    Title,
    Artist,
    Album,
    AlbumArtist,
    Composer,
    Genre,
    Year,
    TrackNumber,
    DiscNumber,
    Artwork,
}

/// The label shown for a field.
pub open spec fn field_label(f: MetadataField) -> Seq<char> {
    match f {
        MetadataField::Title => "Title"@,
        MetadataField::Artist => "Artist"@,
        MetadataField::Album => "Album"@,
        MetadataField::AlbumArtist => "Album Artist"@,
        MetadataField::Composer => "Composer"@,
        MetadataField::Genre => "Genre"@,
        MetadataField::Year => "Year"@,
        MetadataField::TrackNumber => "Track Number"@,
        MetadataField::DiscNumber => "Disc Number"@,
        MetadataField::Artwork => "Artwork"@,
    }
}

impl MetadataField {
    /// A short human-readable label for use in the UI.
    pub fn label(self) -> (r: &'static str)
        ensures
            r@ == field_label(self),
    {
        match self {
            MetadataField::Title => "Title",
            MetadataField::Artist => "Artist",
            MetadataField::Album => "Album",
            MetadataField::AlbumArtist => "Album Artist",
            MetadataField::Composer => "Composer",
            MetadataField::Genre => "Genre",
            MetadataField::Year => "Year",
            MetadataField::TrackNumber => "Track Number",
            MetadataField::DiscNumber => "Disc Number",
            MetadataField::Artwork => "Artwork",
        }
    }
}

/// A text tag that is absent or empty.
pub open spec fn is_blank(v: Option<String>) -> bool {
    match v {
        None => true,
        Some(s) => s@.len() == 0,
    }
}

/// `seq![f]` when `cond` holds, else the empty sequence.
pub open spec fn flag_if(cond: bool, f: MetadataField) -> Seq<MetadataField> {
    if cond {
        seq![f]
    } else {
        Seq::empty()
    }
}

/// The missing important fields of `meta`, in the order title, artist, album,
/// genre, year, track number.
pub open spec fn spec_missing_fields(meta: TrackMetadata) -> Seq<MetadataField> {
    flag_if(is_blank(meta.title), MetadataField::Title) + flag_if(
        is_blank(meta.artist),
        MetadataField::Artist,
    ) + flag_if(is_blank(meta.album), MetadataField::Album) + flag_if(
        is_blank(meta.genre),
        MetadataField::Genre,
    ) + flag_if(meta.year is None, MetadataField::Year) + flag_if(
        meta.track_number is None,
        MetadataField::TrackNumber,
    )
}

/// Whether a text tag is absent or empty.
pub fn blank(value: &Option<String>) -> (r: bool)
    ensures
        r == is_blank(*value),
{
    match value {
        None => true,
        Some(s) => s.as_str().is_empty(),
    }
}

fn push_if(out: &mut Vec<MetadataField>, cond: bool, f: MetadataField)
    ensures
        final(out)@ == old(out)@ + flag_if(cond, f),
{
    if cond {
        out.push(f);
    }
    assert(out@ =~= old(out)@ + flag_if(cond, f));
}

/// Report which important tags are missing from a set of metadata.
///
/// Artwork is not represented in [`TrackMetadata`] and therefore is never
/// reported here; the caller checks artwork separately against the cache.
pub fn missing_fields(meta: &TrackMetadata) -> (r: Vec<MetadataField>)
    ensures
        r@ == spec_missing_fields(*meta),
{
    let mut missing: Vec<MetadataField> = Vec::new();
    push_if(&mut missing, blank(&meta.title), MetadataField::Title);
    push_if(&mut missing, blank(&meta.artist), MetadataField::Artist);
    push_if(&mut missing, blank(&meta.album), MetadataField::Album);
    push_if(&mut missing, blank(&meta.genre), MetadataField::Genre);
    push_if(&mut missing, meta.year.is_none(), MetadataField::Year);
    push_if(&mut missing, meta.track_number.is_none(), MetadataField::TrackNumber);
    assert(missing@ =~= spec_missing_fields(*meta));
    missing
}

/// Whether a compilation flag's text marks a compilation: `1`, or `true` in
/// any ASCII case.
pub open spec fn is_compilation_text(v: Seq<char>) -> bool {
    v == "1"@ || ascii_lower_seq(v) == ascii_lower_seq("true"@)
}

/// Whether a track's compilation flag (if it has one) marks it as part of a
/// compilation.
pub fn compilation_flag(value: Option<&str>) -> (r: bool)
    ensures
        r == match value {
            Some(v) => is_compilation_text(v@),
            None => false,
        },
{
    match value {
        Some(v) => {
            let chars = chars_of(v);
            let lower = ascii_lowercase(&chars);
            let truth = ascii_lowercase(&chars_of("true"));
            chars_equal(&chars, &chars_of("1")) || chars_equal(&lower, &truth)
        },
        None => false,
    }
}

/// A text field of an edit form as a tag: absent when left empty.
pub open spec fn field_tag(text: Seq<char>) -> Option<Seq<char>> {
    if text.len() == 0 {
        None
    } else {
        Some(text)
    }
}

fn tag_of(text: &str) -> (r: Option<String>)
    ensures
        opt_text(r) == field_tag(text@),
{
    if text.is_empty() {
        None
    } else {
        Some(text.to_owned())
    }
}

/// The metadata an edit form stands for: every empty text field is absent,
/// and the year and track number are what their texts parse to (absent when
/// they do not parse).
pub fn edited_metadata(
    title: &str,
    artist: &str,
    album: &str,
    album_artist: &str,
    genre: &str,
    year: &str,
    track_number: &str,
) -> (r: TrackMetadata)
    ensures
        opt_text(r.title) == field_tag(title@),
        opt_text(r.artist) == field_tag(artist@),
        opt_text(r.album) == field_tag(album@),
        opt_text(r.album_artist) == field_tag(album_artist@),
        opt_text(r.genre) == field_tag(genre@),
        r.year == parse_i32(year@),
        r.track_number == parse_u32(track_number@),
        r.composer is None && r.track_total is None && r.disc_number is None && r.disc_total is None
            && !r.compilation && r.duration_ms is None && r.musicbrainz_track_id is None
            && r.musicbrainz_album_id is None,
{
    let mut meta = TrackMetadata::default();
    meta.title = tag_of(title);
    meta.artist = tag_of(artist);
    meta.album = tag_of(album);
    meta.album_artist = tag_of(album_artist);
    meta.genre = tag_of(genre);
    meta.year = parse_i32_text(year);
    meta.track_number = parse_u32_text(track_number);
    meta
}

} // verus!

//! Online metadata lookup via MusicBrainz and the Cover Art Archive.
//!
//! Lookups are intentionally conservative: callers decide whether to apply
//! results, and [`LookupResult::apply_missing_only`] never overwrites fields
//! that are already populated.
//!
//! The HTTP requests and the JSON decoding happen outside this crate. What is
//! decided here is which queries and URLs are sent, and what is made of the
//! decoded answers, which arrive as the plain records below.

use vstd::prelude::*;
use vstd::utf8::encode_utf8;

use crate::metadata::{blank, is_blank};
use crate::models::{copy_opt_string, TrackMetadata};
use crate::text::{chars_of, push_all, string_of};

verus! {

/// MusicBrainz web-service root.
pub const MB_BASE: &'static str = "https://musicbrainz.org/ws/2";

/// Cover Art Archive root.
pub const CAA_BASE: &'static str = "https://coverartarchive.org";

/// The `User-Agent` sent with every request.
pub const USER_AGENT: &'static str = "Cadence/0.1.0 (https://github.com/loafdaddy/Cadence-Music)";

/// A proposed fill-in for missing metadata fields.
#[derive(Debug, Clone, PartialEq)]
pub struct LookupResult {
    pub title: Option<String>,
    pub artist: Option<String>,
    pub album: Option<String>,
    pub album_artist: Option<String>,
    pub genre: Option<String>,
    pub year: Option<i32>,
    pub musicbrainz_track_id: Option<String>,
    pub musicbrainz_album_id: Option<String>,
    /// Direct URL to a front cover image, if Cover Art Archive has one.
    pub cover_art_url: Option<String>,
}

impl Default for LookupResult {
    fn default() -> (r: Self)
        ensures
            r.title is None && r.artist is None && r.album is None && r.album_artist is None
                && r.genre is None && r.year is None && r.musicbrainz_track_id is None
                && r.musicbrainz_album_id is None && r.cover_art_url is None,
    {
        LookupResult {
            title: None,
            artist: None,
            album: None,
            album_artist: None,
            genre: None,
            year: None,
            musicbrainz_track_id: None,
            musicbrainz_album_id: None,
            cover_art_url: None,
        }
    }
}

/// A text field after filling: kept unless blank, then the fetched value if
/// there is one.
pub open spec fn filled(dst: Option<String>, src: Option<String>) -> Option<String> {
    if is_blank(dst) && src is Some {
        src
    } else {
        dst
    }
}

/// `meta` with every blank field filled from the lookup result.
pub open spec fn spec_apply_missing(r: LookupResult, meta: TrackMetadata) -> TrackMetadata {
    TrackMetadata {
        title: filled(meta.title, r.title),
        artist: filled(meta.artist, r.artist),
        album: filled(meta.album, r.album),
        album_artist: filled(meta.album_artist, r.album_artist),
        genre: filled(meta.genre, r.genre),
        year: if meta.year is None {
            r.year
        } else {
            meta.year
        },
        musicbrainz_track_id: filled(meta.musicbrainz_track_id, r.musicbrainz_track_id),
        musicbrainz_album_id: filled(meta.musicbrainz_album_id, r.musicbrainz_album_id),
        ..meta
    }
}

/// A text field is missing: absent or empty.
pub open spec fn missing_text(v: Option<String>) -> bool {
    v is None || v->0@.len() == 0
}

/// What filling one text field does: a missing field takes the fetched
/// value when there is one; any other field keeps its value.
pub open spec fn fills_text(before: Option<String>, fetched: Option<String>, after: Option<String>) -> bool {
    &&& missing_text(before) && fetched is Some ==> after == fetched
    &&& !(missing_text(before) && fetched is Some) ==> after == before
}

/// Filling from a lookup fills only what is missing: every missing text
/// field and a missing year take the fetched value when the lookup has one,
/// every field already set keeps its value, and the fields a lookup does
/// not return (track and disc numbers, duration, compilation flag,
/// composer) are untouched.
pub proof fn law_fill_only_missing(r: LookupResult, meta: TrackMetadata)
    ensures
        fills_text(meta.title, r.title, spec_apply_missing(r, meta).title),
        fills_text(meta.artist, r.artist, spec_apply_missing(r, meta).artist),
        fills_text(meta.album, r.album, spec_apply_missing(r, meta).album),
        fills_text(meta.album_artist, r.album_artist, spec_apply_missing(r, meta).album_artist),
        fills_text(meta.genre, r.genre, spec_apply_missing(r, meta).genre),
        fills_text(
            meta.musicbrainz_track_id,
            r.musicbrainz_track_id,
            spec_apply_missing(r, meta).musicbrainz_track_id,
        ),
        fills_text(
            meta.musicbrainz_album_id,
            r.musicbrainz_album_id,
            spec_apply_missing(r, meta).musicbrainz_album_id,
        ),
        meta.year is None ==> spec_apply_missing(r, meta).year == r.year,
        meta.year is Some ==> spec_apply_missing(r, meta).year == meta.year,
        spec_apply_missing(r, meta).composer == meta.composer,
        spec_apply_missing(r, meta).track_number == meta.track_number,
        spec_apply_missing(r, meta).track_total == meta.track_total,
        spec_apply_missing(r, meta).disc_number == meta.disc_number,
        spec_apply_missing(r, meta).disc_total == meta.disc_total,
        spec_apply_missing(r, meta).compilation == meta.compilation,
        spec_apply_missing(r, meta).duration_ms == meta.duration_ms,
{
}

fn fill(dst: &mut Option<String>, src: &Option<String>)
    ensures
        *final(dst) == filled(*old(dst), *src),
{
    if blank(dst) {
        if let Some(v) = src {
            *dst = Some(v.clone());
        }
    }
}

impl LookupResult {
    /// Merge into `meta`, only filling fields that are currently blank.
    pub fn apply_missing_only(&self, meta: &mut TrackMetadata)
        ensures
            *final(meta) == spec_apply_missing(*self, *old(meta)),
    {
        fill(&mut meta.title, &self.title);
        fill(&mut meta.artist, &self.artist);
        fill(&mut meta.album, &self.album);
        fill(&mut meta.album_artist, &self.album_artist);
        fill(&mut meta.genre, &self.genre);
        if meta.year.is_none() {
            meta.year = self.year;
        }
        fill(&mut meta.musicbrainz_track_id, &self.musicbrainz_track_id);
        fill(&mut meta.musicbrainz_album_id, &self.musicbrainz_album_id);
    }
}

/// Filling never overwrites: every field that was already set keeps its
/// value, and filling twice with the same result changes nothing more.
pub proof fn law_apply_missing_preserves_and_settles(r: LookupResult, meta: TrackMetadata)
    ensures
        !is_blank(meta.title) ==> spec_apply_missing(r, meta).title == meta.title,
        !is_blank(meta.artist) ==> spec_apply_missing(r, meta).artist == meta.artist,
        !is_blank(meta.album) ==> spec_apply_missing(r, meta).album == meta.album,
        !is_blank(meta.album_artist) ==> spec_apply_missing(r, meta).album_artist
            == meta.album_artist,
        !is_blank(meta.genre) ==> spec_apply_missing(r, meta).genre == meta.genre,
        meta.year is Some ==> spec_apply_missing(r, meta).year == meta.year,
        spec_apply_missing(r, spec_apply_missing(r, meta)) == spec_apply_missing(r, meta),
{
}

// ---------------------------------------------------------------------------
// Query building
// ---------------------------------------------------------------------------

/// Characters that Lucene treats as syntax.
pub open spec fn is_lucene_special(c: char) -> bool {
    c == '\\' || c == '+' || c == '-' || c == '!' || c == '(' || c == ')' || c == ':' || c == '^'
        || c == '[' || c == ']' || c == '"' || c == '{' || c == '}' || c == '~' || c == '*' || c
        == '?' || c == '|' || c == '&' || c == '/'
}

/// `s` with a backslash before every Lucene special character.
pub open spec fn lucene_escaped(s: Seq<char>) -> Seq<char>
    decreases s.len(),
{
    if s.len() == 0 {
        Seq::empty()
    } else {
        lucene_escaped(s.drop_last()) + if is_lucene_special(s.last()) {
            seq!['\\', s.last()]
        } else {
            seq![s.last()]
        }
    }
}

fn push_escaped(out: &mut Vec<char>, input: &str)
    ensures
        final(out)@ == old(out)@ + lucene_escaped(input@),
{
    let s = chars_of(input);
    for i in 0..s.len()
        invariant
            s@ == input@,
            out@ == old(out)@ + lucene_escaped(s@.take(i as int)),
    {
        let ch = s[i];
        assert(s@.take(i + 1).drop_last() =~= s@.take(i as int));
        if ch == '\\' || ch == '+' || ch == '-' || ch == '!' || ch == '(' || ch == ')' || ch == ':'
            || ch == '^' || ch == '[' || ch == ']' || ch == '"' || ch == '{' || ch == '}' || ch
            == '~' || ch == '*' || ch == '?' || ch == '|' || ch == '&' || ch == '/' {
            out.push('\\');
            out.push(ch);
        } else {
            out.push(ch);
        }
        assert(out@ =~= old(out)@ + lucene_escaped(s@.take(i + 1)));
    }
    assert(s@.take(s@.len() as int) =~= s@);
}

/// Escape Lucene query syntax in free text.
pub fn escape_lucene(input: &str) -> (r: String)
    ensures
        r@ == lucene_escaped(input@),
{
    let mut out: Vec<char> = Vec::new();
    push_escaped(&mut out, input);
    assert(out@ =~= lucene_escaped(input@));
    string_of(&out)
}

/// `<field>:"<escaped value>"`.
pub open spec fn quoted_clause(field: Seq<char>, value: Seq<char>) -> Seq<char> {
    field + seq![':', '"'] + lucene_escaped(value) + seq!['"']
}

fn push_clause(out: &mut Vec<char>, field: &str, value: &str)
    ensures
        final(out)@ == old(out)@ + quoted_clause(field@, value@),
{
    push_all(out, &chars_of(field));
    out.push(':');
    out.push('"');
    push_escaped(out, value);
    out.push('"');
    assert(out@ =~= old(out)@ + quoted_clause(field@, value@));
}

/// The Lucene query for a recording: title and artist, and the album when
/// one is given and not empty.
pub open spec fn recording_query_spec(
    artist: Seq<char>,
    title: Seq<char>,
    album: Option<Seq<char>>,
) -> Seq<char> {
    let base = quoted_clause("recording"@, title) + " AND "@ + quoted_clause("artist"@, artist);
    match album {
        Some(a) => if a.len() > 0 {
            base + " AND "@ + quoted_clause("release"@, a)
        } else {
            base
        },
        None => base,
    }
}

/// Build the MusicBrainz recording search query.
pub fn recording_query(artist: &str, title: &str, album: Option<&str>) -> (r: String)
    ensures
        r@ == recording_query_spec(
            artist@,
            title@,
            match album {
                Some(a) => Some(a@),
                None => None,
            },
        ),
{
    let mut out: Vec<char> = Vec::new();
    push_clause(&mut out, "recording", title);
    push_all(&mut out, &chars_of(" AND "));
    push_clause(&mut out, "artist", artist);
    if let Some(a) = album {
        if !a.is_empty() {
            push_all(&mut out, &chars_of(" AND "));
            push_clause(&mut out, "release", a);
        }
    }
    assert(out@ =~= recording_query_spec(
        artist@,
        title@,
        match album {
            Some(a) => Some(a@),
            None => None,
        },
    ));
    string_of(&out)
}

/// The Lucene query for an artist by name.
pub fn artist_query(name: &str) -> (r: String)
    ensures
        r@ == quoted_clause("artist"@, name@),
{
    let mut out: Vec<char> = Vec::new();
    push_clause(&mut out, "artist", name);
    assert(out@ =~= quoted_clause("artist"@, name@));
    string_of(&out)
}

// ---------------------------------------------------------------------------
// URLs
// ---------------------------------------------------------------------------

/// Bytes that percent-encoding leaves as they are: ASCII letters and digits,
/// `-`, `.`, `_` and `~`.
pub open spec fn url_safe(b: u8) -> bool {
    (48 <= b <= 57) || (65 <= b <= 90) || (97 <= b <= 122) || b == 45 || b == 46 || b == 95 || b
        == 126
}

/// The upper-case hexadecimal digit of `d < 16`.
pub open spec fn hex_upper(d: u8) -> char {
    if d < 10 {
        (48 + d) as char
    } else {
        (55 + d) as char
    }
}

/// One byte, percent-encoded.
pub open spec fn encode_byte(b: u8) -> Seq<char> {
    if url_safe(b) {
        seq![b as char]
    } else {
        seq!['%', hex_upper(b / 16), hex_upper(b % 16)]
    }
}

/// Bytes, percent-encoded one after the other.
pub open spec fn percent_encoded(bytes: Seq<u8>) -> Seq<char>
    decreases bytes.len(),
{
    if bytes.len() == 0 {
        Seq::empty()
    } else {
        percent_encoded(bytes.drop_last()) + encode_byte(bytes.last())
    }
}

/// Calls `urlencoding::encode`, which percent-encodes every byte of the UTF-8
/// encoding of `s` except ASCII letters, digits, `-`, `.`, `_` and `~`, with
/// upper-case hexadecimal digits. The contract states exactly that.
#[verifier::external_body]
fn url_encode(s: &str) -> (r: String)
    ensures
        r@ == percent_encoded(encode_utf8(s@)),
{
    urlencoding::encode(s).into_owned()
}

/// The MusicBrainz recording search URL for a query.
pub fn recording_search_url(query: &str) -> (r: String)
    ensures
        r@ == MB_BASE@ + "/recording?query="@ + percent_encoded(encode_utf8(query@))
            + "&fmt=json&limit=1"@,
{
    let mut out: Vec<char> = chars_of(MB_BASE);
    push_all(&mut out, &chars_of("/recording?query="));
    push_all(&mut out, &chars_of(url_encode(query).as_str()));
    push_all(&mut out, &chars_of("&fmt=json&limit=1"));
    string_of(&out)
}

/// The MusicBrainz artist search URL for a query.
pub fn artist_search_url(query: &str) -> (r: String)
    ensures
        r@ == MB_BASE@ + "/artist?query="@ + percent_encoded(encode_utf8(query@))
            + "&fmt=json&limit=1"@,
{
    let mut out: Vec<char> = chars_of(MB_BASE);
    push_all(&mut out, &chars_of("/artist?query="));
    push_all(&mut out, &chars_of(url_encode(query).as_str()));
    push_all(&mut out, &chars_of("&fmt=json&limit=1"));
    string_of(&out)
}

/// The MusicBrainz URL of an artist's URL relationships.
pub fn artist_relations_url(mbid: &str) -> (r: String)
    ensures
        r@ == MB_BASE@ + "/artist/"@ + mbid@ + "?inc=url-rels&fmt=json"@,
{
    let mut out: Vec<char> = chars_of(MB_BASE);
    push_all(&mut out, &chars_of("/artist/"));
    push_all(&mut out, &chars_of(mbid));
    push_all(&mut out, &chars_of("?inc=url-rels&fmt=json"));
    string_of(&out)
}

/// The Cover Art Archive URL of a release.
pub fn cover_art_release_url(release_mbid: &str) -> (r: String)
    ensures
        r@ == CAA_BASE@ + "/release/"@ + release_mbid@,
{
    let mut out: Vec<char> = chars_of(CAA_BASE);
    push_all(&mut out, &chars_of("/release/"));
    push_all(&mut out, &chars_of(release_mbid));
    string_of(&out)
}

/// The Wikidata entity URL of an item.
pub fn wikidata_entity_url(qid: &str) -> (r: String)
    ensures
        r@ == "https://www.wikidata.org/wiki/Special:EntityData/"@ + qid@ + ".json"@,
{
    let mut out: Vec<char> = chars_of("https://www.wikidata.org/wiki/Special:EntityData/");
    push_all(&mut out, &chars_of(qid));
    push_all(&mut out, &chars_of(".json"));
    string_of(&out)
}

/// The Wikimedia Commons thumbnail URL of a file.
pub fn commons_image_url(filename: &str) -> (r: String)
    ensures
        r@ == "https://commons.wikimedia.org/wiki/Special:FilePath/"@ + percent_encoded(
            encode_utf8(filename@),
        ) + "?width=512"@,
{
    let mut out: Vec<char> = chars_of("https://commons.wikimedia.org/wiki/Special:FilePath/");
    push_all(&mut out, &chars_of(url_encode(filename).as_str()));
    push_all(&mut out, &chars_of("?width=512"));
    string_of(&out)
}

// ---------------------------------------------------------------------------
// Interpreting answers
// ---------------------------------------------------------------------------

/// A release of a MusicBrainz recording.
#[derive(Debug, Clone, PartialEq)]
pub struct MbRelease {
    pub id: String,
    pub title: Option<String>,
    pub date: Option<String>,
}

/// A recording of a MusicBrainz search answer.
#[derive(Debug, Clone, PartialEq)]
pub struct MbRecording {
    pub id: String,
    pub title: String,
    /// The names of the artist credit, in order.
    pub artist_credit: Option<Vec<String>>,
    pub releases: Option<Vec<MbRelease>>,
}

/// The first release of a recording, if any.
pub open spec fn first_release(rec: MbRecording) -> Option<MbRelease> {
    match rec.releases {
        Some(rs) => if rs@.len() > 0 {
            Some(rs@[0])
        } else {
            None
        },
        None => None,
    }
}

/// The first credited artist name of a recording, if any.
pub open spec fn first_artist(rec: MbRecording) -> Option<String> {
    match rec.artist_credit {
        Some(cs) => if cs@.len() > 0 {
            Some(cs@[0])
        } else {
            None
        },
        None => None,
    }
}

/// An ASCII decimal digit.
pub open spec fn is_digit(c: char) -> bool {
    '0' <= c && c <= '9'
}

/// The value of a run of ASCII digits.
pub open spec fn digits_value(s: Seq<char>) -> int
    decreases s.len(),
{
    if s.len() == 0 {
        0
    } else {
        digits_value(s.drop_last()) * 10 + (s.last() as int - 48)
    }
}

/// The length of a leading sign.
pub open spec fn sign_len(s: Seq<char>) -> int {
    if s.len() > 0 && (s[0] == '-' || s[0] == '+') {
        1
    } else {
        0
    }
}

/// Every character is an ASCII digit.
pub open spec fn all_digits(s: Seq<char>) -> bool {
    forall|i: int| 0 <= i < s.len() ==> is_digit(#[trigger] s[i])
}

/// What `str::parse::<i32>` gives for `s`: an optional sign followed by at
/// least one digit, within the range of `i32`.
pub open spec fn parse_i32(s: Seq<char>) -> Option<i32> {
    let digits = s.skip(sign_len(s));
    let v = if s.len() > 0 && s[0] == '-' {
        -digits_value(digits)
    } else {
        digits_value(digits)
    };
    if digits.len() > 0 && all_digits(digits) && i32::MIN <= v <= i32::MAX {
        Some(v as i32)
    } else {
        None
    }
}

/// The year of a release date: its first four characters read as a number,
/// when the date has at least four characters and those are ASCII.
pub open spec fn year_of_date(date: Seq<char>) -> Option<i32> {
    if date.len() >= 4 && (forall|i: int| 0 <= i < 4 ==> (#[trigger] date[i]) < '\u{80}') {
        parse_i32(date.take(4))
    } else {
        None
    }
}

proof fn lemma_digits_bound(s: Seq<char>)
    requires
        forall|i: int| 0 <= i < s.len() ==> is_digit(#[trigger] s[i]),
    ensures
        0 <= digits_value(s),
        s.len() <= 1 ==> digits_value(s) < 10,
        s.len() <= 2 ==> digits_value(s) < 100,
        s.len() <= 3 ==> digits_value(s) < 1000,
        s.len() <= 4 ==> digits_value(s) < 10000,
    decreases s.len(),
{
    if s.len() > 0 {
        let p = s.drop_last();
        assert(forall|i: int| 0 <= i < p.len() ==> p[i] == s[i]);
        lemma_digits_bound(p);
        let d = s.last() as int - 48;
        assert(is_digit(s[s.len() - 1]));
        assert(0 <= d <= 9);
        let v = digits_value(p);
        assert(digits_value(s) == v * 10 + d);
        assert(0 <= v * 10 + d) by (nonlinear_arith)
            requires
                0 <= v,
                0 <= d,
        ;
        if s.len() <= 4 {
            assert(v * 10 + d < 10000) by (nonlinear_arith)
                requires
                    v < 1000,
                    d <= 9,
            ;
        }
        if s.len() <= 3 {
            assert(v * 10 + d < 1000) by (nonlinear_arith)
                requires
                    v < 100,
                    d <= 9,
            ;
        }
        if s.len() <= 2 {
            assert(v * 10 + d < 100) by (nonlinear_arith)
                requires
                    v < 10,
                    d <= 9,
            ;
        }
        if s.len() <= 1 {
            assert(v == 0);
        }
    }
}

/// The year a MusicBrainz release date starts with (`"1959-08-17"` gives
/// 1959).
pub fn year_from_date(date: &str) -> (r: Option<i32>)
    ensures
        r == year_of_date(date@),
{
    let cs = chars_of(date);
    if cs.len() < 4 {
        return None;
    }
    let mut k: usize = 0;
    while k < 4
        invariant
            cs@ == date@,
            cs@.len() >= 4,
            k <= 4,
            forall|i: int| 0 <= i < k ==> (#[trigger] cs@[i]) < '\u{80}',
        decreases 4 - k,
    {
        if cs[k] >= '\u{80}' {
            return None;
        }
        k = k + 1;
    }
    let ghost head = cs@.take(4);
    let neg = cs[0] == '-';
    let start: usize = if cs[0] == '-' || cs[0] == '+' {
        1
    } else {
        0
    };
    let ghost digits = head.skip(start as int);
    assert(start == sign_len(head));
    if start == 4 {
        return None;
    }
    let mut v: i32 = 0;
    let mut j: usize = start;
    while j < 4
        invariant
            cs@ == date@,
            cs@.len() >= 4,
            head == cs@.take(4),
            digits == head.skip(start as int),
            start == sign_len(head),
            neg == (head[0] == '-'),
            start <= j <= 4,
            start <= 1,
            forall|i: int| 0 <= i < 4 ==> (#[trigger] cs@[i]) < '\u{80}',
            forall|i: int| start <= i < j ==> is_digit(#[trigger] cs@[i]),
            v as int == digits_value(cs@.subrange(start as int, j as int)),
            0 <= v < 10000,
        decreases 4 - j,
    {
        let c = cs[j];
        if !('0' <= c && c <= '9') {
            assert(digits[j - start] == cs@[j as int]);
            assert(!is_digit(digits[j - start]));
            assert(!all_digits(digits));
            assert(head.len() >= 4 && (forall|i: int| 0 <= i < 4 ==> (#[trigger] date@[i]) < '\u{80}'));
            assert(date@.take(4) == head);
            assert(head.skip(sign_len(head)) == digits);
            assert(parse_i32(head) is None);
            assert(year_of_date(date@) == parse_i32(head));
            return None;
        }
        let d: i32 = (c as u32 - 48) as i32;
        let ghost sub = cs@.subrange(start as int, j + 1);
        assert(sub.drop_last() =~= cs@.subrange(start as int, j as int));
        proof {
            lemma_digits_bound(sub);
        }
        v = v * 10 + d;
        j = j + 1;
    }
    assert(cs@.subrange(start as int, 4) =~= digits);
    let r = if neg {
        -v
    } else {
        v
    };
    Some(r)
}

/// What `str::parse::<u32>` gives for `s`: an optional `+` followed by at
/// least one digit, within the range of `u32`.
pub open spec fn parse_u32(s: Seq<char>) -> Option<u32> {
    let lead: int = if s.len() > 0 && s[0] == '+' {
        1
    } else {
        0
    };
    let digits = s.skip(lead);
    if digits.len() > 0 && all_digits(digits) && digits_value(digits) <= u32::MAX {
        Some(digits_value(digits) as u32)
    } else {
        None
    }
}

proof fn lemma_digits_prefix(t: Seq<char>, k: int)
    requires
        all_digits(t),
        0 <= k <= t.len(),
    ensures
        digits_value(t.take(k)) <= digits_value(t),
    decreases t.len(),
{
    if k < t.len() {
        let p = t.drop_last();
        assert(all_digits(p)) by {
            assert forall|i: int| 0 <= i < p.len() implies is_digit(#[trigger] p[i]) by {
                assert(p[i] == t[i]);
            }
        }
        lemma_digits_prefix(p, k);
        assert(p.take(k) =~= t.take(k));
        lemma_digits_bound(p);
        assert(is_digit(t[t.len() - 1]));
    } else {
        assert(t.take(k) =~= t);
    }
}

/// The value of the digits of `s` from `start` on, when all of them are
/// digits and the value is at most `cap`.
fn digits_up_to(s: &Vec<char>, start: usize, cap: u64) -> (r: Option<u64>)
    requires
        start <= s@.len(),
        cap <= 0x1_0000_0000,
    ensures
        match r {
            Some(v) => all_digits(s@.skip(start as int)) && v == digits_value(s@.skip(start as int))
                && v <= cap,
            None => !all_digits(s@.skip(start as int)) || digits_value(s@.skip(start as int)) > cap,
        },
{
    let ghost t = s@.skip(start as int);
    let mut v: u64 = 0;
    let mut i: usize = start;
    while i < s.len()
        invariant
            start <= i <= s@.len(),
            t == s@.skip(start as int),
            cap <= 0x1_0000_0000,
            all_digits(t.take(i - start)),
            v == digits_value(t.take(i - start)),
            v <= cap,
        decreases s@.len() - i,
    {
        let c = s[i];
        assert(t[i - start] == c);
        if !('0' <= c && c <= '9') {
            return None;
        }
        let ghost pre = t.take(i - start);
        let ghost next = t.take(i - start + 1);
        assert(next.drop_last() =~= pre);
        assert(all_digits(next)) by {
            assert forall|j: int| 0 <= j < next.len() implies is_digit(#[trigger] next[j]) by {
                if j < pre.len() {
                    assert(next[j] == pre[j]);
                }
            }
        }
        v = v * 10 + (c as u64 - 48);
        i = i + 1;
        if v > cap {
            proof {
                if all_digits(t) {
                    lemma_digits_prefix(t, i - start);
                }
            }
            return None;
        }
    }
    assert(t.take(i - start) =~= t);
    Some(v)
}

/// Parse a signed decimal number as `str::parse::<i32>` does.
pub fn parse_i32_text(text: &str) -> (r: Option<i32>)
    ensures
        r == parse_i32(text@),
{
    let s = chars_of(text);
    let neg = s.len() > 0 && s[0] == '-';
    let start: usize = if s.len() > 0 && (s[0] == '-' || s[0] == '+') {
        1
    } else {
        0
    };
    assert(start == sign_len(s@));
    if start >= s.len() {
        return None;
    }
    match digits_up_to(&s, start, 0x8000_0000) {
        None => None,
        Some(v) => {
            if neg {
                let r: i64 = -(v as i64);
                Some(r as i32)
            } else if v <= 0x7fff_ffff {
                Some(v as i32)
            } else {
                None
            }
        },
    }
}

/// Parse an unsigned decimal number as `str::parse::<u32>` does.
pub fn parse_u32_text(text: &str) -> (r: Option<u32>)
    ensures
        r == parse_u32(text@),
{
    let s = chars_of(text);
    let start: usize = if s.len() > 0 && s[0] == '+' {
        1
    } else {
        0
    };
    if start >= s.len() {
        return None;
    }
    match digits_up_to(&s, start, 0xffff_ffff) {
        None => None,
        Some(v) => Some(v as u32),
    }
}

/// The lookup result made of a recording and the cover art URL found for its
/// first release.
pub open spec fn recording_result_spec(rec: MbRecording, cover_art_url: Option<String>) -> LookupResult {
    let release = first_release(rec);
    LookupResult {
        title: Some(rec.title),
        artist: first_artist(rec),
        album: match release {
            Some(r) => r.title,
            None => None,
        },
        album_artist: first_artist(rec),
        genre: None,
        year: match release {
            Some(r) => match r.date {
                Some(d) => year_of_date(d@),
                None => None,
            },
            None => None,
        },
        musicbrainz_track_id: Some(rec.id),
        musicbrainz_album_id: match release {
            Some(r) => Some(r.id),
            None => None,
        },
        cover_art_url,
    }
}

/// The release whose cover art is looked up for a recording: the id of its
/// first release.
pub fn recording_album_id(rec: &MbRecording) -> (r: Option<String>)
    ensures
        r == match first_release(*rec) {
            Some(rel) => Some(rel.id),
            None => None,
        },
{
    match &rec.releases {
        Some(rs) => if rs.len() > 0 {
            Some(rs[0].id.clone())
        } else {
            None
        },
        None => None,
    }
}

/// What a recording search answer proposes, given the cover art URL found for
/// the first release (if any).
pub fn recording_result(rec: &MbRecording, cover_art_url: Option<String>) -> (r: LookupResult)
    ensures
        r == recording_result_spec(*rec, cover_art_url),
{
    let artist_name: Option<String> = match &rec.artist_credit {
        Some(cs) => if cs.len() > 0 {
            Some(cs[0].clone())
        } else {
            None
        },
        None => None,
    };
    let (album, year, album_id) = match &rec.releases {
        Some(rs) => if rs.len() > 0 {
            let rel = &rs[0];
            let year = match &rel.date {
                Some(d) => year_from_date(d.as_str()),
                None => None,
            };
            (copy_opt_string(&rel.title), year, Some(rel.id.clone()))
        } else {
            (None, None, None)
        },
        None => (None, None, None),
    };
    LookupResult {
        title: Some(rec.title.clone()),
        artist: copy_opt_string(&artist_name),
        album,
        album_artist: artist_name,
        genre: None,
        year,
        musicbrainz_track_id: Some(rec.id.clone()),
        musicbrainz_album_id: album_id,
        cover_art_url,
    }
}

/// An image listed by the Cover Art Archive for a release.
#[derive(Debug, Clone, PartialEq)]
pub struct CaaImage {
    pub image: String,
    pub front: bool,
}

/// The first front image of a release, if any.
pub open spec fn front_image_spec(images: Seq<CaaImage>) -> Option<String>
    decreases images.len(),
{
    if images.len() == 0 {
        None
    } else if images[0].front {
        Some(images[0].image)
    } else {
        front_image_spec(images.drop_first())
    }
}

/// The URL of the first front image of a release.
pub fn front_image(images: &Vec<CaaImage>) -> (r: Option<String>)
    ensures
        r == front_image_spec(images@),
{
    let mut i: usize = 0;
    assert(images@.skip(0) =~= images@);
    while i < images.len()
        invariant
            i <= images@.len(),
            front_image_spec(images@) == front_image_spec(images@.skip(i as int)),
        decreases images.len() - i,
    {
        assert(images@.skip(i as int).drop_first() =~= images@.skip(i + 1));
        if images[i].front {
            return Some(images[i].image.clone());
        }
        i = i + 1;
    }
    None
}

/// A URL relationship of a MusicBrainz artist.
#[derive(Debug, Clone, PartialEq)]
pub struct MbRelation {
    pub rel_type: Option<String>,
    pub resource: Option<String>,
}

/// A portrait for an artist, as found by [`ArtistImageStep`].
#[derive(Debug, Clone, PartialEq, Eq)]
pub struct ArtistImage {
    pub mbid: String,
    pub image_url: String,
}

/// ASCII case-insensitive equality (`str::eq_ignore_ascii_case`).
pub open spec fn eq_ignore_case(a: Seq<char>, b: Seq<char>) -> bool {
    crate::text::ascii_lower_seq(a) == crate::text::ascii_lower_seq(b)
}

/// The text after the last `/` (all of it when there is none), as
/// `str::rsplit('/').next()` gives it.
pub open spec fn last_segment(s: Seq<char>) -> Seq<char>
    decreases s.len(),
{
    if s.len() == 0 || s.last() == '/' {
        Seq::empty()
    } else {
        last_segment(s.drop_last()).push(s.last())
    }
}

/// The relation's kind, or empty when it has none.
pub open spec fn kind_of(rel: MbRelation) -> Seq<char> {
    match rel.rel_type {
        Some(t) => t@,
        None => Seq::empty(),
    }
}

/// The image and Wikidata item named by a list of relations: for each, the
/// last relation with a resource that is an image, resp. a Wikidata item
/// whose id starts with `Q`.
pub open spec fn relations_found(rels: Seq<MbRelation>) -> (Option<Seq<char>>, Option<Seq<char>>)
    decreases rels.len(),
{
    if rels.len() == 0 {
        (None, None)
    } else {
        let (img, wd) = relations_found(rels.drop_last());
        let rel = rels.last();
        match rel.resource {
            None => (img, wd),
            Some(res) => if eq_ignore_case(kind_of(rel), "image"@) {
                (Some(res@), wd)
            } else if eq_ignore_case(kind_of(rel), "wikidata"@) {
                let qid = last_segment(res@);
                if qid.len() > 0 && qid[0] == 'Q' {
                    (img, Some(qid))
                } else {
                    (img, wd)
                }
            } else {
                (img, wd)
            },
        }
    }
}

/// The next step of finding an artist portrait.
#[derive(Debug, Clone, PartialEq)]
pub enum ArtistImageStep {
    /// A portrait was found.
    Found(ArtistImage),
    /// The portrait is the `P18` image of this Wikidata item.
    AskWikidata(String),
    /// No portrait can be found.
    NotFound,
}

fn eq_ignore_ascii_case_lit(a: &str, lit: &str) -> (r: bool)
    ensures
        r == eq_ignore_case(a@, lit@),
{
    let x = crate::text::ascii_lowercase(&chars_of(a));
    let y = crate::text::ascii_lowercase(&chars_of(lit));
    crate::text::chars_equal(&x, &y)
}

fn last_path_segment(s: &str) -> (r: Vec<char>)
    ensures
        r@ == last_segment(s@),
{
    let cs = chars_of(s);
    let mut start: usize = cs.len();
    assert(cs@.take(cs@.len() as int) =~= cs@);
    assert(cs@.subrange(cs@.len() as int, cs@.len() as int) =~= Seq::<char>::empty());
    assert(last_segment(s@) =~= last_segment(cs@.take(start as int)) + cs@.subrange(
        start as int,
        cs@.len() as int,
    ));
    while start > 0 && cs[start - 1] != '/'
        invariant
            cs@ == s@,
            start <= cs@.len(),
            last_segment(s@) == last_segment(cs@.take(start as int)) + cs@.subrange(
                start as int,
                cs@.len() as int,
            ),
        decreases start,
    {
        let ghost pre = cs@.take(start as int);
        assert(pre.drop_last() =~= cs@.take(start - 1));
        assert(cs@.subrange(start - 1, cs@.len() as int) =~= seq![cs@[start - 1]]
            + cs@.subrange(start as int, cs@.len() as int));
        assert(last_segment(pre) == last_segment(cs@.take(start - 1)).push(cs@[start - 1]));
        assert(last_segment(cs@.take(start - 1)).push(cs@[start - 1]) + cs@.subrange(
            start as int,
            cs@.len() as int,
        ) =~= last_segment(cs@.take(start - 1)) + cs@.subrange(start - 1, cs@.len() as int));
        start = start - 1;
    }
    assert(cs@.take(cs@.len() as int) =~= cs@);
    assert(last_segment(cs@.take(start as int)) =~= Seq::<char>::empty());
    let mut out: Vec<char> = Vec::new();
    for k in start..cs.len()
        invariant
            cs@ == s@,
            start <= cs@.len(),
            out@ == cs@.subrange(start as int, k as int),
    {
        out.push(cs[k]);
        assert(out@ =~= cs@.subrange(start as int, k + 1));
    }
    assert(last_segment(s@) =~= out@);
    out
}

/// Scan an artist's URL relationships for a portrait or a Wikidata item.
pub fn scan_relations(rels: &Vec<MbRelation>) -> (r: (Option<String>, Option<String>))
    ensures
        (match r.0 {
            Some(s) => Some(s@),
            None => None,
        }, match r.1 {
            Some(s) => Some(s@),
            None => None,
        }) == relations_found(rels@),
{
    let mut direct_image: Option<String> = None;
    let mut wikidata_id: Option<String> = None;
    for i in 0..rels.len()
        invariant
            (match direct_image {
                Some(s) => Some(s@),
                None => None,
            }, match wikidata_id {
                Some(s) => Some(s@),
                None => None,
            }) == relations_found(rels@.take(i as int)),
    {
        assert(rels@.take(i + 1).drop_last() =~= rels@.take(i as int));
        let rel = &rels[i];
        if let Some(resource) = &rel.resource {
            let kind: &str = match &rel.rel_type {
                Some(t) => t.as_str(),
                None => "",
            };
            proof {
                reveal_strlit("");
            }
            assert(kind@ == kind_of(*rel));
            if eq_ignore_ascii_case_lit(kind, "image") {
                direct_image = Some(resource.clone());
            } else if eq_ignore_ascii_case_lit(kind, "wikidata") {
                let qid = last_path_segment(resource.as_str());
                if qid.len() > 0 && qid[0] == 'Q' {
                    wikidata_id = Some(string_of(&qid));
                }
            }
        }
    }
    assert(rels@.take(rels@.len() as int) =~= rels@);
    (direct_image, wikidata_id)
}

/// What to do after reading an artist's URL relationships: a direct image
/// wins; otherwise the Wikidata item is asked for its image.
pub fn artist_image_step(mbid: &str, rels: &Vec<MbRelation>) -> (r: ArtistImageStep)
    ensures
        match relations_found(rels@) {
            (Some(img), _) => r matches ArtistImageStep::Found(a) && a.mbid@ == mbid@
                && a.image_url@ == img,
            (None, Some(q)) => r matches ArtistImageStep::AskWikidata(id) && id@ == q,
            (None, None) => r is NotFound,
        },
{
    let (direct, wikidata) = scan_relations(rels);
    match direct {
        Some(image_url) => ArtistImageStep::Found(
            ArtistImage { mbid: string_of(&chars_of(mbid)), image_url },
        ),
        None => match wikidata {
            Some(qid) => ArtistImageStep::AskWikidata(qid),
            None => ArtistImageStep::NotFound,
        },
    }
}

/// The portrait named by a Wikidata `P18` file name, if the item has one.
pub fn commons_portrait(mbid: &str, p18_filename: Option<&str>) -> (r: Option<ArtistImage>)
    ensures
        match p18_filename {
            Some(f) => r matches Some(a) && a.mbid@ == mbid@ && a.image_url@
                == "https://commons.wikimedia.org/wiki/Special:FilePath/"@ + percent_encoded(
                encode_utf8(f@),
            ) + "?width=512"@,
            None => r is None,
        },
{
    match p18_filename {
        Some(f) => Some(
            ArtistImage { mbid: string_of(&chars_of(mbid)), image_url: commons_image_url(f) },
        ),
        None => None,
    }
}

} // verus!

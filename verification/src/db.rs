//! The decisions of the library database: sort orders, search queries,
//! rescan checks, how a scanned file is named in the library, and which
//! schema migration runs next.
//!
//! The SQLite connection itself and every statement it runs live outside
//! this crate.

use vstd::prelude::*;

use crate::models::TrackMetadata;
use crate::paths::{path_file_stem, spec_path_file_stem};
use crate::text::{
    chars_of, join_with, push_all, seq_join, split_whitespace, string_of, views, ws_words,
};

verus! {

/// Sort orders for the songs view.
#[derive(Debug, Clone, Copy, PartialEq, Eq, Structural)]
pub enum SongSort {
    TitleAsc,
    ArtistAsc,
    AlbumAsc,
    RecentlyAdded,
    PlayCountDesc,
}

/// The SQL `ORDER BY` clause of a sort order.
pub open spec fn order_clause_of(s: SongSort) -> Seq<char> {
    match s {
        SongSort::TitleAsc => "t.title COLLATE NOCASE ASC"@,
        SongSort::ArtistAsc => "ar.name COLLATE NOCASE ASC, t.title COLLATE NOCASE ASC"@,
        SongSort::AlbumAsc => "al.name COLLATE NOCASE ASC, t.disc_number, t.track_number"@,
        SongSort::RecentlyAdded => "t.added_at DESC, t.id DESC"@,
        SongSort::PlayCountDesc => "t.play_count DESC, t.title COLLATE NOCASE ASC"@,
    }
}

/// Whether the first key of an `ORDER BY` clause sorts descending: ` DESC`
/// occurs before any `,`.
pub open spec fn first_key_descending(c: Seq<char>) -> bool {
    exists|i: int| #[trigger] desc_at(c, i) && forall|j: int| 0 <= j < i ==> c[j] != ','
}

/// ` DESC` occurs in `c` at position `i`.
pub open spec fn desc_at(c: Seq<char>, i: int) -> bool {
    0 <= i && i + 5 <= c.len() && c.subrange(i, i + 5) == " DESC"@
}

/// Whether a sort order is named as going from smallest to largest.
pub open spec fn named_ascending(s: SongSort) -> bool {
    s is TitleAsc || s is ArtistAsc || s is AlbumAsc
}

/// The column a sort order's name says it sorts by first.
pub open spec fn named_column(s: SongSort) -> Seq<char> {
    match s {
        SongSort::TitleAsc => "t.title"@,
        SongSort::ArtistAsc => "ar.name"@,
        SongSort::AlbumAsc => "al.name"@,
        SongSort::RecentlyAdded => "t.added_at"@,
        SongSort::PlayCountDesc => "t.play_count"@,
    }
}

/// No key of an `ORDER BY` clause sorts descending.
pub open spec fn no_descending_key(c: Seq<char>) -> bool {
    forall|i: int| !#[trigger] desc_at(c, i)
}

proof fn lemma_no_desc(c: Seq<char>)
    requires
        forall|i: int| 0 <= i < c.len() ==> #[trigger] c[i] != 'D',
    ensures
        !first_key_descending(c),
        no_descending_key(c),
{
    reveal_strlit(" DESC");
    assert forall|i: int| !#[trigger] desc_at(c, i) by {
        if desc_at(c, i) {
            assert(c.subrange(i, i + 5)[1] == 'D');
            assert(c[i + 1] == 'D');
        }
    }
}

/// Every sort order sorts first by the column its name says, and in the
/// direction its name says: the ascending orders (by title, artist, album)
/// list smallest first, with no key at all sorting descending; the others
/// (recently added, play count) list largest first.
pub proof fn law_sort_follows_its_name(s: SongSort)
    ensures
        first_key_descending(order_clause_of(s)) <==> !named_ascending(s),
        named_ascending(s) ==> no_descending_key(order_clause_of(s)),
        order_clause_of(s).len() >= named_column(s).len(),
        order_clause_of(s).take(named_column(s).len() as int) == named_column(s),
{
    reveal_strlit(" DESC");
    match s {
        SongSort::TitleAsc => {
            let c = "t.title COLLATE NOCASE ASC"@;
            reveal_strlit("t.title COLLATE NOCASE ASC");
            reveal_strlit("t.title");
            assert forall|i: int| 0 <= i < c.len() implies #[trigger] c[i] != 'D' by {}
            lemma_no_desc(c);
            assert(c.take(7) =~= "t.title"@);
        },
        SongSort::ArtistAsc => {
            let c = "ar.name COLLATE NOCASE ASC, t.title COLLATE NOCASE ASC"@;
            reveal_strlit("ar.name COLLATE NOCASE ASC, t.title COLLATE NOCASE ASC");
            reveal_strlit("ar.name");
            assert forall|i: int| 0 <= i < c.len() implies #[trigger] c[i] != 'D' by {}
            lemma_no_desc(c);
            assert(c.take(7) =~= "ar.name"@);
        },
        SongSort::AlbumAsc => {
            let c = "al.name COLLATE NOCASE ASC, t.disc_number, t.track_number"@;
            reveal_strlit("al.name COLLATE NOCASE ASC, t.disc_number, t.track_number");
            reveal_strlit("al.name");
            assert forall|i: int| 0 <= i < c.len() implies #[trigger] c[i] != 'D' by {}
            lemma_no_desc(c);
            assert(c.take(7) =~= "al.name"@);
        },
        SongSort::RecentlyAdded => {
            let c = "t.added_at DESC, t.id DESC"@;
            reveal_strlit("t.added_at DESC, t.id DESC");
            reveal_strlit("t.added_at");
            assert(c.subrange(10, 15) =~= " DESC"@);
            assert(desc_at(c, 10));
            assert(forall|j: int| 0 <= j < 10 ==> c[j] != ',');
            assert(first_key_descending(c));
            assert(c.take(10) =~= "t.added_at"@);
        },
        SongSort::PlayCountDesc => {
            let c = "t.play_count DESC, t.title COLLATE NOCASE ASC"@;
            reveal_strlit("t.play_count DESC, t.title COLLATE NOCASE ASC");
            reveal_strlit("t.play_count");
            assert(c.subrange(12, 17) =~= " DESC"@);
            assert(desc_at(c, 12));
            assert(forall|j: int| 0 <= j < 12 ==> c[j] != ',');
            assert(first_key_descending(c));
            assert(c.take(12) =~= "t.play_count"@);
        },
    }
}

impl SongSort {
    /// The SQL `ORDER BY` clause of this sort order.
    pub fn order_clause(self) -> (r: &'static str)
        ensures
            r@ == order_clause_of(self),
    {
        match self {
            SongSort::TitleAsc => "t.title COLLATE NOCASE ASC",
            SongSort::ArtistAsc => "ar.name COLLATE NOCASE ASC, t.title COLLATE NOCASE ASC",
            SongSort::AlbumAsc => "al.name COLLATE NOCASE ASC, t.disc_number, t.track_number",
            SongSort::RecentlyAdded => "t.added_at DESC, t.id DESC",
            SongSort::PlayCountDesc => "t.play_count DESC, t.title COLLATE NOCASE ASC",
        }
    }

    /// The sort order chosen at a position of the songs view's sort menu;
    /// unknown positions sort by title.
    pub fn from_index(index: u32) -> (r: SongSort)
        ensures
            r == match index {
                1 => SongSort::ArtistAsc,
                2 => SongSort::AlbumAsc,
                3 => SongSort::RecentlyAdded,
                4 => SongSort::PlayCountDesc,
                _ => SongSort::TitleAsc,
            },
    {
        match index {
            1 => SongSort::ArtistAsc,
            2 => SongSort::AlbumAsc,
            3 => SongSort::RecentlyAdded,
            4 => SongSort::PlayCountDesc,
            _ => SongSort::TitleAsc,
        }
    }
}

// ---------------------------------------------------------------------------
// Full-text search
// ---------------------------------------------------------------------------

/// A word with every `"` doubled.
pub open spec fn quotes_doubled(w: Seq<char>) -> Seq<char>
    decreases w.len(),
{
    if w.len() == 0 {
        Seq::empty()
    } else {
        quotes_doubled(w.drop_last()) + if w.last() == '"' {
            seq!['"', '"']
        } else {
            seq![w.last()]
        }
    }
}

/// A quoted FTS5 prefix term: `"word"*`.
pub open spec fn fts_term(w: Seq<char>) -> Seq<char> {
    seq!['"'] + quotes_doubled(w) + seq!['"', '*']
}

/// The FTS5 query for free text: every white-space separated word as a quoted
/// prefix term, the terms separated by single spaces.
pub open spec fn fts_query_spec(input: Seq<char>) -> Seq<char> {
    seq_join(ws_words(input).map_values(|w: Seq<char>| fts_term(w)), seq![' '])
}

/// How FTS5 reads the body of a string that follows an opening `"`: up to
/// the first `"` that is not doubled, a doubled `""` standing for one `"`.
/// Gives the text read and what follows the closing quote; `None` when the
/// string is never closed.
pub open spec fn read_fts_string(t: Seq<char>) -> Option<(Seq<char>, Seq<char>)>
    decreases t.len(),
{
    if t.len() == 0 {
        None
    } else if t[0] == '"' {
        if t.len() >= 2 && t[1] == '"' {
            match read_fts_string(t.skip(2)) {
                Some((text, rest)) => Some((seq!['"'] + text, rest)),
                None => None,
            }
        } else {
            Some((Seq::empty(), t.skip(1)))
        }
    } else {
        match read_fts_string(t.skip(1)) {
            Some((text, rest)) => Some((seq![t[0]] + text, rest)),
            None => None,
        }
    }
}

proof fn lemma_quotes_doubled_append(a: Seq<char>, b: Seq<char>)
    ensures
        quotes_doubled(a + b) == quotes_doubled(a) + quotes_doubled(b),
    decreases b.len(),
{
    if b.len() == 0 {
        assert(a + b =~= a);
        assert(quotes_doubled(b) =~= Seq::<char>::empty());
        assert(quotes_doubled(a) + quotes_doubled(b) =~= quotes_doubled(a));
    } else {
        lemma_quotes_doubled_append(a, b.drop_last());
        assert((a + b).drop_last() =~= a + b.drop_last());
        assert((a + b).last() == b.last());
        let piece = if b.last() == '"' {
            seq!['"', '"']
        } else {
            seq![b.last()]
        };
        assert(quotes_doubled(a) + quotes_doubled(b) =~= quotes_doubled(a) + quotes_doubled(
            b.drop_last(),
        ) + piece);
    }
}

/// A search term reads back as exactly its word: FTS5 takes everything
/// between the quotes of `"word"*` as the text of one string, whatever
/// quotes or punctuation the word holds, and then sees the prefix `*`.
pub proof fn law_fts_term_reads_back(w: Seq<char>, rest: Seq<char>)
    ensures
        fts_term(w) + rest == seq!['"'] + quotes_doubled(w) + seq!['"', '*'] + rest,
        read_fts_string(quotes_doubled(w) + seq!['"', '*'] + rest) == Some((w, seq!['*'] + rest)),
    decreases w.len(),
{
    let tail = seq!['"', '*'] + rest;
    if w.len() == 0 {
        assert(quotes_doubled(w) =~= Seq::<char>::empty());
        assert(quotes_doubled(w) + seq!['"', '*'] + rest =~= tail);
        assert(tail[0] == '"');
        assert(tail[1] == '*');
        assert(tail.skip(1) =~= seq!['*'] + rest);
        assert(w =~= Seq::<char>::empty());
        assert(read_fts_string(tail) == Some((Seq::<char>::empty(), seq!['*'] + rest)));
    } else {
        let c = w[0];
        let w2 = w.drop_first();
        assert(w =~= seq![c] + w2);
        lemma_quotes_doubled_append(seq![c], w2);
        assert(seq![c].drop_last() =~= Seq::<char>::empty());
        assert(quotes_doubled(seq![c]) == quotes_doubled(Seq::<char>::empty()) + if c == '"' {
            seq!['"', '"']
        } else {
            seq![c]
        });
        assert(quotes_doubled(Seq::<char>::empty()) =~= Seq::<char>::empty());
        law_fts_term_reads_back(w2, rest);
        let t = quotes_doubled(w) + tail;
        let t2 = quotes_doubled(w2) + tail;
        assert(quotes_doubled(w) + seq!['"', '*'] + rest =~= t);
        assert(quotes_doubled(w2) + seq!['"', '*'] + rest =~= t2);
        assert(read_fts_string(t2) == Some((w2, seq!['*'] + rest)));
        if c == '"' {
            assert(t =~= seq!['"', '"'] + t2);
            assert(t[0] == '"' && t[1] == '"');
            assert(t.skip(2) =~= t2);
            assert(seq!['"'] + w2 =~= w);
            assert(read_fts_string(t) == Some((seq!['"'] + w2, seq!['*'] + rest)));
        } else {
            assert(t =~= seq![c] + t2);
            assert(t[0] == c);
            assert(t.skip(1) =~= t2);
            assert(seq![c] + w2 =~= w);
            assert(read_fts_string(t) == Some((seq![c] + w2, seq!['*'] + rest)));
        }
    }
    assert(fts_term(w) + rest =~= seq!['"'] + quotes_doubled(w) + seq!['"', '*'] + rest);
}

fn fts_term_of(w: &Vec<char>) -> (r: Vec<char>)
    ensures
        r@ == fts_term(w@),
{
    let mut body: Vec<char> = Vec::new();
    for i in 0..w.len()
        invariant
            body@ == quotes_doubled(w@.take(i as int)),
    {
        assert(w@.take(i + 1).drop_last() =~= w@.take(i as int));
        if w[i] == '"' {
            body.push('"');
            body.push('"');
        } else {
            body.push(w[i]);
        }
        assert(body@ =~= quotes_doubled(w@.take(i + 1)));
    }
    assert(w@.take(w@.len() as int) =~= w@);
    let mut out: Vec<char> = Vec::new();
    out.push('"');
    push_all(&mut out, &body);
    out.push('"');
    out.push('*');
    assert(out@ =~= fts_term(w@));
    out
}

/// Turn a user's free-text query into a safe FTS5 prefix query.
///
/// Each whitespace-separated word becomes a quoted prefix term so punctuation
/// in the query can never be interpreted as FTS syntax.
pub fn build_fts_query(input: &str) -> (r: String)
    ensures
        r@ == fts_query_spec(input@),
{
    let words = split_whitespace(&chars_of(input));
    let mut terms: Vec<Vec<char>> = Vec::new();
    for i in 0..words.len()
        invariant
            views(terms@) == views(words@).take(i as int).map_values(|w: Seq<char>| fts_term(w)),
    {
        let t = fts_term_of(&words[i]);
        assert(views(words@)[i as int] == words@[i as int]@);
        let ghost before = views(terms@);
        terms.push(t);
        assert(views(terms@) =~= before.push(t@));
        assert(views(terms@) =~= views(words@).take(i + 1).map_values(
            |w: Seq<char>| fts_term(w),
        ));
    }
    assert(views(words@).take(words@.len() as int) =~= views(words@));
    let sep: Vec<char> = vec![' '];
    assert(sep@ =~= seq![' ']);
    string_of(&join_with(&terms, &sep))
}

/// The FTS5 query of a search, or `None` when the search text holds no word
/// (such a search finds nothing).
pub fn search_query(query: &str) -> (r: Option<String>)
    ensures
        ws_words(query@).len() == 0 ==> r is None,
        ws_words(query@).len() > 0 ==> (r matches Some(q) && q@ == fts_query_spec(query@)),
{
    let words = split_whitespace(&chars_of(query));
    if words.len() == 0 {
        None
    } else {
        Some(build_fts_query(query))
    }
}

// ---------------------------------------------------------------------------
// Scanning into the library
// ---------------------------------------------------------------------------

/// Whether a file needs (re)scanning given the size and modification time
/// stored for it (if it is known) and its current ones: unknown or changed
/// files do.
pub fn needs_rescan(stored: Option<(i64, i64)>, file_size: u64, modified_at: i64) -> (r: bool)
    ensures
        r == match stored {
            Some((size, mtime)) => size != file_size as i64 || mtime != modified_at,
            None => true,
        },
{
    match stored {
        Some((size, mtime)) => size != file_size as i64 || mtime != modified_at,
        None => true,
    }
}

/// The integer column value a duration in milliseconds is stored as: the
/// same 64 bits read as a signed number.
pub open spec fn duration_column_of(d: u64) -> i64 {
    if d <= 0x7fff_ffff_ffff_ffff {
        d as i64
    } else {
        (d - 0x1_0000_0000_0000_0000) as i64
    }
}

/// The duration in milliseconds a stored column value stands for: the same
/// 64 bits read as an unsigned number.
pub open spec fn duration_of_column(v: i64) -> u64 {
    if v >= 0 {
        v as u64
    } else {
        (v + 0x1_0000_0000_0000_0000) as u64
    }
}

/// The column value a duration is stored as.
pub fn duration_column(d: u64) -> (r: i64)
    ensures
        r == duration_column_of(d),
{
    if d <= 0x7fff_ffff_ffff_ffff {
        d as i64
    } else {
        let below: u64 = d - 0x8000_0000_0000_0000;
        let shifted: i64 = below as i64;
        shifted - 0x7fff_ffff_ffff_ffff - 1
    }
}

/// The duration a stored column value stands for.
pub fn duration_from_column(v: i64) -> (r: u64)
    ensures
        r == duration_of_column(v),
{
    if v >= 0 {
        v as u64
    } else {
        let up: i64 = v + 0x7fff_ffff_ffff_ffff + 1;
        (up as u64) + 0x8000_0000_0000_0000
    }
}

/// A stored duration reads back as written, and a stored value written back
/// is unchanged.
pub proof fn law_duration_round_trip(d: u64, v: i64)
    ensures
        duration_of_column(duration_column_of(d)) == d,
        duration_column_of(duration_of_column(v)) == v,
{
}

/// The title a track without a title tag gets: its file stem, or
/// `Unknown Title`.
pub open spec fn title_from_path_spec(path: Seq<char>) -> Seq<char> {
    match spec_path_file_stem(path) {
        Some(s) => s,
        None => "Unknown Title"@,
    }
}

/// Derive a display title from a file path when the file has no title tag.
pub fn title_from_path(path: &str) -> (r: String)
    ensures
        r@ == title_from_path_spec(path@),
{
    match path_file_stem(path) {
        Some(s) => s,
        None => string_of(&chars_of("Unknown Title")),
    }
}

/// A text tag that is present and not empty.
pub open spec fn nonempty(v: Option<String>) -> Option<Seq<char>> {
    match v {
        Some(s) => if s@.len() > 0 {
            Some(s@)
        } else {
            None
        },
        None => None,
    }
}

/// How a scanned file is named in the library.
#[derive(Debug, Clone, PartialEq)]
pub struct LibraryNames {
    /// The stored title: the title tag, or one derived from the path.
    pub title: String,
    /// The artist row to link, if any.
    pub artist: Option<String>,
    /// The album-artist row to link, if any.
    pub album_artist: Option<String>,
    /// The album row to link, if any.
    pub album: Option<String>,
    /// The artist indexed for search.
    pub search_artist: Option<String>,
}

/// The album artist linked for a scanned file: the album-artist tag when
/// present (else the non-empty artist tag), provided it is not empty.
pub open spec fn linked_album_artist(meta: TrackMetadata) -> Option<Seq<char>> {
    match meta.album_artist {
        Some(a) => nonempty(Some(a)),
        None => nonempty(meta.artist),
    }
}

/// A tag counts when it is present and not empty: then it is kept as it
/// is; an absent or empty tag counts as none.
pub proof fn law_nonempty_keeps_real_tags(v: Option<String>)
    ensures
        v matches Some(t) && t@.len() > 0 ==> nonempty(v) == Some(v->0@),
        !(v matches Some(t) && t@.len() > 0) ==> nonempty(v) is None,
{
}

/// A scanned file's album is linked to its album-artist tag when that tag
/// is present and not empty; with no album-artist tag, to its artist tag
/// when that is not empty; and to no one otherwise.
pub proof fn law_album_artist_link(meta: TrackMetadata)
    ensures
        meta.album_artist matches Some(a) && a@.len() > 0 ==> linked_album_artist(meta) == Some(
            meta.album_artist->0@,
        ),
        meta.album_artist matches Some(a) && a@.len() == 0 ==> linked_album_artist(meta) is None,
        meta.album_artist is None && (meta.artist matches Some(b) && b@.len() > 0)
            ==> linked_album_artist(meta) == Some(meta.artist->0@),
        meta.album_artist is None && !(meta.artist matches Some(b) && b@.len() > 0)
            ==> linked_album_artist(meta) is None,
{
}

fn nonempty_of(v: &Option<String>) -> (r: Option<String>)
    ensures
        crate::text::opt_text(r) == nonempty(*v),
{
    match v {
        Some(s) => if s.as_str().is_empty() {
            None
        } else {
            Some(s.clone())
        },
        None => None,
    }
}

/// How a scanned file at `path` with metadata `meta` is named in the
/// library: its title, the artist, album-artist and album rows it links to,
/// and the artist indexed for search.
pub fn library_names(path: &str, meta: &TrackMetadata) -> (r: LibraryNames)
    ensures
        r.title@ == match nonempty(meta.title) {
            Some(t) => t,
            None => title_from_path_spec(path@),
        },
        crate::text::opt_text(r.artist) == nonempty(meta.artist),
        crate::text::opt_text(r.album_artist) == linked_album_artist(*meta),
        crate::text::opt_text(r.album) == nonempty(meta.album),
        crate::text::opt_text(r.search_artist) == match nonempty(meta.artist) {
            Some(a) => Some(a),
            None => linked_album_artist(*meta),
        },
{
    let title = match nonempty_of(&meta.title) {
        Some(t) => t,
        None => title_from_path(path),
    };
    let artist = nonempty_of(&meta.artist);
    let album_artist = match &meta.album_artist {
        Some(_) => nonempty_of(&meta.album_artist),
        None => nonempty_of(&meta.artist),
    };
    let album = nonempty_of(&meta.album);
    let search_artist = match &artist {
        Some(a) => Some(a.clone()),
        None => crate::models::copy_opt_string(&album_artist),
    };
    LibraryNames { title, artist, album_artist, album, search_artist }
}

// ---------------------------------------------------------------------------
// Schema migrations
// ---------------------------------------------------------------------------

/// The schema version the library database is migrated to.
pub const LATEST_SCHEMA_VERSION: i64 = 2;

/// A schema migration script.
#[derive(Debug, Clone, Copy, PartialEq, Eq, Structural)]
pub enum Migration {
    /// Creates the first schema (from version 0).
    V1,
    /// Upgrades version 1 to version 2.
    V2,
}

/// What to do at a schema version on the way to the latest one.
#[derive(Debug, Clone, Copy, PartialEq, Eq, Structural)]
pub enum MigrationStep {
    /// The database is up to date.
    Done,
    /// Run this script, then record the next version.
    Run(Migration),
    /// No migration leads on from this version (an error).
    NoPath(i64),
}

/// The next migration step from `version`.
pub fn migration_step(version: i64) -> (r: MigrationStep)
    ensures
        version >= LATEST_SCHEMA_VERSION ==> r is Done,
        version < LATEST_SCHEMA_VERSION && version == 0 ==> r == MigrationStep::Run(Migration::V1),
        version < LATEST_SCHEMA_VERSION && version == 1 ==> r == MigrationStep::Run(Migration::V2),
        version < LATEST_SCHEMA_VERSION && version != 0 && version != 1 ==> r
            == MigrationStep::NoPath(version),
{
    if version >= LATEST_SCHEMA_VERSION {
        MigrationStep::Done
    } else if version == 0 {
        MigrationStep::Run(Migration::V1)
    } else if version == 1 {
        MigrationStep::Run(Migration::V2)
    } else {
        MigrationStep::NoPath(version)
    }
}

} // verus!

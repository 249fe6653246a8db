//! Path templates that turn metadata into a target relative path.

use vstd::prelude::*;

use crate::models::{eq_lit, TrackMetadata};
use crate::text::{
    chars_of, decimal, is_whitespace, join_with, lemma_join_extend_last, lemma_join_push,
    lemma_split_nonempty, lemma_words_nonempty_after_word_char, padded2, push_all, push_decimal,
    push_padded2, push_signed_decimal, seq_join, signed_decimal, split_at_char, split_on, string_of,
    views, ws_words,
};

verus! {

/// Built-in organization layouts.
#[derive(Debug, Clone, Copy, PartialEq, Eq, Structural)]
pub enum Preset {
    /// `Album Artist/Album/01 Title`
    ArtistAlbumTrack,
    /// `Album Artist/2001 - Album/01 Title`
    ArtistYearAlbumTrack,
    /// `Genre/Album Artist/Album/01 Title`
    GenreArtistAlbumTrack,
    /// `Album Artist/Singles/Title` for tracks with no album.
    ArtistSingles,
}

/// The token pattern of a preset.
pub open spec fn preset_pattern(p: Preset) -> Seq<char> {
    match p {
        Preset::ArtistAlbumTrack => "{albumartist}/{album}/{track2} {title}"@,
        Preset::ArtistYearAlbumTrack => "{albumartist}/{year} - {album}/{track2} {title}"@,
        Preset::GenreArtistAlbumTrack => "{genre}/{albumartist}/{album}/{track2} {title}"@,
        Preset::ArtistSingles => "{albumartist}/Singles/{title}"@,
    }
}

/// The settings label of a preset.
pub open spec fn preset_label(p: Preset) -> Seq<char> {
    match p {
        Preset::ArtistAlbumTrack => "Artist / Album / Track"@,
        Preset::ArtistYearAlbumTrack => "Artist / Year - Album / Track"@,
        Preset::GenreArtistAlbumTrack => "Genre / Artist / Album / Track"@,
        Preset::ArtistSingles => "Artist / Singles"@,
    }
}

impl Preset {
    /// The token pattern this preset expands to.
    pub fn pattern(self) -> (r: &'static str)
        ensures
            r@ == preset_pattern(self),
    {
        match self {
            Preset::ArtistAlbumTrack => "{albumartist}/{album}/{track2} {title}",
            Preset::ArtistYearAlbumTrack => "{albumartist}/{year} - {album}/{track2} {title}",
            Preset::GenreArtistAlbumTrack => "{genre}/{albumartist}/{album}/{track2} {title}",
            Preset::ArtistSingles => "{albumartist}/Singles/{title}",
        }
    }

    /// A short human-readable label for settings UI.
    pub fn label(self) -> (r: &'static str)
        ensures
            r@ == preset_label(self),
    {
        match self {
            Preset::ArtistAlbumTrack => "Artist / Album / Track",
            Preset::ArtistYearAlbumTrack => "Artist / Year - Album / Track",
            Preset::GenreArtistAlbumTrack => "Genre / Artist / Album / Track",
            Preset::ArtistSingles => "Artist / Singles",
        }
    }

    /// The preset at a position of [`Self::all`]; positions past the end
    /// give the default layout.
    pub fn at(index: usize) -> (r: Preset)
        ensures
            r == match index {
                0 => Preset::ArtistAlbumTrack,
                1 => Preset::ArtistYearAlbumTrack,
                2 => Preset::GenreArtistAlbumTrack,
                3 => Preset::ArtistSingles,
                _ => Preset::ArtistAlbumTrack,
            },
    {
        let all = Self::all();
        if index < all.len() {
            all[index]
        } else {
            Preset::ArtistAlbumTrack
        }
    }

    /// Every preset, for populating a combo box.
    pub fn all() -> (r: Vec<Preset>)
        ensures
            r@ == seq![
                Preset::ArtistAlbumTrack,
                Preset::ArtistYearAlbumTrack,
                Preset::GenreArtistAlbumTrack,
                Preset::ArtistSingles,
            ],
    {
        let r = vec![
            Preset::ArtistAlbumTrack,
            Preset::ArtistYearAlbumTrack,
            Preset::GenreArtistAlbumTrack,
            Preset::ArtistSingles,
        ];
        assert(r@ =~= seq![
            Preset::ArtistAlbumTrack,
            Preset::ArtistYearAlbumTrack,
            Preset::GenreArtistAlbumTrack,
            Preset::ArtistSingles,
        ]);
        r
    }
}

/// A resolved template: either a preset or a user-supplied token pattern.
#[derive(Debug, Clone, PartialEq)]
pub enum Template {
    Preset(Preset),
    Custom(String),
}

impl Default for Template {
    fn default() -> (r: Self)
        ensures
            r == Template::Preset(Preset::ArtistAlbumTrack),
    {
        Template::Preset(Preset::ArtistAlbumTrack)
    }
}

/// The token pattern of a template.
pub open spec fn template_pattern(t: Template) -> Seq<char> {
    match t {
        Template::Preset(p) => preset_pattern(p),
        Template::Custom(s) => s@,
    }
}

/// The metadata names an album: the album tag is present and not empty.
pub open spec fn has_album(meta: TrackMetadata) -> bool {
    match meta.album {
        Some(a) => a@.len() > 0,
        None => false,
    }
}

/// The token pattern used for `meta`: a preset lays out a track without an
/// album as `Album Artist/Singles/Title`; a custom pattern is used as it is.
pub open spec fn layout_pattern(t: Template, meta: TrackMetadata) -> Seq<char> {
    match t {
        Template::Preset(p) => if p != Preset::ArtistSingles && !has_album(meta) {
            preset_pattern(Preset::ArtistSingles)
        } else {
            preset_pattern(p)
        },
        Template::Custom(s) => s@,
    }
}

// ---------------------------------------------------------------------------
// Token expansion
// ---------------------------------------------------------------------------

/// A text tag when present and non-empty, else the fallback.
pub open spec fn text_or(v: Option<String>, fallback: Seq<char>) -> Seq<char> {
    match v {
        Some(s) => if s@.len() > 0 {
            s@
        } else {
            fallback
        },
        None => fallback,
    }
}

/// The album artist for templates: the album-artist tag when present (the
/// artist tag otherwise), or `Unknown Artist` when that tag is empty.
pub open spec fn album_artist_text(meta: TrackMetadata) -> Seq<char> {
    match meta.album_artist {
        Some(a) => text_or(Some(a), "Unknown Artist"@),
        None => text_or(meta.artist, "Unknown Artist"@),
    }
}

/// The value a `{token}` expands to.
pub open spec fn expand(token: Seq<char>, meta: TrackMetadata) -> Seq<char> {
    if token == "title"@ {
        text_or(meta.title, "Unknown Title"@)
    } else if token == "artist"@ {
        text_or(meta.artist, "Unknown Artist"@)
    } else if token == "album"@ {
        text_or(meta.album, "Unknown Album"@)
    } else if token == "albumartist"@ {
        album_artist_text(meta)
    } else if token == "composer"@ {
        text_or(meta.composer, Seq::empty())
    } else if token == "genre"@ {
        text_or(meta.genre, "Unknown Genre"@)
    } else if token == "year"@ {
        match meta.year {
            Some(y) => signed_decimal(y as int),
            None => Seq::empty(),
        }
    } else if token == "track"@ {
        match meta.track_number {
            Some(n) => decimal(n as nat),
            None => Seq::empty(),
        }
    } else if token == "track2"@ {
        match meta.track_number {
            Some(n) => padded2(n as nat),
            None => Seq::empty(),
        }
    } else if token == "disc"@ {
        match meta.disc_number {
            Some(n) => decimal(n as nat),
            None => Seq::empty(),
        }
    } else {
        seq!['{'] + token + seq!['}']
    }
}

/// A tag present and not empty, else the fallback.
pub open spec fn tag_or(v: Option<String>, fallback: Seq<char>) -> Seq<char> {
    if v matches Some(t) && t@.len() > 0 {
        v->0@
    } else {
        fallback
    }
}

/// The text tokens expand to their tag when it is present and not empty,
/// and otherwise to their fallback: `Unknown Title`, `Unknown Artist`,
/// `Unknown Album`, `Unknown Genre`, and nothing for the composer.
pub proof fn law_text_tokens(meta: TrackMetadata)
    ensures
        expand("title"@, meta) == tag_or(meta.title, "Unknown Title"@),
        expand("artist"@, meta) == tag_or(meta.artist, "Unknown Artist"@),
        expand("album"@, meta) == tag_or(meta.album, "Unknown Album"@),
        expand("composer"@, meta) == tag_or(meta.composer, Seq::empty()),
        expand("genre"@, meta) == tag_or(meta.genre, "Unknown Genre"@),
{
    reveal_strlit("albumartist");
    reveal_strlit("title");
    reveal_strlit("artist");
    reveal_strlit("album");
    reveal_strlit("composer");
    reveal_strlit("genre");
    assert("albumartist"@.len() == 11);
    assert("artist"@.len() == 6);
    assert("album"@.len() == 5);
    assert("title"@.len() == 5);
    assert("composer"@.len() == 8);
    assert("genre"@.len() == 5);
    assert("title"@ != "artist"@);
    assert("album"@[0] == 'a' && "title"@[0] == 't' && "genre"@[0] == 'g');
    assert("album"@ != "title"@);
    assert("album"@ != "artist"@);
    assert("composer"@ != "title"@ && "composer"@ != "artist"@ && "composer"@ != "album"@
        && "composer"@ != "albumartist"@);
    assert("genre"@ != "title"@ && "genre"@ != "artist"@ && "genre"@ != "album"@ && "genre"@
        != "albumartist"@ && "genre"@ != "composer"@);
}

/// The `{albumartist}` token names the album artist: the album-artist tag
/// whenever it is present and not empty, whatever the artist tag holds; the
/// artist tag only when there is no album-artist tag at all; otherwise
/// `Unknown Artist`.
pub proof fn law_album_artist_token(meta: TrackMetadata)
    ensures
        meta.album_artist matches Some(a) && a@.len() > 0 ==> expand("albumartist"@, meta)
            == meta.album_artist->0@,
        meta.album_artist is None && (meta.artist matches Some(b) && b@.len() > 0) ==> expand(
            "albumartist"@,
            meta,
        ) == meta.artist->0@,
        (meta.album_artist matches Some(a) && a@.len() == 0) || (meta.album_artist is None
            && !(meta.artist matches Some(b) && b@.len() > 0)) ==> expand("albumartist"@, meta)
            == "Unknown Artist"@,
{
    reveal_strlit("albumartist");
    reveal_strlit("title");
    reveal_strlit("artist");
    reveal_strlit("album");
    assert("albumartist"@.len() == 11);
    assert("artist"@.len() == 6);
    assert("album"@.len() == 5);
    assert("title"@.len() == 5);
    assert("albumartist"@ != "title"@);
    assert("albumartist"@ != "artist"@);
    assert("albumartist"@ != "album"@);
}

/// A text tag when present and non-empty, else the fallback.
fn text_or_fallback(v: &Option<String>, fallback: &str) -> (r: Vec<char>)
    ensures
        r@ == text_or(*v, fallback@),
{
    match v {
        Some(s) => if s.as_str().is_empty() {
            chars_of(fallback)
        } else {
            chars_of(s.as_str())
        },
        None => chars_of(fallback),
    }
}

/// Expand a single token name to its metadata value with sensible fallbacks.
pub fn expand_token(token: &Vec<char>, meta: &TrackMetadata) -> (r: Vec<char>)
    ensures
        r@ == expand(token@, *meta),
{
    if eq_lit(token, "title") {
        text_or_fallback(&meta.title, "Unknown Title")
    } else if eq_lit(token, "artist") {
        text_or_fallback(&meta.artist, "Unknown Artist")
    } else if eq_lit(token, "album") {
        text_or_fallback(&meta.album, "Unknown Album")
    } else if eq_lit(token, "albumartist") {
        match &meta.album_artist {
            Some(a) => text_or_fallback(&meta.album_artist, "Unknown Artist"),
            None => text_or_fallback(&meta.artist, "Unknown Artist"),
        }
    } else if eq_lit(token, "composer") {
        let r = text_or_fallback(&meta.composer, "");
        proof {
            reveal_strlit("");
        }
        assert(""@ =~= Seq::<char>::empty());
        r
    } else if eq_lit(token, "genre") {
        text_or_fallback(&meta.genre, "Unknown Genre")
    } else if eq_lit(token, "year") {
        let mut out: Vec<char> = Vec::new();
        if let Some(y) = meta.year {
            push_signed_decimal(y as i64, &mut out);
        }
        assert(out@ =~= expand(token@, *meta));
        out
    } else if eq_lit(token, "track") {
        let mut out: Vec<char> = Vec::new();
        if let Some(n) = meta.track_number {
            push_decimal(n as u64, &mut out);
        }
        assert(out@ =~= expand(token@, *meta));
        out
    } else if eq_lit(token, "track2") {
        let mut out: Vec<char> = Vec::new();
        if let Some(n) = meta.track_number {
            push_padded2(n as u64, &mut out);
        }
        assert(out@ =~= expand(token@, *meta));
        out
    } else if eq_lit(token, "disc") {
        let mut out: Vec<char> = Vec::new();
        if let Some(n) = meta.disc_number {
            push_decimal(n as u64, &mut out);
        }
        assert(out@ =~= expand(token@, *meta));
        out
    } else {
        let mut out: Vec<char> = Vec::new();
        out.push('{');
        push_all(&mut out, token);
        out.push('}');
        assert(out@ =~= expand(token@, *meta));
        out
    }
}

/// The number of characters before the first `}` (all of them if none).
pub open spec fn brace_end(s: Seq<char>) -> nat
    decreases s.len(),
{
    if s.len() == 0 || s[0] == '}' {
        0
    } else {
        1 + brace_end(s.drop_first())
    }
}

/// Every `{token}` of a segment replaced by its expansion. An unterminated
/// `{` takes the rest of the segment as its token.
pub open spec fn render_seg(s: Seq<char>, meta: TrackMetadata) -> Seq<char>
    decreases s.len(),
{
    if s.len() == 0 {
        Seq::empty()
    } else if s[0] != '{' {
        seq![s[0]] + render_seg(s.drop_first(), meta)
    } else {
        let rest = s.drop_first();
        let k = brace_end(rest);
        let resume = if k < rest.len() {
            (k + 1) as int
        } else {
            rest.len() as int
        };
        expand(rest.take(k as int), meta) + render_seg(rest.skip(resume), meta)
    }
}

proof fn lemma_brace_end(s: Seq<char>, a: int, j: int)
    requires
        0 <= a <= j <= s.len(),
        forall|k: int| a <= k < j ==> s[k] != '}',
        j == s.len() || s[j] == '}',
    ensures
        brace_end(s.skip(a)) == j - a,
    decreases j - a,
{
    if a < j {
        assert(s.skip(a).drop_first() =~= s.skip(a + 1));
        lemma_brace_end(s, a + 1, j);
    }
}

/// Replace every `{token}` in a single path segment.
pub fn render_segment(segment: &Vec<char>, meta: &TrackMetadata) -> (r: Vec<char>)
    ensures
        r@ == render_seg(segment@, *meta),
{
    let mut out: Vec<char> = Vec::new();
    let n = segment.len();
    let mut i: usize = 0;
    assert(segment@.skip(0) =~= segment@);
    while i < n
        invariant
            n == segment@.len(),
            i <= n,
            render_seg(segment@, *meta) == out@ + render_seg(segment@.skip(i as int), *meta),
        decreases n - i,
    {
        let ch = segment[i];
        let ghost suffix = segment@.skip(i as int);
        assert(suffix.drop_first() =~= segment@.skip(i + 1));
        if ch != '{' {
            let ghost before = out@;
            out.push(ch);
            assert(render_seg(suffix, *meta) == seq![ch] + render_seg(
                segment@.skip(i + 1),
                *meta,
            ));
            assert(before + (seq![ch] + render_seg(segment@.skip(i + 1), *meta)) =~= out@
                + render_seg(segment@.skip(i + 1), *meta));
            i = i + 1;
        } else {
            let mut token: Vec<char> = Vec::new();
            let mut j: usize = i + 1;
            while j < n && segment[j] != '}'
                invariant
                    n == segment@.len(),
                    i < j <= n,
                    token@ == segment@.subrange(i + 1, j as int),
                    forall|k: int| i + 1 <= k < j ==> segment@[k] != '}',
                decreases n - j,
            {
                token.push(segment[j]);
                j = j + 1;
                assert(token@ =~= segment@.subrange(i + 1, j as int));
            }
            proof {
                lemma_brace_end(segment@, i + 1, j as int);
                assert(suffix.drop_first().take(j - i - 1) =~= token@);
            }
            let expanded = expand_token(&token, meta);
            let ghost before = out@;
            push_all(&mut out, &expanded);
            let next: usize = if j < n {
                j + 1
            } else {
                n
            };
            proof {
                let rest = suffix.drop_first();
                let resume = if (j - i - 1) < rest.len() {
                    (j - i - 1) + 1
                } else {
                    rest.len() as int
                };
                assert(rest.skip(resume) =~= segment@.skip(next as int));
                assert(render_seg(suffix, *meta) == expanded@ + render_seg(
                    segment@.skip(next as int),
                    *meta,
                ));
                assert(before + (expanded@ + render_seg(segment@.skip(next as int), *meta))
                    =~= out@ + render_seg(segment@.skip(next as int), *meta));
            }
            i = next;
        }
    }
    assert(segment@.skip(n as int) =~= Seq::<char>::empty());
    assert(out@ + Seq::<char>::empty() =~= out@);
    out
}


// ---------------------------------------------------------------------------
// Sanitizing one component
// ---------------------------------------------------------------------------

/// Characters that are illegal or problematic in filenames across Linux,
/// Windows and macOS, or that cause trouble in shells.
pub open spec fn is_illegal(c: char) -> bool {
    c == '/' || c == '\\' || c == ':' || c == '*' || c == '?' || c == '"' || c == '<' || c
        == '>' || c == '|' || c == '\0'
}

/// Every illegal character replaced by a space.
pub open spec fn replace_illegal(s: Seq<char>) -> Seq<char> {
    s.map_values(
        |c: char|
            if is_illegal(c) {
                ' '
            } else {
                c
            },
    )
}

/// Characters removed from both ends of a component.
pub open spec fn is_trimmed(c: char) -> bool {
    c == ' ' || c == '.'
}

/// `s` without leading and trailing spaces and dots (`str::trim_matches`).
pub open spec fn trim_ends(s: Seq<char>) -> Seq<char>
    decreases s.len(),
{
    if s.len() > 0 && is_trimmed(s[0]) {
        trim_ends(s.drop_first())
    } else if s.len() > 0 && is_trimmed(s.last()) {
        trim_ends(s.drop_last())
    } else {
        s
    }
}

/// `s` cleaned for use in a path: illegal characters become spaces, runs of
/// white space collapse to one space, and leading/trailing spaces and dots
/// go. Nothing may be left.
pub open spec fn cleaned(s: Seq<char>) -> Seq<char> {
    trim_ends(seq_join(ws_words(replace_illegal(s)), seq![' ']))
}

/// A safe, never empty path component: `s` cleaned, or `_` when cleaning
/// leaves nothing.
pub open spec fn sanitize(s: Seq<char>) -> Seq<char> {
    if cleaned(s).len() == 0 {
        seq!['_']
    } else {
        cleaned(s)
    }
}

/// Collapse runs of white space in `s` to single spaces and drop white space
/// at both ends.
fn collapse_whitespace(s: &Vec<char>) -> (r: Vec<char>)
    ensures
        r@ == seq_join(ws_words(s@), seq![' ']),
{
    let mut out: Vec<char> = Vec::new();
    let mut any_word = false;
    for i in 0..s.len()
        invariant
            out@ == seq_join(ws_words(s@.subrange(0, i as int)), seq![' ']),
            any_word == (ws_words(s@.subrange(0, i as int)).len() > 0),
    {
        let c = s[i];
        let ghost pre = s@.subrange(0, i as int);
        let ghost next = s@.subrange(0, i + 1);
        assert(next.drop_last() =~= pre);
        if is_whitespace(c) {
        } else if i >= 1 && !is_whitespace(s[i - 1]) {
            proof {
                assert(pre.last() == s@[i - 1]);
                lemma_words_nonempty_after_word_char(pre);
                lemma_join_extend_last(ws_words(pre), c);
            }
            out.push(c);
        } else {
            proof {
                lemma_join_push(ws_words(pre), seq![c]);
            }
            if any_word {
                out.push(' ');
            }
            out.push(c);
            any_word = true;
            assert(out@ =~= seq_join(ws_words(next), seq![' ']));
        }
    }
    assert(s@.subrange(0, s@.len() as int) =~= s@);
    out
}

/// Drop leading and trailing spaces and dots.
fn trim_spaces_and_dots(s: &Vec<char>) -> (r: Vec<char>)
    ensures
        r@ == trim_ends(s@),
{
    let n = s.len();
    let mut a: usize = 0;
    assert(s@.subrange(0, n as int) =~= s@);
    while a < n && (s[a] == ' ' || s[a] == '.')
        invariant
            n == s@.len(),
            a <= n,
            trim_ends(s@) == trim_ends(s@.subrange(a as int, n as int)),
        decreases n - a,
    {
        assert(s@.subrange(a as int, n as int).drop_first() =~= s@.subrange(a + 1, n as int));
        a = a + 1;
    }
    let mut b: usize = n;
    while b > a && (s[b - 1] == ' ' || s[b - 1] == '.')
        invariant
            n == s@.len(),
            a <= b <= n,
            a < n ==> !is_trimmed(s@[a as int]),
            trim_ends(s@) == trim_ends(s@.subrange(a as int, b as int)),
        decreases b - a,
    {
        assert(s@.subrange(a as int, b as int).drop_last() =~= s@.subrange(a as int, b - 1));
        b = b - 1;
    }
    let mut out: Vec<char> = Vec::new();
    for k in a..b
        invariant
            a <= b <= n,
            n == s@.len(),
            out@ == s@.subrange(a as int, k as int),
    {
        out.push(s[k]);
        assert(out@ =~= s@.subrange(a as int, k + 1));
    }
    out
}

/// Every illegal character of `s` replaced by a space.
fn replace_illegal_chars(s: &Vec<char>) -> (r: Vec<char>)
    ensures
        r@ == replace_illegal(s@),
{
    let mut out: Vec<char> = Vec::new();
    for i in 0..s.len()
        invariant
            out@ == replace_illegal(s@.subrange(0, i as int)),
    {
        let c = s[i];
        let d = if c == '/' || c == '\\' || c == ':' || c == '*' || c == '?' || c == '"' || c
            == '<' || c == '>' || c == '|' || c == '\0' {
            ' '
        } else {
            c
        };
        out.push(d);
        assert(out@ =~= replace_illegal(s@.subrange(0, i + 1)));
    }
    assert(s@.subrange(0, s@.len() as int) =~= s@);
    out
}

/// Clean a component held as characters; the result may be empty.
pub fn clean_chars(input: &Vec<char>) -> (r: Vec<char>)
    ensures
        r@ == cleaned(input@),
{
    let replaced = replace_illegal_chars(input);
    let collapsed = collapse_whitespace(&replaced);
    trim_spaces_and_dots(&collapsed)
}

/// Make a single path component safe: strip illegal characters, collapse
/// whitespace and trailing dots, and never return an empty string (`_`
/// stands for a component that cleaning empties).
pub fn sanitize_component(input: &str) -> (r: String)
    ensures
        r@ == sanitize(input@),
        r@.len() > 0,
{
    let v = chars_of(input);
    let mut out = clean_chars(&v);
    if out.len() == 0 {
        out.push('_');
        assert(out@ =~= seq!['_']);
    }
    string_of(&out)
}

// ---------------------------------------------------------------------------
// Rendering a whole template
// ---------------------------------------------------------------------------

/// Every piece rendered and cleaned; pieces that cleaning empties are
/// dropped.
pub open spec fn rendered_segments(pieces: Seq<Seq<char>>, meta: TrackMetadata) -> Seq<Seq<char>>
    decreases pieces.len(),
{
    if pieces.len() == 0 {
        Seq::empty()
    } else {
        let prev = rendered_segments(pieces.drop_last(), meta);
        let s = cleaned(render_seg(pieces.last(), meta));
        if s.len() > 0 {
            prev.push(s)
        } else {
            prev
        }
    }
}

/// The `Disc N` folder name.
pub open spec fn disc_folder(disc: u32) -> Seq<char> {
    cleaned("Disc "@ + decimal(disc as nat))
}

/// Segments with a `Disc N` folder before the file name of a multi-disc
/// release.
pub open spec fn with_disc_folder(segs: Seq<Seq<char>>, meta: TrackMetadata) -> Seq<Seq<char>> {
    match (meta.disc_number, meta.disc_total) {
        (Some(disc), Some(total)) => if total > 1 && segs.len() >= 2 {
            segs.drop_last().push(disc_folder(disc)).push(segs.last())
        } else {
            segs
        },
        _ => segs,
    }
}

/// Segments under a leading `Compilations` folder for compilations.
pub open spec fn with_compilations(segs: Seq<Seq<char>>, meta: TrackMetadata) -> Seq<Seq<char>> {
    if meta.compilation {
        seq!["Compilations"@] + segs
    } else {
        segs
    }
}

/// The segments of the relative path a template renders for `meta`.
pub open spec fn render_segments(t: Template, meta: TrackMetadata) -> Seq<Seq<char>> {
    with_compilations(
        with_disc_folder(rendered_segments(split_on(layout_pattern(t, meta), '/'), meta), meta),
        meta,
    )
}

/// The relative path (without extension) a template renders for `meta`.
pub open spec fn render_spec(t: Template, meta: TrackMetadata) -> Seq<char> {
    seq_join(render_segments(t, meta), seq!['/'])
}

impl Template {
    /// The token pattern of this template.
    pub fn pattern(&self) -> (r: &str)
        ensures
            r@ == template_pattern(*self),
    {
        match self {
            Template::Preset(p) => p.pattern(),
            Template::Custom(s) => s.as_str(),
        }
    }

    /// The token pattern used for `meta`: a preset sends a track without an
    /// album to `Album Artist/Singles/Title`.
    pub fn layout_for(&self, meta: &TrackMetadata) -> (r: &str)
        ensures
            r@ == layout_pattern(*self, *meta),
    {
        match self {
            Template::Preset(p) => {
                let named = match &meta.album {
                    Some(a) => !a.as_str().is_empty(),
                    None => false,
                };
                if *p != Preset::ArtistSingles && !named {
                    Preset::ArtistSingles.pattern()
                } else {
                    p.pattern()
                }
            },
            Template::Custom(s) => s.as_str(),
        }
    }

    /// Render this template into a target relative path (without extension).
    ///
    /// A track without an album goes under `Album Artist/Singles` when the
    /// template is a preset. Compilations are grouped under a top-level
    /// `Compilations` directory and multi-disc albums gain a `Disc N`
    /// sub-directory automatically.
    pub fn render(&self, meta: &TrackMetadata) -> (r: String)
        ensures
            r@ == render_spec(*self, *meta),
    {
        let pattern = chars_of(self.layout_for(meta));
        let pieces = split_at_char(&pattern, '/');
        let mut segments: Vec<Vec<char>> = Vec::new();
        for k in 0..pieces.len()
            invariant
                views(pieces@) == split_on(layout_pattern(*self, *meta), '/'),
                views(segments@) == rendered_segments(views(pieces@.subrange(0, k as int)), *meta),
        {
            let ghost pre = views(pieces@.subrange(0, k as int));
            let ghost next = views(pieces@.subrange(0, k + 1));
            assert(next.drop_last() =~= pre);
            assert(next.last() == pieces@[k as int]@);
            let rendered = render_segment(&pieces[k], meta);
            let clean = clean_chars(&rendered);
            if clean.len() > 0 {
                segments.push(clean);
                assert(views(segments@) =~= rendered_segments(next, *meta));
            }
        }
        assert(pieces@.subrange(0, pieces@.len() as int) =~= pieces@);
        let ghost base = views(segments@);
        if let (Some(disc), Some(total)) = (meta.disc_number, meta.disc_total) {
            if total > 1 && segments.len() >= 2 {
                let file = segments.pop().unwrap();
                let mut label: Vec<char> = chars_of("Disc ");
                push_decimal(disc as u64, &mut label);
                segments.push(clean_chars(&label));
                segments.push(file);
                assert(views(segments@) =~= with_disc_folder(base, *meta));
            }
        }
        let ghost disc_done = views(segments@);
        assert(disc_done == with_disc_folder(base, *meta));
        if meta.compilation {
            segments.insert(0, chars_of("Compilations"));
            assert(views(segments@) =~= with_compilations(disc_done, *meta));
        }
        let sep = chars_of("/");
        proof {
            reveal_strlit("/");
        }
        assert(sep@ =~= seq!['/']);
        string_of(&join_with(&segments, &sep))
    }
}

} // verus!

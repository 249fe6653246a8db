//! Formatting helpers for list and player UIs.

use vstd::prelude::*;

use crate::organization::plan::{spec_already, spec_conflicts, spec_pending, OrganizationPlan, PlanEntry};
use crate::service::LookupSummary;
use crate::text::{
    chars_of, decimal, padded2, push_all, push_decimal, push_padded2, push_signed_decimal,
    signed_decimal, string_of,
};

verus! {

/// The text shown for a duration of `ms` milliseconds: `h:mm:ss` from one
/// hour on, `m:ss` below it, and `—:—` when the duration is unknown.
/// Fractions of a second are dropped.
pub open spec fn duration_text(ms: Option<u64>) -> Seq<char> {
    match ms {
        None => "—:—"@,
        Some(ms) => {
            let total = ms / 1000;
            let hours = total / 3600;
            let mins = (total % 3600) / 60;
            let secs = total % 60;
            if hours > 0 {
                decimal(hours as nat) + seq![':'] + padded2(mins as nat) + seq![':'] + padded2(
                    secs as nat,
                )
            } else {
                decimal(mins as nat) + seq![':'] + padded2(secs as nat)
            }
        },
    }
}

/// Format milliseconds as `m:ss` or `h:mm:ss`.
pub fn format_duration_ms(ms: Option<u64>) -> (r: String)
    ensures
        r@ == duration_text(ms),
{
    match ms {
        None => "—:—".to_owned(),
        Some(ms) => {
            let total = ms / 1000;
            let hours = total / 3600;
            let mins = (total % 3600) / 60;
            let secs = total % 60;
            let mut out: Vec<char> = Vec::new();
            if hours > 0 {
                push_decimal(hours, &mut out);
                out.push(':');
                push_padded2(mins, &mut out);
                out.push(':');
                push_padded2(secs, &mut out);
            } else {
                push_decimal(mins, &mut out);
                out.push(':');
                push_padded2(secs, &mut out);
            }
            assert(out@ =~= duration_text(Some(ms)));
            string_of(&out)
        },
    }
}

/// The remaining time shown beside the seek bar: a minus sign and the
/// duration still to play (none when the position is past the end).
pub fn remaining_label(position_ms: u64, duration_ms: u64) -> (r: String)
    ensures
        r@ == seq!['-'] + duration_text(
            Some(
                if duration_ms >= position_ms {
                    (duration_ms - position_ms) as u64
                } else {
                    0u64
                },
            ),
        ),
{
    let remaining = duration_ms.saturating_sub(position_ms);
    let text = format_duration_ms(Some(remaining));
    let mut out: Vec<char> = Vec::new();
    out.push('-');
    push_all(&mut out, &chars_of(text.as_str()));
    string_of(&out)
}

/// The line under a playing track's title: its artist (or "Unknown
/// Artist"), then its album when there is one.
pub open spec fn subtitle_text(artist: Seq<char>, album: Seq<char>) -> Seq<char> {
    let shown = if artist.len() == 0 {
        "Unknown Artist"@
    } else {
        artist
    };
    if album.len() == 0 {
        shown
    } else {
        shown + "  ·  "@ + album
    }
}

/// The line under a playing track's title.
pub fn track_subtitle(artist: &str, album: &str) -> (r: String)
    ensures
        r@ == subtitle_text(artist@, album@),
{
    let mut out = if artist.is_empty() {
        chars_of("Unknown Artist")
    } else {
        chars_of(artist)
    };
    if !album.is_empty() {
        push_all(&mut out, &chars_of("  ·  "));
        push_all(&mut out, &chars_of(album));
    }
    string_of(&out)
}

/// The banner title while a scan runs.
pub fn scan_progress_title(done: usize, total: usize) -> (r: String)
    ensures
        r@ == "Scanning… "@ + decimal(done as nat) + seq!['/'] + decimal(total as nat),
{
    let mut out = chars_of("Scanning… ");
    push_decimal(done as u64, &mut out);
    out.push('/');
    push_decimal(total as u64, &mut out);
    string_of(&out)
}

/// The detail shown while a metadata lookup runs.
pub fn lookup_progress_text(done: usize, total: usize, phase: &str) -> (r: String)
    ensures
        r@ == decimal(done as nat) + seq!['/'] + decimal(total as nat) + " — "@ + phase@,
{
    let mut out: Vec<char> = Vec::new();
    push_decimal(done as u64, &mut out);
    out.push('/');
    push_decimal(total as u64, &mut out);
    push_all(&mut out, &chars_of(" — "));
    push_all(&mut out, &chars_of(phase));
    string_of(&out)
}

/// The message shown when a library-wide lookup is done.
pub open spec fn lookup_done_text(s: LookupSummary) -> Seq<char> {
    if s.albums_scanned == 0 {
        "Nothing missing — metadata looks complete"@
    } else {
        "Done — "@ + decimal(s.albums_scanned as nat) + " albums checked · "@ + decimal(
            s.artwork_updated as nat,
        ) + " artwork · "@ + decimal(s.genres_fixed as nat) + " genres · "@ + decimal(
            s.metadata_updated as nat,
        ) + " tags · "@ + decimal(s.needs_review as nat) + " need review"@
    }
}

/// The message shown when a library-wide lookup is done.
pub fn lookup_done_message(s: &LookupSummary) -> (r: String)
    ensures
        r@ == lookup_done_text(*s),
{
    if s.albums_scanned == 0 {
        return "Nothing missing — metadata looks complete".to_owned();
    }
    let mut out = chars_of("Done — ");
    push_decimal(s.albums_scanned as u64, &mut out);
    push_all(&mut out, &chars_of(" albums checked · "));
    push_decimal(s.artwork_updated as u64, &mut out);
    push_all(&mut out, &chars_of(" artwork · "));
    push_decimal(s.genres_fixed as u64, &mut out);
    push_all(&mut out, &chars_of(" genres · "));
    push_decimal(s.metadata_updated as u64, &mut out);
    push_all(&mut out, &chars_of(" tags · "));
    push_decimal(s.needs_review as u64, &mut out);
    push_all(&mut out, &chars_of(" need review"));
    string_of(&out)
}

// ---------------------------------------------------------------------------
// Organisation preview
// ---------------------------------------------------------------------------

/// The status line of an organisation preview.
pub open spec fn plan_status_text(entries: Seq<PlanEntry>) -> Seq<char> {
    if entries.len() == 0 {
        "No tracks found in the library. Add a music folder and scan first."@
    } else {
        decimal(spec_pending(entries).len()) + " move(s) ready · "@ + decimal(
            spec_already(entries),
        ) + " already organised · "@ + decimal(spec_conflicts(entries)) + " conflict(s)"@
    }
}

fn already_count(entries: &Vec<PlanEntry>) -> (r: usize)
    ensures
        r == spec_already(entries@),
{
    let mut n: usize = 0;
    for i in 0..entries.len()
        invariant
            n == spec_already(entries@.take(i as int)),
            n <= i,
    {
        assert(entries@.take(i + 1).drop_last() =~= entries@.take(i as int));
        if let PlanEntry::AlreadyOrganized(_) = &entries[i] {
            n = n + 1;
        }
    }
    assert(entries@.take(entries@.len() as int) =~= entries@);
    n
}

/// The status line of an organisation preview: how many files move, how
/// many are already in place and how many conflict.
pub fn plan_status(plan: &OrganizationPlan) -> (r: String)
    ensures
        r@ == plan_status_text(plan.entries@),
{
    if plan.entries.len() == 0 {
        return "No tracks found in the library. Add a music folder and scan first.".to_owned();
    }
    let mut out: Vec<char> = Vec::new();
    push_decimal(plan.move_count() as u64, &mut out);
    push_all(&mut out, &chars_of(" move(s) ready · "));
    push_decimal(already_count(&plan.entries) as u64, &mut out);
    push_all(&mut out, &chars_of(" already organised · "));
    push_decimal(plan.conflict_count() as u64, &mut out);
    push_all(&mut out, &chars_of(" conflict(s)"));
    string_of(&out)
}

/// How a preview row is styled.
#[derive(Debug, Clone, Copy, PartialEq, Eq, Structural)]
pub enum RowStyle {
    /// A planned move.
    Plain,
    /// A conflict.
    Error,
    /// A file already in place.
    Dim,
}

/// One row of an organisation preview.
#[derive(Debug, Clone, PartialEq, Eq)]
pub struct PreviewRow {
    pub text: String,
    pub style: RowStyle,
}

/// The rank that orders preview rows: moves, then conflicts, then files
/// already in place.
pub open spec fn entry_rank(e: PlanEntry) -> nat {
    match e {
        PlanEntry::Move(_) => 0,
        PlanEntry::Conflict { .. } => 1,
        PlanEntry::AlreadyOrganized(_) => 2,
    }
}

/// The text and style of an entry's row.
pub open spec fn entry_row(e: PlanEntry) -> (Seq<char>, RowStyle) {
    match e {
        PlanEntry::AlreadyOrganized(p) => ("Already organised — "@ + p@, RowStyle::Dim),
        PlanEntry::Move(m) => (m.from@ + "  →  "@ + m.to@, RowStyle::Plain),
        PlanEntry::Conflict { file_move } => ("Conflict — "@ + file_move.to@, RowStyle::Error),
    }
}

/// The rows of the entries of one rank, in plan order.
pub open spec fn rows_of_rank(entries: Seq<PlanEntry>, rank: nat) -> Seq<(Seq<char>, RowStyle)>
    decreases entries.len(),
{
    if entries.len() == 0 {
        Seq::empty()
    } else if entry_rank(entries.last()) == rank {
        rows_of_rank(entries.drop_last(), rank).push(entry_row(entries.last()))
    } else {
        rows_of_rank(entries.drop_last(), rank)
    }
}

/// The rows of a preview: every entry's row, moves first, then conflicts,
/// then files already in place, each group in plan order.
pub open spec fn preview_rows_spec(entries: Seq<PlanEntry>) -> Seq<(Seq<char>, RowStyle)> {
    rows_of_rank(entries, 0) + rows_of_rank(entries, 1) + rows_of_rank(entries, 2)
}

/// The text and style of a row, as plain values.
pub open spec fn row_view(r: PreviewRow) -> (Seq<char>, RowStyle) {
    (r.text@, r.style)
}

fn row_of(e: &PlanEntry) -> (r: PreviewRow)
    ensures
        row_view(r) == entry_row(*e),
{
    match e {
        PlanEntry::AlreadyOrganized(p) => {
            let mut out = chars_of("Already organised — ");
            push_all(&mut out, &chars_of(p.as_str()));
            PreviewRow { text: string_of(&out), style: RowStyle::Dim }
        },
        PlanEntry::Move(m) => {
            let mut out = chars_of(m.from.as_str());
            push_all(&mut out, &chars_of("  →  "));
            push_all(&mut out, &chars_of(m.to.as_str()));
            PreviewRow { text: string_of(&out), style: RowStyle::Plain }
        },
        PlanEntry::Conflict { file_move } => {
            let mut out = chars_of("Conflict — ");
            push_all(&mut out, &chars_of(file_move.to.as_str()));
            PreviewRow { text: string_of(&out), style: RowStyle::Error }
        },
    }
}

fn rank_of(e: &PlanEntry) -> (r: u8)
    ensures
        r as nat == entry_rank(*e),
{
    match e {
        PlanEntry::Move(_) => 0,
        PlanEntry::Conflict { .. } => 1,
        PlanEntry::AlreadyOrganized(_) => 2,
    }
}

fn push_rows_of_rank(entries: &Vec<PlanEntry>, rank: u8, out: &mut Vec<PreviewRow>)
    ensures
        final(out)@.map_values(|r: PreviewRow| row_view(r)) == old(out)@.map_values(
            |r: PreviewRow| row_view(r),
        ) + rows_of_rank(entries@, rank as nat),
{
    let ghost start = old(out)@.map_values(|r: PreviewRow| row_view(r));
    for i in 0..entries.len()
        invariant
            start == old(out)@.map_values(|r: PreviewRow| row_view(r)),
            out@.map_values(|r: PreviewRow| row_view(r)) == start + rows_of_rank(
                entries@.take(i as int),
                rank as nat,
            ),
    {
        assert(entries@.take(i + 1).drop_last() =~= entries@.take(i as int));
        assert(entries@.take(i + 1).last() == entries@[i as int]);
        let ghost before = out@;
        if rank_of(&entries[i]) == rank {
            let row = row_of(&entries[i]);
            out.push(row);
            assert(out@.map_values(|r: PreviewRow| row_view(r)) =~= before.map_values(
                |r: PreviewRow| row_view(r),
            ).push(entry_row(entries@[i as int])));
        }
    }
    assert(entries@.take(entries@.len() as int) =~= entries@);
}

/// The rows of an organisation preview, moves first so the preview feels
/// purposeful, then conflicts, then files already in place.
pub fn preview_rows(plan: &OrganizationPlan) -> (r: Vec<PreviewRow>)
    ensures
        r@.map_values(|r: PreviewRow| row_view(r)) == preview_rows_spec(plan.entries@),
{
    let mut out: Vec<PreviewRow> = Vec::new();
    assert(out@.map_values(|r: PreviewRow| row_view(r)) =~= Seq::<(Seq<char>, RowStyle)>::empty());
    push_rows_of_rank(&plan.entries, 0, &mut out);
    push_rows_of_rank(&plan.entries, 1, &mut out);
    push_rows_of_rank(&plan.entries, 2, &mut out);
    assert(Seq::<(Seq<char>, RowStyle)>::empty() + rows_of_rank(plan.entries@, 0) =~= rows_of_rank(
        plan.entries@,
        0,
    ));
    out
}

// ---------------------------------------------------------------------------
// Library labels
// ---------------------------------------------------------------------------

/// The statistics line of the library home.
pub fn library_stats(artists: u64, albums: u64, songs: u64) -> (r: String)
    ensures
        r@ == decimal(artists as nat) + " artists  ·  "@ + decimal(albums as nat)
            + " albums  ·  "@ + decimal(songs as nat) + " songs"@,
{
    let mut out: Vec<char> = Vec::new();
    push_decimal(artists, &mut out);
    push_all(&mut out, &chars_of(" artists  ·  "));
    push_decimal(albums, &mut out);
    push_all(&mut out, &chars_of(" albums  ·  "));
    push_decimal(songs, &mut out);
    push_all(&mut out, &chars_of(" songs"));
    string_of(&out)
}

/// The statistics line of an artist page: album count (singular for one),
/// song count and total duration.
pub open spec fn artist_stats_text(album_count: u32, track_count: u32, duration_ms: u64) -> Seq<
    char,
> {
    (if album_count == 1 {
        "1 album"@
    } else {
        decimal(album_count as nat) + " albums"@
    }) + "  ·  "@ + decimal(track_count as nat) + " songs  ·  "@ + duration_text(
        Some(duration_ms),
    )
}

/// The statistics line of an artist page.
pub fn artist_stats(album_count: u32, track_count: u32, duration_ms: u64) -> (r: String)
    ensures
        r@ == artist_stats_text(album_count, track_count, duration_ms),
{
    let mut out: Vec<char> = Vec::new();
    if album_count == 1 {
        push_all(&mut out, &chars_of("1 album"));
    } else {
        push_decimal(album_count as u64, &mut out);
        push_all(&mut out, &chars_of(" albums"));
    }
    push_all(&mut out, &chars_of("  ·  "));
    push_decimal(track_count as u64, &mut out);
    push_all(&mut out, &chars_of(" songs  ·  "));
    push_all(&mut out, &chars_of(format_duration_ms(Some(duration_ms)).as_str()));
    string_of(&out)
}

/// The subtitle of an album card: the artist, then on a second line the
/// year and the genre when known (each followed by ` · `) and the track
/// count.
pub open spec fn album_card_text(
    artist: Seq<char>,
    year: Option<i32>,
    genre: Option<String>,
    track_count: u32,
) -> Seq<char> {
    artist + seq!['\n'] + (match year {
        Some(y) => signed_decimal(y as int) + " · "@,
        None => Seq::empty(),
    }) + (match genre {
        Some(g) => if g@.len() > 0 {
            g@ + " · "@
        } else {
            Seq::empty()
        },
        None => Seq::empty(),
    }) + decimal(track_count as nat) + " tracks"@
}

/// The subtitle of an album card.
pub fn album_card_subtitle(
    artist: &str,
    year: Option<i32>,
    genre: &Option<String>,
    track_count: u32,
) -> (r: String)
    ensures
        r@ == album_card_text(artist@, year, *genre, track_count),
{
    let mut out = chars_of(artist);
    out.push('\n');
    if let Some(y) = year {
        push_signed_decimal(y as i64, &mut out);
        push_all(&mut out, &chars_of(" · "));
    }
    if let Some(g) = genre {
        if !g.as_str().is_empty() {
            push_all(&mut out, &chars_of(g.as_str()));
            push_all(&mut out, &chars_of(" · "));
        }
    }
    push_decimal(track_count as u64, &mut out);
    push_all(&mut out, &chars_of(" tracks"));
    string_of(&out)
}

/// The subtitle of an album in search results: the artist, the year when
/// known, and the track count.
pub fn album_row_subtitle(artist: &str, year: Option<i32>, track_count: u32) -> (r: String)
    ensures
        r@ == artist@ + (match year {
            Some(y) => " · "@ + signed_decimal(y as int),
            None => Seq::empty(),
        }) + " · "@ + decimal(track_count as nat) + " tracks"@,
{
    let mut out = chars_of(artist);
    if let Some(y) = year {
        push_all(&mut out, &chars_of(" · "));
        push_signed_decimal(y as i64, &mut out);
    }
    push_all(&mut out, &chars_of(" · "));
    push_decimal(track_count as u64, &mut out);
    push_all(&mut out, &chars_of(" tracks"));
    string_of(&out)
}

/// The question asked before deleting `count` tracks, the first titled
/// `first_title` (or "track" when there is none).
pub open spec fn delete_tracks_text(first_title: Option<Seq<char>>, count: nat) -> Seq<char> {
    "Delete “"@ + (match first_title {
        Some(t) => t,
        None => "track"@,
    }) + "”"@ + (if count > 1 {
        " and "@ + decimal((count - 1) as nat) + " other tracks"@
    } else {
        Seq::empty()
    }) + " from Cadence and remove the file"@ + (if count > 1 {
        "s"@
    } else {
        Seq::empty()
    }) + " from disk. This cannot be undone."@
}

/// The question asked before deleting tracks.
pub fn delete_tracks_message(first_title: Option<&str>, count: usize) -> (r: String)
    ensures
        r@ == delete_tracks_text(
            match first_title {
                Some(t) => Some(t@),
                None => None,
            },
            count as nat,
        ),
{
    let mut out = chars_of("Delete “");
    match first_title {
        Some(t) => push_all(&mut out, &chars_of(t)),
        None => push_all(&mut out, &chars_of("track")),
    }
    push_all(&mut out, &chars_of("”"));
    if count > 1 {
        push_all(&mut out, &chars_of(" and "));
        push_decimal((count - 1) as u64, &mut out);
        push_all(&mut out, &chars_of(" other tracks"));
    }
    push_all(&mut out, &chars_of(" from Cadence and remove the file"));
    if count > 1 {
        push_all(&mut out, &chars_of("s"));
    }
    push_all(&mut out, &chars_of(" from disk. This cannot be undone."));
    string_of(&out)
}

/// The question asked before deleting an album.
pub fn delete_album_message(track_count: u32) -> (r: String)
    ensures
        r@ == "Delete this album ("@ + decimal(track_count as nat)
            + " tracks) from Cadence and remove the files from disk. This cannot be undone."@,
{
    let mut out = chars_of("Delete this album (");
    push_decimal(track_count as u64, &mut out);
    push_all(
        &mut out,
        &chars_of(" tracks) from Cadence and remove the files from disk. This cannot be undone."),
    );
    string_of(&out)
}

} // verus!

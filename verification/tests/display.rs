use cadence_core::display::{
    album_card_subtitle, album_row_subtitle, artist_stats, delete_album_message,
    delete_tracks_message, library_stats,
};
use cadence_core::display::{
    format_duration_ms, lookup_done_message, lookup_progress_text, plan_status, preview_rows,
    remaining_label, scan_progress_title, track_subtitle, PreviewRow, RowStyle,
};
use cadence_core::organization::{FileMove, OrganizationPlan, PlanEntry};
use cadence_core::service::LookupSummary;

#[test]
fn durations() {
    assert_eq!(format_duration_ms(None), "—:—");
    assert_eq!(format_duration_ms(Some(0)), "0:00");
    assert_eq!(format_duration_ms(Some(61_999)), "1:01");
    assert_eq!(format_duration_ms(Some(3_599_000)), "59:59");
    assert_eq!(format_duration_ms(Some(3_600_000)), "1:00:00");
    assert_eq!(format_duration_ms(Some(36_005_000)), "10:00:05");
}

#[test]
fn remaining_time_saturates() {
    assert_eq!(remaining_label(30_000, 90_000), "-1:00");
    assert_eq!(remaining_label(95_000, 90_000), "-0:00");
}

#[test]
fn subtitles_and_progress() {
    assert_eq!(track_subtitle("", ""), "Unknown Artist");
    assert_eq!(track_subtitle("Miles", "Kind of Blue"), "Miles  ·  Kind of Blue");
    assert_eq!(scan_progress_title(3, 10), "Scanning… 3/10");
    assert_eq!(lookup_progress_text(1, 4, "Album · X"), "1/4 — Album · X");
}

#[test]
fn lookup_messages() {
    assert_eq!(
        lookup_done_message(&LookupSummary::default()),
        "Nothing missing — metadata looks complete"
    );
    let s = LookupSummary {
        albums_scanned: 5,
        artwork_updated: 1,
        genres_fixed: 2,
        metadata_updated: 3,
        artist_photos: 0,
        needs_review: 4,
        network_lookups: 5,
    };
    assert_eq!(
        lookup_done_message(&s),
        "Done — 5 albums checked · 1 artwork · 2 genres · 3 tags · 4 need review"
    );
}

fn mv(a: &str, b: &str) -> FileMove {
    FileMove { from: a.into(), to: b.into() }
}

#[test]
fn preview_lists_moves_then_conflicts_then_done() {
    let plan = OrganizationPlan {
        entries: vec![
            PlanEntry::AlreadyOrganized("/p".into()),
            PlanEntry::Conflict { file_move: mv("/c", "/d") },
            PlanEntry::Move(mv("/a", "/b")),
            PlanEntry::Move(mv("/e", "/f")),
        ],
    };
    assert_eq!(plan_status(&plan), "2 move(s) ready · 1 already organised · 1 conflict(s)");
    assert_eq!(
        preview_rows(&plan),
        vec![
            PreviewRow { text: "/a  →  /b".into(), style: RowStyle::Plain },
            PreviewRow { text: "/e  →  /f".into(), style: RowStyle::Plain },
            PreviewRow { text: "Conflict — /d".into(), style: RowStyle::Error },
            PreviewRow { text: "Already organised — /p".into(), style: RowStyle::Dim },
        ]
    );
    let empty = OrganizationPlan::default();
    assert_eq!(
        plan_status(&empty),
        "No tracks found in the library. Add a music folder and scan first."
    );
    assert!(preview_rows(&empty).is_empty());
}

#[test]
fn library_labels() {
    assert_eq!(library_stats(2, 3, 40), "2 artists  ·  3 albums  ·  40 songs");
    assert_eq!(artist_stats(1, 9, 61_000), "1 album  ·  9 songs  ·  1:01");
    assert_eq!(artist_stats(4, 9, 0), "4 albums  ·  9 songs  ·  0:00");
    assert_eq!(
        album_card_subtitle("Miles", Some(1959), &Some("Jazz".into()), 5),
        "Miles\n1959 · Jazz · 5 tracks"
    );
    assert_eq!(album_card_subtitle("Miles", None, &Some(String::new()), 5), "Miles\n5 tracks");
    assert_eq!(album_row_subtitle("Miles", Some(1959), 5), "Miles · 1959 · 5 tracks");
    assert_eq!(album_row_subtitle("Miles", None, 1), "Miles · 1 tracks");
    assert_eq!(
        delete_tracks_message(Some("So What"), 1),
        "Delete “So What” from Cadence and remove the file from disk. This cannot be undone."
    );
    assert_eq!(
        delete_tracks_message(Some("So What"), 3),
        "Delete “So What” and 2 other tracks from Cadence and remove the files from disk. This cannot be undone."
    );
    assert_eq!(
        delete_tracks_message(None, 0),
        "Delete “track” from Cadence and remove the file from disk. This cannot be undone."
    );
    assert_eq!(
        delete_album_message(7),
        "Delete this album (7 tracks) from Cadence and remove the files from disk. This cannot be undone."
    );
}
